//! Flight Message Transfer Protocol (FMTP, EUROCONTROL v2.0): the packet format, the
//! identification handshake, the connection state machine and the decisions of a
//! connection driver, with their contracts proved by Verus.
//!
//! - [`packet`]: the wire format of packets, the control packets and the handshake check.
//! - [`connection`]: the state machine and its send and receive queues.
//! - [`event`]: the events that drive the state machine, from user commands and packets.
//! - [`driver`]: what a driver waits for in each state and what it reports.
//! - [`server`]: the bookkeeping of a server that runs many connections.
//! - [`config`], [`identifier`], [`message`], [`time`], [`error`], [`bytes`]: the values
//!   these are built from.

pub mod bytes;
pub mod config;
pub mod connection;
pub mod driver;
pub mod error;
pub mod event;
pub mod identifier;
pub mod message;
pub mod packet;
pub mod server;
pub mod time;

pub use config::{Config, ConnectionConfig, ConnectionMap, NameMap, Role, Target};
pub use connection::{Connection, ConnectionContext, ConnectionState, RxFut, State, TxFut};
pub use driver::ConnectionEvent;
pub use error::FmtpError;
pub use event::{Event, UserCommand};
pub use identifier::FmtpIdentifier;
pub use message::FmtpMessage;
pub use packet::{FmtpPacket, FmtpPacketHeader, FmtpType};
pub use time::{Duration, Instant, Ti, Tr, Ts};
