//! Events that drive the connection state machine, and the user commands and incoming
//! packets they come from.

use crate::config::Config;
use crate::error::FmtpError;
use crate::message::{FmtpMessage, MessageView};
use crate::packet::{
    accept_payload, handshake_result, lemma_handshake_result, handshake_payload, heartbeat_payload, identifies,
    lemma_control_payloads_distinct, lemma_message_roundtrip, message_packet, name_of,
    reject_payload, shutdown_payload, startup_payload, FmtpPacket, FmtpType, PacketView,
};
use crate::time::Instant;
use vstd::prelude::*;

verus! {

/// Commands that the user issues to control an FMTP connection (the MT-* service
/// primitives of the FMTP specification).
#[derive(Debug)]
pub enum UserCommand {
    /// Establish an FMTP connection (MT-CON).
    Setup {
        /// Name of the connection configuration to use.
        id: String,
    },
    /// Stop the association and release the connection (MT-DIS).
    Disconnect,
    /// Send a message over the association (MT-DATA).
    Data {
        /// The message to send.
        msg: FmtpMessage,
    },
    /// Stop the association, keeping the connection (MT-STOP).
    Shutdown,
    /// Establish an association over the connection (MT-ASSOC).
    Startup,
}

/// Events that drive the FMTP connection state machine: received packets, timer
/// expiries and user requests.
#[derive(Debug)]
pub enum Event {
    /// The transport connection has been established.
    RSetup { now: Instant },
    /// The transport connection has been released.
    RDisconnect,
    /// A REJECT identification packet has been received.
    RReject,
    /// An ACCEPT identification packet has been received.
    RAccept { now: Instant },
    /// An identification packet naming a configured connection has been received.
    RIdValid { now: Instant, id: String },
    /// An identification packet that names no configured connection has been received.
    RIdInvalid,
    /// An operational or operator message has been received.
    RData { now: Instant, msg: FmtpMessage },
    /// A HEARTBEAT has been received.
    RHeartbeat { now: Instant },
    /// A SHUTDOWN has been received.
    RShutdown { now: Instant },
    /// A STARTUP has been received.
    RStartup { now: Instant },
    /// The identification timer has expired.
    TiTimeout,
    /// The response timer has expired.
    TrTimeout { now: Instant },
    /// The heartbeat timer has expired.
    TsTimeout { now: Instant },
    /// The user asks to send a message (MT-DATA).
    LData { now: Instant, msg: FmtpMessage },
    /// The user asks to stop the association (MT-STOP).
    LShutdown { now: Instant },
    /// The user asks to establish an association (MT-ASSOC).
    LStartup { now: Instant },
    /// The user asks to establish a connection (MT-CON).
    LSetup { id: String },
    /// The user asks to release the connection (MT-DIS).
    LDisconnect,
}

/// The event that user command `c`, issued at `now`, becomes.
pub open spec fn command_event(c: UserCommand, now: Instant) -> Event {
    match c {
        UserCommand::Data { msg } => Event::LData { now, msg },
        UserCommand::Shutdown => Event::LShutdown { now },
        UserCommand::Startup => Event::LStartup { now },
        UserCommand::Setup { id } => Event::LSetup { id },
        UserCommand::Disconnect => Event::LDisconnect,
    }
}

impl UserCommand {
    /// The event that this command, issued at `now`, becomes.
    pub fn into_event(self, now: Instant) -> (e: Event)
        ensures
            e == command_event(self, now),
    {
        match self {
            UserCommand::Data { msg } => Event::LData { now, msg },
            UserCommand::Shutdown => Event::LShutdown { now },
            UserCommand::Startup => Event::LStartup { now },
            UserCommand::Setup { id } => Event::LSetup { id },
            UserCommand::Disconnect => Event::LDisconnect,
        }
    }
}

/// What a packet `p`, received at `now` with `bytes` bytes read, may become: with nothing
/// read, a release of the connection; otherwise the event its type and payload name (an
/// identification packet other than ACCEPT and REJECT is checked against `config`).
pub open spec fn incoming_outcome(
    bytes: usize,
    p: PacketView,
    now: Instant,
    config: Config,
    cid: Option<Seq<char>>,
    r: Result<Event, FmtpError>,
) -> bool {
    if bytes == 0 {
        r matches Ok(Event::RDisconnect)
    } else {
        match p.typ {
            FmtpType::Operational | FmtpType::Operator => r matches Ok(Event::RData { now: n, msg })
                && n == now && p.to_message() == Ok::<_, FmtpError>(msg@),
            FmtpType::Identification => {
                if p.payload == accept_payload() {
                    r matches Ok(Event::RAccept { now: n }) && n == now
                } else if p.payload == reject_payload() {
                    r matches Ok(Event::RReject)
                } else {
                    match handshake_result(p, config, cid) {
                        Some(k) => r matches Ok(Event::RIdValid { now: n, id }) && n == now && id@
                            == k,
                        None => r matches Ok(Event::RIdInvalid),
                    }
                }
            },
            FmtpType::System => {
                if p.payload == startup_payload() {
                    r matches Ok(Event::RStartup { now: n }) && n == now
                } else if p.payload == shutdown_payload() {
                    r matches Ok(Event::RShutdown { now: n }) && n == now
                } else if p.payload == heartbeat_payload() {
                    r matches Ok(Event::RHeartbeat { now: n }) && n == now
                } else {
                    r == Err::<Event, FmtpError>(FmtpError::UnexpectedSystemPayload)
                }
            },
        }
    }
}

impl Event {
    /// Translates a packet received at `now` into an event; `bytes == 0` (nothing read)
    /// is a release of the connection.
    pub fn from_incoming_packet(
        bytes: usize,
        packet: FmtpPacket,
        now: Instant,
        config: &Config,
        connection_id: Option<&String>,
    ) -> (r: Result<Event, FmtpError>)
        ensures
            incoming_outcome(bytes, packet@, now, *config, name_of(connection_id), r),
    {
        if bytes == 0 {
            return Ok(Event::RDisconnect);
        }
        match packet.typ() {
            FmtpType::Operational | FmtpType::Operator => {
                let msg = packet.try_to_msg()?;
                Ok(Event::RData { now, msg })
            },
            FmtpType::Identification => {
                if packet.is_accept() {
                    Ok(Event::RAccept { now })
                } else if packet.is_reject() {
                    Ok(Event::RReject)
                } else {
                    match packet.check_handshake(config, connection_id) {
                        Some(id) => Ok(Event::RIdValid { now, id: id.clone() }),
                        None => Ok(Event::RIdInvalid),
                    }
                }
            },
            FmtpType::System => {
                if packet.is_startup() {
                    Ok(Event::RStartup { now })
                } else if packet.is_shutdown() {
                    Ok(Event::RShutdown { now })
                } else if packet.is_heartbeat() {
                    Ok(Event::RHeartbeat { now })
                } else {
                    Err(FmtpError::UnexpectedSystemPayload)
                }
            },
        }
    }
}

/// Every control packet and message packet this library builds is translated, on
/// arrival, into the event it stands for.
pub proof fn lemma_incoming_classification(
    n: usize,
    now: Instant,
    config: Config,
    cid: Option<Seq<char>>,
    m: MessageView,
    r: Result<Event, FmtpError>,
)
    requires
        n > 0,
    ensures
        incoming_outcome(n, PacketView::of(FmtpType::System, startup_payload()), now, config, cid, r)
            ==> (r matches Ok(Event::RStartup { now: t }) && t == now),
        incoming_outcome(n, PacketView::of(FmtpType::System, shutdown_payload()), now, config, cid, r)
            ==> (r matches Ok(Event::RShutdown { now: t }) && t == now),
        incoming_outcome(n, PacketView::of(FmtpType::System, heartbeat_payload()), now, config, cid, r)
            ==> (r matches Ok(Event::RHeartbeat { now: t }) && t == now),
        incoming_outcome(
            n,
            PacketView::of(FmtpType::Identification, accept_payload()),
            now,
            config,
            cid,
            r,
        ) ==> (r matches Ok(Event::RAccept { now: t }) && t == now),
        incoming_outcome(
            n,
            PacketView::of(FmtpType::Identification, reject_payload()),
            now,
            config,
            cid,
            r,
        ) ==> r matches Ok(Event::RReject),
        incoming_outcome(n, message_packet(m), now, config, cid, r) ==> (r matches Ok(Event::RData { now: t, msg }) && t == now
            && msg@ == m),
{
    lemma_control_payloads_distinct(Seq::empty(), Seq::empty());
    lemma_message_roundtrip(m);
}

/// An identification packet that the configuration of connection `k` expects, received
/// by an end that knows it is `k`, becomes `RIdValid` naming `k`; one that no
/// configuration expects, received by an end that does not know its name yet, becomes
/// `RIdInvalid`.
pub proof fn lemma_identification_outcome(
    n: usize,
    local: Seq<u8>,
    remote: Seq<u8>,
    now: Instant,
    config: Config,
    k: Seq<char>,
    r: Result<Event, FmtpError>,
)
    requires
        n > 0,
        config.connections@.contains_key(k),
    ensures
        ({
            let p = PacketView::of(FmtpType::Identification, handshake_payload(local, remote));
            identifies(p, config.connections@[k]) && incoming_outcome(n, p, now, config, Some(k), r)
                ==> (r matches Ok(Event::RIdValid { now: t, id }) && t == now && id@ == k)
        }),
        ({
            let p = PacketView::of(FmtpType::Identification, handshake_payload(local, remote));
            (forall|q: Seq<char>| #[trigger] config.connections@.contains_key(q) ==> !identifies(p, config.connections@[q]))
                && incoming_outcome(n, p, now, config, None, r) ==> r matches Ok(Event::RIdInvalid)
        }),
{
    lemma_control_payloads_distinct(local, remote);
    let p = PacketView::of(FmtpType::Identification, handshake_payload(local, remote));
    lemma_handshake_result(p, config, Some(k));
    lemma_handshake_result(p, config, None);
}

} // verus!
