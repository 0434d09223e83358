//! The FMTP connection state machine (EUROCONTROL FMTP v2.0) and the queues between it
//! and the transport.
//!
//! States: IDLE, CONNECTION_PENDING, ID_PENDING, ACCEPT_PENDING, READY,
//! ASSOCIATION_PENDING, DATA_READY and ERROR. Handling an event first records the
//! target that a user request implies, then lets the current state's handler choose the
//! next state, at most one packet to send and at most one message to deliver.

use crate::config::{Config, ConnectionConfig, Target};
use crate::error::FmtpError;
use crate::event::{incoming_outcome, Event};
use crate::message::{FmtpMessage, MessageView, MAX_PAYLOAD};
use crate::packet::{
    accept_payload, decode, handshake_payload, heartbeat_payload,
    identifies, lemma_control_payloads_distinct, lemma_handshake_result, message_packet, name_view, reject_payload,
    shutdown_payload, startup_payload, FmtpPacket, FmtpType, PacketView,
};
use crate::time::{Duration, Instant, Ti, Tr, Ts};
use std::collections::VecDeque;
use vstd::prelude::*;

verus! {

/// `q` with `x` appended, where there is an `x`.
pub open spec fn extended<A>(q: Seq<A>, x: Option<A>) -> Seq<A> {
    match x {
        Some(a) => q.push(a),
        None => q,
    }
}

/// Queues between the state machine and the transport: packets to send and messages
/// received for the user, each first in, first out.
#[derive(Debug, Clone, PartialEq, Eq)]
pub struct ConnectionContext {
    send_queue: VecDeque<FmtpPacket>,
    recv_queue: VecDeque<FmtpMessage>,
}

/// A packet to send, once taken from the send queue.
pub struct TxFut(Option<FmtpPacket>);

/// A received message, once taken from the receive queue.
pub struct RxFut(Option<FmtpMessage>);

impl TxFut {
    /// The packet this holds, if any.
    pub closed spec fn pending(&self) -> Option<PacketView> {
        match self.0 {
            Some(p) => Some(p@),
            None => None,
        }
    }

    /// Takes the packet this holds, leaving nothing.
    pub fn poll_ready(&mut self) -> (p: Option<FmtpPacket>)
        ensures
            match p {
                Some(p) => old(self).pending() == Some(p@),
                None => old(self).pending() is None,
            },
            final(self).pending() is None,
    {
        self.0.take()
    }
}

impl RxFut {
    /// The message this holds, if any.
    pub closed spec fn pending(&self) -> Option<MessageView> {
        match self.0 {
            Some(m) => Some(m@),
            None => None,
        }
    }

    /// Takes the message this holds, leaving nothing.
    pub fn poll_ready(&mut self) -> (m: Option<FmtpMessage>)
        ensures
            match m {
                Some(m) => old(self).pending() == Some(m@),
                None => old(self).pending() is None,
            },
            final(self).pending() is None,
    {
        self.0.take()
    }
}

impl ConnectionContext {
    /// The packets waiting to be sent, oldest first.
    pub closed spec fn outgoing(&self) -> Seq<PacketView> {
        self.send_queue@.map_values(|p: FmtpPacket| p@)
    }

    /// The messages waiting for the user, oldest first.
    pub closed spec fn incoming(&self) -> Seq<MessageView> {
        self.recv_queue@.map_values(|m: FmtpMessage| m@)
    }

    /// Empty queues.
    pub fn new() -> (c: ConnectionContext)
        ensures
            c.outgoing() == Seq::<PacketView>::empty(),
            c.incoming() == Seq::<MessageView>::empty(),
    {
        let c = ConnectionContext { send_queue: VecDeque::new(), recv_queue: VecDeque::new() };
        assert(c.outgoing() =~= Seq::<PacketView>::empty());
        assert(c.incoming() =~= Seq::<MessageView>::empty());
        c
    }

    /// Takes the oldest packet waiting to be sent.
    pub fn poll_transmit(&mut self) -> (p: Option<FmtpPacket>)
        ensures
            match p {
                Some(p) => {
                    &&& old(self).outgoing().len() > 0
                    &&& p@ == old(self).outgoing()[0]
                    &&& final(self).outgoing() == old(self).outgoing().drop_first()
                },
                None => old(self).outgoing().len() == 0 && final(self).outgoing() == old(
                    self,
                ).outgoing(),
            },
            final(self).incoming() == old(self).incoming(),
    {
        let p = self.send_queue.pop_front();
        assert(self.outgoing() =~= old(self).outgoing().subrange(
            if p is Some { 1int } else { 0int },
            old(self).outgoing().len() as int,
        ));
        p
    }

    /// The oldest packet waiting to be sent, taken from the queue.
    pub fn transmit_future(&mut self) -> (f: TxFut)
        ensures
            match f.pending() {
                Some(p) => {
                    &&& old(self).outgoing().len() > 0
                    &&& p == old(self).outgoing()[0]
                    &&& final(self).outgoing() == old(self).outgoing().drop_first()
                },
                None => old(self).outgoing().len() == 0 && final(self).outgoing() == old(
                    self,
                ).outgoing(),
            },
            final(self).incoming() == old(self).incoming(),
    {
        TxFut(self.poll_transmit())
    }

    /// Takes the oldest message waiting for the user.
    pub fn poll_receive(&mut self) -> (m: Option<FmtpMessage>)
        ensures
            match m {
                Some(m) => {
                    &&& old(self).incoming().len() > 0
                    &&& m@ == old(self).incoming()[0]
                    &&& final(self).incoming() == old(self).incoming().drop_first()
                },
                None => old(self).incoming().len() == 0 && final(self).incoming() == old(
                    self,
                ).incoming(),
            },
            final(self).outgoing() == old(self).outgoing(),
    {
        let m = self.recv_queue.pop_front();
        assert(self.incoming() =~= old(self).incoming().subrange(
            if m is Some { 1int } else { 0int },
            old(self).incoming().len() as int,
        ));
        m
    }

    /// The oldest message waiting for the user, taken from the queue.
    pub fn receive_future(&mut self) -> (f: RxFut)
        ensures
            match f.pending() {
                Some(m) => {
                    &&& old(self).incoming().len() > 0
                    &&& m == old(self).incoming()[0]
                    &&& final(self).incoming() == old(self).incoming().drop_first()
                },
                None => old(self).incoming().len() == 0 && final(self).incoming() == old(
                    self,
                ).incoming(),
            },
            final(self).outgoing() == old(self).outgoing(),
    {
        RxFut(self.poll_receive())
    }

    fn push_packet(&mut self, p: FmtpPacket)
        ensures
            final(self).outgoing() == old(self).outgoing().push(p@),
            final(self).incoming() == old(self).incoming(),
    {
        let ghost pv = p@;
        self.send_queue.push_back(p);
        assert(self.outgoing() =~= old(self).outgoing().push(pv));
    }

    fn push_message(&mut self, m: FmtpMessage)
        ensures
            final(self).incoming() == old(self).incoming().push(m@),
            final(self).outgoing() == old(self).outgoing(),
    {
        let ghost mv = m@;
        self.recv_queue.push_back(m);
        assert(self.incoming() =~= old(self).incoming().push(mv));
    }
}

impl Default for ConnectionContext {
    fn default() -> (c: Self)
        ensures
            c.outgoing() == Seq::<PacketView>::empty(),
            c.incoming() == Seq::<MessageView>::empty(),
    {
        ConnectionContext::new()
    }
}

/// A state of the FMTP state machine; the waiting states hold their timers' deadlines.
#[derive(Clone, Copy, Debug, PartialEq, Eq, Structural)]
pub enum State {
    /// No connection.
    Idle,
    /// A transport connection has been requested.
    ConnectionPending,
    /// Waiting for the remote end to identify itself.
    IdPending { ti: Ti },
    /// Identified the remote end, waiting for it to accept.
    AcceptPending { ti: Ti },
    /// Connected and identified, no association.
    Ready { tr: Tr },
    /// Association requested, waiting for the remote end's STARTUP.
    AssociationPending { tr: Tr },
    /// Associated: messages flow.
    DataReady { tr: Tr, ts: Ts },
    /// Terminal error state.
    Error,
}

/// What the state machine keeps besides its state.
#[derive(Debug, Clone)]
pub struct ConnectionState {
    /// The configuration, fixed for the connection's life.
    pub config: Config,
    /// Whether this end accepted the transport connection.
    pub server: bool,
    /// The state the connection should reach and keep.
    pub target: Target,
    /// The name of the connection configuration in use, once known.
    pub id: Option<String>,
}

/// The configuration of the connection named `id` in `config`, if there is one.
pub open spec fn configured_in(config: Config, id: Option<String>) -> Option<ConnectionConfig> {
    match id {
        Some(name) => if config.connections@.contains_key(name@) {
            Some(config.connections@[name@])
        } else {
            None
        },
        None => None,
    }
}

/// The configuration of the connection that `s` names, if there is one.
pub open spec fn configured(s: ConnectionState) -> Option<ConnectionConfig> {
    configured_in(s.config, s.id)
}

/// The point `d` after `now` (meaningful where it is on the clock).
pub open spec fn deadline(now: Instant, d: Duration) -> Instant {
    Instant { millis: (now.millis + d.millis) as u64 }
}

/// What handling one event does: the storage and state afterwards, the packet queued for
/// sending and the message queued for the user, if any, and whether every deadline it
/// computes is on the clock and every packet it builds fits (elsewhere the step is not
/// defined).
pub struct Step {
    pub storage: ConnectionState,
    pub state: State,
    pub sent: Option<PacketView>,
    pub delivered: Option<MessageView>,
    pub defined: bool,
}

/// Move to `st`, sending and delivering nothing.
pub open spec fn go(s: ConnectionState, st: State) -> Step {
    Step { storage: s, state: st, sent: None, delivered: None, defined: true }
}

/// Move to `st`, sending `p`.
pub open spec fn go_sending(s: ConnectionState, st: State, p: PacketView) -> Step {
    Step { storage: s, state: st, sent: Some(p), delivered: None, defined: true }
}

/// The target after a user request: MT-STOP aims at READY, MT-ASSOC at DATA_READY,
/// MT-DIS at IDLE; other events keep it.
pub open spec fn requested_target(t: Target, e: Event) -> Target {
    match e {
        Event::LShutdown { .. } => Target::Ready,
        Event::LStartup { .. } => Target::DataReady,
        Event::LDisconnect => Target::Idle,
        _ => t,
    }
}

/// IDLE: a server accepts a transport connection, a client sets up a configured one.
pub open spec fn idle_step(s: ConnectionState, e: Event) -> Step {
    match e {
        Event::RSetup { now } => match s.config.server_ti {
            Some(d) => Step {
                defined: now.can_add(d),
                ..go(ConnectionState { server: true, ..s }, State::IdPending { ti: Ti(deadline(now, d)) })
            },
            None => go(s, State::Error),
        },
        Event::RDisconnect | Event::LDisconnect => go(s, State::Idle),
        Event::LSetup { id } => if s.config.connections@.contains_key(id@) {
            go(
                ConnectionState {
                    id: Some(id),
                    server: false,
                    target: s.config.connections@[id@].initial_target,
                    ..s
                },
                State::ConnectionPending,
            )
        } else {
            go(s, State::Error)
        },
        _ => go(s, State::Error),
    }
}

/// CONNECTION_PENDING: once the transport is up, send the identification.
pub open spec fn connection_pending_step(s: ConnectionState, e: Event) -> Step {
    match configured(s) {
        None => go(s, State::Idle),
        Some(cc) => match e {
            Event::RSetup { now } => Step {
                defined: now.can_add(cc.ti),
                ..go_sending(
                    ConnectionState { target: cc.initial_target, ..s },
                    State::IdPending { ti: Ti(deadline(now, cc.ti)) },
                    PacketView::of(FmtpType::Identification, handshake_payload(cc.local_id@, cc.remote_id@)),
                )
            },
            Event::RDisconnect | Event::LDisconnect => go(s, State::Idle),
            _ => go(s, State::Error),
        },
    }
}

/// ID_PENDING: a server answers a valid identification with its own, a client accepts it;
/// an invalid one is rejected.
pub open spec fn id_pending_step(s: ConnectionState, e: Event) -> Step {
    match e {
        Event::RIdValid { now, id } => if s.server {
            let named = ConnectionState { id: Some(id), ..s };
            match configured(named) {
                None => go(named, State::Idle),
                Some(cc) => Step {
                    defined: now.can_add(cc.ti),
                    ..go_sending(
                        ConnectionState { target: cc.initial_target, ..named },
                        State::AcceptPending { ti: Ti(deadline(now, cc.ti)) },
                        PacketView::of(
                            FmtpType::Identification,
                            handshake_payload(cc.local_id@, cc.remote_id@),
                        ),
                    )
                },
            }
        } else {
            match configured(s) {
                None => go(s, State::Idle),
                Some(cc) => Step {
                    defined: now.can_add(cc.tr),
                    ..go_sending(
                        s,
                        State::Ready { tr: Tr(deadline(now, cc.tr)) },
                        PacketView::of(FmtpType::Identification, accept_payload()),
                    )
                },
            }
        },
        Event::RIdInvalid => go_sending(
            s,
            State::Idle,
            PacketView::of(FmtpType::Identification, reject_payload()),
        ),
        Event::RDisconnect | Event::RReject | Event::RAccept { .. } | Event::RData { .. }
        | Event::RHeartbeat { .. } | Event::RShutdown { .. } | Event::RStartup { .. }
        | Event::TiTimeout | Event::LDisconnect => go(s, State::Idle),
        _ => go(s, State::Error),
    }
}

/// ACCEPT_PENDING: the remote end's ACCEPT completes identification.
pub open spec fn accept_pending_step(s: ConnectionState, e: Event) -> Step {
    match configured(s) {
        None => go(s, State::Idle),
        Some(cc) => match e {
            Event::RAccept { now } => Step {
                defined: now.can_add(cc.tr),
                ..go(s, State::Ready { tr: Tr(deadline(now, cc.tr)) })
            },
            Event::RDisconnect | Event::RReject | Event::RIdInvalid | Event::RIdValid { .. }
            | Event::RData { .. } | Event::RHeartbeat { .. } | Event::RShutdown { .. }
            | Event::RStartup { .. } | Event::TiTimeout | Event::LDisconnect => go(s, State::Idle),
            _ => go(s, State::Error),
        },
    }
}

/// READY: the user may ask for an association.
pub open spec fn ready_step(s: ConnectionState, e: Event, tr: Tr) -> Step {
    match configured(s) {
        None => go(s, State::Idle),
        Some(cc) => match e {
            Event::LStartup { now } => Step {
                defined: now.can_add(cc.tr),
                ..go_sending(
                    s,
                    State::AssociationPending { tr: Tr(deadline(now, cc.tr)) },
                    PacketView::of(FmtpType::System, startup_payload()),
                )
            },
            Event::RDisconnect | Event::LDisconnect => go(s, State::Idle),
            Event::RShutdown { .. } | Event::RHeartbeat { .. } => go(s, State::Ready { tr }),
            _ => go(s, State::Error),
        },
    }
}

/// ASSOCIATION_PENDING: the remote end's STARTUP completes the association; an expired
/// response timer repeats the request.
pub open spec fn association_pending_step(s: ConnectionState, e: Event) -> Step {
    match configured(s) {
        None => go(s, State::Idle),
        Some(cc) => match e {
            Event::RStartup { now } => Step {
                defined: now.can_add(cc.tr) && now.can_add(cc.ts),
                ..go_sending(
                    s,
                    State::DataReady { tr: Tr(deadline(now, cc.tr)), ts: Ts(deadline(now, cc.ts)) },
                    PacketView::of(FmtpType::System, startup_payload()),
                )
            },
            Event::TrTimeout { now } => Step {
                defined: now.can_add(cc.tr),
                ..go_sending(
                    s,
                    State::AssociationPending { tr: Tr(deadline(now, cc.tr)) },
                    PacketView::of(FmtpType::System, startup_payload()),
                )
            },
            Event::RDisconnect => go(s, State::Idle),
            Event::LDisconnect => go_sending(
                s,
                State::Idle,
                PacketView::of(FmtpType::System, shutdown_payload()),
            ),
            Event::LShutdown { now } => Step {
                defined: now.can_add(cc.tr),
                ..go_sending(
                    s,
                    State::Ready { tr: Tr(deadline(now, cc.tr)) },
                    PacketView::of(FmtpType::System, shutdown_payload()),
                )
            },
            Event::RShutdown { now } => Step {
                defined: now.can_add(cc.tr),
                ..go(s, State::Ready { tr: Tr(deadline(now, cc.tr)) })
            },
            _ => go(s, State::Error),
        },
    }
}

/// DATA_READY: messages flow both ways; the heartbeat timer is restarted by whatever this
/// end sends, the response timer by whatever arrives.
pub open spec fn data_ready_step(s: ConnectionState, e: Event, tr: Tr, ts: Ts) -> Step {
    match configured(s) {
        None => go(s, State::Idle),
        Some(cc) => match e {
            Event::TsTimeout { now } => Step {
                defined: now.can_add(cc.ts),
                ..go_sending(
                    s,
                    State::DataReady { tr, ts: Ts(deadline(now, cc.ts)) },
                    PacketView::of(FmtpType::System, heartbeat_payload()),
                )
            },
            Event::TrTimeout { .. } | Event::RDisconnect | Event::LDisconnect => go_sending(
                s,
                State::Idle,
                PacketView::of(FmtpType::System, shutdown_payload()),
            ),
            Event::RData { now, msg } => Step {
                storage: s,
                state: State::DataReady { tr: Tr(deadline(now, cc.tr)), ts },
                sent: None,
                delivered: Some(msg@),
                defined: now.can_add(cc.tr),
            },
            Event::RHeartbeat { now } | Event::RStartup { now } => Step {
                defined: now.can_add(cc.tr),
                ..go(s, State::DataReady { tr: Tr(deadline(now, cc.tr)), ts })
            },
            Event::RShutdown { now } => Step {
                defined: now.can_add(cc.tr),
                ..go_sending(
                    s,
                    State::AssociationPending { tr: Tr(deadline(now, cc.tr)) },
                    PacketView::of(FmtpType::System, shutdown_payload()),
                )
            },
            Event::LData { now, msg } => Step {
                defined: now.can_add(cc.ts) && msg@.payload().len() <= MAX_PAYLOAD,
                ..go_sending(s, State::DataReady { tr, ts: Ts(deadline(now, cc.ts)) }, message_packet(msg@))
            },
            Event::LShutdown { now } => Step {
                defined: now.can_add(cc.tr),
                ..go_sending(
                    s,
                    State::Ready { tr: Tr(deadline(now, cc.tr)) },
                    PacketView::of(FmtpType::System, shutdown_payload()),
                )
            },
            _ => go(s, State::Error),
        },
    }
}

/// Handling event `e` in state `st` with storage `s`.
pub open spec fn step(s: ConnectionState, st: State, e: Event) -> Step {
    let s = ConnectionState { target: requested_target(s.target, e), ..s };
    match st {
        State::Idle => idle_step(s, e),
        State::ConnectionPending => connection_pending_step(s, e),
        State::IdPending { .. } => id_pending_step(s, e),
        State::AcceptPending { .. } => accept_pending_step(s, e),
        State::Ready { tr } => ready_step(s, e, tr),
        State::AssociationPending { .. } => association_pending_step(s, e),
        State::DataReady { tr, ts } => data_ready_step(s, e, tr, ts),
        State::Error => go(s, State::Error),
    }
}

/// The configuration of the connection named `id`, borrowed from `config`.
fn lookup<'a>(config: &'a Config, id: &Option<String>) -> (c: Option<&'a ConnectionConfig>)
    ensures
        match c {
            Some(cc) => configured_in(*config, *id) == Some(*cc),
            None => configured_in(*config, *id) is None,
        },
{
    match id {
        Some(name) => config.connections.get(name),
        None => None,
    }
}

impl ConnectionState {
    fn before_dispatch(&mut self, event: &Event)
        ensures
            *final(self) == (ConnectionState {
                target: requested_target(old(self).target, *event),
                ..*old(self)
            }),
    {
        match event {
            Event::LShutdown { .. } => self.target = Target::Ready,
            Event::LStartup { .. } => self.target = Target::DataReady,
            Event::LDisconnect => self.target = Target::Idle,
            _ => {},
        }
    }

    fn idle(&mut self, event: &Event) -> (next: State)
        requires
            idle_step(*old(self), *event).defined,
        ensures
            *final(self) == idle_step(*old(self), *event).storage,
            next == idle_step(*old(self), *event).state,
    {
        match event {
            Event::RSetup { now } => match self.config.server_ti {
                Some(d) => {
                    self.server = true;
                    State::IdPending { ti: Ti(now.add_duration(d)) }
                },
                None => State::Error,
            },
            Event::RDisconnect | Event::LDisconnect => State::Idle,
            Event::LSetup { id } => {
                let target = match self.config.connections.get(id) {
                    Some(cc) => cc.initial_target,
                    None => {
                        return State::Error;
                    },
                };
                self.id = Some(id.clone());
                self.server = false;
                self.target = target;
                State::ConnectionPending
            },
            _ => State::Error,
        }
    }

    fn connection_pending(&mut self, ctx: &mut ConnectionContext, event: &Event) -> (next: State)
        requires
            connection_pending_step(*old(self), *event).defined,
        ensures
            *final(self) == connection_pending_step(*old(self), *event).storage,
            next == connection_pending_step(*old(self), *event).state,
            final(ctx).outgoing() == extended(
                old(ctx).outgoing(),
                connection_pending_step(*old(self), *event).sent,
            ),
            final(ctx).incoming() == old(ctx).incoming(),
    {
        let cc = match lookup(&self.config, &self.id) {
            Some(cc) => cc,
            None => {
                return State::Idle;
            },
        };
        match event {
            Event::RSetup { now } => {
                ctx.push_packet(FmtpPacket::handshake(&cc.local_id, &cc.remote_id));
                let ti = Ti(now.add_duration(cc.ti));
                self.target = cc.initial_target;
                State::IdPending { ti }
            },
            Event::RDisconnect | Event::LDisconnect => State::Idle,
            _ => State::Error,
        }
    }

    fn id_pending(&mut self, ctx: &mut ConnectionContext, event: &Event) -> (next: State)
        requires
            id_pending_step(*old(self), *event).defined,
        ensures
            *final(self) == id_pending_step(*old(self), *event).storage,
            next == id_pending_step(*old(self), *event).state,
            final(ctx).outgoing() == extended(old(ctx).outgoing(), id_pending_step(*old(self), *event).sent),
            final(ctx).incoming() == old(ctx).incoming(),
    {
        match event {
            Event::RIdValid { now, id } => {
                if self.server {
                    self.id = Some(id.clone());
                    let cc = match lookup(&self.config, &self.id) {
                        Some(cc) => cc,
                        None => {
                            return State::Idle;
                        },
                    };
                    ctx.push_packet(FmtpPacket::handshake(&cc.local_id, &cc.remote_id));
                    let ti = Ti(now.add_duration(cc.ti));
                    self.target = cc.initial_target;
                    State::AcceptPending { ti }
                } else {
                    let cc = match lookup(&self.config, &self.id) {
                        Some(cc) => cc,
                        None => {
                            return State::Idle;
                        },
                    };
                    ctx.push_packet(FmtpPacket::accept());
                    State::Ready { tr: Tr(now.add_duration(cc.tr)) }
                }
            },
            Event::RIdInvalid => {
                ctx.push_packet(FmtpPacket::reject());
                State::Idle
            },
            Event::RDisconnect | Event::RReject | Event::RAccept { .. } | Event::RData { .. }
            | Event::RHeartbeat { .. } | Event::RShutdown { .. } | Event::RStartup { .. }
            | Event::TiTimeout | Event::LDisconnect => State::Idle,
            _ => State::Error,
        }
    }

    fn accept_pending(&self, event: &Event) -> (next: State)
        requires
            accept_pending_step(*self, *event).defined,
        ensures
            *self == accept_pending_step(*self, *event).storage,
            next == accept_pending_step(*self, *event).state,
            accept_pending_step(*self, *event).sent is None,
    {
        let cc = match lookup(&self.config, &self.id) {
            Some(cc) => cc,
            None => {
                return State::Idle;
            },
        };
        match event {
            Event::RAccept { now } => State::Ready { tr: Tr(now.add_duration(cc.tr)) },
            Event::RDisconnect | Event::RReject | Event::RIdInvalid | Event::RIdValid { .. }
            | Event::RData { .. } | Event::RHeartbeat { .. } | Event::RShutdown { .. }
            | Event::RStartup { .. } | Event::TiTimeout | Event::LDisconnect => State::Idle,
            _ => State::Error,
        }
    }

    fn ready(&self, ctx: &mut ConnectionContext, event: &Event, tr: Tr) -> (next: State)
        requires
            ready_step(*self, *event, tr).defined,
        ensures
            *self == ready_step(*self, *event, tr).storage,
            next == ready_step(*self, *event, tr).state,
            final(ctx).outgoing() == extended(old(ctx).outgoing(), ready_step(*self, *event, tr).sent),
            final(ctx).incoming() == old(ctx).incoming(),
    {
        let cc = match lookup(&self.config, &self.id) {
            Some(cc) => cc,
            None => {
                return State::Idle;
            },
        };
        match event {
            Event::LStartup { now } => {
                ctx.push_packet(FmtpPacket::startup());
                State::AssociationPending { tr: Tr(now.add_duration(cc.tr)) }
            },
            Event::RDisconnect | Event::LDisconnect => State::Idle,
            Event::RShutdown { .. } | Event::RHeartbeat { .. } => State::Ready { tr },
            _ => State::Error,
        }
    }

    fn association_pending(&self, ctx: &mut ConnectionContext, event: &Event) -> (next: State)
        requires
            association_pending_step(*self, *event).defined,
        ensures
            *self == association_pending_step(*self, *event).storage,
            next == association_pending_step(*self, *event).state,
            final(ctx).outgoing() == extended(
                old(ctx).outgoing(),
                association_pending_step(*self, *event).sent,
            ),
            final(ctx).incoming() == old(ctx).incoming(),
    {
        let cc = match lookup(&self.config, &self.id) {
            Some(cc) => cc,
            None => {
                return State::Idle;
            },
        };
        match event {
            Event::RStartup { now } => {
                ctx.push_packet(FmtpPacket::startup());
                State::DataReady { tr: Tr(now.add_duration(cc.tr)), ts: Ts(now.add_duration(cc.ts)) }
            },
            Event::TrTimeout { now } => {
                ctx.push_packet(FmtpPacket::startup());
                State::AssociationPending { tr: Tr(now.add_duration(cc.tr)) }
            },
            Event::RDisconnect => State::Idle,
            Event::LDisconnect => {
                ctx.push_packet(FmtpPacket::shutdown());
                State::Idle
            },
            Event::LShutdown { now } => {
                ctx.push_packet(FmtpPacket::shutdown());
                State::Ready { tr: Tr(now.add_duration(cc.tr)) }
            },
            Event::RShutdown { now } => State::Ready { tr: Tr(now.add_duration(cc.tr)) },
            _ => State::Error,
        }
    }

    fn data_ready(&self, ctx: &mut ConnectionContext, event: &Event, tr: Tr, ts: Ts) -> (next: State)
        requires
            data_ready_step(*self, *event, tr, ts).defined,
        ensures
            *self == data_ready_step(*self, *event, tr, ts).storage,
            next == data_ready_step(*self, *event, tr, ts).state,
            final(ctx).outgoing() == extended(
                old(ctx).outgoing(),
                data_ready_step(*self, *event, tr, ts).sent,
            ),
            final(ctx).incoming() == extended(
                old(ctx).incoming(),
                data_ready_step(*self, *event, tr, ts).delivered,
            ),
    {
        let cc = match lookup(&self.config, &self.id) {
            Some(cc) => cc,
            None => {
                return State::Idle;
            },
        };
        match event {
            Event::TsTimeout { now } => {
                ctx.push_packet(FmtpPacket::heartbeat());
                State::DataReady { tr, ts: Ts(now.add_duration(cc.ts)) }
            },
            Event::TrTimeout { .. } | Event::RDisconnect | Event::LDisconnect => {
                ctx.push_packet(FmtpPacket::shutdown());
                State::Idle
            },
            Event::RData { now, msg } => {
                ctx.push_message(msg.clone());
                State::DataReady { tr: Tr(now.add_duration(cc.tr)), ts }
            },
            Event::RHeartbeat { now } | Event::RStartup { now } => {
                State::DataReady { tr: Tr(now.add_duration(cc.tr)), ts }
            },
            Event::RShutdown { now } => {
                ctx.push_packet(FmtpPacket::shutdown());
                State::AssociationPending { tr: Tr(now.add_duration(cc.tr)) }
            },
            Event::LData { now, msg } => {
                ctx.push_packet(FmtpPacket::from_msg(msg.clone()));
                State::DataReady { tr, ts: Ts(now.add_duration(cc.ts)) }
            },
            Event::LShutdown { now } => {
                ctx.push_packet(FmtpPacket::shutdown());
                State::Ready { tr: Tr(now.add_duration(cc.tr)) }
            },
            _ => State::Error,
        }
    }
}

/// An FMTP connection: the state machine's state and what it keeps besides.
#[derive(Debug, Clone)]
pub struct Connection {
    machine: ConnectionState,
    state: State,
}

/// Whether the configuration named in `s` is known in every state past connection setup
/// (ID_PENDING excepted: a server learns the name only from the identification).
pub open spec fn named_when_connected(s: ConnectionState, st: State) -> bool {
    (st is ConnectionPending || st is AcceptPending || st is Ready || st is AssociationPending
        || st is DataReady) ==> configured(s) is Some
}

/// What receiving `bytes` (`received` of them read) at `now` may become, given the
/// configuration and the connection name known: the decoding error, or an outcome of
/// translating the decoded packet.
pub open spec fn remote_outcome(
    bytes: Seq<u8>,
    received: usize,
    now: Instant,
    config: Config,
    id: Option<Seq<char>>,
    r: Result<Event, FmtpError>,
) -> bool {
    match decode(bytes) {
        Ok(p) => incoming_outcome(received, p, now, config, id, r),
        Err(e) => r == Err::<Event, FmtpError>(e),
    }
}

/// Whether the timer deadline `now + d` is on the clock.
fn fits(now: Instant, d: Duration) -> (b: bool)
    ensures
        b == now.can_add(d),
{
    now.checked_add(d).is_some()
}

impl Connection {
    /// What the state machine keeps besides its state.
    pub closed spec fn storage(&self) -> ConnectionState {
        self.machine
    }

    /// The current state.
    pub closed spec fn current(&self) -> State {
        self.state
    }

    /// Whether handling `e` now is defined: every deadline it computes is on the clock and
    /// every packet it builds fits.
    pub open spec fn accepts(&self, e: Event) -> bool {
        step(self.storage(), self.current(), e).defined
    }

    /// A connection in state IDLE using `config`, with connection name `id` if known.
    pub fn new(config: Config, ctx: &mut ConnectionContext, id: Option<String>) -> (c: Connection)
        ensures
            c.storage() == (ConnectionState { config, server: false, target: Target::Idle, id }),
            c.current() == State::Idle,
            named_when_connected(c.storage(), c.current()),
            final(ctx).outgoing() == old(ctx).outgoing(),
            final(ctx).incoming() == old(ctx).incoming(),
    {
        Connection {
            machine: ConnectionState { config, server: false, target: Target::Idle, id },
            state: State::Idle,
        }
    }

    /// The current state.
    pub fn state(&self) -> (st: &State)
        ensures
            *st == self.current(),
    {
        &self.state
    }

    /// The configuration.
    pub fn config(&self) -> (c: &Config)
        ensures
            *c == self.storage().config,
    {
        &self.machine.config
    }

    /// The name of the connection configuration in use, once known.
    pub fn id(&self) -> (id: &Option<String>)
        ensures
            *id == self.storage().id,
    {
        &self.machine.id
    }

    /// The state the connection should reach and keep.
    pub fn target(&self) -> (t: Target)
        ensures
            t == self.storage().target,
    {
        self.machine.target
    }

    /// Whether this end accepted the transport connection.
    pub fn is_server(&self) -> (b: bool)
        ensures
            b == self.storage().server,
    {
        self.machine.server
    }

    /// Whether handling `event` now is defined (see [`Connection::accepts`]).
    pub fn can_handle(&self, event: &Event) -> (b: bool)
        ensures
            b == self.accepts(*event),
    {
        let s = &self.machine;
        match self.state {
            State::Idle => match event {
                Event::RSetup { now } => match s.config.server_ti {
                    Some(d) => fits(*now, d),
                    None => true,
                },
                _ => true,
            },
            State::ConnectionPending => match lookup(&s.config, &s.id) {
                Some(cc) => match event {
                    Event::RSetup { now } => fits(*now, cc.ti),
                    _ => true,
                },
                None => true,
            },
            State::IdPending { .. } => match event {
                Event::RIdValid { now, id } => {
                    if s.server {
                        match s.config.connections.get(id) {
                            Some(cc) => fits(*now, cc.ti),
                            None => true,
                        }
                    } else {
                        match lookup(&s.config, &s.id) {
                            Some(cc) => fits(*now, cc.tr),
                            None => true,
                        }
                    }
                },
                _ => true,
            },
            State::AcceptPending { .. } => match lookup(&s.config, &s.id) {
                Some(cc) => match event {
                    Event::RAccept { now } => fits(*now, cc.tr),
                    _ => true,
                },
                None => true,
            },
            State::Ready { .. } => match lookup(&s.config, &s.id) {
                Some(cc) => match event {
                    Event::LStartup { now } => fits(*now, cc.tr),
                    _ => true,
                },
                None => true,
            },
            State::AssociationPending { .. } => match lookup(&s.config, &s.id) {
                Some(cc) => match event {
                    Event::RStartup { now } => fits(*now, cc.tr) && fits(*now, cc.ts),
                    Event::TrTimeout { now } | Event::LShutdown { now } | Event::RShutdown {
                        now,
                    } => fits(*now, cc.tr),
                    _ => true,
                },
                None => true,
            },
            State::DataReady { .. } => match lookup(&s.config, &s.id) {
                Some(cc) => match event {
                    Event::TsTimeout { now } => fits(*now, cc.ts),
                    Event::RData { now, .. } | Event::RHeartbeat { now } | Event::RStartup { now }
                    | Event::RShutdown { now } | Event::LShutdown { now } => fits(*now, cc.tr),
                    Event::LData { now, msg } => fits(*now, cc.ts) && msg.data().len() <= MAX_PAYLOAD,
                    _ => true,
                },
                None => true,
            },
            State::Error => true,
        }
    }

    /// Handles `event`: records the target a user request implies, then lets the current
    /// state's handler choose the next state, the packet to send and the message to deliver.
    pub fn handle_with_context(&mut self, event: &Event, ctx: &mut ConnectionContext)
        requires
            old(self).accepts(*event),
        ensures
            final(self).storage() == step(old(self).storage(), old(self).current(), *event).storage,
            final(self).current() == step(old(self).storage(), old(self).current(), *event).state,
            final(ctx).outgoing() == extended(
                old(ctx).outgoing(),
                step(old(self).storage(), old(self).current(), *event).sent,
            ),
            final(ctx).incoming() == extended(
                old(ctx).incoming(),
                step(old(self).storage(), old(self).current(), *event).delivered,
            ),
            named_when_connected(old(self).storage(), old(self).current()) ==> named_when_connected(
                final(self).storage(),
                final(self).current(),
            ),
    {
        proof {
            lemma_named_when_connected_kept(self.machine, self.state, *event);
        }
        self.machine.before_dispatch(event);
        let next = match self.state {
            State::Idle => self.machine.idle(event),
            State::ConnectionPending => self.machine.connection_pending(ctx, event),
            State::IdPending { .. } => self.machine.id_pending(ctx, event),
            State::AcceptPending { .. } => self.machine.accept_pending(event),
            State::Ready { tr } => self.machine.ready(ctx, event, tr),
            State::AssociationPending { .. } => self.machine.association_pending(ctx, event),
            State::DataReady { tr, ts } => self.machine.data_ready(ctx, event, tr, ts),
            State::Error => State::Error,
        };
        self.state = next;
    }

    /// Decodes the packet at the front of `bytes` (`received` of them read at `now`) and
    /// translates it into an event for this connection.
    pub fn remote_event(&self, bytes: &[u8], received: usize, now: Instant) -> (r: Result<
        Event,
        FmtpError,
    >)
        ensures
            remote_outcome(
                bytes@,
                received,
                now,
                self.storage().config,
                name_view(self.storage().id),
                r,
            ),
    {
        let packet = FmtpPacket::from_bytes(bytes)?;
        Event::from_incoming_packet(received, packet, now, &self.machine.config, self.machine.id.as_ref())
    }

    /// Decodes the packet at the front of `bytes` (`received` of them read at `now`),
    /// translates it into an event and handles that event.
    pub fn handle_remote_packet(
        &mut self,
        bytes: &[u8],
        received: usize,
        now: Instant,
        ctx: &mut ConnectionContext,
    ) -> (r: Result<(), FmtpError>)
        requires
            forall|e: Event|
                #[trigger] remote_outcome(
                    bytes@,
                    received,
                    now,
                    old(self).storage().config,
                    name_view(old(self).storage().id),
                    Ok(e),
                ) ==> old(self).accepts(e),
        ensures
            match r {
                Err(x) => {
                    &&& remote_outcome(
                        bytes@,
                        received,
                        now,
                        old(self).storage().config,
                        name_view(old(self).storage().id),
                        Err(x),
                    )
                    &&& final(self).storage() == old(self).storage()
                    &&& final(self).current() == old(self).current()
                    &&& final(ctx).outgoing() == old(ctx).outgoing()
                    &&& final(ctx).incoming() == old(ctx).incoming()
                },
                Ok(()) => exists|e: Event|
                    {
                        &&& #[trigger] remote_outcome(
                            bytes@,
                            received,
                            now,
                            old(self).storage().config,
                            name_view(old(self).storage().id),
                            Ok(e),
                        )
                        &&& final(self).storage() == step(old(self).storage(), old(self).current(), e).storage
                        &&& final(self).current() == step(old(self).storage(), old(self).current(), e).state
                        &&& final(ctx).outgoing() == extended(
                            old(ctx).outgoing(),
                            step(old(self).storage(), old(self).current(), e).sent,
                        )
                        &&& final(ctx).incoming() == extended(
                            old(ctx).incoming(),
                            step(old(self).storage(), old(self).current(), e).delivered,
                        )
                    },
            },
    {
        let event = self.remote_event(bytes, received, now)?;
        let ghost before = *self;
        let ghost ctx_before = *ctx;
        self.handle_with_context(&event, ctx);
        assert(remote_outcome(
            bytes@,
            received,
            now,
            before.storage().config,
            name_view(before.storage().id),
            Ok(event),
        ));
        Ok(())
    }
}

/// A connection keeps its configuration, and once past connection setup the connection
/// it names stays configured: in CONNECTION_PENDING, ACCEPT_PENDING, READY,
/// ASSOCIATION_PENDING and DATA_READY the configuration in use is always known.
pub proof fn lemma_named_when_connected_kept(s: ConnectionState, st: State, e: Event)
    ensures
        step(s, st, e).storage.config == s.config,
        named_when_connected(s, st) ==> named_when_connected(step(s, st, e).storage, step(s, st, e).state),
{
}

/// ERROR is terminal: whatever happens, the state stays ERROR and nothing is sent or
/// delivered.
pub proof fn lemma_error_is_terminal(s: ConnectionState, e: Event)
    ensures
        step(s, State::Error, e).state == State::Error,
        step(s, State::Error, e).sent is None,
        step(s, State::Error, e).delivered is None,
        step(s, State::Error, e).storage == (ConnectionState {
            target: requested_target(s.target, e),
            ..s
        }),
{
}

/// A user request fixes the target whatever the state: MT-STOP makes it READY, MT-ASSOC
/// DATA_READY, MT-DIS IDLE.
pub proof fn lemma_requests_set_target(s: ConnectionState, st: State, e: Event)
    ensures
        e is LShutdown ==> step(s, st, e).storage.target == Target::Ready,
        e is LStartup ==> step(s, st, e).storage.target == Target::DataReady,
        e is LDisconnect ==> step(s, st, e).storage.target == Target::Idle,
{
}

/// Messages reach the user only in DATA_READY, as the message received; an event queues
/// at most one packet or one message, never both.
pub proof fn lemma_delivery_only_when_associated(s: ConnectionState, st: State, e: Event)
    ensures
        step(s, st, e).delivered is Some ==> {
            &&& st is DataReady
            &&& e matches Event::RData { msg, .. } && step(s, st, e).delivered == Some(msg@)
            &&& step(s, st, e).sent is None
        },
{
}

/// In DATA_READY every message this end sends, and the heartbeat it sends when the
/// heartbeat timer expires, restart the heartbeat timer and leave the response timer; every
/// HEARTBEAT, STARTUP or message received restarts the response timer and leaves the
/// heartbeat timer.
pub proof fn lemma_data_ready_timers(s: ConnectionState, tr: Tr, ts: Ts, e: Event)
    requires
        configured(s) is Some,
    ensures
        e matches Event::LData { now, .. } ==> step(s, State::DataReady { tr, ts }, e).state
            == (State::DataReady { tr, ts: Ts(deadline(now, configured(s)->0.ts)) }),
        e matches Event::TsTimeout { now } ==> step(s, State::DataReady { tr, ts }, e).state
            == (State::DataReady { tr, ts: Ts(deadline(now, configured(s)->0.ts)) }),
        e matches Event::RData { now, .. } ==> step(s, State::DataReady { tr, ts }, e).state
            == (State::DataReady { tr: Tr(deadline(now, configured(s)->0.tr)), ts }),
        e matches Event::RHeartbeat { now } ==> step(s, State::DataReady { tr, ts }, e).state
            == (State::DataReady { tr: Tr(deadline(now, configured(s)->0.tr)), ts }),
        e matches Event::RStartup { now } ==> step(s, State::DataReady { tr, ts }, e).state
            == (State::DataReady { tr: Tr(deadline(now, configured(s)->0.tr)), ts }),
{
}

/// Losing the transport releases the connection from every state but ERROR: the state
/// becomes IDLE, the storage is kept, no message reaches the user, and the only packet
/// queued is the SHUTDOWN that an associated end owes its peer.
pub proof fn lemma_transport_loss_releases(s: ConnectionState, st: State)
    requires
        !(st is Error),
    ensures
        step(s, st, Event::RDisconnect).state == State::Idle,
        step(s, st, Event::RDisconnect).storage == s,
        step(s, st, Event::RDisconnect).delivered is None,
        step(s, st, Event::RDisconnect).sent is Some ==> st is DataReady,
        st is DataReady && configured(s) is Some ==> step(s, st, Event::RDisconnect).sent == Some(
            PacketView::of(FmtpType::System, shutdown_payload()),
        ),
{
}

/// MT-DIS releases the connection from every state but ERROR: the state becomes IDLE with
/// IDLE as target, no message reaches the user, and a SHUTDOWN is queued exactly where an
/// association was requested or established.
pub proof fn lemma_disconnect_request_releases(s: ConnectionState, st: State)
    requires
        !(st is Error),
    ensures
        step(s, st, Event::LDisconnect).state == State::Idle,
        step(s, st, Event::LDisconnect).storage == (ConnectionState { target: Target::Idle, ..s }),
        step(s, st, Event::LDisconnect).delivered is None,
        step(s, st, Event::LDisconnect).sent is Some ==> (st is AssociationPending || st is DataReady),
        (st is AssociationPending || st is DataReady) && configured(s) is Some ==> step(
            s,
            st,
            Event::LDisconnect,
        ).sent == Some(PacketView::of(FmtpType::System, shutdown_payload())),
{
}

/// Setting up a client connection: MT-CON for a configured name names the connection and
/// moves to CONNECTION_PENDING, for an unknown name it is an error; once the transport is
/// up the identification `local-remote` is sent and the identification timer runs from
/// `now`; a failed transport returns to IDLE with nothing sent, so that the client can try
/// again.
pub proof fn lemma_client_setup(s: ConnectionState, name: String, now: Instant)
    ensures
        s.config.connections@.contains_key(name@) ==> {
            let r = step(s, State::Idle, Event::LSetup { id: name });
            &&& r.state == State::ConnectionPending
            &&& r.storage.id == Some(name)
            &&& !r.storage.server
            &&& r.sent is None && r.delivered is None
        },
        !s.config.connections@.contains_key(name@) ==> step(
            s,
            State::Idle,
            Event::LSetup { id: name },
        ).state == State::Error,
        configured(s) matches Some(cc) ==> {
            let r = step(s, State::ConnectionPending, Event::RSetup { now });
            &&& r.state == (State::IdPending { ti: Ti(deadline(now, cc.ti)) })
            &&& r.sent == Some(
                PacketView::of(FmtpType::Identification, handshake_payload(cc.local_id@, cc.remote_id@)),
            )
            &&& r.storage.target == cc.initial_target
            &&& r.delivered is None
        },
        configured(s) is Some ==> {
            let r = step(s, State::ConnectionPending, Event::RDisconnect);
            &&& r.state == State::Idle
            &&& r.sent is None && r.delivered is None
        },
{
}

/// Accepting a transport: in IDLE a server end that has an identification timer awaits
/// the peer's identification with that timer running from `now`, sending nothing; without
/// one it is an error. A server that then receives a valid identification naming a
/// configured connection takes that name, answers with its own identification
/// `local-remote` and awaits ACCEPT with the identification timer running from `now`.
pub proof fn lemma_server_accept(s: ConnectionState, ti: Ti, now: Instant, name: String)
    ensures
        s.config.server_ti matches Some(d) ==> {
            let r = step(s, State::Idle, Event::RSetup { now });
            &&& r.state == (State::IdPending { ti: Ti(deadline(now, d)) })
            &&& r.storage.server
            &&& r.storage.id == s.id
            &&& r.sent is None && r.delivered is None
        },
        s.config.server_ti is None ==> step(s, State::Idle, Event::RSetup { now }).state
            == State::Error,
        (s.server && s.config.connections@.contains_key(name@)) ==> {
            let cc = s.config.connections@[name@];
            let r = step(s, State::IdPending { ti }, Event::RIdValid { now, id: name });
            &&& r.state == (State::AcceptPending { ti: Ti(deadline(now, cc.ti)) })
            &&& r.storage.id == Some(name)
            &&& r.sent == Some(
                PacketView::of(FmtpType::Identification, handshake_payload(cc.local_id@, cc.remote_id@)),
            )
        },
{
}

/// Identification: an invalid identification is answered with REJECT and releases the
/// connection; an expired identification timer or a REJECT releases it with nothing sent;
/// a client that receives the server's valid identification sends ACCEPT and is READY;
/// a server that receives ACCEPT is READY; the response timer runs from `now`.
pub proof fn lemma_identification_steps(s: ConnectionState, ti: Ti, now: Instant, e: Event)
    ensures
        step(s, State::IdPending { ti }, Event::RIdInvalid).state == State::Idle,
        step(s, State::IdPending { ti }, Event::RIdInvalid).sent == Some(
            PacketView::of(FmtpType::Identification, reject_payload()),
        ),
        step(s, State::IdPending { ti }, Event::TiTimeout).state == State::Idle,
        step(s, State::IdPending { ti }, Event::TiTimeout).sent is None,
        step(s, State::AcceptPending { ti }, Event::TiTimeout).state == State::Idle,
        step(s, State::AcceptPending { ti }, Event::TiTimeout).sent is None,
        step(s, State::AcceptPending { ti }, Event::RReject).state == State::Idle,
        step(s, State::AcceptPending { ti }, Event::RReject).sent is None,
        configured(s) matches Some(cc) ==> step(
            s,
            State::AcceptPending { ti },
            Event::RAccept { now },
        ).state == (State::Ready { tr: Tr(deadline(now, cc.tr)) }),
        configured(s) is Some ==> step(s, State::AcceptPending { ti }, Event::RAccept { now }).sent is None,
        (!s.server && configured(s) is Some) ==> (e matches Event::RIdValid { now: t, .. } ==> {
            let r = step(s, State::IdPending { ti }, e);
            &&& r.state == (State::Ready { tr: Tr(deadline(t, configured(s)->0.tr)) })
            &&& r.sent == Some(PacketView::of(FmtpType::Identification, accept_payload()))
        }),
{
}

/// In READY a SHUTDOWN or HEARTBEAT from the peer is accepted and changes nothing; MT-ASSOC
/// sends STARTUP and awaits the answer with the response timer running from `now`; READY
/// sends nothing else and delivers nothing.
pub proof fn lemma_ready_steps(s: ConnectionState, tr: Tr, e: Event)
    requires
        configured(s) is Some,
    ensures
        (e is RShutdown || e is RHeartbeat) ==> {
            let r = step(s, State::Ready { tr }, e);
            &&& r.state == (State::Ready { tr })
            &&& r.storage == s
            &&& r.sent is None && r.delivered is None
        },
        e matches Event::LStartup { now } ==> {
            let r = step(s, State::Ready { tr }, e);
            &&& r.state == (State::AssociationPending { tr: Tr(deadline(now, configured(s)->0.tr)) })
            &&& r.sent == Some(PacketView::of(FmtpType::System, startup_payload()))
            &&& r.storage.target == Target::DataReady
        },
        step(s, State::Ready { tr }, e).sent is Some ==> e is LStartup,
        step(s, State::Ready { tr }, e).delivered is None,
{
}

/// Association: in ASSOCIATION_PENDING the peer's STARTUP is answered with STARTUP and
/// the association is up with both timers running from `now`; its SHUTDOWN returns to
/// READY; an expired response timer repeats the STARTUP. In DATA_READY the peer's
/// SHUTDOWN is answered with SHUTDOWN and awaits a new association, MT-STOP sends
/// SHUTDOWN and returns to READY, an expired response timer sends SHUTDOWN and releases
/// the connection, an expired heartbeat timer sends HEARTBEAT, a message received is
/// delivered, and a message to send is sent.
pub proof fn lemma_association_steps(s: ConnectionState, tr: Tr, ts: Ts, e: Event)
    requires
        configured(s) is Some,
    ensures
        e matches Event::RStartup { now } ==> {
            let r = step(s, State::AssociationPending { tr }, e);
            &&& r.state == (State::DataReady {
                tr: Tr(deadline(now, configured(s)->0.tr)),
                ts: Ts(deadline(now, configured(s)->0.ts)),
            })
            &&& r.sent == Some(PacketView::of(FmtpType::System, startup_payload()))
        },
        e matches Event::RShutdown { now } ==> {
            let r = step(s, State::AssociationPending { tr }, e);
            &&& r.state == (State::Ready { tr: Tr(deadline(now, configured(s)->0.tr)) })
            &&& r.sent is None
        },
        e matches Event::TrTimeout { now } ==> {
            let r = step(s, State::AssociationPending { tr }, e);
            &&& r.state == (State::AssociationPending { tr: Tr(deadline(now, configured(s)->0.tr)) })
            &&& r.sent == Some(PacketView::of(FmtpType::System, startup_payload()))
        },
        e matches Event::RShutdown { now } ==> {
            let r = step(s, State::DataReady { tr, ts }, e);
            &&& r.state == (State::AssociationPending { tr: Tr(deadline(now, configured(s)->0.tr)) })
            &&& r.sent == Some(PacketView::of(FmtpType::System, shutdown_payload()))
        },
        e matches Event::LShutdown { now } ==> {
            let r = step(s, State::DataReady { tr, ts }, e);
            &&& r.state == (State::Ready { tr: Tr(deadline(now, configured(s)->0.tr)) })
            &&& r.sent == Some(PacketView::of(FmtpType::System, shutdown_payload()))
        },
        e is TrTimeout ==> {
            let r = step(s, State::DataReady { tr, ts }, e);
            &&& r.state == State::Idle
            &&& r.sent == Some(PacketView::of(FmtpType::System, shutdown_payload()))
        },
        e is TsTimeout ==> step(s, State::DataReady { tr, ts }, e).sent == Some(
            PacketView::of(FmtpType::System, heartbeat_payload()),
        ),
        e matches Event::RData { msg, .. } ==> {
            let r = step(s, State::DataReady { tr, ts }, e);
            &&& r.delivered == Some(msg@)
            &&& r.sent is None
        },
        e matches Event::LData { msg, .. } ==> {
            let r = step(s, State::DataReady { tr, ts }, e);
            &&& r.sent == Some(message_packet(msg@))
            &&& r.delivered is None
        },
{
}

/// Identification completes between peers: a client that has set up its connection and a
/// server that has just accepted the transport both reach READY when each packet that one
/// queues reaches the other, provided the server has a configuration that expects the
/// client's identification and every configuration that does names the client's
/// identifiers the other way round.
pub proof fn lemma_identification_completes(
    client: ConnectionState,
    server: ConnectionState,
    ti: Ti,
    now: Instant,
    n: usize,
    e1: Event,
    e2: Event,
    e3: Event,
)
    requires
        n > 0,
        configured(client) is Some,
        !client.server,
        server.server,
        server.id is None,
        exists|k: Seq<char>|
            #[trigger] server.config.connections@.contains_key(k) && identifies(
                PacketView::of(
                    FmtpType::Identification,
                    handshake_payload(configured(client)->0.local_id@, configured(client)->0.remote_id@),
                ),
                server.config.connections@[k],
            ),
        forall|k: Seq<char>|
            #[trigger] server.config.connections@.contains_key(k) && identifies(
                PacketView::of(
                    FmtpType::Identification,
                    handshake_payload(configured(client)->0.local_id@, configured(client)->0.remote_id@),
                ),
                server.config.connections@[k],
            ) ==> server.config.connections@[k].remote_id@ == configured(client)->0.local_id@
                && server.config.connections@[k].local_id@ == configured(client)->0.remote_id@,
        incoming_outcome(
            n,
            step(client, State::ConnectionPending, Event::RSetup { now }).sent->0,
            now,
            server.config,
            None,
            Ok(e1),
        ),
        incoming_outcome(
            n,
            step(server, State::IdPending { ti }, e1).sent->0,
            now,
            client.config,
            name_view(client.id),
            Ok(e2),
        ),
        incoming_outcome(
            n,
            step(
                step(client, State::ConnectionPending, Event::RSetup { now }).storage,
                step(client, State::ConnectionPending, Event::RSetup { now }).state,
                e2,
            ).sent->0,
            now,
            server.config,
            name_view(step(server, State::IdPending { ti }, e1).storage.id),
            Ok(e3),
        ),
    ensures
        step(
            step(client, State::ConnectionPending, Event::RSetup { now }).storage,
            step(client, State::ConnectionPending, Event::RSetup { now }).state,
            e2,
        ).state is Ready,
        step(
            step(server, State::IdPending { ti }, e1).storage,
            step(server, State::IdPending { ti }, e1).state,
            e3,
        ).state is Ready,
{
    let cc = configured(client)->0;
    let hello = PacketView::of(FmtpType::Identification, handshake_payload(cc.local_id@, cc.remote_id@));
    lemma_control_payloads_distinct(cc.local_id@, cc.remote_id@);
    lemma_control_payloads_distinct(cc.remote_id@, cc.local_id@);
    let c_step = step(client, State::ConnectionPending, Event::RSetup { now });
    assert(c_step.sent == Some(hello));
    assert(c_step.state is IdPending);
    let k0 = choose|k: Seq<char>|
        #[trigger] server.config.connections@.contains_key(k) && identifies(hello, server.config.connections@[k]);
    assert(server.config.connections@.contains_key(k0));
    lemma_handshake_result(hello, server.config, None);
    match e1 {
        Event::RIdValid { now: t, id } => {
            let sc = server.config.connections@[id@];
            assert(server.config.connections@.contains_key(id@) && identifies(hello, sc));
            let s_step = step(server, State::IdPending { ti }, e1);
            let reply = PacketView::of(FmtpType::Identification, handshake_payload(sc.local_id@, sc.remote_id@));
            assert(s_step.sent == Some(reply));
            assert(s_step.state is AcceptPending);
            assert(configured(s_step.storage) == Some(sc));
            assert(identifies(reply, cc));
            match e2 {
                Event::RIdValid { .. } => {
                    assert(configured(c_step.storage) == Some(cc));
                    let c2 = step(c_step.storage, c_step.state, e2);
                    assert(c2.sent == Some(PacketView::of(FmtpType::Identification, accept_payload())));
                },
                _ => {
                    assert(false);
                },
            }
        },
        _ => {
            assert(!identifies(hello, server.config.connections@[k0]));
        },
    }
}

/// Association completes between identified ends that both ask for it: each sends
/// STARTUP from READY, and each reaches DATA_READY when the other's STARTUP arrives.
pub proof fn lemma_association_completes(
    a: ConnectionState,
    b: ConnectionState,
    tra: Tr,
    trb: Tr,
    now: Instant,
    n: usize,
    ea: Event,
    eb: Event,
)
    requires
        n > 0,
        configured(a) is Some,
        configured(b) is Some,
        incoming_outcome(
            n,
            step(a, State::Ready { tr: tra }, Event::LStartup { now }).sent->0,
            now,
            b.config,
            name_view(b.id),
            Ok(eb),
        ),
        incoming_outcome(
            n,
            step(b, State::Ready { tr: trb }, Event::LStartup { now }).sent->0,
            now,
            a.config,
            name_view(a.id),
            Ok(ea),
        ),
    ensures
        step(
            step(a, State::Ready { tr: tra }, Event::LStartup { now }).storage,
            step(a, State::Ready { tr: tra }, Event::LStartup { now }).state,
            ea,
        ).state is DataReady,
        step(
            step(b, State::Ready { tr: trb }, Event::LStartup { now }).storage,
            step(b, State::Ready { tr: trb }, Event::LStartup { now }).state,
            eb,
        ).state is DataReady,
{
    lemma_control_payloads_distinct(Seq::empty(), Seq::empty());
    let sa = step(a, State::Ready { tr: tra }, Event::LStartup { now });
    let sb = step(b, State::Ready { tr: trb }, Event::LStartup { now });
    assert(sa.sent == Some(PacketView::of(FmtpType::System, startup_payload())));
    assert(sb.sent == Some(PacketView::of(FmtpType::System, startup_payload())));
    assert(sa.state is AssociationPending && configured(sa.storage) == configured(a));
    assert(sb.state is AssociationPending && configured(sb.storage) == configured(b));
}

} // verus!
