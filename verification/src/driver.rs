//! Decisions of the asynchronous connection driver: what to wait for in each state, what
//! to do when the connection is idle, and what to report to the user.
//!
//! The driver itself (sockets, timers, channels) lives outside the library; it asks these
//! functions what to do, performs it, and hands the resulting events back to the
//! [`Connection`].

use crate::config::{retry_delay_of, Config, Target};
use crate::connection::{Connection, ConnectionContext, State};
use crate::event::Event;
use crate::message::{FmtpMessage, MessageView};
use crate::packet::name_view;
use crate::time::{Duration, Instant};
use vstd::prelude::*;

verus! {

/// Events that a connection driver reports to its user.
#[derive(Debug)]
pub enum ConnectionEvent {
    /// The connection's state has changed.
    StateChanged(State),
    /// The name of the connection configuration in use has become known.
    ConnectionIdDetermined(String),
    /// A message has been received from the remote end.
    DataReceived(FmtpMessage),
}

/// The three protocol timers.
#[derive(Clone, Copy, Debug, PartialEq, Eq, Structural)]
pub enum TimerKind {
    /// Ti, the identification timer.
    Identification,
    /// Tr, the response timer.
    Response,
    /// Ts, the heartbeat timer.
    Heartbeat,
}

/// The event that the expiry of timer `k`, noticed at `now`, is.
pub open spec fn expiry_event(k: TimerKind, now: Instant) -> Event {
    match k {
        TimerKind::Identification => Event::TiTimeout,
        TimerKind::Response => Event::TrTimeout { now },
        TimerKind::Heartbeat => Event::TsTimeout { now },
    }
}

impl TimerKind {
    /// The event that the expiry of this timer, noticed at `now`, is.
    pub fn expiry_event(self, now: Instant) -> (e: Event)
        ensures
            e == expiry_event(self, now),
    {
        match self {
            TimerKind::Identification => Event::TiTimeout,
            TimerKind::Response => Event::TrTimeout { now },
            TimerKind::Heartbeat => Event::TsTimeout { now },
        }
    }
}

/// What the driver waits for in a state.
#[derive(Clone, Copy, Debug, PartialEq, Eq, Structural)]
pub enum Wait {
    /// IDLE: connect, reconnect or stop, as [`idle_plan`] says.
    Idle,
    /// CONNECTION_PENDING is only passed through; remaining in it is an error.
    Stalled,
    /// ERROR: the connection ends.
    Failed,
    /// READY while DATA_READY is the target: ask for an association now.
    StartupNow,
    /// Wait until `at`; then timer `expires` has expired, where one is named.
    Until { at: Instant, expires: Option<TimerKind> },
    /// DATA_READY: whichever comes first of the response deadline `tr` and the heartbeat
    /// deadline `ts` expires.
    EitherOf { tr: Instant, ts: Instant },
}

/// What to wait for in state `st` with target `target`.
pub open spec fn wait_for(st: State, target: Target) -> Wait {
    match st {
        State::Idle => Wait::Idle,
        State::ConnectionPending => Wait::Stalled,
        State::IdPending { ti } => Wait::Until { at: ti.0, expires: Some(TimerKind::Identification) },
        State::AcceptPending { ti } => Wait::Until {
            at: ti.0,
            expires: Some(TimerKind::Identification),
        },
        State::Ready { tr } => if target == Target::DataReady {
            Wait::StartupNow
        } else {
            Wait::Until { at: tr.0, expires: None }
        },
        State::AssociationPending { tr } => Wait::Until {
            at: tr.0,
            expires: Some(TimerKind::Response),
        },
        State::DataReady { tr, ts } => Wait::EitherOf { tr: tr.0, ts: ts.0 },
        State::Error => Wait::Failed,
    }
}

/// What to wait for in state `st` with target `target`.
pub fn wait_plan(st: &State, target: Target) -> (w: Wait)
    ensures
        w == wait_for(*st, target),
{
    match st {
        State::Idle => Wait::Idle,
        State::ConnectionPending => Wait::Stalled,
        State::IdPending { ti } | State::AcceptPending { ti } => Wait::Until {
            at: ti.0,
            expires: Some(TimerKind::Identification),
        },
        State::Ready { tr } => if target == Target::DataReady {
            Wait::StartupNow
        } else {
            Wait::Until { at: tr.0, expires: None }
        },
        State::AssociationPending { tr } => Wait::Until {
            at: tr.0,
            expires: Some(TimerKind::Response),
        },
        State::DataReady { tr, ts } => Wait::EitherOf { tr: tr.0, ts: ts.0 },
        State::Error => Wait::Failed,
    }
}

/// What to do when the connection is IDLE.
#[derive(Clone, Copy, Debug, PartialEq, Eq, Structural)]
pub enum IdlePlan {
    /// The connection never learnt a configuration name (a server connection): disconnect.
    Disconnect,
    /// No transport yet: connect; where that fails, wait `retry` and try again, or stop
    /// where there is no retry timer.
    Connect { retry: Option<Duration> },
    /// The transport is there but the connection went idle: shut the transport down,
    /// wait `delay`, connect again.
    Reconnect { delay: Duration },
    /// The transport is there, the connection went idle and there is no retry timer: stop.
    Stop,
}

/// What to do when the connection named `id` is IDLE, with or without a transport.
pub open spec fn idle_plan_for(config: Config, id: Option<Seq<char>>, has_transport: bool) -> IdlePlan {
    match id {
        None => IdlePlan::Disconnect,
        Some(name) => if !has_transport {
            IdlePlan::Connect { retry: retry_delay_of(config, name) }
        } else {
            match retry_delay_of(config, name) {
                Some(d) => IdlePlan::Reconnect { delay: d },
                None => IdlePlan::Stop,
            }
        },
    }
}

/// What to do when the connection named `id` is IDLE, with or without a transport.
pub fn idle_plan(config: &Config, id: &Option<String>, has_transport: bool) -> (p: IdlePlan)
    ensures
        p == idle_plan_for(*config, name_view(*id), has_transport),
{
    match id {
        None => IdlePlan::Disconnect,
        Some(name) => {
            let retry = config.retry_delay(name);
            if !has_transport {
                IdlePlan::Connect { retry }
            } else {
                match retry {
                    Some(d) => IdlePlan::Reconnect { delay: d },
                    None => IdlePlan::Stop,
                }
            }
        },
    }
}

/// The reports owed for a connection whose name is `id` and state `st`, when the name
/// `reported` and the state `last` were reported before: the name once it is first known,
/// then the state whenever it changed.
pub open spec fn notifications(
    reported: Option<Seq<char>>,
    last: State,
    id: Option<String>,
    st: State,
) -> Seq<ConnectionEvent> {
    let named = if reported is None && id is Some {
        seq![ConnectionEvent::ConnectionIdDetermined(id->0)]
    } else {
        Seq::empty()
    };
    if st != last {
        named.push(ConnectionEvent::StateChanged(st))
    } else {
        named
    }
}

/// What the driver has reported to its user so far: the connection's name, once known,
/// and its last state.
#[derive(Debug)]
pub struct Observer {
    reported_id: Option<String>,
    last_state: State,
}

impl Observer {
    /// The name reported so far.
    pub closed spec fn reported(&self) -> Option<Seq<char>> {
        name_view(self.reported_id)
    }

    /// The state reported last.
    pub closed spec fn last(&self) -> State {
        self.last_state
    }

    /// Nothing reported yet; a connection starts IDLE.
    pub fn new() -> (o: Observer)
        ensures
            o.reported() is None,
            o.last() == State::Idle,
    {
        Observer { reported_id: None, last_state: State::Idle }
    }

    /// The reports owed for `conn` now; records them as made.
    pub fn observe(&mut self, conn: &Connection) -> (events: Vec<ConnectionEvent>)
        ensures
            events@ == notifications(
                old(self).reported(),
                old(self).last(),
                conn.storage().id,
                conn.current(),
            ),
            final(self).reported() == (if old(self).reported() is None {
                name_view(conn.storage().id)
            } else {
                old(self).reported()
            }),
            final(self).last() == conn.current(),
    {
        let mut events: Vec<ConnectionEvent> = Vec::new();
        if self.reported_id.is_none() {
            if let Some(id) = conn.id() {
                self.reported_id = Some(id.clone());
                events.push(ConnectionEvent::ConnectionIdDetermined(id.clone()));
            }
        }
        let st = *conn.state();
        if st != self.last_state {
            self.last_state = st;
            events.push(ConnectionEvent::StateChanged(st));
        }
        proof {
            let named = if old(self).reported() is None && conn.storage().id is Some {
                seq![ConnectionEvent::ConnectionIdDetermined(conn.storage().id->0)]
            } else {
                Seq::empty()
            };
            if st != old(self).last() {
                assert(events@ =~= named.push(ConnectionEvent::StateChanged(st)));
            } else {
                assert(events@ =~= named);
            }
        }
        events
    }
}

/// The report of each message that has arrived and waits in `ctx`, one `DataReceived`
/// per message in the order they arrived; takes them all from the queue.
pub fn deliveries(ctx: &mut ConnectionContext) -> (events: Vec<ConnectionEvent>)
    ensures
        events@.len() == old(ctx).incoming().len(),
        forall|i: int|
            0 <= i < events@.len() ==> (#[trigger] events@[i] matches ConnectionEvent::DataReceived(
                m,
            ) && m@ == old(ctx).incoming()[i]),
        final(ctx).incoming() == Seq::<MessageView>::empty(),
        final(ctx).outgoing() == old(ctx).outgoing(),
{
    let mut events: Vec<ConnectionEvent> = Vec::new();
    loop
        invariant
            ctx.incoming().len() + events@.len() == old(ctx).incoming().len(),
            ctx.incoming() == old(ctx).incoming().skip(events@.len() as int),
            forall|i: int|
                0 <= i < events@.len() ==> (#[trigger] events@[i] matches ConnectionEvent::DataReceived(
                    m,
                ) && m@ == old(ctx).incoming()[i]),
            ctx.outgoing() == old(ctx).outgoing(),
        decreases ctx.incoming().len(),
    {
        match ctx.poll_receive() {
            Some(m) => {
                events.push(ConnectionEvent::DataReceived(m));
            },
            None => {
                assert(ctx.incoming() =~= Seq::<MessageView>::empty());
                return events;
            },
        }
    }
}

/// Over any run, a driver that reports what [`Observer::observe`] owes reports the
/// connection's name exactly once, when it first becomes known, and every change of
/// state, whatever the new state, as the last report owed; a state equal to the one
/// reported before is not reported again, and nothing else is owed.
pub proof fn lemma_reports_once(
    reported: Option<Seq<char>>,
    last: State,
    id: Option<String>,
    st: State,
)
    ensures
        ({
            let n = notifications(reported, last, id, st);
            &&& n.len() == (if reported is None && id is Some { 1int } else { 0int }) + (if st
                != last { 1int } else { 0int })
            &&& reported is None && id is Some ==> n[0] == ConnectionEvent::ConnectionIdDetermined(
                id->0,
            )
            &&& st != last ==> n.last() == ConnectionEvent::StateChanged(st)
            &&& (reported is Some || id is None) ==> forall|i: int|
                0 <= i < n.len() ==> !(#[trigger] n[i] is ConnectionIdDetermined)
            &&& st == last ==> forall|i: int| 0 <= i < n.len() ==> !(#[trigger] n[i] is StateChanged)
            &&& forall|i: int|
                0 <= i < n.len() ==> (#[trigger] n[i] matches ConnectionEvent::StateChanged(s) ==> s
                    == st && s != last)
        }),
{
}

/// One step of connecting a client: what to do next.
#[derive(Debug)]
pub enum ConnectAction {
    /// No address is left to try, or no connection of that name is configured:
    /// connecting has failed.
    GiveUp,
    /// Hand `setup` to the connection, then try to connect to `address`.
    Try { address: String, setup: Event },
    /// The attempt failed: hand `release` to the connection, then go on with the next
    /// address.
    Failed { release: Event },
    /// The attempt succeeded: hand `established` to the connection; connecting is done.
    Connected { established: Event },
}

/// What connecting the client named `id` does next, with `tried` addresses tried before
/// and `connected` the outcome of the attempt under way, if one is: with no attempt under
/// way, give up where the name is not configured or its addresses are exhausted, else
/// set the connection up and try the address at position `tried`; after an attempt,
/// release the connection where it failed, or report the transport established at `now`.
pub open spec fn connect_outcome(
    config: Config,
    id: Seq<char>,
    tried: int,
    connected: Option<bool>,
    now: Instant,
    a: ConnectAction,
) -> bool {
    match connected {
        None => {
            let conns = config.connections@;
            if !conns.contains_key(id) || tried >= conns[id].remote_addresses@.len() {
                a is GiveUp
            } else {
                a matches ConnectAction::Try { address, setup: Event::LSetup { id: name } }
                    && address@ == conns[id].remote_addresses@[tried]@ && name@ == id
            }
        },
        Some(false) => a matches ConnectAction::Failed { release: Event::RDisconnect },
        Some(true) => a matches ConnectAction::Connected { established: Event::RSetup { now: t } }
            && t == now,
    }
}

/// Decides the next step of connecting the client named `id`: `tried` addresses were
/// tried before, and `connected` is the outcome of the attempt under way, if one is.
pub fn connect_step(
    config: &Config,
    id: &String,
    tried: usize,
    connected: Option<bool>,
    now: Instant,
) -> (a: ConnectAction)
    ensures
        connect_outcome(*config, id@, tried as int, connected, now, a),
{
    match connected {
        None => match config.connections.get(id) {
            Some(cc) => {
                if tried < cc.remote_addresses.len() {
                    ConnectAction::Try {
                        address: cc.remote_addresses[tried].clone(),
                        setup: Event::LSetup { id: id.clone() },
                    }
                } else {
                    ConnectAction::GiveUp
                }
            },
            None => ConnectAction::GiveUp,
        },
        Some(false) => ConnectAction::Failed { release: Event::RDisconnect },
        Some(true) => ConnectAction::Connected { established: Event::RSetup { now } },
    }
}

} // verus!
