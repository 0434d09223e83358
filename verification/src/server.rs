//! The bookkeeping of a server that drives many connections: what it keeps of each, by
//! connection name, and how the reports of each connection's driver update it.

use crate::config::NameMap;
use crate::connection::State;
use crate::driver::ConnectionEvent;
use crate::message::FmtpMessage;
use vstd::prelude::*;

verus! {

/// What a server keeps of one connection: its last reported state, the remote address if
/// known, and the handles (such as channels) through which the connection is driven.
#[derive(Debug)]
pub struct ConnectionState<H> {
    /// The last state the connection reported.
    pub state: State,
    /// The remote address (`host:port`), where known.
    pub remote_addr: Option<String>,
    /// How the connection is driven.
    pub handles: H,
}

/// A report about a connection that the server does not keep.
#[derive(Clone, Copy, Debug, PartialEq, Eq, Structural)]
pub enum TrackError {
    /// No connection of that name is kept.
    UnknownConnection,
}

/// The connections a server keeps, by name.
pub type Connections<H> = NameMap<ConnectionState<H>>;

/// The bookkeeping once a connection starts to be kept as `id`: IDLE, with the remote
/// address where known.
pub open spec fn registered<H>(
    conns: Map<Seq<char>, ConnectionState<H>>,
    id: Seq<char>,
    remote_addr: Option<String>,
    handles: H,
) -> Map<Seq<char>, ConnectionState<H>> {
    conns.insert(id, ConnectionState { state: State::Idle, remote_addr, handles })
}

/// Starts keeping a connection as `id`, in state IDLE, with the remote address where
/// known; answers what was kept under `id` before, if anything.
pub fn register<H>(
    conns: &mut Connections<H>,
    id: String,
    remote_addr: Option<String>,
    handles: H,
) -> (replaced: Option<ConnectionState<H>>)
    ensures
        final(conns)@ == registered(old(conns)@, id@, remote_addr, handles),
        replaced is Some <==> old(conns)@.contains_key(id@),
{
    conns.insert(id, ConnectionState { state: State::Idle, remote_addr, handles })
}

/// Stops keeping the connection kept as `id` (its driver has finished); answers what was
/// kept, if anything.
pub fn close<H>(conns: &mut Connections<H>, id: &String) -> (removed: Option<ConnectionState<H>>)
    ensures
        final(conns)@ == old(conns)@.remove(id@),
        match removed {
            Some(c) => old(conns)@.contains_key(id@) && c == old(conns)@[id@],
            None => !old(conns)@.contains_key(id@),
        },
{
    conns.remove(id)
}

/// The bookkeeping after report `ev` about the accepted connection kept as `id`: a state
/// change is recorded, a determined name replaces the provisional one, a message is handed
/// on. Answers the new name, the message to hand on, or that no connection is kept as `id`.
pub open spec fn server_tracking<H>(
    conns: Map<Seq<char>, ConnectionState<H>>,
    id: String,
    ev: ConnectionEvent,
) -> (Map<Seq<char>, ConnectionState<H>>, String, Result<Option<FmtpMessage>, TrackError>) {
    match ev {
        ConnectionEvent::StateChanged(st) => if conns.contains_key(id@) {
            (conns.insert(id@, ConnectionState { state: st, ..conns[id@] }), id, Ok(None))
        } else {
            (conns, id, Err(TrackError::UnknownConnection))
        },
        ConnectionEvent::ConnectionIdDetermined(name) => if conns.contains_key(id@) {
            (conns.remove(id@).insert(name@, conns[id@]), name, Ok(None))
        } else {
            (conns, id, Err(TrackError::UnknownConnection))
        },
        ConnectionEvent::DataReceived(msg) => (conns, id, Ok(Some(msg))),
    }
}

/// The bookkeeping after report `ev` about the client connection kept as `id`: as for an
/// accepted connection, but a client's name is known from the start and never replaced.
pub open spec fn client_tracking<H>(
    conns: Map<Seq<char>, ConnectionState<H>>,
    id: Seq<char>,
    ev: ConnectionEvent,
) -> (Map<Seq<char>, ConnectionState<H>>, Result<Option<FmtpMessage>, TrackError>) {
    match ev {
        ConnectionEvent::StateChanged(st) => if conns.contains_key(id) {
            (conns.insert(id, ConnectionState { state: st, ..conns[id] }), Ok(None))
        } else {
            (conns, Err(TrackError::UnknownConnection))
        },
        ConnectionEvent::ConnectionIdDetermined(_) => (conns, Ok(None)),
        ConnectionEvent::DataReceived(msg) => (conns, Ok(Some(msg))),
    }
}

/// Records state `st` for the connection kept as `id`.
fn record_state<H>(conns: &mut Connections<H>, id: &String, st: State) -> (r: Result<
    Option<FmtpMessage>,
    TrackError,
>)
    ensures
        old(conns)@.contains_key(id@) ==> {
            &&& final(conns)@ == old(conns)@.insert(
                id@,
                ConnectionState { state: st, ..old(conns)@[id@] },
            )
            &&& r == Ok::<Option<FmtpMessage>, TrackError>(None)
        },
        !old(conns)@.contains_key(id@) ==> {
            &&& final(conns)@ == old(conns)@
            &&& r == Err::<Option<FmtpMessage>, TrackError>(TrackError::UnknownConnection)
        },
{
    match conns.remove(id) {
        Some(c) => {
            let updated = ConnectionState { state: st, remote_addr: c.remote_addr, handles: c.handles };
            conns.insert(id.clone(), updated);
            proof {
                assert(final(conns)@ =~= old(conns)@.insert(
                    id@,
                    ConnectionState { state: st, ..old(conns)@[id@] },
                ));
            }
            Ok(None)
        },
        None => {
            assert(conns@ =~= old(conns)@);
            Err(TrackError::UnknownConnection)
        },
    }
}

/// Updates the bookkeeping of an accepted connection, kept as `id`, after report `ev`.
pub fn track_server_event<H>(conns: &mut Connections<H>, id: &mut String, ev: ConnectionEvent) -> (r:
    Result<Option<FmtpMessage>, TrackError>)
    ensures
        (final(conns)@, *final(id), r) == server_tracking(old(conns)@, *old(id), ev),
{
    match ev {
        ConnectionEvent::StateChanged(st) => record_state(conns, id, st),
        ConnectionEvent::ConnectionIdDetermined(name) => match conns.remove(id) {
            Some(c) => {
                conns.insert(name.clone(), c);
                *id = name;
                Ok(None)
            },
            None => {
                assert(conns@ =~= old(conns)@);
                Err(TrackError::UnknownConnection)
            },
        },
        ConnectionEvent::DataReceived(msg) => Ok(Some(msg)),
    }
}

/// Updates the bookkeeping of the client connection kept as `id` after report `ev`.
pub fn track_client_event<H>(conns: &mut Connections<H>, id: &String, ev: ConnectionEvent) -> (r:
    Result<Option<FmtpMessage>, TrackError>)
    ensures
        (final(conns)@, r) == client_tracking(old(conns)@, id@, ev),
{
    match ev {
        ConnectionEvent::StateChanged(st) => record_state(conns, id, st),
        ConnectionEvent::ConnectionIdDetermined(_) => Ok(None),
        ConnectionEvent::DataReceived(msg) => Ok(Some(msg)),
    }
}

/// Over the life of an accepted connection the server's bookkeeping follows it: the
/// connection is first kept under a fresh provisional name in state IDLE with its remote
/// address; once its name `d` is determined it is kept under `d` and no longer under the
/// provisional name; a reported state is recorded under `d`; and once its driver finishes
/// the bookkeeping of the other connections is as it was before.
pub proof fn lemma_accepted_connection_life<H>(
    conns: Map<Seq<char>, ConnectionState<H>>,
    id: String,
    remote_addr: Option<String>,
    handles: H,
    d: String,
    st: State,
)
    requires
        !conns.contains_key(id@),
        !conns.contains_key(d@),
    ensures
        ({
            let kept = registered(conns, id@, remote_addr, handles);
            let (named, name, r1) = server_tracking(
                kept,
                id,
                ConnectionEvent::ConnectionIdDetermined(d),
            );
            let (moved, name2, r2) = server_tracking(named, name, ConnectionEvent::StateChanged(st));
            &&& kept.contains_key(id@) && kept[id@].state == State::Idle
            &&& kept[id@].remote_addr == remote_addr
            &&& kept.remove(id@) == conns
            &&& r1 == Ok::<Option<FmtpMessage>, TrackError>(None) && name == d
            &&& named.contains_key(d@) && named[d@] == kept[id@]
            &&& id@ != d@ ==> !named.contains_key(id@)
            &&& r2 == Ok::<Option<FmtpMessage>, TrackError>(None) && name2 == d
            &&& moved[d@].state == st && moved[d@].remote_addr == remote_addr
            &&& moved.remove(d@) == conns
        }),
{
    let kept = registered(conns, id@, remote_addr, handles);
    assert(kept.remove(id@) =~= conns);
    let named = kept.remove(id@).insert(d@, kept[id@]);
    let moved = named.insert(d@, ConnectionState { state: st, ..named[d@] });
    assert(moved.remove(d@) =~= conns);
}

/// A message received on any connection, client or accepted, is handed on unchanged and
/// leaves the bookkeeping as it was; a state report about a kept client connection
/// records that state for it alone, and one about a connection not kept is refused; a
/// client's name, fixed from the start, is never replaced.
pub proof fn lemma_reports_tracked<H>(
    conns: Map<Seq<char>, ConnectionState<H>>,
    id: Seq<char>,
    name: String,
    d: String,
    m: FmtpMessage,
    st: State,
)
    ensures
        client_tracking(conns, id, ConnectionEvent::DataReceived(m)) == (conns, Ok::<
            Option<FmtpMessage>,
            TrackError,
        >(Some(m))),
        server_tracking(conns, name, ConnectionEvent::DataReceived(m)) == (conns, name, Ok::<
            Option<FmtpMessage>,
            TrackError,
        >(Some(m))),
        conns.contains_key(id) ==> {
            let (after, r) = client_tracking(conns, id, ConnectionEvent::StateChanged(st));
            &&& r == Ok::<Option<FmtpMessage>, TrackError>(None)
            &&& after.contains_key(id) && after[id].state == st
            &&& after[id].remote_addr == conns[id].remote_addr
            &&& after.remove(id) == conns.remove(id)
        },
        !conns.contains_key(id) ==> client_tracking(conns, id, ConnectionEvent::StateChanged(st))
            == (conns, Err::<Option<FmtpMessage>, TrackError>(TrackError::UnknownConnection)),
        client_tracking(conns, id, ConnectionEvent::ConnectionIdDetermined(d)) == (conns, Ok::<
            Option<FmtpMessage>,
            TrackError,
        >(None)),
{
    if conns.contains_key(id) {
        let after = conns.insert(id, ConnectionState { state: st, ..conns[id] });
        assert(after.remove(id) =~= conns.remove(id));
    }
}

} // verus!
