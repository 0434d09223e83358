use fmtp::driver::{connect_step, deliveries, idle_plan, wait_plan, ConnectAction, ConnectionEvent, IdlePlan, Observer, TimerKind, Wait};
use fmtp::server::{close, register, track_client_event, track_server_event, ConnectionState, Connections, TrackError};
use fmtp::{
    Config, Connection, ConnectionConfig, ConnectionContext, ConnectionMap, Duration, Event,
    FmtpIdentifier, FmtpMessage, FmtpPacket, Instant, Role, State, Target, Ti, Tr, Ts, UserCommand,
};

fn entry(role: Role, retry: Option<Duration>) -> ConnectionConfig {
    ConnectionConfig {
        local_id: FmtpIdentifier::new(b"CLIENT").unwrap(),
        remote_id: FmtpIdentifier::new(b"SERVER").unwrap(),
        ti: Duration::from_secs(30),
        tr: Duration::from_secs(40),
        ts: Duration::from_secs(15),
        remote_addresses: vec![],
        role,
        initial_target: Target::DataReady,
        connect_retry_timer: retry,
    }
}

fn config() -> Config {
    let mut c = Config { bind_address: None, connections: ConnectionMap::new(), server_ti: Some(Duration::from_secs(5)) };
    c.connections.insert("test".to_string(), entry(Role::Client, Some(Duration::from_secs(3))));
    c
}

fn at(ms: u64) -> Instant {
    Instant::from_millis(ms)
}

fn associated(ctx: &mut ConnectionContext) -> Connection {
    let mut conn = Connection::new(config(), ctx, None);
    conn.handle_with_context(&Event::LSetup { id: "test".to_string() }, ctx);
    conn.handle_with_context(&Event::RSetup { now: at(0) }, ctx);
    conn.handle_with_context(&Event::RIdValid { now: at(0), id: "test".to_string() }, ctx);
    conn.handle_with_context(&Event::LStartup { now: at(0) }, ctx);
    conn.handle_with_context(&Event::RStartup { now: at(0) }, ctx);
    while ctx.poll_transmit().is_some() {}
    conn
}

#[test]
fn error_is_terminal() {
    let mut ctx = ConnectionContext::new();
    let mut conn = Connection::new(config(), &mut ctx, None);
    conn.handle_with_context(&Event::RData { now: at(1), msg: FmtpMessage::Operator(vec![]) }, &mut ctx);
    assert_eq!(*conn.state(), State::Error);
    for ev in [Event::LSetup { id: "test".to_string() }, Event::RSetup { now: at(2) }, Event::TiTimeout, Event::LStartup { now: at(3) }] {
        conn.handle_with_context(&ev, &mut ctx);
        assert_eq!(*conn.state(), State::Error);
        assert!(ctx.poll_transmit().is_none());
        assert!(ctx.poll_receive().is_none());
    }
}

#[test]
fn user_requests_set_target() {
    let mut ctx = ConnectionContext::new();
    let mut conn = associated(&mut ctx);
    conn.handle_with_context(&Event::LShutdown { now: at(1) }, &mut ctx);
    assert_eq!(conn.target(), Target::Ready);
    conn.handle_with_context(&Event::LStartup { now: at(2) }, &mut ctx);
    assert_eq!(conn.target(), Target::DataReady);
    conn.handle_with_context(&Event::LDisconnect, &mut ctx);
    assert_eq!(conn.target(), Target::Idle);
    assert_eq!(*conn.state(), State::Idle);
}

#[test]
fn data_ready_timers_and_delivery() {
    let mut ctx = ConnectionContext::new();
    let mut conn = associated(&mut ctx);
    assert_eq!(*conn.state(), State::DataReady { tr: Tr(at(40_000)), ts: Ts(at(15_000)) });
    conn.handle_with_context(&Event::RData { now: at(100), msg: FmtpMessage::Operational(b"one".to_vec()) }, &mut ctx);
    conn.handle_with_context(&Event::RData { now: at(200), msg: FmtpMessage::Operational(b"two".to_vec()) }, &mut ctx);
    assert_eq!(*conn.state(), State::DataReady { tr: Tr(at(40_200)), ts: Ts(at(15_000)) });
    assert_eq!(ctx.poll_receive(), Some(FmtpMessage::Operational(b"one".to_vec())));
    assert_eq!(ctx.poll_receive(), Some(FmtpMessage::Operational(b"two".to_vec())));
    assert_eq!(ctx.poll_receive(), None);
    conn.handle_with_context(&Event::LData { now: at(300), msg: FmtpMessage::Operator(b"a".to_vec()) }, &mut ctx);
    conn.handle_with_context(&Event::LData { now: at(400), msg: FmtpMessage::Operator(b"b".to_vec()) }, &mut ctx);
    assert_eq!(*conn.state(), State::DataReady { tr: Tr(at(40_200)), ts: Ts(at(15_400)) });
    assert_eq!(ctx.poll_transmit(), Some(FmtpPacket::from_msg(FmtpMessage::Operator(b"a".to_vec()))));
    let mut fut = ctx.transmit_future();
    assert_eq!(fut.poll_ready(), Some(FmtpPacket::from_msg(FmtpMessage::Operator(b"b".to_vec()))));
    assert_eq!(fut.poll_ready(), None);
    assert!(ctx.receive_future().poll_ready().is_none());
    conn.handle_with_context(&Event::RShutdown { now: at(500) }, &mut ctx);
    assert_eq!(*conn.state(), State::AssociationPending { tr: Tr(at(40_500)) });
    assert_eq!(ctx.poll_transmit(), Some(FmtpPacket::shutdown()));
}

#[test]
fn association_retry_on_response_timeout() {
    let mut ctx = ConnectionContext::new();
    let mut conn = Connection::new(config(), &mut ctx, None);
    conn.handle_with_context(&Event::LSetup { id: "test".to_string() }, &mut ctx);
    conn.handle_with_context(&Event::RSetup { now: at(0) }, &mut ctx);
    conn.handle_with_context(&Event::RIdValid { now: at(0), id: "test".to_string() }, &mut ctx);
    conn.handle_with_context(&Event::LStartup { now: at(0) }, &mut ctx);
    while ctx.poll_transmit().is_some() {}
    conn.handle_with_context(&Event::TrTimeout { now: at(40_000) }, &mut ctx);
    assert_eq!(*conn.state(), State::AssociationPending { tr: Tr(at(80_000)) });
    assert_eq!(ctx.poll_transmit(), Some(FmtpPacket::startup()));
}

#[test]
fn server_rejects_unknown_identification() {
    let mut ctx = ConnectionContext::new();
    let mut conn = Connection::new(config(), &mut ctx, None);
    conn.handle_with_context(&Event::RSetup { now: at(10) }, &mut ctx);
    assert_eq!(*conn.state(), State::IdPending { ti: Ti(at(5_010)) });
    assert!(conn.is_server());
    conn.handle_with_context(&Event::RIdInvalid, &mut ctx);
    assert_eq!(*conn.state(), State::Idle);
    assert_eq!(ctx.poll_transmit(), Some(FmtpPacket::reject()));
}

#[test]
fn server_without_identification_timer_fails() {
    let mut c = config();
    c.server_ti = None;
    let mut ctx = ConnectionContext::new();
    let mut conn = Connection::new(c, &mut ctx, None);
    conn.handle_with_context(&Event::RSetup { now: at(10) }, &mut ctx);
    assert_eq!(*conn.state(), State::Error);
}

#[test]
fn deadlines_beyond_the_clock_are_refused() {
    let mut ctx = ConnectionContext::new();
    let conn = associated(&mut ctx);
    assert!(!conn.can_handle(&Event::TsTimeout { now: at(u64::MAX - 1) }));
    assert!(conn.can_handle(&Event::TsTimeout { now: at(1) }));
    assert!(!conn.can_handle(&Event::LData { now: at(1), msg: FmtpMessage::Operational(vec![0; 10241]) }));
    assert!(conn.can_handle(&Event::LData { now: at(1), msg: FmtpMessage::Operational(vec![0; 10240]) }));
    assert!(conn.can_handle(&Event::LDisconnect));
}

#[test]
fn remote_bytes_drive_the_machine() {
    let mut ctx = ConnectionContext::new();
    let mut conn = associated(&mut ctx);
    let mut buffer = vec![0u8; 64];
    let bytes = FmtpPacket::heartbeat().into_bytes();
    buffer[..bytes.len()].copy_from_slice(&bytes);
    conn.handle_remote_packet(&buffer, bytes.len(), at(1_000), &mut ctx).unwrap();
    assert_eq!(*conn.state(), State::DataReady { tr: Tr(at(41_000)), ts: Ts(at(15_000)) });
    let ev = conn.remote_event(&buffer, 0, at(2_000)).unwrap();
    assert!(matches!(ev, Event::RDisconnect));
    assert_eq!(conn.handle_remote_packet(&[9, 9, 9, 9, 9], 5, at(3_000), &mut ctx).unwrap_err(), fmtp::FmtpError::InvalidHeader);
    assert_eq!(*conn.state(), State::DataReady { tr: Tr(at(41_000)), ts: Ts(at(15_000)) });
}

#[test]
fn commands_become_events() {
    let now = at(7);
    assert!(matches!(UserCommand::Startup.into_event(now), Event::LStartup { now: t } if t == now));
    assert!(matches!(UserCommand::Shutdown.into_event(now), Event::LShutdown { now: t } if t == now));
    assert!(matches!(UserCommand::Disconnect.into_event(now), Event::LDisconnect));
    assert!(matches!(UserCommand::Setup { id: "x".to_string() }.into_event(now), Event::LSetup { ref id } if id == "x"));
    let msg = FmtpMessage::Operator(b"m".to_vec());
    assert!(matches!(UserCommand::Data { msg: msg.clone() }.into_event(now), Event::LData { now: t, msg: ref m } if t == now && *m == msg));
    assert!(matches!(TimerKind::Identification.expiry_event(now), Event::TiTimeout));
    assert!(matches!(TimerKind::Response.expiry_event(now), Event::TrTimeout { now: t } if t == now));
    assert!(matches!(TimerKind::Heartbeat.expiry_event(now), Event::TsTimeout { now: t } if t == now));
}

#[test]
fn waits_per_state() {
    assert_eq!(wait_plan(&State::Idle, Target::Ready), Wait::Idle);
    assert_eq!(wait_plan(&State::ConnectionPending, Target::Ready), Wait::Stalled);
    assert_eq!(wait_plan(&State::Error, Target::Ready), Wait::Failed);
    assert_eq!(
        wait_plan(&State::IdPending { ti: Ti(at(5)) }, Target::Ready),
        Wait::Until { at: at(5), expires: Some(TimerKind::Identification) }
    );
    assert_eq!(
        wait_plan(&State::AcceptPending { ti: Ti(at(6)) }, Target::Ready),
        Wait::Until { at: at(6), expires: Some(TimerKind::Identification) }
    );
    assert_eq!(wait_plan(&State::Ready { tr: Tr(at(7)) }, Target::DataReady), Wait::StartupNow);
    assert_eq!(wait_plan(&State::Ready { tr: Tr(at(7)) }, Target::Ready), Wait::Until { at: at(7), expires: None });
    assert_eq!(
        wait_plan(&State::AssociationPending { tr: Tr(at(8)) }, Target::Ready),
        Wait::Until { at: at(8), expires: Some(TimerKind::Response) }
    );
    assert_eq!(
        wait_plan(&State::DataReady { tr: Tr(at(9)), ts: Ts(at(3)) }, Target::Ready),
        Wait::EitherOf { tr: at(9), ts: at(3) }
    );
}

#[test]
fn idle_plans() {
    let c = config();
    assert_eq!(idle_plan(&c, &None, true), IdlePlan::Disconnect);
    assert_eq!(idle_plan(&c, &Some("test".to_string()), false), IdlePlan::Connect { retry: Some(Duration::from_secs(3)) });
    assert_eq!(idle_plan(&c, &Some("test".to_string()), true), IdlePlan::Reconnect { delay: Duration::from_secs(3) });
    assert_eq!(idle_plan(&c, &Some("other".to_string()), true), IdlePlan::Stop);
    assert_eq!(idle_plan(&c, &Some("other".to_string()), false), IdlePlan::Connect { retry: None });
}

#[test]
fn observer_reports_name_once_and_state_changes() {
    let mut ctx = ConnectionContext::new();
    let mut conn = Connection::new(config(), &mut ctx, None);
    let mut obs = Observer::new();
    assert!(obs.observe(&conn).is_empty());
    conn.handle_with_context(&Event::LSetup { id: "test".to_string() }, &mut ctx);
    let events = obs.observe(&conn);
    assert_eq!(events.len(), 2);
    assert!(matches!(events[0], ConnectionEvent::ConnectionIdDetermined(ref id) if id == "test"));
    assert!(matches!(events[1], ConnectionEvent::StateChanged(State::ConnectionPending)));
    assert!(obs.observe(&conn).is_empty());
    conn.handle_with_context(&Event::RSetup { now: at(0) }, &mut ctx);
    let events = obs.observe(&conn);
    assert_eq!(events.len(), 1);
    assert!(matches!(events[0], ConnectionEvent::StateChanged(State::IdPending { .. })));
}

#[test]
fn server_bookkeeping() {
    let mut conns: Connections<u32> = Connections::new();
    let mut id = "provisional".to_string();
    conns.insert(id.clone(), ConnectionState { state: State::Idle, remote_addr: Some("1.2.3.4:5".to_string()), handles: 7 });
    assert_eq!(track_server_event(&mut conns, &mut id, ConnectionEvent::StateChanged(State::ConnectionPending)), Ok(None));
    assert_eq!(conns.get(&id).unwrap().state, State::ConnectionPending);
    assert_eq!(track_server_event(&mut conns, &mut id, ConnectionEvent::ConnectionIdDetermined("link".to_string())), Ok(None));
    assert_eq!(id, "link");
    assert!(conns.get(&"provisional".to_string()).is_none());
    assert_eq!(conns.get(&"link".to_string()).unwrap().handles, 7);
    let msg = FmtpMessage::Operational(b"x".to_vec());
    assert_eq!(track_server_event(&mut conns, &mut id, ConnectionEvent::DataReceived(msg.clone())), Ok(Some(msg)));
    let mut gone = "gone".to_string();
    assert_eq!(track_server_event(&mut conns, &mut gone, ConnectionEvent::StateChanged(State::Idle)), Err(TrackError::UnknownConnection));
    assert_eq!(
        track_server_event(&mut conns, &mut gone, ConnectionEvent::ConnectionIdDetermined("x".to_string())),
        Err(TrackError::UnknownConnection)
    );
    assert_eq!(gone, "gone");
    let link = "link".to_string();
    assert_eq!(track_client_event(&mut conns, &link, ConnectionEvent::ConnectionIdDetermined("y".to_string())), Ok(None));
    assert_eq!(track_client_event(&mut conns, &link, ConnectionEvent::StateChanged(State::Error)), Ok(None));
    assert_eq!(conns.get(&link).unwrap().state, State::Error);
    assert_eq!(track_client_event(&mut conns, &"none".to_string(), ConnectionEvent::StateChanged(State::Error)), Err(TrackError::UnknownConnection));
}

fn deliver(from: &mut ConnectionContext, to: &mut Connection, to_ctx: &mut ConnectionContext, now: Instant) {
    while let Some(packet) = from.poll_transmit() {
        let bytes = packet.into_bytes();
        let mut buffer = vec![0u8; 10240];
        buffer[..bytes.len()].copy_from_slice(&bytes);
        let event = to.remote_event(&buffer, bytes.len(), now).unwrap();
        assert!(to.can_handle(&event));
        to.handle_with_context(&event, to_ctx);
    }
}

#[test]
fn peers_identify_associate_and_exchange_data() {
    let mut client_config = config();
    client_config.server_ti = None;
    let mut server_config = Config { bind_address: None, connections: ConnectionMap::new(), server_ti: Some(Duration::from_secs(5)) };
    let mut server_side = entry(Role::Server, None);
    server_side.local_id = FmtpIdentifier::new(b"SERVER").unwrap();
    server_side.remote_id = FmtpIdentifier::new(b"CLIENT").unwrap();
    server_config.connections.insert("peer".to_string(), server_side);

    let mut cctx = ConnectionContext::new();
    let mut sctx = ConnectionContext::new();
    let mut client = Connection::new(client_config, &mut cctx, Some("test".to_string()));
    let mut server = Connection::new(server_config, &mut sctx, None);

    client.handle_with_context(&Event::LSetup { id: "test".to_string() }, &mut cctx);
    server.handle_with_context(&Event::RSetup { now: at(0) }, &mut sctx);
    client.handle_with_context(&Event::RSetup { now: at(0) }, &mut cctx);
    deliver(&mut cctx, &mut server, &mut sctx, at(10));
    assert!(matches!(*server.state(), State::AcceptPending { .. }));
    assert_eq!(server.id(), &Some("peer".to_string()));
    deliver(&mut sctx, &mut client, &mut cctx, at(20));
    assert_eq!(*client.state(), State::Ready { tr: Tr(at(40_020)) });
    deliver(&mut cctx, &mut server, &mut sctx, at(30));
    assert_eq!(*server.state(), State::Ready { tr: Tr(at(40_030)) });

    client.handle_with_context(&Event::LStartup { now: at(40) }, &mut cctx);
    server.handle_with_context(&Event::LStartup { now: at(40) }, &mut sctx);
    deliver(&mut cctx, &mut server, &mut sctx, at(50));
    deliver(&mut sctx, &mut client, &mut cctx, at(50));
    assert_eq!(*client.state(), State::DataReady { tr: Tr(at(40_050)), ts: Ts(at(15_050)) });
    assert!(matches!(*server.state(), State::DataReady { .. }));

    let msg = FmtpMessage::Operational(b"FPL-ABC123".to_vec());
    client.handle_with_context(&Event::LData { now: at(60), msg: msg.clone() }, &mut cctx);
    deliver(&mut cctx, &mut server, &mut sctx, at(70));
    assert_eq!(sctx.poll_receive(), Some(msg));
}

#[test]
fn shutdown_answers_association_request() {
    let mut ctx = ConnectionContext::new();
    let mut conn = Connection::new(config(), &mut ctx, None);
    conn.handle_with_context(&Event::LSetup { id: "test".to_string() }, &mut ctx);
    conn.handle_with_context(&Event::RSetup { now: at(0) }, &mut ctx);
    conn.handle_with_context(&Event::RIdValid { now: at(0), id: "test".to_string() }, &mut ctx);
    conn.handle_with_context(&Event::LStartup { now: at(10) }, &mut ctx);
    assert_eq!(*conn.state(), State::AssociationPending { tr: Tr(at(40_010)) });
    while ctx.poll_transmit().is_some() {}
    conn.handle_with_context(&Event::RShutdown { now: at(500) }, &mut ctx);
    assert_eq!(*conn.state(), State::Ready { tr: Tr(at(40_500)) });
    assert!(ctx.poll_transmit().is_none());
}

#[test]
fn accepted_connection_life() {
    let mut conns: Connections<u32> = Connections::new();
    conns.insert("client".to_string(), ConnectionState { state: State::Ready { tr: Tr(at(5)) }, remote_addr: None, handles: 1 });
    let mut id = "a1b2".to_string();
    assert!(register(&mut conns, id.clone(), Some("10.0.0.1:8500".to_string()), 2).is_none());
    assert_eq!(conns.len(), 2);
    assert_eq!(conns.get(&id).unwrap().state, State::Idle);
    assert_eq!(conns.get(&id).unwrap().remote_addr.as_deref(), Some("10.0.0.1:8500"));
    assert_eq!(track_server_event(&mut conns, &mut id, ConnectionEvent::ConnectionIdDetermined("peer".to_string())), Ok(None));
    assert!(conns.get(&"a1b2".to_string()).is_none());
    assert_eq!(track_server_event(&mut conns, &mut id, ConnectionEvent::StateChanged(State::Error)), Ok(None));
    assert_eq!(conns.get(&"peer".to_string()).unwrap().state, State::Error);
    let closed = close(&mut conns, &id).unwrap();
    assert_eq!(closed.handles, 2);
    assert_eq!(conns.len(), 1);
    assert!(conns.contains_key(&"client".to_string()));
    assert!(close(&mut conns, &id).is_none());
}

#[test]
fn connecting_tries_each_address_in_order() {
    let mut c = config();
    let mut e = entry(Role::Client, None);
    e.remote_addresses = vec!["10.0.0.1:8500".to_string(), "10.0.0.2:8500".to_string()];
    c.connections.insert("two".to_string(), e);
    let two = "two".to_string();
    match connect_step(&c, &two, 0, None, at(1)) {
        ConnectAction::Try { address, setup: Event::LSetup { id } } => {
            assert_eq!(address, "10.0.0.1:8500");
            assert_eq!(id, "two");
        }
        other => panic!("unexpected {other:?}"),
    }
    assert!(matches!(connect_step(&c, &two, 0, Some(false), at(2)), ConnectAction::Failed { release: Event::RDisconnect }));
    match connect_step(&c, &two, 1, None, at(3)) {
        ConnectAction::Try { address, .. } => assert_eq!(address, "10.0.0.2:8500"),
        other => panic!("unexpected {other:?}"),
    }
    assert!(matches!(connect_step(&c, &two, 1, Some(true), at(4)), ConnectAction::Connected { established: Event::RSetup { now } } if now == at(4)));
    assert!(matches!(connect_step(&c, &two, 2, None, at(5)), ConnectAction::GiveUp));
    assert!(matches!(connect_step(&c, &"missing".to_string(), 0, None, at(6)), ConnectAction::GiveUp));
    assert!(matches!(connect_step(&c, &"test".to_string(), 0, None, at(7)), ConnectAction::GiveUp));
}

#[test]
fn deliveries_report_each_message_in_order() {
    let mut ctx = ConnectionContext::new();
    let mut conn = associated(&mut ctx);
    conn.handle_with_context(&Event::RData { now: at(100), msg: FmtpMessage::Operational(b"one".to_vec()) }, &mut ctx);
    conn.handle_with_context(&Event::RData { now: at(200), msg: FmtpMessage::Operator(b"two".to_vec()) }, &mut ctx);
    let reports = deliveries(&mut ctx);
    assert_eq!(reports.len(), 2);
    assert!(matches!(&reports[0], ConnectionEvent::DataReceived(FmtpMessage::Operational(d)) if d == b"one"));
    assert!(matches!(&reports[1], ConnectionEvent::DataReceived(FmtpMessage::Operator(d)) if d == b"two"));
    assert!(ctx.poll_receive().is_none());
    assert!(deliveries(&mut ctx).is_empty());
}
