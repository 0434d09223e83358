use fmtp::message::display_line;
use fmtp::{
    Config, ConnectionConfig, ConnectionMap, Duration, Event, FmtpError, FmtpIdentifier,
    FmtpMessage, FmtpPacket, FmtpType, Instant, Role, Target,
};

fn config_entry(local: &[u8], remote: &[u8], role: Role) -> ConnectionConfig {
    ConnectionConfig {
        local_id: FmtpIdentifier::new(local).unwrap(),
        remote_id: FmtpIdentifier::new(remote).unwrap(),
        ti: Duration::from_secs(30),
        tr: Duration::from_secs(40),
        ts: Duration::from_secs(15),
        remote_addresses: vec!["127.0.0.1:8500".to_string()],
        role,
        initial_target: Target::DataReady,
        connect_retry_timer: Some(Duration::from_secs(3)),
    }
}

#[test]
fn identifier_bounds() {
    assert_eq!(FmtpIdentifier::new(b"CLIENT").unwrap().as_bytes(), b"CLIENT");
    assert_eq!(FmtpIdentifier::new(b"").unwrap_err(), FmtpError::IdentifierLength);
    assert_eq!(FmtpIdentifier::new(&[b'A'; 33]).unwrap_err(), FmtpError::IdentifierLength);
    assert_eq!(FmtpIdentifier::new(&[b'A'; 32]).unwrap().len(), 32);
    assert_eq!(FmtpIdentifier::new(&[b'A', 0xC3, 0xA9]).unwrap_err(), FmtpError::IdentifierNotAscii);
}

#[test]
fn message_size_limit() {
    assert_eq!(FmtpMessage::operational(vec![0; 10240]).unwrap(), FmtpMessage::Operational(vec![0; 10240]));
    assert_eq!(FmtpMessage::operational(vec![0; 10241]).unwrap_err(), FmtpError::PayloadTooLarge);
    assert_eq!(FmtpMessage::operator(b"hi".to_vec()).unwrap(), FmtpMessage::Operator(b"hi".to_vec()));
    assert_eq!(FmtpMessage::operator(vec![1; 10241]).unwrap_err(), FmtpError::PayloadTooLarge);
}

#[test]
fn message_display() {
    let m = FmtpMessage::Operational(b"hello".to_vec());
    assert_eq!(m.to_display_string(), "Operational: hello\n");
    assert_eq!(m.typ(), "Operational");
    assert_eq!(m.data(), b"hello");
    let m = FmtpMessage::Operator(vec![b'a', 0xFF]);
    assert_eq!(m.to_display_string(), "Operator: a\u{FFFD}\n");
    assert_eq!(display_line("K", "v"), "K: v\n");
}

#[test]
fn packet_display() {
    assert_eq!(FmtpPacket::heartbeat().to_display_string(), "System: 03\n");
    let p = FmtpPacket::new(FmtpType::Operator, vec![255, 0, 12]).unwrap();
    assert_eq!(p.to_display_string(), "Operator: [255, 0, 12]\n");
}

#[test]
fn packet_new_limit() {
    let p = FmtpPacket::new(FmtpType::Operational, vec![7; 10240]).unwrap();
    assert_eq!(p.header.length(), 10245);
    assert_eq!(FmtpPacket::new(FmtpType::Operational, vec![7; 10241]).unwrap_err(), FmtpError::PayloadTooLarge);
}

#[test]
fn packet_roundtrip() {
    let p = FmtpPacket::new(FmtpType::Operator, b"flight".to_vec()).unwrap();
    let bytes = p.clone().into_bytes();
    assert_eq!(bytes, b"\x02\x00\x00\x0b\x02flight".to_vec());
    assert_eq!(FmtpPacket::from_bytes(&bytes).unwrap(), p);
    let mut longer = bytes.clone();
    longer.extend_from_slice(b"trailing");
    assert_eq!(FmtpPacket::from_bytes(&longer).unwrap(), p);
}

#[test]
fn packet_decoding_errors() {
    assert_eq!(FmtpPacket::from_bytes(&[2, 0, 0, 5]).unwrap_err(), FmtpError::PacketTooShort);
    assert_eq!(FmtpPacket::from_bytes(&[1, 0, 0, 5, 1]).unwrap_err(), FmtpError::InvalidHeader);
    assert_eq!(FmtpPacket::from_bytes(&[2, 1, 0, 5, 1]).unwrap_err(), FmtpError::InvalidHeader);
    assert_eq!(FmtpPacket::from_bytes(&[2, 0, 0, 5, 5]).unwrap_err(), FmtpError::InvalidHeader);
    assert_eq!(FmtpPacket::from_bytes(&[2, 0, 0x28, 0x06, 1]).unwrap_err(), FmtpError::PayloadTooLarge);
    assert_eq!(FmtpPacket::from_bytes(&[2, 0, 0x28, 0x05, 1]).unwrap_err(), FmtpError::PacketTooShort);
    assert_eq!(FmtpPacket::from_bytes(&[2, 0, 0, 3, 4, b'0']).unwrap_err(), FmtpError::InvalidHeader);
    assert_eq!(FmtpPacket::from_bytes(&[2, 0, 0, 9, 4, b'0']).unwrap_err(), FmtpError::PacketTooShort);
    let empty = FmtpPacket::from_bytes(&[2, 0, 0, 5, 4]).unwrap();
    assert_eq!(empty.data(), b"");
    assert_eq!(empty.typ(), FmtpType::System);
}

#[test]
fn message_packet_roundtrip() {
    let m = FmtpMessage::Operator(b"text".to_vec());
    let p = FmtpPacket::from_msg(m.clone());
    assert_eq!(p.typ(), FmtpType::Operator);
    assert_eq!(p.try_to_msg().unwrap(), m);
    assert_eq!(FmtpPacket::heartbeat().try_to_msg().unwrap_err(), FmtpError::NotAMessage(FmtpType::System));
    assert_eq!(
        FmtpPacket::accept().try_to_msg().unwrap_err(),
        FmtpError::NotAMessage(FmtpType::Identification)
    );
}

#[test]
fn control_packet_predicates() {
    let all = [
        FmtpPacket::accept(),
        FmtpPacket::reject(),
        FmtpPacket::startup(),
        FmtpPacket::shutdown(),
        FmtpPacket::heartbeat(),
    ];
    for (i, p) in all.iter().enumerate() {
        assert_eq!(p.is_accept(), i == 0);
        assert_eq!(p.is_reject(), i == 1);
        assert_eq!(p.is_startup(), i == 2);
        assert_eq!(p.is_shutdown(), i == 3);
        assert_eq!(p.is_heartbeat(), i == 4);
    }
}

#[test]
fn handshake_matches_peer_configuration() {
    let client = config_entry(b"CLIENT", b"SERVER", Role::Client);
    let mut server_config = Config { bind_address: None, connections: ConnectionMap::new(), server_ti: None };
    server_config.connections.insert("other".to_string(), config_entry(b"SERVER", b"NOBODY", Role::Server));
    server_config.connections.insert("link".to_string(), config_entry(b"SERVER", b"CLIENT", Role::Server));

    let hello = FmtpPacket::handshake(&client.local_id, &client.remote_id);
    assert_eq!(hello.data(), b"CLIENT-SERVER");
    let link = "link".to_string();
    let other = "other".to_string();
    let unknown = "unknown".to_string();
    assert_eq!(hello.check_handshake(&server_config, None), Some(&link));
    assert_eq!(hello.check_handshake(&server_config, Some(&link)), Some(&link));
    assert_eq!(hello.check_handshake(&server_config, Some(&other)), None);
    assert_eq!(hello.check_handshake(&server_config, Some(&unknown)), Some(&link));
    let stranger = FmtpPacket::handshake(
        &FmtpIdentifier::new(b"X").unwrap(),
        &FmtpIdentifier::new(b"Y").unwrap(),
    );
    assert_eq!(stranger.check_handshake(&server_config, None), None);
    assert_eq!(FmtpPacket::accept().check_handshake(&server_config, None), None);
}

#[test]
fn incoming_packets_become_events() {
    let mut config = Config { bind_address: None, connections: ConnectionMap::new(), server_ti: None };
    config.connections.insert("link".to_string(), config_entry(b"SERVER", b"CLIENT", Role::Server));
    let now = Instant::from_millis(5);
    let id = "link".to_string();

    let ev = Event::from_incoming_packet(0, FmtpPacket::heartbeat(), now, &config, None).unwrap();
    assert!(matches!(ev, Event::RDisconnect));
    let ev = Event::from_incoming_packet(7, FmtpPacket::heartbeat(), now, &config, None).unwrap();
    assert!(matches!(ev, Event::RHeartbeat { now: t } if t == now));
    let ev = Event::from_incoming_packet(7, FmtpPacket::startup(), now, &config, None).unwrap();
    assert!(matches!(ev, Event::RStartup { now: t } if t == now));
    let ev = Event::from_incoming_packet(7, FmtpPacket::shutdown(), now, &config, None).unwrap();
    assert!(matches!(ev, Event::RShutdown { now: t } if t == now));
    let ev = Event::from_incoming_packet(11, FmtpPacket::accept(), now, &config, None).unwrap();
    assert!(matches!(ev, Event::RAccept { now: t } if t == now));
    let ev = Event::from_incoming_packet(11, FmtpPacket::reject(), now, &config, None).unwrap();
    assert!(matches!(ev, Event::RReject));
    let msg = FmtpMessage::Operational(b"x".to_vec());
    let ev = Event::from_incoming_packet(6, FmtpPacket::from_msg(msg.clone()), now, &config, None).unwrap();
    assert!(matches!(ev, Event::RData { now: t, msg: m } if t == now && m == msg));
    let hello = FmtpPacket::handshake(&FmtpIdentifier::new(b"CLIENT").unwrap(), &FmtpIdentifier::new(b"SERVER").unwrap());
    let ev = Event::from_incoming_packet(18, hello, now, &config, Some(&id)).unwrap();
    assert!(matches!(ev, Event::RIdValid { now: t, id: ref i } if t == now && i == "link"));
    let wrong = FmtpPacket::handshake(&FmtpIdentifier::new(b"SERVER").unwrap(), &FmtpIdentifier::new(b"CLIENT").unwrap());
    let ev = Event::from_incoming_packet(18, wrong, now, &config, None).unwrap();
    assert!(matches!(ev, Event::RIdInvalid));
    let odd = FmtpPacket::new(FmtpType::System, b"02".to_vec()).unwrap();
    assert_eq!(
        Event::from_incoming_packet(7, odd, now, &config, None).unwrap_err(),
        FmtpError::UnexpectedSystemPayload
    );
}

#[test]
fn connection_map_behaves_as_a_map() {
    let mut map = ConnectionMap::new();
    assert_eq!(map.len(), 0);
    assert!(map.insert("a".to_string(), config_entry(b"A", b"B", Role::Client)).is_none());
    assert!(map.insert("b".to_string(), config_entry(b"B", b"A", Role::Server)).is_none());
    let replaced = map.insert("a".to_string(), config_entry(b"C", b"D", Role::Client)).unwrap();
    assert_eq!(replaced.local_id.as_bytes(), b"A");
    assert_eq!(map.len(), 2);
    assert_eq!(map.get(&"a".to_string()).unwrap().local_id.as_bytes(), b"C");
    assert!(map.contains_key(&"b".to_string()));
    assert_eq!(map.remove(&"b".to_string()).unwrap().role, Role::Server);
    assert!(map.get(&"b".to_string()).is_none());
    assert_eq!(map.len(), 1);
    let copy = map.clone();
    assert!(copy.contains_key(&"a".to_string()));
}

#[test]
fn config_decisions() {
    let mut config = Config { bind_address: None, connections: ConnectionMap::new(), server_ti: None };
    config.connections.insert("c1".to_string(), config_entry(b"A", b"B", Role::Client));
    config.connections.insert("s1".to_string(), config_entry(b"B", b"A", Role::Server));
    config.connections.insert("c2".to_string(), config_entry(b"C", b"D", Role::Client));
    assert_eq!(config.unbound_server(), Some(&"s1".to_string()));
    let mut clients = config.client_names();
    clients.sort();
    assert_eq!(clients, vec!["c1".to_string(), "c2".to_string()]);
    assert_eq!(config.retry_delay(&"c1".to_string()), Some(Duration::from_secs(3)));
    assert_eq!(config.retry_delay(&"s1".to_string()), None);
    assert_eq!(config.retry_delay(&"nope".to_string()), None);
    config.bind_address = Some("127.0.0.1:8500".to_string());
    assert_eq!(config.unbound_server(), None);
}

#[test]
fn time_arithmetic() {
    let t = Instant::from_millis(10);
    assert_eq!(t.add_duration(Duration::from_secs(2)), Instant::from_millis(2010));
    assert_eq!(Instant::from_millis(u64::MAX).checked_add(Duration::from_millis(1)), None);
    assert_eq!(Duration::from_millis(2500).as_secs(), 2);
}

#[test]
fn largest_payload_round_trips() {
    let largest = FmtpPacket::new(FmtpType::Operational, vec![1; 10240]).unwrap();
    let bytes = largest.clone().into_bytes();
    assert_eq!(bytes.len(), 10245);
    assert_eq!(&bytes[..5], &[2, 0, 0x28, 0x05, 1]);
    assert_eq!(FmtpPacket::from_bytes(&bytes).unwrap(), largest);
}

#[test]
fn empty_data_is_refused() {
    assert_eq!(FmtpPacket::new(FmtpType::Operator, vec![]).unwrap_err(), FmtpError::EmptyPayload);
    assert!(FmtpPacket::new(FmtpType::Operator, vec![0]).is_ok());
}

#[test]
fn handshake_picks_first_matching_configuration() {
    let client = config_entry(b"CLIENT", b"SERVER", Role::Client);
    let mut server_config = Config { bind_address: None, connections: ConnectionMap::new(), server_ti: None };
    server_config.connections.insert("second".to_string(), config_entry(b"SERVER", b"NOBODY", Role::Server));
    server_config.connections.insert("first".to_string(), config_entry(b"SERVER", b"CLIENT", Role::Server));
    server_config.connections.insert("third".to_string(), config_entry(b"SERVER", b"CLIENT", Role::Server));
    let hello = FmtpPacket::handshake(&client.local_id, &client.remote_id);
    let first = "first".to_string();
    assert_eq!(hello.check_handshake(&server_config, None), Some(&first));
    let event = Event::from_incoming_packet(13, hello, Instant::from_millis(7), &server_config, None).unwrap();
    assert!(matches!(event, Event::RIdValid { now, id } if now == Instant::from_millis(7) && id == first));
}
