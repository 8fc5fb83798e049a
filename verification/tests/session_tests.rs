use mc_gateway::config::{Config, Destination, Route, StatusConfig, TransferMode};
use mc_gateway::error::{
    IoError, PacketError, PacketName, ProxyError, SerializationError, VarIntError,
};
use mc_gateway::json::Json;
use mc_gateway::packet::{decode_packet_as, make_raw, UncompressedPacket};
use mc_gateway::packets::{
    Handshake, LoginDisconnect, LoginStart, LoginSuccess, PingPong, S2CStatusResponse, Transfer,
};
use mc_gateway::session::{
    answer_cache, answer_connected, answer_handshake, answer_login_ack, answer_login_start,
    answer_ping, answer_status_request, answer_transferred, answer_upstream, farewell,
    make_login_success, Action, ConnectionState, Event, Phase, Session, UpstreamError,
};
use mc_gateway::varint::VarInt;

const NO_DESTINATION: &str =
    "{\"text\": \"Could not find a destination to transfer you to\", \"color\": \"red\"}";
const NO_TRANSFERS: &str =
    "{\"translate\": \"multiplayer.disconnect.transfers_disabled\", \"color\": \"red\"}";

fn text(s: &str) -> Json {
    Json::Other(serde_json::Value::String(s.to_string()))
}

fn fixed_status(fake_protocol_version: bool) -> StatusConfig {
    StatusConfig::Static {
        json: Json::Object(vec![
            (
                "version".to_string(),
                Json::Object(vec![
                    ("name".to_string(), text("any")),
                    ("protocol".to_string(), Json::Number(1)),
                ]),
            ),
            ("description".to_string(), text("hello")),
        ]),
        fake_protocol_version,
    }
}

fn fetched_status(rewrite_address: bool, cache_ttl: Option<u64>) -> StatusConfig {
    StatusConfig::FetchFrom {
        host: "10.0.0.9".to_string(),
        port: 4000,
        rewrite_address,
        cache_ttl,
    }
}

fn transfer() -> Destination {
    Destination::Transfer {
        host: "real.example".to_string(),
        port: 40000,
        transfer_mode: TransferMode::default(),
        rewrite_address: false,
    }
}

fn kick() -> Destination {
    Destination::Kick {
        message: Json::Object(vec![
            ("text".to_string(), text("Closed")),
            ("color".to_string(), text("gold")),
        ]),
    }
}

fn route(pattern: &str, status: StatusConfig, destination: Destination) -> Route {
    Route { pattern: pattern.to_string(), status, destination }
}

fn config() -> Config {
    Config {
        listen: "127.0.0.1:25565".to_string(),
        routes: vec![
            route("fixed.example", fixed_status(false), transfer()),
            route("faked.example", fixed_status(true), kick()),
            route("fetched.example", fetched_status(false, Some(30)), transfer()),
            route("rewritten.example", fetched_status(true, Some(0)), transfer()),
            route("endless.example", fetched_status(true, None), transfer()),
            route(
                "bare.example",
                StatusConfig::Static {
                    json: Json::Object(Vec::new()),
                    fake_protocol_version: true,
                },
                kick(),
            ),
        ],
    }
}

fn handshake(address: &str, protocol_version: i32, intent: i32) -> Handshake {
    Handshake {
        protocol_version: VarInt(protocol_version),
        server_address: address.to_string(),
        server_port: 25565,
        intent: VarInt(intent),
    }
}

fn greeting(address: &str, protocol_version: i32, intent: i32) -> Event {
    Event::Frame(make_raw(&handshake(address, protocol_version, intent)).unwrap().to_frame())
}

fn frame(packet_id: i32, payload: Vec<u8>) -> Event {
    Event::Frame(UncompressedPacket::new(packet_id, payload).to_frame())
}

fn login_start(name: &str) -> Event {
    let packet = LoginStart { username: name.to_string(), uuid: 3 };
    Event::Frame(make_raw(&packet).unwrap().to_frame())
}

fn ping(timestamp: i64) -> Event {
    Event::Frame(make_raw(&PingPong { timestamp }).unwrap().to_frame())
}

fn eof() -> PacketError<String> {
    PacketError::VarInt(VarIntError::Io(IoError::UnexpectedEof("gone".to_string())))
}

fn reset() -> PacketError<String> {
    PacketError::Io(IoError::Other("reset".to_string()))
}

/// Takes the events in turn, and gives what came of the last one.
fn run(events: Vec<Event>) -> (Session, Action) {
    let config = config();
    let mut session = Session::new();
    let mut action = Action::Read;
    for event in events {
        assert!(session.accepts(&config, &event));
        let outcome = session.step(&config, event);
        session = outcome.0;
        action = outcome.1;
    }
    (session, action)
}

fn sent(action: Action) -> UncompressedPacket {
    match action {
        Action::Send(packet) => packet,
        other => panic!("{:?}", other),
    }
}

fn sent_last(action: Action) -> UncompressedPacket {
    match action {
        Action::SendLast(packet) => packet,
        other => panic!("{:?}", other),
    }
}

fn reason(packet: UncompressedPacket) -> String {
    let read: LoginDisconnect = decode_packet_as(packet).unwrap();
    read.reason
}

fn error_of(action: Action) -> ProxyError<String> {
    match action {
        Action::Fail(error) => error,
        other => panic!("{:?}", other),
    }
}

#[test]
fn sessions_begin_with_a_handshake() {
    let session = Session::new();
    assert!(matches!(session.phase, Phase::Handshake));
    assert_eq!(session.state, ConnectionState::Handshake);
}

#[test]
fn a_login_without_a_route_is_told_so() {
    let (session, action) = run(vec![greeting("nowhere.example", 767, 2)]);
    assert_eq!(reason(sent_last(action)), NO_DESTINATION);
    assert_eq!(session.state, ConnectionState::Handshake);
    assert!(matches!(session.phase, Phase::Closed));
}

#[test]
fn others_without_a_route_are_told_nothing() {
    for intent in [1, 3, 0, 17] {
        let (_, action) = run(vec![greeting("nowhere.example", 767, intent)]);
        assert!(matches!(action, Action::Finish));
    }
}

#[test]
fn transfers_are_refused() {
    let (session, action) = run(vec![greeting("fixed.example", 767, 3)]);
    assert_eq!(reason(sent_last(action)), NO_TRANSFERS);
    assert!(matches!(session.phase, Phase::Closed));
}

#[test]
fn unknown_intents() {
    let (_, action) = run(vec![greeting("fixed.example", 767, -4)]);
    assert_eq!(error_of(action).text(), "bad packet: Unknown intent -4");
    let (_, action) = answer_handshake(&config(), handshake("fixed.example", 767, i32::MIN));
    assert_eq!(error_of(action).text(), "bad packet: Unknown intent -2147483648");
}

#[test]
fn a_handshake_that_is_none() {
    let (session, action) = run(vec![frame(5, Vec::new())]);
    assert!(matches!(
        error_of(action),
        ProxyError::UnexpectedPacket {
            found: 5,
            expected: 0,
            expected_name: Some(PacketName::Handshake),
        }
    ));
    assert_eq!(session.state, ConnectionState::Handshake);
    let (_, action) = run(vec![Event::Frame(Vec::new())]);
    assert!(matches!(
        error_of(action),
        ProxyError::Protocol { source: PacketError::VarInt(VarIntError::Io(_)) }
    ));
    let (_, action) = run(vec![frame(0, vec![1, 200])]);
    assert!(matches!(
        error_of(action),
        ProxyError::Serde { while_parsing: Some(PacketName::Handshake), .. }
    ));
}

#[test]
fn fixed_statuses_are_shown() {
    let (session, action) =
        run(vec![greeting("fixed.example", 767, 1), frame(0, Vec::new())]);
    let read: S2CStatusResponse = decode_packet_as(sent(action)).unwrap();
    assert_eq!(
        read.response,
        "{\"description\":\"hello\",\"version\":{\"name\":\"any\",\"protocol\":1}}"
    );
    assert!(matches!(session.phase, Phase::Ping));
}

#[test]
fn faked_statuses_announce_the_protocol_of_the_client() {
    let (_, action) = run(vec![greeting("faked.example", 771, 1), frame(0, Vec::new())]);
    let read: S2CStatusResponse = decode_packet_as(sent(action)).unwrap();
    assert_eq!(
        read.response,
        "{\"description\":\"hello\",\"version\":{\"name\":\"any\",\"protocol\":771}}"
    );
    let (_, action) = answer_status_request(
        &config(),
        ConnectionState::Handshake,
        handshake("faked.example", -1, 1),
        1,
        UncompressedPacket::new(0, Vec::new()),
    );
    let read: S2CStatusResponse = decode_packet_as(sent(action)).unwrap();
    assert!(read.response.contains("\"protocol\":-1"));
}

#[test]
fn statuses_must_be_asked_for() {
    let (_, action) = run(vec![greeting("bare.example", 767, 1), frame(9, Vec::new())]);
    assert_eq!(
        error_of(action).text(),
        "Expected packet id 0x0 but found 0x9 (Some(\"(fake) status request\"))"
    );
}

#[test]
fn statuses_that_cannot_be_shown_are_not_accepted() {
    for address in ["bare.example", "endless.example"] {
        let (session, _) = run(vec![greeting(address, 767, 1)]);
        assert!(!session.accepts(&config(), &frame(0, Vec::new())));
        assert!(session.accepts(&config(), &frame(1, Vec::new())));
        assert!(session.accepts(&config(), &Event::ReadFailed(eof())));
    }
}

#[test]
fn pings_come_back() {
    for timestamp in [0, 1, -1, i64::MAX, i64::MIN] {
        let (session, action) = run(vec![
            greeting("fixed.example", 767, 1),
            frame(0, Vec::new()),
            ping(timestamp),
        ]);
        let read: PingPong = decode_packet_as(sent_last(action)).unwrap();
        assert_eq!(read.timestamp, timestamp);
        assert!(matches!(session.phase, Phase::Closed));
    }
    let body = UncompressedPacket::new(0, Vec::new()).to_frame();
    let (_, action) = answer_ping(ConnectionState::Handshake, &body);
    assert!(matches!(
        error_of(action),
        ProxyError::UnexpectedPacket {
            found: 0,
            expected: 1,
            expected_name: Some(PacketName::PingPong),
        }
    ));
}

fn asked_upstream(address: &str) -> Vec<Event> {
    vec![
        greeting(address, 767, 1),
        frame(0, vec![5]),
        Event::CacheAnswer(None),
        Event::Connected,
    ]
}

#[test]
fn fetched_statuses_are_looked_up() {
    let (session, action) =
        run(vec![greeting("fetched.example", 767, 1), frame(0, Vec::new())]);
    match action {
        Action::LookUp { key, ttl } => {
            assert_eq!(key, "10.0.0.9:4000");
            assert_eq!(ttl, 30);
        }
        other => panic!("{:?}", other),
    }
    assert!(matches!(session.phase, Phase::CacheLookup { .. }));
}

#[test]
fn kept_statuses_are_served() {
    let (session, action) = run(vec![
        greeting("fetched.example", 767, 1),
        frame(0, Vec::new()),
        Event::CacheAnswer(Some(UncompressedPacket::new(0, vec![2, b'{', b'}']))),
    ]);
    let packet = sent(action);
    assert_eq!((packet.packet_id, packet.payload), (0, vec![2, b'{', b'}']));
    assert!(matches!(session.phase, Phase::Ping));
}

#[test]
fn a_status_server_is_reached_in_time() {
    let (_, action) = answer_cache(
        &config(),
        ConnectionState::Handshake,
        handshake("fetched.example", 767, 1),
        2,
        UncompressedPacket::new(0, Vec::new()),
        None,
    );
    match action {
        Action::Connect { host, port, timeout } => {
            assert_eq!((host.as_str(), port, timeout), ("10.0.0.9", 4000, 3));
        }
        other => panic!("{:?}", other),
    }
}

#[test]
fn a_status_server_gets_the_handshake_of_the_client() {
    let (_, action) = run(asked_upstream("fetched.example"));
    match action {
        Action::Exchange { handshake, request } => {
            let read: Handshake = decode_packet_as(handshake).unwrap();
            assert_eq!(read.server_address, "fetched.example");
            assert_eq!((read.server_port, read.protocol_version), (25565, VarInt(767)));
            assert_eq!(read.intent, VarInt(1));
            assert_eq!((request.packet_id, request.payload), (0, vec![5]));
        }
        other => panic!("{:?}", other),
    }
}

#[test]
fn a_status_server_can_get_its_own_address() {
    let (_, action) = answer_connected(
        &config(),
        ConnectionState::Handshake,
        handshake("rewritten.example", 767, 1),
        3,
        UncompressedPacket::new(0, Vec::new()),
    );
    match action {
        Action::Exchange { handshake, .. } => {
            let read: Handshake = decode_packet_as(handshake).unwrap();
            assert_eq!(read.server_address, "10.0.0.9");
            assert_eq!((read.server_port, read.protocol_version), (4000, VarInt(767)));
            assert_eq!(read.intent, VarInt(1));
        }
        other => panic!("{:?}", other),
    }
}

#[test]
fn answers_of_a_status_server_are_kept_and_passed_on() {
    let answer = make_raw(&S2CStatusResponse { response: "{}".to_string() }).unwrap();
    let mut events = asked_upstream("fetched.example");
    events.push(Event::UpstreamFrame(answer.to_frame()));
    let (session, action) = run(events);
    match action {
        Action::Relay { key, response, ping } => {
            assert_eq!(key, "10.0.0.9:4000");
            assert_eq!((response.packet_id, response.payload), (0, vec![2, b'{', b'}']));
            assert_eq!((ping.packet_id, ping.payload), (1, vec![0; 8]));
        }
        other => panic!("{:?}", other),
    }
    assert!(matches!(session.phase, Phase::Ping));
}

#[test]
fn answers_that_are_no_status() {
    let (_, action) =
        answer_upstream(&config(), ConnectionState::Handshake, 2, &vec![7, 1, 2]);
    assert!(matches!(
        error_of(action),
        ProxyError::UnexpectedPacket {
            found: 7,
            expected: 0,
            expected_name: Some(PacketName::StatusResponse),
        }
    ));
    let (_, action) = answer_upstream(&config(), ConnectionState::Handshake, 2, &vec![0, 9, 1]);
    assert!(matches!(
        error_of(action),
        ProxyError::Serde {
            source: SerializationError::Io(_),
            while_parsing: Some(PacketName::StatusResponse),
        }
    ));
    let (_, action) = answer_upstream(&config(), ConnectionState::Handshake, 2, &Vec::new());
    assert!(matches!(error_of(action), ProxyError::Protocol { .. }));
}

#[test]
fn failures_of_a_status_server() {
    let mut events = asked_upstream("fetched.example");
    events.pop();
    events.push(Event::UpstreamFailed(UpstreamError::TimedOut));
    let (session, action) = run(events);
    assert_eq!(error_of(action).text(), "Timeout");
    assert_eq!(session.state, ConnectionState::Handshake);

    let mut events = asked_upstream("fetched.example");
    events.pop();
    let refused = IoError::Other("refused".to_string());
    events.push(Event::UpstreamFailed(UpstreamError::Unreachable(refused)));
    let (_, action) = run(events);
    assert_eq!(error_of(action).text(), "FetchingStatus");

    let mut events = asked_upstream("fetched.example");
    events.push(Event::UpstreamFailed(UpstreamError::Broken(eof())));
    let (_, action) = run(events);
    assert_eq!(error_of(action).text(), "Protocol: VarInt error: I/O error: gone");
}

#[test]
fn logins_are_accepted() {
    let (session, action) = run(vec![greeting("fixed.example", 775, 2), login_start("Steve")]);
    let packet = sent(action);
    assert_eq!(packet.payload.len(), 16 + 1 + 5 + 1);
    let read: LoginSuccess = decode_packet_as(packet).unwrap();
    assert_eq!(read.username, "Steve");
    assert!(read.properties.is_empty());
    assert_eq!((read.uuid >> 76) & 0xf, 4);
    assert_eq!((read.uuid >> 62) & 3, 2);
    assert_eq!(session.state, ConnectionState::Login);
}

#[test]
fn forms_of_an_accepted_login() {
    let name = "Al".to_string();
    let mut fields: Vec<u8> = 5u128.to_be_bytes().to_vec();
    fields.extend_from_slice(&[2, b'A', b'l', 0]);
    for version in [i32::MIN, 0, 765, 768, 775] {
        let packet = make_login_success(&name, version, 5, 6).unwrap();
        assert_eq!((packet.packet_id, &packet.payload), (2, &fields));
    }
    for version in [766, 767] {
        let packet = make_login_success(&name, version, 5, 6).unwrap();
        let mut expected = fields.clone();
        expected.push(1);
        assert_eq!(packet.payload, expected);
    }
    for version in [776, 1000, i32::MAX] {
        let packet = make_login_success(&name, version, 5, 6).unwrap();
        let mut expected = fields.clone();
        expected.extend_from_slice(&6u128.to_be_bytes());
        assert_eq!(packet.payload, expected);
    }
}

#[test]
fn names_that_are_too_long() {
    let result = make_login_success(&"n".repeat(32768), 766, 5, 6);
    assert!(matches!(
        result,
        Err(ProxyError::Protocol {
            source: PacketError::Serialization(SerializationError::StringTooLong { .. }),
        })
    ));
}

#[test]
fn every_login_has_its_own_ids() {
    let body = make_raw(&LoginStart { username: "S".to_string(), uuid: 3 }).unwrap().to_frame();
    let mut ids: Vec<Vec<u8>> = Vec::new();
    for _ in 0..20 {
        let (_, action) = answer_login_start(&config(), ConnectionState::Login, 776, 0, &body);
        let payload = sent(action).payload;
        assert_eq!(payload.len(), 16 + 2 + 1 + 16);
        for id in [&payload[..16], &payload[19..]] {
            assert_eq!(id[6] >> 4, 4);
            assert_eq!(id[8] >> 6, 2);
            ids.push(id.to_vec());
        }
    }
    ids.sort();
    ids.dedup();
    assert_eq!(ids.len(), 40);
}

#[test]
fn logins_that_are_none() {
    let (session, action) = run(vec![greeting("fixed.example", 775, 2), frame(4, Vec::new())]);
    assert!(matches!(
        error_of(action),
        ProxyError::UnexpectedPacket {
            found: 4,
            expected: 0,
            expected_name: Some(PacketName::LoginStart),
        }
    ));
    assert_eq!(session.state, ConnectionState::Login);
}

#[test]
fn logins_can_end_in_a_kick() {
    let (session, action) = run(vec![greeting("faked.example", 775, 2), login_start("Steve")]);
    assert_eq!(reason(sent_last(action)), "{\"color\":\"gold\",\"text\":\"Closed\"}");
    assert!(matches!(session.phase, Phase::Closed));
}

fn transferred() -> Vec<Event> {
    vec![greeting("fixed.example", 767, 2), login_start("Steve"), frame(3, Vec::new())]
}

#[test]
fn logins_end_in_a_transfer() {
    let (session, action) = run(transferred());
    let read: Transfer = decode_packet_as(sent(action)).unwrap();
    assert_eq!((read.host.as_str(), read.port), ("real.example", VarInt(40000)));
    assert_eq!(session.state, ConnectionState::Configuration);
    assert!(matches!(session.phase, Phase::Transferred));
}

#[test]
fn logins_must_be_acknowledged() {
    let (_, action) = answer_login_ack(&config(), ConnectionState::Login, 0, &vec![4]);
    assert_eq!(
        error_of(action).text(),
        "Expected packet id 0x3 but found 0x4 (Some(\"(fake) login acknowledged packet\"))"
    );
    let (_, action) = answer_login_ack(&config(), ConnectionState::Login, 0, &Vec::new());
    assert!(matches!(error_of(action), ProxyError::Protocol { .. }));
}

#[test]
fn transferred_clients_may_say_anything() {
    for packet_id in [0, 2] {
        let mut events = transferred();
        events.push(frame(packet_id, vec![255]));
        let (session, action) = run(events);
        assert!(matches!(action, Action::Read));
        assert!(matches!(session.phase, Phase::Transferred));
    }
    let mut events = transferred();
    events.push(frame(0x1f, Vec::new()));
    let (session, action) = run(events);
    assert!(matches!(action, Action::Skip(0x1f)));
    assert!(matches!(session.phase, Phase::Transferred));
}

#[test]
fn transferred_clients_may_leave() {
    let mut events = transferred();
    events.push(Event::ReadFailed(eof()));
    let (session, action) = run(events);
    assert!(matches!(action, Action::Finish));
    assert!(matches!(session.phase, Phase::Closed));
    // An empty frame is taken for the end too.
    let mut events = transferred();
    events.push(Event::Frame(Vec::new()));
    assert!(matches!(run(events).1, Action::Finish));
}

#[test]
fn transferred_clients_may_fail() {
    let mut events = transferred();
    events.push(Event::ReadFailed(reset()));
    let (session, action) = run(events);
    assert_eq!(error_of(action).text(), "Protocol: I/O error: reset");
    assert_eq!(session.state, ConnectionState::Configuration);
    let (_, action) =
        answer_transferred(ConnectionState::Configuration, Err(ProxyError::Timeout));
    assert!(matches!(error_of(action), ProxyError::Timeout));
}

#[test]
fn other_clients_may_not_leave() {
    for events in [
        Vec::new(),
        vec![greeting("fixed.example", 767, 1)],
        vec![greeting("fixed.example", 767, 2)],
        vec![greeting("fixed.example", 767, 2), login_start("Steve")],
        vec![greeting("fixed.example", 767, 1), frame(0, Vec::new())],
    ] {
        let mut events = events;
        events.push(Event::ReadFailed(eof()));
        let (_, action) = run(events);
        assert_eq!(error_of(action).text(), "Protocol: VarInt error: I/O error: gone");
    }
}

#[test]
fn packets_that_cannot_be_sent() {
    let mut events = transferred();
    events.push(Event::WriteFailed(eof()));
    let (session, action) = run(events);
    assert_eq!(error_of(action).text(), "Protocol: VarInt error: I/O error: gone");
    assert_eq!(session.state, ConnectionState::Configuration);
    let (_, action) = run(vec![Event::WriteFailed(reset())]);
    assert_eq!(error_of(action).text(), "Protocol: I/O error: reset");
}

#[test]
fn sessions_take_only_what_they_wait_for() {
    let config = config();
    let session = Session::new();
    assert!(!session.accepts(&config, &Event::Connected));
    assert!(!session.accepts(&config, &Event::CacheAnswer(None)));
    assert!(!session.accepts(&config, &Event::UpstreamFrame(Vec::new())));
    let (closed, _) = run(vec![greeting("nowhere.example", 767, 1)]);
    assert!(!closed.accepts(&config, &frame(0, Vec::new())));
    assert!(!closed.accepts(&config, &Event::ReadFailed(eof())));
    assert!(closed.accepts(&config, &Event::WriteFailed(eof())));
}

#[test]
fn errors_before_a_login_are_not_told() {
    let error: ProxyError<String> = ProxyError::Timeout;
    assert!(matches!(farewell(ConnectionState::Handshake, &error), Ok(None)));
}

#[test]
fn errors_in_a_login_are_told_as_json() {
    let error = ProxyError::BadPacket { message: "a \"b\"".to_string() };
    let packet = farewell(ConnectionState::Login, &error).unwrap().unwrap();
    assert_eq!(packet.packet_id, 0);
    assert_eq!(reason(packet), "{\"text\": \"bad packet: a \\\"b\\\"\"}");
}

#[test]
fn errors_that_are_too_long_to_tell() {
    let error = ProxyError::BadPacket { message: "x".repeat(40000) };
    match farewell(ConnectionState::Login, &error) {
        Err(ProxyError::Protocol {
            source: PacketError::Serialization(SerializationError::StringTooLong { length, max }),
        }) => assert_eq!((length, max), (40000 + 12 + 12, 32767)),
        other => panic!("{:?}", other),
    }
}

#[test]
fn errors_after_a_login_are_told_as_nbt() {
    let error: ProxyError<String> = ProxyError::Timeout;
    let packet = farewell(ConnectionState::Configuration, &error).unwrap().unwrap();
    assert_eq!(packet.packet_id, 2);
    let mut expected: Vec<u8> = vec![8, 0, 7];
    expected.extend_from_slice(b"Timeout");
    assert_eq!(packet.payload, expected);
}
