use mc_gateway::error::{
    proxy_error_is_eof, IoError, PacketError, PacketName, ProxyError, SerializationError,
    VarIntError,
};
use mc_protocol::packet::PacketError as Theirs;
use mc_protocol::ser::SerializationError as Field;
use mc_protocol::varint::VarIntError as Number;

fn eof() -> IoError<String> {
    IoError::UnexpectedEof("gone".to_string())
}

fn other() -> IoError<String> {
    IoError::Other("reset".to_string())
}

fn protocol(source: PacketError<String>) -> ProxyError<String> {
    ProxyError::Protocol { source }
}

#[test]
fn ends_of_connections() {
    assert!(proxy_error_is_eof(&protocol(PacketError::Io(eof()))));
    assert!(proxy_error_is_eof(&protocol(PacketError::VarInt(VarIntError::Io(eof())))));
    assert!(proxy_error_is_eof(&protocol(PacketError::Serialization(SerializationError::Io(
        eof()
    )))));
}

#[test]
fn other_errors_are_no_end() {
    assert!(!proxy_error_is_eof(&protocol(PacketError::Io(other()))));
    assert!(!proxy_error_is_eof(&protocol(PacketError::VarInt(VarIntError::Io(other())))));
    assert!(!proxy_error_is_eof(&protocol(PacketError::VarInt(VarIntError::TooLong))));
    assert!(!proxy_error_is_eof(&protocol(PacketError::InvalidLength(-1))));
    assert!(!proxy_error_is_eof(&protocol(PacketError::Serialization(
        SerializationError::VarInt(VarIntError::Io(eof()))
    ))));
    assert!(!proxy_error_is_eof(&ProxyError::Serde {
        source: SerializationError::Io(eof()),
        while_parsing: None,
    }));
    assert!(!proxy_error_is_eof(&ProxyError::FetchingStatus { source: eof() }));
    assert!(!proxy_error_is_eof(&ProxyError::Timeout));
}

#[test]
fn protocol_texts() {
    assert_eq!(protocol(PacketError::Io(eof())).text(), "Protocol: I/O error: gone");
    assert_eq!(
        protocol(PacketError::VarInt(VarIntError::TooLong)).text(),
        "Protocol: VarInt error: VarInt exceeded maximum byte length"
    );
    assert_eq!(
        protocol(PacketError::VarInt(VarIntError::Io(other()))).text(),
        "Protocol: VarInt error: I/O error: reset"
    );
    assert_eq!(
        protocol(PacketError::VarInt(VarIntError::NegativeValue)).text(),
        "Protocol: VarInt error: Negative value is not allowed in this context"
    );
    assert_eq!(
        protocol(PacketError::InvalidLength(-12)).text(),
        "Protocol: Invalid packet length: -12"
    );
    assert_eq!(
        protocol(PacketError::Serialization(SerializationError::StringTooLong {
            length: 40000,
            max: 32767,
        }))
        .text(),
        "Protocol: Serialization error: String too long: 40000 code units, maximum is 32767"
    );
}

#[test]
fn outside_errors_read_the_same() {
    let pairs: Vec<(PacketError<String>, Theirs)> = vec![
        (PacketError::VarInt(VarIntError::TooLong), Theirs::VarInt(Number::TooLong)),
        (PacketError::VarInt(VarIntError::NegativeValue), Theirs::VarInt(Number::NegativeValue)),
        (PacketError::InvalidLength(i64::MIN), Theirs::InvalidLength(i64::MIN)),
        (
            PacketError::Serialization(SerializationError::InvalidDiscriminant(-3)),
            Theirs::Serialization(Field::InvalidDiscriminant(-3)),
        ),
        (
            PacketError::Serialization(SerializationError::InvalidLength(i64::MAX)),
            Theirs::Serialization(Field::InvalidLength(i64::MAX)),
        ),
        (
            PacketError::Serialization(SerializationError::VarInt(VarIntError::TooLong)),
            Theirs::Serialization(Field::VarInt(Number::TooLong)),
        ),
        (
            PacketError::Serialization(SerializationError::StringTooLong { length: 1, max: 0 }),
            Theirs::Serialization(Field::StringTooLong { length: 1, max: 0 }),
        ),
    ];
    for (ours, theirs) in pairs {
        assert_eq!(protocol(ours).text(), format!("Protocol: {}", theirs));
    }
}

#[test]
fn serde_texts() {
    let error: ProxyError<String> = ProxyError::Serde {
        source: SerializationError::InvalidUtf8("bad byte".to_string()),
        while_parsing: Some(PacketName::Handshake),
    };
    assert_eq!(
        error.text(),
        "While attempting to (de)serialize Some(\"mc_gateway::packets::Handshake\"): \
         Invalid UTF-8: bad byte"
    );
    let error: ProxyError<String> =
        ProxyError::Serde { source: SerializationError::InvalidLength(0), while_parsing: None };
    assert_eq!(error.text(), "While attempting to (de)serialize None: Invalid length: 0");
}

#[test]
fn unexpected_packet_texts() {
    let error: ProxyError<String> = ProxyError::UnexpectedPacket {
        found: 0x1f,
        expected: 3,
        expected_name: Some(PacketName::LoginAcknowledged),
    };
    assert_eq!(
        error.text(),
        "Expected packet id 0x3 but found 0x1f (Some(\"(fake) login acknowledged packet\"))"
    );
    let error: ProxyError<String> =
        ProxyError::UnexpectedPacket { found: -1, expected: 0, expected_name: None };
    assert_eq!(error.text(), "Expected packet id 0x0 but found 0xffffffff (None)");
}

#[test]
fn other_texts() {
    let message = "m".to_string();
    assert_eq!(ProxyError::BadPacket { message: message.clone() }.text(), "bad packet: m");
    assert_eq!(ProxyError::BadProgram { message }.text(), "bad programmer: m");
    assert_eq!(ProxyError::<String>::Timeout.text(), "Timeout");
    assert_eq!(ProxyError::FetchingStatus { source: other() }.text(), "FetchingStatus");
}

#[test]
fn packets_go_by_their_paths() {
    assert_eq!(PacketName::Handshake.as_str(), "mc_gateway::packets::Handshake");
    assert_eq!(PacketName::StatusResponse.as_str(), "mc_gateway::packets::S2CStatusResponse");
    assert_eq!(PacketName::PingPong.as_str(), "mc_gateway::packets::PingPong");
    assert_eq!(PacketName::LoginStart.as_str(), "mc_gateway::packets::LoginStart");
    assert_eq!(PacketName::LoginSuccess.as_str(), "mc_gateway::packets::LoginSuccess");
    assert_eq!(PacketName::LoginDisconnect.as_str(), "mc_gateway::packets::LoginDisconnect");
    assert_eq!(PacketName::Transfer.as_str(), "mc_gateway::packets::Transfer");
    assert_eq!(PacketName::PluginMessage.as_str(), "mc_gateway::packets::C2SPluginMessage");
    assert_eq!(PacketName::ClientInformation.as_str(), "mc_gateway::packets::ClientInformation");
    assert_eq!(PacketName::StatusRequest.as_str(), "(fake) status request");
}
