use mc_gateway::error::{
    IoError, PacketError, PacketName, ProxyError, SerializationError, VarIntError,
};
use mc_gateway::packet::{
    decode_packet_as, deserialize_packet, make_raw, packet_id_of, UncompressedPacket,
};
use mc_gateway::packets::{
    C2SPluginMessage, ClientInformation, Handshake, LoginDisconnect, LoginStart, LoginSuccess,
    PingPong, Property, S2CStatusResponse, Transfer,
};
use mc_gateway::varint::VarInt;
use mc_gateway::wire::Wire;
use mc_protocol::ser::{Deserialize, Serialize};

fn handshake(address: &str) -> Handshake {
    Handshake {
        protocol_version: VarInt(767),
        server_address: address.to_string(),
        server_port: 25565,
        intent: VarInt(2),
    }
}

fn written<T: Wire>(value: &T) -> Vec<u8> {
    let mut out: Vec<u8> = Vec::new();
    assert!(value.write(&mut out).is_ok());
    out
}

#[test]
fn varints_as_bytes() {
    assert_eq!(written(&VarInt(0)), vec![0]);
    assert_eq!(written(&VarInt(127)), vec![127]);
    assert_eq!(written(&VarInt(128)), vec![0x80, 1]);
    assert_eq!(written(&VarInt(300)), vec![0xac, 2]);
    assert_eq!(written(&VarInt(25565)), vec![0xdd, 0xc7, 1]);
    assert_eq!(written(&VarInt(i32::MAX)), vec![0xff, 0xff, 0xff, 0xff, 7]);
    assert_eq!(written(&VarInt(-1)), vec![0xff, 0xff, 0xff, 0xff, 15]);
    assert_eq!(written(&VarInt(i32::MIN)), vec![0x80, 0x80, 0x80, 0x80, 8]);
}

#[test]
fn varints_read_back() {
    for n in [0, 1, 127, 128, 16383, 16384, 2097151, 2097152, i32::MAX, -1, i32::MIN] {
        let mut bytes = written(&VarInt(n));
        assert!(1 <= bytes.len() && bytes.len() <= 5);
        bytes.push(9);
        let (value, rest) = VarInt::read(&bytes).unwrap();
        assert_eq!(value, VarInt(n));
        assert_eq!(rest, &[9]);
    }
}

#[test]
fn odd_varints() {
    // Longer than needed, and with bits beyond the thirty-second.
    let (value, rest) = VarInt::read(&[0x80, 0x00, 5]).unwrap();
    assert_eq!((value, rest), (VarInt(0), &[5u8][..]));
    let (value, _) = VarInt::read(&[0xff, 0xff, 0xff, 0xff, 0x7f]).unwrap();
    assert_eq!(value, VarInt(-1));
}

#[test]
fn malformed_varints() {
    assert!(matches!(
        VarInt::read(&[0x80, 0x80, 0x80, 0x80, 0x80, 0]),
        Err(SerializationError::VarInt(VarIntError::TooLong))
    ));
    assert!(matches!(
        VarInt::read(&[]),
        Err(SerializationError::VarInt(VarIntError::Io(IoError::UnexpectedEof(_))))
    ));
    assert!(matches!(
        VarInt::read(&[0x80]),
        Err(SerializationError::VarInt(VarIntError::Io(IoError::UnexpectedEof(_))))
    ));
}

#[test]
fn fixed_numbers_as_the_protocol_has_them() {
    let mut expected: Vec<u8> = Vec::new();
    7u8.serialize(&mut expected).unwrap();
    0x1234u16.serialize(&mut expected).unwrap();
    (-2i64).serialize(&mut expected).unwrap();
    0x0102_0304_0506_0708_090a_0b0c_0d0e_0f10u128.serialize(&mut expected).unwrap();
    true.serialize(&mut expected).unwrap();
    false.serialize(&mut expected).unwrap();
    let mut out: Vec<u8> = Vec::new();
    assert!(7u8.write(&mut out).is_ok());
    assert!(0x1234u16.write(&mut out).is_ok());
    assert!((-2i64).write(&mut out).is_ok());
    assert!(0x0102_0304_0506_0708_090a_0b0c_0d0e_0f10u128.write(&mut out).is_ok());
    assert!(true.write(&mut out).is_ok());
    assert!(false.write(&mut out).is_ok());
    assert_eq!(out, expected);
    assert_eq!(&out[..3], &[7, 0x12, 0x34]);
}

#[test]
fn fixed_numbers_read_back() {
    let (n, rest) = u16::read(&[0x12, 0x34, 9]).unwrap();
    assert_eq!((n, rest), (0x1234, &[9u8][..]));
    for n in [0i64, 1, -1, i64::MAX, i64::MIN, 1234567890123] {
        let bytes = written(&n);
        assert_eq!(bytes, n.to_be_bytes().to_vec());
        assert_eq!(i64::read(&bytes).unwrap().0, n);
    }
    for n in [0u128, 1, u128::MAX, 1 << 127] {
        assert_eq!(u128::read(&written(&n)).unwrap().0, n);
    }
    assert_eq!(bool::read(&[2]).unwrap().0, true);
    assert_eq!(bool::read(&[0]).unwrap().0, false);
}

#[test]
fn short_numbers() {
    let theirs = u16::deserialize(&mut &[1u8][..]).unwrap_err();
    match u16::read(&[1]) {
        Err(SerializationError::Io(IoError::UnexpectedEof(text))) => {
            assert_eq!(format!("I/O error: {}", text), theirs.to_string());
        }
        other => panic!("{:?}", other),
    }
    assert!(u8::read(&[]).is_err());
    assert!(bool::read(&[]).is_err());
    assert!(i64::read(&[0; 7]).is_err());
    assert!(u128::read(&[0; 15]).is_err());
}

#[test]
fn strings_as_bytes() {
    assert_eq!(written(&"hi".to_string()), vec![2, b'h', b'i']);
    assert_eq!(written(&"\u{e9}".to_string()), vec![2, 0xc3, 0xa9]);
    let mut expected: Vec<u8> = Vec::new();
    let long = "\u{1f600}z".repeat(9000);
    long.serialize(&mut expected).unwrap();
    assert_eq!(written(&long), expected);
    let (text, rest) = String::read(&expected).unwrap();
    assert_eq!(text, long);
    assert!(rest.is_empty());
}

#[test]
fn strings_that_are_too_long() {
    let mut out: Vec<u8> = Vec::new();
    assert!("x".repeat(32767).write(&mut out).is_ok());
    match "x".repeat(32768).write(&mut out) {
        Err(SerializationError::StringTooLong { length, max }) => {
            assert_eq!((length, max), (32768, 32767));
        }
        other => panic!("{:?}", other),
    }
    assert!(matches!(
        "\u{1f600}".repeat(16384).write(&mut out),
        Err(SerializationError::StringTooLong { length: 32768, max: 32767 })
    ));
    let mut bytes = written(&VarInt(32768));
    bytes.extend_from_slice("x".repeat(32768).as_bytes());
    assert!(matches!(
        String::read(&bytes),
        Err(SerializationError::StringTooLong { length: 32768, max: 32767 })
    ));
}

#[test]
fn malformed_strings() {
    assert!(matches!(
        String::read(&written(&VarInt(-5))),
        Err(SerializationError::InvalidLength(-5))
    ));
    assert!(matches!(
        String::read(&written(&VarInt(98302))),
        Err(SerializationError::InvalidLength(98302))
    ));
    assert!(matches!(
        String::read(&[3, b'a', b'b']),
        Err(SerializationError::Io(IoError::UnexpectedEof(_)))
    ));
    assert!(matches!(
        String::read(&[0x80]),
        Err(SerializationError::VarInt(VarIntError::Io(IoError::UnexpectedEof(_))))
    ));
    match String::read(&[2, 0xff, 0xfe]) {
        Err(SerializationError::InvalidUtf8(text)) => {
            let std_text = String::from_utf8(vec![0xff, 0xfe]).unwrap_err().to_string();
            assert_eq!(text, std_text);
        }
        other => panic!("{:?}", other),
    }
}

#[test]
fn options_and_lists() {
    assert_eq!(written(&None::<u8>), vec![0]);
    assert_eq!(written(&Some(7u8)), vec![1, 7]);
    assert_eq!(Option::<u8>::read(&[1, 7, 8]).unwrap().0, Some(7));
    assert_eq!(Option::<u8>::read(&[0, 7]).unwrap(), (None, &[7u8][..]));
    assert!(Option::<u8>::read(&[1]).is_err());
    assert_eq!(written(&vec![1u16, 2]), vec![2, 0, 1, 0, 2]);
    assert_eq!(Vec::<u16>::read(&[2, 0, 1, 0, 2, 9]).unwrap(), (vec![1, 2], &[9u8][..]));
    assert!(Vec::<u16>::read(&[2, 0, 1, 0]).is_err());
    let mut expected: Vec<u8> = Vec::new();
    vec![5u8; 200].serialize(&mut expected).unwrap();
    assert_eq!(written(&vec![5u8; 200]), expected);
}

#[test]
fn list_lengths_are_bounded() {
    assert!(matches!(
        Vec::<u8>::read(&written(&VarInt(-1))),
        Err(SerializationError::InvalidLength(-1))
    ));
    assert!(matches!(
        Vec::<u8>::read(&written(&VarInt(8_388_609))),
        Err(SerializationError::InvalidLength(8_388_609))
    ));
}

#[test]
fn handshake_as_bytes() {
    let packet = make_raw(&handshake("localhost")).unwrap();
    assert_eq!(packet.packet_id, 0);
    let mut expected: Vec<u8> = vec![0xff, 5, 9];
    expected.extend_from_slice(b"localhost");
    expected.extend_from_slice(&[0x63, 0xdd, 2]);
    assert_eq!(packet.payload, expected);
}

#[test]
fn handshake_copies() {
    let first = handshake("copied");
    let copy = first.clone();
    assert_eq!(make_raw(&copy).unwrap().payload, make_raw(&first).unwrap().payload);
}

#[test]
fn frames_as_the_protocol_has_them() {
    for id in [0, 1, 127, 300, -1] {
        let ours = UncompressedPacket::new(id, vec![1, 2, 3]);
        let theirs = mc_protocol::packet::UncompressedPacket::new(id, vec![1, 2, 3]);
        let frame = ours.to_frame();
        assert_eq!(frame, theirs.to_raw_packet().unwrap().data);
        let back = UncompressedPacket::from_frame(&frame).unwrap();
        let raw = mc_protocol::packet::RawPacket::new(frame).as_uncompressed().unwrap();
        assert_eq!((back.packet_id, back.payload), (raw.packet_id, raw.payload));
    }
}

#[test]
fn frames_without_a_packet() {
    assert!(matches!(
        UncompressedPacket::from_frame(&[]),
        Err(PacketError::VarInt(VarIntError::Io(IoError::UnexpectedEof(_))))
    ));
    assert!(matches!(
        UncompressedPacket::from_frame(&[0xff; 6]),
        Err(PacketError::VarInt(VarIntError::TooLong))
    ));
}

#[test]
fn packets_read_back() {
    let h: Handshake = decode_packet_as(make_raw(&handshake("a.example")).unwrap()).unwrap();
    assert_eq!(h.server_address, "a.example");
    assert_eq!((h.protocol_version, h.server_port, h.intent), (VarInt(767), 25565, VarInt(2)));

    let s: S2CStatusResponse =
        decode_packet_as(make_raw(&S2CStatusResponse { response: "{}".to_string() }).unwrap())
            .unwrap();
    assert_eq!(s.response, "{}");

    let p: PingPong = decode_packet_as(make_raw(&PingPong { timestamp: -7 }).unwrap()).unwrap();
    assert_eq!(p.timestamp, -7);

    let start = LoginStart { username: "Steve".to_string(), uuid: 1 << 100 };
    let l: LoginStart = decode_packet_as(make_raw(&start).unwrap()).unwrap();
    assert_eq!((l.username.as_str(), l.uuid), ("Steve", 1 << 100));

    let success = LoginSuccess {
        uuid: 5,
        username: "Alex".to_string(),
        properties: vec![
            Property { name: "textures".to_string(), value: "v".to_string(), sig: None },
            Property {
                name: "n".to_string(),
                value: "w".to_string(),
                sig: Some("s".to_string()),
            },
        ],
    };
    let l: LoginSuccess = decode_packet_as(make_raw(&success).unwrap()).unwrap();
    assert_eq!(l.uuid, 5);
    assert_eq!(l.properties.len(), 2);
    assert_eq!(l.properties[0].sig, None);
    assert_eq!(l.properties[1].sig, Some("s".to_string()));

    let d: LoginDisconnect =
        decode_packet_as(make_raw(&LoginDisconnect { reason: "r".to_string() }).unwrap()).unwrap();
    assert_eq!(d.reason, "r");

    let t: Transfer = decode_packet_as(
        make_raw(&Transfer { host: "h".to_string(), port: VarInt(1) }).unwrap(),
    )
    .unwrap();
    assert_eq!((t.host.as_str(), t.port), ("h", VarInt(1)));

    let m: C2SPluginMessage = decode_packet_as(
        make_raw(&C2SPluginMessage { channel: "c".to_string(), message: vec![1, 2] }).unwrap(),
    )
    .unwrap();
    assert_eq!((m.channel.as_str(), m.message), ("c", vec![1, 2]));

    let info = ClientInformation {
        locale: "en_us".to_string(),
        view_distance: 12,
        chat_mode: VarInt(1),
        chat_colours: true,
        skin_parts: 0x7f,
        hand: VarInt(0),
        filtering: false,
        allow_server_listing: true,
        particle_status: VarInt(2),
    };
    let c: ClientInformation = decode_packet_as(make_raw(&info).unwrap()).unwrap();
    assert_eq!(c.locale, "en_us");
    assert_eq!((c.view_distance, c.skin_parts), (12, 0x7f));
    assert_eq!((c.chat_colours, c.filtering, c.allow_server_listing), (true, false, true));
    assert_eq!((c.chat_mode, c.hand, c.particle_status), (VarInt(1), VarInt(0), VarInt(2)));
}

#[test]
fn packet_numbers() {
    assert_eq!(packet_id_of::<Handshake>(), 0x00);
    assert_eq!(packet_id_of::<S2CStatusResponse>(), 0x00);
    assert_eq!(packet_id_of::<PingPong>(), 0x01);
    assert_eq!(packet_id_of::<LoginStart>(), 0x00);
    assert_eq!(packet_id_of::<LoginSuccess>(), 0x02);
    assert_eq!(packet_id_of::<LoginDisconnect>(), 0x00);
    assert_eq!(packet_id_of::<Transfer>(), 0x0b);
    assert_eq!(packet_id_of::<C2SPluginMessage>(), 0x02);
    assert_eq!(packet_id_of::<ClientInformation>(), 0x00);
    assert_eq!(mc_gateway::packets::PACKET_ID_LOGIN_ACK, 3);
}

#[test]
fn bytes_behind_the_fields_are_let_be() {
    let packet = UncompressedPacket::new(1, vec![0, 0, 0, 0, 0, 0, 0, 9, 77]);
    let ping: PingPong = deserialize_packet(&packet).unwrap();
    assert_eq!(ping.timestamp, 9);
}

#[test]
fn unexpected_packets() {
    let result: Result<PingPong, _> = decode_packet_as(UncompressedPacket::new(5, Vec::new()));
    match result {
        Err(ProxyError::UnexpectedPacket { found, expected, expected_name }) => {
            assert_eq!((found, expected, expected_name), (5, 1, Some(PacketName::PingPong)));
        }
        other => panic!("{:?}", other),
    }
}

#[test]
fn unreadable_packets() {
    let result: Result<PingPong, _> = decode_packet_as(UncompressedPacket::new(1, vec![0; 7]));
    match result {
        Err(ProxyError::Serde { source: SerializationError::Io(_), while_parsing }) => {
            assert_eq!(while_parsing, Some(PacketName::PingPong));
        }
        other => panic!("{:?}", other),
    }
}

#[test]
fn unwritable_packets() {
    match make_raw(&LoginDisconnect { reason: "x".repeat(40000) }) {
        Err(ProxyError::Protocol {
            source: PacketError::Serialization(SerializationError::StringTooLong { length, max }),
        }) => assert_eq!((length, max), (40000, 32767)),
        other => panic!("{:?}", other),
    }
}
