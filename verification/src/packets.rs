//! The packets that the gateway sends and understands.

use vstd::prelude::*;

use crate::error::{PacketName, SerializationError};
use crate::varint::VarInt;
use crate::wire::{joined, Decoded, Encoded, Wire};

verus! {

/// A packet with a number of its own.
pub trait PacketId: Wire {
    /// The number that stands in front of the packet.
    spec fn id() -> i32;

    /// The name of the packet in errors.
    spec fn name() -> PacketName;

    /// The number that stands in front of the packet.
    fn packet_id() -> (id: i32)
        ensures
            id == Self::id(),
    ;

    /// The name of the packet in errors.
    fn packet_name() -> (name: PacketName)
        ensures
            name == Self::name(),
    ;
}

proof fn lemma_assoc(a: Seq<u8>, b: Seq<u8>, c: Seq<u8>)
    ensures
        a + b + c == a + (b + c),
{
    assert(a + b + c =~= a + (b + c));
}

/// A field is read back from the front of what was written of it and of the
/// fields behind it.
proof fn lemma_field_round_trip<T: Wire>(v: T::V, others: Seq<u8>, rest: Seq<u8>)
    requires
        T::readable(v),
    ensures
        T::encoding(v) matches Ok(bytes) ==> T::decoding(bytes + others + rest) == Ok::<
            (T::V, Seq<u8>),
            SerializationError<Seq<char>>,
        >((v, others + rest)),
{
    if let Ok(bytes) = T::encoding(v) {
        T::lemma_round_trip(v, others + rest);
        lemma_assoc(bytes, others, rest);
    }
}

/// The number of the packet that acknowledges a login; it has no fields.
pub const PACKET_ID_LOGIN_ACK: i32 = 3;

/// The number of the packet that asks for the status; it has no fields.
pub const PACKET_ID_STATUS_REQUEST: i32 = 0;

/// The number of the packet that disconnects a client being configured.
pub const PACKET_ID_DISCONNECT: i32 = 2;

// Handshake phase

/// The first packet of every connection.
#[derive(Debug, Default)]
pub struct Handshake {
    pub protocol_version: VarInt,
    pub server_address: String,
    pub server_port: u16,
    pub intent: VarInt,
}

/// `Handshake` with its fields taken by their views.
#[verifier::ext_equal]
pub struct HandshakeView {
    pub protocol_version: VarInt,
    pub server_address: Seq<char>,
    pub server_port: u16,
    pub intent: VarInt,
}

impl DeepView for Handshake {
    type V = HandshakeView;

    open spec fn deep_view(&self) -> HandshakeView {
        HandshakeView {
            protocol_version: self.protocol_version.deep_view(),
            server_address: self.server_address.deep_view(),
            server_port: self.server_port.deep_view(),
            intent: self.intent.deep_view(),
        }
    }
}

impl Wire for Handshake {
    open spec fn encoding(v: HandshakeView) -> Encoded {
        joined(
            VarInt::encoding(v.protocol_version),
            joined(
                String::encoding(v.server_address),
                joined(u16::encoding(v.server_port), VarInt::encoding(v.intent)),
            ),
        )
    }

    open spec fn decoding(bytes: Seq<u8>) -> Decoded<HandshakeView> {
        match VarInt::decoding(bytes) {
            Err(error) => Err(error),
            Ok((protocol_version, rest)) => match String::decoding(rest) {
                Err(error) => Err(error),
                Ok((server_address, rest)) => match u16::decoding(rest) {
                    Err(error) => Err(error),
                    Ok((server_port, rest)) => match VarInt::decoding(rest) {
                        Err(error) => Err(error),
                        Ok((intent, rest)) => Ok(
                            (
                                HandshakeView {
                                    protocol_version,
                                    server_address,
                                    server_port,
                                    intent,
                                },
                                rest,
                            ),
                        ),
                    },
                },
            },
        }
    }

    open spec fn readable(v: HandshakeView) -> bool {
        true
    }

    proof fn lemma_round_trip(v: HandshakeView, rest: Seq<u8>) {
        if let Ok(bytes) = Self::encoding(v) {
            let e1 = VarInt::encoding(v.protocol_version)->Ok_0;
            let e2 = String::encoding(v.server_address)->Ok_0;
            let e3 = u16::encoding(v.server_port)->Ok_0;
            let e4 = VarInt::encoding(v.intent)->Ok_0;
            let t4 = e4;
            let t3 = e3 + t4;
            let t2 = e2 + t3;
            lemma_field_round_trip::<VarInt>(v.protocol_version, t2, rest);
            lemma_field_round_trip::<String>(v.server_address, t3, rest);
            lemma_field_round_trip::<u16>(v.server_port, t4, rest);
            VarInt::lemma_round_trip(v.intent, rest);
        }
    }

    proof fn lemma_extension(bytes: Seq<u8>, more: Seq<u8>) {
        VarInt::lemma_extension(bytes, more);
        if let Ok((_, rest)) = VarInt::decoding(bytes) {
            String::lemma_extension(rest, more);
            if let Ok((_, rest)) = String::decoding(rest) {
                u16::lemma_extension(rest, more);
                if let Ok((_, rest)) = u16::decoding(rest) {
                    VarInt::lemma_extension(rest, more);
                }
            }
        }
    }

    fn write(&self, out: &mut Vec<u8>) -> (result: Result<(), SerializationError<String>>) {
        let ghost before = out@;
        self.protocol_version.write(out)?;
        let ghost out1 = out@;
        self.server_address.write(out)?;
        let ghost out2 = out@;
        self.server_port.write(out)?;
        self.intent.write(out)?;
        proof {
            let v = self.deep_view();
            let e1 = VarInt::encoding(v.protocol_version)->Ok_0;
            let e2 = String::encoding(v.server_address)->Ok_0;
            let e3 = u16::encoding(v.server_port)->Ok_0;
            let e4 = VarInt::encoding(v.intent)->Ok_0;
            let t4 = e4;
            lemma_assoc(out2, e3, t4);
            let t3 = e3 + t4;
            lemma_assoc(out1, e2, t3);
            let t2 = e2 + t3;
            lemma_assoc(before, e1, t2);
        }
        Ok(())
    }

    fn read<'a>(input: &'a [u8]) -> (result: Result<(Self, &'a [u8]), SerializationError<String>>) {
        let (protocol_version, rest) = VarInt::read(input)?;
        let (server_address, rest) = String::read(rest)?;
        let (server_port, rest) = u16::read(rest)?;
        let (intent, rest) = VarInt::read(rest)?;
        Ok((Handshake { protocol_version, server_address, server_port, intent }, rest))
    }
}

impl Clone for Handshake {
    fn clone(&self) -> (copy: Self)
        ensures
            copy.deep_view() == self.deep_view(),
    {
        Handshake {
            protocol_version: self.protocol_version,
            server_address: self.server_address.clone(),
            server_port: self.server_port,
            intent: self.intent,
        }
    }
}

impl Handshake {
    /// The number that stands in front of the packet.
    pub const PACKET_ID: i32 = 0x00;

    /// The client wants to see the status.
    pub const INTENT_STATUS: i32 = 1;
    /// The client wants to log in.
    pub const INTENT_LOGIN: i32 = 2;
    /// The client was transferred here and wants to log in.
    pub const INTENT_TRANSFER: i32 = 3;
}

impl PacketId for Handshake {
    open spec fn id() -> i32 {
        0x00
    }

    open spec fn name() -> PacketName {
        PacketName::Handshake
    }

    fn packet_id() -> (id: i32) {
        Self::PACKET_ID
    }

    fn packet_name() -> (name: PacketName) {
        PacketName::Handshake
    }
}

// Status phase

/// The status that a server shows.
#[derive(Debug, Default)]
pub struct S2CStatusResponse {
    pub response: String,
}

/// `S2CStatusResponse` with its fields taken by their views.
#[verifier::ext_equal]
pub struct S2CStatusResponseView {
    pub response: Seq<char>,
}

impl DeepView for S2CStatusResponse {
    type V = S2CStatusResponseView;

    open spec fn deep_view(&self) -> S2CStatusResponseView {
        S2CStatusResponseView {
            response: self.response.deep_view(),
        }
    }
}

impl Wire for S2CStatusResponse {
    open spec fn encoding(v: S2CStatusResponseView) -> Encoded {
        String::encoding(v.response)
    }

    open spec fn decoding(bytes: Seq<u8>) -> Decoded<S2CStatusResponseView> {
        match String::decoding(bytes) {
            Err(error) => Err(error),
            Ok((response, rest)) => Ok((S2CStatusResponseView { response }, rest)),
        }
    }

    open spec fn readable(v: S2CStatusResponseView) -> bool {
        true
    }

    proof fn lemma_round_trip(v: S2CStatusResponseView, rest: Seq<u8>) {
        String::lemma_round_trip(v.response, rest);
    }

    proof fn lemma_extension(bytes: Seq<u8>, more: Seq<u8>) {
        String::lemma_extension(bytes, more);
    }

    fn write(&self, out: &mut Vec<u8>) -> (result: Result<(), SerializationError<String>>) {
        self.response.write(out)
    }

    fn read<'a>(input: &'a [u8]) -> (result: Result<(Self, &'a [u8]), SerializationError<String>>) {
        let (response, rest) = String::read(input)?;
        Ok((S2CStatusResponse { response }, rest))
    }
}

impl S2CStatusResponse {
    /// The number that stands in front of the packet.
    pub const PACKET_ID: i32 = 0x00;
}

impl PacketId for S2CStatusResponse {
    open spec fn id() -> i32 {
        0x00
    }

    open spec fn name() -> PacketName {
        PacketName::StatusResponse
    }

    fn packet_id() -> (id: i32) {
        Self::PACKET_ID
    }

    fn packet_name() -> (name: PacketName) {
        PacketName::StatusResponse
    }
}

/// A ping, and the answer to it.
#[derive(Debug, Default)]
pub struct PingPong {
    pub timestamp: i64,
}

/// `PingPong` with its fields taken by their views.
#[verifier::ext_equal]
pub struct PingPongView {
    pub timestamp: i64,
}

impl DeepView for PingPong {
    type V = PingPongView;

    open spec fn deep_view(&self) -> PingPongView {
        PingPongView {
            timestamp: self.timestamp.deep_view(),
        }
    }
}

impl Wire for PingPong {
    open spec fn encoding(v: PingPongView) -> Encoded {
        i64::encoding(v.timestamp)
    }

    open spec fn decoding(bytes: Seq<u8>) -> Decoded<PingPongView> {
        match i64::decoding(bytes) {
            Err(error) => Err(error),
            Ok((timestamp, rest)) => Ok((PingPongView { timestamp }, rest)),
        }
    }

    open spec fn readable(v: PingPongView) -> bool {
        true
    }

    proof fn lemma_round_trip(v: PingPongView, rest: Seq<u8>) {
        i64::lemma_round_trip(v.timestamp, rest);
    }

    proof fn lemma_extension(bytes: Seq<u8>, more: Seq<u8>) {
        i64::lemma_extension(bytes, more);
    }

    fn write(&self, out: &mut Vec<u8>) -> (result: Result<(), SerializationError<String>>) {
        self.timestamp.write(out)
    }

    fn read<'a>(input: &'a [u8]) -> (result: Result<(Self, &'a [u8]), SerializationError<String>>) {
        let (timestamp, rest) = i64::read(input)?;
        Ok((PingPong { timestamp }, rest))
    }
}

impl PingPong {
    /// The number that stands in front of the packet.
    pub const PACKET_ID: i32 = 0x01;
}

impl PacketId for PingPong {
    open spec fn id() -> i32 {
        0x01
    }

    open spec fn name() -> PacketName {
        PacketName::PingPong
    }

    fn packet_id() -> (id: i32) {
        Self::PACKET_ID
    }

    fn packet_name() -> (name: PacketName) {
        PacketName::PingPong
    }
}

// Login phase

/// Who wants to log in.
#[derive(Debug, Default)]
pub struct LoginStart {
    pub username: String,
    pub uuid: u128,
}

/// `LoginStart` with its fields taken by their views.
#[verifier::ext_equal]
pub struct LoginStartView {
    pub username: Seq<char>,
    pub uuid: u128,
}

impl DeepView for LoginStart {
    type V = LoginStartView;

    open spec fn deep_view(&self) -> LoginStartView {
        LoginStartView {
            username: self.username.deep_view(),
            uuid: self.uuid.deep_view(),
        }
    }
}

impl Wire for LoginStart {
    open spec fn encoding(v: LoginStartView) -> Encoded {
        joined(String::encoding(v.username), u128::encoding(v.uuid))
    }

    open spec fn decoding(bytes: Seq<u8>) -> Decoded<LoginStartView> {
        match String::decoding(bytes) {
            Err(error) => Err(error),
            Ok((username, rest)) => match u128::decoding(rest) {
                Err(error) => Err(error),
                Ok((uuid, rest)) => Ok((LoginStartView { username, uuid }, rest)),
            },
        }
    }

    open spec fn readable(v: LoginStartView) -> bool {
        true
    }

    proof fn lemma_round_trip(v: LoginStartView, rest: Seq<u8>) {
        if let Ok(bytes) = Self::encoding(v) {
            let e1 = String::encoding(v.username)->Ok_0;
            let e2 = u128::encoding(v.uuid)->Ok_0;
            let t2 = e2;
            lemma_field_round_trip::<String>(v.username, t2, rest);
            u128::lemma_round_trip(v.uuid, rest);
        }
    }

    proof fn lemma_extension(bytes: Seq<u8>, more: Seq<u8>) {
        String::lemma_extension(bytes, more);
        if let Ok((_, rest)) = String::decoding(bytes) {
            u128::lemma_extension(rest, more);
        }
    }

    fn write(&self, out: &mut Vec<u8>) -> (result: Result<(), SerializationError<String>>) {
        let ghost before = out@;
        self.username.write(out)?;
        self.uuid.write(out)?;
        proof {
            let v = self.deep_view();
            let e1 = String::encoding(v.username)->Ok_0;
            let e2 = u128::encoding(v.uuid)->Ok_0;
            let t2 = e2;
            lemma_assoc(before, e1, t2);
        }
        Ok(())
    }

    fn read<'a>(input: &'a [u8]) -> (result: Result<(Self, &'a [u8]), SerializationError<String>>) {
        let (username, rest) = String::read(input)?;
        let (uuid, rest) = u128::read(rest)?;
        Ok((LoginStart { username, uuid }, rest))
    }
}

impl LoginStart {
    /// The number that stands in front of the packet.
    pub const PACKET_ID: i32 = 0x00;
}

impl PacketId for LoginStart {
    open spec fn id() -> i32 {
        0x00
    }

    open spec fn name() -> PacketName {
        PacketName::LoginStart
    }

    fn packet_id() -> (id: i32) {
        Self::PACKET_ID
    }

    fn packet_name() -> (name: PacketName) {
        PacketName::LoginStart
    }
}

/// A property of a player's profile.
#[derive(Debug, Default)]
pub struct Property {
    pub name: String,
    pub value: String,
    pub sig: Option<String>,
}

/// `Property` with its fields taken by their views.
#[verifier::ext_equal]
pub struct PropertyView {
    pub name: Seq<char>,
    pub value: Seq<char>,
    pub sig: Option<Seq<char>>,
}

impl DeepView for Property {
    type V = PropertyView;

    open spec fn deep_view(&self) -> PropertyView {
        PropertyView {
            name: self.name.deep_view(),
            value: self.value.deep_view(),
            sig: self.sig.deep_view(),
        }
    }
}

impl Wire for Property {
    open spec fn encoding(v: PropertyView) -> Encoded {
        joined(
            String::encoding(v.name),
            joined(String::encoding(v.value), Option::<String>::encoding(v.sig)),
        )
    }

    open spec fn decoding(bytes: Seq<u8>) -> Decoded<PropertyView> {
        match String::decoding(bytes) {
            Err(error) => Err(error),
            Ok((name, rest)) => match String::decoding(rest) {
                Err(error) => Err(error),
                Ok((value, rest)) => match Option::<String>::decoding(rest) {
                    Err(error) => Err(error),
                    Ok((sig, rest)) => Ok((PropertyView { name, value, sig }, rest)),
                },
            },
        }
    }

    open spec fn readable(v: PropertyView) -> bool {
        true
    }

    proof fn lemma_round_trip(v: PropertyView, rest: Seq<u8>) {
        if let Ok(bytes) = Self::encoding(v) {
            let e1 = String::encoding(v.name)->Ok_0;
            let e2 = String::encoding(v.value)->Ok_0;
            let e3 = Option::<String>::encoding(v.sig)->Ok_0;
            let t3 = e3;
            let t2 = e2 + t3;
            lemma_field_round_trip::<String>(v.name, t2, rest);
            lemma_field_round_trip::<String>(v.value, t3, rest);
            Option::<String>::lemma_round_trip(v.sig, rest);
        }
    }

    proof fn lemma_extension(bytes: Seq<u8>, more: Seq<u8>) {
        String::lemma_extension(bytes, more);
        if let Ok((_, rest)) = String::decoding(bytes) {
            String::lemma_extension(rest, more);
            if let Ok((_, rest)) = String::decoding(rest) {
                Option::<String>::lemma_extension(rest, more);
            }
        }
    }

    fn write(&self, out: &mut Vec<u8>) -> (result: Result<(), SerializationError<String>>) {
        let ghost before = out@;
        self.name.write(out)?;
        let ghost out1 = out@;
        self.value.write(out)?;
        self.sig.write(out)?;
        proof {
            let v = self.deep_view();
            let e1 = String::encoding(v.name)->Ok_0;
            let e2 = String::encoding(v.value)->Ok_0;
            let e3 = Option::<String>::encoding(v.sig)->Ok_0;
            let t3 = e3;
            lemma_assoc(out1, e2, t3);
            let t2 = e2 + t3;
            lemma_assoc(before, e1, t2);
        }
        Ok(())
    }

    fn read<'a>(input: &'a [u8]) -> (result: Result<(Self, &'a [u8]), SerializationError<String>>) {
        let (name, rest) = String::read(input)?;
        let (value, rest) = String::read(rest)?;
        let (sig, rest) = Option::<String>::read(rest)?;
        Ok((Property { name, value, sig }, rest))
    }
}

/// The login is accepted.
#[derive(Debug, Default)]
pub struct LoginSuccess {
    pub uuid: u128,
    pub username: String,
    pub properties: Vec<Property>,
}

/// `LoginSuccess` with its fields taken by their views.
#[verifier::ext_equal]
pub struct LoginSuccessView {
    pub uuid: u128,
    pub username: Seq<char>,
    pub properties: Seq<PropertyView>,
}

impl DeepView for LoginSuccess {
    type V = LoginSuccessView;

    open spec fn deep_view(&self) -> LoginSuccessView {
        LoginSuccessView {
            uuid: self.uuid.deep_view(),
            username: self.username.deep_view(),
            properties: self.properties.deep_view(),
        }
    }
}

impl Wire for LoginSuccess {
    open spec fn encoding(v: LoginSuccessView) -> Encoded {
        joined(
            u128::encoding(v.uuid),
            joined(String::encoding(v.username), Vec::<Property>::encoding(v.properties)),
        )
    }

    open spec fn decoding(bytes: Seq<u8>) -> Decoded<LoginSuccessView> {
        match u128::decoding(bytes) {
            Err(error) => Err(error),
            Ok((uuid, rest)) => match String::decoding(rest) {
                Err(error) => Err(error),
                Ok((username, rest)) => match Vec::<Property>::decoding(rest) {
                    Err(error) => Err(error),
                    Ok((properties, rest)) => Ok(
                        (LoginSuccessView { uuid, username, properties }, rest),
                    ),
                },
            },
        }
    }

    open spec fn readable(v: LoginSuccessView) -> bool {
        Vec::<Property>::readable(v.properties)
    }

    proof fn lemma_round_trip(v: LoginSuccessView, rest: Seq<u8>) {
        if let Ok(bytes) = Self::encoding(v) {
            let e1 = u128::encoding(v.uuid)->Ok_0;
            let e2 = String::encoding(v.username)->Ok_0;
            let e3 = Vec::<Property>::encoding(v.properties)->Ok_0;
            let t3 = e3;
            let t2 = e2 + t3;
            lemma_field_round_trip::<u128>(v.uuid, t2, rest);
            lemma_field_round_trip::<String>(v.username, t3, rest);
            Vec::<Property>::lemma_round_trip(v.properties, rest);
        }
    }

    proof fn lemma_extension(bytes: Seq<u8>, more: Seq<u8>) {
        u128::lemma_extension(bytes, more);
        if let Ok((_, rest)) = u128::decoding(bytes) {
            String::lemma_extension(rest, more);
            if let Ok((_, rest)) = String::decoding(rest) {
                Vec::<Property>::lemma_extension(rest, more);
            }
        }
    }

    fn write(&self, out: &mut Vec<u8>) -> (result: Result<(), SerializationError<String>>) {
        let ghost before = out@;
        self.uuid.write(out)?;
        let ghost out1 = out@;
        self.username.write(out)?;
        self.properties.write(out)?;
        proof {
            let v = self.deep_view();
            let e1 = u128::encoding(v.uuid)->Ok_0;
            let e2 = String::encoding(v.username)->Ok_0;
            let e3 = Vec::<Property>::encoding(v.properties)->Ok_0;
            let t3 = e3;
            lemma_assoc(out1, e2, t3);
            let t2 = e2 + t3;
            lemma_assoc(before, e1, t2);
        }
        Ok(())
    }

    fn read<'a>(input: &'a [u8]) -> (result: Result<(Self, &'a [u8]), SerializationError<String>>) {
        let (uuid, rest) = u128::read(input)?;
        let (username, rest) = String::read(rest)?;
        let (properties, rest) = Vec::<Property>::read(rest)?;
        Ok((LoginSuccess { uuid, username, properties }, rest))
    }
}

impl LoginSuccess {
    /// The number that stands in front of the packet.
    pub const PACKET_ID: i32 = 0x02;
}

impl PacketId for LoginSuccess {
    open spec fn id() -> i32 {
        0x02
    }

    open spec fn name() -> PacketName {
        PacketName::LoginSuccess
    }

    fn packet_id() -> (id: i32) {
        Self::PACKET_ID
    }

    fn packet_name() -> (name: PacketName) {
        PacketName::LoginSuccess
    }
}

/// The login is refused, with the reason as a JSON text component.
#[derive(Debug, Default)]
pub struct LoginDisconnect {
    pub reason: String,
}

/// `LoginDisconnect` with its fields taken by their views.
#[verifier::ext_equal]
pub struct LoginDisconnectView {
    pub reason: Seq<char>,
}

impl DeepView for LoginDisconnect {
    type V = LoginDisconnectView;

    open spec fn deep_view(&self) -> LoginDisconnectView {
        LoginDisconnectView {
            reason: self.reason.deep_view(),
        }
    }
}

impl Wire for LoginDisconnect {
    open spec fn encoding(v: LoginDisconnectView) -> Encoded {
        String::encoding(v.reason)
    }

    open spec fn decoding(bytes: Seq<u8>) -> Decoded<LoginDisconnectView> {
        match String::decoding(bytes) {
            Err(error) => Err(error),
            Ok((reason, rest)) => Ok((LoginDisconnectView { reason }, rest)),
        }
    }

    open spec fn readable(v: LoginDisconnectView) -> bool {
        true
    }

    proof fn lemma_round_trip(v: LoginDisconnectView, rest: Seq<u8>) {
        String::lemma_round_trip(v.reason, rest);
    }

    proof fn lemma_extension(bytes: Seq<u8>, more: Seq<u8>) {
        String::lemma_extension(bytes, more);
    }

    fn write(&self, out: &mut Vec<u8>) -> (result: Result<(), SerializationError<String>>) {
        self.reason.write(out)
    }

    fn read<'a>(input: &'a [u8]) -> (result: Result<(Self, &'a [u8]), SerializationError<String>>) {
        let (reason, rest) = String::read(input)?;
        Ok((LoginDisconnect { reason }, rest))
    }
}

impl LoginDisconnect {
    /// The number that stands in front of the packet.
    pub const PACKET_ID: i32 = 0x00;
}

impl PacketId for LoginDisconnect {
    open spec fn id() -> i32 {
        0x00
    }

    open spec fn name() -> PacketName {
        PacketName::LoginDisconnect
    }

    fn packet_id() -> (id: i32) {
        Self::PACKET_ID
    }

    fn packet_name() -> (name: PacketName) {
        PacketName::LoginDisconnect
    }
}

// Configuration phase

/// The client is to connect to another server.
#[derive(Debug, Default)]
pub struct Transfer {
    pub host: String,
    pub port: VarInt,
}

/// `Transfer` with its fields taken by their views.
#[verifier::ext_equal]
pub struct TransferView {
    pub host: Seq<char>,
    pub port: VarInt,
}

impl DeepView for Transfer {
    type V = TransferView;

    open spec fn deep_view(&self) -> TransferView {
        TransferView {
            host: self.host.deep_view(),
            port: self.port.deep_view(),
        }
    }
}

impl Wire for Transfer {
    open spec fn encoding(v: TransferView) -> Encoded {
        joined(String::encoding(v.host), VarInt::encoding(v.port))
    }

    open spec fn decoding(bytes: Seq<u8>) -> Decoded<TransferView> {
        match String::decoding(bytes) {
            Err(error) => Err(error),
            Ok((host, rest)) => match VarInt::decoding(rest) {
                Err(error) => Err(error),
                Ok((port, rest)) => Ok((TransferView { host, port }, rest)),
            },
        }
    }

    open spec fn readable(v: TransferView) -> bool {
        true
    }

    proof fn lemma_round_trip(v: TransferView, rest: Seq<u8>) {
        if let Ok(bytes) = Self::encoding(v) {
            let e1 = String::encoding(v.host)->Ok_0;
            let e2 = VarInt::encoding(v.port)->Ok_0;
            let t2 = e2;
            lemma_field_round_trip::<String>(v.host, t2, rest);
            VarInt::lemma_round_trip(v.port, rest);
        }
    }

    proof fn lemma_extension(bytes: Seq<u8>, more: Seq<u8>) {
        String::lemma_extension(bytes, more);
        if let Ok((_, rest)) = String::decoding(bytes) {
            VarInt::lemma_extension(rest, more);
        }
    }

    fn write(&self, out: &mut Vec<u8>) -> (result: Result<(), SerializationError<String>>) {
        let ghost before = out@;
        self.host.write(out)?;
        self.port.write(out)?;
        proof {
            let v = self.deep_view();
            let e1 = String::encoding(v.host)->Ok_0;
            let e2 = VarInt::encoding(v.port)->Ok_0;
            let t2 = e2;
            lemma_assoc(before, e1, t2);
        }
        Ok(())
    }

    fn read<'a>(input: &'a [u8]) -> (result: Result<(Self, &'a [u8]), SerializationError<String>>) {
        let (host, rest) = String::read(input)?;
        let (port, rest) = VarInt::read(rest)?;
        Ok((Transfer { host, port }, rest))
    }
}

impl Transfer {
    /// The number that stands in front of the packet.
    pub const PACKET_ID: i32 = 0x0B;
}

impl PacketId for Transfer {
    open spec fn id() -> i32 {
        0x0B
    }

    open spec fn name() -> PacketName {
        PacketName::Transfer
    }

    fn packet_id() -> (id: i32) {
        Self::PACKET_ID
    }

    fn packet_name() -> (name: PacketName) {
        PacketName::Transfer
    }
}

/// A message on a channel of a plugin.
#[derive(Debug, Default)]
pub struct C2SPluginMessage {
    pub channel: String,
    pub message: Vec<u8>,
}

/// `C2SPluginMessage` with its fields taken by their views.
#[verifier::ext_equal]
pub struct C2SPluginMessageView {
    pub channel: Seq<char>,
    pub message: Seq<u8>,
}

impl DeepView for C2SPluginMessage {
    type V = C2SPluginMessageView;

    open spec fn deep_view(&self) -> C2SPluginMessageView {
        C2SPluginMessageView {
            channel: self.channel.deep_view(),
            message: self.message.deep_view(),
        }
    }
}

impl Wire for C2SPluginMessage {
    open spec fn encoding(v: C2SPluginMessageView) -> Encoded {
        joined(String::encoding(v.channel), Vec::<u8>::encoding(v.message))
    }

    open spec fn decoding(bytes: Seq<u8>) -> Decoded<C2SPluginMessageView> {
        match String::decoding(bytes) {
            Err(error) => Err(error),
            Ok((channel, rest)) => match Vec::<u8>::decoding(rest) {
                Err(error) => Err(error),
                Ok((message, rest)) => Ok((C2SPluginMessageView { channel, message }, rest)),
            },
        }
    }

    open spec fn readable(v: C2SPluginMessageView) -> bool {
        Vec::<u8>::readable(v.message)
    }

    proof fn lemma_round_trip(v: C2SPluginMessageView, rest: Seq<u8>) {
        if let Ok(bytes) = Self::encoding(v) {
            let e1 = String::encoding(v.channel)->Ok_0;
            let e2 = Vec::<u8>::encoding(v.message)->Ok_0;
            let t2 = e2;
            lemma_field_round_trip::<String>(v.channel, t2, rest);
            Vec::<u8>::lemma_round_trip(v.message, rest);
        }
    }

    proof fn lemma_extension(bytes: Seq<u8>, more: Seq<u8>) {
        String::lemma_extension(bytes, more);
        if let Ok((_, rest)) = String::decoding(bytes) {
            Vec::<u8>::lemma_extension(rest, more);
        }
    }

    fn write(&self, out: &mut Vec<u8>) -> (result: Result<(), SerializationError<String>>) {
        let ghost before = out@;
        self.channel.write(out)?;
        self.message.write(out)?;
        proof {
            let v = self.deep_view();
            let e1 = String::encoding(v.channel)->Ok_0;
            let e2 = Vec::<u8>::encoding(v.message)->Ok_0;
            let t2 = e2;
            lemma_assoc(before, e1, t2);
        }
        Ok(())
    }

    fn read<'a>(input: &'a [u8]) -> (result: Result<(Self, &'a [u8]), SerializationError<String>>) {
        let (channel, rest) = String::read(input)?;
        let (message, rest) = Vec::<u8>::read(rest)?;
        Ok((C2SPluginMessage { channel, message }, rest))
    }
}

impl C2SPluginMessage {
    /// The number that stands in front of the packet.
    pub const PACKET_ID: i32 = 0x02;
}

impl PacketId for C2SPluginMessage {
    open spec fn id() -> i32 {
        0x02
    }

    open spec fn name() -> PacketName {
        PacketName::PluginMessage
    }

    fn packet_id() -> (id: i32) {
        Self::PACKET_ID
    }

    fn packet_name() -> (name: PacketName) {
        PacketName::PluginMessage
    }
}

/// The settings of the client.
#[derive(Debug, Default)]
pub struct ClientInformation {
    pub locale: String,
    pub view_distance: u8,
    pub chat_mode: VarInt,
    pub chat_colours: bool,
    pub skin_parts: u8,
    pub hand: VarInt,
    pub filtering: bool,
    pub allow_server_listing: bool,
    pub particle_status: VarInt,
}

/// `ClientInformation` with its fields taken by their views.
#[verifier::ext_equal]
pub struct ClientInformationView {
    pub locale: Seq<char>,
    pub view_distance: u8,
    pub chat_mode: VarInt,
    pub chat_colours: bool,
    pub skin_parts: u8,
    pub hand: VarInt,
    pub filtering: bool,
    pub allow_server_listing: bool,
    pub particle_status: VarInt,
}

impl DeepView for ClientInformation {
    type V = ClientInformationView;

    open spec fn deep_view(&self) -> ClientInformationView {
        ClientInformationView {
            locale: self.locale.deep_view(),
            view_distance: self.view_distance.deep_view(),
            chat_mode: self.chat_mode.deep_view(),
            chat_colours: self.chat_colours.deep_view(),
            skin_parts: self.skin_parts.deep_view(),
            hand: self.hand.deep_view(),
            filtering: self.filtering.deep_view(),
            allow_server_listing: self.allow_server_listing.deep_view(),
            particle_status: self.particle_status.deep_view(),
        }
    }
}

impl Wire for ClientInformation {
    open spec fn encoding(v: ClientInformationView) -> Encoded {
        joined(
            String::encoding(v.locale),
            joined(
                u8::encoding(v.view_distance),
                joined(
                    VarInt::encoding(v.chat_mode),
                    joined(
                        bool::encoding(v.chat_colours),
                        joined(
                            u8::encoding(v.skin_parts),
                            joined(
                                VarInt::encoding(v.hand),
                                joined(
                                    bool::encoding(v.filtering),
                                    joined(
                                        bool::encoding(v.allow_server_listing),
                                        VarInt::encoding(v.particle_status),
                                    ),
                                ),
                            ),
                        ),
                    ),
                ),
            ),
        )
    }

    open spec fn decoding(bytes: Seq<u8>) -> Decoded<ClientInformationView> {
        match String::decoding(bytes) {
            Err(error) => Err(error),
            Ok((locale, rest)) => match u8::decoding(rest) {
                Err(error) => Err(error),
                Ok((view_distance, rest)) => match VarInt::decoding(rest) {
                    Err(error) => Err(error),
                    Ok((chat_mode, rest)) => match bool::decoding(rest) {
                        Err(error) => Err(error),
                        Ok((chat_colours, rest)) => match u8::decoding(rest) {
                            Err(error) => Err(error),
                            Ok((skin_parts, rest)) => match VarInt::decoding(rest) {
                                Err(error) => Err(error),
                                Ok((hand, rest)) => match bool::decoding(rest) {
                                    Err(error) => Err(error),
                                    Ok((filtering, rest)) => match bool::decoding(rest) {
                                        Err(error) => Err(error),
                                        Ok((allow_server_listing, rest)) => match VarInt::decoding(rest) {
                                            Err(error) => Err(error),
                                            Ok((particle_status, rest)) => Ok(
                                                (
                                                    ClientInformationView {
                                                        locale,
                                                        view_distance,
                                                        chat_mode,
                                                        chat_colours,
                                                        skin_parts,
                                                        hand,
                                                        filtering,
                                                        allow_server_listing,
                                                        particle_status,
                                                    },
                                                    rest,
                                                ),
                                            ),
                                        },
                                    },
                                },
                            },
                        },
                    },
                },
            },
        }
    }

    open spec fn readable(v: ClientInformationView) -> bool {
        true
    }

    proof fn lemma_round_trip(v: ClientInformationView, rest: Seq<u8>) {
        if let Ok(bytes) = Self::encoding(v) {
            let e1 = String::encoding(v.locale)->Ok_0;
            let e2 = u8::encoding(v.view_distance)->Ok_0;
            let e3 = VarInt::encoding(v.chat_mode)->Ok_0;
            let e4 = bool::encoding(v.chat_colours)->Ok_0;
            let e5 = u8::encoding(v.skin_parts)->Ok_0;
            let e6 = VarInt::encoding(v.hand)->Ok_0;
            let e7 = bool::encoding(v.filtering)->Ok_0;
            let e8 = bool::encoding(v.allow_server_listing)->Ok_0;
            let e9 = VarInt::encoding(v.particle_status)->Ok_0;
            let t9 = e9;
            let t8 = e8 + t9;
            let t7 = e7 + t8;
            let t6 = e6 + t7;
            let t5 = e5 + t6;
            let t4 = e4 + t5;
            let t3 = e3 + t4;
            let t2 = e2 + t3;
            lemma_field_round_trip::<String>(v.locale, t2, rest);
            lemma_field_round_trip::<u8>(v.view_distance, t3, rest);
            lemma_field_round_trip::<VarInt>(v.chat_mode, t4, rest);
            lemma_field_round_trip::<bool>(v.chat_colours, t5, rest);
            lemma_field_round_trip::<u8>(v.skin_parts, t6, rest);
            lemma_field_round_trip::<VarInt>(v.hand, t7, rest);
            lemma_field_round_trip::<bool>(v.filtering, t8, rest);
            lemma_field_round_trip::<bool>(v.allow_server_listing, t9, rest);
            VarInt::lemma_round_trip(v.particle_status, rest);
        }
    }

    proof fn lemma_extension(bytes: Seq<u8>, more: Seq<u8>) {
        String::lemma_extension(bytes, more);
        if let Ok((_, rest)) = String::decoding(bytes) {
            u8::lemma_extension(rest, more);
            if let Ok((_, rest)) = u8::decoding(rest) {
                VarInt::lemma_extension(rest, more);
                if let Ok((_, rest)) = VarInt::decoding(rest) {
                    bool::lemma_extension(rest, more);
                    if let Ok((_, rest)) = bool::decoding(rest) {
                        u8::lemma_extension(rest, more);
                        if let Ok((_, rest)) = u8::decoding(rest) {
                            VarInt::lemma_extension(rest, more);
                            if let Ok((_, rest)) = VarInt::decoding(rest) {
                                bool::lemma_extension(rest, more);
                                if let Ok((_, rest)) = bool::decoding(rest) {
                                    bool::lemma_extension(rest, more);
                                    if let Ok((_, rest)) = bool::decoding(rest) {
                                        VarInt::lemma_extension(rest, more);
                                    }
                                }
                            }
                        }
                    }
                }
            }
        }
    }

    fn write(&self, out: &mut Vec<u8>) -> (result: Result<(), SerializationError<String>>) {
        let ghost before = out@;
        self.locale.write(out)?;
        let ghost out1 = out@;
        self.view_distance.write(out)?;
        let ghost out2 = out@;
        self.chat_mode.write(out)?;
        let ghost out3 = out@;
        self.chat_colours.write(out)?;
        let ghost out4 = out@;
        self.skin_parts.write(out)?;
        let ghost out5 = out@;
        self.hand.write(out)?;
        let ghost out6 = out@;
        self.filtering.write(out)?;
        let ghost out7 = out@;
        self.allow_server_listing.write(out)?;
        self.particle_status.write(out)?;
        proof {
            let v = self.deep_view();
            let e1 = String::encoding(v.locale)->Ok_0;
            let e2 = u8::encoding(v.view_distance)->Ok_0;
            let e3 = VarInt::encoding(v.chat_mode)->Ok_0;
            let e4 = bool::encoding(v.chat_colours)->Ok_0;
            let e5 = u8::encoding(v.skin_parts)->Ok_0;
            let e6 = VarInt::encoding(v.hand)->Ok_0;
            let e7 = bool::encoding(v.filtering)->Ok_0;
            let e8 = bool::encoding(v.allow_server_listing)->Ok_0;
            let e9 = VarInt::encoding(v.particle_status)->Ok_0;
            let t9 = e9;
            lemma_assoc(out7, e8, t9);
            let t8 = e8 + t9;
            lemma_assoc(out6, e7, t8);
            let t7 = e7 + t8;
            lemma_assoc(out5, e6, t7);
            let t6 = e6 + t7;
            lemma_assoc(out4, e5, t6);
            let t5 = e5 + t6;
            lemma_assoc(out3, e4, t5);
            let t4 = e4 + t5;
            lemma_assoc(out2, e3, t4);
            let t3 = e3 + t4;
            lemma_assoc(out1, e2, t3);
            let t2 = e2 + t3;
            lemma_assoc(before, e1, t2);
        }
        Ok(())
    }

    fn read<'a>(input: &'a [u8]) -> (result: Result<(Self, &'a [u8]), SerializationError<String>>) {
        let (locale, rest) = String::read(input)?;
        let (view_distance, rest) = u8::read(rest)?;
        let (chat_mode, rest) = VarInt::read(rest)?;
        let (chat_colours, rest) = bool::read(rest)?;
        let (skin_parts, rest) = u8::read(rest)?;
        let (hand, rest) = VarInt::read(rest)?;
        let (filtering, rest) = bool::read(rest)?;
        let (allow_server_listing, rest) = bool::read(rest)?;
        let (particle_status, rest) = VarInt::read(rest)?;
        Ok(
            (
                ClientInformation {
                    locale,
                    view_distance,
                    chat_mode,
                    chat_colours,
                    skin_parts,
                    hand,
                    filtering,
                    allow_server_listing,
                    particle_status,
                },
                rest,
            ),
        )
    }
}

impl ClientInformation {
    /// The number that stands in front of the packet.
    pub const PACKET_ID: i32 = 0x00;
}

impl PacketId for ClientInformation {
    open spec fn id() -> i32 {
        0x00
    }

    open spec fn name() -> PacketName {
        PacketName::ClientInformation
    }

    fn packet_id() -> (id: i32) {
        Self::PACKET_ID
    }

    fn packet_name() -> (name: PacketName) {
        PacketName::ClientInformation
    }
}
} // verus!
