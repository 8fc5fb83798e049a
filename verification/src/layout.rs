//! The packets byte by byte.
//!
//! Every law here says which bytes a packet is and what those bytes read as,
//! in terms of UTF-8, of variable-length integers and of numbers with the most
//! significant byte first.

use vstd::prelude::*;
use vstd::utf8::encode_utf8;

use crate::bytes::be_bytes;
use crate::error::{PacketError, PacketName, ProxyError, SerializationError};
use crate::packet::{decoded_as, frame_body, raw, unframed, PacketView};
use crate::packets::{
    C2SPluginMessage, C2SPluginMessageView, ClientInformation, ClientInformationView, Handshake,
    HandshakeView, LoginDisconnect, LoginDisconnectView, LoginStart, LoginStartView, LoginSuccess,
    LoginSuccessView, PacketId, PingPong, PingPongView, Property, PropertyView, S2CStatusResponse,
    S2CStatusResponseView, Transfer, TransferView, PACKET_ID_DISCONNECT, PACKET_ID_LOGIN_ACK,
    PACKET_ID_STATUS_REQUEST,
};
use crate::varint::{varint_bytes, VarInt};
use crate::wire::{list_encoding, unsigned_long, utf16_length, Wire};

verus! {

/// A text as a field: how many bytes its UTF-8 has, and these bytes.
pub open spec fn text_bytes(text: Seq<char>) -> Seq<u8> {
    varint_bytes(encode_utf8(text).len() as i32) + encode_utf8(text)
}

/// A truth value as a field: one byte.
pub open spec fn flag_byte(flag: bool) -> Seq<u8> {
    if flag {
        seq![1u8]
    } else {
        seq![0u8]
    }
}

/// The error for a text of more than 32767 UTF-16 code units.
pub open spec fn too_long(text: Seq<char>) -> ProxyError<Seq<char>> {
    ProxyError::Protocol {
        source: PacketError::Serialization(
            SerializationError::StringTooLong { length: utf16_length(text) as usize, max: 32767 },
        ),
    }
}

/// The bytes of a packet are those bytes: they are what is written of it, and
/// with anything behind them they read as the packet again.
pub open spec fn laid_out<T: PacketId>(
    fields: T::V,
    number: i32,
    payload: Seq<u8>,
    rest: Seq<u8>,
) -> bool {
    &&& raw::<T>(fields) == Ok::<PacketView, ProxyError<Seq<char>>>(
        PacketView { packet_id: number, payload },
    )
    &&& decoded_as::<T>(PacketView { packet_id: number, payload: payload + rest }) == Ok::<
        T::V,
        ProxyError<Seq<char>>,
    >(fields)
}

/// The numbers of the packets and the names under which errors speak of them.
pub proof fn theorem_packet_numbers()
    ensures
        Handshake::id() == 0x00 && Handshake::name() == PacketName::Handshake,
        S2CStatusResponse::id() == 0x00 && S2CStatusResponse::name() == PacketName::StatusResponse,
        PingPong::id() == 0x01 && PingPong::name() == PacketName::PingPong,
        LoginStart::id() == 0x00 && LoginStart::name() == PacketName::LoginStart,
        LoginSuccess::id() == 0x02 && LoginSuccess::name() == PacketName::LoginSuccess,
        LoginDisconnect::id() == 0x00 && LoginDisconnect::name() == PacketName::LoginDisconnect,
        Transfer::id() == 0x0B && Transfer::name() == PacketName::Transfer,
        C2SPluginMessage::id() == 0x02 && C2SPluginMessage::name() == PacketName::PluginMessage,
        ClientInformation::id() == 0x00 && ClientInformation::name()
            == PacketName::ClientInformation,
        PACKET_ID_STATUS_REQUEST == 0x00,
        PACKET_ID_LOGIN_ACK == 0x03,
        PACKET_ID_DISCONNECT == 0x02,
        Handshake::INTENT_STATUS == 1,
        Handshake::INTENT_LOGIN == 2,
        Handshake::INTENT_TRANSFER == 3,
{
}

/// A frame holds the number of its packet as a variable-length integer, one
/// byte for a number below 128, and behind it the payload and nothing else.
pub proof fn theorem_frame_layout(number: i32, payload: Seq<u8>)
    ensures
        frame_body(PacketView { packet_id: number, payload }) == varint_bytes(number) + payload,
        unframed(varint_bytes(number) + payload) == Ok::<PacketView, PacketError<Seq<char>>>(
            PacketView { packet_id: number, payload },
        ),
        0 <= number < 128 ==> varint_bytes(number) == seq![number as u8],
{
    crate::varint::theorem_varint_round_trip(number, payload);
}

/// A text takes at most two UTF-16 code units for each of its characters.
pub proof fn lemma_utf16_length_bound(text: Seq<char>)
    ensures
        utf16_length(text) <= 2 * text.len(),
    decreases text.len(),
{
    if text.len() > 0 {
        lemma_utf16_length_bound(text.drop_last());
    }
}

proof fn lemma_one_byte(b: u8)
    ensures
        be_bytes(b as nat, 1) == seq![b],
{
    reveal_with_fuel(be_bytes, 2);
    assert(be_bytes(b as nat, 1) =~= seq![b]);
}

proof fn lemma_two_bytes(n: u16)
    ensures
        be_bytes(n as nat, 2) == seq![(n / 256) as u8, (n % 256) as u8],
{
    reveal_with_fuel(be_bytes, 3);
    assert(be_bytes(n as nat, 2) =~= seq![(n / 256) as u8, (n % 256) as u8]);
}

/// What was written of a packet is read back with anything behind it.
proof fn lemma_read_with_rest<T: PacketId>(fields: T::V, rest: Seq<u8>)
    requires
        T::readable(fields),
    ensures
        raw::<T>(fields) matches Ok(packet) ==> decoded_as::<T>(
            PacketView { packet_id: packet.packet_id, payload: packet.payload + rest },
        ) == Ok::<T::V, ProxyError<Seq<char>>>(fields),
{
    T::lemma_round_trip(fields, rest);
}

/// A handshake: the version of the protocol, the address as text, the port in
/// two bytes and the intent.
pub proof fn theorem_handshake_layout(
    version: i32,
    address: Seq<char>,
    port: u16,
    intent: i32,
    rest: Seq<u8>,
)
    ensures
        utf16_length(address) > 32767 ==> raw::<Handshake>(
            HandshakeView {
                protocol_version: VarInt(version),
                server_address: address,
                server_port: port,
                intent: VarInt(intent),
            },
        ) == Err::<PacketView, ProxyError<Seq<char>>>(too_long(address)),
        utf16_length(address) <= 32767 ==> laid_out::<Handshake>(
            HandshakeView {
                protocol_version: VarInt(version),
                server_address: address,
                server_port: port,
                intent: VarInt(intent),
            },
            0x00,
            varint_bytes(version) + (varint_bytes(encode_utf8(address).len() as i32) + encode_utf8(
                address,
            )) + seq![(port / 256) as u8, (port % 256) as u8] + varint_bytes(intent),
            rest,
        ),
{
    let fields = HandshakeView {
        protocol_version: VarInt(version),
        server_address: address,
        server_port: port,
        intent: VarInt(intent),
    };
    let two = seq![(port / 256) as u8, (port % 256) as u8];
    lemma_two_bytes(port);
    lemma_read_with_rest::<Handshake>(fields, rest);
    assert(varint_bytes(version) + (text_bytes(address) + (two + varint_bytes(intent)))
        =~= varint_bytes(version) + text_bytes(address) + two + varint_bytes(intent));
}

/// A status response: the status as text.
pub proof fn theorem_status_response_layout(response: Seq<char>, rest: Seq<u8>)
    ensures
        utf16_length(response) <= 32767 ==> laid_out::<S2CStatusResponse>(
            S2CStatusResponseView { response },
            0x00,
            varint_bytes(encode_utf8(response).len() as i32) + encode_utf8(response),
            rest,
        ),
        utf16_length(response) > 32767 ==> raw::<S2CStatusResponse>(
            S2CStatusResponseView { response },
        ) == Err::<PacketView, ProxyError<Seq<char>>>(too_long(response)),
{
    lemma_read_with_rest::<S2CStatusResponse>(S2CStatusResponseView { response }, rest);
}

/// A ping: eight bytes, the 64 bits of its timestamp with the most significant
/// first. Any eight bytes are a ping, and less are none.
pub proof fn theorem_ping_layout(timestamp: i64, bytes: Seq<u8>, rest: Seq<u8>)
    ensures
        laid_out::<PingPong>(
            PingPongView { timestamp },
            0x01,
            be_bytes((timestamp as int % 0x1_0000_0000_0000_0000) as nat, 8),
            rest,
        ),
        bytes.len() == 8 ==> (decoded_as::<PingPong>(
            PacketView { packet_id: 0x01, payload: bytes + rest },
        ) matches Ok(ping) && raw::<PingPong>(ping) == Ok::<PacketView, ProxyError<Seq<char>>>(
            PacketView { packet_id: 0x01, payload: bytes },
        )),
        bytes.len() < 8 ==> decoded_as::<PingPong>(
            PacketView { packet_id: 0x01, payload: bytes },
        ) is Err,
{
    lemma_read_with_rest::<PingPong>(PingPongView { timestamp }, rest);
    assert(unsigned_long(timestamp) == timestamp as int % 0x1_0000_0000_0000_0000);
    if bytes.len() == 8 {
        assert((bytes + rest).take(8) =~= bytes);
        crate::bytes::lemma_be_value_bound(bytes);
        crate::bytes::lemma_span();
        crate::bytes::lemma_be_bytes_of_be_value(bytes);
    }
}

/// The start of a login: the name as text and the id in sixteen bytes, the most
/// significant first.
pub proof fn theorem_login_start_layout(name: Seq<char>, uuid: u128, rest: Seq<u8>)
    requires
        utf16_length(name) <= 32767,
    ensures
        laid_out::<LoginStart>(
            LoginStartView { username: name, uuid },
            0x00,
            varint_bytes(encode_utf8(name).len() as i32) + encode_utf8(name) + be_bytes(
                uuid as nat,
                16,
            ),
            rest,
        ),
{
    lemma_read_with_rest::<LoginStart>(LoginStartView { username: name, uuid }, rest);
}

/// A property of a player: its name and its value as texts, and behind a byte
/// that says whether there is one, its signature as text.
pub proof fn theorem_property_layout(
    name: Seq<char>,
    value: Seq<char>,
    sig: Option<Seq<char>>,
    rest: Seq<u8>,
)
    requires
        utf16_length(name) <= 32767,
        utf16_length(value) <= 32767,
        sig matches Some(text) ==> utf16_length(text) <= 32767,
    ensures
        ({
            let fields = PropertyView { name, value, sig };
            let bytes = text_bytes(name) + text_bytes(value) + (match sig {
                Some(text) => seq![1u8] + text_bytes(text),
                None => seq![0u8],
            });
            &&& Property::encoding(fields) == Ok::<Seq<u8>, SerializationError<Seq<char>>>(bytes)
            &&& Property::decoding(bytes + rest) == Ok::<_, SerializationError<Seq<char>>>(
                (fields, rest),
            )
        }),
{
    let fields = PropertyView { name, value, sig };
    lemma_one_byte(0);
    lemma_one_byte(1);
    let last = match sig {
        Some(text) => seq![1u8] + text_bytes(text),
        None => seq![0u8],
    };
    assert(text_bytes(name) + (text_bytes(value) + last) =~= text_bytes(name) + text_bytes(value)
        + last);
    Property::lemma_round_trip(fields, rest);
}

/// A list is written item by item, in order: one more item adds its bytes
/// behind those of the others.
pub proof fn theorem_list_layout<T: Wire>(items: Seq<T::V>, item: T::V)
    ensures
        list_encoding::<T>(Seq::empty()) == Ok::<Seq<u8>, SerializationError<Seq<char>>>(
            Seq::empty(),
        ),
        list_encoding::<T>(items) matches Ok(bytes) ==> (T::encoding(item) matches Ok(more)
            ==> list_encoding::<T>(items.push(item)) == Ok::<
            Seq<u8>,
            SerializationError<Seq<char>>,
        >(bytes + more)),
    decreases items.len(),
{
    if items.len() == 0 {
        assert(items.push(item).drop_first() =~= Seq::empty());
        assert(items =~= Seq::empty());
        if let Ok(more) = T::encoding(item) {
            assert(more + Seq::<u8>::empty() =~= Seq::<u8>::empty() + more);
        }
    } else {
        theorem_list_layout::<T>(items.drop_first(), item);
        assert(items.push(item).drop_first() =~= items.drop_first().push(item));
        assert(items.push(item)[0] == items[0]);
        if let (Ok(first), Ok(others), Ok(more)) = (
            T::encoding(items[0]),
            list_encoding::<T>(items.drop_first()),
            T::encoding(item),
        ) {
            assert(first + (others + more) =~= first + others + more);
        }
    }
}

/// An accepted login: the id in sixteen bytes, the name as text, and how many
/// properties there are with these behind it.
pub proof fn theorem_login_success_layout(
    uuid: u128,
    name: Seq<char>,
    properties: Seq<PropertyView>,
    listed: Seq<u8>,
    rest: Seq<u8>,
)
    requires
        utf16_length(name) <= 32767,
        properties.len() <= 8_388_608,
        list_encoding::<Property>(properties) == Ok::<Seq<u8>, SerializationError<Seq<char>>>(
            listed,
        ),
    ensures
        laid_out::<LoginSuccess>(
            LoginSuccessView { uuid, username: name, properties },
            0x02,
            be_bytes(uuid as nat, 16) + (varint_bytes(encode_utf8(name).len() as i32) + encode_utf8(
                name,
            )) + varint_bytes(properties.len() as i32) + listed,
            rest,
        ),
{
    let fields = LoginSuccessView { uuid, username: name, properties };
    assert(crate::varint::signed(properties.len()) == properties.len());
    let id = be_bytes(uuid as nat, 16);
    let count = varint_bytes(properties.len() as i32);
    assert(Vec::<Property>::encoding(properties) == Ok::<Seq<u8>, SerializationError<Seq<char>>>(
        count + listed,
    ));
    assert(id + (text_bytes(name) + (count + listed)) =~= id + text_bytes(name) + count + listed);
    lemma_read_with_rest::<LoginSuccess>(fields, rest);
}

/// A refused login: the reason as text, and nothing else.
pub proof fn theorem_login_disconnect_layout(reason: Seq<char>, rest: Seq<u8>)
    ensures
        utf16_length(reason) <= 32767 ==> laid_out::<LoginDisconnect>(
            LoginDisconnectView { reason },
            0x00,
            varint_bytes(encode_utf8(reason).len() as i32) + encode_utf8(reason),
            rest,
        ),
        utf16_length(reason) > 32767 ==> raw::<LoginDisconnect>(LoginDisconnectView { reason })
            == Err::<PacketView, ProxyError<Seq<char>>>(too_long(reason)),
{
    lemma_read_with_rest::<LoginDisconnect>(LoginDisconnectView { reason }, rest);
}

/// A transfer: the host as text, and behind it the port as a variable-length
/// integer.
pub proof fn theorem_transfer_layout(host: Seq<char>, port: i32, rest: Seq<u8>)
    ensures
        utf16_length(host) <= 32767 ==> laid_out::<Transfer>(
            TransferView { host, port: VarInt(port) },
            0x0B,
            varint_bytes(encode_utf8(host).len() as i32) + encode_utf8(host) + varint_bytes(port),
            rest,
        ),
        utf16_length(host) > 32767 ==> raw::<Transfer>(TransferView { host, port: VarInt(port) })
            == Err::<PacketView, ProxyError<Seq<char>>>(too_long(host)),
{
    lemma_read_with_rest::<Transfer>(TransferView { host, port: VarInt(port) }, rest);
}

proof fn lemma_byte_list(bytes: Seq<u8>)
    ensures
        list_encoding::<u8>(bytes) == Ok::<Seq<u8>, SerializationError<Seq<char>>>(bytes),
    decreases bytes.len(),
{
    if bytes.len() > 0 {
        lemma_byte_list(bytes.drop_first());
        lemma_one_byte(bytes[0]);
        assert(seq![bytes[0]] + bytes.drop_first() =~= bytes);
    } else {
        assert(bytes =~= Seq::empty());
    }
}

/// A plugin message: the channel as text, how many bytes the message has, and
/// these bytes.
pub proof fn theorem_plugin_message_layout(channel: Seq<char>, message: Seq<u8>, rest: Seq<u8>)
    requires
        utf16_length(channel) <= 32767,
        message.len() <= 8_388_608,
    ensures
        laid_out::<C2SPluginMessage>(
            C2SPluginMessageView { channel, message },
            0x02,
            varint_bytes(encode_utf8(channel).len() as i32) + encode_utf8(channel) + varint_bytes(
                message.len() as i32,
            ) + message,
            rest,
        ),
{
    lemma_byte_list(message);
    assert(crate::varint::signed(message.len()) == message.len());
    let count = varint_bytes(message.len() as i32);
    assert(Vec::<u8>::encoding(message) == Ok::<Seq<u8>, SerializationError<Seq<char>>>(
        count + message,
    ));
    assert(text_bytes(channel) + (count + message) =~= text_bytes(channel) + count + message);
    lemma_read_with_rest::<C2SPluginMessage>(C2SPluginMessageView { channel, message }, rest);
}

/// The settings of a client, field behind field.
pub proof fn theorem_client_information_layout(fields: ClientInformationView, rest: Seq<u8>)
    requires
        utf16_length(fields.locale) <= 32767,
    ensures
        laid_out::<ClientInformation>(
            fields,
            0x00,
            text_bytes(fields.locale) + seq![fields.view_distance] + varint_bytes(
                fields.chat_mode.0,
            ) + flag_byte(fields.chat_colours) + seq![fields.skin_parts] + varint_bytes(
                fields.hand.0,
            ) + flag_byte(fields.filtering) + flag_byte(fields.allow_server_listing)
                + varint_bytes(fields.particle_status.0),
            rest,
        ),
{
    lemma_one_byte(0);
    lemma_one_byte(1);
    lemma_one_byte(fields.view_distance);
    lemma_one_byte(fields.skin_parts);
    let f1 = text_bytes(fields.locale);
    let f2 = seq![fields.view_distance];
    let f3 = varint_bytes(fields.chat_mode.0);
    let f4 = flag_byte(fields.chat_colours);
    let f5 = seq![fields.skin_parts];
    let f6 = varint_bytes(fields.hand.0);
    let f7 = flag_byte(fields.filtering);
    let f8 = flag_byte(fields.allow_server_listing);
    let f9 = varint_bytes(fields.particle_status.0);
    assert(f1 + (f2 + (f3 + (f4 + (f5 + (f6 + (f7 + (f8 + f9))))))) =~= f1 + f2 + f3 + f4 + f5 + f6
        + f7 + f8 + f9);
    lemma_read_with_rest::<ClientInformation>(fields, rest);
}

/// A flag that is read is false for the byte zero and true for every other.
pub proof fn theorem_flags_read(b: u8, rest: Seq<u8>)
    ensures
        bool::decoding(seq![b] + rest) == Ok::<_, SerializationError<Seq<char>>>((b != 0, rest)),
{
    assert((seq![b] + rest).take(1) =~= seq![b]);
    assert((seq![b] + rest).skip(1) =~= rest);
    reveal_with_fuel(crate::bytes::be_value, 2);
}

/// What contracts see of a packet is what its fields hold, each under its own
/// name.
pub proof fn theorem_fields_seen(
    handshake: Handshake,
    status: S2CStatusResponse,
    ping: PingPong,
    start: LoginStart,
    property: Property,
    success: LoginSuccess,
    refusal: LoginDisconnect,
    transfer: Transfer,
    message: C2SPluginMessage,
    client: ClientInformation,
)
    ensures
        handshake.deep_view().protocol_version == handshake.protocol_version,
        handshake.deep_view().server_address == handshake.server_address@,
        handshake.deep_view().server_port == handshake.server_port,
        handshake.deep_view().intent == handshake.intent,
        status.deep_view().response == status.response@,
        ping.deep_view().timestamp == ping.timestamp,
        start.deep_view().username == start.username@,
        start.deep_view().uuid == start.uuid,
        property.deep_view().name == property.name@,
        property.deep_view().value == property.value@,
        property.deep_view().sig == (match property.sig {
            Some(text) => Some(text@),
            None => None,
        }),
        success.deep_view().uuid == success.uuid,
        success.deep_view().username == success.username@,
        success.deep_view().properties.len() == success.properties@.len(),
        forall|i: int|
            0 <= i < success.properties@.len() ==> (#[trigger] success.deep_view().properties[i])
                == success.properties@[i].deep_view(),
        refusal.deep_view().reason == refusal.reason@,
        transfer.deep_view().host == transfer.host@,
        transfer.deep_view().port == transfer.port,
        message.deep_view().channel == message.channel@,
        message.deep_view().message == message.message@,
        client.deep_view().locale == client.locale@,
        client.deep_view().view_distance == client.view_distance,
        client.deep_view().chat_mode == client.chat_mode,
        client.deep_view().chat_colours == client.chat_colours,
        client.deep_view().skin_parts == client.skin_parts,
        client.deep_view().hand == client.hand,
        client.deep_view().filtering == client.filtering,
        client.deep_view().allow_server_listing == client.allow_server_listing,
        client.deep_view().particle_status == client.particle_status,
{
    assert(message.deep_view().message =~= message.message@);
}

} // verus!
