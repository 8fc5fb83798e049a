//! What can go wrong on a connection, and the words in which it is reported.
//!
//! Each error type is generic in its text: the text is a `String` in a value
//! and a sequence of characters in a contract. `error@` is the error with its
//! texts taken by their views.

use vstd::prelude::*;

use crate::text::{decimal, hexadecimal, push_decimal, push_hexadecimal, push_signed, signed_decimal};

verus! {

/// A failed read or write, with the text that the system gave for it.
#[derive(Debug)]
pub enum IoError<T> {
    /// The other side closed before everything was there.
    UnexpectedEof(T),
    /// Anything else.
    Other(T),
}

/// A variable-length integer that could not be read.
#[derive(Debug)]
pub enum VarIntError<T> {
    /// The last byte allowed still announced another one.
    TooLong,
    /// The bytes ran out, or could not be had.
    Io(IoError<T>),
    /// A length was negative.
    NegativeValue,
}

/// A packet field that could not be written or read.
#[derive(Debug)]
pub enum SerializationError<T> {
    /// A variable-length integer in the field is malformed.
    VarInt(VarIntError<T>),
    /// The bytes ran out, or could not be had.
    Io(IoError<T>),
    /// The bytes of a string are not UTF-8.
    InvalidUtf8(T),
    /// A string has more UTF-16 code units than the protocol allows.
    StringTooLong { length: usize, max: usize },
    /// A number names no variant of an enumeration.
    InvalidDiscriminant(i32),
    /// A length is negative or too large.
    InvalidLength(i64),
}

/// A packet that could not be framed, sent or received.
#[derive(Debug)]
pub enum PacketError<T> {
    /// The length or the packet id is malformed.
    VarInt(VarIntError<T>),
    /// The bytes ran out, or could not be had.
    Io(IoError<T>),
    /// A field of the packet is malformed.
    Serialization(SerializationError<T>),
    /// The length of the frame is negative or too large.
    InvalidLength(i64),
}

/// The packets that an error can name.
#[derive(Debug, Clone, Copy, PartialEq, Eq, Structural)]
pub enum PacketName {
    Handshake,
    StatusRequest,
    StatusResponse,
    PingPong,
    LoginStart,
    LoginSuccess,
    LoginAcknowledged,
    LoginDisconnect,
    Transfer,
    PluginMessage,
    ClientInformation,
}

/// Why a connection is given up.
#[derive(Debug)]
#[allow(inconsistent_fields)]
pub enum ProxyError<T> {
    /// A packet could not be framed, sent or received.
    Protocol { source: PacketError<T> },
    /// The payload of a packet could not be read or written.
    Serde { source: SerializationError<T>, while_parsing: Option<PacketName> },
    /// Another packet was due.
    UnexpectedPacket { found: i32, expected: i32, expected_name: Option<PacketName> },
    /// The gateway contradicts itself.
    BadProgram { message: T },
    /// A packet asks for something that does not exist.
    BadPacket { message: T },
    /// The status server did not answer in time.
    Timeout,
    /// The status server could not be reached.
    FetchingStatus { source: IoError<T> },
}

impl View for IoError<String> {
    type V = IoError<Seq<char>>;

    open spec fn view(&self) -> IoError<Seq<char>> {
        match self {
            IoError::UnexpectedEof(text) => IoError::UnexpectedEof(text@),
            IoError::Other(text) => IoError::Other(text@),
        }
    }
}

impl View for VarIntError<String> {
    type V = VarIntError<Seq<char>>;

    open spec fn view(&self) -> VarIntError<Seq<char>> {
        match self {
            VarIntError::TooLong => VarIntError::TooLong,
            VarIntError::Io(source) => VarIntError::Io(source@),
            VarIntError::NegativeValue => VarIntError::NegativeValue,
        }
    }
}

impl View for SerializationError<String> {
    type V = SerializationError<Seq<char>>;

    open spec fn view(&self) -> SerializationError<Seq<char>> {
        match self {
            SerializationError::VarInt(source) => SerializationError::VarInt(source@),
            SerializationError::Io(source) => SerializationError::Io(source@),
            SerializationError::InvalidUtf8(text) => SerializationError::InvalidUtf8(text@),
            SerializationError::StringTooLong { length, max } => SerializationError::StringTooLong {
                length: *length,
                max: *max,
            },
            SerializationError::InvalidDiscriminant(n) => SerializationError::InvalidDiscriminant(
                *n,
            ),
            SerializationError::InvalidLength(n) => SerializationError::InvalidLength(*n),
        }
    }
}

impl View for PacketError<String> {
    type V = PacketError<Seq<char>>;

    open spec fn view(&self) -> PacketError<Seq<char>> {
        match self {
            PacketError::VarInt(source) => PacketError::VarInt(source@),
            PacketError::Io(source) => PacketError::Io(source@),
            PacketError::Serialization(source) => PacketError::Serialization(source@),
            PacketError::InvalidLength(n) => PacketError::InvalidLength(*n),
        }
    }
}

impl View for ProxyError<String> {
    type V = ProxyError<Seq<char>>;

    open spec fn view(&self) -> ProxyError<Seq<char>> {
        match self {
            ProxyError::Protocol { source } => ProxyError::Protocol { source: source@ },
            ProxyError::Serde { source, while_parsing } => ProxyError::Serde {
                source: source@,
                while_parsing: *while_parsing,
            },
            ProxyError::UnexpectedPacket { found, expected, expected_name } => {
                ProxyError::UnexpectedPacket {
                    found: *found,
                    expected: *expected,
                    expected_name: *expected_name,
                }
            },
            ProxyError::BadProgram { message } => ProxyError::BadProgram { message: message@ },
            ProxyError::BadPacket { message } => ProxyError::BadPacket { message: message@ },
            ProxyError::Timeout => ProxyError::Timeout,
            ProxyError::FetchingStatus { source } => ProxyError::FetchingStatus {
                source: source@,
            },
        }
    }
}

/// Whether `error` says that the other side closed the connection between two
/// packets or in the middle of one.
pub open spec fn is_eof(error: ProxyError<Seq<char>>) -> bool {
    match error {
        ProxyError::Protocol { source } => {
            ||| source matches PacketError::VarInt(VarIntError::Io(IoError::UnexpectedEof(_)))
            ||| source matches PacketError::Io(IoError::UnexpectedEof(_))
            ||| source matches PacketError::Serialization(
                SerializationError::Io(IoError::UnexpectedEof(_)),
            )
        },
        _ => false,
    }
}

/// Whether `err` says that the other side closed the connection.
pub fn proxy_error_is_eof(err: &ProxyError<String>) -> (eof: bool)
    ensures
        eof == is_eof(err@),
{
    match err {
        ProxyError::Protocol { source } => match source {
            PacketError::VarInt(VarIntError::Io(IoError::UnexpectedEof(_))) => true,
            PacketError::Io(IoError::UnexpectedEof(_)) => true,
            PacketError::Serialization(
                SerializationError::Io(IoError::UnexpectedEof(_)),
            ) => true,
            _ => false,
        },
        _ => false,
    }
}

/// The text of a failed read or write.
pub open spec fn io_error_text(error: IoError<Seq<char>>) -> Seq<char> {
    match error {
        IoError::UnexpectedEof(text) => text,
        IoError::Other(text) => text,
    }
}

/// The text of a malformed variable-length integer.
pub open spec fn varint_error_text(error: VarIntError<Seq<char>>) -> Seq<char> {
    match error {
        VarIntError::TooLong => "VarInt exceeded maximum byte length"@,
        VarIntError::Io(source) => "I/O error: "@ + io_error_text(source),
        VarIntError::NegativeValue => "Negative value is not allowed in this context"@,
    }
}

/// The text of a field that could not be written or read.
pub open spec fn serialization_error_text(error: SerializationError<Seq<char>>) -> Seq<char> {
    match error {
        SerializationError::VarInt(source) => "VarInt/VarLong error: "@ + varint_error_text(source),
        SerializationError::Io(source) => "I/O error: "@ + io_error_text(source),
        SerializationError::InvalidUtf8(text) => "Invalid UTF-8: "@ + text,
        SerializationError::StringTooLong { length, max } => "String too long: "@ + decimal(
            length as nat,
        ) + " code units, maximum is "@ + decimal(max as nat),
        SerializationError::InvalidDiscriminant(n) => "Invalid enum discriminant: "@
            + signed_decimal(n as int),
        SerializationError::InvalidLength(n) => "Invalid length: "@ + signed_decimal(n as int),
    }
}

/// The text of a packet that could not be framed, sent or received.
pub open spec fn packet_error_text(error: PacketError<Seq<char>>) -> Seq<char> {
    match error {
        PacketError::VarInt(source) => "VarInt error: "@ + varint_error_text(source),
        PacketError::Io(source) => "I/O error: "@ + io_error_text(source),
        PacketError::Serialization(source) => "Serialization error: "@ + serialization_error_text(
            source,
        ),
        PacketError::InvalidLength(n) => "Invalid packet length: "@ + signed_decimal(n as int),
    }
}

/// How an error writes the name of a packet.
pub open spec fn packet_name_text(name: PacketName) -> Seq<char> {
    match name {
        PacketName::Handshake => "mc_gateway::packets::Handshake"@,
        PacketName::StatusRequest => "(fake) status request"@,
        PacketName::StatusResponse => "mc_gateway::packets::S2CStatusResponse"@,
        PacketName::PingPong => "mc_gateway::packets::PingPong"@,
        PacketName::LoginStart => "mc_gateway::packets::LoginStart"@,
        PacketName::LoginSuccess => "mc_gateway::packets::LoginSuccess"@,
        PacketName::LoginAcknowledged => "(fake) login acknowledged packet"@,
        PacketName::LoginDisconnect => "mc_gateway::packets::LoginDisconnect"@,
        PacketName::Transfer => "mc_gateway::packets::Transfer"@,
        PacketName::PluginMessage => "mc_gateway::packets::C2SPluginMessage"@,
        PacketName::ClientInformation => "mc_gateway::packets::ClientInformation"@,
    }
}

/// How an error writes the name of a packet that may be missing.
pub open spec fn optional_name_text(name: Option<PacketName>) -> Seq<char> {
    match name {
        Some(name) => "Some(\""@ + packet_name_text(name) + "\")"@,
        None => "None"@,
    }
}

/// The words in which `error` is reported.
pub open spec fn proxy_error_text(error: ProxyError<Seq<char>>) -> Seq<char> {
    match error {
        ProxyError::Protocol { source } => "Protocol: "@ + packet_error_text(source),
        ProxyError::Serde { source, while_parsing } => "While attempting to (de)serialize "@
            + optional_name_text(while_parsing) + ": "@ + serialization_error_text(source),
        ProxyError::UnexpectedPacket { found, expected, expected_name } => "Expected packet id 0x"@
            + hexadecimal(expected) + " but found 0x"@ + hexadecimal(found) + " ("@
            + optional_name_text(expected_name) + ")"@,
        ProxyError::BadProgram { message } => "bad programmer: "@ + message,
        ProxyError::BadPacket { message } => "bad packet: "@ + message,
        ProxyError::Timeout => "Timeout"@,
        ProxyError::FetchingStatus { .. } => "FetchingStatus"@,
    }
}

fn push_io_error(out: &mut String, error: &IoError<String>)
    ensures
        final(out)@ == old(out)@ + io_error_text(error@),
{
    match error {
        IoError::UnexpectedEof(text) => out.append(text.as_str()),
        IoError::Other(text) => out.append(text.as_str()),
    }
}

fn push_varint_error(out: &mut String, error: &VarIntError<String>)
    ensures
        final(out)@ == old(out)@ + varint_error_text(error@),
{
    let ghost before = out@;
    match error {
        VarIntError::TooLong => out.append("VarInt exceeded maximum byte length"),
        VarIntError::Io(source) => {
            out.append("I/O error: ");
            push_io_error(out, source);
        },
        VarIntError::NegativeValue => out.append("Negative value is not allowed in this context"),
    }
    assert(out@ =~= before + varint_error_text(error@));
}

fn push_serialization_error(out: &mut String, error: &SerializationError<String>)
    ensures
        final(out)@ == old(out)@ + serialization_error_text(error@),
{
    let ghost before = out@;
    match error {
        SerializationError::VarInt(source) => {
            out.append("VarInt/VarLong error: ");
            push_varint_error(out, source);
        },
        SerializationError::Io(source) => {
            out.append("I/O error: ");
            push_io_error(out, source);
        },
        SerializationError::InvalidUtf8(text) => {
            out.append("Invalid UTF-8: ");
            out.append(text.as_str());
        },
        SerializationError::StringTooLong { length, max } => {
            out.append("String too long: ");
            push_decimal(out, *length as u64);
            out.append(" code units, maximum is ");
            push_decimal(out, *max as u64);
        },
        SerializationError::InvalidDiscriminant(n) => {
            out.append("Invalid enum discriminant: ");
            push_signed(out, *n as i64);
        },
        SerializationError::InvalidLength(n) => {
            out.append("Invalid length: ");
            push_signed(out, *n);
        },
    }
    assert(out@ =~= before + serialization_error_text(error@));
}

fn push_packet_error(out: &mut String, error: &PacketError<String>)
    ensures
        final(out)@ == old(out)@ + packet_error_text(error@),
{
    let ghost before = out@;
    match error {
        PacketError::VarInt(source) => {
            out.append("VarInt error: ");
            push_varint_error(out, source);
        },
        PacketError::Io(source) => {
            out.append("I/O error: ");
            push_io_error(out, source);
        },
        PacketError::Serialization(source) => {
            out.append("Serialization error: ");
            push_serialization_error(out, source);
        },
        PacketError::InvalidLength(n) => {
            out.append("Invalid packet length: ");
            push_signed(out, *n);
        },
    }
    assert(out@ =~= before + packet_error_text(error@));
}

impl PacketName {
    /// The name as an error writes it.
    pub fn as_str(self) -> (text: &'static str)
        ensures
            text@ == packet_name_text(self),
    {
        match self {
            PacketName::Handshake => "mc_gateway::packets::Handshake",
            PacketName::StatusRequest => "(fake) status request",
            PacketName::StatusResponse => "mc_gateway::packets::S2CStatusResponse",
            PacketName::PingPong => "mc_gateway::packets::PingPong",
            PacketName::LoginStart => "mc_gateway::packets::LoginStart",
            PacketName::LoginSuccess => "mc_gateway::packets::LoginSuccess",
            PacketName::LoginAcknowledged => "(fake) login acknowledged packet",
            PacketName::LoginDisconnect => "mc_gateway::packets::LoginDisconnect",
            PacketName::Transfer => "mc_gateway::packets::Transfer",
            PacketName::PluginMessage => "mc_gateway::packets::C2SPluginMessage",
            PacketName::ClientInformation => "mc_gateway::packets::ClientInformation",
        }
    }
}

fn push_optional_name(out: &mut String, name: Option<PacketName>)
    ensures
        final(out)@ == old(out)@ + optional_name_text(name),
{
    let ghost before = out@;
    match name {
        Some(name) => {
            out.append("Some(\"");
            out.append(name.as_str());
            out.append("\")");
        },
        None => out.append("None"),
    }
    assert(out@ =~= before + optional_name_text(name));
}

impl ProxyError<String> {
    /// The words in which the error is reported.
    pub fn text(&self) -> (text: String)
        ensures
            text@ == proxy_error_text(self@),
    {
        let mut out = String::new();
        match self {
            ProxyError::Protocol { source } => {
                out.append("Protocol: ");
                push_packet_error(&mut out, source);
            },
            ProxyError::Serde { source, while_parsing } => {
                out.append("While attempting to (de)serialize ");
                push_optional_name(&mut out, *while_parsing);
                out.append(": ");
                push_serialization_error(&mut out, source);
            },
            ProxyError::UnexpectedPacket { found, expected, expected_name } => {
                out.append("Expected packet id 0x");
                push_hexadecimal(&mut out, *expected);
                out.append(" but found 0x");
                push_hexadecimal(&mut out, *found);
                out.append(" (");
                push_optional_name(&mut out, *expected_name);
                out.append(")");
            },
            ProxyError::BadProgram { message } => {
                out.append("bad programmer: ");
                out.append(message.as_str());
            },
            ProxyError::BadPacket { message } => {
                out.append("bad packet: ");
                out.append(message.as_str());
            },
            ProxyError::Timeout => out.append("Timeout"),
            ProxyError::FetchingStatus { .. } => out.append("FetchingStatus"),
        }
        assert(out@ =~= proxy_error_text(self@));
        out
    }
}

/// How errors of the lower layers read: each by its own words, and those of its
/// cause behind them.
pub proof fn theorem_cause_texts(
    text: Seq<char>,
    io: IoError<Seq<char>>,
    number: VarIntError<Seq<char>>,
    field: SerializationError<Seq<char>>,
    length: usize,
    max: usize,
    n: i32,
    long: i64,
)
    ensures
        io_error_text(IoError::UnexpectedEof(text)) == text,
        io_error_text(IoError::Other(text)) == text,
        varint_error_text(VarIntError::<Seq<char>>::TooLong)
            == "VarInt exceeded maximum byte length"@,
        varint_error_text(VarIntError::Io(io)) == "I/O error: "@ + io_error_text(io),
        varint_error_text(VarIntError::<Seq<char>>::NegativeValue)
            == "Negative value is not allowed in this context"@,
        serialization_error_text(SerializationError::VarInt(number)) == "VarInt/VarLong error: "@
            + varint_error_text(number),
        serialization_error_text(SerializationError::Io(io)) == "I/O error: "@ + io_error_text(io),
        serialization_error_text(SerializationError::InvalidUtf8(text)) == "Invalid UTF-8: "@
            + text,
        serialization_error_text(SerializationError::StringTooLong { length, max })
            == "String too long: "@ + decimal(length as nat) + " code units, maximum is "@
            + decimal(max as nat),
        serialization_error_text(SerializationError::InvalidDiscriminant(n))
            == "Invalid enum discriminant: "@ + signed_decimal(n as int),
        serialization_error_text(SerializationError::InvalidLength(long)) == "Invalid length: "@
            + signed_decimal(long as int),
        packet_error_text(PacketError::VarInt(number)) == "VarInt error: "@ + varint_error_text(
            number,
        ),
        packet_error_text(PacketError::Io(io)) == "I/O error: "@ + io_error_text(io),
        packet_error_text(PacketError::Serialization(field)) == "Serialization error: "@
            + serialization_error_text(field),
        packet_error_text(PacketError::InvalidLength(long)) == "Invalid packet length: "@
            + signed_decimal(long as int),
{
}

/// How the errors of a connection read.
pub proof fn theorem_error_texts(
    packet: PacketError<Seq<char>>,
    field: SerializationError<Seq<char>>,
    io: IoError<Seq<char>>,
    name: PacketName,
    found: i32,
    expected: i32,
    message: Seq<char>,
)
    ensures
        proxy_error_text(ProxyError::Protocol { source: packet }) == "Protocol: "@
            + packet_error_text(packet),
        proxy_error_text(ProxyError::Serde { source: field, while_parsing: Some(name) })
            == "While attempting to (de)serialize "@ + ("Some(\""@ + packet_name_text(name)
            + "\")"@) + ": "@ + serialization_error_text(field),
        proxy_error_text(ProxyError::Serde { source: field, while_parsing: None })
            == "While attempting to (de)serialize "@ + "None"@ + ": "@ + serialization_error_text(
            field,
        ),
        proxy_error_text(
            ProxyError::UnexpectedPacket { found, expected, expected_name: Some(name) },
        ) == "Expected packet id 0x"@ + hexadecimal(expected) + " but found 0x"@ + hexadecimal(
            found,
        ) + " ("@ + ("Some(\""@ + packet_name_text(name) + "\")"@) + ")"@,
        proxy_error_text(ProxyError::UnexpectedPacket { found, expected, expected_name: None })
            == "Expected packet id 0x"@ + hexadecimal(expected) + " but found 0x"@ + hexadecimal(
            found,
        ) + " ("@ + "None"@ + ")"@,
        proxy_error_text(ProxyError::BadProgram { message }) == "bad programmer: "@ + message,
        proxy_error_text(ProxyError::BadPacket { message }) == "bad packet: "@ + message,
        proxy_error_text(ProxyError::<Seq<char>>::Timeout) == "Timeout"@,
        proxy_error_text(ProxyError::FetchingStatus { source: io }) == "FetchingStatus"@,
{
}

/// What contracts see of an error is the error, with its texts as they are.
pub proof fn theorem_errors_seen(
    io: IoError<String>,
    number: VarIntError<String>,
    field: SerializationError<String>,
    packet: PacketError<String>,
    error: ProxyError<String>,
)
    ensures
        io matches IoError::UnexpectedEof(text) ==> io@ == IoError::UnexpectedEof(text@),
        io matches IoError::Other(text) ==> io@ == IoError::Other(text@),
        number is TooLong ==> number@ is TooLong,
        number matches VarIntError::Io(source) ==> number@ == VarIntError::Io(source@),
        number is NegativeValue ==> number@ is NegativeValue,
        field matches SerializationError::VarInt(source) ==> field@ == SerializationError::VarInt(
            source@,
        ),
        field matches SerializationError::Io(source) ==> field@ == SerializationError::Io(source@),
        field matches SerializationError::InvalidUtf8(text) ==> field@
            == SerializationError::InvalidUtf8(text@),
        field matches SerializationError::StringTooLong { length, max } ==> field@ == (
        SerializationError::<Seq<char>>::StringTooLong { length, max }),
        field matches SerializationError::InvalidDiscriminant(n) ==> field@ == SerializationError::<
            Seq<char>,
        >::InvalidDiscriminant(n),
        field matches SerializationError::InvalidLength(n) ==> field@ == SerializationError::<
            Seq<char>,
        >::InvalidLength(n),
        packet matches PacketError::VarInt(source) ==> packet@ == PacketError::VarInt(source@),
        packet matches PacketError::Io(source) ==> packet@ == PacketError::Io(source@),
        packet matches PacketError::Serialization(source) ==> packet@
            == PacketError::Serialization(source@),
        packet matches PacketError::InvalidLength(n) ==> packet@ == PacketError::<
            Seq<char>,
        >::InvalidLength(n),
        error matches ProxyError::Protocol { source } ==> error@ == (ProxyError::Protocol {
            source: source@,
        }),
        error matches ProxyError::Serde { source, while_parsing } ==> error@ == (
        ProxyError::Serde { source: source@, while_parsing }),
        error matches ProxyError::UnexpectedPacket { found, expected, expected_name } ==> error@
            == (ProxyError::<Seq<char>>::UnexpectedPacket { found, expected, expected_name }),
        error matches ProxyError::BadProgram { message } ==> error@ == (ProxyError::BadProgram {
            message: message@,
        }),
        error matches ProxyError::BadPacket { message } ==> error@ == (ProxyError::BadPacket {
            message: message@,
        }),
        error is Timeout ==> error@ is Timeout,
        error matches ProxyError::FetchingStatus { source } ==> error@ == (
        ProxyError::FetchingStatus { source: source@ }),
{
}

} // verus!
