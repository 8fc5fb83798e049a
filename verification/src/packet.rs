//! Packets as they travel: a number and the bytes of the fields.

use vstd::prelude::*;

use crate::error::{PacketError, ProxyError};
use crate::packets::PacketId;
use crate::varint::{encode_varint, parse_varint, read_varint, varint_bytes};

verus! {

/// A packet whose fields are still bytes.
#[derive(Debug)]
pub struct UncompressedPacket {
    /// The number of the packet.
    pub packet_id: i32,
    /// The fields.
    pub payload: Vec<u8>,
}

/// `UncompressedPacket` with its payload taken by its view.
#[verifier::ext_equal]
pub struct PacketView {
    pub packet_id: i32,
    pub payload: Seq<u8>,
}

impl View for UncompressedPacket {
    type V = PacketView;

    open spec fn view(&self) -> PacketView {
        PacketView { packet_id: self.packet_id, payload: self.payload@ }
    }
}

impl Clone for UncompressedPacket {
    fn clone(&self) -> (copy: Self)
        ensures
            copy@ == self@,
    {
        let payload = self.payload.clone();
        assert(payload@ =~= self.payload@);
        UncompressedPacket { packet_id: self.packet_id, payload }
    }
}

/// The body of a frame: the number of the packet and its payload.
pub open spec fn frame_body(packet: PacketView) -> Seq<u8> {
    varint_bytes(packet.packet_id) + packet.payload
}

/// The packet in the body of a frame.
pub open spec fn unframed(body: Seq<u8>) -> Result<PacketView, PacketError<Seq<char>>> {
    match parse_varint(body) {
        Ok((packet_id, payload)) => Ok(PacketView { packet_id, payload }),
        Err(error) => Err(PacketError::VarInt(error)),
    }
}

impl UncompressedPacket {
    /// A packet of the given number.
    pub fn new(packet_id: i32, payload: Vec<u8>) -> (packet: Self)
        ensures
            packet.packet_id == packet_id,
            packet.payload == payload,
    {
        UncompressedPacket { packet_id, payload }
    }

    /// The packet in the body of a frame. A frame without a whole packet number
    /// is refused.
    pub fn from_frame(body: &[u8]) -> (result: Result<Self, PacketError<String>>)
        ensures
            match unframed(body@) {
                Ok(packet) => result matches Ok(p) && p@ == packet,
                Err(error) => result matches Err(e) && e@ == error,
            },
    {
        match read_varint(body) {
            Ok((packet_id, rest)) => {
                let mut payload: Vec<u8> = Vec::new();
                payload.extend_from_slice(rest);
                assert(payload@ =~= rest@);
                Ok(UncompressedPacket { packet_id, payload })
            },
            Err(error) => Err(PacketError::VarInt(error)),
        }
    }

    /// The body of the frame that carries the packet.
    pub fn to_frame(&self) -> (body: Vec<u8>)
        ensures
            body@ == frame_body(self@),
    {
        let mut body = encode_varint(self.packet_id);
        let ghost head = body@;
        body.extend_from_slice(self.payload.as_slice());
        assert(body@ =~= head + self.payload@);
        body
    }
}

/// What the payload of a packet of type `T` reads as.
pub open spec fn deserialized<T: PacketId>(payload: Seq<u8>) -> Result<
    T::V,
    ProxyError<Seq<char>>,
> {
    match T::decoding(payload) {
        Ok((packet, _)) => Ok(packet),
        Err(source) => Err(ProxyError::Serde { source, while_parsing: Some(T::name()) }),
    }
}

/// What a packet reads as that ought to be a `T`.
pub open spec fn decoded_as<T: PacketId>(packet: PacketView) -> Result<
    T::V,
    ProxyError<Seq<char>>,
> {
    if packet.packet_id != T::id() {
        Err(
            ProxyError::UnexpectedPacket {
                found: packet.packet_id,
                expected: T::id(),
                expected_name: Some(T::name()),
            },
        )
    } else {
        deserialized::<T>(packet.payload)
    }
}

/// A packet of type `T` as it travels.
pub open spec fn raw<T: PacketId>(packet: T::V) -> Result<PacketView, ProxyError<Seq<char>>> {
    match T::encoding(packet) {
        Ok(payload) => Ok(PacketView { packet_id: T::id(), payload }),
        Err(source) => Err(ProxyError::Protocol { source: PacketError::Serialization(source) }),
    }
}

/// The number of the packets of type `T`.
pub fn packet_id_of<T: PacketId>() -> (id: i32)
    ensures
        id == T::id(),
{
    T::packet_id()
}

/// Reads the payload of `raw` as a `T`. Bytes behind the last field are let be.
pub fn deserialize_packet<T: PacketId>(raw: &UncompressedPacket) -> (result: Result<
    T,
    ProxyError<String>,
>)
    ensures
        match deserialized::<T>(raw.payload@) {
            Ok(packet) => result matches Ok(p) && p.deep_view() == packet,
            Err(error) => result matches Err(e) && e@ == error,
        },
{
    match T::read(raw.payload.as_slice()) {
        Ok((packet, _)) => Ok(packet),
        Err(source) => Err(ProxyError::Serde { source, while_parsing: Some(T::packet_name()) }),
    }
}

/// Writes `packet` as it travels.
pub fn make_raw<P: PacketId>(packet: &P) -> (result: Result<UncompressedPacket, ProxyError<String>>)
    ensures
        match raw::<P>(packet.deep_view()) {
            Ok(packet) => result matches Ok(p) && p@ == packet,
            Err(error) => result matches Err(e) && e@ == error,
        },
{
    let mut payload: Vec<u8> = Vec::new();
    match packet.write(&mut payload) {
        Ok(()) => {
            proof {
                let bytes = P::encoding(packet.deep_view())->Ok_0;
                assert(Seq::<u8>::empty() + bytes =~= bytes);
            }
            Ok(UncompressedPacket { packet_id: packet_id_of::<P>(), payload })
        },
        Err(source) => Err(ProxyError::Protocol { source: PacketError::Serialization(source) }),
    }
}

/// Reads `packet` as a `T`, which it has to be by its number.
pub fn decode_packet_as<T: PacketId>(packet: UncompressedPacket) -> (result: Result<
    T,
    ProxyError<String>,
>)
    ensures
        match decoded_as::<T>(packet@) {
            Ok(packet) => result matches Ok(p) && p.deep_view() == packet,
            Err(error) => result matches Err(e) && e@ == error,
        },
{
    if packet.packet_id != packet_id_of::<T>() {
        return Err(
            ProxyError::UnexpectedPacket {
                found: packet.packet_id,
                expected: packet_id_of::<T>(),
                expected_name: Some(T::packet_name()),
            },
        );
    }
    deserialize_packet(&packet)
}

/// A packet is read back from its own frame.
pub proof fn theorem_frame_round_trip(packet: PacketView)
    ensures
        unframed(frame_body(packet)) == Ok::<_, PacketError<Seq<char>>>(packet),
{
    crate::varint::theorem_varint_round_trip(packet.packet_id, packet.payload);
}

/// Whatever packet can be written, and holds no list longer than a reader
/// takes, is read back as itself from the frame that carries it.
pub proof fn theorem_packet_round_trip<T: PacketId>(packet: T::V)
    requires
        T::readable(packet),
    ensures
        raw::<T>(packet) matches Ok(travelling) ==> {
            &&& unframed(frame_body(travelling)) == Ok::<_, PacketError<Seq<char>>>(travelling)
            &&& decoded_as::<T>(travelling) == Ok::<T::V, ProxyError<Seq<char>>>(packet)
        },
{
    if let Ok(travelling) = raw::<T>(packet) {
        theorem_frame_round_trip(travelling);
        T::lemma_round_trip(packet, Seq::empty());
        assert(travelling.payload + Seq::<u8>::empty() =~= travelling.payload);
    }
}

/// Bytes behind the fields of a packet change nothing in what it reads as.
pub proof fn theorem_trailing_bytes_ignored<T: PacketId>(packet: PacketView, more: Seq<u8>)
    ensures
        decoded_as::<T>(packet) matches Ok(fields) ==> decoded_as::<T>(
            PacketView { packet_id: packet.packet_id, payload: packet.payload + more },
        ) == Ok::<T::V, ProxyError<Seq<char>>>(fields),
{
    T::lemma_extension(packet.payload, more);
}

/// A packet of which bytes are missing at the end is refused.
pub proof fn theorem_truncated_packets_refused<T: PacketId>(packet: T::V, kept: int)
    requires
        T::readable(packet),
    ensures
        raw::<T>(packet) matches Ok(travelling) ==> (0 <= kept < travelling.payload.len() ==> (
        decoded_as::<T>(
            PacketView {
                packet_id: travelling.packet_id,
                payload: travelling.payload.take(kept),
            },
        ) matches Err(ProxyError::Serde { while_parsing, .. }) && while_parsing == Some(
            T::name(),
        ))),
{
    if let Ok(travelling) = raw::<T>(packet) {
        if 0 <= kept < travelling.payload.len() {
            let whole = travelling.payload;
            let missing = whole.skip(kept);
            T::lemma_round_trip(packet, Seq::empty());
            T::lemma_extension(whole.take(kept), missing);
            assert(whole + Seq::<u8>::empty() =~= whole);
            assert(whole.take(kept) + missing =~= whole);
            if let Ok((_, rest)) = T::decoding(whole.take(kept)) {
                assert((rest + missing).len() == 0);
            }
        }
    }
}

/// A packet with the number of another one is refused, whatever it holds.
pub proof fn theorem_other_numbers_refused<T: PacketId>(packet: PacketView)
    requires
        packet.packet_id != T::id(),
    ensures
        decoded_as::<T>(packet) matches Err(
            ProxyError::UnexpectedPacket { found, expected, expected_name },
        ) && found == packet.packet_id && expected == T::id() && expected_name == Some(T::name()),
{
}

} // verus!
