//! The fields of packets as bytes.
//!
//! `Wire` pairs what a value is written as with what bytes are read as; the
//! second undoes the first, and every implementation proves it.

use mc_protocol::ser::Deserialize;
use mc_protocol::ser::SerializationError as Fault;
use mc_protocol::varint::VarIntError as NumberFault;
use vstd::prelude::*;
use vstd::utf8::{decode_utf8, encode_utf8, valid_utf8};

use crate::bytes::{be_bytes, be_value, push_be, read_exact, short_read_text, value_of};
use crate::error::{IoError, SerializationError, VarIntError};
use crate::varint::{encode_varint, parse_varint, read_varint, signed, varint_bytes, VarInt};

verus! {

/// The most UTF-16 code units that a string may have.
pub open spec fn max_string_length() -> nat {
    32767
}

/// The most elements that a list may have when it is read.
pub open spec fn max_list_length() -> nat {
    8_388_608
}

/// What a field is written as.
pub type Encoded = Result<Seq<u8>, SerializationError<Seq<char>>>;

/// What is read from the front of some bytes: a value and the bytes behind it.
pub type Decoded<V> = Result<(V, Seq<u8>), SerializationError<Seq<char>>>;

/// Two fields, one behind the other: the first that cannot be written decides.
pub open spec fn joined(first: Encoded, second: Encoded) -> Encoded {
    match (first, second) {
        (Err(error), _) => Err(error),
        (Ok(_), Err(error)) => Err(error),
        (Ok(a), Ok(b)) => Ok(a + b),
    }
}

/// A value that packets hold.
pub trait Wire: DeepView + Sized {
    /// The bytes of `v`, or why it cannot be written.
    spec fn encoding(v: Self::V) -> Encoded;

    /// The value at the front of `bytes`, or why there is none.
    spec fn decoding(bytes: Seq<u8>) -> Decoded<Self::V>;

    /// Whether no list in `v` is longer than a reader takes.
    spec fn readable(v: Self::V) -> bool;

    /// What was written is read back, and nothing of what follows is taken.
    proof fn lemma_round_trip(v: Self::V, rest: Seq<u8>)
        requires
            Self::readable(v),
        ensures
            Self::encoding(v) matches Ok(bytes) ==> Self::decoding(bytes + rest) == Ok::<
                (Self::V, Seq<u8>),
                SerializationError<Seq<char>>,
            >((v, rest)),
    ;

    /// What stands behind a value is of no account to its reading.
    proof fn lemma_extension(bytes: Seq<u8>, more: Seq<u8>)
        ensures
            Self::decoding(bytes) matches Ok((v, rest)) ==> Self::decoding(bytes + more) == Ok::<
                (Self::V, Seq<u8>),
                SerializationError<Seq<char>>,
            >((v, rest + more)),
    ;

    /// Appends the bytes of the value.
    fn write(&self, out: &mut Vec<u8>) -> (result: Result<(), SerializationError<String>>)
        ensures
            match Self::encoding(self.deep_view()) {
                Ok(bytes) => result is Ok && final(out)@ == old(out)@ + bytes,
                Err(error) => result matches Err(e) && e@ == error,
            },
    ;

    /// Reads a value from the front of `input`.
    fn read<'a>(input: &'a [u8]) -> (result: Result<
        (Self, &'a [u8]),
        SerializationError<String>,
    >)
        ensures
            match Self::decoding(input@) {
                Ok((value, rest)) => result matches Ok((v, tail)) && v.deep_view() == value
                    && tail@ == rest,
                Err(error) => result matches Err(e) && e@ == error,
            },
    ;
}

/// The number in the first `width` bytes.
pub open spec fn fixed(bytes: Seq<u8>, width: nat) -> Decoded<nat> {
    if bytes.len() < width {
        Err(SerializationError::Io(IoError::UnexpectedEof(short_read_text(width, bytes))))
    } else {
        Ok((be_value(bytes.take(width as int)), bytes.skip(width as int)))
    }
}

proof fn lemma_fixed_round_trip(n: nat, width: nat, rest: Seq<u8>)
    requires
        n < crate::bytes::span(width),
    ensures
        fixed(be_bytes(n, width) + rest, width) == Ok::<_, SerializationError<Seq<char>>>(
            (n, rest),
        ),
{
    crate::bytes::lemma_be_bytes_length(n, width);
    crate::bytes::lemma_be_value_of_be_bytes(n, width);
    let bytes = be_bytes(n, width) + rest;
    assert(bytes.take(width as int) =~= be_bytes(n, width));
    assert(bytes.skip(width as int) =~= rest);
}

proof fn lemma_fixed_extension(bytes: Seq<u8>, width: nat, more: Seq<u8>)
    ensures
        fixed(bytes, width) matches Ok((n, rest)) ==> fixed(bytes + more, width) == Ok::<
            _,
            SerializationError<Seq<char>>,
        >((n, rest + more)),
{
    if bytes.len() >= width {
        assert((bytes + more).take(width as int) =~= bytes.take(width as int));
        assert((bytes + more).skip(width as int) =~= bytes.skip(width as int) + more);
    }
}

fn read_fixed<'a>(input: &'a [u8], width: usize) -> (result: Result<
    (u128, &'a [u8]),
    SerializationError<String>,
>)
    requires
        width <= 16,
    ensures
        match fixed(input@, width as nat) {
            Ok((value, rest)) => result matches Ok((v, tail)) && v == value && tail@ == rest && v
                < crate::bytes::span(width as nat),
            Err(error) => result matches Err(e) && e@ == error,
        },
{
    match read_exact(input, width) {
        Ok((head, tail)) => {
            proof {
                crate::bytes::lemma_be_value_bound(head@);
            }
            Ok((value_of(&head), tail))
        },
        Err(text) => Err(SerializationError::Io(IoError::UnexpectedEof(text))),
    }
}

impl Wire for u8 {
    open spec fn encoding(v: u8) -> Encoded {
        Ok(be_bytes(v as nat, 1))
    }

    open spec fn decoding(bytes: Seq<u8>) -> Decoded<u8> {
        match fixed(bytes, 1) {
            Ok((n, rest)) => Ok((n as u8, rest)),
            Err(error) => Err(error),
        }
    }

    open spec fn readable(v: u8) -> bool {
        true
    }

    proof fn lemma_round_trip(v: u8, rest: Seq<u8>) {
        crate::bytes::lemma_span();
        lemma_fixed_round_trip(v as nat, 1, rest);
    }

    proof fn lemma_extension(bytes: Seq<u8>, more: Seq<u8>) {
        lemma_fixed_extension(bytes, 1, more);
    }

    fn write(&self, out: &mut Vec<u8>) -> (result: Result<(), SerializationError<String>>) {
        push_be(out, *self as u128, 1);
        Ok(())
    }

    fn read<'a>(input: &'a [u8]) -> (result: Result<(Self, &'a [u8]), SerializationError<String>>) {
        proof {
            crate::bytes::lemma_span();
        }
        match read_fixed(input, 1) {
            Ok((n, rest)) => Ok((n as u8, rest)),
            Err(error) => Err(error),
        }
    }
}

impl Wire for u16 {
    open spec fn encoding(v: u16) -> Encoded {
        Ok(be_bytes(v as nat, 2))
    }

    open spec fn decoding(bytes: Seq<u8>) -> Decoded<u16> {
        match fixed(bytes, 2) {
            Ok((n, rest)) => Ok((n as u16, rest)),
            Err(error) => Err(error),
        }
    }

    open spec fn readable(v: u16) -> bool {
        true
    }

    proof fn lemma_round_trip(v: u16, rest: Seq<u8>) {
        crate::bytes::lemma_span();
        lemma_fixed_round_trip(v as nat, 2, rest);
    }

    proof fn lemma_extension(bytes: Seq<u8>, more: Seq<u8>) {
        lemma_fixed_extension(bytes, 2, more);
    }

    fn write(&self, out: &mut Vec<u8>) -> (result: Result<(), SerializationError<String>>) {
        push_be(out, *self as u128, 2);
        Ok(())
    }

    fn read<'a>(input: &'a [u8]) -> (result: Result<(Self, &'a [u8]), SerializationError<String>>) {
        proof {
            crate::bytes::lemma_span();
        }
        match read_fixed(input, 2) {
            Ok((n, rest)) => Ok((n as u16, rest)),
            Err(error) => Err(error),
        }
    }
}

impl Wire for u128 {
    open spec fn encoding(v: u128) -> Encoded {
        Ok(be_bytes(v as nat, 16))
    }

    open spec fn decoding(bytes: Seq<u8>) -> Decoded<u128> {
        match fixed(bytes, 16) {
            Ok((n, rest)) => Ok((n as u128, rest)),
            Err(error) => Err(error),
        }
    }

    open spec fn readable(v: u128) -> bool {
        true
    }

    proof fn lemma_round_trip(v: u128, rest: Seq<u8>) {
        crate::bytes::lemma_span();
        lemma_fixed_round_trip(v as nat, 16, rest);
    }

    proof fn lemma_extension(bytes: Seq<u8>, more: Seq<u8>) {
        lemma_fixed_extension(bytes, 16, more);
    }

    fn write(&self, out: &mut Vec<u8>) -> (result: Result<(), SerializationError<String>>) {
        push_be(out, *self, 16);
        Ok(())
    }

    fn read<'a>(input: &'a [u8]) -> (result: Result<(Self, &'a [u8]), SerializationError<String>>) {
        read_fixed(input, 16)
    }
}

/// The 64 bits of `v` read as a number without a sign.
pub open spec fn unsigned_long(v: i64) -> nat {
    if v < 0 {
        (v + 0x1_0000_0000_0000_0000) as nat
    } else {
        v as nat
    }
}

/// The number whose 64 bits are those of `n`, with a sign.
pub open spec fn signed_long(n: nat) -> i64 {
    if n < 0x8000_0000_0000_0000 {
        n as i64
    } else {
        (n - 0x1_0000_0000_0000_0000) as i64
    }
}

impl Wire for i64 {
    open spec fn encoding(v: i64) -> Encoded {
        Ok(be_bytes(unsigned_long(v), 8))
    }

    open spec fn decoding(bytes: Seq<u8>) -> Decoded<i64> {
        match fixed(bytes, 8) {
            Ok((n, rest)) => Ok((signed_long(n), rest)),
            Err(error) => Err(error),
        }
    }

    open spec fn readable(v: i64) -> bool {
        true
    }

    proof fn lemma_round_trip(v: i64, rest: Seq<u8>) {
        crate::bytes::lemma_span();
        lemma_fixed_round_trip(unsigned_long(v), 8, rest);
    }

    proof fn lemma_extension(bytes: Seq<u8>, more: Seq<u8>) {
        lemma_fixed_extension(bytes, 8, more);
    }

    fn write(&self, out: &mut Vec<u8>) -> (result: Result<(), SerializationError<String>>) {
        let n: u128 = if *self < 0 {
            (*self as i128 + 0x1_0000_0000_0000_0000) as u128
        } else {
            *self as u128
        };
        push_be(out, n, 8);
        Ok(())
    }

    fn read<'a>(input: &'a [u8]) -> (result: Result<(Self, &'a [u8]), SerializationError<String>>) {
        proof {
            crate::bytes::lemma_span();
        }
        match read_fixed(input, 8) {
            Ok((n, rest)) => {
                let v: i64 = if n < 0x8000_0000_0000_0000 {
                    n as i64
                } else {
                    (n as i128 - 0x1_0000_0000_0000_0000) as i64
                };
                Ok((v, rest))
            },
            Err(error) => Err(error),
        }
    }
}

impl Wire for bool {
    open spec fn encoding(v: bool) -> Encoded {
        Ok(be_bytes(if v { 1 } else { 0 }, 1))
    }

    open spec fn decoding(bytes: Seq<u8>) -> Decoded<bool> {
        match fixed(bytes, 1) {
            Ok((n, rest)) => Ok((n != 0, rest)),
            Err(error) => Err(error),
        }
    }

    open spec fn readable(v: bool) -> bool {
        true
    }

    proof fn lemma_round_trip(v: bool, rest: Seq<u8>) {
        crate::bytes::lemma_span();
        lemma_fixed_round_trip(if v { 1 } else { 0 }, 1, rest);
    }

    proof fn lemma_extension(bytes: Seq<u8>, more: Seq<u8>) {
        lemma_fixed_extension(bytes, 1, more);
    }

    fn write(&self, out: &mut Vec<u8>) -> (result: Result<(), SerializationError<String>>) {
        let n: u128 = if *self { 1 } else { 0 };
        push_be(out, n, 1);
        Ok(())
    }

    fn read<'a>(input: &'a [u8]) -> (result: Result<(Self, &'a [u8]), SerializationError<String>>) {
        match read_fixed(input, 1) {
            Ok((n, rest)) => Ok((n != 0, rest)),
            Err(error) => Err(error),
        }
    }
}

impl DeepView for VarInt {
    type V = VarInt;

    open spec fn deep_view(&self) -> VarInt {
        *self
    }
}

impl Wire for VarInt {
    open spec fn encoding(v: VarInt) -> Encoded {
        Ok(varint_bytes(v.0))
    }

    open spec fn decoding(bytes: Seq<u8>) -> Decoded<VarInt> {
        match parse_varint(bytes) {
            Ok((n, rest)) => Ok((VarInt(n), rest)),
            Err(error) => Err(SerializationError::VarInt(error)),
        }
    }

    open spec fn readable(v: VarInt) -> bool {
        true
    }

    proof fn lemma_round_trip(v: VarInt, rest: Seq<u8>) {
        crate::varint::theorem_varint_round_trip(v.0, rest);
    }

    proof fn lemma_extension(bytes: Seq<u8>, more: Seq<u8>) {
        crate::varint::lemma_parse_extension(bytes, more);
    }

    fn write(&self, out: &mut Vec<u8>) -> (result: Result<(), SerializationError<String>>) {
        let mut bytes = encode_varint(self.0);
        out.append(&mut bytes);
        Ok(())
    }

    fn read<'a>(input: &'a [u8]) -> (result: Result<(Self, &'a [u8]), SerializationError<String>>) {
        match read_varint(input) {
            Ok((n, rest)) => Ok((VarInt(n), rest)),
            Err(error) => Err(SerializationError::VarInt(error)),
        }
    }
}

/// How many UTF-16 code units `text` takes.
pub open spec fn utf16_length(text: Seq<char>) -> nat
    decreases text.len(),
{
    if text.len() == 0 {
        0
    } else {
        utf16_length(text.drop_last()) + if (text.last() as u32) < 0x10000 {
            1nat
        } else {
            2nat
        }
    }
}

/// The text of the error that `String::from_utf8` gives for `bytes`.
pub uninterp spec fn invalid_utf8_text(bytes: Seq<u8>) -> Seq<char>;

/// The bytes of a string: their number, and the text in UTF-8.
pub open spec fn string_encoding(text: Seq<char>) -> Encoded {
    if utf16_length(text) > max_string_length() {
        Err(
            SerializationError::StringTooLong {
                length: utf16_length(text) as usize,
                max: max_string_length() as usize,
            },
        )
    } else {
        Ok(varint_bytes(encode_utf8(text).len() as i32) + encode_utf8(text))
    }
}

/// The bytes that a string announces, and those behind them.
pub open spec fn string_body(bytes: Seq<u8>) -> Decoded<Seq<u8>> {
    match parse_varint(bytes) {
        Err(error) => Err(SerializationError::VarInt(error)),
        Ok((length, rest)) => if length < 0 || length > 3 * max_string_length() {
            Err(SerializationError::InvalidLength(length as i64))
        } else if rest.len() < length {
            Err(
                SerializationError::Io(
                    IoError::UnexpectedEof(short_read_text(length as nat, rest)),
                ),
            )
        } else {
            Ok((rest.take(length as int), rest.skip(length as int)))
        },
    }
}

/// The string at the front of `bytes`.
pub open spec fn string_decoding(bytes: Seq<u8>) -> Decoded<Seq<char>> {
    match string_body(bytes) {
        Err(error) => Err(error),
        Ok((body, rest)) => if !valid_utf8(body) {
            Err(SerializationError::InvalidUtf8(invalid_utf8_text(body)))
        } else if utf16_length(decode_utf8(body)) > max_string_length() {
            Err(
                SerializationError::StringTooLong {
                    length: utf16_length(decode_utf8(body)) as usize,
                    max: max_string_length() as usize,
                },
            )
        } else {
            Ok((decode_utf8(body), rest))
        },
    }
}

/// `<str as mc_protocol::ser::Serialize>::serialize` writes the number of bytes
/// of the text as a variable-length integer and the text in UTF-8, and refuses
/// a text of more than 32767 UTF-16 code units. Writing to a `Vec` never fails.
#[verifier::external_body]
fn write_string(text: &str, out: &mut Vec<u8>) -> (result: Result<(), SerializationError<String>>)
    ensures
        match string_encoding(text@) {
            Ok(bytes) => result is Ok && final(out)@ == old(out)@ + bytes,
            Err(error) => result matches Err(e) && e@ == error,
        },
{
    mc_protocol::ser::Serialize::serialize(text, out).map_err(|e| match e {
        Fault::VarInt(NumberFault::TooLong) => SerializationError::VarInt(VarIntError::TooLong),
        Fault::VarInt(NumberFault::NegativeValue) =>
            SerializationError::VarInt(VarIntError::NegativeValue),
        Fault::VarInt(NumberFault::Io(e)) =>
            SerializationError::VarInt(VarIntError::Io(IoError::Other(e.to_string()))),
        Fault::Io(e) => SerializationError::Io(IoError::Other(e.to_string())),
        Fault::InvalidUtf8(e) => SerializationError::InvalidUtf8(e.to_string()),
        Fault::StringTooLong { length, max } => SerializationError::StringTooLong { length, max },
        Fault::InvalidDiscriminant(n) => SerializationError::InvalidDiscriminant(n),
        Fault::InvalidLength(n) => SerializationError::InvalidLength(n),
    })
}

/// `<String as mc_protocol::ser::Deserialize>::deserialize` reads the number of
/// bytes, refuses one that is negative or above 3 * 32767, reads that many
/// bytes as UTF-8 and refuses a text of more than 32767 UTF-16 code units.
/// From a slice a read fails only where the slice is at its end.
#[verifier::external_body]
fn read_string<'a>(input: &'a [u8]) -> (result: Result<
    (String, &'a [u8]),
    SerializationError<String>,
>)
    ensures
        match string_body(input@) {
            Err(error) => result matches Err(e) && e@ == error,
            Ok((body, rest)) => if !valid_utf8(body) {
                result matches Err(SerializationError::InvalidUtf8(text)) && text@
                    == invalid_utf8_text(body)
            } else if utf16_length(decode_utf8(body)) > max_string_length() {
                result matches Err(SerializationError::StringTooLong { length, max }) && length
                    == utf16_length(decode_utf8(body)) && max == max_string_length()
            } else {
                result matches Ok((t, tail)) && t@ == decode_utf8(body) && tail@ == rest
            },
        },
{
    let mut rest = input;
    String::deserialize(&mut rest).map(|text| (text, rest)).map_err(|e| match e {
        Fault::VarInt(NumberFault::TooLong) => SerializationError::VarInt(VarIntError::TooLong),
        Fault::VarInt(NumberFault::NegativeValue) =>
            SerializationError::VarInt(VarIntError::NegativeValue),
        Fault::VarInt(NumberFault::Io(e)) =>
            SerializationError::VarInt(VarIntError::Io(IoError::UnexpectedEof(e.to_string()))),
        Fault::Io(e) => SerializationError::Io(IoError::UnexpectedEof(e.to_string())),
        Fault::InvalidUtf8(e) => SerializationError::InvalidUtf8(e.to_string()),
        Fault::StringTooLong { length, max } => SerializationError::StringTooLong { length, max },
        Fault::InvalidDiscriminant(n) => SerializationError::InvalidDiscriminant(n),
        Fault::InvalidLength(n) => SerializationError::InvalidLength(n),
    })
}

proof fn lemma_utf8_length(text: Seq<char>)
    ensures
        encode_utf8(text).len() <= 3 * utf16_length(text),
    decreases text.len(),
{
    if text.len() > 0 {
        lemma_utf8_length(text.drop_last());
        lemma_encode_utf8_push(text.drop_last(), text.last());
        assert(text.drop_last().push(text.last()) =~= text);
        vstd::utf8::char_is_scalar(text.last());
    }
}

proof fn lemma_encode_utf8_push(text: Seq<char>, c: char)
    ensures
        encode_utf8(text.push(c)) == encode_utf8(text) + vstd::utf8::encode_scalar(c as u32),
    decreases text.len(),
{
    if text.len() == 0 {
        assert(text.push(c).drop_first() =~= text);
        assert(encode_utf8(text.push(c)) =~= encode_utf8(text) + vstd::utf8::encode_scalar(
            c as u32,
        ));
    } else {
        lemma_encode_utf8_push(text.drop_first(), c);
        assert(text.push(c).drop_first() =~= text.drop_first().push(c));
        assert(encode_utf8(text.push(c)) =~= encode_utf8(text) + vstd::utf8::encode_scalar(
            c as u32,
        ));
    }
}

impl Wire for String {
    open spec fn encoding(v: Seq<char>) -> Encoded {
        string_encoding(v)
    }

    open spec fn decoding(bytes: Seq<u8>) -> Decoded<Seq<char>> {
        string_decoding(bytes)
    }

    open spec fn readable(v: Seq<char>) -> bool {
        true
    }

    proof fn lemma_round_trip(v: Seq<char>, rest: Seq<u8>) {
        if utf16_length(v) <= max_string_length() {
            let body = encode_utf8(v);
            lemma_utf8_length(v);
            crate::varint::theorem_varint_round_trip(body.len() as i32, body + rest);
            assert(varint_bytes(body.len() as i32) + body + rest =~= varint_bytes(
                body.len() as i32,
            ) + (body + rest));
            assert((body + rest).take(body.len() as int) =~= body);
            assert((body + rest).skip(body.len() as int) =~= rest);
            vstd::utf8::encode_utf8_valid_utf8(v);
            vstd::utf8::encode_utf8_decode_utf8(v);
        }
    }

    proof fn lemma_extension(bytes: Seq<u8>, more: Seq<u8>) {
        crate::varint::lemma_parse_extension(bytes, more);
        if let Ok((length, rest)) = parse_varint(bytes) {
            if 0 <= length <= rest.len() {
                assert((rest + more).take(length as int) =~= rest.take(length as int));
                assert((rest + more).skip(length as int) =~= rest.skip(length as int) + more);
            }
        }
    }

    fn write(&self, out: &mut Vec<u8>) -> (result: Result<(), SerializationError<String>>) {
        write_string(self.as_str(), out)
    }

    fn read<'a>(input: &'a [u8]) -> (result: Result<(Self, &'a [u8]), SerializationError<String>>) {
        read_string(input)
    }
}

impl<T: Wire> Wire for Option<T> {
    open spec fn encoding(v: Option<T::V>) -> Encoded {
        match v {
            Some(inner) => joined(bool::encoding(true), T::encoding(inner)),
            None => bool::encoding(false),
        }
    }

    open spec fn decoding(bytes: Seq<u8>) -> Decoded<Option<T::V>> {
        match bool::decoding(bytes) {
            Err(error) => Err(error),
            Ok((false, rest)) => Ok((None, rest)),
            Ok((true, rest)) => match T::decoding(rest) {
                Err(error) => Err(error),
                Ok((inner, rest)) => Ok((Some(inner), rest)),
            },
        }
    }

    open spec fn readable(v: Option<T::V>) -> bool {
        v matches Some(inner) ==> T::readable(inner)
    }

    proof fn lemma_round_trip(v: Option<T::V>, rest: Seq<u8>) {
        match v {
            Some(inner) => {
                if let Ok(tail) = T::encoding(inner) {
                    T::lemma_round_trip(inner, rest);
                    bool::lemma_round_trip(true, tail + rest);
                    assert(be_bytes(1, 1) + tail + rest =~= be_bytes(1, 1) + (tail + rest));
                }
            },
            None => bool::lemma_round_trip(false, rest),
        }
    }

    proof fn lemma_extension(bytes: Seq<u8>, more: Seq<u8>) {
        bool::lemma_extension(bytes, more);
        if let Ok((true, rest)) = bool::decoding(bytes) {
            T::lemma_extension(rest, more);
        }
    }

    fn write(&self, out: &mut Vec<u8>) -> (result: Result<(), SerializationError<String>>) {
        let ghost before = out@;
        match self {
            Some(inner) => {
                true.write(out)?;
                inner.write(out)?;
                proof {
                    if let Ok(bytes) = T::encoding(inner.deep_view()) {
                        assert(out@ =~= before + (be_bytes(1, 1) + bytes));
                    }
                }
                Ok(())
            },
            None => false.write(out),
        }
    }

    fn read<'a>(input: &'a [u8]) -> (result: Result<(Self, &'a [u8]), SerializationError<String>>) {
        let (present, rest) = bool::read(input)?;
        if present {
            let (inner, rest) = T::read(rest)?;
            Ok((Some(inner), rest))
        } else {
            Ok((None, rest))
        }
    }
}

/// The bytes of all `items`, one behind the other.
pub open spec fn list_encoding<T: Wire>(items: Seq<T::V>) -> Encoded
    decreases items.len(),
{
    if items.len() == 0 {
        Ok(Seq::empty())
    } else {
        joined(T::encoding(items[0]), list_encoding::<T>(items.drop_first()))
    }
}

/// The first `count` items in `bytes`.
pub open spec fn list_decoding<T: Wire>(bytes: Seq<u8>, count: nat) -> Decoded<Seq<T::V>>
    decreases count,
{
    if count == 0 {
        Ok((Seq::empty(), bytes))
    } else {
        match T::decoding(bytes) {
            Err(error) => Err(error),
            Ok((first, rest)) => preceded(
                seq![first],
                list_decoding::<T>(rest, (count - 1) as nat),
            ),
        }
    }
}

/// `items` put in front of the items that were read.
pub open spec fn preceded<V>(items: Seq<V>, decoded: Decoded<Seq<V>>) -> Decoded<Seq<V>> {
    match decoded {
        Err(error) => Err(error),
        Ok((more, rest)) => Ok((items + more, rest)),
    }
}

proof fn lemma_list_round_trip<T: Wire>(items: Seq<T::V>, rest: Seq<u8>)
    requires
        forall|i: int| 0 <= i < items.len() ==> T::readable(#[trigger] items[i]),
    ensures
        list_encoding::<T>(items) matches Ok(bytes) ==> list_decoding::<T>(
            bytes + rest,
            items.len(),
        ) == Ok::<_, SerializationError<Seq<char>>>((items, rest)),
    decreases items.len(),
{
    if items.len() == 0 {
        assert(items =~= Seq::empty());
        assert(Seq::<u8>::empty() + rest =~= rest);
    } else if let Ok(bytes) = list_encoding::<T>(items) {
        let tail = items.drop_first();
        assert forall|i: int| 0 <= i < tail.len() implies T::readable(#[trigger] tail[i]) by {
            assert(tail[i] == items[i + 1]);
        }
        lemma_list_round_trip::<T>(tail, rest);
        let first = T::encoding(items[0])->Ok_0;
        let others = list_encoding::<T>(tail)->Ok_0;
        assert(T::readable(items[0]));
        T::lemma_round_trip(items[0], others + rest);
        assert(first + others + rest =~= first + (others + rest));
        assert(seq![items[0]] + tail =~= items);
    }
}

proof fn lemma_list_extension<T: Wire>(bytes: Seq<u8>, count: nat, more: Seq<u8>)
    ensures
        list_decoding::<T>(bytes, count) matches Ok((items, rest)) ==> list_decoding::<T>(
            bytes + more,
            count,
        ) == Ok::<_, SerializationError<Seq<char>>>((items, rest + more)),
    decreases count,
{
    if count > 0 {
        T::lemma_extension(bytes, more);
        if let Ok((_, rest)) = T::decoding(bytes) {
            lemma_list_extension::<T>(rest, (count - 1) as nat, more);
        }
    }
}

/// The low 32 bits of a length, with a sign.
fn length_field(length: usize) -> (n: i32)
    ensures
        n == signed(length as nat),
{
    let low: i64 = (length as u64 % 0x1_0000_0000) as i64;
    if low < 0x8000_0000 {
        low as i32
    } else {
        (low - 0x1_0000_0000) as i32
    }
}

impl<T: Wire> Wire for Vec<T> {
    open spec fn encoding(v: Seq<T::V>) -> Encoded {
        joined(VarInt::encoding(VarInt(signed(v.len()))), list_encoding::<T>(v))
    }

    open spec fn decoding(bytes: Seq<u8>) -> Decoded<Seq<T::V>> {
        match parse_varint(bytes) {
            Err(error) => Err(SerializationError::VarInt(error)),
            Ok((count, rest)) => if count < 0 || count > max_list_length() {
                Err(SerializationError::InvalidLength(count as i64))
            } else {
                list_decoding::<T>(rest, count as nat)
            },
        }
    }

    open spec fn readable(v: Seq<T::V>) -> bool {
        &&& v.len() <= max_list_length()
        &&& forall|i: int| 0 <= i < v.len() ==> T::readable(#[trigger] v[i])
    }

    proof fn lemma_round_trip(v: Seq<T::V>, rest: Seq<u8>) {
        if let Ok(items) = list_encoding::<T>(v) {
            lemma_list_round_trip::<T>(v, rest);
            let count = signed(v.len());
            assert(count == v.len());
            crate::varint::theorem_varint_round_trip(count, items + rest);
            assert(varint_bytes(count) + items + rest =~= varint_bytes(count) + (items + rest));
        }
    }

    proof fn lemma_extension(bytes: Seq<u8>, more: Seq<u8>) {
        crate::varint::lemma_parse_extension(bytes, more);
        if let Ok((count, rest)) = parse_varint(bytes) {
            if 0 <= count <= max_list_length() {
                lemma_list_extension::<T>(rest, count as nat, more);
            }
        }
    }

    fn write(&self, out: &mut Vec<u8>) -> (result: Result<(), SerializationError<String>>) {
        let ghost before = out@;
        let count = VarInt(length_field(self.len()));
        count.write(out)?;
        let ghost head = varint_bytes(count.0);
        let ghost all = self.deep_view();
        let mut i: usize = 0;
        let ghost mut body = Seq::<u8>::empty();
        assert(all.skip(0) =~= all);
        while i < self.len()
            invariant
                i <= self@.len(),
                all == self.deep_view(),
                all.len() == self@.len(),
                out@ == before + head + body,
                list_encoding::<T>(all) == joined(Ok(body), list_encoding::<T>(all.skip(i as int))),
                Self::encoding(all) == joined(Ok(head), list_encoding::<T>(all)),
            decreases self@.len() - i,
        {
            let ghost remaining = all.skip(i as int);
            assert(remaining[0] == self@[i as int].deep_view());
            assert(remaining.drop_first() =~= all.skip(i + 1));
            self[i].write(out)?;
            proof {
                let bytes = T::encoding(remaining[0])->Ok_0;
                if let Ok(others) = list_encoding::<T>(all.skip(i + 1)) {
                    assert(body + (bytes + others) =~= body + bytes + others);
                }
                body = body + bytes;
                assert(out@ =~= before + head + body);
            }
            i = i + 1;
        }
        proof {
            assert(all.skip(i as int) =~= Seq::empty());
            assert(body + Seq::<u8>::empty() =~= body);
            assert(out@ =~= before + (head + body));
        }
        Ok(())
    }

    fn read<'a>(input: &'a [u8]) -> (result: Result<(Self, &'a [u8]), SerializationError<String>>) {
        let (count, rest) = match read_varint(input) {
            Ok(read) => read,
            Err(error) => return Err(SerializationError::VarInt(error)),
        };
        if count < 0 || count > 8_388_608 {
            return Err(SerializationError::InvalidLength(count as i64));
        }
        let mut list: Vec<T> = Vec::new();
        let mut cur = rest;
        let mut left: i32 = count;
        assert(list.deep_view() =~= Seq::empty());
        proof {
            match list_decoding::<T>(rest@, count as nat) {
                Ok((items, _)) => assert(Seq::empty() + items =~= items),
                Err(_) => {},
            }
        }
        while left > 0
            invariant
                0 <= left <= count,
                list_decoding::<T>(rest@, count as nat) == preceded(
                    list.deep_view(),
                    list_decoding::<T>(cur@, left as nat),
                ),
                Self::decoding(input@) == list_decoding::<T>(rest@, count as nat),
            decreases left,
        {
            let ghost before = list.deep_view();
            let (item, next) = T::read(cur)?;
            list.push(item);
            proof {
                assert(list.deep_view() =~= before.push(item.deep_view()));
                if let Ok((more, _)) = list_decoding::<T>(next@, (left - 1) as nat) {
                    assert(before + (seq![item.deep_view()] + more) =~= before.push(
                        item.deep_view(),
                    ) + more);
                }
            }
            cur = next;
            left = left - 1;
        }
        assert(list.deep_view() + Seq::empty() =~= list.deep_view());
        Ok((list, cur))
    }
}

/// A list announces how many items it has: a number below zero or above
/// 8388608 is refused, and nothing else is.
pub proof fn theorem_list_lengths(count: i32, items: Seq<u8>)
    ensures
        (count < 0 || count > 8_388_608) ==> Vec::<u8>::decoding(varint_bytes(count) + items)
            == Err::<(Seq<u8>, Seq<u8>), SerializationError<Seq<char>>>(
            SerializationError::InvalidLength(count as i64),
        ),
        0 <= count <= 8_388_608 ==> Vec::<u8>::decoding(varint_bytes(count) + items)
            == list_decoding::<u8>(items, count as nat),
{
    crate::varint::theorem_varint_round_trip(count, items);
}

/// An item that may be missing is one byte zero where it is, and one byte one
/// and its own bytes where it is not.
pub proof fn theorem_optional_layout<T: Wire>(item: T::V)
    ensures
        Option::<T>::encoding(None) == Ok::<Seq<u8>, SerializationError<Seq<char>>>(seq![0u8]),
        T::encoding(item) matches Ok(bytes) ==> Option::<T>::encoding(Some(item)) == Ok::<
            Seq<u8>,
            SerializationError<Seq<char>>,
        >(seq![1u8] + bytes),
        T::encoding(item) matches Err(error) ==> Option::<T>::encoding(Some(item)) == Err::<
            Seq<u8>,
            SerializationError<Seq<char>>,
        >(error),
{
    reveal_with_fuel(be_bytes, 2);
    assert(be_bytes(0, 1) =~= seq![0u8]);
    assert(be_bytes(1, 1) =~= seq![1u8]);
}

/// Numbers of fixed width and truth values as bytes, and bytes as these.
pub proof fn theorem_fixed_layout(
    byte: u8,
    short: u16,
    long: i64,
    wide: u128,
    flag: bool,
    rest: Seq<u8>,
)
    ensures
        u8::encoding(byte) == Ok::<Seq<u8>, SerializationError<Seq<char>>>(seq![byte]),
        u16::encoding(short) == Ok::<Seq<u8>, SerializationError<Seq<char>>>(
            seq![(short / 256) as u8, (short % 256) as u8],
        ),
        i64::encoding(long) == Ok::<Seq<u8>, SerializationError<Seq<char>>>(
            be_bytes((long as int % 0x1_0000_0000_0000_0000) as nat, 8),
        ),
        u128::encoding(wide) == Ok::<Seq<u8>, SerializationError<Seq<char>>>(
            be_bytes(wide as nat, 16),
        ),
        bool::encoding(flag) == Ok::<Seq<u8>, SerializationError<Seq<char>>>(
            seq![if flag { 1u8 } else { 0u8 }],
        ),
        u8::decoding(seq![byte] + rest) == Ok::<_, SerializationError<Seq<char>>>((byte, rest)),
        bool::decoding(seq![byte] + rest) == Ok::<_, SerializationError<Seq<char>>>(
            (byte != 0, rest),
        ),
{
    reveal_with_fuel(be_bytes, 3);
    assert(be_bytes(byte as nat, 1) =~= seq![byte]);
    assert(be_bytes(short as nat, 2) =~= seq![(short / 256) as u8, (short % 256) as u8]);
    assert(be_bytes(if flag { 1 } else { 0 }, 1) =~= seq![if flag { 1u8 } else { 0u8 }]);
    assert((seq![byte] + rest).take(1) =~= seq![byte]);
    assert((seq![byte] + rest).skip(1) =~= rest);
    reveal_with_fuel(be_value, 2);
}

} // verus!
