//! Variable-length integers: groups of seven bits, the least significant group
//! first, in which every byte but the last has its top bit set.

use vstd::arithmetic::div_mod::lemma_div_denominator;
use vstd::arithmetic::power::{lemma_pow0, lemma_pow1, lemma_pow_positive, pow};
use vstd::prelude::*;

use crate::bytes::short_read_text;
use crate::error::{IoError, VarIntError};

verus! {

/// An integer that packets hold in variable length.
#[derive(Debug, Clone, Copy, PartialEq, Eq, Structural)]
pub struct VarInt(pub i32);

impl Default for VarInt {
    fn default() -> (zero: Self)
        ensures
            zero == VarInt(0),
    {
        VarInt(0)
    }
}

/// The most bytes that an integer may take.
pub open spec fn max_bytes() -> nat {
    5
}

/// `n` in groups of seven bits.
pub open spec fn groups(n: nat) -> Seq<u8>
    decreases n,
{
    if n < 128 {
        seq![n as u8]
    } else {
        seq![(n % 128 + 128) as u8] + groups(n / 128)
    }
}

/// Reads groups of seven bits up to the first byte below 128, of which there
/// are `room` at most: the number that they write and the bytes behind them.
pub open spec fn scan(bytes: Seq<u8>, room: nat) -> Result<
    (nat, Seq<u8>),
    VarIntError<Seq<char>>,
>
    decreases room,
{
    if bytes.len() == 0 {
        Err(VarIntError::Io(IoError::UnexpectedEof(short_read_text(1, bytes))))
    } else if bytes[0] < 128 {
        Ok((bytes[0] as nat, bytes.skip(1)))
    } else if room <= 1 {
        Err(VarIntError::TooLong)
    } else {
        match scan(bytes.skip(1), (room - 1) as nat) {
            Ok((high, rest)) => Ok(((bytes[0] - 128) as nat + 128 * high, rest)),
            Err(error) => Err(error),
        }
    }
}

/// The number whose 32 bits are the low 32 bits of `n`, with a sign.
pub open spec fn signed(n: nat) -> i32 {
    let low = n % 0x1_0000_0000;
    if low < 0x8000_0000 {
        low as i32
    } else {
        (low - 0x1_0000_0000) as i32
    }
}

/// The bytes of `value`.
pub open spec fn varint_bytes(value: i32) -> Seq<u8> {
    groups(crate::text::unsigned(value))
}

/// The integer at the front of `bytes`, and the bytes behind it.
pub open spec fn parse_varint(bytes: Seq<u8>) -> Result<(i32, Seq<u8>), VarIntError<Seq<char>>> {
    match scan(bytes, max_bytes()) {
        Ok((n, rest)) => Ok((signed(n), rest)),
        Err(error) => Err(error),
    }
}

/// `mc_protocol::varint::VarInt::encode` writes the 32 bits of the value in
/// groups of seven bits into a buffer and says how many bytes it used.
#[verifier::external_body]
pub(crate) fn encode_varint(value: i32) -> (bytes: Vec<u8>)
    ensures
        bytes@ == varint_bytes(value),
{
    let (buffer, length) = mc_protocol::varint::VarInt(value).encode();
    buffer[..length].to_vec()
}

/// `mc_protocol::varint::VarInt::read_sync` reads one byte at a time up to the
/// first without its top bit, five at most, and keeps the low 32 bits of what
/// they write. From a slice a read fails only where the slice is at its end,
/// with the text of `read_exact` for one more byte.
#[verifier::external_body]
pub(crate) fn read_varint<'a>(input: &'a [u8]) -> (result: Result<
    (i32, &'a [u8]),
    VarIntError<String>,
>)
    ensures
        match parse_varint(input@) {
            Ok((value, rest)) => result matches Ok((v, tail)) && v == value && tail@ == rest,
            Err(error) => result matches Err(e) && e@ == error,
        },
{
    let mut rest = input;
    match mc_protocol::varint::VarInt::read_sync(&mut rest) {
        Ok(value) => Ok((value.0, rest)),
        Err(mc_protocol::varint::VarIntError::TooLong) => Err(VarIntError::TooLong),
        Err(mc_protocol::varint::VarIntError::Io(e)) => Err(
            VarIntError::Io(IoError::UnexpectedEof(e.to_string())),
        ),
        Err(mc_protocol::varint::VarIntError::NegativeValue) => Err(VarIntError::NegativeValue),
    }
}

/// Whether `n` needs no more than `room` groups.
spec fn fits_groups(n: nat, room: nat) -> bool
    decreases room,
{
    room >= 1 && (n < 128 || fits_groups(n / 128, (room - 1) as nat))
}

proof fn lemma_scan_groups(n: nat, rest: Seq<u8>, room: nat)
    requires
        fits_groups(n, room),
    ensures
        scan(groups(n) + rest, room) == Ok::<_, VarIntError<Seq<char>>>((n, rest)),
    decreases room,
{
    let bytes = groups(n) + rest;
    if n < 128 {
        assert(bytes.skip(1) =~= rest);
    } else {
        lemma_scan_groups(n / 128, rest, (room - 1) as nat);
        assert(bytes.skip(1) =~= groups(n / 128) + rest);
        assert(room >= 2) by {
            reveal_with_fuel(fits_groups, 2);
        }
        assert(bytes[0] as nat == n % 128 + 128);
        assert(n == n % 128 + 128 * (n / 128));
    }
}

proof fn lemma_scan_extension(bytes: Seq<u8>, more: Seq<u8>, room: nat)
    ensures
        scan(bytes, room) matches Ok((n, rest)) ==> scan(bytes + more, room) == Ok::<
            _,
            VarIntError<Seq<char>>,
        >((n, rest + more)),
    decreases room,
{
    if bytes.len() > 0 {
        assert((bytes + more).skip(1) =~= bytes.skip(1) + more);
        if bytes[0] >= 128 && room > 1 {
            lemma_scan_extension(bytes.skip(1), more, (room - 1) as nat);
        }
    }
}

/// What stands behind an integer is of no account to its reading.
pub proof fn lemma_parse_extension(bytes: Seq<u8>, more: Seq<u8>)
    ensures
        parse_varint(bytes) matches Ok((n, rest)) ==> parse_varint(bytes + more) == Ok::<
            _,
            VarIntError<Seq<char>>,
        >((n, rest + more)),
{
    lemma_scan_extension(bytes, more, max_bytes());
}

/// Every 32-bit integer is read back from its own bytes, whatever follows them,
/// and nothing of what follows is taken.
pub proof fn theorem_varint_round_trip(value: i32, rest: Seq<u8>)
    ensures
        parse_varint(varint_bytes(value) + rest) == Ok::<_, VarIntError<Seq<char>>>((value, rest)),
{
    let n = crate::text::unsigned(value);
    assert(fits_groups(n, 5)) by {
        reveal_with_fuel(fits_groups, 6);
    }
    lemma_scan_groups(n, rest, 5);
}

/// An integer takes one to five bytes.
pub proof fn theorem_varint_length(value: i32)
    ensures
        1 <= varint_bytes(value).len() <= max_bytes(),
{
    reveal_with_fuel(groups, 6);
}

/// The groups of a number, byte by byte.
proof fn lemma_groups_layout(n: nat, i: int)
    requires
        0 <= i < groups(n).len(),
    ensures
        groups(n)[i] as int % 128 == (n as int / pow(128, i as nat)) % 128,
        groups(n)[i] >= 128 <==> i < groups(n).len() - 1,
    decreases n,
{
    if n < 128 {
        lemma_pow0(128);
    } else {
        lemma_groups_nonempty(n / 128);
        if i == 0 {
            lemma_pow0(128);
        } else {
            let places = (i - 1) as nat;
            assert(groups(n)[i] == groups(n / 128)[i - 1]);
            lemma_groups_layout(n / 128, i - 1);
            lemma_pow_positive(128, places);
            lemma_div_denominator(n as int, 128, pow(128, places));
            reveal(pow);
        }
    }
}

proof fn lemma_groups_nonempty(n: nat)
    ensures
        groups(n).len() >= 1,
{
}

proof fn lemma_groups_span(n: nat)
    ensures
        groups(n).len() >= 1,
        n < pow(128, groups(n).len()),
        groups(n).len() > 1 ==> n >= pow(128, (groups(n).len() - 1) as nat),
    decreases n,
{
    if n < 128 {
        lemma_pow1(128);
    } else {
        lemma_groups_span(n / 128);
        let inner = groups(n / 128).len();
        assert(groups(n).len() == inner + 1);
        assert(pow(128, inner + 1) == 128 * pow(128, inner)) by {
            reveal(pow);
        }
        if inner > 1 {
            assert(pow(128, inner) == 128 * pow(128, (inner - 1) as nat)) by {
                reveal(pow);
            }
        } else {
            lemma_pow1(128);
        }
    }
}

/// The bytes of an integer hold its 32 bits in groups of seven, the least
/// significant first; every byte but the last has its top bit set, and there
/// are no more bytes than the bits need.
pub proof fn theorem_varint_layout(value: i32, i: int)
    requires
        0 <= i < varint_bytes(value).len(),
    ensures
        ({
            let bytes = varint_bytes(value);
            let bits = value as int % 0x1_0000_0000;
            &&& bytes[i] as int % 128 == (bits / pow(128, i as nat)) % 128
            &&& bytes[i] >= 128 <==> i < bytes.len() - 1
            &&& bits < pow(128, bytes.len())
            &&& bytes.len() > 1 ==> bits >= pow(128, (bytes.len() - 1) as nat)
        }),
{
    let n = crate::text::unsigned(value);
    assert(n == value as int % 0x1_0000_0000);
    lemma_groups_layout(n, i);
    lemma_groups_span(n);
}

} // verus!
