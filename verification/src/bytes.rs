//! Numbers of fixed width, most significant byte first.

use vstd::arithmetic::div_mod::lemma_div_denominator;
use vstd::arithmetic::power::{lemma_pow0, lemma_pow_positive, pow};
use vstd::prelude::*;

verus! {

/// The text of the error that `std::io::Read::read_exact` gives when `wanted`
/// bytes are asked of the slice `available`, which holds fewer.
pub uninterp spec fn short_read_text(wanted: nat, available: Seq<u8>) -> Seq<char>;

/// `std::io::Read::read_exact` on a slice fills the buffer from its front and
/// leaves what follows; it fails, with a text, where the slice is too short.
#[verifier::external_body]
pub(crate) fn read_exact<'a>(input: &'a [u8], wanted: usize) -> (result: Result<
    (Vec<u8>, &'a [u8]),
    String,
>)
    requires
        wanted <= 16,
    ensures
        match result {
            Ok((head, tail)) => {
                &&& wanted <= input@.len()
                &&& head@ == input@.take(wanted as int)
                &&& tail@ == input@.skip(wanted as int)
            },
            Err(text) => {
                &&& input@.len() < wanted
                &&& text@ == short_read_text(wanted as nat, input@)
            },
        },
{
    let mut rest = input;
    let mut head = vec![0u8; wanted];
    match std::io::Read::read_exact(&mut rest, &mut head) {
        Ok(()) => Ok((head, rest)),
        Err(e) => Err(e.to_string()),
    }
}

/// The low `width` bytes of `n`, most significant first.
pub open spec fn be_bytes(n: nat, width: nat) -> Seq<u8>
    decreases width,
{
    if width == 0 {
        Seq::empty()
    } else {
        be_bytes(n / 256, (width - 1) as nat).push((n % 256) as u8)
    }
}

/// The number that `bytes` write, most significant first.
pub open spec fn be_value(bytes: Seq<u8>) -> nat
    decreases bytes.len(),
{
    if bytes.len() == 0 {
        0
    } else {
        256 * be_value(bytes.drop_last()) + bytes.last() as nat
    }
}

/// How many numbers `width` bytes can tell apart.
pub open spec fn span(width: nat) -> nat
    decreases width,
{
    if width == 0 {
        1
    } else {
        256 * span((width - 1) as nat)
    }
}

/// `width` bytes are as many as were asked for.
pub proof fn lemma_be_bytes_length(n: nat, width: nat)
    ensures
        be_bytes(n, width).len() == width,
    decreases width,
{
    if width > 0 {
        lemma_be_bytes_length(n / 256, (width - 1) as nat);
    }
}

/// A number is read back from its own bytes where these are wide enough.
pub proof fn lemma_be_value_of_be_bytes(n: nat, width: nat)
    requires
        n < span(width),
    ensures
        be_value(be_bytes(n, width)) == n,
    decreases width,
{
    if width > 0 {
        lemma_be_value_of_be_bytes(n / 256, (width - 1) as nat);
        lemma_be_bytes_length(n / 256, (width - 1) as nat);
        assert(be_bytes(n, width).drop_last() =~= be_bytes(n / 256, (width - 1) as nat));
    }
}

/// What `bytes` write is less than their span.
pub proof fn lemma_be_value_bound(bytes: Seq<u8>)
    ensures
        be_value(bytes) < span(bytes.len()),
    decreases bytes.len(),
{
    if bytes.len() > 0 {
        lemma_be_value_bound(bytes.drop_last());
    }
}

/// The spans of the widths in use.
pub proof fn lemma_span()
    ensures
        span(1) == 0x100,
        span(2) == 0x1_0000,
        span(8) == 0x1_0000_0000_0000_0000,
        span(16) == 0x1_0000_0000_0000_0000_0000_0000_0000_0000,
{
    reveal_with_fuel(span, 17);
}

proof fn lemma_span_monotonic(a: nat, b: nat)
    requires
        a <= b,
    ensures
        span(a) <= span(b),
    decreases b,
{
    if a < b {
        lemma_span_monotonic(a, (b - 1) as nat);
    }
}

/// Appends the low `width` bytes of `n`.
pub(crate) fn push_be(out: &mut Vec<u8>, n: u128, width: usize)
    ensures
        final(out)@ == old(out)@ + be_bytes(n as nat, width as nat),
    decreases width,
{
    let ghost before = out@;
    if width > 0 {
        push_be(out, n / 256, width - 1);
        out.push((n % 256) as u8);
    }
    assert(out@ =~= before + be_bytes(n as nat, width as nat));
}

/// The number that `bytes` write.
pub(crate) fn value_of(bytes: &Vec<u8>) -> (n: u128)
    requires
        bytes@.len() <= 16,
    ensures
        n == be_value(bytes@),
{
    let mut n: u128 = 0;
    let mut i: usize = 0;
    while i < bytes.len()
        invariant
            i <= bytes@.len() <= 16,
            n == be_value(bytes@.take(i as int)),
        decreases bytes@.len() - i,
    {
        proof {
            let next = bytes@.take(i + 1);
            assert(next.drop_last() =~= bytes@.take(i as int));
            lemma_be_value_bound(next);
            lemma_span_monotonic((i + 1) as nat, 16);
            lemma_span();
        }
        n = 256 * n + bytes[i] as u128;
        i = i + 1;
    }
    assert(bytes@.take(i as int) =~= bytes@);
    n
}

/// Each byte of a number is the digit of its place in base 256, the most
/// significant first.
pub proof fn theorem_be_bytes_layout(n: nat, width: nat, i: int)
    requires
        0 <= i < width,
    ensures
        be_bytes(n, width).len() == width,
        be_bytes(n, width)[i] as int == (n as int / pow(256, (width - 1 - i) as nat)) % 256,
    decreases width,
{
    lemma_be_bytes_length(n, width);
    lemma_be_bytes_length(n / 256, (width - 1) as nat);
    if i == width - 1 {
        lemma_pow0(256);
    } else {
        let places = (width - 2 - i) as nat;
        theorem_be_bytes_layout(n / 256, (width - 1) as nat, i);
        lemma_pow_positive(256, places);
        lemma_div_denominator(n as int, 256, pow(256, places));
        reveal(pow);
    }
}

/// Bytes that are read as a number are the bytes of that number.
pub proof fn lemma_be_bytes_of_be_value(bytes: Seq<u8>)
    ensures
        be_bytes(be_value(bytes), bytes.len()) == bytes,
    decreases bytes.len(),
{
    if bytes.len() > 0 {
        lemma_be_bytes_of_be_value(bytes.drop_last());
        assert(be_bytes(be_value(bytes), bytes.len()) =~= bytes);
    } else {
        assert(be_bytes(be_value(bytes), bytes.len()) =~= bytes);
    }
}

} // verus!
