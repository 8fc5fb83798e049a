//! Text and byte strings that the gateway writes itself.

use vstd::arithmetic::div_mod::lemma_div_denominator;
use vstd::arithmetic::power::{lemma_pow0, lemma_pow1, lemma_pow_positive, pow};
use vstd::prelude::*;

verus! {

/// `String::push` appends one character to the end of the string.
pub assume_specification[ String::push ](string: &mut String, ch: char)
    ensures
        final(string)@ == old(string)@.push(ch),
;

/// The digit of value `d` in bases up to sixteen, in lower case.
pub open spec fn digit(d: nat) -> char {
    if d == 0 {
        '0'
    } else if d == 1 {
        '1'
    } else if d == 2 {
        '2'
    } else if d == 3 {
        '3'
    } else if d == 4 {
        '4'
    } else if d == 5 {
        '5'
    } else if d == 6 {
        '6'
    } else if d == 7 {
        '7'
    } else if d == 8 {
        '8'
    } else if d == 9 {
        '9'
    } else if d == 10 {
        'a'
    } else if d == 11 {
        'b'
    } else if d == 12 {
        'c'
    } else if d == 13 {
        'd'
    } else if d == 14 {
        'e'
    } else {
        'f'
    }
}

/// `n` written in `base`, most significant digit first, without leading zeros.
pub open spec fn numeral(n: nat, base: nat) -> Seq<char>
    decreases n,
{
    if n < base || base < 2 {
        seq![digit(n)]
    } else {
        proof {
            assert(n / base < n) by (nonlinear_arith)
                requires
                    n >= base,
                    base >= 2,
            ;
        }
        numeral(n / base, base).push(digit(n % base))
    }
}

/// `n` in decimal.
pub open spec fn decimal(n: nat) -> Seq<char> {
    numeral(n, 10)
}

/// `n` in decimal, with a minus sign in front where it is negative.
pub open spec fn signed_decimal(n: int) -> Seq<char> {
    if n < 0 {
        seq!['-'] + decimal((-n) as nat)
    } else {
        decimal(n as nat)
    }
}

/// `n` in hexadecimal as two's complement in 32 bits.
pub open spec fn hexadecimal(n: i32) -> Seq<char> {
    numeral(unsigned(n), 16)
}

/// The 32 bits of `n` read as a number without a sign.
pub open spec fn unsigned(n: i32) -> nat {
    if n < 0 {
        (n + 0x1_0000_0000) as nat
    } else {
        n as nat
    }
}

pub(crate) fn digit_char(d: u8) -> (c: char)
    requires
        d < 16,
    ensures
        c == digit(d as nat),
{
    match d {
        0 => '0',
        1 => '1',
        2 => '2',
        3 => '3',
        4 => '4',
        5 => '5',
        6 => '6',
        7 => '7',
        8 => '8',
        9 => '9',
        10 => 'a',
        11 => 'b',
        12 => 'c',
        13 => 'd',
        14 => 'e',
        _ => 'f',
    }
}

fn push_numeral(out: &mut String, n: u64, base: u64)
    requires
        2 <= base <= 16,
    ensures
        final(out)@ == old(out)@ + numeral(n as nat, base as nat),
    decreases n,
{
    let ghost before = out@;
    if n >= base {
        assert(n / base < n) by (nonlinear_arith)
            requires
                n >= base,
                base >= 2,
        ;
        push_numeral(out, n / base, base);
    }
    assert(0 <= n % base < base) by (nonlinear_arith)
        requires
            base >= 2,
    ;
    out.push(digit_char((n % base) as u8));
    proof {
        if n < base {
            assert(n % base == n) by (nonlinear_arith)
                requires
                    0 <= n < base,
            ;
        }
        assert(out@ =~= before + numeral(n as nat, base as nat));
    }
}

/// Appends `n` in decimal.
pub(crate) fn push_decimal(out: &mut String, n: u64)
    ensures
        final(out)@ == old(out)@ + decimal(n as nat),
{
    push_numeral(out, n, 10);
}

/// Appends `n` in decimal, with a minus sign where it is negative.
pub(crate) fn push_signed(out: &mut String, n: i64)
    ensures
        final(out)@ == old(out)@ + signed_decimal(n as int),
{
    let ghost before = out@;
    if n < 0 {
        out.push('-');
        let magnitude: u64 = (-(n as i128)) as u64;
        push_decimal(out, magnitude);
        assert(out@ =~= before + signed_decimal(n as int));
    } else {
        push_decimal(out, n as u64);
    }
}

/// Appends the 32 bits of `n` in hexadecimal.
pub(crate) fn push_hexadecimal(out: &mut String, n: i32)
    ensures
        final(out)@ == old(out)@ + hexadecimal(n),
{
    let bits: u64 = if n < 0 {
        (n as i64 + 0x1_0000_0000) as u64
    } else {
        n as u64
    };
    push_numeral(out, bits, 16);
}

/// A string that holds exactly what `text` holds.
pub(crate) fn owned(text: &str) -> (string: String)
    ensures
        string@ == text@,
{
    text.to_owned()
}

/// The characters of `text`, in order.
pub(crate) fn characters(text: &str) -> (list: Vec<char>)
    ensures
        list@ == text@,
{
    let mut list: Vec<char> = Vec::new();
    for c in it: text.chars()
        invariant
            it.seq() == text@,
            list@ == it.seq().take(it.index() as int),
    {
        list.push(c);
    }
    list
}

/// Whether `part` stands in `text` from `start` on.
pub(crate) fn stands_at(text: &Vec<char>, start: usize, part: &[char]) -> (yes: bool)
    requires
        start + part@.len() <= text@.len(),
    ensures
        yes == (text@.subrange(start as int, start + part@.len()) == part@),
{
    let end: usize = text.len();
    let mut i: usize = 0;
    while i < part.len()
        invariant
            i <= part@.len(),
            end == text@.len(),
            start + part@.len() <= text@.len(),
            forall|j: int| 0 <= j < i ==> text@[start + j] == part@[j],
        decreases part@.len() - i,
    {
        if text[start + i] != part[i] {
            assert(text@.subrange(start as int, start + part@.len())[i as int] != part@[i as int]);
            return false;
        }
        i = i + 1;
    }
    assert(text@.subrange(start as int, start + part@.len()) =~= part@);
    true
}

/// Two digits that are written alike have the same value.
proof fn lemma_digit_injective(a: nat, b: nat)
    requires
        a < 16,
        b < 16,
        digit(a) == digit(b),
    ensures
        a == b,
{
}

/// Two numbers that are written alike are the same number.
pub proof fn theorem_decimal_injective(a: nat, b: nat)
    requires
        decimal(a) == decimal(b),
    ensures
        a == b,
    decreases a,
{
    lemma_numeral_length(a);
    lemma_numeral_length(b);
    assert(numeral(a, 10).last() == digit(a % 10));
    assert(numeral(b, 10).last() == digit(b % 10));
    lemma_digit_injective(a % 10, b % 10);
    if a >= 10 && b >= 10 {
        assert(numeral(a, 10).drop_last() =~= numeral(a / 10, 10));
        assert(numeral(b, 10).drop_last() =~= numeral(b / 10, 10));
        theorem_decimal_injective(a / 10, b / 10);
    }
}

proof fn lemma_numeral_length(n: nat)
    ensures
        numeral(n, 10).len() >= 1,
        n >= 10 ==> numeral(n, 10).len() >= 2,
        n < 10 ==> numeral(n, 10).len() == 1,
    decreases n,
{
    if n >= 10 {
        lemma_numeral_length(n / 10);
    }
}

/// A number in decimal holds no colon.
pub proof fn lemma_decimal_without_colon(n: nat, i: int)
    requires
        0 <= i < decimal(n).len(),
    ensures
        decimal(n)[i] != ':',
    decreases n,
{
    if n >= 10 && i < decimal(n).len() - 1 {
        assert(decimal(n)[i] == decimal(n / 10)[i]);
        lemma_decimal_without_colon(n / 10, i);
    }
}

/// The character of a digit: the figures, and behind them the letters from `a`
/// on.
proof fn lemma_digit_character(d: nat)
    requires
        d < 16,
    ensures
        d < 10 ==> digit(d) as int == '0' as int + d,
        d >= 10 ==> digit(d) as int == 'a' as int + d - 10,
{
}

proof fn lemma_numeral_digits(n: nat, base: nat, i: int)
    requires
        2 <= base <= 16,
        0 <= i < numeral(n, base).len(),
    ensures
        ({
            let place = (numeral(n, base).len() - 1 - i) as nat;
            let d = (n as int / pow(base as int, place)) % base as int;
            &&& 0 <= d < base
            &&& numeral(n, base)[i] == digit(d as nat)
        }),
    decreases n,
{
    let b = base as int;
    if n < base {
        lemma_pow0(b);
        assert(n as int / 1 == n);
        assert(n as int % b == n) by (nonlinear_arith)
            requires
                0 <= n < b,
        ;
    } else {
        let length = numeral(n, base).len();
        assert(n / base < n) by (nonlinear_arith)
            requires
                n >= base,
                base >= 2,
        ;
        assert(numeral(n, base) == numeral(n / base, base).push(digit(n % base)));
        if i == length - 1 {
            lemma_pow0(b);
            assert(0 <= n as int % b < b) by (nonlinear_arith)
                requires
                    b >= 2,
            ;
        } else {
            lemma_numeral_digits(n / base, base, i);
            let place = (length - 2 - i) as nat;
            lemma_pow_positive(b, place);
            lemma_div_denominator(n as int, b, pow(b, place));
            reveal(pow);
        }
    }
}

proof fn lemma_numeral_span(n: nat, base: nat)
    requires
        2 <= base <= 16,
    ensures
        numeral(n, base).len() >= 1,
        n < pow(base as int, numeral(n, base).len()),
        numeral(n, base).len() > 1 ==> n >= pow(
            base as int,
            (numeral(n, base).len() - 1) as nat,
        ),
    decreases n,
{
    let b = base as int;
    if n < base {
        lemma_pow1(b);
    } else {
        assert(n / base < n) by (nonlinear_arith)
            requires
                n >= base,
                base >= 2,
        ;
        lemma_numeral_span(n / base, base);
        let inner = numeral(n / base, base).len();
        let q = n as int / b;
        let upper = pow(b, inner);
        assert(pow(b, inner + 1) == b * upper) by {
            reveal(pow);
        }
        assert(n < b * upper) by (nonlinear_arith)
            requires
                b >= 2,
                q == n as int / b,
                q < upper,
        ;
        if inner > 1 {
            let lower = pow(b, (inner - 1) as nat);
            assert(upper == b * lower) by {
                reveal(pow);
            }
            assert(n >= b * lower) by (nonlinear_arith)
                requires
                    b >= 2,
                    q == n as int / b,
                    q >= lower,
                    n >= 0,
            ;
        } else {
            lemma_pow1(b);
        }
    }
}

/// A number in decimal: each character is the figure of its place, the most
/// significant first, and there are no more than the number needs.
pub proof fn theorem_decimal_digits(n: nat, i: int)
    requires
        0 <= i < decimal(n).len(),
    ensures
        ({
            let length = decimal(n).len();
            &&& decimal(n)[i] as int == '0' as int + (n as int / pow(
                10,
                (length - 1 - i) as nat,
            )) % 10
            &&& n < pow(10, length)
            &&& length > 1 ==> n >= pow(10, (length - 1) as nat)
        }),
{
    lemma_numeral_digits(n, 10, i);
    lemma_numeral_span(n, 10);
    lemma_digit_character(((n as int / pow(10, (decimal(n).len() - 1 - i) as nat)) % 10) as nat);
}

/// A number in hexadecimal is its 32 bits: each character is the figure or the
/// small letter of its place, the most significant first, and there are no more
/// than the bits need.
pub proof fn theorem_hexadecimal_digits(n: i32, i: int)
    requires
        0 <= i < hexadecimal(n).len(),
    ensures
        ({
            let bits = n as int % 0x1_0000_0000;
            let length = hexadecimal(n).len();
            let d = (bits / pow(16, (length - 1 - i) as nat)) % 16;
            &&& hexadecimal(n)[i] as int == (if d < 10 {
                '0' as int + d
            } else {
                'a' as int + d - 10
            })
            &&& bits < pow(16, length)
            &&& length > 1 ==> bits >= pow(16, (length - 1) as nat)
        }),
{
    let bits = unsigned(n);
    assert(bits == n as int % 0x1_0000_0000);
    lemma_numeral_digits(bits, 16, i);
    lemma_numeral_span(bits, 16);
    lemma_digit_character(
        ((bits as int / pow(16, (hexadecimal(n).len() - 1 - i) as nat)) % 16) as nat,
    );
}

/// A number with a sign is a minus and its distance from zero where it is
/// negative, and that distance alone where it is not.
pub proof fn theorem_signed_decimal(n: nat)
    ensures
        signed_decimal(n as int) == decimal(n),
        n > 0 ==> signed_decimal(-(n as int)) == seq!['-'] + decimal(n),
{
}

} // verus!
