//! The forms in which a disconnecting client is told why.

use vstd::prelude::*;

verus! {

/// Whether `c` is a control character: general category Cc of Unicode.
pub open spec fn is_control(c: char) -> bool {
    (c as u32) < 0x20 || 0x7f <= (c as u32) < 0xa0
}

/// How `c` is written between the quotes of a JSON string.
pub open spec fn escaped_char(c: char) -> Seq<char> {
    if c == '"' {
        seq!['\\', '"']
    } else if c == '\\' {
        seq!['\\', '\\']
    } else if c == '\n' {
        seq!['\\', 'n']
    } else if c == '\r' {
        seq!['\\', 'r']
    } else if c == '\t' {
        seq!['\\', 't']
    } else if c == '\u{08}' {
        seq!['\\', 'b']
    } else if c == '\u{0C}' {
        seq!['\\', 'f']
    } else if is_control(c) {
        seq![
            '\\',
            'u',
            '0',
            '0',
            crate::text::digit((c as nat) / 16),
            crate::text::digit((c as nat) % 16),
        ]
    } else {
        seq![c]
    }
}

/// How `text` is written between the quotes of a JSON string.
pub open spec fn escaped(text: Seq<char>) -> Seq<char>
    decreases text.len(),
{
    if text.len() == 0 {
        Seq::empty()
    } else {
        escaped_char(text[0]) + escaped(text.drop_first())
    }
}

/// `text` as a JSON text component.
pub open spec fn json_component(text: Seq<char>) -> Seq<char> {
    "{\"text\": \""@ + escaped(text) + "\"}"@
}

/// `text` as a string tag in the network form of NBT: the tag's number, the
/// length of the text in UTF-8, of which two bytes are kept, and the text.
pub open spec fn nbt_string(text: Seq<char>) -> Seq<u8> {
    let length = vstd::utf8::encode_utf8(text).len();
    seq![8u8, ((length / 256) % 256) as u8, (length % 256) as u8] + vstd::utf8::encode_utf8(text)
}

/// The value of a hexadecimal digit.
pub open spec fn hex_value(c: char) -> Option<nat> {
    if '0' <= c <= '9' {
        Some((c as nat - '0' as nat) as nat)
    } else if 'a' <= c <= 'f' {
        Some((c as nat - 'a' as nat + 10) as nat)
    } else if 'A' <= c <= 'F' {
        Some((c as nat - 'A' as nat + 10) as nat)
    } else {
        None
    }
}

/// The number that four hexadecimal digits write.
pub open spec fn hex_number(digits: Seq<char>) -> Option<nat> {
    match (hex_value(digits[0]), hex_value(digits[1]), hex_value(digits[2]), hex_value(digits[3])) {
        (Some(a), Some(b), Some(c), Some(d)) => Some(4096 * a + 256 * b + 16 * c + d),
        _ => None,
    }
}

/// What stands between the quotes of a JSON string, read as JSON says: the text
/// it stands for, or `None` where it is malformed or where an escape stands for
/// half of a surrogate pair.
pub open spec fn unescaped(body: Seq<char>) -> Option<Seq<char>>
    decreases body.len(),
{
    if body.len() == 0 {
        Some(Seq::empty())
    } else if body[0] == '"' || (body[0] as u32) < 0x20 {
        None
    } else if body[0] != '\\' {
        prepended(body[0], unescaped(body.skip(1)))
    } else if body.len() < 2 {
        None
    } else if body[1] == '"' || body[1] == '\\' || body[1] == '/' {
        prepended(body[1], unescaped(body.skip(2)))
    } else if body[1] == 'b' {
        prepended('\u{08}', unescaped(body.skip(2)))
    } else if body[1] == 'f' {
        prepended('\u{0C}', unescaped(body.skip(2)))
    } else if body[1] == 'n' {
        prepended('\n', unescaped(body.skip(2)))
    } else if body[1] == 'r' {
        prepended('\r', unescaped(body.skip(2)))
    } else if body[1] == 't' {
        prepended('\t', unescaped(body.skip(2)))
    } else if body[1] == 'u' && body.len() >= 6 {
        match hex_number(body.subrange(2, 6)) {
            Some(code) => if 0xd800 <= code < 0xe000 {
                None
            } else {
                prepended(code as char, unescaped(body.skip(6)))
            },
            None => None,
        }
    } else {
        None
    }
}

/// `c` put in front of `rest`, where there is a rest.
pub open spec fn prepended(c: char, rest: Option<Seq<char>>) -> Option<Seq<char>> {
    match rest {
        Some(text) => Some(seq![c] + text),
        None => None,
    }
}

proof fn lemma_unescaped_char(c: char, rest: Seq<char>)
    ensures
        unescaped(escaped_char(c) + rest) == prepended(c, unescaped(rest)),
{
    let body = escaped_char(c) + rest;
    let n = escaped_char(c).len() as int;
    assert(body.skip(n) =~= rest);
    if n == 6 {
        let digits = body.subrange(2, 6);
        let hi = (c as nat) / 16;
        let lo = (c as nat) % 16;
        assert(digits[2] == crate::text::digit(hi));
        assert(digits[3] == crate::text::digit(lo));
        assert(hex_value(crate::text::digit(hi)) == Some(hi));
        assert(hex_value(crate::text::digit(lo)) == Some(lo));
        assert(hex_number(digits) == Some(c as nat));
    }
}

/// What was escaped reads as the very text, whatever characters it holds.
proof fn lemma_escaped_reads_back(text: Seq<char>)
    ensures
        unescaped(escaped(text)) == Some(text),
    decreases text.len(),
{
    if text.len() > 0 {
        lemma_escaped_reads_back(text.drop_first());
        lemma_unescaped_char(text[0], escaped(text.drop_first()));
        assert(seq![text[0]] + text.drop_first() =~= text);
    } else {
        assert(text =~= Seq::empty());
    }
}

/// A client that reads the component as JSON gets back the very text: the
/// component is an object with one member "text", whose string stands behind
/// ten characters and in front of two, and what lies between reads as `text`,
/// whatever characters it holds.
pub proof fn theorem_json_component_reads_back(text: Seq<char>)
    ensures
        ({
            let component = json_component(text);
            let n = component.len() as int;
            &&& n >= 12
            &&& component.take(10) == "{\"text\": \""@
            &&& component.skip(n - 2) == "\"}"@
            &&& unescaped(component.subrange(10, n - 2)) == Some(text)
        }),
{
    reveal_strlit("{\"text\": \"");
    reveal_strlit("\"}");
    let component = json_component(text);
    let n = component.len() as int;
    assert(component.take(10) =~= "{\"text\": \""@);
    assert(component.skip(n - 2) =~= "\"}"@);
    assert(component.subrange(10, n - 2) =~= escaped(text));
    lemma_escaped_reads_back(text);
}

/// What stands between the quotes of the component holds no control character
/// and no quote but those that the escapes put a backslash in front of.
pub proof fn theorem_escaped_is_printable(text: Seq<char>, i: int)
    requires
        0 <= i < escaped(text).len(),
    ensures
        !is_control(escaped(text)[i]),
        escaped(text)[i] == '"' ==> i > 0 && escaped(text)[i - 1] == '\\',
    decreases text.len(),
{
    if text.len() > 0 {
        let head = escaped_char(text[0]);
        if i >= head.len() {
            theorem_escaped_is_printable(text.drop_first(), i - head.len());
        }
    }
}

/// A string tag holds the whole text in UTF-8 behind its first three bytes. The
/// two length bytes give the number of bytes that follow, of which multiples of
/// 65536 are lost.
pub proof fn theorem_nbt_string_reads_back(text: Seq<char>)
    ensures
        nbt_string(text)[0] == 8,
        nbt_string(text).skip(3) == vstd::utf8::encode_utf8(text),
        vstd::utf8::decode_utf8(nbt_string(text).skip(3)) == text,
        256 * nbt_string(text)[1] + nbt_string(text)[2] == (nbt_string(text).len() - 3) % 65536,
        vstd::utf8::encode_utf8(text).len() < 65536 ==> 256 * nbt_string(text)[1]
            + nbt_string(text)[2] == nbt_string(text).len() - 3,
{
    assert(nbt_string(text).skip(3) =~= vstd::utf8::encode_utf8(text));
    vstd::utf8::encode_utf8_decode_utf8(text);
}

proof fn lemma_escaped_push(text: Seq<char>, c: char)
    ensures
        escaped(text.push(c)) == escaped(text) + escaped_char(c),
    decreases text.len(),
{
    if text.len() == 0 {
        assert(text.push(c).drop_first() =~= text);
        assert(escaped(text.push(c)) =~= escaped(text) + escaped_char(c));
    } else {
        lemma_escaped_push(text.drop_first(), c);
        assert(text.push(c).drop_first() =~= text.drop_first().push(c));
        assert(escaped(text.push(c)) =~= escaped(text) + escaped_char(c));
    }
}

fn push_escaped(out: &mut String, c: char)
    ensures
        final(out)@ == old(out)@ + escaped_char(c),
{
    let ghost before = out@;
    if c == '"' {
        out.push('\\');
        out.push('"');
    } else if c == '\\' {
        out.push('\\');
        out.push('\\');
    } else if c == '\n' {
        out.push('\\');
        out.push('n');
    } else if c == '\r' {
        out.push('\\');
        out.push('r');
    } else if c == '\t' {
        out.push('\\');
        out.push('t');
    } else if c == '\u{08}' {
        out.push('\\');
        out.push('b');
    } else if c == '\u{0C}' {
        out.push('\\');
        out.push('f');
    } else if (c as u32) < 0x20 || (0x7f <= c as u32 && (c as u32) < 0xa0) {
        let code: u32 = c as u32;
        out.push('\\');
        out.push('u');
        out.push('0');
        out.push('0');
        out.push(crate::text::digit_char((code / 16) as u8));
        out.push(crate::text::digit_char((code % 16) as u8));
    } else {
        out.push(c);
    }
    assert(out@ =~= before + escaped_char(c));
}

/// `input` as a JSON text component, the form of a reason while logging in.
pub fn make_json_text(input: &str) -> (json: String)
    ensures
        json@ == json_component(input@),
{
    let mut out = String::new();
    out.append("{\"text\": \"");
    for c in it: input.chars()
        invariant
            it.seq() == input@,
            out@ == "{\"text\": \""@ + escaped(it.seq().take(it.index() as int)),
    {
        let ghost done = it.seq().take(it.index() as int);
        push_escaped(&mut out, c);
        proof {
            lemma_escaped_push(done, c);
            assert(it.seq().take(it.index() as int + 1) =~= done.push(c));
            assert(out@ =~= "{\"text\": \""@ + escaped(done.push(c)));
        }
    }
    assert(input@.take(input@.len() as int) =~= input@);
    out.append("\"}");
    out
}

/// `input` as a string tag of NBT, the form of a reason while configuring.
pub fn make_nbt_string(input: &str) -> (tag: Vec<u8>)
    ensures
        tag@ == nbt_string(input@),
{
    let bytes = input.as_bytes();
    let length: usize = bytes.len();
    let mut out: Vec<u8> = Vec::new();
    out.push(8);
    out.push(((length / 256) % 256) as u8);
    out.push((length % 256) as u8);
    out.extend_from_slice(bytes);
    assert(out@ =~= nbt_string(input@));
    out
}

/// Text is escaped character by character. A quote, a backslash and the control
/// characters that have one get their own short escape, every other control
/// character four hexadecimal digits, and all else stays as it is.
pub proof fn theorem_escapes(a: Seq<char>, b: Seq<char>, c: char)
    ensures
        escaped(a + b) == escaped(a) + escaped(b),
        c == '"' ==> escaped(seq![c]) == seq!['\\', '"'],
        c == '\\' ==> escaped(seq![c]) == seq!['\\', '\\'],
        c == '\n' ==> escaped(seq![c]) == seq!['\\', 'n'],
        c == '\r' ==> escaped(seq![c]) == seq!['\\', 'r'],
        c == '\t' ==> escaped(seq![c]) == seq!['\\', 't'],
        c == '\u{08}' ==> escaped(seq![c]) == seq!['\\', 'b'],
        c == '\u{0C}' ==> escaped(seq![c]) == seq!['\\', 'f'],
        ({
            let code = c as int;
            let control = 0 <= code < 0x20 || 0x7f <= code < 0xa0;
            let short = code == 0x08 || code == 0x09 || code == 0x0a || code == 0x0c || code
                == 0x0d;
            let low = code % 16;
            let escape = escaped(seq![c]);
            &&& control && !short ==> {
                &&& escape.len() == 6
                &&& escape.take(4) == seq!['\\', 'u', '0', '0']
                &&& escape[4] as int == '0' as int + code / 16
                &&& escape[5] as int == (if low < 10 {
                    '0' as int + low
                } else {
                    'a' as int + low - 10
                })
            }
            &&& !control && c != '"' && c != '\\' ==> escape == seq![c]
        }),
    decreases a.len(),
{
    if a.len() == 0 {
        assert(a + b =~= b);
        assert(escaped(a) + escaped(b) =~= escaped(b));
    } else {
        theorem_escapes(a.drop_first(), b, c);
        assert((a + b).drop_first() =~= a.drop_first() + b);
        assert(escaped(a + b) =~= escaped(a) + escaped(b));
    }
    assert(seq![c].drop_first() =~= Seq::empty());
    assert(escaped(seq![c].drop_first()) =~= Seq::empty());
    assert(escaped(seq![c]) =~= escaped_char(c));
    assert(escaped(seq![c]).take(4) =~= escaped_char(c).take(4));
    if escaped_char(c).len() == 6 {
        assert(escaped_char(c).take(4) =~= seq!['\\', 'u', '0', '0']);
    }
}

} // verus!
