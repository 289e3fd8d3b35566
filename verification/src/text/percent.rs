//! Percent-encoding of one URL component.
use vstd::prelude::*;

verus! {

/// The bytes that stand for themselves: ASCII letters and digits, and
/// `-`, `_`, `.`, `!`, `~`, `*`, `'`, `(` and `)`.
pub open spec fn is_plain(b: u8) -> bool {
    ||| 0x30 <= b <= 0x39
    ||| 0x41 <= b <= 0x5a
    ||| 0x61 <= b <= 0x7a
    ||| b == 0x2d
    ||| b == 0x5f
    ||| b == 0x2e
    ||| b == 0x21
    ||| b == 0x7e
    ||| b == 0x2a
    ||| b == 0x27
    ||| b == 0x28
    ||| b == 0x29
}

/// The upper-case hexadecimal digit with the value `n`.
pub open spec fn hex_digit(n: int) -> char {
    if n < 10 {
        (0x30 + n) as char
    } else {
        (0x41 + n - 10) as char
    }
}

/// How one byte is written.
pub open spec fn encoded_byte(b: u8) -> Seq<char> {
    if is_plain(b) {
        seq![b as char]
    } else {
        seq!['%', hex_digit(b as int / 16), hex_digit(b as int % 16)]
    }
}

/// How a sequence of bytes is written.
pub open spec fn encoded(bytes: Seq<u8>) -> Seq<char>
    decreases bytes.len(),
{
    if bytes.len() == 0 {
        Seq::empty()
    } else {
        encoded_byte(bytes[0]) + encoded(bytes.drop_first())
    }
}

/// A text as one URL component: its UTF-8 bytes, percent-encoded.
pub open spec fn component(s: Seq<char>) -> Seq<char> {
    encoded(vstd::utf8::encode_utf8(s))
}

fn plain(b: u8) -> (r: bool)
    ensures
        r == is_plain(b),
{
    (0x30 <= b && b <= 0x39) || (0x41 <= b && b <= 0x5a) || (0x61 <= b && b <= 0x7a) || b == 0x2d
        || b == 0x5f || b == 0x2e || b == 0x21 || b == 0x7e || b == 0x2a || b == 0x27 || b == 0x28
        || b == 0x29
}

fn hex(n: u8) -> (r: char)
    requires
        n < 16,
    ensures
        r == hex_digit(n as int),
{
    if n < 10 {
        (0x30 + n) as char
    } else {
        (0x41 + (n - 10)) as char
    }
}

/// `value` as one URL component.
pub fn encode_component(value: &str) -> (r: String)
    ensures
        r@ == component(value@),
{
    let bytes = value.as_bytes();
    let mut out = String::new();
    let mut i: usize = 0;
    proof {
        assert(bytes@.skip(0) =~= bytes@);
        assert(out@ + encoded(bytes@) =~= encoded(bytes@));
    }
    while i < bytes.len()
        invariant
            i <= bytes@.len(),
            out@ + encoded(bytes@.skip(i as int)) == encoded(bytes@),
        decreases bytes@.len() - i,
    {
        let b = bytes[i];
        let ghost before = out@;
        if plain(b) {
            out.push(b as char);
        } else {
            out.push('%');
            out.push(hex(b / 16));
            out.push(hex(b % 16));
        }
        proof {
            let rest = bytes@.skip(i as int);
            assert(rest.drop_first() =~= bytes@.skip(i + 1));
            assert(out@ =~= before + encoded_byte(b));
            assert(out@ + encoded(bytes@.skip(i + 1)) =~= before + encoded(rest));
        }
        i = i + 1;
    }
    proof {
        assert(bytes@.skip(i as int) =~= Seq::<u8>::empty());
        assert(out@ + encoded(Seq::empty()) =~= out@);
    }
    out
}

/// The value of a hexadecimal digit.
pub open spec fn hex_value(c: char) -> int {
    if c <= '9' {
        c as int - 0x30
    } else {
        c as int - 0x41 + 10
    }
}

/// The bytes that a percent-encoded text stands for.
pub open spec fn decoded(s: Seq<char>) -> Seq<u8>
    decreases s.len(),
{
    if s.len() == 0 {
        Seq::empty()
    } else if s[0] == '%' && s.len() >= 3 {
        seq![(hex_value(s[1]) * 16 + hex_value(s[2])) as u8] + decoded(
            s.subrange(3, s.len() as int),
        )
    } else {
        seq![s[0] as u8] + decoded(s.drop_first())
    }
}

proof fn lemma_decoded(bytes: Seq<u8>)
    ensures
        decoded(encoded(bytes)) == bytes,
    decreases bytes.len(),
{
    if bytes.len() > 0 {
        let b = bytes[0];
        let rest = bytes.drop_first();
        let s = encoded(bytes);
        lemma_decoded(rest);
        if is_plain(b) {
            assert(s[0] == b as char);
            assert(s.drop_first() =~= encoded(rest));
        } else {
            assert(s[0] == '%');
            assert(s[1] == hex_digit(b as int / 16));
            assert(s[2] == hex_digit(b as int % 16));
            assert(s.subrange(3, s.len() as int) =~= encoded(rest));
            assert(hex_value(hex_digit(b as int / 16)) == b as int / 16);
            assert(hex_value(hex_digit(b as int % 16)) == b as int % 16);
        }
        assert(decoded(s) =~= bytes);
    }
}

/// Encoding is undone by decoding: nothing of a text is lost in a URL, so two
/// different texts are never written alike.
pub proof fn encoding_is_undone(s: Seq<char>)
    ensures
        decoded(component(s)) == vstd::utf8::encode_utf8(s),
        vstd::utf8::decode_utf8(decoded(component(s))) == s,
{
    lemma_decoded(vstd::utf8::encode_utf8(s));
    vstd::utf8::encode_utf8_decode_utf8(s);
}

/// Whether `c` may stand in a percent-encoded component.
pub open spec fn is_component_char(c: char) -> bool {
    c == '%' || (c <= '\u{7f}' && is_plain(c as u8))
}

proof fn lemma_component_chars(bytes: Seq<u8>)
    ensures
        forall|i: int| 0 <= i < encoded(bytes).len() ==> is_component_char(#[trigger] encoded(bytes)[i]),
    decreases bytes.len(),
{
    if bytes.len() > 0 {
        let rest = bytes.drop_first();
        let head = encoded_byte(bytes[0]);
        let s = encoded(bytes);
        lemma_component_chars(rest);
        assert forall|i: int| 0 <= i < s.len() implies is_component_char(#[trigger] s[i]) by {
            if i < head.len() {
                assert(s[i] == head[i]);
            } else {
                assert(s[i] == encoded(rest)[i - head.len()]);
            }
        }
    }
}

/// An encoded component holds no character that means something to a URL: it is
/// made of plain characters and percent signs alone.
pub proof fn a_component_has_no_delimiters(s: Seq<char>)
    ensures
        forall|i: int| 0 <= i < component(s).len() ==> is_component_char(#[trigger] component(s)[i]),
        !component(s).contains('/'),
        !component(s).contains('#'),
        !component(s).contains('?'),
        !component(s).contains('&'),
        !component(s).contains('='),
{
    lemma_component_chars(vstd::utf8::encode_utf8(s));
}

proof fn lemma_plain_bytes(bytes: Seq<u8>)
    requires
        forall|i: int| 0 <= i < bytes.len() ==> is_plain(#[trigger] bytes[i]),
    ensures
        encoded(bytes) == Seq::new(bytes.len(), |i: int| bytes[i] as char),
    decreases bytes.len(),
{
    let whole = Seq::new(bytes.len(), |i: int| bytes[i] as char);
    if bytes.len() > 0 {
        let rest = bytes.drop_first();
        assert forall|i: int| 0 <= i < rest.len() implies is_plain(#[trigger] rest[i]) by {
            assert(rest[i] == bytes[i + 1]);
        }
        lemma_plain_bytes(rest);
        assert(encoded(bytes) =~= whole);
    } else {
        assert(encoded(bytes) =~= whole);
    }
}

proof fn lemma_no_char_below_zero(c: char)
    ensures
        '\0' <= c,
{
}

/// A text of plain characters is written as it is.
pub proof fn plain_text_is_left_alone(s: Seq<char>)
    requires
        forall|i: int|
            0 <= i < s.len() ==> #[trigger] s[i] <= '\u{7f}' && is_plain(s[i] as u8),
    ensures
        component(s) == s,
{
    let bytes = vstd::utf8::encode_utf8(s);
    assert forall|i: int| 0 <= i < s.len() implies '\0' <= #[trigger] s[i] <= '\u{7f}' by {
        lemma_no_char_below_zero(s[i]);
    }
    vstd::utf8::is_ascii_chars_encode_utf8(s);
    assert forall|i: int| 0 <= i < bytes.len() implies is_plain(#[trigger] bytes[i]) by {
        assert(bytes[i] == s[i] as u8);
    }
    lemma_plain_bytes(bytes);
    assert forall|i: int| 0 <= i < s.len() implies component(s)[i] == s[i] by {
        assert(s[i] <= '\u{7f}');
        assert(bytes[i] == s[i] as u8);
    }
    assert(component(s) =~= s);
}

/// What stands for itself in a component are the letters, the digits and nine
/// marks; every other byte is a percent sign and its two hexadecimal digits, in
/// upper case.
pub proof fn every_other_byte_is_escaped(b: u8)
    ensures
        is_plain(b) <==> "ABCDEFGHIJKLMNOPQRSTUVWXYZabcdefghijklmnopqrstuvwxyz0123456789-_.!~*'()"@.contains(
            b as char,
        ),
        !is_plain(b) ==> encoded_byte(b) == seq![
            '%',
            "0123456789ABCDEF"@[b as int / 16],
            "0123456789ABCDEF"@[b as int % 16],
        ],
        is_plain(b) ==> encoded_byte(b) == seq![b as char],
{
    reveal_strlit("ABCDEFGHIJKLMNOPQRSTUVWXYZabcdefghijklmnopqrstuvwxyz0123456789-_.!~*'()");
    reveal_strlit("0123456789ABCDEF");
    let plain = "ABCDEFGHIJKLMNOPQRSTUVWXYZabcdefghijklmnopqrstuvwxyz0123456789-_.!~*'()"@;
    if is_plain(b) {
        let i = if 0x41 <= b <= 0x5a {
            b - 0x41
        } else if 0x61 <= b <= 0x7a {
            b - 0x61 + 26
        } else if 0x30 <= b <= 0x39 {
            b - 0x30 + 52
        } else if b == 0x2d {
            62
        } else if b == 0x5f {
            63
        } else if b == 0x2e {
            64
        } else if b == 0x21 {
            65
        } else if b == 0x7e {
            66
        } else if b == 0x2a {
            67
        } else if b == 0x27 {
            68
        } else if b == 0x28 {
            69
        } else {
            70
        };
        assert(plain[i] == b as char);
    }
}

/// A component is written byte by byte: of two texts one after the other, the
/// second is written behind the first.
pub proof fn a_component_is_written_byte_by_byte(first: Seq<u8>, second: Seq<u8>)
    ensures
        encoded(first + second) == encoded(first) + encoded(second),
        encoded(Seq::empty()).len() == 0,
        first.len() == 1 ==> encoded(first) == encoded_byte(first[0]),
    decreases first.len(),
{
    let all = first + second;
    if first.len() == 0 {
        assert(all =~= second);
        assert(encoded(all) =~= encoded(first) + encoded(second));
    } else {
        a_component_is_written_byte_by_byte(first.drop_first(), second);
        assert(all.drop_first() =~= first.drop_first() + second);
        assert(encoded(all) =~= encoded(first) + encoded(second));
        if first.len() == 1 {
            assert(first.drop_first() =~= Seq::<u8>::empty());
            assert(encoded(first) =~= encoded_byte(first[0]));
        }
    }
}

} // verus!
