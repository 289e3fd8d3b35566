//! How much room a text takes as UTF-8, and its tail within such a bound where
//! the bound leaves room for a character.
use super::{chars_of, substring};
use vstd::prelude::*;

verus! {

/// The number of bytes of `c` as UTF-8.
pub open spec fn width(c: char) -> nat {
    if c <= '\u{7f}' {
        1
    } else if c <= '\u{7ff}' {
        2
    } else if c <= '\u{ffff}' {
        3
    } else {
        4
    }
}

/// The number of bytes of `s` as UTF-8.
pub open spec fn byte_len(s: Seq<char>) -> nat
    decreases s.len(),
{
    if s.len() == 0 {
        0
    } else {
        byte_len(s.drop_last()) + width(s.last())
    }
}

/// The first position at `i` or later whose byte offset is `from` or more, or
/// 0 where no character starts there.
pub open spec fn tail_index(s: Seq<char>, from: int, i: int) -> int
    decreases s.len() - i,
{
    if i < 0 || i >= s.len() {
        0
    } else if byte_len(s.take(i)) >= from {
        i
    } else {
        tail_index(s, from, i + 1)
    }
}

/// The text from the first character whose byte offset is `from` or more; the
/// whole text where there is none.
pub open spec fn tail(s: Seq<char>, from: int) -> Seq<char> {
    s.skip(tail_index(s, from, 0))
}

/// The last `limit` bytes of `s`, without a character that begins before them.
/// Where not even the last character begins within them, it is all of `s`.
pub open spec fn last_bytes(s: Seq<char>, limit: int) -> Seq<char> {
    tail(
        s,
        if byte_len(s) > limit {
            byte_len(s) - limit
        } else {
            0
        },
    )
}

proof fn lemma_take(s: Seq<char>, i: int)
    requires
        0 <= i < s.len(),
    ensures
        byte_len(s.take(i + 1)) == byte_len(s.take(i)) + width(s[i]),
{
    assert(s.take(i + 1).drop_last() =~= s.take(i));
}

proof fn lemma_bound(s: Seq<char>)
    ensures
        s.len() <= byte_len(s) <= 4 * s.len(),
    decreases s.len(),
{
    if s.len() > 0 {
        lemma_bound(s.drop_last());
    }
}

proof fn lemma_split(s: Seq<char>, i: int)
    requires
        0 <= i <= s.len(),
    ensures
        byte_len(s) == byte_len(s.take(i)) + byte_len(s.skip(i)),
    decreases s.len() - i,
{
    if i == s.len() {
        assert(s.take(i) =~= s);
        assert(s.skip(i) =~= Seq::<char>::empty());
    } else {
        lemma_split(s.drop_last(), i);
        assert(s.drop_last().take(i) =~= s.take(i));
        assert(s.drop_last().skip(i) =~= s.skip(i).drop_last());
    }
}

fn char_width(c: char) -> (r: u128)
    ensures
        r == width(c),
{
    if c <= '\u{7f}' {
        1
    } else if c <= '\u{7ff}' {
        2
    } else if c <= '\u{ffff}' {
        3
    } else {
        4
    }
}

/// The number of bytes of `chars` as UTF-8.
pub fn measure(chars: &Vec<char>) -> (r: u128)
    ensures
        r == byte_len(chars@),
{
    let n: usize = chars.len();
    let mut total: u128 = 0;
    let mut i: usize = 0;
    proof {
        assert(chars@.take(0) =~= Seq::<char>::empty());
    }
    while i < n
        invariant
            i <= n == chars@.len(),
            total == byte_len(chars@.take(i as int)),
            total <= 4 * i,
        decreases n - i,
    {
        proof {
            lemma_take(chars@, i as int);
        }
        total = total + char_width(chars[i]);
        i = i + 1;
    }
    proof {
        assert(chars@.take(i as int) =~= chars@);
    }
    total
}

/// The text from the first character whose byte offset is `from` or more; the
/// whole text where there is none.
pub fn tail_from(chars: &Vec<char>, from: u128) -> (r: String)
    ensures
        r@ == tail(chars@, from as int),
{
    let n: usize = chars.len();
    let mut offset: u128 = 0;
    let mut i: usize = 0;
    proof {
        assert(chars@.take(0) =~= Seq::<char>::empty());
    }
    while i < n
        invariant
            i <= n == chars@.len(),
            offset == byte_len(chars@.take(i as int)),
            offset <= 4 * i,
            tail_index(chars@, from as int, 0) == tail_index(chars@, from as int, i as int),
        decreases n - i,
    {
        if offset >= from {
            return substring(chars, i, n);
        }
        proof {
            lemma_take(chars@, i as int);
        }
        offset = offset + char_width(chars[i]);
        i = i + 1;
    }
    substring(chars, 0, n)
}

/// The last `limit` bytes of `s`, without a character that begins before them.
/// Where not even the last character begins within them, it is all of `s`.
pub fn keep_last_bytes(s: &str, limit: u128) -> (r: String)
    ensures
        r@ == last_bytes(s@, limit as int),
{
    let chars = chars_of(s);
    let total = measure(&chars);
    let from: u128 = if total > limit {
        total - limit
    } else {
        0
    };
    tail_from(&chars, from)
}

proof fn lemma_tail_index(s: Seq<char>, from: int, i: int)
    requires
        0 <= i < s.len(),
        byte_len(s.take(s.len() - 1)) >= from,
    ensures
        i <= tail_index(s, from, i) < s.len(),
        byte_len(s.take(tail_index(s, from, i))) >= from,
    decreases s.len() - i,
{
    if byte_len(s.take(i)) < from {
        lemma_tail_index(s, from, i + 1);
    }
}

/// What is kept of a text is its end, and it fits the bound, where the bound
/// leaves room for the last character.
pub proof fn the_tail_fits(s: Seq<char>, limit: int)
    requires
        0 <= limit,
        s.len() > 0 ==> width(s.last()) <= limit,
    ensures
        byte_len(last_bytes(s, limit)) <= limit,
        last_bytes(s, limit).is_suffix_of(s),
        byte_len(s) <= limit ==> last_bytes(s, limit) == s,
{
    lemma_bound(s);
    if byte_len(s) <= limit {
        if s.len() > 0 {
            assert(s.take(0) =~= Seq::<char>::empty());
        }
        assert(tail_index(s, 0, 0) == 0);
        assert(s.skip(0) =~= s);
    } else {
        let from = byte_len(s) - limit;
        let last = s.len() - 1;
        lemma_take(s, last);
        assert(s.take(last + 1) =~= s);
        lemma_tail_index(s, from, 0);
        lemma_split(s, tail_index(s, from, 0));
    }
}

proof fn lemma_no_tail_index(s: Seq<char>, from: int, i: int)
    requires
        0 <= i <= s.len(),
        s.len() > 0 ==> byte_len(s.take(s.len() - 1)) < from,
    ensures
        tail_index(s, from, i) == 0,
    decreases s.len() - i,
{
    if i < s.len() {
        lemma_split(s.take(s.len() - 1), i);
        assert(s.take(s.len() - 1).take(i) =~= s.take(i));
        lemma_no_tail_index(s, from, i + 1);
    }
}

/// A text whose last character is wider than the bound is kept whole.
pub proof fn a_bound_below_the_last_character_keeps_all(s: Seq<char>, limit: int)
    requires
        s.len() > 0,
        width(s.last()) > limit,
    ensures
        last_bytes(s, limit) == s,
{
    let last = s.len() - 1;
    lemma_take(s, last);
    assert(s.take(last + 1) =~= s);
    lemma_no_tail_index(s, byte_len(s) - limit, 0);
    assert(s.skip(0) =~= s);
}

/// The room that a text takes is the number of bytes that encode it.
pub proof fn a_text_is_as_long_as_its_encoding(s: Seq<char>)
    ensures
        byte_len(s) == vstd::utf8::encode_utf8(s).len(),
    decreases s.len(),
{
    if s.len() > 0 {
        a_text_is_as_long_as_its_encoding(s.drop_first());
        lemma_split(s, 1);
        assert(s.skip(1) =~= s.drop_first());
        assert(s.take(1).drop_last() =~= Seq::<char>::empty());
        assert(s.take(1).last() == s[0]);
        assert(byte_len(s.take(1).drop_last()) == 0);
        lemma_width(s[0]);
    }
}

proof fn lemma_width(c: char)
    ensures
        width(c) == vstd::utf8::encode_scalar(c as u32).len(),
{
}

/// No more is cut off than the bound asks for: any longer end of the text is
/// over it.
pub proof fn the_tail_is_the_longest_that_fits(s: Seq<char>, limit: int, i: int)
    requires
        0 <= i < s.len() - last_bytes(s, limit).len(),
    ensures
        byte_len(s.skip(i)) > limit,
{
    lemma_split(s, i);
    let from = if byte_len(s) > limit {
        byte_len(s) - limit
    } else {
        0
    };
    lemma_before_tail(s, from, 0);
}

proof fn lemma_before_tail(s: Seq<char>, from: int, at: int)
    requires
        0 <= at,
    ensures
        tail_index(s, from, at) <= s.len(),
        0 <= tail_index(s, from, at),
        forall|i: int| at <= i < tail_index(s, from, at) ==> byte_len(#[trigger] s.take(i)) < from,
    decreases s.len() - at,
{
    if at < s.len() && byte_len(s.take(at)) < from {
        lemma_before_tail(s, from, at + 1);
    }
}

} // verus!
