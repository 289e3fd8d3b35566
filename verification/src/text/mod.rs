//! Text as a sequence of characters.
//!
//! Everything the shell decides about paths, URLs, process output and log
//! lines is a statement about characters, so the string operations that those
//! decisions are made of live here: trimming, splitting, searching, decimal
//! numbers and percent-encoding, each with its meaning as a spec function.
use vstd::prelude::*;

pub mod bytes;
pub mod number;
pub mod order;
pub mod percent;
pub mod scan;
pub mod unicode;

verus! {

/// `String::push` appends one character and changes nothing else.
pub assume_specification[ String::push ](s: &mut String, c: char)
    ensures
        final(s)@ == old(s)@.push(c),
;

// ---------------------------------------------------------------------------
// Building and comparing
// ---------------------------------------------------------------------------
/// The characters of `s`, in order.
pub fn chars_of(s: &str) -> (r: Vec<char>)
    ensures
        r@ == s@,
{
    let mut out: Vec<char> = Vec::new();
    for c in it: s.chars()
        invariant
            out@ == s@.take(it.index() as int),
            it.seq() == s@,
    {
        out.push(c);
        proof {
            assert(s@.take(it.index() as int + 1) =~= s@.take(it.index() as int).push(c));
        }
    }
    proof {
        assert(s@.take(s@.len() as int) =~= s@);
    }
    out
}

/// The text made of `chars[from..to]`.
pub fn substring(chars: &Vec<char>, from: usize, to: usize) -> (r: String)
    requires
        from <= to <= chars@.len(),
    ensures
        r@ == chars@.subrange(from as int, to as int),
{
    let mut out = String::new();
    let mut i: usize = from;
    while i < to
        invariant
            from <= i <= to <= chars@.len(),
            out@ == chars@.subrange(from as int, i as int),
        decreases to - i,
    {
        out.push(chars[i]);
        i = i + 1;
        proof {
            assert(chars@.subrange(from as int, i as int) =~= chars@.subrange(
                from as int,
                i as int - 1,
            ).push(chars@[i as int - 1]));
        }
    }
    out
}

/// Whether two texts hold the same characters.
pub fn str_eq(a: &str, b: &str) -> (r: bool)
    ensures
        r == (a@ == b@),
{
    a.to_owned() == b.to_owned()
}

/// `a` followed by `b`.
pub fn cat(a: &str, b: &str) -> (r: String)
    ensures
        r@ == a@ + b@,
{
    let mut out = a.to_owned();
    out.append(b);
    out
}

/// `a`, `b` and `c`, one after the other.
pub fn cat3(a: &str, b: &str, c: &str) -> (r: String)
    ensures
        r@ == a@ + b@ + c@,
{
    let mut out = cat(a, b);
    out.append(c);
    out
}

/// `a`, `b`, `c` and `d`, one after the other.
pub fn cat4(a: &str, b: &str, c: &str, d: &str) -> (r: String)
    ensures
        r@ == a@ + b@ + c@ + d@,
{
    let mut out = cat3(a, b, c);
    out.append(d);
    out
}

/// `a`, `b`, `c`, `d` and `e`, one after the other.
pub fn cat5(a: &str, b: &str, c: &str, d: &str, e: &str) -> (r: String)
    ensures
        r@ == a@ + b@ + c@ + d@ + e@,
{
    let mut out = cat4(a, b, c, d);
    out.append(e);
    out
}

/// Add `more` to `list`.
pub fn extend_list(list: &mut Vec<String>, more: &Vec<String>)
    ensures
        final(list).deep_view() == old(list).deep_view() + more.deep_view(),
{
    let ghost head = list.deep_view();
    let ghost tail = more.deep_view();
    let mut i: usize = 0;
    proof {
        assert(list.deep_view() =~= head + tail.take(0));
    }
    while i < more.len()
        invariant
            i <= more@.len(),
            tail == more.deep_view(),
            list.deep_view() == head + tail.take(i as int),
        decreases more@.len() - i,
    {
        let ghost before = list.deep_view();
        list.push(more[i].clone());
        proof {
            assert(tail[i as int] == more@[i as int]@);
            assert(list.deep_view() =~= before.push(tail[i as int]));
            assert(list.deep_view() =~= head + tail.take(i + 1));
        }
        i = i + 1;
    }
    proof {
        assert(tail.take(i as int) =~= tail);
    }
}

/// Whether `list` holds the text `item`.
pub fn list_contains(list: &Vec<String>, item: &str) -> (r: bool)
    ensures
        r == list.deep_view().contains(item@),
{
    let mut i: usize = 0;
    while i < list.len()
        invariant
            i <= list@.len(),
            forall|j: int| 0 <= j < i ==> list.deep_view()[j] != item@,
        decreases list@.len() - i,
    {
        if str_eq(list[i].as_str(), item) {
            proof {
                assert(list.deep_view()[i as int] == item@);
            }
            return true;
        }
        i = i + 1;
    }
    false
}

// ---------------------------------------------------------------------------
// Trimming
// ---------------------------------------------------------------------------
/// The characters with the Unicode property `White_Space`.
pub open spec fn is_white_space(c: char) -> bool {
    ||| '\u{9}' <= c <= '\u{d}'
    ||| c == ' '
    ||| c == '\u{85}'
    ||| c == '\u{a0}'
    ||| c == '\u{1680}'
    ||| '\u{2000}' <= c <= '\u{200a}'
    ||| c == '\u{2028}'
    ||| c == '\u{2029}'
    ||| c == '\u{202f}'
    ||| c == '\u{205f}'
    ||| c == '\u{3000}'
}

/// Whether `c` is white space.
pub fn white_space(c: char) -> (r: bool)
    ensures
        r == is_white_space(c),
{
    ('\u{9}' <= c && c <= '\u{d}') || c == ' ' || c == '\u{85}' || c == '\u{a0}' || c == '\u{1680}'
        || ('\u{2000}' <= c && c <= '\u{200a}') || c == '\u{2028}' || c == '\u{2029}' || c
        == '\u{202f}' || c == '\u{205f}' || c == '\u{3000}'
}

/// The white-space characters, as a predicate.
pub open spec fn white() -> spec_fn(char) -> bool {
    |c: char| is_white_space(c)
}

/// The one character `x`, as a predicate.
pub open spec fn just(x: char) -> spec_fn(char) -> bool {
    |c: char| c == x
}

/// `s` without its leading run of characters in `drop`.
pub open spec fn strip_start(s: Seq<char>, drop: spec_fn(char) -> bool) -> Seq<char>
    decreases s.len(),
{
    if s.len() > 0 && drop(s[0]) {
        strip_start(s.drop_first(), drop)
    } else {
        s
    }
}

/// `s` without its trailing run of characters in `drop`.
pub open spec fn strip_end(s: Seq<char>, drop: spec_fn(char) -> bool) -> Seq<char>
    decreases s.len(),
{
    if s.len() > 0 && drop(s.last()) {
        strip_end(s.drop_last(), drop)
    } else {
        s
    }
}

/// `s` without leading and trailing white space.
pub open spec fn trimmed(s: Seq<char>) -> Seq<char> {
    strip_end(strip_start(s, white()), white())
}

/// `s` without trailing white space.
pub open spec fn trimmed_end(s: Seq<char>) -> Seq<char> {
    strip_end(s, white())
}

/// Whether `s` holds nothing but white space.
pub open spec fn is_blank(s: Seq<char>) -> bool {
    trimmed(s).len() == 0
}

/// Where the leading run ends is where the stripped text begins.
pub proof fn lemma_strip_start(s: Seq<char>, drop: spec_fn(char) -> bool, i: int)
    requires
        0 <= i <= s.len(),
        forall|j: int| 0 <= j < i ==> drop(#[trigger] s[j]),
        i < s.len() ==> !drop(s[i]),
    ensures
        strip_start(s, drop) == s.subrange(i, s.len() as int),
    decreases i,
{
    if i == 0 {
        assert(s.subrange(0, s.len() as int) =~= s);
    } else {
        let t = s.drop_first();
        assert forall|j: int| 0 <= j < i - 1 implies drop(#[trigger] t[j]) by {
            assert(t[j] == s[j + 1]);
        }
        lemma_strip_start(t, drop, i - 1);
        assert(t.subrange(i - 1, t.len() as int) =~= s.subrange(i, s.len() as int));
    }
}

/// Where the trailing run begins is where the stripped text ends.
pub proof fn lemma_strip_end(s: Seq<char>, drop: spec_fn(char) -> bool, i: int)
    requires
        0 <= i <= s.len(),
        forall|j: int| i <= j < s.len() ==> drop(#[trigger] s[j]),
        i > 0 ==> !drop(s[i - 1]),
    ensures
        strip_end(s, drop) == s.subrange(0, i),
    decreases s.len() - i,
{
    if i == s.len() {
        assert(s.subrange(0, i) =~= s);
    } else {
        let t = s.drop_last();
        assert forall|j: int| i <= j < t.len() implies drop(#[trigger] t[j]) by {
            assert(t[j] == s[j]);
        }
        lemma_strip_end(t, drop, i);
        assert(t.subrange(0, i) =~= s.subrange(0, i));
    }
}

/// `s` without leading and trailing white space.
pub fn trim(s: &str) -> (r: String)
    ensures
        r@ == trimmed(s@),
{
    trim_slice(s).to_owned()
}

/// The part of `s` without leading and trailing white space.
pub fn trim_slice<'a>(s: &'a str) -> (r: &'a str)
    ensures
        r@ == trimmed(s@),
{
    let chars = chars_of(s);
    let n: usize = chars.len();
    let mut from: usize = 0;
    while from < n && white_space(chars[from])
        invariant
            from <= n == chars@.len(),
            forall|j: int| 0 <= j < from ==> white()(#[trigger] chars@[j]),
        decreases n - from,
    {
        from = from + 1;
    }
    let ghost left = chars@.subrange(from as int, n as int);
    proof {
        lemma_strip_start(s@, white(), from as int);
    }
    let mut to: usize = n;
    while from < to && white_space(chars[to - 1])
        invariant
            from <= to <= n == chars@.len(),
            forall|j: int| to <= j < n ==> white()(#[trigger] chars@[j]),
        decreases to,
    {
        to = to - 1;
    }
    proof {
        assert forall|j: int| to - from <= j < left.len() implies white()(#[trigger] left[j]) by {
            assert(left[j] == chars@[j + from]);
        }
        lemma_strip_end(left, white(), to - from);
        assert(left.subrange(0, to - from) =~= chars@.subrange(from as int, to as int));
    }
    s.substring_char(from, to)
}

/// `s` without trailing white space.
pub fn trim_end(s: &str) -> (r: String)
    ensures
        r@ == trimmed_end(s@),
{
    let chars = chars_of(s);
    let n: usize = chars.len();
    let mut to: usize = n;
    while 0 < to && white_space(chars[to - 1])
        invariant
            to <= n == chars@.len(),
            forall|j: int| to <= j < n ==> white()(#[trigger] chars@[j]),
        decreases to,
    {
        to = to - 1;
    }
    proof {
        lemma_strip_end(chars@, white(), to as int);
    }
    substring(&chars, 0, to)
}

/// `s` without its trailing run of `x`.
pub fn trim_end_char(s: &str, x: char) -> (r: String)
    ensures
        r@ == strip_end(s@, just(x)),
{
    let chars = chars_of(s);
    let n: usize = chars.len();
    let mut to: usize = n;
    while 0 < to && chars[to - 1] == x
        invariant
            to <= n == chars@.len(),
            forall|j: int| to <= j < n ==> just(x)(#[trigger] chars@[j]),
        decreases to,
    {
        to = to - 1;
    }
    proof {
        lemma_strip_end(chars@, just(x), to as int);
    }
    substring(&chars, 0, to)
}

/// The trimmed text of an optional value, when there is any.
pub open spec fn non_blank(value: Option<Seq<char>>) -> Option<Seq<char>> {
    match value {
        Some(text) => if trimmed(text).len() > 0 {
            Some(trimmed(text))
        } else {
            None
        },
        None => None,
    }
}

/// The trimmed text of an optional value, when there is any.
pub fn trim_option(value: Option<&str>) -> (r: Option<String>)
    ensures
        r.deep_view() == non_blank(value.deep_view()),
{
    match value {
        Some(text) => {
            let t = trim(text);
            if is_empty(t.as_str()) {
                None
            } else {
                Some(t)
            }
        },
        None => None,
    }
}

/// Whether `s` holds no character.
pub fn is_empty(s: &str) -> (r: bool)
    ensures
        r == (s@.len() == 0),
{
    s.unicode_len() == 0
}

/// An optional text, borrowed.
pub fn borrowed(value: &Option<String>) -> (r: Option<&str>)
    ensures
        r.deep_view() == value.deep_view(),
        r is Some == value is Some,
{
    match value {
        Some(text) => Some(text.as_str()),
        None => None,
    }
}

// ---------------------------------------------------------------------------
// Laws
// ---------------------------------------------------------------------------
/// White space is what separates words and lines, the space and the controls
/// from tab to carriage return among it, and nothing that prints is: no letter,
/// digit or punctuation mark of ASCII.
pub proof fn nothing_that_prints_is_white(c: char)
    ensures
        is_white_space(c) <==> seq![
            '\u{9}',
            '\u{a}',
            '\u{b}',
            '\u{c}',
            '\u{d}',
            '\u{20}',
            '\u{85}',
            '\u{a0}',
            '\u{1680}',
            '\u{2000}',
            '\u{2001}',
            '\u{2002}',
            '\u{2003}',
            '\u{2004}',
            '\u{2005}',
            '\u{2006}',
            '\u{2007}',
            '\u{2008}',
            '\u{2009}',
            '\u{200a}',
            '\u{2028}',
            '\u{2029}',
            '\u{202f}',
            '\u{205f}',
            '\u{3000}',
        ].contains(c),
        '!' <= c <= '~' ==> !is_white_space(c),
{
    let all = seq![
        '\u{9}',
        '\u{a}',
        '\u{b}',
        '\u{c}',
        '\u{d}',
        '\u{20}',
        '\u{85}',
        '\u{a0}',
        '\u{1680}',
        '\u{2000}',
        '\u{2001}',
        '\u{2002}',
        '\u{2003}',
        '\u{2004}',
        '\u{2005}',
        '\u{2006}',
        '\u{2007}',
        '\u{2008}',
        '\u{2009}',
        '\u{200a}',
        '\u{2028}',
        '\u{2029}',
        '\u{202f}',
        '\u{205f}',
        '\u{3000}',
    ];
    if is_white_space(c) {
        let i = if c <= '\u{d}' {
            c as int - 9
        } else if c == ' ' {
            5
        } else if c == '\u{85}' {
            6
        } else if c == '\u{a0}' {
            7
        } else if c == '\u{1680}' {
            8
        } else if c <= '\u{200a}' {
            c as int - 0x2000 + 9
        } else if c == '\u{2028}' {
            20
        } else if c == '\u{2029}' {
            21
        } else if c == '\u{202f}' {
            22
        } else if c == '\u{205f}' {
            23
        } else {
            24
        };
        assert(all[i] == c);
    }
}

/// Stripping takes the longest run off the front and nothing else.
pub proof fn stripping_takes_a_run_off_the_front(s: Seq<char>, drop: spec_fn(char) -> bool)
    ensures
        ({
            let rest = strip_start(s, drop);
            let n = s.len() - rest.len();
            &&& 0 <= n
            &&& rest == s.skip(n)
            &&& forall|i: int| 0 <= i < n ==> drop(#[trigger] s[i])
            &&& rest.len() > 0 ==> !drop(rest[0])
        }),
    decreases s.len(),
{
    if s.len() > 0 && drop(s[0]) {
        let t = s.drop_first();
        stripping_takes_a_run_off_the_front(t, drop);
        let rest = strip_start(s, drop);
        let n = s.len() - rest.len();
        assert(t.skip(n - 1) =~= s.skip(n));
        assert forall|i: int| 0 <= i < n implies drop(#[trigger] s[i]) by {
            if i > 0 {
                assert(drop(t[i - 1]));
            }
        }
    } else {
        assert(s.skip(0) =~= s);
    }
}

/// Stripping takes the longest run off the end and nothing else.
pub proof fn stripping_takes_a_run_off_the_end(s: Seq<char>, drop: spec_fn(char) -> bool)
    ensures
        ({
            let rest = strip_end(s, drop);
            &&& rest.len() <= s.len()
            &&& rest == s.take(rest.len() as int)
            &&& forall|i: int| rest.len() <= i < s.len() ==> drop(#[trigger] s[i])
            &&& rest.len() > 0 ==> !drop(rest.last())
        }),
    decreases s.len(),
{
    if s.len() > 0 && drop(s.last()) {
        let t = s.drop_last();
        stripping_takes_a_run_off_the_end(t, drop);
        let rest = strip_end(s, drop);
        assert(t.take(rest.len() as int) =~= s.take(rest.len() as int));
        assert forall|i: int| rest.len() <= i < s.len() implies drop(#[trigger] s[i]) by {
            if i < t.len() {
                assert(drop(t[i]));
            }
        }
    } else {
        assert(s.take(s.len() as int) =~= s);
    }
}

/// Trimming takes white space off both ends and nothing else: what is left is a
/// piece of the text that neither begins nor ends in white space, and what was
/// before and behind it was white.
pub proof fn trimming_takes_white_space_off_both_ends(s: Seq<char>)
    ensures
        exists|i: int, j: int|
            {
                &&& 0 <= i <= j <= s.len()
                &&& trimmed(s) == #[trigger] s.subrange(i, j)
                &&& forall|k: int| 0 <= k < i ==> is_white_space(#[trigger] s[k])
                &&& forall|k: int| j <= k < s.len() ==> is_white_space(#[trigger] s[k])
                &&& i < j ==> !is_white_space(s[i]) && !is_white_space(s[j - 1])
            },
{
    let front = strip_start(s, white());
    stripping_takes_a_run_off_the_front(s, white());
    stripping_takes_a_run_off_the_end(front, white());
    let i = s.len() - front.len();
    let j = i + trimmed(s).len();
    assert forall|k: int| 0 <= k < i implies is_white_space(#[trigger] s[k]) by {
        assert(white()(s[k]));
    }
    assert forall|k: int| j <= k < s.len() implies is_white_space(#[trigger] s[k]) by {
        assert(s[k] == front[k - i]);
        assert(white()(front[k - i]));
    }
    if i < j {
        assert(trimmed(s)[0] == front[0]);
        assert(s[i] == front[0]);
        assert(s[j - 1] == trimmed(s).last());
    }
    assert(trimmed(s) =~= s.subrange(i, j));
}

/// White space at the ends of a text changes nothing once it is trimmed, and
/// what is trimmed stays as it is when it is trimmed again.
pub proof fn trimming_forgets_the_ends(before: Seq<char>, s: Seq<char>, after: Seq<char>)
    requires
        forall|k: int| 0 <= k < before.len() ==> is_white_space(#[trigger] before[k]),
        forall|k: int| 0 <= k < after.len() ==> is_white_space(#[trigger] after[k]),
        s.len() > 0 ==> !is_white_space(s[0]) && !is_white_space(s.last()),
    ensures
        trimmed(before + s + after) == s,
        trimmed(s) == s,
        trimmed_end(before + s + after) == if s.len() > 0 {
            before + s
        } else {
            Seq::empty()
        },
{
    let all = before + s + after;
    let i = before.len() as int;
    let j = i + s.len();
    if s.len() > 0 {
        assert(all[i] == s[0]);
        assert(all[j - 1] == s.last());
        assert forall|k: int| 0 <= k < i implies white()(#[trigger] all[k]) by {
            assert(all[k] == before[k]);
        }
        lemma_strip_start(all, white(), i);
        let front = all.subrange(i, all.len() as int);
        assert forall|k: int| s.len() <= k < front.len() implies white()(#[trigger] front[k]) by {
            assert(front[k] == after[k - s.len()]);
        }
        assert(front[s.len() - 1] == s.last());
        lemma_strip_end(front, white(), s.len() as int);
        assert(front.subrange(0, s.len() as int) =~= s);
        lemma_strip_start(s, white(), 0);
        assert(s.subrange(0, s.len() as int) =~= s);
        lemma_strip_end(s, white(), s.len() as int);
        assert forall|k: int| j <= k < all.len() implies white()(#[trigger] all[k]) by {
            assert(all[k] == after[k - j]);
        }
        lemma_strip_end(all, white(), j);
        assert(all.subrange(0, j) =~= before + s);
    } else {
        assert forall|k: int| 0 <= k < all.len() implies white()(#[trigger] all[k]) by {
            if k < i {
                assert(all[k] == before[k]);
            } else {
                assert(all[k] == after[k - i]);
            }
        }
        lemma_strip_start(all, white(), all.len() as int);
        lemma_strip_end(all, white(), 0);
        assert(all.subrange(all.len() as int, all.len() as int) =~= s);
        assert(all.subrange(0, 0) =~= s);
        assert(strip_end(s, white()) == s);
    }
}

/// A text is blank exactly where every character of it is white.
pub proof fn a_blank_text_is_all_white(s: Seq<char>)
    ensures
        is_blank(s) <==> forall|i: int| 0 <= i < s.len() ==> is_white_space(#[trigger] s[i]),
{
    trimming_takes_white_space_off_both_ends(s);
    let (i, j) = choose|i: int, j: int|
        {
            &&& 0 <= i <= j <= s.len()
            &&& trimmed(s) == #[trigger] s.subrange(i, j)
            &&& forall|k: int| 0 <= k < i ==> is_white_space(#[trigger] s[k])
            &&& forall|k: int| j <= k < s.len() ==> is_white_space(#[trigger] s[k])
            &&& i < j ==> !is_white_space(s[i]) && !is_white_space(s[j - 1])
        };
    if is_blank(s) {
        assert(i == j);
    }
}

/// An optional text counts exactly where a character of it prints, and counts
/// as itself without the white space around it.
pub proof fn a_blank_value_counts_as_none(value: Option<Seq<char>>)
    ensures
        non_blank(value) is Some <==> value is Some && exists|i: int|
            0 <= i < value->0.len() && !is_white_space(#[trigger] value->0[i]),
        non_blank(value) is Some ==> non_blank(value)->0 == trimmed(value->0),
        non_blank(value) matches Some(text) ==> text.len() > 0,
{
    if let Some(text) = value {
        a_blank_text_is_all_white(text);
    }
}

} // verus!
