//! Splitting, joining and searching.
use super::{chars_of, substring};
use vstd::prelude::*;

verus! {

// ---------------------------------------------------------------------------
// Splitting at one character
// ---------------------------------------------------------------------------
/// The first position of `c` in `s`, or the length of `s`.
pub open spec fn first_index(s: Seq<char>, c: char) -> nat
    decreases s.len(),
{
    if s.len() == 0 || s[0] == c {
        0
    } else {
        1 + first_index(s.drop_first(), c)
    }
}

/// The pieces of `s` between the occurrences of `c`: always one more than
/// there are occurrences.
pub open spec fn split(s: Seq<char>, c: char) -> Seq<Seq<char>>
    decreases s.len(),
{
    let n = first_index(s, c) as int;
    if n >= s.len() {
        seq![s]
    } else {
        seq![s.subrange(0, n)] + split(s.subrange(n + 1, s.len() as int), c)
    }
}

/// `parts` one after the other with `sep` between neighbours.
pub open spec fn join(parts: Seq<Seq<char>>, sep: Seq<char>) -> Seq<char>
    decreases parts.len(),
{
    if parts.len() == 0 {
        Seq::empty()
    } else if parts.len() == 1 {
        parts[0]
    } else {
        parts[0] + sep + join(parts.drop_first(), sep)
    }
}

/// A position that no earlier `c` precedes is the first one.
pub proof fn lemma_first_index(s: Seq<char>, c: char, n: int)
    requires
        0 <= n <= s.len(),
        forall|j: int| 0 <= j < n ==> s[j] != c,
        n < s.len() ==> s[n] == c,
    ensures
        first_index(s, c) == n,
    decreases n,
{
    if n > 0 {
        let t = s.drop_first();
        assert forall|j: int| 0 <= j < n - 1 implies t[j] != c by {
            assert(t[j] == s[j + 1]);
        }
        lemma_first_index(t, c, n - 1);
    }
}

/// What `first_index` finds is a first position.
pub proof fn lemma_first_index_is_first(s: Seq<char>, c: char)
    ensures
        first_index(s, c) <= s.len(),
        first_index(s, c) < s.len() ==> s[first_index(s, c) as int] == c,
        forall|j: int| 0 <= j < first_index(s, c) ==> s[j] != c,
    decreases s.len(),
{
    if s.len() > 0 && s[0] != c {
        let t = s.drop_first();
        lemma_first_index_is_first(t, c);
        assert forall|j: int| 0 <= j < first_index(s, c) implies s[j] != c by {
            if j > 0 {
                assert(s[j] == t[j - 1]);
            }
        }
    }
}

/// The pieces of `s` between the occurrences of `c`.
pub fn split_text(s: &str, c: char) -> (r: Vec<String>)
    ensures
        r.deep_view() == split(s@, c),
{
    let chars = chars_of(s);
    let n: usize = chars.len();
    let mut out: Vec<String> = Vec::new();
    let mut start: usize = 0;
    let mut i: usize = 0;
    proof {
        assert(chars@.subrange(0, n as int) =~= s@);
        assert(out.deep_view() + split(s@, c) =~= split(s@, c));
    }
    while i < n
        invariant
            start <= i <= n == chars@.len(),
            out.deep_view() + split(chars@.subrange(start as int, n as int), c) == split(s@, c),
            forall|j: int| start <= j < i ==> chars@[j] != c,
        decreases n - i,
    {
        if chars[i] == c {
            let piece = substring(&chars, start, i);
            let ghost before = out.deep_view();
            out.push(piece);
            proof {
                let rest = chars@.subrange(start as int, n as int);
                lemma_first_index(rest, c, i - start);
                assert(rest.subrange(0, i - start) =~= chars@.subrange(start as int, i as int));
                assert(rest.subrange(i - start + 1, rest.len() as int) =~= chars@.subrange(
                    i + 1,
                    n as int,
                ));
                assert(out.deep_view() =~= before.push(piece@));
                assert(out.deep_view() + split(chars@.subrange(i + 1, n as int), c) =~= before
                    + split(rest, c));
            }
            start = i + 1;
        }
        i = i + 1;
    }
    let piece = substring(&chars, start, n);
    let ghost before = out.deep_view();
    out.push(piece);
    proof {
        let rest = chars@.subrange(start as int, n as int);
        assert forall|j: int| 0 <= j < rest.len() implies rest[j] != c by {
            assert(rest[j] == chars@[j + start]);
        }
        lemma_first_index(rest, c, rest.len() as int);
        assert(out.deep_view() =~= before + split(rest, c));
    }
    out
}

/// `parts` one after the other with `sep` between neighbours.
pub fn join_text(parts: &Vec<String>, sep: &str) -> (r: String)
    ensures
        r@ == join(parts.deep_view(), sep@),
{
    let ghost all = parts.deep_view();
    if parts.len() == 0 {
        return String::new();
    }
    let mut out = parts[0].clone();
    let mut i: usize = 1;
    proof {
        assert(all.skip(0) =~= all);
        assert(all.skip(1) =~= all.drop_first());
        assert(all[0] == parts@[0]@);
    }
    while i < parts.len()
        invariant
            1 <= i <= parts@.len(),
            all == parts.deep_view(),
            join(all, sep@) == if i < all.len() {
                out@ + sep@ + join(all.skip(i as int), sep@)
            } else {
                out@
            },
        decreases parts@.len() - i,
    {
        let ghost before = out@;
        out.append(sep);
        out.append(parts[i].as_str());
        proof {
            let rest = all.skip(i as int);
            assert(rest[0] == parts@[i as int]@);
            assert(rest.drop_first() =~= all.skip(i + 1));
            if i + 1 < all.len() {
                assert(out@ + sep@ + join(all.skip(i + 1), sep@) =~= before + sep@ + join(rest, sep@));
            } else {
                assert(out@ =~= before + sep@ + join(rest, sep@));
            }
        }
        i = i + 1;
    }
    out
}

/// Splitting undoes joining: pieces without the separator come back as they
/// were, in order.
pub proof fn split_undoes_join(parts: Seq<Seq<char>>, c: char)
    requires
        parts.len() > 0,
        forall|i: int| 0 <= i < parts.len() ==> !(#[trigger] parts[i]).contains(c),
    ensures
        split(join(parts, seq![c]), c) == parts,
    decreases parts.len(),
{
    let s = join(parts, seq![c]);
    let head = parts[0];
    assert(!head.contains(c));
    if parts.len() == 1 {
        assert forall|j: int| 0 <= j < s.len() implies s[j] != c by {
            assert(head.contains(head[j]));
        }
        lemma_first_index(s, c, s.len() as int);
        assert(split(s, c) =~= parts);
    } else {
        let tail = parts.drop_first();
        assert forall|i: int| 0 <= i < tail.len() implies !(#[trigger] tail[i]).contains(c) by {
            assert(tail[i] == parts[i + 1]);
        }
        split_undoes_join(tail, c);
        let n = head.len() as int;
        assert forall|j: int| 0 <= j < n implies s[j] != c by {
            assert(head.contains(head[j]));
            assert(s[j] == head[j]);
        }
        assert(s[n] == c);
        lemma_first_index(s, c, n);
        assert(s.subrange(0, n) =~= head);
        assert(s.subrange(n + 1, s.len() as int) =~= join(tail, seq![c]));
        assert(split(s, c) =~= parts);
    }
}

// ---------------------------------------------------------------------------
// Lines
// ---------------------------------------------------------------------------
/// `line` without one carriage return at its end.
pub open spec fn without_return(line: Seq<char>) -> Seq<char> {
    if line.len() > 0 && line.last() == '\r' {
        line.drop_last()
    } else {
        line
    }
}

/// The lines of `s`: a line ends at a line feed, which a carriage return may
/// precede, and what follows the last line feed is a line if there is any.
pub open spec fn lines(s: Seq<char>) -> Seq<Seq<char>>
    decreases s.len(),
{
    if s.len() == 0 {
        Seq::empty()
    } else {
        let n = first_index(s, '\n') as int;
        if n >= s.len() {
            seq![s]
        } else {
            seq![without_return(s.subrange(0, n))] + lines(s.subrange(n + 1, s.len() as int))
        }
    }
}

/// The position behind the last line feed of `s`, or its start.
pub open spec fn end_of_last_line(s: Seq<char>) -> int
    decreases s.len(),
{
    if s.len() == 0 {
        0
    } else if s.last() == '\n' {
        s.len() as int
    } else {
        end_of_last_line(s.drop_last())
    }
}

/// Up to the last line feed there are whole lines, and behind it there is no
/// further line feed.
pub proof fn lemma_end_of_last_line(s: Seq<char>)
    ensures
        0 <= end_of_last_line(s) <= s.len(),
        end_of_last_line(s) > 0 ==> s[end_of_last_line(s) - 1] == '\n',
        forall|i: int| end_of_last_line(s) <= i < s.len() ==> s[i] != '\n',
    decreases s.len(),
{
    if s.len() > 0 && s.last() != '\n' {
        let front = s.drop_last();
        lemma_end_of_last_line(front);
        assert forall|i: int| end_of_last_line(s) <= i < s.len() implies s[i] != '\n' by {
            if i < front.len() {
                assert(s[i] == front[i]);
            }
        }
    }
}

/// The position behind the last line feed of `s`.
pub fn last_line_end(s: &Vec<char>) -> (r: usize)
    ensures
        r == end_of_last_line(s@),
{
    let mut n: usize = s.len();
    proof {
        assert(s@.take(n as int) =~= s@);
    }
    while n > 0
        invariant
            n <= s@.len(),
            end_of_last_line(s@) == end_of_last_line(s@.take(n as int)),
        decreases n,
    {
        if s[n - 1] == '\n' {
            return n;
        }
        proof {
            assert(s@.take(n as int).drop_last() =~= s@.take(n - 1));
        }
        n = n - 1;
    }
    0
}

/// Lines follow each other: where a text is cut behind a line feed, its lines
/// are those of the first part and then those of the second.
pub proof fn lines_of_parts(first: Seq<char>, second: Seq<char>)
    requires
        first.len() == 0 || first.last() == '\n',
    ensures
        lines(first + second) == lines(first) + lines(second),
    decreases first.len(),
{
    let all = first + second;
    if first.len() == 0 {
        assert(all =~= second);
        assert(lines(all) =~= lines(first) + lines(second));
    } else {
        lemma_first_index_is_first(first, '\n');
        let n = first_index(first, '\n') as int;
        if n >= first.len() {
            assert(first[first.len() - 1] != '\n');
        }
        assert forall|j: int| 0 <= j < n implies all[j] != '\n' by {
            assert(all[j] == first[j]);
        }
        lemma_first_index(all, '\n', n);
        let rest = first.subrange(n + 1, first.len() as int);
        assert(all.subrange(0, n) =~= first.subrange(0, n));
        assert(all.subrange(n + 1, all.len() as int) =~= rest + second);
        lines_of_parts(rest, second);
        assert(lines(all) =~= lines(first) + lines(second));
    }
}

/// The lines of `s`.
pub fn split_lines(s: &str) -> (r: Vec<String>)
    ensures
        r.deep_view() == lines(s@),
{
    let chars = chars_of(s);
    let n: usize = chars.len();
    let mut out: Vec<String> = Vec::new();
    let mut start: usize = 0;
    let mut i: usize = 0;
    proof {
        assert(chars@.subrange(0, n as int) =~= s@);
        assert(out.deep_view() + lines(s@) =~= lines(s@));
    }
    while i < n
        invariant
            start <= i <= n == chars@.len(),
            out.deep_view() + lines(chars@.subrange(start as int, n as int)) == lines(s@),
            forall|j: int| start <= j < i ==> chars@[j] != '\n',
        decreases n - i,
    {
        if chars[i] == '\n' {
            let end: usize = if i > start && chars[i - 1] == '\r' {
                i - 1
            } else {
                i
            };
            let piece = substring(&chars, start, end);
            let ghost before = out.deep_view();
            out.push(piece);
            proof {
                let rest = chars@.subrange(start as int, n as int);
                lemma_first_index(rest, '\n', i - start);
                let line = rest.subrange(0, i - start);
                assert(without_return(line) =~= chars@.subrange(start as int, end as int));
                assert(rest.subrange(i - start + 1, rest.len() as int) =~= chars@.subrange(
                    i + 1,
                    n as int,
                ));
                assert(out.deep_view() =~= before.push(piece@));
                assert(out.deep_view() + lines(chars@.subrange(i + 1, n as int)) =~= before
                    + lines(rest));
            }
            start = i + 1;
        }
        i = i + 1;
    }
    let ghost before = out.deep_view();
    let ghost rest = chars@.subrange(start as int, n as int);
    if start < n {
        let piece = substring(&chars, start, n);
        out.push(piece);
        proof {
            assert forall|j: int| 0 <= j < rest.len() implies rest[j] != '\n' by {
                assert(rest[j] == chars@[j + start]);
            }
            lemma_first_index(rest, '\n', rest.len() as int);
            assert(out.deep_view() =~= before + lines(rest));
        }
    } else {
        proof {
            assert(out.deep_view() =~= before + lines(rest));
        }
    }
    out
}

// ---------------------------------------------------------------------------
// Searching
// ---------------------------------------------------------------------------
/// Whether `p` stands in `s` at position `i`.
pub open spec fn occurs_at(s: Seq<char>, p: Seq<char>, i: int) -> bool {
    0 <= i && i + p.len() <= s.len() && s.subrange(i, i + p.len()) == p
}

/// Whether `p` stands anywhere in `s`.
pub open spec fn occurs(s: Seq<char>, p: Seq<char>) -> bool {
    exists|i: int| occurs_at(s, p, i)
}

/// Whether `p` stands in `s` at position `i`.
pub fn stands_at(s: &Vec<char>, p: &Vec<char>, i: usize) -> (r: bool)
    ensures
        r == occurs_at(s@, p@, i as int),
{
    let n: usize = s.len();
    if i > n || n - i < p.len() {
        return false;
    }
    let mut k: usize = 0;
    while k < p.len()
        invariant
            k <= p@.len(),
            i + p@.len() <= n == s@.len(),
            forall|j: int| 0 <= j < k ==> s@[i + j] == p@[j],
        decreases p@.len() - k,
    {
        if s[i + k] != p[k] {
            proof {
                assert(s@.subrange(i as int, i + p@.len())[k as int] == s@[i + k]);
            }
            return false;
        }
        k = k + 1;
    }
    proof {
        assert(s@.subrange(i as int, i + p@.len()) =~= p@);
    }
    true
}

/// Whether `s` begins with `p`.
pub fn starts_with(s: &str, p: &str) -> (r: bool)
    ensures
        r == occurs_at(s@, p@, 0),
{
    let sc = chars_of(s);
    let pc = chars_of(p);
    stands_at(&sc, &pc, 0)
}

/// Whether `p` stands anywhere in `s`.
pub fn contains(s: &str, p: &str) -> (r: bool)
    ensures
        r == occurs(s@, p@),
{
    let sc = chars_of(s);
    let pc = chars_of(p);
    let mut i: usize = 0;
    while i < sc.len()
        invariant
            i <= sc@.len(),
            sc@ == s@,
            pc@ == p@,
            forall|j: int| 0 <= j < i ==> !occurs_at(s@, p@, j),
        decreases sc@.len() - i,
    {
        if stands_at(&sc, &pc, i) {
            return true;
        }
        i = i + 1;
    }
    let last = stands_at(&sc, &pc, i);
    proof {
        if !last {
            assert forall|j: int| !occurs_at(s@, p@, j) by {}
        }
    }
    last
}

/// Whether `s` holds the character `c`.
pub fn has_char(s: &str, c: char) -> (r: bool)
    ensures
        r == s@.contains(c),
{
    let sc = chars_of(s);
    let mut i: usize = 0;
    while i < sc.len()
        invariant
            i <= sc@.len(),
            sc@ == s@,
            forall|j: int| 0 <= j < i ==> s@[j] != c,
        decreases sc@.len() - i,
    {
        if sc[i] == c {
            return true;
        }
        i = i + 1;
    }
    false
}

// ---------------------------------------------------------------------------
// Laws
// ---------------------------------------------------------------------------
/// Joining undoes splitting: the pieces make up the text, there is always one,
/// and none of them holds the separator.
pub proof fn join_undoes_split(s: Seq<char>, c: char)
    ensures
        split(s, c).len() > 0,
        join(split(s, c), seq![c]) == s,
        forall|i: int| 0 <= i < split(s, c).len() ==> !(#[trigger] split(s, c)[i]).contains(c),
    decreases s.len(),
{
    lemma_first_index_is_first(s, c);
    let n = first_index(s, c) as int;
    let parts = split(s, c);
    if n < s.len() {
        let rest = s.subrange(n + 1, s.len() as int);
        join_undoes_split(rest, c);
        assert(parts.drop_first() =~= split(rest, c));
        assert(join(parts, seq![c]) =~= s);
        assert forall|i: int| 0 <= i < parts.len() implies !(#[trigger] parts[i]).contains(c) by {
            if i > 0 {
                assert(parts[i] == split(rest, c)[i - 1]);
            }
        }
    } else {
        assert(parts =~= seq![s]);
    }
}

/// A joined text grows at its end: nothing joined is nothing, one part joined is
/// that part, and every further part follows behind one separator.
pub proof fn joining_puts_a_separator_between(
    parts: Seq<Seq<char>>,
    last: Seq<char>,
    sep: Seq<char>,
)
    ensures
        join(Seq::empty(), sep).len() == 0,
        join(seq![last], sep) == last,
        parts.len() > 0 ==> join(parts.push(last), sep) == join(parts, sep) + sep + last,
    decreases parts.len(),
{
    if parts.len() == 1 {
        assert(parts.push(last).drop_first() =~= seq![last]);
        assert(parts.push(last)[0] == parts[0]);
        assert(join(seq![last], sep) == last);
        assert(join(parts, sep) == parts[0]);
        assert(join(parts.push(last), sep) =~= join(parts, sep) + sep + last);
    } else if parts.len() > 1 {
        let rest = parts.drop_first();
        joining_puts_a_separator_between(rest, last, sep);
        assert(parts.push(last).drop_first() =~= rest.push(last));
        assert(parts.push(last)[0] == parts[0]);
        assert(join(parts.push(last), sep) =~= join(parts, sep) + sep + last);
    }
}

/// Lines are read one after the other: a line ends at its line feed, with or
/// without a carriage return before it, and the rest of the text is read as it
/// would be alone. A text without a line feed is one line as it stands.
pub proof fn a_line_ends_at_its_line_feed(line: Seq<char>, rest: Seq<char>)
    requires
        !line.contains('\n'),
    ensures
        lines(Seq::empty()).len() == 0,
        line.len() > 0 ==> lines(line) == seq![line],
        line.len() == 0 || line.last() != '\r' ==> lines(line + seq!['\n'] + rest) == seq![line]
            + lines(rest),
        lines(line + seq!['\r', '\n'] + rest) == seq![line] + lines(rest),
{
    assert forall|j: int| 0 <= j < line.len() implies line[j] != '\n' by {
        assert(line.contains(line[j]));
    }
    if line.len() > 0 {
        lemma_first_index(line, '\n', line.len() as int);
    }
    let n = line.len() as int;
    let one = line + seq!['\n'] + rest;
    assert(one[n] == '\n');
    lemma_first_index(one, '\n', n);
    assert(one.subrange(0, n) =~= line);
    assert(one.subrange(n + 1, one.len() as int) =~= rest);
    let two = line + seq!['\r', '\n'] + rest;
    assert(two[n] == '\r');
    assert(two[n + 1] == '\n');
    assert forall|j: int| 0 <= j < n + 1 implies two[j] != '\n' by {
        if j < n {
            assert(two[j] == line[j]);
        }
    }
    lemma_first_index(two, '\n', n + 1);
    assert(two.subrange(0, n + 1) =~= line.push('\r'));
    assert(line.push('\r').drop_last() =~= line);
    assert(two.subrange(n + 2, two.len() as int) =~= rest);
}

/// A text occurs at a position exactly where it is what stands between what is
/// before that position and what is behind it.
pub proof fn an_occurrence_cuts_a_text(s: Seq<char>, p: Seq<char>, i: int)
    ensures
        occurs_at(s, p, i) <==> exists|before: Seq<char>, after: Seq<char>|
            s == #[trigger] (before + p + after) && before.len() == i,
        occurs(s, p) <==> exists|before: Seq<char>, after: Seq<char>|
            s == #[trigger] (before + p + after),
{
    if occurs_at(s, p, i) {
        lemma_cut(s, p, i);
    }
    if exists|before: Seq<char>, after: Seq<char>|
        s == #[trigger] (before + p + after) && before.len() == i {
        let (before, after) = choose|before: Seq<char>, after: Seq<char>|
            s == #[trigger] (before + p + after) && before.len() == i;
        assert(s.subrange(i, i + p.len()) =~= p);
    }
    if occurs(s, p) {
        let at = choose|at: int| occurs_at(s, p, at);
        lemma_cut(s, p, at);
    }
    if exists|before: Seq<char>, after: Seq<char>| s == #[trigger] (before + p + after) {
        let (before, after) = choose|before: Seq<char>, after: Seq<char>|
            s == #[trigger] (before + p + after);
        let at = before.len() as int;
        assert(s.subrange(at, at + p.len()) =~= p);
        assert(occurs_at(s, p, at));
    }
}

proof fn lemma_cut(s: Seq<char>, p: Seq<char>, i: int)
    requires
        occurs_at(s, p, i),
    ensures
        exists|before: Seq<char>, after: Seq<char>|
            s == #[trigger] (before + p + after) && before.len() == i,
{
    let before = s.take(i);
    let after = s.skip(i + p.len());
    assert forall|k: int| 0 <= k < s.len() implies s[k] == (before + p + after)[k] by {
        if i <= k < i + p.len() {
            assert(s.subrange(i, i + p.len())[k - i] == s[k]);
        }
    }
    assert(s =~= before + p + after);
}

} // verus!
