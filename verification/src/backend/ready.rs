//! The backend's port announcement.
//!
//! `hermes serve` prints `HERMES_BACKEND_READY port=<N>` to stdout once its
//! socket is bound; the older `hermes dashboard` runtime prints
//! `HERMES_DASHBOARD_READY port=<N>`. Both are accepted so that a desktop shell
//! newer than the managed runtime still boots.
use crate::text;
use vstd::prelude::*;

verus! {

/// On a cold install the child must import the whole web server before it
/// binds, and a virus scanner may read every freshly written module. That cost
/// can run to a minute on a slow disk, so a tight deadline would kill a healthy
/// but still-starting backend and pile up orphans.
pub const DEFAULT_PORT_ANNOUNCE_TIMEOUT_MS: u64 = 90_000;

/// Never trust a deadline tighter than the warm-start path needs.
pub const MIN_PORT_ANNOUNCE_TIMEOUT_MS: u64 = 45_000;

/// What `hermes serve` prints before its port.
pub const BACKEND_MARKER: &'static str = "HERMES_BACKEND_READY port=";

/// What `hermes dashboard` prints before its port.
pub const DASHBOARD_MARKER: &'static str = "HERMES_DASHBOARD_READY port=";

/// The port-announcement deadline in milliseconds.
///
/// `requested` is the override from the environment, rounded to a whole number
/// of milliseconds, where it was a positive finite number at all. An override
/// never makes the deadline tighter than the floor.
pub fn resolve_port_announce_timeout_ms(requested: Option<u64>) -> (r: u64)
    ensures
        r == (match requested {
            Some(ms) => if ms < MIN_PORT_ANNOUNCE_TIMEOUT_MS {
                MIN_PORT_ANNOUNCE_TIMEOUT_MS
            } else {
                ms
            },
            None => DEFAULT_PORT_ANNOUNCE_TIMEOUT_MS,
        }),
        r >= MIN_PORT_ANNOUNCE_TIMEOUT_MS,
{
    match requested {
        Some(ms) => if ms < MIN_PORT_ANNOUNCE_TIMEOUT_MS {
            MIN_PORT_ANNOUNCE_TIMEOUT_MS
        } else {
            ms
        },
        None => DEFAULT_PORT_ANNOUNCE_TIMEOUT_MS,
    }
}

/// Whether `c` would make the marker read as the tail of a longer identifier:
/// a letter or `_`. Digits are not among them: the announcement is legitimately
/// spliced right after a log line that ends in a port number.
pub open spec fn identifier_char(c: char) -> bool {
    if c <= '\u{7f}' {
        text::unicode::is_ascii_letter(c) || c == '_'
    } else {
        text::unicode::alphabetic(c)
    }
}

/// Whether `c` is a letter or `_`.
fn is_identifier_char(c: char) -> (r: bool)
    ensures
        r == identifier_char(c),
{
    text::unicode::is_alphabetic(c) || c == '_'
}

/// The run of digits at the front of `s`.
pub open spec fn leading_digits(s: Seq<char>) -> Seq<char>
    decreases s.len(),
{
    if s.len() > 0 && text::number::is_digit(s[0]) {
        seq![s[0]] + leading_digits(s.drop_first())
    } else {
        Seq::empty()
    }
}

/// The port that `marker` announces at position `i` of `s`: the marker stands
/// there, no identifier character precedes it, and the digits behind it write a
/// number from 1 to 65535.
pub open spec fn port_at(s: Seq<char>, marker: Seq<char>, i: int) -> Option<u16> {
    let port = text::number::value_of(leading_digits(s.skip(i + marker.len())));
    if text::scan::occurs_at(s, marker, i) && (i == 0 || !identifier_char(s[i - 1])) && 0 < port
        <= u16::MAX {
        Some(port as u16)
    } else {
        None
    }
}

/// The first port that `marker` announces at position `i` of `s` or later.
pub open spec fn port_from(s: Seq<char>, marker: Seq<char>, i: int) -> Option<u16>
    decreases s.len() - i,
{
    if i < 0 || i >= s.len() {
        None
    } else if port_at(s, marker, i) is Some {
        port_at(s, marker, i)
    } else {
        port_from(s, marker, i + 1)
    }
}

/// The port that `s` announces: the backend marker is looked for first.
pub open spec fn ready_port(s: Seq<char>) -> Option<u16> {
    if port_from(s, BACKEND_MARKER@, 0) is Some {
        port_from(s, BACKEND_MARKER@, 0)
    } else {
        port_from(s, DASHBOARD_MARKER@, 0)
    }
}

proof fn lemma_leading_digits(s: Seq<char>, n: int)
    requires
        0 <= n <= s.len(),
        text::number::all_digits(s.take(n)),
        n < s.len() ==> !text::number::is_digit(s[n]),
    ensures
        leading_digits(s) == s.take(n),
    decreases n,
{
    if n == 0 {
        assert(s.take(0) =~= Seq::<char>::empty());
    } else {
        let t = s.drop_first();
        assert(s.take(n)[0] == s[0]);
        assert forall|j: int| 0 <= j < n - 1 implies text::number::is_digit(
            #[trigger] t.take(n - 1)[j],
        ) by {
            assert(t.take(n - 1)[j] == s.take(n)[j + 1]);
        }
        lemma_leading_digits(t, n - 1);
        assert(seq![s[0]] + t.take(n - 1) =~= s.take(n));
    }
}

/// The port that `marker` announces at position `at` of `chars`.
fn announced_at(chars: &Vec<char>, marker: &Vec<char>, at: usize) -> (r: Option<u16>)
    requires
        at < chars@.len(),
    ensures
        r == port_at(chars@, marker@, at as int),
{
    if !text::scan::stands_at(chars, marker, at) {
        return None;
    }
    if at > 0 && is_identifier_char(chars[at - 1]) {
        return None;
    }
    let n: usize = chars.len();
    assert(at + marker@.len() <= n);
    let from: usize = at + marker.len();
    let to: usize = text::number::digits_end(chars, from);
    proof {
        let rest = chars@.skip(from as int);
        assert(rest.take(to - from) =~= chars@.subrange(from as int, to as int));
        lemma_leading_digits(rest, to - from);
    }
    match text::number::read_u16(chars, from, to) {
        Some(port) => if port > 0 {
            Some(port)
        } else {
            None
        },
        None => None,
    }
}

/// The first port that `marker` announces in `chars`.
fn first_announced(chars: &Vec<char>, marker: &Vec<char>) -> (r: Option<u16>)
    ensures
        r == port_from(chars@, marker@, 0),
{
    let mut i: usize = 0;
    while i < chars.len()
        invariant
            i <= chars@.len(),
            port_from(chars@, marker@, 0) == port_from(chars@, marker@, i as int),
        decreases chars@.len() - i,
    {
        let found = announced_at(chars, marker, i);
        if found.is_some() {
            return found;
        }
        i = i + 1;
    }
    None
}

/// Scan accumulated stdout for the announcement and return the announced port.
///
/// The announcement is matched on a token boundary and not at the start of a
/// line: log chunks may end without a newline, so that it can be spliced onto
/// the end of an unrelated line.
pub fn parse_ready_port(buffer: &str) -> (r: Option<u16>)
    ensures
        r == ready_port(buffer@),
        r matches Some(port) ==> port > 0,
{
    let chars = text::chars_of(buffer);
    let backend = text::chars_of(BACKEND_MARKER);
    let found = first_announced(&chars, &backend);
    if found.is_some() {
        proof {
            lemma_port_is_positive(chars@, backend@, 0);
        }
        return found;
    }
    let dashboard = text::chars_of(DASHBOARD_MARKER);
    proof {
        lemma_port_is_positive(chars@, dashboard@, 0);
    }
    first_announced(&chars, &dashboard)
}

proof fn lemma_port_is_positive(s: Seq<char>, marker: Seq<char>, i: int)
    ensures
        port_from(s, marker, i) matches Some(port) ==> port > 0,
    decreases s.len() - i,
{
    if 0 <= i < s.len() && port_at(s, marker, i) is None {
        lemma_port_is_positive(s, marker, i + 1);
    }
}

proof fn lemma_port_from_skips(s: Seq<char>, marker: Seq<char>, from: int, at: int)
    requires
        0 <= from <= at < s.len(),
        forall|i: int| from <= i < at ==> port_at(s, marker, i) is None,
        port_at(s, marker, at) is Some,
    ensures
        port_from(s, marker, from) == port_at(s, marker, at),
    decreases at - from,
{
    if from < at {
        lemma_port_from_skips(s, marker, from + 1, at);
    }
}

proof fn lemma_port_from_finds(s: Seq<char>, marker: Seq<char>, from: int) -> (at: int)
    requires
        0 <= from,
        port_from(s, marker, from) is Some,
    ensures
        from <= at < s.len(),
        forall|i: int| from <= i < at ==> port_at(s, marker, i) is None,
        port_at(s, marker, at) == port_from(s, marker, from),
    decreases s.len() - from,
{
    if port_at(s, marker, from) is Some {
        from
    } else {
        lemma_port_from_finds(s, marker, from + 1)
    }
}

proof fn lemma_port_at_end_of(before: Seq<char>, marker: Seq<char>, port: u16, after: Seq<char>)
    requires
        0 < port,
        marker.len() > 0,
        before.len() > 0 ==> !identifier_char(before.last()),
        after.len() > 0 ==> !text::number::is_digit(after[0]),
    ensures
        port_at(
            before + marker + text::number::decimal(port as nat) + after,
            marker,
            before.len() as int,
        ) == Some(port),
{
    let digits = text::number::decimal(port as nat);
    let s = before + marker + digits + after;
    let at = before.len() as int;
    text::number::value_undoes_decimal(port as nat);
    assert(s.subrange(at, at + marker.len()) =~= marker);
    let rest = s.skip(at + marker.len());
    assert(rest.take(digits.len() as int) =~= digits);
    if after.len() > 0 {
        assert(rest[digits.len() as int] == after[0]);
    }
    lemma_leading_digits(rest, digits.len() as int);
    if at > 0 {
        assert(s[at - 1] == before.last());
    }
}

/// An announcement is read back: wherever the backend prints its marker and
/// the decimal notation of its port on a token boundary, with no announcement
/// before it and no digit behind it, that port is the one reported.
pub proof fn announcement_is_read_back(before: Seq<char>, port: u16, after: Seq<char>)
    requires
        0 < port,
        before.len() > 0 ==> !identifier_char(before.last()),
        after.len() > 0 ==> !text::number::is_digit(after[0]),
        forall|i: int|
            0 <= i < before.len() ==> port_at(
                before + BACKEND_MARKER@ + text::number::decimal(port as nat) + after,
                BACKEND_MARKER@,
                i,
            ) is None,
    ensures
        ready_port(before + BACKEND_MARKER@ + text::number::decimal(port as nat) + after) == Some(
            port,
        ),
{
    reveal_strlit("HERMES_BACKEND_READY port=");
    let s = before + BACKEND_MARKER@ + text::number::decimal(port as nat) + after;
    lemma_port_at_end_of(before, BACKEND_MARKER@, port, after);
    lemma_port_from_skips(s, BACKEND_MARKER@, 0, before.len() as int);
}

/// The older announcement is read back in the same way, where nothing in the
/// output announces a port with the newer marker.
pub proof fn dashboard_announcement_is_read_back(before: Seq<char>, port: u16, after: Seq<char>)
    requires
        0 < port,
        before.len() > 0 ==> !identifier_char(before.last()),
        after.len() > 0 ==> !text::number::is_digit(after[0]),
        forall|i: int|
            0 <= i < before.len() ==> port_at(
                before + DASHBOARD_MARKER@ + text::number::decimal(port as nat) + after,
                DASHBOARD_MARKER@,
                i,
            ) is None,
        port_from(
            before + DASHBOARD_MARKER@ + text::number::decimal(port as nat) + after,
            BACKEND_MARKER@,
            0,
        ) is None,
    ensures
        ready_port(before + DASHBOARD_MARKER@ + text::number::decimal(port as nat) + after) == Some(
            port,
        ),
{
    reveal_strlit("HERMES_DASHBOARD_READY port=");
    let s = before + DASHBOARD_MARKER@ + text::number::decimal(port as nat) + after;
    lemma_port_at_end_of(before, DASHBOARD_MARKER@, port, after);
    lemma_port_from_skips(s, DASHBOARD_MARKER@, 0, before.len() as int);
}

proof fn lemma_leading_digits_keep(s: Seq<char>, more: Seq<char>)
    requires
        s.len() > 0,
        !text::number::is_digit(s.last()),
    ensures
        leading_digits(s + more) == leading_digits(s),
    decreases s.len(),
{
    if text::number::is_digit(s[0]) {
        assert(s.drop_first().last() == s.last());
        lemma_leading_digits_keep(s.drop_first(), more);
        assert((s + more).drop_first() =~= s.drop_first() + more);
    }
}

proof fn lemma_port_from_keeps(read: Seq<char>, more: Seq<char>, marker: Seq<char>)
    requires
        marker.len() > 0,
        read.len() > 0,
        !text::number::is_digit(read.last()),
        port_from(read, marker, 0) is Some,
    ensures
        port_from(read + more, marker, 0) == port_from(read, marker, 0),
{
    let all = read + more;
    let at = lemma_port_from_finds(read, marker, 0);
    let width = marker.len() as int;
    assert forall|i: int| 0 <= i <= at implies port_at(all, marker, i) == port_at(
        read,
        marker,
        i,
    ) by {
        assert(i + width <= read.len());
        assert(all.subrange(i, i + width) =~= read.subrange(i, i + width));
        if i > 0 {
            assert(all[i - 1] == read[i - 1]);
        }
        let rest = read.skip(i + width);
        if rest.len() > 0 {
            assert(rest.last() == read.last());
            lemma_leading_digits_keep(rest, more);
            assert(all.skip(i + width) =~= rest + more);
        } else {
            assert(read.subrange(i, i + width)[width - 1] == read.last());
            assert(i == at);
            assert(leading_digits(rest) =~= Seq::<char>::empty());
        }
    }
    lemma_port_from_skips(all, marker, 0, at);
}

/// Output that follows does not change an announced port: once the newer
/// marker has announced one and the output read so far ends in something other
/// than a digit, every longer output reports the same port.
pub proof fn later_output_keeps_the_port(read: Seq<char>, more: Seq<char>)
    requires
        read.len() > 0,
        !text::number::is_digit(read.last()),
        port_from(read, BACKEND_MARKER@, 0) is Some,
    ensures
        ready_port(read + more) == ready_port(read),
{
    reveal_strlit("HERMES_BACKEND_READY port=");
    lemma_port_from_keeps(read, more, BACKEND_MARKER@);
}

/// Nor does it change a port that the older marker has announced, as long as the
/// newer marker announces none.
pub proof fn later_output_keeps_the_dashboard_port(read: Seq<char>, more: Seq<char>)
    requires
        read.len() > 0,
        !text::number::is_digit(read.last()),
        port_from(read, DASHBOARD_MARKER@, 0) is Some,
        port_from(read + more, BACKEND_MARKER@, 0) is None,
    ensures
        ready_port(read + more) == ready_port(read),
{
    reveal_strlit("HERMES_BACKEND_READY port=");
    reveal_strlit("HERMES_DASHBOARD_READY port=");
    if port_from(read, BACKEND_MARKER@, 0) is Some {
        lemma_port_from_keeps(read, more, BACKEND_MARKER@);
    }
    lemma_port_from_keeps(read, more, DASHBOARD_MARKER@);
}

/// What may stand in front of an announcement: anything but a letter and `_`.
/// Of ASCII that leaves every digit, white space, control and punctuation mark.
pub open spec fn is_boundary(c: char) -> bool {
    &&& !('a' <= c <= 'z')
    &&& !('A' <= c <= 'Z')
    &&& c != '_'
    &&& c > '\u{7f}' ==> !text::unicode::alphabetic(c)
}

proof fn lemma_boundary(c: char)
    ensures
        is_boundary(c) == !identifier_char(c),
{
}

/// An announcement is seen behind every boundary: at the start of the output,
/// and right behind any character that is neither a letter nor `_`, a digit
/// above all, since it is spliced behind log lines that end in a port number.
pub proof fn an_announcement_is_seen_behind_every_boundary(
    before: Seq<char>,
    port: u16,
    after: Seq<char>,
)
    requires
        0 < port,
        before.len() > 0 ==> is_boundary(before.last()),
        after.len() > 0 ==> !('0' <= after[0] <= '9'),
    ensures
        ({
            let s = before + "HERMES_BACKEND_READY port="@ + text::number::decimal(port as nat)
                + after;
            (forall|i: int|
                0 <= i < before.len() ==> !(#[trigger] text::scan::occurs_at(
                    s,
                    "HERMES_BACKEND_READY port="@,
                    i,
                ))) ==> ready_port(s) == Some(port)
        }),
        ({
            let s = before + "HERMES_DASHBOARD_READY port="@ + text::number::decimal(port as nat)
                + after;
            (forall|i: int|
                0 <= i < before.len() ==> !(#[trigger] text::scan::occurs_at(
                    s,
                    "HERMES_DASHBOARD_READY port="@,
                    i,
                ))) && !text::scan::occurs(s, "HERMES_BACKEND_READY port="@) ==> ready_port(s)
                == Some(port)
        }),
        forall|c: char| '0' <= c <= '9' ==> is_boundary(c),
        forall|c: char| text::is_white_space(c) && c <= '\u{7f}' ==> is_boundary(c),
{
    if before.len() > 0 {
        lemma_boundary(before.last());
    }
    let digits = text::number::decimal(port as nat);
    let newer = before + BACKEND_MARKER@ + digits + after;
    if forall|i: int|
        0 <= i < before.len() ==> !(#[trigger] text::scan::occurs_at(newer, BACKEND_MARKER@, i)) {
        assert forall|i: int| 0 <= i < before.len() implies port_at(
            newer,
            BACKEND_MARKER@,
            i,
        ) is None by {
            assert(!text::scan::occurs_at(newer, BACKEND_MARKER@, i));
        }
        announcement_is_read_back(before, port, after);
    }
    let older = before + DASHBOARD_MARKER@ + digits + after;
    if (forall|i: int|
        0 <= i < before.len() ==> !(#[trigger] text::scan::occurs_at(older, DASHBOARD_MARKER@, i)))
        && !text::scan::occurs(older, BACKEND_MARKER@) {
        assert forall|i: int| 0 <= i < before.len() implies port_at(
            older,
            DASHBOARD_MARKER@,
            i,
        ) is None by {
            assert(!text::scan::occurs_at(older, DASHBOARD_MARKER@, i));
        }
        lemma_no_marker_no_port(older, BACKEND_MARKER@, 0);
        dashboard_announcement_is_read_back(before, port, after);
    }
}

proof fn lemma_no_marker_no_port(s: Seq<char>, marker: Seq<char>, i: int)
    requires
        !text::scan::occurs(s, marker),
    ensures
        port_from(s, marker, i) is None,
    decreases s.len() - i,
{
    if 0 <= i < s.len() {
        assert(!text::scan::occurs_at(s, marker, i));
        lemma_no_marker_no_port(s, marker, i + 1);
    }
}

/// Whether `s` announces `port` behind the marker at position `i`: behind a
/// boundary, in digits that end where the number ends.
pub open spec fn announces(s: Seq<char>, marker: Seq<char>, i: int, port: u16) -> bool {
    let at = i + marker.len();
    &&& text::scan::occurs_at(s, marker, i)
    &&& i > 0 ==> is_boundary(s[i - 1])
    &&& exists|end: int|
        {
            &&& at < end <= s.len()
            &&& text::number::all_digits(#[trigger] s.subrange(at, end))
            &&& text::number::value_of(s.subrange(at, end)) == port
            &&& end < s.len() ==> !('0' <= s[end] <= '9')
        }
}

/// A port is reported only where one is announced: the marker stands behind a
/// boundary, and the digits behind it write that port to their end. Prose that
/// mentions a marker, a marker inside a longer word, the port 0 and a number that
/// is no port announce nothing.
pub proof fn a_reported_port_was_announced(s: Seq<char>, port: u16)
    requires
        ready_port(s) == Some(port),
    ensures
        0 < port,
        exists|i: int|
            #![trigger text::scan::occurs_at(s, "HERMES_BACKEND_READY port="@, i)]
            #![trigger text::scan::occurs_at(s, "HERMES_DASHBOARD_READY port="@, i)]
            announces(s, "HERMES_BACKEND_READY port="@, i, port) || announces(
                s,
                "HERMES_DASHBOARD_READY port="@,
                i,
                port,
            ),
{
    let newer = port_from(s, BACKEND_MARKER@, 0) is Some;
    let marker = if newer {
        BACKEND_MARKER@
    } else {
        DASHBOARD_MARKER@
    };
    let i = lemma_port_from_finds(s, marker, 0);
    let at = i + marker.len();
    let rest = s.skip(at);
    let n = lemma_leading_digits_end(rest);
    assert(s.subrange(at, at + n) =~= rest.take(n));
    if n == 0 {
        assert(rest.take(0) =~= Seq::<char>::empty());
    }
    if n < rest.len() {
        assert(s[at + n] == rest[n]);
    }
    if i > 0 {
        lemma_boundary(s[i - 1]);
    }
    assert(announces(s, marker, i, port));
}

proof fn lemma_leading_digits_end(s: Seq<char>) -> (n: int)
    ensures
        0 <= n <= s.len(),
        leading_digits(s) == s.take(n),
        text::number::all_digits(s.take(n)),
        n < s.len() ==> !text::number::is_digit(s[n]),
    decreases s.len(),
{
    if s.len() > 0 && text::number::is_digit(s[0]) {
        let m = lemma_leading_digits_end(s.drop_first());
        assert(seq![s[0]] + s.drop_first().take(m) =~= s.take(m + 1));
        assert forall|j: int| 0 <= j < m + 1 implies text::number::is_digit(
            #[trigger] s.take(m + 1)[j],
        ) by {
            if j > 0 {
                assert(s.drop_first().take(m)[j - 1] == s.take(m + 1)[j]);
            }
        }
        m + 1
    } else {
        assert(s.take(0) =~= Seq::<char>::empty());
        0
    }
}

/// Where a port is announced, one is reported: no announcement is overlooked.
pub proof fn no_announcement_is_overlooked(s: Seq<char>, i: int, port: u16)
    requires
        0 < port,
        announces(s, "HERMES_BACKEND_READY port="@, i, port) || announces(
            s,
            "HERMES_DASHBOARD_READY port="@,
            i,
            port,
        ),
    ensures
        ready_port(s) is Some,
{
    reveal_strlit("HERMES_BACKEND_READY port=");
    reveal_strlit("HERMES_DASHBOARD_READY port=");
    let marker = if announces(s, "HERMES_BACKEND_READY port="@, i, port) {
        BACKEND_MARKER@
    } else {
        DASHBOARD_MARKER@
    };
    let at = i + marker.len();
    let end = choose|end: int|
        {
            &&& at < end <= s.len()
            &&& text::number::all_digits(#[trigger] s.subrange(at, end))
            &&& text::number::value_of(s.subrange(at, end)) == port
            &&& end < s.len() ==> !('0' <= s[end] <= '9')
        };
    let rest = s.skip(at);
    assert(rest.take(end - at) =~= s.subrange(at, end));
    if end < s.len() {
        assert(rest[end - at] == s[end]);
    }
    lemma_leading_digits(rest, end - at);
    if i > 0 {
        lemma_boundary(s[i - 1]);
    }
    assert(port_at(s, marker, i) == Some(port));
    lemma_port_from_reaches(s, marker, 0, i);
}

proof fn lemma_port_from_reaches(s: Seq<char>, marker: Seq<char>, from: int, at: int)
    requires
        0 <= from <= at < s.len(),
        port_at(s, marker, at) is Some,
    ensures
        port_from(s, marker, from) is Some,
    decreases at - from,
{
    if from < at && port_at(s, marker, from) is None {
        lemma_port_from_reaches(s, marker, from + 1, at);
    }
}

// ---------------------------------------------------------------------------
// Laws of the operations themselves
// ---------------------------------------------------------------------------
/// Output that announces a port behind a boundary, a digit among them, is read as
/// that port.
pub proof fn an_announced_port_is_parsed(
    buffer: &str,
    before: Seq<char>,
    port: u16,
    after: Seq<char>,
    r: Option<u16>,
)
    requires
        call_ensures(parse_ready_port, (buffer,), r),
        buffer@ == before + "HERMES_BACKEND_READY port="@ + text::number::decimal(port as nat)
            + after,
        0 < port,
        before.len() > 0 ==> before.last() <= '\u{7f}' && !('a' <= before.last() <= 'z') && !('A'
            <= before.last() <= 'Z') && before.last() != '_',
        after.len() > 0 ==> !('0' <= after[0] <= '9'),
        forall|i: int|
            0 <= i < before.len() ==> !(#[trigger] text::scan::occurs_at(
                buffer@,
                "HERMES_BACKEND_READY port="@,
                i,
            )),
    ensures
        r == Some(port),
{
    an_announcement_is_seen_behind_every_boundary(before, port, after);
}

/// The time to wait for a port is what is asked for, but never less than
/// forty-five seconds, and ninety where nothing is.
pub proof fn a_port_is_waited_for_long_enough(asked: u64, r: u64, unasked: u64)
    requires
        call_ensures(resolve_port_announce_timeout_ms, (Some(asked),), r),
        call_ensures(resolve_port_announce_timeout_ms, (None::<u64>,), unasked),
    ensures
        r >= asked && r >= 45000,
        r == asked || r == 45000,
        unasked == 90000,
{
}

} // verus!
