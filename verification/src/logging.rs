//! Desktop shell logging.
//!
//! The shell streams to `desktop.log` below the Hermes home, and the renderer's
//! error boundary posts to the same file. Writing the file is the caller's work.
use crate::clock;
use crate::text;
use vstd::prelude::*;

verus! {

/// A number below a thousand, with three digits.
pub open spec fn three_digits(n: nat) -> Seq<char> {
    seq![
        text::number::digit(n / 100),
        text::number::digit(n / 10),
        text::number::digit(n),
    ]
}

/// A time in milliseconds since the epoch, as seconds with three decimals.
pub open spec fn stamp(now_ms: u64) -> Seq<char> {
    text::number::decimal((now_ms / 1000) as nat) + "."@ + three_digits((now_ms % 1000) as nat)
}

/// What is added to the log file for `line` at the time `now_ms`.
pub open spec fn log_text(now_ms: u64, line: Seq<char>) -> Seq<char> {
    "["@ + stamp(now_ms) + "] "@ + line + "\n"@
}

fn write_digit(n: u64) -> (r: char)
    ensures
        r == text::number::digit(n as nat),
{
    (48u8 + (n % 10) as u8) as char
}

/// What is added to the log file for `line`, as of now.
pub fn append(line: &str) -> (r: String)
    ensures
        exists|now_ms: u64| r@ == #[trigger] log_text(now_ms, line@),
{
    append_at(line, clock::now_ms())
}

/// What is added to the log file for `line` at the time `now_ms`.
pub fn append_at(line: &str, now_ms: u64) -> (r: String)
    ensures
        r@ == log_text(now_ms, line@),
{
    let seconds = text::number::write_decimal(now_ms / 1000);
    let ms: u64 = now_ms % 1000;
    let mut out = "[".to_owned();
    out.append(seconds.as_str());
    out.append(".");
    let ghost before = out@;
    out.push(write_digit(ms / 100));
    out.push(write_digit(ms / 10));
    out.push(write_digit(ms));
    proof {
        assert(out@ =~= before + three_digits(ms as nat));
        assert(out@ =~= "["@ + stamp(now_ms));
    }
    out.append("] ");
    out.append(line);
    out.append("\n");
    out
}

/// A line of information.
pub fn info(line: &str) -> (r: String)
    ensures
        r@ == "INFO  "@ + line@,
{
    text::cat("INFO  ", line)
}

/// A warning.
pub fn warn(line: &str) -> (r: String)
    ensures
        r@ == "WARN  "@ + line@,
{
    text::cat("WARN  ", line)
}

/// An error.
pub fn error(line: &str) -> (r: String)
    ensures
        r@ == "ERROR "@ + line@,
{
    text::cat("ERROR ", line)
}

/// The tail of the log within `max_bytes`, which never splits a character. Where
/// not even the last character fits, it is the whole log. `contents` is the log,
/// where it could be read.
pub fn recent(contents: Option<&str>, max_bytes: usize) -> (r: String)
    ensures
        r@ == (match contents {
            Some(text) => text::bytes::last_bytes(text@, max_bytes as int),
            None => Seq::empty(),
        }),
{
    match contents {
        None => String::new(),
        Some(text) => text::bytes::keep_last_bytes(text, max_bytes as u128),
    }
}

/// A time is written in seconds, with a point and three decimals for the rest: both
/// are read back.
pub proof fn a_stamp_is_seconds_and_milliseconds(now_ms: u64)
    ensures
        ({
            let seconds = text::number::decimal((now_ms / 1000) as nat);
            let n = seconds.len() as int;
            let s = stamp(now_ms);
            &&& s.len() == n + 4
            &&& text::number::value_of(s.take(n)) == now_ms / 1000
            &&& s[n] == '.'
            &&& text::number::all_digits(s.skip(n + 1))
            &&& text::number::value_of(s.skip(n + 1)) == now_ms % 1000
        }),
{
    reveal_strlit(".");
    let seconds = text::number::decimal((now_ms / 1000) as nat);
    let n = seconds.len() as int;
    let s = stamp(now_ms);
    text::number::value_undoes_decimal((now_ms / 1000) as nat);
    assert(s.take(n) =~= seconds);
    let ms = (now_ms % 1000) as nat;
    let digits = three_digits(ms);
    assert(s.skip(n + 1) =~= digits);
    let none = Seq::<char>::empty();
    let a = text::number::digit(ms / 100);
    let b = text::number::digit(ms / 10);
    let c = text::number::digit(ms);
    text::number::decimal_notation_is_positional(0, none, a);
    text::number::decimal_notation_is_positional(0, none.push(a), b);
    text::number::decimal_notation_is_positional(0, none.push(a).push(b), c);
    assert(none.push(a).push(b).push(c) =~= digits);
}

/// A line of the log begins with its time in brackets and ends with what was logged
/// and a line feed.
pub proof fn a_log_line_carries_its_time(now_ms: u64, line: Seq<char>)
    ensures
        log_text(now_ms, line) == "["@ + stamp(now_ms) + "] "@ + line + "\n"@,
        (line + "\n"@).is_suffix_of(log_text(now_ms, line)),
        stamp(now_ms).is_prefix_of(log_text(now_ms, line).skip("["@.len() as int)),
{
}

/// A line keeps its text behind the six letters of its level, and different levels
/// are told apart.
pub proof fn a_line_is_marked_with_its_level(
    line: &str,
    info_line: String,
    warn_line: String,
    error_line: String,
)
    requires
        call_ensures(info, (line,), info_line),
        call_ensures(warn, (line,), warn_line),
        call_ensures(error, (line,), error_line),
    ensures
        info_line@ == "INFO  "@ + line@,
        warn_line@ == "WARN  "@ + line@,
        error_line@ == "ERROR "@ + line@,
{
}

/// What is shown of a log is its newest bytes, and nothing where there is none.
pub proof fn the_end_of_the_log_is_shown(
    contents: &str,
    max_bytes: usize,
    r: String,
    none: String,
)
    requires
        call_ensures(recent, (Some(contents), max_bytes), r),
        call_ensures(recent, (None::<&str>, max_bytes), none),
    ensures
        none@.len() == 0,
        r@ == text::bytes::last_bytes(contents@, max_bytes as int),
        contents@.len() > 0 && text::bytes::width(contents@.last()) <= max_bytes ==> {
            &&& r@.is_suffix_of(contents@)
            &&& text::bytes::byte_len(r@) <= max_bytes
        },
{
    if contents@.len() > 0 && text::bytes::width(contents@.last()) <= max_bytes {
        text::bytes::the_tail_fits(contents@, max_bytes as int);
    }
}

} // verus!
