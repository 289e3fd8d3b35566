//! The wall clock.
use vstd::prelude::*;

verus! {

/// `SystemTime::now` as milliseconds since the Unix epoch, or `None` where the
/// clock stands before it. Nothing is claimed of the time itself.
#[verifier::external_body]
fn since_epoch() -> Option<u128> {
    std::time::SystemTime::now().duration_since(std::time::UNIX_EPOCH).ok().map(
        |since| since.as_millis(),
    )
}

/// What a reading of the clock counts as: its milliseconds, modulo what 64 bits
/// hold, and zero where the clock stands before the epoch.
pub open spec fn counted_ms(since: Option<u128>) -> int {
    match since {
        Some(ms) => ms as int % 0x1_0000_0000_0000_0000,
        None => 0,
    }
}

/// What a reading of the clock counts as.
pub(crate) fn ms_of(since: Option<u128>) -> (r: u64)
    ensures
        r == counted_ms(since),
{
    match since {
        Some(ms) => {
            assert(ms as u64 == ms % 0x1_0000_0000_0000_0000u128) by (bit_vector);
            #[verifier::truncate]
            (ms as u64)
        },
        None => 0,
    }
}

/// Milliseconds since the Unix epoch, as `ms_of` counts them. Every number is the
/// count of some reading, so nothing more holds of every outcome.
pub(crate) fn now_ms() -> u64 {
    ms_of(since_epoch())
}

/// A time that 64 bits hold is counted as it is, and none is counted as zero.
pub proof fn a_time_is_counted_as_it_is(ms: u128)
    ensures
        ms <= u64::MAX ==> counted_ms(Some(ms)) == ms,
        counted_ms(None) == 0,
        0 <= counted_ms(Some(ms)) <= u64::MAX,
{
}

} // verus!
