//! Durations and instants as the library carries them: durations are the
//! standard library's `Duration`, specified through their length in
//! milliseconds; instants are opaque clock readings.

use std::time::Duration;
use std::time::Instant;
use vstd::prelude::*;

verus! {

/// The standard library's monotonic clock reading, carried through opaquely.
#[verifier::external_type_specification]
#[verifier::external_body]
pub struct ExInstant(Instant);

/// The whole number of milliseconds in a duration, as `Duration::as_millis`
/// returns it.
pub uninterp spec fn duration_as_millis(d: Duration) -> u128;

/// The whole number of nanoseconds in a duration, as `Duration::as_nanos`
/// returns it.
pub uninterp spec fn duration_as_nanos(d: Duration) -> u128;

/// `Duration::as_nanos`: the whole nanoseconds of the duration. A
/// duration holds a `u64` of seconds and fewer than 10^9 nanoseconds, so
/// it is at most `Duration::MAX`, `u64::MAX` seconds and 999 999 999
/// nanoseconds.
pub assume_specification[ Duration::as_nanos ](d: &Duration) -> (r: u128)
    ensures
        r == duration_as_nanos(*d),
        r <= u64::MAX as u128 * 1_000_000_000 + 999_999_999,
;

/// `Duration::new`: `secs` seconds and `nanos` nanoseconds. It panics only
/// when `nanos` carries into seconds past `u64::MAX`, which the bound on
/// `nanos` rules out.
pub assume_specification[ Duration::new ](secs: u64, nanos: u32) -> (d: Duration)
    requires
        nanos < 1_000_000_000,
    ensures
        duration_as_nanos(d) == secs * 1_000_000_000 + nanos,
;

/// `Duration::as_millis`: the whole milliseconds of the duration.
pub assume_specification[ Duration::as_millis ](d: &Duration) -> (r: u128)
    ensures
        r == duration_as_millis(*d),
;

/// `Duration::from_secs`: a duration of `secs` seconds, which is
/// `secs * 1000` whole milliseconds and `secs * 10^9` nanoseconds.
pub assume_specification[ Duration::from_secs ](secs: u64) -> (d: Duration)
    ensures
        duration_as_millis(d) == secs * 1000,
        duration_as_nanos(d) == secs * 1_000_000_000,
;

/// `Duration::from_millis`: a duration of `millis` milliseconds, which is
/// `millis * 10^6` nanoseconds.
pub assume_specification[ Duration::from_millis ](millis: u64) -> (d: Duration)
    ensures
        duration_as_millis(d) == millis,
        duration_as_nanos(d) == millis * 1_000_000,
;

/// `Duration::from_nanos`: a duration of `nanos` nanoseconds.
pub assume_specification[ Duration::from_nanos ](nanos: u64) -> (d: Duration)
    ensures
        duration_as_nanos(d) == nanos,
        duration_as_millis(d) == nanos / 1_000_000,
;

/// The nanoseconds from `earlier` to `later`, as `Instant::duration_since`
/// measures them (zero when `earlier` is the later one).
pub uninterp spec fn instant_gap_nanos(later: Instant, earlier: Instant) -> u128;

/// `Instant::duration_since`, in whole nanoseconds. The contract claims
/// that the gap is a function of the two instants.
#[verifier::external_body]
pub(crate) fn gap_nanos(later: &Instant, earlier: &Instant) -> (r: u128)
    ensures
        r == instant_gap_nanos(*later, *earlier),
{
    later.duration_since(*earlier).as_nanos()
}

/// The `Debug` rendering of a duration, such as `1s` or `1.5ms`.
pub uninterp spec fn duration_debug(d: Duration) -> Seq<char>;

/// Renders a duration with its `Debug` format. The contract claims that
/// the text is a function of the duration.
#[verifier::external_body]
pub(crate) fn duration_debug_text(d: &Duration) -> (r: String)
    ensures
        r@ == duration_debug(*d),
{
    format!("{:?}", d)
}

/// `Duration::clone`: `Duration` is `Copy`, so the clone is the same value.
pub assume_specification[ <Duration as Clone>::clone ](d: &Duration) -> (r: Duration)
    ensures
        r == *d,
;

/// `Instant::clone`: `Instant` is `Copy`, so the clone is the same value.
pub assume_specification[ <Instant as Clone>::clone ](i: &Instant) -> (r: Instant)
    ensures
        r == *i,
;

/// `Instant::now`: the current reading of the monotonic clock; nothing is
/// stated of the reading itself.
#[verifier::external_body]
pub(crate) fn instant_now() -> Instant {
    Instant::now()
}

/// `Instant::elapsed`: the time passed since `at`, which std computes as
/// `Instant::now() - at`, that is `Instant::now().duration_since(at)`. The
/// reading of the clock depends on the time: the contract claims only that
/// the result is the gap from some reading to `at`.
#[verifier::external_body]
pub(crate) fn elapsed_since(at: &Instant) -> (r: Duration)
    ensures
        exists|now: Instant| duration_as_nanos(r) == #[trigger] instant_gap_nanos(now, *at),
{
    at.elapsed()
}

/// `SystemTime::now` measured from the Unix epoch, in whole milliseconds,
/// as the library reads wall-clock time; it depends on the clock, so nothing
/// is stated of it.
#[verifier::external_body]
pub(crate) fn unix_millis_now() -> i64 {
    std::time::SystemTime::now()
        .duration_since(std::time::UNIX_EPOCH)
        .map(|d| d.as_millis() as i64)
        .unwrap_or(0)
}

} // verus!
