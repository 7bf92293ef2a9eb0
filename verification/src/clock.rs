//! Wall-clock and monotonic time, read from the standard library.
//!
//! What these readings are depends on when they are taken, so nothing is
//! promised about their values.
use vstd::prelude::*;

use std::time::{Duration, Instant, SystemTime};

verus! {

/// A point on the monotonic clock (`std::time::Instant`).
#[verifier::external_type_specification]
#[verifier::external_body]
pub struct ExInstant(Instant);

/// A point on the wall clock (`std::time::SystemTime`).
#[verifier::external_type_specification]
#[verifier::external_body]
pub struct ExSystemTime(SystemTime);

/// Calls `Instant::now`: the current monotonic time.
#[verifier::external_body]
pub(crate) fn instant_now() -> Instant {
    Instant::now()
}

/// Calls `Instant::elapsed`: the time since `at`.
#[verifier::external_body]
pub(crate) fn instant_elapsed(at: &Instant) -> Duration {
    at.elapsed()
}

/// Calls `Duration::as_nanos`: the whole length in nanoseconds.
#[verifier::external_body]
pub(crate) fn duration_as_nanos(d: &Duration) -> u128 {
    d.as_nanos()
}

/// For each age, whether it is at most `max_ns`.
pub open spec fn within_age(ages_ns: Seq<u128>, max_ns: u128) -> Seq<bool> {
    Seq::new(ages_ns.len(), |i: int| ages_ns[i] <= max_ns)
}

/// For each age, whether it is at most `max_ns`.
pub fn age_marks(ages_ns: &[u128], max_ns: u128) -> (r: Vec<bool>)
    ensures
        r@ == within_age(ages_ns@, max_ns),
{
    let mut marks: Vec<bool> = Vec::new();
    let mut i: usize = 0;
    while i < ages_ns.len()
        invariant
            i <= ages_ns@.len(),
            marks@ == within_age(ages_ns@.take(i as int), max_ns),
        decreases ages_ns@.len() - i,
    {
        marks.push(ages_ns[i] <= max_ns);
        i = i + 1;
        proof {
            assert(marks@ =~= within_age(ages_ns@.take(i as int), max_ns));
        }
    }
    proof {
        assert(ages_ns@.take(i as int) =~= ages_ns@);
    }
    marks
}

/// Calls `Duration::from_secs`.
#[verifier::external_body]
pub(crate) fn duration_from_secs(secs: u64) -> Duration {
    Duration::from_secs(secs)
}

/// Calls `SystemTime::duration_since`: how long after `earlier` the time
/// `later` is, `None` when `later` is earlier, which nothing here states.
#[verifier::external_body]
pub(crate) fn system_duration_since(later: &SystemTime, earlier: &SystemTime) -> Option<Duration> {
    later.duration_since(*earlier).ok()
}

/// Calls `SystemTime::now`: the current wall-clock time.
#[verifier::external_body]
pub(crate) fn system_now() -> SystemTime {
    SystemTime::now()
}

} // verus!
