//! Optional timeouts, written as whole milliseconds.

use std::time::Duration;

use vstd::prelude::*;

verus! {

/// The length of a `std::time::Duration`, in nanoseconds.
pub uninterp spec fn duration_nanos(duration: Duration) -> nat;

/// The number of whole milliseconds in a timeout, or the largest `u64` where it has more.
pub open spec fn whole_millis(value: Option<Duration>) -> Option<u64> {
    match value {
        Some(duration) => if duration_nanos(duration) / 1_000_000 > u64::MAX {
            Some(u64::MAX)
        } else {
            Some((duration_nanos(duration) / 1_000_000) as u64)
        },
        None => None,
    }
}

/// `Duration::as_millis`: the whole milliseconds in a duration.
#[verifier::external_body]
fn duration_as_millis(duration: &Duration) -> (r: u128)
    ensures
        r == duration_nanos(*duration) / 1_000_000,
{
    duration.as_millis()
}

/// `Duration::from_millis`: a duration of that many milliseconds.
#[verifier::external_body]
pub(crate) fn duration_from_millis(millis: u64) -> (r: Duration)
    ensures
        duration_nanos(r) == millis * 1_000_000,
{
    Duration::from_millis(millis)
}

/// The equality of durations: that of their lengths.
#[verifier::external_body]
fn same_duration(a: &Duration, b: &Duration) -> (r: bool)
    ensures
        r == (duration_nanos(*a) == duration_nanos(*b)),
{
    a == b
}

/// The length of a timeout.
pub open spec fn timeout_nanos(value: Option<Duration>) -> Option<nat> {
    match value {
        Some(duration) => Some(duration_nanos(duration)),
        None => None,
    }
}

/// Whether two timeouts are equal.
pub fn same_timeout(a: &Option<Duration>, b: &Option<Duration>) -> (r: bool)
    ensures
        r == (timeout_nanos(*a) == timeout_nanos(*b)),
{
    match (a, b) {
        (Some(a), Some(b)) => same_duration(a, b),
        (None, None) => true,
        _ => false,
    }
}

/// The number that stands for a timeout.
pub fn serialize(value: &Option<Duration>) -> (r: Option<u64>)
    ensures
        r == whole_millis(*value),
{
    match value {
        Some(duration) => {
            let millis: u128 = duration_as_millis(duration);
            if millis > u64::MAX as u128 {
                Some(u64::MAX)
            } else {
                Some(millis as u64)
            }
        },
        None => None,
    }
}

/// The timeout that a number stands for: writing it gives the number back.
pub fn deserialize(millis: Option<u64>) -> (r: Option<Duration>)
    ensures
        match millis {
            Some(millis) => r is Some && duration_nanos(r->Some_0) == millis * 1_000_000,
            None => r is None,
        },
        whole_millis(r) == millis,
{
    match millis {
        Some(millis) => Some(duration_from_millis(millis)),
        None => None,
    }
}

} // verus!
