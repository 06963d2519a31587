//! Whole seconds between two instants, each given in nanoseconds since the Unix
//! epoch.

use vstd::prelude::*;

verus! {

/// The whole seconds of a span of nanoseconds, rounded toward zero: negative
/// where the span is a second or more backward.
pub open spec fn whole_seconds(nanos: int) -> int {
    if nanos >= 0 {
        nanos / 1_000_000_000
    } else {
        -((-nanos) / 1_000_000_000)
    }
}

/// Measures the whole seconds from one instant to another; there is no answer
/// where they do not fit in 64 bits.
pub fn seconds_until(from_nanos: i128, to_nanos: i128) -> (seconds: Option<i64>)
    ensures
        seconds == if i64::MIN <= whole_seconds(to_nanos - from_nanos) <= i64::MAX {
            Some(whole_seconds(to_nanos - from_nanos) as i64)
        } else {
            None
        },
{
    let span = match to_nanos.checked_sub(from_nanos) {
        Some(span) => span,
        None => {
            return None;
        },
    };
    if span == i128::MIN {
        return None;
    }
    let seconds = if span >= 0 {
        span / 1_000_000_000
    } else {
        -((-span) / 1_000_000_000)
    };
    if seconds < i64::MIN as i128 || seconds > i64::MAX as i128 {
        None
    } else {
        Some(seconds as i64)
    }
}

} // verus!
