//! Page sizes.

use vstd::prelude::*;

verus! {

/// The limit that is asked for, or `default`, held between `low` and `high`.
pub open spec fn clamped(asked: Option<i64>, default: i64, low: i64, high: i64) -> i64 {
    let n = match asked {
        Some(n) => n,
        None => default,
    };
    if n < low {
        low
    } else if n > high {
        high
    } else {
        n
    }
}

/// The limit that is asked for, or `default`, held between `low` and `high`.
pub fn clamp(asked: Option<i64>, default: i64, low: i64, high: i64) -> (r: i64)
    requires
        low <= high,
    ensures
        r == clamped(asked, default, low, high),
        low <= r <= high,
{
    let n: i64 = match asked {
        Some(n) => n,
        None => default,
    };
    if n < low {
        low
    } else if n > high {
        high
    } else {
        n
    }
}

/// Whether a page is full, so that more may follow.
pub fn is_full(rows: usize, limit: i64) -> (r: bool)
    ensures
        r == (rows == limit),
{
    limit >= 0 && rows as u64 == limit as u64
}

/// A limit within the bounds is taken as it is; one outside them is moved to the
/// nearer bound, and where none is asked for the default is taken.
pub proof fn limits_are_held(asked: Option<i64>, default: i64, low: i64, high: i64)
    requires
        low <= default <= high,
    ensures
        asked is None ==> clamped(asked, default, low, high) == default,
        asked matches Some(n) ==> {
            &&& low <= n <= high ==> clamped(asked, default, low, high) == n
            &&& n < low ==> clamped(asked, default, low, high) == low
            &&& n > high ==> clamped(asked, default, low, high) == high
        },
{
}

} // verus!
