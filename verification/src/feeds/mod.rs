//! Reading the market data streams.

use vstd::prelude::*;

pub mod binance;
pub mod polymarket;

verus! {

/// How long to wait, in milliseconds, before the first attempt to reconnect.
pub const FIRST_BACKOFF_MS: u64 = 1000;

/// The longest wait between two attempts to reconnect, in milliseconds.
pub const MAX_BACKOFF_MS: u64 = 10_000;

/// The wait after one more failed attempt.
pub open spec fn backoff_after(backoff_ms: int) -> int {
    if backoff_ms * 2 <= MAX_BACKOFF_MS {
        backoff_ms * 2
    } else {
        MAX_BACKOFF_MS as int
    }
}

/// The first wait is one second. A wait of up to five seconds doubles, a longer one becomes ten
/// seconds, and a longer wait is never followed by a shorter one than a shorter wait is.
pub proof fn law_backoff(a: int, b: int)
    requires
        0 <= a <= b,
    ensures
        FIRST_BACKOFF_MS == 1000,
        a <= 5000 ==> backoff_after(a) == a + a,
        a >= 5000 ==> backoff_after(a) == 10_000,
        backoff_after(a) <= backoff_after(b),
{
}

/// The wait after one more failed attempt: twice the last one, up to a limit.
pub fn next_backoff(backoff_ms: u64) -> (r: u64)
    requires
        backoff_ms * 2 <= u64::MAX,
    ensures
        r == if backoff_ms * 2 <= MAX_BACKOFF_MS {
            backoff_ms * 2
        } else {
            MAX_BACKOFF_MS as int
        },
        r == backoff_after(backoff_ms as int),
        FIRST_BACKOFF_MS <= backoff_ms <= MAX_BACKOFF_MS ==> backoff_ms <= r <= MAX_BACKOFF_MS,
{
    let doubled: u64 = backoff_ms * 2;
    if doubled <= MAX_BACKOFF_MS {
        doubled
    } else {
        MAX_BACKOFF_MS
    }
}

} // verus!
