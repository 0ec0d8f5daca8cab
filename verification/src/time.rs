//! Spans of time, counted in nanoseconds.

use vstd::prelude::*;

verus! {

/// A span of time in nanoseconds.
pub type Nanos = u128;

/// One second.
pub const SECOND: u128 = 1_000_000_000;

/// One millisecond.
pub const MILLISECOND: u128 = 1_000_000;

/// `n` seconds.
pub fn seconds(n: u64) -> (r: Nanos)
    ensures
        r == n * SECOND,
{
    proof {
        assert(n * 1_000_000_000 <= 18446744073709551615 * 1_000_000_000) by (nonlinear_arith)
            requires
                n <= 18446744073709551615,
        ;
    }
    n as u128 * SECOND
}

/// `n` milliseconds.
pub fn milliseconds(n: u64) -> (r: Nanos)
    ensures
        r == n * MILLISECOND,
{
    proof {
        assert(n * 1_000_000 <= 18446744073709551615 * 1_000_000) by (nonlinear_arith)
            requires
                n <= 18446744073709551615,
        ;
    }
    n as u128 * MILLISECOND
}

} // verus!
