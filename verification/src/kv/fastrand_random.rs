use vstd::prelude::*;
use std::ops::Range;

verus! {

/// Randomness drawn from the process-wide `fastrand` generator. A draw
/// depends on the generator's hidden state, so only the documented range
/// bound holds of every outcome; nothing else is assumed.
pub struct FastrandRandom;

impl FastrandRandom {
    pub fn new() -> (r: Self) {
        FastrandRandom
    }

    /// Relies on fastrand::usize: a draw from a nonempty range stays in it
    /// (the callee panics on an empty range, which the bound rules out).
    #[verifier::external_body]
    pub fn usize(&self, range: Range<usize>) -> (r: usize)
        requires
            range.start < range.end,
        ensures
            range.start <= r < range.end,
    {
        fastrand::usize(range)
    }

    /// Relies on fastrand::bool: either answer can come back, so nothing
    /// is promised of the result.
    #[verifier::external_body]
    pub fn bool(&self) -> bool {
        fastrand::bool()
    }

    /// Relies on fastrand::u32: a draw from a nonempty range stays in it.
    #[verifier::external_body]
    pub fn u32(&self, range: Range<u32>) -> (r: u32)
        requires
            range.start < range.end,
        ensures
            range.start <= r < range.end,
    {
        fastrand::u32(range)
    }
}

} // verus!
