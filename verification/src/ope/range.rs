//! Closed integer intervals.

use vstd::prelude::*;

verus! {

/// The closed interval `[start, end]` of unsigned 64-bit integers.
#[derive(Clone, Copy, Debug, PartialEq, Eq, Structural)]
pub struct Range {
    pub start: u64,
    pub end: u64,
}

impl Range {
    /// The interval is not empty and the number of its elements fits in 64 bits.
    pub open spec fn wf(&self) -> bool {
        self.start <= self.end && self.end - self.start < u64::MAX
    }

    /// The number of elements of a well-formed interval.
    pub open spec fn spec_size(&self) -> int {
        self.end - self.start + 1
    }

    /// Membership of `number` in the interval.
    pub open spec fn spec_contains(&self, number: u64) -> bool {
        self.start <= number && number <= self.end
    }

    /// Whether `number` lies in the interval.
    pub fn contains(&self, number: u64) -> (b: bool)
        ensures
            b == self.spec_contains(number),
    {
        self.start <= number && self.end >= number
    }

    /// The number of elements of the interval.
    pub fn size(&self) -> (n: u64)
        requires
            self.wf(),
        ensures
            n == self.spec_size(),
            n >= 1,
    {
        self.end - self.start + 1
    }

    /// A copy of the interval.
    pub fn copy(&self) -> (r: Range)
        ensures
            r == *self,
    {
        Range { start: self.start, end: self.end }
    }
}

} // verus!
