//! Half-open genomic interval `[start, end)` with `start < end`.

use vstd::prelude::*;

use crate::errors::ModelError;

verus! {

/// A half-open interval `[start, end)` of 0-based genomic coordinates.
#[derive(Debug, Clone, Copy, PartialEq, Eq, Structural)]
pub struct Interval {
    /// Inclusive start coordinate.
    pub start: u64,
    /// Exclusive end coordinate.
    pub end: u64,
}

impl Interval {
    /// A valid interval has a start coordinate strictly below its end.
    pub open spec fn valid(self) -> bool {
        self.start < self.end
    }

    /// The number of bases spanned, as a spec value.
    pub open spec fn spec_span(self) -> int {
        self.end - self.start
    }

    /// Creates a new interval, rejecting any pair with `start >= end`.
    pub fn new(start: u64, end: u64) -> (r: Result<Interval, ModelError>)
        ensures
            start < end <==> r is Ok,
            r matches Ok(i) ==> i.start == start && i.end == end && i.valid(),
            r matches Err(e) ==> e == ModelError::InvalidInterval,
    {
        if start < end {
            Ok(Interval { start, end })
        } else {
            Err(ModelError::InvalidInterval)
        }
    }

    /// Returns the number of bases spanned by the interval.
    pub fn span(&self) -> (r: u64)
        requires
            self.valid(),
        ensures
            r == self.spec_span(),
    {
        self.end - self.start
    }
}

} // verus!
