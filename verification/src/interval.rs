//! Interval definition.

use vstd::prelude::*;

verus! {

/// A span of time between two bounds.
pub trait Interval {
    /// The lower bound, as contracts speak of it.
    spec fn spec_lo(&self) -> i64;

    /// The upper bound, as contracts speak of it.
    spec fn spec_hi(&self) -> i64;

    /// Returns the lower bound of the interval.
    fn lo(&self) -> (lo: i64)
        ensures
            lo == self.spec_lo(),
    ;

    /// Returns the upper bound of the interval.
    fn hi(&self) -> (hi: i64)
        ensures
            hi == self.spec_hi(),
    ;
}

#[derive(Debug, PartialEq)]
pub enum Error {
    /// An interval takes one or two bounds.
    NotAnInterval,
}

/// The time between two instants, both of them included.
#[derive(Clone, Copy, Debug, PartialEq, Eq)]
pub struct Period {
    pub lo: i64,
    pub hi: i64,
}

impl Interval for Period {
    open spec fn spec_lo(&self) -> i64 {
        self.lo
    }

    open spec fn spec_hi(&self) -> i64 {
        self.hi
    }

    fn lo(&self) -> (lo: i64) {
        self.lo
    }

    fn hi(&self) -> (hi: i64) {
        self.hi
    }
}

impl Period {
    /// Makes a period of its bounds: a single bound is both the lower and
    /// the upper one, and of two the first is the lower and the second the
    /// upper. Any other number of bounds is refused.
    pub fn from_bounds(bounds: &[i64]) -> (outcome: Result<Period, Error>)
        ensures
            outcome == (if bounds@.len() == 1 {
                Ok(Period { lo: bounds@[0], hi: bounds@[0] })
            } else if bounds@.len() == 2 {
                Ok(Period { lo: bounds@[0], hi: bounds@[1] })
            } else {
                Err(Error::NotAnInterval)
            }),
    {
        if bounds.len() == 1 {
            Ok(Period { lo: bounds[0], hi: bounds[0] })
        } else if bounds.len() == 2 {
            Ok(Period { lo: bounds[0], hi: bounds[1] })
        } else {
            Err(Error::NotAnInterval)
        }
    }
}

} // verus!
