//! Errors that carry a value along.

use vstd::prelude::*;

verus! {

/// An error along with the value that it was raised on, so that the value
/// is not lost with the failure.
#[derive(Debug)]
pub struct PoisonError<T, E> {
    pub inner: T,
    pub error: E,
}

impl<T, E> PoisonError<T, E> {
    /// Creates the error raised on the given value.
    pub fn new(inner: T, error: E) -> (poison: Self)
        ensures
            poison.inner == inner,
            poison.error == error,
    {
        PoisonError { inner, error }
    }
}

} // verus!
