//! An error of a host function that a caller can tell from a trap.
use vstd::prelude::*;

verus! {

/// A value that a host function failed with, kept as it is.
pub struct ApiError<T>(T);

impl<T> ApiError<T> {
    /// The value that the error holds.
    pub closed spec fn value(self) -> T {
        self.0
    }

    /// An error that holds `t`.
    pub fn new(t: T) -> (r: Self)
        ensures
            r.value() == t,
    {
        Self(t)
    }

    /// The value that the error holds.
    pub fn into_inner(self) -> (t: T)
        ensures
            t == self.value(),
    {
        self.0
    }
}

} // verus!
