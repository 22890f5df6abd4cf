//! Plain values that cross the boundary to the operating system.

use vstd::prelude::*;

verus! {

/// An error of the platform, held by the code the platform reported.
#[derive(Clone, Copy, Debug, PartialEq, Eq, Structural)]
pub struct OsError {
    pub code: i32,
}

/// What one primitive handed back.
///
/// `value` is the primitive's return value, widened to the machine word: a
/// byte count, a status, a descriptor or the address of a session.
/// `last_error` is the platform's last reported error, read directly after
/// the call; it carries meaning only where `value` is a failure sentinel.
#[derive(Clone, Copy, Debug, PartialEq, Eq, Structural)]
pub struct Completion {
    pub value: isize,
    pub last_error: i32,
}

impl Completion {
    /// The error that a failed call propagates: the platform's last
    /// reported one, unchanged.
    pub open spec fn error(self) -> OsError {
        OsError { code: self.last_error }
    }

    /// Pairs a return value with the error code read after the call.
    pub fn new(value: isize, last_error: i32) -> (done: Completion)
        ensures
            done == (Completion { value, last_error }),
    {
        Completion { value, last_error }
    }

    /// The error to propagate when the call is found to have failed.
    pub fn into_error(self) -> (error: OsError)
        ensures
            error == self.error(),
    {
        OsError { code: self.last_error }
    }
}

} // verus!
