//! The configuration and error of the timeout middleware; the race between
//! the call and the timer is run by the caller.
use vstd::prelude::*;

verus! {

/// Fails requests that take longer than a duration, in milliseconds.
#[derive(Clone, Copy, Debug)]
pub struct Timeout {
    duration_ms: u64,
}

impl Timeout {
    pub fn new(duration_ms: u64) -> (r: Timeout)
        ensures
            r.duration_ms() == duration_ms,
    {
        Timeout { duration_ms }
    }

    pub closed spec fn duration_ms(&self) -> u64 {
        self.duration_ms
    }

    /// The configured limit.
    pub fn duration(&self) -> (r: u64)
        ensures
            r == self.duration_ms(),
    {
        self.duration_ms
    }
}

/// A request ran past its limit; no partial response is kept.
#[derive(Clone, Copy, Debug, PartialEq, Eq, Structural)]
pub struct TimeoutError;

impl TimeoutError {
    /// `504 Gateway Timeout`.
    pub fn status(&self) -> (r: u16)
        ensures
            r == 504,
    {
        504
    }

    pub fn message(&self) -> (r: &'static str)
        ensures
            r@ == "request timed out"@,
    {
        "request timed out"
    }
}

} // verus!
