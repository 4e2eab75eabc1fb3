//! Tools for futures.

use vstd::prelude::*;

verus! {

/// Returns a future that is not ready the first time it is polled and ready afterwards.
pub fn yield_now() -> (future: YieldNow)
    ensures
        !future.polled(),
{
    YieldNow(false)
}

/// Future returned by [`yield_now`].
#[derive(Debug)]
pub struct YieldNow(bool);

impl YieldNow {
    /// Whether the future has been polled before.
    pub closed spec fn polled(&self) -> bool {
        self.0
    }

    /// One poll. Returns whether the future is ready: not at the first poll, and at
    /// every poll after it. When it is not ready, the task is to be woken at once, so
    /// that it polls again.
    pub fn poll(&mut self) -> (ready: bool)
        ensures
            ready == old(self).polled(),
            final(self).polled(),
    {
        if self.0 {
            true
        } else {
            self.0 = true;
            false
        }
    }
}

} // verus!
