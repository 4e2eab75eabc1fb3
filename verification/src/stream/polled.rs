use vstd::prelude::*;

verus! {

/// What one non-blocking poll of a source of values came back with.
#[derive(Debug, PartialEq, Eq)]
pub enum Polled<T> {
    /// The source produced a value.
    Item(T),
    /// The source has ended and will produce nothing more.
    Ended,
    /// Nothing is available yet; the source will wake the task when that changes.
    NotReady,
}

impl<T> Polled<T> {
    /// Number of values carried: one for `Item`, none otherwise.
    pub open spec fn emissions(self) -> nat {
        if self is Item {
            1
        } else {
            0
        }
    }
}

} // verus!
