use vstd::prelude::*;
use crate::stream::multiplex::{Arrival, Phase};
use crate::stream::polled::Polled;
use crate::stream::zip_latest_with_all::Inner;

verus! {

/// Whether `copy` holds a clone of each of `items`, in the same order.
pub open spec fn cloned_each<T: Clone>(items: Seq<T>, copy: Seq<T>) -> bool {
    &&& copy.len() == items.len()
    &&& forall|i: int| 0 <= i < items.len() ==> cloned(#[trigger] items[i], copy[i])
}

/// Combines any number of sources into snapshots of their latest values: after every
/// source has produced a first value, each round in which at least one source advances
/// reports a copy of all the latest values, by index of the source.
///
/// `T` is the item type of the sources.
pub struct ZipLatestAll<T> {
    inner: Inner<T>,
}

impl<T> View for ZipLatestAll<T> {
    type V = Phase<T>;

    closed spec fn view(&self) -> Phase<T> {
        self.inner.phase()
    }
}

impl<T: Clone> ZipLatestAll<T> {
    /// The bookkeeping is consistent.
    pub closed spec fn wf(&self) -> bool {
        self.inner.wf()
    }

    /// A combination that waits for the first values.
    pub fn new() -> (zip: Self)
        ensures
            zip.wf(),
            zip@ == Phase::<T>::Filling,
    {
        ZipLatestAll { inner: Inner::new() }
    }

    /// Whether `arrival` is what the combination waits for, so that `poll_next` may be
    /// called with it.
    pub fn accepts(&self, arrival: &Arrival<T>) -> (r: bool)
        requires
            self.wf(),
        ensures
            r == self@.accepts(*arrival),
    {
        self.inner.accepts(arrival)
    }

    /// One round: takes in what arrived and reports a copy of the snapshot, the end, or
    /// nothing yet.
    pub fn poll_next(&mut self, arrival: Arrival<T>) -> (out: Polled<Vec<T>>)
        requires
            old(self).wf(),
            old(self)@.accepts(arrival),
        ensures
            final(self).wf(),
            final(self)@.wf(),
            final(self)@ == old(self)@.step(arrival).0,
            match old(self)@.step(arrival).1 {
                Polled::Item(items) => out matches Polled::Item(copy) && cloned_each(items, copy@),
                Polled::Ended => out is Ended,
                Polled::NotReady => out is NotReady,
            },
    {
        match self.inner.advance(arrival) {
            Polled::Item(()) => Polled::Item(self.inner.items().clone()),
            Polled::Ended => Polled::Ended,
            Polled::NotReady => Polled::NotReady,
        }
    }

    /// Whether the combination is over and must not be polled again.
    pub fn is_terminated(&self) -> (r: bool)
        ensures
            r == (self@ is Terminated),
    {
        self.inner.is_terminated()
    }
}

} // verus!
