//! The phases of a combination of any number of sources, and what a round does to them.

use vstd::prelude::*;
use crate::stream::polled::Polled;

verus! {

/// What arrived for a combination of many sources since its last round.
#[derive(Debug)]
pub enum Arrival<T> {
    /// Every source has finished producing its first value: one entry per source, in
    /// the order of the sources, `None` for a source that ended without a value.
    Firsts(Vec<Option<T>>),
    /// The completions that were ready, in the order in which they arrived. Each names
    /// its source by index and carries that source's next value, or `None` if the
    /// source has ended.
    Completions(Vec<(usize, Option<T>)>),
}

/// Where a combination of many sources stands.
pub enum Phase<T> {
    /// Waiting for the first value of every source.
    Filling,
    /// Steady state: `items` holds the latest value of each source, by index, and
    /// `pending` the indices of the sources that have not ended.
    Filled { items: Seq<T>, pending: Set<int> },
    /// Over: nothing is polled any more.
    Terminated,
}

/// The value that the last value-carrying completion for source `i` holds, if there is
/// one among `completions`.
pub open spec fn latest_in<T>(completions: Seq<(usize, Option<T>)>, i: int) -> Option<T>
    decreases completions.len(),
{
    if completions.len() == 0 {
        None
    } else if completions.last().0 == i && completions.last().1 is Some {
        completions.last().1
    } else {
        latest_in(completions.drop_last(), i)
    }
}

/// The latest values once `completions` have been taken in: the value that arrived for
/// a source where one did, the earlier value elsewhere.
pub open spec fn refreshed<T>(items: Seq<T>, completions: Seq<(usize, Option<T>)>) -> Seq<T> {
    Seq::new(
        items.len(),
        |i: int|
            match latest_in(completions, i) {
                Some(x) => x,
                None => items[i],
            },
    )
}

/// Whether one of `completions` carries a value.
pub open spec fn advanced<T>(completions: Seq<(usize, Option<T>)>) -> bool {
    exists|k: int| 0 <= k < completions.len() && (#[trigger] completions[k]).1 is Some
}

/// Whether one of `completions` reports the end of source `i`.
pub open spec fn ended_in<T>(completions: Seq<(usize, Option<T>)>, i: int) -> bool {
    exists|k: int|
        0 <= k < completions.len() && (#[trigger] completions[k]).0 == i && completions[k].1 is None
}

/// Each source completes at most once in `completions`.
pub open spec fn one_per_source<T>(completions: Seq<(usize, Option<T>)>) -> bool {
    forall|j: int, k: int|
        0 <= j < k < completions.len() ==> (#[trigger] completions[j]).0 != (
        #[trigger] completions[k]).0
}

impl<T> Phase<T> {
    /// In the steady state the pending sources are among those that `items` has a value
    /// for.
    pub open spec fn wf(self) -> bool {
        self matches Phase::Filled { items, pending } ==> forall|i: int|
            pending.contains(i) ==> 0 <= i < items.len()
    }

    /// The end of the fill: if every source produced a first value, these values become
    /// the latest ones, every source is pending, and the values are reported as the
    /// first snapshot; if any source ended without a value, the combination is over.
    /// Only which sources produced a value decides, not the order in which they did.
    pub open spec fn fill(firsts: Seq<Option<T>>) -> (Phase<T>, Polled<Seq<T>>) {
        if forall|i: int| 0 <= i < firsts.len() ==> (#[trigger] firsts[i]) is Some {
            let items = Seq::new(firsts.len(), |i: int| firsts[i].unwrap());
            (
                Phase::Filled { items, pending: Set::new(|i: int| 0 <= i < firsts.len()) },
                Polled::Item(items),
            )
        } else {
            (Phase::Terminated, Polled::Ended)
        }
    }

    /// A round of the steady state: the completions are taken in, the sources that ended
    /// leave the pending set, and the round reports one snapshot of the latest values
    /// if any source advanced, the end if no source is pending any more, and nothing
    /// otherwise.
    pub open spec fn drain(self, completions: Seq<(usize, Option<T>)>) -> (
        Phase<T>,
        Polled<Seq<T>>,
    ) {
        match self {
            Phase::Filled { items, pending } => {
                let items = refreshed(items, completions);
                let pending = pending.filter(|i: int| !ended_in(completions, i));
                if advanced(completions) {
                    (Phase::Filled { items, pending }, Polled::Item(items))
                } else if pending =~= Set::empty() {
                    (Phase::Terminated, Polled::Ended)
                } else {
                    (Phase::Filled { items, pending }, Polled::NotReady)
                }
            },
            _ => (Phase::Terminated, Polled::Ended),
        }
    }

    /// Whether `arrival` is what this phase waits for: the first values while filling;
    /// in the steady state completions of pending sources, at most one for each.
    pub open spec fn accepts(self, arrival: Arrival<T>) -> bool {
        match (self, arrival) {
            (Phase::Filling, Arrival::Firsts(_)) => true,
            (Phase::Filled { items, pending }, Arrival::Completions(completions)) => {
                &&& one_per_source(completions@)
                &&& forall|k: int|
                    0 <= k < completions@.len() ==> pending.contains(
                        (#[trigger] completions@[k]).0 as int,
                    )
            },
            _ => false,
        }
    }

    /// One round, in whichever phase.
    pub open spec fn step(self, arrival: Arrival<T>) -> (Phase<T>, Polled<Seq<T>>) {
        match arrival {
            Arrival::Firsts(firsts) => Phase::fill(firsts@),
            Arrival::Completions(completions) => self.drain(completions@),
        }
    }
}

} // verus!
