use vstd::prelude::*;
use crate::stream::multiplex::{
    advanced, ended_in, latest_in, one_per_source, refreshed, Arrival, Phase,
};
use crate::stream::polled::Polled;

verus! {

/// Whether `out` is what `combine` may return for a snapshot holding `items`.
pub open spec fn combined<T, F: FnMut(&[T]) -> Out, Out>(
    combine: F,
    items: Seq<T>,
    out: Out,
) -> bool {
    exists|snapshot: &[T]| snapshot@ == items && call_ensures(combine, (snapshot,), out)
}

/// Combines any number of sources with a caller-supplied function, always on the latest
/// value of each: after every source has produced a first value, each round in which at
/// least one source advances reports the function applied to one snapshot of all the
/// latest values.
///
/// `T` is the item type of the sources; `F` combines a snapshot.
pub struct ZipLatestWithAll<T, F> {
    inner: Inner<T>,
    combine: F,
}

impl<T, F> View for ZipLatestWithAll<T, F> {
    type V = Phase<T>;

    closed spec fn view(&self) -> Phase<T> {
        self.inner.phase()
    }
}

impl<T, F, Out> ZipLatestWithAll<T, F> where F: FnMut(&[T]) -> Out {
    /// The combining function.
    pub closed spec fn combiner(&self) -> F {
        self.combine
    }

    /// The bookkeeping is consistent and the combining function accepts every snapshot.
    pub closed spec fn wf(&self) -> bool {
        &&& self.inner.wf()
        &&& forall|items: &[T]| call_requires(self.combine, (items,))
    }

    /// A combination that waits for the first values. `combine` must accept every
    /// snapshot.
    pub fn new(combine: F) -> (zip: Self)
        requires
            forall|items: &[T]| call_requires(combine, (items,)),
        ensures
            zip.wf(),
            zip@ == Phase::<T>::Filling,
            zip.combiner() == combine,
    {
        ZipLatestWithAll { inner: Inner::new(), combine }
    }

    /// Whether `arrival` is what the combination waits for, so that `poll_next` may be
    /// called with it.
    pub fn accepts(&self, arrival: &Arrival<T>) -> (r: bool)
        requires
            self.wf(),
        ensures
            r == self@.accepts(*arrival),
    {
        self.inner.accepts(arrival)
    }

    /// One round: takes in what arrived and reports the combined snapshot, the end, or
    /// nothing yet.
    pub fn poll_next(&mut self, arrival: Arrival<T>) -> (out: Polled<Out>)
        requires
            old(self).wf(),
            old(self)@.accepts(arrival),
        ensures
            final(self).wf(),
            final(self)@.wf(),
            final(self)@ == old(self)@.step(arrival).0,
            final(self).combiner() == old(self).combiner(),
            match old(self)@.step(arrival).1 {
                Polled::Item(items) => out matches Polled::Item(o) && combined(
                    old(self).combiner(),
                    items,
                    o,
                ),
                Polled::Ended => out is Ended,
                Polled::NotReady => out is NotReady,
            },
    {
        match self.inner.advance(arrival) {
            Polled::Item(()) => {
                let snapshot = self.inner.items().as_slice();
                Polled::Item((self.combine)(snapshot))
            },
            Polled::Ended => Polled::Ended,
            Polled::NotReady => Polled::NotReady,
        }
    }

    /// Whether the combination is over and must not be polled again.
    pub fn is_terminated(&self) -> (r: bool)
        ensures
            r == (self@ is Terminated),
    {
        self.inner.is_terminated()
    }
}

/// A source together with its position among the sources of a combination.
pub struct IndexedStream<S> {
    /// Position of the source.
    pub i: usize,
    /// The source.
    pub s: S,
}

impl<S> IndexedStream<S> {
    /// Pairs the source `s` with its position `i`.
    pub fn new(i: usize, s: S) -> (indexed: Self)
        ensures
            indexed.i == i,
            indexed.s == s,
    {
        Self { i, s }
    }

    /// What a poll of the indexed source reports, given what the poll of the source
    /// itself came back with: a value is tagged with the position.
    pub fn poll_next<T>(&self, polled: Polled<T>) -> (out: Polled<(usize, T)>)
        ensures
            out == match polled {
                Polled::Item(x) => Polled::Item((self.i, x)),
                Polled::Ended => Polled::Ended,
                Polled::NotReady => Polled::NotReady,
            },
    {
        match polled {
            Polled::Item(x) => Polled::Item((self.i, x)),
            Polled::Ended => Polled::Ended,
            Polled::NotReady => Polled::NotReady,
        }
    }
}

/// The phase a combination of many sources is in, with its bookkeeping.
pub(crate) enum Inner<T> {
    Fill,
    Filled(Filled<T>),
    Terminated,
}

/// Bookkeeping of the steady state: the latest value of every source, and for every
/// source whether it is still pending, both by index.
pub(crate) struct Filled<T> {
    items: Vec<T>,
    alive: Vec<bool>,
}

impl<T> Filled<T> {
    pub(crate) closed spec fn wf(&self) -> bool {
        self.alive.len() == self.items.len()
    }

    pub(crate) closed spec fn pending(&self) -> Set<int> {
        Set::new(|i: int| 0 <= i < self.alive.len() && self.alive[i])
    }

    pub(crate) closed spec fn latest(&self) -> Seq<T> {
        self.items@
    }

    /// The steady state that the first values lead to, if every source has one.
    fn from_firsts(firsts: Vec<Option<T>>) -> (filled: Option<Filled<T>>)
        ensures
            match filled {
                Some(f) => f.wf() && Phase::fill(firsts@).0 == (Phase::Filled {
                    items: f.latest(),
                    pending: f.pending(),
                }),
                None => Phase::fill(firsts@).0 is Terminated,
            },
    {
        let ghost all = firsts@;
        let mut items: Vec<T> = Vec::new();
        let mut alive: Vec<bool> = Vec::new();
        for first in it: firsts.into_iter()
            invariant
                it.seq() == all,
                items.len() == it.index(),
                alive.len() == it.index(),
                forall|i: int| 0 <= i < it.index() ==> (#[trigger] all[i]) == Some(items[i]),
                forall|i: int| 0 <= i < it.index() ==> #[trigger] alive[i],
        {
            match first {
                Some(x) => {
                    items.push(x);
                    alive.push(true);
                },
                None => {
                    return None;
                },
            }
        }
        let filled = Filled { items, alive };
        proof {
            assert(filled.latest() =~= Seq::new(all.len(), |i: int| all[i].unwrap()));
            assert(filled.pending() =~= Set::new(|i: int| 0 <= i < all.len()));
        }
        Some(filled)
    }

    /// Takes the completions in, in their order of arrival; returns whether any source
    /// advanced.
    fn drain(&mut self, completions: Vec<(usize, Option<T>)>) -> (any: bool)
        requires
            old(self).wf(),
            forall|k: int|
                0 <= k < completions@.len() ==> old(self).pending().contains(
                    (#[trigger] completions@[k]).0 as int,
                ),
        ensures
            final(self).wf(),
            final(self).latest() == refreshed(old(self).latest(), completions@),
            final(self).pending() == old(self).pending().filter(
                |i: int| !ended_in(completions@, i),
            ),
            any == advanced(completions@),
    {
        let ghost all = completions@;
        let ghost before = *self;
        let mut any = false;
        for completion in it: completions.into_iter()
            invariant
                it.seq() == all,
                self.items.len() == before.items.len(),
                self.alive.len() == before.items.len(),
                before.alive.len() == before.items.len(),
                forall|k: int|
                    0 <= k < all.len() ==> 0 <= (#[trigger] all[k]).0 < before.items.len(),
                self.items@ == refreshed(before.items@, all.take(it.index())),
                forall|i: int|
                    0 <= i < self.alive.len() ==> #[trigger] self.alive[i] == (before.alive[i]
                        && !ended_in(all.take(it.index()), i)),
                any == advanced(all.take(it.index())),
        {
            let ghost k = it.index();
            proof {
                lemma_take_next(all, k);
            }
            match completion {
                (i, Some(head)) => {
                    self.items[i] = head;
                    any = true;
                },
                (i, None) => {
                    self.alive[i] = false;
                },
            }
            proof {
                assert(self.items@ =~= refreshed(before.items@, all.take(k + 1)));
            }
        }
        proof {
            assert(all.take(all.len() as int) =~= all);
            assert(self.pending() =~= before.pending().filter(|i: int| !ended_in(all, i)));
        }
        any
    }

    /// Whether the completions are of pending sources, at most one of each.
    fn admits(&self, completions: &Vec<(usize, Option<T>)>) -> (r: bool)
        requires
            self.wf(),
        ensures
            r == {
                &&& one_per_source(completions@)
                &&& forall|k: int|
                    0 <= k < completions@.len() ==> self.pending().contains(
                        (#[trigger] completions@[k]).0 as int,
                    )
            },
    {
        let mut seen: Vec<bool> = Vec::new();
        while seen.len() < self.alive.len()
            invariant
                seen.len() <= self.alive.len(),
                forall|i: int| 0 <= i < seen.len() ==> !seen[i],
            decreases self.alive.len() - seen.len(),
        {
            seen.push(false);
        }
        let mut k: usize = 0;
        while k < completions.len()
            invariant
                k <= completions.len(),
                seen.len() == self.alive.len(),
                forall|j: int|
                    0 <= j < k ==> self.pending().contains((#[trigger] completions@[j]).0 as int),
                forall|j: int, m: int|
                    0 <= j < m < k ==> (#[trigger] completions@[j]).0 != (
                    #[trigger] completions@[m]).0,
                forall|i: int|
                    0 <= i < seen.len() ==> (seen[i] <==> exists|j: int|
                        0 <= j < k && (#[trigger] completions@[j]).0 == i),
            decreases completions.len() - k,
        {
            let i = completions[k].0;
            if i >= self.alive.len() || !self.alive[i] {
                assert(!self.pending().contains(completions@[k as int].0 as int));
                return false;
            }
            if seen[i] {
                proof {
                    let j = choose|j: int| 0 <= j < k && (#[trigger] completions@[j]).0 == i;
                    assert(completions@[j].0 == completions@[k as int].0);
                }
                return false;
            }
            let ghost seen0 = seen@;
            seen[i] = true;
            proof {
                assert forall|n: int| 0 <= n < seen.len() implies (seen[n] <==> exists|j: int|
                    0 <= j < k + 1 && (#[trigger] completions@[j]).0 == n) by {
                    if n == i {
                        assert(completions@[k as int].0 == n);
                    } else {
                        if seen0[n] {
                            let j = choose|j: int|
                                0 <= j < k && (#[trigger] completions@[j]).0 == n;
                            assert(0 <= j < k + 1 && completions@[j].0 == n);
                        }
                        if exists|j: int| 0 <= j < k + 1 && (#[trigger] completions@[j]).0 == n {
                            let j = choose|j: int|
                                0 <= j < k + 1 && (#[trigger] completions@[j]).0 == n;
                            assert(j < k);
                        }
                    }
                }
                assert forall|j: int, m: int| 0 <= j < m < k + 1 implies (
                #[trigger] completions@[j]).0 != (#[trigger] completions@[m]).0 by {
                    if m == k && completions@[j].0 == i {
                        assert(seen0[i as int]);
                    }
                }
            }
            k += 1;
        }
        true
    }

    /// Whether any source is still pending.
    fn any_pending(&self) -> (r: bool)
        requires
            self.wf(),
        ensures
            r == !(self.pending() =~= Set::empty()),
    {
        let mut i: usize = 0;
        while i < self.alive.len()
            invariant
                i <= self.alive.len(),
                forall|j: int| 0 <= j < i ==> !self.alive[j],
            decreases self.alive.len() - i,
        {
            if self.alive[i] {
                assert(self.pending().contains(i as int));
                return true;
            }
            i += 1;
        }
        false
    }
}

/// How the completions taken in so far change when the next one is taken in.
proof fn lemma_take_next<T>(all: Seq<(usize, Option<T>)>, k: int)
    requires
        0 <= k < all.len(),
    ensures
        forall|i: int|
            #[trigger] latest_in(all.take(k + 1), i) == if all[k].0 == i && all[k].1 is Some {
                all[k].1
            } else {
                latest_in(all.take(k), i)
            },
        forall|i: int|
            #[trigger] ended_in(all.take(k + 1), i) == (ended_in(all.take(k), i) || (all[k].0 == i
                && all[k].1 is None)),
        advanced(all.take(k + 1)) == (advanced(all.take(k)) || all[k].1 is Some),
{
    let longer = all.take(k + 1);
    let shorter = all.take(k);
    assert(longer.drop_last() =~= shorter);
    assert(longer.last() == all[k]);
    assert forall|i: int|
        #[trigger] ended_in(longer, i) == (ended_in(shorter, i) || (all[k].0 == i
            && all[k].1 is None)) by {
        if ended_in(shorter, i) {
            let j = choose|j: int|
                0 <= j < shorter.len() && (#[trigger] shorter[j]).0 == i && shorter[j].1 is None;
            assert(longer[j] == shorter[j]);
        }
        if all[k].0 == i && all[k].1 is None {
            assert(longer[k] == all[k]);
        }
        if ended_in(longer, i) {
            let j = choose|j: int|
                0 <= j < longer.len() && (#[trigger] longer[j]).0 == i && longer[j].1 is None;
            if j < k {
                assert(shorter[j] == longer[j]);
            }
        }
    }
    if advanced(shorter) {
        let j = choose|j: int| 0 <= j < shorter.len() && (#[trigger] shorter[j]).1 is Some;
        assert(longer[j] == shorter[j]);
    }
    if all[k].1 is Some {
        assert(longer[k] == all[k]);
    }
    if advanced(longer) {
        let j = choose|j: int| 0 <= j < longer.len() && (#[trigger] longer[j]).1 is Some;
        if j < k {
            assert(shorter[j] == longer[j]);
        }
    }
}

impl<T> Inner<T> {
    pub(crate) closed spec fn wf(&self) -> bool {
        self matches Inner::Filled(filled) ==> filled.wf()
    }

    pub(crate) closed spec fn phase(&self) -> Phase<T> {
        match self {
            Inner::Fill => Phase::Filling,
            Inner::Filled(filled) => Phase::Filled {
                items: filled.latest(),
                pending: filled.pending(),
            },
            Inner::Terminated => Phase::Terminated,
        }
    }

    /// The bookkeeping of a combination that waits for the first values.
    pub(crate) fn new() -> (inner: Self)
        ensures
            inner.wf(),
            inner.phase() == Phase::<T>::Filling,
    {
        Inner::Fill
    }

    /// Whether the combination is over.
    pub(crate) fn is_terminated(&self) -> (r: bool)
        ensures
            r == (self.phase() is Terminated),
    {
        match self {
            Inner::Terminated => true,
            _ => false,
        }
    }

    /// Whether `arrival` is what the phase waits for.
    pub(crate) fn accepts(&self, arrival: &Arrival<T>) -> (r: bool)
        requires
            self.wf(),
        ensures
            r == self.phase().accepts(*arrival),
    {
        match (self, arrival) {
            (Inner::Fill, Arrival::Firsts(_)) => true,
            (Inner::Filled(filled), Arrival::Completions(completions)) => filled.admits(
                completions,
            ),
            _ => false,
        }
    }

    /// One round of the bookkeeping; reports what the round reports, short of the
    /// snapshot itself, which `items` hands out.
    pub(crate) fn advance(&mut self, arrival: Arrival<T>) -> (out: Polled<()>)
        requires
            old(self).wf(),
            old(self).phase().accepts(arrival),
        ensures
            final(self).wf(),
            final(self).phase().wf(),
            final(self).phase() == old(self).phase().step(arrival).0,
            match old(self).phase().step(arrival).1 {
                Polled::Item(items) => out is Item && (final(self).phase() matches Phase::Filled {
                    items: latest,
                    ..
                } && latest == items),
                Polled::Ended => out is Ended,
                Polled::NotReady => out is NotReady,
            },
    {
        match arrival {
            Arrival::Firsts(firsts) => match Filled::from_firsts(firsts) {
                Some(filled) => {
                    *self = Inner::Filled(filled);
                    Polled::Item(())
                },
                None => {
                    *self = Inner::Terminated;
                    Polled::Ended
                },
            },
            Arrival::Completions(completions) => {
                let mut end = false;
                let mut any = false;
                match self {
                    Inner::Filled(filled) => {
                        any = filled.drain(completions);
                        end = !any && !filled.any_pending();
                    },
                    _ => {},
                }
                if any {
                    Polled::Item(())
                } else if end {
                    *self = Inner::Terminated;
                    Polled::Ended
                } else {
                    Polled::NotReady
                }
            },
        }
    }

    /// The latest values, in the steady state.
    pub(crate) fn items(&self) -> (items: &Vec<T>)
        requires
            self.phase() is Filled,
        ensures
            self.phase() matches Phase::Filled { items: latest, .. } && latest == items@,
    {
        match self {
            Inner::Filled(filled) => &filled.items,
            _ => vstd::pervasive::unreached(),
        }
    }
}

} // verus!
