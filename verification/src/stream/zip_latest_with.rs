use vstd::prelude::*;
use crate::stream::freshness::{PairState, StreamState};
use crate::stream::polled::Polled;

verus! {

/// Combines two sources with a caller-supplied function, always on the latest value of
/// each: whenever one side has a fresh value and the other has any value, the function
/// is applied to the pair.
///
/// `A` and `B` are the item types of the two sources; `F` combines them.
#[derive(Debug)]
pub struct ZipLatestWith<A, B, F> {
    state: StreamState<A>,
    other_state: StreamState<B>,
    done: bool,
    other_done: bool,
    combine: F,
}

impl<A, B, F> View for ZipLatestWith<A, B, F> {
    type V = PairState<A, B>;

    closed spec fn view(&self) -> PairState<A, B> {
        PairState {
            state: self.state,
            other_state: self.other_state,
            done: self.done,
            other_done: self.other_done,
        }
    }
}

impl<A, B, F, T> ZipLatestWith<A, B, F> where F: FnMut(&A, &B) -> T {
    /// The combining function.
    pub closed spec fn combiner(&self) -> F {
        self.combine
    }

    /// The combining function accepts every pair of values.
    pub open spec fn wf(&self) -> bool {
        forall|a: &A, b: &B| call_requires(self.combiner(), (a, b))
    }

    /// A combination that has seen nothing yet. `combine` must accept every pair.
    pub fn new(combine: F) -> (zip: Self)
        requires
            forall|a: &A, b: &B| call_requires(combine, (a, b)),
        ensures
            zip.wf(),
            zip@ == PairState::<A, B>::initial(),
            zip.combiner() == combine,
    {
        ZipLatestWith {
            state: StreamState::Nothing,
            other_state: StreamState::Nothing,
            done: false,
            other_done: false,
            combine,
        }
    }

    /// Whether the first source is to be polled before the next call of `poll_next`.
    pub fn needs_poll(&self) -> (r: bool)
        ensures
            r == self@.wants_poll(),
    {
        !self.done && self.state.needs_poll()
    }

    /// Whether the second source is to be polled before the next call of `poll_next`.
    pub fn other_needs_poll(&self) -> (r: bool)
        ensures
            r == self@.other_wants_poll(),
    {
        !self.other_done && self.other_state.needs_poll()
    }

    /// One round. `polled` and `other_polled` are what the polls of the two sources came
    /// back with, `None` for a source that was not to be polled.
    pub fn poll_next(&mut self, polled: Option<Polled<A>>, other_polled: Option<Polled<B>>) -> (out:
        Polled<T>)
        requires
            old(self).wf(),
            !old(self)@.terminated(),
            old(self)@.accepts(polled, other_polled),
        ensures
            final(self)@ == old(self)@.step(polled, other_polled).0,
            final(self).combiner() == old(self).combiner(),
            match old(self)@.step(polled, other_polled).1 {
                Polled::Item((a, b)) => out matches Polled::Item(o) && call_ensures(
                    old(self).combiner(),
                    (&a, &b),
                    o,
                ),
                Polled::Ended => out is Ended,
                Polled::NotReady => out is NotReady,
            },
    {
        match polled {
            Some(Polled::Item(x)) => {
                self.state = StreamState::New(x);
            },
            Some(Polled::Ended) => {
                self.done = true;
            },
            _ => {},
        }
        match other_polled {
            Some(Polled::Item(x)) => {
                self.other_state = StreamState::New(x);
            },
            Some(Polled::Ended) => {
                self.other_done = true;
            },
            _ => {},
        }
        let mut state = StreamState::Nothing;
        let mut other_state = StreamState::Nothing;
        core::mem::swap(&mut self.state, &mut state);
        core::mem::swap(&mut self.other_state, &mut other_state);
        assert(self.combine == old(self).combiner());
        let (res, new_state, new_other_state) = match (state, other_state) {
            (StreamState::New(a), StreamState::New(b))
            | (StreamState::New(a), StreamState::Yielded(b))
            | (StreamState::Yielded(a), StreamState::New(b)) => (
                Polled::Item((self.combine)(&a, &b)),
                StreamState::Yielded(a),
                StreamState::Yielded(b),
            ),
            (StreamState::Nothing, _) if self.done => (
                Polled::Ended,
                StreamState::Nothing,
                StreamState::Nothing,
            ),
            (_, StreamState::Nothing) if self.other_done => (
                Polled::Ended,
                StreamState::Nothing,
                StreamState::Nothing,
            ),
            _ if self.done && self.other_done => (
                Polled::Ended,
                StreamState::Nothing,
                StreamState::Nothing,
            ),
            (a, b) => (Polled::NotReady, a, b),
        };
        self.state = new_state;
        self.other_state = new_other_state;
        res
    }

    /// Whether the combination is over and must not be polled again.
    pub fn is_terminated(&self) -> (r: bool)
        ensures
            r == self@.terminated(),
    {
        matches!((&self.state, self.done), (StreamState::Nothing, true)) || matches!(
            (&self.other_state, self.other_done),
            (StreamState::Nothing, true)
        )
    }
}

} // verus!
