use vstd::prelude::*;
use crate::stream::freshness::{PairState, StreamState};
use crate::stream::polled::Polled;

verus! {

/// Combines two sources into pairs of their latest values: whenever one side has a fresh
/// value and the other has any value, a copy of each is emitted as a pair.
///
/// `A` and `B` are the item types of the two sources.
#[derive(Debug)]
pub struct ZipLatest<A, B> {
    state: StreamState<A>,
    other_state: StreamState<B>,
    done: bool,
    other_done: bool,
}

impl<A, B> View for ZipLatest<A, B> {
    type V = PairState<A, B>;

    closed spec fn view(&self) -> PairState<A, B> {
        PairState {
            state: self.state,
            other_state: self.other_state,
            done: self.done,
            other_done: self.other_done,
        }
    }
}

impl<A: Clone, B: Clone> ZipLatest<A, B> {
    /// A combination that has seen nothing yet.
    pub fn new() -> (zip: Self)
        ensures
            zip@ == PairState::<A, B>::initial(),
    {
        ZipLatest {
            state: StreamState::Nothing,
            other_state: StreamState::Nothing,
            done: false,
            other_done: false,
        }
    }

    /// Whether the first source is to be polled before the next call of `poll_next`.
    pub fn needs_poll(&self) -> (r: bool)
        ensures
            r == self@.wants_poll(),
    {
        !self.done && self.state.needs_poll()
    }

    /// Whether the second source is to be polled before the next call of `poll_next`.
    pub fn other_needs_poll(&self) -> (r: bool)
        ensures
            r == self@.other_wants_poll(),
    {
        !self.other_done && self.other_state.needs_poll()
    }

    /// One round. `polled` and `other_polled` are what the polls of the two sources came
    /// back with, `None` for a source that was not to be polled. An emitted pair holds a
    /// clone of each side's latest value; the values themselves stay behind as fallbacks.
    pub fn poll_next(&mut self, polled: Option<Polled<A>>, other_polled: Option<Polled<B>>) -> (out:
        Polled<(A, B)>)
        requires
            !old(self)@.terminated(),
            old(self)@.accepts(polled, other_polled),
        ensures
            final(self)@ == old(self)@.step(polled, other_polled).0,
            match old(self)@.step(polled, other_polled).1 {
                Polled::Item((a, b)) => out matches Polled::Item((x, y)) && cloned(a, x) && cloned(
                    b,
                    y,
                ),
                Polled::Ended => out is Ended,
                Polled::NotReady => out is NotReady,
            },
    {
        match polled {
            Some(Polled::Item(x)) => {
                self.state = StreamState::New(x);
            },
            Some(Polled::Ended) => {
                self.done = true;
            },
            _ => {},
        }
        match other_polled {
            Some(Polled::Item(x)) => {
                self.other_state = StreamState::New(x);
            },
            Some(Polled::Ended) => {
                self.other_done = true;
            },
            _ => {},
        }
        let mut state = StreamState::Nothing;
        let mut other_state = StreamState::Nothing;
        core::mem::swap(&mut self.state, &mut state);
        core::mem::swap(&mut self.other_state, &mut other_state);
        let (new_state, new_other_state, res) = match (state, other_state) {
            (StreamState::New(a), StreamState::New(b))
            | (StreamState::New(a), StreamState::Yielded(b))
            | (StreamState::Yielded(a), StreamState::New(b)) => {
                let pair = (a.clone(), b.clone());
                (StreamState::Yielded(a), StreamState::Yielded(b), Polled::Item(pair))
            },
            (StreamState::Nothing, _) if self.done => (
                StreamState::Nothing,
                StreamState::Nothing,
                Polled::Ended,
            ),
            (_, StreamState::Nothing) if self.other_done => (
                StreamState::Nothing,
                StreamState::Nothing,
                Polled::Ended,
            ),
            _ if self.done && self.other_done => (
                StreamState::Nothing,
                StreamState::Nothing,
                Polled::Ended,
            ),
            (a, b) => (a, b, Polled::NotReady),
        };
        self.state = new_state;
        self.other_state = new_other_state;
        res
    }

    /// Whether the combination is over and must not be polled again.
    pub fn is_terminated(&self) -> (r: bool)
        ensures
            r == self@.terminated(),
    {
        matches!((&self.state, self.done), (StreamState::Nothing, true)) || matches!(
            (&self.other_state, self.other_done),
            (StreamState::Nothing, true)
        )
    }
}

} // verus!
