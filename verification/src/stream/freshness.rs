use vstd::prelude::*;
use crate::stream::polled::Polled;

verus! {

/// How fresh the latest value of one source is.
#[derive(Debug)]
pub enum StreamState<T> {
    /// The source has not produced anything yet.
    Nothing,
    /// The source produced this value and it has not been part of an emission yet.
    New(T),
    /// This value has already been part of an emission; it is kept as a fallback.
    Yielded(T),
}

impl<T> StreamState<T> {
    /// Whether the slot can take a fresh value, that is, holds no unused one.
    pub open spec fn refreshable(self) -> bool {
        !(self is New)
    }

    /// The value held, if any.
    pub open spec fn latest(self) -> Option<T> {
        match self {
            StreamState::Nothing => None,
            StreamState::New(x) => Some(x),
            StreamState::Yielded(x) => Some(x),
        }
    }

    /// The slot after the source was polled with the given outcome (`None`: not polled).
    pub open spec fn refreshed(self, polled: Option<Polled<T>>) -> StreamState<T> {
        match polled {
            Some(Polled::Item(x)) => StreamState::New(x),
            _ => self,
        }
    }

    /// The slot once its value has been used in an emission.
    pub open spec fn consumed(self) -> StreamState<T> {
        match self {
            StreamState::Nothing => StreamState::Nothing,
            StreamState::New(x) => StreamState::Yielded(x),
            StreamState::Yielded(x) => StreamState::Yielded(x),
        }
    }

    /// Whether the source behind this slot is due for a poll.
    pub fn needs_poll(&self) -> (r: bool)
        ensures
            r == self.refreshable(),
    {
        match self {
            StreamState::Nothing | StreamState::Yielded(_) => true,
            StreamState::New(_) => false,
        }
    }
}

/// Joint state of a combination of two sources: one slot and one end mark per side.
pub struct PairState<A, B> {
    /// Freshness of the first source's latest value.
    pub state: StreamState<A>,
    /// Freshness of the second source's latest value.
    pub other_state: StreamState<B>,
    /// Whether the first source has reported its end.
    pub done: bool,
    /// Whether the second source has reported its end.
    pub other_done: bool,
}

impl<A, B> PairState<A, B> {
    /// The state a combination starts in: nothing seen, nothing ended.
    pub open spec fn initial() -> Self {
        PairState {
            state: StreamState::Nothing,
            other_state: StreamState::Nothing,
            done: false,
            other_done: false,
        }
    }

    /// Whether the first source is to be polled in the next round.
    pub open spec fn wants_poll(self) -> bool {
        self.state.refreshable() && !self.done
    }

    /// Whether the second source is to be polled in the next round.
    pub open spec fn other_wants_poll(self) -> bool {
        self.other_state.refreshable() && !self.other_done
    }

    /// Whether the combination is over: a source ended before producing anything, or the
    /// combination reported its end (which clears both slots).
    pub open spec fn terminated(self) -> bool {
        (self.state is Nothing && self.done) || (self.other_state is Nothing && self.other_done)
    }

    /// Whether the poll outcomes handed in are those the state asked for: one outcome for
    /// each source that wanted a poll, none for the others.
    pub open spec fn accepts(
        self,
        polled: Option<Polled<A>>,
        other_polled: Option<Polled<B>>,
    ) -> bool {
        &&& polled is Some <==> self.wants_poll()
        &&& other_polled is Some <==> self.other_wants_poll()
    }

    /// States that a combination can be in between two rounds: an unused value waits only
    /// for a side that has produced nothing, and never on a side that has ended; once both
    /// sides have ended the combination is over.
    pub open spec fn wf(self) -> bool {
        &&& self.state is New ==> self.other_state is Nothing && !self.done
        &&& self.other_state is New ==> self.state is Nothing && !self.other_done
        &&& self.done && self.other_done ==> self.terminated()
    }

    /// One round: both slots take in what their polls produced, then the joint state
    /// decides. The result is the state after the round and what the round reports: the
    /// pair of values to combine, the end, or nothing yet.
    pub open spec fn step(self, polled: Option<Polled<A>>, other_polled: Option<Polled<B>>) -> (
        PairState<A, B>,
        Polled<(A, B)>,
    ) {
        let a = self.state.refreshed(polled);
        let b = self.other_state.refreshed(other_polled);
        let done = self.done || polled == Some(Polled::<A>::Ended);
        let other_done = self.other_done || other_polled == Some(Polled::<B>::Ended);
        if (a is New && b.latest() is Some) || (b is New && a.latest() is Some) {
            (
                PairState { state: a.consumed(), other_state: b.consumed(), done, other_done },
                Polled::Item((a.latest().unwrap(), b.latest().unwrap())),
            )
        } else if (a is Nothing && done) || (b is Nothing && other_done) || (done && other_done) {
            (
                PairState {
                    state: StreamState::Nothing,
                    other_state: StreamState::Nothing,
                    done,
                    other_done,
                },
                Polled::Ended,
            )
        } else {
            (PairState { state: a, other_state: b, done, other_done }, Polled::NotReady)
        }
    }
}

} // verus!
