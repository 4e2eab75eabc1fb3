//! Whole runs of a pairwise combination: the combination is driven round after round
//! against two sources, each given as the outcomes of its successive polls.
//!
//! A round here is [`PairState::step`], the step that the contracts of
//! `ZipLatest::poll_next` and `ZipLatestWith::poll_next` are stated over, fed with one
//! poll of each source that the state wants polled. What is proved of runs therefore
//! holds of every adapter that polls as `needs_poll` and `other_needs_poll` say.

use vstd::prelude::*;
use crate::stream::freshness::PairState;
use crate::stream::polled::Polled;

verus! {

/// Whether the source with these poll outcomes reports its end at poll number `end`
/// (counting from zero) and not before.
pub open spec fn ends_at<T>(source: spec_fn(nat) -> Polled<T>, end: nat) -> bool {
    &&& source(end) is Ended
    &&& forall|k: nat| k < end ==> !(#[trigger] source(k) is Ended)
}

/// The value that the source produced last within its first `polls` polls, if any.
pub open spec fn last_item<T>(source: spec_fn(nat) -> Polled<T>, polls: nat) -> Option<T>
    decreases polls,
{
    if polls == 0 {
        None
    } else {
        match source((polls - 1) as nat) {
            Polled::Item(x) => Some(x),
            _ => last_item(source, (polls - 1) as nat),
        }
    }
}

/// How far a combination has come against its two sources.
pub struct Run<A, B> {
    /// The joint state after the rounds so far.
    pub state: PairState<A, B>,
    /// Number of polls made of the first source.
    pub polls: nat,
    /// Number of polls made of the second source.
    pub other_polls: nat,
    /// The pairs handed out for combining, oldest first.
    pub emitted: Seq<(A, B)>,
    /// Whether the combination has reported its end.
    pub ended: bool,
}

impl<A, B> Run<A, B> {
    /// Before the first round.
    pub open spec fn start() -> Self {
        Run {
            state: PairState::initial(),
            polls: 0,
            other_polls: 0,
            emitted: Seq::empty(),
            ended: false,
        }
    }

    /// One more round: each source that is due is polled once, and the state decides.
    /// A combination that has ended is left as it is.
    pub open spec fn round(
        self,
        source: spec_fn(nat) -> Polled<A>,
        other: spec_fn(nat) -> Polled<B>,
    ) -> Self {
        if self.ended {
            self
        } else {
            let polled = if self.state.wants_poll() {
                Some(source(self.polls))
            } else {
                None
            };
            let other_polled = if self.state.other_wants_poll() {
                Some(other(self.other_polls))
            } else {
                None
            };
            let (next, out) = self.state.step(polled, other_polled);
            Run {
                state: next,
                polls: if polled is Some {
                    self.polls + 1
                } else {
                    self.polls
                },
                other_polls: if other_polled is Some {
                    self.other_polls + 1
                } else {
                    self.other_polls
                },
                emitted: match out {
                    Polled::Item(pair) => self.emitted.push(pair),
                    _ => self.emitted,
                },
                ended: out is Ended,
            }
        }
    }
}

/// The combination after `rounds` rounds against the two sources.
pub open spec fn run<A, B>(
    source: spec_fn(nat) -> Polled<A>,
    other: spec_fn(nat) -> Polled<B>,
    rounds: nat,
) -> Run<A, B>
    decreases rounds,
{
    if rounds == 0 {
        Run::start()
    } else {
        run(source, other, (rounds - 1) as nat).round(source, other)
    }
}

/// A round reports at most one emission, however many sides turned fresh in it; when
/// both sides produce a value in the same round, the one emission pairs the two.
pub proof fn lemma_round_emits_at_most_once<A, B>(
    state: PairState<A, B>,
    polled: Option<Polled<A>>,
    other_polled: Option<Polled<B>>,
)
    ensures
        state.step(polled, other_polled).1.emissions() <= 1,
        match (polled, other_polled) {
            (Some(Polled::Item(x)), Some(Polled::Item(y))) => state.step(polled, other_polled).1
                == Polled::Item((x, y)),
            _ => true,
        },
{
}

/// Over a whole run, each round adds at most one pair to what was emitted before.
pub proof fn lemma_run_emits_at_most_once_per_round<A, B>(
    source: spec_fn(nat) -> Polled<A>,
    other: spec_fn(nat) -> Polled<B>,
    rounds: nat,
)
    ensures
        run(source, other, rounds + 1).emitted.len() <= run(
            source,
            other,
            rounds,
        ).emitted.len() + 1,
        run(source, other, rounds).emitted.is_prefix_of(run(source, other, rounds + 1).emitted),
{
}

/// A round keeps the joint state well-formed. It polls at least one source, and it
/// reports the end exactly when it leaves the combination terminated.
pub proof fn lemma_step_preserves_wf<A, B>(
    state: PairState<A, B>,
    polled: Option<Polled<A>>,
    other_polled: Option<Polled<B>>,
)
    requires
        state.wf(),
        !state.terminated(),
        state.accepts(polled, other_polled),
    ensures
        state.step(polled, other_polled).0.wf(),
        state.step(polled, other_polled).1 is Ended <==> state.step(
            polled,
            other_polled,
        ).0.terminated(),
        polled is Some || other_polled is Some,
{
}

/// The end of a source is final: a side that has ended stays ended, and until the
/// combination itself ends, the value that the side produced last stays in its slot as
/// the fallback.
pub proof fn lemma_end_is_sticky<A, B>(
    state: PairState<A, B>,
    polled: Option<Polled<A>>,
    other_polled: Option<Polled<B>>,
)
    requires
        state.wf(),
        !state.terminated(),
        state.accepts(polled, other_polled),
    ensures
        state.done ==> state.step(polled, other_polled).0.done,
        state.other_done ==> state.step(polled, other_polled).0.other_done,
        state.done && !(state.step(polled, other_polled).1 is Ended) ==> state.step(
            polled,
            other_polled,
        ).0.state == state.state,
        state.other_done && !(state.step(polled, other_polled).1 is Ended) ==> state.step(
            polled,
            other_polled,
        ).0.other_state == state.other_state,
{
}

/// What every round keeps true in a run against two sources that each produce at least
/// one value and end at polls `end` and `other_end`: each slot holds the value its source
/// produced last, and once both slots have been used the last emission pairs exactly
/// those two values.
spec fn tracks_latest<A, B>(
    r: Run<A, B>,
    source: spec_fn(nat) -> Polled<A>,
    other: spec_fn(nat) -> Polled<B>,
    end: nat,
    other_end: nat,
    rounds: nat,
) -> bool {
    if r.ended {
        &&& r.emitted.len() > 0
        &&& r.emitted.last() == (
            last_item(source, end).unwrap(),
            last_item(other, other_end).unwrap(),
        )
    } else {
        &&& r.state.wf()
        &&& !r.state.terminated()
        &&& r.polls <= end + 1
        &&& r.other_polls <= other_end + 1
        &&& r.state.done <==> r.polls == end + 1
        &&& r.state.other_done <==> r.other_polls == other_end + 1
        &&& r.state.state.latest() == last_item(source, r.polls)
        &&& r.state.other_state.latest() == last_item(other, r.other_polls)
        &&& rounds <= r.polls + r.other_polls
        &&& r.state.state is Yielded && r.state.other_state is Yielded ==> {
            &&& r.emitted.len() > 0
            &&& r.emitted.last() == (
                r.state.state.latest().unwrap(),
                r.state.other_state.latest().unwrap(),
            )
        }
    }
}

proof fn lemma_tracks_latest<A, B>(
    source: spec_fn(nat) -> Polled<A>,
    other: spec_fn(nat) -> Polled<B>,
    end: nat,
    other_end: nat,
    rounds: nat,
)
    requires
        ends_at(source, end),
        ends_at(other, other_end),
        last_item(source, end) is Some,
        last_item(other, other_end) is Some,
    ensures
        tracks_latest(run(source, other, rounds), source, other, end, other_end, rounds),
    decreases rounds,
{
    if rounds > 0 {
        let before = run(source, other, (rounds - 1) as nat);
        lemma_tracks_latest(source, other, end, other_end, (rounds - 1) as nat);
        if !before.ended {
            assert(last_item(source, end + 1) == last_item(source, end));
            assert(last_item(other, other_end + 1) == last_item(other, other_end));
            assert(last_item(source, before.polls + 1) == match source(before.polls) {
                Polled::Item(x) => Some(x),
                _ => last_item(source, before.polls),
            });
            assert(last_item(other, before.other_polls + 1) == match other(before.other_polls) {
                Polled::Item(x) => Some(x),
                _ => last_item(other, before.other_polls),
            });
        }
    }
}

/// Two sources that each produce at least one value and then end: the combination ends
/// too, within as many rounds as the two sources take polls together, and the last pair
/// it emits holds the last value of each source.
pub proof fn lemma_final_emission_pairs_last_values<A, B>(
    source: spec_fn(nat) -> Polled<A>,
    other: spec_fn(nat) -> Polled<B>,
    end: nat,
    other_end: nat,
)
    requires
        ends_at(source, end),
        ends_at(other, other_end),
        last_item(source, end) is Some,
        last_item(other, other_end) is Some,
    ensures
        ({
            let r = run(source, other, end + other_end + 2);
            &&& r.ended
            &&& r.emitted.len() > 0
            &&& r.emitted.last() == (
                last_item(source, end).unwrap(),
                last_item(other, other_end).unwrap(),
            )
        }),
{
    lemma_tracks_latest(source, other, end, other_end, end + other_end + 2);
}

/// What every round keeps true in a run whose first source produces nothing before it
/// ends at poll `end`: nothing is emitted, and until the combination ends the first
/// source is polled in every round.
spec fn awaits_first_value<A, B>(r: Run<A, B>, end: nat, rounds: nat) -> bool {
    &&& r.emitted.len() == 0
    &&& !r.ended ==> {
        &&& r.polls == rounds
        &&& rounds <= end
        &&& r.state.state is Nothing
        &&& !r.state.done
    }
}

proof fn lemma_awaits_first_value<A, B>(
    source: spec_fn(nat) -> Polled<A>,
    other: spec_fn(nat) -> Polled<B>,
    end: nat,
    rounds: nat,
)
    requires
        ends_at(source, end),
        last_item(source, end) is None,
    ensures
        awaits_first_value(run(source, other, rounds), end, rounds),
    decreases rounds,
{
    if rounds > 0 {
        let before = run(source, other, (rounds - 1) as nat);
        lemma_awaits_first_value(source, other, end, (rounds - 1) as nat);
        if !before.ended && rounds - 1 < end {
            lemma_no_item_before(source, end, (rounds - 1) as nat);
        }
    }
}

/// A source that has produced nothing within its first `polls` polls produced nothing
/// at any single one of them.
proof fn lemma_no_item_before<T>(source: spec_fn(nat) -> Polled<T>, polls: nat, k: nat)
    requires
        last_item(source, polls) is None,
        k < polls,
    ensures
        !(source(k) is Item),
    decreases polls,
{
    if k + 1 < polls {
        lemma_no_item_before(source, (polls - 1) as nat, k);
    }
}

/// A first source that ends without ever having produced a value ends the combination
/// no later than in the round in which it ends, and nothing is ever emitted, whatever
/// the second source does, be it endless.
pub proof fn lemma_empty_source_ends_combination<A, B>(
    source: spec_fn(nat) -> Polled<A>,
    other: spec_fn(nat) -> Polled<B>,
    end: nat,
)
    requires
        ends_at(source, end),
        last_item(source, end) is None,
    ensures
        run(source, other, end + 1).ended,
        forall|rounds: nat| (#[trigger] run(source, other, rounds)).emitted.len() == 0,
{
    lemma_awaits_first_value(source, other, end, end + 1);
    assert forall|rounds: nat| (#[trigger] run(source, other, rounds)).emitted.len() == 0 by {
        lemma_awaits_first_value(source, other, end, rounds);
    }
}

/// What every round keeps true in a run whose second source produces nothing before it
/// ends at poll `end`: nothing is emitted, and until the combination ends the second
/// source is polled in every round.
spec fn awaits_other_first_value<A, B>(r: Run<A, B>, end: nat, rounds: nat) -> bool {
    &&& r.emitted.len() == 0
    &&& !r.ended ==> {
        &&& r.other_polls == rounds
        &&& rounds <= end
        &&& r.state.other_state is Nothing
        &&& !r.state.other_done
    }
}

proof fn lemma_awaits_other_first_value<A, B>(
    source: spec_fn(nat) -> Polled<A>,
    other: spec_fn(nat) -> Polled<B>,
    end: nat,
    rounds: nat,
)
    requires
        ends_at(other, end),
        last_item(other, end) is None,
    ensures
        awaits_other_first_value(run(source, other, rounds), end, rounds),
    decreases rounds,
{
    if rounds > 0 {
        let before = run(source, other, (rounds - 1) as nat);
        lemma_awaits_other_first_value(source, other, end, (rounds - 1) as nat);
        if !before.ended && rounds - 1 < end {
            lemma_no_item_before(other, end, (rounds - 1) as nat);
        }
    }
}

/// The same for the second source: if it ends without ever having produced a value,
/// the combination ends no later than in that round, and nothing is ever emitted,
/// whatever the first source does.
pub proof fn lemma_empty_other_source_ends_combination<A, B>(
    source: spec_fn(nat) -> Polled<A>,
    other: spec_fn(nat) -> Polled<B>,
    end: nat,
)
    requires
        ends_at(other, end),
        last_item(other, end) is None,
    ensures
        run(source, other, end + 1).ended,
        forall|rounds: nat| (#[trigger] run(source, other, rounds)).emitted.len() == 0,
{
    lemma_awaits_other_first_value(source, other, end, end + 1);
    assert forall|rounds: nat| (#[trigger] run(source, other, rounds)).emitted.len() == 0 by {
        lemma_awaits_other_first_value(source, other, end, rounds);
    }
}

} // verus!
