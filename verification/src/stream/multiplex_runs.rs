//! Whole runs of a combination of many sources: what the rounds of the steady state keep
//! true, however the completions arrive.
//!
//! A round here is [`Phase::drain`], and the fill [`Phase::fill`]: the steps that the
//! contracts of `ZipLatestAll::poll_next` and `ZipLatestWithAll::poll_next` are stated
//! over.

use vstd::prelude::*;
use crate::stream::multiplex::{advanced, ended_in, latest_in, one_per_source, refreshed, Phase};
use crate::stream::polled::Polled;

verus! {

/// The phase after the fill with `firsts` and then one round for each batch of
/// completions in `rounds`, oldest first.
pub open spec fn after_rounds<T>(
    firsts: Seq<Option<T>>,
    rounds: Seq<Seq<(usize, Option<T>)>>,
) -> Phase<T>
    decreases rounds.len(),
{
    if rounds.len() == 0 {
        Phase::fill(firsts).0
    } else {
        after_rounds(firsts, rounds.drop_last()).drain(rounds.last()).0
    }
}

/// The value that source `i` produced last: the one of its latest completion that
/// carries a value, or its first value if no round brought another.
pub open spec fn produced_last<T>(
    firsts: Seq<Option<T>>,
    rounds: Seq<Seq<(usize, Option<T>)>>,
    i: int,
) -> T
    decreases rounds.len(),
{
    if rounds.len() == 0 {
        firsts[i].unwrap()
    } else {
        match latest_in(rounds.last(), i) {
            Some(x) => x,
            None => produced_last(firsts, rounds.drop_last(), i),
        }
    }
}

/// The fill succeeds exactly when every source has a first value, whichever source
/// was first or last to produce it; the first snapshot then holds these values by
/// index of the source, and every source is pending.
pub proof fn lemma_fill_needs_every_first_value<T>(firsts: Seq<Option<T>>)
    ensures
        Phase::fill(firsts).0 is Terminated <==> exists|i: int|
            0 <= i < firsts.len() && (#[trigger] firsts[i]) is None,
        Phase::fill(firsts).0 is Terminated <==> Phase::fill(firsts).1 is Ended,
        Phase::fill(firsts).0 matches Phase::Filled { items, pending } ==> {
            &&& Phase::fill(firsts).1 == Polled::Item(items)
            &&& items.len() == firsts.len()
            &&& forall|i: int| 0 <= i < items.len() ==> firsts[i] == Some(#[trigger] items[i])
            &&& forall|i: int| pending.contains(i) <==> 0 <= i < items.len()
        },
        Phase::fill(firsts).0.wf(),
{
}

/// A round reports at most one snapshot, however many sources advanced in it, and it
/// reports one exactly when at least one source advanced; the snapshot then holds the
/// latest value of every source.
pub proof fn lemma_round_emits_one_snapshot<T>(
    phase: Phase<T>,
    completions: Seq<(usize, Option<T>)>,
)
    requires
        phase is Filled,
    ensures
        phase.drain(completions).1.emissions() <= 1,
        phase.drain(completions).1 is Item <==> advanced(completions),
        phase.drain(completions).1 matches Polled::Item(snapshot) ==> snapshot == refreshed(
            phase->items,
            completions,
        ),
{
}

/// A round of the steady state keeps the number of sources and their indices, and
/// never brings back a source that has left the pending set.
pub proof fn lemma_round_keeps_shape<T>(phase: Phase<T>, completions: Seq<(usize, Option<T>)>)
    requires
        phase.wf(),
        phase is Filled,
    ensures
        phase.drain(completions).0.wf(),
        phase.drain(completions).0 matches Phase::Filled { items, pending } ==> {
            &&& items.len() == phase->items.len()
            &&& pending.subset_of(phase->pending)
            &&& forall|i: int| ended_in(completions, i) ==> !pending.contains(i)
        },
{
}

/// With at most one completion for each source, the value taken in for a source is the
/// value of whichever completion names the source and carries one.
pub proof fn lemma_latest_in_is_the_one<T>(completions: Seq<(usize, Option<T>)>, i: int)
    requires
        one_per_source(completions),
    ensures
        match latest_in(completions, i) {
            Some(x) => exists|k: int|
                0 <= k < completions.len() && (#[trigger] completions[k]).0 == i && completions[k].1
                    == Some(x),
            None => forall|k: int|
                0 <= k < completions.len() && (#[trigger] completions[k]).0 == i
                    ==> completions[k].1 is None,
        },
    decreases completions.len(),
{
    if completions.len() > 0 {
        let shorter = completions.drop_last();
        let k = completions.len() - 1;
        assert(forall|j: int| 0 <= j < shorter.len() ==> shorter[j] == completions[j]);
        if completions.last().0 == i && completions.last().1 is Some {
            assert(completions[k].0 == i);
        } else {
            lemma_latest_in_is_the_one(shorter, i);
            match latest_in(shorter, i) {
                Some(x) => {
                    let j = choose|j: int|
                        0 <= j < shorter.len() && (#[trigger] shorter[j]).0 == i && shorter[j].1
                            == Some(x);
                    assert(completions[j] == shorter[j]);
                },
                None => {
                    assert forall|j: int|
                        0 <= j < completions.len() && (#[trigger] completions[j]).0
                            == i implies completions[j].1 is None by {
                        if j < k {
                            assert(shorter[j] == completions[j]);
                        }
                    }
                },
            }
        }
    }
}

/// The order in which the completions of a round arrive does not matter: two batches
/// that hold the same completions, each with at most one completion for each source,
/// lead to the same phase and the same report.
pub proof fn lemma_arrival_order_is_irrelevant<T>(
    phase: Phase<T>,
    completions: Seq<(usize, Option<T>)>,
    reordered: Seq<(usize, Option<T>)>,
)
    requires
        one_per_source(completions),
        one_per_source(reordered),
        forall|c: (usize, Option<T>)| completions.contains(c) <==> reordered.contains(c),
    ensures
        phase.drain(completions) == phase.drain(reordered),
{
    assert forall|i: int| latest_in(completions, i) == latest_in(reordered, i) by {
        lemma_same_latest(completions, reordered, i);
    }
    assert forall|i: int| ended_in(completions, i) == ended_in(reordered, i) by {
        lemma_same_ended(completions, reordered, i);
        lemma_same_ended(reordered, completions, i);
    }
    lemma_same_advanced(completions, reordered);
    lemma_same_advanced(reordered, completions);
    if let Phase::Filled { items, pending } = phase {
        assert(refreshed(items, completions) =~= refreshed(items, reordered));
        assert(pending.filter(|i: int| !ended_in(completions, i)) =~= pending.filter(
            |i: int| !ended_in(reordered, i),
        ));
    }
}

proof fn lemma_same_latest<T>(
    completions: Seq<(usize, Option<T>)>,
    reordered: Seq<(usize, Option<T>)>,
    i: int,
)
    requires
        one_per_source(completions),
        one_per_source(reordered),
        forall|c: (usize, Option<T>)| completions.contains(c) <==> reordered.contains(c),
    ensures
        latest_in(completions, i) == latest_in(reordered, i),
{
    lemma_latest_in_is_the_one(completions, i);
    lemma_latest_in_is_the_one(reordered, i);
    match latest_in(completions, i) {
        Some(x) => {
            let k = choose|k: int|
                0 <= k < completions.len() && (#[trigger] completions[k]).0 == i && completions[k].1
                    == Some(x);
            assert(completions.contains(completions[k]));
            let c = completions[k];
            assert(reordered.contains(c));
            let j = choose|j: int| 0 <= j < reordered.len() && reordered[j] == c;
            assert(reordered[j].0 == i);
            match latest_in(reordered, i) {
                Some(y) => {
                    let m = choose|m: int|
                        0 <= m < reordered.len() && (#[trigger] reordered[m]).0 == i
                            && reordered[m].1 == Some(y);
                    assert(m == j);
                },
                None => {},
            }
        },
        None => {
            match latest_in(reordered, i) {
                Some(y) => {
                    let m = choose|m: int|
                        0 <= m < reordered.len() && (#[trigger] reordered[m]).0 == i
                            && reordered[m].1 == Some(y);
                    let c = reordered[m];
                    assert(reordered.contains(c));
                    assert(completions.contains(c));
                    let j = choose|j: int| 0 <= j < completions.len() && completions[j] == c;
                    assert(completions[j].0 == i);
                },
                None => {},
            }
        },
    }
}

proof fn lemma_same_ended<T>(
    completions: Seq<(usize, Option<T>)>,
    reordered: Seq<(usize, Option<T>)>,
    i: int,
)
    requires
        forall|c: (usize, Option<T>)| completions.contains(c) <==> reordered.contains(c),
    ensures
        ended_in(completions, i) ==> ended_in(reordered, i),
{
    if ended_in(completions, i) {
        let k = choose|k: int|
            0 <= k < completions.len() && (#[trigger] completions[k]).0 == i
                && completions[k].1 is None;
        let c = completions[k];
        assert(completions.contains(c));
        assert(reordered.contains(c));
        let j = choose|j: int| 0 <= j < reordered.len() && reordered[j] == c;
        assert(reordered[j].0 == i);
    }
}

proof fn lemma_same_advanced<T>(
    completions: Seq<(usize, Option<T>)>,
    reordered: Seq<(usize, Option<T>)>,
)
    requires
        forall|c: (usize, Option<T>)| completions.contains(c) <==> reordered.contains(c),
    ensures
        advanced(completions) ==> advanced(reordered),
{
    if advanced(completions) {
        let k = choose|k: int| 0 <= k < completions.len() && (#[trigger] completions[k]).1 is Some;
        let c = completions[k];
        assert(completions.contains(c));
        assert(reordered.contains(c));
        let j = choose|j: int| 0 <= j < reordered.len() && reordered[j] == c;
        assert(reordered[j].1 is Some);
    }
}

/// After any number of rounds of the steady state, the latest values are, for every
/// source, the value that this source produced last.
pub proof fn lemma_items_are_latest<T>(
    firsts: Seq<Option<T>>,
    rounds: Seq<Seq<(usize, Option<T>)>>,
)
    ensures
        after_rounds(firsts, rounds) matches Phase::Filled { items, .. } ==> {
            &&& items.len() == firsts.len()
            &&& forall|i: int|
                0 <= i < items.len() ==> #[trigger] items[i] == produced_last(firsts, rounds, i)
        },
    decreases rounds.len(),
{
    if rounds.len() > 0 {
        lemma_items_are_latest(firsts, rounds.drop_last());
    }
}

} // verus!
