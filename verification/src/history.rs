//! Whole runs of the detection loop, seen as the sequence of their samples.
//!
//! A history is the sequence of samples that the iterations of one run
//! measured, the sample at index `i` in iteration `i`. This module says what
//! state a history leads to and proves what holds of every history.

use crate::detector::{initial, is_hit, stepped, DetectorState};
use crate::window::{pushed, recent, WINDOW_CAPACITY};
use vstd::prelude::*;

verus! {

/// The number of hits among the samples of `history`, the sample at index
/// `i` having been taken in iteration `i`.
pub open spec fn hits(threshold: u64, history: Seq<u64>) -> nat
    decreases history.len(),
{
    if history.len() == 0 {
        0
    } else {
        hits(threshold, history.drop_last()) + if is_hit(
            threshold,
            (history.len() - 1) as nat,
            history.last(),
        ) {
            1nat
        } else {
            0nat
        }
    }
}

/// The state after the iterations that measured the samples of `history`, in
/// that order.
pub open spec fn after(threshold: u64, history: Seq<u64>) -> DetectorState
    decreases history.len(),
{
    if history.len() == 0 {
        initial(threshold)
    } else {
        stepped(after(threshold, history.drop_last()), history.last())
    }
}

/// What the state after a history comes to: as many iterations as samples,
/// as many detections as hits, the hits before the last sample published,
/// and the most recent samples in the window.
pub proof fn lemma_after_summary(threshold: u64, history: Seq<u64>)
    ensures
        after(threshold, history).threshold == threshold,
        after(threshold, history).iteration == history.len(),
        after(threshold, history).detections == hits(threshold, history),
        after(threshold, history).published == if history.len() == 0 {
            0
        } else {
            hits(threshold, history.drop_last())
        },
        after(threshold, history).window == recent(history),
        hits(threshold, history) <= history.len(),
        recent(history).len() <= WINDOW_CAPACITY,
    decreases history.len(),
{
    if history.len() > 0 {
        let earlier = history.drop_last();
        lemma_after_summary(threshold, earlier);
        assert(pushed(recent(earlier), history.last()) == recent(history));
    }
}

/// From some point of a run on, no more hits are counted than there are
/// iterations.
pub proof fn lemma_hits_of_later_samples(threshold: u64, history: Seq<u64>, from: int)
    requires
        0 <= from <= history.len(),
    ensures
        hits(threshold, history) <= hits(threshold, history.take(from)) + history.len() - from,
    decreases history.len() - from,
{
    if from < history.len() {
        lemma_hits_of_later_samples(threshold, history.drop_last(), from);
        assert(history.drop_last().take(from) == history.take(from));
    } else {
        assert(history.take(from) == history);
    }
}

/// One more iteration after a history is the history with one more sample.
pub proof fn lemma_step_extends_history(threshold: u64, history: Seq<u64>, sample: u64)
    ensures
        stepped(after(threshold, history), sample) == after(threshold, history.push(sample)),
{
    assert(history.push(sample).drop_last() == history);
}

/// The detection count never decreases: at a later point of a run it is at
/// least what it was at an earlier point.
pub proof fn lemma_detections_never_decrease(
    threshold: u64,
    history: Seq<u64>,
    earlier: int,
    later: int,
)
    requires
        0 <= earlier <= later <= history.len(),
    ensures
        after(threshold, history.take(earlier)).detections <= after(
            threshold,
            history.take(later),
        ).detections,
    decreases later - earlier,
{
    if earlier < later {
        lemma_detections_never_decrease(threshold, history, earlier, later - 1);
        assert(history.take(later).drop_last() == history.take(later - 1));
    }
}

/// The first sample of a run is never a hit, however small it is: after it
/// the detection count is still 0.
pub proof fn lemma_first_sample_never_hits(threshold: u64, sample: u64)
    ensures
        !is_hit(threshold, 0, sample),
        stepped(initial(threshold), sample).detections == 0,
        after(threshold, seq![sample]).detections == 0,
{
    assert(seq![sample].drop_last() == Seq::<u64>::empty());
    assert(after(threshold, seq![sample].drop_last()) == initial(threshold));
}

/// The first sample plays no part in the count: a run counts the same hits
/// whatever its first sample was.
pub proof fn lemma_hits_ignore_first_sample(threshold: u64, history: Seq<u64>, other: u64)
    requires
        history.len() > 0,
    ensures
        hits(threshold, history.update(0, other)) == hits(threshold, history),
    decreases history.len(),
{
    let changed = history.update(0, other);
    if history.len() == 1 {
        assert(hits(threshold, changed.drop_last()) == 0);
        assert(hits(threshold, history.drop_last()) == 0);
    } else {
        lemma_hits_ignore_first_sample(threshold, history.drop_last(), other);
        assert(changed.drop_last() == history.drop_last().update(0, other));
    }
}

/// The word published for the monitored buffer is the detection count as it
/// stood when the iteration began: 0 before the first iteration, and after an
/// iteration that was no hit the detection count itself.
pub proof fn lemma_published_count(state: DetectorState, sample: u64)
    ensures
        initial(state.threshold).published == 0,
        stepped(state, sample).published == state.detections,
        !is_hit(state.threshold, state.iteration, sample) ==> stepped(state, sample).published
            == stepped(state, sample).detections,
        is_hit(state.threshold, state.iteration, sample) ==> stepped(state, sample).published + 1
            == stepped(state, sample).detections,
{
}

/// The window holds as many samples as there were iterations, up to its
/// capacity, and they are the most recent ones in arrival order.
pub proof fn lemma_window_holds_recent_samples(threshold: u64, history: Seq<u64>)
    ensures
        after(threshold, history).window.len() == if history.len() <= WINDOW_CAPACITY {
            history.len()
        } else {
            WINDOW_CAPACITY as nat
        },
        forall|i: int|
            0 <= i < after(threshold, history).window.len() ==> after(threshold, history).window[i]
                == history[history.len() - after(threshold, history).window.len() + i],
{
    lemma_after_summary(threshold, history);
}

/// While no sample after the first is below the threshold, nothing is ever
/// detected.
pub proof fn lemma_no_hits_without_fast_samples(threshold: u64, history: Seq<u64>)
    requires
        forall|i: int| 1 <= i < history.len() ==> history[i] >= threshold,
    ensures
        hits(threshold, history) == 0,
        after(threshold, history).detections == 0,
    decreases history.len(),
{
    lemma_after_summary(threshold, history);
    if history.len() > 0 {
        lemma_no_hits_without_fast_samples(threshold, history.drop_last());
    }
}

/// While every sample after the first is below the threshold, every
/// iteration but the first is a hit, whatever the first sample was.
pub proof fn lemma_all_hits_with_fast_samples(threshold: u64, history: Seq<u64>)
    requires
        history.len() > 0,
        forall|i: int| 1 <= i < history.len() ==> history[i] < threshold,
    ensures
        hits(threshold, history) == history.len() - 1,
        after(threshold, history).detections == history.len() - 1,
    decreases history.len(),
{
    lemma_after_summary(threshold, history);
    if history.len() > 1 {
        lemma_all_hits_with_fast_samples(threshold, history.drop_last());
    } else {
        assert(hits(threshold, history.drop_last()) == 0);
    }
}

/// A higher threshold never loses a hit: over the same samples it counts at
/// least as many.
pub proof fn lemma_hits_grow_with_threshold(low: u64, high: u64, history: Seq<u64>)
    requires
        low <= high,
    ensures
        hits(low, history) <= hits(high, history),
    decreases history.len(),
{
    if history.len() > 0 {
        lemma_hits_grow_with_threshold(low, high, history.drop_last());
    }
}

/// Doubling the threshold can only raise the number of hits counted over the
/// same samples.
pub proof fn lemma_doubled_threshold_keeps_hits(threshold: u64, doubled: u64, history: Seq<u64>)
    requires
        doubled == 2 * threshold,
    ensures
        hits(threshold, history) <= hits(doubled, history),
        after(threshold, history).detections <= after(doubled, history).detections,
{
    lemma_hits_grow_with_threshold(threshold, doubled, history);
    lemma_after_summary(threshold, history);
    lemma_after_summary(doubled, history);
}

/// The threshold itself is a miss and one cycle less is a hit, in every
/// iteration but the first.
pub proof fn lemma_threshold_is_exclusive(threshold: u64, iteration: nat)
    ensures
        !is_hit(threshold, iteration, threshold),
        threshold > 0 && iteration > 0 ==> is_hit(threshold, iteration, (threshold - 1) as u64),
{
}


} // verus!
