//! The rolling window of the most recent reload latencies.
//!
//! The window keeps the last `WINDOW_CAPACITY` samples in arrival order. It
//! answers with their exact sum and their rank-based median, from which a
//! caller derives the figures it shows while a threshold is being tuned.

use crate::stats::{lemma_ascending_is_sorted_rearrangement, median, sort_samples, total};
use std::collections::VecDeque;
use vstd::prelude::*;

verus! {

/// The largest number of samples the window holds.
pub const WINDOW_CAPACITY: usize = 1000;

/// What a window holding `window` holds once `sample` has arrived: the sample
/// goes to the back, and the oldest sample leaves when that makes the window
/// longer than its capacity.
pub open spec fn pushed(window: Seq<u64>, sample: u64) -> Seq<u64> {
    let extended = window.push(sample);
    if extended.len() > WINDOW_CAPACITY {
        extended.drop_first()
    } else {
        extended
    }
}

/// The part of a whole history of samples that the window still holds: its
/// last `WINDOW_CAPACITY` samples, or all of them while there are fewer.
pub open spec fn recent(history: Seq<u64>) -> Seq<u64> {
    if history.len() > WINDOW_CAPACITY {
        history.subrange(history.len() - WINDOW_CAPACITY, history.len() as int)
    } else {
        history
    }
}

/// A bounded first-in, first-out window of latency samples.
pub struct RollingWindow {
    samples: VecDeque<u64>,
}

impl View for RollingWindow {
    type V = Seq<u64>;

    /// The samples held, oldest first.
    closed spec fn view(&self) -> Seq<u64> {
        self.samples@
    }
}

impl RollingWindow {
    /// Whether the window is within its capacity. Every window that `new`
    /// made and `push` filled is.
    pub open spec fn wf(&self) -> bool {
        self@.len() <= WINDOW_CAPACITY
    }

    /// An empty window.
    pub fn new() -> (window: RollingWindow)
        ensures
            window.wf(),
            window@ == Seq::<u64>::empty(),
    {
        RollingWindow { samples: VecDeque::new() }
    }

    /// The number of samples held.
    pub fn len(&self) -> (n: usize)
        ensures
            n == self@.len(),
    {
        self.samples.len()
    }

    /// Appends `sample`, dropping the oldest sample if the window was full.
    pub fn push(&mut self, sample: u64)
        requires
            old(self).wf(),
        ensures
            final(self).wf(),
            final(self)@ == pushed(old(self)@, sample),
    {
        self.samples.push_back(sample);
        if self.samples.len() > WINDOW_CAPACITY {
            let _ = self.samples.pop_front();
        }
    }

    /// A copy of the samples held, oldest first.
    pub fn snapshot(&self) -> (copy: Vec<u64>)
        ensures
            copy@ == self@,
    {
        let n = self.samples.len();
        let mut copy: Vec<u64> = Vec::with_capacity(n);
        let mut i: usize = 0;
        while i < n
            invariant
                n == self.samples@.len(),
                i <= n,
                copy@ == self.samples@.take(i as int),
            decreases n - i,
        {
            copy.push(self.samples[i]);
            i = i + 1;
        }
        copy
    }

    /// The exact sum of the samples held.
    pub fn sum(&self) -> (sum: u128)
        ensures
            sum == total(self@),
    {
        let n = self.samples.len();
        let mut sum: u128 = 0;
        let mut i: usize = 0;
        while i < n
            invariant
                n == self.samples@.len(),
                i <= n,
                sum == total(self.samples@.take(i as int)),
                sum <= i * u64::MAX,
            decreases n - i,
        {
            proof {
                let next = self.samples@.take(i + 1);
                assert(next.drop_last() == self.samples@.take(i as int));
                assert(next.last() == self.samples@[i as int]);
            }
            sum = sum + self.samples[i] as u128;
            i = i + 1;
        }
        assert(self.samples@.take(n as int) == self.samples@);
        sum
    }

    /// The rank-based median of the samples held, 0 for an empty window.
    pub fn median(&self) -> (middle: u64)
        ensures
            middle == median(self@),
    {
        let mut sorted = self.snapshot();
        if sorted.len() == 0 {
            0
        } else {
            sort_samples(&mut sorted);
            proof {
                lemma_ascending_is_sorted_rearrangement(self@);
            }
            sorted[sorted.len() / 2]
        }
    }
}

} // verus!
