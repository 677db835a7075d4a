//! The victim's detection loop, without its hardware.
//!
//! Each iteration of the loop flushes the monitored line, waits, and times a
//! reload of it. What to make of the two timestamps is decided here: the
//! `Detector` turns them into a sample, classifies the sample against the
//! threshold, keeps the detection count and the rolling window, and tells the
//! caller which word to store in the monitored buffer and which lines to
//! print. The caller owns the buffer, the clock and the terminal.

use crate::history::{after, hits, lemma_after_summary, lemma_hits_of_later_samples};
use crate::numeral::{parse_radix, parsed, render_radix, rendered};
use crate::stats::{median, total};
use crate::window::{pushed, RollingWindow, WINDOW_CAPACITY};
use vstd::prelude::*;
use vstd::string::*;

verus! {

/// The size of the monitored buffer in bytes: one page.
pub const BUFFER_SIZE: usize = 4096;

/// The size in bytes of the word at the start of the monitored buffer, in
/// which the detection count is published.
pub const WORD_SIZE: usize = 8;

/// The threshold, in cycles, that is used when none is given.
pub const DEFAULT_THRESHOLD: u64 = 315;

/// The time that has to pass between two calibration reports, in
/// nanoseconds: one second.
pub const REPORT_INTERVAL: u128 = 1_000_000_000;

/// The cycles that passed between two readings of the cycle counter. The
/// difference is taken modulo 2^64, so a counter that wrapped between the
/// readings gives a huge sample rather than a negative one.
pub open spec fn elapsed(start: u64, end: u64) -> u64 {
    if end >= start {
        (end - start) as u64
    } else {
        (end - start + 0x1_0000_0000_0000_0000) as u64
    }
}

/// Whether `sample`, taken in iteration `iteration` (counted from 0), is a
/// hit: it is below the threshold and it is not the very first sample.
pub open spec fn is_hit(threshold: u64, iteration: nat, sample: u64) -> bool {
    iteration > 0 && sample < threshold
}

/// What a detector is, in mathematical terms.
pub struct DetectorState {
    /// The cutoff below which a sample counts as a hit.
    pub threshold: u64,
    /// The number of iterations completed, which is the index of the next.
    pub iteration: nat,
    /// The number of hits so far.
    pub detections: nat,
    /// The detection count that was last handed out for the first word of
    /// the monitored buffer, 0 before the first iteration.
    pub published: nat,
    /// The rolling window, oldest sample first.
    pub window: Seq<u64>,
}

/// The state before the first iteration.
pub open spec fn initial(threshold: u64) -> DetectorState {
    DetectorState {
        threshold,
        iteration: 0,
        detections: 0,
        published: 0,
        window: Seq::<u64>::empty(),
    }
}

/// The state after one more iteration that measured `sample`. The count as it
/// stood before the sample was classified is the one published.
pub open spec fn stepped(state: DetectorState, sample: u64) -> DetectorState {
    DetectorState {
        threshold: state.threshold,
        iteration: state.iteration + 1,
        detections: state.detections + if is_hit(state.threshold, state.iteration, sample) {
            1nat
        } else {
            0nat
        },
        published: state.detections,
        window: pushed(state.window, sample),
    }
}

/// A sample that was classified as a hit.
#[derive(Clone, Copy, Debug, PartialEq, Eq)]
pub struct Hit {
    /// The iteration in which the sample was taken, counted from 0.
    pub iteration: u64,
    /// The sample, in cycles.
    pub sample: u64,
    /// The detection count, this hit included.
    pub detections: u64,
}

/// The figures of one calibration report.
#[derive(Clone, Copy, Debug, PartialEq, Eq)]
pub struct Calibration {
    /// The exact sum of the samples in the window.
    pub sum: u128,
    /// The number of samples in the window. The mean is `sum / count`.
    pub count: usize,
    /// The rank-based median of the samples in the window.
    pub median: u64,
}

/// What the caller has to do after one iteration.
#[derive(Clone, Copy, Debug, PartialEq, Eq)]
pub struct Step {
    /// The word to store at the start of the monitored buffer.
    pub feedback: u64,
    /// The hit to announce, if the sample was one.
    pub hit: Option<Hit>,
    /// The calibration report to print, if one was due. Once it is printed,
    /// the time since the last report starts again at nothing.
    pub calibration: Option<Calibration>,
}

/// Whether a calibration report is due, `since_report` nanoseconds after the
/// last one: more than the interval has to have passed.
pub open spec fn report_due(since_report: u128) -> bool {
    since_report > REPORT_INTERVAL
}

/// What `Detector::step` asks of the caller when a detector in state `state`
/// measures `sample`, `since_report` nanoseconds after the last report.
pub open spec fn step_outcome(state: DetectorState, sample: u64, since_report: u128) -> Step {
    let next = stepped(state, sample);
    Step {
        feedback: state.detections as u64,
        hit: if is_hit(state.threshold, state.iteration, sample) {
            Some(
                Hit { iteration: state.iteration as u64, sample, detections: next.detections as u64 },
            )
        } else {
            None
        },
        calibration: if report_due(since_report) {
            Some(
                Calibration {
                    sum: total(next.window) as u128,
                    count: next.window.len() as usize,
                    median: median(next.window),
                },
            )
        } else {
            None
        },
    }
}

/// The threshold that the victim's command line asks for: its last argument
/// read as a decimal number, or the default where there is no argument or the
/// last one is no such number.
pub open spec fn threshold_of(last_argument: Option<&str>) -> u64 {
    match last_argument {
        Some(text) => match parsed(text@, 10) {
            Some(threshold) => threshold,
            None => DEFAULT_THRESHOLD,
        },
        None => DEFAULT_THRESHOLD,
    }
}

/// The line that announces a hit: the iteration, the sample and the
/// detection count, all in decimal.
pub open spec fn hit_line(hit: Hit) -> Seq<char> {
    rendered(hit.iteration as nat, 10) + " MATCH "@ + rendered(hit.sample as nat, 10) + " | "@
        + rendered(hit.detections as nat, 10)
}

/// The line that announces where the monitored buffer lies: its address in
/// hexadecimal after `0x`.
pub open spec fn buffer_line(address: u64) -> Seq<char> {
    "Monitored buffer: 0x"@ + rendered(address as nat, 16)
}

/// The threshold to run with, given the last argument of the command line.
pub fn parse_threshold(last_argument: Option<&str>) -> (threshold: u64)
    ensures
        threshold == threshold_of(last_argument),
{
    match last_argument {
        Some(text) => match parse_radix(text, 10) {
            Some(threshold) => threshold,
            None => DEFAULT_THRESHOLD,
        },
        None => DEFAULT_THRESHOLD,
    }
}

/// The line that announces where the monitored buffer lies.
pub fn announce_buffer(address: u64) -> (line: String)
    ensures
        line@ == buffer_line(address),
{
    let mut line = String::from_str("Monitored buffer: 0x");
    line.append(render_radix(address, 16).as_str());
    line
}

impl Hit {
    /// The line that announces this hit.
    pub fn line(&self) -> (line: String)
        ensures
            line@ == hit_line(*self),
    {
        let mut line = render_radix(self.iteration, 10);
        line.append(" MATCH ");
        line.append(render_radix(self.sample, 10).as_str());
        line.append(" | ");
        line.append(render_radix(self.detections, 10).as_str());
        line
    }
}

/// The cycles between two readings of the cycle counter, modulo 2^64.
pub fn cycle_delta(start: u64, end: u64) -> (delta: u64)
    ensures
        delta == elapsed(start, end),
{
    end.wrapping_sub(start)
}

/// Classifies `sample`, taken in iteration `iteration`.
pub fn classify(threshold: u64, iteration: u64, sample: u64) -> (hit: bool)
    ensures
        hit == is_hit(threshold, iteration as nat, sample),
{
    iteration > 0 && sample < threshold
}

/// The state of the detection loop between two iterations.
pub struct Detector {
    threshold: u64,
    iteration: u64,
    detections: u64,
    published: u64,
    window: RollingWindow,
}

impl View for Detector {
    type V = DetectorState;

    closed spec fn view(&self) -> DetectorState {
        DetectorState {
            threshold: self.threshold,
            iteration: self.iteration as nat,
            detections: self.detections as nat,
            published: self.published as nat,
            window: self.window@,
        }
    }
}

impl Detector {
    /// Whether the detector is in a state that some history of samples leads
    /// to. Every detector that `new` made and `step` advanced is.
    pub open spec fn wf(&self) -> bool {
        exists|history: Seq<u64>| #[trigger] after(self@.threshold, history) == self@
    }

    /// A detector that has seen no sample yet.
    pub fn new(threshold: u64) -> (detector: Detector)
        ensures
            detector.wf(),
            detector@ == initial(threshold),
    {
        let detector = Detector {
            threshold,
            iteration: 0,
            detections: 0,
            published: 0,
            window: RollingWindow::new(),
        };
        assert(after(detector@.threshold, Seq::<u64>::empty()) == detector@);
        detector
    }

    /// The threshold the detector classifies by.
    pub fn threshold(&self) -> (threshold: u64)
        ensures
            threshold == self@.threshold,
    {
        self.threshold
    }

    /// The number of iterations completed.
    pub fn iteration(&self) -> (iteration: u64)
        ensures
            iteration == self@.iteration,
    {
        self.iteration
    }

    /// The number of hits so far.
    pub fn detections(&self) -> (detections: u64)
        ensures
            detections == self@.detections,
    {
        self.detections
    }

    /// The detection count last handed out for the monitored buffer.
    pub fn published(&self) -> (published: u64)
        ensures
            published == self@.published,
    {
        self.published
    }

    /// The rolling window of the most recent samples.
    pub fn window(&self) -> (window: &RollingWindow)
        ensures
            window@ == self@.window,
    {
        &self.window
    }

    /// What holds of a detector between any two iterations: the window is as
    /// long as there were iterations, up to its capacity; the first iteration
    /// never counted, so there are fewer detections than iterations; and the
    /// count that was published is the current one or one less.
    pub proof fn lemma_invariants(&self)
        requires
            self.wf(),
        ensures
            self@.window.len() == if self@.iteration <= WINDOW_CAPACITY {
                self@.iteration
            } else {
                WINDOW_CAPACITY as nat
            },
            self@.iteration == 0 ==> self@.detections == 0 && self@.published == 0,
            self@.iteration > 0 ==> self@.detections < self@.iteration,
            self@.published <= self@.detections <= self@.published + 1,
    {
        let history = choose|history: Seq<u64>|
            #[trigger] after(self@.threshold, history) == self@;
        lemma_after_summary(self@.threshold, history);
        if history.len() > 0 {
            lemma_after_summary(self@.threshold, history.drop_last());
            assert(hits(self@.threshold, history.take(1)) == 0) by {
                assert(history.take(1).drop_last() == Seq::<u64>::empty());
                assert(hits(self@.threshold, history.take(1).drop_last()) == 0);
            }
            lemma_hits_of_later_samples(self@.threshold, history, 1);
        }
    }

    /// Completes one iteration, given the cycle counter's readings before and
    /// after the probe read and the nanoseconds since the last calibration
    /// report, or since the start while there was none.
    ///
    /// The sample is the difference of the readings. The count as it stood
    /// before this sample is handed out for the monitored buffer; then the
    /// sample is classified and counted, and recorded in the window; then the
    /// report, if due, is drawn from the window.
    pub fn step(&mut self, start: u64, end: u64, since_report: u128) -> (outcome: Step)
        requires
            old(self).wf(),
            old(self)@.iteration < u64::MAX,
        ensures
            final(self).wf(),
            final(self)@ == stepped(old(self)@, elapsed(start, end)),
            outcome == step_outcome(old(self)@, elapsed(start, end), since_report),
            final(self)@.detections >= old(self)@.detections,
            old(self)@.iteration == 0 ==> outcome.hit is None && final(self)@.detections == 0,
            outcome.feedback == final(self)@.published,
            outcome.hit is None ==> final(self)@.published == final(self)@.detections,
    {
        let ghost history = choose|history: Seq<u64>|
            #[trigger] after(old(self)@.threshold, history) == old(self)@;
        proof {
            lemma_after_summary(self.threshold, history);
        }
        let sample = cycle_delta(start, end);
        let feedback = self.detections;
        self.published = feedback;
        let hit = if classify(self.threshold, self.iteration, sample) {
            self.detections = self.detections + 1;
            Some(Hit { iteration: self.iteration, sample, detections: self.detections })
        } else {
            None
        };
        self.window.push(sample);
        self.iteration = self.iteration + 1;
        let calibration = if since_report > REPORT_INTERVAL {
            Some(
                Calibration {
                    sum: self.window.sum(),
                    count: self.window.len(),
                    median: self.window.median(),
                },
            )
        } else {
            None
        };
        proof {
            assert(history.push(sample).drop_last() == history);
            assert(after(self@.threshold, history.push(sample)) == self@);
        }
        Step { feedback, hit, calibration }
    }
}

} // verus!
