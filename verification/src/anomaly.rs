//! The training side of anomaly detection: rolling windows of recent CPU,
//! memory and temperature readings, and the baselines learned from them.
//!
//! Readings have type `T` and baselines type `B`; the statistics that turn a
//! window into a baseline, and the test of a reading against a baseline, are
//! computed on floating point by the caller.
use vstd::prelude::*;
use crate::history::{keep_last, BoundedHistory};

verus! {

/// The most readings each window holds.
pub const WINDOW_SIZE: usize = 50;

/// The fewest readings a window needs before a baseline is learned from it.
pub const MIN_BASELINE_SAMPLES: usize = 10;

/// Statistical anomaly detector state.
pub struct AnomalyDetector<T, B> {
    cpu_window: BoundedHistory<T>,
    memory_window: BoundedHistory<T>,
    temp_window: BoundedHistory<T>,
    cpu_baseline: Option<B>,
    memory_baseline: Option<B>,
    temp_baseline: Option<B>,
}

/// The baseline after a model update: the new one where the window has
/// enough readings, else the one held before.
pub open spec fn updated_baseline<T, B>(window: Seq<T>, old: Option<B>, new: B) -> Option<B> {
    if window.len() >= MIN_BASELINE_SAMPLES {
        Some(new)
    } else {
        old
    }
}

impl<T, B> AnomalyDetector<T, B> {
    pub closed spec fn cpu_readings(&self) -> Seq<T> {
        self.cpu_window@
    }

    pub closed spec fn memory_readings(&self) -> Seq<T> {
        self.memory_window@
    }

    pub closed spec fn temp_readings(&self) -> Seq<T> {
        self.temp_window@
    }

    pub closed spec fn cpu_model(&self) -> Option<B> {
        self.cpu_baseline
    }

    pub closed spec fn memory_model(&self) -> Option<B> {
        self.memory_baseline
    }

    pub closed spec fn temp_model(&self) -> Option<B> {
        self.temp_baseline
    }

    /// Each window holds at most `WINDOW_SIZE` readings.
    pub closed spec fn wf(&self) -> bool {
        &&& self.cpu_window.wf() && self.cpu_window.capacity_spec() == WINDOW_SIZE
        &&& self.memory_window.wf() && self.memory_window.capacity_spec() == WINDOW_SIZE
        &&& self.temp_window.wf() && self.temp_window.capacity_spec() == WINDOW_SIZE
    }

    /// A detector with empty windows and no baselines.
    pub fn new() -> (r: Self)
        ensures
            r.wf(),
            r.cpu_readings().len() == 0,
            r.memory_readings().len() == 0,
            r.temp_readings().len() == 0,
            r.cpu_model() is None,
            r.memory_model() is None,
            r.temp_model() is None,
    {
        AnomalyDetector {
            cpu_window: BoundedHistory::new(WINDOW_SIZE),
            memory_window: BoundedHistory::new(WINDOW_SIZE),
            temp_window: BoundedHistory::new(WINDOW_SIZE),
            cpu_baseline: None,
            memory_baseline: None,
            temp_baseline: None,
        }
    }

    /// Adds one snapshot's readings to the windows, each keeping its latest
    /// `WINDOW_SIZE` readings.
    pub fn add_snapshot(&mut self, cpu: T, memory: T, temp: T)
        requires
            old(self).wf(),
        ensures
            final(self).wf(),
            final(self).cpu_readings() == keep_last(old(self).cpu_readings().push(cpu), WINDOW_SIZE as nat),
            final(self).memory_readings() == keep_last(
                old(self).memory_readings().push(memory),
                WINDOW_SIZE as nat,
            ),
            final(self).temp_readings() == keep_last(
                old(self).temp_readings().push(temp),
                WINDOW_SIZE as nat,
            ),
            final(self).cpu_model() == old(self).cpu_model(),
            final(self).memory_model() == old(self).memory_model(),
            final(self).temp_model() == old(self).temp_model(),
    {
        self.cpu_window.push(cpu);
        self.memory_window.push(memory);
        self.temp_window.push(temp);
    }

    /// Updates the model: each baseline is replaced by the one given for it
    /// where its window holds at least `MIN_BASELINE_SAMPLES` readings.
    pub fn update_model(&mut self, cpu: B, memory: B, temp: B)
        requires
            old(self).wf(),
        ensures
            final(self).wf(),
            final(self).cpu_model() == updated_baseline(old(self).cpu_readings(), old(self).cpu_model(), cpu),
            final(self).memory_model() == updated_baseline(
                old(self).memory_readings(),
                old(self).memory_model(),
                memory,
            ),
            final(self).temp_model() == updated_baseline(
                old(self).temp_readings(),
                old(self).temp_model(),
                temp,
            ),
            final(self).cpu_readings() == old(self).cpu_readings(),
            final(self).memory_readings() == old(self).memory_readings(),
            final(self).temp_readings() == old(self).temp_readings(),
    {
        if self.cpu_window.len() >= MIN_BASELINE_SAMPLES {
            self.cpu_baseline = Some(cpu);
        }
        if self.memory_window.len() >= MIN_BASELINE_SAMPLES {
            self.memory_baseline = Some(memory);
        }
        if self.temp_window.len() >= MIN_BASELINE_SAMPLES {
            self.temp_baseline = Some(temp);
        }
    }

    /// The CPU readings, oldest first.
    pub fn cpu_window(&self) -> (r: &BoundedHistory<T>)
        ensures
            r@ == self.cpu_readings(),
    {
        &self.cpu_window
    }

    /// The memory readings, oldest first.
    pub fn memory_window(&self) -> (r: &BoundedHistory<T>)
        ensures
            r@ == self.memory_readings(),
    {
        &self.memory_window
    }

    /// The temperature readings, oldest first.
    pub fn temp_window(&self) -> (r: &BoundedHistory<T>)
        ensures
            r@ == self.temp_readings(),
    {
        &self.temp_window
    }

    /// The CPU baseline, if learned.
    pub fn cpu_baseline(&self) -> (r: &Option<B>)
        ensures
            *r == self.cpu_model(),
    {
        &self.cpu_baseline
    }

    /// The memory baseline, if learned.
    pub fn memory_baseline(&self) -> (r: &Option<B>)
        ensures
            *r == self.memory_model(),
    {
        &self.memory_baseline
    }

    /// The temperature baseline, if learned.
    pub fn temp_baseline(&self) -> (r: &Option<B>)
        ensures
            *r == self.temp_model(),
    {
        &self.temp_baseline
    }
}

} // verus!
