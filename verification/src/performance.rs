//! Start-up performance: the time each phase took, the permits that limit concurrent events,
//! and batches of events.
//!
//! Times are milliseconds. Measuring time, running handlers and spawning tasks are the
//! program's part.
use vstd::prelude::*;
use crate::assoc::{lemma_same_keys, position_of, string_keyed, upsert};
use crate::text::owned;

verus! {

/// How start-up went.
#[derive(Debug)]
pub struct StartupMetrics {
    pub total_duration_ms: u64,
    /// Each phase and how long it took.
    pub phase_durations: Vec<(String, u64)>,
    pub parallel_tasks: usize,
}

/// The most events handled at once.
pub const MAX_CONCURRENT_EVENTS: usize = 10;

/// Phase times and event permits.
pub struct PerformanceOptimizer {
    startup_time: i64,
    phase_times: Vec<(String, u64)>,
    free_permits: usize,
}

/// The abstract state: when start-up began, the phase times by name, the free permits.
pub struct OptimizerView {
    pub startup_time: i64,
    pub phases: Seq<(Seq<char>, u64)>,
    pub free_permits: usize,
}

impl View for PerformanceOptimizer {
    type V = OptimizerView;

    closed spec fn view(&self) -> OptimizerView {
        OptimizerView { startup_time: self.startup_time, phases: string_keyed(self.phase_times@), free_permits: self.free_permits }
    }
}

impl PerformanceOptimizer {
    /// An optimizer whose start-up began at `now`, with no phase recorded and every permit free.
    pub fn new_at(now: i64) -> (r: Self)
        ensures
            r@.startup_time == now && r@.phases.len() == 0 && r@.free_permits == MAX_CONCURRENT_EVENTS,
    {
        let r = PerformanceOptimizer { startup_time: now, phase_times: Vec::new(), free_permits: MAX_CONCURRENT_EVENTS };
        assert(r@.phases =~= seq![]);
        r
    }

    /// Records that phase `name` took `elapsed_ms` (the latest time of a phase counts).
    pub fn record_phase(&mut self, name: &str, elapsed_ms: u64)
        ensures
            final(self)@ == (OptimizerView { phases: upsert(old(self)@.phases, name@, elapsed_ms), ..old(self)@ }),
    {
        let ghost pv = string_keyed(self.phase_times@);
        match position_of(&self.phase_times, name) {
            Some(i) => {
                self.phase_times.set(i, (owned(name), elapsed_ms));
                assert(string_keyed(self.phase_times@) =~= pv.update(i as int, (name@, elapsed_ms)));
            },
            None => {
                self.phase_times.push((owned(name), elapsed_ms));
                assert(string_keyed(self.phase_times@) =~= pv.push((name@, elapsed_ms)));
            },
        }
    }

    /// The start-up metrics as of `now`: the time since start-up began (zero when the clock is
    /// behind), each phase's time, and as many parallel tasks as phases.
    pub fn get_startup_metrics(&self, now: i64) -> (r: StartupMetrics)
        ensures
            r.total_duration_ms == if now > self@.startup_time { (now - self@.startup_time) as u64 } else { 0 },
            string_keyed(r.phase_durations@) == self@.phases,
            r.parallel_tasks == self@.phases.len(),
    {
        let n = self.phase_times.len();
        let mut out: Vec<(String, u64)> = Vec::new();
        let mut i: usize = 0;
        while i < n
            invariant
                i <= n,
                n == self.phase_times@.len(),
                out@.len() == i,
                forall|k: int| 0 <= k < i ==> (#[trigger] out@[k]).0@ == self.phase_times@[k].0@ && out@[k].1 == self.phase_times@[k].1,
            decreases n - i,
        {
            out.push((self.phase_times[i].0.clone(), self.phase_times[i].1));
            i = i + 1;
        }
        assert(string_keyed(out@) =~= string_keyed(self.phase_times@));
        let total: u64 = if now > self.startup_time { ((now as i128) - (self.startup_time as i128)) as u64 } else { 0 };
        StartupMetrics { total_duration_ms: total, phase_durations: out, parallel_tasks: n }
    }

    /// Takes a permit to handle an event: false, taking nothing, when none is free (the event
    /// is dropped).
    pub fn try_acquire_permit(&mut self) -> (r: bool)
        ensures
            r == (old(self)@.free_permits > 0),
            r ==> final(self)@ == (OptimizerView { free_permits: (old(self)@.free_permits - 1) as usize, ..old(self)@ }),
            !r ==> final(self)@ == old(self)@,
    {
        if self.free_permits > 0 {
            self.free_permits = self.free_permits - 1;
            true
        } else {
            false
        }
    }

    /// Gives a permit back once its event was handled.
    pub fn release_permit(&mut self)
        ensures
            final(self)@ == (OptimizerView {
                free_permits: if old(self)@.free_permits < MAX_CONCURRENT_EVENTS {
                    (old(self)@.free_permits + 1) as usize
                } else {
                    old(self)@.free_permits
                },
                ..old(self)@
            }),
    {
        if self.free_permits < MAX_CONCURRENT_EVENTS {
            self.free_permits = self.free_permits + 1;
        }
    }
}

/// Events gathered to be handled together.
pub struct EventBatcher<T> {
    pending: Vec<T>,
}

impl<T> EventBatcher<T> {
    /// No pending event.
    pub fn new() -> (r: Self)
        ensures
            r.pending() == Seq::<T>::empty(),
    {
        EventBatcher { pending: Vec::new() }
    }

    /// The pending events, oldest first.
    pub closed spec fn pending(&self) -> Seq<T> {
        self.pending@
    }

    /// Adds an event to the batch.
    pub fn add_event(&mut self, event: T)
        ensures
            final(self).pending() == old(self).pending().push(event),
    {
        self.pending.push(event);
    }

    /// Takes the batch, leaving none pending.
    pub fn take_batch(&mut self) -> (r: Vec<T>)
        ensures
            r@ == old(self).pending(),
            final(self).pending() == Seq::<T>::empty(),
    {
        let mut batch: Vec<T> = Vec::new();
        std::mem::swap(&mut batch, &mut self.pending);
        batch
    }

    /// How many events are pending.
    pub fn batch_size(&self) -> (r: usize)
        ensures
            r == self.pending().len(),
    {
        self.pending.len()
    }
}

} // verus!
