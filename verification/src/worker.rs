//! Step accounting for the per-client worker.
//!
//! The worker thread alternates integrator steps, snapshot emission, and
//! sleeping.  Everything it decides — how many steps remain, whether a stop
//! signal or the exhausted horizon ends the run — is pure bookkeeping over
//! this state; the thread itself only performs the outside work (locking,
//! stepping the integrator, emitting, sleeping) that each decision calls for.

use vstd::prelude::*;

verus! {

/// Target wall-clock interval between snapshot emissions: 1/60 s.
pub const EMIT_PERIOD_MICROS: u64 = 16_666;

/// The counters that drive one worker's run.
#[derive(Clone, Copy, PartialEq, Eq, Structural, Debug)]
pub struct WorkerState {
    /// Integrator steps between two snapshot emissions, at least one.
    pub steps_per_emit: u64,
    /// The simulation horizon in steps: `simulation_time / time_delta`,
    /// rounded down.
    pub total_steps: u64,
    /// Steps performed so far.
    pub step_count: u64,
}

impl WorkerState {
    pub open spec fn wf(self) -> bool {
        self.steps_per_emit >= 1 && self.step_count <= self.total_steps
    }

    /// The counters a run starts with, derived from the simulation's
    /// time step and horizon (both in micro-seconds).
    pub open spec fn spec_new(dt_micros: u64, horizon_micros: u64) -> WorkerState {
        WorkerState {
            steps_per_emit: if EMIT_PERIOD_MICROS / dt_micros == 0 {
                1
            } else {
                (EMIT_PERIOD_MICROS / dt_micros) as u64
            },
            total_steps: (horizon_micros / dt_micros) as u64,
            step_count: 0,
        }
    }

    pub fn new(dt_micros: u64, horizon_micros: u64) -> (w: WorkerState)
        requires
            dt_micros > 0,
        ensures
            w == WorkerState::spec_new(dt_micros, horizon_micros),
            w.wf(),
    {
        let per_emit = EMIT_PERIOD_MICROS / dt_micros;
        WorkerState {
            steps_per_emit: if per_emit == 0 {
                1
            } else {
                per_emit
            },
            total_steps: horizon_micros / dt_micros,
            step_count: 0,
        }
    }

    /// Whether the next step may run under this stop-signal observation.
    pub open spec fn spec_may_step(self, stop: bool) -> bool {
        !stop && self.step_count < self.total_steps
    }

    /// The state after one step attempt: the count advances exactly when the
    /// stop signal was unset and the horizon was not yet exhausted.
    pub open spec fn spec_step(self, stop: bool) -> WorkerState {
        if self.spec_may_step(stop) {
            WorkerState { step_count: (self.step_count + 1) as u64, ..self }
        } else {
            self
        }
    }

    /// One step attempt; returns whether the integrator is to run a step.
    pub fn try_step(&mut self, stop: bool) -> (stepped: bool)
        requires
            old(self).wf(),
        ensures
            *final(self) == old(self).spec_step(stop),
            stepped == old(self).spec_may_step(stop),
            final(self).wf(),
    {
        if !stop && self.step_count < self.total_steps {
            self.step_count = self.step_count + 1;
            true
        } else {
            false
        }
    }

    /// Whether the outer emit loop is to run another iteration.
    pub fn should_continue(&self, stop: bool) -> (c: bool)
        ensures
            c == self.spec_may_step(stop),
    {
        !stop && self.step_count < self.total_steps
    }
}

/// The state after a run of step attempts under the given stop observations.
pub open spec fn spec_run(w: WorkerState, stops: Seq<bool>) -> WorkerState
    decreases stops.len(),
{
    if stops.len() == 0 {
        w
    } else {
        spec_run(w.spec_step(stops[0]), stops.drop_first())
    }
}

/// A run never oversteps the horizon.
pub proof fn lemma_run_bounded(w: WorkerState, stops: Seq<bool>)
    requires
        w.wf(),
    ensures
        spec_run(w, stops).wf(),
        spec_run(w, stops).total_steps == w.total_steps,
        spec_run(w, stops).steps_per_emit == w.steps_per_emit,
        spec_run(w, stops).step_count >= w.step_count,
    decreases stops.len(),
{
    if stops.len() > 0 {
        lemma_run_bounded(w.spec_step(stops[0]), stops.drop_first());
    }
}

/// Step budget: a worker that never observes the stop signal performs
/// exactly `total_steps` — that is, `floor(simulation_time / time_delta)` —
/// integrator steps, however many attempts the emit loop offers it.
pub proof fn lemma_step_budget(w: WorkerState, stops: Seq<bool>)
    requires
        w.wf(),
        forall|i: int| 0 <= i < stops.len() ==> !stops[i],
        w.step_count + stops.len() >= w.total_steps,
    ensures
        spec_run(w, stops).step_count == w.total_steps,
    decreases stops.len(),
{
    if stops.len() == 0 {
    } else {
        lemma_step_budget(w.spec_step(stops[0]), stops.drop_first());
    }
}

/// Bounded cancellation: from the moment every observation of the stop
/// signal reads true, no further step runs — the counters never move again.
pub proof fn lemma_stop_halts(w: WorkerState, stops: Seq<bool>)
    requires
        forall|i: int| 0 <= i < stops.len() ==> stops[i],
    ensures
        spec_run(w, stops) == w,
    decreases stops.len(),
{
    if stops.len() > 0 {
        lemma_stop_halts(w.spec_step(stops[0]), stops.drop_first());
    }
}

} // verus!
