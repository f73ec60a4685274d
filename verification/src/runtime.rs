//! The simulation runtime and its configuration.
use vstd::prelude::*;
use crate::event::Event;
use crate::sim_builder::{
    DEFAULT_START_SECS, DeterminismCheck, NANOS_PER_SEC, RunKind, RunSchedule, run_kind, total_runs,
};

verus! {

/// The simulation runtime: the configuration of simulations.
pub struct Runtime {
    pub seed: u64,
    /// The simulated time at the start, in nanoseconds since the Unix epoch.
    pub simulation_start_time: u128,
}

impl Runtime {
    /// A runtime with the default configuration: seed 0 and the default
    /// start time.
    pub fn new() -> (r: Self)
        ensures
            r.seed == 0,
            r.simulation_start_time == DEFAULT_START_SECS * NANOS_PER_SEC,
    {
        Runtime { seed: 0, simulation_start_time: DEFAULT_START_SECS * NANOS_PER_SEC }
    }

    /// Set the seed used for random number generation.
    pub fn with_seed(self, seed: u64) -> (r: Self)
        ensures
            r.seed == seed,
            r.simulation_start_time == self.simulation_start_time,
    {
        Runtime { seed, ..self }
    }

    /// Set the simulated time at the start (nanoseconds since the Unix epoch).
    pub fn with_simulation_start_time(self, simulation_start_time: u128) -> (r: Self)
        ensures
            r.seed == self.seed,
            r.simulation_start_time == simulation_start_time,
    {
        Runtime { simulation_start_time, ..self }
    }

    /// Run a simulation once, without determinism check.
    pub fn run(&self) -> (s: RunSchedule)
        ensures
            s.wf(),
            s.kinds@ == seq![RunKind::Unchecked],
            s.runs_done == 0,
            s.seed == self.seed,
            s.simulation_start_time == self.simulation_start_time,
    {
        RunSchedule::single(self.seed, self.simulation_start_time, RunKind::Unchecked, Vec::new())
    }

    /// Run a simulation once with time fast-forwarded, without determinism
    /// check.
    pub fn simulate(&self) -> (s: RunSchedule)
        ensures
            s.wf(),
            s.kinds@ == seq![RunKind::Unchecked],
            s.runs_done == 0,
            s.seed == self.seed,
            s.simulation_start_time == self.simulation_start_time,
    {
        self.run()
    }

    /// Run a simulation once and record its events.
    pub fn record_events(&self) -> (s: RunSchedule)
        ensures
            s.wf(),
            s.kinds@ == seq![RunKind::Record],
            s.runs_done == 0,
            s.trace@.len() == 0,
            s.seed == self.seed,
            s.simulation_start_time == self.simulation_start_time,
    {
        RunSchedule::single(self.seed, self.simulation_start_time, RunKind::Record, Vec::new())
    }

    /// Run a simulation once and validate its events against `events`.
    pub fn validate(&self, events: Vec<Event>) -> (s: RunSchedule)
        ensures
            s.wf(),
            s.kinds@ == seq![RunKind::Validate],
            s.runs_done == 0,
            s.trace@ == events@,
            s.seed == self.seed,
            s.simulation_start_time == self.simulation_start_time,
    {
        RunSchedule::single(self.seed, self.simulation_start_time, RunKind::Validate, events)
    }

    /// Run a simulation `iterations` times: record the first run and
    /// validate every later run against it.
    pub fn check_determinism(&self, iterations: usize) -> (s: RunSchedule)
        requires
            iterations > 1,
        ensures
            s.wf(),
            s.kinds@.len() == iterations,
            s.kinds@[0] == RunKind::Record,
            forall|i: int| 1 <= i < iterations ==> #[trigger] s.kinds@[i] == RunKind::Validate,
            s.runs_done == 0,
            s.seed == self.seed,
            s.simulation_start_time == self.simulation_start_time,
    {
        let s = RunSchedule::for_check(
            self.seed,
            self.simulation_start_time,
            DeterminismCheck::Full { iterations },
        );
        proof {
            assert(s.kinds@[0] == run_kind(DeterminismCheck::Full { iterations }, 0));
            assert forall|i: int| 1 <= i < iterations implies #[trigger] s.kinds@[i] == RunKind::Validate by {
                assert(s.kinds@[i] == run_kind(DeterminismCheck::Full { iterations }, i));
            }
        }
        s
    }
}

} // verus!
