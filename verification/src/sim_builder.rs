//! Configuring and sequencing simulation runs.
//!
//! A determinism check runs the same simulation several times: the first run
//! records its trace of events and every later run is validated against it.
//! A [RunSchedule] hands out the event handler of each run in turn.
use vstd::prelude::*;
use crate::context::SimulationOutput;
use crate::event::{Event, EventHandler, RecordingEventHandler, ValidatingEventHandler};

verus! {

/// Nanoseconds per second.
pub const NANOS_PER_SEC: u128 = 1_000_000_000u128;

/// The default start of simulated time, in seconds since the Unix epoch.
pub const DEFAULT_START_SECS: u128 = 1648339195u128;

/// The determinism checks performed for a simulation.
#[derive(Clone, Copy, PartialEq, Eq, Structural, Debug)]
pub enum DeterminismCheck {
    /// Run once with no determinism check.
    Disabled,
    /// Record the first run and compare all other runs with it, event by
    /// event. `iterations` counts all runs and must be at least 2.
    Full { iterations: usize },
    /// A check that may keep less than the whole trace. This kernel keeps
    /// no digest: it runs exactly like [Full](Self::Full), recording the
    /// first run and comparing every other run with it event by event.
    /// `iterations` must be at least 2.
    Hash { iterations: usize },
}

/// Configuration of simulation runs.
pub struct SimBuilder {
    pub seed: u64,
    /// The simulated time at the start, in nanoseconds since the Unix epoch.
    pub simulation_start_time: u128,
    pub determinism_check: DeterminismCheck,
}

/// How a run's events are handled.
#[derive(Clone, Copy, PartialEq, Eq, Structural, Debug)]
pub enum RunKind {
    Unchecked,
    Record,
    Validate,
}

/// The sequence of runs of one simulation.
pub struct RunSchedule {
    pub seed: u64,
    pub simulation_start_time: u128,
    /// The kind of each run, in order.
    pub kinds: Vec<RunKind>,
    /// The runs completed so far.
    pub runs_done: usize,
    /// The trace recorded by the recording run.
    pub trace: Vec<Event>,
}

/// The number of runs a determinism check asks for.
pub open spec fn total_runs(check: DeterminismCheck) -> int {
    match check {
        DeterminismCheck::Disabled => 1,
        DeterminismCheck::Full { iterations } => iterations as int,
        DeterminismCheck::Hash { iterations } => iterations as int,
    }
}

/// The kind of run `i` of a determinism check.
pub open spec fn run_kind(check: DeterminismCheck, i: int) -> RunKind {
    match check {
        DeterminismCheck::Disabled => RunKind::Unchecked,
        _ => if i == 0 {
            RunKind::Record
        } else {
            RunKind::Validate
        },
    }
}

/// The check is one that can be run.
pub open spec fn check_valid(check: DeterminismCheck) -> bool {
    match check {
        DeterminismCheck::Disabled => true,
        DeterminismCheck::Full { iterations } => iterations > 1,
        DeterminismCheck::Hash { iterations } => iterations > 1,
    }
}

/// A determinism check, full or by digest, runs the simulation `iterations`
/// times: the first run records its trace and every later run is validated
/// against it; without a check the simulation runs once, unchecked.
pub proof fn lemma_checks_record_then_validate(check: DeterminismCheck, i: int)
    requires
        check_valid(check),
        0 <= i < total_runs(check),
    ensures
        check == DeterminismCheck::Disabled ==> total_runs(check) == 1 && run_kind(check, i) == RunKind::Unchecked,
        check matches DeterminismCheck::Full { iterations } ==> total_runs(check) == iterations,
        check matches DeterminismCheck::Hash { iterations } ==> total_runs(check) == iterations,
        check != DeterminismCheck::Disabled ==> total_runs(check) >= 2 && (i == 0 ==> run_kind(check, i) == RunKind::Record)
            && (i >= 1 ==> run_kind(check, i) == RunKind::Validate),
{
}

impl SimBuilder {
    /// The default configuration: seed 0, the default start time, and a
    /// full determinism check over two runs.
    pub fn new() -> (b: Self)
        ensures
            b.seed == 0,
            b.simulation_start_time == DEFAULT_START_SECS * NANOS_PER_SEC,
            b.determinism_check == (DeterminismCheck::Full { iterations: 2 }),
    {
        SimBuilder {
            seed: 0,
            simulation_start_time: DEFAULT_START_SECS * NANOS_PER_SEC,
            determinism_check: DeterminismCheck::Full { iterations: 2 },
        }
    }

    /// Set the seed used for random number generation.
    pub fn with_seed(self, seed: u64) -> (b: Self)
        ensures
            b == (SimBuilder { seed, ..self }),
    {
        SimBuilder { seed, ..self }
    }

    /// Set the simulated time at the start (nanoseconds since the Unix epoch).
    pub fn with_simulation_start_time(self, simulation_start_time: u128) -> (b: Self)
        ensures
            b == (SimBuilder { simulation_start_time, ..self }),
    {
        SimBuilder { simulation_start_time, ..self }
    }

    /// Set the determinism check.
    pub fn with_determinism_check(self, determinism_check: DeterminismCheck) -> (b: Self)
        ensures
            b == (SimBuilder { determinism_check, ..self }),
    {
        SimBuilder { determinism_check, ..self }
    }

    /// The runs this configuration asks for.
    pub fn run(&self) -> (s: RunSchedule)
        requires
            check_valid(self.determinism_check),
        ensures
            s.wf(),
            s.seed == self.seed,
            s.simulation_start_time == self.simulation_start_time,
            s.kinds@.len() == total_runs(self.determinism_check),
            forall|i: int| 0 <= i < s.kinds@.len() ==> #[trigger] s.kinds@[i] == run_kind(self.determinism_check, i),
            s.runs_done == 0,
            self.determinism_check == DeterminismCheck::Disabled ==> s.kinds@ == seq![RunKind::Unchecked],
            self.determinism_check != DeterminismCheck::Disabled ==> s.kinds@[0] == RunKind::Record && forall|i: int|
                1 <= i < s.kinds@.len() ==> #[trigger] s.kinds@[i] == RunKind::Validate,
    {
        RunSchedule::for_check(self.seed, self.simulation_start_time, self.determinism_check)
    }
}

impl RunSchedule {
    pub open spec fn wf(&self) -> bool {
        &&& self.runs_done <= self.kinds@.len()
        &&& forall|i: int| 1 <= i < self.kinds@.len() ==> #[trigger] self.kinds@[i] != RunKind::Record
    }

    /// The runs a determinism check asks for.
    pub fn for_check(seed: u64, simulation_start_time: u128, check: DeterminismCheck) -> (s: Self)
        requires
            check_valid(check),
        ensures
            s.wf(),
            s.seed == seed,
            s.simulation_start_time == simulation_start_time,
            s.kinds@.len() == total_runs(check),
            forall|i: int| 0 <= i < s.kinds@.len() ==> #[trigger] s.kinds@[i] == run_kind(check, i),
            s.runs_done == 0,
            s.trace@.len() == 0,
            check == DeterminismCheck::Disabled ==> s.kinds@ == seq![RunKind::Unchecked],
            check != DeterminismCheck::Disabled ==> s.kinds@[0] == RunKind::Record && forall|i: int|
                1 <= i < s.kinds@.len() ==> #[trigger] s.kinds@[i] == RunKind::Validate,
    {
        let n: usize = match check {
            DeterminismCheck::Disabled => 1,
            DeterminismCheck::Full { iterations } => iterations,
            DeterminismCheck::Hash { iterations } => iterations,
        };
        let unchecked = match check {
            DeterminismCheck::Disabled => true,
            _ => false,
        };
        let mut kinds: Vec<RunKind> = Vec::new();
        let mut i: usize = 0;
        while i < n
            invariant
                i <= n,
                n == total_runs(check),
                unchecked == (check == DeterminismCheck::Disabled),
                kinds@.len() == i,
                forall|j: int| 0 <= j < i ==> #[trigger] kinds@[j] == run_kind(check, j),
            decreases n - i,
        {
            let kind = if unchecked {
                RunKind::Unchecked
            } else if i == 0 {
                RunKind::Record
            } else {
                RunKind::Validate
            };
            kinds.push(kind);
            i = i + 1;
        }
        proof {
            if check == DeterminismCheck::Disabled {
                assert(kinds@ =~= seq![RunKind::Unchecked]);
            }
        }
        RunSchedule { seed, simulation_start_time, kinds, runs_done: 0, trace: Vec::new() }
    }

    /// A schedule of a single run of the given kind.
    pub fn single(seed: u64, simulation_start_time: u128, kind: RunKind, trace: Vec<Event>) -> (s: Self)
        requires
            kind != RunKind::Record || trace@.len() == 0,
        ensures
            s.wf(),
            s.kinds@ == seq![kind],
            s.runs_done == 0,
            s.trace@ == trace@,
            s.seed == seed,
            s.simulation_start_time == simulation_start_time,
    {
        let mut kinds: Vec<RunKind> = Vec::new();
        kinds.push(kind);
        RunSchedule { seed, simulation_start_time, kinds, runs_done: 0, trace }
    }

    /// All runs are done.
    pub fn is_done(&self) -> (b: bool)
        ensures
            b == (self.runs_done >= self.kinds@.len()),
    {
        self.runs_done >= self.kinds.len()
    }

    /// The event handler of the next run, or `None` when all runs are done.
    ///
    /// A recording run records; a validating run validates against the
    /// trace of the recording run.
    pub fn next_handler(&self) -> (h: Option<EventHandler>)
        requires
            self.wf(),
        ensures
            match h {
                None => self.runs_done == self.kinds@.len(),
                Some(h) => {
                    &&& self.runs_done < self.kinds@.len()
                    &&& h.wf()
                    &&& match self.kinds@[self.runs_done as int] {
                        RunKind::Unchecked => h is Noop,
                        RunKind::Record => h is Recording && h->Recording_0.recorded_events@.len() == 0,
                        RunKind::Validate => h is Validating && h->Validating_0.events_to_validate@
                            == self.trace@ && h->Validating_0.next_event_index == 0,
                    }
                },
            },
    {
        if self.runs_done >= self.kinds.len() {
            return None;
        }
        let h = match self.kinds[self.runs_done] {
            RunKind::Unchecked => EventHandler::noop(),
            RunKind::Record => EventHandler::Recording(RecordingEventHandler::new()),
            RunKind::Validate => EventHandler::Validating(ValidatingEventHandler::new(self.trace.clone())),
        };
        Some(h)
    }

    /// A run has ended with this trace. The trace of the recording run is
    /// kept to validate the runs after it.
    pub fn complete_run(&mut self, events: Vec<Event>)
        requires
            old(self).wf(),
            old(self).runs_done < old(self).kinds@.len(),
        ensures
            final(self).wf(),
            final(self).runs_done == old(self).runs_done + 1,
            final(self).kinds == old(self).kinds,
            final(self).seed == old(self).seed,
            final(self).simulation_start_time == old(self).simulation_start_time,
            final(self).trace@ == (if old(self).kinds@[old(self).runs_done as int] == RunKind::Record {
                events@
            } else {
                old(self).trace@
            }),
    {
        let runs = self.kinds.len();
        if self.kinds[self.runs_done] == RunKind::Record {
            self.trace = events;
        }
        proof {
            assert(self.runs_done < runs);
        }
        self.runs_done = self.runs_done + 1;
    }
}

/// The output of a run as reported to the user: the time elapsed since the
/// start of the simulation instead of the instant reached.
pub fn elapsed_output<T>(out: SimulationOutput<T>, simulation_start_time: u128) -> (r: SimulationOutput<T>)
    requires
        out.time_elapsed >= simulation_start_time,
    ensures
        r.time_elapsed == out.time_elapsed - simulation_start_time,
        r.output == out.output,
        r.events@ == out.events@,
{
    SimulationOutput {
        time_elapsed: out.time_elapsed - simulation_start_time,
        output: out.output,
        events: out.events,
    }
}

} // verus!
