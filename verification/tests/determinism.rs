use refault::context::{PollOutcome, Simulation, Step, TeardownStep, spawn};
use refault::event::{Event, EventHandler, NonDeterminism, RecordingEventHandler, ValidatingEventHandler};
use refault::id::Id;
use refault::runtime::Runtime;
use refault::sim_builder::{
    DeterminismCheck, RunKind, RunSchedule, SimBuilder, elapsed_output,
};
use refault::time::sleep;

const START: u128 = 1648339195 * 1_000_000_000;

/// Stop every node for good and drop every simulator, as the kernel decides.
fn teardown(sim: &mut Simulation) {
    loop {
        match sim.next_teardown_step() {
            TeardownStep::StopNode(stop) => {
                let previous = stop.previous;
                let _ = sim.finish_stop(stop, true);
                sim.exit_node_scope(previous);
            }
            TeardownStep::DropSimulator(_) => {}
            TeardownStep::Done => break,
        }
    }
}

/// One run of a small simulation: the root task sleeps `nanos`, then ends.
fn run_once(handler: EventHandler, nanos: u128) -> Result<Vec<Event>, NonDeterminism> {
    let mut sim = Simulation::new(handler, 0, START, 1);
    let task = spawn(&mut sim)?.task.get();
    let mut s = None;
    loop {
        match sim.next_step()? {
            Step::Run { task: t, .. } => {
                assert_eq!(t, task);
                let sl = s.get_or_insert_with(|| sleep(&sim.executor.time_scheduler, nanos));
                let done = sl.poll(&mut sim.executor.time_scheduler);
                let outcome = sim.finish_poll(done);
                assert_eq!(outcome, if done { PollOutcome::Completed } else { PollOutcome::Parked });
            }
            Step::TimersFired(_) => sim.wake(task),
            Step::Finished => break,
        }
    }
    teardown(&mut sim);
    sim.destroy().map(|out| out.events)
}

#[test]
fn validating_the_recorded_trace_passes() {
    let events = run_once(EventHandler::Recording(RecordingEventHandler::new()), 1000).unwrap();
    assert_eq!(
        events,
        vec![
            Event::TaskSpawned,
            Event::TaskRun(Id { value: 1 }),
            Event::TimeAdvanced(1000),
            Event::TaskRun(Id { value: 1 }),
        ]
    );
    let again = run_once(EventHandler::Validating(ValidatingEventHandler::new(events)), 1000).unwrap();
    assert!(again.is_empty());
}

/// A run whose sleep depends on state outside the simulation diverges.
#[test]
fn global_state_divergence_is_detected() {
    let events = run_once(EventHandler::Recording(RecordingEventHandler::new()), 1_000_000_000).unwrap();
    let r = run_once(EventHandler::Validating(ValidatingEventHandler::new(events)), 2_000_000_000);
    assert_eq!(
        r,
        Err(NonDeterminism::Mismatch {
            index: 2,
            expected: Event::TimeAdvanced(1_000_000_000),
            got: Event::TimeAdvanced(2_000_000_000),
        })
    );
}

#[test]
fn missing_and_extra_events_are_detected() {
    let mut v = ValidatingEventHandler::new(vec![Event::TaskSpawned, Event::TaskSpawned]);
    assert_eq!(v.handle_event(Event::TaskSpawned), Ok(()));
    assert_eq!(
        v.finalize(),
        Err(NonDeterminism::MissingEvents { expected: 2, got: 1 })
    );
    let mut w = ValidatingEventHandler::new(vec![]);
    assert_eq!(
        w.handle_event(Event::TaskSpawned),
        Err(NonDeterminism::UnexpectedEvent { index: 0, got: Event::TaskSpawned })
    );
}

#[test]
fn recording_keeps_every_event_in_order() {
    let mut r = RecordingEventHandler::new();
    r.handle_event(Event::TaskSpawned);
    r.handle_event(Event::TimeAdvanced(4));
    assert_eq!(r.finalize(), vec![Event::TaskSpawned, Event::TimeAdvanced(4)]);
}

/// The runs of a full determinism check: the first records, the others
/// validate against its trace.
#[test]
fn full_check_records_then_validates() {
    let b = SimBuilder::new();
    assert_eq!(b.seed, 0);
    assert_eq!(b.simulation_start_time, START);
    assert_eq!(b.determinism_check, DeterminismCheck::Full { iterations: 2 });
    let b = b.with_seed(5).with_determinism_check(DeterminismCheck::Full { iterations: 3 });
    let mut schedule = b.run();
    assert_eq!(schedule.kinds, vec![RunKind::Record, RunKind::Validate, RunKind::Validate]);
    let mut runs = 0;
    while let Some(h) = schedule.next_handler() {
        let events = run_once(h, 50).unwrap();
        schedule.complete_run(events);
        runs += 1;
    }
    assert_eq!(runs, 3);
    assert!(schedule.is_done());
    assert_eq!(schedule.trace.len(), 4);
}

#[test]
fn disabled_check_runs_once_without_handler() {
    let b = SimBuilder::new().with_determinism_check(DeterminismCheck::Disabled);
    let schedule = b.run();
    assert_eq!(schedule.kinds, vec![RunKind::Unchecked]);
    assert!(matches!(schedule.next_handler(), Some(EventHandler::Noop(_))));
}

#[test]
fn runtime_schedules() {
    let rt = Runtime::new().with_seed(3).with_simulation_start_time(10);
    assert_eq!((rt.seed, rt.simulation_start_time), (3, 10));
    assert_eq!(rt.run().kinds, vec![RunKind::Unchecked]);
    assert_eq!(rt.simulate().kinds, vec![RunKind::Unchecked]);
    assert_eq!(rt.record_events().kinds, vec![RunKind::Record]);
    let v: RunSchedule = rt.validate(vec![Event::TaskSpawned]);
    assert_eq!(v.kinds, vec![RunKind::Validate]);
    assert_eq!(v.trace, vec![Event::TaskSpawned]);
    let c = rt.check_determinism(4);
    assert_eq!(c.kinds.len(), 4);
    assert_eq!(c.kinds[0], RunKind::Record);
}

#[test]
fn elapsed_time_is_counted_from_the_start() {
    let mut sim = Simulation::new(EventHandler::noop(), 0, START, 1);
    let _ = spawn(&mut sim).unwrap();
    let _ = sim.next_step().unwrap();
    let _ = sim.finish_poll(true);
    let _ = sim.next_step().unwrap();
    teardown(&mut sim);
    let out = sim.destroy().unwrap();
    let out = elapsed_output(out, START);
    assert_eq!(out.time_elapsed, 0);
}

/// The random generator depends on the seed alone.
#[test]
fn random_bits_depend_on_the_seed() {
    let mut a = Simulation::new(EventHandler::noop(), 7, START, 1);
    let mut b = Simulation::new(EventHandler::noop(), 7, START, 2);
    let mut c = Simulation::new(EventHandler::noop(), 8, START, 3);
    let xa: Vec<u32> = (0..4).map(|_| a.random_u32()).collect();
    let xb: Vec<u32> = (0..4).map(|_| b.random_u32()).collect();
    let xc: Vec<u32> = (0..4).map(|_| c.random_u32()).collect();
    assert_eq!(xa, xb);
    assert_ne!(xa, xc);
    // successive draws move the generator on
    assert!(xa.windows(2).any(|w| w[0] != w[1]));
}
