use refault::context::{
    AbortHandle, ContextInstallGuard, PollOutcome, TeardownStep, Simulation, SimulationOutput, Step, TaskHandle, add_simulator, record_event,
    spawn,
};
use refault::event::{
    Event, EventHandler, NonDeterminism, RecordingEventHandler, ValidatingEventHandler,
};
use refault::executor::{NodeRunLevel, TaskState};
use refault::id::{Id, IdGenerator, IdRange};
use refault::node_id::NodeId;
use refault::time::{Sleep, SleepState, sleep, sleep_until};

const MS: u128 = 1_000_000;
const START: u128 = 1648339195 * 1_000_000_000;

fn new_sim(handler: EventHandler) -> Simulation {
    Simulation::new(handler, 0, START, 1)
}

/// Create a node; no simulator is registered to be told.
fn new_node(sim: &mut Simulation) -> NodeId {
    let c = NodeId::create_node(sim).unwrap();
    assert_eq!(NodeId::current(sim), c.node);
    sim.finish_create_node(c)
}

/// Tear the simulation down as the kernel decides, returning the futures
/// dropped and the simulator slots dropped, in order.
fn teardown(sim: &mut Simulation) -> (Vec<u64>, Vec<usize>) {
    let mut futures = Vec::new();
    let mut slots = Vec::new();
    loop {
        match sim.next_teardown_step() {
            TeardownStep::StopNode(stop) => {
                let previous = stop.previous;
                let out = sim.finish_stop(stop, true);
                futures.extend(out.dropped);
                sim.exit_node_scope(previous);
            }
            TeardownStep::DropSimulator(i) => slots.push(i),
            TeardownStep::Done => break,
        }
    }
    (futures, slots)
}

fn expect_run(sim: &mut Simulation) -> (u64, NodeId) {
    match sim.next_step() {
        Ok(Step::Run { task, node }) => (task, node),
        Ok(Step::TimersFired(_)) => panic!("expected a task, timers fired"),
        Ok(Step::Finished) => panic!("expected a task, simulation finished"),
        Err(e) => panic!("non-determinism: {e:?}"),
    }
}

fn expect_timers(sim: &mut Simulation) -> Vec<u64> {
    match sim.next_step() {
        Ok(Step::TimersFired(t)) => t,
        Ok(Step::Run { task, .. }) => panic!("expected timers, task {task} runs"),
        Ok(Step::Finished) => panic!("expected timers, simulation finished"),
        Err(e) => panic!("non-determinism: {e:?}"),
    }
}

fn expect_finished(sim: &mut Simulation) {
    match sim.next_step() {
        Ok(Step::Finished) => {}
        Ok(Step::Run { task, .. }) => panic!("expected the end, task {task} runs"),
        Ok(Step::TimersFired(_)) => panic!("expected the end, timers fired"),
        Err(e) => panic!("non-determinism: {e:?}"),
    }
}

#[test]
fn ids_are_consecutive_and_ranges_follow() {
    let mut g = IdGenerator::new();
    let a = Id::new(&mut g);
    let b = Id::new(&mut g);
    assert_eq!(a.get(), 1);
    assert_eq!(b.get(), 2);
    let r = IdRange::new(&mut g, 3);
    assert_eq!(r.len(), 3);
    assert_eq!(r.get(0).get(), 3);
    assert_eq!(r.get(2).get(), 5);
    assert_eq!(Id::new(&mut g).get(), 6);
    assert_eq!(a.tv(), 1);
}

#[test]
fn spawned_task_runs_and_completes() {
    let mut sim = new_sim(EventHandler::noop());
    let h = spawn(&mut sim).unwrap();
    assert_eq!(h.node, NodeId::init());
    let (task, node) = expect_run(&mut sim);
    assert_eq!(task, h.task.get());
    assert_eq!(node.index, 0);
    assert_eq!(sim.finish_poll(true), PollOutcome::Completed);
    assert_eq!(sim.executor.task_state(task), None);
    expect_finished(&mut sim);
}

#[test]
fn tasks_run_in_the_order_they_were_woken() {
    let mut sim = new_sim(EventHandler::noop());
    let a = spawn(&mut sim).unwrap().task.get();
    let b = spawn(&mut sim).unwrap().task.get();
    assert_eq!(expect_run(&mut sim).0, a);
    assert_eq!(sim.finish_poll(false), PollOutcome::Parked);
    assert_eq!(expect_run(&mut sim).0, b);
    assert_eq!(sim.finish_poll(false), PollOutcome::Parked);
    // both wait now; wake b before a
    sim.wake(b);
    sim.wake(a);
    sim.wake(b);
    assert_eq!(sim.queue.ready_queue.len(), 2);
    assert_eq!(expect_run(&mut sim).0, b);
    assert_eq!(sim.finish_poll(true), PollOutcome::Completed);
    assert_eq!(expect_run(&mut sim).0, a);
    assert_eq!(sim.finish_poll(true), PollOutcome::Completed);
    expect_finished(&mut sim);
}

/// The documented example: sleeping 5ns lets exactly 5ns of simulated time pass.
#[test]
fn sleep_advances_time_by_its_duration() {
    let mut sim = new_sim(EventHandler::noop());
    let t1 = sim.now();
    let task = spawn(&mut sim).unwrap().task.get();
    assert_eq!(expect_run(&mut sim).0, task);
    let mut s = sleep(&sim.executor.time_scheduler, 5);
    assert!(!s.poll(&mut sim.executor.time_scheduler));
    let timer = match s.state {
        SleepState::Waiting(t) => t,
        _ => panic!("sleep did not register"),
    };
    assert_eq!(sim.finish_poll(false), PollOutcome::Parked);
    let fired = expect_timers(&mut sim);
    assert_eq!(fired, vec![timer]);
    sim.wake(task);
    assert_eq!(expect_run(&mut sim).0, task);
    assert!(s.poll(&mut sim.executor.time_scheduler));
    assert_eq!(sim.now() - t1, 5);
    assert_eq!(sim.finish_poll(true), PollOutcome::Completed);
    expect_finished(&mut sim);
}

#[test]
fn sleep_until_past_deadline_is_ready_at_once() {
    let mut sim = new_sim(EventHandler::noop());
    let mut s: Sleep = sleep_until(START - 1);
    assert!(s.poll(&mut sim.executor.time_scheduler));
    assert!(s.state == SleepState::Done);
    assert!(s.poll(&mut sim.executor.time_scheduler));
}

/// The scheduler fast-forwards to the earliest pending deadline: each sleep
/// completes exactly at its deadline, and timers due together fire in the
/// order of their deadlines.
#[test]
fn pending_timers_fire_at_their_deadlines() {
    let mut sim = new_sim(EventHandler::Recording(RecordingEventHandler::new()));
    let mut a = sleep(&sim.executor.time_scheduler, 10 * MS);
    let mut b = sleep(&sim.executor.time_scheduler, 15 * MS);
    let mut c = sleep(&sim.executor.time_scheduler, 10 * MS);
    assert!(!b.poll(&mut sim.executor.time_scheduler));
    assert!(!a.poll(&mut sim.executor.time_scheduler));
    assert!(!c.poll(&mut sim.executor.time_scheduler));
    let mut fired = expect_timers(&mut sim);
    fired.sort();
    assert_eq!(fired.len(), 2);
    assert_eq!(sim.now() - START, 10 * MS);
    assert!(a.poll(&mut sim.executor.time_scheduler));
    assert!(c.poll(&mut sim.executor.time_scheduler));
    assert!(!b.poll(&mut sim.executor.time_scheduler));
    let fired = expect_timers(&mut sim);
    assert_eq!(fired.len(), 1);
    assert_eq!(sim.now() - START, 15 * MS);
    assert!(b.poll(&mut sim.executor.time_scheduler));
    expect_finished(&mut sim);
    teardown(&mut sim);
    let out: SimulationOutput<()> = sim.destroy().unwrap();
    assert_eq!(out.events, vec![Event::TimeAdvanced(10 * MS), Event::TimeAdvanced(5 * MS)]);
}

/// Timers that share a deadline fire in the same step.
#[test]
fn timers_sharing_a_deadline_fire_together() {
    let mut sim = new_sim(EventHandler::noop());
    let mut first = sleep(&sim.executor.time_scheduler, 7);
    let mut second = sleep(&sim.executor.time_scheduler, 7);
    assert!(!first.poll(&mut sim.executor.time_scheduler));
    assert!(!second.poll(&mut sim.executor.time_scheduler));
    let mut fired = expect_timers(&mut sim);
    fired.sort();
    assert_eq!(fired, vec![0, 1]);
    assert_eq!(sim.now() - START, 7);
    assert!(first.poll(&mut sim.executor.time_scheduler));
    assert!(second.poll(&mut sim.executor.time_scheduler));
}

/// Two nodes each run a task that sleeps 10ms, sets a value, and sleeps
/// again; the first node is stopped right away, the second after 15ms.
#[test]
fn kill_node() {
    let mut sim = new_sim(EventHandler::noop());
    let n1 = new_node(&mut sim);
    let t1 = n1.spawn(&mut sim).unwrap().get();
    let n2 = new_node(&mut sim);
    let t2 = n2.spawn(&mut sim).unwrap().get();
    // the futures of both tasks are alive
    let mut alive = vec![t1, t2];
    let out = n1.stop(&mut sim);
    assert!(out.was_running);
    assert_eq!(out.dropped, vec![t1]);
    alive.retain(|t| !out.dropped.contains(t));
    assert_eq!(alive.len(), 1);
    assert_eq!(sim.executor.task_state(t1), Some(TaskState::Cancelled));
    // the cancelled task is cleaned up, the other one runs and starts its sleep
    let (task, node) = expect_run(&mut sim);
    assert_eq!((task, node), (t2, n2));
    assert_eq!(sim.executor.task_state(t1), None);
    let mut s = sleep(&sim.executor.time_scheduler, 10 * MS);
    assert!(!s.poll(&mut sim.executor.time_scheduler));
    assert_eq!(sim.finish_poll(false), PollOutcome::Parked);
    let _ = expect_timers(&mut sim);
    sim.wake(t2);
    assert_eq!(expect_run(&mut sim).0, t2);
    assert!(s.poll(&mut sim.executor.time_scheduler));
    let mut s2 = sleep(&sim.executor.time_scheduler, 10 * MS);
    assert!(!s2.poll(&mut sim.executor.time_scheduler));
    assert_eq!(sim.finish_poll(false), PollOutcome::Parked);
    let out = n2.stop(&mut sim);
    assert_eq!(out.dropped, vec![t2]);
    alive.retain(|t| !out.dropped.contains(t));
    assert!(alive.is_empty());
    // stopping again does nothing
    let again = n2.stop(&mut sim);
    assert!(!again.was_running);
    assert!(again.dropped.is_empty());
    assert!(!sim.executor.is_running(n2));
    assert!(sim.executor.nodes[n2.index].run_level == NodeRunLevel::Stopped);
}

/// A task that aborts itself while it runs is dropped once it yields.
#[test]
fn abort_self() {
    let mut sim = new_sim(EventHandler::noop());
    let h: TaskHandle = spawn(&mut sim).unwrap();
    let task = h.task.get();
    assert_eq!(expect_run(&mut sim).0, task);
    let dropped = h.abort(&mut sim);
    assert_eq!(dropped, None);
    assert_eq!(sim.finish_poll(false), PollOutcome::Dropped);
    // the queue still visits it once to remove its entry
    assert_eq!(sim.executor.task_state(task), Some(TaskState::Cancelled));
    expect_finished(&mut sim);
    assert_eq!(sim.executor.task_state(task), None);
}

#[test]
fn abort_handle_of_parked_task_drops_its_future() {
    let mut sim = new_sim(EventHandler::noop());
    let h = spawn(&mut sim).unwrap();
    let ah: AbortHandle = h.abort_handle();
    h.detach();
    assert_eq!(ah.abort(&mut sim), Some(NodeId::init()));
    // aborting twice does nothing more
    assert_eq!(ah.abort(&mut sim), None);
    expect_finished(&mut sim);
}

#[test]
fn created_nodes_are_numbered_and_recorded() {
    let mut sim = new_sim(EventHandler::Recording(RecordingEventHandler::new()));
    let a = new_node(&mut sim);
    let b = new_node(&mut sim);
    assert_eq!((a.index, b.index), (1, 2));
    let all = NodeId::all(&sim);
    assert_eq!(all, vec![NodeId::from_index(0), a, b]);
    let _ = spawn(&mut sim).unwrap();
    let (futures, slots) = teardown(&mut sim);
    assert_eq!(futures.len(), 1);
    assert!(slots.is_empty());
    for n in NodeId::all(&sim) {
        assert!(sim.executor.nodes[n.index].run_level == NodeRunLevel::FinalStopped);
    }
    let out = sim.destroy().unwrap();
    assert_eq!(
        out.events,
        vec![Event::NodeSpawned(a), Event::NodeSpawned(b), Event::TaskSpawned]
    );
}

#[test]
fn record_event_reaches_the_handler() {
    let mut sim = new_sim(EventHandler::Validating(ValidatingEventHandler::new(vec![
        Event::TaskSpawned,
    ])));
    assert_eq!(record_event(&mut sim, Event::TaskSpawned), Ok(()));
    assert_eq!(
        record_event(&mut sim, Event::TaskSpawned),
        Err(NonDeterminism::UnexpectedEvent { index: 1, got: Event::TaskSpawned })
    );
}

#[test]
fn current_node_follows_the_running_task() {
    let mut sim = new_sim(EventHandler::noop());
    let n = new_node(&mut sim);
    let t = n.spawn(&mut sim).unwrap().get();
    assert_eq!(NodeId::current(&sim), NodeId::init());
    assert_eq!(expect_run(&mut sim), (t, n));
    assert_eq!(NodeId::current(&sim), n);
    let _ = sim.finish_poll(true);
    assert_eq!(NodeId::current(&sim), NodeId::init());
    let ctx = Some(sim);
    assert_eq!(NodeId::try_current(&ctx), Some(NodeId::init()));
    assert!(refault::context::is_in_simulation(&ctx));
    let none: Option<Simulation> = None;
    assert_eq!(NodeId::try_current(&none), None);
}

#[test]
fn simulators_are_added_once_per_type() {
    let mut sim = new_sim(EventHandler::noop());
    assert_eq!(add_simulator(&mut sim, 7), 0);
    assert_eq!(add_simulator(&mut sim, 9), 1);
    let h = refault::context::simulator(&sim, 9);
    assert_eq!(h.key, 9);
    assert_eq!(sim.simulators.borrow(9), Some(1));
    assert!(!sim.simulators.is_available(9));
    sim.simulators.give_back(1);
    assert!(sim.simulators.is_available(9));
    assert_eq!(sim.simulators.borrow(3), None);
    assert_eq!(sim.simulators.visit_order(false), vec![1, 0]);
    assert_eq!(sim.simulators.pop(), Some(1));
    assert_eq!(sim.simulators.pop(), Some(0));
    assert_eq!(sim.simulators.pop(), None);
}

#[test]
fn unwrap_returns_the_root_output() {
    let out = SimulationOutput { time_elapsed: 3, output: Some(42), events: vec![] };
    assert_eq!(out.unwrap(), 42);
}

/// A simulator stays reachable while the nodes are being stopped at the end
/// of the simulation, so code that runs as a task's future is dropped can
/// still use it.
#[test]
fn simulator_on_drop() {
    let mut sim = new_sim(EventHandler::noop());
    assert_eq!(add_simulator(&mut sim, 5), 0);
    let h = spawn(&mut sim).unwrap();
    h.detach();
    let (task, _) = expect_run(&mut sim);
    assert_eq!(sim.finish_poll(false), PollOutcome::Parked);
    sim.begin_final_stop();
    let out = sim.stop_node(NodeId::init(), true);
    assert_eq!(out.dropped, vec![task]);
    // while the dropped future runs its destructor, the simulator is there
    assert!(sim.simulators.is_available(5));
    assert_eq!(refault::context::simulator(&sim, 5).key, 5);
    assert_eq!(sim.simulators.borrow(5), Some(0));
    sim.simulators.give_back(0);
    expect_finished(&mut sim);
}

/// Destroying the installed context yields the run's outcome once; a second
/// destroy finds nothing left to tear down.
#[test]
fn context_guard_destroys_once() {
    let mut guard = ContextInstallGuard::new(EventHandler::Recording(RecordingEventHandler::new()), 3, START, 9);
    let sim = guard.context.as_mut().unwrap();
    assert_eq!(sim.now(), START);
    assert_eq!(sim.seed, 3);
    let n = new_node(sim);
    teardown(sim);
    let out = guard.destroy().unwrap().unwrap();
    assert_eq!(out.time_elapsed, START);
    assert_eq!(out.events, vec![Event::NodeSpawned(n)]);
    assert!(guard.context.is_none());
    assert!(guard.destroy().is_none());
}

/// Once the simulation is asked to stop, the scheduler hands out no more
/// work, even with tasks ready and timers pending; after the final stop no
/// task is ready and the context can be torn down.
#[test]
fn stopped_simulation_hands_out_no_work() {
    let mut sim = new_sim(EventHandler::Recording(RecordingEventHandler::new()));
    let root = spawn(&mut sim).unwrap().task.get();
    let other = spawn(&mut sim).unwrap().task.get();
    assert_eq!(expect_run(&mut sim).0, root);
    let mut s = sleep(&sim.executor.time_scheduler, 5 * MS);
    assert!(!s.poll(&mut sim.executor.time_scheduler));
    sim.stop_simulation();
    assert_eq!(sim.finish_poll(false), PollOutcome::Parked);
    assert!(!sim.none_ready());
    expect_finished(&mut sim);
    assert_eq!(sim.executor.task_state(other), Some(TaskState::Ready));
    let (futures, _) = teardown(&mut sim);
    assert_eq!(futures, vec![root, other]);
    assert!(sim.none_ready());
    let out = sim.destroy().unwrap();
    assert_eq!(out.time_elapsed, START);
    assert_eq!(
        out.events,
        vec![Event::TaskSpawned, Event::TaskSpawned, Event::TaskRun(Id { value: root })]
    );
}

/// Stopping a node begins by making it current and listing its simulators,
/// most recently added first; only the finish cancels its tasks. A node
/// that is stopped already tells nobody and changes nothing.
#[test]
fn stop_tells_simulators_before_cancelling() {
    let mut sim = new_sim(EventHandler::noop());
    assert_eq!(add_simulator(&mut sim, 4), 0);
    assert_eq!(add_simulator(&mut sim, 8), 1);
    let n = new_node(&mut sim);
    let t = n.spawn(&mut sim).unwrap().get();
    let stop = sim.begin_stop(n);
    assert_eq!(stop.notify, vec![1, 0]);
    assert_eq!(NodeId::current(&sim), n);
    // the simulators are told here: the task is not cancelled yet
    assert_eq!(sim.executor.task_state(t), Some(TaskState::Ready));
    let previous = stop.previous;
    let out = sim.finish_stop(stop, false);
    assert_eq!(out.dropped, vec![t]);
    assert_eq!(sim.executor.task_state(t), Some(TaskState::Cancelled));
    sim.exit_node_scope(previous);
    assert_eq!(NodeId::current(&sim), NodeId::init());
    let again = sim.begin_stop(n);
    assert!(again.notify.is_empty());
    let out = sim.finish_stop(again, false);
    assert!(!out.was_running && out.dropped.is_empty());
}

/// Creating a node lists the simulators to tell in registration order,
/// with the new node current.
#[test]
fn create_node_tells_simulators_in_order() {
    let mut sim = new_sim(EventHandler::noop());
    assert_eq!(add_simulator(&mut sim, 4), 0);
    assert_eq!(add_simulator(&mut sim, 8), 1);
    let c = NodeId::create_node(&mut sim).unwrap();
    assert_eq!(c.notify, vec![0, 1]);
    assert_eq!(NodeId::current(&sim), c.node);
    let n = sim.finish_create_node(c);
    assert_eq!(n.index, 1);
    assert_eq!(NodeId::current(&sim), NodeId::init());
}

/// Teardown stops every node while the simulators exist, then drops the
/// simulators, most recently added first.
#[test]
fn teardown_stops_nodes_then_drops_simulators() {
    let mut sim = new_sim(EventHandler::noop());
    assert_eq!(add_simulator(&mut sim, 4), 0);
    assert_eq!(add_simulator(&mut sim, 8), 1);
    let n = new_node(&mut sim);
    let t = n.spawn(&mut sim).unwrap().get();
    match sim.next_teardown_step() {
        TeardownStep::StopNode(stop) => {
            assert_eq!(stop.node, NodeId::init());
            assert_eq!(stop.notify, vec![1, 0]);
            let p = stop.previous;
            let _ = sim.finish_stop(stop, true);
            sim.exit_node_scope(p);
        }
        _ => panic!("expected the initial node to be stopped first"),
    }
    match sim.next_teardown_step() {
        TeardownStep::StopNode(stop) => {
            assert_eq!(stop.node, n);
            let p = stop.previous;
            assert_eq!(sim.finish_stop(stop, true).dropped, vec![t]);
            sim.exit_node_scope(p);
        }
        _ => panic!("expected the second node to be stopped"),
    }
    assert!(matches!(sim.next_teardown_step(), TeardownStep::DropSimulator(1)));
    assert!(matches!(sim.next_teardown_step(), TeardownStep::DropSimulator(0)));
    assert!(matches!(sim.next_teardown_step(), TeardownStep::Done));
    assert!(sim.destroy().is_ok());
}
