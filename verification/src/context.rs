//! The context of one simulation and the steps of its scheduler.
//!
//! The code that owns the futures runs the scheduler loop: it asks
//! [Simulation::next_step] what to do, polls the task it is handed (with the
//! current node set to the task's node), reports the outcome with
//! [Simulation::finish_poll], and calls the wakers of fired timers, which
//! end up in [Simulation::wake].
use vstd::prelude::*;
use rand_chacha::ChaCha12Rng;
use rand_core::Rng;
use rand_core::SeedableRng;
use crate::event::{Event, EventHandler, NonDeterminism, finalize_spec, handled};
use crate::executor::{
    abort_effect, abort_local, entry_wf, is_queued_state, lemma_queue_pop, lemma_queue_pop_remove,
    lemma_queue_push, lemma_queue_remove_unqueued, lemma_queue_same, lemma_remove_entry,
    lemma_update_entry, same_run_levels, stopped_wf, tables_wf, Executor, ExecutorQueue, NodeData,
    NodeRunLevel, TaskEntry, TaskState,
};
use crate::id::{Id, IdGenerator};
use crate::node_id::NodeId;
use crate::simulator::{SimulatorHandle, SimulatorRegistry};
use crate::time::{TimeScheduler, fired_in_order, is_earliest_deadline, time_advance_failed};

verus! {

#[verifier::external_type_specification]
#[verifier::external_body]
pub struct ExChaCha12Rng(ChaCha12Rng);

/// The generator that `ChaCha12Rng::seed_from_u64` builds from a seed.
pub uninterp spec fn chacha12_from_seed(seed: u64) -> ChaCha12Rng;

/// `SeedableRng::seed_from_u64` for `ChaCha12Rng`: the generator depends on
/// the seed alone.
#[verifier::external_body]
fn seeded_rng(seed: u64) -> (rng: ChaCha12Rng)
    ensures
        rng == chacha12_from_seed(seed),
{
    ChaCha12Rng::seed_from_u64(seed)
}

/// What `Rng::next_u32` does to a `ChaCha12Rng` in a given state: the 32
/// bits it returns and the state it leaves behind.
pub uninterp spec fn chacha12_next_u32(rng: ChaCha12Rng) -> (u32, ChaCha12Rng);

/// `Rng::next_u32` for `ChaCha12Rng`: the value and the new state depend on
/// the state of the generator alone (the stream is a function of the seed).
#[verifier::external_body]
fn rng_next_u32(rng: &mut ChaCha12Rng) -> (v: u32)
    ensures
        (v, *final(rng)) == chacha12_next_u32(*old(rng)),
{
    rng.next_u32()
}

/// The generator seeded with `seed` after `n` draws of 32 bits.
pub open spec fn rng_after_draws(seed: u64, n: nat) -> ChaCha12Rng
    decreases n,
{
    if n == 0 {
        chacha12_from_seed(seed)
    } else {
        chacha12_next_u32(rng_after_draws(seed, (n - 1) as nat)).1
    }
}

/// The value of the `n`-th draw (counted from zero) of the generator seeded
/// with `seed`.
pub open spec fn random_draw(seed: u64, n: nat) -> u32 {
    chacha12_next_u32(rng_after_draws(seed, n)).0
}

/// The context of a running simulation.
pub struct Simulation {
    pub queue: ExecutorQueue,
    pub executor: Executor,
    pub event_handler: EventHandler,
    /// The node whose code is running.
    pub current_node: NodeId,
    pub ids: IdGenerator,
    pub rng: ChaCha12Rng,
    /// The seed the random generator was created with.
    pub seed: u64,
    /// How many values have been drawn from the random generator.
    pub draws: Ghost<nat>,
    /// The task being polled, if any.
    pub running: Option<u64>,
    /// The node to return to once the task being polled yields.
    pub calling_node: NodeId,
    /// The identity of the thread the simulation runs on.
    pub thread_anchor: u64,
    pub start_time: u128,
    pub simulators: SimulatorRegistry,
    /// The simulation was asked to stop: the scheduler hands out no more
    /// work.
    pub stop_requested: bool,
}

/// What the scheduler loop should do next.
pub enum Step {
    /// The task to poll next, and the node it belongs to.
    Run { task: u64, node: NodeId },
    /// Time advanced; call the wakers of these timers.
    TimersFired(Vec<u64>),
    /// No task can make progress any more.
    Finished,
}

/// What became of a polled task.
#[derive(Clone, Copy, PartialEq, Eq, Structural, Debug)]
pub enum PollOutcome {
    /// It completed; its entry is gone.
    Completed,
    /// It is pending; park its future in its entry again.
    Parked,
    /// It was aborted while it ran; drop its future.
    Dropped,
}

/// What stopping a node did.
pub struct StopOutcome {
    /// The node was running before.
    pub was_running: bool,
    /// The tasks whose parked futures have to be dropped.
    pub dropped: Vec<u64>,
}

/// A node stop under way. The node is current; its simulators are told in
/// the order `notify` (the reverse of their registration, and nobody when
/// the node was not running), and only then are its tasks cancelled by
/// [Simulation::finish_stop].
pub struct NodeStop {
    pub node: NodeId,
    /// The node that was current before the stop began.
    pub previous: NodeId,
    /// The node was running when the stop began.
    pub was_running: bool,
    /// The slots of the simulators to notify, in order.
    pub notify: Vec<usize>,
}

/// A node creation under way. The new node is current; its simulators are
/// told in the order `notify` (their registration order) before
/// [Simulation::finish_create_node] makes the calling node current again.
pub struct NodeCreation {
    pub node: NodeId,
    /// The node that was current before the creation.
    pub previous: NodeId,
    /// The slots of the simulators to notify, in order.
    pub notify: Vec<usize>,
}

/// The next step of tearing down a finished simulation.
pub enum TeardownStep {
    /// Stop this node for good: tell its simulators, then finish the stop.
    StopNode(NodeStop),
    /// Every node is stopped: drop the simulator in this slot, the most
    /// recently registered one left.
    DropSimulator(usize),
    /// Every node is stopped and every simulator dropped.
    Done,
}

/// The output of one simulation run.
pub struct SimulationOutput<T> {
    /// The simulated time elapsed, in nanoseconds.
    pub time_elapsed: u128,
    /// The output of the root future, if it completed.
    pub output: Option<T>,
    /// The recorded trace (empty unless the run recorded events).
    pub events: Vec<Event>,
}

impl<T> SimulationOutput<T> {
    /// The output of the root future, which must have completed.
    pub fn unwrap(self) -> (t: T)
        requires
            self.output is Some,
        ensures
            t == self.output->Some_0,
    {
        self.output.unwrap()
    }
}

impl Simulation {
    pub open spec fn tables(&self) -> bool {
        tables_wf(
            self.queue.ready_queue@,
            self.executor.tasks@,
            self.executor.nodes@,
            self.running,
            self.ids.pre_next_global_id,
        )
    }

    pub open spec fn wf(&self) -> bool {
        &&& self.tables()
        &&& self.executor.time_scheduler.wf()
        &&& self.event_handler.wf()
        &&& self.current_node.index < self.executor.nodes@.len()
        &&& self.calling_node.index < self.executor.nodes@.len()
        &&& self.simulators.wf()
        &&& self.rng == rng_after_draws(self.seed, self.draws@)
        &&& self.executor.time_scheduler.now >= self.start_time
    }

    pub open spec fn tasks(&self) -> Map<u64, TaskEntry> {
        self.executor.tasks@
    }

    pub open spec fn queue(&self) -> Seq<u64> {
        self.queue.ready_queue@
    }

    pub open spec fn nodes(&self) -> Seq<NodeData> {
        self.executor.nodes@
    }

    /// A simulation that has just started: the clock reads `start_time`,
    /// the initial node is current and the only node, no id has been handed
    /// out, no task exists, and the random generator is seeded with `seed`.
    pub open spec fn is_fresh(&self, event_handler: EventHandler, seed: u64, start_time: u128, thread_anchor: u64) -> bool {
        &&& self.wf()
        &&& self.event_handler == event_handler
        &&& self.current_node.index == 0
        &&& self.ids.pre_next_global_id == 0
        &&& self.rng == chacha12_from_seed(seed)
        &&& self.seed == seed
        &&& self.draws@ == 0
        &&& self.running is None
        &&& self.executor.time_scheduler.now == start_time
        &&& self.executor.time_scheduler.timers() == Map::<u64, u128>::empty()
        &&& self.queue() == Seq::<u64>::empty()
        &&& self.tasks() == Map::<u64, TaskEntry>::empty()
        &&& self.nodes().len() == 1
        &&& self.nodes()[0].run_level == NodeRunLevel::Running
        &&& !self.executor.final_stopped
        &&& self.thread_anchor == thread_anchor
        &&& self.start_time == start_time
        &&& self.simulators.keys@.len() == 0
        &&& !self.stop_requested
    }

    /// Set up a new simulation context (see [Simulation::is_fresh]).
    pub fn new(event_handler: EventHandler, seed: u64, start_time: u128, thread_anchor: u64) -> (s: Simulation)
        requires
            event_handler.wf(),
        ensures
            s.is_fresh(event_handler, seed, start_time, thread_anchor),
    {
        let queue = ExecutorQueue::new();
        let executor = queue.executor(start_time);
        let s = Simulation {
            queue,
            executor,
            event_handler,
            current_node: NodeId::init(),
            ids: IdGenerator::new(),
            rng: seeded_rng(seed),
            seed,
            draws: Ghost(0),
            running: None,
            calling_node: NodeId::init(),
            thread_anchor,
            start_time,
            simulators: SimulatorRegistry::new(),
            stop_requested: false,
        };
        proof {
            assert(s.nodes()[0].tasks@.len() == 0);
        }
        s
    }

    /// The node whose code is running.
    pub fn current_node(&self) -> (n: NodeId)
        ensures
            n == self.current_node,
    {
        self.current_node
    }

    /// The current simulated instant, in nanoseconds since the Unix epoch.
    pub fn now(&self) -> (t: u128)
        ensures
            t == self.executor.time_scheduler.now,
    {
        self.executor.time_scheduler.now
    }

    /// Run code as `node`: make it current and return the node to restore.
    pub fn enter_node_scope(&mut self, node: NodeId) -> (previous: NodeId)
        requires
            old(self).wf(),
            node.index < old(self).nodes().len(),
        ensures
            final(self).wf(),
            previous == old(self).current_node,
            *final(self) == (Simulation { current_node: node, ..*old(self) }),
    {
        let previous = self.current_node;
        self.current_node = node;
        previous
    }

    /// Leave a node scope entered with [Self::enter_node_scope].
    pub fn exit_node_scope(&mut self, previous: NodeId)
        requires
            old(self).wf(),
            previous.index < old(self).nodes().len(),
        ensures
            final(self).wf(),
            *final(self) == (Simulation { current_node: previous, ..*old(self) }),
    {
        self.current_node = previous;
    }

    /// Generate a new unique id.
    pub fn new_id(&mut self) -> (id: Id)
        requires
            old(self).wf(),
            old(self).ids.pre_next_global_id < u64::MAX,
        ensures
            final(self).wf(),
            id.value == old(self).ids.pre_next_global_id + 1,
            *final(self) == (Simulation { ids: IdGenerator { pre_next_global_id: id.value }, ..*old(self) }),
    {
        let id = Id::new(&mut self.ids);
        proof {
            assert forall|x: u64| #[trigger] self.tasks().contains_key(x) implies entry_wf(
                self.tasks()[x],
                x,
                self.nodes(),
                self.running,
                self.ids.pre_next_global_id,
            ) by {
                assert(entry_wf(self.tasks()[x], x, self.nodes(), self.running, old(self).ids.pre_next_global_id));
            }
        }
        id
    }

    /// The next 32 random bits of the simulation's generator: the value of
    /// the next draw of the generator seeded with the simulation's seed.
    pub fn random_u32(&mut self) -> (v: u32)
        requires
            old(self).wf(),
        ensures
            final(self).wf(),
            v == random_draw(old(self).seed, old(self).draws@),
            final(self).draws@ == old(self).draws@ + 1,
            *final(self) == (Simulation { rng: final(self).rng, draws: final(self).draws, ..*old(self) }),
    {
        let v = rng_next_u32(&mut self.rng);
        self.draws = Ghost(self.draws@ + 1);
        v
    }

    /// Spawn a task on `node`: record the spawn, then give the task a fresh
    /// id and wake it.
    pub fn spawn_task_on_node(&mut self, node: NodeId) -> (r: Result<TaskHandle, NonDeterminism>)
        requires
            old(self).wf(),
            node.index < old(self).nodes().len(),
            old(self).nodes()[node.index as int].run_level == NodeRunLevel::Running,
            old(self).ids.pre_next_global_id < u64::MAX,
        ensures
            final(self).wf(),
            handled(old(self).event_handler, Event::TaskSpawned, final(self).event_handler, match r {
                Ok(_) => Ok(()),
                Err(e) => Err(e),
            }),
            match r {
                Ok(h) => {
                    let id = h.task;
                    &&& h.node == node
                    &&& id.value == old(self).ids.pre_next_global_id + 1
                    &&& final(self).ids.pre_next_global_id == id.value
                    &&& !old(self).tasks().contains_key(id.value)
                    &&& final(self).tasks() == old(self).tasks().insert(
                        id.value,
                        TaskEntry { state: TaskState::Ready, node, stored: true },
                    )
                    &&& final(self).queue() == old(self).queue().push(id.value)
                    &&& final(self).nodes()[node.index as int].tasks@ == old(self).nodes()[node.index as int].tasks@.push(id.value)
                    &&& same_run_levels(final(self).nodes(), old(self).nodes())
                },
                Err(_) => final(self).tasks() == old(self).tasks() && final(self).queue() == old(
                    self,
                ).queue(),
            },
            final(self).running == old(self).running,
            final(self).current_node == old(self).current_node,
            final(self).executor.time_scheduler == old(self).executor.time_scheduler,
            final(self).executor.final_stopped == old(self).executor.final_stopped,
            same_context(*old(self), *final(self)),
    {
        self.event_handler.handle_event(Event::TaskSpawned)?;
        let id = self.executor.spawn(node, &mut self.ids, &mut self.queue, self.running);
        Ok(TaskHandle { task: id, node })
    }

    /// Wake a task: a waiting task becomes ready and joins the end of the
    /// queue. Waking any other task, or one whose entry is gone, does nothing.
    pub fn wake(&mut self, task: u64)
        requires
            old(self).wf(),
        ensures
            final(self).wf(),
            if old(self).tasks().contains_key(task) && old(self).tasks()[task].state == TaskState::Waiting {
                &&& final(self).tasks() == old(self).tasks().insert(
                    task,
                    TaskEntry { state: TaskState::Ready, ..old(self).tasks()[task] },
                )
                &&& final(self).queue() == old(self).queue().push(task)
            } else {
                final(self).tasks() == old(self).tasks() && final(self).queue() == old(self).queue()
            },
            final(self).nodes() == old(self).nodes(),
            final(self).running == old(self).running,
            final(self).current_node == old(self).current_node,
            final(self).event_handler == old(self).event_handler,
            final(self).ids == old(self).ids,
            final(self).executor.time_scheduler == old(self).executor.time_scheduler,
            final(self).executor.final_stopped == old(self).executor.final_stopped,
            same_context(*old(self), *final(self)),
    {
        let entry = match self.executor.tasks.get(&task) {
            None => return,
            Some(e) => *e,
        };
        match entry.state {
            TaskState::Waiting => {
                let e2 = TaskEntry { state: TaskState::Ready, ..entry };
                proof {
                    lemma_queue_push(self.queue(), self.tasks(), task, e2);
                    assert(entry_wf(entry, task, self.nodes(), self.running, self.ids.pre_next_global_id));
                    assert(stopped_wf(entry, self.nodes()));
                    lemma_update_entry(
                        self.queue(),
                        self.tasks(),
                        self.nodes(),
                        self.running,
                        self.ids.pre_next_global_id,
                        task,
                        e2,
                        self.queue().push(task),
                        self.running,
                    );
                }
                self.executor.tasks.insert(task, e2);
                self.queue.ready_queue.push_back(task);
            },
            _ => {},
        }
    }

    /// Abort a task. Returns the task's node when the task's parked future
    /// has to be dropped (on that node).
    pub fn abort(&mut self, task: u64) -> (r: Option<NodeId>)
        requires
            old(self).wf(),
        ensures
            final(self).wf(),
            aborted(*old(self), *final(self), task, r),
            live_abort(*old(self), *final(self), task, r),
            final(self).nodes() == old(self).nodes(),
            final(self).running == old(self).running,
            final(self).current_node == old(self).current_node,
            final(self).event_handler == old(self).event_handler,
            final(self).ids == old(self).ids,
            final(self).executor.time_scheduler == old(self).executor.time_scheduler,
            final(self).executor.final_stopped == old(self).executor.final_stopped,
    {
        let ghost t0 = self.tasks();
        let ghost q0 = self.queue();
        let node = match self.executor.tasks.get(&task) {
            Some(e) => e.node,
            None => NodeId::init(),
        };
        let dropped = abort_local(task, &mut self.queue, &mut self.executor.tasks);
        proof {
            if t0.contains_key(task) && t0[task].state != TaskState::Cancelled && t0[task].state != TaskState::Complete {
                let e2 = TaskEntry { state: TaskState::Cancelled, node: t0[task].node, stored: false };
                assert(entry_wf(t0[task], task, self.nodes(), self.running, self.ids.pre_next_global_id));
                lemma_update_entry(q0, t0, self.nodes(), self.running, self.ids.pre_next_global_id, task, e2, self.queue(), self.running);
            }
        }
        let r = if dropped {
            Some(node)
        } else {
            None
        };
        proof {
            assert(dropped == abort_drops(t0, task));
            assert(abort_effect(task, q0, t0, self.queue(), self.tasks(), dropped));
            assert(r == if dropped { Some(t0[task].node) } else { None });
            if t0.contains_key(task) && t0[task].state != TaskState::Cancelled && t0[task].state != TaskState::Complete {
                lemma_abort_cancels_a_live_task(*old(self), *self, task, r);
            }
        }
        r
    }

    /// Ask the simulation to stop: the scheduler hands out no more work.
    pub fn stop_simulation(&mut self)
        requires
            old(self).wf(),
        ensures
            final(self).wf(),
            *final(self) == (Simulation { stop_requested: true, ..*old(self) }),
    {
        self.stop_requested = true;
    }

    /// No task in the ready queue is ready to run: the queue holds only
    /// cancelled tasks, whose entries have not been cleaned up yet.
    pub open spec fn no_task_ready(&self) -> bool {
        forall|t: u64| #[trigger] self.queue().contains(t) ==> self.tasks()[t].state == TaskState::Cancelled
    }

    /// Whether no task is ready to run (see [Simulation::no_task_ready]).
    pub fn none_ready(&self) -> (b: bool)
        requires
            self.wf(),
        ensures
            b == self.no_task_ready(),
    {
        let mut i: usize = 0;
        while i < self.queue.ready_queue.len()
            invariant
                self.wf(),
                i <= self.queue().len(),
                forall|j: int| 0 <= j < i ==> #[trigger] self.tasks()[self.queue()[j]].state == TaskState::Cancelled,
            decreases self.queue().len() - i,
        {
            let id = self.queue.ready_queue[i];
            proof {
                assert(self.queue().contains(id)) by {
                    assert(self.queue()[i as int] == id);
                }
            }
            let entry = *self.executor.tasks.get(&id).unwrap();
            if entry.state != TaskState::Cancelled {
                proof {
                    assert(self.queue().contains(id) && self.tasks()[id].state != TaskState::Cancelled);
                }
                return false;
            }
            i = i + 1;
        }
        proof {
            assert forall|t: u64| #[trigger] self.queue().contains(t) implies self.tasks()[t].state
                == TaskState::Cancelled by {
                let j = self.queue().index_of(t);
                assert(self.queue()[j] == t);
            }
        }
        true
    }

    /// Tear the context down once every node has been stopped for good and
    /// every simulator dropped (see [Simulation::next_teardown_step]): the
    /// simulated instant reached and the event handler's verdict on the run.
    pub fn destroy(self) -> (r: Result<SimulationOutput<()>, NonDeterminism>)
        requires
            self.wf(),
            self.torn_down(),
        ensures
            match r {
                Ok(out) => out.time_elapsed == self.executor.time_scheduler.now && out.time_elapsed >= self.start_time
                    && out.output is None
                    && finalize_spec(self.event_handler) == Ok::<Seq<Event>, NonDeterminism>(out.events@),
                Err(e) => finalize_spec(self.event_handler) == Err::<Seq<Event>, NonDeterminism>(e),
            },
    {
        let time = self.executor.time_scheduler.now;
        let events = self.event_handler.finalize()?;
        Ok(SimulationOutput { time_elapsed: time, output: None, events })
    }

    /// Decide what the scheduler loop does next.
    ///
    /// Cancelled tasks at the front of the queue are removed. The first
    /// ready task is handed out to be polled: it becomes the running task,
    /// its node becomes current, and its run is recorded. When the queue has
    /// run dry, time advances to the deadline of the pending timers and
    /// those timers fire; when no timer is pending either, the simulation is
    /// finished. A simulation asked to stop is finished at once.
    pub fn next_step(&mut self) -> (r: Result<Step, NonDeterminism>)
        requires
            old(self).wf(),
            old(self).running is None,
        ensures
            final(self).wf(),
            final(self).ids == old(self).ids,
            final(self).executor.final_stopped == old(self).executor.final_stopped,
            final(self).stop_requested == old(self).stop_requested,
            same_run_levels(final(self).nodes(), old(self).nodes()),
            old(self).stop_requested ==> (r matches Ok(Step::Finished) && *final(self) == *old(self)),
            !old(self).stop_requested ==> match r {
                Ok(Step::Run { task, node }) => exists|k: int| {
                    &&& 0 <= k < old(self).queue().len()
                    &&& skipped_prefix(old(self).queue(), old(self).tasks(), k)
                    &&& old(self).queue()[k] == task
                    &&& old(self).tasks()[task].state == TaskState::Ready
                    &&& node == old(self).tasks()[task].node
                    &&& final(self).queue() == old(self).queue().skip(k + 1)
                    &&& final(self).tasks() == old(self).tasks().remove_keys(
                        old(self).queue().take(k).to_set(),
                    ).insert(task, TaskEntry { state: TaskState::Waiting, node, stored: false })
                    &&& final(self).running == Some(task)
                    &&& final(self).current_node == node
                    &&& final(self).calling_node == old(self).current_node
                    &&& handled(old(self).event_handler, Event::TaskRun(Id { value: task }), final(self).event_handler, Ok(()))
                    &&& final(self).executor.time_scheduler == old(self).executor.time_scheduler
                },
                Ok(Step::TimersFired(fired)) => {
                    &&& skipped_prefix(old(self).queue(), old(self).tasks(), old(self).queue().len() as int)
                    &&& final(self).queue().len() == 0
                    &&& final(self).tasks() == old(self).tasks().remove_keys(old(self).queue().to_set())
                    &&& final(self).running is None
                    &&& final(self).current_node == old(self).current_node
                    &&& is_earliest_deadline(old(self).executor.time_scheduler.timers(), final(self).executor.time_scheduler.now)
                    &&& final(self).executor.time_scheduler.now > old(self).executor.time_scheduler.now
                    &&& handled(
                        old(self).event_handler,
                        Event::TimeAdvanced((final(self).executor.time_scheduler.now - old(self).executor.time_scheduler.now) as u128),
                        final(self).event_handler,
                        Ok(()),
                    )
                    &&& fired_in_order(old(self).executor.time_scheduler.timers(), final(self).executor.time_scheduler.now, fired@)
                    &&& final(self).executor.time_scheduler.timers() == old(self).executor.time_scheduler.timers().remove_keys(
                        fired@.to_set(),
                    )
                },
                Ok(Step::Finished) => {
                    &&& skipped_prefix(old(self).queue(), old(self).tasks(), old(self).queue().len() as int)
                    &&& final(self).queue().len() == 0
                    &&& final(self).tasks() == old(self).tasks().remove_keys(old(self).queue().to_set())
                    &&& final(self).running is None
                    &&& old(self).executor.time_scheduler.timers().dom().is_empty()
                    &&& final(self).executor.time_scheduler.timers() == old(self).executor.time_scheduler.timers()
                    &&& final(self).executor.time_scheduler.now == old(self).executor.time_scheduler.now
                    &&& final(self).event_handler == old(self).event_handler
                },
                Err(e) => final(self).running is None && step_failed(*old(self), *final(self), e),
            },
            same_context(*old(self), *final(self)),
    {
        if self.stop_requested {
            return Ok(Step::Finished);
        }
        let ghost q0 = self.queue();
        let ghost t0 = self.tasks();
        let ghost h0 = self.event_handler;
        let ghost ns0 = self.nodes();
        let ghost mut k: int = 0;
        while self.queue.ready_queue.len() > 0
            invariant
                self.wf(),
                self.running is None,
                0 <= k <= q0.len(),
                self.queue() == q0.skip(k),
                self.tasks() == t0.remove_keys(q0.take(k).to_set()),
                skipped_prefix(q0, t0, k),
                self.event_handler == h0,
                self.ids == old(self).ids,
                self.current_node == old(self).current_node,
                self.executor.time_scheduler == old(self).executor.time_scheduler,
                self.executor.final_stopped == old(self).executor.final_stopped,
                self.stop_requested == old(self).stop_requested,
                !old(self).stop_requested,
                same_context(*old(self), *self),
                same_run_levels(self.nodes(), ns0),
                q0 == old(self).queue(),
                t0 == old(self).tasks(),
                h0 == old(self).event_handler,
                ns0 == old(self).nodes(),
            decreases self.queue().len(),
        {
            let id = self.queue.ready_queue[0];
            proof {
                assert(self.queue().contains(id)) by {
                    assert(self.queue()[0] == id);
                }
                assert(q0[k] == id);
            }
            let entry = *self.executor.tasks.get(&id).unwrap();
            match entry.state {
                TaskState::Ready => {
                    match self.event_handler.handle_event(Event::TaskRun(Id { value: id })) {
                        Err(e) => {
                            proof {
                                assert(skipped_prefix(q0, t0, k) && t0[q0[k]].state == TaskState::Ready);
                            }
                            return Err(e);
                        },
                        Ok(()) => {},
                    }
                    let e2 = TaskEntry { state: TaskState::Waiting, node: entry.node, stored: false };
                    proof {
                        lemma_queue_pop(self.queue(), self.tasks(), id, e2);
                        assert(entry_wf(entry, id, self.nodes(), self.running, self.ids.pre_next_global_id));
                        assert(stopped_wf(entry, self.nodes()));
                        lemma_update_entry(
                            self.queue(),
                            self.tasks(),
                            self.nodes(),
                            self.running,
                            self.ids.pre_next_global_id,
                            id,
                            e2,
                            self.queue().drop_first(),
                            Some(id),
                        );
                    }
                    let _ = self.queue.ready_queue.pop_front();
                    self.executor.tasks.insert(id, e2);
                    self.running = Some(id);
                    self.calling_node = self.current_node;
                    self.current_node = entry.node;
                    proof {
                        assert(entry_wf(entry, id, self.nodes(), None, self.ids.pre_next_global_id));
                        assert(self.queue() =~= q0.skip(k + 1));
                    }
                    return Ok(Step::Run { task: id, node: entry.node });
                },
                TaskState::Cancelled => {
                    proof {
                        lemma_queue_pop_remove(self.queue(), self.tasks(), id);
                    }
                    let ghost tb = self.tasks();
                    let ghost nb = self.nodes();
                    let ghost qb = self.queue();
                    let _ = self.queue.ready_queue.pop_front();
                    proof {
                        assert(entry_wf(entry, id, nb, None, self.ids.pre_next_global_id));
                    }
                    let _ = self.executor.remove_task_entry(id);
                    proof {
                        lemma_remove_entry(
                            qb,
                            tb,
                            nb,
                            None,
                            self.ids.pre_next_global_id,
                            id,
                            self.queue(),
                            self.nodes(),
                            None,
                        );
                        assert(q0.take(k + 1).to_set() =~= q0.take(k).to_set().insert(id)) by {
                            assert(q0.take(k + 1) =~= q0.take(k).push(id));
                            q0.take(k).lemma_push_to_set_commute(id);
                        }
                        assert(self.tasks() =~= t0.remove_keys(q0.take(k + 1).to_set()));
                        assert(self.queue() =~= q0.skip(k + 1));
                        assert(t0[id].state == TaskState::Cancelled) by {
                            assert(!q0.take(k).to_set().contains(id)) by {
                                if q0.take(k).to_set().contains(id) {
                                    let j = q0.take(k).index_of(id);
                                    assert(q0[j] == id);
                                }
                            }
                        }
                        k = k + 1;
                    }
                },
                _ => {
                    proof {
                        assert(false);
                    }
                },
            }
        }
        proof {
            assert(k == q0.len());
            assert(q0.take(k) =~= q0);
        }
        match self.executor.time_scheduler.wait_until_next_future_ready(&mut self.event_handler) {
            Err(e) => Err(e),
            Ok(None) => Ok(Step::Finished),
            Ok(Some((_, fired))) => Ok(Step::TimersFired(fired)),
        }
    }

    /// The running task has been polled: report whether it completed.
    ///
    /// A completed task's entry is removed. A pending task's future is parked
    /// in its entry again, unless the task was aborted while it ran, in which
    /// case the future is to be dropped. The node from before the poll
    /// becomes current again.
    pub fn finish_poll(&mut self, completed: bool) -> (outcome: PollOutcome)
        requires
            old(self).wf(),
            old(self).running is Some,
            completed ==> old(self).tasks()[old(self).running->Some_0].state == TaskState::Waiting,
        ensures
            final(self).wf(),
            final(self).running is None,
            final(self).current_node == old(self).calling_node,
            final(self).queue() == old(self).queue(),
            final(self).ids == old(self).ids,
            final(self).event_handler == old(self).event_handler,
            final(self).executor.time_scheduler == old(self).executor.time_scheduler,
            final(self).executor.final_stopped == old(self).executor.final_stopped,
            same_run_levels(final(self).nodes(), old(self).nodes()),
            ({
                let id = old(self).running->Some_0;
                let e = old(self).tasks()[id];
                if completed {
                    outcome == PollOutcome::Completed && final(self).tasks() == old(self).tasks().remove(id)
                } else if e.state == TaskState::Cancelled {
                    outcome == PollOutcome::Dropped && final(self).tasks() == old(self).tasks()
                } else {
                    outcome == PollOutcome::Parked && final(self).tasks() == old(self).tasks().insert(
                        id,
                        TaskEntry { stored: true, ..e },
                    )
                }
            }),
            same_context(*old(self), *final(self)),
    {
        let id = self.running.unwrap();
        let entry = *self.executor.tasks.get(&id).unwrap();
        let ghost t0 = self.tasks();
        let ghost n0 = self.nodes();
        let ghost q0 = self.queue();
        proof {
            assert(entry_wf(entry, id, n0, self.running, self.ids.pre_next_global_id));
            assert(stopped_wf(entry, n0));
        }
        let outcome = if completed {
            proof {
                assert(!q0.contains(id));
                lemma_queue_remove_unqueued(q0, t0, id);
            }
            let _ = self.executor.remove_task_entry(id);
            self.running = None;
            proof {
                lemma_remove_entry(q0, t0, n0, Some(id), self.ids.pre_next_global_id, id, q0, self.nodes(), None);
            }
            PollOutcome::Completed
        } else {
            match entry.state {
                TaskState::Cancelled => {
                    self.running = None;
                    proof {
                        lemma_queue_same(q0, t0, id, entry);
                        assert(t0.insert(id, entry) =~= t0);
                        lemma_update_entry(q0, t0, n0, Some(id), self.ids.pre_next_global_id, id, entry, q0, None);
                    }
                    PollOutcome::Dropped
                },
                _ => {
                    let e2 = TaskEntry { stored: true, ..entry };
                    proof {
                        lemma_queue_same(q0, t0, id, e2);
                        lemma_update_entry(q0, t0, n0, Some(id), self.ids.pre_next_global_id, id, e2, q0, None);
                    }
                    self.executor.tasks.insert(id, e2);
                    self.running = None;
                    PollOutcome::Parked
                },
            }
        };
        self.current_node = self.calling_node;
        outcome
    }

    /// Create a new node: it gets the next index, starts running, and its
    /// creation is recorded. The simulation must not be shutting down.
    pub fn create_node(&mut self) -> (r: Result<NodeId, NonDeterminism>)
        requires
            old(self).wf(),
            !old(self).executor.final_stopped,
        ensures
            final(self).wf(),
            final(self).nodes().len() == old(self).nodes().len() + 1,
            forall|n: int| 0 <= n < old(self).nodes().len() ==> #[trigger] final(self).nodes()[n] == old(self).nodes()[n],
            final(self).nodes()[old(self).nodes().len() as int].run_level == NodeRunLevel::Running,
            final(self).nodes()[old(self).nodes().len() as int].tasks@.len() == 0,
            final(self).tasks() == old(self).tasks(),
            final(self).queue() == old(self).queue(),
            final(self).running == old(self).running,
            final(self).current_node == old(self).current_node,
            final(self).simulators == old(self).simulators,
            final(self).ids == old(self).ids,
            final(self).executor.time_scheduler == old(self).executor.time_scheduler,
            final(self).executor.final_stopped == old(self).executor.final_stopped,
            handled(
                old(self).event_handler,
                Event::NodeSpawned(NodeId { index: old(self).nodes().len() as usize }),
                final(self).event_handler,
                match r {
                    Ok(_) => Ok(()),
                    Err(e) => Err(e),
                },
            ),
            r is Ok ==> r->Ok_0.index == old(self).nodes().len(),
            same_context(*old(self), *final(self)),
    {
        let ghost n0 = self.nodes();
        let id = self.executor.push_new_node();
        proof {
            let t = self.tasks();
            let ns = self.nodes();
            let pre = self.ids.pre_next_global_id;
            assert forall|x: u64| #[trigger] t.contains_key(x) implies entry_wf(t[x], x, ns, self.running, pre) by {
                assert(entry_wf(t[x], x, n0, self.running, pre));
            }
            assert forall|x: u64| #[trigger] t.contains_key(x) implies stopped_wf(t[x], ns) by {
                assert(entry_wf(t[x], x, n0, self.running, pre));
                assert(stopped_wf(t[x], n0));
            }
            assert forall|n: int| 0 <= n < ns.len() implies crate::executor::node_tasks_wf(#[trigger] ns[n].tasks@, t, n) by {
                if n < n0.len() {
                    assert(crate::executor::node_tasks_wf(n0[n].tasks@, t, n));
                }
            }
        }
        self.event_handler.handle_event(Event::NodeSpawned(id))?;
        Ok(id)
    }

    /// The simulation starts to shut down: no node may be created any more.
    pub fn begin_final_stop(&mut self)
        requires
            old(self).wf(),
        ensures
            final(self).wf(),
            *final(self) == (Simulation {
                executor: Executor { final_stopped: true, ..old(self).executor },
                ..*old(self)
            }),
    {
        self.executor.final_stopped = true;
    }

    /// All nodes of the simulation, in creation order.
    pub fn all_nodes(&self) -> (v: Vec<NodeId>)
        ensures
            v@.len() == self.nodes().len(),
            forall|i: int| 0 <= i < v@.len() ==> #[trigger] v@[i].index == i,
    {
        let mut v: Vec<NodeId> = Vec::new();
        let n = self.executor.node_count();
        let mut i: usize = 0;
        while i < n
            invariant
                i <= n,
                n == self.nodes().len(),
                v@.len() == i,
                forall|j: int| 0 <= j < i ==> #[trigger] v@[j].index == j,
            decreases n - i,
        {
            v.push(NodeId::from_index(i));
            i = i + 1;
        }
        v
    }

    /// Stop a node: it stops running and every task on it is aborted.
    ///
    /// A final stop marks the node as stopped for good. Stopping a node that
    /// was stopped already aborts nothing. Returns whether the node was
    /// running and the tasks whose parked futures have to be dropped.
    pub fn stop_node(&mut self, node: NodeId, is_final: bool) -> (out: StopOutcome)
        requires
            old(self).wf(),
            node.index < old(self).nodes().len(),
        ensures
            final(self).wf(),
            out.was_running == (old(self).nodes()[node.index as int].run_level == NodeRunLevel::Running),
            final(self).nodes().len() == old(self).nodes().len(),
            final(self).nodes()[node.index as int].run_level == (if is_final {
                NodeRunLevel::FinalStopped
            } else if out.was_running {
                NodeRunLevel::Stopped
            } else {
                old(self).nodes()[node.index as int].run_level
            }),
            final(self).nodes()[node.index as int].tasks@ == old(self).nodes()[node.index as int].tasks@,
            forall|n: int| 0 <= n < old(self).nodes().len() && n != node.index ==> #[trigger] final(self).nodes()[n] == old(self).nodes()[n],
            !out.was_running ==> final(self).tasks() == old(self).tasks() && final(self).queue() == old(self).queue()
                && out.dropped@.len() == 0,
            final(self).queue().len() >= old(self).queue().len(),
            final(self).queue().subrange(0, old(self).queue().len() as int) == old(self).queue(),
            final(self).tasks().dom() == old(self).tasks().dom(),
            forall|x: u64| #[trigger] final(self).tasks().contains_key(x) ==> final(self).tasks()[x].node == old(self).tasks()[x].node,
            forall|x: u64| #[trigger] final(self).tasks().contains_key(x) && final(self).tasks()[x].node != node
                ==> final(self).tasks()[x] == old(self).tasks()[x],
            forall|x: u64| #[trigger] final(self).tasks().contains_key(x) && final(self).tasks()[x].node == node
                ==> final(self).tasks()[x].state == TaskState::Cancelled,
            forall|x: u64| #[trigger] out.dropped@.contains(x) <==> (old(self).tasks().contains_key(x)
                && old(self).tasks()[x].node == node && old(self).tasks()[x].stored && out.was_running),
            final(self).running == old(self).running,
            final(self).current_node == old(self).current_node,
            final(self).ids == old(self).ids,
            final(self).event_handler == old(self).event_handler,
            final(self).executor.time_scheduler == old(self).executor.time_scheduler,
            final(self).executor.final_stopped == old(self).executor.final_stopped,
            stop_effect(*old(self), *final(self), node, is_final, out),
    {
        let n = node.index;
        let was_running = self.executor.nodes[n].run_level == NodeRunLevel::Running;
        let ghost t0 = self.tasks();
        let ghost ns0 = self.nodes();
        let ghost q0 = self.queue();
        if was_running {
            self.executor.nodes[n].run_level = if is_final {
                NodeRunLevel::FinalStopped
            } else {
                NodeRunLevel::Stopped
            };
        } else if is_final {
            self.executor.nodes[n].run_level = NodeRunLevel::FinalStopped;
        }
        let ghost ns1 = self.nodes();
        proof {
            assert forall|m: int| 0 <= m < ns0.len() && m != n implies #[trigger] ns1[m] == ns0[m] by {}
        }
        if !was_running {
            proof {
                let t = self.tasks();
                let pre = self.ids.pre_next_global_id;
                assert forall|x: u64| #[trigger] t.contains_key(x) implies entry_wf(t[x], x, ns1, self.running, pre) by {
                    assert(entry_wf(t[x], x, ns0, self.running, pre));
                }
                assert forall|x: u64| #[trigger] t.contains_key(x) implies stopped_wf(t[x], ns1) by {
                    assert(entry_wf(t[x], x, ns0, self.running, pre));
                    assert(stopped_wf(t[x], ns0));
                }
                assert forall|m: int| 0 <= m < ns1.len() implies crate::executor::node_tasks_wf(#[trigger] ns1[m].tasks@, t, m) by {
                    assert(crate::executor::node_tasks_wf(ns0[m].tasks@, t, m));
                }
            }
            proof {
                assert(self.running matches Some(r) ==> self.tasks().contains_key(r));
                assert(self.tables());
            }
            let out = StopOutcome { was_running: false, dropped: Vec::new() };
            proof {
                assert(self.queue().subrange(0, q0.len() as int) =~= q0);
                assert(stop_effect(*old(self), *self, node, is_final, out));
            }
            return out;
        }
        let task_ids = self.executor.nodes[n].tasks.clone();
        let mut dropped: Vec<u64> = Vec::new();
        let mut i: usize = 0;
        proof {
            assert(task_ids@ == ns0[n as int].tasks@);
            assert(crate::executor::node_tasks_wf(ns0[n as int].tasks@, t0, n as int));
        }
        while i < task_ids.len()
            invariant
                0 <= i <= task_ids@.len(),
                task_ids@ == ns0[n as int].tasks@,
                crate::executor::node_tasks_wf(task_ids@, t0, n as int),
                n < ns0.len(),
                self.nodes() == ns1,
                ns1[n as int].run_level != NodeRunLevel::Running,
                forall|m: int| 0 <= m < ns0.len() && m != n ==> #[trigger] ns1[m] == ns0[m],
                ns1.len() == ns0.len(),
                ns1[n as int].tasks@ == ns0[n as int].tasks@,
                crate::executor::queue_wf(self.queue(), self.tasks()),
                self.queue().len() >= q0.len(),
                self.queue().subrange(0, q0.len() as int) == q0,
                q0 == old(self).queue(),
                self.tasks().dom() == t0.dom(),
                forall|x: u64| #[trigger] self.tasks().contains_key(x) ==> self.tasks()[x].node == t0[x].node,
                forall|x: u64| #[trigger] self.tasks().contains_key(x) && !task_ids@.subrange(0, i as int).contains(x)
                    ==> self.tasks()[x] == t0[x],
                forall|x: u64| #[trigger] self.tasks().contains_key(x) && task_ids@.subrange(0, i as int).contains(x)
                    ==> self.tasks()[x].state == TaskState::Cancelled && !self.tasks()[x].stored,
                forall|x: u64| #[trigger] dropped@.contains(x) <==> (task_ids@.subrange(0, i as int).contains(x)
                    && t0[x].stored),
                tables_wf(q0, t0, ns0, self.running, self.ids.pre_next_global_id),
                t0 == old(self).tasks(),
                ns0 == old(self).nodes(),
                self.running == old(self).running,
                self.ids == old(self).ids,
                self.current_node == old(self).current_node,
                self.calling_node == old(self).calling_node,
                self.thread_anchor == old(self).thread_anchor,
                self.start_time == old(self).start_time,
                self.simulators == old(self).simulators,
                self.rng == old(self).rng,
                self.seed == old(self).seed,
                self.draws == old(self).draws,
                self.stop_requested == old(self).stop_requested,
                self.event_handler == old(self).event_handler,
                self.executor.time_scheduler == old(self).executor.time_scheduler,
                self.executor.final_stopped == old(self).executor.final_stopped,
            decreases task_ids@.len() - i,
        {
            let task = task_ids[i];
            let ghost tb = self.tasks();
            let ghost db = dropped@;
            let ghost qb = self.queue();
            proof {
                assert(t0.contains_key(task));
                assert(!task_ids@.subrange(0, i as int).contains(task)) by {
                    if task_ids@.subrange(0, i as int).contains(task) {
                        let j = task_ids@.subrange(0, i as int).index_of(task);
                        assert(task_ids@[j] == task);
                    }
                }
                assert(tb[task] == t0[task]);
                assert(entry_wf(t0[task], task, ns0, self.running, self.ids.pre_next_global_id));
                assert(stopped_wf(t0[task], ns0));
            }
            let was_stored = abort_local(task, &mut self.queue, &mut self.executor.tasks);
            if was_stored {
                dropped.push(task);
            }
            proof {
                assert(self.queue().subrange(0, q0.len() as int) =~= qb.subrange(0, q0.len() as int));
                let sub = task_ids@.subrange(0, i as int);
                let sub2 = task_ids@.subrange(0, i as int + 1);
                assert(sub2 =~= sub.push(task));
                assert forall|x: u64| sub2.contains(x) <==> (sub.contains(x) || x == task) by {
                    if sub2.contains(x) {
                        let j = sub2.index_of(x);
                        if j < i {
                            assert(sub[j] == x);
                        }
                    }
                    if sub.contains(x) {
                        let j = sub.index_of(x);
                        assert(sub2[j] == x);
                    }
                    if x == task {
                        assert(sub2[i as int] == x);
                    }
                }
                if was_stored {
                    assert(dropped@ =~= db.push(task));
                } else {
                    assert(dropped@ =~= db);
                }
                assert forall|x: u64| #[trigger] dropped@.contains(x) <==> (sub2.contains(x) && t0[x].stored) by {
                    if was_stored {
                        if dropped@.contains(x) && x != task {
                            let j = dropped@.index_of(x);
                            assert(db[j] == x);
                        }
                        if db.contains(x) {
                            let j = db.index_of(x);
                            assert(dropped@[j] == x);
                        }
                        assert(dropped@[dropped@.len() - 1] == task);
                    }
                }
            }
            i = i + 1;
        }
        proof {
            let t = self.tasks();
            let q = self.queue();
            let pre = self.ids.pre_next_global_id;
            assert(task_ids@.subrange(0, task_ids@.len() as int) =~= task_ids@);
            assert forall|x: u64| #[trigger] t.contains_key(x) implies entry_wf(t[x], x, ns1, self.running, pre) by {
                assert(entry_wf(t0[x], x, ns0, self.running, pre));
                if task_ids@.contains(x) {
                    assert(t[x].state == TaskState::Cancelled);
                }
            }
            assert forall|x: u64| #[trigger] t.contains_key(x) implies stopped_wf(t[x], ns1) by {
                assert(entry_wf(t0[x], x, ns0, self.running, pre));
                assert(stopped_wf(t0[x], ns0));
                if t0[x].node.index == n {
                    assert(task_ids@.contains(x));
                }
            }
            assert forall|m: int| 0 <= m < ns1.len() implies crate::executor::node_tasks_wf(#[trigger] ns1[m].tasks@, t, m) by {
                assert(crate::executor::node_tasks_wf(ns0[m].tasks@, t0, m));
            }
            assert forall|x: u64| #[trigger] t.contains_key(x) && t[x].node == node implies t[x].state == TaskState::Cancelled by {
                assert(entry_wf(t0[x], x, ns0, self.running, pre));
                assert(task_ids@.contains(x));
            }
            assert forall|x: u64| #[trigger] t.contains_key(x) && t[x].node != node implies t[x] == t0[x] by {
                if task_ids@.contains(x) {
                    let j = task_ids@.index_of(x);
                    assert(t0[task_ids@[j]].node.index == n);
                }
            }
            assert forall|x: u64| #[trigger] dropped@.contains(x) <==> (t0.contains_key(x) && t0[x].node == node
                && t0[x].stored && was_running) by {
                if t0.contains_key(x) && t0[x].node == node {
                    assert(entry_wf(t0[x], x, ns0, self.running, pre));
                    assert(task_ids@.contains(x));
                }
                if task_ids@.contains(x) {
                    let j = task_ids@.index_of(x);
                    assert(t0.contains_key(task_ids@[j]));
                }
            }
        }
        proof {
            assert(self.running matches Some(r) ==> self.tasks().contains_key(r)) by {
                if self.running is Some {
                    assert(t0.contains_key(self.running->Some_0));
                }
            }
            assert(self.tables());
        }
        StopOutcome { was_running: true, dropped }
    }

    /// Begin stopping a node: the node becomes current, and the simulators
    /// to tell are listed, most recently registered first. They are told
    /// before [Simulation::finish_stop] cancels the node's tasks; a node
    /// that is not running tells nobody. The stop is over once the node
    /// that was current before, `previous`, is current again.
    pub fn begin_stop(&mut self, node: NodeId) -> (stop: NodeStop)
        requires
            old(self).wf(),
            node.index < old(self).nodes().len(),
        ensures
            final(self).wf(),
            stop.node == node,
            stop.previous == old(self).current_node,
            stop.was_running == (old(self).nodes()[node.index as int].run_level == NodeRunLevel::Running),
            stop.was_running ==> stop.notify@.len() == old(self).simulators.keys@.len() && forall|i: int|
                0 <= i < stop.notify@.len() ==> #[trigger] stop.notify@[i] == old(self).simulators.keys@.len() - 1 - i,
            !stop.was_running ==> stop.notify@.len() == 0,
            *final(self) == (Simulation { current_node: node, ..*old(self) }),
    {
        let was_running = self.executor.nodes[node.index].run_level == NodeRunLevel::Running;
        let notify = if was_running {
            self.simulators.visit_order(false)
        } else {
            Vec::new()
        };
        let previous = self.enter_node_scope(node);
        NodeStop { node, previous, was_running, notify }
    }

    /// Finish stopping a node once its simulators have been told: its tasks
    /// are cancelled (see [stop_effect]). The node stays current while the
    /// futures handed back are dropped; `exit_node_scope` with the stop's
    /// `previous` node then ends the stop.
    pub fn finish_stop(&mut self, stop: NodeStop, is_final: bool) -> (out: StopOutcome)
        requires
            old(self).wf(),
            stop.node.index < old(self).nodes().len(),
            stop.was_running == (old(self).nodes()[stop.node.index as int].run_level == NodeRunLevel::Running),
        ensures
            final(self).wf(),
            out.was_running == stop.was_running,
            stop_effect(*old(self), *final(self), stop.node, is_final, out),
            final(self).current_node == old(self).current_node,
    {
        self.stop_node(stop.node, is_final)
    }

    /// The simulation is torn down: it is shutting down, every node is
    /// stopped for good, and every simulator has been dropped.
    pub open spec fn torn_down(&self) -> bool {
        &&& self.executor.final_stopped
        &&& forall|n: int| 0 <= n < self.nodes().len() ==> #[trigger] self.nodes()[n].run_level == NodeRunLevel::FinalStopped
        &&& self.simulators.keys@.len() == 0
    }

    /// Decide the next step of tearing the simulation down. The simulation
    /// is marked as shutting down; then every node, in creation order, is
    /// stopped for good while all simulators still exist; then the
    /// simulators are dropped, most recently registered first.
    pub fn next_teardown_step(&mut self) -> (step: TeardownStep)
        requires
            old(self).wf(),
        ensures
            final(self).wf(),
            final(self).executor.final_stopped,
            match step {
                TeardownStep::StopNode(stop) => {
                    &&& stop.node.index < old(self).nodes().len()
                    &&& old(self).nodes()[stop.node.index as int].run_level != NodeRunLevel::FinalStopped
                    &&& forall|n: int| 0 <= n < stop.node.index ==> #[trigger] old(self).nodes()[n].run_level
                        == NodeRunLevel::FinalStopped
                    &&& stop.previous == old(self).current_node
                    &&& stop.was_running == (old(self).nodes()[stop.node.index as int].run_level == NodeRunLevel::Running)
                    &&& stop.was_running ==> stop.notify@.len() == old(self).simulators.keys@.len() && forall|i: int|
                        0 <= i < stop.notify@.len() ==> #[trigger] stop.notify@[i] == old(self).simulators.keys@.len() - 1 - i
                    &&& !stop.was_running ==> stop.notify@.len() == 0
                    &&& *final(self) == (Simulation {
                        current_node: stop.node,
                        executor: Executor { final_stopped: true, ..old(self).executor },
                        ..*old(self)
                    })
                },
                TeardownStep::DropSimulator(i) => {
                    &&& forall|n: int| 0 <= n < old(self).nodes().len() ==> #[trigger] old(self).nodes()[n].run_level
                        == NodeRunLevel::FinalStopped
                    &&& i + 1 == old(self).simulators.keys@.len()
                    &&& final(self).simulators.keys@ == old(self).simulators.keys@.drop_last()
                    &&& final(self).simulators.present@ == old(self).simulators.present@.drop_last()
                    &&& *final(self) == (Simulation {
                        simulators: final(self).simulators,
                        executor: Executor { final_stopped: true, ..old(self).executor },
                        ..*old(self)
                    })
                },
                TeardownStep::Done => {
                    &&& final(self).torn_down()
                    &&& *final(self) == (Simulation {
                        executor: Executor { final_stopped: true, ..old(self).executor },
                        ..*old(self)
                    })
                },
            },
    {
        self.begin_final_stop();
        let n = self.executor.node_count();
        let mut i: usize = 0;
        while i < n && self.executor.nodes[i].run_level == NodeRunLevel::FinalStopped
            invariant
                i <= n,
                n == self.nodes().len(),
                forall|m: int| 0 <= m < i ==> #[trigger] self.nodes()[m].run_level == NodeRunLevel::FinalStopped,
            decreases n - i,
        {
            i = i + 1;
        }
        if i < n {
            let stop = self.begin_stop(NodeId::from_index(i));
            return TeardownStep::StopNode(stop);
        }
        let ghost stopped = *self;
        proof {
            assert(i == n);
            assert(stopped == (Simulation {
                executor: Executor { final_stopped: true, ..old(self).executor },
                ..*old(self)
            }));
        }
        match self.simulators.pop() {
            Some(index) => {
                proof {
                    assert(self.tables());
                    assert(*self == (Simulation { simulators: self.simulators, ..stopped }));
                }
                TeardownStep::DropSimulator(index)
            },
            None => {
                TeardownStep::Done
            },
        }
    }

    /// Create a node and begin telling its simulators: the new node becomes
    /// current, and the simulators to tell are listed in registration
    /// order. [Simulation::finish_create_node] makes the calling node
    /// current again.
    pub fn begin_create_node(&mut self) -> (r: Result<NodeCreation, NonDeterminism>)
        requires
            old(self).wf(),
            !old(self).executor.final_stopped,
        ensures
            final(self).wf(),
            final(self).nodes().len() == old(self).nodes().len() + 1,
            forall|n: int| 0 <= n < old(self).nodes().len() ==> #[trigger] final(self).nodes()[n] == old(self).nodes()[n],
            final(self).nodes()[old(self).nodes().len() as int].run_level == NodeRunLevel::Running,
            final(self).tasks() == old(self).tasks(),
            final(self).queue() == old(self).queue(),
            final(self).simulators == old(self).simulators,
            handled(
                old(self).event_handler,
                Event::NodeSpawned(NodeId { index: old(self).nodes().len() as usize }),
                final(self).event_handler,
                match r {
                    Ok(_) => Ok(()),
                    Err(e) => Err(e),
                },
            ),
            match r {
                Ok(c) => {
                    &&& c.node.index == old(self).nodes().len()
                    &&& c.previous == old(self).current_node
                    &&& final(self).current_node == c.node
                    &&& c.notify@.len() == old(self).simulators.keys@.len()
                    &&& forall|i: int| 0 <= i < c.notify@.len() ==> #[trigger] c.notify@[i] == i
                },
                Err(_) => final(self).current_node == old(self).current_node,
            },
            same_context(*old(self), *final(self)),
    {
        let node = self.create_node()?;
        let notify = self.simulators.visit_order(true);
        let previous = self.enter_node_scope(node);
        Ok(NodeCreation { node, previous, notify })
    }

    /// The simulators of a new node have been told: the node that was
    /// current before the creation becomes current again.
    pub fn finish_create_node(&mut self, c: NodeCreation) -> (node: NodeId)
        requires
            old(self).wf(),
            c.previous.index < old(self).nodes().len(),
        ensures
            final(self).wf(),
            node == c.node,
            *final(self) == (Simulation { current_node: c.previous, ..*old(self) }),
    {
        self.exit_node_scope(c.previous);
        c.node
    }
}

/// The context of a simulation installed for the code that runs in it.
/// Destroying it ends the run; once destroyed, destroying it again does
/// nothing.
pub struct ContextInstallGuard {
    pub context: Option<Simulation>,
}

impl ContextInstallGuard {
    /// Install the context of a new simulation.
    pub fn new(event_handler: EventHandler, seed: u64, start_time: u128, thread_anchor: u64) -> (g: Self)
        requires
            event_handler.wf(),
        ensures
            g.context matches Some(s) && s.is_fresh(event_handler, seed, start_time, thread_anchor),
    {
        ContextInstallGuard { context: Some(Simulation::new(event_handler, seed, start_time, thread_anchor)) }
    }

    /// Tear the context down, if it is still installed: the simulated
    /// instant reached and the event handler's verdict on the run. Its nodes
    /// must have been stopped and its simulators dropped first, step by step
    /// as [Simulation::next_teardown_step] decides.
    pub fn destroy(&mut self) -> (r: Option<Result<SimulationOutput<()>, NonDeterminism>>)
        requires
            old(self).context matches Some(s) ==> s.wf() && s.torn_down(),
        ensures
            final(self).context is None,
            match old(self).context {
                None => r is None,
                Some(s) => match r {
                    Some(Ok(out)) => out.time_elapsed == s.executor.time_scheduler.now
                        && out.time_elapsed >= s.start_time && out.output is None
                        && finalize_spec(s.event_handler) == Ok::<Seq<Event>, NonDeterminism>(out.events@),
                    Some(Err(e)) => finalize_spec(s.event_handler) == Err::<Seq<Event>, NonDeterminism>(e),
                    None => false,
                },
            },
    {
        match self.context.take() {
            None => None,
            Some(s) => Some(s.destroy()),
        }
    }
}

/// A handle to a spawned task: it can abort the task or be detached.
///
/// Awaiting the task's output is the business of the code that owns the
/// task's future.
pub struct TaskHandle {
    pub task: Id,
    pub node: NodeId,
}

/// A handle that can abort a task; dropping it does not.
#[derive(Clone, Copy, PartialEq, Eq, Structural, Debug)]
pub struct AbortHandle {
    pub task: Id,
    pub node: NodeId,
}

/// A handle that aborts its task when it is released.
pub struct AbortGuard(pub AbortHandle);

impl TaskHandle {
    /// Abort the associated task. Returns the node on which its parked
    /// future is to be dropped, if it has to be.
    pub fn abort(self, sim: &mut Simulation) -> (r: Option<NodeId>)
        requires
            old(sim).wf(),
        ensures
            final(sim).wf(),
            aborted(*old(sim), *final(sim), self.task.value, r),
            live_abort(*old(sim), *final(sim), self.task.value, r),
    {
        sim.abort(self.task.value)
    }

    /// Detach this handle from the task, which keeps running.
    pub fn detach(self) {
    }

    /// A handle that can abort the associated task.
    pub fn abort_handle(&self) -> (h: AbortHandle)
        ensures
            h.task == self.task && h.node == self.node,
    {
        AbortHandle { task: self.task, node: self.node }
    }
}

impl AbortHandle {
    /// Abort the associated task.
    pub fn abort(self, sim: &mut Simulation) -> (r: Option<NodeId>)
        requires
            old(sim).wf(),
        ensures
            final(sim).wf(),
            aborted(*old(sim), *final(sim), self.task.value, r),
            live_abort(*old(sim), *final(sim), self.task.value, r),
    {
        sim.abort(self.task.value)
    }

    /// A guard that aborts the task when it is released.
    pub fn abort_on_drop(self) -> (g: AbortGuard)
        ensures
            g.0 == self,
    {
        AbortGuard(self)
    }
}

impl AbortGuard {
    /// Release the guard: the task is aborted.
    pub fn release(self, sim: &mut Simulation) -> (r: Option<NodeId>)
        requires
            old(sim).wf(),
        ensures
            final(sim).wf(),
            aborted(*old(sim), *final(sim), self.0.task.value, r),
            live_abort(*old(sim), *final(sim), self.0.task.value, r),
    {
        self.0.abort(sim)
    }
}

impl NodeId {
    /// Create a new node that tasks can be run on, and begin telling the
    /// simulators about it: the new node is current, and they are to be
    /// told in registration order before [Simulation::finish_create_node]
    /// makes the calling node current again.
    pub fn create_node(sim: &mut Simulation) -> (r: Result<NodeCreation, NonDeterminism>)
        requires
            old(sim).wf(),
            !old(sim).executor.final_stopped,
        ensures
            final(sim).wf(),
            final(sim).nodes().len() == old(sim).nodes().len() + 1,
            forall|n: int| 0 <= n < old(sim).nodes().len() ==> #[trigger] final(sim).nodes()[n] == old(sim).nodes()[n],
            final(sim).nodes()[old(sim).nodes().len() as int].run_level == NodeRunLevel::Running,
            final(sim).tasks() == old(sim).tasks(),
            final(sim).queue() == old(sim).queue(),
            handled(
                old(sim).event_handler,
                Event::NodeSpawned(NodeId { index: old(sim).nodes().len() as usize }),
                final(sim).event_handler,
                match r {
                    Ok(_) => Ok(()),
                    Err(e) => Err(e),
                },
            ),
            match r {
                Ok(c) => {
                    &&& c.node.index == old(sim).nodes().len()
                    &&& c.previous == old(sim).current_node
                    &&& final(sim).current_node == c.node
                    &&& c.notify@.len() == old(sim).simulators.keys@.len()
                    &&& forall|i: int| 0 <= i < c.notify@.len() ==> #[trigger] c.notify@[i] == i
                },
                Err(_) => final(sim).current_node == old(sim).current_node,
            },
    {
        sim.begin_create_node()
    }

    /// Spawn a task on this node and detach it.
    pub fn spawn(self, sim: &mut Simulation) -> (r: Result<Id, NonDeterminism>)
        requires
            old(sim).wf(),
            self.index < old(sim).nodes().len(),
            old(sim).nodes()[self.index as int].run_level == NodeRunLevel::Running,
            old(sim).ids.pre_next_global_id < u64::MAX,
        ensures
            final(sim).wf(),
            handled(old(sim).event_handler, Event::TaskSpawned, final(sim).event_handler, match r {
                Ok(_) => Ok(()),
                Err(e) => Err(e),
            }),
            match r {
                Ok(id) => id.value == old(sim).ids.pre_next_global_id + 1 && final(sim).tasks() == old(sim).tasks().insert(
                    id.value,
                    TaskEntry { state: TaskState::Ready, node: self, stored: true },
                ) && final(sim).queue() == old(sim).queue().push(id.value),
                Err(_) => final(sim).tasks() == old(sim).tasks() && final(sim).queue() == old(sim).queue(),
            },
    {
        let h = sim.spawn_task_on_node(self)?;
        let id = h.task;
        h.detach();
        Ok(id)
    }

    /// The node the calling code runs on.
    pub fn current(sim: &Simulation) -> (n: NodeId)
        ensures
            n == sim.current_node,
    {
        sim.current_node
    }

    /// The current node, if a simulation context is installed.
    pub fn try_current(context: &Option<Simulation>) -> (n: Option<NodeId>)
        ensures
            match context {
                Some(sim) => n == Some(sim.current_node),
                None => n is None,
            },
    {
        match context {
            Some(sim) => Some(sim.current_node),
            None => None,
        }
    }

    /// Stop this node: its tasks are aborted and it stops running. Stopping a
    /// stopped node does nothing.
    pub fn stop(self, sim: &mut Simulation) -> (out: StopOutcome)
        requires
            old(sim).wf(),
            self.index < old(sim).nodes().len(),
        ensures
            final(sim).wf(),
            out.was_running == (old(sim).nodes()[self.index as int].run_level == NodeRunLevel::Running),
            final(sim).nodes()[self.index as int].run_level != NodeRunLevel::Running,
            forall|x: u64| #[trigger] final(sim).tasks().contains_key(x) && final(sim).tasks()[x].node == self
                ==> final(sim).tasks()[x].state == TaskState::Cancelled,
            forall|x: u64| #[trigger] out.dropped@.contains(x) <==> (old(sim).tasks().contains_key(x)
                && old(sim).tasks()[x].node == self && old(sim).tasks()[x].stored && out.was_running),
            forall|x: u64| #[trigger] final(sim).tasks().contains_key(x) && final(sim).tasks()[x].node != self
                ==> final(sim).tasks()[x] == old(sim).tasks()[x],
            !out.was_running ==> final(sim).tasks() == old(sim).tasks() && final(sim).queue() == old(sim).queue()
                && final(sim).nodes()[self.index as int].run_level == old(sim).nodes()[self.index as int].run_level
                && out.dropped@.len() == 0,
            stop_effect(*old(sim), *final(sim), self, false, out),
            final(sim).current_node == old(sim).current_node,
    {
        sim.stop_node(self, false)
    }

    /// All nodes of the simulation, in creation order.
    pub fn all(sim: &Simulation) -> (v: Vec<NodeId>)
        ensures
            v@.len() == sim.nodes().len(),
            forall|i: int| 0 <= i < v@.len() ==> #[trigger] v@[i].index == i,
    {
        sim.all_nodes()
    }
}

/// Spawn a task on the node the calling code runs on.
pub fn spawn(sim: &mut Simulation) -> (r: Result<TaskHandle, NonDeterminism>)
    requires
        old(sim).wf(),
        old(sim).nodes()[old(sim).current_node.index as int].run_level == NodeRunLevel::Running,
        old(sim).ids.pre_next_global_id < u64::MAX,
    ensures
        final(sim).wf(),
        handled(old(sim).event_handler, Event::TaskSpawned, final(sim).event_handler, match r {
            Ok(_) => Ok(()),
            Err(e) => Err(e),
        }),
        match r {
            Ok(h) => h.node == old(sim).current_node && h.task.value == old(sim).ids.pre_next_global_id + 1
                && final(sim).tasks() == old(sim).tasks().insert(
                h.task.value,
                TaskEntry { state: TaskState::Ready, node: old(sim).current_node, stored: true },
            ) && final(sim).queue() == old(sim).queue().push(h.task.value),
            Err(_) => final(sim).tasks() == old(sim).tasks() && final(sim).queue() == old(sim).queue(),
        },
{
    let node = sim.current_node;
    sim.spawn_task_on_node(node)
}

/// Report an event of the running simulation to its event handler.
pub fn record_event(sim: &mut Simulation, event: Event) -> (r: Result<(), NonDeterminism>)
    requires
        old(sim).wf(),
    ensures
        final(sim).wf(),
        handled(old(sim).event_handler, event, final(sim).event_handler, r),
        *final(sim) == (Simulation { event_handler: final(sim).event_handler, ..*old(sim) }),
{
    sim.event_handler.handle_event(event)
}

/// The calling code runs inside a simulation: a simulation context is
/// installed.
pub fn is_in_simulation(context: &Option<Simulation>) -> (b: bool)
    ensures
        b == context is Some,
{
    context.is_some()
}

/// Add a simulator, under its type key, to the simulation. Simulators must be
/// added before any node is created, while the simulation is not shutting
/// down, and once per type.
pub fn add_simulator(sim: &mut Simulation, key: u64) -> (index: usize)
    requires
        old(sim).wf(),
        old(sim).nodes().len() == 1,
        !old(sim).executor.final_stopped,
        !old(sim).simulators.registered(key),
    ensures
        final(sim).wf(),
        index == old(sim).simulators.keys@.len(),
        final(sim).simulators.keys@ == old(sim).simulators.keys@.push(key),
        final(sim).simulators.present@ == old(sim).simulators.present@.push(true),
        *final(sim) == (Simulation { simulators: final(sim).simulators, ..*old(sim) }),
{
    sim.simulators.add(key)
}

/// A handle for the simulator registered under this type key, which must
/// exist.
pub fn simulator(sim: &Simulation, key: u64) -> (h: SimulatorHandle)
    requires
        sim.simulators.registered(key),
    ensures
        h.key == key,
{
    SimulatorHandle { key }
}

/// Every task of a node that has been stopped is cancelled; since only a
/// ready task is ever handed out to be polled, no task of a stopped node
/// runs again.
pub proof fn lemma_tasks_of_stopped_nodes_are_cancelled(s: Simulation, task: u64)
    requires
        s.wf(),
        s.tasks().contains_key(task),
        s.nodes()[s.tasks()[task].node.index as int].run_level != NodeRunLevel::Running,
    ensures
        s.tasks()[task].state == TaskState::Cancelled,
        s.tasks()[task].state != TaskState::Ready,
{
    assert(stopped_wf(s.tasks()[task], s.nodes()));
}

/// The ready queue holds exactly the tasks that are ready or cancelled, each
/// once: a task woken twice is queued once, and a task is queued only when
/// it was woken or aborted.
pub proof fn lemma_queue_holds_exactly_ready_and_cancelled(s: Simulation, task: u64)
    requires
        s.wf(),
    ensures
        s.queue().contains(task) <==> (s.tasks().contains_key(task) && (s.tasks()[task].state == TaskState::Ready
            || s.tasks()[task].state == TaskState::Cancelled)),
        s.queue().no_duplicates(),
{
    assert(crate::executor::queue_wf(s.queue(), s.tasks()));
}

/// Random numbers are deterministic: two simulations started with the same
/// seed that have drawn equally often are in the same random state, so they
/// draw the same value next.
pub proof fn lemma_random_draws_depend_on_the_seed_alone(s1: Simulation, s2: Simulation)
    requires
        s1.wf(),
        s2.wf(),
        s1.seed == s2.seed,
        s1.draws@ == s2.draws@,
    ensures
        s1.rng == s2.rng,
        chacha12_next_u32(s1.rng).0 == random_draw(s1.seed, s1.draws@),
        chacha12_next_u32(s2.rng).0 == random_draw(s1.seed, s1.draws@),
{
}

/// The parts of a simulation that the scheduler never touches are the
/// same: the simulators, the random generator and its seed and draw count,
/// the thread anchor, the start time, the node to return to after a poll,
/// and whether a stop was asked for.
pub open spec fn same_context(pre: Simulation, post: Simulation) -> bool {
    &&& post.simulators == pre.simulators
    &&& post.rng == pre.rng
    &&& post.seed == pre.seed
    &&& post.draws == pre.draws
    &&& post.thread_anchor == pre.thread_anchor
    &&& post.start_time == pre.start_time
    &&& post.stop_requested == pre.stop_requested
}

/// Right after a task is spawned, the ready queue is not empty: it holds
/// the new task, once.
pub proof fn lemma_spawned_task_is_queued_once(pre: Simulation, post: Simulation, id: u64)
    requires
        post.wf(),
        post.queue() == pre.queue().push(id),
    ensures
        post.queue().len() > 0,
        post.queue().contains(id),
        post.queue().no_duplicates(),
{
    assert(post.queue()[post.queue().len() - 1] == id);
    assert(crate::executor::queue_wf(post.queue(), post.tasks()));
}

/// What stopping `node` does to a simulation (the current node aside): the
/// node's run level becomes `Stopped`, or `FinalStopped` for a final stop;
/// if it was running, each of its tasks is cancelled (queued once more for
/// clean-up) and the parked futures among them are handed back to be
/// dropped; if it was not running, no task, queue entry or future changes.
/// Nothing else changes.
pub open spec fn stop_effect(pre: Simulation, post: Simulation, node: NodeId, is_final: bool, out: StopOutcome) -> bool {
    &&& node.index < pre.nodes().len()
    &&& out.was_running == (pre.nodes()[node.index as int].run_level == NodeRunLevel::Running)
    &&& post.nodes().len() == pre.nodes().len()
    &&& post.nodes()[node.index as int].run_level == (if is_final {
        NodeRunLevel::FinalStopped
    } else if out.was_running {
        NodeRunLevel::Stopped
    } else {
        pre.nodes()[node.index as int].run_level
    })
    &&& post.nodes()[node.index as int].tasks@ == pre.nodes()[node.index as int].tasks@
    &&& forall|n: int| 0 <= n < pre.nodes().len() && n != node.index ==> #[trigger] post.nodes()[n] == pre.nodes()[n]
    &&& !out.was_running ==> post.tasks() == pre.tasks() && post.queue() == pre.queue() && out.dropped@.len() == 0
    &&& post.queue().len() >= pre.queue().len()
    &&& post.queue().subrange(0, pre.queue().len() as int) == pre.queue()
    &&& post.tasks().dom() == pre.tasks().dom()
    &&& forall|x: u64| #[trigger] post.tasks().contains_key(x) ==> post.tasks()[x].node == pre.tasks()[x].node
    &&& forall|x: u64| #[trigger] post.tasks().contains_key(x) && post.tasks()[x].node != node ==> post.tasks()[x]
        == pre.tasks()[x]
    &&& forall|x: u64| #[trigger] post.tasks().contains_key(x) && post.tasks()[x].node == node ==> post.tasks()[x].state
        == TaskState::Cancelled
    &&& forall|x: u64| #[trigger] out.dropped@.contains(x) <==> (pre.tasks().contains_key(x) && pre.tasks()[x].node == node
        && pre.tasks()[x].stored && out.was_running)
    &&& post.running == pre.running
    &&& post.ids == pre.ids
    &&& post.event_handler == pre.event_handler
    &&& post.executor.time_scheduler == pre.executor.time_scheduler
    &&& post.executor.final_stopped == pre.executor.final_stopped
    &&& post.simulators == pre.simulators
    &&& post.rng == pre.rng
    &&& post.seed == pre.seed
    &&& post.draws == pre.draws
    &&& post.calling_node == pre.calling_node
    &&& post.thread_anchor == pre.thread_anchor
    &&& post.start_time == pre.start_time
    &&& post.stop_requested == pre.stop_requested
}

/// Once a simulation is torn down, no task is left ready to run: every
/// task in the queue is cancelled.
pub proof fn lemma_torn_down_leaves_no_task_ready(s: Simulation)
    requires
        s.wf(),
        s.torn_down(),
    ensures
        s.no_task_ready(),
{
    assert forall|t: u64| #[trigger] s.queue().contains(t) implies s.tasks()[t].state == TaskState::Cancelled by {
        assert(crate::executor::queue_wf(s.queue(), s.tasks()));
        assert(entry_wf(s.tasks()[t], t, s.nodes(), s.running, s.ids.pre_next_global_id));
        assert(stopped_wf(s.tasks()[t], s.nodes()));
    }
}

/// Aborting a live task (one that exists and is neither cancelled nor
/// complete) leaves it cancelled and queued, and hands back its node exactly
/// when its future was parked.
pub open spec fn live_abort(pre: Simulation, post: Simulation, task: u64, r: Option<NodeId>) -> bool {
    pre.tasks().contains_key(task) && pre.tasks()[task].state != TaskState::Cancelled && pre.tasks()[task].state
        != TaskState::Complete ==> {
        &&& post.tasks().contains_key(task)
        &&& post.tasks()[task].state == TaskState::Cancelled
        &&& post.queue().contains(task)
        &&& r == (if pre.tasks()[task].stored {
            Some(pre.tasks()[task].node)
        } else {
            None
        })
    }
}

/// Aborting `task` hands its parked future back to be dropped: the task
/// exists, is neither cancelled nor complete, and its future is parked.
pub open spec fn abort_drops(t: Map<u64, TaskEntry>, task: u64) -> bool {
    &&& t.contains_key(task)
    &&& t[task].state != TaskState::Cancelled
    &&& t[task].state != TaskState::Complete
    &&& t[task].stored
}

/// Aborting a task that exists and is neither cancelled nor complete, be
/// it ready or waiting, cancels it: it is left cancelled and in the queue
/// (to be cleaned up, never to run), and its future is handed back to be
/// dropped on its node exactly when it was parked.
pub proof fn lemma_abort_cancels_a_live_task(pre: Simulation, post: Simulation, task: u64, r: Option<NodeId>)
    requires
        pre.wf(),
        aborted(pre, post, task, r),
        pre.tasks().contains_key(task),
        pre.tasks()[task].state != TaskState::Cancelled,
        pre.tasks()[task].state != TaskState::Complete,
    ensures
        post.tasks().contains_key(task),
        post.tasks()[task].state == TaskState::Cancelled,
        post.queue().contains(task),
        r == (if pre.tasks()[task].stored {
            Some(pre.tasks()[task].node)
        } else {
            None
        }),
{
    assert(crate::executor::queue_wf(pre.queue(), pre.tasks()));
    if pre.tasks()[task].state == TaskState::Waiting {
        assert(post.queue()[post.queue().len() - 1] == task);
    }
}

/// What aborting `task` does to a simulation: the task table and queue
/// change as [abort_effect] says, nothing else changes, and the result is
/// the node on which the parked future is to be dropped, if it is.
pub open spec fn aborted(pre: Simulation, post: Simulation, task: u64, r: Option<NodeId>) -> bool {
    &&& abort_effect(task, pre.queue(), pre.tasks(), post.queue(), post.tasks(), abort_drops(pre.tasks(), task))
    &&& r == (if abort_drops(pre.tasks(), task) {
        Some(pre.tasks()[task].node)
    } else {
        None
    })
    &&& post == (Simulation {
        queue: post.queue,
        executor: Executor { tasks: post.executor.tasks, ..pre.executor },
        ..pre
    })
}

/// Why [Simulation::next_step] failed: the event handler rejected the run
/// of the first ready task in the queue (the tasks before it being
/// cancelled), or, with no task ready, the advance of the clock.
pub open spec fn step_failed(pre: Simulation, post: Simulation, e: NonDeterminism) -> bool {
    ||| exists|k: int|
        #![trigger skipped_prefix(pre.queue(), pre.tasks(), k)]
        0 <= k < pre.queue().len() && skipped_prefix(pre.queue(), pre.tasks(), k)
            && pre.tasks()[pre.queue()[k]].state == TaskState::Ready && handled(
            pre.event_handler,
            Event::TaskRun(Id { value: pre.queue()[k] }),
            post.event_handler,
            Err(e),
        )
    ||| skipped_prefix(pre.queue(), pre.tasks(), pre.queue().len() as int) && time_advance_failed(
        pre.executor.time_scheduler,
        pre.event_handler,
        post.event_handler,
        e,
    )
}

/// The first `k` tasks of the queue are cancelled.
pub open spec fn skipped_prefix(q: Seq<u64>, t: Map<u64, TaskEntry>, k: int) -> bool {
    forall|i: int| 0 <= i < k ==> #[trigger] t[q[i]].state == TaskState::Cancelled
}

} // verus!
