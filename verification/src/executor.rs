//! Tasks, nodes and the ready queue.
//!
//! Every task has an entry that records its state, the node it runs on, and
//! whether its future is parked in the entry. A task is in the ready queue
//! exactly when it is ready to run or has been cancelled and still has to be
//! cleaned up.
use vstd::prelude::*;
use std::collections::HashMap;
use std::collections::VecDeque;
use crate::id::{Id, IdGenerator};
use crate::node_id::NodeId;
use crate::time::TimeScheduler;

verus! {

/// The life cycle of a task.
#[derive(Clone, Copy, PartialEq, Eq, Structural, Debug)]
pub enum TaskState {
    /// Aborted; the entry is removed when the ready queue reaches it.
    Cancelled,
    /// Woken and waiting in the ready queue.
    Ready,
    /// Waiting to be woken, or being polled.
    Waiting,
    /// Its future has returned a value.
    Complete,
}

/// The executor's record of one task.
#[derive(Clone, Copy, PartialEq, Eq, Structural, Debug)]
pub struct TaskEntry {
    pub state: TaskState,
    pub node: NodeId,
    /// The task's future is parked in the entry (it is neither being polled
    /// nor dropped).
    pub stored: bool,
}

/// Whether a node runs tasks.
#[derive(Clone, Copy, PartialEq, Eq, Structural, Debug)]
pub enum NodeRunLevel {
    Running,
    Stopped,
    /// Stopped by the end of the simulation.
    FinalStopped,
}

/// The executor's record of one node: its run level and its tasks.
pub struct NodeData {
    pub run_level: NodeRunLevel,
    pub tasks: Vec<u64>,
}

/// The queue of tasks to visit, in order.
pub struct ExecutorQueue {
    pub ready_queue: VecDeque<u64>,
}

/// The task and node tables and the clock of a simulation.
pub struct Executor {
    pub tasks: HashMap<u64, TaskEntry>,
    pub final_stopped: bool,
    pub nodes: Vec<NodeData>,
    pub time_scheduler: TimeScheduler,
}

/// The error a task handle yields when its task was aborted.
#[derive(Clone, Copy, PartialEq, Eq, Structural, Debug)]
pub struct TaskAborted;

/// A task in this state is in the ready queue.
pub open spec fn is_queued_state(s: TaskState) -> bool {
    s == TaskState::Ready || s == TaskState::Cancelled
}

/// The ready queue holds each task that is ready or cancelled, once.
pub open spec fn queue_wf(q: Seq<u64>, t: Map<u64, TaskEntry>) -> bool {
    &&& q.no_duplicates()
    &&& forall|id: u64|
        #![trigger q.contains(id)]
        #![trigger t.contains_key(id)]
        q.contains(id) <==> (t.contains_key(id) && is_queued_state(t[id].state))
}

/// One task entry is consistent with the node table and the task being polled.
pub open spec fn entry_wf(e: TaskEntry, id: u64, ns: Seq<NodeData>, running: Option<u64>, pre_next: u64) -> bool {
    &&& e.state != TaskState::Complete
    &&& e.node.index < ns.len()
    &&& ns[e.node.index as int].tasks@.contains(id)
    &&& 1 <= id <= pre_next
    &&& (e.stored <==> ((e.state == TaskState::Ready || e.state == TaskState::Waiting) && running != Some(id)))
}

/// A task of a node that does not run is cancelled.
pub open spec fn stopped_wf(e: TaskEntry, ns: Seq<NodeData>) -> bool {
    ns[e.node.index as int].run_level != NodeRunLevel::Running ==> e.state == TaskState::Cancelled
}

/// A node lists its tasks once each, and only tasks that belong to it.
pub open spec fn node_tasks_wf(s: Seq<u64>, t: Map<u64, TaskEntry>, n: int) -> bool {
    &&& s.no_duplicates()
    &&& forall|k: int| 0 <= k < s.len() ==> t.contains_key(#[trigger] s[k]) && t[s[k]].node.index == n
}

/// The task and node tables agree with each other and with the queue.
pub open spec fn tables_wf(
    q: Seq<u64>,
    t: Map<u64, TaskEntry>,
    ns: Seq<NodeData>,
    running: Option<u64>,
    pre_next: u64,
) -> bool {
    &&& ns.len() >= 1
    &&& queue_wf(q, t)
    &&& forall|id: u64| #[trigger] t.contains_key(id) ==> entry_wf(t[id], id, ns, running, pre_next)
    &&& forall|id: u64| #[trigger] t.contains_key(id) ==> stopped_wf(t[id], ns)
    &&& forall|n: int| 0 <= n < ns.len() ==> node_tasks_wf(#[trigger] ns[n].tasks@, t, n)
    &&& (running matches Some(r) ==> t.contains_key(r))
}

/// Two node tables have the same run levels.
pub open spec fn same_run_levels(a: Seq<NodeData>, b: Seq<NodeData>) -> bool {
    &&& a.len() == b.len()
    &&& forall|n: int| 0 <= n < a.len() ==> #[trigger] a[n].run_level == b[n].run_level
}

impl ExecutorQueue {
    /// An empty ready queue.
    pub fn new() -> (q: Self)
        ensures
            q.ready_queue@ == Seq::<u64>::empty(),
    {
        ExecutorQueue { ready_queue: VecDeque::new() }
    }

    /// No task is in the ready queue.
    pub fn none_ready(&self) -> (b: bool)
        ensures
            b == (self.ready_queue@.len() == 0),
    {
        self.ready_queue.len() == 0
    }

    /// The executor of a new simulation: one running node without tasks,
    /// and a clock that reads `now`.
    pub fn executor(&self, now: u128) -> (e: Executor)
        ensures
            e.tasks@ == Map::<u64, TaskEntry>::empty(),
            !e.final_stopped,
            e.nodes@.len() == 1,
            e.nodes@[0].run_level == NodeRunLevel::Running,
            e.nodes@[0].tasks@ == Seq::<u64>::empty(),
            e.time_scheduler.wf(),
            e.time_scheduler.now == now,
            e.time_scheduler.timers() == Map::<u64, u128>::empty(),
    {
        let mut nodes: Vec<NodeData> = Vec::new();
        nodes.push(NodeData { run_level: NodeRunLevel::Running, tasks: Vec::new() });
        Executor {
            final_stopped: false,
            tasks: HashMap::new(),
            nodes,
            time_scheduler: TimeScheduler::new(now),
        }
    }
}

impl Executor {
    /// The number of nodes created so far, the initial node included.
    pub fn node_count(&self) -> (n: usize)
        ensures
            n == self.nodes@.len(),
    {
        self.nodes.len()
    }

    /// The simulation is shutting down.
    pub fn is_final_sopping(&self) -> (b: bool)
        ensures
            b == self.final_stopped,
    {
        self.final_stopped
    }

    /// The node exists and runs tasks.
    pub fn is_running(&self, node: NodeId) -> (b: bool)
        ensures
            b == (node.index < self.nodes@.len() && self.nodes@[node.index as int].run_level
                == NodeRunLevel::Running),
    {
        node.index < self.nodes.len() && self.nodes[node.index].run_level == NodeRunLevel::Running
    }

    /// The state of a task that still has an entry.
    pub fn task_state(&self, task: u64) -> (s: Option<TaskState>)
        ensures
            s == (if self.tasks@.contains_key(task) {
                Some(self.tasks@[task].state)
            } else {
                None
            }),
    {
        match self.tasks.get(&task) {
            Some(e) => Some(e.state),
            None => None,
        }
    }

    /// Add a running node without tasks; it gets the next index.
    pub fn push_new_node(&mut self) -> (id: NodeId)
        requires
            !old(self).final_stopped,
        ensures
            id.index == old(self).nodes@.len(),
            final(self).nodes@.len() == old(self).nodes@.len() + 1,
            forall|n: int| 0 <= n < old(self).nodes@.len() ==> #[trigger] final(self).nodes@[n] == old(self).nodes@[n],
            final(self).nodes@[id.index as int].run_level == NodeRunLevel::Running,
            final(self).nodes@[id.index as int].tasks@ == Seq::<u64>::empty(),
            final(self).tasks == old(self).tasks,
            final(self).final_stopped == old(self).final_stopped,
            final(self).time_scheduler == old(self).time_scheduler,
    {
        let id = NodeId::from_index(self.node_count());
        self.nodes.push(NodeData { run_level: NodeRunLevel::Running, tasks: Vec::new() });
        id
    }

    /// Spawn a task on a running node: it gets a fresh id, is listed with
    /// its node, and is woken at once.
    pub fn spawn(&mut self, node: NodeId, ids: &mut IdGenerator, queue: &mut ExecutorQueue, running: Option<u64>) -> (task_id: Id)
        requires
            tables_wf(old(queue).ready_queue@, old(self).tasks@, old(self).nodes@, running, old(ids).pre_next_global_id),
            node.index < old(self).nodes@.len(),
            old(self).nodes@[node.index as int].run_level == NodeRunLevel::Running,
            old(ids).pre_next_global_id < u64::MAX,
        ensures
            tables_wf(final(queue).ready_queue@, final(self).tasks@, final(self).nodes@, running, final(ids).pre_next_global_id),
            task_id.value == old(ids).pre_next_global_id + 1,
            final(ids).pre_next_global_id == task_id.value,
            !old(self).tasks@.contains_key(task_id.value),
            final(self).tasks@ == old(self).tasks@.insert(
                task_id.value,
                TaskEntry { state: TaskState::Ready, node, stored: true },
            ),
            final(queue).ready_queue@ == old(queue).ready_queue@.push(task_id.value),
            same_run_levels(final(self).nodes@, old(self).nodes@),
            final(self).nodes@[node.index as int].tasks@ == old(self).nodes@[node.index as int].tasks@.push(task_id.value),
            forall|n: int| 0 <= n < old(self).nodes@.len() && n != node.index ==> #[trigger] final(self).nodes@[n] == old(self).nodes@[n],
            final(self).final_stopped == old(self).final_stopped,
            final(self).time_scheduler == old(self).time_scheduler,
    {
        let ghost q0 = queue.ready_queue@;
        let ghost t0 = self.tasks@;
        let ghost ns0 = self.nodes@;
        let task_id = Id::new(ids);
        let tid = task_id.value;
        proof {
            if t0.contains_key(tid) {
                assert(entry_wf(t0[tid], tid, ns0, running, old(ids).pre_next_global_id));
            }
            if q0.contains(tid) {
                assert(t0.contains_key(tid));
            }
        }
        self.tasks.insert(tid, TaskEntry { state: TaskState::Waiting, node, stored: true });
        self.nodes[node.index].tasks.push(tid);
        // wake the new task
        self.tasks.insert(tid, TaskEntry { state: TaskState::Ready, node, stored: true });
        queue.ready_queue.push_back(tid);
        proof {
            let q = queue.ready_queue@;
            let t = self.tasks@;
            let ns = self.nodes@;
            let pre = ids.pre_next_global_id;
            assert(q =~= q0.push(tid));
            assert forall|id: u64| #![trigger q.contains(id)] #![trigger t.contains_key(id)]
                q.contains(id) <==> (t.contains_key(id) && is_queued_state(t[id].state)) by {
                if id != tid {
                    assert(q.contains(id) <==> q0.contains(id)) by {
                        if q.contains(id) {
                            let i = q.index_of(id);
                            assert(q0[i] == id);
                        }
                        if q0.contains(id) {
                            let i = q0.index_of(id);
                            assert(q[i] == id);
                        }
                    }
                } else {
                    assert(q[q.len() - 1] == tid);
                }
            }
            assert forall|id: u64| #[trigger] t.contains_key(id) implies entry_wf(t[id], id, ns, running, pre) by {
                if id != tid {
                    assert(entry_wf(t0[id], id, ns0, running, old(ids).pre_next_global_id));
                    let n = t0[id].node.index as int;
                    if n == node.index {
                        let k = ns0[n].tasks@.index_of(id);
                        assert(ns[n].tasks@[k] == id);
                    } else {
                        assert(ns[n] == ns0[n]);
                    }
                } else {
                    assert(ns[node.index as int].tasks@[ns[node.index as int].tasks@.len() - 1] == tid);
                }
            }
            assert forall|id: u64| #[trigger] t.contains_key(id) implies stopped_wf(t[id], ns) by {
                if id != tid {
                    assert(stopped_wf(t0[id], ns0));
                    assert(entry_wf(t0[id], id, ns0, running, old(ids).pre_next_global_id));
                    assert(ns[t0[id].node.index as int].run_level == ns0[t0[id].node.index as int].run_level);
                }
            }
            assert forall|n: int| 0 <= n < ns.len() implies node_tasks_wf(#[trigger] ns[n].tasks@, t, n) by {
                assert(node_tasks_wf(ns0[n].tasks@, t0, n));
                if n == node.index {
                    let s = ns[n].tasks@;
                    let s0 = ns0[n].tasks@;
                    assert(s =~= s0.push(tid));
                    assert(!s0.contains(tid)) by {
                        if s0.contains(tid) {
                            let k = s0.index_of(tid);
                            assert(t0.contains_key(s0[k]));
                        }
                    }
                    assert forall|k: int| 0 <= k < s.len() implies t.contains_key(#[trigger] s[k]) && t[s[k]].node.index == n by {
                        if k < s0.len() {
                            assert(s[k] == s0[k]);
                        }
                    }
                } else {
                    assert(ns[n] == ns0[n]);
                }
            }
            assert(same_run_levels(ns, ns0));
        }
        task_id
    }

    /// Remove the entry of a finished or cancelled task, and delist it from
    /// its node.
    pub fn remove_task_entry(&mut self, task_id: u64) -> (removed: TaskEntry)
        requires
            old(self).tasks@.contains_key(task_id),
            old(self).tasks@[task_id].node.index < old(self).nodes@.len(),
            node_tasks_wf(old(self).nodes@[old(self).tasks@[task_id].node.index as int].tasks@, old(self).tasks@, old(self).tasks@[task_id].node.index as int),
            old(self).nodes@[old(self).tasks@[task_id].node.index as int].tasks@.contains(task_id),
        ensures
            removed == old(self).tasks@[task_id],
            final(self).tasks@ == old(self).tasks@.remove(task_id),
            same_run_levels(final(self).nodes@, old(self).nodes@),
            final(self).nodes@[removed.node.index as int].tasks@ == old(self).nodes@[removed.node.index as int].tasks@.remove(
                old(self).nodes@[removed.node.index as int].tasks@.index_of(task_id),
            ),
            forall|n: int| 0 <= n < old(self).nodes@.len() && n != removed.node.index ==> #[trigger] final(self).nodes@[n] == old(self).nodes@[n],
            final(self).final_stopped == old(self).final_stopped,
            final(self).time_scheduler == old(self).time_scheduler,
    {
        let entry = *self.tasks.get(&task_id).unwrap();
        self.tasks.remove(&task_id);
        let n = entry.node.index;
        let ghost s0 = self.nodes@[n as int].tasks@;
        let mut k: usize = 0;
        while k < self.nodes[n].tasks.len() && self.nodes[n].tasks[k] != task_id
            invariant
                n < self.nodes@.len(),
                self.nodes@[n as int].tasks@ == s0,
                s0.contains(task_id),
                k <= s0.len(),
                forall|j: int| 0 <= j < k ==> s0[j] != task_id,
            decreases s0.len() - k,
        {
            k = k + 1;
        }
        proof {
            if k == s0.len() {
                let j = s0.index_of(task_id);
                assert(s0[j] == task_id);
            }
            assert(s0.no_duplicates());
            assert(s0.index_of(task_id) == k as int) by {
                let j = s0.index_of(task_id);
                assert(s0[j] == task_id);
                assert(s0[k as int] == task_id);
            }
        }
        let _ = self.nodes[n].tasks.remove(k);
        entry
    }
}

/// Abort a task without touching the context: mark it cancelled and make
/// sure the ready queue visits it once more so that its entry is removed.
///
/// Returns whether the task's future was parked in its entry and has been
/// taken out to be dropped.
pub fn abort_local(task_id: u64, queue: &mut ExecutorQueue, tasks: &mut HashMap<u64, TaskEntry>) -> (dropped: bool)
    requires
        queue_wf(old(queue).ready_queue@, old(tasks)@),
    ensures
        queue_wf(final(queue).ready_queue@, final(tasks)@),
        final(tasks)@.dom() == old(tasks)@.dom(),
        abort_effect(task_id, old(queue).ready_queue@, old(tasks)@, final(queue).ready_queue@, final(tasks)@, dropped),
{
    let entry = match tasks.get(&task_id) {
        None => {
            return false;
        },
        Some(e) => *e,
    };
    let ghost q0 = queue.ready_queue@;
    let ghost t0 = tasks@;
    match entry.state {
        TaskState::Cancelled | TaskState::Complete => false,
        TaskState::Ready => {
            tasks.insert(task_id, TaskEntry { state: TaskState::Cancelled, node: entry.node, stored: false });
            proof {
                assert(tasks@.dom() =~= t0.dom());
            }
            entry.stored
        },
        TaskState::Waiting => {
            tasks.insert(task_id, TaskEntry { state: TaskState::Cancelled, node: entry.node, stored: false });
            proof {
                assert(!q0.contains(task_id));
            }
            queue.ready_queue.push_back(task_id);
            proof {
                let q = queue.ready_queue@;
                let t = tasks@;
                assert(tasks@.dom() =~= t0.dom());
                assert forall|id: u64| #![trigger q.contains(id)] #![trigger t.contains_key(id)]
                    q.contains(id) <==> (t.contains_key(id) && is_queued_state(t[id].state)) by {
                    if id != task_id {
                        assert(q.contains(id) <==> q0.contains(id)) by {
                            if q.contains(id) {
                                let i = q.index_of(id);
                                assert(q0[i] == id);
                            }
                            if q0.contains(id) {
                                let i = q0.index_of(id);
                                assert(q[i] == id);
                            }
                        }
                    } else {
                        assert(q[q.len() - 1] == task_id);
                    }
                }
            }
            entry.stored
        },
    }
}

/// What [abort_local] does to the queue and the task table.
pub open spec fn abort_effect(
    task_id: u64,
    q0: Seq<u64>,
    t0: Map<u64, TaskEntry>,
    q: Seq<u64>,
    t: Map<u64, TaskEntry>,
    dropped: bool,
) -> bool {
    if !t0.contains_key(task_id) || t0[task_id].state == TaskState::Cancelled || t0[task_id].state == TaskState::Complete {
        q == q0 && t == t0 && !dropped
    } else {
        &&& t == t0.insert(task_id, TaskEntry { state: TaskState::Cancelled, node: t0[task_id].node, stored: false })
        &&& dropped == t0[task_id].stored
        &&& q == (if t0[task_id].state == TaskState::Waiting { q0.push(task_id) } else { q0 })
    }
}

} // verus!

verus! {

/// Taking a task off the front of the queue while it leaves the queued
/// states keeps the queue consistent.
pub proof fn lemma_queue_pop(q: Seq<u64>, t: Map<u64, TaskEntry>, id: u64, e2: TaskEntry)
    requires
        queue_wf(q, t),
        q.len() > 0,
        q[0] == id,
        !is_queued_state(e2.state),
    ensures
        queue_wf(q.drop_first(), t.insert(id, e2)),
{
    let q2 = q.drop_first();
    let t2 = t.insert(id, e2);
    assert forall|i: int, j: int| 0 <= i < q2.len() && 0 <= j < q2.len() && i != j implies q2[i] != q2[j] by {
        assert(q2[i] == q[i + 1] && q2[j] == q[j + 1]);
    }
    assert forall|x: u64| #![trigger q2.contains(x)] #![trigger t2.contains_key(x)]
        q2.contains(x) <==> (t2.contains_key(x) && is_queued_state(t2[x].state)) by {
        if q2.contains(x) {
            let i = q2.index_of(x);
            assert(q[i + 1] == x);
            assert(q.contains(x));
            assert(x != id) by {
                assert(q[0] == id);
            }
        }
        if x != id && t.contains_key(x) && is_queued_state(t[x].state) {
            assert(q.contains(x));
            let i = q.index_of(x);
            assert(i != 0);
            assert(q2[i - 1] == x);
        }
    }
}

/// Removing a task at the front of the queue keeps the queue consistent.
pub proof fn lemma_queue_pop_remove(q: Seq<u64>, t: Map<u64, TaskEntry>, id: u64)
    requires
        queue_wf(q, t),
        q.len() > 0,
        q[0] == id,
    ensures
        queue_wf(q.drop_first(), t.remove(id)),
{
    let q2 = q.drop_first();
    let t2 = t.remove(id);
    assert forall|i: int, j: int| 0 <= i < q2.len() && 0 <= j < q2.len() && i != j implies q2[i] != q2[j] by {
        assert(q2[i] == q[i + 1] && q2[j] == q[j + 1]);
    }
    assert forall|x: u64| #![trigger q2.contains(x)] #![trigger t2.contains_key(x)]
        q2.contains(x) <==> (t2.contains_key(x) && is_queued_state(t2[x].state)) by {
        if q2.contains(x) {
            let i = q2.index_of(x);
            assert(q[i + 1] == x);
            assert(q.contains(x));
            assert(x != id) by {
                assert(q[0] == id);
            }
        }
        if x != id && t.contains_key(x) && is_queued_state(t[x].state) {
            assert(q.contains(x));
            let i = q.index_of(x);
            assert(i != 0);
            assert(q2[i - 1] == x);
        }
    }
}

/// Removing a task that is not queued keeps the queue consistent.
pub proof fn lemma_queue_remove_unqueued(q: Seq<u64>, t: Map<u64, TaskEntry>, id: u64)
    requires
        queue_wf(q, t),
        !q.contains(id),
    ensures
        queue_wf(q, t.remove(id)),
{
}

/// Changing a task's state without moving it into or out of the queued
/// states keeps the queue consistent.
pub proof fn lemma_queue_same(q: Seq<u64>, t: Map<u64, TaskEntry>, id: u64, e2: TaskEntry)
    requires
        queue_wf(q, t),
        t.contains_key(id),
        is_queued_state(t[id].state) == is_queued_state(e2.state),
    ensures
        queue_wf(q, t.insert(id, e2)),
{
}

/// Moving a task into a queued state and appending it to the queue keeps
/// the queue consistent.
pub proof fn lemma_queue_push(q: Seq<u64>, t: Map<u64, TaskEntry>, id: u64, e2: TaskEntry)
    requires
        queue_wf(q, t),
        t.contains_key(id),
        !is_queued_state(t[id].state),
        is_queued_state(e2.state),
    ensures
        queue_wf(q.push(id), t.insert(id, e2)),
{
    let q2 = q.push(id);
    let t2 = t.insert(id, e2);
    assert(!q.contains(id));
    assert forall|x: u64| #![trigger q2.contains(x)] #![trigger t2.contains_key(x)]
        q2.contains(x) <==> (t2.contains_key(x) && is_queued_state(t2[x].state)) by {
        if x != id {
            assert(q2.contains(x) <==> q.contains(x)) by {
                if q2.contains(x) {
                    let i = q2.index_of(x);
                    assert(q[i] == x);
                }
                if q.contains(x) {
                    let i = q.index_of(x);
                    assert(q2[i] == x);
                }
            }
        } else {
            assert(q2[q2.len() - 1] == id);
        }
    }
}

/// Changing one entry without changing its node keeps the tables consistent,
/// when the queue and the changed entry are consistent.
pub proof fn lemma_update_entry(
    q: Seq<u64>,
    t: Map<u64, TaskEntry>,
    ns: Seq<NodeData>,
    running: Option<u64>,
    pre: u64,
    id: u64,
    e2: TaskEntry,
    q2: Seq<u64>,
    running2: Option<u64>,
)
    requires
        tables_wf(q, t, ns, running, pre),
        t.contains_key(id),
        e2.node == t[id].node,
        queue_wf(q2, t.insert(id, e2)),
        entry_wf(e2, id, ns, running2, pre),
        stopped_wf(e2, ns),
        running2 == running || (running is None && running2 == Some(id)) || (running == Some(id)
            && running2 is None),
    ensures
        tables_wf(q2, t.insert(id, e2), ns, running2, pre),
{
    let t2 = t.insert(id, e2);
    assert forall|x: u64| #[trigger] t2.contains_key(x) implies entry_wf(t2[x], x, ns, running2, pre) by {
        if x != id {
            assert(entry_wf(t[x], x, ns, running, pre));
        }
    }
    assert forall|x: u64| #[trigger] t2.contains_key(x) implies stopped_wf(t2[x], ns) by {
        if x != id {
            assert(stopped_wf(t[x], ns));
        }
    }
    assert forall|n: int| 0 <= n < ns.len() implies node_tasks_wf(#[trigger] ns[n].tasks@, t2, n) by {
        assert(node_tasks_wf(ns[n].tasks@, t, n));
    }
}

/// Removing a task entry and delisting it from its node keeps the tables
/// consistent, when the queue no longer holds it.
pub proof fn lemma_remove_entry(
    q: Seq<u64>,
    t: Map<u64, TaskEntry>,
    ns: Seq<NodeData>,
    running: Option<u64>,
    pre: u64,
    id: u64,
    q2: Seq<u64>,
    ns2: Seq<NodeData>,
    running2: Option<u64>,
)
    requires
        tables_wf(q, t, ns, running, pre),
        t.contains_key(id),
        queue_wf(q2, t.remove(id)),
        same_run_levels(ns2, ns),
        ns2[t[id].node.index as int].tasks@ == ns[t[id].node.index as int].tasks@.remove(
            ns[t[id].node.index as int].tasks@.index_of(id),
        ),
        forall|n: int| 0 <= n < ns.len() && n != t[id].node.index ==> #[trigger] ns2[n] == ns[n],
        running2 == running || (running == Some(id) && running2 is None),
        running2 != Some(id),
    ensures
        tables_wf(q2, t.remove(id), ns2, running2, pre),
{
    let t2 = t.remove(id);
    let m = t[id].node.index as int;
    assert(entry_wf(t[id], id, ns, running, pre));
    let s = ns[m].tasks@;
    let k = s.index_of(id);
    assert(node_tasks_wf(s, t, m));
    assert(s[k] == id);
    let s2 = ns2[m].tasks@;
    assert forall|x: u64| #[trigger] t2.contains_key(x) implies entry_wf(t2[x], x, ns2, running2, pre) by {
        assert(entry_wf(t[x], x, ns, running, pre));
        let n = t[x].node.index as int;
        if n == m {
            let j = s.index_of(x);
            assert(s[j] == x);
            assert(j != k);
            if j < k {
                assert(s2[j] == x);
            } else {
                assert(s2[j - 1] == x);
            }
        } else {
            assert(ns2[n] == ns[n]);
        }
    }
    assert forall|x: u64| #[trigger] t2.contains_key(x) implies stopped_wf(t2[x], ns2) by {
        assert(stopped_wf(t[x], ns));
        assert(entry_wf(t[x], x, ns, running, pre));
        assert(ns2[t[x].node.index as int].run_level == ns[t[x].node.index as int].run_level);
    }
    assert forall|n: int| 0 <= n < ns2.len() implies node_tasks_wf(#[trigger] ns2[n].tasks@, t2, n) by {
        assert(node_tasks_wf(ns[n].tasks@, t, n));
        if n == m {
            assert forall|i: int, j: int| 0 <= i < s2.len() && 0 <= j < s2.len() && i != j implies s2[i] != s2[j] by {
                let ii = if i < k { i } else { i + 1 };
                let jj = if j < k { j } else { j + 1 };
                assert(s2[i] == s[ii]);
                assert(s2[j] == s[jj]);
            }
            assert forall|j: int| 0 <= j < s2.len() implies t2.contains_key(#[trigger] s2[j]) && t2[s2[j]].node.index == n by {
                let jj = if j < k { j } else { j + 1 };
                assert(s2[j] == s[jj]);
                assert(jj != k);
            }
        } else {
            assert(ns2[n] == ns[n]);
        }
    }
}

} // verus!
