//! Nodes with message inboxes, and tasks that track their result.
//!
//! Nodes are numbered by a supplier in creation order. A node collects the
//! messages sent to it in order; at most one listener waits for the next
//! message at a time. While a node's task is polled, that node is current.
use vstd::prelude::*;
use std::collections::VecDeque;

verus! {

/// A message in transit between nodes.
pub struct NetworkPackage<M> {
    pub source: u64,
    pub destination: u64,
    pub message: M,
}

/// A node: its id, the messages received and not yet taken, and whether a
/// listener waits for the next one.
pub struct Node<M> {
    pub id: u64,
    pub incoming_messages: VecDeque<NetworkPackage<M>>,
    pub new_message_waker: bool,
}

/// Hands out node ids 0, 1, 2, ...
pub struct NodeIdSupplier {
    pub next_id: u64,
}

/// The nodes of a simulation and the node whose code runs.
pub struct NodeRegistry<M> {
    pub nodes: Vec<Node<M>>,
    pub node_id_supplier: NodeIdSupplier,
    pub current_node: Option<u64>,
}

/// A future that yields the next message of the node it was created on.
#[derive(Clone, Copy, PartialEq, Eq, Structural, Debug)]
pub struct NetworkListenFuture {
    pub node: u64,
}

/// The way a network hands a message on; implemented by users.
pub trait Network<M> {
    fn transmit_message(&self, package: NetworkPackage<M>);
}

/// The shared state of a task and the futures awaiting it: its result once
/// it completed, and whether an awaiting future waits to be woken.
pub struct TaskTrackingFutureState<T> {
    pub result: Option<T>,
    pub waker: bool,
}

/// A future that yields the result of a task.
pub struct TaskTrackingFuture<T> {
    pub inner: TaskTrackingFutureState<T>,
}

impl NodeIdSupplier {
    /// A supplier that starts at 0.
    pub fn new() -> (s: Self)
        ensures
            s.next_id == 0,
    {
        NodeIdSupplier { next_id: 0 }
    }

    /// The next id.
    pub fn generate_id(&mut self) -> (id: u64)
        requires
            old(self).next_id < u64::MAX,
        ensures
            id == old(self).next_id,
            final(self).next_id == id + 1,
    {
        let id = self.next_id;
        self.next_id = self.next_id + 1;
        id
    }
}

impl<M> NodeRegistry<M> {
    /// Ids are unique and below the next id to supply.
    pub open spec fn wf(&self) -> bool {
        &&& forall|i: int| 0 <= i < self.nodes@.len() ==> #[trigger] self.nodes@[i].id < self.node_id_supplier.next_id
        &&& forall|i: int, j: int|
            0 <= i < self.nodes@.len() && 0 <= j < self.nodes@.len() && i != j ==> #[trigger] self.nodes@[i].id
                != #[trigger] self.nodes@[j].id
    }

    /// A node with this id exists.
    pub open spec fn has_node(&self, id: u64) -> bool {
        exists|i: int| 0 <= i < self.nodes@.len() && #[trigger] self.nodes@[i].id == id
    }

    /// No nodes, and no node current.
    pub fn new() -> (r: Self)
        ensures
            r.wf(),
            r.nodes@.len() == 0,
            r.node_id_supplier.next_id == 0,
            r.current_node is None,
    {
        NodeRegistry { nodes: Vec::new(), node_id_supplier: NodeIdSupplier::new(), current_node: None }
    }
}

impl<M> Node<M> {
    /// Create a node with the next id and no messages.
    pub fn new(registry: &mut NodeRegistry<M>) -> (id: u64)
        requires
            old(registry).wf(),
            old(registry).node_id_supplier.next_id < u64::MAX,
        ensures
            final(registry).wf(),
            id == old(registry).node_id_supplier.next_id,
            final(registry).node_id_supplier.next_id == id + 1,
            !old(registry).has_node(id),
            final(registry).has_node(id),
            final(registry).nodes@.len() == old(registry).nodes@.len() + 1,
            final(registry).nodes@.drop_last() == old(registry).nodes@,
            final(registry).nodes@.last().id == id,
            final(registry).nodes@.last().incoming_messages@.len() == 0,
            !final(registry).nodes@.last().new_message_waker,
            final(registry).current_node == old(registry).current_node,
    {
        let id = registry.node_id_supplier.generate_id();
        let ghost n0 = registry.nodes@;
        registry.nodes.push(Node { id, incoming_messages: VecDeque::new(), new_message_waker: false });
        proof {
            let n = registry.nodes@;
            assert(n.drop_last() =~= n0);
            assert(n[n.len() - 1].id == id);
            assert forall|i: int| 0 <= i < n.len() implies #[trigger] n[i].id < registry.node_id_supplier.next_id by {
                if i < n0.len() {
                    assert(n[i] == n0[i]);
                }
            }
            assert forall|i: int, j: int| 0 <= i < n.len() && 0 <= j < n.len() && i != j implies #[trigger] n[i].id
                != #[trigger] n[j].id by {
                if i < n0.len() {
                    assert(n[i] == n0[i]);
                }
                if j < n0.len() {
                    assert(n[j] == n0[j]);
                }
            }
            if old(registry).has_node(id) {
                let i = choose|i: int| 0 <= i < n0.len() && #[trigger] n0[i].id == id;
                assert(n0[i].id < id);
            }
        }
        id
    }

    /// A message arrives: it joins the end of the inbox. Returns whether a
    /// waiting listener has to be woken; it no longer waits afterwards.
    pub fn receive_message(registry: &mut NodeRegistry<M>, index: usize, message: NetworkPackage<M>) -> (wake: bool)
        requires
            old(registry).wf(),
            index < old(registry).nodes@.len(),
        ensures
            final(registry).wf(),
            final(registry).nodes@.len() == old(registry).nodes@.len(),
            wake == old(registry).nodes@[index as int].new_message_waker,
            final(registry).nodes@[index as int].id == old(registry).nodes@[index as int].id,
            final(registry).nodes@[index as int].incoming_messages@ == old(registry).nodes@[index as int].incoming_messages@.push(
                message,
            ),
            !final(registry).nodes@[index as int].new_message_waker,
            forall|i: int| 0 <= i < old(registry).nodes@.len() && i != index ==> #[trigger] final(registry).nodes@[i]
                == old(registry).nodes@[i],
            final(registry).current_node == old(registry).current_node,
            final(registry).node_id_supplier == old(registry).node_id_supplier,
    {
        registry.nodes[index].incoming_messages.push_back(message);
        let wake = registry.nodes[index].new_message_waker;
        registry.nodes[index].new_message_waker = false;
        proof {
            let n = registry.nodes@;
            assert forall|i: int| 0 <= i < n.len() implies #[trigger] n[i].id < registry.node_id_supplier.next_id by {
                assert(n[i].id == old(registry).nodes@[i].id);
            }
            assert forall|i: int, j: int| 0 <= i < n.len() && 0 <= j < n.len() && i != j implies #[trigger] n[i].id
                != #[trigger] n[j].id by {
                assert(n[i].id == old(registry).nodes@[i].id);
                assert(n[j].id == old(registry).nodes@[j].id);
            }
        }
        wake
    }
}

/// The position of the node with this id, which must exist.
pub fn get_node<M>(registry: &NodeRegistry<M>, id: u64) -> (index: usize)
    requires
        registry.has_node(id),
    ensures
        index < registry.nodes@.len(),
        registry.nodes@[index as int].id == id,
{
    let mut i: usize = 0;
    while i < registry.nodes.len()
        invariant
            i <= registry.nodes@.len(),
            registry.has_node(id),
            forall|j: int| 0 <= j < i ==> #[trigger] registry.nodes@[j].id != id,
        decreases registry.nodes@.len() - i,
    {
        if registry.nodes[i].id == id {
            return i;
        }
        i = i + 1;
    }
    proof {
        let j = choose|j: int| 0 <= j < registry.nodes@.len() && #[trigger] registry.nodes@[j].id == id;
        assert(registry.nodes@[j].id != id);
    }
    0
}

/// The node whose code runs, if any.
pub fn current_node<M>(registry: &NodeRegistry<M>) -> (n: Option<u64>)
    ensures
        n == registry.current_node,
{
    registry.current_node
}

/// Make a node current; no node may be current yet.
pub fn set_node<M>(registry: &mut NodeRegistry<M>, id: u64)
    requires
        old(registry).current_node is None,
    ensures
        final(registry).current_node == Some(id),
        final(registry).nodes == old(registry).nodes,
        final(registry).node_id_supplier == old(registry).node_id_supplier,
{
    registry.current_node = Some(id);
}

/// No node is current any more; a node must be current.
pub fn clear_node<M>(registry: &mut NodeRegistry<M>)
    requires
        old(registry).current_node is Some,
    ensures
        final(registry).current_node is None,
        final(registry).nodes == old(registry).nodes,
        final(registry).node_id_supplier == old(registry).node_id_supplier,
{
    registry.current_node = None;
}

/// A future for the next message of the current node.
pub fn listen<M>(registry: &NodeRegistry<M>) -> (f: NetworkListenFuture)
    requires
        registry.current_node is Some,
    ensures
        f.node == registry.current_node->Some_0,
{
    NetworkListenFuture { node: registry.current_node.unwrap() }
}

/// A message from the current node to `target`, ready to be transmitted.
pub fn send<M>(registry: &NodeRegistry<M>, message: M, target: u64) -> (p: NetworkPackage<M>)
    requires
        registry.current_node is Some,
    ensures
        p.source == registry.current_node->Some_0,
        p.destination == target,
        p.message == message,
{
    NetworkPackage { message, source: registry.current_node.unwrap(), destination: target }
}

impl NetworkListenFuture {
    /// Poll for the next message: the oldest one if there is one; otherwise
    /// the listener starts to wait. No other listener may be waiting.
    pub fn poll<M>(&self, registry: &mut NodeRegistry<M>) -> (r: Option<NetworkPackage<M>>)
        requires
            old(registry).wf(),
            old(registry).has_node(self.node),
            forall|i: int| 0 <= i < old(registry).nodes@.len() && #[trigger] old(registry).nodes@[i].id == self.node
                ==> !old(registry).nodes@[i].new_message_waker,
        ensures
            final(registry).wf(),
            final(registry).nodes@.len() == old(registry).nodes@.len(),
            final(registry).current_node == old(registry).current_node,
            forall|i: int| 0 <= i < old(registry).nodes@.len() ==> {
                let n0 = old(registry).nodes@[i];
                let n = #[trigger] final(registry).nodes@[i];
                if n0.id == self.node {
                    n.id == n0.id && if n0.incoming_messages@.len() == 0 {
                        r is None && n.new_message_waker && n.incoming_messages@.len() == 0
                    } else {
                        r == Some(n0.incoming_messages@[0]) && !n.new_message_waker
                            && n.incoming_messages@ == n0.incoming_messages@.drop_first()
                    }
                } else {
                    n == n0
                }
            },
    {
        let index = get_node(registry, self.node);
        let r = if registry.nodes[index].incoming_messages.len() == 0 {
            registry.nodes[index].new_message_waker = true;
            None
        } else {
            registry.nodes[index].incoming_messages.pop_front()
        };
        proof {
            let n = registry.nodes@;
            assert forall|i: int| 0 <= i < n.len() implies #[trigger] n[i].id < registry.node_id_supplier.next_id by {
                assert(n[i].id == old(registry).nodes@[i].id);
            }
            assert forall|i: int, j: int| 0 <= i < n.len() && 0 <= j < n.len() && i != j implies #[trigger] n[i].id
                != #[trigger] n[j].id by {
                assert(n[i].id == old(registry).nodes@[i].id);
                assert(n[j].id == old(registry).nodes@[j].id);
            }
            assert forall|i: int| 0 <= i < old(registry).nodes@.len() && i != index implies old(registry).nodes@[i].id
                != self.node by {
                assert(old(registry).nodes@[index as int].id == self.node);
            }
        }
        r
    }
}

impl<T> TaskTrackingFutureState<T> {
    /// No result yet, nobody waiting.
    pub fn new() -> (s: Self)
        ensures
            s.result is None && !s.waker,
    {
        TaskTrackingFutureState { result: None, waker: false }
    }
}

impl<T> TaskTrackingFuture<T> {
    /// A future for a task that has not completed.
    pub fn new() -> (f: Self)
        ensures
            f.inner.result is None && !f.inner.waker,
    {
        TaskTrackingFuture { inner: TaskTrackingFutureState::new() }
    }

    /// Take the task's result if it has completed.
    pub fn query_result(&mut self) -> (r: Option<T>)
        ensures
            r == old(self).inner.result,
            final(self).inner.result is None,
            final(self).inner.waker == old(self).inner.waker,
    {
        self.inner.result.take()
    }

    /// Poll: the result if there is one; otherwise wait to be woken.
    pub fn poll(&mut self) -> (r: Option<T>)
        ensures
            r == old(self).inner.result,
            final(self).inner.result is None,
            final(self).inner.waker == (old(self).inner.waker || old(self).inner.result is None),
    {
        match self.inner.result.take() {
            Some(v) => Some(v),
            None => {
                self.inner.waker = true;
                None
            },
        }
    }

    /// The task completed with `result`. Returns whether a waiting future has
    /// to be woken; it no longer waits afterwards.
    pub fn complete(&mut self, result: T) -> (wake: bool)
        ensures
            final(self).inner.result == Some(result),
            wake == old(self).inner.waker,
            !final(self).inner.waker,
    {
        self.inner.result = Some(result);
        let wake = self.inner.waker;
        self.inner.waker = false;
        wake
    }
}

/// A task of the node-based executor: the id under which the code that
/// owns its future polls it.
#[derive(Clone, Copy, PartialEq, Eq, Structural, Debug)]
pub struct Task {
    pub id: u64,
}

impl Task {
    /// The task with this id.
    pub fn new(id: u64) -> (t: Self)
        ensures
            t.id == id,
    {
        Task { id }
    }
}

/// The event a node records when a task is spawned on it.
#[derive(Clone, Copy, PartialEq, Eq, Structural, Debug)]
pub struct NodeSpawnedEvent {
    pub node_id: u64,
}

/// The tasks waiting to be polled, oldest first.
pub struct TaskQueue {
    pub queue: VecDeque<Task>,
}

impl TaskQueue {
    /// No task waits.
    pub fn new() -> (q: Self)
        ensures
            q.queue@.len() == 0,
    {
        TaskQueue { queue: VecDeque::new() }
    }

    /// A task is woken or spawned: it waits at the end of the queue.
    pub fn queue(&mut self, task: Task)
        ensures
            final(self).queue@ == old(self).queue@.push(task),
    {
        self.queue.push_back(task);
    }

    /// The task to poll next: the one that has waited longest.
    pub fn next_queue_item(&mut self) -> (t: Option<Task>)
        ensures
            match t {
                Some(x) => old(self).queue@.len() > 0 && x == old(self).queue@[0] && final(self).queue@
                    == old(self).queue@.drop_first(),
                None => old(self).queue@.len() == 0 && final(self).queue@ == old(self).queue@,
            },
    {
        self.queue.pop_front()
    }
}

impl<M> Node<M> {
    /// Spawn a task on this node: it joins the end of the queue, and the
    /// spawn is to be recorded as this event.
    pub fn spawn(&self, queue: &mut TaskQueue, task: Task) -> (e: NodeSpawnedEvent)
        ensures
            e.node_id == self.id,
            final(queue).queue@ == old(queue).queue@.push(task),
    {
        queue.queue(task);
        NodeSpawnedEvent { node_id: self.id }
    }
}

} // verus!
