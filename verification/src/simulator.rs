//! Simulation-scoped singletons.
//!
//! Within a simulation, objects implementing [Simulator] may be registered
//! once per type and borrowed one at a time. The objects themselves live
//! with the code that drives the simulation; this registry decides which
//! slot a type has, whether a slot is lent out, and in which order the
//! simulators are notified.
use vstd::prelude::*;
use crate::node_id::NodeId;

verus! {

/// A simulation-scoped singleton, notified about node events. Each callback
/// runs with the affected node current, which it is passed. The default
/// implementations do nothing.
pub trait Simulator {
    /// A new node was created (not invoked for the initial node).
    fn create_node(&mut self, node: NodeId) {
    }

    /// The node is being stopped; this is called before its tasks are
    /// cancelled.
    fn stop_node(&mut self, node: NodeId) {
    }

    /// The node was started again after it had been stopped.
    fn start_node(&mut self, node: NodeId) {
    }
}

/// A node-scoped singleton; see [PerNode].
pub trait NodeSimulator {
    fn stop_node(&mut self);

    fn start_node(&mut self);
}

/// Makes the node simulator of each node of a [PerNode].
pub trait NodeSimulatorFactory<S> {
    fn make(&mut self) -> S;
}

/// The registered simulators: the type key of each slot, in registration
/// order, and whether the slot's simulator is at home (not lent out).
pub struct SimulatorRegistry {
    pub keys: Vec<u64>,
    pub present: Vec<bool>,
}

/// A handle for the simulator registered under a type key.
#[derive(Clone, Copy, PartialEq, Eq, Structural, Debug)]
pub struct SimulatorHandle {
    pub key: u64,
}

impl SimulatorRegistry {
    pub open spec fn wf(&self) -> bool {
        &&& self.keys@.len() == self.present@.len()
        &&& self.keys@.no_duplicates()
    }

    pub open spec fn registered(&self, key: u64) -> bool {
        self.keys@.contains(key)
    }

    /// No simulator registered.
    pub fn new() -> (r: Self)
        ensures
            r.wf(),
            r.keys@.len() == 0,
    {
        SimulatorRegistry { keys: Vec::new(), present: Vec::new() }
    }

    /// The number of registered simulators.
    pub fn len(&self) -> (n: usize)
        requires
            self.wf(),
        ensures
            n == self.keys@.len(),
    {
        self.keys.len()
    }

    /// The slot of the simulator with this type key, if one is registered.
    pub fn index_of(&self, key: u64) -> (r: Option<usize>)
        requires
            self.wf(),
        ensures
            match r {
                Some(i) => i < self.keys@.len() && self.keys@[i as int] == key,
                None => !self.registered(key),
            },
    {
        let mut i: usize = 0;
        while i < self.keys.len()
            invariant
                i <= self.keys@.len(),
                forall|j: int| 0 <= j < i ==> self.keys@[j] != key,
            decreases self.keys@.len() - i,
        {
            if self.keys[i] == key {
                return Some(i);
            }
            i = i + 1;
        }
        None
    }

    /// Register a simulator type; it gets the next slot.
    pub fn add(&mut self, key: u64) -> (index: usize)
        requires
            old(self).wf(),
            !old(self).registered(key),
        ensures
            final(self).wf(),
            index == old(self).keys@.len(),
            final(self).keys@ == old(self).keys@.push(key),
            final(self).present@ == old(self).present@.push(true),
    {
        let index = self.keys.len();
        self.keys.push(key);
        self.present.push(true);
        proof {
            assert forall|i: int, j: int| 0 <= i < self.keys@.len() && 0 <= j < self.keys@.len() && i != j implies self.keys@[i]
                != self.keys@[j] by {
                if j == index as int {
                    assert(!old(self).keys@.contains(key));
                    assert(old(self).keys@[i] == self.keys@[i]);
                }
                if i == index as int {
                    assert(!old(self).keys@.contains(key));
                    assert(old(self).keys@[j] == self.keys@[j]);
                }
            }
        }
        index
    }

    /// The simulator of this type is registered and at home.
    pub fn is_available(&self, key: u64) -> (b: bool)
        requires
            self.wf(),
        ensures
            b == exists|i: int| 0 <= i < self.keys@.len() && self.keys@[i] == key && self.present@[i],
    {
        match self.index_of(key) {
            Some(i) => {
                proof {
                    assert forall|j: int| 0 <= j < self.keys@.len() && self.keys@[j] == key implies j == i by {}
                }
                self.present[i]
            },
            None => false,
        }
    }

    /// Lend out the simulator of this type: its slot, or `None` when no such
    /// simulator is registered. A lent simulator cannot be borrowed again.
    pub fn borrow(&mut self, key: u64) -> (r: Option<usize>)
        requires
            old(self).wf(),
            forall|i: int| 0 <= i < old(self).keys@.len() && old(self).keys@[i] == key ==> old(self).present@[i],
        ensures
            final(self).wf(),
            final(self).keys@ == old(self).keys@,
            match r {
                Some(i) => i < old(self).keys@.len() && old(self).keys@[i as int] == key
                    && final(self).present@ == old(self).present@.update(i as int, false),
                None => !old(self).registered(key) && final(self).present@ == old(self).present@,
            },
    {
        match self.index_of(key) {
            Some(i) => {
                self.present.set(i, false);
                Some(i)
            },
            None => None,
        }
    }

    /// Return a lent simulator to its slot.
    pub fn give_back(&mut self, index: usize)
        requires
            old(self).wf(),
            index < old(self).keys@.len(),
            !old(self).present@[index as int],
        ensures
            final(self).wf(),
            final(self).keys@ == old(self).keys@,
            final(self).present@ == old(self).present@.update(index as int, true),
    {
        self.present.set(index, true);
    }

    /// The order in which all simulators are notified: registration order
    /// when `forward`, the reverse otherwise.
    pub fn visit_order(&self, forward: bool) -> (order: Vec<usize>)
        requires
            self.wf(),
        ensures
            order@.len() == self.keys@.len(),
            forall|i: int| 0 <= i < order@.len() ==> #[trigger] order@[i] == (if forward {
                i
            } else {
                self.keys@.len() - 1 - i
            }),
    {
        let len = self.keys.len();
        let mut order: Vec<usize> = Vec::new();
        let mut i: usize = 0;
        while i < len
            invariant
                i <= len,
                len == self.keys@.len(),
                order@.len() == i,
                forall|j: int| 0 <= j < i ==> #[trigger] order@[j] == (if forward {
                    j
                } else {
                    len - 1 - j
                }),
            decreases len - i,
        {
            let index = if forward {
                i
            } else {
                len - 1 - i
            };
            order.push(index);
            i = i + 1;
        }
        order
    }

    /// Drop the most recently registered simulator: its slot, or `None` when
    /// none is left.
    pub fn pop(&mut self) -> (r: Option<usize>)
        requires
            old(self).wf(),
        ensures
            final(self).wf(),
            match r {
                Some(i) => i + 1 == old(self).keys@.len() && final(self).keys@ == old(self).keys@.drop_last()
                    && final(self).present@ == old(self).present@.drop_last(),
                None => old(self).keys@.len() == 0 && *final(self) == *old(self),
            },
    {
        if self.keys.len() == 0 {
            return None;
        }
        let _ = self.keys.pop();
        let _ = self.present.pop();
        proof {
            assert forall|i: int, j: int| 0 <= i < self.keys@.len() && 0 <= j < self.keys@.len() && i != j implies self.keys@[i]
                != self.keys@[j] by {
                assert(self.keys@[i] == old(self).keys@[i]);
                assert(self.keys@[j] == old(self).keys@[j]);
            }
        }
        Some(self.keys.len())
    }
}

/// Node-scoped singletons: one node simulator per node, indexed by node.
/// Registered as a simulator before any node is created, it makes one node
/// simulator for the initial node and one more for every node created, and
/// forwards the stop and start of a node to that node's simulator.
pub struct PerNode<S, F> {
    pub simulators: Vec<S>,
    pub new: F,
    /// The node events passed on so far, in order: the node, and whether it
    /// stopped (or else started).
    pub told: Ghost<Seq<(NodeId, bool)>>,
}

impl<S, F: NodeSimulatorFactory<S>> PerNode<S, F> {
    /// Per-node simulators for a simulation that has only its initial node:
    /// `new` makes the initial node's simulator now, and the simulator of
    /// each node created later.
    pub fn new(new: F) -> (p: Self)
        ensures
            p.simulators@.len() == 1,
            p.told@ == Seq::<(NodeId, bool)>::empty(),
    {
        let mut new = new;
        let first = new.make();
        let mut simulators = Vec::new();
        simulators.push(first);
        PerNode { simulators, new, told: Ghost(Seq::empty()) }
    }

    /// The simulator of a node.
    pub fn index(&self, node: NodeId) -> (s: &S)
        requires
            node.index < self.simulators@.len(),
        ensures
            *s == self.simulators@[node.index as int],
    {
        &self.simulators[node.index]
    }

    /// Replace the simulator of a node, returning the old one.
    pub fn replace(&mut self, node: NodeId, s: S) -> (prev: S)
        requires
            node.index < old(self).simulators@.len(),
        ensures
            prev == old(self).simulators@[node.index as int],
            final(self).simulators@ == old(self).simulators@.update(node.index as int, s),
    {
        let mut tmp = s;
        std::mem::swap(&mut tmp, &mut self.simulators[node.index]);
        tmp
    }
}

/// A `PerNode` holds a node simulator for the initial node and for each
/// node created after it, so a stop or start of any of those nodes, the
/// initial node included, is passed on to that node's simulator.
pub proof fn lemma_every_node_with_a_simulator_is_told<S, F>(p: PerNode<S, F>, q: PerNode<S, F>, node: NodeId, stop: bool)
    requires
        p.simulators@.len() >= 1,
        node.index < p.simulators@.len(),
        q.told@ == (if node.index < p.simulators@.len() {
            p.told@.push((node, stop))
        } else {
            p.told@
        }),
    ensures
        0 < p.simulators@.len(),
        q.told@.len() == p.told@.len() + 1,
        q.told@.last() == (node, stop),
{
}

impl<S: NodeSimulator, F: NodeSimulatorFactory<S>> PerNode<S, F> {
    /// Pass a node event on to the node's simulator: it is taken out of its
    /// slot, told, and put back in the same slot.
    fn forward(&mut self, node: NodeId, stop: bool)
        ensures
            final(self).simulators@.len() == old(self).simulators@.len(),
            final(self).told@ == if node.index < old(self).simulators@.len() {
                old(self).told@.push((node, stop))
            } else {
                old(self).told@
            },
            forall|i: int| 0 <= i < old(self).simulators@.len() && i != node.index ==> #[trigger] final(self).simulators@[i]
                == old(self).simulators@[i],
    {
        if node.index < self.simulators.len() {
            let mut s = self.simulators.remove(node.index);
            if stop {
                s.stop_node();
            } else {
                s.start_node();
            }
            self.simulators.insert(node.index, s);
            self.told = Ghost(self.told@.push((node, stop)));
        }
    }
}

impl<S: NodeSimulator, F: NodeSimulatorFactory<S>> Simulator for PerNode<S, F> {
    /// A node was created: add its simulator, made by the factory.
    fn create_node(&mut self, node: NodeId)
        ensures
            final(self).simulators@.len() == old(self).simulators@.len() + 1,
            final(self).simulators@.drop_last() == old(self).simulators@,
            final(self).told@ == old(self).told@,
    {
        let s = self.new.make();
        self.simulators.push(s);
        proof {
            assert(self.simulators@.drop_last() =~= old(self).simulators@);
        }
    }

    /// A node is being stopped: tell its simulator.
    fn stop_node(&mut self, node: NodeId)
        ensures
            final(self).simulators@.len() == old(self).simulators@.len(),
            node.index < old(self).simulators@.len() ==> final(self).told@ == old(self).told@.push((node, true)),
            node.index >= old(self).simulators@.len() ==> final(self).told@ == old(self).told@,
            forall|i: int| 0 <= i < old(self).simulators@.len() && i != node.index ==> #[trigger] final(self).simulators@[i]
                == old(self).simulators@[i],
    {
        self.forward(node, true);
    }

    /// A node was started again: tell its simulator.
    fn start_node(&mut self, node: NodeId)
        ensures
            final(self).simulators@.len() == old(self).simulators@.len(),
            node.index < old(self).simulators@.len() ==> final(self).told@ == old(self).told@.push((node, false)),
            node.index >= old(self).simulators@.len() ==> final(self).told@ == old(self).told@,
            forall|i: int| 0 <= i < old(self).simulators@.len() && i != node.index ==> #[trigger] final(self).simulators@[i]
                == old(self).simulators@[i],
    {
        self.forward(node, false);
    }
}

} // verus!
