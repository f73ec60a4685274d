//! Node identifiers.
use vstd::prelude::*;

verus! {

/// A unique identifier for a node within a simulation.
///
/// Nodes are numbered in the order of their creation, starting with the
/// initial node at index 0.
#[derive(Clone, Copy, PartialEq, Eq, Structural, Debug, Hash, PartialOrd, Ord)]
pub struct NodeId {
    pub index: usize,
}

impl NodeId {
    /// The node that the simulation starts on.
    pub fn init() -> (n: NodeId)
        ensures
            n.index == 0,
    {
        NodeId { index: 0 }
    }

    /// The node created as the `index`-th node of the simulation.
    pub fn from_index(index: usize) -> (n: NodeId)
        ensures
            n.index == index,
    {
        NodeId { index }
    }

    /// The position of this node in creation order.
    pub fn to_index(self) -> (i: usize)
        ensures
            i == self.index,
    {
        self.index
    }

    /// This is the initial node.
    pub fn is_init(self) -> (b: bool)
        ensures
            b == (self.index == 0),
    {
        self.index == 0
    }
}

} // verus!
