//! Wrappers that bind a value to the node or to the simulation it was
//! created in.
//!
//! A [NodeBound] value may only be used on its node; a [SimBound] value only
//! on the thread of its simulation, identified by a thread anchor.
use vstd::prelude::*;
use crate::context::TaskHandle;
use crate::node_id::NodeId;

verus! {

/// A value bound to the node it was created on.
pub struct NodeBound<T> {
    pub node: NodeId,
    pub inner: T,
}

/// A value bound to the simulation thread it was created on.
pub struct SimBound<T> {
    pub inner: T,
    pub id: u64,
}

/// A value bound to its simulation and its node.
pub type SimNodeBound<T> = SimBound<NodeBound<T>>;

/// A unique id of a simulation thread; no two threads share one.
#[derive(Clone, Copy, PartialEq, Eq, Structural, Debug)]
pub struct ThreadAnchor {
    pub id: u64,
}

/// The process-wide counter from which thread anchors are drawn.
pub struct AnchorSource {
    pub last: u64,
}

impl AnchorSource {
    /// No anchor handed out yet.
    pub fn new() -> (s: Self)
        ensures
            s.last == 0,
    {
        AnchorSource { last: 0 }
    }
}

impl ThreadAnchor {
    /// A new anchor: the one after the last handed out. Anchors are never 0.
    pub fn new(source: &mut AnchorSource) -> (a: ThreadAnchor)
        requires
            old(source).last < u64::MAX,
        ensures
            a.id == old(source).last + 1,
            final(source).last == a.id,
    {
        source.last = source.last + 1;
        ThreadAnchor { id: source.last }
    }
}

impl<T> NodeBound<T> {
    /// Bind a value to the current node.
    pub fn from_value(value: T, current: NodeId) -> (b: Self)
        ensures
            b.node == current && b.inner == value,
    {
        NodeBound { node: current, inner: value }
    }

    /// The value may be used on the current node.
    pub fn check(&self, current: NodeId) -> (ok: bool)
        ensures
            ok == (self.node == current),
    {
        self.node == current
    }

    /// The value, used on its own node.
    pub fn get(&self, current: NodeId) -> (r: &T)
        requires
            self.node == current,
        ensures
            *r == self.inner,
    {
        &self.inner
    }

    /// Take the value out, on its own node.
    pub fn unwrap_node_bound(self, current: NodeId) -> (t: T)
        requires
            self.node == current,
        ensures
            t == self.inner,
    {
        self.inner
    }
}

impl<T> SimBound<T> {
    /// Bind a value to the current simulation thread.
    pub fn from_value(value: T, anchor: ThreadAnchor) -> (b: Self)
        ensures
            b.id == anchor.id && b.inner == value,
    {
        SimBound { inner: value, id: anchor.id }
    }

    /// The value may be used on the current simulation thread.
    pub fn check(&self, anchor: ThreadAnchor) -> (ok: bool)
        ensures
            ok == (self.id == anchor.id),
    {
        self.id == anchor.id
    }

    /// The value, used on its own simulation thread.
    pub fn get(&self, anchor: ThreadAnchor) -> (r: &T)
        requires
            self.id == anchor.id,
        ensures
            *r == self.inner,
    {
        &self.inner
    }

    /// Take the value out, on its own simulation thread.
    pub fn unwrap_sim_bound(self, anchor: ThreadAnchor) -> (t: T)
        requires
            self.id == anchor.id,
        ensures
            t == self.inner,
    {
        self.inner
    }
}

/// Binding any value to its node and simulation.
pub trait SimNodeBoundExt: Sized {
    /// Bind to the current simulation and node.
    fn sim_node_bound(self, anchor: ThreadAnchor, node: NodeId) -> (b: SimNodeBound<Self>)
        ensures
            b.id == anchor.id && b.inner.node == node && b.inner.inner == self,
    {
        SimBound::from_value(NodeBound::from_value(self, node), anchor)
    }

    /// Bind to the current node.
    fn node_bound(self, node: NodeId) -> (b: NodeBound<Self>)
        ensures
            b.node == node && b.inner == self,
    {
        NodeBound::from_value(self, node)
    }

    /// Bind to the current simulation.
    fn sim_bound(self, anchor: ThreadAnchor) -> (b: SimBound<Self>)
        ensures
            b.id == anchor.id && b.inner == self,
    {
        SimBound::from_value(self, anchor)
    }
}

impl<T> SimNodeBoundExt for T {
}

/// A task handle bound to its simulation and node, as handed out to code
/// written against other async runtimes.
pub struct JoinHandle {
    pub inner: SimNodeBound<TaskHandle>,
}

impl JoinHandle {
    /// The bound task handle.
    pub fn into_inner(self) -> (h: SimNodeBound<TaskHandle>)
        ensures
            h == self.inner,
    {
        self.inner
    }
}

} // verus!
