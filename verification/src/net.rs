//! A simulated packet network.
//!
//! Packets have a source and a destination [Addr], made of a node and a port
//! [Id]. A packet is received only by a socket opened on the destination
//! node with a matching port and packet type. Each socket has an inbox of
//! bounded size; a packet that arrives while there is no such socket, or
//! while its inbox is full, is lost. Packets are held by the code that owns
//! their payloads; the network moves their handles.
use vstd::prelude::*;
use std::collections::VecDeque;
use crate::id::Id;
use crate::node_id::NodeId;

verus! {

/// The number of packets an inbox holds before it drops new ones.
pub const INBOX_CAPACITY: usize = 8;

/// An address in the simulated network.
#[derive(Clone, Copy, PartialEq, Eq, Structural, Debug, Hash, PartialOrd, Ord)]
pub struct Addr {
    pub node: NodeId,
    pub port: Id,
}

/// Specifies which packets must not be reordered with respect to each
/// other: those with equal keys. Type and destination are optional parts.
#[derive(Clone, Copy, PartialEq, Eq, Structural, Debug)]
pub struct OrderingKey {
    pub ty: Option<u64>,
    pub dst_addr: Option<Addr>,
}

/// The network imperfections that may be applied to a packet.
#[derive(Clone, Copy, PartialEq, Eq, Structural, Debug)]
pub struct ServiceLevel {
    /// `None`: may be reordered with respect to all packets.
    pub ordering: Option<OrderingKey>,
    /// The packet may be dropped.
    pub allow_drop: bool,
    /// The packet may be delivered more than once.
    pub allow_multiple: bool,
}

/// Everything about a packet but its payload.
#[derive(Clone, Copy, PartialEq, Eq, Structural, Debug)]
pub struct PacketHeader {
    pub src: Addr,
    pub dst: Addr,
    pub ty: u64,
    pub service_level: ServiceLevel,
}

/// The error returned when a socket with the same address and type exists.
#[derive(Clone, Copy, PartialEq, Eq, Structural, Debug)]
pub struct AddrInUseError {
    pub addr: Addr,
    pub ty: u64,
}

/// The inbox of one open socket: the handles of the packets received and
/// not yet taken, oldest first.
pub struct Inbox {
    pub addr: Addr,
    pub ty: u64,
    pub buffer: VecDeque<u64>,
}

/// The inboxes of all open sockets.
pub struct Inboxes {
    pub inboxes: Vec<Inbox>,
}

/// A network that delivers every packet once, after a fixed latency.
#[derive(Clone, Copy, PartialEq, Eq, Structural, Debug)]
pub struct PerfectConnectivity {
    pub latency: u128,
}

impl OrderingKey {
    /// A key equal to every other empty key.
    pub fn empty() -> (k: Self)
        ensures
            k.ty is None && k.dst_addr is None,
    {
        OrderingKey { ty: None, dst_addr: None }
    }

    /// Add the receiver address (which must not be set yet).
    pub fn with_dst_addr(self, addr: Addr) -> (k: Self)
        requires
            self.dst_addr is None,
        ensures
            k == (OrderingKey { dst_addr: Some(addr), ..self }),
    {
        OrderingKey { dst_addr: Some(addr), ..self }
    }

    /// Add the packet type (which must not be set yet).
    pub fn with_type(self, ty: u64) -> (k: Self)
        requires
            self.ty is None,
        ensures
            k == (OrderingKey { ty: Some(ty), ..self }),
    {
        OrderingKey { ty: Some(ty), ..self }
    }
}

impl ServiceLevel {
    /// The default: delivered at most once, in any order.
    pub fn default_level() -> (s: Self)
        ensures
            s.ordering is None && s.allow_drop && !s.allow_multiple,
    {
        ServiceLevel { ordering: None, allow_drop: true, allow_multiple: false }
    }
}

impl PacketHeader {
    pub fn new(src: Addr, dst: Addr, ty: u64, service_level: ServiceLevel) -> (h: Self)
        ensures
            h == (PacketHeader { src, dst, ty, service_level }),
    {
        PacketHeader { src, dst, ty, service_level }
    }

    /// The source address.
    pub fn src(&self) -> (a: Addr)
        ensures
            a == self.src,
    {
        self.src
    }

    /// The destination address.
    pub fn dst(&self) -> (a: Addr)
        ensures
            a == self.dst,
    {
        self.dst
    }

    /// The service level.
    pub fn service_level(&self) -> (s: ServiceLevel)
        ensures
            s == self.service_level,
    {
        self.service_level
    }
}

impl PerfectConnectivity {
    /// The instant at which a packet sent at `now` is delivered.
    pub fn delivery_time(&self, now: u128) -> (at: u128)
        requires
            now + self.latency <= u128::MAX,
        ensures
            at == now + self.latency,
    {
        now + self.latency
    }
}

/// A socket with this address and type is open.
pub open spec fn has_socket(inboxes: Seq<Inbox>, addr: Addr, ty: u64) -> bool {
    exists|i: int| 0 <= i < inboxes.len() && #[trigger] inboxes[i].addr == addr && inboxes[i].ty == ty
}

/// `after` is `before` without the socket with this address and type, whose
/// inbox held `left`.
pub open spec fn socket_closed(before: Seq<Inbox>, after: Seq<Inbox>, addr: Addr, ty: u64, left: Seq<u64>) -> bool {
    exists|i: int|
        0 <= i < before.len() && #[trigger] before[i].addr == addr && before[i].ty == ty && left == before[i].buffer@
            && after == before.remove(i)
}

/// The packets in the inboxes of the sockets on `node` among the first `n`
/// inboxes, inbox by inbox, oldest first.
pub open spec fn node_buffers(s: Seq<Inbox>, node: NodeId, n: int) -> Seq<u64>
    decreases n,
{
    if n <= 0 {
        Seq::empty()
    } else if s[n - 1].addr.node == node {
        node_buffers(s, node, n - 1) + s[n - 1].buffer@
    } else {
        node_buffers(s, node, n - 1)
    }
}

impl Inboxes {
    pub open spec fn wf(&self) -> bool {
        &&& forall|i: int, j: int|
            0 <= i < self.inboxes@.len() && 0 <= j < self.inboxes@.len() && i != j ==> !(
            #[trigger] self.inboxes@[i].addr == #[trigger] self.inboxes@[j].addr && self.inboxes@[i].ty
                == self.inboxes@[j].ty)
        &&& forall|i: int| 0 <= i < self.inboxes@.len() ==> #[trigger] self.inboxes@[i].buffer@.len() <= INBOX_CAPACITY
    }

    /// No socket is open.
    pub fn new() -> (r: Self)
        ensures
            r.wf(),
            r.inboxes@.len() == 0,
    {
        Inboxes { inboxes: Vec::new() }
    }

    /// The position of the socket with this address and type.
    pub fn find(&self, addr: Addr, ty: u64) -> (r: Option<usize>)
        requires
            self.wf(),
        ensures
            match r {
                Some(i) => i < self.inboxes@.len() && self.inboxes@[i as int].addr == addr
                    && self.inboxes@[i as int].ty == ty,
                None => !has_socket(self.inboxes@, addr, ty),
            },
    {
        let mut i: usize = 0;
        while i < self.inboxes.len()
            invariant
                i <= self.inboxes@.len(),
                forall|j: int| 0 <= j < i ==> !(#[trigger] self.inboxes@[j].addr == addr && self.inboxes@[j].ty == ty),
            decreases self.inboxes@.len() - i,
        {
            if self.inboxes[i].addr == addr && self.inboxes[i].ty == ty {
                return Some(i);
            }
            i = i + 1;
        }
        None
    }

    /// Open a socket with an empty inbox, unless one with the same address
    /// and type is open.
    pub fn open(&mut self, addr: Addr, ty: u64) -> (r: Result<(), AddrInUseError>)
        requires
            old(self).wf(),
        ensures
            final(self).wf(),
            match r {
                Ok(()) => !has_socket(old(self).inboxes@, addr, ty)
                    && final(self).inboxes@.len() == old(self).inboxes@.len() + 1
                    && final(self).inboxes@.drop_last() == old(self).inboxes@
                    && final(self).inboxes@.last().addr == addr && final(self).inboxes@.last().ty == ty
                    && final(self).inboxes@.last().buffer@.len() == 0,
                Err(e) => has_socket(old(self).inboxes@, addr, ty) && e == (AddrInUseError { addr, ty })
                    && final(self).inboxes@ == old(self).inboxes@,
            },
    {
        match self.find(addr, ty) {
            Some(_) => Err(AddrInUseError { addr, ty }),
            None => {
                self.inboxes.push(Inbox { addr, ty, buffer: VecDeque::new() });
                proof {
                    let s = self.inboxes@;
                    assert(s.drop_last() =~= old(self).inboxes@);
                    assert forall|i: int, j: int| 0 <= i < s.len() && 0 <= j < s.len() && i != j implies !(
                    #[trigger] s[i].addr == #[trigger] s[j].addr && s[i].ty == s[j].ty) by {
                        if i == s.len() - 1 && s[j].addr == addr && s[j].ty == ty {
                            assert(old(self).inboxes@[j] == s[j]);
                        }
                        if j == s.len() - 1 && s[i].addr == addr && s[i].ty == ty {
                            assert(old(self).inboxes@[i] == s[i]);
                        }
                    }
                }
                Ok(())
            },
        }
    }

    /// Close the socket with this address and type; returns the handles of
    /// the packets left in its inbox.
    pub fn close(&mut self, addr: Addr, ty: u64) -> (r: Option<Vec<u64>>)
        requires
            old(self).wf(),
        ensures
            final(self).wf(),
            !has_socket(final(self).inboxes@, addr, ty),
            r is None <==> !has_socket(old(self).inboxes@, addr, ty),
            r is None ==> final(self).inboxes@ == old(self).inboxes@,
            r matches Some(v) ==> socket_closed(old(self).inboxes@, final(self).inboxes@, addr, ty, v@),
            forall|a: Addr, t: u64| !(a == addr && t == ty) ==> (#[trigger] has_socket(final(self).inboxes@, a, t)
                <==> has_socket(old(self).inboxes@, a, t)),
    {
        match self.find(addr, ty) {
            None => None,
            Some(i) => {
                let ghost s0 = self.inboxes@;
                let inbox = self.inboxes.remove(i);
                let mut left: Vec<u64> = Vec::new();
                let mut k: usize = 0;
                while k < inbox.buffer.len()
                    invariant
                        k <= inbox.buffer@.len(),
                        left@ == inbox.buffer@.take(k as int),
                    decreases inbox.buffer@.len() - k,
                {
                    left.push(inbox.buffer[k]);
                    k = k + 1;
                    proof {
                        assert(left@ =~= inbox.buffer@.take(k as int));
                    }
                }
                proof {
                    let s = self.inboxes@;
                    assert(left@ =~= inbox.buffer@);
                    assert(s =~= s0.remove(i as int));
                    assert(socket_closed(s0, s, addr, ty, left@));
                    assert forall|j: int| 0 <= j < s.len() implies (s[j] == s0[if j < i { j } else { j + 1 }]) by {}
                    if has_socket(s, addr, ty) {
                        let j = choose|j: int| 0 <= j < s.len() && #[trigger] s[j].addr == addr && s[j].ty == ty;
                        let jj = if j < i { j } else { j + 1 };
                        assert(s0[jj].addr == addr);
                        assert(s0[i as int].addr == addr);
                    }
                    assert forall|a: Addr, t: u64| !(a == addr && t == ty) implies (#[trigger] has_socket(s, a, t)
                        <==> has_socket(s0, a, t)) by {
                        if has_socket(s0, a, t) {
                            let j = choose|j: int| 0 <= j < s0.len() && #[trigger] s0[j].addr == a && s0[j].ty == t;
                            assert(j != i);
                            let jj = if j < i { j } else { j - 1 };
                            assert(s[jj] == s0[j]);
                        }
                        if has_socket(s, a, t) {
                            let j = choose|j: int| 0 <= j < s.len() && #[trigger] s[j].addr == a && s[j].ty == t;
                            let jj = if j < i { j } else { j + 1 };
                            assert(s0[jj] == s[j]);
                        }
                    }
                    assert forall|x: int, y: int| 0 <= x < s.len() && 0 <= y < s.len() && x != y implies !(
                    #[trigger] s[x].addr == #[trigger] s[y].addr && s[x].ty == s[y].ty) by {
                        let xx = if x < i { x } else { x + 1 };
                        let yy = if y < i { y } else { y + 1 };
                        assert(s[x] == s0[xx] && s[y] == s0[yy]);
                    }
                    assert forall|x: int| 0 <= x < s.len() implies #[trigger] s[x].buffer@.len() <= INBOX_CAPACITY by {
                        let xx = if x < i { x } else { x + 1 };
                        assert(s[x] == s0[xx]);
                    }
                }
                Some(left)
            },
        }
    }

    /// A packet arrives for `dst` and type `ty`: it joins the end of the
    /// matching inbox if that socket is open and its inbox is not full, and
    /// is lost otherwise. Returns whether it was delivered.
    pub fn deliver(&mut self, dst: Addr, ty: u64, packet: u64) -> (delivered: bool)
        requires
            old(self).wf(),
        ensures
            final(self).wf(),
            final(self).inboxes@.len() == old(self).inboxes@.len(),
            delivered <==> exists|i: int| 0 <= i < old(self).inboxes@.len() && #[trigger] old(self).inboxes@[i].addr == dst
                && old(self).inboxes@[i].ty == ty && old(self).inboxes@[i].buffer@.len() < INBOX_CAPACITY,
            forall|i: int| 0 <= i < old(self).inboxes@.len() ==> {
                &&& #[trigger] final(self).inboxes@[i].addr == old(self).inboxes@[i].addr
                &&& final(self).inboxes@[i].ty == old(self).inboxes@[i].ty
                &&& final(self).inboxes@[i].buffer@ == (if delivered && old(self).inboxes@[i].addr == dst
                    && old(self).inboxes@[i].ty == ty {
                    old(self).inboxes@[i].buffer@.push(packet)
                } else {
                    old(self).inboxes@[i].buffer@
                })
            },
    {
        match self.find(dst, ty) {
            None => false,
            Some(i) => {
                if self.inboxes[i].buffer.len() < INBOX_CAPACITY {
                    self.inboxes[i].buffer.push_back(packet);
                    proof {
                        assert forall|j: int| 0 <= j < old(self).inboxes@.len() && j != i implies !(old(self).inboxes@[j].addr
                            == dst && old(self).inboxes@[j].ty == ty) by {}
                    }
                    true
                } else {
                    proof {
                        assert forall|j: int| 0 <= j < old(self).inboxes@.len() && #[trigger] old(self).inboxes@[j].addr == dst
                            && old(self).inboxes@[j].ty == ty implies old(self).inboxes@[j].buffer@.len() >= INBOX_CAPACITY by {
                            assert(j == i);
                        }
                    }
                    false
                }
            },
        }
    }

    /// Take the oldest packet from the inbox of an open socket, if any.
    pub fn try_receive(&mut self, addr: Addr, ty: u64) -> (r: Option<u64>)
        requires
            old(self).wf(),
        ensures
            final(self).wf(),
            final(self).inboxes@.len() == old(self).inboxes@.len(),
            forall|i: int| 0 <= i < old(self).inboxes@.len() ==> {
                &&& #[trigger] final(self).inboxes@[i].addr == old(self).inboxes@[i].addr
                &&& final(self).inboxes@[i].ty == old(self).inboxes@[i].ty
                &&& if old(self).inboxes@[i].addr == addr && old(self).inboxes@[i].ty == ty && r is Some {
                    r->Some_0 == old(self).inboxes@[i].buffer@[0] && final(self).inboxes@[i].buffer@
                        == old(self).inboxes@[i].buffer@.drop_first()
                } else {
                    final(self).inboxes@[i].buffer@ == old(self).inboxes@[i].buffer@
                }
            },
            r is None <==> !exists|i: int| 0 <= i < old(self).inboxes@.len() && #[trigger] old(self).inboxes@[i].addr == addr
                && old(self).inboxes@[i].ty == ty && old(self).inboxes@[i].buffer@.len() > 0,
    {
        match self.find(addr, ty) {
            None => None,
            Some(i) => {
                let r = self.inboxes[i].buffer.pop_front();
                proof {
                    assert forall|j: int| 0 <= j < old(self).inboxes@.len() && j != i implies !(old(self).inboxes@[j].addr
                        == addr && old(self).inboxes@[j].ty == ty) by {}
                }
                r
            },
        }
    }

    /// A node (re)starts: every inbox of a socket on it is emptied. Returns
    /// the handles of the packets dropped, inbox by inbox, oldest first.
    pub fn start_node(&mut self, node: NodeId) -> (dropped: Vec<u64>)
        requires
            old(self).wf(),
        ensures
            final(self).wf(),
            dropped@ == node_buffers(old(self).inboxes@, node, old(self).inboxes@.len() as int),
            final(self).inboxes@.len() == old(self).inboxes@.len(),
            forall|i: int| 0 <= i < old(self).inboxes@.len() ==> {
                &&& #[trigger] final(self).inboxes@[i].addr == old(self).inboxes@[i].addr
                &&& final(self).inboxes@[i].ty == old(self).inboxes@[i].ty
                &&& final(self).inboxes@[i].buffer@ == (if old(self).inboxes@[i].addr.node == node {
                    Seq::<u64>::empty()
                } else {
                    old(self).inboxes@[i].buffer@
                })
            },
    {
        let mut dropped: Vec<u64> = Vec::new();
        let mut i: usize = 0;
        while i < self.inboxes.len()
            invariant
                i <= self.inboxes@.len(),
                self.wf(),
                self.inboxes@.len() == old(self).inboxes@.len(),
                dropped@ == node_buffers(old(self).inboxes@, node, i as int),
                forall|j: int| 0 <= j < old(self).inboxes@.len() ==> {
                    &&& #[trigger] self.inboxes@[j].addr == old(self).inboxes@[j].addr
                    &&& self.inboxes@[j].ty == old(self).inboxes@[j].ty
                    &&& self.inboxes@[j].buffer@ == (if j < i && old(self).inboxes@[j].addr.node == node {
                        Seq::<u64>::empty()
                    } else {
                        old(self).inboxes@[j].buffer@
                    })
                },
            decreases self.inboxes@.len() - i,
        {
            if self.inboxes[i].addr.node == node {
                let ghost base = dropped@;
                proof {
                    assert(base + self.inboxes@[i as int].buffer@ =~= base + old(self).inboxes@[i as int].buffer@);
                }
                while self.inboxes[i].buffer.len() > 0
                    invariant
                        i < self.inboxes@.len(),
                        self.wf(),
                        dropped@ + self.inboxes@[i as int].buffer@ == base + old(self).inboxes@[i as int].buffer@,
                        self.inboxes@.len() == old(self).inboxes@.len(),
                        forall|j: int| 0 <= j < old(self).inboxes@.len() ==> {
                            &&& #[trigger] self.inboxes@[j].addr == old(self).inboxes@[j].addr
                            &&& self.inboxes@[j].ty == old(self).inboxes@[j].ty
                            &&& (j != i ==> self.inboxes@[j].buffer@ == (if j < i && old(self).inboxes@[j].addr.node == node {
                                Seq::<u64>::empty()
                            } else {
                                old(self).inboxes@[j].buffer@
                            }))
                        },
                    decreases self.inboxes@[i as int].buffer@.len(),
                {
                    let ghost d0 = dropped@;
                    let ghost b0 = self.inboxes@[i as int].buffer@;
                    let p = self.inboxes[i].buffer.pop_front();
                    match p {
                        Some(x) => dropped.push(x),
                        None => {},
                    }
                    proof {
                        assert(d0.push(b0[0]) + b0.drop_first() =~= d0 + b0);
                    }
                }
                proof {
                    assert(self.inboxes@[i as int].buffer@ =~= Seq::<u64>::empty());
                    assert(dropped@ =~= base + old(self).inboxes@[i as int].buffer@);
                }
            }
            let ghost cur = self.inboxes@;
            proof {
                assert forall|j: int| 0 <= j < old(self).inboxes@.len() implies {
                    &&& #[trigger] cur[j].addr == old(self).inboxes@[j].addr
                    &&& cur[j].ty == old(self).inboxes@[j].ty
                    &&& cur[j].buffer@ == (if j < i + 1 && old(self).inboxes@[j].addr.node == node {
                        Seq::<u64>::empty()
                    } else {
                        old(self).inboxes@[j].buffer@
                    })
                } by {
                    assert(cur[j].addr == old(self).inboxes@[j].addr);
                }
            }
            i = i + 1;
            proof {
                assert forall|j: int| 0 <= j < old(self).inboxes@.len() implies {
                    &&& #[trigger] self.inboxes@[j].addr == old(self).inboxes@[j].addr
                    &&& self.inboxes@[j].ty == old(self).inboxes@[j].ty
                    &&& self.inboxes@[j].buffer@ == (if j < i && old(self).inboxes@[j].addr.node == node {
                        Seq::<u64>::empty()
                    } else {
                        old(self).inboxes@[j].buffer@
                    })
                } by {
                    assert(cur[j].addr == old(self).inboxes@[j].addr);
                }
                assert(self.wf());
            }
        }
        dropped
    }
}

} // verus!
