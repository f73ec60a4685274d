//! Simulated udp sockets: binding, the peer of a connected socket, and the
//! state of receiving, which keeps a peeked datagram for the next receive.
use vstd::prelude::*;
use crate::id::Id;
use crate::ip_addr::{IpAddr, IpAddrSimulator, LookupError, SocketAddr};
use crate::net::Addr;
use crate::node_id::NodeId;

verus! {

/// Why a udp socket could not be bound.
#[derive(Clone, Copy, PartialEq, Eq, Structural, Debug)]
pub enum BindError {
    /// No node owns the ip.
    Lookup(LookupError),
    /// The ip belongs to another node.
    AddrNotAvailable,
}

/// The ip is the unspecified address (0.0.0.0 or ::).
pub open spec fn spec_is_unspecified(ip: IpAddr) -> bool {
    match ip {
        IpAddr::V4(b) => b == 0,
        IpAddr::V6(b) => b == 0,
    }
}

/// The ip is a loopback address (127.0.0.0/8 or ::1).
pub open spec fn spec_is_loopback(ip: IpAddr) -> bool {
    match ip {
        IpAddr::V4(b) => b / 0x0100_0000 == 127,
        IpAddr::V6(b) => b == 1,
    }
}

/// The ip is a multicast address (224.0.0.0/4 or ff00::/8).
pub open spec fn spec_is_multicast(ip: IpAddr) -> bool {
    match ip {
        IpAddr::V4(b) => b / 0x1000_0000 == 14,
        IpAddr::V6(b) => b / 0x0100_0000_0000_0000_0000_0000_0000_0000 == 0xff,
    }
}

/// The ip is the unspecified address.
pub fn is_unspecified(ip: IpAddr) -> (b: bool)
    ensures
        b == spec_is_unspecified(ip),
        b == (ip == IpAddr::V4(0) || ip == IpAddr::V6(0)),
{
    match ip {
        IpAddr::V4(b) => b == 0,
        IpAddr::V6(b) => b == 0,
    }
}

/// The ip is a loopback address.
pub fn is_loopback(ip: IpAddr) -> (b: bool)
    ensures
        b == spec_is_loopback(ip),
{
    match ip {
        IpAddr::V4(b) => b / 0x0100_0000 == 127,
        IpAddr::V6(b) => b == 1,
    }
}

/// The ip is a multicast address.
pub fn is_multicast(ip: IpAddr) -> (b: bool)
    ensures
        b == spec_is_multicast(ip),
{
    match ip {
        IpAddr::V4(b) => b / 0x1000_0000 == 14,
        IpAddr::V6(b) => b / 0x0100_0000_0000_0000_0000_0000_0000_0000 == 0xff,
    }
}

/// The ip a socket bound to `local` by `current` gets: the ip given, or for
/// the unspecified ip the current node's ip of the same version.
pub open spec fn bind_ip(sim: &IpAddrSimulator, local: SocketAddr, current: NodeId) -> IpAddr {
    if spec_is_unspecified(local.ip) {
        sim.node_ip(current, local.ip is V6)
    } else {
        local.ip
    }
}

/// Where a udp socket bound by `current` to `local` lives: the port id on
/// the current node and the ip socket address (the unspecified ip stands
/// for the current node's ip of the same version).
pub fn udp_bind_target(sim: &IpAddrSimulator, local: SocketAddr, current: NodeId) -> (r: Result<(Id, SocketAddr), BindError>)
    requires
        sim.wf(),
        !spec_is_loopback(local.ip),
        !spec_is_multicast(local.ip),
        spec_is_unspecified(local.ip) ==> !(current.index == 0) && sim.has_ips(current),
    ensures
        ({
            let ip = bind_ip(sim, local, current);
            match r {
                Ok((port, addr)) => addr == (SocketAddr { ip, port: local.port }) && sim.ip_owner(ip, current)
                    && port.value == (match ip {
                        IpAddr::V4(_) => sim.v4_ports.first + local.port,
                        IpAddr::V6(_) => sim.v6_ports.first + local.port,
                    }),
                Err(BindError::Lookup(e)) => !sim.owns_ip(ip) && e == (LookupError {
                    addr: SocketAddr { ip, port: local.port },
                }),
                Err(BindError::AddrNotAvailable) => exists|n: NodeId| n != current && sim.ip_owner(ip, n),
            }
        }),
        (local.ip == IpAddr::V4(0) || local.ip == IpAddr::V6(0)) && sim.has_ips(current) ==> (r matches Ok((
            port,
            addr,
        )) && (addr.ip is V6) == (local.ip is V6) && addr.ip == sim.node_ip(current, local.ip is V6) && addr.port
            == local.port && sim.ip_owner(addr.ip, current)),
{
    let ip = if is_unspecified(local.ip) {
        let v6 = match local.ip {
            IpAddr::V6(_) => true,
            IpAddr::V4(_) => false,
        };
        sim.local_ip(current, v6)
    } else {
        local.ip
    };
    let target = SocketAddr { ip, port: local.port };
    proof {
        if (local.ip == IpAddr::V4(0) || local.ip == IpAddr::V6(0)) && sim.has_ips(current) {
            lemma_node_ip_is_owned(*sim, current, local.ip is V6);
        }
    }
    let addr: Addr = match sim.lookup_socket_addr(target) {
        Ok(a) => a,
        Err(e) => return Err(BindError::Lookup(e)),
    };
    if addr.node != current {
        proof {
            assert(sim.ip_owner(ip, addr.node));
            if (local.ip == IpAddr::V4(0) || local.ip == IpAddr::V6(0)) && sim.has_ips(current) {
                lemma_ip_has_one_owner(*sim, ip, current, addr.node);
            }
        }
        return Err(BindError::AddrNotAvailable);
    }
    Ok((addr.port, target))
}

/// The address a node has been given is owned by that node, and it is of
/// the version asked for.
pub proof fn lemma_node_ip_is_owned(sim: IpAddrSimulator, node: NodeId, v6: bool)
    requires
        sim.wf(),
        sim.has_ips(node),
    ensures
        sim.ip_owner(sim.node_ip(node, v6), node),
        sim.owns_ip(sim.node_ip(node, v6)),
        (sim.node_ip(node, v6) is V6) == v6,
{
    let i = choose|i: int| 0 <= i < sim.to_ip@.len() && #[trigger] sim.to_ip@[i].node == node;
    assert(sim.ip_owner(IpAddr::V4(sim.to_ip@[i].v4), sim.to_ip@[i].node));
}

/// No two nodes own the same ip.
pub proof fn lemma_ip_has_one_owner(sim: IpAddrSimulator, ip: IpAddr, a: NodeId, b: NodeId)
    requires
        sim.wf(),
        sim.ip_owner(ip, a),
        sim.ip_owner(ip, b),
    ensures
        a == b,
{
    let i = choose|i: int| 0 <= i < sim.to_node@.len() && #[trigger] sim.to_node@[i].ip == ip && sim.to_node@[i].node == a;
    let j = choose|j: int| 0 <= j < sim.to_node@.len() && #[trigger] sim.to_node@[j].ip == ip && sim.to_node@[j].node == b;
    if i != j {
        assert(sim.to_node@[i].ip != sim.to_node@[j].ip);
    }
}

/// The unspecified address is the all-zero address of either version and
/// no other.
pub proof fn lemma_unspecified_is_all_zero(ip: IpAddr)
    ensures
        spec_is_unspecified(ip) <==> (ip == IpAddr::V4(0) || ip == IpAddr::V6(0)),
{
}

/// Binding to the unspecified address of a version binds to the node's own
/// address of that same version.
pub proof fn lemma_unspecified_bind_keeps_the_version(sim: IpAddrSimulator, local: SocketAddr, current: NodeId)
    requires
        sim.wf(),
        sim.has_ips(current),
        local.ip == IpAddr::V4(0) || local.ip == IpAddr::V6(0),
    ensures
        (bind_ip(&sim, local, current) is V6) == (local.ip is V6),
        bind_ip(&sim, local, current) == sim.node_ip(current, local.ip is V6),
        sim.ip_owner(bind_ip(&sim, local, current), current),
{
    lemma_node_ip_is_owned(sim, current, local.ip is V6);
}

/// A datagram as a socket sees it: the handle of its payload, its length,
/// and its source and destination addresses.
#[derive(Clone, Copy, PartialEq, Eq, Structural, Debug)]
pub struct Datagram {
    pub payload: u64,
    pub len: usize,
    pub src: SocketAddr,
    pub dst: SocketAddr,
}

/// Where receiving on a socket stands.
#[derive(Clone, Copy, PartialEq, Eq, Structural, Debug)]
pub enum ReceiveState {
    /// No receive is under way.
    Idle,
    /// A receive has taken the state and has to put it back.
    Taken,
    /// A receive is waiting for the next datagram of the socket's inbox.
    Waiting,
    /// A datagram was peeked; the next receive returns it.
    Peeked(Datagram),
}

/// How a receive starts, given the state it took.
#[derive(Clone, Copy, PartialEq, Eq, Structural, Debug)]
pub enum ReceiveStart {
    /// Wait for the next datagram of the inbox.
    Fresh,
    /// Go on waiting where an earlier receive left off.
    Resume,
    /// Return the datagram peeked before.
    Peeked(Datagram),
}

/// The socket is not connected to a peer.
#[derive(Clone, Copy, PartialEq, Eq, Structural, Debug)]
pub struct NotConnected;

/// The state of a bound udp socket.
pub struct UdpSocketState {
    pub local_addr: SocketAddr,
    pub peer_addr: Option<SocketAddr>,
    pub receive_state: ReceiveState,
}

/// How a receive that found the state `s` starts.
pub open spec fn receive_start(s: ReceiveState) -> ReceiveStart {
    match s {
        ReceiveState::Peeked(d) => ReceiveStart::Peeked(d),
        ReceiveState::Waiting => ReceiveStart::Resume,
        _ => ReceiveStart::Fresh,
    }
}

impl UdpSocketState {
    /// A socket bound to `local_addr`, not connected, with no receive under
    /// way.
    pub fn new(local_addr: SocketAddr) -> (s: Self)
        ensures
            s.local_addr == local_addr,
            s.peer_addr is None,
            s.receive_state == ReceiveState::Idle,
    {
        UdpSocketState { local_addr, peer_addr: None, receive_state: ReceiveState::Idle }
    }

    /// Connect the socket: datagrams are sent to `peer`, and received only
    /// from it.
    pub fn connect(&mut self, peer: SocketAddr)
        ensures
            *final(self) == (UdpSocketState { peer_addr: Some(peer), ..*old(self) }),
    {
        self.peer_addr = Some(peer);
    }

    /// The peer of a connected socket.
    pub fn peer(&self) -> (r: Result<SocketAddr, NotConnected>)
        ensures
            match self.peer_addr {
                Some(p) => r == Ok::<SocketAddr, NotConnected>(p),
                None => r == Err::<SocketAddr, NotConnected>(NotConnected),
            },
    {
        match self.peer_addr {
            Some(p) => Ok(p),
            None => Err(NotConnected),
        }
    }

    /// Start a receive that puts the state back when it is done: the state
    /// is taken.
    pub fn take_receive_state(&mut self) -> (start: ReceiveStart)
        requires
            old(self).receive_state != ReceiveState::Taken,
        ensures
            start == receive_start(old(self).receive_state),
            *final(self) == (UdpSocketState { receive_state: ReceiveState::Taken, ..*old(self) }),
    {
        let start = match self.receive_state {
            ReceiveState::Peeked(d) => ReceiveStart::Peeked(d),
            ReceiveState::Waiting => ReceiveStart::Resume,
            _ => ReceiveStart::Fresh,
        };
        self.receive_state = ReceiveState::Taken;
        start
    }

    /// Start a receive that runs to its end: the state is left idle.
    pub fn start_receive(&mut self) -> (start: ReceiveStart)
        requires
            old(self).receive_state != ReceiveState::Taken,
        ensures
            start == receive_start(old(self).receive_state),
            *final(self) == (UdpSocketState { receive_state: ReceiveState::Idle, ..*old(self) }),
    {
        let start = self.take_receive_state();
        self.receive_state = ReceiveState::Idle;
        start
    }

    /// Put the state back after a receive took it: `Waiting` while the
    /// receive is pending, the datagram after a peek, `Idle` otherwise.
    pub fn put_receive_state(&mut self, state: ReceiveState)
        requires
            old(self).receive_state == ReceiveState::Taken,
        ensures
            *final(self) == (UdpSocketState { receive_state: state, ..*old(self) }),
    {
        self.receive_state = state;
    }
}

/// Peeking does not consume: once a receive that took the state puts a
/// peeked datagram back, the state is free again, and the next receive,
/// whichever kind, starts from that datagram.
pub proof fn lemma_peeked_datagram_is_received_next(taken: UdpSocketState, after_peek: UdpSocketState, d: Datagram)
    requires
        taken.receive_state == ReceiveState::Taken,
        after_peek == (UdpSocketState { receive_state: ReceiveState::Peeked(d), ..taken }),
    ensures
        after_peek.receive_state != ReceiveState::Taken,
        receive_start(after_peek.receive_state) == ReceiveStart::Peeked(d),
        after_peek.peer_addr == taken.peer_addr,
        after_peek.local_addr == taken.local_addr,
{
}

/// Where a datagram from `local` to `dst` goes in the simulated network.
/// Both addresses must be of the same ip version.
pub fn send_target(sim: &IpAddrSimulator, local: SocketAddr, dst: SocketAddr) -> (r: Result<Addr, LookupError>)
    requires
        sim.wf(),
        (local.ip is V4) == (dst.ip is V4),
    ensures
        match r {
            Ok(a) => sim.ip_owner(dst.ip, a.node) && a.port.value == (match dst.ip {
                IpAddr::V4(_) => sim.v4_ports.first + dst.port,
                IpAddr::V6(_) => sim.v6_ports.first + dst.port,
            }),
            Err(e) => !sim.owns_ip(dst.ip) && e == (LookupError { addr: dst }),
        },
{
    sim.lookup_socket_addr(dst)
}

/// A connected socket receives a datagram only from its peer.
pub fn accepts_from(peer: SocketAddr, src: SocketAddr) -> (b: bool)
    ensures
        b == (peer == src),
{
    peer == src
}

} // verus!
