//! Ip addresses of simulated nodes.
//!
//! Every node but the initial one gets one ipv4 and one ipv6 address. Ip
//! socket addresses translate into network addresses: the node that owns
//! the ip, and the port id that the ip port stands for. Tcp ports are
//! assigned explicitly or picked at random from the ephemeral range.
use vstd::prelude::*;
use std::collections::VecDeque;
use crate::context::{Simulation, random_draw};
use crate::id::{Id, IdGenerator, IdRange};
use crate::net::Addr;
use crate::node_id::NodeId;

verus! {

/// An ipv4 or ipv6 address, by its bits.
#[derive(Clone, Copy, PartialEq, Eq, Structural, Debug)]
pub enum IpAddr {
    V4(u32),
    V6(u128),
}

/// An ip address and a port.
#[derive(Clone, Copy, PartialEq, Eq, Structural, Debug)]
pub struct SocketAddr {
    pub ip: IpAddr,
    pub port: u16,
}

/// The first address after which ipv4 addresses are handed out (10.0.0.0).
pub const IPV4_BASE: u32 = 0x0a00_0000u32;

/// The ipv4 broadcast address of the private range (10.255.255.255); it is
/// never handed out.
pub const IPV4_LIMIT: u32 = 0x0aff_ffffu32;

/// The host part after which ipv6 host ids are handed out.
pub const IPV6_BASE: u64 = 0xfde0_e09f_6400_0000u64;

/// The end of the ipv6 host ids handed out.
pub const IPV6_LIMIT: u64 = 0xfde0_e09f_6500_0000u64;

/// The number of ephemeral tcp ports.
pub const EPHEMERAL_PORTS: usize = 32768;

/// The number of ids reserved for the ports of one ip version.
pub const PORT_IDS: usize = 65536;

/// Hands out private ipv4 addresses 10.0.0.1, 10.0.0.2, ...
pub struct Ipv4Generator {
    pub counter: u32,
}

/// Hands out unique local ipv6 addresses, one /64 prefix apart.
pub struct Ipv6Generator {
    pub counter: u64,
}

/// The two addresses of a node.
#[derive(Clone, Copy, PartialEq, Eq, Structural, Debug)]
pub struct NodeIps {
    pub node: NodeId,
    pub v4: u32,
    pub v6: u128,
}

/// An ip owned by a node.
#[derive(Clone, Copy, PartialEq, Eq, Structural, Debug)]
pub struct IpOwner {
    pub ip: IpAddr,
    pub node: NodeId,
}

/// A tcp port in use, and the id of its assignment.
#[derive(Clone, Copy, PartialEq, Eq, Structural, Debug)]
pub struct TcpBinding {
    pub addr: SocketAddr,
    pub id: Id,
}

/// A pending incoming tcp connection.
#[derive(Clone, Copy, PartialEq, Eq, Structural, Debug)]
pub struct TcpIncomingConnection {
    pub client_ip: SocketAddr,
    pub client_sim: Addr,
}

/// A listening tcp socket and its backlog of connections not yet accepted.
pub struct TcpListener {
    pub addr: SocketAddr,
    pub backlog: VecDeque<TcpIncomingConnection>,
}

/// The number of connections a listener's backlog holds.
pub const TCP_BACKLOG: usize = 16;

/// The assignment of a tcp port; it is released when dropped.
pub struct TcpPortAssignment {
    pub id: Id,
}

/// No node owns the ip of this address.
#[derive(Clone, Copy, PartialEq, Eq, Structural, Debug)]
pub struct LookupError {
    pub addr: SocketAddr,
}

/// Why a tcp port could not be assigned.
#[derive(Clone, Copy, PartialEq, Eq, Structural, Debug)]
pub enum TcpAssignError {
    /// The requested address is in use.
    AddrInUse,
    /// Every ephemeral port of the ip is in use.
    AddrNotAvailable,
}

/// The simulator of ip addresses.
pub struct IpAddrSimulator {
    pub v4_ports: IdRange,
    pub v6_ports: IdRange,
    pub to_node: Vec<IpOwner>,
    pub to_ip: Vec<NodeIps>,
    pub gen_v4: Ipv4Generator,
    pub gen_v6: Ipv6Generator,
    pub override_next: Option<(u32, u128)>,
    pub tcp: Vec<TcpBinding>,
    pub listeners: Vec<TcpListener>,
}

/// The bits of the ipv6 address for host id `counter`.
pub open spec fn ipv6_bits(counter: u64) -> u128 {
    (counter as u128 * 0x1_0000_0000_0000_0000u128) as u128
}

impl Ipv4Generator {
    pub open spec fn wf(&self) -> bool {
        IPV4_BASE <= self.counter < IPV4_LIMIT
    }

    /// A generator that starts at 10.0.0.1.
    pub fn private_ipv4() -> (g: Self)
        ensures
            g.wf(),
            g.counter == IPV4_BASE,
    {
        Ipv4Generator { counter: IPV4_BASE }
    }

    /// There is an address left.
    pub fn has_next(&self) -> (b: bool)
        ensures
            b == (self.counter + 1 < IPV4_LIMIT),
    {
        self.counter < IPV4_LIMIT - 1
    }

    /// The next address.
    pub fn next(&mut self) -> (ip: u32)
        requires
            old(self).wf(),
            old(self).counter + 1 < IPV4_LIMIT,
        ensures
            final(self).wf(),
            ip == old(self).counter + 1,
            final(self).counter == ip,
    {
        self.counter = self.counter + 1;
        self.counter
    }
}

impl Ipv6Generator {
    pub open spec fn wf(&self) -> bool {
        IPV6_BASE <= self.counter < IPV6_LIMIT
    }

    /// A generator of unique local addresses in fde0:e09f:64xx:xxxx::/64.
    pub fn unique_local_address_hosts() -> (g: Self)
        ensures
            g.wf(),
            g.counter == IPV6_BASE,
    {
        Ipv6Generator { counter: IPV6_BASE }
    }

    /// There is an address left.
    pub fn has_next(&self) -> (b: bool)
        ensures
            b == (self.counter + 1 < IPV6_LIMIT),
    {
        self.counter < IPV6_LIMIT - 1
    }

    /// The next address: the next host id in the upper 64 bits.
    pub fn next(&mut self) -> (ip: u128)
        requires
            old(self).wf(),
            old(self).counter + 1 < IPV6_LIMIT,
        ensures
            final(self).wf(),
            final(self).counter == old(self).counter + 1,
            ip == ipv6_bits(final(self).counter),
            ip >> 120u128 == 0xfdu128,
    {
        self.counter = self.counter + 1;
        let c = self.counter;
        let ip = (c as u128) << 64u128;
        assert(ip == ((c as u128) * 0x1_0000_0000_0000_0000u128) as u128) by (bit_vector)
            requires
                ip == (c as u128) << 64u128,
        ;
        assert(ip >> 120u128 == 0xfdu128) by (bit_vector)
            requires
                ip == (c as u128) << 64u128,
                0xfde0_e09f_6400_0000u64 <= c < 0xfde0_e09f_6500_0000u64,
        ;
        ip
    }
}

impl TcpPortAssignment {
    /// The id of this assignment.
    pub fn id(&self) -> (id: Id)
        ensures
            id == self.id,
    {
        self.id
    }
}

impl IpAddrSimulator {
    pub open spec fn wf(&self) -> bool {
        &&& self.v4_ports.wf()
        &&& self.v6_ports.wf()
        &&& self.v4_ports.last - self.v4_ports.first + 1 == PORT_IDS
        &&& self.v6_ports.last - self.v6_ports.first + 1 == PORT_IDS
        &&& self.gen_v4.wf()
        &&& self.gen_v6.wf()
        &&& forall|i: int, j: int|
            0 <= i < self.to_node@.len() && 0 <= j < self.to_node@.len() && i != j ==> #[trigger] self.to_node@[i].ip
                != #[trigger] self.to_node@[j].ip
        &&& forall|i: int, j: int|
            0 <= i < self.to_ip@.len() && 0 <= j < self.to_ip@.len() && i != j ==> #[trigger] self.to_ip@[i].node
                != #[trigger] self.to_ip@[j].node
        &&& forall|i: int, j: int|
            0 <= i < self.tcp@.len() && 0 <= j < self.tcp@.len() && i != j ==> #[trigger] self.tcp@[i].addr
                != #[trigger] self.tcp@[j].addr && self.tcp@[i].id != self.tcp@[j].id
        &&& forall|i: int, j: int|
            0 <= i < self.listeners@.len() && 0 <= j < self.listeners@.len() && i != j ==> #[trigger] self.listeners@[i].addr
                != #[trigger] self.listeners@[j].addr
        &&& forall|i: int| 0 <= i < self.listeners@.len() ==> #[trigger] self.listeners@[i].backlog@.len() <= TCP_BACKLOG
        &&& forall|i: int| 0 <= i < self.to_ip@.len() ==> self.ip_owner(IpAddr::V4(#[trigger] self.to_ip@[i].v4), self.to_ip@[i].node)
            && self.ip_owner(IpAddr::V6(self.to_ip@[i].v6), self.to_ip@[i].node)
    }

    /// Some node owns this ip.
    pub open spec fn owns_ip(&self, ip: IpAddr) -> bool {
        exists|i: int| 0 <= i < self.to_node@.len() && #[trigger] self.to_node@[i].ip == ip
    }

    /// The node owns this ip.
    pub open spec fn ip_owner(&self, ip: IpAddr, node: NodeId) -> bool {
        exists|i: int| 0 <= i < self.to_node@.len() && #[trigger] self.to_node@[i].ip == ip && self.to_node@[i].node == node
    }

    /// The socket address is bound by a tcp assignment.
    pub open spec fn tcp_bound(&self, addr: SocketAddr) -> bool {
        exists|i: int| 0 <= i < self.tcp@.len() && #[trigger] self.tcp@[i].addr == addr
    }

    /// The port of the ip is bound by a tcp assignment.
    pub open spec fn port_in_use(&self, ip: IpAddr, port: u16) -> bool {
        self.tcp_bound(SocketAddr { ip, port })
    }

    /// `addr` is the first address in the probe order of the random bits `r`
    /// that no tcp assignment binds.
    pub open spec fn first_free_probe(&self, ip: IpAddr, r: u32, addr: SocketAddr) -> bool {
        exists|k: int|
            0 <= k < EPHEMERAL_PORTS && addr == #[trigger] probe_addr(ip, r, k) && !self.tcp_bound(addr)
                && forall|j: int| 0 <= j < k ==> self.tcp_bound(#[trigger] probe_addr(ip, r, j))
    }

    /// The addresses the next node created gets.
    pub open spec fn next_ips(&self) -> (u32, u128) {
        match self.override_next {
            Some(ips) => ips,
            None => (
                (self.gen_v4.counter + 1) as u32,
                ipv6_bits((self.gen_v6.counter + 1) as u64),
            ),
        }
    }

    /// A simulator with no node addresses, whose port ids are drawn from
    /// `ids`, and that hands out addresses from the given generators.
    pub fn new(ids: &mut IdGenerator, gen_v4: Ipv4Generator, gen_v6: Ipv6Generator) -> (s: Self)
        requires
            old(ids).pre_next_global_id + 2 * PORT_IDS <= u64::MAX,
            gen_v4.wf(),
            gen_v6.wf(),
        ensures
            s.wf(),
            s.v4_ports.first == old(ids).pre_next_global_id + 1,
            s.v6_ports.first == old(ids).pre_next_global_id + PORT_IDS + 1,
            final(ids).pre_next_global_id == old(ids).pre_next_global_id + 2 * PORT_IDS,
            s.to_node@.len() == 0,
            s.to_ip@.len() == 0,
            s.tcp@.len() == 0,
            s.listeners@.len() == 0,
            s.override_next is None,
            s.gen_v4 == gen_v4,
            s.gen_v6 == gen_v6,
    {
        let v4_ports = IdRange::new(ids, PORT_IDS);
        let v6_ports = IdRange::new(ids, PORT_IDS);
        IpAddrSimulator {
            v4_ports,
            v6_ports,
            to_node: Vec::new(),
            to_ip: Vec::new(),
            gen_v4,
            gen_v6,
            override_next: None,
            tcp: Vec::new(),
            listeners: Vec::new(),
        }
    }

    /// A simulator with the default generators: private ipv4 addresses and
    /// unique local ipv6 addresses.
    pub fn default_simulator(ids: &mut IdGenerator) -> (s: Self)
        requires
            old(ids).pre_next_global_id + 2 * PORT_IDS <= u64::MAX,
        ensures
            s.wf(),
            s.gen_v4.counter == IPV4_BASE,
            s.gen_v6.counter == IPV6_BASE,
            s.to_node@.len() == 0,
            s.override_next is None,
            final(ids).pre_next_global_id == old(ids).pre_next_global_id + 2 * PORT_IDS,
    {
        Self::new(ids, Ipv4Generator::private_ipv4(), Ipv6Generator::unique_local_address_hosts())
    }

    /// The node that owns an ip.
    pub fn node_of(&self, ip: IpAddr) -> (r: Option<NodeId>)
        requires
            self.wf(),
        ensures
            match r {
                Some(n) => self.ip_owner(ip, n),
                None => !self.owns_ip(ip),
            },
    {
        let mut i: usize = 0;
        while i < self.to_node.len()
            invariant
                i <= self.to_node@.len(),
                forall|j: int| 0 <= j < i ==> #[trigger] self.to_node@[j].ip != ip,
            decreases self.to_node@.len() - i,
        {
            if self.to_node[i].ip == ip {
                return Some(self.to_node[i].node);
            }
            i = i + 1;
        }
        None
    }

    /// Translate an ip socket address into a network address: the node
    /// owning the ip, and the port id of the ip port.
    pub fn lookup_socket_addr(&self, addr: SocketAddr) -> (r: Result<Addr, LookupError>)
        requires
            self.wf(),
        ensures
            match r {
                Ok(a) => self.ip_owner(addr.ip, a.node) && a.port.value == (match addr.ip {
                    IpAddr::V4(_) => self.v4_ports.first + addr.port,
                    IpAddr::V6(_) => self.v6_ports.first + addr.port,
                }),
                Err(e) => !self.owns_ip(addr.ip) && e == (LookupError { addr }),
            },
    {
        let node = match self.node_of(addr.ip) {
            Some(n) => n,
            None => return Err(LookupError { addr }),
        };
        let port = match addr.ip {
            IpAddr::V4(_) => self.v4_ports.get(addr.port as usize),
            IpAddr::V6(_) => self.v6_ports.get(addr.port as usize),
        };
        Ok(Addr { node, port })
    }

    /// The node has been given addresses.
    pub open spec fn has_ips(&self, node: NodeId) -> bool {
        exists|i: int| 0 <= i < self.to_ip@.len() && #[trigger] self.to_ip@[i].node == node
    }

    /// The ip of a node that has been given addresses.
    pub open spec fn node_ip(&self, node: NodeId, v6: bool) -> IpAddr {
        let i = choose|i: int| 0 <= i < self.to_ip@.len() && #[trigger] self.to_ip@[i].node == node;
        if v6 {
            IpAddr::V6(self.to_ip@[i].v6)
        } else {
            IpAddr::V4(self.to_ip@[i].v4)
        }
    }

    /// The ip of a node (not the initial node, which has none).
    pub fn get_ip_for_node(&self, node: NodeId, v6: bool) -> (ip: IpAddr)
        requires
            self.wf(),
            !(node.index == 0),
            self.has_ips(node),
        ensures
            ip == self.node_ip(node, v6),
    {
        let mut i: usize = 0;
        while i < self.to_ip.len()
            invariant
                i <= self.to_ip@.len(),
                forall|j: int| 0 <= j < i ==> #[trigger] self.to_ip@[j].node != node,
                self.has_ips(node),
                self.wf(),
            decreases self.to_ip@.len() - i,
        {
            if self.to_ip[i].node == node {
                let ips = self.to_ip[i];
                proof {
                    let k = choose|k: int| 0 <= k < self.to_ip@.len() && #[trigger] self.to_ip@[k].node == node;
                    if k != i {
                        assert(self.to_ip@[k].node != self.to_ip@[i as int].node);
                    }
                }
                return if v6 {
                    IpAddr::V6(ips.v6)
                } else {
                    IpAddr::V4(ips.v4)
                };
            }
            i = i + 1;
        }
        proof {
            let j = choose|j: int| 0 <= j < self.to_ip@.len() && #[trigger] self.to_ip@[j].node == node;
            assert(self.to_ip@[j].node != node);
        }
        IpAddr::V4(0)
    }

    /// The ip of the current node.
    pub fn local_ip(&self, current: NodeId, v6: bool) -> (ip: IpAddr)
        requires
            self.wf(),
            !(current.index == 0),
            self.has_ips(current),
        ensures
            ip == self.node_ip(current, v6),
    {
        self.get_ip_for_node(current, v6)
    }

    /// Give the next node created these addresses instead of generated ones.
    pub fn override_next_node_addr(&mut self, v4: u32, v6: u128)
        requires
            old(self).override_next is None,
        ensures
            *final(self) == (IpAddrSimulator { override_next: Some((v4, v6)), ..*old(self) }),
    {
        self.override_next = Some((v4, v6));
    }

    /// The addresses the next node created gets are free and a generator
    /// that is to be used has an address left.
    pub fn next_node_addrs_free(&self, node: NodeId) -> (b: bool)
        requires
            self.wf(),
        ensures
            b == (!self.owns_ip(IpAddr::V4(self.next_ips().0)) && !self.owns_ip(IpAddr::V6(self.next_ips().1))
                && !self.has_ips(node) && (self.override_next is None ==> (self.gen_v4.counter + 1 < IPV4_LIMIT
                && self.gen_v6.counter + 1 < IPV6_LIMIT))),
    {
        let (v4, v6) = match self.override_next {
            Some(ips) => ips,
            None => {
                if !self.gen_v4.has_next() || !self.gen_v6.has_next() {
                    return false;
                }
                let c4 = self.gen_v4.counter + 1;
                let c6 = self.gen_v6.counter + 1;
                let v6 = (c6 as u128) << 64u128;
                assert(v6 == ((c6 as u128) * 0x1_0000_0000_0000_0000u128) as u128) by (bit_vector)
                    requires
                        v6 == (c6 as u128) << 64u128,
                ;
                (c4, v6)
            },
        };
        let mut has_node = false;
        let mut i: usize = 0;
        while i < self.to_ip.len()
            invariant
                i <= self.to_ip@.len(),
                has_node == exists|j: int| 0 <= j < i && #[trigger] self.to_ip@[j].node == node,
            decreases self.to_ip@.len() - i,
        {
            if self.to_ip[i].node == node {
                has_node = true;
            }
            i = i + 1;
        }
        self.node_of(IpAddr::V4(v4)).is_none() && self.node_of(IpAddr::V6(v6)).is_none() && !has_node
    }

    /// A node was created (running as `node`): give it its addresses, the
    /// overriding ones if set, else the next generated ones.
    pub fn create_node(&mut self, node: NodeId)
        requires
            old(self).wf(),
            !old(self).owns_ip(IpAddr::V4(old(self).next_ips().0)),
            !old(self).owns_ip(IpAddr::V6(old(self).next_ips().1)),
            !old(self).has_ips(node),
            old(self).override_next is None ==> old(self).gen_v4.counter + 1 < IPV4_LIMIT
                && old(self).gen_v6.counter + 1 < IPV6_LIMIT,
        ensures
            final(self).wf(),
            final(self).override_next is None,
            final(self).to_node@ == old(self).to_node@.push(IpOwner { ip: IpAddr::V4(old(self).next_ips().0), node }).push(
                IpOwner { ip: IpAddr::V6(old(self).next_ips().1), node },
            ),
            final(self).to_ip@ == old(self).to_ip@.push(
                NodeIps { node, v4: old(self).next_ips().0, v6: old(self).next_ips().1 },
            ),
            final(self).tcp@ == old(self).tcp@,
            final(self).v4_ports == old(self).v4_ports,
            final(self).v6_ports == old(self).v6_ports,
            final(self).listeners@ == old(self).listeners@,
            old(self).override_next is None ==> final(self).gen_v4.counter == old(self).gen_v4.counter + 1
                && final(self).gen_v6.counter == old(self).gen_v6.counter + 1,
            old(self).override_next is Some ==> final(self).gen_v4 == old(self).gen_v4 && final(self).gen_v6
                == old(self).gen_v6,
    {
        let ghost ips = self.next_ips();
        let (v4, v6) = match self.override_next {
            Some(ips) => ips,
            None => {
                let a = self.gen_v4.next();
                let b = self.gen_v6.next();
                (a, b)
            },
        };
        self.override_next = None;
        let ghost tn0 = self.to_node@;
        let ghost ti0 = self.to_ip@;
        self.to_node.push(IpOwner { ip: IpAddr::V4(v4), node });
        self.to_node.push(IpOwner { ip: IpAddr::V6(v6), node });
        self.to_ip.push(NodeIps { node, v4, v6 });
        proof {
            let tn = self.to_node@;
            let ti = self.to_ip@;
            assert forall|i: int, j: int| 0 <= i < tn.len() && 0 <= j < tn.len() && i != j implies #[trigger] tn[i].ip
                != #[trigger] tn[j].ip by {
                if i < tn0.len() && j < tn0.len() {
                    assert(tn[i] == tn0[i] && tn[j] == tn0[j]);
                } else if i < tn0.len() {
                    assert(tn[i] == tn0[i]);
                } else if j < tn0.len() {
                    assert(tn[j] == tn0[j]);
                }
            }
            assert forall|i: int| 0 <= i < ti.len() implies self.ip_owner(IpAddr::V4(#[trigger] ti[i].v4), ti[i].node)
                && self.ip_owner(IpAddr::V6(ti[i].v6), ti[i].node) by {
                if i < ti0.len() {
                    assert(ti[i] == ti0[i]);
                    assert(old(self).ip_owner(IpAddr::V4(ti0[i].v4), ti0[i].node));
                    assert(old(self).ip_owner(IpAddr::V6(ti0[i].v6), ti0[i].node));
                    let a = choose|x: int| 0 <= x < tn0.len() && #[trigger] tn0[x].ip == IpAddr::V4(ti0[i].v4)
                        && tn0[x].node == ti0[i].node;
                    let b = choose|x: int| 0 <= x < tn0.len() && #[trigger] tn0[x].ip == IpAddr::V6(ti0[i].v6)
                        && tn0[x].node == ti0[i].node;
                    assert(tn[a] == tn0[a]);
                    assert(tn[b] == tn0[b]);
                } else {
                    assert(tn[tn.len() - 2].ip == IpAddr::V4(v4));
                    assert(tn[tn.len() - 1].ip == IpAddr::V6(v6));
                }
            }
            assert forall|i: int, j: int| 0 <= i < ti.len() && 0 <= j < ti.len() && i != j implies #[trigger] ti[i].node
                != #[trigger] ti[j].node by {
                if i < ti0.len() && j < ti0.len() {
                    assert(ti[i] == ti0[i] && ti[j] == ti0[j]);
                } else if i < ti0.len() {
                    assert(ti[i] == ti0[i]);
                } else if j < ti0.len() {
                    assert(ti[j] == ti0[j]);
                }
            }
        }
    }

    /// The position of the tcp binding of an address.
    fn find_binding(&self, addr: SocketAddr) -> (r: Option<usize>)
        requires
            self.wf(),
        ensures
            match r {
                Some(i) => i < self.tcp@.len() && self.tcp@[i as int].addr == addr,
                None => !self.tcp_bound(addr),
            },
    {
        let mut i: usize = 0;
        while i < self.tcp.len()
            invariant
                i <= self.tcp@.len(),
                forall|j: int| 0 <= j < i ==> #[trigger] self.tcp@[j].addr != addr,
            decreases self.tcp@.len() - i,
        {
            if self.tcp[i].addr == addr {
                return Some(i);
            }
            i = i + 1;
        }
        None
    }

    /// The address is bound by a tcp assignment.
    pub fn is_tcp_bound(&self, addr: SocketAddr) -> (b: bool)
        requires
            self.wf(),
        ensures
            b == self.tcp_bound(addr),
    {
        self.find_binding(addr).is_some()
    }

    /// Bind an address whose binding id is fresh.
    fn bind(&mut self, addr: SocketAddr, id: Id)
        requires
            old(self).wf(),
            !old(self).tcp_bound(addr),
            forall|i: int| 0 <= i < old(self).tcp@.len() ==> #[trigger] old(self).tcp@[i].id != id,
        ensures
            final(self).wf(),
            final(self).tcp@ == old(self).tcp@.push(TcpBinding { addr, id }),
            *final(self) == (IpAddrSimulator { tcp: final(self).tcp, ..*old(self) }),
    {
        let ghost t0 = self.tcp@;
        self.tcp.push(TcpBinding { addr, id });
        proof {
            let t = self.tcp@;
            assert forall|i: int, j: int| 0 <= i < t.len() && 0 <= j < t.len() && i != j implies #[trigger] t[i].addr
                != #[trigger] t[j].addr && t[i].id != t[j].id by {
                if i < t0.len() {
                    assert(t[i] == t0[i]);
                }
                if j < t0.len() {
                    assert(t[j] == t0[j]);
                }
            }
        }
    }

    /// Assign the requested address, unless it is in use.
    pub fn assign_tcp_fixed(&mut self, addr: SocketAddr, sim: &mut Simulation) -> (r: Result<TcpPortAssignment, TcpAssignError>)
        requires
            old(self).wf(),
            old(sim).wf(),
            old(sim).ids.pre_next_global_id < u64::MAX,
            forall|i: int| 0 <= i < old(self).tcp@.len() ==> #[trigger] old(self).tcp@[i].id.value
                <= old(sim).ids.pre_next_global_id,
        ensures
            final(self).wf(),
            final(sim).wf(),
            forall|i: int| 0 <= i < final(self).tcp@.len() ==> #[trigger] final(self).tcp@[i].id.value
                <= final(sim).ids.pre_next_global_id,
            match r {
                Ok(a) => !old(self).tcp_bound(addr) && a.id.value == old(sim).ids.pre_next_global_id + 1
                    && final(self).tcp@ == old(self).tcp@.push(TcpBinding { addr, id: a.id })
                    && *final(sim) == (Simulation { ids: IdGenerator { pre_next_global_id: a.id.value }, ..*old(sim) }),
                Err(e) => old(self).tcp_bound(addr) && e == TcpAssignError::AddrInUse && final(self).tcp@
                    == old(self).tcp@ && *final(sim) == *old(sim),
            },
            *final(self) == (IpAddrSimulator { tcp: final(self).tcp, ..*old(self) }),
    {
        if self.is_tcp_bound(addr) {
            return Err(TcpAssignError::AddrInUse);
        }
        let id = sim.new_id();
        proof {
            assert forall|i: int| 0 <= i < self.tcp@.len() implies #[trigger] self.tcp@[i].id != id by {}
        }
        self.bind(addr, id);
        proof {
            assert forall|i: int| 0 <= i < self.tcp@.len() implies #[trigger] self.tcp@[i].id.value
                <= sim.ids.pre_next_global_id by {
                if i < old(self).tcp@.len() {
                    assert(self.tcp@[i] == old(self).tcp@[i]);
                }
            }
        }
        Ok(TcpPortAssignment { id })
    }

    /// Assign a free ephemeral port of `ip`, probing from the position the
    /// random bits `r` pick, in odd steps that they also pick.
    pub fn assign_tcp_ephemeral_with(&mut self, ip: IpAddr, r: u32, sim: &mut Simulation) -> (res: Result<
        (TcpPortAssignment, SocketAddr),
        TcpAssignError,
    >)
        requires
            old(self).wf(),
            old(sim).wf(),
            old(sim).ids.pre_next_global_id < u64::MAX,
            forall|i: int| 0 <= i < old(self).tcp@.len() ==> #[trigger] old(self).tcp@[i].id.value
                <= old(sim).ids.pre_next_global_id,
        ensures
            final(self).wf(),
            final(sim).wf(),
            forall|i: int| 0 <= i < final(self).tcp@.len() ==> #[trigger] final(self).tcp@[i].id.value
                <= final(sim).ids.pre_next_global_id,
            match res {
                Ok((a, addr)) => {
                    &&& addr.ip == ip
                    &&& addr.port >= EPHEMERAL_PORTS
                    &&& !old(self).tcp_bound(addr)
                    &&& old(self).first_free_probe(ip, r, addr)
                    &&& a.id.value == old(sim).ids.pre_next_global_id + 1
                    &&& final(self).tcp@ == old(self).tcp@.push(TcpBinding { addr, id: a.id })
                    &&& *final(sim) == (Simulation { ids: IdGenerator { pre_next_global_id: a.id.value }, ..*old(sim) })
                },
                Err(e) => {
                    &&& e == TcpAssignError::AddrNotAvailable
                    &&& final(self).tcp@ == old(self).tcp@
                    &&& *final(sim) == *old(sim)
                    &&& forall|k: int| 0 <= k < EPHEMERAL_PORTS ==> old(self).tcp_bound(
                        #[trigger] probe_addr(ip, r, k),
                    )
                    &&& forall|port: u16| port >= EPHEMERAL_PORTS ==> #[trigger] old(self).port_in_use(ip, port)
                },
            },
    {
        let h: usize = EPHEMERAL_PORTS;
        let mut port: usize = (r as usize) % h;
        let step32: u32 = (r / 32768) | 1;
        let step: usize = step32 as usize;
        let mut i: usize = 0;
        proof {
            assert(step32 < 0x2_0000) by (bit_vector)
                requires
                    step32 == (r / 32768u32) | 1u32,
            ;
        }
        while i < h
            invariant
                h == EPHEMERAL_PORTS,
                i <= h,
                port < h,
                step < 0x2_0000,
                step == step32,
                step32 == ((r / 32768) as u32 | 1u32),
                port == probe_position(r, i as int),
                self == old(self),
                sim == old(sim),
                old(self).wf(),
                old(sim).wf(),
                old(sim).ids.pre_next_global_id < u64::MAX,
                forall|i: int| 0 <= i < old(self).tcp@.len() ==> #[trigger] old(self).tcp@[i].id.value
                    <= old(sim).ids.pre_next_global_id,
                forall|k: int| 0 <= k < i ==> old(self).tcp_bound(#[trigger] probe_addr(ip, r, k)),
            decreases h - i,
        {
            let port16 = (port + h) as u16;
            let addr = SocketAddr { ip, port: port16 };
            if !self.is_tcp_bound(addr) {
                proof {
                    assert(probe_addr(ip, r, i as int) == addr);
                    assert(old(self).first_free_probe(ip, r, addr));
                }
                let id = sim.new_id();
                proof {
                    assert forall|i: int| 0 <= i < self.tcp@.len() implies #[trigger] self.tcp@[i].id != id by {}
                }
                self.bind(addr, id);
                proof {
                    assert forall|i: int| 0 <= i < self.tcp@.len() implies #[trigger] self.tcp@[i].id.value
                        <= sim.ids.pre_next_global_id by {
                        if i < old(self).tcp@.len() {
                            assert(self.tcp@[i] == old(self).tcp@[i]);
                        }
                    }
                }
                return Ok((TcpPortAssignment { id }, addr));
            }
            proof {
                assert(probe_addr(ip, r, i as int) == addr);
                lemma_probe_step(r, i as int);
            }
            port = (port + step) % h;
            i = i + 1;
        }
        proof {
            assert forall|port: u16| port >= EPHEMERAL_PORTS implies #[trigger] old(self).port_in_use(ip, port) by {
                lemma_ephemeral_failure_means_exhausted(*old(self), ip, r, port);
            }
        }
        Err(TcpAssignError::AddrNotAvailable)
    }

    /// Assign a free ephemeral port of `ip`, picked with the simulation's
    /// random generator.
    pub fn assign_tcp_ephemeral(&mut self, ip: IpAddr, sim: &mut Simulation) -> (res: Result<
        (TcpPortAssignment, SocketAddr),
        TcpAssignError,
    >)
        requires
            old(self).wf(),
            old(sim).wf(),
            old(sim).ids.pre_next_global_id < u64::MAX,
            forall|i: int| 0 <= i < old(self).tcp@.len() ==> #[trigger] old(self).tcp@[i].id.value
                <= old(sim).ids.pre_next_global_id,
        ensures
            final(self).wf(),
            final(sim).wf(),
            forall|i: int| 0 <= i < final(self).tcp@.len() ==> #[trigger] final(self).tcp@[i].id.value
                <= final(sim).ids.pre_next_global_id,
            final(sim).draws@ == old(sim).draws@ + 1,
            match res {
                Ok((a, addr)) => {
                    &&& addr.ip == ip
                    &&& addr.port >= EPHEMERAL_PORTS
                    &&& !old(self).tcp_bound(addr)
                    &&& old(self).first_free_probe(ip, random_draw(old(sim).seed, old(sim).draws@), addr)
                    &&& a.id.value == old(sim).ids.pre_next_global_id + 1
                    &&& final(self).tcp@ == old(self).tcp@.push(TcpBinding { addr, id: a.id })
                    &&& *final(sim) == (Simulation {
                        rng: final(sim).rng,
                        draws: final(sim).draws,
                        ids: IdGenerator { pre_next_global_id: a.id.value },
                        ..*old(sim)
                    })
                },
                Err(e) => {
                    &&& e == TcpAssignError::AddrNotAvailable
                    &&& final(self).tcp@ == old(self).tcp@
                    &&& forall|port: u16| port >= EPHEMERAL_PORTS ==> #[trigger] old(self).port_in_use(ip, port)
                    &&& *final(sim) == (Simulation { rng: final(sim).rng, draws: final(sim).draws, ..*old(sim) })
                },
            },
    {
        let r = sim.random_u32();
        self.assign_tcp_ephemeral_with(ip, r, sim)
    }

    /// The address of a tcp assignment.
    pub fn tcp_addr(&self, a: &TcpPortAssignment) -> (addr: Option<SocketAddr>)
        requires
            self.wf(),
        ensures
            match addr {
                Some(x) => exists|i: int| 0 <= i < self.tcp@.len() && #[trigger] self.tcp@[i] == (TcpBinding { addr: x, id: a.id }),
                None => forall|i: int| 0 <= i < self.tcp@.len() ==> #[trigger] self.tcp@[i].id != a.id,
            },
    {
        let mut i: usize = 0;
        while i < self.tcp.len()
            invariant
                i <= self.tcp@.len(),
                forall|j: int| 0 <= j < i ==> #[trigger] self.tcp@[j].id != a.id,
            decreases self.tcp@.len() - i,
        {
            if self.tcp[i].id == a.id {
                return Some(self.tcp[i].addr);
            }
            i = i + 1;
        }
        None
    }

    /// Release a tcp assignment: its address is free again.
    pub fn release_tcp(&mut self, a: TcpPortAssignment)
        requires
            old(self).wf(),
        ensures
            final(self).wf(),
            forall|x: SocketAddr| #[trigger] final(self).tcp_bound(x) <==> (old(self).tcp_bound(x) && !exists|i: int|
                0 <= i < old(self).tcp@.len() && #[trigger] old(self).tcp@[i] == (TcpBinding { addr: x, id: a.id })),
            forall|i: int| 0 <= i < final(self).tcp@.len() ==> old(self).tcp@.contains(#[trigger] final(self).tcp@[i]),
            *final(self) == (IpAddrSimulator { tcp: final(self).tcp, ..*old(self) }),
    {
        let mut i: usize = 0;
        while i < self.tcp.len()
            invariant
                i <= self.tcp@.len(),
                self == old(self),
                old(self).wf(),
                forall|j: int| 0 <= j < i ==> #[trigger] self.tcp@[j].id != a.id,
            decreases self.tcp@.len() - i,
        {
            if self.tcp[i].id == a.id {
                let ghost t0 = self.tcp@;
                let _ = self.tcp.remove(i);
                proof {
                    let t = self.tcp@;
                    assert forall|x: int, y: int| 0 <= x < t.len() && 0 <= y < t.len() && x != y implies #[trigger] t[x].addr
                        != #[trigger] t[y].addr && t[x].id != t[y].id by {
                        let xx = if x < i { x } else { x + 1 };
                        let yy = if y < i { y } else { y + 1 };
                        assert(t[x] == t0[xx] && t[y] == t0[yy]);
                    }
                    assert forall|x: SocketAddr| #[trigger] self.tcp_bound(x) <==> (old(self).tcp_bound(x) && !exists|j: int|
                        0 <= j < t0.len() && #[trigger] t0[j] == (TcpBinding { addr: x, id: a.id })) by {
                        if self.tcp_bound(x) {
                            let k = choose|k: int| 0 <= k < t.len() && #[trigger] t[k].addr == x;
                            let kk = if k < i { k } else { k + 1 };
                            assert(t[k] == t0[kk]);
                            if exists|j: int| 0 <= j < t0.len() && #[trigger] t0[j] == (TcpBinding { addr: x, id: a.id }) {
                                let j = choose|j: int| 0 <= j < t0.len() && #[trigger] t0[j] == (TcpBinding { addr: x, id: a.id });
                                if j != i {
                                    assert(t0[i as int].addr != t0[j].addr && t0[i as int].id != t0[j].id);
                                }
                                assert(j == i);
                            }
                        }
                        if old(self).tcp_bound(x) && !exists|j: int| 0 <= j < t0.len() && #[trigger] t0[j] == (TcpBinding {
                            addr: x,
                            id: a.id,
                        }) {
                            let k = choose|k: int| 0 <= k < t0.len() && #[trigger] t0[k].addr == x;
                            assert(k != i);
                            let kk = if k < i { k } else { k - 1 };
                            assert(t[kk] == t0[k]);
                        }
                    }
                    assert forall|x: int| 0 <= x < t.len() implies t0.contains(#[trigger] t[x]) by {
                        let xx = if x < i { x } else { x + 1 };
                        assert(t[x] == t0[xx]);
                    }
                }
                return;
            }
            i = i + 1;
        }
        proof {
            assert forall|x: SocketAddr| #[trigger] self.tcp_bound(x) <==> (old(self).tcp_bound(x) && !exists|j: int|
                0 <= j < old(self).tcp@.len() && #[trigger] old(self).tcp@[j] == (TcpBinding { addr: x, id: a.id })) by {
                if exists|j: int| 0 <= j < old(self).tcp@.len() && #[trigger] old(self).tcp@[j] == (TcpBinding { addr: x, id: a.id }) {
                    let j = choose|j: int| 0 <= j < old(self).tcp@.len() && #[trigger] old(self).tcp@[j] == (TcpBinding { addr: x, id: a.id });
                    assert(self.tcp@[j].id != a.id);
                }
            }
            assert forall|x: int| 0 <= x < self.tcp@.len() implies old(self).tcp@.contains(#[trigger] self.tcp@[x]) by {
                assert(old(self).tcp@[x] == self.tcp@[x]);
            }
        }
    }

    /// A listener is open on the address.
    pub open spec fn listening(&self, addr: SocketAddr) -> bool {
        exists|i: int| 0 <= i < self.listeners@.len() && #[trigger] self.listeners@[i].addr == addr
    }

    /// The position of the listener on an address.
    fn find_listener(&self, addr: SocketAddr) -> (r: Option<usize>)
        requires
            self.wf(),
        ensures
            match r {
                Some(i) => i < self.listeners@.len() && self.listeners@[i as int].addr == addr,
                None => !self.listening(addr),
            },
    {
        let mut i: usize = 0;
        while i < self.listeners.len()
            invariant
                i <= self.listeners@.len(),
                forall|j: int| 0 <= j < i ==> #[trigger] self.listeners@[j].addr != addr,
            decreases self.listeners@.len() - i,
        {
            if self.listeners[i].addr == addr {
                return Some(i);
            }
            i = i + 1;
        }
        None
    }

    /// Start listening on an address, with an empty backlog.
    pub fn listen_tcp(&mut self, addr: SocketAddr)
        requires
            old(self).wf(),
            !old(self).listening(addr),
        ensures
            final(self).wf(),
            final(self).listening(addr),
            final(self).listeners@.len() == old(self).listeners@.len() + 1,
            final(self).listeners@.last().backlog@.len() == 0,
            final(self).tcp@ == old(self).tcp@,
    {
        let ghost l0 = self.listeners@;
        self.listeners.push(TcpListener { addr, backlog: VecDeque::new() });
        proof {
            let l = self.listeners@;
            assert(l[l.len() - 1].addr == addr);
            assert forall|i: int, j: int| 0 <= i < l.len() && 0 <= j < l.len() && i != j implies #[trigger] l[i].addr
                != #[trigger] l[j].addr by {
                if i < l0.len() {
                    assert(l[i] == l0[i]);
                }
                if j < l0.len() {
                    assert(l[j] == l0[j]);
                }
            }
            assert forall|i: int| 0 <= i < l.len() implies #[trigger] l[i].backlog@.len() <= TCP_BACKLOG by {
                if i < l0.len() {
                    assert(l[i] == l0[i]);
                }
            }
        }
    }

    /// A client asks to connect to `server`: the request joins the end of
    /// the listener's backlog when a listener is open there and its backlog
    /// has room. Returns whether it did; otherwise the connection is refused.
    pub fn dispatch_connect(&mut self, server: SocketAddr, conn: TcpIncomingConnection) -> (connected: bool)
        requires
            old(self).wf(),
        ensures
            final(self).wf(),
            final(self).listeners@.len() == old(self).listeners@.len(),
            connected <==> exists|i: int| 0 <= i < old(self).listeners@.len() && #[trigger] old(self).listeners@[i].addr
                == server && old(self).listeners@[i].backlog@.len() < TCP_BACKLOG,
            forall|i: int| 0 <= i < old(self).listeners@.len() ==> {
                &&& #[trigger] final(self).listeners@[i].addr == old(self).listeners@[i].addr
                &&& final(self).listeners@[i].backlog@ == (if connected && old(self).listeners@[i].addr == server {
                    old(self).listeners@[i].backlog@.push(conn)
                } else {
                    old(self).listeners@[i].backlog@
                })
            },
            final(self).tcp@ == old(self).tcp@,
    {
        match self.find_listener(server) {
            None => false,
            Some(i) => {
                if self.listeners[i].backlog.len() < TCP_BACKLOG {
                    self.listeners[i].backlog.push_back(conn);
                    proof {
                        assert forall|j: int| 0 <= j < old(self).listeners@.len() && j != i implies old(self).listeners@[j].addr
                            != server by {}
                    }
                    true
                } else {
                    proof {
                        assert forall|j: int| 0 <= j < old(self).listeners@.len() && #[trigger] old(self).listeners@[j].addr
                            == server implies old(self).listeners@[j].backlog@.len() >= TCP_BACKLOG by {
                            assert(j == i);
                        }
                    }
                    false
                }
            },
        }
    }

    /// Take the oldest pending connection of the listener on `server`.
    pub fn accept(&mut self, server: SocketAddr) -> (r: Option<TcpIncomingConnection>)
        requires
            old(self).wf(),
        ensures
            final(self).wf(),
            final(self).listeners@.len() == old(self).listeners@.len(),
            forall|i: int| 0 <= i < old(self).listeners@.len() ==> {
                &&& #[trigger] final(self).listeners@[i].addr == old(self).listeners@[i].addr
                &&& if old(self).listeners@[i].addr == server && r is Some {
                    r->Some_0 == old(self).listeners@[i].backlog@[0] && final(self).listeners@[i].backlog@
                        == old(self).listeners@[i].backlog@.drop_first()
                } else {
                    final(self).listeners@[i].backlog@ == old(self).listeners@[i].backlog@
                }
            },
            r is None <==> !exists|i: int| 0 <= i < old(self).listeners@.len() && #[trigger] old(self).listeners@[i].addr
                == server && old(self).listeners@[i].backlog@.len() > 0,
            final(self).tcp@ == old(self).tcp@,
    {
        match self.find_listener(server) {
            None => None,
            Some(i) => {
                let r = self.listeners[i].backlog.pop_front();
                proof {
                    assert forall|j: int| 0 <= j < old(self).listeners@.len() && j != i implies old(self).listeners@[j].addr
                        != server by {}
                }
                r
            },
        }
    }

    /// Stop listening on an address; returns the connections never accepted.
    pub fn unlisten_tcp(&mut self, addr: SocketAddr) -> (left: Option<TcpListener>)
        requires
            old(self).wf(),
        ensures
            final(self).wf(),
            !final(self).listening(addr),
            left is Some <==> old(self).listening(addr),
            left is Some ==> left->Some_0.addr == addr,
            final(self).tcp@ == old(self).tcp@,
            match left {
                Some(l) => listener_removed(old(self).listeners@, final(self).listeners@, addr, l),
                None => final(self).listeners@ == old(self).listeners@,
            },
            *final(self) == (IpAddrSimulator { listeners: final(self).listeners, ..*old(self) }),
    {
        match self.find_listener(addr) {
            None => None,
            Some(i) => {
                let ghost l0 = self.listeners@;
                let l = self.listeners.remove(i);
                proof {
                    let ls = self.listeners@;
                    assert forall|x: int| 0 <= x < ls.len() implies #[trigger] ls[x] == l0[if x < i { x } else { x + 1 }] by {}
                    assert forall|x: int, y: int| 0 <= x < ls.len() && 0 <= y < ls.len() && x != y implies #[trigger] ls[x].addr
                        != #[trigger] ls[y].addr by {
                        let xx = if x < i { x } else { x + 1 };
                        let yy = if y < i { y } else { y + 1 };
                        assert(ls[x] == l0[xx] && ls[y] == l0[yy]);
                    }
                    assert forall|x: int| 0 <= x < ls.len() implies #[trigger] ls[x].backlog@.len() <= TCP_BACKLOG by {
                        let xx = if x < i { x } else { x + 1 };
                        assert(ls[x] == l0[xx]);
                    }
                    assert(ls =~= l0.remove(i as int));
                    assert(listener_removed(l0, ls, addr, l));
                    if self.listening(addr) {
                        let x = choose|x: int| 0 <= x < ls.len() && #[trigger] ls[x].addr == addr;
                        let xx = if x < i { x } else { x + 1 };
                        assert(ls[x] == l0[xx]);
                        assert(l0[i as int].addr == addr);
                    }
                }
                Some(l)
            },
        }
    }
}

/// `after` is `before` without the listener on `addr`, which is `l`.
pub open spec fn listener_removed(before: Seq<TcpListener>, after: Seq<TcpListener>, addr: SocketAddr, l: TcpListener) -> bool {
    exists|i: int| 0 <= i < before.len() && #[trigger] before[i].addr == addr && l == before[i] && after == before.remove(i)
}

/// The position in the ephemeral range probed at step `k` for random bits `r`.
pub open spec fn probe_position(r: u32, k: int) -> int {
    (r % 32768 + k * ((r / 32768) as u32 | 1u32)) % 32768
}

/// The address probed at step `k`.
pub open spec fn probe_addr(ip: IpAddr, r: u32, k: int) -> SocketAddr {
    SocketAddr { ip, port: (probe_position(r, k) + 32768) as u16 }
}

/// One probing step adds the odd step to the position, modulo the size of
/// the ephemeral range.
pub proof fn lemma_probe_step(r: u32, k: int)
    requires
        0 <= k,
    ensures
        probe_position(r, k + 1) == (probe_position(r, k) + ((r / 32768) as u32 | 1u32)) % 32768,
{
    let s = ((r / 32768) as u32 | 1u32) as int;
    let a = r % 32768 + k * s;
    assert((k + 1) * s == k * s + s) by (nonlinear_arith);
    vstd::arithmetic::div_mod::lemma_add_mod_noop(a, s, 32768);
    vstd::arithmetic::div_mod::lemma_mod_twice(s, 32768);
    vstd::arithmetic::div_mod::lemma_add_mod_noop(a % 32768, s, 32768);
}

} // verus!

verus! {

/// An odd multiple of a number between 1 and 32767 is not a multiple of 32768.
proof fn lemma_odd_multiple_not_aligned(d: u32, s: u32)
    by (bit_vector)
    requires
        0 < d < 32768,
        s < 131072,
        s & 1 == 1,
    ensures
        (d * s) % 32768 != 0,
{
}

/// Distinct probing steps below 32768 probe distinct positions.
pub proof fn lemma_probe_injective(r: u32, j: int, k: int)
    requires
        0 <= j < k < 32768,
    ensures
        probe_position(r, j) != probe_position(r, k),
{
    let s32 = ((r / 32768) as u32 | 1u32);
    assert(s32 & 1 == 1 && s32 < 131072) by (bit_vector)
        requires
            s32 == ((r / 32768) as u32 | 1u32),
    ;
    let s = s32 as int;
    let a = (r % 32768) as int;
    let x = a + k * s;
    let y = a + j * s;
    assert(x - y == (k - j) * s) by (nonlinear_arith)
        requires
            x == a + k * s,
            y == a + j * s,
    ;
    vstd::arithmetic::div_mod::lemma_mod_equivalence(x, y, 32768);
    let d = (k - j) as u32;
    lemma_odd_multiple_not_aligned(d, s32);
    assert((d * s32) as int == (k - j) * s);
}

/// Over 32768 steps the probing visits every position of the ephemeral
/// range.
pub proof fn lemma_probe_covers_all(r: u32, p: int)
    requires
        0 <= p < 32768,
    ensures
        exists|k: int| 0 <= k < 32768 && #[trigger] probe_position(r, k) == p,
{
    let f = |k: int| probe_position(r, k);
    let x = vstd::set_lib::set_int_range(0, 32768);
    let y = x.map(f);
    vstd::set_lib::lemma_int_range(0, 32768);
    assert(vstd::relations::injective_on(f, x)) by {
        assert forall|a: int, b: int| x.contains(a) && x.contains(b) && #[trigger] f(a) == #[trigger] f(b) implies a == b by {
            if a < b {
                lemma_probe_injective(r, a, b);
            } else if b < a {
                lemma_probe_injective(r, b, a);
            }
        }
    }
    vstd::set_lib::lemma_map_size(x, y, f);
    assert(y.subset_of(x)) by {
        assert forall|q: int| y.contains(q) implies x.contains(q) by {
            let k = choose|k: int| x.contains(k) && f(k) == q;
            let s = ((r / 32768) as u32 | 1u32) as int;
            assert(0 <= (r % 32768 + k * s)) by (nonlinear_arith)
                requires
                    0 <= k,
                    0 <= s,
            ;
            vstd::arithmetic::div_mod::lemma_mod_pos_bound(r % 32768 + k * s, 32768);
        }
    }
    vstd::set_lib::lemma_subset_equality(y, x);
    assert(x.contains(p));
    assert(y.contains(p));
    let k = choose|k: int| x.contains(k) && f(k) == p;
    assert(probe_position(r, k) == p);
}

/// An ephemeral assignment that probed every step in vain leaves no
/// ephemeral port of the ip free: it fails only when all are in use.
pub proof fn lemma_ephemeral_failure_means_exhausted(s: IpAddrSimulator, ip: IpAddr, r: u32, port: u16)
    requires
        forall|k: int| 0 <= k < EPHEMERAL_PORTS ==> s.tcp_bound(#[trigger] probe_addr(ip, r, k)),
        port >= EPHEMERAL_PORTS,
    ensures
        s.tcp_bound(SocketAddr { ip, port }),
{
    lemma_probe_covers_all(r, port - 32768);
    let k = choose|k: int| 0 <= k < 32768 && #[trigger] probe_position(r, k) == port - 32768;
    assert(probe_addr(ip, r, k) == SocketAddr { ip, port });
}

} // verus!
