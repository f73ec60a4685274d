use refault::context::Simulation;
use refault::event::EventHandler;
use refault::id::{Id, IdGenerator};
use refault::ip_addr::{
    IpAddr, IpAddrSimulator, Ipv4Generator, Ipv6Generator, LookupError, SocketAddr, TcpAssignError,
    TcpPortAssignment,
};
use refault::net::{
    Addr, AddrInUseError, INBOX_CAPACITY, Inboxes, OrderingKey, PacketHeader, PerfectConnectivity,
    ServiceLevel,
};
use refault::node_id::NodeId;
use refault::udp::{
    BindError, Datagram, NotConnected, ReceiveStart, ReceiveState, UdpSocketState, accepts_from, send_target,
    udp_bind_target,
};

const START: u128 = 1648339195 * 1_000_000_000;

fn v4(a: u32, b: u32, c: u32, d: u32) -> u32 {
    (a << 24) | (b << 16) | (c << 8) | d
}

#[test]
fn ip_gen_ipv4() {
    let mut generator = Ipv4Generator::private_ipv4();
    assert_eq!(generator.next(), v4(10, 0, 0, 1));
    assert_eq!(generator.next(), v4(10, 0, 0, 2));
}

#[test]
fn udp_gen_ipv4() {
    let mut generator = Ipv4Generator::private_ipv4();
    assert_eq!(generator.next(), v4(10, 0, 0, 1));
    assert_eq!(generator.next(), v4(10, 0, 0, 2));
}

fn is_unique_local(bits: u128) -> bool {
    (bits >> 121) == (0xfc >> 1)
}

#[test]
fn ip_gen_ipv6() {
    let mut generator = Ipv6Generator::unique_local_address_hosts();
    let a = generator.next();
    let b = generator.next();
    assert!(is_unique_local(a));
    assert!(is_unique_local(b));
    assert!(b - a == 1u128 << 64);
}

#[test]
fn udp_gen_ipv6() {
    let mut generator = Ipv6Generator::unique_local_address_hosts();
    let a = generator.next();
    let b = generator.next();
    assert!(is_unique_local(a));
    assert!(is_unique_local(b));
    assert!(b - a == 1u128 << 64);
}

fn setup(nodes: usize) -> (Simulation, IpAddrSimulator, Vec<NodeId>) {
    let mut sim = Simulation::new(EventHandler::noop(), 0, START, 1);
    let mut ids = IdGenerator::new();
    let mut ip = IpAddrSimulator::default_simulator(&mut ids);
    // the port ids come from the simulation's own counter
    let _ = ids;
    let mut created = Vec::new();
    for _ in 0..nodes {
        let c = NodeId::create_node(&mut sim).unwrap();
        let n = sim.finish_create_node(c);
        assert!(ip.next_node_addrs_free(n));
        ip.create_node(n);
        created.push(n);
    }
    (sim, ip, created)
}

#[test]
fn nodes_get_consecutive_addresses() {
    let (_sim, ip, nodes) = setup(2);
    assert_eq!(ip.get_ip_for_node(nodes[0], false), IpAddr::V4(v4(10, 0, 0, 1)));
    assert_eq!(ip.get_ip_for_node(nodes[1], false), IpAddr::V4(v4(10, 0, 0, 2)));
    assert_eq!(ip.local_ip(nodes[1], true), IpAddr::V6(0xfde0_e09f_6400_0002u128 << 64));
}

#[test]
fn overridden_address_is_used_once() {
    let (_sim, mut ip, _) = setup(1);
    ip.override_next_node_addr(v4(192, 168, 0, 9), 77);
    let n = NodeId::from_index(2);
    assert!(ip.next_node_addrs_free(n));
    ip.create_node(n);
    assert_eq!(ip.get_ip_for_node(n, false), IpAddr::V4(v4(192, 168, 0, 9)));
    assert_eq!(ip.get_ip_for_node(n, true), IpAddr::V6(77));
    assert!(ip.override_next.is_none());
}

#[test]
fn socket_addresses_translate_to_network_addresses() {
    let (_sim, ip, nodes) = setup(2);
    let a = SocketAddr { ip: IpAddr::V4(v4(10, 0, 0, 2)), port: 22 };
    let addr = ip.lookup_socket_addr(a).unwrap();
    assert_eq!(addr.node, nodes[1]);
    assert_eq!(addr.port.get(), ip.v4_ports.first + 22);
    let b = SocketAddr { ip: IpAddr::V6(0xfde0_e09f_6400_0001u128 << 64), port: 22 };
    let addr6 = ip.lookup_socket_addr(b).unwrap();
    assert_eq!(addr6.node, nodes[0]);
    assert_eq!(addr6.port.get(), ip.v6_ports.first + 22);
    assert_ne!(addr.port, addr6.port);
    let c = SocketAddr { ip: IpAddr::V4(v4(10, 9, 9, 9)), port: 1 };
    assert_eq!(ip.lookup_socket_addr(c), Err(LookupError { addr: c }));
}

#[test]
fn tcp_ports_are_assigned_once() {
    let (mut sim, mut ip, _) = setup(1);
    let a = SocketAddr { ip: IpAddr::V4(v4(10, 0, 0, 1)), port: 80 };
    let first: TcpPortAssignment = ip.assign_tcp_fixed(a, &mut sim).unwrap();
    assert!(matches!(ip.assign_tcp_fixed(a, &mut sim), Err(TcpAssignError::AddrInUse)));
    assert_eq!(ip.tcp_addr(&first), Some(a));
    let id = first.id();
    ip.release_tcp(first);
    assert!(!ip.is_tcp_bound(a));
    let again = ip.assign_tcp_fixed(a, &mut sim).unwrap();
    assert_ne!(again.id(), id);
}

#[test]
fn ephemeral_ports_are_free_and_high() {
    let (mut sim, mut ip, _) = setup(1);
    let host = IpAddr::V4(v4(10, 0, 0, 1));
    let mut seen = Vec::new();
    for _ in 0..50 {
        let (_, addr) = ip.assign_tcp_ephemeral(host, &mut sim).unwrap();
        assert_eq!(addr.ip, host);
        assert!(addr.port >= 32768);
        assert!(!seen.contains(&addr.port));
        seen.push(addr.port);
    }
}

#[test]
fn ephemeral_probe_starts_where_the_random_bits_point() {
    let (mut sim, mut ip, _) = setup(1);
    let host = IpAddr::V4(v4(10, 0, 0, 1));
    // r = 5 + 32768 * 2: start at 5, step 3
    let r = 5 + 32768 * 2;
    let (_, a) = ip.assign_tcp_ephemeral_with(host, r, &mut sim).unwrap();
    assert_eq!(a.port, 32768 + 5);
    let (_, b) = ip.assign_tcp_ephemeral_with(host, r, &mut sim).unwrap();
    assert_eq!(b.port, 32768 + 8);
}

#[test]
fn tcp_listener_backlog_is_bounded() {
    let (_sim, mut ip, nodes) = setup(1);
    let server = SocketAddr { ip: IpAddr::V4(v4(10, 0, 0, 1)), port: 100 };
    let client = SocketAddr { ip: IpAddr::V4(v4(10, 0, 0, 1)), port: 40000 };
    let conn = refault::ip_addr::TcpIncomingConnection {
        client_ip: client,
        client_sim: Addr { node: nodes[0], port: Id { value: 99 } },
    };
    assert!(!ip.dispatch_connect(server, conn));
    ip.listen_tcp(server);
    for _ in 0..16 {
        assert!(ip.dispatch_connect(server, conn));
    }
    assert!(!ip.dispatch_connect(server, conn));
    assert_eq!(ip.accept(server), Some(conn));
    assert!(ip.dispatch_connect(server, conn));
    let left = ip.unlisten_tcp(server).unwrap();
    assert_eq!(left.backlog.len(), 16);
    assert_eq!(ip.accept(server), None);
}

#[test]
fn udp_bind_resolves_the_unspecified_ip() {
    let (_sim, ip, nodes) = setup(2);
    let local = SocketAddr { ip: IpAddr::V4(0), port: 22 };
    let (port, addr) = udp_bind_target(&ip, local, nodes[1]).unwrap();
    assert_eq!(addr, SocketAddr { ip: IpAddr::V4(v4(10, 0, 0, 2)), port: 22 });
    assert_eq!(port.get(), ip.v4_ports.first + 22);
    let other = SocketAddr { ip: IpAddr::V4(v4(10, 0, 0, 1)), port: 22 };
    assert_eq!(udp_bind_target(&ip, other, nodes[1]), Err(BindError::AddrNotAvailable));
    let unknown = SocketAddr { ip: IpAddr::V4(v4(10, 0, 0, 7)), port: 22 };
    assert!(matches!(udp_bind_target(&ip, unknown, nodes[1]), Err(BindError::Lookup(_))));
    assert!(accepts_from(other, other));
    assert!(!accepts_from(other, addr));
}

fn addr(node: usize, port: u64) -> Addr {
    Addr { node: NodeId::from_index(node), port: Id { value: port } }
}

#[test]
fn sockets_are_unique_per_address_and_type() {
    let mut inboxes = Inboxes::new();
    assert_eq!(inboxes.open(addr(1, 5), 0), Ok(()));
    assert_eq!(inboxes.open(addr(1, 5), 1), Ok(()));
    assert_eq!(inboxes.open(addr(1, 5), 0), Err(AddrInUseError { addr: addr(1, 5), ty: 0 }));
    assert_eq!(inboxes.close(addr(1, 5), 0), Some(vec![]));
    assert_eq!(inboxes.open(addr(1, 5), 0), Ok(()));
}

#[test]
fn inboxes_drop_packets_when_full_or_closed() {
    let mut inboxes = Inboxes::new();
    assert!(!inboxes.deliver(addr(1, 5), 0, 100));
    inboxes.open(addr(1, 5), 0).unwrap();
    for p in 0..INBOX_CAPACITY as u64 {
        assert!(inboxes.deliver(addr(1, 5), 0, p));
    }
    assert!(!inboxes.deliver(addr(1, 5), 0, 99));
    assert!(!inboxes.deliver(addr(1, 5), 1, 98));
    assert_eq!(inboxes.try_receive(addr(1, 5), 0), Some(0));
    assert_eq!(inboxes.try_receive(addr(1, 5), 0), Some(1));
    assert!(inboxes.deliver(addr(1, 5), 0, 50));
    inboxes.open(addr(2, 5), 0).unwrap();
    assert!(inboxes.deliver(addr(2, 5), 0, 7));
    let dropped = inboxes.start_node(NodeId::from_index(1));
    assert_eq!(dropped, vec![2, 3, 4, 5, 6, 7, 50]);
    assert_eq!(inboxes.try_receive(addr(1, 5), 0), None);
    assert_eq!(inboxes.try_receive(addr(2, 5), 0), Some(7));
}

#[test]
fn ordering_keys_and_service_levels() {
    let k = OrderingKey::empty();
    assert_eq!(k, OrderingKey::empty());
    let k2 = k.with_dst_addr(addr(1, 2)).with_type(4);
    assert_eq!(k2.dst_addr, Some(addr(1, 2)));
    assert_eq!(k2.ty, Some(4));
    let s = ServiceLevel::default_level();
    assert!(s.ordering.is_none() && s.allow_drop && !s.allow_multiple);
    let h = PacketHeader::new(addr(1, 2), addr(2, 3), 4, s);
    assert_eq!((h.src(), h.dst(), h.service_level()), (addr(1, 2), addr(2, 3), s));
    let net = PerfectConnectivity { latency: 100 };
    assert_eq!(net.delivery_time(START), START + 100);
}

/// A peeked datagram stays with the socket: the next receive returns it, and
/// a receive after that waits for the inbox again.
#[test]
fn udp_peek_keeps_the_datagram_for_the_next_receive() {
    let local = SocketAddr { ip: IpAddr::V4(v4(10, 0, 0, 2)), port: 23 };
    let peer = SocketAddr { ip: IpAddr::V4(v4(10, 0, 0, 1)), port: 22 };
    let mut socket = UdpSocketState::new(local);
    assert_eq!(socket.peer(), Err(NotConnected));
    socket.connect(peer);
    assert_eq!(socket.peer(), Ok(peer));
    // a peek waits for the inbox, is pending, then resumes and gets a datagram
    assert_eq!(socket.take_receive_state(), ReceiveStart::Fresh);
    socket.put_receive_state(ReceiveState::Waiting);
    assert_eq!(socket.take_receive_state(), ReceiveStart::Resume);
    let d = Datagram { payload: 7, len: 4, src: peer, dst: local };
    socket.put_receive_state(ReceiveState::Peeked(d));
    // the next receive returns the peeked datagram and leaves the state idle
    assert_eq!(socket.start_receive(), ReceiveStart::Peeked(d));
    assert_eq!(socket.receive_state, ReceiveState::Idle);
    assert_eq!(socket.start_receive(), ReceiveStart::Fresh);
}

#[test]
fn udp_datagrams_go_to_the_owner_of_the_destination_ip() {
    let (_sim, ip, _nodes) = setup(2);
    let local = SocketAddr { ip: IpAddr::V4(v4(10, 0, 0, 2)), port: 22 };
    let dst = SocketAddr { ip: IpAddr::V4(v4(10, 0, 0, 1)), port: 23 };
    let a = send_target(&ip, local, dst).unwrap();
    assert_eq!(a.node, NodeId::from_index(1));
    assert_eq!(a.port.get(), ip.v4_ports.first + 23);
    let nowhere = SocketAddr { ip: IpAddr::V4(v4(10, 0, 0, 9)), port: 23 };
    assert!(send_target(&ip, local, nowhere).is_err());
}
