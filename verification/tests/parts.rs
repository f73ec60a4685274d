use refault::id::Id;
use refault::node::{
    NetworkPackage, Node, NodeRegistry, TaskTrackingFuture, clear_node, current_node, get_node, listen,
    send, set_node,
};
use refault::node_id::NodeId;
use refault::rpc::Responders;
use refault::send_bind::{AnchorSource, NodeBound, SimBound, SimNodeBoundExt, ThreadAnchor};
use refault::simulator::{NodeSimulator, NodeSimulatorFactory, PerNode, Simulator};
use refault::tcp::copy_from_recv_buffer;

#[test]
fn nodes_get_ids_in_creation_order() {
    let mut reg: NodeRegistry<String> = NodeRegistry::new();
    assert_eq!(Node::new(&mut reg), 0);
    assert_eq!(Node::new(&mut reg), 1);
    assert_eq!(get_node(&reg, 1), 1);
    assert_eq!(current_node(&reg), None);
    set_node(&mut reg, 1);
    assert_eq!(current_node(&reg), Some(1));
    clear_node(&mut reg);
    assert_eq!(current_node(&reg), None);
}

#[test]
fn messages_are_received_in_order() {
    let mut reg: NodeRegistry<String> = NodeRegistry::new();
    let a = Node::new(&mut reg);
    let b = Node::new(&mut reg);
    set_node(&mut reg, a);
    let p: NetworkPackage<String> = send(&reg, "hello".to_string(), b);
    assert_eq!((p.source, p.destination), (a, b));
    clear_node(&mut reg);
    set_node(&mut reg, b);
    let f = listen(&reg);
    assert_eq!(f.node, b);
    assert!(f.poll(&mut reg).is_none());
    let ib = get_node(&reg, b);
    assert!(Node::receive_message(&mut reg, ib, p));
    let q = send(&reg, "again".to_string(), b);
    assert!(!Node::receive_message(&mut reg, ib, q));
    assert_eq!(f.poll(&mut reg).unwrap().message, "hello");
    assert_eq!(f.poll(&mut reg).unwrap().message, "again");
}

#[test]
fn task_tracking_future_yields_the_result_once() {
    let mut f: TaskTrackingFuture<i32> = TaskTrackingFuture::new();
    assert_eq!(f.query_result(), None);
    assert_eq!(f.poll(), None);
    assert!(f.complete(5));
    assert_eq!(f.query_result(), Some(5));
    assert_eq!(f.query_result(), None);
}

#[test]
fn bound_values_check_their_node_and_thread() {
    let mut src = AnchorSource::new();
    let a = ThreadAnchor::new(&mut src);
    let b = ThreadAnchor::new(&mut src);
    assert_eq!((a.id, b.id), (1, 2));
    let n = NodeId::from_index(3);
    let v = NodeBound::from_value(9, n);
    assert!(v.check(n));
    assert!(!v.check(NodeId::init()));
    assert_eq!(*v.get(n), 9);
    assert_eq!(v.unwrap_node_bound(n), 9);
    let s = SimBound::from_value("x", a);
    assert!(s.check(a) && !s.check(b));
    assert_eq!(s.unwrap_sim_bound(a), "x");
    let both = 4u8.sim_node_bound(a, n);
    assert_eq!(both.unwrap_sim_bound(a).unwrap_node_bound(n), 4);
    assert_eq!(7u8.node_bound(n).inner, 7);
    assert_eq!(7u8.sim_bound(b).id, 2);
}

/// A node simulator that counts its stops and starts.
#[derive(Debug, PartialEq)]
struct Counter {
    made: u32,
    stops: u32,
    starts: u32,
}

impl NodeSimulator for Counter {
    fn stop_node(&mut self) {
        self.stops += 1;
    }

    fn start_node(&mut self) {
        self.starts += 1;
    }
}

/// Numbers the counters it makes.
struct MakeCounter {
    made: u32,
}

impl NodeSimulatorFactory<Counter> for MakeCounter {
    fn make(&mut self) -> Counter {
        self.made += 1;
        Counter { made: self.made, stops: 0, starts: 0 }
    }
}

#[test]
fn per_node_simulators_follow_node_creation() {
    let mut p = PerNode::new(MakeCounter { made: 0 });
    assert_eq!(p.simulators.len(), 1);
    p.create_node(NodeId::from_index(1));
    p.create_node(NodeId::from_index(2));
    assert_eq!(p.simulators.len(), 3);
    assert_eq!(p.index(NodeId::from_index(1)).made, 2);
    p.stop_node(NodeId::from_index(1));
    p.start_node(NodeId::from_index(1));
    p.stop_node(NodeId::from_index(2));
    assert_eq!(*p.index(NodeId::from_index(1)), Counter { made: 2, stops: 1, starts: 1 });
    assert_eq!(*p.index(NodeId::from_index(2)), Counter { made: 3, stops: 1, starts: 0 });
    assert_eq!(*p.index(NodeId::from_index(0)), Counter { made: 1, stops: 0, starts: 0 });
    let old = p.replace(NodeId::from_index(0), Counter { made: 9, stops: 0, starts: 0 });
    assert_eq!(old.made, 1);
    assert_eq!(p.index(NodeId::from_index(0)).made, 9);
}

#[test]
fn tcp_reads_copy_and_keep_the_rest() {
    let mut out = [0u8; 4];
    let (n, rest) = copy_from_recv_buffer(b"hello".to_vec(), &mut out, true);
    assert_eq!(n, 4);
    assert_eq!(&out, b"hell");
    assert_eq!(rest, Some(b"o".to_vec()));
    let mut out2 = [0u8; 8];
    let (n2, rest2) = copy_from_recv_buffer(b"hi".to_vec(), &mut out2, true);
    assert_eq!(n2, 2);
    assert_eq!(&out2[..2], b"hi");
    assert_eq!(rest2, None);
    let (n3, rest3) = copy_from_recv_buffer(b"hi".to_vec(), &mut out2, false);
    assert_eq!(n3, 2);
    assert_eq!(rest3, Some(b"hi".to_vec()));
}

#[test]
fn rpc_responses_complete_their_requests() {
    let mut r = Responders::new();
    r.register(Id { value: 1 });
    r.register(Id { value: 2 });
    r.register(Id { value: 1 });
    assert!(r.is_pending(Id { value: 1 }));
    r.complete(Id { value: 1 });
    assert!(!r.is_pending(Id { value: 1 }));
    r.register(Id { value: 3 });
    assert_eq!(r.fail_all(), vec![Id { value: 2 }, Id { value: 3 }]);
    assert!(!r.is_pending(Id { value: 2 }));
}
