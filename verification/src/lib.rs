//! A deterministic simulation kernel for distributed systems.
//!
//! The library holds the decisions of a single-threaded simulation runtime:
//! unique id generation, node and task bookkeeping, the ready queue, simulated
//! time, event traces used to detect non-determinism, simulation-scoped
//! singletons and the simulated ip address plan. The code that owns futures,
//! wakers and thread-local storage drives these state machines from outside.
pub mod id;
pub mod node_id;
pub mod event;
pub mod time;
pub mod executor;
pub mod context;
pub mod simulator;
pub mod sim_builder;
pub mod runtime;
pub mod net;
pub mod ip_addr;
pub mod send_bind;
pub mod node;
pub mod tcp;
pub mod rpc;
pub mod udp;
