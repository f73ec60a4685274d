# refault

A deterministic simulation kernel for distributed systems, verified with Verus.

`src/` holds the decisions of a single-threaded simulation runtime, each with a
contract proved by Verus:

- `id`, `node_id`: unique ids and node numbering.
- `event`: event traces; recording and validating handlers, and the proof that
  a run passes validation exactly when it repeats the recorded trace.
- `time`: the simulated clock and its timer queue; the clock advances to the
  earliest pending deadline, and a sleep completes at its deadline.
- `executor`, `context`: task and node tables, the ready queue and the steps
  of the scheduler (spawn, wake, abort, poll outcome, stopping nodes).
- `simulator`: the registry of simulation-scoped singletons.
- `sim_builder`, `runtime`: the sequence of runs of a determinism check.
- `net`, `ip_addr`, `udp`, `tcp`, `rpc`, `node`, `send_bind`: the simulated
  network, ip address plan and port assignment, socket inboxes, request
  bookkeeping and values bound to a node or a simulation thread.

`app/` is the async runtime around the kernel: it owns the futures and
wakers, keeps the simulation in thread-local storage and runs the scheduler
loop. `tests/` drives the kernel directly.
