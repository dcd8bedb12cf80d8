# busy-nas

Single-writer handoff for unfinished work between a NAS and one local checkout,
with its protocol verified by Verus.

- `src/` is the verified library. `service.rs` holds the commands (`get`, `put`,
  `discard`, `reclaim`, `status`) as state machines: the service asks for one
  effect at a time (a look at the local disk, a command on the NAS, a lease record
  to read or write), the caller performs it and hands back what happened.
  `laws.rs` states and proves what the protocol guarantees for every input: who may
  write a lease, that `put` snapshots before it uploads and verifies before it
  removes the checkout, that `discard` leaves the NAS source alone, and more.
  The other modules hold the configuration rules, project names, lease documents,
  path and text arithmetic, command lines, the mount-table check and the status
  table, each with its contract.
- `app/` is the program: the command line, the configuration file, the local
  lease records, child processes, and the loop that performs the service's effects.
- `tests/` drive the library, among them the service against an in-memory NAS.
