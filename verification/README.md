# curvine-nfs

The logic of an NFSv4.1 gateway in front of a distributed storage, written in Rust and verified
with Verus: the wire format of requests and replies, sessions and leases, open files, locks and
delegations, the grace period after a restart, and what each operation of a compound request
decides.

- `src/` is the library. It does no I/O. Where an operation needs the storage, it hands out a
  request (`storage::Request`) and goes on when it is given the reply.
- `tests/` runs it, among others against a storage in memory.
- `app/` is the network side: sockets, timers, the environment, and the files in which state is
  kept over a restart.

A few modules to begin with: `wire` takes messages apart, `request` runs compound requests,
`handlers` leads from an operation to its module (`op_open`, `op_data`, `op_lock`, ...), and
`storage` turns calls of the file system into requests to the storage.
