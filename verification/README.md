# rust_event_engine

A multi-process event bus over shared memory, and the local event engine around it, for use
from Python.

- `src/` is the library: the byte layout of the bus, the client table, the ring of event
  slots, the publisher, subscriber and engine state machines, the handler registry and the
  dispatch of events.  Every item in it is verified with Verus.  It never touches the mapping,
  a thread or the clock: callers hand it what they observed, and carry out, in order, the
  stores and actions that it hands back.
- `src/ring_laws.rs`, `src/client_laws.rs` and `src/poll_laws.rs` hold what is true of the
  library as a whole, such as that a reader never takes a torn event for a published one.
  The laws on concurrent reads hold in a model where stores become visible in the order in
  which they are made, and the looks of a reader come in the order of its code.  Weaker memory
  orderings, which could move plain reads past atomic ones, are not modelled.
- `tests/` runs the library on concrete values.
- `app/` is the Python module: it maps the memory, performs the atomic stores, runs the
  threads and calls Python.

## How a publish travels

1. `app/` takes the write lock of the bus and reads its header into a `BusImage`.
2. `ring::write_payload_to_shmem` decides and records the stores in the image.
3. `app/` replays them on the mapping with the strength that each one asks for.
4. A subscriber's `PollLoop` notices the new number, and reads the slot through `SlotRead`,
   which drops a slot that changed during the read.
