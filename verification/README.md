# tpu-client

Routes Solana transactions to the current leader and to the upcoming unique leaders.

A sender follows the current slot and the leader schedule. For each transaction it looks up the
leaders of the configured slot window and enqueues the transaction once per unique leader;
neighbouring leaders that take transactions at the same address share one copy.

## Layout

- `src/` is the library. Everything in it is verified with Verus: the leader schedule and its
  refresh (`rpc/schedule.rs`, `rpc/refresh.rs`), the slot tracker (`slot.rs`, `yellowstone_grpc/slot_tracker.rs`),
  the prediction of upcoming leaders (`yellowstone_grpc/schedule.rs`) and the sender
  (`sender.rs`, `yellowstone_grpc/sender.rs`).
- The files whose names end in `_laws.rs` state what holds of the library as a whole.
- `app/` connects the library to RPC, gRPC and the task runtime.
- `tests/` runs the library on concrete values.

## What is trusted

Calls that leave the library are marked `external_body` or `assume_specification`, each with a
doc comment that says what is claimed of it: base58 keys (`pubkey.rs`), locks (`sync.rs`), the
cells of the current slot (`slot_cells.rs`), durations (`time.rs`), byte buffers (`wire.rs`) and
the driver queue (`queue.rs`).

What a lock, an atomic, a queue or a service answers is decided by other threads: contracts speak
of an answer that a call can give, and say exactly what follows from it.

What the library itself stores, writes and hands over is recorded by the trusted calls that do it
(`put_slot`, `put_closed`, `overwrite`, `enqueue`), and nothing else reaches the cells, the lock
and the queue. Contracts state the whole record of a handle: what was done through it, in which
order, and that nothing else was. A clone of a sender is a handle with a record of its own.
