# A resource pool, verified

A generic resource pool for asynchronous programs, written in Rust and verified with Verus.

A pool hands out resources, takes them back, and makes new ones while it has room for them. A
resource that comes back is put on a shelf, or discarded at once if it is no longer valid. One that
lay there for longer than the recycle interval is recycled before it is handed out again. Whoever
finds neither a resource nor room for a new one waits, and is served in turn.

What is checked out is always the capacity of the pool less what is on the shelf and less what can
still be created. A place is given back when its resource cannot be created or recycled, when a
computation that it was lent to loses it, and when a check-out is given up on its way.

## Layout

* `src/pool.rs`: the pool. `PoolState` is what a pool is to the contracts; `Pool::check_out` takes a
  check-out from one step to the next.
* `src/laws.rs`: what holds of a pool as a whole.
* `src/semaphore.rs`: the semaphore of `tokio-sync`, what is relied on of it, and the wait for a
  permit.
* `src/shelf.rs`: the shelf, on top of the queue of `crossbeam-queue`.
* `src/machine.rs`: state machines that are driven by polling.
* `src/librarian.rs`, `src/inbox.rs`, `src/shared.rs`: a task that puts resources on the shelf as
  they come in through a channel.
* `src/resource.rs`, `src/time.rs`: resources, those who manage them, and time.
* `app/`: the handles that programs use. They share a pool behind a lock, await what a check-out
  asks for, read the clock, and return a resource when it is dropped. Managers, resources and tasks
  are left alone while the pool is locked, so they may use the pool themselves.
