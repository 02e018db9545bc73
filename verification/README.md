# nanorun

A small runtime for futures, written in Rust and verified with Verus.

```rust
let rt = nanorun::Runtime::with_workers(2);
let handle = rt.handle();
let join = handle.spawn(async { 21 + 21 });
assert_eq!(rt.block_on(join), Some(42));
```

## Layout

- `src/` is the library. Every function in it is verified, except for the small wrappers around
  calls of the standard library, `libc` and `windows-sys`. Those are taken on trust; each stands
  where it is used, with a comment that says what is claimed.
  - `executor/`: run queues with work stealing, the shared injector and its turn, the driver token
    and the way idle workers go to sleep, spawning.
  - `task/`: the state of a task from its birth to the delivery of its output, the join handle, the
    cooperative yield.
  - `time/`: a hierarchical timer wheel of six levels with sixty-four slots each and ticks of a
    millisecond, the timer driver, sleeping and deadlines.
  - `reactor/`: registered sources and their wakers for `epoll` and for completion ports, and a
    reactor without sources.
  - `net/`, `sys/`: the decisions around TCP operations and system calls, and the layout of socket
    addresses.
  - `runtime/`: a runtime whose workers take turns on the calling thread, with timers.
- `app/` puts worker threads, the kernel's readiness calls and TCP sockets around the library. Its
  `Runtime::new` asks the machine how many workers it runs in parallel.
- `tests/` runs the library.

## What is proved

Contracts say what each function returns and changes, as far as that does not rest on what is
behind a lock, on the clock or on a future of the caller. The modules named `laws` state what holds
over several operations, among them:

- A pick by a worker finds a task if and only if one waits anywhere, and neither loses nor doubles
  one. Of any sixty-one picks in a row, one takes from the injector if it is filled.
- Whatever the order in which workers and wakers act, at most one worker has the driver token, and
  while a task waits, some worker is awake or the driver has been woken. After a shutdown no worker
  is left asleep, whatever it was doing.
- A task is on the run queues at most once and never while it is polled, no wake is lost, and its
  output is delivered at most once.
- Over any sequence of operations on the driver, a timer fires exactly once, never early and at most
  one tick late, unless it was cancelled or lies beyond the range of the wheel. A cancelled timer
  stays silent and leaves the others as they are, and a cleared driver fires nothing.
- A sleep is ready at every poll from its deadline on, and at none before. A yield is pending once,
  and wakes the waker of that poll.
- An event fires each waiting waker once, and no waker is lost or doubled. A completed poll is
  submitted again as long as its source is wanted, and a source that was given up keeps its slot
  until its last poll has completed.
- A socket address that is laid out for the kernel is read back as it was.

Locks and futures of callers are outside of what the proofs see: nothing is known of what is behind
a lock when it is taken, nor of what a future resolves to. So `spawn` says which runtime the task
belongs to but not what becomes of it, and `block_on`, `turn`, `shut_down` and the `poll` of the
futures say little or nothing. They are thin layers over verified state machines, whose contracts
are exact.

The library builds on Linux.
