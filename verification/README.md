# twizzler_poller

A poller for Twizzler: threads register waitable objects with it, and one of
them waits until the kernel finds some of the objects ready.

- `src/` is the verified library.
  - `slots.rs` is the mathematical model: a sequence of slots, one for each
    direction of an object that is waited for, and what each operation makes of it.
  - `wps.rs` keeps the slots in a hash map and two vectors, and turns what was
    found ready into events.
  - `notify.rs` and `signals.rs` hold the notification word and the signals
    between the threads that share a poller, one step at a time.
  - `poller.rs` puts the two together.
  - `ids.rs` and `hash_key.rs` give out the keys of objects and of their directions.
  - `event.rs` and `error.rs` hold what is reported.
  - `laws.rs` proves what holds of a poller as a whole. The laws of the keys and
    of the signals stand beside them.
- `tests/` runs the library.
- `app/` is the poller as threads share it: locks, the condition variable, the
  clock and the calls into the kernel.

The library does not know the kernel's wait commands: `Wps` and `Poller` are
generic over them, and only carry them around.
