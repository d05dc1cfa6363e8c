# pool_of_threads

A work-stealing thread pool whose scheduling core is verified with Verus.

- `src/task.rs` — `Task`, a type-erased closure; running it establishes the
  closure's postcondition.
- `src/schedule.rs` — a worker's decisions as a state machine
  (`WorkerState::step`): search the local queue, then the injector, then the
  siblings round-robin from a random start; yield, park or exit once nothing
  is found. Also the laws that the machine keeps.
- `src/queues.rs` — the injector and per-worker queues of `crossbeam::deque`
  and the shutdown flag, with the search through them.
- `src/lib.rs` — `bench_cpu_work`, the deterministic benchmark workload.
- `app/` — the `ThreadPool` itself: it starts the worker threads, performs the
  actions that each worker's state machine asks for, parks workers on a
  condition variable and joins them on drop; plus a demo binary.
