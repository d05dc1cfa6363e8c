//! The queues of a pool: one shared injector, into which new tasks are
//! pushed, and one FIFO queue per worker, from which siblings may steal.
//! The queues are those of `crossbeam::deque`; they are shared between
//! threads, so what a call finds in them depends on what the other threads
//! did meanwhile.

use crossbeam::deque::{Injector, Steal, Stealer, Worker};
use std::sync::atomic::AtomicBool;
use std::sync::atomic::Ordering;
use vstd::prelude::*;

use crate::schedule::{
    all_empty, all_empty_spec, attempt_order, attempts, victim_order, SearchOutcome, Source,
};
use crate::task::Task;

verus! {

#[verifier::external_type_specification]
#[verifier::external_body]
#[verifier::reject_recursive_types(T)]
pub struct ExInjector<T>(Injector<T>);

#[verifier::external_type_specification]
#[verifier::external_body]
#[verifier::reject_recursive_types(T)]
pub struct ExWorker<T>(Worker<T>);

#[verifier::external_type_specification]
#[verifier::external_body]
#[verifier::reject_recursive_types(T)]
pub struct ExStealer<T>(Stealer<T>);

/// The result of one attempt to take a task from a queue.
pub enum Taken {
    /// A task was taken.
    Task(Task),
    /// The attempt lost a race with another thread.
    Retry,
    /// The queue was empty.
    Empty,
}

impl Taken {
    /// The result of popping a queue that has no races to lose: a task, or
    /// an empty queue.
    pub fn from_popped(popped: Option<Task>) -> (t: Taken)
        ensures
            t == match popped {
                Some(task) => Taken::Task(task),
                None => Taken::Empty,
            },
    {
        match popped {
            Some(task) => Taken::Task(task),
            None => Taken::Empty,
        }
    }
}

/// What one attempt on the queue `source` means for a search: a task ends
/// the search with that task and its queue, a lost race ends it with
/// `Retry`, and an empty queue lets it go on to the next queue (`None`).
pub fn settle(taken: Taken, source: Source) -> (r: Option<Found>)
    ensures
        r == match taken {
            Taken::Task(task) => Some(Found::Task(task, source)),
            Taken::Retry => Some(Found::Retry),
            Taken::Empty => None::<Found>,
        },
{
    match taken {
        Taken::Task(task) => Some(Found::Task(task, source)),
        Taken::Retry => Some(Found::Retry),
        Taken::Empty => None,
    }
}

/// What a search through the queues came back with.
pub enum Found {
    /// A task, and the queue it was taken from.
    Task(Task, Source),
    /// A steal lost a race and the round should start again.
    Retry,
    /// Every queue that was looked at was empty.
    Nothing,
}

impl Found {
    /// The search outcome without the task.
    pub open spec fn outcome_spec(&self) -> SearchOutcome {
        match self {
            Found::Task(_, source) => SearchOutcome::Task(*source),
            Found::Retry => SearchOutcome::Retry,
            Found::Nothing => SearchOutcome::Nothing,
        }
    }

    /// The search outcome without the task, to hand to the worker's state machine.
    pub fn outcome(&self) -> (o: SearchOutcome)
        ensures
            o == self.outcome_spec(),
    {
        match self {
            Found::Task(_, source) => SearchOutcome::Task(*source),
            Found::Retry => SearchOutcome::Retry,
            Found::Nothing => SearchOutcome::Nothing,
        }
    }

    /// The task that was found, if any.
    pub fn into_task(self) -> (t: Option<Task>)
        ensures
            t == match self {
                Found::Task(task, _) => Some(task),
                _ => None,
            },
    {
        match self {
            Found::Task(task, _) => Some(task),
            _ => None,
        }
    }
}

/// The answers of an emptiness check over the queues, and what they add up to.
pub struct EmptinessCheck {
    /// Whether the injector looked empty.
    pub injector_empty: bool,
    /// Whether each worker's queue looked empty, by worker index.
    pub locals_empty: Vec<bool>,
    /// Whether the answers say that there is no work: see [`all_empty_spec`].
    pub all_empty: bool,
}

/// A worker's own queue, which only its thread pops from.
pub struct LocalQueue {
    queue: Worker<Task>,
    id: usize,
}

impl LocalQueue {
    /// The index of the worker that owns the queue.
    pub closed spec fn id_spec(&self) -> nat {
        self.id as nat
    }

    /// The index of the worker that owns the queue.
    pub fn id(&self) -> (i: usize)
        ensures
            i == self.id_spec(),
    {
        self.id
    }
}

/// The queues and the shutdown flag that all workers of a pool share.
pub struct Scheduler {
    injector: Injector<Task>,
    stealers: Vec<Stealer<Task>>,
    shutdown: AtomicBool,
}

impl Scheduler {
    /// The number of workers.
    pub closed spec fn workers(&self) -> nat {
        self.stealers@.len()
    }

    /// The queues of a pool of `workers` threads: an empty injector, and
    /// one empty FIFO queue per worker, the one at index `i` owned by worker `i`.
    pub fn new(workers: usize) -> (r: (Scheduler, Vec<LocalQueue>))
        requires
            0 < workers,
        ensures
            r.0.workers() == workers,
            r.1@.len() == workers,
            forall|i: int| 0 <= i < workers ==> (#[trigger] r.1@[i]).id_spec() == i,
    {
        let mut locals: Vec<LocalQueue> = Vec::new();
        let mut stealers: Vec<Stealer<Task>> = Vec::new();
        let mut i: usize = 0;
        while i < workers
            invariant
                i <= workers,
                locals@.len() == i,
                stealers@.len() == i,
                forall|k: int| 0 <= k < i ==> (#[trigger] locals@[k]).id_spec() == k,
            decreases workers - i,
        {
            let queue = new_fifo_queue();
            stealers.push(stealer_of(&queue));
            locals.push(LocalQueue { queue, id: i });
            i = i + 1;
        }
        let scheduler = Scheduler {
            injector: new_injector(),
            stealers,
            shutdown: AtomicBool::new(false),
        };
        (scheduler, locals)
    }

    /// The number of workers.
    pub fn worker_count(&self) -> (n: usize)
        ensures
            n == self.workers(),
    {
        self.stealers.len()
    }

    /// Pushes a task onto the shared injector queue.
    pub fn submit(&self, task: Task) {
        push_to_injector(&self.injector, task)
    }

    /// Raises the shutdown flag, with release ordering.
    pub fn request_shutdown(&self) {
        self.shutdown.store(true, Ordering::Release)
    }

    /// Reads the shutdown flag, with acquire ordering.
    pub fn shutdown_requested(&self) -> bool {
        self.shutdown.load(Ordering::Acquire)
    }

    /// Looks for a task for the worker that owns `local`, in a round whose
    /// sibling scan starts at `start`: it tries the queues of
    /// [`attempt_order`] one after another (its own queue, then a batch from
    /// the injector, then each sibling) until one yields a task or loses a
    /// race, as [`settle`] decides. Besides what it found, it returns the
    /// queues it tried, in order: always a prefix of [`attempt_order`], all
    /// of it when nothing was found, and ending with the queue that gave
    /// the task or lost the race.
    pub fn search(&self, local: &LocalQueue, start: usize) -> (res: (Found, Ghost<Seq<Source>>))
        requires
            local.id_spec() < self.workers(),
            start < self.workers(),
        ensures
            res.1@ == attempt_order(self.workers(), local.id_spec(), start as nat).take(
                res.1@.len() as int,
            ),
            res.1@.len() <= self.workers() + 1,
            res.0 is Nothing ==> res.1@.len() == self.workers() + 1,
            res.0 matches Found::Task(_, source) ==> res.1@.len() > 0 && source == res.1@.last(),
            res.0 is Retry ==> res.1@.len() > 0,
            res.0 matches Found::Task(_, Source::Sibling(i)) ==> victim_order(
                self.workers(),
                local.id_spec(),
                start as nat,
            ).contains(i),
            res.0 matches Found::Task(_, Source::Sibling(i)) ==> i != local.id_spec() && i
                < self.workers() && 1 < self.workers(),
    {
        let n = self.stealers.len();
        let order = attempts(n, local.id, start);
        proof {
            crate::schedule::lemma_attempt_order(n, local.id, start);
            crate::schedule::lemma_victim_order_visits_each_sibling_once(n, local.id, start);
        }
        let ghost wanted = attempt_order(n as nat, local.id as nat, start as nat);
        let ghost mut tried: Seq<Source> = Seq::empty();
        let mut k: usize = 0;
        while k < order.len()
            invariant
                n == self.stealers@.len(),
                local.id < n,
                k <= order@.len(),
                tried == wanted.take(k as int),
                order@ == wanted,
                wanted == attempt_order(n as nat, local.id as nat, start as nat),
                forall|j: usize| #[trigger] wanted.contains(Source::Sibling(j)) <==> (j < n && j
                    != local.id),
                forall|j: usize| #[trigger]
                    victim_order(n as nat, local.id as nat, start as nat).contains(j) <==> (j < n
                        && j != local.id),
                wanted.len() == n + 1,
                forall|q: int| 2 <= q < n + 1 ==> #[trigger] wanted[q] is Sibling,
            decreases order.len() - k,
        {
            let source = order[k];
            assert(wanted.contains(source));
            let taken = match source {
                Source::Local => Taken::from_popped(pop_local(&local.queue)),
                Source::Injector => steal_batch_and_pop(&self.injector, &local.queue),
                Source::Sibling(i) => steal_from(&self.stealers[i]),
            };
            proof {
                tried = tried.push(source);
                assert(tried == wanted.take(k + 1));
            }
            if let Some(found) = settle(taken, source) {
                proof {
                    assert(tried.last() == source);
                    if let Source::Sibling(i) = source {
                        assert(k >= 2);
                        assert(n > 1);
                    }
                }
                return (found, Ghost(tried));
            }
            k = k + 1;
        }
        proof {
            assert(wanted.take(wanted.len() as int) == wanted);
        }
        (Found::Nothing, Ghost(tried))
    }

    /// One answer per worker: whether that worker's queue looked empty.
    fn locals_empty(&self) -> (v: Vec<bool>)
        ensures
            v@.len() == self.workers(),
    {
        let mut v: Vec<bool> = Vec::new();
        let mut k: usize = 0;
        while k < self.stealers.len()
            invariant
                k <= self.stealers@.len(),
                v@.len() == k,
            decreases self.stealers.len() - k,
        {
            v.push(stealer_is_empty(&self.stealers[k]));
            k = k + 1;
        }
        v
    }

    /// The check before a worker exits after shutdown: asks whether the
    /// injector, then each worker's queue, looks empty, and finds work left
    /// unless every answer was yes.
    pub fn is_drained(&self) -> (r: EmptinessCheck)
        ensures
            r.locals_empty@.len() == self.workers(),
            r.all_empty == all_empty_spec(r.injector_empty, r.locals_empty@, false),
    {
        let injector_empty = injector_is_empty(&self.injector);
        let locals_empty = self.locals_empty();
        let all = all_empty(injector_empty, &locals_empty, false);
        EmptinessCheck { injector_empty, locals_empty, all_empty: all }
    }

    /// The check before a worker parks: asks whether each worker's queue
    /// looks empty (not asked when the pool has a single worker, whose own
    /// queue was just searched), then whether the injector does, and finds
    /// the pool idle only if every answer was yes.
    pub fn is_idle(&self) -> (r: EmptinessCheck)
        ensures
            r.locals_empty@.len() == if self.workers() == 1 {
                0
            } else {
                self.workers()
            },
            r.all_empty == all_empty_spec(r.injector_empty, r.locals_empty@, self.workers() == 1),
    {
        let single = self.stealers.len() == 1;
        let locals_empty = if single {
            Vec::new()
        } else {
            self.locals_empty()
        };
        let injector_empty = injector_is_empty(&self.injector);
        let all = all_empty(injector_empty, &locals_empty, single);
        EmptinessCheck { injector_empty, locals_empty, all_empty: all }
    }
}

/// Calls `crossbeam::deque::Injector::new`: an empty injector queue.
#[verifier::external_body]
fn new_injector() -> Injector<Task> {
    Injector::new()
}

/// Calls `crossbeam::deque::Worker::new_fifo`: an empty FIFO worker queue.
#[verifier::external_body]
fn new_fifo_queue() -> Worker<Task> {
    Worker::new_fifo()
}

/// Calls `crossbeam::deque::Worker::stealer`: a handle through which other
/// threads take tasks from the front of `queue`.
#[verifier::external_body]
fn stealer_of(queue: &Worker<Task>) -> Stealer<Task> {
    queue.stealer()
}

/// Calls `crossbeam::deque::Injector::push`: appends `task` to the injector.
/// Nothing is stated of the queue's contents, which other threads change.
#[verifier::external_body]
fn push_to_injector(injector: &Injector<Task>, task: Task) {
    injector.push(task)
}

/// Calls `crossbeam::deque::Worker::pop`. What comes back depends on the
/// other threads that steal from the same queue, so nothing is stated of it.
#[verifier::external_body]
fn pop_local(queue: &Worker<Task>) -> Option<Task> {
    queue.pop()
}

/// Calls `crossbeam::deque::Injector::steal_batch_and_pop`, which moves a
/// batch of tasks to `dest` and hands out one of them, and tells the three
/// outcomes apart. Which outcome comes back depends on the other threads,
/// so nothing is stated of it.
#[verifier::external_body]
fn steal_batch_and_pop(injector: &Injector<Task>, dest: &Worker<Task>) -> Taken {
    match injector.steal_batch_and_pop(dest) {
        Steal::Success(task) => Taken::Task(task),
        Steal::Retry => Taken::Retry,
        Steal::Empty => Taken::Empty,
    }
}

/// Calls `crossbeam::deque::Stealer::steal` and tells the three outcomes
/// apart. Which outcome comes back depends on the other threads, so nothing
/// is stated of it.
#[verifier::external_body]
fn steal_from(stealer: &Stealer<Task>) -> Taken {
    match stealer.steal() {
        Steal::Success(task) => Taken::Task(task),
        Steal::Retry => Taken::Retry,
        Steal::Empty => Taken::Empty,
    }
}

/// Calls `crossbeam::deque::Injector::is_empty`. The answer depends on the
/// other threads, so nothing is stated of it.
#[verifier::external_body]
fn injector_is_empty(injector: &Injector<Task>) -> bool {
    injector.is_empty()
}

/// Calls `crossbeam::deque::Stealer::is_empty`. The answer depends on the
/// other threads, so nothing is stated of it.
#[verifier::external_body]
fn stealer_is_empty(stealer: &Stealer<Task>) -> bool {
    stealer.is_empty()
}

} // verus!
