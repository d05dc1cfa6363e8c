//! The decisions of a worker thread: where to look for work, in which order
//! to visit its siblings, and when to yield, park or exit.
//!
//! A worker is a state machine. The thread that drives it performs the
//! action that [`WorkerState::step`] returns and hands the outcome back as
//! the next [`Event`].

use vstd::prelude::*;

verus! {

/// The queue in which a worker found a task.
#[derive(Clone, Copy, Debug, PartialEq, Eq, Structural)]
pub enum Source {
    /// The worker's own FIFO queue.
    Local,
    /// The shared injector queue, from which a batch was moved to the local queue.
    Injector,
    /// The local queue of the sibling with this index.
    Sibling(usize),
}

/// What one search through the queues came back with.
#[derive(Clone, Copy, Debug, PartialEq, Eq, Structural)]
pub enum SearchOutcome {
    /// A task was taken from the given queue.
    Task(Source),
    /// A steal lost a race with another thread and should be tried again.
    Retry,
    /// Every queue that was looked at was empty.
    Nothing,
}

/// What the driving thread reports after performing an [`Action`].
#[derive(Clone, Copy, Debug, PartialEq, Eq, Structural)]
pub enum Event {
    /// The worker starts, or the previous action (run, yield, park) finished.
    Begin,
    /// The result of a search.
    Searched(SearchOutcome),
    /// The value of the shutdown flag.
    Shutdown(bool),
    /// Whether the injector and every local queue were found empty.
    Drained(bool),
    /// With the parking lock held: whether all queues were found empty, and
    /// the value of the shutdown flag.
    Idle { queues_empty: bool, shutdown: bool },
}

/// What the driving thread must do next.
#[derive(Clone, Copy, Debug, PartialEq, Eq, Structural)]
pub enum Action {
    /// Look for a task: the local queue, then the injector, then the
    /// siblings in the order that [`victims`] gives for this start.
    Search { start: usize },
    /// Run the task that the search found.
    RunTask,
    /// Wake every parked worker, then run the task that the search found.
    WakeAllAndRunTask,
    /// Read the shutdown flag.
    ReadShutdown,
    /// Check whether the injector and every local queue are empty.
    CheckDrained,
    /// Give up the processor, then begin a new round.
    Yield,
    /// Take the parking lock and check whether the worker may park.
    CheckIdle,
    /// Wait on the parking condition variable, releasing the lock.
    Park,
    /// Leave the loop: the pool is shut down and all work is done.
    Exit,
}

/// Where a worker stands in its loop.
#[derive(Clone, Copy, Debug, PartialEq, Eq, Structural)]
pub enum Phase {
    /// At the top of the loop: the next event begins a new round.
    Ready,
    /// A search is under way.
    Searching,
    /// The shutdown flag is being read.
    ReadingShutdown,
    /// Shutdown was seen; the queues are being checked for leftover work.
    CheckingDrained,
    /// No shutdown; the worker checks under the lock whether to park.
    CheckingIdle,
    /// The worker has exited.
    Finished,
}

/// The state of one worker of a pool of `workers` threads.
#[derive(Clone, Copy, Debug, PartialEq, Eq, Structural)]
pub struct WorkerState {
    /// The worker's index among its siblings.
    pub id: usize,
    /// The number of workers in the pool.
    pub workers: usize,
    /// The sibling at which the round-robin scan of the current round starts.
    pub steal_start: usize,
    /// Where the worker stands in its loop.
    pub phase: Phase,
}

/// The sibling visited at position `offset` of a scan that starts at `start`.
pub open spec fn scan_index(workers: nat, start: nat, offset: nat) -> nat {
    (start + offset) % workers
}

/// The siblings that a scan from `start` visits among its first `count`
/// positions, in order, leaving out the worker itself.
pub open spec fn victims_prefix(workers: nat, id: nat, start: nat, count: nat) -> Seq<usize>
    decreases count,
{
    if count == 0 {
        Seq::empty()
    } else {
        let prev = victims_prefix(workers, id, start, (count - 1) as nat);
        let i = scan_index(workers, start, (count - 1) as nat);
        if i == id {
            prev
        } else {
            prev.push(i as usize)
        }
    }
}

/// The order in which worker `id` visits its siblings in a round whose
/// scan starts at `start`: `start, start + 1, ...` modulo `workers`,
/// without `id` itself.
pub open spec fn victim_order(workers: nat, id: nat, start: nat) -> Seq<usize> {
    victims_prefix(workers, id, start, workers)
}

impl WorkerState {
    /// The state is consistent: the worker and the scan start are indices of the pool.
    pub open spec fn wf(&self) -> bool {
        &&& 0 < self.workers
        &&& self.id < self.workers
        &&& self.steal_start < self.workers
    }

    /// The state that begins a new round: the scan start moves one sibling on.
    pub open spec fn advanced(self) -> WorkerState {
        WorkerState {
            steal_start: ((self.steal_start + 1) % (self.workers as int)) as usize,
            phase: Phase::Searching,
            ..self
        }
    }

    /// The event is one that the worker waits for in its phase.
    pub open spec fn expects(&self, event: Event) -> bool {
        match self.phase {
            Phase::Ready => event is Begin,
            Phase::Searching => event is Searched,
            Phase::ReadingShutdown => event is Shutdown,
            Phase::CheckingDrained => event is Drained,
            Phase::CheckingIdle => event is Idle,
            Phase::Finished => true,
        }
    }

    /// The next state and the action that it asks for, when `event` arrives.
    pub open spec fn next(self, event: Event) -> (WorkerState, Action) {
        let search = (self.advanced(), Action::Search { start: self.advanced().steal_start });
        match self.phase {
            Phase::Ready => search,
            Phase::Searching => match event {
                Event::Searched(SearchOutcome::Task(Source::Injector)) => (
                    WorkerState { phase: Phase::Ready, ..self },
                    Action::WakeAllAndRunTask,
                ),
                Event::Searched(SearchOutcome::Task(_)) => (
                    WorkerState { phase: Phase::Ready, ..self },
                    Action::RunTask,
                ),
                Event::Searched(SearchOutcome::Retry) => search,
                _ => (WorkerState { phase: Phase::ReadingShutdown, ..self }, Action::ReadShutdown),
            },
            Phase::ReadingShutdown => match event {
                Event::Shutdown(true) => (
                    WorkerState { phase: Phase::CheckingDrained, ..self },
                    Action::CheckDrained,
                ),
                _ => (WorkerState { phase: Phase::CheckingIdle, ..self }, Action::CheckIdle),
            },
            Phase::CheckingDrained => match event {
                Event::Drained(true) => (WorkerState { phase: Phase::Finished, ..self }, Action::Exit),
                _ => (WorkerState { phase: Phase::Ready, ..self }, Action::Yield),
            },
            Phase::CheckingIdle => match event {
                Event::Idle { queues_empty: true, shutdown: false } => (
                    WorkerState { phase: Phase::Ready, ..self },
                    Action::Park,
                ),
                _ => search,
            },
            Phase::Finished => (self, Action::Exit),
        }
    }

    /// A worker of a pool of `workers` threads whose round-robin scan
    /// begins at a random sibling.
    pub fn new(id: usize, workers: usize) -> (s: WorkerState)
        requires
            id < workers,
        ensures
            s.wf(),
            s.id == id,
            s.workers == workers,
            s.phase == Phase::Ready,
    {
        let start = random_below(workers);
        WorkerState { id, workers, steal_start: start, phase: Phase::Ready }
    }

    /// A worker whose scan begins at the given sibling; the first round
    /// starts its scan one sibling further on.
    pub fn with_start(id: usize, workers: usize, start: usize) -> (s: WorkerState)
        requires
            id < workers,
            start < workers,
        ensures
            s == (WorkerState { id, workers, steal_start: start, phase: Phase::Ready }),
    {
        WorkerState { id, workers, steal_start: start, phase: Phase::Ready }
    }

    /// Takes in the outcome of the previous action and returns the next one.
    pub fn step(&mut self, event: Event) -> (a: Action)
        requires
            old(self).wf(),
            old(self).expects(event),
        ensures
            final(self).wf(),
            (*final(self), a) == old(self).next(event),
    {
        match self.phase {
            Phase::Ready => self.begin_round(),
            Phase::Searching => match event {
                Event::Searched(SearchOutcome::Task(Source::Injector)) => {
                    self.phase = Phase::Ready;
                    Action::WakeAllAndRunTask
                },
                Event::Searched(SearchOutcome::Task(_)) => {
                    self.phase = Phase::Ready;
                    Action::RunTask
                },
                Event::Searched(SearchOutcome::Retry) => self.begin_round(),
                _ => {
                    self.phase = Phase::ReadingShutdown;
                    Action::ReadShutdown
                },
            },
            Phase::ReadingShutdown => match event {
                Event::Shutdown(true) => {
                    self.phase = Phase::CheckingDrained;
                    Action::CheckDrained
                },
                _ => {
                    self.phase = Phase::CheckingIdle;
                    Action::CheckIdle
                },
            },
            Phase::CheckingDrained => match event {
                Event::Drained(true) => {
                    self.phase = Phase::Finished;
                    Action::Exit
                },
                _ => {
                    self.phase = Phase::Ready;
                    Action::Yield
                },
            },
            Phase::CheckingIdle => match event {
                Event::Idle { queues_empty: true, shutdown: false } => {
                    self.phase = Phase::Ready;
                    Action::Park
                },
                _ => self.begin_round(),
            },
            Phase::Finished => Action::Exit,
        }
    }

    fn begin_round(&mut self) -> (a: Action)
        requires
            old(self).wf(),
        ensures
            *final(self) == old(self).advanced(),
            a == (Action::Search { start: old(self).advanced().steal_start }),
    {
        self.steal_start = next_start(self.steal_start, self.workers);
        self.phase = Phase::Searching;
        Action::Search { start: self.steal_start }
    }
}

/// The scan start of the round after one that started at `start`.
pub fn next_start(start: usize, workers: usize) -> (r: usize)
    requires
        start < workers,
    ensures
        r == (start + 1) % (workers as int),
        r < workers,
{
    if start + 1 == workers {
        proof {
            vstd::arithmetic::div_mod::lemma_fundamental_div_mod_converse(
                start + 1,
                workers as int,
                1,
                0,
            );
        }
        0
    } else {
        proof {
            vstd::arithmetic::div_mod::lemma_small_mod((start + 1) as nat, workers as nat);
        }
        start + 1
    }
}

/// The sibling at position `offset` of a scan that starts at `start`,
/// that is `(start + offset) % workers`, computed without overflow.
pub fn scan_at(workers: usize, start: usize, offset: usize) -> (r: usize)
    requires
        start < workers,
        offset < workers,
    ensures
        r == scan_index(workers as nat, start as nat, offset as nat),
        r < workers,
{
    if offset >= workers - start {
        let r = offset - (workers - start);
        proof {
            vstd::arithmetic::div_mod::lemma_fundamental_div_mod_converse(
                start + offset,
                workers as int,
                1,
                r as int,
            );
        }
        r
    } else {
        proof {
            vstd::arithmetic::div_mod::lemma_small_mod((start + offset) as nat, workers as nat);
        }
        start + offset
    }
}

/// The siblings that worker `id` visits in a round whose scan starts at
/// `start`, in visiting order.
pub fn victims(workers: usize, id: usize, start: usize) -> (v: Vec<usize>)
    requires
        start < workers,
    ensures
        v@ == victim_order(workers as nat, id as nat, start as nat),
{
    let mut v: Vec<usize> = Vec::new();
    let mut offset: usize = 0;
    while offset < workers
        invariant
            start < workers,
            offset <= workers,
            v@ == victims_prefix(workers as nat, id as nat, start as nat, offset as nat),
        decreases workers - offset,
    {
        let i = scan_at(workers, start, offset);
        if i != id {
            v.push(i);
        }
        offset = offset + 1;
    }
    v
}

/// A sibling index chosen at random, used as the first scan start.
///
/// Calls `rand::random_range(0..bound)`. Its documentation promises a value
/// in the range and a panic on an empty range, which `requires` rules out;
/// which value comes back is left open, as it depends on the thread's
/// random generator.
#[verifier::external_body]
fn random_below(bound: usize) -> (r: usize)
    requires
        0 < bound,
    ensures
        r < bound,
{
    rand::random_range(0..bound)
}


/// The queues that a search for worker `id` tries, in order, in a round
/// whose sibling scan starts at `start`: its own queue, then the injector,
/// then (when it has siblings) each sibling in [`victim_order`].
pub open spec fn attempt_order(workers: nat, id: nat, start: nat) -> Seq<Source> {
    seq![Source::Local, Source::Injector] + if workers > 1 {
        victim_order(workers, id, start).map_values(|i: usize| Source::Sibling(i))
    } else {
        Seq::empty()
    }
}

/// The queues that a search tries, in order: see [`attempt_order`].
pub fn attempts(workers: usize, id: usize, start: usize) -> (v: Vec<Source>)
    requires
        start < workers,
    ensures
        v@ == attempt_order(workers as nat, id as nat, start as nat),
{
    let mut v: Vec<Source> = Vec::new();
    v.push(Source::Local);
    v.push(Source::Injector);
    if workers > 1 {
        let order = victims(workers, id, start);
        let ghost head = seq![Source::Local, Source::Injector];
        let mut k: usize = 0;
        while k < order.len()
            invariant
                k <= order@.len(),
                v@ == head + order@.take(k as int).map_values(|i: usize| Source::Sibling(i)),
            decreases order.len() - k,
        {
            v.push(Source::Sibling(order[k]));
            assert(order@.take(k + 1) == order@.take(k as int).push(order@[k as int]));
            k = k + 1;
        }
        assert(order@.take(order@.len() as int) == order@);
    }
    v
}

/// Whether a set of emptiness answers says that there is no work: the
/// injector was found empty and, unless the local queues are skipped, so
/// was every local queue.
pub open spec fn all_empty_spec(injector_empty: bool, locals_empty: Seq<bool>, skip_locals: bool) -> bool {
    injector_empty && (skip_locals || forall|k: int|
        0 <= k < locals_empty.len() ==> #[trigger] locals_empty[k])
}

/// Combines the answers of the emptiness checks: see [`all_empty_spec`].
pub fn all_empty(injector_empty: bool, locals_empty: &Vec<bool>, skip_locals: bool) -> (r: bool)
    ensures
        r == all_empty_spec(injector_empty, locals_empty@, skip_locals),
{
    if !injector_empty {
        return false;
    }
    if skip_locals {
        return true;
    }
    let mut k: usize = 0;
    while k < locals_empty.len()
        invariant
            injector_empty,
            !skip_locals,
            k <= locals_empty@.len(),
            forall|j: int| 0 <= j < k ==> #[trigger] locals_empty@[j],
        decreases locals_empty.len() - k,
    {
        if !locals_empty[k] {
            assert(!locals_empty@[k as int]);
            return false;
        }
        k = k + 1;
    }
    true
}

/// Law: a search tries the worker's own queue first, then the injector,
/// then each sibling exactly once (never the worker itself), and nothing else.
pub proof fn lemma_attempt_order(workers: usize, id: usize, start: usize)
    requires
        id < workers,
        start < workers,
    ensures
        attempt_order(workers as nat, id as nat, start as nat).len() == workers + 1,
        attempt_order(workers as nat, id as nat, start as nat)[0] == Source::Local,
        attempt_order(workers as nat, id as nat, start as nat)[1] == Source::Injector,
        attempt_order(workers as nat, id as nat, start as nat).no_duplicates(),
        forall|k: int|
            2 <= k < workers + 1 ==> #[trigger] attempt_order(
                workers as nat,
                id as nat,
                start as nat,
            )[k] is Sibling,
        forall|j: usize|
            #[trigger] attempt_order(workers as nat, id as nat, start as nat).contains(
                Source::Sibling(j),
            ) <==> (j < workers && j != id),
{
    lemma_victim_order_visits_each_sibling_once(workers, id, start);
    let (w, i, s) = (workers as nat, id as nat, start as nat);
    let order = attempt_order(w, i, s);
    let head = seq![Source::Local, Source::Injector];
    if workers > 1 {
        let sib = victim_order(w, i, s).map_values(|x: usize| Source::Sibling(x));
        assert(order == head + sib);
        assert forall|a: int, b: int| 0 <= a < b < order.len() implies order[a] != order[b] by {
            if a >= 2 {
                assert(order[a] == Source::Sibling(victim_order(w, i, s)[a - 2]));
                assert(order[b] == Source::Sibling(victim_order(w, i, s)[b - 2]));
            } else if b >= 2 {
                assert(order[b] == Source::Sibling(victim_order(w, i, s)[b - 2]));
            }
        }
        assert forall|j: usize| #[trigger] order.contains(Source::Sibling(j)) <==> (j < workers
            && j != id) by {
            if order.contains(Source::Sibling(j)) {
                let k = choose|k: int| 0 <= k < order.len() && order[k] == Source::Sibling(j);
                assert(k >= 2);
                assert(victim_order(w, i, s)[k - 2] == j);
                assert(victim_order(w, i, s).contains(j));
            }
            if j < workers && j != id {
                assert(victim_order(w, i, s).contains(j));
                let k = choose|k: int|
                    0 <= k < victim_order(w, i, s).len() && victim_order(w, i, s)[k] == j;
                assert(order[k + 2] == Source::Sibling(j));
            }
        }
    } else {
        assert(order == head);
        assert forall|j: usize| #[trigger] order.contains(Source::Sibling(j)) <==> (j < workers
            && j != id) by {
            if order.contains(Source::Sibling(j)) {
                let k = choose|k: int| 0 <= k < order.len() && order[k] == Source::Sibling(j);
            }
        }
    }
}

/// The offset at which a scan from `start` reaches the worker `id` itself.
pub open spec fn self_offset(workers: nat, id: nat, start: nat) -> nat {
    if id >= start {
        (id - start) as nat
    } else {
        (id + workers - start) as nat
    }
}

proof fn lemma_scan_index(workers: nat, start: nat, offset: nat)
    requires
        start < workers,
        offset < workers,
    ensures
        scan_index(workers, start, offset) == if start + offset < workers {
            start + offset
        } else {
            (start + offset - workers) as nat
        },
{
    if start + offset < workers {
        vstd::arithmetic::div_mod::lemma_small_mod((start + offset) as nat, workers);
    } else {
        vstd::arithmetic::div_mod::lemma_fundamental_div_mod_converse(
            (start + offset) as int,
            workers as int,
            1,
            start + offset - workers,
        );
    }
}

proof fn lemma_victims_prefix(workers: nat, id: nat, start: nat, count: nat)
    requires
        workers <= usize::MAX,
        id < workers,
        start < workers,
        count <= workers,
    ensures
        victims_prefix(workers, id, start, count).no_duplicates(),
        victims_prefix(workers, id, start, count).len() == if self_offset(workers, id, start)
            < count {
            count - 1
        } else {
            count as int
        },
        forall|j: usize|
            #[trigger] victims_prefix(workers, id, start, count).contains(j) <==> (j < workers && j
                != id && exists|o: nat| o < count && scan_index(workers, start, o) == j),
    decreases count,
{
    if count > 0 {
        let c1 = (count - 1) as nat;
        lemma_victims_prefix(workers, id, start, c1);
        lemma_scan_index(workers, start, c1);
        let prev = victims_prefix(workers, id, start, c1);
        let i = scan_index(workers, start, c1);
        let cur = victims_prefix(workers, id, start, count);
        assert(i < workers);
        assert(cur == if i == id { prev } else { prev.push(i as usize) });
        assert forall|j: usize|
            #[trigger] cur.contains(j) <==> (j < workers && j != id && exists|o: nat|
                o < count && scan_index(workers, start, o) == j) by {
            if cur.contains(j) {
                if prev.contains(j) {
                    let o = choose|o: nat| o < c1 && scan_index(workers, start, o) == j;
                    assert(o < count && scan_index(workers, start, o) == j);
                } else {
                    let k = choose|k: int| 0 <= k < cur.len() && cur[k] == j;
                    assert(k == prev.len());
                    assert(j == i as usize);
                    assert(scan_index(workers, start, c1) == j);
                }
            }
            if j < workers && j != id && exists|o: nat| o < count && scan_index(workers, start, o) == j {
                let o = choose|o: nat| o < count && scan_index(workers, start, o) == j;
                if o < c1 {
                    assert(prev.contains(j));
                    let k = choose|k: int| 0 <= k < prev.len() && prev[k] == j;
                    assert(cur[k] == j);
                } else {
                    assert(i as usize == j);
                    assert(cur == prev.push(j));
                    assert(cur[prev.len() as int] == j);
                }
            }
        }
        if i != id {
            assert(!prev.contains(i as usize)) by {
                if prev.contains(i as usize) {
                    let o = choose|o: nat| o < c1 && scan_index(workers, start, o) == i as usize;
                    lemma_scan_index(workers, start, o);
                }
            }
            assert(self_offset(workers, id, start) != c1);
        } else {
            assert(self_offset(workers, id, start) == c1);
        }
    }
}

/// Law: in every round, a worker visits each of its siblings exactly once
/// and never itself, and the scan begins at the round's start (or just
/// after it, when the start is the worker itself).
pub proof fn lemma_victim_order_visits_each_sibling_once(workers: usize, id: usize, start: usize)
    requires
        id < workers,
        start < workers,
    ensures
        victim_order(workers as nat, id as nat, start as nat).len() == workers - 1,
        victim_order(workers as nat, id as nat, start as nat).no_duplicates(),
        forall|j: usize|
            #[trigger] victim_order(workers as nat, id as nat, start as nat).contains(j) <==> (j
                < workers && j != id),
        workers > 1 ==> victim_order(workers as nat, id as nat, start as nat)[0] == if start
            != id {
            start
        } else {
            ((start + 1) % (workers as int)) as usize
        },
{
    let (w, i, s) = (workers as nat, id as nat, start as nat);
    lemma_victims_prefix(w, i, s, w);
    assert(self_offset(w, i, s) < w);
    assert forall|j: usize| #[trigger]
        victim_order(w, i, s).contains(j) <==> (j < workers && j != id) by {
        if j < workers && j != id {
            let o: nat = if j >= start {
                (j - start) as nat
            } else {
                (j + workers - start) as nat
            };
            lemma_scan_index(w, s, o);
            assert(scan_index(w, s, o) == j);
        }
    }
    if workers > 1 {
        lemma_scan_index(w, s, 0);
        lemma_victims_prefix(w, i, s, 1);
        lemma_victims_prefix(w, i, s, 2);
        lemma_scan_index(w, s, 1);
        reveal_with_fuel(victims_prefix, 3);
        lemma_victims_prefix_extends(w, i, s, 2, w);
    }
}

proof fn lemma_victims_prefix_extends(workers: nat, id: nat, start: nat, small: nat, big: nat)
    requires
        small <= big,
        victims_prefix(workers, id, start, small).len() > 0,
    ensures
        victims_prefix(workers, id, start, big).len() >= victims_prefix(workers, id, start, small).len(),
        victims_prefix(workers, id, start, big)[0] == victims_prefix(workers, id, start, small)[0],
    decreases big - small,
{
    if small < big {
        lemma_victims_prefix_extends(workers, id, start, small, (big - 1) as nat);
    }
}


/// Law: a task that a search found is always run, never dropped; a task
/// taken from the injector is run only after every parked worker is woken.
pub proof fn lemma_found_task_is_run(s: WorkerState, source: Source)
    requires
        s.wf(),
        s.phase == Phase::Searching,
    ensures
        s.next(Event::Searched(SearchOutcome::Task(source))).1 == if source == Source::Injector {
            Action::WakeAllAndRunTask
        } else {
            Action::RunTask
        },
        s.next(Event::Searched(SearchOutcome::Task(source))).0 == (WorkerState {
            phase: Phase::Ready,
            ..s
        }),
{
}

/// Law: a worker exits only once it has seen the shutdown flag raised and
/// then found every queue empty; once it has exited, it stays so.
pub proof fn lemma_exit_only_when_shut_down_and_drained(s: WorkerState, e: Event)
    requires
        s.wf(),
        s.expects(e),
    ensures
        s.next(e).0.phase == Phase::CheckingDrained ==> s.phase == Phase::ReadingShutdown && e
            == Event::Shutdown(true),
        s.next(e).0.phase == Phase::Finished <==> s.next(e).1 == Action::Exit,
        s.next(e).1 == Action::Exit ==> s.phase == Phase::Finished || (s.phase
            == Phase::CheckingDrained && e == Event::Drained(true)),
        s.phase == Phase::Finished ==> s.next(e) == (s, Action::Exit),
{
}

/// Law: a worker parks only when, with the parking lock held, it found every
/// queue empty and the shutdown flag lowered; it checks that only after a
/// search found nothing and the flag read lowered.
pub proof fn lemma_park_only_when_idle(s: WorkerState, e: Event)
    requires
        s.wf(),
        s.expects(e),
    ensures
        s.next(e).1 == Action::Park ==> s.phase == Phase::CheckingIdle && e == (Event::Idle {
            queues_empty: true,
            shutdown: false,
        }),
        s.next(e).0.phase == Phase::CheckingIdle ==> s.phase == Phase::ReadingShutdown && e
            == Event::Shutdown(false),
        s.next(e).0.phase == Phase::ReadingShutdown ==> s.phase == Phase::Searching && e
            == Event::Searched(SearchOutcome::Nothing),
{
}

/// Law: every step keeps the state consistent and the worker's identity;
/// each new round moves the scan start one sibling on, modulo the number of
/// workers, and searches from there; no other step moves it.
pub proof fn lemma_rounds_advance_round_robin(s: WorkerState, e: Event)
    requires
        s.wf(),
        s.expects(e),
    ensures
        s.next(e).0.wf(),
        s.next(e).0.id == s.id,
        s.next(e).0.workers == s.workers,
        s.next(e).1 is Search ==> s.next(e).0.steal_start == (s.steal_start + 1) % (
        s.workers as int) && s.next(e).1 == (Action::Search { start: s.next(e).0.steal_start }),
        !(s.next(e).1 is Search) ==> s.next(e).0.steal_start == s.steal_start,
        s.next(e).1 is Search <==> s.next(e).0.phase == Phase::Searching,
{
}


/// Law: a search that finds nothing is followed by at most two checks (the
/// shutdown flag, then the queues) before the worker searches again, yields,
/// parks or exits.
pub proof fn lemma_checks_end_within_two_steps(s: WorkerState, e: Event)
    requires
        s.wf(),
        s.expects(e),
    ensures
        s.next(e).1 == Action::ReadShutdown ==> s.phase == Phase::Searching,
        (s.next(e).1 == Action::CheckDrained || s.next(e).1 == Action::CheckIdle) ==> s.phase
            == Phase::ReadingShutdown,
        (s.phase == Phase::CheckingDrained || s.phase == Phase::CheckingIdle) ==> (s.next(e).1
            is Search || s.next(e).1 == Action::Yield || s.next(e).1 == Action::Park || s.next(
            e).1 == Action::Exit),
{
}

/// Law: for every pool size and every worker, a round that finds nothing
/// ends as the flags say: with the shutdown flag raised, the worker checks
/// the queues next and exits once they are drained, or yields and searches
/// again from the next sibling while work is left; with the flag lowered, it
/// checks whether it is idle and parks if so, or searches again at once.
pub proof fn lemma_empty_round_ends_by_the_flags(s: WorkerState)
    requires
        s.wf(),
        s.phase == Phase::Searching,
    ensures
        s.next(Event::Searched(SearchOutcome::Nothing)).1 == Action::ReadShutdown,
        s.next(Event::Searched(SearchOutcome::Nothing)).0.next(Event::Shutdown(true)).1
            == Action::CheckDrained,
        s.next(Event::Searched(SearchOutcome::Nothing)).0.next(Event::Shutdown(true)).0.next(
            Event::Drained(true),
        ).1 == Action::Exit,
        s.next(Event::Searched(SearchOutcome::Nothing)).0.next(Event::Shutdown(true)).0.next(
            Event::Drained(true),
        ).0.phase == Phase::Finished,
        s.next(Event::Searched(SearchOutcome::Nothing)).0.next(Event::Shutdown(true)).0.next(
            Event::Drained(false),
        ).1 == Action::Yield,
        s.next(Event::Searched(SearchOutcome::Nothing)).0.next(Event::Shutdown(true)).0.next(
            Event::Drained(false),
        ).0.next(Event::Begin).1 == (Action::Search {
            start: ((s.steal_start + 1) % (s.workers as int)) as usize,
        }),
        s.next(Event::Searched(SearchOutcome::Nothing)).0.next(Event::Shutdown(false)).1
            == Action::CheckIdle,
        s.next(Event::Searched(SearchOutcome::Nothing)).0.next(Event::Shutdown(false)).0.next(
            Event::Idle { queues_empty: true, shutdown: false },
        ).1 == Action::Park,
        s.next(Event::Searched(SearchOutcome::Nothing)).0.next(Event::Shutdown(false)).0.next(
            Event::Idle { queues_empty: false, shutdown: false },
        ).1 == (Action::Search { start: ((s.steal_start + 1) % (s.workers as int)) as usize }),
        s.next(Event::Searched(SearchOutcome::Nothing)).0.next(Event::Shutdown(false)).0.next(
            Event::Idle { queues_empty: true, shutdown: true },
        ).1 == (Action::Search { start: ((s.steal_start + 1) % (s.workers as int)) as usize }),
{
}

/// Law: a worker at the top of its loop always begins a round with a search
/// from the next sibling, and a lost race always begins a new round.
pub proof fn lemma_rounds_begin_with_a_search(s: WorkerState)
    requires
        s.wf(),
    ensures
        s.phase == Phase::Ready ==> s.next(Event::Begin).1 == (Action::Search {
            start: ((s.steal_start + 1) % (s.workers as int)) as usize,
        }),
        s.phase == Phase::Searching ==> s.next(Event::Searched(SearchOutcome::Retry)).1 == (
        Action::Search { start: ((s.steal_start + 1) % (s.workers as int)) as usize }),
{
}

/// Law: the queues count as empty only when every answer says so: a "no"
/// from the injector, or from any local queue that is not skipped, at any
/// index, makes the verdict "no"; all answers "yes" make it "yes".
pub proof fn lemma_all_empty_needs_every_answer(
    injector_empty: bool,
    locals_empty: Seq<bool>,
    skip_locals: bool,
    k: int,
)
    ensures
        !injector_empty ==> !all_empty_spec(injector_empty, locals_empty, skip_locals),
        !skip_locals && 0 <= k < locals_empty.len() && !locals_empty[k] ==> !all_empty_spec(
            injector_empty,
            locals_empty,
            skip_locals,
        ),
        injector_empty && skip_locals ==> all_empty_spec(injector_empty, locals_empty, skip_locals),
        all_empty_spec(true, Seq::new(locals_empty.len(), |i: int| true), false),
{
}

/// Law: asking the local queues in two groups gives the same verdict as
/// asking them all at once.
pub proof fn lemma_all_empty_splits(injector_empty: bool, first: Seq<bool>, rest: Seq<bool>)
    ensures
        all_empty_spec(injector_empty, first + rest, false) == (all_empty_spec(
            injector_empty,
            first,
            false,
        ) && all_empty_spec(injector_empty, rest, false)),
{
    let all = first + rest;
    if all_empty_spec(injector_empty, first, false) && all_empty_spec(injector_empty, rest, false) {
        assert forall|k: int| 0 <= k < all.len() implies #[trigger] all[k] by {
            if k < first.len() {
                assert(all[k] == first[k]);
            } else {
                assert(all[k] == rest[k - first.len()]);
            }
        }
    }
    if all_empty_spec(injector_empty, all, false) {
        assert forall|k: int| 0 <= k < first.len() implies #[trigger] first[k] by {
            assert(all[k] == first[k]);
        }
        assert forall|k: int| 0 <= k < rest.len() implies #[trigger] rest[k] by {
            assert(all[k + first.len()] == rest[k]);
        }
    }
}

} // verus!
