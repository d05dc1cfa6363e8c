use pool_of_threads::queues::{settle, Found, Scheduler, Taken};
use pool_of_threads::schedule::{SearchOutcome, Source};
use pool_of_threads::Task;
use std::sync::atomic::{AtomicUsize, Ordering};
use std::sync::Arc;

#[test]
fn new_scheduler_has_one_queue_per_worker() {
    let (sched, locals) = Scheduler::new(4);
    assert_eq!(sched.worker_count(), 4);
    assert_eq!(locals.len(), 4);
    for (i, l) in locals.iter().enumerate() {
        assert_eq!(l.id(), i);
    }
    assert!(sched.is_drained().all_empty);
    assert!(sched.is_idle().all_empty);
    assert!(!sched.shutdown_requested());
}

#[test]
fn shutdown_flag_is_raised_once_requested() {
    let (sched, _locals) = Scheduler::new(1);
    assert!(!sched.shutdown_requested());
    sched.request_shutdown();
    assert!(sched.shutdown_requested());
}

#[test]
fn search_on_empty_queues_finds_nothing() {
    let (sched, locals) = Scheduler::new(3);
    let (found, _) = sched.search(&locals[1], 0);
    assert_eq!(found.outcome(), SearchOutcome::Nothing);
    assert!(found.into_task().is_none());
}

#[test]
fn submitted_task_is_found_through_the_injector() {
    let (sched, locals) = Scheduler::new(2);
    let counter = Arc::new(AtomicUsize::new(0));
    let c = counter.clone();
    sched.submit(Task::new(move || {
        c.fetch_add(1, Ordering::SeqCst);
    }));
    assert!(!sched.is_drained().all_empty);
    let found = search_settled(&sched, &locals[0], 1);
    assert_eq!(found.outcome(), SearchOutcome::Task(Source::Injector));
    found.into_task().unwrap().run();
    assert_eq!(counter.load(Ordering::SeqCst), 1);
    assert!(sched.is_drained().all_empty);
}

fn search_settled(
    sched: &Scheduler,
    local: &pool_of_threads::queues::LocalQueue,
    start: usize,
) -> Found {
    loop {
        let (found, _) = sched.search(local, start);
        if found.outcome() != SearchOutcome::Retry {
            return found;
        }
    }
}

fn drain_with(sched: &Scheduler, local: &pool_of_threads::queues::LocalQueue) -> usize {
    let mut ran = 0;
    loop {
        match sched.search(local, 0).0 {
            Found::Task(t, _) => {
                t.run();
                ran += 1;
            }
            Found::Retry => {}
            Found::Nothing => return ran,
        }
    }
}

#[test]
fn single_worker_runs_every_submitted_task_once() {
    let (sched, locals) = Scheduler::new(1);
    let sum = Arc::new(AtomicUsize::new(0));
    for i in 0..100usize {
        let s = sum.clone();
        sched.submit(Task::new(move || {
            s.fetch_add(i, Ordering::SeqCst);
        }));
    }
    assert_eq!(drain_with(&sched, &locals[0]), 100);
    assert_eq!(sum.load(Ordering::SeqCst), 4950);
    assert!(sched.is_drained().all_empty);
}

#[test]
fn idle_sibling_steals_from_a_busy_worker() {
    let (sched, locals) = Scheduler::new(2);
    let counter = Arc::new(AtomicUsize::new(0));
    for _ in 0..8 {
        let c = counter.clone();
        sched.submit(Task::new(move || {
            c.fetch_add(1, Ordering::SeqCst);
        }));
    }
    // Worker 0 moves a batch into its own queue and runs one task.
    let first = search_settled(&sched, &locals[0], 1);
    assert_eq!(first.outcome(), SearchOutcome::Task(Source::Injector));
    first.into_task().unwrap().run();
    // Worker 1 takes the rest: from the injector, then from worker 0's queue.
    let mut from_sibling = 0;
    let mut ran = 1;
    loop {
        match sched.search(&locals[1], 0).0 {
            Found::Task(t, source) => {
                assert!(source == Source::Injector || source == Source::Local
                    || source == Source::Sibling(0));
                if source == Source::Sibling(0) {
                    from_sibling += 1;
                }
                t.run();
                ran += 1;
            }
            Found::Retry => {}
            Found::Nothing => break,
        }
    }
    assert_eq!(ran, 8);
    assert!(from_sibling > 0);
    assert_eq!(counter.load(Ordering::SeqCst), 8);
    assert!(sched.is_drained().all_empty);
}

#[test]
fn settle_ends_the_search_on_a_task_or_a_lost_race() {
    let found = settle(Taken::Task(Task::new(|| {})), Source::Sibling(2)).unwrap();
    assert_eq!(found.outcome(), SearchOutcome::Task(Source::Sibling(2)));
    let retry = settle(Taken::Retry, Source::Injector).unwrap();
    assert_eq!(retry.outcome(), SearchOutcome::Retry);
    assert!(settle(Taken::Empty, Source::Local).is_none());
}

#[test]
fn popped_task_or_empty_queue() {
    assert!(matches!(Taken::from_popped(None), Taken::Empty));
    assert!(matches!(Taken::from_popped(Some(Task::new(|| {}))), Taken::Task(_)));
}

#[test]
fn emptiness_checks_report_one_answer_per_queue() {
    let (sched, _locals) = Scheduler::new(3);
    let drained = sched.is_drained();
    assert!(drained.injector_empty);
    assert_eq!(drained.locals_empty, vec![true, true, true]);
    assert!(drained.all_empty);
    sched.submit(Task::new(|| {}));
    let drained = sched.is_drained();
    assert!(!drained.injector_empty);
    assert!(!drained.all_empty);
    let idle = sched.is_idle();
    assert_eq!(idle.locals_empty.len(), 3);
    assert!(!idle.all_empty);
    // Move the task into worker 2's own queue: the injector empties, but
    // the pool is neither drained nor idle.
    let (sched2, locals2) = Scheduler::new(3);
    for _ in 0..4 {
        sched2.submit(Task::new(|| {}));
    }
    let first = search_settled(&sched2, &locals2[2], 0);
    first.into_task().unwrap().run();
    let mut other = 0;
    while !sched2.is_drained().injector_empty {
        let (f, _) = sched2.search(&locals2[0], 1);
        if let Some(t) = f.into_task() {
            t.run();
            other += 1;
        }
        if other > 10 {
            break;
        }
    }
    let d = sched2.is_drained();
    if d.injector_empty && !d.locals_empty[2] {
        assert!(!d.all_empty);
        assert!(!sched2.is_idle().all_empty);
    }
}

#[test]
fn single_worker_idle_check_skips_local_queues() {
    let (sched, _locals) = Scheduler::new(1);
    let idle = sched.is_idle();
    assert!(idle.locals_empty.is_empty());
    assert!(idle.injector_empty);
    assert!(idle.all_empty);
}

#[test]
fn rest_of_a_batch_comes_from_the_own_queue() {
    let (sched, locals) = Scheduler::new(1);
    for _ in 0..4 {
        sched.submit(Task::new(|| {}));
    }
    let first = search_settled(&sched, &locals[0], 0);
    assert_eq!(first.outcome(), SearchOutcome::Task(Source::Injector));
    first.into_task().unwrap().run();
    let second = search_settled(&sched, &locals[0], 0);
    assert_eq!(second.outcome(), SearchOutcome::Task(Source::Local));
    second.into_task().unwrap().run();
}
