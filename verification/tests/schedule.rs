use pool_of_threads::schedule::{
    all_empty, attempts, next_start, scan_at, victims, Action, Event, Phase, SearchOutcome, Source, WorkerState,
};

#[test]
fn victims_skip_self_and_wrap_around() {
    assert_eq!(victims(4, 1, 2), vec![2, 3, 0]);
    assert_eq!(victims(4, 1, 1), vec![2, 3, 0]);
    assert_eq!(victims(4, 0, 0), vec![1, 2, 3]);
    assert_eq!(victims(4, 3, 1), vec![1, 2, 0]);
}

#[test]
fn victims_of_single_worker_is_empty() {
    assert_eq!(victims(1, 0, 0), Vec::<usize>::new());
}

#[test]
fn victims_visit_every_sibling_once() {
    for n in 1..9usize {
        for id in 0..n {
            for start in 0..n {
                let mut v = victims(n, id, start);
                assert_eq!(v.len(), n - 1);
                assert!(!v.contains(&id));
                v.sort();
                let expected: Vec<usize> = (0..n).filter(|&j| j != id).collect();
                assert_eq!(v, expected);
            }
        }
    }
}

#[test]
fn scan_positions_are_modular() {
    assert_eq!(scan_at(5, 3, 0), 3);
    assert_eq!(scan_at(5, 3, 1), 4);
    assert_eq!(scan_at(5, 3, 2), 0);
    assert_eq!(scan_at(5, 3, 4), 2);
    assert_eq!(scan_at(usize::MAX, usize::MAX - 1, usize::MAX - 1), usize::MAX - 2);
}

#[test]
fn next_start_wraps() {
    assert_eq!(next_start(0, 3), 1);
    assert_eq!(next_start(2, 3), 0);
    assert_eq!(next_start(0, 1), 0);
}

#[test]
fn new_worker_starts_ready_at_a_valid_sibling() {
    for _ in 0..100 {
        let s = WorkerState::new(2, 5);
        assert_eq!(s.id, 2);
        assert_eq!(s.workers, 5);
        assert!(s.steal_start < 5);
        assert_eq!(s.phase, Phase::Ready);
    }
}

#[test]
fn worker_runs_every_found_task() {
    let mut s = WorkerState::with_start(0, 2, 0);
    assert_eq!(s.step(Event::Begin), Action::Search { start: 1 });
    assert_eq!(
        s.step(Event::Searched(SearchOutcome::Task(Source::Local))),
        Action::RunTask
    );
    assert_eq!(s.step(Event::Begin), Action::Search { start: 0 });
    assert_eq!(
        s.step(Event::Searched(SearchOutcome::Task(Source::Sibling(1)))),
        Action::RunTask
    );
    assert_eq!(s.step(Event::Begin), Action::Search { start: 1 });
    assert_eq!(
        s.step(Event::Searched(SearchOutcome::Task(Source::Injector))),
        Action::WakeAllAndRunTask
    );
    assert_eq!(s.phase, Phase::Ready);
}

#[test]
fn retry_starts_a_new_round() {
    let mut s = WorkerState::with_start(1, 4, 2);
    assert_eq!(s.step(Event::Begin), Action::Search { start: 3 });
    assert_eq!(s.step(Event::Searched(SearchOutcome::Retry)), Action::Search { start: 0 });
    assert_eq!(s.step(Event::Searched(SearchOutcome::Retry)), Action::Search { start: 1 });
    assert_eq!(s.steal_start, 1);
}

#[test]
fn idle_worker_parks_only_without_work_and_shutdown() {
    let mut s = WorkerState::with_start(1, 4, 2);
    assert_eq!(s.step(Event::Begin), Action::Search { start: 3 });
    assert_eq!(s.step(Event::Searched(SearchOutcome::Nothing)), Action::ReadShutdown);
    assert_eq!(s.step(Event::Shutdown(false)), Action::CheckIdle);
    assert_eq!(
        s.step(Event::Idle { queues_empty: true, shutdown: false }),
        Action::Park
    );
    assert_eq!(s.step(Event::Begin), Action::Search { start: 0 });
    assert_eq!(s.step(Event::Searched(SearchOutcome::Nothing)), Action::ReadShutdown);
    assert_eq!(s.step(Event::Shutdown(false)), Action::CheckIdle);
    // Work arrived between the search and the check: search again at once.
    assert_eq!(
        s.step(Event::Idle { queues_empty: false, shutdown: false }),
        Action::Search { start: 1 }
    );
    assert_eq!(s.step(Event::Searched(SearchOutcome::Nothing)), Action::ReadShutdown);
    assert_eq!(s.step(Event::Shutdown(false)), Action::CheckIdle);
    // Shutdown raised meanwhile: do not park.
    assert_eq!(
        s.step(Event::Idle { queues_empty: true, shutdown: true }),
        Action::Search { start: 2 }
    );
}

#[test]
fn worker_drains_before_exiting_after_shutdown() {
    let mut s = WorkerState::with_start(0, 3, 0);
    assert_eq!(s.step(Event::Begin), Action::Search { start: 1 });
    assert_eq!(s.step(Event::Searched(SearchOutcome::Nothing)), Action::ReadShutdown);
    assert_eq!(s.step(Event::Shutdown(true)), Action::CheckDrained);
    assert_eq!(s.step(Event::Drained(false)), Action::Yield);
    assert_eq!(s.step(Event::Begin), Action::Search { start: 2 });
    assert_eq!(
        s.step(Event::Searched(SearchOutcome::Task(Source::Sibling(2)))),
        Action::RunTask
    );
    assert_eq!(s.step(Event::Begin), Action::Search { start: 0 });
    assert_eq!(s.step(Event::Searched(SearchOutcome::Nothing)), Action::ReadShutdown);
    assert_eq!(s.step(Event::Shutdown(true)), Action::CheckDrained);
    assert_eq!(s.step(Event::Drained(true)), Action::Exit);
    assert_eq!(s.phase, Phase::Finished);
    assert_eq!(s.step(Event::Begin), Action::Exit);
    assert_eq!(s.step(Event::Drained(false)), Action::Exit);
}

#[test]
fn all_empty_combines_the_answers() {
    assert!(all_empty(true, &vec![true, true], false));
    assert!(!all_empty(true, &vec![true, false], false));
    assert!(!all_empty(false, &vec![true, true], false));
    assert!(all_empty(true, &vec![false], true));
    assert!(!all_empty(false, &vec![], true));
    assert!(all_empty(true, &vec![], false));
}

#[test]
fn attempts_try_local_then_injector_then_siblings() {
    assert_eq!(
        attempts(4, 1, 2),
        vec![Source::Local, Source::Injector, Source::Sibling(2), Source::Sibling(3), Source::Sibling(0)]
    );
    assert_eq!(attempts(1, 0, 0), vec![Source::Local, Source::Injector]);
}
