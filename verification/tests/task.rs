use pool_of_threads::Task;
use std::sync::atomic::{AtomicUsize, Ordering};
use std::sync::Arc;

#[test]
fn runs_closure() {
    let task = Task::new(|| println!("task executed"));
    task.run();
}

#[test]
fn captures_owned_data() {
    let data = vec![1, 2, 3];
    let task = Task::new(move || {
        assert_eq!(data.len(), 3);
        drop(data);
    });
    task.run();
}

#[test]
fn run_executes_the_closure_exactly_once() {
    let counter = Arc::new(AtomicUsize::new(0));
    let c = counter.clone();
    let task = Task::new(move || {
        c.fetch_add(1, Ordering::SeqCst);
    });
    assert_eq!(counter.load(Ordering::SeqCst), 0);
    task.run();
    assert_eq!(counter.load(Ordering::SeqCst), 1);
}

#[test]
fn tasks_of_different_closure_types_share_one_type() {
    let counter = Arc::new(AtomicUsize::new(0));
    let a = counter.clone();
    let b = counter.clone();
    let buf = vec![0u8; 16];
    let tasks: Vec<Task> = vec![
        Task::new(move || {
            a.fetch_add(1, Ordering::SeqCst);
        }),
        Task::new(move || {
            b.fetch_add(buf.len(), Ordering::SeqCst);
        }),
    ];
    for t in tasks {
        t.run();
    }
    assert_eq!(counter.load(Ordering::SeqCst), 17);
}
