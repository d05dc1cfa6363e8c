//! A type-erased closure: the unit of work in the pool.

use vstd::prelude::*;

verus! {

/// Work that can be sent to another thread and run once.
pub trait Job: Send {
    /// The work may be run now.
    spec fn can_run(&self) -> bool;

    /// What holds once the work has run.
    spec fn finished(&self) -> bool;

    /// Runs the work, consuming it.
    fn call_once(self: Box<Self>)
        requires
            self.can_run(),
        ensures
            self.finished(),
    ;
}

impl<F: FnOnce() + Send + 'static> Job for F {
    open spec fn can_run(&self) -> bool {
        call_requires(*self, ())
    }

    open spec fn finished(&self) -> bool {
        call_ensures(*self, (), ())
    }

    fn call_once(self: Box<Self>) {
        (*self)()
    }
}

/// A type-erased closure, so that closures of different types and sizes
/// can wait in the same queue.
pub struct Task {
    f: Box<dyn Job>,
}

impl Task {
    /// Every task can be run.
    #[verifier::type_invariant]
    spec fn inv(self) -> bool {
        self.f.can_run()
    }

    /// What holds once the task's closure has run: its postcondition.
    pub closed spec fn finished(&self) -> bool {
        self.f.finished()
    }

    /// Wraps a closure into a task.
    pub fn new<F: FnOnce() + Send + 'static>(f: F) -> (t: Task)
        requires
            call_requires(f, ()),
        ensures
            t.finished() == call_ensures(f, (), ()),
    {
        Task { f: Box::new(f) }
    }

    /// Runs the stored closure, consuming the task.
    pub fn run(self)
        ensures
            self.finished(),
    {
        proof {
            use_type_invariant(&self);
        }
        self.f.call_once()
    }
}

} // verus!
