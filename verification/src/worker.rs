//! The one worker process: whether a handle on it is held, and how
//! starting, stopping and replacing change that, given what the operating
//! system answered.

use vstd::prelude::*;

verus! {

/// What went wrong with the worker process.
#[derive(Debug, Clone, Copy, PartialEq, Eq, Structural)]
pub enum WorkerError {
    /// The executable could not be started.
    Launch,
    /// The operating system refused to end the process.
    Termination,
    /// The old process could not be ended, and the new one could not be started.
    TerminationAndLaunch,
}

/// The slot of the worker process. It holds one handle or none.
#[derive(Debug)]
pub struct WorkerController {
    held: bool,
}

/// Starting: a launched process takes the slot, whatever was in it; one
/// that could not be launched leaves the slot as it was.
pub open spec fn started(held: bool, launched: bool) -> (bool, Result<(), WorkerError>) {
    if launched {
        (true, Ok(()))
    } else {
        (held, Err(WorkerError::Launch))
    }
}

/// Stopping: nothing to do with an empty slot; else the slot is empty once
/// the process was ended, and unchanged where that was refused.
pub open spec fn stopped(held: bool, ended: bool) -> (bool, Result<(), WorkerError>) {
    if !held {
        (false, Ok(()))
    } else if ended {
        (false, Ok(()))
    } else {
        (true, Err(WorkerError::Termination))
    }
}

/// Replacing: stop, then start even where stopping failed; a failure of
/// either is reported.
pub open spec fn replaced(held: bool, ended: bool, launched: bool) -> (
    bool,
    Result<(), WorkerError>,
) {
    let (after_stop, stop) = stopped(held, ended);
    let (after_start, start) = started(after_stop, launched);
    (
        after_start,
        if stop is Err && start is Err {
            Err(WorkerError::TerminationAndLaunch)
        } else if stop is Err {
            stop
        } else {
            start
        },
    )
}

/// The number of process handles in a slot.
pub open spec fn handles(held: bool) -> nat {
    if held {
        1
    } else {
        0
    }
}

impl View for WorkerController {
    type V = bool;

    closed spec fn view(&self) -> bool {
        self.held
    }
}

impl WorkerController {
    /// An empty slot.
    pub fn new() -> (slot: Self)
        ensures
            !slot@,
    {
        WorkerController { held: false }
    }

    /// Whether a handle is held: whether stopping or replacing has a
    /// process to end.
    pub fn holds_worker(&self) -> (held: bool)
        ensures
            held == self@,
    {
        self.held
    }

    /// Records a start: `launched` says whether the executable came up.
    pub fn start(&mut self, launched: bool) -> (r: Result<(), WorkerError>)
        ensures
            (final(self)@, r) == started(old(self)@, launched),
            handles(final(self)@) <= 1,
    {
        if launched {
            self.held = true;
            Ok(())
        } else {
            Err(WorkerError::Launch)
        }
    }

    /// Records a stop: `ended` says whether the process, if there was one,
    /// could be ended. With an empty slot nothing was asked and nothing
    /// changes.
    pub fn stop(&mut self, ended: bool) -> (r: Result<(), WorkerError>)
        ensures
            (final(self)@, r) == stopped(old(self)@, ended),
            handles(final(self)@) <= 1,
    {
        if !self.held || ended {
            self.held = false;
            Ok(())
        } else {
            Err(WorkerError::Termination)
        }
    }

    /// Records a replacement: the old process, if any, was asked to end,
    /// and the new one was started whether or not that worked.
    pub fn replace(&mut self, ended: bool, launched: bool) -> (r: Result<(), WorkerError>)
        ensures
            (final(self)@, r) == replaced(old(self)@, ended, launched),
            handles(final(self)@) <= 1,
    {
        let stop = self.stop(ended);
        let start = self.start(launched);
        match (stop, start) {
            (Err(_), Err(_)) => Err(WorkerError::TerminationAndLaunch),
            (Err(e), Ok(_)) => Err(e),
            (Ok(_), r) => r,
        }
    }
}

/// A stop that follows a stop which did not fail changes nothing and does
/// not fail, whatever the operating system would answer.
pub proof fn lemma_stop_twice(held: bool, first: bool, second: bool)
    requires
        stopped(held, first).1 is Ok,
    ensures
        stopped(stopped(held, first).0, second) == (stopped(held, first).0, Ok::<(), WorkerError>(())),
        !stopped(held, first).0,
{
}

/// Whatever is done to the slot and whatever the operating system
/// answers, the slot holds one handle or none.
pub proof fn lemma_one_handle(held: bool, ended: bool, launched: bool)
    ensures
        handles(started(held, launched).0) <= 1,
        handles(stopped(held, ended).0) <= 1,
        handles(replaced(held, ended, launched).0) <= 1,
{
}

} // verus!
