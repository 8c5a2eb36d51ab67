//! A worker: one background execution unit, seen as a state machine that
//! reacts to what the job queue hands it.

use crate::queue::Take;
use vstd::prelude::*;

verus! {

/// Where a worker stands in its life. A worker is running from its creation
/// until the queue signals end-of-stream to it; while running it either waits
/// for its next job or executes the one job it holds.
#[derive(Clone, Copy, PartialEq, Eq, Debug, Structural)]
pub enum WorkerState {
    /// Running, holding no job: about to take one, or blocked until one arrives.
    Waiting,
    /// Running, executing the one job it took.
    Executing,
    /// Stopped for good after seeing end-of-stream.
    Terminated,
}

impl WorkerState {
    /// A worker is running in every state but the terminal one.
    pub open spec fn is_running(self) -> bool {
        self != WorkerState::Terminated
    }

    /// The state in which a waiting worker finds itself after one attempt to
    /// take a job: executing if it got one, terminated at end-of-stream, still
    /// waiting otherwise.
    pub open spec fn after_take<J>(taken: Take<J>) -> WorkerState {
        match taken {
            Take::Job(_) => WorkerState::Executing,
            Take::Empty => WorkerState::Waiting,
            Take::EndOfStream => WorkerState::Terminated,
        }
    }
}

/// A worker of a pool, identified by a small integer.
pub struct Worker {
    id: usize,
    state: WorkerState,
}

impl Worker {
    /// The identifier the worker was created with.
    pub closed spec fn spec_id(&self) -> usize {
        self.id
    }

    /// The worker's current state.
    pub closed spec fn spec_state(&self) -> WorkerState {
        self.state
    }

    /// A fresh worker: running, and waiting for its first job.
    pub fn new(id: usize) -> (worker: Worker)
        ensures
            worker.id() == id,
            worker.state() == WorkerState::Waiting,
    {
        Worker { id, state: WorkerState::Waiting }
    }

    /// The identifier the worker was created with.
    #[verifier::when_used_as_spec(spec_id)]
    pub fn id(&self) -> (id: usize)
        ensures
            id == self.id(),
    {
        self.id
    }

    /// The worker's current state.
    #[verifier::when_used_as_spec(spec_state)]
    pub fn state(&self) -> (state: WorkerState)
        ensures
            state == self.state(),
    {
        self.state
    }

    /// Whether the worker has not yet terminated.
    pub fn is_running(&self) -> (running: bool)
        ensures
            running == self.state().is_running(),
    {
        match self.state {
            WorkerState::Terminated => false,
            _ => true,
        }
    }

    /// Reacts to the outcome of one attempt to take a job. Only a waiting
    /// worker takes: a worker never holds more than one job.
    pub fn on_take<J>(&mut self, taken: &Take<J>)
        requires
            old(self).state() == WorkerState::Waiting,
        ensures
            final(self).id() == old(self).id(),
            final(self).state() == WorkerState::after_take(*taken),
    {
        match taken {
            Take::Job(_) => {
                self.state = WorkerState::Executing;
            },
            Take::Empty => {},
            Take::EndOfStream => {
                self.state = WorkerState::Terminated;
            },
        }
    }

    /// Records that the job in hand has run to completion: the worker goes
    /// back to waiting.
    pub fn on_done(&mut self)
        requires
            old(self).state() == WorkerState::Executing,
        ensures
            final(self).id() == old(self).id(),
            final(self).state() == WorkerState::Waiting,
    {
        self.state = WorkerState::Waiting;
    }
}

} // verus!
