//! The job queue: an unbounded FIFO transport from submitters to workers.

use std::collections::VecDeque;
use vstd::prelude::*;

verus! {

/// What a queue holds, as a mathematical value.
pub struct QueueState<J> {
    /// The pending jobs, oldest first.
    pub items: Seq<J>,
    /// Whether the producer side has been closed.
    pub closed: bool,
}

/// The outcome of one attempt to take a job from the queue.
#[derive(Clone, PartialEq, Eq, Debug)]
pub enum Take<J> {
    /// The oldest pending job, now removed from the queue.
    Job(J),
    /// Nothing is pending and the queue is still open: the consumer has to wait.
    Empty,
    /// Nothing is pending and nothing will ever arrive again.
    EndOfStream,
}

/// An unbounded first-in first-out queue of jobs with a producer side that
/// can be closed once.
pub struct JobQueue<J> {
    items: VecDeque<J>,
    closed: bool,
}

impl<J> View for JobQueue<J> {
    type V = QueueState<J>;

    closed spec fn view(&self) -> QueueState<J> {
        QueueState { items: self.items@, closed: self.closed }
    }
}

impl<J> JobQueue<J> {
    /// An open queue with nothing pending.
    pub fn new() -> (queue: JobQueue<J>)
        ensures
            queue@.items == Seq::<J>::empty(),
            !queue@.closed,
    {
        JobQueue { items: VecDeque::new(), closed: false }
    }

    /// Appends `job` behind everything already pending. A closed queue
    /// accepts nothing and hands the job back.
    pub fn submit(&mut self, job: J) -> (outcome: Result<(), J>)
        ensures
            old(self)@.closed ==> outcome == Err::<(), J>(job) && final(self)@ == old(self)@,
            !old(self)@.closed ==> outcome == Ok::<(), J>(()) && final(self)@ == (QueueState {
                items: old(self)@.items.push(job),
                closed: false,
            }),
    {
        if self.closed {
            Err(job)
        } else {
            self.items.push_back(job);
            Ok(())
        }
    }

    /// Removes and returns the oldest pending job. With nothing pending the
    /// queue is left as it was, and the answer tells whether more can come.
    pub fn take(&mut self) -> (taken: Take<J>)
        ensures
            old(self)@.items.len() > 0 ==> taken == Take::Job(old(self)@.items[0]) && final(self)@
                == (QueueState { items: old(self)@.items.skip(1), closed: old(self)@.closed }),
            old(self)@.items.len() == 0 ==> final(self)@ == old(self)@ && taken == (if old(
                self,
            )@.closed {
                Take::<J>::EndOfStream
            } else {
                Take::<J>::Empty
            }),
    {
        match self.items.pop_front() {
            Some(job) => Take::Job(job),
            None => if self.closed {
                Take::EndOfStream
            } else {
                Take::Empty
            },
        }
    }

    /// Closes the producer side. Pending jobs stay; closing twice changes nothing.
    pub fn close(&mut self)
        ensures
            final(self)@ == (QueueState { items: old(self)@.items, closed: true }),
    {
        self.closed = true;
    }

    /// Whether the producer side has been closed.
    pub fn is_closed(&self) -> (closed: bool)
        ensures
            closed == self@.closed,
    {
        self.closed
    }

    /// The number of pending jobs.
    pub fn len(&self) -> (len: usize)
        ensures
            len == self@.items.len(),
    {
        self.items.len()
    }
}

} // verus!
