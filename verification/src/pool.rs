//! The pool: a fixed set of workers, the queue that feeds them, and the
//! bookkeeping of an orderly shutdown.
//!
//! The pool itself never blocks and never runs a job. It is the shared state
//! that submitters and workers consult, one at a time: a worker asks it for
//! its next job, runs the job elsewhere, and reports back.

use crate::model::{
    lemma_close_inv, lemma_finish_inv, lemma_init_inv, lemma_join_inv, lemma_submit_inv,
    lemma_take_inv, PoolState,
};
use crate::queue::{JobQueue, Take};
use crate::worker::{Worker, WorkerState};
use vstd::prelude::*;

verus! {

/// Why a pool could not be created.
#[derive(Clone, Copy, PartialEq, Eq, Debug, Structural)]
pub enum PoolCreationError {
    /// A pool cannot usefully exist with zero workers.
    NoWorkers,
}

/// A pool of a fixed, non-zero number of workers that share one job queue.
pub struct ThreadPool<J> {
    workers: Vec<Worker>,
    queue: JobQueue<J>,
    joined: usize,
    holding: Ghost<Seq<Option<J>>>,
    submitted: Ghost<Seq<J>>,
    dispatched: Ghost<Seq<J>>,
    completed: Ghost<Seq<J>>,
    rounds: Ghost<Seq<Seq<int>>>,
}

impl<J> View for ThreadPool<J> {
    type V = PoolState<J>;

    closed spec fn view(&self) -> PoolState<J> {
        PoolState {
            workers: self.workers@.map_values(|worker: Worker| worker.state()),
            holding: self.holding@,
            queue: self.queue@.items,
            closed: self.queue@.closed,
            joined: self.joined as nat,
            submitted: self.submitted@,
            dispatched: self.dispatched@,
            completed: self.completed@,
            rounds: self.rounds@,
        }
    }
}

impl<J> ThreadPool<J> {
    /// Workers are numbered in construction order, from zero.
    pub closed spec fn numbered(&self) -> bool {
        forall|i: int| 0 <= i < self.workers@.len() ==> (#[trigger] self.workers@[i]).id() == i
    }

    /// A pool is well formed when its state satisfies the pool invariant and
    /// its workers are numbered in construction order.
    pub open spec fn wf(&self) -> bool {
        self@.inv() && self.numbered()
    }

    /// Creates a pool of `n_threads` workers, all waiting, with an empty open
    /// queue.
    pub fn new(n_threads: usize) -> (pool: ThreadPool<J>)
        requires
            n_threads > 0,
        ensures
            pool.wf(),
            pool@ == PoolState::<J>::init(n_threads as nat),
            pool@.size() == n_threads,
            forall|id: int| 0 <= id < n_threads ==> #[trigger] pool@.workers[id].is_running(),
    {
        let mut workers: Vec<Worker> = Vec::new();
        let mut id: usize = 0;
        while id < n_threads
            invariant
                id <= n_threads,
                workers@.len() == id,
                forall|i: int|
                    0 <= i < id ==> (#[trigger] workers@[i]).id() == i && workers@[i].state()
                        == WorkerState::Waiting,
            decreases n_threads - id,
        {
            workers.push(Worker::new(id));
            id = id + 1;
        }
        let pool = ThreadPool {
            workers,
            queue: JobQueue::new(),
            joined: 0,
            holding: Ghost(Seq::new(n_threads as nat, |i: int| None)),
            submitted: Ghost(Seq::empty()),
            dispatched: Ghost(Seq::empty()),
            completed: Ghost(Seq::empty()),
            rounds: Ghost(Seq::new(n_threads as nat, |i: int| Seq::empty())),
        };
        proof {
            assert(pool@.workers =~= PoolState::<J>::init(n_threads as nat).workers);
            lemma_init_inv::<J>(n_threads as nat);
        }
        pool
    }

    /// Creates a pool of `n_threads` workers, or reports that none were asked
    /// for.
    pub fn build(n_threads: usize) -> (outcome: Result<ThreadPool<J>, PoolCreationError>)
        ensures
            n_threads == 0 ==> outcome == Err::<ThreadPool<J>, PoolCreationError>(
                PoolCreationError::NoWorkers,
            ),
            n_threads > 0 ==> outcome is Ok && outcome->Ok_0.wf() && outcome->Ok_0@
                == PoolState::<J>::init(n_threads as nat) && outcome->Ok_0@.size() == n_threads,
    {
        if n_threads == 0 {
            Err(PoolCreationError::NoWorkers)
        } else {
            Ok(ThreadPool::new(n_threads))
        }
    }

    /// Submits `job`: it joins the queue behind every job already waiting.
    /// The pool must not have been shut down.
    pub fn execute(&mut self, job: J)
        requires
            old(self).wf(),
            old(self)@.can_submit(),
        ensures
            final(self).wf(),
            final(self)@ == old(self)@.submit(job),
    {
        let outcome = self.queue.submit(job);
        self.submitted = Ghost(self.submitted@.push(job));
        proof {
            assert(outcome is Ok);
            assert(self.workers@ == old(self).workers@);
            lemma_submit_inv(old(self)@, job);
        }
    }

    /// Worker `id`, which must be waiting, tries to take its next job. It
    /// gets the oldest queued job, if there is one, and is then executing it.
    /// With nothing queued it learns whether to wait or, the pool having been
    /// shut down, to stop: it is then terminated.
    pub fn take(&mut self, id: usize) -> (taken: Take<J>)
        requires
            old(self).wf(),
            old(self)@.can_take(id as int),
        ensures
            final(self).wf(),
            final(self)@ == old(self)@.take(id as int),
            taken == old(self)@.taken(),
    {
        let taken = self.queue.take();
        self.workers[id].on_take(&taken);
        proof {
            if taken is Job {
                self.holding@ = self.holding@.update(id as int, Some(taken->Job_0));
                self.rounds@ = self.rounds@.update(
                    id as int,
                    self.rounds@[id as int].push(self.dispatched@.len() as int),
                );
                self.dispatched@ = self.dispatched@.push(taken->Job_0);
            }
            assert(self@.workers =~= old(self)@.take(id as int).workers);
            lemma_take_inv(old(self)@, id as int);
        }
        taken
    }

    /// Worker `id`, which must be executing, reports that its job has run to
    /// completion. It is waiting again.
    pub fn finish(&mut self, id: usize)
        requires
            old(self).wf(),
            old(self)@.can_finish(id as int),
        ensures
            final(self).wf(),
            final(self)@ == old(self)@.finish(id as int),
    {
        self.workers[id].on_done();
        proof {
            self.completed@ = self.completed@.push(self.holding@[id as int]->0);
            self.holding@ = self.holding@.update(id as int, None);
            assert(self@.workers =~= old(self)@.finish(id as int).workers);
            lemma_finish_inv(old(self)@, id as int);
        }
    }

    /// Begins the shutdown: closes the producer side of the queue. Jobs
    /// already queued stay queued; workers see end-of-stream once the queue
    /// has drained.
    pub fn shutdown(&mut self)
        requires
            old(self).wf(),
        ensures
            final(self).wf(),
            final(self)@ == old(self)@.close(),
    {
        self.queue.close();
        proof {
            lemma_close_inv(old(self)@);
        }
    }

    /// The worker whose termination the owner has to wait for next: workers
    /// are joined in construction order.
    pub fn next_to_join(&self) -> (next: Option<usize>)
        requires
            self.wf(),
        ensures
            next == if self@.disposed() {
                None
            } else {
                Some(self@.joined as usize)
            },
    {
        if self.joined < self.workers.len() {
            Some(self.joined)
        } else {
            None
        }
    }

    /// Records that the next worker in construction order, which must have
    /// terminated, has been joined.
    pub fn join(&mut self)
        requires
            old(self).wf(),
            old(self)@.can_join(),
        ensures
            final(self).wf(),
            final(self)@ == old(self)@.join(),
    {
        assert(self.joined < self.workers.len()) by {
            assert(self@.workers.len() == self.workers@.len());
        }
        self.joined = self.joined + 1;
        proof {
            lemma_join_inv(old(self)@);
        }
    }

    /// The number of workers, fixed at construction.
    pub fn size(&self) -> (size: usize)
        requires
            self.wf(),
        ensures
            size == self@.size(),
            size > 0,
    {
        self.workers.len()
    }

    /// The worker with identifier `id`.
    pub fn worker(&self, id: usize) -> (worker: &Worker)
        requires
            self.wf(),
            id < self@.size(),
        ensures
            worker.id() == id,
            worker.state() == self@.workers[id as int],
    {
        &self.workers[id]
    }

    /// The state of the worker with identifier `id`.
    pub fn worker_state(&self, id: usize) -> (state: WorkerState)
        requires
            id < self@.size(),
        ensures
            state == self@.workers[id as int],
    {
        self.workers[id].state()
    }

    /// The number of jobs waiting in the queue.
    pub fn pending(&self) -> (pending: usize)
        ensures
            pending == self@.queue.len(),
    {
        self.queue.len()
    }

    /// Whether the shutdown has begun.
    pub fn is_shut_down(&self) -> (closed: bool)
        ensures
            closed == self@.closed,
    {
        self.queue.is_closed()
    }

    /// Whether every worker has been joined.
    pub fn is_disposed(&self) -> (disposed: bool)
        requires
            self.wf(),
        ensures
            disposed == self@.disposed(),
    {
        self.joined == self.workers.len()
    }
}

} // verus!
