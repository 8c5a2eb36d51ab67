//! What holds of every pool: statements about the pool's state machine that
//! follow from its invariant.

use crate::model::{
    has_taker, held, lemma_alive_len, lemma_alive_update, lemma_held_len, lemma_held_update,
    lemma_init_inv, lemma_next_inv, lemma_run_inv, took, PoolState, Step,
};
use crate::queue::Take;
use crate::worker::WorkerState;
use vstd::multiset::Multiset;
use vstd::prelude::*;

verus! {

/// A fresh pool of `n > 0` workers has exactly `n` workers, all of them
/// running and waiting, an empty open queue and no history.
pub proof fn lemma_fresh_pool<J>(n: nat)
    requires
        n > 0,
    ensures
        PoolState::<J>::init(n).inv(),
        PoolState::<J>::init(n).size() == n,
        forall|id: int|
            0 <= id < n ==> (#[trigger] PoolState::<J>::init(n).workers[id]).is_running()
                && PoolState::<J>::init(n).can_take(id),
        PoolState::<J>::init(n).queue.len() == 0,
        PoolState::<J>::init(n).can_submit(),
{
    lemma_init_inv::<J>(n);
}

/// No job is lost and none is duplicated: every job ever submitted is, with
/// its multiplicity, in exactly one of three places. It waits in the queue,
/// or it is in the hands of a worker, or it has been completed.
pub proof fn lemma_jobs_are_conserved<J>(s: PoolState<J>)
    requires
        s.inv(),
    ensures
        s.submitted.to_multiset() == s.completed.to_multiset().add(s.running()).add(
            s.queue.to_multiset(),
        ),
        s.submitted.len() == s.completed.len() + s.running().len() + s.queue.len(),
{
    broadcast use vstd::multiset::group_multiset_axioms;

    vstd::seq_lib::lemma_multiset_commutative(s.dispatched, s.queue);
    s.submitted.to_multiset_ensures();
    s.completed.to_multiset_ensures();
    s.queue.to_multiset_ensures();
}

/// Jobs are handed to workers in the order in which they were submitted: the
/// jobs handed out so far are the oldest submitted ones, in submission order,
/// and the queue holds all the others, in submission order.
pub proof fn lemma_jobs_leave_in_submission_order<J>(s: PoolState<J>)
    requires
        s.inv(),
    ensures
        s.dispatched.len() + s.queue.len() == s.submitted.len(),
        s.dispatched == s.submitted.take(s.dispatched.len() as int),
        s.queue == s.submitted.skip(s.dispatched.len() as int),
{
    assert(s.dispatched =~= s.submitted.take(s.dispatched.len() as int));
    assert(s.queue =~= s.submitted.skip(s.dispatched.len() as int));
}

/// With a single worker, jobs complete in the order in which they were
/// submitted: the completed jobs are the oldest submitted ones, in
/// submission order.
pub proof fn lemma_single_worker_completes_in_submission_order<J>(s: PoolState<J>)
    requires
        s.inv(),
        s.size() == 1,
    ensures
        s.completed.len() <= s.submitted.len(),
        s.completed == s.submitted.take(s.completed.len() as int),
{
    assert(s.completed =~= s.submitted.take(s.completed.len() as int));
}

/// Each job that has been handed out was taken by exactly one worker, and
/// by that worker exactly once.
pub proof fn lemma_each_job_has_one_worker<J>(s: PoolState<J>, k: int)
    requires
        s.inv(),
        0 <= k < s.dispatched.len(),
    ensures
        exists|w: int, i: int| took(s.rounds, w, i, k),
        forall|w: int, i: int, v: int, j: int|
            took(s.rounds, w, i, k) && took(s.rounds, v, j, k) ==> w == v && i == j,
{
    assert(has_taker(s.rounds, k));
    assert forall|w: int, i: int, v: int, j: int|
        took(s.rounds, w, i, k) && took(s.rounds, v, j, k) implies w == v && i == j by {
        if w == v && i != j {
            if i < j {
                assert(s.rounds[w][i] < s.rounds[w][j]);
            } else {
                assert(s.rounds[w][j] < s.rounds[w][i]);
            }
        }
    }
}

/// Each worker runs its jobs in the order in which they were submitted: of
/// two jobs that a worker took, the one it took first was submitted first.
/// And the job that an executing worker holds is the last that it took.
pub proof fn lemma_each_worker_runs_in_submission_order<J>(s: PoolState<J>, w: int, i: int, j: int)
    requires
        s.inv(),
        0 <= w < s.size(),
        0 <= i < j < s.rounds[w].len(),
    ensures
        0 <= s.rounds[w][i] < s.rounds[w][j] < s.dispatched.len() <= s.submitted.len(),
        s.dispatched[s.rounds[w][i]] == s.submitted[s.rounds[w][i]],
        s.dispatched[s.rounds[w][j]] == s.submitted[s.rounds[w][j]],
        s.workers[w] == WorkerState::Executing ==> s.holding[w] == Some(
            s.submitted[s.rounds[w].last()],
        ),
{
    assert(s.rounds[w][i] < s.rounds[w][j]);
    assert(0 <= s.rounds[w][i]);
    assert(s.rounds[w][j] < s.dispatched.len());
    if s.workers[w] == WorkerState::Executing {
        assert(0 <= s.rounds[w][s.rounds[w].len() - 1] < s.dispatched.len());
    }
}

/// A worker executes at most one job at a time, so no more jobs are in
/// progress than there are workers. When as many are in progress as there
/// are workers, every worker is executing, none can take a job, and no step
/// whatever hands out another job: the next job starts only after a worker
/// has finished.
pub proof fn lemma_at_most_one_job_per_worker<J>(s: PoolState<J>)
    requires
        s.inv(),
    ensures
        s.running().len() <= s.size(),
        s.running().len() == s.size() ==> forall|id: int|
            0 <= id < s.size() ==> #[trigger] s.workers[id] == WorkerState::Executing,
        s.running().len() == s.size() ==> forall|id: int| !#[trigger] s.can_take(id),
        s.running().len() == s.size() ==> forall|step: Step<J>| #[trigger]
            s.enabled(step) ==> s.next(step).dispatched == s.dispatched,
{
    lemma_held_len(s.holding);
    if s.running().len() == s.size() {
        assert forall|id: int| 0 <= id < s.size() implies #[trigger] s.workers[id]
            == WorkerState::Executing by {
            assert(s.holding[id] is Some);
        }
        assert forall|step: Step<J>| #[trigger] s.enabled(step) implies s.next(step).dispatched
            == s.dispatched by {
            match step {
                Step::Take(id) => {
                    assert(!s.can_take(id));
                },
                _ => {},
            }
        }
    }
}

/// Disposal waits for every job: once every worker has been joined, every
/// worker has terminated, nothing is queued, nothing is in progress, and
/// the completed jobs are exactly the submitted ones.
pub proof fn lemma_disposal_follows_completion<J>(s: PoolState<J>)
    requires
        s.inv(),
        s.disposed(),
    ensures
        forall|id: int| 0 <= id < s.size() ==> #[trigger] s.workers[id] == WorkerState::Terminated,
        s.closed,
        s.queue.len() == 0,
        s.running() == Multiset::<J>::empty(),
        s.completed.to_multiset() == s.submitted.to_multiset(),
{
    broadcast use vstd::multiset::group_multiset_axioms;

    assert(s.workers[0] == WorkerState::Terminated);
    assert forall|id: int| 0 <= id < s.holding.len() implies #[trigger] s.holding[id] is None by {
        assert(s.workers[id] == WorkerState::Terminated);
    }
    lemma_held_len(s.holding);
    vstd::multiset::lemma_multiset_empty_len(held(s.holding));
    assert(s.running() =~= Multiset::<J>::empty());
    lemma_jobs_are_conserved(s);
    vstd::multiset::lemma_multiset_empty_len(s.queue.to_multiset());
    s.queue.to_multiset_ensures();
    assert(s.completed.to_multiset() =~= s.submitted.to_multiset());
}

/// Whatever a pool goes through, it stays consistent: starting from a fresh
/// pool of `n > 0` workers, after any sequence of steps that are each enabled
/// when taken, the invariant holds, and the number of workers is still `n`.
pub proof fn lemma_reachable_states_are_consistent<J>(n: nat, steps: Seq<Step<J>>)
    requires
        n > 0,
        PoolState::<J>::init(n).admits(steps),
    ensures
        PoolState::<J>::init(n).run(steps).inv(),
        PoolState::<J>::init(n).run(steps).size() == n,
    decreases steps.len(),
{
    let start = PoolState::<J>::init(n);
    lemma_init_inv::<J>(n);
    lemma_run_inv(start, steps);
    if steps.len() > 0 {
        lemma_reachable_states_are_consistent::<J>(n, steps.drop_last());
    }
}

/// The steps by which each of `jobs` is submitted and then each worker of a
/// pool of `jobs.len()` workers, in construction order, takes one.
pub open spec fn fill_steps<J>(jobs: Seq<J>) -> Seq<Step<J>> {
    Seq::new(
        2 * jobs.len(),
        |i: int|
            if i < jobs.len() {
                Step::Submit(jobs[i])
            } else {
                Step::Take(i - jobs.len())
            },
    )
}

/// The state of a pool of `jobs.len()` workers after the first `k` of the
/// steps of `fill_steps`.
proof fn lemma_fill_prefix<J>(jobs: Seq<J>, k: nat)
    requires
        jobs.len() > 0,
        k <= 2 * jobs.len(),
    ensures
        ({
            let n = jobs.len();
            let steps = fill_steps(jobs).take(k as int);
            let s = PoolState::<J>::init(n).run(steps);
            let taken = if k <= n {
                0
            } else {
                k - n
            };
            let sent = if k <= n {
                k as int
            } else {
                n as int
            };
            &&& PoolState::<J>::init(n).admits(steps)
            &&& s.workers.len() == n
            &&& s.holding.len() == n
            &&& !s.closed
            &&& s.queue == jobs.subrange(taken, sent)
            &&& forall|id: int|
                0 <= id < taken ==> #[trigger] s.workers[id] == WorkerState::Executing
                    && s.holding[id] == Some(jobs[id])
            &&& forall|id: int|
                taken <= id < n ==> #[trigger] s.workers[id] == WorkerState::Waiting
                    && s.holding[id] is None
        }),
    decreases k,
{
    let n = jobs.len();
    let start = PoolState::<J>::init(n);
    let steps = fill_steps(jobs).take(k as int);
    if k == 0 {
        assert(start.queue =~= jobs.subrange(0, 0));
    } else {
        lemma_fill_prefix(jobs, (k - 1) as nat);
        assert(steps.drop_last() =~= fill_steps(jobs).take(k - 1));
        let before = start.run(steps.drop_last());
        let after = start.run(steps);
        assert(after == before.next(steps.last()));
        if k <= n {
            assert(steps.last() == Step::Submit(jobs[k - 1]));
            assert(after.queue =~= jobs.subrange(0, k as int));
        } else {
            let id = k - 1 - n;
            assert(steps.last() == Step::<J>::Take(id));
            assert(before.queue == jobs.subrange(id, n as int));
            assert(before.workers[id] == WorkerState::Waiting);
            assert(before.taken() == Take::Job(jobs[id]));
            assert(after.queue =~= jobs.subrange(id + 1, n as int));
        }
    }
}

/// All workers can be busy at once: when as many jobs are submitted to a
/// fresh pool as it has workers, and each worker takes one, every job is in
/// progress in the hands of a worker of its own and none is left waiting.
pub proof fn lemma_all_workers_can_be_busy<J>(jobs: Seq<J>)
    requires
        jobs.len() > 0,
    ensures
        PoolState::<J>::init(jobs.len()).admits(fill_steps(jobs)),
        PoolState::<J>::init(jobs.len()).run(fill_steps(jobs)).inv(),
        PoolState::<J>::init(jobs.len()).run(fill_steps(jobs)).queue.len() == 0,
        PoolState::<J>::init(jobs.len()).run(fill_steps(jobs)).running().len() == jobs.len(),
        forall|id: int|
            0 <= id < jobs.len() ==> #[trigger] PoolState::<J>::init(jobs.len()).run(
                fill_steps(jobs),
            ).holding[id] == Some(jobs[id]),
{
    let n = jobs.len();
    let steps = fill_steps(jobs);
    lemma_fill_prefix(jobs, 2 * n);
    assert(steps.take(2 * n as int) =~= steps);
    let s = PoolState::<J>::init(n).run(steps);
    lemma_reachable_states_are_consistent::<J>(n, steps);
    assert forall|id: int| 0 <= id < n implies #[trigger] s.holding[id] == Some(jobs[id]) by {
        assert(s.workers[id] == WorkerState::Executing);
    }
    lemma_held_len(s.holding);
}

/// A shutdown never stalls: as long as a shut-down pool has a worker left to
/// join, that worker can be joined, or it can take from the queue, or it can
/// finish the job it holds.
pub proof fn lemma_shutdown_never_stalls<J>(s: PoolState<J>)
    requires
        s.inv(),
        s.closed,
        !s.disposed(),
    ensures
        s.can_join() || s.can_take(s.joined as int) || s.can_finish(s.joined as int),
{
}

/// Work gets done: every step by which a worker takes a job, finishes one or
/// stops, and every step by which a worker is joined, brings the pool
/// strictly closer to the state in which nothing remains to be done. Only a
/// worker that finds an open queue empty leaves the pool as it was.
pub proof fn lemma_work_gets_done<J>(s: PoolState<J>, step: Step<J>)
    requires
        s.inv(),
        s.enabled(step),
        step is Take || step is Finish || step is Join,
    ensures
        step is Take && s.taken() is Empty ==> s.next(step) == s,
        !(step is Take && s.taken() is Empty) ==> 0 <= s.next(step).remaining() < s.remaining(),
{
    broadcast use vstd::multiset::group_multiset_axioms;

    lemma_alive_len(s.next(step).workers);
    match step {
        Step::Take(id) => {
            match s.taken() {
                Take::Job(job) => {
                    lemma_held_update(s.holding, id, Some(job));
                    lemma_alive_update(s.workers, id, WorkerState::Executing);
                },
                Take::EndOfStream => {
                    lemma_alive_update(s.workers, id, WorkerState::Terminated);
                },
                Take::Empty => {},
            }
        },
        Step::Finish(id) => {
            lemma_held_update(s.holding, id, None);
            lemma_alive_update(s.workers, id, WorkerState::Waiting);
        },
        _ => {},
    }
}

/// A shutdown comes to an end: once the pool is shut down, nothing can be
/// submitted any more, the pool stays shut down, and every step other than
/// closing again brings the pool strictly closer to its disposal.
pub proof fn lemma_shutdown_makes_progress<J>(s: PoolState<J>, step: Step<J>)
    requires
        s.inv(),
        s.closed,
        s.enabled(step),
    ensures
        !(step is Submit),
        s.next(step).closed,
        s.next(step).submitted == s.submitted,
        step is Close ==> s.next(step) == s,
        !(step is Close) ==> 0 <= s.next(step).remaining() < s.remaining(),
{
    if !(step is Close) {
        lemma_work_gets_done(s, step);
    }
}

/// A shutdown ends: from a shut-down pool, however the workers and the
/// owner take their turns, no more steps can follow than remain to be done.
/// Together with the fact that a shutdown never stalls, the pool is disposed
/// of after that many steps at most, and all the while nothing is submitted.
pub proof fn lemma_shutdown_ends<J>(s: PoolState<J>, steps: Seq<Step<J>>)
    requires
        s.inv(),
        s.closed,
        s.admits(steps),
        forall|i: int| 0 <= i < steps.len() ==> !(#[trigger] steps[i] is Close),
    ensures
        s.run(steps).inv(),
        s.run(steps).closed,
        s.run(steps).submitted == s.submitted,
        0 <= s.run(steps).remaining(),
        s.run(steps).remaining() + steps.len() <= s.remaining(),
    decreases steps.len(),
{
    lemma_disposal_is_the_end(s);
    if steps.len() > 0 {
        let before = steps.drop_last();
        lemma_shutdown_ends(s, before);
        lemma_shutdown_makes_progress(s.run(before), steps.last());
        lemma_next_inv(s.run(before), steps.last());
    }
}

/// Queued jobs find a worker: while a job is queued no worker has
/// terminated, so each worker is executing a job or can take one, and the
/// one that takes gets the oldest queued job.
pub proof fn lemma_queued_jobs_find_a_worker<J>(s: PoolState<J>, id: int)
    requires
        s.inv(),
        s.queue.len() > 0,
        0 <= id < s.size(),
    ensures
        s.workers[id].is_running(),
        s.can_finish(id) || s.can_take(id),
        s.can_take(id) ==> s.taken() == Take::Job(s.queue[0]) && s.take(id).holding[id] == Some(
            s.queue[0],
        ) && s.take(id).workers[id] == WorkerState::Executing,
{
}

/// Nothing remains to be done exactly when the pool has been disposed of.
pub proof fn lemma_disposal_is_the_end<J>(s: PoolState<J>)
    requires
        s.inv(),
    ensures
        s.remaining() >= 0,
        s.disposed() <==> s.remaining() == 0,
{
    broadcast use vstd::multiset::group_multiset_axioms;

    lemma_alive_len(s.workers);
    if s.disposed() {
        lemma_disposal_follows_completion(s);
    }
}

/// A worker terminates only by seeing end-of-stream, and a terminated worker
/// stays terminated.
pub proof fn lemma_termination_is_final<J>(s: PoolState<J>, step: Step<J>, id: int)
    requires
        s.inv(),
        s.enabled(step),
        0 <= id < s.size(),
    ensures
        s.next(step).size() == s.size(),
        s.workers[id] == WorkerState::Terminated ==> s.next(step).workers[id]
            == WorkerState::Terminated,
        s.workers[id] != WorkerState::Terminated && s.next(step).workers[id]
            == WorkerState::Terminated ==> step == Step::<J>::Take(id) && s.taken()
            == Take::<J>::EndOfStream,
{
}

} // verus!
