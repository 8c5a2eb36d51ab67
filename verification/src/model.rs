//! The pool as a mathematical state machine: its state, the steps that change
//! it, and the invariant that every step keeps.

use crate::queue::Take;
use crate::worker::WorkerState;
use vstd::multiset::Multiset;
use vstd::prelude::*;

verus! {

/// The state of a pool, together with the history of its jobs.
pub struct PoolState<J> {
    /// The state of each worker, by identifier.
    pub workers: Seq<WorkerState>,
    /// The job that each worker is executing, if any.
    pub holding: Seq<Option<J>>,
    /// The jobs waiting to be taken, oldest first.
    pub queue: Seq<J>,
    /// Whether the producer side of the queue has been closed.
    pub closed: bool,
    /// How many workers, counted from the first, have been joined.
    pub joined: nat,
    /// Every job ever submitted, in submission order.
    pub submitted: Seq<J>,
    /// Every job ever handed to a worker, in the order of the hand-over.
    pub dispatched: Seq<J>,
    /// Every job that has run to completion, in the order of completion.
    pub completed: Seq<J>,
    /// For each worker, the jobs it has taken so far, in the order in which
    /// it took them: each is given by its position in `dispatched`.
    pub rounds: Seq<Seq<int>>,
}

/// One step of a pool.
pub enum Step<J> {
    /// A caller submits a job.
    Submit(J),
    /// The worker with this identifier tries to take a job.
    Take(int),
    /// The worker with this identifier reports its job done.
    Finish(int),
    /// The owner closes the producer side.
    Close,
    /// The owner joins the next worker in construction order.
    Join,
}

/// The job in one worker's hands, as a multiset of at most one element.
pub open spec fn in_hand<J>(slot: Option<J>) -> Multiset<J> {
    match slot {
        Some(job) => Multiset::singleton(job),
        None => Multiset::empty(),
    }
}

/// The job in one worker's hands, as a sequence of at most one element.
pub open spec fn in_hand_seq<J>(slot: Option<J>) -> Seq<J> {
    match slot {
        Some(job) => seq![job],
        None => Seq::empty(),
    }
}

/// The jobs held by workers, counted with multiplicity.
pub open spec fn held<J>(holding: Seq<Option<J>>) -> Multiset<J>
    decreases holding.len(),
{
    if holding.len() == 0 {
        Multiset::empty()
    } else {
        held(holding.drop_last()).add(in_hand(holding.last()))
    }
}

/// Whether, by `rounds`, worker `w` took the job at position `k` as its
/// `i`-th job.
pub open spec fn took(rounds: Seq<Seq<int>>, w: int, i: int, k: int) -> bool {
    0 <= w < rounds.len() && 0 <= i < rounds[w].len() && rounds[w][i] == k
}

/// Whether, by `rounds`, some worker took the job at position `k`.
pub open spec fn has_taker(rounds: Seq<Seq<int>>, k: int) -> bool {
    exists|w: int, i: int| took(rounds, w, i, k)
}

/// How many of `workers` are still running.
pub open spec fn alive(workers: Seq<WorkerState>) -> nat
    decreases workers.len(),
{
    if workers.len() == 0 {
        0
    } else {
        alive(workers.drop_last()) + if workers.last().is_running() {
            1nat
        } else {
            0nat
        }
    }
}

impl<J> PoolState<J> {
    /// A fresh pool of `n` workers: all waiting, nothing queued, no history.
    pub open spec fn init(n: nat) -> PoolState<J> {
        PoolState {
            workers: Seq::new(n, |i: int| WorkerState::Waiting),
            holding: Seq::new(n, |i: int| None),
            queue: Seq::empty(),
            closed: false,
            joined: 0,
            submitted: Seq::empty(),
            dispatched: Seq::empty(),
            completed: Seq::empty(),
            rounds: Seq::new(n, |i: int| Seq::empty()),
        }
    }

    /// The number of workers.
    pub open spec fn size(self) -> nat {
        self.workers.len()
    }

    /// The jobs being executed right now, counted with multiplicity.
    pub open spec fn running(self) -> Multiset<J> {
        held(self.holding)
    }

    /// A job can be submitted as long as the producer side is open.
    pub open spec fn can_submit(self) -> bool {
        !self.closed
    }

    /// Only a waiting worker takes a job.
    pub open spec fn can_take(self, id: int) -> bool {
        0 <= id < self.workers.len() && self.workers[id] == WorkerState::Waiting
    }

    /// Only an executing worker finishes a job.
    pub open spec fn can_finish(self, id: int) -> bool {
        0 <= id < self.workers.len() && self.workers[id] == WorkerState::Executing
    }

    /// The next worker in construction order can be joined once it has
    /// terminated.
    pub open spec fn can_join(self) -> bool {
        self.joined < self.workers.len() && self.workers[self.joined as int]
            == WorkerState::Terminated
    }

    /// Disposal is over when every worker has been joined.
    pub open spec fn disposed(self) -> bool {
        self.joined == self.workers.len()
    }

    /// An upper bound on the number of steps, other than submitting and
    /// closing, that the pool can still take: two for each queued job (to be
    /// taken and finished), one for each job in progress (to be finished),
    /// one for each running worker (to see end-of-stream) and one for each
    /// worker not yet joined.
    pub open spec fn remaining(self) -> int {
        2 * self.queue.len() + self.running().len() + alive(self.workers) + (self.workers.len()
            - self.joined)
    }

    /// The pool after `job` was submitted: it is the youngest in the queue.
    pub open spec fn submit(self, job: J) -> PoolState<J> {
        PoolState {
            queue: self.queue.push(job),
            submitted: self.submitted.push(job),
            ..self
        }
    }

    /// What an attempt to take a job finds: the oldest queued job, or the
    /// reason why there is none.
    pub open spec fn taken(self) -> Take<J> {
        if self.queue.len() > 0 {
            Take::Job(self.queue[0])
        } else if self.closed {
            Take::EndOfStream
        } else {
            Take::Empty
        }
    }

    /// The pool after worker `id` tried to take a job. The oldest queued job,
    /// if there is one, moves from the queue to that worker; at end-of-stream
    /// the worker terminates; otherwise nothing changes.
    pub open spec fn take(self, id: int) -> PoolState<J> {
        match self.taken() {
            Take::Job(job) => PoolState {
                workers: self.workers.update(id, WorkerState::Executing),
                holding: self.holding.update(id, Some(job)),
                queue: self.queue.skip(1),
                dispatched: self.dispatched.push(job),
                rounds: self.rounds.update(id, self.rounds[id].push(self.dispatched.len() as int)),
                ..self
            },
            Take::EndOfStream => PoolState {
                workers: self.workers.update(id, WorkerState::Terminated),
                ..self
            },
            Take::Empty => self,
        }
    }

    /// The pool after worker `id` completed the job it held.
    pub open spec fn finish(self, id: int) -> PoolState<J> {
        PoolState {
            workers: self.workers.update(id, WorkerState::Waiting),
            holding: self.holding.update(id, None),
            completed: self.completed.push(self.holding[id]->0),
            ..self
        }
    }

    /// The pool after its producer side was closed.
    pub open spec fn close(self) -> PoolState<J> {
        PoolState { closed: true, ..self }
    }

    /// The pool after one more worker was joined.
    pub open spec fn join(self) -> PoolState<J> {
        PoolState { joined: self.joined + 1, ..self }
    }

    /// Whether `step` may be taken in this state.
    pub open spec fn enabled(self, step: Step<J>) -> bool {
        match step {
            Step::Submit(_) => self.can_submit(),
            Step::Take(id) => self.can_take(id),
            Step::Finish(id) => self.can_finish(id),
            Step::Close => true,
            Step::Join => self.can_join(),
        }
    }

    /// The state after `step`.
    pub open spec fn next(self, step: Step<J>) -> PoolState<J> {
        match step {
            Step::Submit(job) => self.submit(job),
            Step::Take(id) => self.take(id),
            Step::Finish(id) => self.finish(id),
            Step::Close => self.close(),
            Step::Join => self.join(),
        }
    }

    /// The state after `steps`, taken one after the other.
    pub open spec fn run(self, steps: Seq<Step<J>>) -> PoolState<J>
        decreases steps.len(),
    {
        if steps.len() == 0 {
            self
        } else {
            self.run(steps.drop_last()).next(steps.last())
        }
    }

    /// Whether each of `steps` may be taken in the state that the steps
    /// before it lead to.
    pub open spec fn admits(self, steps: Seq<Step<J>>) -> bool
        decreases steps.len(),
    {
        steps.len() > 0 ==> self.admits(steps.drop_last()) && self.run(steps.drop_last()).enabled(
            steps.last(),
        )
    }

    /// The workers and the queue fit together: there is at least one worker;
    /// a worker holds a job exactly while it is executing; a worker has
    /// terminated only if the pool is shut down and the queue has drained;
    /// and the workers joined so far have terminated.
    pub open spec fn shaped(self) -> bool {
        &&& self.workers.len() > 0
        &&& self.holding.len() == self.workers.len()
        &&& forall|i: int|
            0 <= i < self.workers.len() ==> (#[trigger] self.workers[i] == WorkerState::Executing
                <==> self.holding[i] is Some)
        &&& forall|i: int|
            0 <= i < self.workers.len() && #[trigger] self.workers[i] == WorkerState::Terminated
                ==> self.closed && self.queue.len() == 0
        &&& self.joined <= self.workers.len()
        &&& forall|i: int|
            0 <= i < self.joined ==> #[trigger] self.workers[i] == WorkerState::Terminated
    }

    /// The books balance: the submitted jobs are those handed out followed
    /// by those queued; the jobs handed out are those completed and those in
    /// progress; and a single worker completes jobs in the order in which it
    /// got them.
    pub open spec fn balanced(self) -> bool {
        &&& self.submitted == self.dispatched + self.queue
        &&& self.dispatched.to_multiset() == self.completed.to_multiset().add(held(self.holding))
        &&& self.workers.len() == 1 ==> self.dispatched == self.completed + in_hand_seq(
            self.holding[0],
        )
    }

    /// Every job handed out is on record with the worker that took it: the
    /// positions in a worker's record are positions of `dispatched` and
    /// ascend; no position is in the records of two workers; every position
    /// of `dispatched` is in some record; and the job in a worker's hands is
    /// the last on its record.
    pub open spec fn attributed(self) -> bool {
        &&& self.rounds.len() == self.workers.len()
        &&& forall|w: int, i: int|
            0 <= w < self.rounds.len() && 0 <= i < self.rounds[w].len() ==> 0
                <= #[trigger] self.rounds[w][i] < self.dispatched.len()
        &&& forall|w: int, i: int, j: int|
            0 <= w < self.rounds.len() && 0 <= i < j < self.rounds[w].len()
                ==> #[trigger] self.rounds[w][i] < #[trigger] self.rounds[w][j]
        &&& forall|w: int, i: int, v: int, j: int|
            0 <= w < self.rounds.len() && 0 <= i < self.rounds[w].len() && 0 <= v
                < self.rounds.len() && 0 <= j < self.rounds[v].len() && w != v
                ==> #[trigger] self.rounds[w][i] != #[trigger] self.rounds[v][j]
        &&& forall|k: int| 0 <= k < self.dispatched.len() ==> #[trigger] has_taker(self.rounds, k)
        &&& forall|w: int|
            0 <= w < self.workers.len() && #[trigger] self.workers[w] == WorkerState::Executing
                ==> self.rounds[w].len() > 0 && self.holding[w] == Some(
                self.dispatched[self.rounds[w].last()],
            )
    }

    /// The invariant of a pool.
    pub open spec fn inv(self) -> bool {
        self.shaped() && self.balanced() && self.attributed()
    }
}

/// Replacing what one worker holds changes the held jobs by exactly that
/// worker's old and new job.
pub proof fn lemma_held_update<J>(holding: Seq<Option<J>>, i: int, slot: Option<J>)
    requires
        0 <= i < holding.len(),
    ensures
        held(holding.update(i, slot)).add(in_hand(holding[i])) == held(holding).add(in_hand(slot)),
        held(holding.update(i, slot)).len() + in_hand(holding[i]).len() == held(holding).len()
            + in_hand(slot).len(),
        in_hand(slot).len() == if slot is Some {
            1nat
        } else {
            0nat
        },
        in_hand(holding[i]).len() == if holding[i] is Some {
            1nat
        } else {
            0nat
        },
    decreases holding.len(),
{
    broadcast use vstd::multiset::group_multiset_axioms;

    let updated = holding.update(i, slot);
    let rest = holding.drop_last();
    let before = held(updated).add(in_hand(holding[i]));
    let after = held(holding).add(in_hand(slot));
    if i == holding.len() - 1 {
        assert(updated.drop_last() == rest);
    } else {
        lemma_held_update(rest, i, slot);
        assert(updated.drop_last() == rest.update(i, slot));
        let inner_before = held(rest.update(i, slot)).add(in_hand(rest[i]));
        let inner_after = held(rest).add(in_hand(slot));
        assert forall|job: J| before.count(job) == after.count(job) by {
            assert(inner_before.count(job) == inner_after.count(job));
        }
    }
    assert(before =~= after);
    assert(before.len() == held(updated).len() + in_hand(holding[i]).len());
    assert(after.len() == held(holding).len() + in_hand(slot).len());
}

/// There are never more held jobs than workers; and where every worker holds
/// one, or none does, the count says so.
pub proof fn lemma_held_len<J>(holding: Seq<Option<J>>)
    ensures
        held(holding).len() <= holding.len(),
        held(holding).len() == holding.len() <==> forall|i: int|
            0 <= i < holding.len() ==> #[trigger] holding[i] is Some,
        held(holding).len() == 0 <==> forall|i: int|
            0 <= i < holding.len() ==> #[trigger] holding[i] is None,
    decreases holding.len(),
{
    broadcast use vstd::multiset::group_multiset_axioms;

    if holding.len() > 0 {
        let rest = holding.drop_last();
        lemma_held_len(rest);
        assert(forall|i: int| 0 <= i < rest.len() ==> rest[i] == holding[i]);
        if forall|i: int| 0 <= i < holding.len() ==> #[trigger] holding[i] is Some {
            assert(forall|i: int| 0 <= i < rest.len() ==> #[trigger] rest[i] is Some);
        }
        if forall|i: int| 0 <= i < holding.len() ==> #[trigger] holding[i] is None {
            assert(forall|i: int| 0 <= i < rest.len() ==> #[trigger] rest[i] is None);
        }
        if held(holding).len() == holding.len() {
            assert(holding.last() is Some);
            assert forall|i: int| 0 <= i < holding.len() implies #[trigger] holding[i] is Some by {
                if i < rest.len() {
                    assert(rest[i] is Some);
                }
            }
        }
        if held(holding).len() == 0 {
            assert(holding.last() is None);
            assert forall|i: int| 0 <= i < holding.len() implies #[trigger] holding[i] is None by {
                if i < rest.len() {
                    assert(rest[i] is None);
                }
            }
        }
    }
}

/// Replacing one worker's state changes the number of running workers by
/// exactly what that worker's old and new state contribute.
pub proof fn lemma_alive_update(workers: Seq<WorkerState>, i: int, state: WorkerState)
    requires
        0 <= i < workers.len(),
    ensures
        alive(workers.update(i, state)) + (if workers[i].is_running() {
            1nat
        } else {
            0nat
        }) == alive(workers) + (if state.is_running() {
            1nat
        } else {
            0nat
        }),
    decreases workers.len(),
{
    let updated = workers.update(i, state);
    let rest = workers.drop_last();
    if i == workers.len() - 1 {
        assert(updated.drop_last() == rest);
    } else {
        lemma_alive_update(rest, i, state);
        assert(updated.drop_last() == rest.update(i, state));
    }
}

/// No more workers are running than there are workers, and none is running
/// exactly when all have terminated.
pub proof fn lemma_alive_len(workers: Seq<WorkerState>)
    ensures
        alive(workers) <= workers.len(),
        alive(workers) == 0 <==> forall|i: int|
            0 <= i < workers.len() ==> #[trigger] workers[i] == WorkerState::Terminated,
    decreases workers.len(),
{
    if workers.len() > 0 {
        let rest = workers.drop_last();
        lemma_alive_len(rest);
        assert(forall|i: int| 0 <= i < rest.len() ==> rest[i] == workers[i]);
        if forall|i: int|
            0 <= i < workers.len() ==> #[trigger] workers[i] == WorkerState::Terminated {
            assert(forall|i: int|
                0 <= i < rest.len() ==> #[trigger] rest[i] == WorkerState::Terminated);
        }
        if alive(workers) == 0 {
            assert forall|i: int| 0 <= i < workers.len() implies #[trigger] workers[i]
                == WorkerState::Terminated by {
                if i < rest.len() {
                    assert(rest[i] == WorkerState::Terminated);
                }
            }
        }
    }
}

/// A fresh pool satisfies the invariant.
pub proof fn lemma_init_inv<J>(n: nat)
    requires
        n > 0,
    ensures
        PoolState::<J>::init(n).inv(),
{
    broadcast use vstd::multiset::group_multiset_axioms;

    let s = PoolState::<J>::init(n);
    lemma_held_len(s.holding);
    vstd::multiset::lemma_multiset_empty_len(held(s.holding));
    assert(s.dispatched.to_multiset() =~= Multiset::<J>::empty()) by {
        s.dispatched.to_multiset_ensures();
        vstd::multiset::lemma_multiset_empty_len(s.dispatched.to_multiset());
    }
    assert(s.completed.to_multiset() =~= Multiset::<J>::empty()) by {
        s.completed.to_multiset_ensures();
        vstd::multiset::lemma_multiset_empty_len(s.completed.to_multiset());
    }
    assert(s.submitted =~= s.dispatched + s.queue);
    assert(s.dispatched.to_multiset() =~= s.completed.to_multiset().add(held(s.holding)));
}

/// Submitting to an open pool keeps the invariant.
pub proof fn lemma_submit_inv<J>(s: PoolState<J>, job: J)
    requires
        s.inv(),
        s.can_submit(),
    ensures
        s.submit(job).inv(),
{
    let t = s.submit(job);
    assert(t.submitted =~= t.dispatched + t.queue);
}

/// Handing the oldest queued job to a waiting worker keeps the record of
/// who took what in order.
proof fn lemma_take_attributed<J>(s: PoolState<J>, id: int)
    requires
        s.inv(),
        s.can_take(id),
        s.queue.len() > 0,
    ensures
        s.take(id).attributed(),
{
    let t = s.take(id);
    let at = s.dispatched.len() as int;
    let turn = s.rounds[id].len() as int;
    assert forall|w: int, i: int|
        0 <= w < t.rounds.len() && 0 <= i < t.rounds[w].len() implies #[trigger] t.rounds[w][i]
        == if w == id && i == turn {
        at
    } else {
        s.rounds[w][i]
    } by {}
    assert forall|k: int| 0 <= k < t.dispatched.len() implies #[trigger] has_taker(
        t.rounds,
        k,
    ) by {
        if k == at {
            assert(took(t.rounds, id, turn, k));
        } else {
            assert(has_taker(s.rounds, k));
            let (w, i) = choose|w: int, i: int| took(s.rounds, w, i, k);
            assert(took(t.rounds, w, i, k));
        }
    }
    assert forall|w: int|
        0 <= w < t.workers.len() && #[trigger] t.workers[w]
            == WorkerState::Executing implies t.rounds[w].len() > 0 && t.holding[w] == Some(
        t.dispatched[t.rounds[w].last()],
    ) by {
        if w != id {
            assert(s.workers[w] == WorkerState::Executing);
            assert(s.rounds[w][s.rounds[w].len() - 1] < at);
        }
    }
}

/// A waiting worker's attempt to take a job keeps the invariant.
pub proof fn lemma_take_inv<J>(s: PoolState<J>, id: int)
    requires
        s.inv(),
        s.can_take(id),
    ensures
        s.take(id).inv(),
{
    broadcast use vstd::multiset::group_multiset_axioms;

    let t = s.take(id);
    match s.taken() {
        Take::Job(job) => {
            assert(t.submitted =~= t.dispatched + t.queue);
            lemma_held_update(s.holding, id, Some(job));
            vstd::seq_lib::to_multiset_build(s.dispatched, job);
            let before = held(t.holding).add(in_hand(s.holding[id]));
            let after = held(s.holding).add(in_hand(Some(job)));
            let balance = s.completed.to_multiset().add(held(s.holding));
            assert forall|other: J|
                t.dispatched.to_multiset().count(other) == t.completed.to_multiset().add(
                    held(t.holding),
                ).count(other) by {
                assert(before.count(other) == after.count(other));
                assert(s.dispatched.to_multiset().count(other) == balance.count(other));
            }
            assert(t.dispatched.to_multiset() =~= t.completed.to_multiset().add(held(t.holding)));
            lemma_take_attributed(s, id);
        },
        Take::EndOfStream => {},
        Take::Empty => {},
    }
}

/// An executing worker's report that its job is done keeps the invariant.
pub proof fn lemma_finish_inv<J>(s: PoolState<J>, id: int)
    requires
        s.inv(),
        s.can_finish(id),
    ensures
        s.finish(id).inv(),
{
    broadcast use vstd::multiset::group_multiset_axioms;

    let t = s.finish(id);
    let job = s.holding[id]->0;
    assert(s.workers[id] == WorkerState::Executing);
    lemma_held_update(s.holding, id, None);
    vstd::seq_lib::to_multiset_build(s.completed, job);
    if s.workers.len() == 1 {
        assert(t.dispatched =~= t.completed + in_hand_seq(t.holding[0]));
    }
    let before = held(t.holding).add(in_hand(s.holding[id]));
    let after = held(s.holding).add(in_hand(None));
    let balance = s.completed.to_multiset().add(held(s.holding));
    assert forall|other: J|
        t.dispatched.to_multiset().count(other) == t.completed.to_multiset().add(
            held(t.holding),
        ).count(other) by {
        assert(before.count(other) == after.count(other));
        assert(s.dispatched.to_multiset().count(other) == balance.count(other));
    }
    assert(t.dispatched.to_multiset() =~= t.completed.to_multiset().add(held(t.holding)));
}

/// Closing the producer side keeps the invariant.
pub proof fn lemma_close_inv<J>(s: PoolState<J>)
    requires
        s.inv(),
    ensures
        s.close().inv(),
{
}

/// Joining the next worker, once it has terminated, keeps the invariant.
pub proof fn lemma_join_inv<J>(s: PoolState<J>)
    requires
        s.inv(),
        s.can_join(),
    ensures
        s.join().inv(),
{
}

/// Every enabled step keeps the invariant.
pub proof fn lemma_next_inv<J>(s: PoolState<J>, step: Step<J>)
    requires
        s.inv(),
        s.enabled(step),
    ensures
        s.next(step).inv(),
{
    match step {
        Step::Submit(job) => lemma_submit_inv(s, job),
        Step::Take(id) => lemma_take_inv(s, id),
        Step::Finish(id) => lemma_finish_inv(s, id),
        Step::Close => lemma_close_inv(s),
        Step::Join => lemma_join_inv(s),
    }
}

/// Every state that a pool reaches from a state satisfying the invariant,
/// by steps that are each enabled when taken, satisfies the invariant.
pub proof fn lemma_run_inv<J>(s: PoolState<J>, steps: Seq<Step<J>>)
    requires
        s.inv(),
        s.admits(steps),
    ensures
        s.run(steps).inv(),
    decreases steps.len(),
{
    if steps.len() > 0 {
        lemma_run_inv(s, steps.drop_last());
        lemma_next_inv(s.run(steps.drop_last()), steps.last());
    }
}

} // verus!
