use std::cell::{Cell, RefCell};
use std::rc::Rc;

use multithreaded_webserver::queue::Take;
use multithreaded_webserver::worker::WorkerState;
use multithreaded_webserver::{PoolCreationError, ThreadPool};

type Job = Box<dyn FnOnce()>;

/// The jobs that the workers of a pool hold between taking and finishing
/// them, and the choices of a scheduler that is replayed from a seed.
struct Crew<J> {
    hands: Vec<Option<J>>,
    seed: u64,
    steps: usize,
}

fn crew<J>(size: usize, seed: u64) -> Crew<J> {
    let mut hands = Vec::new();
    for _ in 0..size {
        hands.push(None);
    }
    Crew { hands, seed, steps: 0 }
}

fn pick<J>(crew: &mut Crew<J>, bound: usize) -> usize {
    crew.seed = crew.seed.wrapping_mul(6364136223846793005).wrapping_add(1442695040888963407);
    ((crew.seed >> 33) as usize) % bound
}

/// The workers that would not block if they ran now.
fn runnable<J>(pool: &ThreadPool<J>) -> Vec<usize> {
    let mut ids = Vec::new();
    for id in 0..pool.size() {
        let ready = match pool.worker_state(id) {
            WorkerState::Executing => true,
            WorkerState::Waiting => pool.pending() > 0 || pool.is_shut_down(),
            WorkerState::Terminated => false,
        };
        if ready {
            ids.push(id);
        }
    }
    ids
}

/// One step of worker `id`: it takes a job if it waits, and runs the job it
/// holds, through `run`, if it has one.
fn advance<J>(
    pool: &mut ThreadPool<J>,
    crew: &mut Crew<J>,
    id: usize,
    run: &mut dyn FnMut(usize, J),
) {
    crew.steps += 1;
    match pool.worker_state(id) {
        WorkerState::Waiting => {
            assert!(crew.hands[id].is_none());
            if let Take::Job(job) = pool.take(id) {
                crew.hands[id] = Some(job);
            }
        }
        WorkerState::Executing => {
            let job = crew.hands[id].take().unwrap();
            run(id, job);
            pool.finish(id);
        }
        WorkerState::Terminated => panic!("a terminated worker was scheduled"),
    }
}

/// Lets up to `limit` steps happen, each by a worker that the scheduler picks
/// among those that would not block.
fn churn<J>(
    pool: &mut ThreadPool<J>,
    crew: &mut Crew<J>,
    limit: usize,
    run: &mut dyn FnMut(usize, J),
) {
    for _ in 0..limit {
        let ids = runnable(pool);
        if ids.is_empty() {
            return;
        }
        let id = ids[pick(crew, ids.len())];
        advance(pool, crew, id, run);
    }
}

/// Disposes of the pool: shuts it down, then waits for each worker in turn
/// while the scheduler keeps running the others too.
fn dispose<J>(
    pool: &mut ThreadPool<J>,
    crew: &mut Crew<J>,
    run: &mut dyn FnMut(usize, J),
) -> Vec<usize> {
    let mut joined = Vec::new();
    pool.shutdown();
    while let Some(next) = pool.next_to_join() {
        while pool.worker_state(next) != WorkerState::Terminated {
            let ids = runnable(pool);
            assert!(!ids.is_empty(), "the shutdown stalled");
            let id = ids[pick(crew, ids.len())];
            advance(pool, crew, id, run);
        }
        pool.join();
        joined.push(next);
    }
    assert!(pool.is_disposed());
    joined
}

fn sorted(mut values: Vec<u32>) -> Vec<u32> {
    values.sort();
    values
}

#[test]
fn new_pool_has_the_requested_number_of_waiting_workers() {
    for size in [1usize, 2, 3, 4, 8, 64] {
        let pool: ThreadPool<u32> = ThreadPool::new(size);
        assert_eq!(pool.size(), size);
        for id in 0..size {
            assert_eq!(pool.worker(id).id(), id);
            assert_eq!(pool.worker(id).state(), WorkerState::Waiting);
            assert!(pool.worker(id).is_running());
            assert_eq!(pool.worker_state(id), WorkerState::Waiting);
        }
        assert_eq!(pool.pending(), 0);
        assert!(!pool.is_shut_down());
        assert!(!pool.is_disposed());
        assert_eq!(pool.next_to_join(), Some(0));
    }
}

#[test]
fn build_rejects_zero_workers() {
    let outcome: Result<ThreadPool<u32>, PoolCreationError> = ThreadPool::build(0);
    assert!(matches!(outcome, Err(PoolCreationError::NoWorkers)));
}

#[test]
fn build_accepts_any_positive_number_of_workers() {
    for size in [1usize, 2, 5, 16] {
        let outcome: Result<ThreadPool<u32>, PoolCreationError> = ThreadPool::build(size);
        let pool = match outcome {
            Ok(pool) => pool,
            Err(error) => panic!("no pool of {} workers: {:?}", size, error),
        };
        assert_eq!(pool.size(), size);
        for id in 0..size {
            assert_eq!(pool.worker_state(id), WorkerState::Waiting);
        }
    }
}

#[test]
fn execute_queues_the_job_without_running_it() {
    let ran = Rc::new(Cell::new(false));
    let flag = Rc::clone(&ran);
    let mut pool: ThreadPool<Job> = ThreadPool::new(2);
    pool.execute(Box::new(move || flag.set(true)));
    assert_eq!(pool.pending(), 1);
    assert!(!ran.get());
    assert_eq!(pool.worker_state(0), WorkerState::Waiting);
    assert_eq!(pool.worker_state(1), WorkerState::Waiting);
    match pool.take(1) {
        Take::Job(job) => job(),
        _ => panic!("the queued job was not handed out"),
    }
    assert!(ran.get());
    assert_eq!(pool.pending(), 0);
    assert_eq!(pool.worker_state(0), WorkerState::Waiting);
    assert_eq!(pool.worker_state(1), WorkerState::Executing);
    pool.finish(1);
    assert_eq!(pool.worker_state(1), WorkerState::Waiting);
}

#[test]
fn pool_accepts_jobs_that_can_cross_threads() {
    let mut pool: ThreadPool<Box<dyn FnOnce() -> u32 + Send + 'static>> = ThreadPool::new(1);
    let text = String::from("captured");
    pool.execute(Box::new(move || text.len() as u32));
    match pool.take(0) {
        Take::Job(job) => assert_eq!(job(), 8),
        _ => panic!("the queued job was not handed out"),
    }
    pool.finish(0);
}

#[test]
fn waiting_worker_finds_an_open_empty_queue_empty() {
    let mut pool: ThreadPool<u32> = ThreadPool::new(3);
    assert!(matches!(pool.take(1), Take::Empty));
    assert_eq!(pool.worker_state(1), WorkerState::Waiting);
    assert_eq!(pool.pending(), 0);
    pool.execute(5);
    assert!(matches!(pool.take(1), Take::Job(5)));
    assert_eq!(pool.worker_state(1), WorkerState::Executing);
    assert!(matches!(pool.take(0), Take::Empty));
    assert_eq!(pool.worker_state(0), WorkerState::Waiting);
}

#[test]
fn every_job_runs_exactly_once() {
    for seed in 0..40u64 {
        for size in 1..5usize {
            for count in [0u32, 1, 2, 5, 17] {
                let mut pool: ThreadPool<u32> = ThreadPool::new(size);
                let mut workers = crew(size, seed * 31 + count as u64);
                let mut seen: Vec<u32> = Vec::new();
                let mut sent: Vec<u32> = Vec::new();
                for index in 0..count {
                    // Markers repeat, so that jobs are counted and not only told apart.
                    let marker = index % 3;
                    pool.execute(marker);
                    sent.push(marker);
                    let limit = pick(&mut workers, 4);
                    churn(&mut pool, &mut workers, limit, &mut |_, job| seen.push(job));
                }
                dispose(&mut pool, &mut workers, &mut |_, job| seen.push(job));
                assert_eq!(sorted(seen), sorted(sent));
                assert_eq!(pool.pending(), 0);
            }
        }
    }
}

#[test]
fn single_worker_runs_jobs_in_submission_order() {
    for seed in 0..40u64 {
        let mut pool: ThreadPool<u32> = ThreadPool::new(1);
        let mut workers = crew(1, seed);
        let mut seen: Vec<u32> = Vec::new();
        for marker in 0..12u32 {
            pool.execute(marker);
            let limit = pick(&mut workers, 3);
            churn(&mut pool, &mut workers, limit, &mut |_, job| seen.push(job));
        }
        dispose(&mut pool, &mut workers, &mut |_, job| seen.push(job));
        assert_eq!(seen, vec![0, 1, 2, 3, 4, 5, 6, 7, 8, 9, 10, 11]);
    }
}

#[test]
fn jobs_are_handed_out_in_submission_order() {
    let mut pool: ThreadPool<&str> = ThreadPool::new(3);
    pool.execute("first");
    pool.execute("second");
    pool.execute("third");
    assert!(matches!(pool.take(2), Take::Job("first")));
    pool.execute("fourth");
    assert!(matches!(pool.take(0), Take::Job("second")));
    pool.finish(2);
    assert!(matches!(pool.take(2), Take::Job("third")));
    assert!(matches!(pool.take(1), Take::Job("fourth")));
    assert_eq!(pool.pending(), 0);
}

#[test]
fn as_many_jobs_run_at_once_as_there_are_workers() {
    for size in 1..6usize {
        let mut pool: ThreadPool<usize> = ThreadPool::new(size);
        for marker in 0..size + 1 {
            pool.execute(marker);
        }
        // Each worker takes a job and holds it: none is released yet.
        for id in 0..size {
            match pool.take(id) {
                Take::Job(marker) => assert_eq!(marker, id),
                _ => panic!("worker {} got no job", id),
            }
        }
        for id in 0..size {
            assert_eq!(pool.worker_state(id), WorkerState::Executing);
        }
        // One job more than there are workers: it has not been started.
        assert_eq!(pool.pending(), 1);
        assert!(runnable(&pool).iter().all(|&id| pool.worker_state(id) == WorkerState::Executing));
        // It starts once one of the others has completed.
        let released = size / 2;
        pool.finish(released);
        assert_eq!(pool.worker_state(released), WorkerState::Waiting);
        match pool.take(released) {
            Take::Job(marker) => assert_eq!(marker, size),
            _ => panic!("the last job was not handed out"),
        }
        assert_eq!(pool.pending(), 0);
    }
}

#[test]
fn disposal_waits_for_every_job() {
    for seed in 0..200u64 {
        let size = 1 + (seed % 4) as usize;
        let done = Rc::new(Cell::new(false));
        let finished = Rc::new(Cell::new(0u32));
        let mut pool: ThreadPool<Job> = ThreadPool::new(size);
        let mut workers = crew(size, seed);
        for _ in 0..6 {
            let counter = Rc::clone(&finished);
            pool.execute(Box::new(move || counter.set(counter.get() + 1)));
            let limit = pick(&mut workers, 3);
            churn(&mut pool, &mut workers, limit, &mut |_, job: Job| job());
        }
        let flag = Rc::clone(&done);
        let counter = Rc::clone(&finished);
        pool.execute(Box::new(move || {
            counter.set(counter.get() + 1);
            flag.set(true);
        }));
        dispose(&mut pool, &mut workers, &mut |_, job: Job| job());
        assert!(done.get());
        assert_eq!(finished.get(), 7);
        assert!(pool.is_disposed());
        assert!(pool.is_shut_down());
        assert_eq!(pool.pending(), 0);
        for id in 0..size {
            assert_eq!(pool.worker_state(id), WorkerState::Terminated);
        }
    }
}

#[test]
fn two_workers_share_four_jobs() {
    for seed in 0..200u64 {
        let log: Rc<RefCell<Vec<u32>>> = Rc::new(RefCell::new(Vec::new()));
        let mut ran_by: Vec<usize> = Vec::new();
        let mut pool: ThreadPool<Job> = ThreadPool::new(2);
        let mut workers = crew(2, seed);
        for index in 0..4u32 {
            let log = Rc::clone(&log);
            pool.execute(Box::new(move || log.borrow_mut().push(index)));
            if seed % 2 == 1 {
                churn(&mut pool, &mut workers, 1, &mut |id, job: Job| {
                    ran_by.push(id);
                    job()
                });
            }
        }
        dispose(&mut pool, &mut workers, &mut |id, job: Job| {
            ran_by.push(id);
            job()
        });
        let log = log.borrow().clone();
        assert_eq!(log.len(), 4);
        assert_eq!(sorted(log.clone()), vec![0, 1, 2, 3]);
        for worker in 0..2usize {
            let mine: Vec<u32> =
                (0..4).filter(|&at| ran_by[at] == worker).map(|at| log[at]).collect();
            assert!(mine.windows(2).all(|pair| pair[0] < pair[1]));
        }
    }
}

#[test]
fn idle_pool_is_disposed_of_at_once() {
    let mut pool: ThreadPool<Job> = ThreadPool::new(4);
    let mut workers = crew(4, 0);
    let joined = dispose(&mut pool, &mut workers, &mut |_, _job: Job| {
        panic!("there was no job to run")
    });
    assert_eq!(joined, vec![0, 1, 2, 3]);
    // Each worker looked at the queue once, saw end-of-stream and stopped.
    assert_eq!(workers.steps, 4);
    assert!(pool.is_disposed());
    assert_eq!(pool.next_to_join(), None);
    for id in 0..4 {
        assert_eq!(pool.worker_state(id), WorkerState::Terminated);
        assert!(!pool.worker(id).is_running());
    }
}

#[test]
fn idle_workers_stop_at_once_when_the_pool_shuts_down() {
    let mut pool: ThreadPool<u32> = ThreadPool::new(4);
    for id in 0..4 {
        assert!(matches!(pool.take(id), Take::Empty));
    }
    pool.shutdown();
    for id in 0..4 {
        assert!(matches!(pool.take(id), Take::EndOfStream));
        assert_eq!(pool.worker_state(id), WorkerState::Terminated);
    }
}

#[test]
fn jobs_queued_at_shutdown_still_run() {
    let mut pool: ThreadPool<u32> = ThreadPool::new(2);
    pool.execute(1);
    pool.execute(2);
    pool.execute(3);
    pool.shutdown();
    assert!(pool.is_shut_down());
    assert_eq!(pool.pending(), 3);
    assert!(matches!(pool.take(0), Take::Job(1)));
    assert!(matches!(pool.take(1), Take::Job(2)));
    pool.finish(1);
    assert!(matches!(pool.take(1), Take::Job(3)));
    pool.finish(0);
    assert!(matches!(pool.take(0), Take::EndOfStream));
    assert_eq!(pool.worker_state(0), WorkerState::Terminated);
    assert_eq!(pool.worker_state(1), WorkerState::Executing);
    pool.finish(1);
    assert!(matches!(pool.take(1), Take::EndOfStream));
    assert_eq!(pool.worker_state(1), WorkerState::Terminated);
}

#[test]
fn shutting_down_twice_changes_nothing() {
    let mut pool: ThreadPool<u32> = ThreadPool::new(1);
    pool.execute(4);
    pool.shutdown();
    pool.shutdown();
    assert!(pool.is_shut_down());
    assert_eq!(pool.pending(), 1);
    assert!(matches!(pool.take(0), Take::Job(4)));
}

#[test]
fn workers_are_joined_in_construction_order() {
    let mut pool: ThreadPool<u32> = ThreadPool::new(3);
    pool.shutdown();
    // The workers stop in another order than the one they were made in.
    for id in [2usize, 0, 1] {
        assert!(matches!(pool.take(id), Take::EndOfStream));
    }
    assert!(!pool.is_disposed());
    assert_eq!(pool.next_to_join(), Some(0));
    pool.join();
    assert_eq!(pool.next_to_join(), Some(1));
    pool.join();
    assert!(!pool.is_disposed());
    assert_eq!(pool.next_to_join(), Some(2));
    pool.join();
    assert_eq!(pool.next_to_join(), None);
    assert!(pool.is_disposed());
}

#[test]
fn disposal_joins_every_worker_in_order_whatever_the_schedule() {
    for seed in 0..50u64 {
        let size = 1 + (seed % 5) as usize;
        let mut pool: ThreadPool<u32> = ThreadPool::new(size);
        let mut workers = crew(size, seed);
        let mut seen = Vec::new();
        for marker in 0..9u32 {
            pool.execute(marker);
        }
        churn(&mut pool, &mut workers, (seed % 7) as usize, &mut |_, job| seen.push(job));
        let joined = dispose(&mut pool, &mut workers, &mut |_, job| seen.push(job));
        let expected: Vec<usize> = (0..size).collect();
        assert_eq!(joined, expected);
        assert_eq!(sorted(seen), vec![0, 1, 2, 3, 4, 5, 6, 7, 8]);
    }
}
