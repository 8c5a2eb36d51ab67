use multithreaded_webserver::queue::Take;
use multithreaded_webserver::worker::{Worker, WorkerState};

#[test]
fn new_worker_waits_under_its_id() {
    let worker = Worker::new(3);
    assert_eq!(worker.id(), 3);
    assert_eq!(worker.state(), WorkerState::Waiting);
    assert!(worker.is_running());
}

#[test]
fn worker_executes_the_job_it_takes() {
    let mut worker = Worker::new(0);
    worker.on_take(&Take::Job(42u32));
    assert_eq!(worker.state(), WorkerState::Executing);
    assert!(worker.is_running());
    assert_eq!(worker.id(), 0);
}

#[test]
fn worker_keeps_waiting_on_an_empty_queue() {
    let mut worker = Worker::new(1);
    worker.on_take(&Take::<u32>::Empty);
    assert_eq!(worker.state(), WorkerState::Waiting);
    assert!(worker.is_running());
    assert_eq!(worker.id(), 1);
}

#[test]
fn worker_terminates_at_end_of_stream() {
    let mut worker = Worker::new(2);
    worker.on_take(&Take::<u32>::EndOfStream);
    assert_eq!(worker.state(), WorkerState::Terminated);
    assert!(!worker.is_running());
    assert_eq!(worker.id(), 2);
}

#[test]
fn worker_waits_again_after_its_job() {
    let mut worker = Worker::new(5);
    worker.on_take(&Take::Job("job"));
    worker.on_done();
    assert_eq!(worker.state(), WorkerState::Waiting);
    assert_eq!(worker.id(), 5);
    worker.on_take(&Take::Job("next"));
    assert_eq!(worker.state(), WorkerState::Executing);
    worker.on_done();
    worker.on_take(&Take::<&str>::EndOfStream);
    assert_eq!(worker.state(), WorkerState::Terminated);
}
