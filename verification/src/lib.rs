//! A fixed-size worker pool and the small web server it was made for.
//!
//! Callers hand jobs to the pool; a fixed set of workers takes them from one
//! shared first-in first-out queue and runs them, one job per worker at a
//! time; shutting the pool down lets the queue drain and then stops every
//! worker.
//!
//! The library is the part of this that decides: [`queue`] is the job queue,
//! [`worker`] the worker's life as a state machine, and [`pool`] the pool
//! that owns both. The pool never blocks and never runs a job itself, so that
//! whoever drives it (threads under a lock, or a test that replays a
//! schedule) performs the waiting and the running and reports back.
//! [`model`] states the same pool as a mathematical state machine with its
//! invariant, and [`laws`] proves what follows for every pool: no job is lost
//! or run twice, jobs start in submission order, no worker holds two jobs,
//! and a shutdown ends only after every job has completed. [`http`] holds
//! what the server answers to a request.

pub mod http;
pub mod laws;
pub mod model;
pub mod pool;
pub mod queue;
pub mod worker;

pub use pool::{PoolCreationError, ThreadPool};
