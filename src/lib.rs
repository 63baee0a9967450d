//! The dispatch and termination protocol of a fixed-size worker pool.
//!
//! Jobs cross from submitters to workers through one FIFO of control
//! messages ([`queue::MessageQueue`]). Each worker runs the state machine of
//! [`worker::Worker`]; the pool's owner runs the one of
//! [`dispatcher::Dispatcher`], which decides when submissions are taken and
//! in what order shutdown terminates and joins the workers. Threads, locks
//! and the jobs themselves are left to the host program: every type here is
//! generic over what a job is.
pub mod dispatcher;
pub mod message;
pub mod queue;
pub mod worker;

pub use dispatcher::{Dispatcher, DispatcherView, PoolError, ShutdownAction};
pub use message::Message;
pub use queue::{MessageQueue, QueueView};
pub use worker::{JobOutcome, Worker, WorkerAction, WorkerState, WorkerView};
