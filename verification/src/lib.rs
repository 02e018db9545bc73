//! nanorun, a small runtime for futures.
//!
//! A [`Runtime`] drives futures on the thread that calls [`Runtime::block_on`], runs spawned tasks
//! meanwhile, and has timers. The rest of the crate is what it is made of, and what a runtime with
//! worker threads and I/O of its own needs:
//!
//! - [`executor`]: run queues, work stealing, and the way idle workers go to sleep.
//! - [`task`]: the life of a spawned task and its join handle, and the cooperative yield.
//! - [`time`]: the timer wheel, the timer driver, sleeping and deadlines.
//! - [`reactor`]: registered sources, who waits for them, and the dispatch of events.
//! - [`net`] and [`sys`]: the decisions around socket and system calls.
//! - [`runtime`]: the runtime, and what is installed on a thread.
//!
//! The modules named `laws` state what holds over several operations. What is behind a lock, on the
//! clock or in a future of the caller is stated by the calls that are made, see [`sync`].

pub mod executor;
pub mod net;
pub mod reactor;
pub mod runtime;
pub(crate) mod sync;
pub mod sys;
pub mod task;
pub mod time;
pub mod waker;

pub use crate::executor::block_on;
pub use crate::runtime::Runtime;
pub use crate::task::JoinHandle;
