//! Tasks: spawned futures and their handles.

pub mod join;
pub mod laws;
pub mod raw;
pub mod yield_now;

pub use crate::task::join::JoinHandle;
pub use crate::task::yield_now::yield_now;
