//! The logic around system calls: flags, outcomes and address layouts, on plain values.

pub mod addr;
pub mod linux;
pub mod windows;

use vstd::prelude::*;

verus! {

/// An error of the operating system, by its code.
#[derive(Clone, Copy, Debug, PartialEq, Eq, Structural)]
pub struct OsError {
    /// The code: `errno` on Linux, `GetLastError` or `WSAGetLastError` on Windows.
    pub code: i32,
}

/// Outcome of a non-blocking connect.
#[derive(Clone, Copy, Debug, PartialEq, Eq, Structural)]
pub enum ConnectStatus {
    /// The connection was made at once.
    Done,
    /// The connection is on its way: wait until the socket is writable, then look at its error.
    InProgress,
}

} // verus!
