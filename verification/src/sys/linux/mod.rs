//! Linux: what `epoll`, `eventfd` and socket calls are told, and what their results mean.

pub mod epoll;
pub mod eventfd;
pub mod socket;

use vstd::prelude::*;

use crate::sys::OsError;

verus! {

/// `libc::EINTR`: the call was interrupted by a signal. 4 on Linux.
#[verifier::external_body]
pub(crate) fn eintr() -> (code: i32)
    ensures
        code == 4,
{
    libc::EINTR
}

/// `libc::EAGAIN`: the call would have to wait. 11 on Linux, where `libc::EWOULDBLOCK` is the
/// same code.
#[verifier::external_body]
pub(crate) fn eagain() -> (code: i32)
    ensures
        code == 11,
{
    libc::EAGAIN
}

/// Code of an interrupted call.
pub open spec fn interrupted(error: OsError) -> bool {
    error.code == 4
}

/// Code of a call that would have to wait.
pub open spec fn would_block(error: OsError) -> bool {
    error.code == 11
}

/// Whether a call failed only because a signal came in.
pub fn is_interrupted(error: OsError) -> (b: bool)
    ensures
        b == interrupted(error),
{
    error.code == eintr()
}

/// Whether a call failed only because it would have to wait.
pub fn is_would_block(error: OsError) -> (b: bool)
    ensures
        b == would_block(error),
{
    error.code == eagain()
}

/// Outcome of a call that returns `rc`, and a negative one on failure, with the code in `errno`.
pub fn check(rc: isize, errno: i32) -> (outcome: Result<usize, OsError>)
    ensures
        rc >= 0 ==> outcome == Ok::<usize, OsError>(rc as usize),
        rc < 0 ==> outcome == Err::<usize, OsError>(OsError { code: errno }),
{
    if rc < 0 {
        Err(OsError { code: errno })
    } else {
        Ok(rc as usize)
    }
}

} // verus!
