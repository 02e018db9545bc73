//! `epoll`: readiness flags, and the results of a wait.

use vstd::prelude::*;

use crate::sys::linux;
use crate::sys::OsError;

verus! {

/// One readiness event.
#[derive(Clone, Copy, Debug, PartialEq, Eq, Structural)]
pub struct Event {
    /// Token that the file descriptor was registered with.
    pub token: u64,
    /// Bitset of the readiness flags.
    pub ready: u32,
}

/// Most events that one wait takes.
pub const MAX_EVENTS_PER_WAIT: usize = 64;

/// `libc::EPOLLIN`: readable. 0x1 on Linux.
#[verifier::external_body]
pub(crate) fn readable() -> (flag: u32)
    ensures
        flag == 0x1,
{
    libc::EPOLLIN as u32
}

/// `libc::EPOLLOUT`: writable. 0x4 on Linux.
#[verifier::external_body]
pub(crate) fn writable() -> (flag: u32)
    ensures
        flag == 0x4,
{
    libc::EPOLLOUT as u32
}

/// `libc::EPOLLERR`: an error is pending. 0x8 on Linux. The kernel reports it unasked.
#[verifier::external_body]
pub(crate) fn error() -> (flag: u32)
    ensures
        flag == 0x8,
{
    libc::EPOLLERR as u32
}

/// `libc::EPOLLHUP`: the other side hung up. 0x10 on Linux. The kernel reports it unasked.
#[verifier::external_body]
pub(crate) fn hangup() -> (flag: u32)
    ensures
        flag == 0x10,
{
    libc::EPOLLHUP as u32
}

/// Whether `ready` has an error or a hangup in it.
pub open spec fn failed(ready: u32) -> bool {
    ready & (0x8u32 | 0x10u32) != 0
}

/// Whether `ready` lets a reader go on: there is something to read, or an error to see.
pub open spec fn lets_read(ready: u32) -> bool {
    ready & 0x1 != 0 || failed(ready)
}

/// Whether `ready` lets a writer go on: there is room to write, or an error to see.
pub open spec fn lets_write(ready: u32) -> bool {
    ready & 0x4 != 0 || failed(ready)
}

impl Event {
    /// Whether the event lets a reader go on.
    pub fn is_readable(&self) -> (b: bool)
        ensures
            b == lets_read(self.ready),
    {
        self.ready & readable() != 0 || self.ready & (error() | hangup()) != 0
    }

    /// Whether the event lets a writer go on.
    pub fn is_writable(&self) -> (b: bool)
        ensures
            b == lets_write(self.ready),
    {
        self.ready & writable() != 0 || self.ready & (error() | hangup()) != 0
    }
}

/// How many events to ask for, when there is room for `len`. Without any room there is nothing to
/// wait for.
pub fn wait_capacity(len: usize) -> (cap: Option<i32>)
    ensures
        match cap {
            None => len == 0,
            Some(cap) => len > 0 && cap == if len < MAX_EVENTS_PER_WAIT {
                len as int
            } else {
                MAX_EVENTS_PER_WAIT as int
            },
        },
{
    if len == 0 {
        None
    } else if len < MAX_EVENTS_PER_WAIT {
        Some(len as i32)
    } else {
        Some(MAX_EVENTS_PER_WAIT as i32)
    }
}

/// Outcome of a wait that returned `rc` and left its events in `raw`; on failure the code is in
/// `errno`. An interrupted wait has brought no events. The events are copied to the front of
/// `out`, as far as it reaches.
pub fn wait_outcome(
    rc: i32,
    errno: i32,
    raw: &Vec<Event>,
    out: &mut Vec<Event>,
) -> (outcome: Result<usize, OsError>)
    requires
        rc <= raw@.len(),
    ensures
        final(out)@.len() == old(out)@.len(),
        forall|i: int|
            0 <= i < old(out)@.len() ==> #[trigger] final(out)@[i] == if i < rc {
                raw@[i]
            } else {
                old(out)@[i]
            },
        outcome == if rc >= 0 {
            Ok::<usize, OsError>(rc as usize)
        } else if linux::interrupted(OsError { code: errno }) {
            Ok::<usize, OsError>(0)
        } else {
            Err::<usize, OsError>(OsError { code: errno })
        },
{
    if rc < 0 {
        let error = OsError { code: errno };
        if linux::is_interrupted(error) {
            return Ok(0);
        }
        return Err(error);
    }
    let count = rc as usize;
    let mut i: usize = 0;
    while i < count && i < out.len()
        invariant
            i <= count,
            count == rc,
            count <= raw@.len(),
            i <= out@.len(),
            out@.len() == old(out)@.len(),
            forall|j: int|
                0 <= j < old(out)@.len() ==> #[trigger] out@[j] == if j < i {
                    raw@[j]
                } else {
                    old(out)@[j]
                },
        decreases count - i,
    {
        out[i] = raw[i];
        i += 1;
    }
    Ok(count)
}

/// An error or a hangup lets both the reader and the writer go on, so that each sees it.
pub proof fn law_failure_lets_both_go_on(ready: u32)
    requires
        failed(ready),
    ensures
        lets_read(ready),
        lets_write(ready),
{
}

} // verus!
