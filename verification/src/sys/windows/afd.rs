//! AFD polls, the kernel mechanism behind socket readiness: event masks, requests and statuses.

use vstd::prelude::*;

verus! {

/// Completion key of AFD polls; the key of cross-thread wakes is zero.
pub const AFD_COMPLETION_KEY: usize = 1;

/// The request is queued; its completion will arrive later.
pub const STATUS_PENDING: i32 = 0x103;

/// The request was cancelled.
pub const STATUS_CANCELLED: i32 = -0x3fff_fee0;

/// There is no such request: it has completed already.
pub const STATUS_NOT_FOUND: i32 = -0x3fff_fddb;

/// The request succeeded.
pub const STATUS_SUCCESS: i32 = 0;

/// There is something to receive.
pub const POLL_RECEIVE: u32 = 0x0001;

/// There is urgent data to receive.
pub const POLL_RECEIVE_EXPEDITED: u32 = 0x0002;

/// There is room to send.
pub const POLL_SEND: u32 = 0x0004;

/// The peer has closed its side.
pub const POLL_DISCONNECT: u32 = 0x0008;

/// The peer has broken the connection off.
pub const POLL_ABORT: u32 = 0x0010;

/// The socket was closed on this side.
pub const POLL_LOCAL_CLOSE: u32 = 0x0020;

/// The connection is made.
pub const POLL_CONNECT: u32 = 0x0040;

/// There is a connection to accept.
pub const POLL_ACCEPT: u32 = 0x0080;

/// The connection could not be made.
pub const POLL_CONNECT_FAIL: u32 = 0x0100;

/// What counts as readable.
pub const READ_EVENTS: u32 = POLL_RECEIVE | POLL_RECEIVE_EXPEDITED | POLL_DISCONNECT | POLL_ABORT
    | POLL_ACCEPT | POLL_CONNECT_FAIL;

/// What counts as writable.
pub const WRITE_EVENTS: u32 = POLL_SEND | POLL_CONNECT | POLL_CONNECT_FAIL;

/// A failure of the kernel, by its status.
#[derive(Clone, Copy, Debug, PartialEq, Eq, Structural)]
pub struct NtError {
    pub status: i32,
}

/// The status block of a request.
#[derive(Clone, Copy, Debug, PartialEq, Eq, Structural)]
pub struct IoStatusBlock {
    /// A status, in the low 32 bits, or a pointer.
    pub status_or_pointer: usize,
    /// Reserved for the kernel.
    pub information: usize,
}

/// The signed number whose 32 bits are the low ones of `bits`.
pub open spec fn low_signed(bits: usize) -> int {
    let low = bits as int % 0x1_0000_0000;
    if low < 0x8000_0000 {
        low
    } else {
        low - 0x1_0000_0000
    }
}

impl IoStatusBlock {
    /// A block of zeroes.
    pub fn zero() -> (block: Self)
        ensures
            block == (IoStatusBlock { status_or_pointer: 0, information: 0 }),
    {
        IoStatusBlock { status_or_pointer: 0, information: 0 }
    }

    /// A block for a request that is about to be handed to the kernel.
    pub fn pending() -> (block: Self)
        ensures
            block == (IoStatusBlock {
                status_or_pointer: STATUS_PENDING as usize,
                information: 0,
            }),
    {
        IoStatusBlock { status_or_pointer: STATUS_PENDING as usize, information: 0 }
    }

    /// The status in the block.
    pub fn status(&self) -> (status: i32)
        ensures
            status == low_signed(self.status_or_pointer),
    {
        let low = (self.status_or_pointer as u64 % 0x1_0000_0000) as u32;
        if low < 0x8000_0000 {
            low as i32
        } else {
            -((u32::MAX - low) as i32) - 1
        }
    }
}

/// A poll request for one socket.
#[derive(Clone, Copy, Debug, PartialEq, Eq, Structural)]
pub struct AfdPollInfo {
    /// Relative timeout; the largest value stands for none.
    pub timeout: i64,
    /// Number of handles; always one.
    pub number_of_handles: u32,
    /// Reserved, zero.
    pub exclusive: u32,
    /// The socket to watch.
    pub socket: usize,
    /// The events to watch for, and after completion those that came.
    pub events: u32,
    /// Status of the poll.
    pub status: i32,
}

impl AfdPollInfo {
    /// A request to watch `socket` for `events`, without a timeout.
    pub fn watch(socket: usize, events: u32) -> (info: Self)
        ensures
            info == (AfdPollInfo {
                timeout: i64::MAX,
                number_of_handles: 1,
                exclusive: 0,
                socket,
                events,
                status: 0,
            }),
    {
        AfdPollInfo {
            timeout: i64::MAX,
            number_of_handles: 1,
            exclusive: 0,
            socket,
            events,
            status: 0,
        }
    }
}

/// Outcome of opening the AFD device, which came to `status`.
pub fn open_outcome(status: i32) -> (outcome: Result<(), NtError>)
    ensures
        outcome == if status == STATUS_SUCCESS {
            Ok::<(), NtError>(())
        } else {
            Err::<(), NtError>(NtError { status })
        },
{
    if status != STATUS_SUCCESS {
        return Err(NtError { status });
    }
    Ok(())
}

/// Outcome of handing a poll to the kernel, which came to `status`: it is queued, or has completed
/// at once, or has failed.
pub fn submit_outcome(status: i32) -> (outcome: Result<(), NtError>)
    ensures
        outcome == if status == STATUS_SUCCESS || status == STATUS_PENDING {
            Ok::<(), NtError>(())
        } else {
            Err::<(), NtError>(NtError { status })
        },
{
    if status == STATUS_SUCCESS || status == STATUS_PENDING {
        return Ok(());
    }
    Err(NtError { status })
}

/// Outcome of cancelling a poll, which came to `status`: one that has completed already needs no
/// cancelling.
pub fn cancel_outcome(status: i32) -> (outcome: Result<(), NtError>)
    ensures
        outcome == if status == STATUS_SUCCESS || status == STATUS_NOT_FOUND {
            Ok::<(), NtError>(())
        } else {
            Err::<(), NtError>(NtError { status })
        },
{
    if status == STATUS_SUCCESS || status == STATUS_NOT_FOUND {
        return Ok(());
    }
    Err(NtError { status })
}

/// A failed connection counts as readable and as writable, so that whoever waits sees the error.
pub proof fn law_failed_connection_wakes_both(events: u32)
    requires
        events & POLL_CONNECT_FAIL != 0,
    ensures
        events & READ_EVENTS != 0,
        events & WRITE_EVENTS != 0,
{
    assert(events & POLL_CONNECT_FAIL != 0 ==> events & READ_EVENTS != 0 && events & WRITE_EVENTS
        != 0) by (bit_vector);
}

} // verus!
