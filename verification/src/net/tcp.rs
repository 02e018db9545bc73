//! Steps of the TCP operations. Sockets do not block: an operation is tried, and if it would have
//! to wait, its task waits for readiness in the reactor and tries again.

use core::task::Poll;

use vstd::prelude::*;

use crate::reactor::{Direction, Token};
use crate::sys::linux;
use crate::sys::{ConnectStatus, OsError};

verus! {

/// Connections that may wait to be accepted.
pub const BACKLOG: i32 = 1024;

/// A wait for readiness: pending once, then ready.
#[derive(Clone, Copy, Debug, PartialEq, Eq, Structural)]
pub struct ReadyFor {
    /// The source that is waited for.
    pub token: Token,
    pub dir: Direction,
    /// Whether it has been polled.
    pub polled: bool,
}

impl ReadyFor {
    /// Wait until the source of `token` is ready in direction `dir`.
    pub fn new(token: Token, dir: Direction) -> (ready: Self)
        ensures
            ready == (ReadyFor { token, dir, polled: false }),
    {
        ReadyFor { token, dir, polled: false }
    }

    /// What a poll comes to. On `Pending` the waker has to be set in the reactor.
    pub fn step(&mut self) -> (poll: Poll<()>)
        ensures
            poll is Ready <==> old(self).polled,
            *final(self) == (ReadyFor { polled: true, ..*old(self) }),
    {
        if self.polled {
            Poll::Ready(())
        } else {
            self.polled = true;
            Poll::Pending
        }
    }
}

/// What comes after one try of an operation.
#[derive(Debug)]
pub enum IoStep<T> {
    /// The operation is done, or has failed.
    Done(Result<T, OsError>),
    /// The operation has to wait for readiness in this direction, and then be tried again.
    Wait(Direction),
}

/// What comes after a try that has come to `result`, of an operation that waits in direction
/// `dir`.
pub open spec fn after_try<T>(result: Result<T, OsError>, dir: Direction) -> IoStep<T> {
    match result {
        Err(error) if linux::would_block(error) => IoStep::Wait(dir),
        _ => IoStep::Done(result),
    }
}

/// After a try to accept a connection.
pub fn accept_step<T>(result: Result<T, OsError>) -> (step: IoStep<T>)
    ensures
        step == after_try(result, Direction::Read),
{
    io_step(result, Direction::Read)
}

/// After a try to read.
pub fn read_step(result: Result<usize, OsError>) -> (step: IoStep<usize>)
    ensures
        step == after_try(result, Direction::Read),
{
    io_step(result, Direction::Read)
}

/// After a try to write.
pub fn write_step(result: Result<usize, OsError>) -> (step: IoStep<usize>)
    ensures
        step == after_try(result, Direction::Write),
{
    io_step(result, Direction::Write)
}

fn io_step<T>(result: Result<T, OsError>, dir: Direction) -> (step: IoStep<T>)
    ensures
        step == after_try(result, dir),
{
    match result {
        Ok(value) => IoStep::Done(Ok(value)),
        Err(error) => {
            if linux::is_would_block(error) {
                IoStep::Wait(dir)
            } else {
                IoStep::Done(Err(error))
            }
        },
    }
}

/// Whether a connection that has been begun has to wait until its socket is writable. If so, the
/// error of the socket is then looked at, and settles it.
pub fn connect_step(status: ConnectStatus) -> (step: IoStep<()>)
    ensures
        step == match status {
            ConnectStatus::Done => IoStep::Done(Ok::<(), OsError>(())),
            ConnectStatus::InProgress => IoStep::Wait(Direction::Write),
        },
{
    match status {
        ConnectStatus::Done => IoStep::Done(Ok(())),
        ConnectStatus::InProgress => IoStep::Wait(Direction::Write),
    }
}

/// What a connection has come to whose socket is writable and has the error `so_error`, zero
/// meaning none.
pub fn connect_settled(so_error: i32) -> (outcome: Result<(), OsError>)
    ensures
        outcome == if so_error == 0 {
            Ok::<(), OsError>(())
        } else {
            Err::<(), OsError>(OsError { code: so_error })
        },
{
    if so_error != 0 {
        return Err(OsError { code: so_error });
    }
    Ok(())
}

/// An operation goes on waiting exactly as long as it would block: it ends with the first result
/// that is a value or another error, and hands that result on unchanged.
pub proof fn law_only_would_block_waits<T>(result: Result<T, OsError>, dir: Direction)
    ensures
        after_try(result, dir) is Wait <==> (result is Err && linux::would_block(result->Err_0)),
        after_try(result, dir) matches IoStep::Done(done) ==> done == result,
{
}

} // verus!
