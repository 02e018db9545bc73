//! Sockets: address families, and the results of a connect.

use vstd::prelude::*;

use crate::sys::addr::{Families, SocketAddr};
use crate::sys::{ConnectStatus, OsError};

verus! {

/// `libc::AF_INET`: the IPv4 family. 2 on Linux.
#[verifier::external_body]
pub(crate) fn af_inet() -> (family: i32)
    ensures
        family == 2,
{
    libc::AF_INET
}

/// `libc::AF_INET6`: the IPv6 family. 10 on Linux.
#[verifier::external_body]
pub(crate) fn af_inet6() -> (family: i32)
    ensures
        family == 10,
{
    libc::AF_INET6
}

/// Whether `code` says on some architecture of Linux that a connection is on its way: 36 on SPARC,
/// 150 on MIPS, and 115 on all others.
pub open spec fn in_progress_code(code: i32) -> bool {
    code == 36 || code == 115 || code == 150
}

/// `libc::EINPROGRESS`: the connection is on its way. Which of the codes of Linux it is depends on
/// the architecture.
#[verifier::external_body]
pub(crate) fn einprogress() -> (code: i32)
    ensures
        in_progress_code(code),
{
    libc::EINPROGRESS
}

/// The family numbers of Linux.
pub fn families() -> (families: Families)
    ensures
        families == (Families { inet: 2, inet6: 10 }),
        families.wf(),
{
    Families { inet: af_inet() as u16, inet6: af_inet6() as u16 }
}

/// The domain of a stream socket for `addr`.
pub fn domain(addr: SocketAddr) -> (domain: i32)
    ensures
        domain == addr.family(Families { inet: 2, inet6: 10 }),
{
    match addr {
        SocketAddr::V4(_) => af_inet(),
        SocketAddr::V6(_) => af_inet6(),
    }
}

/// What a connect that returned `rc` and left `errno` comes to, where `in_progress` is the code of
/// a connection that is on its way.
pub open spec fn connected(rc: i32, errno: i32, in_progress: i32) -> Result<
    ConnectStatus,
    OsError,
> {
    if rc >= 0 {
        Ok(ConnectStatus::Done)
    } else if errno == in_progress {
        Ok(ConnectStatus::InProgress)
    } else {
        Err(OsError { code: errno })
    }
}

/// Outcome of a connect that returned `rc`; on failure the code is in `errno`. `in_progress` is
/// the code of a connection that is on its way.
pub fn connect_status(rc: i32, errno: i32, in_progress: i32) -> (status: Result<
    ConnectStatus,
    OsError,
>)
    ensures
        status == connected(rc, errno, in_progress),
{
    if rc < 0 {
        if errno == in_progress {
            return Ok(ConnectStatus::InProgress);
        }
        return Err(OsError { code: errno });
    }
    Ok(ConnectStatus::Done)
}

/// Outcome of a connect that returned `rc`; on failure the code is in `errno`.
pub fn connect_outcome(rc: i32, errno: i32) -> (status: Result<ConnectStatus, OsError>)
    ensures
        exists|in_progress: i32| #[trigger]
            in_progress_code(in_progress) && status == connected(rc, errno, in_progress),
{
    connect_status(rc, errno, einprogress())
}

} // verus!
