//! Sockets: address families, the results of socket calls, and the search for the base socket.

use vstd::prelude::*;

use crate::sys::addr::{Families, SocketAddr};
use crate::sys::{ConnectStatus, OsError};

verus! {

/// `WinSock::AF_INET` of `windows_sys`: the IPv4 family. 2.
#[verifier::external_body]
pub(crate) fn af_inet() -> (family: u16)
    ensures
        family == 2,
{
    windows_sys::Win32::Networking::WinSock::AF_INET
}

/// `WinSock::AF_INET6` of `windows_sys`: the IPv6 family. 23.
#[verifier::external_body]
pub(crate) fn af_inet6() -> (family: u16)
    ensures
        family == 23,
{
    windows_sys::Win32::Networking::WinSock::AF_INET6
}

/// `WinSock::SOCKET_ERROR` of `windows_sys`: what a failed call returns. -1.
#[verifier::external_body]
pub(crate) fn socket_error() -> (rc: i32)
    ensures
        rc == -1,
{
    windows_sys::Win32::Networking::WinSock::SOCKET_ERROR
}

/// `WinSock::INVALID_SOCKET` of `windows_sys`: no socket. All bits set.
#[verifier::external_body]
pub(crate) fn invalid_socket() -> (socket: usize)
    ensures
        socket == usize::MAX,
{
    windows_sys::Win32::Networking::WinSock::INVALID_SOCKET
}

/// `WinSock::WSAEWOULDBLOCK` of `windows_sys`: the call would have to wait. 10035.
#[verifier::external_body]
pub(crate) fn wsaewouldblock() -> (code: i32)
    ensures
        code == 10035,
{
    windows_sys::Win32::Networking::WinSock::WSAEWOULDBLOCK
}

/// `WinSock::WSAEINVAL` of `windows_sys`: the request is not valid here. 10022.
#[verifier::external_body]
pub(crate) fn wsaeinval() -> (code: i32)
    ensures
        code == 10022,
{
    windows_sys::Win32::Networking::WinSock::WSAEINVAL
}

/// `WinSock::WSAEOPNOTSUPP` of `windows_sys`: the request is not supported. 10045.
#[verifier::external_body]
pub(crate) fn wsaeopnotsupp() -> (code: i32)
    ensures
        code == 10045,
{
    windows_sys::Win32::Networking::WinSock::WSAEOPNOTSUPP
}

/// `WinSock::SIO_BASE_HANDLE` of `windows_sys`: the request for the base socket. 0x48000022.
#[verifier::external_body]
pub(crate) fn sio_base_handle() -> (code: u32)
    ensures
        code == 0x4800_0022,
{
    windows_sys::Win32::Networking::WinSock::SIO_BASE_HANDLE
}

/// `WinSock::SIO_BSP_HANDLE_POLL` of `windows_sys`: the request for the next socket down.
/// 0x4800001d.
#[verifier::external_body]
pub(crate) fn sio_bsp_handle_poll() -> (code: u32)
    ensures
        code == 0x4800_001d,
{
    windows_sys::Win32::Networking::WinSock::SIO_BSP_HANDLE_POLL
}

/// The family numbers of Windows.
pub fn families() -> (families: Families)
    ensures
        families == (Families { inet: 2, inet6: 23 }),
        families.wf(),
{
    Families { inet: af_inet(), inet6: af_inet6() }
}

/// The domain of a stream socket for `addr`.
pub fn domain(addr: SocketAddr) -> (domain: i32)
    ensures
        domain == addr.family(Families { inet: 2, inet6: 23 }),
{
    match addr {
        SocketAddr::V4(_) => af_inet() as i32,
        SocketAddr::V6(_) => af_inet6() as i32,
    }
}

/// Outcome of starting the socket library, which returned `rc`: zero, or the code of its failure.
pub fn startup_outcome(rc: i32) -> (outcome: Result<(), OsError>)
    ensures
        outcome == if rc == 0 {
            Ok::<(), OsError>(())
        } else {
            Err::<(), OsError>(OsError { code: rc })
        },
{
    if rc != 0 {
        return Err(OsError { code: rc });
    }
    Ok(())
}

/// Outcome of a call that returned `rc`; on failure the code is in `error`.
pub fn check(rc: i32, error: i32) -> (outcome: Result<(), OsError>)
    ensures
        outcome == if rc == -1 {
            Err::<(), OsError>(OsError { code: error })
        } else {
            Ok::<(), OsError>(())
        },
{
    if rc == socket_error() {
        return Err(OsError { code: error });
    }
    Ok(())
}

/// Outcome of a call that made `socket`; on failure the code is in `error`.
pub fn check_socket(socket: usize, error: i32) -> (outcome: Result<usize, OsError>)
    ensures
        outcome == if socket == usize::MAX {
            Err::<usize, OsError>(OsError { code: error })
        } else {
            Ok::<usize, OsError>(socket)
        },
{
    if socket == invalid_socket() {
        return Err(OsError { code: error });
    }
    Ok(socket)
}

/// Outcome of a connect that returned `rc`; on failure the code is in `error`.
pub fn connect_status(rc: i32, error: i32) -> (status: Result<ConnectStatus, OsError>)
    ensures
        status == if rc != -1 {
            Ok::<ConnectStatus, OsError>(ConnectStatus::Done)
        } else if error == 10035 {
            Ok::<ConnectStatus, OsError>(ConnectStatus::InProgress)
        } else {
            Err::<ConnectStatus, OsError>(OsError { code: error })
        },
{
    if rc == socket_error() {
        if error == wsaewouldblock() {
            return Ok(ConnectStatus::InProgress);
        }
        return Err(OsError { code: error });
    }
    Ok(ConnectStatus::Done)
}

/// How much of a buffer of `len` bytes one send or receive can take.
pub fn io_len(len: usize) -> (n: i32)
    ensures
        n == if len <= i32::MAX {
            len as int
        } else {
            i32::MAX as int
        },
{
    if len <= i32::MAX as usize {
        len as i32
    } else {
        i32::MAX
    }
}

/// Outcome of a send or receive that returned `rc`, which is not negative but for a failure; the
/// code is then in `error`.
pub fn io_outcome(rc: i32, error: i32) -> (outcome: Result<usize, OsError>)
    requires
        rc >= -1,
    ensures
        outcome == if rc == -1 {
            Err::<usize, OsError>(OsError { code: error })
        } else {
            Ok::<usize, OsError>(rc as usize)
        },
{
    if rc == socket_error() {
        return Err(OsError { code: error });
    }
    Ok(rc as usize)
}

/// What a query for a base socket came to that returned `rc` and left `base`; on failure the code
/// is in `error`. `None` if the kernel rejects the kind of query.
pub fn try_base_socket(rc: i32, error: i32, base: usize) -> (reply: Result<Option<usize>, OsError>)
    ensures
        reply == if rc != -1 {
            Ok::<Option<usize>, OsError>(Some(base))
        } else if error == 10022 || error == 10045 {
            Ok::<Option<usize>, OsError>(None)
        } else {
            Err::<Option<usize>, OsError>(OsError { code: error })
        },
{
    if rc == socket_error() {
        if error == wsaeinval() || error == wsaeopnotsupp() {
            return Ok(None);
        }
        return Err(OsError { code: error });
    }
    Ok(Some(base))
}

/// Why there is no base socket.
#[derive(Clone, Copy, Debug, PartialEq, Eq, Structural)]
pub enum BaseError {
    /// A query failed.
    Os(OsError),
    /// The search ended at a handle that is none.
    InvalidHandle,
}

/// The search for the socket at the bottom of a stack of layered sockets.
///
/// The kernel is asked for the base outright. If it rejects that, the search goes down one layer
/// at a time until nothing changes any more.
#[derive(Clone, Copy, Debug, PartialEq, Eq, Structural)]
pub enum BaseSearch {
    /// Ask for the base of this socket.
    Outright(usize),
    /// Ask for the socket below this one.
    Down(usize),
    /// The search is over.
    Found(usize),
    /// The search is over and has failed.
    Failed(BaseError),
}

impl BaseSearch {
    /// The search after `reply` to its current query.
    pub open spec fn after(self, reply: Result<Option<usize>, OsError>) -> Self {
        match (self, reply) {
            (BaseSearch::Outright(_), Err(error)) | (BaseSearch::Down(_), Err(error)) =>
                BaseSearch::Failed(BaseError::Os(error)),
            (BaseSearch::Outright(_), Ok(Some(base))) => BaseSearch::Found(base),
            (BaseSearch::Outright(socket), Ok(None)) => BaseSearch::Down(socket),
            (BaseSearch::Down(socket), Ok(below)) => if below is Some && below->0 != socket {
                BaseSearch::Down(below->0)
            } else if socket == 0 || socket == usize::MAX {
                BaseSearch::Failed(BaseError::InvalidHandle)
            } else {
                BaseSearch::Found(socket)
            },
            (ended, _) => ended,
        }
    }

    /// Start the search from `socket`.
    pub fn base_socket(socket: usize) -> (search: Self)
        ensures
            search == BaseSearch::Outright(socket),
    {
        BaseSearch::Outright(socket)
    }

    /// The socket to ask about and the request to make, or `None` once the search is over.
    pub fn query(&self) -> (query: Option<(usize, u32)>)
        ensures
            query == match *self {
                BaseSearch::Outright(socket) => Some((socket, 0x4800_0022u32)),
                BaseSearch::Down(socket) => Some((socket, 0x4800_001du32)),
                BaseSearch::Found(_) | BaseSearch::Failed(_) => None,
            },
    {
        match *self {
            BaseSearch::Outright(socket) => Some((socket, sio_base_handle())),
            BaseSearch::Down(socket) => Some((socket, sio_bsp_handle_poll())),
            BaseSearch::Found(_) | BaseSearch::Failed(_) => None,
        }
    }

    /// Take in the reply to the current query.
    pub fn step(self, reply: Result<Option<usize>, OsError>) -> (next: Self)
        ensures
            next == self.after(reply),
    {
        match self {
            BaseSearch::Outright(socket) => match reply {
                Err(error) => BaseSearch::Failed(BaseError::Os(error)),
                Ok(Some(base)) => BaseSearch::Found(base),
                Ok(None) => BaseSearch::Down(socket),
            },
            BaseSearch::Down(socket) => match reply {
                Err(error) => BaseSearch::Failed(BaseError::Os(error)),
                Ok(below) => {
                    if let Some(next) = below {
                        if next != socket {
                            return BaseSearch::Down(next);
                        }
                    }
                    if socket == 0 || socket == invalid_socket() {
                        return BaseSearch::Failed(BaseError::InvalidHandle);
                    }
                    BaseSearch::Found(socket)
                },
            },
            BaseSearch::Found(_) | BaseSearch::Failed(_) => self,
        }
    }
}

/// A search that goes down the layers ends only at the bottom: at a proper socket below which the
/// kernel names no other one.
pub proof fn law_search_ends_at_the_bottom(
    socket: usize,
    reply: Result<Option<usize>, OsError>,
    found: usize,
)
    requires
        BaseSearch::Down(socket).after(reply) == BaseSearch::Found(found),
    ensures
        found == socket,
        found != 0 && found != usize::MAX,
        reply == Ok::<Option<usize>, OsError>(None) || reply == Ok::<Option<usize>, OsError>(
            Some(found),
        ),
{
}

} // verus!
