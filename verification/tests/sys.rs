//! What system calls are told and what their results mean.

use nanorun::net::tcp::{
    accept_step, connect_settled, connect_step, read_step, write_step, IoStep, ReadyFor, BACKLOG,
};
use nanorun::reactor::{Direction, Token};
use nanorun::runtime::context::Current;
use nanorun::sys::addr::{
    sockaddr_storage_from, sockaddr_to_socketaddr, SocketAddr, SocketAddrV4, SocketAddrV6,
    UnknownFamily,
};
use nanorun::sys::linux::epoll::{wait_capacity, wait_outcome, Event};
use nanorun::sys::linux::socket::{connect_outcome, connect_status};
use nanorun::sys::windows::afd::{
    cancel_outcome, open_outcome, submit_outcome, AfdPollInfo, IoStatusBlock, NtError,
    READ_EVENTS, STATUS_CANCELLED, STATUS_NOT_FOUND, STATUS_PENDING, WRITE_EVENTS,
};
use nanorun::sys::windows::socket::{BaseError, BaseSearch};
use nanorun::sys::windows::{iocp, socket};
use nanorun::sys::{linux, ConnectStatus, OsError};
use nanorun::time::instant::Duration;

#[test]
fn epoll_wait_brings_its_events() {
    assert_eq!(wait_capacity(0), None);
    assert_eq!(wait_capacity(4), Some(4));
    assert_eq!(wait_capacity(1_000), Some(64));
    let none = Event { token: 0, ready: 0 };
    let raw = vec![Event { token: 7, ready: 1 }, Event { token: 8, ready: 4 }];
    let mut out = vec![none; 4];
    assert_eq!(wait_outcome(1, 0, &raw, &mut out), Ok(1));
    assert_eq!(out, [raw[0], none, none, none]);
    assert_eq!(wait_outcome(0, 0, &raw, &mut out), Ok(0));
    assert_eq!(wait_outcome(-1, libc::EINTR, &raw, &mut out), Ok(0));
    let failed = wait_outcome(-1, libc::EBADF, &raw, &mut out);
    assert_eq!(failed, Err(OsError { code: libc::EBADF }));
    let mut short = vec![none; 1];
    assert_eq!(wait_outcome(2, 0, &raw, &mut short), Ok(2));
    assert_eq!(short, [raw[0]]);
}

#[test]
fn epoll_flags_are_those_of_the_system() {
    let event = |ready: i32| Event { token: 1, ready: ready as u32 };
    assert!(event(libc::EPOLLIN).is_readable() && !event(libc::EPOLLIN).is_writable());
    assert!(event(libc::EPOLLOUT).is_writable() && !event(libc::EPOLLOUT).is_readable());
    for flag in [libc::EPOLLERR, libc::EPOLLHUP] {
        assert!(event(flag).is_readable() && event(flag).is_writable());
    }
    assert!(!event(libc::EPOLLPRI).is_readable() && !event(libc::EPOLLPRI).is_writable());
}

#[test]
fn eventfd_calls_never_fail_for_having_nothing_to_do() {
    assert_eq!(linux::eventfd::outcome(8, 0), Ok(()));
    assert_eq!(linux::eventfd::outcome(-1, libc::EAGAIN), Ok(()));
    let failed = linux::eventfd::outcome(-1, libc::EBADF);
    assert_eq!(failed, Err(OsError { code: libc::EBADF }));
}

#[test]
fn linux_error_codes() {
    assert!(linux::is_interrupted(OsError { code: libc::EINTR }));
    assert!(!linux::is_interrupted(OsError { code: libc::EAGAIN }));
    assert!(linux::is_would_block(OsError { code: libc::EWOULDBLOCK }));
    assert!(!linux::is_would_block(OsError { code: libc::EINTR }));
    assert_eq!(linux::check(17, 0), Ok(17));
    assert_eq!(linux::check(-1, libc::EPIPE), Err(OsError { code: libc::EPIPE }));
}

#[test]
fn linux_connect_status() {
    assert_eq!(connect_outcome(0, 0), Ok(ConnectStatus::Done));
    assert_eq!(connect_outcome(-1, libc::EINPROGRESS), Ok(ConnectStatus::InProgress));
    let refused = Err(OsError { code: libc::ECONNREFUSED });
    assert_eq!(connect_outcome(-1, libc::ECONNREFUSED), refused);
    assert_eq!(connect_status(-1, 5, 5), Ok(ConnectStatus::InProgress));
}

fn v4() -> SocketAddr {
    SocketAddr::V4(SocketAddrV4 { octets: [127, 0, 0, 1], port: 8080 })
}

fn v6() -> SocketAddr {
    let mut octets = [0; 16];
    octets[15] = 1;
    SocketAddr::V6(SocketAddrV6 { octets, port: 443, flowinfo: 5, scope_id: 6 })
}

#[test]
fn addresses_are_laid_out_for_the_kernel() {
    for families in [linux::socket::families(), socket::families()] {
        let (raw, len) = sockaddr_storage_from(v4(), families);
        assert_eq!(len, 16);
        assert_eq!(raw.family, families.inet);
        assert_eq!(raw.port, [0x1f, 0x90]);
        assert_eq!(raw.v4_addr, [127, 0, 0, 1]);
        let (raw, len) = sockaddr_storage_from(v6(), families);
        assert_eq!(len, 28);
        assert_eq!(raw.family, families.inet6);
        assert_eq!(raw.port, [1, 187]);
        assert_eq!((raw.v6_flowinfo, raw.v6_scope_id), (5, 6));
    }
}

#[test]
fn addresses_are_read_back() {
    for families in [linux::socket::families(), socket::families()] {
        for addr in [v4(), v6()] {
            let (raw, _) = sockaddr_storage_from(addr, families);
            assert_eq!(sockaddr_to_socketaddr(raw, families), Ok(addr));
        }
        let (mut raw, _) = sockaddr_storage_from(v4(), families);
        raw.family = 1;
        let unknown = Err(UnknownFamily { family: 1 });
        assert_eq!(sockaddr_to_socketaddr(raw, families), unknown);
    }
}

#[test]
fn families_are_those_of_the_system() {
    assert_eq!(i32::from(linux::socket::families().inet), libc::AF_INET);
    assert_eq!(i32::from(linux::socket::families().inet6), libc::AF_INET6);
    assert_eq!(linux::socket::domain(v4()), libc::AF_INET);
    assert_eq!(linux::socket::domain(v6()), libc::AF_INET6);
    assert_eq!((socket::domain(v4()), socket::domain(v6())), (2, 23));
}

#[test]
fn status_is_in_the_low_bits() {
    let block = |bits: usize| IoStatusBlock { status_or_pointer: bits, information: 0 };
    assert_eq!(block(0x103).status(), STATUS_PENDING);
    assert_eq!(block(0xC000_0120).status(), STATUS_CANCELLED);
    assert_eq!(block(0xdead_beef_C000_0225).status(), STATUS_NOT_FOUND);
    assert_eq!(block(0x7fff_ffff).status(), i32::MAX);
    assert_eq!(block(0x8000_0000).status(), i32::MIN);
    assert_eq!(IoStatusBlock::pending().status(), STATUS_PENDING);
    assert_eq!(IoStatusBlock::zero().status(), 0);
}

#[test]
fn afd_outcomes() {
    assert_eq!(open_outcome(0), Ok(()));
    assert_eq!(open_outcome(STATUS_PENDING), Err(NtError { status: STATUS_PENDING }));
    assert_eq!(submit_outcome(0), Ok(()));
    assert_eq!(submit_outcome(STATUS_PENDING), Ok(()));
    assert_eq!(submit_outcome(-1), Err(NtError { status: -1 }));
    assert_eq!(cancel_outcome(0), Ok(()));
    assert_eq!(cancel_outcome(STATUS_NOT_FOUND), Ok(()));
    assert_eq!(cancel_outcome(STATUS_PENDING), Err(NtError { status: STATUS_PENDING }));
    assert_eq!((READ_EVENTS, WRITE_EVENTS), (0x19b, 0x144));
    assert_eq!(AfdPollInfo::watch(4, 8).exclusive, 0);
}

#[test]
fn completion_wait_outcomes() {
    assert_eq!(iocp::timeout_ms(None), u32::MAX);
    assert_eq!(iocp::timeout_ms(Some(Duration::from_millis(25))), 25);
    assert_eq!(iocp::timeout_ms(Some(Duration::from_secs(u64::MAX))), u32::MAX - 1);
    assert_eq!(iocp::wait_capacity(3), 3);
    assert_eq!(iocp::wait_capacity(65), 64);
    assert_eq!(iocp::wait_outcome(1, 0, 2, 3), Ok(2));
    assert_eq!(iocp::wait_outcome(1, 0, 4, 3), Ok(3));
    assert_eq!(iocp::wait_outcome(0, 258, 4, 3), Ok(0));
    assert_eq!(iocp::wait_outcome(0, 6, 4, 3), Err(OsError { code: 6 }));
}

#[test]
fn windows_socket_outcomes() {
    assert_eq!(socket::startup_outcome(0), Ok(()));
    assert_eq!(socket::startup_outcome(10091), Err(OsError { code: 10091 }));
    assert_eq!(socket::check(0, 9), Ok(()));
    assert_eq!(socket::check(-1, 9), Err(OsError { code: 9 }));
    assert_eq!(socket::check_socket(5, 9), Ok(5));
    assert_eq!(socket::check_socket(usize::MAX, 9), Err(OsError { code: 9 }));
    assert_eq!(socket::connect_status(0, 0), Ok(ConnectStatus::Done));
    assert_eq!(socket::connect_status(-1, 10035), Ok(ConnectStatus::InProgress));
    assert_eq!(socket::connect_status(-1, 10061), Err(OsError { code: 10061 }));
    assert_eq!(socket::io_len(10), 10);
    assert_eq!(socket::io_len(usize::MAX), i32::MAX);
    assert_eq!(socket::io_outcome(12, 0), Ok(12));
    assert_eq!(socket::io_outcome(-1, 3), Err(OsError { code: 3 }));
    assert_eq!(socket::try_base_socket(0, 0, 44), Ok(Some(44)));
    assert_eq!(socket::try_base_socket(-1, 10022, 44), Ok(None));
    assert_eq!(socket::try_base_socket(-1, 10045, 44), Ok(None));
    assert_eq!(socket::try_base_socket(-1, 10038, 44), Err(OsError { code: 10038 }));
}

#[test]
fn base_socket_is_searched_downwards() {
    let start = BaseSearch::base_socket(10);
    assert_eq!(start.query(), Some((10, 0x4800_0022)));
    assert_eq!(start.step(Ok(Some(3))), BaseSearch::Found(3));
    let down = start.step(Ok(None));
    assert_eq!(down.query(), Some((10, 0x4800_001d)));
    let lower = down.step(Ok(Some(7)));
    assert_eq!(lower.query(), Some((7, 0x4800_001d)));
    assert_eq!(lower.step(Ok(Some(7))), BaseSearch::Found(7));
    assert_eq!(lower.step(Ok(None)), BaseSearch::Found(7));
    let zero = lower.step(Ok(Some(0)));
    assert_eq!(zero.step(Ok(None)), BaseSearch::Failed(BaseError::InvalidHandle));
    let error = OsError { code: 1 };
    let failed = lower.step(Err(error));
    assert_eq!(failed, BaseSearch::Failed(BaseError::Os(error)));
    assert_eq!(failed.query(), None);
    assert_eq!(failed.step(Ok(None)), failed);
}

#[test]
fn operations_wait_only_when_they_would_block() {
    let again = OsError { code: libc::EAGAIN };
    let reset = OsError { code: libc::ECONNRESET };
    assert!(matches!(read_step(Ok(3)), IoStep::Done(Ok(3))));
    assert!(matches!(read_step(Ok(0)), IoStep::Done(Ok(0))));
    assert!(matches!(read_step(Err(again)), IoStep::Wait(Direction::Read)));
    assert!(matches!(write_step(Err(again)), IoStep::Wait(Direction::Write)));
    assert!(matches!(write_step(Err(reset)), IoStep::Done(Err(e)) if e == reset));
    assert!(matches!(accept_step(Ok("peer")), IoStep::Done(Ok("peer"))));
    assert!(matches!(accept_step::<()>(Err(again)), IoStep::Wait(Direction::Read)));
    assert_eq!(BACKLOG, 1024);
}

#[test]
fn connection_is_settled_by_the_socket_error() {
    assert!(matches!(connect_step(ConnectStatus::Done), IoStep::Done(Ok(()))));
    let wait = connect_step(ConnectStatus::InProgress);
    assert!(matches!(wait, IoStep::Wait(Direction::Write)));
    assert_eq!(connect_settled(0), Ok(()));
    assert_eq!(connect_settled(111), Err(OsError { code: 111 }));
}

#[test]
fn readiness_is_waited_for_once() {
    let mut ready = ReadyFor::new(Token(3), Direction::Read);
    assert!(ready.step().is_pending());
    assert!(ready.step().is_ready());
    assert_eq!((ready.token, ready.dir), (Token(3), Direction::Read));
}

#[test]
fn nothing_is_installed_twice() {
    let mut current = Current::new();
    assert_eq!(current.get(), None);
    assert_eq!(current.install("first"), Ok(()));
    assert_eq!(current.install("second"), Err("second"));
    assert_eq!(current.get(), Some(&"first"));
    assert_eq!(current.uninstall(), Some("first"));
    assert_eq!(current.uninstall(), None);
}
