//! Slots, and the dispatch of readiness events and completions.

use nanorun::reactor::fallback::{split, Notifier};
use nanorun::reactor::linux::{self, Dispatch};
use nanorun::reactor::slab::{Slab, Slot};
use nanorun::reactor::windows::{self, Completion};
use nanorun::reactor::{slot_key, slot_token, Direction, Interest, Token};
use nanorun::sys::linux::epoll::Event;
use nanorun::sys::windows::afd::{
    POLL_ABORT, POLL_CONNECT_FAIL, POLL_RECEIVE, POLL_SEND, READ_EVENTS, WRITE_EVENTS,
};
use nanorun::time::instant::Duration;

#[test]
fn insert_then_remove_then_reuse() {
    let mut s: Slab<Slot<u8>> = Slab::new();
    let a = s.insert();
    let b = s.insert();
    assert_ne!(a, b);
    s.remove(a);
    let c = s.insert();
    assert_eq!(c, a, "freed slot should be reused first");
}

#[test]
fn remove_out_of_range_is_noop() {
    let mut s: Slab<Slot<u8>> = Slab::new();
    s.remove(42);
    assert_eq!(s.insert(), 0);
}

#[test]
fn get_mut_after_remove_returns_none() {
    let mut s: Slab<Slot<u8>> = Slab::new();
    let k = s.insert();
    s.remove(k);
    assert!(s.get_mut(k).is_none());
}

#[test]
fn freed_keys_come_back_last_first() {
    let mut s = Slab::new();
    for i in 0..4 {
        assert_eq!(s.insert_slot(i * 10), i);
    }
    s.remove(1);
    s.remove(3);
    s.remove(3);
    assert_eq!(s.insert_slot(7), 3);
    assert_eq!(s.insert_slot(8), 1);
    assert_eq!(s.insert_slot(9), 4);
    *s.get_mut(1).unwrap() += 1;
    assert_eq!(s.get_mut(1), Some(&mut 9));
    assert_eq!(s.get_mut(0), Some(&mut 0));
    assert_eq!(s.get_mut(5), None);
}

#[test]
fn tokens_name_slots() {
    assert_eq!(slot_key(Token(0)), None);
    assert_eq!(slot_key(Token(1)), Some(0));
    assert_eq!(slot_token(41), Token(42));
    assert_eq!(slot_key(slot_token(41)), Some(41));
}

#[test]
fn registered_fd_readiness_drives_waker() {
    let mut sources = linux::Sources::new();
    let reg = sources.register(Interest::read());
    assert_eq!(reg.token, Token(1));
    assert_eq!(reg.events, 0x1);
    sources.set_waker(reg.token, Direction::Read, 'w');
    let mut wakers = Vec::new();
    let events = vec![Event { token: 1, ready: 0x1 }];
    assert_eq!(sources.dispatch(&events, 0, &mut wakers), Dispatch::Done);
    assert_eq!(wakers, ['w'], "waker should have been fired");
    sources.forget(reg.token);
    sources.set_waker(reg.token, Direction::Read, 'x');
    sources.dispatch(&events, 0, &mut wakers);
    assert_eq!(wakers, ['w'], "the source is gone");
}

#[test]
fn waker_is_consumed_on_fire_not_re_armed() {
    let mut sources = linux::Sources::new();
    let token = sources.register(Interest::read()).token;
    sources.set_waker(token, Direction::Read, 'w');
    let events = vec![Event { token: token.0, ready: 0x1 }];
    let mut wakers = Vec::new();
    sources.dispatch(&events, 0, &mut wakers);
    assert_eq!(wakers, ['w']);
    sources.dispatch(&events, 0, &mut wakers);
    assert_eq!(wakers, ['w'], "waker must not re-fire without set_waker");
    sources.set_waker(token, Direction::Read, 'x');
    sources.dispatch(&events, 0, &mut wakers);
    assert_eq!(wakers, ['w', 'x']);
}

#[test]
fn interest_becomes_epoll_flags() {
    let mut sources: linux::Sources<char> = linux::Sources::new();
    assert_eq!(sources.register(Interest::read_write()).events, 0x5);
    assert_eq!(sources.register(Interest { read: false, write: true }).events, 0x4);
    assert_eq!(sources.register(Interest { read: false, write: false }).events, 0);
}

#[test]
fn directions_are_independent_and_errors_wake_both() {
    let mut sources = linux::Sources::new();
    let a = sources.register(Interest::read_write()).token;
    let b = sources.register(Interest::read_write()).token;
    for (token, read, write) in [(a, 'r', 'w'), (b, 'R', 'W')] {
        sources.set_waker(token, Direction::Read, read);
        sources.set_waker(token, Direction::Write, write);
    }
    let mut wakers = Vec::new();
    sources.dispatch(&vec![Event { token: a.0, ready: 0x4 }], 0, &mut wakers);
    assert_eq!(wakers, ['w']);
    sources.dispatch(&vec![Event { token: b.0, ready: 0x10 }], 0, &mut wakers);
    assert_eq!(wakers, ['w', 'R', 'W']);
    sources.dispatch(&vec![Event { token: a.0, ready: 0x8 }], 0, &mut wakers);
    assert_eq!(wakers, ['w', 'R', 'W', 'r']);
    sources.dispatch(&vec![Event { token: 99, ready: 0x1f }], 0, &mut wakers);
    assert_eq!(wakers.len(), 4);
}

#[test]
fn dispatch_stops_at_wake_ups() {
    let mut sources = linux::Sources::new();
    let a = sources.register(Interest::read()).token;
    let b = sources.register(Interest::read()).token;
    sources.set_waker(a, Direction::Read, 1);
    sources.set_waker(b, Direction::Read, 2);
    let events = vec![
        Event { token: a.0, ready: 1 },
        Event { token: 0, ready: 1 },
        Event { token: b.0, ready: 1 },
    ];
    let mut wakers = Vec::new();
    assert_eq!(sources.dispatch(&events, 0, &mut wakers), Dispatch::Drain(2));
    assert_eq!(wakers, [1]);
    assert_eq!(sources.dispatch(&events, 2, &mut wakers), Dispatch::Done);
    assert_eq!(wakers, [1, 2]);
    assert_eq!(sources.dispatch(&events, 3, &mut wakers), Dispatch::Done);
}

#[test]
fn epoll_timeout_in_milliseconds() {
    assert_eq!(linux::timeout_ms(None), -1);
    assert_eq!(linux::timeout_ms(Some(Duration::from_nanos(1_999_999))), 1);
    assert_eq!(linux::timeout_ms(Some(Duration::from_millis(2_147_483_647))), i32::MAX);
    assert_eq!(linux::timeout_ms(Some(Duration::from_millis(2_147_483_648))), i32::MAX);
    assert_eq!(linux::timeout_ms(Some(Duration::from_secs(u64::MAX))), i32::MAX);
}

#[test]
fn completed_poll_fires_and_is_submitted_again() {
    let mut sources = windows::Sources::new();
    let reg = sources.register(0x77, Interest::read_write());
    assert_eq!(reg.token, Token(1));
    assert_eq!(reg.info.events, READ_EVENTS | WRITE_EVENTS);
    assert_eq!(reg.info.socket, 0x77);
    assert_eq!(reg.info.timeout, i64::MAX);
    assert_eq!(reg.info.number_of_handles, 1);
    sources.arm(reg, "memory");
    sources.set_waker(reg.token, Direction::Read, 'r');
    sources.set_waker(reg.token, Direction::Write, 'w');
    let (mut wakers, mut resubmit) = (Vec::new(), Vec::new());
    let batch = vec![
        Completion::Posted,
        Completion::Poll { key: reg.key, events: POLL_RECEIVE },
        Completion::Poll { key: 9, events: POLL_RECEIVE },
    ];
    sources.dispatch(&batch, &mut wakers, &mut resubmit);
    assert_eq!(wakers, ['r']);
    assert_eq!(resubmit, [reg.key]);
    let again = sources.rearm(reg.key).unwrap();
    assert_eq!(again, reg.info);
    assert_eq!(sources.kernel_mut(reg.key), Some(&mut "memory"));
    let fail = vec![Completion::Poll { key: reg.key, events: POLL_CONNECT_FAIL }];
    sources.set_waker(reg.token, Direction::Read, 's');
    sources.dispatch(&fail, &mut wakers, &mut resubmit);
    assert_eq!(wakers, ['r', 's', 'w']);
}

#[test]
fn cancelled_source_waits_for_its_completion() {
    let mut sources = windows::Sources::new();
    let reg = sources.register(1, Interest::read());
    sources.arm(reg, ());
    sources.set_waker(reg.token, Direction::Read, 'r');
    sources.mark_cancelled(reg.token);
    sources.set_waker(reg.token, Direction::Read, 'x');
    assert_eq!(sources.register(2, Interest::read()).key, 1, "the slot is not free yet");
    let (mut wakers, mut resubmit) = (Vec::new(), Vec::new());
    let batch = vec![Completion::Poll { key: 0, events: POLL_ABORT }];
    sources.dispatch(&batch, &mut wakers, &mut resubmit);
    assert!(wakers.is_empty() && resubmit.is_empty());
    assert_eq!(sources.register(3, Interest::read()).key, 0, "the slot is free");
    assert_eq!(sources.rearm(7), None);
}

#[test]
fn cancelled_between_dispatch_and_rearm() {
    let mut sources: windows::Sources<char, ()> = windows::Sources::new();
    let reg = sources.register(1, Interest::read());
    sources.arm(reg, ());
    let (mut wakers, mut resubmit) = (Vec::new(), Vec::new());
    let batch = vec![Completion::Poll { key: 0, events: POLL_SEND }];
    sources.dispatch(&batch, &mut wakers, &mut resubmit);
    sources.mark_cancelled(reg.token);
    assert_eq!(sources.rearm(reg.key), None);
    assert_eq!(sources.register(2, Interest::read()).key, reg.key);
}

#[test]
fn orphaned_source_wakes_everyone() {
    let mut sources = windows::Sources::new();
    let reg = sources.register(1, Interest::read_write());
    sources.arm(reg, ());
    sources.set_waker(reg.token, Direction::Write, 'w');
    sources.set_waker(reg.token, Direction::Read, 'r');
    let mut wakers = Vec::new();
    sources.orphan(reg.key, &mut wakers);
    assert_eq!(wakers, ['r', 'w']);
    sources.orphan(reg.key, &mut wakers);
    assert_eq!(wakers.len(), 2);
    assert_eq!(sources.kernel_mut(reg.key), None);
    let failed = sources.register(2, Interest::read());
    sources.forget(failed.key);
    assert_eq!(sources.register(3, Interest::read()).key, failed.key);
}

#[test]
fn wakes_before_a_wait_count_once() {
    let mut notifier = Notifier::new();
    assert!(!notifier.take());
    notifier.wake();
    notifier.wake();
    assert!(notifier.take());
    assert!(!notifier.take());
}

#[test]
fn timeout_splits_into_seconds_and_nanoseconds() {
    assert_eq!(split(Duration::from_millis(1_500)), (1, 500_000_000));
    assert_eq!(split(Duration::from_nanos(999)), (0, 999));
    assert_eq!(split(Duration::from_secs(u64::MAX)), (u64::MAX, 0));
}
