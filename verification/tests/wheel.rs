//! Timer wheel and timer driver.

use core::task::Poll;

use nanorun::time::driver::{
    instant_to_tick_ceil, instant_to_tick_floor, tick_to_instant, Driver,
};
use nanorun::time::instant::{Duration, Instant};
use nanorun::time::wheel::{Entry, Wheel, MAX_TICKS};
use nanorun::time::{sleep, timeout, SleepStep, TimeoutStep};

fn at(nanos: u128) -> Instant {
    Instant::from_nanos(nanos)
}

#[test]
fn wheel_expires_in_order_of_deadlines() {
    let mut wheel = Wheel::new();
    for (id, deadline) in [(1, 70), (2, 5), (3, 4_096), (4, 64), (5, 300_000), (6, 5)] {
        assert!(wheel.insert(Entry { id, deadline }).is_ok());
    }
    assert_eq!(wheel.len(), 6);
    assert_eq!(wheel.next_tick(), Some(5));
    let ids = |expired: Vec<Entry>| expired.iter().map(|e| e.id).collect::<Vec<u64>>();
    assert_eq!(ids(wheel.advance_to(4)), []);
    let mut five = ids(wheel.advance_to(5));
    five.sort_unstable();
    assert_eq!(five, [2, 6]);
    assert_eq!(ids(wheel.advance_to(100)), [4, 1]);
    assert_eq!(ids(wheel.advance_to(300_000)), [3, 5]);
    assert_eq!(wheel.len(), 0);
    assert_eq!(wheel.next_tick(), None);
}

#[test]
fn wheel_hands_back_what_is_due() {
    let mut wheel = Wheel::new();
    assert_eq!(wheel.insert(Entry { id: 1, deadline: 0 }), Err(Entry { id: 1, deadline: 0 }));
    wheel.advance_to(10);
    assert!(wheel.insert(Entry { id: 2, deadline: 10 }).is_err());
    assert!(wheel.insert(Entry { id: 3, deadline: 11 }).is_ok());
    wheel.clear();
    assert_eq!(wheel.len(), 0);
}

#[test]
fn wheel_clamps_far_deadlines() {
    let mut wheel = Wheel::new();
    assert!(wheel.insert(Entry { id: 1, deadline: u64::MAX }).is_ok());
    assert_eq!(wheel.next_tick(), Some(MAX_TICKS - 1));
}

#[test]
fn deadlines_round_up_and_now_rounds_down() {
    let epoch = at(5);
    assert_eq!(instant_to_tick_ceil(epoch, at(5)), 0);
    assert_eq!(instant_to_tick_ceil(epoch, at(6)), 1);
    assert_eq!(instant_to_tick_ceil(epoch, at(1_000_005)), 1);
    assert_eq!(instant_to_tick_ceil(epoch, at(1_000_006)), 2);
    assert_eq!(instant_to_tick_ceil(epoch, at(0)), 0);
    assert_eq!(instant_to_tick_floor(epoch, at(1_000_004)), 0);
    assert_eq!(instant_to_tick_floor(epoch, at(1_000_005)), 1);
    assert_eq!(instant_to_tick_ceil(epoch, at(u128::MAX)), u64::MAX);
    assert_eq!(instant_to_tick_floor(epoch, at(u128::MAX)), u64::MAX);
    assert_eq!(tick_to_instant(epoch, 3), at(3_000_005));
    for tick in [0, 1, 63, 64, 1_000_000] {
        let point = tick_to_instant(epoch, tick);
        assert_eq!(instant_to_tick_ceil(epoch, point), tick);
        assert_eq!(instant_to_tick_floor(epoch, point), tick);
    }
}

#[test]
fn driver_fires_what_is_due_and_not_cancelled() {
    let mut driver = Driver::new(at(0));
    let a = driver.register(at(3_000_000), 'a').unwrap();
    let b = driver.register(at(1_500_000), 'b').unwrap();
    let c = driver.register(at(9_000_000), 'c').unwrap();
    assert_eq!((a, b, c), (0, 1, 2));
    assert_eq!(driver.next_deadline(), Some(at(2_000_000)));
    assert_eq!(driver.advance(at(1_999_999)), []);
    assert_eq!(driver.advance(at(3_000_000)), ['b', 'a']);
    driver.cancel(c);
    driver.cancel(a);
    assert_eq!(driver.advance(at(20_000_000)), []);
    assert_eq!(driver.register(at(20_000_000), 'd'), Err('d'));
    driver.register(at(21_000_000), 'e').unwrap();
    driver.clear();
    assert_eq!(driver.len(), 0);
    assert_eq!(driver.advance(at(30_000_000)), []);
}

#[test]
fn sleep_steps() {
    let mut driver = Driver::new(at(0));
    let mut nap = sleep(at(100), Duration::from_millis(2));
    assert!(matches!(nap.poll_at(at(100), &mut driver, 1), SleepStep::Registered));
    assert!(matches!(nap.poll_at(at(2_000_000), &mut driver, 2), SleepStep::Waiting));
    assert!(matches!(nap.poll_at(at(2_000_100), &mut driver, 3), SleepStep::Ready));
    assert_eq!(driver.advance(at(3_000_000)), [1]);
    let mut late = sleep(at(2_400_000), Duration::from_nanos(500_000));
    assert!(matches!(late.poll_at(at(2_500_000), &mut driver, 4), SleepStep::Late(4)));
    let mut given_up = sleep(at(3_000_000), Duration::from_millis(1));
    given_up.poll_at(at(3_000_000), &mut driver, 5);
    given_up.cancel(&mut driver);
    assert_eq!(driver.advance(at(9_000_000)), []);
}

#[test]
fn timeout_steps() {
    let mut driver = Driver::new(at(0));
    let mut timed = timeout(at(0), Duration::from_millis(1), "future");
    let step = timed.poll_at::<u8, _>(Poll::Pending, at(0), &mut driver, 'w');
    assert!(matches!(step, TimeoutStep::Registered));
    let step = timed.poll_at::<u8, _>(Poll::Pending, at(999_999), &mut driver, 'w');
    assert!(matches!(step, TimeoutStep::Waiting));
    let step = timed.poll_at(Poll::Ready(3), at(5_000_000), &mut driver, 'w');
    assert!(matches!(step, TimeoutStep::Done(Ok(3))));
    let step = timed.poll_at::<u8, _>(Poll::Pending, at(5_000_000), &mut driver, 'w');
    assert!(matches!(step, TimeoutStep::Done(Err(_))));
    assert_eq!(timed.future, "future");
}

#[test]
fn spans_and_points() {
    assert_eq!(Duration::from_secs(2), Duration::from_millis(2_000));
    assert_eq!(Duration::from_millis(1).as_nanos(), 1_000_000);
    assert_eq!(Duration::from_nanos(2_999_999).as_millis(), 2);
    assert_eq!(at(1).after(Duration::from_nanos(2)), at(3));
    assert_eq!(at(1).saturating_after(Duration::from_nanos(2)), at(3));
    assert_eq!(at(u128::MAX).saturating_after(Duration::from_nanos(2)), at(u128::MAX));
    assert_eq!(at(3).saturating_duration_since(at(1)), Duration::from_nanos(2));
    assert_eq!(at(1).saturating_duration_since(at(3)), Duration::from_nanos(0));
    assert!(at(3).reached(at(3)) && !at(2).reached(at(3)));
}

#[test]
fn next_tick_is_the_first_to_fire() {
    let mut wheel = Wheel::new();
    for (id, deadline) in [(1, 90), (2, 70), (3, 70), (4, 5_000)] {
        assert!(wheel.insert(Entry { id, deadline }).is_ok());
    }
    assert_eq!(wheel.next_tick(), Some(70));
    assert!(wheel.advance_to(69).is_empty());
    let expired = wheel.advance_to(70);
    assert_eq!(expired.len(), 2);
    assert!(expired.iter().all(|entry| entry.deadline == 70));
    assert!(wheel.advance_to(10).is_empty(), "the past fires nothing");
    assert_eq!(wheel.len(), 2);
    assert_eq!(wheel.next_tick(), Some(90));
}

#[test]
fn timer_fires_once_over_many_advances() {
    let mut driver: Driver<char> = Driver::new(at(0));
    let deadline = at(70_500_000);
    assert_eq!(driver.register(at(900_000_000), 'x'), Ok(0));
    assert_eq!(driver.register(deadline, 'a'), Ok(1));
    for nanos in [1_000_000, 64_000_000, 70_499_999, 30] {
        assert!(driver.advance(at(nanos)).is_empty());
    }
    assert_eq!(driver.register(at(80_000_000), 'b'), Ok(2));
    driver.cancel(0);
    assert_eq!(driver.advance(at(71_500_000)), vec!['a']);
    assert_eq!(driver.advance(at(71_500_000)), Vec::<char>::new());
    assert_eq!(driver.advance(at(2_000_000_000)), vec!['b']);
    assert_eq!(driver.advance(at(9_000_000_000)), Vec::<char>::new());
}

#[test]
fn cleared_driver_is_silent_and_goes_on_counting() {
    let mut driver: Driver<char> = Driver::new(at(0));
    assert_eq!(driver.register(at(5_000_000), 'a'), Ok(0));
    assert_eq!(driver.register(at(6_000_000), 'b'), Ok(1));
    driver.clear();
    assert_eq!(driver.next_deadline(), None);
    assert!(driver.advance(at(5_500_000)).is_empty());
    assert!(driver.advance(at(50_000_000)).is_empty());
    assert_eq!(driver.register(at(1_000_000), 'l'), Err('l'), "too late");
    assert_eq!(driver.register(at(60_000_000), 'c'), Ok(3), "a late one counts too");
    assert_eq!(driver.advance(at(60_000_000)), vec!['c']);
}

#[test]
fn sleep_is_pending_before_its_deadline_and_ready_after() {
    let mut driver: Driver<char> = Driver::new(at(0));
    let mut sleeping = sleep(at(1_000), Duration::from_millis(2));
    for (nanos, over) in [(1_000, false), (2_000_999, false), (2_001_000, true), (3_000_000, true)] {
        let step = sleeping.poll_at(at(nanos), &mut driver, 'w');
        assert_eq!(matches!(step, SleepStep::Ready), over);
    }
    let mut none: Driver<char> = Driver::new(at(0));
    let mut at_once = sleep(at(7), Duration::from_nanos(0));
    assert!(matches!(at_once.poll_at(at(7), &mut none, 'w'), SleepStep::Ready));
    assert_eq!(none.len(), 0);
}

#[test]
fn spans_of_seconds_and_nanoseconds() {
    assert_eq!(Duration::new(3, 5).as_nanos(), 3_000_000_005);
    assert_eq!(Duration::new(u64::MAX, 999_999_999).as_millis(), 18_446_744_073_709_551_615_999);
}

#[test]
fn cancelled_timer_stays_silent() {
    let mut driver: Driver<char> = Driver::new(at(0));
    assert_eq!(driver.register(at(5_000_000), 'a'), Ok(0));
    assert_eq!(driver.register(at(6_000_000), 'b'), Ok(1));
    driver.cancel(0);
    driver.cancel(0);
    assert_eq!(driver.register(at(7_000_000), 'c'), Ok(2));
    assert_eq!(driver.advance(at(6_500_000)), vec!['b']);
    driver.cancel(1);
    assert_eq!(driver.advance(at(90_000_000)), vec!['c']);
}
