//! Run queues, stealing, and the way to sleep.

use nanorun::executor::multi::idle::poll_timeout;
use nanorun::executor::multi::sched::{IdlePhase, Sched, SchedCell};
use nanorun::executor::multi::worker::{xorshift64, Queues, Worker, POLL_BUDGET};
use nanorun::time::driver::Driver;
use nanorun::time::instant::{Duration, Instant};

#[test]
fn generator_steps() {
    let mut state = 1;
    assert_eq!(xorshift64(&mut state), 0x4082_2041);
    assert_eq!(state, 0x4082_2041);
    let mut zero = 0;
    let mut seed = 0xDEAD_BEEF_CAFE_F00D;
    assert_eq!(xorshift64(&mut zero), xorshift64(&mut seed));
    assert_ne!(zero, 0);
}

#[test]
fn own_queue_is_lifo_and_injector_is_fifo() {
    let mut queues = Queues::new(1);
    let mut worker = Worker::new(0, 1);
    queues.push_local(0, 'a');
    queues.push_local(0, 'b');
    queues.push_global('x');
    queues.push_global('y');
    assert!(queues.has_work(0));
    let picked: Vec<char> = (0..4).map(|_| worker.next(&mut queues).unwrap()).collect();
    assert_eq!(picked, ['b', 'a', 'x', 'y']);
    assert_eq!(worker.next(&mut queues), None);
    assert!(!queues.has_work(0));
    assert_eq!(worker.tick, 5);
}

#[test]
fn theft_takes_the_older_half() {
    let mut queues = Queues::new(2);
    for task in 1..=5 {
        queues.push_local(0, task);
    }
    let mut thief = Worker::new(1, 1);
    assert!(queues.has_work(1));
    assert_eq!(thief.next(&mut queues), Some(1));
    let mine: Vec<i32> = (0..2).map(|_| thief.next(&mut queues).unwrap()).collect();
    assert_eq!(mine, [3, 2], "stolen tasks are on the thief's own queue");
    let mut owner = Worker::new(0, 1);
    assert_eq!(owner.next(&mut queues), Some(5));
    assert_eq!(owner.next(&mut queues), Some(4));
    assert_eq!(owner.next(&mut queues), None);
}

#[test]
fn lone_worker_steals_nothing() {
    let mut queues: Queues<u8> = Queues::new(1);
    let mut worker = Worker::new(0, 77);
    assert_eq!(worker.steal(&mut queues), None);
    assert_eq!(worker.rng, 77);
    let mut pair: Queues<u8> = Queues::new(2);
    assert_eq!(worker.steal(&mut pair), None);
    assert_ne!(worker.rng, 77);
}

#[test]
fn injector_gets_its_turn() {
    let mut queues = Queues::new(1);
    let mut worker = Worker::new(0, 1);
    queues.push_global(1_000);
    let mut picks = 0;
    loop {
        queues.push_local(0, 1);
        picks += 1;
        if worker.next(&mut queues) == Some(1_000) {
            break;
        }
    }
    assert_eq!(picks, POLL_BUDGET);
}

#[test]
fn tick_wraps_round() {
    let mut queues = Queues::new(1);
    let mut worker = Worker { id: 0, tick: u64::MAX, rng: 1 };
    queues.push_local(0, 'l');
    queues.push_global('g');
    assert_eq!(worker.next(&mut queues), Some('g'), "tick zero is the injector's turn");
    assert_eq!(worker.tick, 0);
}

#[test]
fn picks_lose_no_task() {
    let mut queues = Queues::new(4);
    for task in 0..100_u32 {
        match task % 5 {
            4 => queues.push_global(task),
            w => queues.push_local(w as usize, task),
        }
    }
    let mut workers: Vec<Worker> = (0..4).map(|id| Worker::new(id, 9)).collect();
    let mut seen = Vec::new();
    'all: loop {
        for worker in &mut workers {
            match worker.next(&mut queues) {
                Some(task) => seen.push(task),
                None => break 'all,
            }
        }
    }
    seen.sort_unstable();
    assert_eq!(seen, (0..100).collect::<Vec<u32>>());
}

#[test]
fn drain_empties_every_queue() {
    let mut queues = Queues::new(2);
    queues.push_global(5);
    queues.push_local(1, 3);
    queues.push_local(0, 1);
    queues.push_local(0, 2);
    assert_eq!(queues.drain(), [1, 2, 3, 5]);
    assert!(!queues.has_work(0));
    assert_eq!(queues.workers(), 2);
}

#[test]
fn one_worker_drives_and_the_others_sleep() {
    let mut sched: Sched<u8> = Sched::new(2);
    let mut first = IdlePhase::Start;
    for expected in [
        IdlePhase::Contend,
        IdlePhase::Held,
        IdlePhase::Marked,
        IdlePhase::Driving,
        IdlePhase::Driving,
    ] {
        first = sched.idle_step(0, first);
        assert_eq!(first, expected);
    }
    let mut second = sched.idle_step(1, IdlePhase::Start);
    assert_eq!(second, IdlePhase::Contend);
    second = sched.idle_step(1, second);
    assert_eq!(second, IdlePhase::Sleeping);
    assert!(sched.schedule(1), "the driver is parked, so the reactor is woken");
    assert_eq!(sched.idle_step(0, IdlePhase::Polled), IdlePhase::Running);
    assert!(!sched.schedule(2), "nobody is parked");
    assert_eq!(sched.idle_step(1, IdlePhase::Start), IdlePhase::Running, "there is work");
}

#[test]
fn task_that_comes_late_is_seen_before_the_wait() {
    let mut sched: Sched<u8> = Sched::new(1);
    let phase = sched.idle_step(0, IdlePhase::Start);
    let phase = sched.idle_step(0, phase);
    assert!(!sched.schedule(7), "the mark is not set yet");
    let phase = sched.idle_step(0, phase);
    assert_eq!(phase, IdlePhase::Marked);
    assert_eq!(sched.idle_step(0, phase), IdlePhase::Running);
    assert!(!sched.schedule(8), "the mark is gone");
    let mut worker = Worker::new(0, 1);
    assert_eq!(sched.next(&mut worker), Some(7));
}

#[test]
fn shutdown_keeps_workers_from_sleeping() {
    let mut sched: Sched<u8> = Sched::new(1);
    sched.schedule(1);
    sched.reschedule(0, 2);
    assert!(!sched.is_shut_down());
    assert_eq!(sched.shut_down(), [2, 1]);
    assert!(sched.is_shut_down());
    assert_eq!(sched.next(&mut Worker::new(0, 1)), None);
    assert_eq!(sched.idle_step(0, IdlePhase::Start), IdlePhase::Running);
}

#[test]
fn wait_is_bounded_by_the_next_timer() {
    let mut driver: Driver<u8> = Driver::new(Instant::from_nanos(0));
    let now = Instant::from_nanos(2_500_000);
    assert_eq!(poll_timeout(&driver, now), None);
    driver.register(Instant::from_nanos(9_000_001), 1).unwrap();
    driver.register(Instant::from_nanos(6_000_000), 2).unwrap();
    assert_eq!(poll_timeout(&driver, now), Some(Duration::from_nanos(3_500_000)));
    let late = Instant::from_nanos(8_000_000);
    assert_eq!(poll_timeout(&driver, late), Some(Duration::from_nanos(0)));
}

#[test]
fn closed_scheduler_hands_tasks_back() {
    let mut cell: SchedCell<u8> = SchedCell::new(1);
    assert_eq!(cell.schedule(1), Ok(false));
    assert_eq!(cell.reschedule(0, 2), Ok(()));
    assert_eq!(cell.reschedule(1, 3), Err(3), "there is no second worker");
    let mut worker = Worker::new(0, 1);
    assert_eq!(cell.next(&mut worker), Some(2));
    assert_eq!(worker.tick, 1);
    assert!(!cell.is_shut_down());
    let mut sched = cell.close().unwrap();
    assert_eq!(sched.next(&mut worker), Some(1));

    assert!(cell.close().is_none());
    assert!(cell.is_shut_down());
    assert_eq!(cell.schedule(4), Err(4));
    assert_eq!(cell.reschedule(0, 5), Err(5));
    assert_eq!(cell.next(&mut worker), None);
    assert_eq!(worker.tick, 3, "a look counts even if there is nothing to look at");
    assert_eq!(cell.shut_down(), Vec::<u8>::new());
}

#[test]
fn unknown_worker_never_drives() {
    let mut cell: SchedCell<u8> = SchedCell::new(1);
    let steps = [
        (IdlePhase::Start, IdlePhase::Running),
        (IdlePhase::Contend, IdlePhase::Sleeping),
        (IdlePhase::Held, IdlePhase::Marked),
        (IdlePhase::Marked, IdlePhase::Running),
        (IdlePhase::Polled, IdlePhase::Running),
        (IdlePhase::Driving, IdlePhase::Driving),
    ];
    for (phase, next) in steps {
        assert_eq!(cell.idle_step(7, phase), next);
    }
    assert_eq!(cell.idle_step(0, IdlePhase::Contend), IdlePhase::Held, "the token is still free");
    assert_eq!(cell.idle_step(0, IdlePhase::Held), IdlePhase::Marked);
    assert_eq!(cell.schedule(9), Ok(true), "the driver is parked");
    assert_eq!(cell.shut_down(), vec![9]);
    assert!(cell.is_shut_down());
}
