//! The multi-worker executor, with this thread as all of its workers.

use core::future::Future;
use core::pin::Pin;
use core::task::{Context, Poll, Waker};
use std::sync::atomic::{AtomicUsize, Ordering as AtomOrd};
use std::sync::{Arc, Mutex};
use std::task::Wake;
use std::time::{Duration, Instant};

use nanorun::executor::multi::sched::IdlePhase;
use nanorun::executor::multi::worker::Worker;
use nanorun::executor::multi::Multi;
use nanorun::JoinHandle;

struct Ignore;

impl Wake for Ignore {
    fn wake(self: Arc<Self>) {}
}

/// Run the workers of `multi` in turn until `handle` is ready.
fn block_on_handle<T: Send + 'static>(multi: &Multi, mut handle: JoinHandle<T>) -> T {
    let waker = Waker::from(Arc::new(Ignore));
    let mut cx = Context::from_waker(&waker);
    let mut workers: Vec<Worker> = (0..multi.workers()).map(|id| Worker::new(id, 0)).collect();
    loop {
        match Pin::new(&mut handle).poll(&mut cx) {
            Poll::Ready(v) => return v,
            Poll::Pending => {
                for worker in &mut workers {
                    multi.turn(worker);
                }
            }
        }
    }
}

#[test]
fn ready_future_completes() {
    let multi = Multi::new(2);
    let h = multi.spawner().spawn(async { 42_u32 });
    let v = block_on_handle(&multi, h);
    drop(multi);
    assert_eq!(v, 42);
}

#[test]
fn many_tasks_all_complete() {
    let multi = Multi::new(4);
    let counter = Arc::new(AtomicUsize::new(0));
    let mut handles = Vec::new();
    for _ in 0..1000 {
        let c = Arc::clone(&counter);
        handles.push(multi.spawner().spawn(async move {
            c.fetch_add(1, AtomOrd::SeqCst);
        }));
    }
    for h in handles {
        block_on_handle(&multi, h);
    }
    drop(multi);
    assert_eq!(counter.load(AtomOrd::SeqCst), 1000);
}

#[test]
fn yielding_task_progresses() {
    struct YieldN(usize);
    impl Future for YieldN {
        type Output = usize;
        fn poll(mut self: Pin<&mut Self>, cx: &mut Context<'_>) -> Poll<usize> {
            if self.0 == 0 {
                Poll::Ready(0)
            } else {
                self.0 -= 1;
                cx.waker().wake_by_ref();
                Poll::Pending
            }
        }
    }
    let multi = Multi::new(2);
    let h = multi.spawner().spawn(YieldN(50));
    let v = block_on_handle(&multi, h);
    drop(multi);
    assert_eq!(v, 0);
}

#[test]
fn cross_worker_wake_delivers() {
    // A task that one worker has parked on a custom waker is woken through that waker, and another
    // worker takes it up.
    struct Park {
        slot: Arc<Mutex<(bool, Option<Waker>)>>,
    }
    impl Future for Park {
        type Output = u32;
        fn poll(self: Pin<&mut Self>, cx: &mut Context<'_>) -> Poll<u32> {
            let mut g = self.slot.lock().expect("park slot poisoned");
            if g.0 {
                Poll::Ready(7)
            } else {
                g.1 = Some(cx.waker().clone());
                Poll::Pending
            }
        }
    }

    let multi = Multi::new(2);
    let signal = Arc::new(Mutex::new((false, None::<Waker>)));

    let s = Arc::clone(&signal);
    let h = multi.spawner().spawn(Park { slot: s });

    let mut first = Worker::new(0, 0);
    let mut second = Worker::new(1, 0);
    assert!(multi.turn(&mut first), "the task is run");
    assert!(!multi.turn(&mut second), "the task has parked");
    {
        let mut g = signal.lock().expect("park slot poisoned");
        g.0 = true;
        if let Some(w) = g.1.take() {
            w.wake();
        }
    }
    assert!(multi.turn(&mut second), "the task is run again");

    let started = Instant::now();
    let v = block_on_handle(&multi, h);
    assert!(started.elapsed() < Duration::from_secs(2));
    assert_eq!(v, 7);
    drop(multi);
}

#[test]
fn shutdown_joins_all_workers() {
    let multi = Multi::new(4);
    let started = Instant::now();
    drop(multi);
    assert!(
        started.elapsed() < Duration::from_secs(1),
        "shutdown should not stall on idle workers"
    );
}

#[test]
fn every_turn_is_counted() {
    let multi = Multi::new(1);
    let mut worker = Worker::new(0, 1);
    assert!(!multi.turn(&mut worker));
    assert_eq!(worker.tick, 1);
    let handle = multi.spawner().spawn(async { 5 });
    assert!(multi.turn(&mut worker));
    assert_eq!(worker.tick, 2);
    assert_eq!(block_on_handle(&multi, handle), 5);

    assert_eq!(multi.idle_step(0, IdlePhase::Held), IdlePhase::Marked);
    assert_eq!(multi.idle_step(0, IdlePhase::Polled), IdlePhase::Running);
    assert!(!multi.is_shut_down());
    multi.shut_down();
    assert!(multi.is_shut_down());
}

#[test]
fn workers_do_not_go_to_sleep_after_the_shutdown() {
    let multi = Multi::new(2);
    assert_eq!(multi.idle_step(0, IdlePhase::Start), IdlePhase::Contend);
    multi.shut_down();
    assert_eq!(multi.idle_step(0, IdlePhase::Start), IdlePhase::Running);
    assert_eq!(multi.idle_step(1, IdlePhase::Start), IdlePhase::Running);
}
