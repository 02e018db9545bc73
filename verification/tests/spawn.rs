//! Spawning tasks and awaiting their handles.

use core::future::Future;
use core::pin::Pin;
use core::task::{Context, Poll, Waker};
use std::sync::atomic::{AtomicUsize, Ordering};
use std::sync::{Arc, Mutex};
use std::time::{Duration, Instant};

use nanorun::Runtime;

#[test]
fn spawn_completes_and_yields_value() {
    let rt = Runtime::with_workers(2);
    let h = rt.spawn(async { 42_u32 });
    let v = rt.block_on(async move { h.await });
    assert_eq!(v, Some(42));
}

#[test]
fn many_spawned_tasks_all_complete() {
    let rt = Runtime::with_workers(4);
    let counter = Arc::new(AtomicUsize::new(0));
    let mut handles = Vec::with_capacity(1000);
    for _ in 0..1000 {
        let c = Arc::clone(&counter);
        handles.push(rt.spawn(async move {
            c.fetch_add(1, Ordering::SeqCst);
        }));
    }
    let done = rt.block_on(async move {
        for h in handles {
            h.await;
        }
    });
    assert_eq!(done, Some(()));
    assert_eq!(counter.load(Ordering::SeqCst), 1000);
}

#[test]
fn nested_spawn_via_arc_runtime() {
    let rt = Arc::new(Runtime::with_workers(2));
    let rt_inner = Arc::clone(&rt);
    let h = rt.spawn(async move {
        let inner = rt_inner.spawn(async { 7_u32 });
        inner.await
    });
    let v = rt.block_on(async move { h.await });
    assert_eq!(v, Some(7));
}

#[test]
fn multiple_runtimes_are_independent() {
    let rt1 = Runtime::with_workers(1);
    let rt2 = Runtime::with_workers(1);
    let h1 = rt1.spawn(async { "a" });
    let h2 = rt2.spawn(async { "b" });
    let v1 = rt1.block_on(async move { h1.await });
    let v2 = rt2.block_on(async move { h2.await });
    assert_eq!(v1, Some("a"));
    assert_eq!(v2, Some("b"));
}

#[test]
fn runtime_drop_with_queued_tasks_does_not_hang() {
    struct YieldOnce(bool);
    impl Future for YieldOnce {
        type Output = ();
        fn poll(mut self: Pin<&mut Self>, cx: &mut Context<'_>) -> Poll<()> {
            if self.0 {
                Poll::Ready(())
            } else {
                self.0 = true;
                cx.waker().wake_by_ref();
                Poll::Pending
            }
        }
    }

    let rt = Runtime::with_workers(1);
    for _ in 0..200 {
        rt.spawn(async { YieldOnce(false).await });
    }
    let started = Instant::now();
    drop(rt);
    assert!(
        started.elapsed() < Duration::from_secs(2),
        "runtime drop took {:?}, expected sub-second",
        started.elapsed()
    );
}

#[test]
fn yielding_tasks_make_progress_under_contention() {
    struct YieldN(usize);
    impl Future for YieldN {
        type Output = usize;
        fn poll(mut self: Pin<&mut Self>, cx: &mut Context<'_>) -> Poll<usize> {
            if self.0 == 0 {
                Poll::Ready(0)
            } else {
                self.0 -= 1;
                cx.waker().wake_by_ref();
                Poll::Pending
            }
        }
    }

    let rt = Runtime::with_workers(4);
    let mut handles = Vec::with_capacity(50);
    for _ in 0..50 {
        handles.push(rt.spawn(YieldN(20)));
    }
    let done = rt.block_on(async move {
        for h in handles {
            assert_eq!(h.await, 0);
        }
    });
    assert_eq!(done, Some(()));
}

#[test]
fn join_handle_drop_detaches_task() {
    let rt = Runtime::with_workers(1);
    let signal = Arc::new(AtomicUsize::new(0));
    let s = Arc::clone(&signal);
    let h = rt.spawn(async move {
        s.fetch_add(1, Ordering::SeqCst);
        99_u32
    });
    drop(h);
    // Give the worker a chance to poll the detached task.
    assert_eq!(rt.block_on(nanorun::task::yield_now()), Some(()));
    drop(rt);
    assert_eq!(signal.load(Ordering::SeqCst), 1);
}

#[test]
fn cross_task_signal_via_waker() {
    struct Wait {
        slot: Arc<Mutex<Option<Waker>>>,
        signal: Arc<AtomicUsize>,
    }
    impl Future for Wait {
        type Output = u32;
        fn poll(self: Pin<&mut Self>, cx: &mut Context<'_>) -> Poll<u32> {
            if self.signal.load(Ordering::Acquire) == 1 {
                Poll::Ready(11)
            } else {
                *self.slot.lock().expect("waker slot poisoned") = Some(cx.waker().clone());
                Poll::Pending
            }
        }
    }

    let rt = Runtime::with_workers(2);
    let slot: Arc<Mutex<Option<Waker>>> = Arc::new(Mutex::new(None));
    let signal: Arc<AtomicUsize> = Arc::new(AtomicUsize::new(0));

    let waiter = rt.spawn({
        let slot = Arc::clone(&slot);
        let signal = Arc::clone(&signal);
        async move { Wait { slot, signal }.await }
    });

    let handle = rt.handle();
    let signaller = rt.spawn({
        let slot = Arc::clone(&slot);
        let signal = Arc::clone(&signal);
        async move {
            // Brief pause so the waiter parks first.
            handle.sleep(nanorun::time::instant::Duration::from_millis(20)).await;
            signal.store(1, Ordering::Release);
            if let Some(w) = slot.lock().expect("waker slot poisoned").take() {
                w.wake();
            }
        }
    });

    let v = rt.block_on(async move {
        signaller.await;
        waiter.await
    });
    assert_eq!(v, Some(11));
}

#[test]
fn queued_tasks_are_dropped_with_the_runtime() {
    struct OnDrop(Arc<AtomicUsize>);
    impl Drop for OnDrop {
        fn drop(&mut self) {
            self.0.fetch_add(1, Ordering::SeqCst);
        }
    }

    let dropped = Arc::new(AtomicUsize::new(0));
    let rt = Runtime::with_workers(3);
    for _ in 0..10 {
        let guard = OnDrop(Arc::clone(&dropped));
        rt.spawn(async move {
            let _guard = guard;
        });
    }
    assert_eq!(dropped.load(Ordering::SeqCst), 0);
    drop(rt);
    assert_eq!(dropped.load(Ordering::SeqCst), 10);
}

#[test]
fn sleeping_tasks_are_dropped_with_the_runtime() {
    struct OnDrop(Arc<AtomicUsize>);
    impl Drop for OnDrop {
        fn drop(&mut self) {
            self.0.fetch_add(1, Ordering::SeqCst);
        }
    }

    let dropped = Arc::new(AtomicUsize::new(0));
    let rt = Runtime::with_workers(1);
    let handle = rt.handle();
    let guard = OnDrop(Arc::clone(&dropped));
    rt.spawn(async move {
        let _guard = guard;
        handle.sleep(nanorun::time::instant::Duration::from_secs(3600)).await;
    });
    assert_eq!(rt.block_on(nanorun::task::yield_now()), Some(()));
    drop(rt);
    assert_eq!(dropped.load(Ordering::SeqCst), 1);
}

#[test]
fn join_handle_stays_pending_after_its_output() {
    let rt = Runtime::new();
    let mut h = rt.spawn(async { 5_u8 });
    assert!(h.is_live());
    assert_eq!(rt.block_on(&mut h), Some(5));
    assert!(!h.is_live());
    struct Once<'a>(&'a mut nanorun::JoinHandle<u8>);
    impl Future for Once<'_> {
        type Output = bool;
        fn poll(mut self: Pin<&mut Self>, cx: &mut Context<'_>) -> Poll<bool> {
            Poll::Ready(Pin::new(&mut *self.0).poll(cx).is_pending())
        }
    }
    assert_eq!(rt.block_on(Once(&mut h)), Some(true));
}

#[test]
fn a_runtime_has_at_least_one_worker() {
    assert!(Runtime::new().workers() >= 1);
    assert!(Runtime::default().workers() >= 1);
    assert_eq!(Runtime::with_workers(0).workers(), 1);
    assert_eq!(Runtime::with_workers(3).workers(), 3);
}

#[test]
fn handle_spawns_from_outside() {
    let rt = Runtime::new();
    let handle = rt.handle();
    let h = handle.spawn(async { 7 * 6 });
    assert_eq!(rt.block_on(h), Some(42));
}

#[test]
fn live_handle_delivers_once() {
    let rt = Runtime::with_workers(1);
    let mut h = rt.spawn(async { 6_u8 });
    let waker = Waker::noop();
    assert!(h.poll_live(waker).is_pending());
    assert!(h.is_live());
    assert_eq!(rt.block_on(nanorun::task::yield_now()), Some(()));
    assert_eq!(h.poll_live(waker), Poll::Ready(6));
    assert!(!h.is_live());
}

#[test]
fn dropped_waits_let_their_tasks_go() {
    struct Count;
    impl std::task::Wake for Count {
        fn wake(self: Arc<Self>) {}
    }

    let rt = Runtime::new();
    let handle = rt.handle();
    let hour = nanorun::time::instant::Duration::from_secs(3600);
    let count = Arc::new(Count);
    let waker = Waker::from(Arc::clone(&count));
    let mut cx = Context::from_waker(&waker);

    let mut sleeping = Box::pin(handle.sleep(hour));
    assert!(sleeping.as_mut().poll(&mut cx).is_pending());
    assert!(sleeping.as_mut().poll(&mut cx).is_pending());
    assert_eq!(Arc::strong_count(&count), 3, "the timer holds one waker");
    drop(sleeping);
    assert_eq!(Arc::strong_count(&count), 2);

    let mut timed = Box::pin(handle.timeout(hour, core::future::pending::<()>()));
    assert!(timed.as_mut().poll(&mut cx).is_pending());
    assert_eq!(Arc::strong_count(&count), 3);
    drop(timed);
    assert_eq!(Arc::strong_count(&count), 2);

    let mut left = Box::pin(handle.sleep(hour));
    assert!(left.as_mut().poll(&mut cx).is_pending());
    drop(rt);
    assert_eq!(Arc::strong_count(&count), 2, "the timers are gone with the runtime");
}
