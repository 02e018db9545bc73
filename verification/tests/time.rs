//! Sleeping and deadlines on a runtime.

use std::time::Instant;

use nanorun::time::instant::Duration;
use nanorun::Runtime;

#[test]
fn sleep_lasts_at_least_as_long_as_asked() {
    let rt = Runtime::new();
    let handle = rt.handle();
    let start = Instant::now();
    let done = rt.block_on(async move {
        handle.sleep(Duration::from_millis(10)).await;
    });
    assert_eq!(done, Some(()));
    assert!(start.elapsed() >= std::time::Duration::from_millis(10));
}

#[test]
fn timeout_lets_a_ready_future_win() {
    let rt = Runtime::new();
    let handle = rt.handle();
    let ok = rt.block_on(handle.timeout(Duration::from_secs(1), async { 42 }));
    assert_eq!(ok, Some(Ok(42)));
    let at_once = rt.block_on(handle.timeout(Duration::from_secs(0), async { 7 }));
    assert_eq!(at_once, Some(Ok(7)));
}

#[test]
fn timeout_ends_a_future_that_takes_too_long() {
    let rt = Runtime::new();
    let handle = rt.handle();
    let start = Instant::now();
    let long = handle.sleep(Duration::from_secs(60));
    let err = rt.block_on(handle.timeout(Duration::from_millis(10), long));
    assert!(matches!(err, Some(Err(_))));
    assert_eq!(err.unwrap().unwrap_err().message(), "deadline elapsed");
    assert!(start.elapsed() >= std::time::Duration::from_millis(10));
    assert!(start.elapsed() < std::time::Duration::from_secs(10));
}

#[test]
fn spawned_tasks_sleep_side_by_side() {
    let rt = Runtime::with_workers(2);
    let handle = rt.handle();
    let start = Instant::now();
    let mut joins = Vec::new();
    for i in 0..20_u64 {
        let inner = handle.clone();
        joins.push(handle.spawn(async move {
            inner.sleep(Duration::from_millis(100)).await;
            i
        }));
    }
    let sum = rt.block_on(async move {
        let mut sum = 0;
        for join in joins {
            sum += join.await;
        }
        sum
    });
    assert_eq!(sum, Some(190));
    assert!(start.elapsed() >= std::time::Duration::from_millis(100));
    assert!(start.elapsed() < std::time::Duration::from_millis(1_900));
}

struct Waits {
    sleeping: nanorun::time::Sleeping,
    timed: nanorun::time::Timed<nanorun::time::Sleeping>,
}

#[test]
fn waits_can_be_kept_in_a_struct() {
    let rt = Runtime::new();
    let handle = rt.handle();
    let start = Instant::now();
    let waits = Waits {
        sleeping: handle.sleep(Duration::from_millis(30)),
        timed: handle.timeout(Duration::from_millis(5), handle.sleep(Duration::from_secs(60))),
    };
    let in_time = rt.block_on(async move {
        waits.sleeping.await;
        waits.timed.await.is_ok()
    });
    assert_eq!(in_time, Some(false));
    assert!(start.elapsed() >= std::time::Duration::from_millis(30));
}
