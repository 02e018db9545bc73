//! Driving futures to completion.

use std::pin::Pin;
use std::task::{Context, Poll};

use nanorun::runtime::verdict;

/// A future that resolves to `42` on the first poll without ever returning `Pending`.
struct Now;

impl core::future::Future for Now {
    type Output = u32;
    fn poll(self: Pin<&mut Self>, _cx: &mut Context<'_>) -> Poll<Self::Output> {
        Poll::Ready(42)
    }
}

#[test]
fn ready_immediately_does_not_park() {
    let value = nanorun::block_on(Now);
    assert_eq!(value, Some(42));
}

#[test]
fn async_block_returns_value() {
    let sum = nanorun::block_on(async { 1 + 2 });
    assert_eq!(sum, Some(3));
}

#[test]
fn runtime_block_on_matches_free_function() {
    let rt = nanorun::Runtime::new();
    let via_runtime = rt.block_on(async { "ok" });
    let via_free = nanorun::block_on(async { "ok" });
    assert_eq!(via_runtime, via_free);
    assert_eq!(via_free, Some("ok"));
}

#[test]
fn driving_ends_with_the_value_or_the_last_round() {
    assert_eq!(verdict::<u8, &str>(Ok(1), 5), Ok(Some(1)));
    assert_eq!(verdict::<u8, &str>(Ok(1), 0), Ok(Some(1)));
    assert_eq!(verdict::<u8, &str>(Err("rest"), 5), Err("rest"));
    assert_eq!(verdict::<u8, &str>(Err("rest"), 0), Ok(None));
}
