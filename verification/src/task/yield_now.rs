//! Cooperative yield.

use core::future::Future;
use core::pin::Pin;
use core::task::{Context, Poll, Waker};

use vstd::prelude::*;

verus! {

/// A yield: pending once, then ready.
#[derive(Debug)]
pub struct YieldNow {
    /// Whether it has been polled.
    pub polled: bool,
}

/// Yield to other tasks: pending on the first poll, which wakes the task at once, and ready on the
/// next. Use it in long computations on a worker.
pub fn yield_now() -> (future: YieldNow)
    ensures
        !future.polled,
{
    YieldNow { polled: false }
}

impl YieldNow {
    /// The yield after a poll with `waker`, what the poll comes to, and the waker that it has to
    /// wake.
    pub open spec fn stepped<W>(self, waker: W) -> (Self, (Poll<()>, Option<W>)) {
        if self.polled {
            (self, (Poll::Ready(()), None))
        } else {
            (YieldNow { polled: true }, (Poll::Pending, Some(waker)))
        }
    }

    /// The yield after one poll with each of `wakers`.
    pub open spec fn polled_with<W>(self, wakers: Seq<W>) -> Self
        decreases wakers.len(),
    {
        if wakers.len() == 0 {
            self
        } else {
            self.polled_with(wakers.drop_last()).stepped(wakers.last()).0
        }
    }

    /// The wakers that one poll with each of `wakers` wakes, in order.
    pub open spec fn woken_by<W>(self, wakers: Seq<W>) -> Seq<W>
        decreases wakers.len(),
    {
        if wakers.len() == 0 {
            Seq::empty()
        } else {
            let woken = self.woken_by(wakers.drop_last());
            match self.polled_with(wakers.drop_last()).stepped(wakers.last()).1.1 {
                Some(waker) => woken.push(waker),
                None => woken,
            }
        }
    }

    /// Whether a poll of the pinned yield, with the waker of `cx`, came to `poll`, and woke the waker
    /// that it has to wake.
    pub closed spec fn has_polled(
        pinned: Pin<&mut YieldNow>,
        cx: &mut Context<'_>,
        poll: Poll<()>,
    ) -> bool {
        exists|yielding: &mut YieldNow, waker: &Waker, woken: Option<&Waker>|
            {
                &&& call_ensures(unpinned, (pinned,), yielding)
                &&& call_ensures(Context::waker, (&*cx,), waker)
                &&& #[trigger] call_ensures(
                    YieldNow::step::<&Waker>,
                    (yielding, waker),
                    (poll, woken),
                )
                &&& woken matches Some(waker) ==> call_ensures(Waker::wake_by_ref, (waker,), ())
            }
    }

    /// What a poll with `waker` comes to, and the waker that has to be woken at once, if any.
    pub fn step<W>(&mut self, waker: W) -> (step: (Poll<()>, Option<W>))
        ensures
            (*final(self), step) == old(self).stepped(waker),
    {
        if self.polled {
            (Poll::Ready(()), None)
        } else {
            self.polled = true;
            (Poll::Pending, Some(waker))
        }
    }
}

/// `Pin::get_mut` on a yield, which may be moved while it is pinned: the yield itself.
#[verifier::external_body]
fn unpinned<'a>(pinned: Pin<&'a mut YieldNow>) -> (yielding: &'a mut YieldNow) {
    pinned.get_mut()
}

impl Future for YieldNow {
    type Output = ();

    fn poll(self: Pin<&mut Self>, cx: &mut Context<'_>) -> (poll: Poll<()>)
        ensures
            YieldNow::has_polled(self, cx, poll),
    {
        let (poll, woken) = unpinned(self).step(cx.waker());
        if let Some(waker) = woken {
            waker.wake_by_ref();
        }
        poll
    }
}

} // verus!
