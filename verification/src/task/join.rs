//! Handle for awaiting a spawned task.

use core::future::Future;
use core::pin::Pin;
use core::task::{Context, Poll, Waker};

use vstd::prelude::*;

use crate::task::raw::JoinPoll;

verus! {

/// A task whose output can be asked for, whatever its future is.
pub(crate) trait Joinable<T>: Send {
    /// Whether the task has been asked for its output with `waker`, and came to `answer`.
    spec fn has_answered(&self, waker: Waker, answer: JoinPoll<T, Waker>) -> bool;

    /// Poll for the output; `waker` is fired when it is there.
    fn poll_join(&self, waker: &Waker) -> (answer: JoinPoll<T, Waker>)
        ensures
            self.has_answered(*waker, answer),
    ;

    /// Nobody will ask for the output any more.
    fn detach(&self)
        opens_invariants none
        no_unwind
    {
    }
}

/// Tell `task` that nobody will ask for its output any more.
fn let_go<T, J: Joinable<T> + ?Sized>(task: &J)
    ensures
        call_ensures(J::detach, (task,), ()),
    opens_invariants none
    no_unwind
{
    task.detach();
}

/// What a poll of a join handle comes to when the task came to `answer`.
pub open spec fn settled<T, W>(answer: JoinPoll<T, W>) -> Poll<T> {
    match answer {
        JoinPoll::Ready(output) => Poll::Ready(output),
        JoinPoll::Parked(_) | JoinPoll::Taken => Poll::Pending,
    }
}

/// Handle of a spawned task. Awaiting it yields the task's output.
///
/// Dropping the handle detaches the task: it runs on, but its output is dropped.
#[verifier::reject_recursive_types(T)]
pub struct JoinHandle<T> {
    raw: Option<Box<dyn Joinable<T>>>,
}

impl<T> JoinHandle<T> {
    /// Whether the output has not been delivered yet.
    pub closed spec fn spec_is_live(&self) -> bool {
        self.raw is Some
    }

    /// The task that the handle waits for, until its output is delivered.
    pub(crate) closed spec fn task(&self) -> Option<Box<dyn Joinable<T>>> {
        self.raw
    }

    pub(crate) fn new(raw: Box<dyn Joinable<T>>) -> (handle: Self)
        ensures
            handle.is_live(),
            handle.task() matches Some(task) && task == raw,
    {
        let raw = Some(raw);
        JoinHandle { raw }
    }

    /// Whether the output has not been delivered yet.
    #[verifier::when_used_as_spec(spec_is_live)]
    pub fn is_live(&self) -> (live: bool)
        ensures
            live == self.spec_is_live(),
    {
        self.raw.is_some()
    }

    /// Whether the task of the handle has been asked for its output with `waker`, and the poll came
    /// to `poll` for that.
    pub closed spec fn has_asked(&self, waker: Waker, poll: Poll<T>) -> bool {
        self.raw is Some && exists|answer: JoinPoll<T, Waker>| #[trigger]
            self.raw->0.has_answered(waker, answer) && poll == settled(answer)
    }

    /// Whether a poll of the pinned handle, with the waker of `cx`, came to `poll`: the task was
    /// asked, unless the output had been delivered.
    pub closed spec fn has_polled(
        pinned: Pin<&mut JoinHandle<T>>,
        cx: &mut Context<'_>,
        poll: Poll<T>,
    ) -> bool {
        exists|handle: &mut JoinHandle<T>, waker: &Waker| #[trigger]
            call_ensures(unpinned::<T>, (pinned,), handle) && if handle.is_live() {
                #[trigger] call_ensures(Context::waker, (&*cx,), waker) && handle.has_asked(
                    *waker,
                    poll,
                )
            } else {
                poll is Pending
            }
    }

    /// Whether the task has been let go, unless the output had been delivered.
    pub closed spec fn is_dropped(&self) -> bool {
        self.raw matches Some(raw) ==> call_ensures(let_go::<T, dyn Joinable<T>>, (&*raw,), ())
    }

    /// Settle a poll in which the task came to `answer`. Once the output is delivered, the handle
    /// lets the task go, and never becomes ready again.
    fn settle(&mut self, answer: JoinPoll<T, Waker>) -> (poll: Poll<T>)
        ensures
            poll == settled(answer),
            poll is Ready ==> !final(self).is_live(),
            poll is Pending ==> *final(self) == *old(self),
    {
        match answer {
            JoinPoll::Ready(output) => {
                self.raw = None;
                Poll::Ready(output)
            },
            JoinPoll::Parked(_) | JoinPoll::Taken => Poll::Pending,
        }
    }

    /// Poll for the output with `waker`. A handle delivers its output once, and must not be polled
    /// after that.
    pub fn poll_live(&mut self, waker: &Waker) -> (poll: Poll<T>)
        requires
            old(self).is_live(),
        ensures
            old(self).has_asked(*waker, poll),
            poll is Ready ==> !final(self).is_live(),
            poll is Pending ==> *final(self) == *old(self),
    {
        let answer = match &self.raw {
            Some(raw) => raw.poll_join(waker),
            None => JoinPoll::Taken,
        };
        self.settle(answer)
    }
}

/// `Pin::get_mut` on a join handle, which may be moved while it is pinned: the handle itself.
#[verifier::external_body]
fn unpinned<'a, T>(pinned: Pin<&'a mut JoinHandle<T>>) -> (handle: &'a mut JoinHandle<T>) {
    pinned.get_mut()
}

impl<T> Future for JoinHandle<T> {
    type Output = T;

    /// A handle that has delivered its output stays pending. Whoever wants a mistake of this kind
    /// to show tests [`JoinHandle::is_live`] before.
    fn poll(self: Pin<&mut Self>, cx: &mut Context<'_>) -> (poll: Poll<T>)
        ensures
            JoinHandle::<T>::has_polled(self, cx, poll),
    {
        let handle = unpinned(self);
        let waker = cx.waker();
        if handle.is_live() {
            handle.poll_live(waker)
        } else {
            Poll::Pending
        }
    }
}

impl<T> Drop for JoinHandle<T> {
    fn drop(&mut self)
        ensures
            old(self).is_dropped(),
        opens_invariants none
        no_unwind
    {
        if let Some(raw) = &self.raw {
            let_go::<T, dyn Joinable<T>>(&**raw);
        }
    }
}

} // verus!
