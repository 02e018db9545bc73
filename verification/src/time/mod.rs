//! Timers: `sleep`, `timeout`, and the driver and wheel behind them.

pub mod driver;
pub mod instant;
pub mod laws;
pub(crate) mod timers;
pub mod wheel;

use core::task::Poll;

use vstd::prelude::*;

use crate::time::driver::{Driver, EntryId};
use crate::time::instant::{Duration, Instant};
use crate::time::wheel::Entry;

pub use crate::time::timers::{Sleeping, Timed};

verus! {

/// A sleep in progress: done once its deadline is reached.
#[derive(Debug)]
pub struct Sleep {
    /// The point in time at which the sleep is over.
    pub deadline: Instant,
    /// The registration with the driver, once there is one.
    pub entry_id: Option<EntryId>,
}

/// The point in time `dur` after `now`, or the last one there is if that is too far.
pub open spec fn deadline_after(now: Instant, dur: Duration) -> int {
    if now@ + dur@ <= u128::MAX {
        (now@ + dur@) as int
    } else {
        u128::MAX as int
    }
}

/// Sleep for at least `dur`, counted from `now`.
pub fn sleep(now: Instant, dur: Duration) -> (sleep: Sleep)
    ensures
        sleep.deadline@ == deadline_after(now, dur),
        sleep.entry_id is None,
{
    Sleep { deadline: now.saturating_after(dur), entry_id: None }
}

/// What polling a [`Sleep`] came to.
#[derive(Debug)]
pub enum SleepStep<W> {
    /// The deadline is reached.
    Ready,
    /// The deadline is ahead, and an earlier poll has registered it.
    Waiting,
    /// The deadline is ahead, and this poll has registered it: the reactor has to be woken.
    Registered,
    /// The driver takes the deadline for past: the waker has to be fired at once.
    Late(W),
}

/// The tick at which `driver` fires a timer for `deadline`.
pub open spec fn deadline_tick<W>(driver: Driver<W>, deadline: Instant) -> u64 {
    driver::tick_ceil(driver.epoch(), deadline)
}

/// `after` is `before` with a registration of `waker` for `deadline` added.
pub open spec fn registered<W>(
    before: Driver<W>,
    after: Driver<W>,
    deadline: Instant,
    waker: W,
) -> bool {
    let entry = Entry { id: before.next_id(), deadline: deadline_tick(before, deadline) };
    &&& after.wf()
    &&& after.epoch() == before.epoch()
    &&& after.cursor() == before.cursor()
    &&& after.pending() == before.pending().insert(wheel::clamped(entry, before.cursor()))
    &&& after.wakers() == before.wakers().insert(before.next_id(), waker)
    &&& after.next_id() == driver::id_after(before.next_id())
}

impl Sleep {
    /// Whether the sleep is over at `now`.
    pub open spec fn is_over(self, now: Instant) -> bool {
        now@ >= self.deadline@
    }

    /// Poll the sleep at `now`. The waker is registered with `driver` if it has to wait.
    pub fn poll_at<W>(
        &mut self,
        now: Instant,
        driver: &mut Driver<W>,
        waker: W,
    ) -> (step: SleepStep<W>)
        requires
            old(driver).wf(),
            old(driver).pending().len() < usize::MAX,
        ensures
            final(self).deadline == old(self).deadline,
            final(driver).wf(),
            old(self).is_over(now) ==> {
                &&& step is Ready
                &&& final(self).entry_id == old(self).entry_id
                &&& *final(driver) == *old(driver)
            },
            !old(self).is_over(now) && old(self).entry_id is Some ==> {
                &&& step is Waiting
                &&& final(self).entry_id == old(self).entry_id
                &&& *final(driver) == *old(driver)
            },
            !old(self).is_over(now) && old(self).entry_id is None && deadline_tick(
                *old(driver),
                old(self).deadline,
            ) <= old(driver).cursor() ==> {
                &&& step == SleepStep::Late(waker)
                &&& final(self).entry_id is None
                &&& final(driver).pending() == old(driver).pending()
                &&& final(driver).wakers() == old(driver).wakers()
                &&& final(driver).cursor() == old(driver).cursor()
                &&& final(driver).epoch() == old(driver).epoch()
                &&& final(driver).next_id() == driver::id_after(old(driver).next_id())
            },
            !old(self).is_over(now) && old(self).entry_id is None && deadline_tick(
                *old(driver),
                old(self).deadline,
            ) > old(driver).cursor() ==> {
                &&& step is Registered
                &&& final(self).entry_id == Some(old(driver).next_id())
                &&& registered(*old(driver), *final(driver), old(self).deadline, waker)
            },
    {
        if now.reached(self.deadline) {
            return SleepStep::Ready;
        }
        if self.entry_id.is_some() {
            return SleepStep::Waiting;
        }
        match driver.register(self.deadline, waker) {
            Ok(id) => {
                self.entry_id = Some(id);
                SleepStep::Registered
            },
            Err(waker) => SleepStep::Late(waker),
        }
    }

    /// Give the sleep up: its waker, if registered, will not fire.
    pub fn cancel<W>(self, driver: &mut Driver<W>)
        requires
            old(driver).wf(),
        ensures
            final(driver).wf(),
            final(driver).wakers() == match self.entry_id {
                Some(id) => old(driver).wakers().remove(id),
                None => old(driver).wakers(),
            },
            final(driver).pending() == old(driver).pending(),
            final(driver).cursor() == old(driver).cursor(),
            final(driver).next_id() == old(driver).next_id(),
            final(driver).epoch() == old(driver).epoch(),
    {
        if let Some(id) = self.entry_id {
            driver.cancel(id);
        }
    }
}

/// Run `future` with a deadline `dur` after `now`.
pub fn timeout<F>(now: Instant, dur: Duration, future: F) -> (timeout: Timeout<F>)
    ensures
        timeout.future == future,
        timeout.sleep.deadline@ == deadline_after(now, dur),
        timeout.sleep.entry_id is None,
{
    Timeout { future, sleep: sleep(now, dur) }
}

/// A future with a deadline.
#[derive(Debug)]
pub struct Timeout<F> {
    /// The future to run.
    pub future: F,
    /// The deadline it runs under.
    pub sleep: Sleep,
}

/// What polling a [`Timeout`] came to.
#[derive(Debug)]
pub enum TimeoutStep<T, W> {
    /// The future is ready, or the deadline was reached before it was.
    Done(Result<T, Elapsed>),
    /// Neither yet; see [`SleepStep::Waiting`].
    Waiting,
    /// Neither yet; see [`SleepStep::Registered`].
    Registered,
    /// Neither yet; see [`SleepStep::Late`].
    Late(W),
}

impl<F> Timeout<F> {
    /// Settle a poll at `now` in which the inner future came to `inner`.
    ///
    /// The inner future is polled before this call, and its value wins even if the deadline has
    /// been reached.
    pub fn poll_at<T, W>(
        &mut self,
        inner: Poll<T>,
        now: Instant,
        driver: &mut Driver<W>,
        waker: W,
    ) -> (step: TimeoutStep<T, W>)
        requires
            old(driver).wf(),
            old(driver).pending().len() < usize::MAX,
        ensures
            final(self).future == old(self).future,
            final(self).sleep.deadline == old(self).sleep.deadline,
            final(driver).wf(),
            inner matches Poll::Ready(value) ==> {
                &&& step == TimeoutStep::<T, W>::Done(Ok(value))
                &&& *final(self) == *old(self)
                &&& *final(driver) == *old(driver)
            },
            inner is Pending && old(self).sleep.is_over(now) ==> {
                &&& step == TimeoutStep::<T, W>::Done(Err(Elapsed::new_spec()))
                &&& *final(self) == *old(self)
                &&& *final(driver) == *old(driver)
            },
            inner is Pending && !old(self).sleep.is_over(now) && old(
                self).sleep.entry_id is Some ==> {
                &&& step is Waiting
                &&& *final(self) == *old(self)
                &&& *final(driver) == *old(driver)
            },
            inner is Pending && !old(self).sleep.is_over(now) && old(self).sleep.entry_id is None
                && deadline_tick(*old(driver), old(self).sleep.deadline) <= old(driver).cursor()
                ==> {
                &&& step == TimeoutStep::<T, W>::Late(waker)
                &&& *final(self) == *old(self)
                &&& final(driver).pending() == old(driver).pending()
                &&& final(driver).wakers() == old(driver).wakers()
                &&& final(driver).cursor() == old(driver).cursor()
                &&& final(driver).epoch() == old(driver).epoch()
                &&& final(driver).next_id() == driver::id_after(old(driver).next_id())
            },
            inner is Pending && !old(self).sleep.is_over(now) && old(self).sleep.entry_id is None
                && deadline_tick(*old(driver), old(self).sleep.deadline) > old(driver).cursor()
                ==> {
                &&& step is Registered
                &&& final(self).sleep.entry_id == Some(old(driver).next_id())
                &&& registered(*old(driver), *final(driver), old(self).sleep.deadline, waker)
            },
    {
        if let Poll::Ready(value) = inner {
            return TimeoutStep::Done(Ok(value));
        }
        match self.sleep.poll_at(now, driver, waker) {
            SleepStep::Ready => TimeoutStep::Done(Err(Elapsed(()))),
            SleepStep::Waiting => TimeoutStep::Waiting,
            SleepStep::Registered => TimeoutStep::Registered,
            SleepStep::Late(waker) => TimeoutStep::Late(waker),
        }
    }
}

/// The deadline of a [`Timeout`] was reached before its future was ready.
#[derive(Debug, Clone, Copy, PartialEq, Eq)]
pub struct Elapsed(());

impl Elapsed {
    /// The only value there is.
    pub closed spec fn new_spec() -> Elapsed {
        Elapsed(())
    }

    /// The error in words.
    pub fn message(&self) -> (text: &'static str)
        ensures
            text@ == "deadline elapsed"@,
    {
        "deadline elapsed"
    }
}

} // verus!
