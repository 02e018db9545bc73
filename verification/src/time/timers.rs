//! The timers of one runtime: a driver behind a lock, a clock, and the futures that wait for them.

use core::future::Future;
use core::pin::Pin;
use core::task::{Context, Poll, Waker};
use std::sync::{Arc, Mutex, MutexGuard};

use vstd::future::FutureAdditionalSpecFns;
use vstd::multiset::Multiset;
use vstd::prelude::*;

use crate::executor::multi::idle;
use crate::reactor::fallback::Reactor;
use crate::sync;
use crate::time::driver::{self, Driver, EntryId};
use crate::time::instant::{Duration, Instant};
use crate::time::wheel::Entry;
use crate::time::{self, Elapsed, Sleep, SleepStep, Timeout};
use crate::waker::{pin_future, poll_future};

verus! {

/// A reading of the system's monotonic clock.
#[verifier::external_type_specification]
#[verifier::external_body]
pub struct ExInstant(std::time::Instant);

/// `Instant::now`: the current time.
#[verifier::external_body]
fn clock_start() -> (start: std::time::Instant) {
    std::time::Instant::now()
}

/// `Instant::elapsed`: the nanoseconds that have passed since `start`.
#[verifier::external_body]
fn clock_nanos(start: &std::time::Instant) -> (nanos: u128) {
    start.elapsed().as_nanos()
}

/// The waker of a timer, shared by the timer and whoever has set it. It is there until the timer
/// fires or one of the two is dropped.
pub(crate) struct WakerSlot {
    waker: Mutex<Option<Waker>>,
}

impl WakerSlot {
    /// Whether the slot was made with `waker` in it.
    spec fn is_new(&self, waker: Waker) -> bool {
        call_ensures(sync::new_mutex::<Option<Waker>>, (Some(waker),), self.waker)
    }

    /// Whether the slot has been emptied by a destructor, unless its lock could not be had.
    spec fn is_cleared(&self) -> bool {
        exists|guard: Option<MutexGuard<Option<Waker>>>| #[trigger]
            call_ensures(sync::lock_in_drop::<Option<Waker>>, (&self.waker,), guard) && (
            guard matches Some(guard) ==> swapped_out(guard))
    }

    fn new(waker: Waker) -> (slot: Self)
        ensures
            slot.is_new(waker),
    {
        WakerSlot { waker: sync::new_mutex(Some(waker)) }
    }

    /// Take the waker out, if it is still there.
    fn take(&self) -> (waker: Option<Waker>)
        ensures
            exists|held: &mut Option<Waker>|
                sync::opened(&self.waker, held) && #[trigger] call_ensures(
                    Option::<Waker>::take,
                    (held,),
                    waker,
                ),
    {
        let mut guard = sync::lock(&self.waker);
        sync::guarded(&mut guard).take()
    }

    /// Drop the waker without firing it.
    fn clear(&self)
        ensures
            self.is_cleared(),
        opens_invariants none
        no_unwind
    {
        let mut waker: Option<Waker> = None;
        if let Some(mut guard) = sync::lock_in_drop(&self.waker) {
            core::mem::swap(&mut waker, sync::guarded(&mut guard));
        }
    }
}

/// Whether what is behind `guard` has been swapped for nothing.
spec fn swapped_out(guard: MutexGuard<Option<Waker>>) -> bool {
    exists|out: &mut Option<Waker>, held: &mut Option<Waker>|
        *out is None && sync::opened_as(guard, held) && #[trigger] call_ensures(
            core::mem::swap::<Option<Waker>>,
            (out, held),
            (),
        )
}

/// What a timer sets off.
pub(crate) struct Alarm {
    slot: Arc<WakerSlot>,
}

impl Alarm {
    /// Whether the waker has been fired, if it was still there.
    spec fn has_fired(self) -> bool {
        exists|waker: Option<Waker>| #[trigger]
            call_ensures(WakerSlot::take, (&*self.slot,), waker) && (waker matches Some(waker)
                ==> call_ensures(Waker::wake, (waker,), ()))
    }

    /// Whether the slot has been cleared.
    pub closed spec fn is_dropped(&self) -> bool {
        call_ensures(WakerSlot::clear, (&*self.slot,), ())
    }

    /// Fire the waker, unless the timer has been given up.
    fn fire(self)
        ensures
            self.has_fired(),
    {
        if let Some(waker) = self.slot.take() {
            waker.wake();
        }
    }
}

impl Drop for Alarm {
    /// Whoever has set the timer keeps the slot, and may be kept alive by the waker in turn.
    fn drop(&mut self)
        ensures
            old(self).is_dropped(),
        opens_invariants none
        no_unwind
    {
        self.slot.clear();
    }
}

/// A driver that is taken out while it is used.
struct DriverCell {
    driver: Option<Driver<Alarm>>,
}

/// What is known of a driver behind the lock.
spec fn usable(driver: Driver<Alarm>) -> bool {
    driver.wf() && driver.epoch()@ == 0
}

/// A driver that starts at the epoch and has no timers.
spec fn fresh(driver: Driver<Alarm>) -> bool {
    &&& usable(driver)
    &&& driver.pending() == Multiset::<Entry>::empty()
    &&& driver.wakers() == Map::<EntryId, Alarm>::empty()
    &&& driver.cursor() == 0
    &&& driver.next_id() == 0
}

impl DriverCell {
    #[verifier::type_invariant]
    spec fn inv(self) -> bool {
        self.driver matches Some(driver) ==> usable(driver)
    }

    /// Whether `driver` is the driver that the cell lends out next.
    spec fn lends(self, driver: Driver<Alarm>) -> bool {
        match self.driver {
            Some(held) => driver == held,
            None => fresh(driver),
        }
    }

    fn new() -> (cell: Self)
        ensures
            cell.driver matches Some(driver) && fresh(driver),
    {
        DriverCell { driver: Some(Driver::new(Instant::from_nanos(0))) }
    }

    /// Take the driver out. There is a new one if the last one was never put back.
    fn take(&mut self) -> (driver: Driver<Alarm>)
        ensures
            usable(driver),
            old(self).lends(driver),
            final(self).driver is None,
    {
        proof {
            use_type_invariant(&*self);
        }
        let mut driver: Option<Driver<Alarm>> = None;
        core::mem::swap(&mut driver, &mut self.driver);
        match driver {
            Some(driver) => driver,
            None => Driver::new(Instant::from_nanos(0)),
        }
    }

    /// Take the driver out for good.
    fn discard(&mut self) -> (driver: Option<Driver<Alarm>>)
        ensures
            driver == old(self).driver,
            final(self).driver is None,
        opens_invariants none
        no_unwind
    {
        let mut driver: Option<Driver<Alarm>> = None;
        core::mem::swap(&mut driver, &mut self.driver);
        driver
    }

    fn put(&mut self, driver: Driver<Alarm>)
        requires
            usable(driver),
        ensures
            final(self).driver == Some(driver),
    {
        self.driver = Some(driver);
    }

    /// Time from `now` until the next timer is due.
    fn time_left(&mut self, now: Instant) -> (left: Option<Duration>)
        ensures
            match old(self).driver {
                Some(driver) => {
                    &&& idle::is_time_left(driver, now, left)
                    &&& final(self).driver == Some(driver)
                },
                None => left is None && (final(self).driver matches Some(driver) && fresh(driver)),
            },
    {
        let driver = self.take();
        let left = idle::poll_timeout(&driver, now);
        self.put(driver);
        left
    }

    /// Advance the driver to `now`, and return the alarms that are due.
    fn advance(&mut self, now: Instant) -> (fired: Vec<Alarm>)
        ensures
            exists|driver: Driver<Alarm>, expired: Seq<Entry>| #[trigger]
                old(self).lends(driver) && #[trigger] driver::lists_due(
                    expired,
                    driver.pending(),
                    driver::tick_floor(driver.epoch(), now),
                ) && fired@ == driver::released(expired, driver.wakers()) && (
                final(self).driver matches Some(after) && after@ == driver@.advanced(now)),
    {
        let mut driver = self.take();
        let ghost before = driver;
        let fired = driver.advance(now);
        assert(old(self).lends(before));
        self.put(driver);
        fired
    }

    /// Poll `sleep` at `now`. The alarm is set if the sleep has to wait and has none yet. It is to
    /// be fired at once if there is no room for it.
    fn poll_sleep(&mut self, sleep: &mut Sleep, now: Instant, alarm: Alarm) -> (step: SleepStep<
        Alarm,
    >)
        requires
            !old(sleep).is_over(now),
            old(sleep).entry_id is None,
        ensures
            final(sleep).deadline == old(sleep).deadline,
            exists|driver: Driver<Alarm>| #[trigger]
                old(self).lends(driver) && final(self).driver is Some && if driver.pending().len()
                    < usize::MAX {
                    is_set(driver, final(self).driver->0, *old(sleep), *final(sleep), alarm, step)
                } else {
                    &&& step == SleepStep::Late(alarm)
                    &&& final(self).driver == Some(driver)
                    &&& *final(sleep) == *old(sleep)
                },
    {
        let mut driver = self.take();
        let ghost before = driver;
        assert(old(self).lends(before));
        let step = if driver.len() < usize::MAX {
            sleep.poll_at(now, &mut driver, alarm)
        } else {
            SleepStep::Late(alarm)
        };
        self.put(driver);
        step
    }
}

/// `alarm` has been set for the deadline of a sleep, or is too late for it.
spec fn is_set(
    before: Driver<Alarm>,
    after: Driver<Alarm>,
    sleep: Sleep,
    waiting: Sleep,
    alarm: Alarm,
    step: SleepStep<Alarm>,
) -> bool {
    if before@.is_past(sleep.deadline) {
        &&& step == SleepStep::Late(alarm)
        &&& waiting == sleep
        &&& after@ == before@.registered(sleep.deadline, alarm)
    } else {
        &&& step is Registered
        &&& waiting.entry_id == Some(before.next_id())
        &&& after@ == before@.registered(sleep.deadline, alarm)
    }
}

/// The timers of one runtime.
pub(crate) struct Timers {
    cell: Mutex<DriverCell>,
    clock: std::time::Instant,
    /// The reactor whose timeout depends on the timers.
    reactor: Arc<Reactor>,
}

impl Timers {
    /// The reactor whose timeout depends on the timers.
    pub(crate) closed spec fn wakes(&self) -> Arc<Reactor> {
        self.reactor
    }

    /// Whether the timers were made without any timer, with a clock of their own.
    pub(crate) closed spec fn is_new(&self) -> bool {
        &&& call_ensures(clock_start, (), self.clock)
        &&& exists|cell: DriverCell| #[trigger]
            call_ensures(sync::new_mutex::<DriverCell>, (cell,), self.cell)
                && (cell.driver matches Some(driver) && fresh(driver))
    }

    /// Whether the clock of the timers has been read, and said `now`.
    pub(crate) closed spec fn reads(&self, now: Instant) -> bool {
        exists|nanos: u128| #[trigger]
            call_ensures(clock_nanos, (&self.clock,), nanos) && now@ == nanos
    }

    /// Whether the time until the next timer has been looked up, and is `left`.
    pub(crate) closed spec fn has_left(&self, left: Option<Duration>) -> bool {
        exists|now: Instant, cell: &mut DriverCell|
            self.reads(now) && sync::opened(&self.cell, cell) && #[trigger] call_ensures(
                DriverCell::time_left,
                (cell, now),
                left,
            )
    }

    /// Whether the timers that were due at some reading of the clock have been taken out, and every
    /// one of them has been fired.
    pub(crate) closed spec fn has_advanced(&self) -> bool {
        exists|now: Instant, cell: &mut DriverCell, fired: Vec<Alarm>|
            self.reads(now) && sync::opened(&self.cell, cell) && #[trigger] call_ensures(
                DriverCell::advance,
                (cell, now),
                fired,
            ) && forall|i: int|
                0 <= i < fired@.len() ==> call_ensures(
                    Alarm::fire,
                    (#[trigger] fired@[i],),
                    (),
                )
    }

    /// Whether the driver has been taken out for good, unless its lock could not be had.
    pub(crate) closed spec fn is_closed(&self) -> bool {
        exists|guard: Option<MutexGuard<DriverCell>>| #[trigger]
            call_ensures(sync::lock_in_drop::<DriverCell>, (&self.cell,), guard) && (
            guard matches Some(guard) ==> discarded(guard))
    }

    /// No timers. Time starts now.
    pub(crate) fn new(reactor: Arc<Reactor>) -> (timers: Self)
        ensures
            timers.wakes() == reactor,
            timers.is_new(),
    {
        let cell = DriverCell::new();
        let timers = Timers { cell: sync::new_mutex(cell), clock: clock_start(), reactor };
        assert(call_ensures(sync::new_mutex::<DriverCell>, (cell,), timers.cell));
        timers
    }

    /// The current time.
    pub(crate) fn now(&self) -> (now: Instant)
        ensures
            self.reads(now),
    {
        Instant::from_nanos(clock_nanos(&self.clock))
    }

    /// Time until the next timer is due.
    pub(crate) fn time_left(&self) -> (left: Option<Duration>)
        ensures
            self.has_left(left),
    {
        let now = self.now();
        let mut guard = sync::lock(&self.cell);
        sync::guarded(&mut guard).time_left(now)
    }

    /// Drop every timer without firing it.
    pub(crate) fn close(&self)
        ensures
            self.is_closed(),
        opens_invariants none
        no_unwind
    {
        let mut driver: Option<Driver<Alarm>> = None;
        if let Some(mut guard) = sync::lock_in_drop(&self.cell) {
            driver = sync::guarded(&mut guard).discard();
        }
    }

    /// Fire the timers that are due.
    pub(crate) fn advance(&self)
        ensures
            self.has_advanced(),
    {
        let now = self.now();
        let fired = {
            let mut guard = sync::lock(&self.cell);
            sync::guarded(&mut guard).advance(now)
        };
        for alarm in alarms: fired
            invariant
                alarms.seq() == fired@,
                forall|i: int|
                    0 <= i < alarms.index() ==> call_ensures(
                        Alarm::fire,
                        (#[trigger] fired@[i],),
                        (),
                    ),
        {
            alarm.fire();
        }
    }

    /// Set a timer for `sleep`, which has none yet, to fire `waker`. The slot of the waker goes to
    /// `slot`, and the reactor is woken, so that it does not wait past the timer. If it is too late
    /// for a timer, the waker is fired at once.
    fn set_alarm(
        &self,
        sleep: &mut Sleep,
        slot: &mut Option<Arc<WakerSlot>>,
        now: Instant,
        waker: &Waker,
    )
        requires
            !old(sleep).is_over(now),
            old(sleep).entry_id is None,
        ensures
            final(sleep).deadline == old(sleep).deadline,
            exists|made: Arc<WakerSlot>, cell: &mut DriverCell, s: &mut Sleep, step: SleepStep<Alarm>|
                {
                    &&& made.is_new(*waker)
                    &&& sync::opened(&self.cell, cell)
                    &&& *s == *old(sleep)
                    &&& *final(s) == *final(sleep)
                    &&& #[trigger] call_ensures(
                        DriverCell::poll_sleep,
                        (cell, s, now, Alarm { slot: made }),
                        step,
                    )
                    &&& match step {
                        SleepStep::Registered => {
                            &&& *final(slot) == Some(made)
                            &&& call_ensures(Reactor::wake, (&*self.reactor,), ())
                        },
                        SleepStep::Late(late) => {
                            &&& *final(slot) == *old(slot)
                            &&& call_ensures(Alarm::fire, (late,), ())
                        },
                        SleepStep::Ready | SleepStep::Waiting => false,
                    }
                },
    {
        let made = Arc::new(WakerSlot::new(waker.clone()));
        let alarm = Alarm { slot: made.clone() };
        let step = {
            let mut guard = sync::lock(&self.cell);
            sync::guarded(&mut guard).poll_sleep(sleep, now, alarm)
        };
        match step {
            SleepStep::Registered => {
                *slot = Some(made);
                self.reactor.wake();
            },
            SleepStep::Late(late) => {
                late.fire();
            },
            SleepStep::Ready | SleepStep::Waiting => {},
        }
    }
}

/// Whether the driver behind `guard` has been taken out for good.
spec fn discarded(guard: MutexGuard<DriverCell>) -> bool {
    exists|cell: &mut DriverCell, driver: Option<Driver<Alarm>>|
        sync::opened_as(guard, cell) && #[trigger] call_ensures(
            DriverCell::discard,
            (cell,),
            driver,
        )
}

/// A sleep on the timers of a runtime.
pub struct Sleeping {
    sleep: Sleep,
    /// The waker of the timer, once one is set.
    slot: Option<Arc<WakerSlot>>,
    timers: Arc<Timers>,
}

impl Sleeping {
    /// Whether a timer has been set for the sleep.
    pub closed spec fn registered(&self) -> bool {
        self.sleep.entry_id is Some
    }

    /// Sleep for at least `dur` from now.
    pub(crate) fn new(timers: Arc<Timers>, dur: Duration) -> (sleeping: Self)
        ensures
            !sleeping.registered(),
            sleeping.timers() == timers,
            exists|now: Instant|
                timers.reads(now) && sleeping.deadline()@ == #[trigger] time::deadline_after(
                    now,
                    dur,
                ),
    {
        let sleep = time::sleep(timers.now(), dur);
        Sleeping { sleep, slot: None, timers }
    }

    /// The timers that the sleep waits on.
    pub(crate) closed spec fn timers(&self) -> Arc<Timers> {
        self.timers
    }

    /// The point in time at which the sleep is over.
    pub closed spec fn deadline(&self) -> Instant {
        self.sleep.deadline
    }

    /// Poll the sleep at `now` with `waker`. It is ready once its deadline is reached. Until then
    /// a timer is set for it, once.
    fn poll_with(&mut self, now: Instant, waker: &Waker) -> (poll: Poll<()>)
        ensures
            poll is Ready <==> now@ >= old(self).deadline()@,
            final(self).deadline() == old(self).deadline(),
            final(self).timers() == old(self).timers(),
            old(self).registered() || poll is Ready ==> *final(self) == *old(self),
            !old(self).registered() && poll is Pending ==> exists|
                s: &mut Sleep,
                slot: &mut Option<Arc<WakerSlot>>,
            |
                {
                    &&& *s == old(self).sleep
                    &&& *final(s) == final(self).sleep
                    &&& *slot == old(self).slot
                    &&& *final(slot) == final(self).slot
                    &&& #[trigger] call_ensures(
                        Timers::set_alarm,
                        (&*old(self).timers, s, slot, now, waker),
                        (),
                    )
                },
    {
        if now.reached(self.sleep.deadline) {
            return Poll::Ready(());
        }
        if self.sleep.entry_id.is_none() {
            self.timers.set_alarm(&mut self.sleep, &mut self.slot, now, waker);
        }
        Poll::Pending
    }

    /// Whether a poll of the pinned sleep, with the waker of `cx`, came to `poll`: it was polled at
    /// a reading of its own clock.
    pub closed spec fn has_polled(
        pinned: Pin<&mut Sleeping>,
        cx: &mut Context<'_>,
        poll: Poll<()>,
    ) -> bool {
        exists|sleeping: &mut Sleeping, again: &mut Sleeping, now: Instant, waker: &Waker|
            {
                &&& #[trigger] call_ensures(unpinned_sleep, (pinned,), sleeping)
                &&& *again == *sleeping
                &&& sleeping.timers.reads(now)
                &&& call_ensures(Context::waker, (&*cx,), waker)
                &&& #[trigger] call_ensures(Sleeping::poll_with, (again, now, waker), poll)
            }
    }

    /// Whether a poll of the sleep at `now` with `waker` came to `poll`.
    pub closed spec fn comes_to(
        sleeping: &mut Sleeping,
        now: Instant,
        waker: &Waker,
        poll: Poll<()>,
    ) -> bool {
        call_ensures(Sleeping::poll_with, (sleeping, now, waker), poll)
    }

    /// Whether the waker of the timer, if one was set, has been given up.
    pub closed spec fn is_dropped(&self) -> bool {
        self.slot matches Some(slot) ==> call_ensures(WakerSlot::clear, (&*slot,), ())
    }
}

/// `Pin::get_mut` on a sleep, which may be moved while it is pinned: the sleep itself.
#[verifier::external_body]
fn unpinned_sleep<'a>(pinned: Pin<&'a mut Sleeping>) -> (sleeping: &'a mut Sleeping) {
    pinned.get_mut()
}

impl Future for Sleeping {
    type Output = ();

    fn poll(self: Pin<&mut Self>, cx: &mut Context<'_>) -> (poll: Poll<()>)
        ensures
            Sleeping::has_polled(self, cx, poll),
    {
        let sleeping = unpinned_sleep(self);
        let now = sleeping.timers.now();
        sleeping.poll_with(now, cx.waker())
    }
}

impl Drop for Sleeping {
    /// A sleep that is given up does not wake its task any more, nor keep it alive.
    fn drop(&mut self)
        ensures
            old(self).is_dropped(),
        opens_invariants none
        no_unwind
    {
        if let Some(slot) = &self.slot {
            slot.clear();
        }
    }
}

/// A future with a deadline on the timers of a runtime.
#[verifier::reject_recursive_types(F)]
pub struct Timed<F: Future> {
    /// The future is there until it is ready.
    timeout: Timeout<Option<Pin<Box<F>>>>,
    /// The waker of the timer, once one is set.
    slot: Option<Arc<WakerSlot>>,
    timers: Arc<Timers>,
}

impl<F: Future> Timed<F> {
    /// The future that has the deadline, until it is ready.
    pub closed spec fn inner(&self) -> Option<Pin<Box<F>>> {
        self.timeout.future
    }

    /// Whether a timer has been set for the deadline.
    pub closed spec fn registered(&self) -> bool {
        self.timeout.sleep.entry_id is Some
    }

    /// The timers that the deadline waits on.
    pub(crate) closed spec fn timers(&self) -> Arc<Timers> {
        self.timers
    }

    /// The deadline of the future.
    pub closed spec fn deadline(&self) -> Instant {
        self.timeout.sleep.deadline
    }

    /// Run `future` with a deadline `dur` from now.
    pub(crate) fn new(timers: Arc<Timers>, dur: Duration, future: F) -> (timed: Self)
        ensures
            timed.inner() matches Some(inner) && inner@ == future@,
            timed.timers() == timers,
            exists|now: Instant|
                timers.reads(now) && timed.deadline()@ == #[trigger] time::deadline_after(now, dur),
    {
        Timed {
            timeout: time::timeout(timers.now(), dur, Some(pin_future(future))),
            slot: None,
            timers,
        }
    }

    /// Poll the future, and if it is not ready, its deadline, with `waker`. The future is polled
    /// once in every poll, as long as it is there.
    fn poll_with(&mut self, waker: &Waker) -> (poll: Poll<Result<F::Output, Elapsed>>)
        ensures
            poll matches Poll::Ready(Ok(_)) ==> old(self).inner() is Some,
            final(self).inner() is Some ==> (old(self).inner() is Some && final(self).inner()->0@
                == old(self).inner()->0@),
            final(self).inner() is Some <==> old(self).inner() is Some && !(poll matches Poll::Ready(
                Ok(_),
            )),
            final(self).deadline() == old(self).deadline(),
            final(self).timers() == old(self).timers(),
            exists|inner: Poll<F::Output>, now: Instant, polled: &mut Timed<F>|
                {
                    &&& #[trigger] has_come_to(old(self).inner(), waker, inner, polled.inner())
                    &&& polled.timeout.sleep == old(self).timeout.sleep
                    &&& polled.slot == old(self).slot
                    &&& polled.timers == old(self).timers
                    &&& old(self).timers.reads(now)
                    &&& #[trigger] call_ensures(
                        Timed::<F>::settle,
                        (polled, inner, now, waker),
                        poll,
                    )
                    &&& poll == settled(inner, now, old(self).deadline())
                    &&& *final(polled) == *final(self)
                },
    {
        let inner = match self.timeout.future.take() {
            None => Poll::Pending,
            Some(future) => match poll_future(future, waker) {
                Ok(value) => Poll::Ready(value),
                Err(rest) => {
                    self.timeout.future = Some(rest);
                    Poll::Pending
                },
            },
        };
        assert(has_come_to(old(self).inner(), waker, inner, self.inner()));
        let now = self.timers.now();
        self.settle(inner, now, waker)
    }

    /// Settle a poll in which the future came to `inner`, at `now`: the value if there is one, else
    /// the error once the deadline is reached. Until then a timer is set for it, once.
    fn settle(&mut self, inner: Poll<F::Output>, now: Instant, waker: &Waker) -> (poll: Poll<
        Result<F::Output, Elapsed>,
    >)
        ensures
            final(self).inner() == old(self).inner(),
            final(self).deadline() == old(self).deadline(),
            final(self).timers() == old(self).timers(),
            poll == settled(inner, now, old(self).deadline()),
            old(self).registered() || poll is Ready ==> *final(self) == *old(self),
            !old(self).registered() && poll is Pending ==> exists|
                s: &mut Sleep,
                slot: &mut Option<Arc<WakerSlot>>,
            |
                {
                    &&& *s == old(self).timeout.sleep
                    &&& *final(s) == final(self).timeout.sleep
                    &&& *slot == old(self).slot
                    &&& *final(slot) == final(self).slot
                    &&& #[trigger] call_ensures(
                        Timers::set_alarm,
                        (&*old(self).timers, s, slot, now, waker),
                        (),
                    )
                },
    {
        if let Poll::Ready(value) = inner {
            return Poll::Ready(Ok(value));
        }
        if now.reached(self.timeout.sleep.deadline) {
            return Poll::Ready(Err(Elapsed(())));
        }
        if self.timeout.sleep.entry_id.is_none() {
            self.timers.set_alarm(&mut self.timeout.sleep, &mut self.slot, now, waker);
        }
        Poll::Pending
    }

    /// Whether a poll of the timed future with `waker` came to `poll`.
    pub closed spec fn comes_to(
        timed: &mut Timed<F>,
        waker: &Waker,
        poll: Poll<Result<F::Output, Elapsed>>,
    ) -> bool {
        call_ensures(Timed::<F>::poll_with, (timed, waker), poll)
    }

    /// Whether `future` has been polled with `waker`, and the poll came to `inner`: the value, or
    /// what is left of the future.
    pub closed spec fn inner_comes_to(
        future: Pin<Box<F>>,
        waker: &Waker,
        inner: Result<F::Output, Pin<Box<F>>>,
    ) -> bool {
        call_ensures(poll_future::<F>, (future, waker), inner)
    }

    /// Whether the clock of the timers has been read, and said `now`.
    pub closed spec fn reads(&self, now: Instant) -> bool {
        self.timers.reads(now)
    }

    /// Whether a poll of the pinned timed future, with the waker of `cx`, came to `poll`.
    pub closed spec fn has_polled(
        pinned: Pin<&mut Timed<F>>,
        cx: &mut Context<'_>,
        poll: Poll<Result<F::Output, Elapsed>>,
    ) -> bool {
        exists|timed: &mut Timed<F>, waker: &Waker|
            {
                &&& #[trigger] call_ensures(unpinned_timed::<F>, (pinned,), timed)
                &&& call_ensures(Context::waker, (&*cx,), waker)
                &&& #[trigger] call_ensures(Timed::<F>::poll_with, (timed, waker), poll)
            }
    }

    /// Whether the waker of the timer, if one was set, has been given up.
    pub closed spec fn is_dropped(&self) -> bool {
        self.slot matches Some(slot) ==> call_ensures(WakerSlot::clear, (&*slot,), ())
    }
}

/// Whether `future`, if it is there, has been polled with `waker` and come to `inner`, and `rest` is
/// what is left of it.
spec fn has_come_to<F: Future>(
    future: Option<Pin<Box<F>>>,
    waker: &Waker,
    inner: Poll<F::Output>,
    rest: Option<Pin<Box<F>>>,
) -> bool {
    match future {
        None => inner is Pending && rest is None,
        Some(future) => match inner {
            Poll::Ready(value) => {
                &&& call_ensures(poll_future::<F>, (future, waker), Ok(value))
                &&& rest is None
            },
            Poll::Pending => {
                &&& rest matches Some(rest)
                &&& call_ensures(poll_future::<F>, (future, waker), Err(rest))
            },
        },
    }
}

/// What a timed future comes to when its future came to `inner` at `now`: the value wins, even over
/// a deadline that has been reached.
pub open spec fn settled<T>(inner: Poll<T>, now: Instant, deadline: Instant) -> Poll<
    Result<T, Elapsed>,
> {
    match inner {
        Poll::Ready(value) => Poll::Ready(Ok(value)),
        Poll::Pending => if now@ >= deadline@ {
            Poll::Ready(Err(Elapsed::new_spec()))
        } else {
            Poll::Pending
        },
    }
}

/// `Pin::get_mut` on a timed future, which may be moved while it is pinned because the future in
/// it is pinned on the heap: the timed future itself.
#[verifier::external_body]
fn unpinned_timed<'a, F: Future>(pinned: Pin<&'a mut Timed<F>>) -> (timed: &'a mut Timed<F>) {
    pinned.get_mut()
}

impl<F: Future> Future for Timed<F> {
    type Output = Result<F::Output, Elapsed>;

    fn poll(self: Pin<&mut Self>, cx: &mut Context<'_>) -> (poll: Poll<Result<F::Output, Elapsed>>)
        ensures
            Timed::<F>::has_polled(self, cx, poll),
    {
        unpinned_timed(self).poll_with(cx.waker())
    }
}

impl<F: Future> Drop for Timed<F> {
    /// A deadline that is given up does not wake its task any more, nor keep it alive.
    fn drop(&mut self)
        ensures
            old(self).is_dropped(),
        opens_invariants none
        no_unwind
    {
        if let Some(slot) = &self.slot {
            slot.clear();
        }
    }
}

/// A sleep polled at any time, in any state, is ready exactly from its deadline on, and the deadline
/// never moves.
pub proof fn law_sleep_is_over_at_its_deadline()
    ensures
        forall|sleeping: &mut Sleeping, now: Instant, waker: &Waker, poll: Poll<()>| #[trigger]
            Sleeping::comes_to(sleeping, now, waker, poll) ==> {
                &&& poll is Ready <==> now@ >= sleeping.deadline()@
                &&& final(sleeping).deadline() == sleeping.deadline()
            },
{
}

/// In every poll of a timed future, the future is polled with the waker of that very poll, as long
/// as it is there, and its value wins: the poll is ready with the value if the future came to one.
/// Without a value the poll is neither, unless the clock has reached the deadline, and what is left
/// of the future is there for the next poll.
pub proof fn law_timeout_polls_the_future_first<F: Future>()
    ensures
        forall|timed: &mut Timed<F>, waker: &Waker, poll: Poll<Result<F::Output, Elapsed>>|
            #[trigger] Timed::<F>::comes_to(timed, waker, poll) && timed.inner() is Some ==> exists|
                inner: Result<F::Output, Pin<Box<F>>>,
                now: Instant,
            |
                {
                    &&& #[trigger] Timed::<F>::inner_comes_to(timed.inner()->0, waker, inner)
                    &&& #[trigger] timed.reads(now)
                    &&& match inner {
                        Ok(value) => poll == Poll::Ready(Ok::<F::Output, Elapsed>(value)),
                        Err(rest) => {
                            &&& final(timed).inner() == Some(rest)
                            &&& poll is Pending <==> now@ < timed.deadline()@
                            &&& poll is Ready <==> poll == Poll::Ready(
                                Err::<F::Output, Elapsed>(Elapsed::new_spec()),
                            )
                        },
                    }
                },
{
    assert forall|timed: &mut Timed<F>, waker: &Waker, poll: Poll<Result<F::Output, Elapsed>>|
        #[trigger] Timed::<F>::comes_to(timed, waker, poll) && timed.inner() is Some implies exists|
        inner: Result<F::Output, Pin<Box<F>>>,
        now: Instant,
    |
        {
            &&& #[trigger] Timed::<F>::inner_comes_to(timed.inner()->0, waker, inner)
            &&& #[trigger] timed.reads(now)
            &&& match inner {
                Ok(value) => poll == Poll::Ready(Ok::<F::Output, Elapsed>(value)),
                Err(rest) => {
                    &&& final(timed).inner() == Some(rest)
                    &&& poll is Pending <==> now@ < timed.deadline()@
                    &&& poll is Ready <==> poll == Poll::Ready(
                        Err::<F::Output, Elapsed>(Elapsed::new_spec()),
                    )
                },
            }
        } by {
        let (inner, now, polled) = choose|
            inner: Poll<F::Output>,
            now: Instant,
            polled: &mut Timed<F>,
        |
            {
                &&& #[trigger] has_come_to(timed.inner(), waker, inner, polled.inner())
                &&& timed.timers.reads(now)
                &&& #[trigger] call_ensures(
                    Timed::<F>::settle,
                    (polled, inner, now, waker),
                    poll,
                )
                &&& poll == settled(inner, now, timed.deadline())
                &&& *final(polled) == *final(timed)
            };
        assert(timed.reads(now));
        match inner {
            Poll::Ready(value) => {
                assert(Timed::<F>::inner_comes_to(timed.inner()->0, waker, Ok(value)));
            },
            Poll::Pending => {
                assert(Timed::<F>::inner_comes_to(
                    timed.inner()->0,
                    waker,
                    Err(polled.inner()->0),
                ));
            },
        }
    }
}

} // verus!
