//! Fallback backend: a flag behind a lock. It can be waited for and woken from other threads, but
//! knows no sources.

use std::sync::{Condvar, Mutex, MutexGuard};

use vstd::prelude::*;

use crate::sync;
use crate::time::instant::Duration;

verus! {

/// Whether a wake-up is pending.
#[derive(Clone, Copy, Debug, PartialEq, Eq, Structural)]
pub struct Notifier {
    pub notified: bool,
}

impl Notifier {
    /// No wake-up is pending.
    pub fn new() -> (notifier: Self)
        ensures
            !notifier.notified,
    {
        Notifier { notified: false }
    }

    /// Record a wake-up. Several that come before the next wait count as one.
    pub fn wake(&mut self)
        ensures
            final(self).notified,
    {
        self.notified = true;
    }

    /// Take the pending wake-up, if there is one.
    pub fn take(&mut self) -> (notified: bool)
        ensures
            notified == old(self).notified,
            !final(self).notified,
    {
        let notified = self.notified;
        self.notified = false;
        notified
    }
}

/// Seconds and nanoseconds of `timeout`, as far as the seconds fit.
pub fn split(timeout: Duration) -> (parts: (u64, u32))
    ensures
        parts.1 < 1_000_000_000,
        timeout@ / 1_000_000_000 <= u64::MAX ==> parts.0 == timeout@ / 1_000_000_000 && parts.1
            == timeout@ % 1_000_000_000,
        timeout@ / 1_000_000_000 > u64::MAX ==> parts.0 == u64::MAX && parts.1 == 999_999_999,
{
    let nanos = timeout.as_nanos();
    let secs = nanos / 1_000_000_000;
    if secs > u64::MAX as u128 {
        return (u64::MAX, 999_999_999);
    }
    (secs as u64, (nanos % 1_000_000_000) as u32)
}

/// A reactor without sources.
pub(crate) struct Reactor {
    notify: Mutex<Notifier>,
    cvar: Condvar,
}

impl Reactor {
    /// Whether the reactor was made without a pending wake-up.
    pub(crate) closed spec fn is_new(&self) -> bool {
        &&& call_ensures(sync::new_mutex::<Notifier>, (Notifier { notified: false },), self.notify)
        &&& call_ensures(sync::new_condvar, (), self.cvar)
    }

    /// Whether a wake-up has been recorded, and whoever waits has been told.
    pub(crate) closed spec fn has_woken(&self) -> bool {
        &&& exists|notifier: &mut Notifier|
            sync::opened(&self.notify, notifier) && #[trigger] call_ensures(
                Notifier::wake,
                (notifier,),
                (),
            )
        &&& call_ensures(sync::notify_one, (&self.cvar,), ())
    }

    /// Whether the pending wake-up has been taken, where `notified` says if there was one.
    pub(crate) closed spec fn has_taken(&self, notified: bool) -> bool {
        exists|notifier: &mut Notifier|
            sync::opened(&self.notify, notifier) && #[trigger] call_ensures(
                Notifier::take,
                (notifier,),
                notified,
            )
    }

    /// Whether a wait of at most `timeout` has ended, and the lock is held as `guard` again.
    spec fn has_waited(&self, timeout: Option<Duration>, guard: MutexGuard<Notifier>) -> bool {
        match timeout {
            Some(timeout) => exists|first: MutexGuard<Notifier>, secs: u64, nanos: u32|
                call_ensures(split, (timeout,), (secs, nanos)) && #[trigger] call_ensures(
                    sync::wait_timeout::<Notifier>,
                    (&self.cvar, first, secs, nanos),
                    guard,
                ),
            None => exists|first: MutexGuard<Notifier>| #[trigger]
                call_ensures(sync::wait::<Notifier>, (&self.cvar, first), guard),
        }
    }

    /// Whether the pending wake-up has been taken, where `notified` says if there was one. If none
    /// was pending at first, one has been waited for before, for at most `timeout`.
    pub(crate) closed spec fn has_polled(&self, timeout: Option<Duration>, notified: bool) -> bool {
        exists|seen: &mut Notifier, held: &mut MutexGuard<Notifier>, notifier: &mut Notifier|
            {
                &&& #[trigger] sync::opened(&self.notify, seen)
                &&& !seen.notified ==> self.has_waited(timeout, *held)
                &&& #[trigger] call_ensures(sync::guarded::<Notifier>, (held,), notifier)
                &&& call_ensures(Notifier::take, (notifier,), notified)
            }
    }

    /// A reactor without a pending wake-up.
    pub(crate) fn new() -> (reactor: Self)
        ensures
            reactor.is_new(),
    {
        Reactor { notify: sync::new_mutex(Notifier::new()), cvar: sync::new_condvar() }
    }

    /// Wait for a wake-up, for no longer than `timeout` if there is one, and take it. Returns at
    /// once if a wake-up is pending. Returns whether there was one to take.
    pub(crate) fn poll(&self, timeout: Option<Duration>) -> (notified: bool)
        ensures
            self.has_polled(timeout, notified),
    {
        let mut guard = sync::lock(&self.notify);
        let seen = sync::guarded(&mut guard);
        assert(sync::opened(&self.notify, seen));
        if !seen.notified {
            guard = match timeout {
                Some(timeout) => {
                    let (secs, nanos) = split(timeout);
                    sync::wait_timeout(&self.cvar, guard, secs, nanos)
                },
                None => sync::wait(&self.cvar, guard),
            };
        }
        sync::guarded(&mut guard).take()
    }

    /// Take the pending wake-up without waiting for one.
    pub(crate) fn take(&self) -> (notified: bool)
        ensures
            self.has_taken(notified),
    {
        let mut guard = sync::lock(&self.notify);
        sync::guarded(&mut guard).take()
    }

    /// Wake whoever waits, or whoever waits next.
    pub(crate) fn wake(&self)
        ensures
            self.has_woken(),
    {
        let mut guard = sync::lock(&self.notify);
        sync::guarded(&mut guard).wake();
        sync::notify_one(&self.cvar);
    }
}

} // verus!
