//! The standard library's locks, as far as this crate uses them.
//!
//! What is behind a lock can be changed by other threads at any time, so nothing is known of it
//! when the lock is taken. What a function does with it is stated by the calls that it makes:
//! `call_ensures(f, args, result)` can be shown only where `f` has been called with `args` and has
//! returned `result`.

use std::sync::{Condvar, Mutex, MutexGuard, PoisonError, TryLockError};

use vstd::prelude::*;

verus! {

/// A mutex.
#[verifier::external_type_specification]
#[verifier::external_body]
#[verifier::reject_recursive_types(T)]
pub struct ExMutex<T: ?Sized>(std::sync::Mutex<T>);

/// A locked mutex, unlocked when dropped.
#[verifier::external_type_specification]
#[verifier::external_body]
#[verifier::reject_recursive_types(T)]
pub struct ExMutexGuard<'a, T: ?Sized + 'a>(std::sync::MutexGuard<'a, T>);

/// A condition variable.
#[verifier::external_type_specification]
#[verifier::external_body]
pub struct ExCondvar(std::sync::Condvar);

/// `contents` is what was behind `mutex` when its lock was taken.
pub(crate) open spec fn opened<T>(mutex: &Mutex<T>, contents: &mut T) -> bool {
    exists|guard: MutexGuard<T>, held: &mut MutexGuard<T>| #[trigger]
        call_ensures(lock::<T>, (mutex,), guard) && *held == guard && #[trigger] call_ensures(
            guarded::<T>,
            (held,),
            contents,
        )
}

/// `contents` is what was behind `mutex` when a destructor had got its lock as `guard`.
pub(crate) open spec fn opened_as<T>(guard: MutexGuard<T>, contents: &mut T) -> bool {
    exists|held: &mut MutexGuard<T>|
        *held == guard && #[trigger] call_ensures(guarded::<T>, (held,), contents)
}

/// `Mutex::new`: puts `value` behind a lock.
#[verifier::external_body]
pub(crate) fn new_mutex<T>(value: T) -> (mutex: Mutex<T>) {
    Mutex::new(value)
}

/// `Mutex::lock`: waits until the lock is free and takes it, also if a thread has panicked while
/// it held it. Must not be called by a thread that holds the lock.
#[verifier::external_body]
pub(crate) fn lock<'a, T>(mutex: &'a Mutex<T>) -> (guard: MutexGuard<'a, T>) {
    mutex.lock().unwrap_or_else(PoisonError::into_inner)
}

/// `Mutex::try_lock`: takes the lock if it is free, also if a thread has panicked while it held it.
/// Neither waits nor panics.
#[verifier::external_body]
pub(crate) fn try_lock<'a, T>(mutex: &'a Mutex<T>) -> (guard: Option<MutexGuard<'a, T>>)
    opens_invariants none
    no_unwind
{
    match mutex.try_lock() {
        Ok(guard) => Some(guard),
        Err(TryLockError::Poisoned(poisoned)) => Some(poisoned.into_inner()),
        Err(TryLockError::WouldBlock) => None,
    }
}

/// How often a destructor tries to take a lock.
const DROP_TRIES: u64 = 1_000_000;

/// Take the lock in a destructor, which must neither panic nor wait for good: try again and again
/// while another thread has the lock, but not for ever.
pub(crate) fn lock_in_drop<'a, T>(mutex: &'a Mutex<T>) -> (guard: Option<MutexGuard<'a, T>>)
    ensures
        call_ensures(try_lock::<T>, (mutex,), guard),
    opens_invariants none
    no_unwind
{
    let mut tries: u64 = 1;
    while tries < DROP_TRIES
        decreases DROP_TRIES - tries,
    {
        if let Some(guard) = try_lock(mutex) {
            return Some(guard);
        }
        tries += 1;
    }
    try_lock(mutex)
}

/// `MutexGuard::deref_mut`: what is behind the lock.
#[verifier::external_body]
pub(crate) fn guarded<'a, 'b, T>(guard: &'b mut MutexGuard<'a, T>) -> (value: &'b mut T)
    opens_invariants none
    no_unwind
{
    guard
}

/// `Condvar::new`.
#[verifier::external_body]
pub(crate) fn new_condvar() -> (condvar: Condvar) {
    Condvar::new()
}

/// `Condvar::wait`: gives the lock up, waits for a notification, and takes the lock again. May
/// return without a notification.
#[verifier::external_body]
pub(crate) fn wait<'a, T>(
    condvar: &Condvar,
    guard: MutexGuard<'a, T>,
) -> (again: MutexGuard<'a, T>) {
    condvar.wait(guard).unwrap_or_else(PoisonError::into_inner)
}

/// `Condvar::wait_timeout`: like a wait, but for no longer than `secs` seconds and `nanos`
/// nanoseconds.
#[verifier::external_body]
pub(crate) fn wait_timeout<'a, T>(
    condvar: &Condvar,
    guard: MutexGuard<'a, T>,
    secs: u64,
    nanos: u32,
) -> (again: MutexGuard<'a, T>)
    requires
        nanos < 1_000_000_000,
{
    let timeout = std::time::Duration::new(secs, nanos);
    condvar.wait_timeout(guard, timeout).unwrap_or_else(PoisonError::into_inner).0
}

/// `Condvar::notify_one`: wakes one thread that waits, if any does.
#[verifier::external_body]
pub(crate) fn notify_one(condvar: &Condvar) {
    condvar.notify_one()
}

} // verus!
