//! How long the driver may wait in the reactor.

use vstd::prelude::*;

use crate::time::driver::{Driver, TICK_NS};
use crate::time::instant::{Duration, Instant};
use crate::time::wheel::Entry;

verus! {

/// `left` is the time from `now` until the earliest timer of `driver` is due, zero if it is
/// overdue, and `None` if there is no timer.
pub open spec fn is_time_left<W>(driver: Driver<W>, now: Instant, left: Option<Duration>) -> bool {
    match left {
        None => driver.pending() == vstd::multiset::Multiset::<Entry>::empty(),
        Some(left) => exists|e: Entry| #[trigger]
            driver.pending().count(e) > 0 && (forall|o: Entry| #[trigger]
                driver.pending().count(o) > 0 ==> e.deadline <= o.deadline) && left@ == {
                let due = driver.epoch()@ + e.deadline * TICK_NS;
                if due > now@ {
                    due - now@
                } else {
                    0
                }
            },
    }
}

/// Timeout for the driver's next wait in the reactor at `now`.
pub fn poll_timeout<W>(driver: &Driver<W>, now: Instant) -> (timeout: Option<Duration>)
    requires
        driver.wf(),
        driver.epoch()@ + u64::MAX * TICK_NS <= u128::MAX,
    ensures
        is_time_left(*driver, now, timeout),
{
    match driver.next_deadline() {
        None => None,
        Some(deadline) => {
            let left = deadline.saturating_duration_since(now);
            proof {
                let e = choose|e: Entry| #[trigger]
                    driver.pending().count(e) > 0 && deadline@ == driver.epoch()@ + e.deadline
                        * TICK_NS && forall|o: Entry| #[trigger]
                        driver.pending().count(o) > 0 ==> e.deadline <= o.deadline;
                assert(driver.pending().count(e) > 0);
            }
            Some(left)
        },
    }
}

} // verus!
