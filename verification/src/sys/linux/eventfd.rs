//! `eventfd`: the results of reading and writing the wake-up counter.

use vstd::prelude::*;

use crate::sys::linux;
use crate::sys::OsError;

verus! {

/// Outcome of a write that wakes the reader, or of a read that drains the pending wakes, which
/// returned `rc`; on failure the code is in `errno`.
///
/// A write that would block finds the counter full of wakes, and a read that would block finds
/// none: neither has anything left to do.
pub fn outcome(rc: isize, errno: i32) -> (outcome: Result<(), OsError>)
    ensures
        outcome == if rc >= 0 || linux::would_block(OsError { code: errno }) {
            Ok::<(), OsError>(())
        } else {
            Err::<(), OsError>(OsError { code: errno })
        },
{
    match linux::check(rc, errno) {
        Ok(_) => Ok(()),
        Err(error) => {
            if linux::is_would_block(error) {
                Ok(())
            } else {
                Err(error)
            }
        },
    }
}

} // verus!
