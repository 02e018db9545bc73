//! Completion ports: timeouts, and the results of a wait.

use vstd::prelude::*;

use crate::sys::OsError;
use crate::time::instant::Duration;

verus! {

/// Most completions that one wait takes.
pub const MAX_ENTRIES_PER_WAIT: usize = 64;

/// The timeout of a wait without one.
pub const INFINITE: u32 = 0xffff_ffff;

/// `windows_sys::Win32::Foundation::WAIT_TIMEOUT`: the wait ended without a completion. 258.
#[verifier::external_body]
pub(crate) fn wait_timeout() -> (code: u32)
    ensures
        code == 258,
{
    windows_sys::Win32::Foundation::WAIT_TIMEOUT
}

/// The timeout of a wait in milliseconds, rounded down. One that does not fit becomes the longest
/// that is not infinite.
pub open spec fn wait_ms(timeout: Option<Duration>) -> u32 {
    match timeout {
        None => INFINITE,
        Some(d) => if d@ / 1_000_000 <= u32::MAX {
            (d@ / 1_000_000) as u32
        } else {
            (INFINITE - 1) as u32
        },
    }
}

/// The timeout of a wait in milliseconds.
pub fn timeout_ms(timeout: Option<Duration>) -> (ms: u32)
    ensures
        ms == wait_ms(timeout),
{
    match timeout {
        None => INFINITE,
        Some(d) => {
            let ms = d.as_millis();
            if ms <= u32::MAX as u128 {
                ms as u32
            } else {
                INFINITE - 1
            }
        },
    }
}

/// How many completions to ask for, when there is room for `len`.
pub fn wait_capacity(len: usize) -> (cap: u32)
    ensures
        cap == if len < MAX_ENTRIES_PER_WAIT {
            len as int
        } else {
            MAX_ENTRIES_PER_WAIT as int
        },
{
    if len < MAX_ENTRIES_PER_WAIT {
        len as u32
    } else {
        MAX_ENTRIES_PER_WAIT as u32
    }
}

/// Outcome of a wait for up to `cap` completions that returned `rc` and counted `removed` of them;
/// on failure the code is in `error`. A wait that timed out has brought none.
pub fn wait_outcome(rc: i32, error: i32, removed: u32, cap: u32) -> (outcome: Result<
    usize,
    OsError,
>)
    ensures
        outcome == if rc != 0 {
            Ok::<usize, OsError>(
                if removed < cap {
                    removed as usize
                } else {
                    cap as usize
                },
            )
        } else if error == 258 {
            Ok::<usize, OsError>(0)
        } else {
            Err::<usize, OsError>(OsError { code: error })
        },
{
    if rc == 0 {
        if error == wait_timeout() as i32 {
            return Ok(0);
        }
        return Err(OsError { code: error });
    }
    if removed < cap {
        Ok(removed as usize)
    } else {
        Ok(cap as usize)
    }
}

/// A wait with a timeout does not become one without, unless the timeout is the one number of
/// milliseconds that the kernel takes for infinite.
pub proof fn law_timeout_stays_finite(timeout: Duration)
    requires
        timeout@ / 1_000_000 != INFINITE,
    ensures
        wait_ms(Some(timeout)) != INFINITE,
{
}

/// A wait never lasts longer than its timeout.
pub proof fn law_wait_is_not_too_long(timeout: Duration)
    requires
        timeout@ / 1_000_000 != INFINITE,
    ensures
        wait_ms(Some(timeout)) * 1_000_000 <= timeout@,
{
}

} // verus!
