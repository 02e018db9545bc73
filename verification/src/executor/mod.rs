//! Executor: drives futures to completion.
//!
//! [`multi`] holds the run queues, the scheduling of idle workers and the tasks. [`block_on`] is
//! for callers who want one future driven and nothing else.

pub mod multi;

use core::future::Future;

use vstd::prelude::*;

use crate::runtime::Runtime;

verus! {

/// Drive `future` to completion on a runtime of its own with one worker.
///
/// Returns what the future resolves to; see [`Runtime::block_on`].
pub fn block_on<F: Future>(future: F) -> (output: Option<F::Output>)
    ensures
        exists|runtime: Runtime|
            runtime.spec_workers() == 1 && runtime.is_wired() && runtime.is_new()
                && #[trigger] runtime.has_driven_to(future, output),
{
    Runtime::with_workers(1).block_on(future)
}

} // verus!
