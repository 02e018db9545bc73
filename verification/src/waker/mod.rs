//! The standard library's task types, as far as this crate hands them on.

use core::future::Future;
use core::pin::Pin;
use core::task::{Context, Poll, Waker};

use vstd::future::FutureAdditionalSpecFns;
use vstd::prelude::*;

verus! {

/// Outcome of polling a future; both variants are public in the standard library.
#[verifier::external_type_specification]
#[verifier::reject_recursive_types(T)]
pub struct ExPoll<T>(core::task::Poll<T>);

/// Wakes one task; what it does when fired is not modelled.
#[verifier::external_type_specification]
#[verifier::external_body]
pub struct ExWaker(core::task::Waker);

/// Carries the waker of the task that is being polled.
#[verifier::external_type_specification]
#[verifier::external_body]
pub struct ExContext<'a>(core::task::Context<'a>);

/// A pinned pointer.
#[verifier::external_type_specification]
#[verifier::external_body]
#[verifier::reject_recursive_types(P)]
pub struct ExPin<P>(core::pin::Pin<P>);

/// `Waker::wake`: fires the waker. Nothing is claimed of what that sets off.
pub assume_specification[ core::task::Waker::wake ](fired: core::task::Waker);

/// `Waker::wake_by_ref`: fires the waker and keeps it. Nothing is claimed of what that sets off.
pub assume_specification[ core::task::Waker::wake_by_ref ](fired: &core::task::Waker);

/// `Waker::clone`: another waker that wakes the same task. A waker stands here for what it wakes,
/// so the copy is equal to the waker it was made from.
pub assume_specification[ <core::task::Waker as Clone>::clone ](
    original: &core::task::Waker,
) -> (copy: core::task::Waker)
    ensures
        copy == *original,
;

/// `Context::waker`: the waker that the context carries. Which one that is goes unsaid, because
/// nothing is known of what is in a context.
pub assume_specification<'a, 'b>[ core::task::Context::<'a>::waker ](
    context: &'b core::task::Context<'a>,
) -> (carried: &'a core::task::Waker);

/// `Box::pin`: moves a future to the heap and pins it there. The pinned future resolves to what
/// the future itself resolves to.
#[verifier::external_body]
pub(crate) fn pin_future<F: Future>(future: F) -> (pinned: Pin<Box<F>>)
    ensures
        pinned@ == future@,
{
    Box::pin(future)
}

/// `Future::poll` on a pinned future, with a context that carries `waker`. A ready poll ends the
/// future; nothing is claimed of its value, which may rest on the clock, on chance or on other
/// threads. A pending one hands the future back, and what vstd foretells for it stays.
#[verifier::external_body]
pub(crate) fn poll_future<F: Future>(future: Pin<Box<F>>, waker: &Waker) -> (poll: Result<
    F::Output,
    Pin<Box<F>>,
>)
    ensures
        poll matches Err(rest) ==> rest@ == future@,
{
    let mut future = future;
    match future.as_mut().poll(&mut Context::from_waker(waker)) {
        Poll::Ready(output) => Ok(output),
        Poll::Pending => Err(future),
    }
}

} // verus!
