//! What holds of a task over its whole life.

use core::task::Poll;

use vstd::prelude::*;

use crate::task::join;
use crate::task::raw::{Core, JoinPoll, Stage};
use crate::task::yield_now::YieldNow;

verus! {

/// A task together with the run queues, the worker and the join handle around it.
#[verifier::ext_equal]
pub struct Life<P, T, W> {
    pub core: Core<P, T, W>,
    /// How often the task stands on the run queues.
    pub queued: int,
    /// What the join handle has received so far.
    pub delivered: Seq<T>,
    /// The outputs that polls of the future have come to so far.
    pub outputs: Seq<T>,
    /// The wakers of the join handle that have been fired so far.
    pub fired: Seq<W>,
}

/// What can happen to a task. Apart from what [`Life::enabled`] asks, events come in any order.
pub enum TaskEvent<P, T, W> {
    /// One of its wakers fires, on any thread.
    Wake,
    /// A worker takes it from a run queue and takes its future out.
    Start,
    /// The poll was pending; the worker puts the future back.
    Suspend(P),
    /// The poll was ready.
    Finish(T),
    /// The join handle polls.
    Join(W),
    /// The join handle is dropped.
    Detach,
}

impl<P, T, W> Life<P, T, W> {
    /// A task that has just been spawned.
    pub open spec fn spawned(future: P) -> Self {
        Life {
            core: Core::born(future),
            queued: 1,
            delivered: Seq::empty(),
            outputs: Seq::empty(),
            fired: Seq::empty(),
        }
    }

    /// A worker finds a task only on a queue, only a worker that has the future ends a poll, and
    /// only a join handle that exists is used.
    pub open spec fn enabled(self, event: TaskEvent<P, T, W>) -> bool {
        match event {
            TaskEvent::Wake => true,
            TaskEvent::Start => self.queued > 0,
            TaskEvent::Suspend(_) => self.core.state.running,
            TaskEvent::Finish(_) => self.core.state.running,
            TaskEvent::Join(_) => self.core.state.join_interest,
            TaskEvent::Detach => self.core.state.join_interest,
        }
    }

    /// The task after `event`.
    pub open spec fn after(self, event: TaskEvent<P, T, W>) -> Self {
        match event {
            TaskEvent::Wake => {
                let core = self.core.woken();
                Life {
                    core,
                    queued: if !self.core.state.queued() && core.state.queued() {
                        self.queued + 1
                    } else {
                        self.queued
                    },
                    ..self
                }
            },
            TaskEvent::Start => Life {
                core: if self.core.state.queued() && self.core.stage is Idle {
                    self.core.started()
                } else {
                    self.core
                },
                queued: self.queued - 1,
                ..self
            },
            TaskEvent::Suspend(future) => Life {
                core: self.core.suspended(future),
                queued: if self.core.state.notified {
                    self.queued + 1
                } else {
                    self.queued
                },
                ..self
            },
            TaskEvent::Finish(output) => Life {
                core: self.core.finished(output),
                outputs: self.outputs.push(output),
                fired: match self.core.join_waker {
                    Some(waker) => self.fired.push(waker),
                    None => self.fired,
                },
                ..self
            },
            TaskEvent::Join(waker) => {
                let (core, poll) = self.core.joined(waker);
                Life {
                    core,
                    delivered: match poll {
                        JoinPoll::Ready(output) => self.delivered.push(output),
                        _ => self.delivered,
                    },
                    ..self
                }
            },
            TaskEvent::Detach => Life { core: self.core.detached(), ..self },
        }
    }

    /// What holds of a task at every moment of its life.
    pub open spec fn inv(self) -> bool {
        &&& self.core.wf()
        &&& self.queued == if self.core.state.queued() {
            1int
        } else {
            0
        }
        &&& self.outputs.len() == if self.core.state.complete {
            1nat
        } else {
            0
        }
        &&& self.core.stage matches Stage::Finished(output) ==> output == self.outputs[0]
            && self.delivered.len() == 0
        &&& self.core.state.complete && self.core.state.join_interest && self.delivered.len() == 0
            ==> self.core.stage is Finished
        &&& self.delivered.len() <= self.outputs.len()
        &&& self.delivered.len() > 0 ==> self.delivered[0] == self.outputs[0]
    }
}

/// A task that has just been spawned is on one run queue, and its invariant holds.
pub proof fn law_spawned_task_is_well<P, T, W>(future: P)
    ensures
        Life::<P, T, W>::spawned(future).inv(),
{
}

/// Every event keeps the invariant of a task.
pub proof fn law_events_keep_task_invariant<P, T, W>(
    task: Life<P, T, W>,
    event: TaskEvent<P, T, W>,
)
    requires
        task.inv(),
        task.enabled(event),
    ensures
        task.after(event).inv(),
{
}

/// A task is never on the run queues twice, and never while a worker polls it: no two workers
/// have the same task.
pub proof fn law_task_is_queued_at_most_once<P, T, W>(task: Life<P, T, W>)
    requires
        task.inv(),
    ensures
        task.queued <= 1,
        task.core.state.running ==> task.queued == 0,
        task.core.state.complete ==> task.queued == 0,
{
}

/// No wake is lost: after a wake, a task that is not complete stands on a run queue, or a worker
/// is polling it and will put it back when the poll is pending.
pub proof fn law_wake_is_answered<P, T, W>(task: Life<P, T, W>, future: P)
    requires
        task.inv(),
        !task.core.state.complete,
    ensures
        ({
            let woken = task.after(TaskEvent::Wake);
            if task.core.state.running {
                woken.core.state.running && woken.after(TaskEvent::Suspend(future)).queued == 1
            } else {
                woken.queued == 1
            }
        }),
{
}

/// Wakes coalesce: a second wake before the task is polled changes nothing.
pub proof fn law_wakes_coalesce<P, T, W>(task: Life<P, T, W>)
    ensures
        task.after(TaskEvent::Wake).after(TaskEvent::Wake) == task.after(TaskEvent::Wake),
{
}

/// A wake that comes after completion changes nothing.
pub proof fn law_wake_after_completion_is_void<P, T, W>(task: Life<P, T, W>)
    requires
        task.core.state.complete,
    ensures
        task.after(TaskEvent::Wake) == task,
{
}

/// The future resolves at most once, and its output is delivered at most once and unchanged.
pub proof fn law_output_is_delivered_at_most_once<P, T, W>(task: Life<P, T, W>)
    requires
        task.inv(),
    ensures
        task.outputs.len() <= 1,
        task.delivered.len() <= task.outputs.len(),
        task.delivered.len() > 0 ==> task.delivered[0] == task.outputs[0],
{
}

/// A join handle that polls before the task completes is woken by the completion, and its next
/// poll gets the output.
pub proof fn law_join_gets_the_output<P, T, W>(
    task: Life<P, T, W>,
    waker: W,
    output: T,
    again: W,
)
    requires
        task.inv(),
        task.core.state.running,
        task.core.state.join_interest,
    ensures
        ({
            let waiting = task.after(TaskEvent::Join(waker));
            let done = waiting.after(TaskEvent::Finish(output));
            let joined = done.after(TaskEvent::Join(again));
            &&& waiting.delivered == task.delivered
            &&& done.fired == task.fired.push(waker)
            &&& joined.delivered == task.delivered.push(output)
        }),
{
}

/// The output waits for its join handle: whenever a handle that has not received it polls after
/// the task is complete, it gets the output.
pub proof fn law_output_waits_for_the_handle<P, T, W>(task: Life<P, T, W>, waker: W)
    requires
        task.inv(),
        task.core.state.complete,
        task.core.state.join_interest,
        task.delivered.len() == 0,
    ensures
        task.after(TaskEvent::Join(waker)).delivered == task.outputs,
{
    assert(task.after(TaskEvent::Join(waker)).delivered =~= task.outputs);
}

/// Dropping the join handle detaches the task: it goes on to run as before, and its output is
/// dropped instead of kept.
pub proof fn law_detached_task_runs_on<P, T, W>(task: Life<P, T, W>, output: T)
    requires
        task.inv(),
        task.core.state.join_interest,
    ensures
        ({
            let detached = task.after(TaskEvent::Detach);
            &&& detached.queued == task.queued
            &&& detached.core.state.queued() == task.core.state.queued()
            &&& detached.core.state.running == task.core.state.running
            &&& !task.core.state.complete ==> detached.core.stage == task.core.stage
            &&& !(detached.core.stage is Finished)
            &&& detached.after(TaskEvent::Finish(output)).core.stage is Consumed
        }),
{
}

/// A join handle that has not delivered its output polls with `waker`. If the task is complete, the
/// handle delivers the output, and is never ready again. Otherwise it is pending, and the waker
/// kept for the completion is the one of this poll, in place of any earlier one.
pub proof fn law_join_poll<P, T, W>(task: Life<P, T, W>, waker: W, again: W)
    requires
        task.inv(),
        task.core.state.join_interest,
        task.delivered.len() == 0,
    ensures
        ({
            let (core, answer) = task.core.joined(waker);
            if task.core.state.complete {
                &&& join::settled(answer) == Poll::Ready(task.outputs[0])
                &&& join::settled(core.joined(again).1) == Poll::<T>::Pending
            } else {
                &&& join::settled(answer) == Poll::<T>::Pending
                &&& answer == JoinPoll::<T, W>::Parked(task.core.join_waker)
                &&& core.join_waker == Some(waker)
            }
        }),
{
}

/// A yield is pending on its first poll and ready on every later one. Over any number of polls,
/// each with a waker of its own, it wakes the waker of the first, once, and no other.
pub proof fn law_yields_once<W>(wakers: Seq<W>)
    ensures
        ({
            let yielding = YieldNow { polled: false };
            &&& yielding.woken_by(wakers) == wakers.take(
                if wakers.len() > 0 {
                    1
                } else {
                    0
                },
            )
            &&& forall|i: int|
                0 <= i < wakers.len() ==> (yielding.polled_with(#[trigger] wakers.take(i)).stepped(
                    wakers[i],
                ).1.0 is Pending <==> i == 0)
        }),
    decreases wakers.len(),
{
    let yielding = YieldNow { polled: false };
    if wakers.len() > 0 {
        let rest = wakers.drop_last();
        law_yields_once(rest);
        lemma_polled(rest);
        assert(yielding.woken_by(wakers) =~= wakers.take(1));
        assert forall|i: int| 0 <= i < wakers.len() implies (yielding.polled_with(
            #[trigger] wakers.take(i),
        ).stepped(wakers[i]).1.0 is Pending <==> i == 0) by {
            lemma_polled(wakers.take(i));
        }
    } else {
        assert(yielding.woken_by(wakers) =~= wakers.take(0));
    }
}

/// A yield has been polled after at least one poll.
proof fn lemma_polled<W>(wakers: Seq<W>)
    ensures
        (YieldNow { polled: false }).polled_with(wakers).polled <==> wakers.len() > 0,
    decreases wakers.len(),
{
    if wakers.len() > 0 {
        lemma_polled(wakers.drop_last());
    }
}

/// A task that is not complete always has its future, or a worker is polling it: no event loses it,
/// and a pending poll puts it back, whether or not there is a join handle.
pub proof fn law_incomplete_task_keeps_its_future<P, T, W>(
    task: Life<P, T, W>,
    event: TaskEvent<P, T, W>,
)
    requires
        task.inv(),
        task.enabled(event),
    ensures
        ({
            let after = task.after(event);
            &&& after.core.state.complete || after.core.state.running || after.core.stage is Idle
            &&& event matches TaskEvent::Suspend(future) ==> after.core.stage == Stage::<
                P,
                T,
            >::Idle(future)
            &&& event is Detach && !task.core.state.complete ==> after.core.stage == task.core.stage
        }),
{
}

} // verus!
