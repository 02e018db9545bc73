//! State of one task: its state bits, the stage its future is at, and the waker of its join
//! handle.
//!
//! A task is born notified. The worker that takes it up clears the notification, marks the task
//! running and takes the future out to poll it. A wake that comes in meanwhile sets the
//! notification again, so that the worker puts the task back on a queue when the poll was
//! pending. When the poll is ready, the output is kept for the join handle, the task is complete,
//! and the join handle is woken.

use vstd::prelude::*;

verus! {

/// The state bits of a task.
#[derive(Clone, Copy, Debug, PartialEq, Eq, Structural)]
pub struct State {
    /// A wake has come in that no poll has answered yet.
    pub notified: bool,
    /// A worker is polling the future.
    pub running: bool,
    /// The future has resolved.
    pub complete: bool,
    /// A join handle exists.
    pub join_interest: bool,
    /// The join handle has left a waker.
    pub join_waker: bool,
}

impl State {
    /// The task stands on a run queue, or is about to be put there.
    pub open spec fn queued(self) -> bool {
        self.notified && !self.running && !self.complete
    }
}

/// Where the future of a task, or its output, is.
#[derive(Debug)]
pub enum Stage<P, T> {
    /// The future waits to be polled.
    Idle(P),
    /// A worker has taken the future out.
    Running,
    /// The output waits for the join handle.
    Finished(T),
    /// The output has been taken or dropped.
    Consumed,
}

/// What a join handle learns when it polls its task.
#[derive(Debug)]
pub enum JoinPoll<T, W> {
    /// The task is complete, and this is its output.
    Ready(T),
    /// The task is not complete; the waker is left with it, in place of this one.
    Parked(Option<W>),
    /// The task is complete and its output has been taken before.
    Taken,
}

/// What the end of a poll leaves to be done, outside of the lock of the task.
#[derive(Debug)]
pub struct Settled<P, T, W> {
    /// The task has to be put on a run queue again.
    pub again: bool,
    /// The waker of the join handle, to be fired.
    pub join_waker: Option<W>,
    /// An output that nobody will ask for, to be dropped.
    pub output: Option<T>,
    /// A future that has no task to go back to, to be dropped.
    pub future: Option<P>,
}

/// A task with a future of type `P`, an output of type `T` and a join waker of type `W`.
#[derive(Debug)]
pub struct Core<P, T, W> {
    pub state: State,
    pub stage: Stage<P, T>,
    pub join_waker: Option<W>,
}

impl<P, T, W> Core<P, T, W> {
    /// The state bits agree with the stage and with the join waker.
    pub open spec fn wf(self) -> bool {
        &&& self.state.running <==> self.stage is Running
        &&& self.state.complete <==> (self.stage is Finished || self.stage is Consumed)
        &&& self.state.join_waker <==> self.join_waker is Some
        &&& self.state.join_waker ==> self.state.join_interest && !self.state.complete
        &&& self.stage is Finished ==> self.state.join_interest
    }

    /// A new task: notified, and with a join handle.
    pub open spec fn born(future: P) -> Self {
        Core {
            state: State {
                notified: true,
                running: false,
                complete: false,
                join_interest: true,
                join_waker: false,
            },
            stage: Stage::Idle(future),
            join_waker: None,
        }
    }

    /// The task after a wake.
    pub open spec fn woken(self) -> Self {
        if self.state.complete {
            self
        } else {
            Core { state: State { notified: true, ..self.state }, ..self }
        }
    }

    /// The task while a worker has its future.
    pub open spec fn started(self) -> Self {
        Core {
            state: State { notified: false, running: true, ..self.state },
            stage: Stage::Running,
            ..self
        }
    }

    /// The task after a pending poll that left `future`.
    pub open spec fn suspended(self, future: P) -> Self {
        Core {
            state: State { running: false, ..self.state },
            stage: Stage::Idle(future),
            ..self
        }
    }

    /// The task after a ready poll: the output is kept if a join handle may ask for it.
    pub open spec fn finished(self, output: T) -> Self {
        Core {
            state: State { running: false, complete: true, join_waker: false, ..self.state },
            stage: if self.state.join_interest {
                Stage::Finished(output)
            } else {
                Stage::Consumed
            },
            join_waker: None,
        }
    }

    /// The task, and what is left to be done, after a poll that came to `poll`: the output, or the
    /// future that is still pending.
    pub open spec fn settled(self, poll: Result<T, P>) -> (Self, Settled<P, T, W>) {
        match poll {
            Ok(output) => if self.state.running {
                (
                    self.finished(output),
                    Settled {
                        again: false,
                        join_waker: self.join_waker,
                        output: if self.state.join_interest {
                            None
                        } else {
                            Some(output)
                        },
                        future: None,
                    },
                )
            } else {
                (
                    self,
                    Settled { again: false, join_waker: None, output: Some(output), future: None },
                )
            },
            Err(future) => if self.state.running {
                (
                    self.suspended(future),
                    Settled {
                        again: self.state.notified,
                        join_waker: None,
                        output: None,
                        future: None,
                    },
                )
            } else {
                (
                    self,
                    Settled { again: false, join_waker: None, output: None, future: Some(future) },
                )
            },
        }
    }

    /// The task and what its join handle learns, when the join handle polls with `waker`.
    pub open spec fn joined(self, waker: W) -> (Self, JoinPoll<T, W>) {
        if !self.state.join_interest {
            (self, JoinPoll::Taken)
        } else if !self.state.complete {
            (
                Core {
                    state: State { join_waker: true, ..self.state },
                    join_waker: Some(waker),
                    ..self
                },
                JoinPoll::Parked(self.join_waker),
            )
        } else {
            match self.stage {
                Stage::Finished(output) => (
                    Core { stage: Stage::Consumed, ..self },
                    JoinPoll::Ready(output),
                ),
                _ => (self, JoinPoll::Taken),
            }
        }
    }

    /// The task after its join handle is gone: the output is dropped, now or when it comes.
    pub open spec fn detached(self) -> Self {
        Core {
            state: State { join_interest: false, join_waker: false, ..self.state },
            stage: match self.stage {
                Stage::Finished(_) => Stage::Consumed,
                other => other,
            },
            join_waker: None,
        }
    }

    /// Create a task for `future`.
    pub fn new(future: P) -> (core: Self)
        ensures
            core == Self::born(future),
            core.wf(),
    {
        Core {
            state: State {
                notified: true,
                running: false,
                complete: false,
                join_interest: true,
                join_waker: false,
            },
            stage: Stage::Idle(future),
            join_waker: None,
        }
    }

    /// Record a wake. Returns whether the task has to be put on a run queue.
    pub fn wake(&mut self) -> (push: bool)
        ensures
            *final(self) == old(self).woken(),
            push == (!old(self).state.queued() && final(self).state.queued()),
            old(self).wf() ==> final(self).wf(),
    {
        if self.state.complete {
            return false;
        }
        let idle = !self.state.notified && !self.state.running;
        self.state.notified = true;
        idle
    }

    /// Take the future out to poll it. Returns `None`, and changes nothing, if the task is not
    /// waiting for a worker.
    pub fn start(&mut self) -> (future: Option<P>)
        ensures
            match old(self).stage {
                Stage::Idle(idle) if old(self).state.queued() => {
                    &&& future == Some(idle)
                    &&& *final(self) == old(self).started()
                },
                _ => future is None && *final(self) == *old(self),
            },
            old(self).wf() ==> final(self).wf() && (future is Some <==> old(self).state.queued()),
    {
        if !self.state.notified || self.state.running || self.state.complete {
            return None;
        }
        let mut stage: Stage<P, T> = Stage::Running;
        core::mem::swap(&mut stage, &mut self.stage);
        match stage {
            Stage::Idle(future) => {
                self.state.notified = false;
                self.state.running = true;
                Some(future)
            },
            other => {
                self.stage = other;
                None
            },
        }
    }

    /// Put the future back after a pending poll. Returns whether the task has to be put on a run
    /// queue again.
    pub fn suspend(&mut self, future: P) -> (push: bool)
        requires
            old(self).state.running,
        ensures
            *final(self) == old(self).suspended(future),
            push == old(self).state.notified,
            old(self).wf() ==> final(self).wf(),
    {
        self.state.running = false;
        self.stage = Stage::Idle(future);
        self.state.notified
    }

    /// Keep the output of a ready poll if a join handle may ask for it. Returns the waker of the
    /// join handle, to be fired, and the output if nobody will ask for it, to be dropped.
    pub fn finish(&mut self, output: T) -> (left: (Option<W>, Option<T>))
        requires
            old(self).state.running,
        ensures
            *final(self) == old(self).finished(output),
            left.0 == old(self).join_waker,
            left.1 == if old(self).state.join_interest {
                None
            } else {
                Some(output)
            },
            old(self).wf() ==> final(self).wf(),
    {
        self.state.running = false;
        self.state.complete = true;
        self.state.join_waker = false;
        if self.state.join_interest {
            self.stage = Stage::Finished(output);
            (self.join_waker.take(), None)
        } else {
            self.stage = Stage::Consumed;
            (self.join_waker.take(), Some(output))
        }
    }

    /// Take the output, if it is there.
    pub fn try_take_output(&mut self) -> (output: Option<T>)
        ensures
            match old(self).stage {
                Stage::Finished(finished) => output == Some(finished) && *final(self) == (Core {
                    stage: Stage::Consumed,
                    ..*old(self)
                }),
                _ => output is None && *final(self) == *old(self),
            },
            old(self).wf() ==> final(self).wf(),
    {
        let mut stage: Stage<P, T> = Stage::Consumed;
        core::mem::swap(&mut stage, &mut self.stage);
        match stage {
            Stage::Finished(output) => Some(output),
            other => {
                self.stage = other;
                None
            },
        }
    }

    /// End a poll that came to `poll`: the output, or the future that is still pending.
    pub fn settle(&mut self, poll: Result<T, P>) -> (left: Settled<P, T, W>)
        ensures
            (*final(self), left) == old(self).settled(poll),
            old(self).wf() ==> final(self).wf(),
    {
        match poll {
            Ok(output) => {
                if !self.state.running {
                    return Settled {
                        again: false,
                        join_waker: None,
                        output: Some(output),
                        future: None,
                    };
                }
                let (join_waker, output) = self.finish(output);
                Settled { again: false, join_waker, output, future: None }
            },
            Err(future) => {
                if !self.state.running {
                    return Settled {
                        again: false,
                        join_waker: None,
                        output: None,
                        future: Some(future),
                    };
                }
                let again = self.suspend(future);
                Settled { again, join_waker: None, output: None, future: None }
            },
        }
    }

    /// Poll for the output on behalf of the join handle: take it if the task is complete, else
    /// leave `waker` to be fired when it is. A handle that is gone gets nothing.
    pub fn poll_join(&mut self, waker: W) -> (poll: JoinPoll<T, W>)
        ensures
            (*final(self), poll) == old(self).joined(waker),
            old(self).wf() ==> final(self).wf(),
    {
        if !self.state.join_interest {
            return JoinPoll::Taken;
        }
        if !self.state.complete {
            let mut replaced = Some(waker);
            core::mem::swap(&mut replaced, &mut self.join_waker);
            self.state.join_waker = true;
            return JoinPoll::Parked(replaced);
        }
        match self.try_take_output() {
            Some(output) => JoinPoll::Ready(output),
            None => JoinPoll::Taken,
        }
    }

    /// The join handle is gone. Returns the output and the join waker that are there, to be
    /// dropped; an output that comes later is not kept.
    pub fn drop_join_interest(&mut self) -> (left: (Option<T>, Option<W>))
        ensures
            *final(self) == old(self).detached(),
            left.0 == match old(self).stage {
                Stage::Finished(output) => Some(output),
                _ => None,
            },
            left.1 == old(self).join_waker,
            old(self).wf() ==> final(self).wf(),
        opens_invariants none
        no_unwind
    {
        self.state.join_interest = false;
        self.state.join_waker = false;
        let mut join_waker: Option<W> = None;
        core::mem::swap(&mut join_waker, &mut self.join_waker);
        let mut stage: Stage<P, T> = Stage::Consumed;
        core::mem::swap(&mut stage, &mut self.stage);
        match stage {
            Stage::Finished(output) => (Some(output), join_waker),
            other => {
                self.stage = other;
                (None, join_waker)
            },
        }
    }
}

} // verus!
