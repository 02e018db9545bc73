//! Scheduler state that the workers share: run queues, driver token and shutdown flag.
//!
//! When a worker finds nothing to do it walks through the [`IdlePhase`]s. Exactly one worker gets
//! the driver token and waits in the reactor; the others sleep until they are unparked. The driver
//! marks itself as parked before it looks at the queues for the last time, and whoever schedules a
//! task looks at that mark after pushing, so no wake-up falls between the two.

use vstd::prelude::*;

use crate::executor::multi::worker::{self, Queues, QueuesView, Worker};

verus! {

/// How far a worker has got on its way to sleep.
#[derive(Clone, Copy, Debug, PartialEq, Eq, Structural)]
pub enum IdlePhase {
    /// The worker runs tasks.
    Running,
    /// The worker has found no task.
    Start,
    /// There was neither work nor a shutdown; the worker will try for the driver token.
    Contend,
    /// The worker has the driver token.
    Held,
    /// The worker has the driver token and counts as parked.
    Marked,
    /// The worker has the driver token and waits in the reactor.
    Driving,
    /// The reactor has returned; the worker still has the driver token.
    Polled,
    /// Another worker has the driver token; this one sleeps until it is unparked.
    Sleeping,
}

impl IdlePhase {
    /// Where a step from here leads a worker that the scheduler does not know. It never gets to
    /// drive.
    pub open spec fn alone(self) -> IdlePhase {
        match self {
            IdlePhase::Start | IdlePhase::Marked | IdlePhase::Polled => IdlePhase::Running,
            IdlePhase::Contend => IdlePhase::Sleeping,
            IdlePhase::Held => IdlePhase::Marked,
            IdlePhase::Running | IdlePhase::Driving | IdlePhase::Sleeping => self,
        }
    }

    /// Whether a step from here can lead to `next`, whatever the workers share.
    pub open spec fn leads_to(self, next: IdlePhase) -> bool {
        match self {
            IdlePhase::Start => next is Running || next is Contend,
            IdlePhase::Contend => next is Held || next is Sleeping,
            IdlePhase::Held => next is Marked,
            IdlePhase::Marked => next is Running || next is Driving,
            IdlePhase::Polled => next is Running,
            IdlePhase::Running | IdlePhase::Driving | IdlePhase::Sleeping => next == self,
        }
    }
}

/// The state that the workers share.
pub struct Sched<T> {
    queues: Queues<T>,
    driver_held: bool,
    driver_parked: bool,
    shutdown: bool,
}

/// What the workers share.
#[verifier::ext_equal]
pub struct SchedView<T> {
    /// The run queues.
    pub queues: QueuesView<T>,
    /// Whether a worker has the driver token.
    pub driver_held: bool,
    /// Whether the worker with the driver token counts as parked.
    pub driver_parked: bool,
    /// Whether the workers are to stop.
    pub shutdown: bool,
}

impl<T> SchedView<T> {
    /// `task` goes to the injector.
    pub open spec fn schedule(self, task: T) -> Self {
        SchedView {
            queues: QueuesView { injector: self.queues.injector.push(task), ..self.queues },
            ..self
        }
    }

    /// `task` goes to the queue of worker `me`.
    pub open spec fn reschedule(self, me: int, task: T) -> Self {
        SchedView {
            queues: QueuesView {
                local: self.queues.local.update(me, self.queues.local[me].push(task)),
                ..self.queues
            },
            ..self
        }
    }

    /// Give the driver token back.
    pub open spec fn released(self) -> Self {
        SchedView { driver_held: false, driver_parked: false, ..self }
    }

    /// One step of a worker that is in `phase`. A worker that drives or sleeps stays where it is
    /// until the reactor returns or it is unparked.
    pub open spec fn idle(self, phase: IdlePhase) -> (Self, IdlePhase) {
        match phase {
            IdlePhase::Start => if self.shutdown || self.queues.has_work() {
                (self, IdlePhase::Running)
            } else {
                (self, IdlePhase::Contend)
            },
            IdlePhase::Contend => if self.driver_held {
                (self, IdlePhase::Sleeping)
            } else {
                (SchedView { driver_held: true, ..self }, IdlePhase::Held)
            },
            IdlePhase::Held => (SchedView { driver_parked: true, ..self }, IdlePhase::Marked),
            IdlePhase::Marked => if self.queues.has_work() {
                (self.released(), IdlePhase::Running)
            } else {
                (self, IdlePhase::Driving)
            },
            IdlePhase::Polled => (self.released(), IdlePhase::Running),
            IdlePhase::Running | IdlePhase::Driving | IdlePhase::Sleeping => (self, phase),
        }
    }
}

impl<T> View for Sched<T> {
    type V = SchedView<T>;

    closed spec fn view(&self) -> SchedView<T> {
        SchedView {
            queues: self.queues@,
            driver_held: self.driver_held,
            driver_parked: self.driver_parked,
            shutdown: self.shutdown,
        }
    }
}

impl<T> Sched<T> {
    /// No task for `workers` workers, and no driver.
    pub fn new(workers: usize) -> (sched: Self)
        ensures
            sched@ == (SchedView {
                queues: QueuesView {
                    local: Seq::new(workers as nat, |w: int| Seq::<T>::empty()),
                    injector: Seq::empty(),
                },
                driver_held: false,
                driver_parked: false,
                shutdown: false,
            }),
    {
        Sched {
            queues: Queues::new(workers),
            driver_held: false,
            driver_parked: false,
            shutdown: false,
        }
    }

    /// Number of workers.
    pub fn workers(&self) -> (n: usize)
        ensures
            n == self@.queues.workers(),
    {
        self.queues.workers()
    }

    /// Whether the workers are to stop.
    pub fn is_shut_down(&self) -> (b: bool)
        ensures
            b == self@.shutdown,
    {
        self.shutdown
    }

    /// Make `task` runnable. Returns whether the reactor must be woken, because the driver is
    /// parked.
    pub fn schedule(&mut self, task: T) -> (ring: bool)
        ensures
            final(self)@ == old(self)@.schedule(task),
            ring == old(self)@.driver_parked,
    {
        self.queues.push_global(task);
        self.driver_parked
    }

    /// Put `task`, which worker `me` has just run and which is due again, back on its own queue.
    pub fn reschedule(&mut self, me: usize, task: T)
        requires
            me < old(self)@.queues.workers(),
        ensures
            final(self)@ == old(self)@.reschedule(me as int, task),
    {
        self.queues.push_local(me, task);
    }

    /// Pick the next task for `worker`.
    pub fn next(&mut self, worker: &mut Worker) -> (task: Option<T>)
        requires
            old(worker).id < old(self)@.queues.workers(),
        ensures
            ({
                let (queues, picked) = old(self)@.queues.pick(
                    old(worker).id as int,
                    old(worker).fair(),
                    old(worker).start(old(self)@.queues.workers()),
                );
                &&& final(self)@ == (SchedView { queues, ..old(self)@ })
                &&& task == picked
            }),
            *final(worker) == (Worker {
                id: old(worker).id,
                tick: old(worker).next_tick(),
                rng: if old(worker).steals(old(self)@.queues) {
                    worker::next_random(old(worker).rng)
                } else {
                    old(worker).rng
                },
            }),
    {
        worker.next(&mut self.queues)
    }

    /// Take one step of worker `me`, which is in `phase`.
    pub fn idle_step(&mut self, me: usize, phase: IdlePhase) -> (next: IdlePhase)
        requires
            me < old(self)@.queues.workers(),
        ensures
            (final(self)@, next) == old(self)@.idle(phase),
    {
        match phase {
            IdlePhase::Start => {
                if self.shutdown || self.queues.has_work(me) {
                    IdlePhase::Running
                } else {
                    IdlePhase::Contend
                }
            },
            IdlePhase::Contend => {
                if self.driver_held {
                    IdlePhase::Sleeping
                } else {
                    self.driver_held = true;
                    IdlePhase::Held
                }
            },
            IdlePhase::Held => {
                self.driver_parked = true;
                IdlePhase::Marked
            },
            IdlePhase::Marked => {
                if self.queues.has_work(me) {
                    self.driver_parked = false;
                    self.driver_held = false;
                    IdlePhase::Running
                } else {
                    IdlePhase::Driving
                }
            },
            IdlePhase::Polled => {
                self.driver_parked = false;
                self.driver_held = false;
                IdlePhase::Running
            },
            IdlePhase::Running | IdlePhase::Driving | IdlePhase::Sleeping => phase,
        }
    }

    /// Tell the workers to stop, and hand out the tasks that were still queued: the local queues
    /// in the order of the workers, then the injector.
    pub fn shut_down(&mut self) -> (tasks: Vec<T>)
        ensures
            tasks@ == old(self)@.queues.local.flatten() + old(self)@.queues.injector,
            final(self)@ == (SchedView {
                queues: QueuesView {
                    local: Seq::new(old(self)@.queues.workers(), |w: int| Seq::<T>::empty()),
                    injector: Seq::empty(),
                },
                shutdown: true,
                ..old(self)@
            }),
    {
        self.shutdown = true;
        self.queues.drain()
    }
}

/// The scheduler of an executor, until the executor is dropped.
pub struct SchedCell<T> {
    sched: Option<Sched<T>>,
}

impl<T> View for SchedCell<T> {
    type V = Option<SchedView<T>>;

    closed spec fn view(&self) -> Option<SchedView<T>> {
        match self.sched {
            Some(sched) => Some(sched@),
            None => None,
        }
    }
}

/// Whether `cell` holds a scheduler that has a worker `me`.
pub open spec fn has_worker<T>(cell: Option<SchedView<T>>, me: usize) -> bool {
    cell matches Some(sched) && me < sched.queues.workers()
}

impl<T> SchedCell<T> {
    /// A scheduler without tasks for `workers` workers.
    pub fn new(workers: usize) -> (cell: Self)
        ensures
            cell@ == Some(
                SchedView {
                    queues: QueuesView {
                        local: Seq::new(workers as nat, |w: int| Seq::<T>::empty()),
                        injector: Seq::empty(),
                    },
                    driver_held: false,
                    driver_parked: false,
                    shutdown: false,
                },
            ),
    {
        SchedCell { sched: Some(Sched::new(workers)) }
    }

    /// Make `task` runnable and return whether the reactor must be woken. Without a scheduler,
    /// `task` is handed back.
    pub fn schedule(&mut self, task: T) -> (ring: Result<bool, T>)
        ensures
            match old(self)@ {
                Some(sched) => {
                    &&& ring == Ok::<bool, T>(sched.driver_parked)
                    &&& final(self)@ == Some(sched.schedule(task))
                },
                None => ring == Err::<bool, T>(task) && final(self)@ is None,
            },
    {
        match &mut self.sched {
            Some(sched) => Ok(sched.schedule(task)),
            None => Err(task),
        }
    }

    /// Put `task` back on the queue of worker `me`. Without such a worker, `task` is handed back.
    pub fn reschedule(&mut self, me: usize, task: T) -> (put: Result<(), T>)
        ensures
            has_worker(old(self)@, me) ==> {
                &&& put == Ok::<(), T>(())
                &&& final(self)@ == Some(old(self)@->0.reschedule(me as int, task))
            },
            !has_worker(old(self)@, me) ==> {
                put == Err::<(), T>(task) && final(self)@ == old(self)@
            },
    {
        match &mut self.sched {
            Some(sched) => {
                if me < sched.workers() {
                    sched.reschedule(me, task);
                    Ok(())
                } else {
                    Err(task)
                }
            },
            None => Err(task),
        }
    }

    /// Pick the next task for `worker`, and count the pick.
    pub fn next(&mut self, worker: &mut Worker) -> (task: Option<T>)
        ensures
            has_worker(old(self)@, old(worker).id) ==> {
                let sched = old(self)@->0;
                let (queues, picked) = sched.queues.pick(
                    old(worker).id as int,
                    old(worker).fair(),
                    old(worker).start(sched.queues.workers()),
                );
                &&& task == picked
                &&& final(self)@ == Some(SchedView { queues, ..sched })
                &&& *final(worker) == (Worker {
                    id: old(worker).id,
                    tick: old(worker).next_tick(),
                    rng: if old(worker).steals(sched.queues) {
                        worker::next_random(old(worker).rng)
                    } else {
                        old(worker).rng
                    },
                })
            },
            !has_worker(old(self)@, old(worker).id) ==> {
                &&& task is None
                &&& final(self)@ == old(self)@
                &&& *final(worker) == (Worker { tick: old(worker).next_tick(), ..*old(worker) })
            },
    {
        if let Some(sched) = &mut self.sched {
            if worker.id < sched.workers() {
                return sched.next(worker);
            }
        }
        worker.tick = worker.tick.wrapping_add(1);
        None
    }

    /// Take one step of worker `me`, which is in `phase`.
    pub fn idle_step(&mut self, me: usize, phase: IdlePhase) -> (next: IdlePhase)
        ensures
            has_worker(old(self)@, me) ==> {
                let (sched, after) = old(self)@->0.idle(phase);
                next == after && final(self)@ == Some(sched)
            },
            !has_worker(old(self)@, me) ==> {
                next == phase.alone() && final(self)@ == old(self)@
            },
    {
        if let Some(sched) = &mut self.sched {
            if me < sched.workers() {
                return sched.idle_step(me, phase);
            }
        }
        match phase {
            IdlePhase::Start | IdlePhase::Marked | IdlePhase::Polled => IdlePhase::Running,
            IdlePhase::Contend => IdlePhase::Sleeping,
            IdlePhase::Held => IdlePhase::Marked,
            IdlePhase::Running | IdlePhase::Driving | IdlePhase::Sleeping => phase,
        }
    }

    /// Whether the workers are to stop; also once there is no scheduler.
    pub fn is_shut_down(&self) -> (b: bool)
        ensures
            b == match self@ {
                Some(sched) => sched.shutdown,
                None => true,
            },
    {
        match &self.sched {
            Some(sched) => sched.is_shut_down(),
            None => true,
        }
    }

    /// Tell the workers to stop, and hand out the tasks that were still queued.
    pub fn shut_down(&mut self) -> (tasks: Vec<T>)
        ensures
            match old(self)@ {
                Some(sched) => {
                    &&& tasks@ == sched.queues.local.flatten() + sched.queues.injector
                    &&& final(self)@ == Some(
                        SchedView {
                            queues: QueuesView {
                                local: Seq::new(
                                    sched.queues.workers(),
                                    |w: int| Seq::<T>::empty(),
                                ),
                                injector: Seq::empty(),
                            },
                            shutdown: true,
                            ..sched
                        },
                    )
                },
                None => tasks@ == Seq::<T>::empty() && final(self)@ is None,
            },
    {
        match &mut self.sched {
            Some(sched) => sched.shut_down(),
            None => Vec::new(),
        }
    }

    /// Take the scheduler out for good.
    pub fn close(&mut self) -> (sched: Option<Sched<T>>)
        ensures
            match sched {
                Some(sched) => old(self)@ == Some(sched@),
                None => old(self)@ is None,
            },
            final(self)@ is None,
        opens_invariants none
        no_unwind
    {
        let mut sched: Option<Sched<T>> = None;
        core::mem::swap(&mut sched, &mut self.sched);
        sched
    }
}

/// A scheduler and the workers around it, each with a thread of its own. Whoever schedules a task
/// or shuts the executor down unparks all workers: one that sleeps wakes up, and one that does not
/// will not sleep the next time.
#[verifier::ext_equal]
pub struct System<T> {
    pub sched: SchedView<T>,
    /// The phase of each worker.
    pub phases: Seq<IdlePhase>,
    /// Whether the reactor has a wake-up pending.
    pub rung: bool,
    /// Which workers have been unparked since they last slept.
    pub unparked: Seq<bool>,
    /// Which workers have left after the shutdown.
    pub gone: Seq<bool>,
}

/// What can happen next in a [`System`]. Events of different workers come in any order.
pub enum Event<T> {
    /// A task is woken or spawned, from any thread.
    Schedule(T),
    /// A running worker puts a task back on its own queue.
    Reschedule(int, T),
    /// A running worker picks a task.
    Pick(int, bool, int),
    /// A running worker gives up looking.
    GoIdle(int),
    /// A worker that is on its way to sleep takes a step.
    Step(int),
    /// The reactor returns and takes its wake-up.
    PollReturns(int),
    /// A sleeping worker wakes up, with or without having been unparked.
    WakeUp(int),
    /// The executor shuts down, unparks the workers and wakes the reactor.
    ShutDown,
    /// A running worker sees the shutdown, leaves, and wakes the reactor.
    Leave(int),
}

impl<T> System<T> {
    /// Before the first event all workers run.
    pub open spec fn initial(self) -> bool {
        &&& self.phases.len() == self.sched.queues.workers()
        &&& self.phases.len() > 0
        &&& forall|w: int| 0 <= w < self.phases.len() ==> #[trigger] self.phases[w] is Running
        &&& !self.sched.queues.has_work()
        &&& !self.sched.driver_held
        &&& !self.sched.driver_parked
        &&& !self.sched.shutdown
        &&& self.unparked.len() == self.phases.len()
        &&& self.gone == Seq::new(self.phases.len(), |w: int| false)
    }

    pub open spec fn worker(self, w: int) -> bool {
        0 <= w < self.phases.len()
    }

    /// Whether worker `w` runs tasks.
    pub open spec fn runs(self, w: int) -> bool {
        self.worker(w) && self.phases[w] is Running && !self.gone[w]
    }

    /// Every worker has been unparked.
    pub open spec fn all_unparked(self) -> Seq<bool> {
        Seq::new(self.phases.len(), |w: int| true)
    }

    /// Whether `event` can happen.
    pub open spec fn enabled(self, event: Event<T>) -> bool {
        match event {
            Event::Schedule(_) | Event::ShutDown => true,
            Event::Reschedule(w, _) => self.runs(w),
            Event::Pick(w, _, start) => self.runs(w) && 0 <= start < self.phases.len(),
            Event::GoIdle(w) => self.runs(w),
            Event::Step(w) => self.worker(w),
            Event::PollReturns(w) => self.worker(w) && self.phases[w] is Driving,
            Event::WakeUp(w) => self.worker(w) && self.phases[w] is Sleeping,
            Event::Leave(w) => self.runs(w) && self.sched.shutdown,
        }
    }

    /// The system after `event`.
    pub open spec fn after(self, event: Event<T>) -> Self {
        match event {
            Event::Schedule(task) => System {
                sched: self.sched.schedule(task),
                rung: self.rung || self.sched.driver_parked,
                unparked: self.all_unparked(),
                ..self
            },
            Event::Reschedule(w, task) => System { sched: self.sched.reschedule(w, task), ..self },
            Event::Pick(w, fair, start) => System {
                sched: SchedView {
                    queues: self.sched.queues.pick(w, fair, start).0,
                    ..self.sched
                },
                ..self
            },
            Event::GoIdle(w) => System { phases: self.phases.update(w, IdlePhase::Start), ..self },
            Event::Step(w) => {
                let (sched, phase) = self.sched.idle(self.phases[w]);
                System { sched, phases: self.phases.update(w, phase), ..self }
            },
            Event::PollReturns(w) => System {
                phases: self.phases.update(w, IdlePhase::Polled),
                rung: false,
                ..self
            },
            Event::WakeUp(w) => System {
                phases: self.phases.update(w, IdlePhase::Running),
                unparked: self.unparked.update(w, false),
                ..self
            },
            Event::Leave(w) => System { gone: self.gone.update(w, true), rung: true, ..self },
            Event::ShutDown => System {
                sched: SchedView {
                    queues: QueuesView {
                        local: Seq::new(
                            self.sched.queues.workers(),
                            |w: int| Seq::<T>::empty(),
                        ),
                        injector: Seq::empty(),
                    },
                    shutdown: true,
                    ..self.sched
                },
                rung: true,
                unparked: self.all_unparked(),
                ..self
            },
        }
    }

    /// Whether worker `w` has the driver token.
    pub open spec fn drives(self, w: int) -> bool {
        self.phases[w] is Held || self.phases[w] is Marked || self.phases[w] is Driving
            || self.phases[w] is Polled
    }

    /// Whether worker `w` looks for work without anyone waking it.
    pub open spec fn awake(self, w: int) -> bool {
        !(self.phases[w] is Driving) && !(self.phases[w] is Sleeping) && !self.gone[w]
    }

    /// Whether worker `w`, after a shutdown, is on its way out.
    pub open spec fn leaving(self, w: int) -> bool {
        &&& self.phases[w] is Running || self.phases[w] is Start || self.phases[w] is Polled
        &&& !self.gone[w]
    }

    /// The driver token is with at most one worker, and the flags say where it is.
    pub open spec fn token_inv(self) -> bool {
        &&& forall|w: int, v: int|
            self.worker(w) && self.worker(v) && #[trigger] self.drives(w)
                && #[trigger] self.drives(v) ==> w == v
        &&& self.sched.driver_held <==> exists|w: int| self.worker(w) && #[trigger] self.drives(w)
        &&& forall|w: int|
            self.worker(w) && #[trigger] self.drives(w) ==> (self.sched.driver_parked
                <==> !(self.phases[w] is Held))
        &&& self.sched.driver_parked ==> self.sched.driver_held
    }

    /// No worker sleeps on a task, and not all of them sleep.
    pub open spec fn sleep_inv(self) -> bool {
        &&& forall|w: int|
            self.worker(w) && !(#[trigger] self.phases[w] is Running) && !(self.phases[w] is Start)
                ==> self.sched.queues.local[w].len() == 0
        &&& forall|w: int|
            self.worker(w) && #[trigger] self.phases[w] is Driving
                && self.sched.queues.injector.len() > 0 ==> self.rung
        &&& exists|w: int| self.worker(w) && !(#[trigger] self.phases[w] is Sleeping)
    }

    /// After a shutdown no worker sleeps for good, and whoever takes the wake-up of the reactor is
    /// on the way out, and will wake it again.
    pub open spec fn shutdown_inv(self) -> bool {
        &&& forall|w: int|
            self.worker(w) && #[trigger] self.gone[w] ==> self.phases[w] is Running
                && self.sched.shutdown
        &&& forall|w: int|
            self.sched.shutdown && self.worker(w) && (#[trigger] self.phases[w] is Contend
                || self.phases[w] is Sleeping) ==> self.unparked[w]
        &&& self.sched.shutdown && !self.rung ==> exists|w: int|
            self.worker(w) && #[trigger] self.leaving(w)
    }

    /// What every reachable state of the system keeps.
    pub open spec fn inv(self) -> bool {
        &&& self.phases.len() == self.sched.queues.workers()
        &&& self.unparked.len() == self.phases.len()
        &&& self.gone.len() == self.phases.len()
        &&& self.token_inv()
        &&& self.sleep_inv()
        &&& self.shutdown_inv()
    }
}

} // verus!
