//! Multi-worker executor: workers with run queues of their own, a shared injector, and stealing.
//!
//! [`Multi`] holds what the workers share. A worker is whoever calls [`Multi::turn`] with a
//! [`Worker`]: each call runs one task. One thread can be all the workers in turn, or every worker
//! can have a thread of its own.

pub mod idle;
pub mod laws;
pub mod sched;
pub mod worker;

use core::future::Future;
use core::pin::Pin;
use core::task::Waker;
use std::sync::{Arc, Mutex, MutexGuard};
use std::task::Wake;

use vstd::prelude::*;

use crate::executor::multi::sched::{IdlePhase, Sched, SchedCell};
use crate::executor::multi::worker::Worker;
use crate::sync;
use crate::task::join::{JoinHandle, Joinable};
use crate::task::raw::{Core, JoinPoll, Settled, Stage};
use crate::waker::{pin_future, poll_future};

verus! {

/// A task that can be polled, whatever its future is.
pub(crate) trait Runnable: Send + Sync {
    /// Whether the task has been run, and is due again if `again`.
    spec fn has_run(&self, again: bool) -> bool;

    /// Poll the task once. Returns whether it is due again.
    fn run(&self) -> (again: bool)
        ensures
            self.has_run(again),
    ;
}

/// Holds a task that is on a run queue. It goes in as it is, without being converted to another
/// type.
pub(crate) struct Queued<R> {
    task: R,
}

/// A task on a run queue.
pub(crate) type TaskRef = Queued<Box<dyn Runnable>>;

/// Tells the workers that there is something to do.
pub trait Bell: Send + Sync {
    /// Whether the bell has been rung with `driver_parked`. A bell of which nothing is to be shown
    /// leaves this as it is.
    open spec fn has_rung(&self, driver_parked: bool) -> bool {
        true
    }

    /// A task has been scheduled. `driver_parked` says whether a worker waits in the reactor, so
    /// that the reactor has to be woken.
    fn ring(&self, driver_parked: bool)
        ensures
            self.has_rung(driver_parked),
    ;
}

/// A bell that nobody has to hear.
struct Silence;

impl Bell for Silence {
    closed spec fn has_rung(&self, driver_parked: bool) -> bool {
        true
    }

    fn ring(&self, driver_parked: bool) {
    }
}

/// A bell in its place. It goes in as it is, without being converted to another type.
pub struct Installed<B> {
    pub bell: B,
}

/// What the workers and the tasks of one executor share.
pub(crate) struct Shared {
    sched: Mutex<SchedCell<TaskRef>>,
    bell: Installed<Box<dyn Bell>>,
}

impl Shared {
    /// Whether `cell` is what was behind the lock of the scheduler when it was taken.
    pub(crate) closed spec fn held(&self, cell: &mut SchedCell<TaskRef>) -> bool {
        sync::opened(&self.sched, cell)
    }

    /// Whether the bell has been rung with `driver_parked`.
    pub(crate) closed spec fn has_rung(&self, driver_parked: bool) -> bool {
        self.bell.bell.has_rung(driver_parked)
    }

    /// Whether `task` has been handed to the scheduler, and the bell has been rung with what the
    /// scheduler said of the driver.
    pub(crate) closed spec fn has_scheduled(&self, task: TaskRef) -> bool {
        exists|cell: &mut SchedCell<TaskRef>, ring: Result<bool, TaskRef>|
            sync::opened(&self.sched, cell) && #[trigger] call_ensures(
                SchedCell::<TaskRef>::schedule,
                (cell, task),
                ring,
            ) && self.bell.bell.has_rung(ring == Ok::<bool, TaskRef>(true))
    }

    /// Whether `task` has been handed to the scheduler for worker `me`.
    pub(crate) closed spec fn has_rescheduled(&self, me: usize, task: TaskRef) -> bool {
        exists|cell: &mut SchedCell<TaskRef>, left: Result<(), TaskRef>|
            sync::opened(&self.sched, cell) && #[trigger] call_ensures(
                SchedCell::<TaskRef>::reschedule,
                (cell, me, task),
                left,
            )
    }

    /// Put `task` on the injector and ring the bell. Once the executor has been dropped, the task
    /// is dropped too.
    fn schedule(&self, task: TaskRef)
        ensures
            self.has_scheduled(task),
    {
        let ring = {
            let mut guard = sync::lock(&self.sched);
            sync::guarded(&mut guard).schedule(task)
        };
        match ring {
            Ok(driver_parked) => {
                self.bell.bell.ring(driver_parked);
            },
            Err(_) => {
                self.bell.bell.ring(false);
            },
        }
    }

    /// Put `task` back on the queue of worker `me`.
    fn reschedule(&self, me: usize, task: TaskRef)
        ensures
            self.has_rescheduled(me, task),
    {
        let left = {
            let mut guard = sync::lock(&self.sched);
            sync::guarded(&mut guard).reschedule(me, task)
        };
    }

    /// The next task for `worker`, if there is one. The look is counted either way.
    fn next(&self, worker: &mut Worker) -> (task: Option<TaskRef>)
        ensures
            looked(*old(worker), *final(worker)),
            exists|cell: &mut SchedCell<TaskRef>, looking: &mut Worker|
                sync::opened(&self.sched, cell) && *looking == *old(worker) && *final(looking)
                    == *final(worker) && #[trigger] call_ensures(
                    SchedCell::<TaskRef>::next,
                    (cell, looking),
                    task,
                ),
    {
        let mut guard = sync::lock(&self.sched);
        sync::guarded(&mut guard).next(worker)
    }
}

/// `after` is `before` after it has looked for a task once: the look is counted, and the generator
/// has moved on if it came to stealing.
pub open spec fn looked(before: Worker, after: Worker) -> bool {
    &&& after.id == before.id
    &&& after.tick == before.next_tick()
    &&& after.rng == before.rng || after.rng == worker::next_random(before.rng)
}

/// A spawned task.
#[verifier::reject_recursive_types(F)]
pub(crate) struct RawTask<F: Future> {
    core: Mutex<Core<Pin<Box<F>>, F::Output, Waker>>,
    shared: Arc<Shared>,
}

/// One reference to a spawned task.
#[verifier::reject_recursive_types(F)]
pub(crate) struct TaskArc<F: Future> {
    task: Arc<RawTask<F>>,
}

/// `Waker::from` on an `Arc` whose target implements `Wake`: a waker that calls it.
#[verifier::external_body]
fn task_waker<F: Future + Send + 'static>(task: Arc<RawTask<F>>) -> (waker: Waker)
    where F::Output: Send
{
    Waker::from(task)
}

/// `task` as it stands on a run queue.
spec fn queued<F: Future + Send + 'static>(task: Arc<RawTask<F>>) -> TaskRef where
    F::Output: Send,
 {
    let boxed: Box<dyn Runnable> = Box::new(TaskArc { task });
    let queued = Queued { task: boxed };
    queued
}

/// Make `task` ready for a run queue.
fn enqueue<F: Future + Send + 'static>(task: Arc<RawTask<F>>) -> (task_ref: TaskRef)
    where F::Output: Send
    ensures
        task_ref == queued(task),
{
    let boxed: Box<dyn Runnable> = Box::new(TaskArc { task });
    let queued = Queued { task: boxed };
    queued
}

impl<F: Future + Send + 'static> RawTask<F> where F::Output: Send {
    /// Whether `core` is what was behind the lock of `task` when it was taken.
    pub(crate) closed spec fn held(
        task: Arc<Self>,
        core: &mut Core<Pin<Box<F>>, F::Output, Waker>,
    ) -> bool {
        sync::opened(&task.core, core)
    }

    /// Whether `task` has been scheduled on its executor.
    pub(crate) closed spec fn is_scheduled(task: Arc<Self>) -> bool {
        task.shared.has_scheduled(queued(task))
    }

    /// Whether a wake of `task` has been recorded, and the task has been scheduled if it has to be.
    pub closed spec fn has_woken(task: Arc<Self>) -> bool {
        exists|core: &mut Core<Pin<Box<F>>, F::Output, Waker>, push: bool|
            sync::opened(&task.core, core) && #[trigger] call_ensures(
                Core::<Pin<Box<F>>, F::Output, Waker>::wake,
                (core,),
                push,
            ) && (push ==> call_ensures(Shared::schedule, (&*task.shared, queued(task)), ()))
    }
}

impl<F: Future + Send + 'static> Wake for RawTask<F> where F::Output: Send {
    fn wake(self: Arc<Self>)
        ensures
            RawTask::<F>::has_woken(self),
    {
        let push = {
            let mut guard = sync::lock(&self.core);
            sync::guarded(&mut guard).wake()
        };
        if push {
            let shared = self.shared.clone();
            shared.schedule(enqueue(self));
        }
    }
}

impl<F: Future + Send + 'static> TaskArc<F> where F::Output: Send {
    /// Whether `core` is what was behind the lock of the task when it was taken.
    pub(crate) closed spec fn held(
        &self,
        core: &mut Core<Pin<Box<F>>, F::Output, Waker>,
    ) -> bool {
        sync::opened(&self.task.core, core)
    }

    /// Whether the task has been told that nobody will ask for its output, unless its lock could not
    /// be had.
    pub closed spec fn has_detached(&self) -> bool {
        exists|guard: Option<MutexGuard<Core<Pin<Box<F>>, F::Output, Waker>>>| #[trigger]
            call_ensures(
                sync::lock_in_drop::<Core<Pin<Box<F>>, F::Output, Waker>>,
                (&self.task.core,),
                guard,
            ) && (guard matches Some(guard) ==> exists|
                core: &mut Core<Pin<Box<F>>, F::Output, Waker>,
                left: (Option<F::Output>, Option<Waker>),
            |
                sync::opened_as(guard, core) && #[trigger] call_ensures(
                    Core::<Pin<Box<F>>, F::Output, Waker>::drop_join_interest,
                    (core,),
                    left,
                ))
    }

    /// Whether `future`, taken out of the task, has been polled with a waker of the task, the task
    /// has been settled with what the poll came to, and the join handle has been woken if it is to
    /// be. The task is due again if `again`.
    spec fn has_polled(&self, future: Pin<Box<F>>, again: bool) -> bool {
        exists|
            waker: Waker,
            poll: Result<F::Output, Pin<Box<F>>>,
            core: &mut Core<Pin<Box<F>>, F::Output, Waker>,
            left: Settled<Pin<Box<F>>, F::Output, Waker>,
        |
            {
                &&& call_ensures(task_waker::<F>, (self.task,), waker)
                &&& #[trigger] call_ensures(poll_future::<F>, (future, &waker), poll)
                &&& sync::opened(&self.task.core, core)
                &&& #[trigger] call_ensures(
                    Core::<Pin<Box<F>>, F::Output, Waker>::settle,
                    (core, poll),
                    left,
                )
                &&& left.join_waker matches Some(join_waker) ==> call_ensures(
                    Waker::wake,
                    (join_waker,),
                    (),
                )
                &&& again == left.again
            }
    }
}

impl<F: Future + Send + 'static> Runnable for TaskArc<F> where F::Output: Send {
    closed spec fn has_run(&self, again: bool) -> bool {
        exists|core: &mut Core<Pin<Box<F>>, F::Output, Waker>, started: Option<Pin<Box<F>>>|
            sync::opened(&self.task.core, core) && #[trigger] call_ensures(
                Core::<Pin<Box<F>>, F::Output, Waker>::start,
                (core,),
                started,
            ) && match started {
                None => !again,
                Some(future) => self.has_polled(future, again),
            }
    }

    fn run(&self) -> (again: bool) {
        let started = {
            let mut guard = sync::lock(&self.task.core);
            sync::guarded(&mut guard).start()
        };
        let future = match started {
            Some(future) => future,
            None => {
                return false;
            },
        };
        let waker = task_waker(self.task.clone());
        let poll = poll_future(future, &waker);
        let left = {
            let mut guard = sync::lock(&self.task.core);
            sync::guarded(&mut guard).settle(poll)
        };
        if let Some(join_waker) = left.join_waker {
            join_waker.wake();
        }
        left.again
    }
}

impl<F: Future + Send + 'static> Joinable<F::Output> for TaskArc<F> where F::Output: Send {
    closed spec fn has_answered(&self, waker: Waker, answer: JoinPoll<F::Output, Waker>) -> bool {
        exists|core: &mut Core<Pin<Box<F>>, F::Output, Waker>|
            sync::opened(&self.task.core, core) && #[trigger] call_ensures(
                Core::<Pin<Box<F>>, F::Output, Waker>::poll_join,
                (core, waker),
                answer,
            )
    }

    fn poll_join(&self, waker: &Waker) -> (answer: JoinPoll<F::Output, Waker>) {
        let waker = waker.clone();
        let mut guard = sync::lock(&self.task.core);
        sync::guarded(&mut guard).poll_join(waker)
    }

    fn detach(&self)
        ensures
            self.has_detached(),
    {
        let mut left: (Option<F::Output>, Option<Waker>) = (None, None);
        if let Some(mut guard) = sync::lock_in_drop(&self.task.core) {
            left = sync::guarded(&mut guard).drop_join_interest();
        }
    }
}

/// Whether `handle` waits for `task`.
spec fn joins<F: Future + Send + 'static>(
    handle: JoinHandle<F::Output>,
    task: Arc<RawTask<F>>,
) -> bool where F::Output: Send + 'static {
    let raw: Box<dyn Joinable<F::Output>> = Box::new(TaskArc { task });
    handle.task() matches Some(task) && task == raw
}

/// Starts tasks on an executor. Can be cloned and sent to other threads.
pub struct Spawner {
    shared: Arc<Shared>,
}

impl Spawner {
    /// Whether the tasks start on `multi`.
    pub closed spec fn runs_on(&self, multi: Multi) -> bool {
        self.shared == multi.shared
    }

    /// Start a task that runs `future`.
    pub fn spawn<F: Future + Send + 'static>(&self, future: F) -> (handle: JoinHandle<F::Output>)
        where F::Output: Send + 'static
        ensures
            handle.is_live(),
            forall|multi: Multi| self.runs_on(multi) ==> #[trigger] multi.has_task::<F>(handle),
            forall|multi: Multi|
                self.runs_on(multi) ==> #[trigger] multi.has_started::<F>(future, handle),
    {
        let task = Arc::new(
            RawTask {
                core: sync::new_mutex(Core::new(pin_future(future))),
                shared: self.shared.clone(),
            },
        );
        let handle = JoinHandle::new(Box::new(TaskArc { task: task.clone() }));
        self.shared.schedule(enqueue(task));
        assert(joins::<F>(handle, task));
        handle
    }
}

impl Clone for Spawner {
    fn clone(&self) -> (copy: Self)
        ensures
            forall|multi: Multi| self.runs_on(multi) ==> #[trigger] copy.runs_on(multi),
    {
        Spawner { shared: self.shared.clone() }
    }
}

/// A multi-worker executor.
pub struct Multi {
    shared: Arc<Shared>,
    workers: usize,
}

impl Multi {
    /// Number of workers.
    pub closed spec fn spec_workers(&self) -> usize {
        self.workers
    }

    /// Whether `handle` waits for a task of this executor that runs a future of type `F`.
    pub closed spec fn has_task<F: Future + Send + 'static>(
        &self,
        handle: JoinHandle<F::Output>,
    ) -> bool where F::Output: Send + 'static {
        exists|task: Arc<RawTask<F>>| #[trigger]
            joins::<F>(handle, task) && task.shared == self.shared
    }

    /// Whether `handle` waits for a task that was made to run `future`, and has been scheduled on
    /// this executor.
    pub closed spec fn has_started<F: Future + Send + 'static>(
        &self,
        future: F,
        handle: JoinHandle<F::Output>,
    ) -> bool where F::Output: Send + 'static {
        exists|task: Arc<RawTask<F>>, pinned: Pin<Box<F>>|
            {
                &&& #[trigger] joins::<F>(handle, task)
                &&& task.shared == self.shared
                &&& #[trigger] call_ensures(pin_future::<F>, (future,), pinned)
                &&& call_ensures(
                    sync::new_mutex::<Core<Pin<Box<F>>, F::Output, Waker>>,
                    (Core::born(pinned),),
                    task.core,
                )
                &&& call_ensures(Shared::schedule, (&*self.shared, queued(task)), ())
            }
    }

    /// Whether a task has been looked for as `worker`, and `ran` if there was one: it was run, and
    /// put back if it is due again.
    pub closed spec fn has_turned(&self, worker: Worker, ran: bool) -> bool {
        exists|looking: &mut Worker, task: Option<TaskRef>|
            *looking == worker && #[trigger] call_ensures(
                Shared::next,
                (&*self.shared, looking),
                task,
            ) && match task {
                None => !ran,
                Some(task) => ran && exists|again: bool| #[trigger]
                    task.task.has_run(again) && (again ==> call_ensures(
                        Shared::reschedule,
                        (&*self.shared, worker.id, task),
                        (),
                    )),
            }
    }

    /// Whether the scheduler has taken a step of worker `me` from `phase` to `next`.
    pub closed spec fn has_stepped(&self, me: usize, phase: IdlePhase, next: IdlePhase) -> bool {
        exists|cell: &mut SchedCell<TaskRef>|
            sync::opened(&self.shared.sched, cell) && #[trigger] call_ensures(
                SchedCell::<TaskRef>::idle_step,
                (cell, me, phase),
                next,
            )
    }

    /// Whether the scheduler has said, by `stop`, if the workers are to stop.
    pub closed spec fn has_said(&self, stop: bool) -> bool {
        exists|cell: &mut SchedCell<TaskRef>|
            sync::opened(&self.shared.sched, cell) && #[trigger] call_ensures(
                SchedCell::<TaskRef>::is_shut_down,
                (&*cell,),
                stop,
            )
    }

    /// Whether the scheduler has been shut down, and the bell has been rung.
    pub closed spec fn has_shut_down(&self) -> bool {
        &&& exists|cell: &mut SchedCell<TaskRef>, tasks: Vec<TaskRef>|
            sync::opened(&self.shared.sched, cell) && #[trigger] call_ensures(
                SchedCell::<TaskRef>::shut_down,
                (cell,),
                tasks,
            )
        &&& self.shared.bell.bell.has_rung(true)
    }

    /// Whether the scheduler has been taken out, unless its lock could not be had.
    pub closed spec fn is_dropped(&self) -> bool {
        exists|guard: Option<MutexGuard<SchedCell<TaskRef>>>| #[trigger]
            call_ensures(sync::lock_in_drop::<SchedCell<TaskRef>>, (&self.shared.sched,), guard) && (
            guard matches Some(guard) ==> closed_down(guard))
    }

    /// Whether the executor was made with a scheduler without tasks.
    pub closed spec fn is_new(&self) -> bool {
        exists|cell: SchedCell<TaskRef>| #[trigger]
            call_ensures(sync::new_mutex::<SchedCell<TaskRef>>, (cell,), self.shared.sched)
                && call_ensures(SchedCell::<TaskRef>::new, (self.workers,), cell)
    }

    /// The bell that the executor rings.
    pub closed spec fn installed(&self) -> Installed<Box<dyn Bell>> {
        self.shared.bell
    }

    /// An executor for `workers` workers that look for tasks without being woken.
    pub fn new(workers: usize) -> (multi: Self)
        ensures
            multi.spec_workers() == workers,
            multi.is_new(),
    {
        Self::with_bell(workers, Box::new(Silence))
    }

    /// An executor for `workers` workers that rings `bell`.
    pub fn with_bell(workers: usize, bell: Box<dyn Bell>) -> (multi: Self)
        ensures
            multi.spec_workers() == workers,
            multi.installed().bell == bell,
            multi.is_new(),
    {
        let bell = Installed { bell };
        let cell = SchedCell::new(workers);
        let multi = Multi {
            shared: Arc::new(Shared { sched: sync::new_mutex(cell), bell }),
            workers,
        };
        assert(call_ensures(
            sync::new_mutex::<SchedCell<TaskRef>>,
            (cell,),
            multi.shared.sched,
        ));
        multi
    }

    /// Number of workers.
    pub fn workers(&self) -> (workers: usize)
        ensures
            workers == self.spec_workers(),
    {
        self.workers
    }

    /// A handle for starting tasks.
    pub fn spawner(&self) -> (spawner: Spawner)
        ensures
            spawner.runs_on(*self),
    {
        Spawner { shared: self.shared.clone() }
    }

    /// Run one task as `worker`. Returns whether there was one.
    pub fn turn(&self, worker: &mut Worker) -> (ran: bool)
        ensures
            looked(*old(worker), *final(worker)),
            self.has_turned(*old(worker), ran),
    {
        match self.shared.next(worker) {
            None => false,
            Some(task) => {
                if task.task.run() {
                    self.shared.reschedule(worker.id, task);
                }
                true
            },
        }
    }

    /// Take one step of worker `me`, which has found no task and is in `phase`.
    pub fn idle_step(&self, me: usize, phase: IdlePhase) -> (next: IdlePhase)
        ensures
            phase.leads_to(next),
            self.has_stepped(me, phase, next),
    {
        let mut guard = sync::lock(&self.shared.sched);
        sync::guarded(&mut guard).idle_step(me, phase)
    }

    /// Whether the workers are to stop.
    pub fn is_shut_down(&self) -> (stop: bool)
        ensures
            self.has_said(stop),
    {
        let mut guard = sync::lock(&self.shared.sched);
        sync::guarded(&mut guard).is_shut_down()
    }

    /// Tell the workers to stop and drop the tasks that are still queued.
    pub fn shut_down(&self)
        ensures
            self.has_shut_down(),
    {
        let tasks = {
            let mut guard = sync::lock(&self.shared.sched);
            sync::guarded(&mut guard).shut_down()
        };
        self.shared.bell.bell.ring(true);
    }
}

/// Whether the scheduler behind `guard` has been taken out for good.
spec fn closed_down(guard: MutexGuard<SchedCell<TaskRef>>) -> bool {
    exists|cell: &mut SchedCell<TaskRef>, sched: Option<Sched<TaskRef>>|
        sync::opened_as(guard, cell) && #[trigger] call_ensures(
            SchedCell::<TaskRef>::close,
            (cell,),
            sched,
        )
}

impl Drop for Multi {
    /// Takes the scheduler out and drops it, along with the tasks that are still queued. Tasks
    /// refer to what they share with the executor, so they would keep each other alive otherwise.
    fn drop(&mut self)
        ensures
            old(self).is_dropped(),
        opens_invariants none
        no_unwind
    {
        let mut sched: Option<Sched<TaskRef>> = None;
        if let Some(mut guard) = sync::lock_in_drop(&self.shared.sched) {
            sched = sync::guarded(&mut guard).close();
        }
    }
}

/// A run that takes the future out of a task polls it, and settles the task with what the poll came
/// to. After a pending poll the future is back in the task, whether or not there is a join handle,
/// and the task is due again if it was woken meanwhile. After a ready one the task is complete.
pub(crate) proof fn law_run_settles_the_task<F: Future + Send + 'static>(
    task: &TaskArc<F>,
    again: bool,
) where F::Output: Send
    requires
        task.has_run(again),
    ensures
        exists|taken: &mut Core<Pin<Box<F>>, F::Output, Waker>, started: Option<Pin<Box<F>>>|
            {
                &&& task.held(taken)
                &&& #[trigger] call_ensures(
                    Core::<Pin<Box<F>>, F::Output, Waker>::start,
                    (taken,),
                    started,
                )
                &&& started is Some ==> exists|
                    waker: Waker,
                    poll: Result<F::Output, Pin<Box<F>>>,
                    core: &mut Core<Pin<Box<F>>, F::Output, Waker>,
                |
                    {
                        &&& #[trigger] call_ensures(
                            poll_future::<F>,
                            (started->0, &waker),
                            poll,
                        )
                        &&& #[trigger] task.held(core)
                        &&& core.state.running ==> match poll {
                            Err(rest) => {
                                &&& final(core).stage == Stage::<Pin<Box<F>>, F::Output>::Idle(rest)
                                &&& !final(core).state.running
                                &&& final(core).state.complete == core.state.complete
                                &&& final(core).state.join_interest == core.state.join_interest
                                &&& again == core.state.notified
                            },
                            Ok(_) => final(core).state.complete && !again,
                        }
                    }
            },
{
    let (taken, started) = choose|
        taken: &mut Core<Pin<Box<F>>, F::Output, Waker>,
        started: Option<Pin<Box<F>>>,
    |
        sync::opened(&task.task.core, taken) && #[trigger] call_ensures(
            Core::<Pin<Box<F>>, F::Output, Waker>::start,
            (taken,),
            started,
        ) && match started {
            None => !again,
            Some(future) => task.has_polled(future, again),
        };
    assert(task.held(taken));
    if let Some(future) = started {
        let (waker, poll, core, left) = choose|
            waker: Waker,
            poll: Result<F::Output, Pin<Box<F>>>,
            core: &mut Core<Pin<Box<F>>, F::Output, Waker>,
            left: Settled<Pin<Box<F>>, F::Output, Waker>,
        |
            {
                &&& #[trigger] call_ensures(poll_future::<F>, (future, &waker), poll)
                &&& sync::opened(&task.task.core, core)
                &&& #[trigger] call_ensures(
                    Core::<Pin<Box<F>>, F::Output, Waker>::settle,
                    (core, poll),
                    left,
                )
                &&& again == left.again
            };
        assert(call_ensures(poll_future::<F>, (started->0, &waker), poll));
        assert(task.held(core));
    }
}

/// Whoever schedules a task puts it on the injector, and tells the bell whether the driver was
/// parked at that very moment. So while a driver is parked, no task comes to wait without the
/// reactor being woken.
pub(crate) proof fn law_schedule_tells_of_the_driver(shared: &Shared, task: TaskRef)
    requires
        shared.has_scheduled(task),
    ensures
        exists|cell: &mut SchedCell<TaskRef>| #[trigger]
            shared.held(cell) && match (*cell)@ {
                Some(sched) => {
                    &&& final(cell)@ is Some
                    &&& final(cell)@->0.queues.injector == sched.queues.injector.push(task)
                    &&& final(cell)@->0.queues.local == sched.queues.local
                    &&& shared.has_rung(sched.driver_parked)
                },
                None => shared.has_rung(false),
            },
{
    let (cell, ring) = choose|cell: &mut SchedCell<TaskRef>, ring: Result<bool, TaskRef>|
        sync::opened(&shared.sched, cell) && #[trigger] call_ensures(
            SchedCell::<TaskRef>::schedule,
            (cell, task),
            ring,
        ) && shared.bell.bell.has_rung(ring == Ok::<bool, TaskRef>(true));
    assert(shared.held(cell));
}

/// A task that is woken, and is neither on a run queue nor being polled nor complete, is scheduled
/// on its executor.
pub(crate) proof fn law_wake_schedules_the_task<F: Future + Send + 'static>(
    task: Arc<RawTask<F>>,
) where F::Output: Send
    requires
        RawTask::<F>::has_woken(task),
    ensures
        exists|core: &mut Core<Pin<Box<F>>, F::Output, Waker>| #[trigger]
            RawTask::<F>::held(task, core) && (!core.state.complete ==> final(core).state.notified)
                && (!core.state.complete && !core.state.running && !core.state.notified
                ==> RawTask::<F>::is_scheduled(task)),
{
    let (core, push) = choose|core: &mut Core<Pin<Box<F>>, F::Output, Waker>, push: bool|
        sync::opened(&task.core, core) && #[trigger] call_ensures(
            Core::<Pin<Box<F>>, F::Output, Waker>::wake,
            (core,),
            push,
        ) && (push ==> call_ensures(Shared::schedule, (&*task.shared, queued(task)), ()));
    assert(RawTask::<F>::held(task, core));
}

} // verus!
