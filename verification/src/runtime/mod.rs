//! Entry point: a runtime owns an executor and drives futures on it.

pub mod context;

use core::future::Future;
use core::pin::Pin;
use core::task::{Poll, Waker};
use std::sync::Arc;
use std::task::Wake;

use vstd::future::FutureAdditionalSpecFns;
use vstd::prelude::*;

use crate::executor::multi::sched::IdlePhase;
use crate::executor::multi::worker::Worker;
use crate::executor::multi::{self, Bell, Multi, Spawner};
use crate::reactor::fallback::Reactor;
use crate::task::join::JoinHandle;
use crate::time;
use crate::time::instant::{Duration, Instant};
use crate::time::timers::{self, Sleeping, Timed, Timers};
use crate::waker::{pin_future, poll_future};

verus! {

/// Wakes the reactor in which the driver waits.
struct ReactorBell {
    reactor: Arc<Reactor>,
}

impl Bell for ReactorBell {
    closed spec fn has_rung(&self, driver_parked: bool) -> bool {
        driver_parked ==> call_ensures(Reactor::wake, (&*self.reactor,), ())
    }

    fn ring(&self, driver_parked: bool) {
        if driver_parked {
            self.reactor.wake();
        }
    }
}

/// Wakes the thread that drives one future to completion.
struct Root {
    /// Holds the wake-ups of the future.
    own: Reactor,
    /// The reactor of the runtime, in which the thread may wait as the driver.
    driver: Arc<Reactor>,
}

impl Root {
    /// Whether a wake-up of the future has been recorded, and the driver has been woken.
    pub closed spec fn has_woken(&self) -> bool {
        self.own.has_woken() && self.driver.has_woken()
    }
}

impl Wake for Root {
    fn wake(self: Arc<Self>)
        ensures
            self.has_woken(),
    {
        self.own.wake();
        self.driver.wake();
    }
}

/// `Waker::from` on an `Arc` whose target implements `Wake`: a waker that calls it.
#[verifier::external_body]
fn root_waker(root: Arc<Root>) -> (waker: Waker) {
    Waker::from(root)
}

/// Whether driving a future is over after a poll that came to `poll`, the value or the future that
/// is still pending, with `rounds` rounds left: with the value as soon as there is one, and with
/// none when no round is left. Otherwise the future is handed back, to be driven on.
pub fn verdict<T, P>(poll: Result<T, P>, rounds: u64) -> (over: Result<Option<T>, P>)
    ensures
        over == match poll {
            Ok(value) => Ok::<Option<T>, P>(Some(value)),
            Err(rest) => if rounds == 0 {
                Ok::<Option<T>, P>(None)
            } else {
                Err::<Option<T>, P>(rest)
            },
        },
{
    match poll {
        Ok(value) => Ok(Some(value)),
        Err(rest) => {
            if rounds == 0 {
                Ok(None)
            } else {
                Err(rest)
            }
        },
    }
}

/// A runtime whose workers take turns on the thread that calls [`Runtime::block_on`].
pub struct Runtime {
    multi: Multi,
    reactor: Arc<Reactor>,
    timers: Arc<Timers>,
}

/// Starts tasks and timers on a runtime, from any thread.
pub struct Handle {
    spawner: Spawner,
    timers: Arc<Timers>,
}

impl Handle {
    /// Whether the tasks and timers start on `runtime`.
    pub closed spec fn runs_on(&self, runtime: Runtime) -> bool {
        self.spawner.runs_on(runtime.multi) && self.timers == runtime.timers
    }

    /// Whether the clock of the timers has been read, and said `now`.
    pub closed spec fn reads(&self, now: Instant) -> bool {
        self.timers.reads(now)
    }

    /// Start a task that runs `future`.
    pub fn spawn<F: Future + Send + 'static>(&self, future: F) -> (handle: JoinHandle<F::Output>)
        where F::Output: Send + 'static
        ensures
            handle.is_live(),
            forall|runtime: Runtime|
                self.runs_on(runtime) ==> #[trigger] runtime.has_task::<F>(handle),
            forall|runtime: Runtime|
                self.runs_on(runtime) ==> #[trigger] runtime.has_started::<F>(future, handle),
    {
        self.spawner.spawn(future)
    }

    /// Sleep for at least `dur` from now, where now is what the clock says during the call.
    pub fn sleep(&self, dur: Duration) -> (sleeping: Sleeping)
        ensures
            !sleeping.registered(),
            forall|runtime: Runtime|
                self.runs_on(runtime) ==> #[trigger] runtime.has_sleep(sleeping),
            exists|now: Instant|
                self.reads(now) && sleeping.deadline()@ == #[trigger] time::deadline_after(now, dur),
    {
        Sleeping::new(self.timers.clone(), dur)
    }

    /// Run `future` with a deadline `dur` from now. It is polled before the deadline is looked
    /// at, so a future that is ready at once always makes it.
    pub fn timeout<F: Future>(&self, dur: Duration, future: F) -> (timed: Timed<F>)
        ensures
            timed.inner() matches Some(inner) && inner@ == future@,
            forall|runtime: Runtime|
                self.runs_on(runtime) ==> #[trigger] runtime.has_deadline(timed),
            exists|now: Instant|
                self.reads(now) && timed.deadline()@ == #[trigger] time::deadline_after(now, dur),
    {
        Timed::new(self.timers.clone(), dur, future)
    }
}

impl Clone for Handle {
    fn clone(&self) -> (copy: Self)
        ensures
            forall|runtime: Runtime| self.runs_on(runtime) ==> #[trigger] copy.runs_on(runtime),
    {
        Handle { spawner: self.spawner.clone(), timers: self.timers.clone() }
    }
}

impl Runtime {
    /// Number of workers.
    pub closed spec fn spec_workers(&self) -> usize {
        self.multi.spec_workers()
    }

    /// Whether the timers and the tasks of the runtime wake its own reactor.
    pub closed spec fn is_wired(&self) -> bool {
        let bell: Box<dyn Bell> = Box::new(ReactorBell { reactor: self.reactor });
        self.timers.wakes() == self.reactor && self.multi.installed().bell == bell
    }

    /// Whether `handle` waits for a task of this runtime that runs a future of type `F`.
    pub closed spec fn has_task<F: Future + Send + 'static>(
        &self,
        handle: JoinHandle<F::Output>,
    ) -> bool where F::Output: Send + 'static {
        self.multi.has_task::<F>(handle)
    }

    /// Whether `handle` waits for a task that was made to run `future`, and has been scheduled on
    /// this runtime.
    pub closed spec fn has_started<F: Future + Send + 'static>(
        &self,
        future: F,
        handle: JoinHandle<F::Output>,
    ) -> bool where F::Output: Send + 'static {
        self.multi.has_started::<F>(future, handle)
    }

    /// Whether the runtime was made without tasks, timers and wake-ups.
    pub closed spec fn is_new(&self) -> bool {
        self.multi.is_new() && self.timers.is_new() && self.reactor.is_new()
    }

    /// Whether the timers have been dropped.
    pub closed spec fn is_dropped(&self) -> bool {
        self.timers.is_closed()
    }

    /// Whether `sleeping` waits on the timers of this runtime.
    pub closed spec fn has_sleep(&self, sleeping: Sleeping) -> bool {
        sleeping.timers() == self.timers
    }

    /// Whether the deadline of `timed` waits on the timers of this runtime.
    pub closed spec fn has_deadline<F: Future>(&self, timed: Timed<F>) -> bool {
        timed.timers() == self.timers
    }

    /// A runtime with at least one worker.
    ///
    /// How many workers suit the machine is not asked here. The application reads the parallelism
    /// that is available and hands it to [`Runtime::with_workers`].
    pub fn new() -> (runtime: Self)
        ensures
            runtime.spec_workers() >= 1,
            runtime.is_wired(),
            runtime.is_new(),
    {
        Self::with_workers(1)
    }

    /// A runtime with `workers` workers, and with one if `workers` is zero.
    pub fn with_workers(workers: usize) -> (runtime: Self)
        ensures
            runtime.spec_workers() == if workers == 0 {
                1
            } else {
                workers
            },
            runtime.is_wired(),
            runtime.is_new(),
    {
        let reactor = Arc::new(Reactor::new());
        let bell = Box::new(ReactorBell { reactor: reactor.clone() });
        let workers = if workers == 0 {
            1
        } else {
            workers
        };
        let timers = Arc::new(Timers::new(reactor.clone()));
        let multi = Multi::with_bell(workers, bell);
        Runtime { multi, reactor, timers }
    }

    /// Number of workers.
    pub fn workers(&self) -> (workers: usize)
        ensures
            workers == self.spec_workers(),
    {
        self.multi.workers()
    }

    /// A handle for starting tasks and timers on this runtime.
    pub fn handle(&self) -> (handle: Handle)
        ensures
            handle.runs_on(*self),
    {
        Handle { spawner: self.multi.spawner(), timers: self.timers.clone() }
    }

    /// Start a task that runs `future`. It makes progress while some thread is in
    /// [`Runtime::block_on`].
    pub fn spawn<F: Future + Send + 'static>(&self, future: F) -> (handle: JoinHandle<F::Output>)
        where F::Output: Send + 'static
        ensures
            handle.is_live(),
            self.has_task::<F>(handle),
            self.has_started::<F>(future, handle),
    {
        self.multi.spawner().spawn(future)
    }

    /// Whether every one of `workers` has had a turn, and `ran` if any of them had a task.
    spec fn have_turned(&self, workers: Seq<Worker>, rans: Seq<bool>, ran: bool) -> bool {
        &&& rans.len() == workers.len()
        &&& forall|i: int|
            0 <= i < workers.len() ==> self.multi.has_turned(workers[i], #[trigger] rans[i])
        &&& ran <==> exists|i: int| 0 <= i < rans.len() && #[trigger] rans[i]
    }

    /// Whether the first worker has walked through the idle phases, and has waited where they led.
    spec fn has_idled(&self, root: &Root) -> bool {
        exists|
            looked: IdlePhase,
            contended: IdlePhase,
            marked: IdlePhase,
            phase: IdlePhase,
        |
            {
                &&& #[trigger] self.multi.has_stepped(0, IdlePhase::Start, looked)
                &&& #[trigger] self.multi.has_stepped(0, looked, contended)
                &&& #[trigger] self.multi.has_stepped(0, contended, marked)
                &&& #[trigger] self.multi.has_stepped(0, marked, phase)
                &&& match phase {
                    IdlePhase::Driving => self.has_driven(),
                    IdlePhase::Sleeping => self.has_slept(root),
                    _ => true,
                }
            }
    }

    /// Whether the reactor has been waited for until the next timer, and the driver token has been
    /// given back.
    spec fn has_driven(&self) -> bool {
        exists|left: Option<Duration>, notified: bool, released: IdlePhase|
            {
                &&& self.timers.has_left(left)
                &&& #[trigger] self.reactor.has_polled(left, notified)
                &&& #[trigger] self.multi.has_stepped(0, IdlePhase::Polled, released)
            }
    }

    /// Whether a wake-up of the future has been waited for, for a moment, and has been kept.
    spec fn has_slept(&self, root: &Root) -> bool {
        exists|moment: Duration, notified: bool|
            {
                &&& moment@ == 1_000_000
                &&& #[trigger] root.own.has_polled(Some(moment), notified)
                &&& notified ==> root.own.has_woken()
            }
    }

    /// Let every worker run a task. Returns whether any of them had one.
    fn round(&self, workers: &mut Vec<Worker>) -> (ran: bool)
        ensures
            final(workers)@.len() == old(workers)@.len(),
            forall|i: int|
                0 <= i < old(workers)@.len() ==> multi::looked(
                    old(workers)@[i],
                    #[trigger] final(workers)@[i],
                ),
            exists|rans: Seq<bool>| #[trigger] self.have_turned(old(workers)@, rans, ran),
    {
        let mut ran = false;
        let mut i: usize = 0;
        let ghost mut rans: Seq<bool> = Seq::empty();
        while i < workers.len()
            invariant
                rans.len() == i,
                forall|j: int|
                    0 <= j < i ==> self.multi.has_turned(old(workers)@[j], #[trigger] rans[j]),
                ran <==> exists|j: int| 0 <= j < i && #[trigger] rans[j],
                i <= workers@.len(),
                workers@.len() == old(workers)@.len(),
                forall|j: int|
                    0 <= j < i ==> multi::looked(old(workers)@[j], #[trigger] workers@[j]),
                forall|j: int|
                    i <= j < workers@.len() ==> #[trigger] workers@[j] == old(workers)@[j],
            decreases workers@.len() - i,
        {
            let turned = self.multi.turn(&mut workers[i]);
            proof {
                let before = rans;
                rans = rans.push(turned);
                assert(forall|j: int| 0 <= j < i ==> #[trigger] rans[j] == before[j]);
                assert(rans[i as int] == turned);
                if exists|j: int| 0 <= j < i && #[trigger] before[j] {
                    let j = choose|j: int| 0 <= j < i && #[trigger] before[j];
                    assert(rans[j]);
                }
                assert((exists|j: int| 0 <= j < i + 1 && #[trigger] rans[j]) ==> turned || exists|
                    j: int,
                |
                    0 <= j < i && #[trigger] before[j]) by {
                    if exists|j: int| 0 <= j < i + 1 && #[trigger] rans[j] {
                        let j = choose|j: int| 0 <= j < i + 1 && #[trigger] rans[j];
                        if j < i {
                            assert(before[j]);
                        }
                    }
                }
            }
            if turned {
                ran = true;
            }
            i += 1;
        }
        assert(self.have_turned(old(workers)@, rans, ran));
        ran
    }

    /// There was nothing to do: walk through the idle phases as the first worker, and wait in the
    /// reactor until the next timer is due as the driver, or for a moment if another thread
    /// drives.
    fn idle(&self, root: &Root)
        ensures
            self.has_idled(root),
    {
        let looked = self.multi.idle_step(0, IdlePhase::Start);
        let contended = self.multi.idle_step(0, looked);
        let marked = self.multi.idle_step(0, contended);
        let phase = self.multi.idle_step(0, marked);
        assert(phase is Running || phase is Driving || phase is Sleeping);
        match phase {
            IdlePhase::Driving => {
                self.reactor.poll(self.timers.time_left());
                let released = self.multi.idle_step(0, IdlePhase::Polled);
                assert(released is Running);
            },
            IdlePhase::Sleeping => {
                if root.own.poll(Some(Duration::from_millis(1))) {
                    root.own.wake();
                }
            },
            _ => {},
        }
    }

    /// Whether `root` and `waker` were made to drive a future on this runtime: a wake-up is pending,
    /// so that the future is polled in the first round.
    spec fn is_root(&self, root: &Arc<Root>, waker: Waker) -> bool {
        &&& root.own.is_new()
        &&& root.own.has_woken()
        &&& root.driver == self.reactor
        &&& call_ensures(root_waker, (*root,), waker)
    }

    /// Whether every worker of a drive has had a turn, and if none had a task, the drive has idled.
    spec fn has_worked(&self, root: &Arc<Root>, workers: Vec<Worker>) -> bool {
        exists|turning: &mut Vec<Worker>, ran: bool|
            {
                &&& *turning == workers
                &&& #[trigger] call_ensures(Runtime::round, (self, turning), ran)
                &&& !ran ==> call_ensures(Runtime::idle, (self, &**root), ())
            }
    }

    /// Whether one round of a drive, with `rounds` more to come, came to `over`. The timers have
    /// been fired. If a wake-up of the future was pending, the future has been polled, and the drive
    /// is over if the [`verdict`] says so. If it is not over, the workers have worked.
    spec fn has_gone_round<F: Future>(
        &self,
        root: &Arc<Root>,
        waker: &Waker,
        drive: Drive<F>,
        rounds: u64,
        over: Result<Option<F::Output>, Drive<F>>,
    ) -> bool {
        &&& self.timers.has_advanced()
        &&& exists|woken: bool| #[trigger]
            root.own.has_taken(woken) && if woken {
                exists|poll: Result<F::Output, Pin<Box<F>>>| #[trigger]
                    call_ensures(poll_future::<F>, (drive.pinned, waker), poll) && match poll {
                        Ok(value) => over == Ok::<Option<F::Output>, Drive<F>>(Some(value)),
                        Err(rest) => if rounds == 0 {
                            over == Ok::<Option<F::Output>, Drive<F>>(None)
                        } else {
                            over matches Err(next) && next.pinned == rest
                        },
                    }
            } else {
                over matches Err(next) && next.pinned == drive.pinned
            }
        &&& over is Err ==> self.has_worked(root, drive.workers)
    }

    /// One round of a drive, with `rounds` more to come. Returns the drive if it is not over.
    fn go_round<F: Future>(
        &self,
        root: &Arc<Root>,
        waker: &Waker,
        drive: Drive<F>,
        rounds: u64,
    ) -> (over: Result<Option<F::Output>, Drive<F>>)
        ensures
            self.has_gone_round(root, waker, drive, rounds, over),
            over matches Err(next) ==> {
                &&& next.workers@.len() == drive.workers@.len()
                &&& forall|i: int|
                    0 <= i < drive.workers@.len() ==> multi::looked(
                        drive.workers@[i],
                        #[trigger] next.workers@[i],
                    )
            },
    {
        let Drive { pinned, workers } = drive;
        let mut pinned = pinned;
        let mut workers = workers;
        self.timers.advance();
        let woken = root.own.take();
        assert(root.own.has_taken(woken));
        if woken {
            match verdict(poll_future(pinned, waker), rounds) {
                Ok(output) => {
                    return Ok(output);
                },
                Err(rest) => {
                    pinned = rest;
                },
            }
        }
        if !self.round(&mut workers) {
            self.idle(root);
        }
        Err(Drive { pinned, workers })
    }

    /// Whether `count` rounds of a drive, one after the other, have led from `start` to `over`.
    spec fn has_gone_rounds<F: Future>(
        &self,
        root: &Arc<Root>,
        waker: &Waker,
        start: Drive<F>,
        count: nat,
        over: Result<Option<F::Output>, Drive<F>>,
    ) -> bool
        decreases count,
    {
        if count == 0 {
            over == Err::<Option<F::Output>, Drive<F>>(start)
        } else {
            exists|drive: Drive<F>|
                self.has_gone_rounds(root, waker, start, (count - 1) as nat, Err(drive))
                    && #[trigger] call_ensures(
                    Runtime::go_round::<F>,
                    (self, root, waker, drive, (u64::MAX - count) as u64),
                    over,
                )
        }
    }

    /// Whether driving `future` has ended with `output` after `count` rounds.
    spec fn has_ended<F: Future>(&self, future: F, output: Option<F::Output>, count: nat) -> bool {
        exists|
            root: Arc<Root>,
            waker: Waker,
            start: Drive<F>,
            over: Result<Option<F::Output>, Drive<F>>,
        |
            {
                &&& self.is_root(&root, waker)
                &&& call_ensures(pin_future::<F>, (future,), start.pinned)
                &&& start.is_staffed(self.spec_workers())
                &&& #[trigger] self.has_gone_rounds(&root, &waker, start, count, over)
                &&& output == match over {
                    Ok(output) => output,
                    Err(_) => None,
                }
                &&& over is Err ==> count == u64::MAX
            }
    }

    /// Whether driving `future` has ended with `output`: round after round, until a poll of the
    /// future came to a value, or for as many rounds as can be counted.
    pub closed spec fn has_driven_to<F: Future>(
        &self,
        future: F,
        output: Option<F::Output>,
    ) -> bool {
        exists|count: nat| 1 <= count <= u64::MAX && #[trigger] self.has_ended(future, output, count)
    }

    /// Drive `future` to completion, and run the tasks of the runtime meanwhile.
    ///
    /// Returns what the future resolves to, or `None` if it has not resolved after as many rounds
    /// as can be counted. Whether and to what it resolves is up to the future; [`verdict`] says
    /// what is returned for each outcome of a poll.
    pub fn block_on<F: Future>(&self, future: F) -> (output: Option<F::Output>)
        ensures
            self.has_driven_to(future, output),
    {
        let root = Arc::new(Root { own: Reactor::new(), driver: self.reactor.clone() });
        let waker = root_waker(root.clone());
        let pinned = pin_future(future);
        let mut workers: Vec<Worker> = Vec::new();
        let mut id: usize = 0;
        while id < self.multi.workers()
            invariant
                id <= self.spec_workers(),
                workers@.len() == id,
                forall|i: int| 0 <= i < id ==> (#[trigger] workers@[i]).id == i,
            decreases self.spec_workers() - id,
        {
            workers.push(Worker::new(id, id as u64));
            id += 1;
        }
        root.own.wake();
        let mut drive = Drive { pinned, workers };
        let ghost start = drive;
        let mut rounds: u64 = u64::MAX;
        assert(self.has_gone_rounds(&root, &waker, start, 0, Err(drive)));
        while rounds > 0
            invariant
                self.is_root(&root, waker),
                call_ensures(pin_future::<F>, (future,), start.pinned),
                start.is_staffed(self.spec_workers()),
                self.has_gone_rounds(
                    &root,
                    &waker,
                    start,
                    (u64::MAX - rounds) as nat,
                    Err(drive),
                ),
            decreases rounds,
        {
            rounds -= 1;
            let ghost count = (u64::MAX - rounds) as nat;
            let over = self.go_round(&root, &waker, drive, rounds);
            assert((u64::MAX - count) as u64 == rounds);
            assert(self.has_gone_rounds(&root, &waker, start, count, over));
            match over {
                Ok(output) => {
                    assert(self.has_ended(future, output, count));
                    return output;
                },
                Err(next) => {
                    drive = next;
                },
            }
        }
        assert(self.has_ended(future, None, u64::MAX as nat));
        None
    }
}

/// A future that is being driven, and the workers that run tasks meanwhile.
#[verifier::reject_recursive_types(F)]
struct Drive<F: Future> {
    pinned: Pin<Box<F>>,
    workers: Vec<Worker>,
}

impl<F: Future> Drive<F> {
    /// Whether there is a worker for each of `count` run queues.
    spec fn is_staffed(self, count: usize) -> bool {
        &&& self.workers@.len() == count
        &&& forall|i: int| 0 <= i < count ==> (#[trigger] self.workers@[i]).id == i
    }
}

impl Drop for Runtime {
    /// Timers and the tasks that wait for them would keep each other alive otherwise.
    fn drop(&mut self)
        ensures
            old(self).is_dropped(),
        opens_invariants none
        no_unwind
    {
        self.timers.close();
    }
}

impl Default for Runtime {
    fn default() -> (runtime: Self)
        ensures
            runtime.spec_workers() >= 1,
            runtime.is_wired(),
            runtime.is_new(),
    {
        Self::new()
    }
}

/// A sleep lasts at least as long as asked, counted from a reading of the clock: whenever and however
/// often it is polled, a poll before that reading plus `dur` is pending, and one at or after it is
/// ready.
pub proof fn law_sleep_counts_from_the_clock(handle: &Handle, dur: Duration, sleeping: Sleeping)
    requires
        call_ensures(Handle::sleep, (handle, dur), sleeping),
    ensures
        exists|start: Instant|
            {
                &&& #[trigger] handle.reads(start)
                &&& start@ + dur@ <= u128::MAX ==> forall|
                    polled: &mut Sleeping,
                    now: Instant,
                    waker: &Waker,
                    poll: Poll<()>,
                |
                    polled.deadline() == sleeping.deadline() && #[trigger] Sleeping::comes_to(
                        polled,
                        now,
                        waker,
                        poll,
                    ) ==> (poll is Ready <==> now@ >= start@ + dur@)
            },
{
    timers::law_sleep_is_over_at_its_deadline();
    let start = choose|start: Instant|
        handle.reads(start) && sleeping.deadline()@ == #[trigger] time::deadline_after(start, dur);
    assert(handle.reads(start));
}

/// Two sleeps in a row last at least as long as both together, if the second is started when the
/// first is over.
pub proof fn law_sleeps_in_a_row_add_up(
    handle: &Handle,
    first_dur: Duration,
    first: Sleeping,
    second_dur: Duration,
    second: Sleeping,
)
    requires
        call_ensures(Handle::sleep, (handle, first_dur), first),
        call_ensures(Handle::sleep, (handle, second_dur), second),
        first.deadline()@ < u128::MAX,
        second.deadline()@ < u128::MAX,
    ensures
        exists|start: Instant, again: Instant|
            {
                &&& #[trigger] handle.reads(start)
                &&& #[trigger] handle.reads(again)
                &&& forall|
                    a: &mut Sleeping,
                    over: Instant,
                    wa: &Waker,
                    b: &mut Sleeping,
                    end: Instant,
                    wb: &Waker,
                |
                    a.deadline() == first.deadline() && #[trigger] Sleeping::comes_to(
                        a,
                        over,
                        wa,
                        Poll::Ready(()),
                    ) && again@ >= over@ && b.deadline() == second.deadline()
                        && #[trigger] Sleeping::comes_to(b, end, wb, Poll::Ready(())) ==> end@
                        >= start@ + first_dur@ + second_dur@
            },
{
    timers::law_sleep_is_over_at_its_deadline();
    let start = choose|start: Instant|
        handle.reads(start) && first.deadline()@ == #[trigger] time::deadline_after(
            start,
            first_dur,
        );
    let again = choose|again: Instant|
        handle.reads(again) && second.deadline()@ == #[trigger] time::deadline_after(
            again,
            second_dur,
        );
    assert(handle.reads(start) && handle.reads(again));
}

/// The deadline of a timeout is `dur` after a reading of the clock, and the future under it is the
/// one that was handed in.
pub proof fn law_timeout_counts_from_the_clock<F: Future>(
    handle: &Handle,
    dur: Duration,
    future: F,
    timed: Timed<F>,
)
    requires
        call_ensures(Handle::timeout::<F>, (handle, dur, future), timed),
    ensures
        timed.inner() matches Some(inner) && inner@ == future@,
        exists|start: Instant| #[trigger]
            handle.reads(start) && (start@ + dur@ <= u128::MAX ==> timed.deadline()@ == start@
                + dur@),
{
    let start = choose|start: Instant|
        handle.reads(start) && timed.deadline()@ == #[trigger] time::deadline_after(start, dur);
    assert(handle.reads(start));
}

/// Whether `pinned` is what `polls` pending polls with `waker` have left of `future`.
spec fn is_left_of<F: Future>(future: F, waker: &Waker, polls: nat, pinned: Pin<Box<F>>) -> bool
    decreases polls,
{
    if polls == 0 {
        call_ensures(pin_future::<F>, (future,), pinned)
    } else {
        exists|earlier: Pin<Box<F>>|
            is_left_of(future, waker, (polls - 1) as nat, earlier) && #[trigger] call_ensures(
                poll_future::<F>,
                (earlier, waker),
                Err(pinned),
            )
    }
}

/// Whether `pinned` is what some pending polls with `waker` have left of `future`.
spec fn is_rest_of<F: Future>(future: F, waker: &Waker, pinned: Pin<Box<F>>) -> bool {
    exists|polls: nat| #[trigger] is_left_of(future, waker, polls, pinned)
}

/// Whether `future`, after some pending polls, has been polled and come to `value`.
pub closed spec fn has_resolved_to<F: Future>(future: F, value: F::Output) -> bool {
    exists|waker: Waker, pinned: Pin<Box<F>>| #[trigger]
        is_rest_of(future, &waker, pinned) && call_ensures(
            poll_future::<F>,
            (pinned, &waker),
            Ok(value),
        )
}

impl Runtime {
    /// Whether the bell of the tasks has been rung with `driver_parked`.
    pub closed spec fn has_rung(&self, driver_parked: bool) -> bool {
        self.multi.installed().bell.has_rung(driver_parked)
    }

    /// Whether the reactor in which the driver waits has been woken.
    pub closed spec fn has_woken(&self) -> bool {
        self.reactor.has_woken()
    }

    /// Whether as many rounds as can be counted have been gone through for `future`.
    pub closed spec fn has_used_all_rounds<F: Future>(&self, future: F) -> bool {
        self.has_ended(future, None, u64::MAX as nat)
    }
}

/// Whatever is driven is what earlier polls have left of the future.
proof fn lemma_drives_what_is_left<F: Future>(
    runtime: &Runtime,
    root: &Arc<Root>,
    waker: &Waker,
    future: F,
    start: Drive<F>,
    count: nat,
    over: Result<Option<F::Output>, Drive<F>>,
)
    requires
        call_ensures(pin_future::<F>, (future,), start.pinned),
        runtime.has_gone_rounds(root, waker, start, count, over),
        count <= u64::MAX,
    ensures
        over matches Ok(Some(value)) ==> exists|pinned: Pin<Box<F>>| #[trigger]
            is_rest_of(future, waker, pinned) && call_ensures(
                poll_future::<F>,
                (pinned, waker),
                Ok(value),
            ),
        over matches Ok(None) ==> count == u64::MAX,
        over is Err ==> is_rest_of(future, waker, over->Err_0.pinned),
    decreases count,
{
    if count == 0 {
        assert(is_left_of(future, waker, 0, start.pinned));
        assert(is_rest_of(future, waker, start.pinned));
    } else {
        let rounds = (u64::MAX - count) as u64;
        let drive = choose|drive: Drive<F>|
            runtime.has_gone_rounds(root, waker, start, (count - 1) as nat, Err(drive))
                && #[trigger] call_ensures(
                Runtime::go_round::<F>,
                (runtime, root, waker, drive, rounds),
                over,
            );
        lemma_drives_what_is_left(
            runtime,
            root,
            waker,
            future,
            start,
            (count - 1) as nat,
            Err(drive),
        );
        let polls = choose|polls: nat| #[trigger] is_left_of(future, waker, polls, drive.pinned);
        assert(runtime.has_gone_round(root, waker, drive, rounds, over));
        match over {
            Ok(Some(value)) => {
                assert(call_ensures(poll_future::<F>, (drive.pinned, waker), Ok(value)));
                assert(is_rest_of(future, waker, drive.pinned));
            },
            Ok(None) => {
                assert(rounds == 0);
            },
            Err(next) => {
                if next.pinned != drive.pinned {
                    assert(call_ensures(poll_future::<F>, (drive.pinned, waker), Err(next.pinned)));
                    assert(is_left_of(future, waker, polls + 1, next.pinned));
                }
                assert(is_rest_of(future, waker, next.pinned));
            },
        }
    }
}

/// Driving a future ends with a value exactly if a poll of the future came to that value, after the
/// polls that left it pending. It never ends without a value before as many rounds have been gone
/// through as can be counted.
pub proof fn law_block_on_ends_with_the_value<F: Future>(
    runtime: &Runtime,
    future: F,
    output: Option<F::Output>,
)
    requires
        call_ensures(Runtime::block_on::<F>, (runtime, future), output),
    ensures
        match output {
            Some(value) => has_resolved_to(future, value),
            None => runtime.has_used_all_rounds(future),
        },
{
    let count = choose|count: nat|
        1 <= count <= u64::MAX && #[trigger] runtime.has_ended(future, output, count);
    let (root, waker, start, over) = choose|
        root: Arc<Root>,
        waker: Waker,
        start: Drive<F>,
        over: Result<Option<F::Output>, Drive<F>>,
    |
        {
            &&& runtime.is_root(&root, waker)
            &&& call_ensures(pin_future::<F>, (future,), start.pinned)
            &&& start.is_staffed(runtime.spec_workers())
            &&& #[trigger] runtime.has_gone_rounds(&root, &waker, start, count, over)
            &&& output == match over {
                Ok(output) => output,
                Err(_) => None,
            }
            &&& over is Err ==> count == u64::MAX
        };
    lemma_drives_what_is_left(runtime, &root, &waker, future, start, count, over);
    if let Some(value) = output {
        let pinned = choose|pinned: Pin<Box<F>>| #[trigger]
            is_rest_of(future, &waker, pinned) && call_ensures(
                poll_future::<F>,
                (pinned, &waker),
                Ok(value),
            );
        assert(is_rest_of(future, &waker, pinned));
    }
}

/// On a runtime, a task that is scheduled while the driver is parked wakes the reactor in which the
/// driver waits.
pub proof fn law_bell_wakes_the_reactor(runtime: &Runtime)
    requires
        runtime.is_wired(),
        runtime.has_rung(true),
    ensures
        runtime.has_woken(),
{
}

} // verus!
