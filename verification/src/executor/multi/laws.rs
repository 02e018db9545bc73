//! What holds of the run queues, and of workers and wakers together, over several operations.

use vstd::multiset::Multiset;
use vstd::prelude::*;

use crate::executor::multi::sched::{Event, IdlePhase, System};
use crate::executor::multi::worker::{self, QueuesView, Worker, POLL_BUDGET, ZERO_SEED};

verus! {

/// Replacing one queue changes the contents of all by what that queue gains and loses.
proof fn lemma_all_of_update<T>(queues: Seq<Seq<T>>, w: int, queue: Seq<T>)
    requires
        0 <= w < queues.len(),
    ensures
        worker::all_of(queues.update(w, queue)).add(queues[w].to_multiset()) == worker::all_of(
            queues,
        ).add(queue.to_multiset()),
    decreases queues.len(),
{
    let updated = queues.update(w, queue);
    if w == queues.len() - 1 {
        assert(updated.drop_last() =~= queues.drop_last());
    } else {
        lemma_all_of_update(queues.drop_last(), w, queue);
        assert(updated.drop_last() =~= queues.drop_last().update(w, queue));
        let rest = worker::all_of(queues.drop_last());
        let rest_updated = worker::all_of(updated.drop_last());
        let last = queues.last().to_multiset();
        let gone = queues[w].to_multiset();
        let new = queue.to_multiset();
        assert(queues.drop_last()[w] == queues[w]);
        assert(rest_updated.add(gone) == rest.add(new));
        assert(rest_updated.add(last).add(gone) =~= rest_updated.add(gone).add(last));
        assert(rest.add(new).add(last) =~= rest.add(last).add(new));
    }
    assert(worker::all_of(updated).add(queues[w].to_multiset()) =~= worker::all_of(queues).add(
        queue.to_multiset(),
    ));
}

/// Whatever search finds is stealable, and it finds something if anything is.
proof fn lemma_victim<T>(queues: QueuesView<T>, me: int, start: int, i: int)
    requires
        0 <= i <= queues.workers(),
        0 <= start < queues.workers(),
    ensures
        queues.victim(me, start, i) matches Some(v) ==> 0 <= v < queues.workers()
            && queues.stealable(me, v),
        queues.victim(me, start, i) is None ==> forall|j: int|
            i <= j < queues.workers() ==> !queues.stealable(me, #[trigger] queues.peer(start, j)),
    decreases queues.workers() - i,
{
    if i < queues.workers() {
        lemma_victim(queues, me, start, i + 1);
        assert forall|j: int|
            i <= j < queues.workers() && queues.victim(me, start, i)
                is None implies !queues.stealable(me, #[trigger] queues.peer(start, j)) by {
            if j > i {
                assert(!queues.stealable(me, queues.peer(start, j)));
            }
        }
    }
}

/// Every worker is at some distance from `start`.
proof fn lemma_peer_onto<T>(queues: QueuesView<T>, start: int, w: int)
    requires
        0 <= start < queues.workers(),
        0 <= w < queues.workers(),
    ensures
        exists|j: int| 0 <= j < queues.workers() && #[trigger] queues.peer(start, j) == w,
{
    let n = queues.workers() as int;
    let j = if w >= start {
        w - start
    } else {
        w - start + n
    };
    if w >= start {
        vstd::arithmetic::div_mod::lemma_small_mod(w as nat, n as nat);
    } else {
        vstd::arithmetic::div_mod::lemma_small_mod(w as nat, n as nat);
        vstd::arithmetic::div_mod::lemma_mod_add_multiples_vanish(w, n);
    }
    assert(queues.peer(start, j) == w);
}

/// A pick finds a task exactly if one waits anywhere.
pub proof fn law_pick_finds_work<T>(queues: QueuesView<T>, me: int, fair: bool, start: int)
    requires
        0 <= me < queues.workers(),
        0 <= start < queues.workers(),
    ensures
        queues.pick(me, fair, start).1 is Some <==> queues.has_work(),
{
    lemma_victim(queues, me, start, 0);
    if queues.injector.len() == 0 && queues.local[me].len() == 0 {
        if queues.has_work() {
            let w = choose|w: int|
                0 <= w < queues.workers() && (#[trigger] queues.local[w]).len() > 0;
            lemma_peer_onto(queues, start, w);
            let j = choose|j: int|
                0 <= j < queues.workers() && #[trigger] queues.peer(start, j) == w;
            assert(queues.stealable(me, queues.peer(start, j)));
        }
        if let Some(v) = queues.victim(me, start, 0) {
            assert(queues.local[v].len() > 0);
        }
    } else {
        assert(queues.local[me].len() > 0 || queues.injector.len() > 0);
    }
}

/// A theft loses and doubles no task: what is stolen, moved and left is what there was.
proof fn lemma_steal_keeps<T>(queues: QueuesView<T>, victim: int, me: int)
    requires
        0 <= me < queues.workers(),
        0 <= victim < queues.workers(),
        queues.stealable(me, victim),
    ensures
        queues.steal_from(victim, me).0.tasks().insert(queues.steal_from(victim, me).1)
            == queues.tasks(),
{
    broadcast use vstd::seq_lib::group_to_multiset_ensures;

    let queue = queues.local[victim];
    let take = ((queue.len() + 1) / 2) as int;
    let rest = queue.skip(take);
    let moved = queue.subrange(1, take);
    let mine = queues.local[me] + moved;
    let after_victim = queues.local.update(victim, rest);
    let after = after_victim.update(me, mine);
    lemma_all_of_update(queues.local, victim, rest);
    lemma_all_of_update(after_victim, me, mine);
    assert(after_victim[me] == queues.local[me]);
    assert(queue =~= seq![queue[0]] + moved + rest);
    vstd::seq_lib::lemma_multiset_commutative(queues.local[me], moved);
    vstd::seq_lib::lemma_multiset_commutative(seq![queue[0]] + moved, rest);
    vstd::seq_lib::lemma_multiset_commutative(seq![queue[0]], moved);
    assert(seq![queue[0]] =~= Seq::<T>::empty().push(queue[0]));
    assert(seq![queue[0]].to_multiset() =~= Multiset::singleton(queue[0]));
    let first = Multiset::singleton(queue[0]);
    let before_all = worker::all_of(queues.local);
    let mid_all = worker::all_of(after_victim);
    let after_all = worker::all_of(after);
    assert(mid_all.add(queue.to_multiset()) == before_all.add(rest.to_multiset()));
    assert(after_all.add(queues.local[me].to_multiset()) == mid_all.add(mine.to_multiset()));
    assert forall|t: T| #[trigger] after_all.insert(queue[0]).count(t) == before_all.count(t) by {
        assert(mid_all.add(queue.to_multiset()).count(t) == before_all.add(
            rest.to_multiset(),
        ).count(t));
        assert(after_all.add(queues.local[me].to_multiset()).count(t) == mid_all.add(
            mine.to_multiset(),
        ).count(t));
        assert(queue.to_multiset().count(t) == first.count(t) + moved.to_multiset().count(t)
            + rest.to_multiset().count(t));
        assert(mine.to_multiset().count(t) == queues.local[me].to_multiset().count(t)
            + moved.to_multiset().count(t));
    }
    assert(after_all.insert(queue[0]) =~= before_all);
    assert(queues.steal_from(victim, me).0.tasks().insert(queue[0]) =~= queues.tasks());
}

/// A pick neither loses nor doubles a task: the task it hands out and those that still wait are
/// together the ones that waited before, and the number of workers stays.
pub proof fn law_pick_keeps_tasks<T>(queues: QueuesView<T>, me: int, fair: bool, start: int)
    requires
        0 <= me < queues.workers(),
        0 <= start < queues.workers(),
    ensures
        queues.pick(me, fair, start).0.workers() == queues.workers(),
        match queues.pick(me, fair, start).1 {
            Some(task) => queues.pick(me, fair, start).0.tasks().insert(task) == queues.tasks(),
            None => queues.pick(me, fair, start).0 == queues,
        },
{
    broadcast use vstd::seq_lib::group_to_multiset_ensures;

    let (after, task) = queues.pick(me, fair, start);
    lemma_victim(queues, me, start, 0);
    if queues.injector.len() > 0 && (fair || queues.local[me].len() == 0) {
        let injector = queues.injector;
        assert(injector.remove(0) =~= injector.skip(1));
        assert(injector.skip(1).to_multiset() =~= injector.to_multiset().remove(injector[0]));
        assert(injector.to_multiset().count(injector[0]) > 0);
        assert(after.tasks().insert(injector[0]) =~= queues.tasks());
    } else if queues.local[me].len() > 0 {
        let queue = queues.local[me];
        let rest = queue.drop_last();
        lemma_all_of_update(queues.local, me, rest);
        assert(queue =~= rest.push(queue.last()));
        let before_all = worker::all_of(queues.local);
        let after_all = worker::all_of(after.local);
        assert forall|t: T| #[trigger]
            after_all.insert(queue.last()).count(t) == before_all.count(t) by {
            assert(after_all.add(queue.to_multiset()).count(t) == before_all.add(
                rest.to_multiset(),
            ).count(t));
            assert(queue.to_multiset() == rest.to_multiset().insert(queue.last()));
        }
        assert(after_all.insert(queue.last()) =~= before_all);
        assert(after.tasks().insert(queue.last()) =~= queues.tasks());
    } else if let Some(v) = queues.victim(me, start, 0) {
        lemma_steal_keeps(queues, v, me);
    }
}

/// A theft takes the older half of the victim's queue, rounded up; the newer half and the queues
/// of all other workers stay as they are.
pub proof fn law_theft_takes_half<T>(queues: QueuesView<T>, victim: int, me: int)
    requires
        0 <= me < queues.workers(),
        0 <= victim < queues.workers(),
        queues.stealable(me, victim),
    ensures
        ({
            let (after, task) = queues.steal_from(victim, me);
            let queue = queues.local[victim];
            &&& after.local[victim].len() == queue.len() / 2
            &&& after.local[me].len() == queues.local[me].len() + (queue.len() + 1) / 2 - 1
            &&& seq![task] + after.local[me].skip(queues.local[me].len() as int)
                + after.local[victim] == queue
            &&& forall|w: int|
                0 <= w < queues.workers() && w != victim && w != me ==> #[trigger] after.local[w]
                    == queues.local[w]
            &&& after.injector == queues.injector
        }),
{
    let (after, task) = queues.steal_from(victim, me);
    let queue = queues.local[victim];
    assert(seq![task] + after.local[me].skip(queues.local[me].len() as int) + after.local[victim]
        =~= queue);
}

/// What a worker put on its own queue last it picks first, unless the injector's turn has come.
pub proof fn law_own_queue_is_lifo<T>(queues: QueuesView<T>, me: int, task: T, start: int)
    requires
        0 <= me < queues.workers(),
    ensures
        ({
            let pushed = QueuesView {
                local: queues.local.update(me, queues.local[me].push(task)),
                ..queues
            };
            pushed.pick(me, false, start) == (queues, Some(task))
        }),
{
    let pushed = QueuesView {
        local: queues.local.update(me, queues.local[me].push(task)),
        ..queues
    };
    assert(pushed.local[me].drop_last() =~= queues.local[me]);
    assert(pushed.take_local(me).0.local =~= queues.local);
}

/// The states of one worker before each of several picks in a row.
pub open spec fn picks_in_a_row(worker: Seq<Worker>) -> bool {
    forall|i: int, j: int|
        0 <= i < worker.len() && j == i + 1 && j < worker.len() ==> (#[trigger] worker[j]).tick
            == (#[trigger] worker[i]).next_tick()
}

/// Between two turns of the injector lie fewer than [`POLL_BUDGET`] ticks.
proof fn lemma_next_turn(worker: Seq<Worker>, k: int)
    requires
        picks_in_a_row(worker),
        0 <= k < worker.len() <= POLL_BUDGET,
        forall|i: int| 0 <= i < k ==> !(#[trigger] worker[i]).fair(),
    ensures
        worker[k].tick == worker[0].tick + k,
        k > 0 ==> (worker[0].tick + k) / 61 == worker[0].tick as int / 61,
    decreases k,
{
    if k > 0 {
        lemma_next_turn(worker, k - 1);
        assert(!worker[k - 1].fair());
    }
}

/// The injector cannot starve: of any [`POLL_BUDGET`] picks of a worker in a row that find the
/// injector filled, one takes its oldest task, whatever waits on the worker's own queue.
pub proof fn law_injector_gets_its_turn<T>(worker: Seq<Worker>, queues: Seq<QueuesView<T>>)
    requires
        worker.len() == POLL_BUDGET,
        picks_in_a_row(worker),
        queues.len() == POLL_BUDGET,
        forall|i: int| 0 <= i < POLL_BUDGET ==> (#[trigger] queues[i]).injector.len() > 0,
    ensures
        exists|k: int|
            0 <= k < POLL_BUDGET && (#[trigger] queues[k]).pick(
                worker[k].id as int,
                worker[k].fair(),
                worker[k].start(queues[k].workers()),
            ).1 == Some(queues[k].injector[0]),
{
    if forall|i: int| 0 <= i < POLL_BUDGET ==> !(#[trigger] worker[i]).fair() {
        lemma_next_turn(worker, 60);
        assert(!worker[60].fair());
        assert(false);
    }
    let k = choose|k: int| 0 <= k < POLL_BUDGET && (#[trigger] worker[k]).fair();
    assert(queues[k].injector.len() > 0);
}

/// The generator never gets stuck at zero.
pub proof fn law_generator_is_never_zero(state: u64)
    ensures
        worker::next_random(state) != 0,
{
    let x = if state == 0 {
        ZERO_SEED
    } else {
        state
    };
    assert(x != 0 ==> {
        let a = x ^ (x << 13);
        let b = a ^ (a >> 7);
        b ^ (b << 17) != 0
    }) by (bit_vector);
}

/// A pick only takes tasks from the queues of other workers.
proof fn lemma_pick_leaves_others<T>(queues: QueuesView<T>, me: int, fair: bool, start: int)
    requires
        0 <= me < queues.workers(),
        0 <= start < queues.workers(),
    ensures
        ({
            let after = queues.pick(me, fair, start).0;
            &&& after.workers() == queues.workers()
            &&& after.injector.len() <= queues.injector.len()
            &&& forall|w: int|
                0 <= w < queues.workers() && w != me && queues.local[w].len() == 0
                    ==> #[trigger] after.local[w].len() == 0
        }),
{
    lemma_victim(queues, me, start, 0);
}

/// Every worker but `me` has the driver token afterwards if it had it before.
spec fn drivers_stay<T>(system: System<T>, next: System<T>, me: int) -> bool {
    forall|w: int|
        #![trigger system.drives(w)]
        #![trigger next.drives(w)]
        w != me && system.worker(w) ==> next.drives(w) == system.drives(w)
}

/// The invariant of the system holds at the start.
pub proof fn law_system_starts_well<T>(system: System<T>)
    requires
        system.initial(),
    ensures
        system.inv(),
{
    assert(system.phases[0] is Running);
}

/// Every event, of any worker and in any order, keeps the invariant of the system: at most one
/// worker has the driver token, a worker on its way to sleep has an empty queue, and a driver that
/// waits in the reactor while the injector is filled has been woken.
pub proof fn law_events_keep_invariant<T>(system: System<T>, event: Event<T>)
    requires
        system.inv(),
        system.enabled(event),
    ensures
        system.after(event).inv(),
{
    let next = system.after(event);
    let w = choose|w: int| system.worker(w) && !(#[trigger] system.phases[w] is Sleeping);
    assert(next.phases[w] == system.phases[w] ==> !(next.phases[w] is Sleeping));
    if system.sched.driver_held {
        let d = choose|d: int| system.worker(d) && #[trigger] system.drives(d);
        assert(next.phases[d] == system.phases[d] ==> next.drives(d));
    }
    match event {
        Event::Schedule(_) => {
            assert(drivers_stay(system, next, -1));
            assert forall|w: int|
                next.worker(w) && #[trigger] next.phases[w] is Driving implies next.rung by {
                assert(system.drives(w));
            }
        },
        Event::Reschedule(me, _) => {
            assert(drivers_stay(system, next, -1));
        },
        Event::Pick(me, fair, start) => {
            lemma_pick_leaves_others(system.sched.queues, me, fair, start);
            assert(drivers_stay(system, next, -1));
        },
        Event::GoIdle(me) => {
            assert(drivers_stay(system, next, me));
            assert(!system.drives(me) && !next.drives(me));
            assert(!(next.phases[me] is Sleeping));
        },
        Event::Step(me) => {
            lemma_step_keeps_invariant(system, me);
        },
        Event::PollReturns(me) => {
            assert(system.drives(me));
            assert(drivers_stay(system, next, me));
            assert(next.drives(me));
            assert(!(next.phases[me] is Sleeping));
            assert forall|w: int|
                next.worker(w) implies !(#[trigger] next.phases[w] is Driving) by {
                if w != me && system.phases[w] is Driving {
                    assert(system.drives(w));
                }
            }
        },
        Event::WakeUp(me) => {
            assert(drivers_stay(system, next, me));
            assert(!system.drives(me) && !next.drives(me));
            assert(!(next.phases[me] is Sleeping));
        },
        Event::ShutDown | Event::Leave(_) => {
            assert(drivers_stay(system, next, -1));
        },
    }
    assert(next.token_inv());
    assert(next.sleep_inv());
    lemma_event_keeps_shutdown_invariant(system, event);
}

proof fn lemma_event_keeps_shutdown_invariant<T>(system: System<T>, event: Event<T>)
    requires
        system.inv(),
        system.enabled(event),
    ensures
        system.after(event).shutdown_inv(),
{
    let next = system.after(event);
    assert forall|w: int| next.worker(w) && #[trigger] next.gone[w] implies next.phases[w]
        is Running && next.sched.shutdown by {
        assert(system.gone[w] || event == Event::<T>::Leave(w));
    }
    assert forall|w: int|
        next.sched.shutdown && next.worker(w) && (#[trigger] next.phases[w] is Contend
            || next.phases[w] is Sleeping) implies next.unparked[w] by {
        if system.sched.shutdown {
            assert(system.phases[w] is Contend || system.phases[w] is Sleeping);
        }
    }
    if next.sched.shutdown && !next.rung {
        if let Event::PollReturns(me) = event {
            assert(!system.gone[me]);
            assert(next.leaving(me));
        } else {
            let w = choose|w: int| system.worker(w) && #[trigger] system.leaving(w);
            assert(next.leaving(w));
        }
    }
}

proof fn lemma_step_keeps_invariant<T>(system: System<T>, me: int)
    requires
        system.inv(),
        system.worker(me),
    ensures
        system.after(Event::Step(me)).token_inv(),
        system.after(Event::Step(me)).sleep_inv(),
{
    let next = system.after(Event::Step(me));
    assert(drivers_stay(system, next, me));
    let d = choose|d: int| system.worker(d) && #[trigger] system.drives(d);
    let awake = choose|w: int| system.worker(w) && !(#[trigger] system.phases[w] is Sleeping);
    assert(awake != me ==> !(next.phases[awake] is Sleeping));
    match system.phases[me] {
        IdlePhase::Contend => {
            assert(!system.drives(me));
            if system.sched.driver_held {
                assert(next.drives(d));
                assert(!next.drives(me));
                assert(!(next.phases[d] is Sleeping));
            } else {
                assert(next.drives(me));
                assert(!(next.phases[me] is Sleeping));
            }
            assert(next.token_inv());
        },
        IdlePhase::Held | IdlePhase::Marked | IdlePhase::Polled | IdlePhase::Driving => {
            assert(system.drives(me));
            assert(d == me);
            assert(!(next.phases[me] is Sleeping));
            assert(next.phases[me] is Running || next.drives(me));
            assert(next.token_inv());
        },
        IdlePhase::Start | IdlePhase::Running | IdlePhase::Sleeping => {
            assert(!system.drives(me));
            assert(!next.drives(me));
            assert(system.sched.driver_held ==> next.drives(d));
            assert(next.phases[me] is Sleeping == system.phases[me] is Sleeping);
            assert(next.token_inv());
        },
    }
}

/// At no time do two workers have the driver token.
pub proof fn law_one_driver<T>(system: System<T>, w: int, v: int)
    requires
        system.inv(),
        system.worker(w),
        system.worker(v),
        system.drives(w),
        system.drives(v),
    ensures
        w == v,
{
}

/// No wake-up is lost: until the shutdown, while a task waits anywhere, some worker is looking for
/// work of its own accord, or the driver's wait in the reactor is about to end because it has been
/// woken.
pub proof fn law_no_lost_wakeup<T>(system: System<T>)
    requires
        system.inv(),
        !system.sched.shutdown,
        system.sched.queues.has_work(),
    ensures
        exists|w: int|
            system.worker(w) && (#[trigger] system.awake(w) || (system.phases[w] is Driving
                && system.rung)),
{
    let w = choose|w: int| system.worker(w) && !(#[trigger] system.phases[w] is Sleeping);
    assert(!system.gone[w]);
    if !system.awake(w) {
        if system.sched.queues.injector.len() == 0 {
            let v = choose|v: int|
                0 <= v < system.sched.queues.workers() && (
                #[trigger] system.sched.queues.local[v]).len() > 0;
            assert(system.phases[v] is Running || system.phases[v] is Start);
            assert(!system.gone[v]);
            assert(system.awake(v));
        }
    }
}

/// The shutdown reaches every worker, whatever it was doing: it unparks all of them and wakes the
/// reactor, and it is never taken back.
pub proof fn law_shutdown_reaches_everyone<T>(system: System<T>, event: Event<T>)
    ensures
        ({
            let next = system.after(Event::ShutDown);
            &&& next.sched.shutdown
            &&& next.rung
            &&& forall|w: int| next.worker(w) ==> #[trigger] next.unparked[w]
        }),
        system.sched.shutdown ==> system.after(event).sched.shutdown,
{
}

/// After the shutdown no worker is left behind. At every moment, a worker that has not left is
/// awake, or sleeps and has been unparked, or waits in the reactor and has been woken, or waits
/// there while another worker is on its way out. One that looks for work does not go to sleep any
/// more, and one that leaves wakes the reactor, so that the last one to wait there is woken too.
pub proof fn law_shutdown_leaves_no_worker_behind<T>(system: System<T>, w: int)
    requires
        system.inv(),
        system.sched.shutdown,
        system.worker(w),
        !system.gone[w],
    ensures
        match system.phases[w] {
            IdlePhase::Sleeping => system.unparked[w],
            IdlePhase::Driving => system.rung || exists|v: int|
                v != w && system.worker(v) && #[trigger] system.leaving(v),
            _ => system.awake(w),
        },
        system.phases[w] is Contend ==> system.unparked[w],
        system.phases[w] is Start ==> system.after(Event::Step(w)).phases[w] is Running,
        system.phases[w] is Running ==> system.enabled(Event::Leave(w)) && system.after(
            Event::Leave(w),
        ).rung,
{
    if system.phases[w] is Driving && !system.rung {
        let v = choose|v: int| system.worker(v) && #[trigger] system.leaving(v);
        assert(v != w);
    }
}

} // verus!
