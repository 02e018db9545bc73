//! What the timers promise as a whole.

use vstd::multiset::Multiset;
use vstd::prelude::*;

use crate::time::driver::{self, DriverEvent, DriverView, EntryId, TICK_NS};
use crate::time::instant::{Duration, Instant};
use crate::time::wheel::{self, Entry, Wheel, MAX_TICKS};
use crate::time::{self, Sleep};

verus! {

/// A timer does not fire before its deadline: once its tick counts as passed at `now`, the
/// deadline has been reached.
///
/// This is stated for deadlines within the range of the wheel, which fires later ones at the end
/// of its range, and for a clock that does not run before the epoch of the driver.
pub proof fn law_never_early(
    epoch: Instant,
    cursor: u64,
    id: EntryId,
    deadline: Instant,
    now: Instant,
)
    requires
        now@ >= epoch@,
        driver::nanos_since(epoch, deadline) <= u64::MAX * TICK_NS,
        driver::tick_ceil(epoch, deadline) < cursor + MAX_TICKS,
        wheel::clamped(
            Entry { id, deadline: driver::tick_ceil(epoch, deadline) },
            cursor,
        ).deadline <= driver::tick_floor(epoch, now),
    ensures
        now@ >= deadline@,
{
}

/// A timer fires within one tick: when `now` is a tick past the deadline, the timer is due.
pub proof fn law_at_most_one_tick_late(
    epoch: Instant,
    cursor: u64,
    id: EntryId,
    deadline: Instant,
    now: Instant,
)
    requires
        now@ >= deadline@ + TICK_NS,
    ensures
        wheel::clamped(
            Entry { id, deadline: driver::tick_ceil(epoch, deadline) },
            cursor,
        ).deadline <= driver::tick_floor(epoch, now),
{
}

/// Translating a tick to a point in time and back, either way, gives the tick again.
pub proof fn law_tick_round_trip(epoch: Instant, tick: u64, at: Instant)
    requires
        at@ == epoch@ + tick * TICK_NS,
    ensures
        driver::tick_floor(epoch, at) == tick,
        driver::tick_ceil(epoch, at) == tick,
{
}

/// Advancing in two steps fires the same timers, and leaves the same timers, as advancing in one.
pub proof fn law_advance_in_steps(pending: Multiset<Entry>, a: u64, b: u64)
    requires
        a <= b,
    ensures
        wheel::due_by(pending, b) == wheel::due_by(pending, a).add(
            wheel::due_by(wheel::after(pending, a), b),
        ),
        wheel::after(pending, b) == wheel::after(wheel::after(pending, a), b),
{
    assert(wheel::due_by(pending, b) =~= wheel::due_by(pending, a).add(
        wheel::due_by(wheel::after(pending, a), b),
    ));
    assert(wheel::after(pending, b) =~= wheel::after(wheel::after(pending, a), b));
}

/// No timer is lost and none is doubled: every pending timer is either due or still pending.
pub proof fn law_due_or_pending(pending: Multiset<Entry>, tick: u64)
    ensures
        pending == wheel::due_by(pending, tick).add(wheel::after(pending, tick)),
{
    assert(pending =~= wheel::due_by(pending, tick).add(wheel::after(pending, tick)));
}

/// The next tick is the first that fires anything: an advance to the tick before it fires nothing
/// and leaves every timer, and an advance to it right afterwards fires at least one timer, and only
/// timers that are due at that very tick.
pub proof fn law_next_tick_fires_first(wheel: Wheel, next: u64, expired: Seq<Entry>)
    requires
        wheel.wf(),
        wheel::is_next_tick(wheel@, Some(next)),
        expired.to_multiset() == wheel::due_by(wheel@, next),
    ensures
        next > wheel.cursor(),
        wheel::due_by(wheel@, (next - 1) as u64) == Multiset::<Entry>::empty(),
        wheel::after(wheel@, (next - 1) as u64) == wheel@,
        expired.len() > 0,
        forall|i: int| 0 <= i < expired.len() ==> (#[trigger] expired[i]).deadline == next,
{
    broadcast use vstd::seq_lib::group_to_multiset_ensures;

    wheel.law_pending_is_ahead();
    let first = choose|e: Entry| #[trigger] wheel@.count(e) > 0 && e.deadline == next;
    assert(wheel::due_by(wheel@, (next - 1) as u64) =~= Multiset::<Entry>::empty());
    assert(wheel::after(wheel@, (next - 1) as u64) =~= wheel@);
    assert(expired.to_multiset().count(first) > 0);
    assert(expired.contains(first));
    assert forall|i: int| 0 <= i < expired.len() implies (#[trigger] expired[i]).deadline
        == next by {
        assert(expired.contains(expired[i]));
        assert(expired.to_multiset().count(expired[i]) > 0);
    }
}

/// A cancelled registration never fires: once the waker of `id` is gone, what expires fires as
/// if the timers of `id` were not there.
pub proof fn law_cancelled_never_fires<W>(
    expired: Seq<Entry>,
    wakers: Map<EntryId, W>,
    id: EntryId,
)
    ensures
        driver::released(expired, wakers.remove(id)) == driver::released(
            expired.filter(|e: Entry| e.id != id),
            wakers,
        ),
    decreases expired.len(),
{
    let keep = |e: Entry| e.id != id;
    if expired.len() > 0 {
        let first = expired[0];
        let rest = expired.skip(1);
        assert(expired =~= seq![first] + rest);
        Seq::filter_distributes_over_add(seq![first], rest, keep);
        reveal_with_fuel(Seq::filter, 2);
        assert(seq![first].drop_last() =~= Seq::empty());
        if first.id == id {
            assert(seq![first].filter(keep) =~= Seq::empty());
            assert(expired.filter(keep) =~= rest.filter(keep));
            law_cancelled_never_fires(rest, wakers, id);
        } else {
            assert(seq![first].filter(keep) =~= seq![first]);
            let kept = expired.filter(keep);
            assert(kept =~= seq![first] + rest.filter(keep));
            assert(kept.skip(1) =~= rest.filter(keep));
            if wakers.contains_key(first.id) {
                law_cancelled_never_fires(rest, wakers.remove(first.id), id);
                assert(wakers.remove(id).remove(first.id) =~= wakers.remove(first.id).remove(id));
            } else {
                law_cancelled_never_fires(rest, wakers, id);
            }
        }
    } else {
        assert(expired.filter(keep) =~= Seq::empty());
    }
}

/// A registration that is due and has not been cancelled fires.
pub proof fn law_due_timer_fires<W>(expired: Seq<Entry>, wakers: Map<EntryId, W>, i: int)
    requires
        0 <= i < expired.len(),
        wakers.contains_key(expired[i].id),
    ensures
        driver::released(expired, wakers).contains(wakers[expired[i].id]),
    decreases expired.len(),
{
    let id = expired[i].id;
    let first = expired[0].id;
    let rest = expired.skip(1);
    let fired = driver::released(expired, wakers);
    if first == id {
        assert(fired[0] == wakers[id]);
    } else {
        assert(rest[i - 1] == expired[i]);
        if wakers.contains_key(first) {
            law_due_timer_fires(rest, wakers.remove(first), i - 1);
            let later = driver::released(rest, wakers.remove(first));
            let n = choose|n: int| 0 <= n < later.len() && later[n] == wakers[id];
            assert(fired[n + 1] == wakers[id]);
        } else {
            law_due_timer_fires(rest, wakers, i - 1);
        }
    }
}

/// A registered timer fires in time: an advance to a tick past its deadline releases its waker,
/// unless it has been cancelled.
pub proof fn law_registered_timer_fires<W>(
    pending: Multiset<Entry>,
    wakers: Map<EntryId, W>,
    epoch: Instant,
    cursor: u64,
    id: EntryId,
    deadline: Instant,
    waker: W,
    now: Instant,
    expired: Seq<Entry>,
)
    requires
        now@ >= deadline@ + TICK_NS,
        driver::lists_due(
            expired,
            pending.insert(
                wheel::clamped(Entry { id, deadline: driver::tick_ceil(epoch, deadline) }, cursor),
            ),
            driver::tick_floor(epoch, now),
        ),
    ensures
        driver::released(expired, wakers.insert(id, waker)).contains(waker),
{
    broadcast use vstd::seq_lib::group_to_multiset_ensures;

    let entry = wheel::clamped(Entry { id, deadline: driver::tick_ceil(epoch, deadline) }, cursor);
    law_at_most_one_tick_late(epoch, cursor, id, deadline, now);
    assert(expired.to_multiset().count(entry) > 0);
    assert(expired.contains(entry));
    let i = choose|i: int| 0 <= i < expired.len() && expired[i] == entry;
    law_due_timer_fires(expired, wakers.insert(id, waker), i);
}

/// A registration fires at most once: no more wakers are released than there are registrations.
pub proof fn law_fires_at_most_once<W>(expired: Seq<Entry>, wakers: Map<EntryId, W>)
    requires
        wakers.dom().finite(),
    ensures
        driver::released(expired, wakers).len() <= wakers.dom().len(),
    decreases expired.len(),
{
    if expired.len() > 0 {
        let id = expired[0].id;
        if wakers.contains_key(id) {
            law_fires_at_most_once(expired.skip(1), wakers.remove(id));
            assert(wakers.remove(id).dom() =~= wakers.dom().remove(id));
        } else {
            law_fires_at_most_once(expired.skip(1), wakers);
        }
    }
}

/// What expires releases each waker under the id it was registered with, and no id twice.
pub proof fn law_releases_follow_ids<W>(expired: Seq<Entry>, wakers: Map<EntryId, W>)
    ensures
        ({
            let ids = driver::released_ids(expired, wakers);
            let fired = driver::released(expired, wakers);
            &&& fired.len() == ids.len()
            &&& forall|n: int|
                0 <= n < ids.len() ==> wakers.contains_key(#[trigger] ids[n]) && fired[n]
                    == wakers[ids[n]]
            &&& ids.no_duplicates()
        }),
    decreases expired.len(),
{
    if expired.len() > 0 {
        let id = expired[0].id;
        let rest = expired.skip(1);
        let ids = driver::released_ids(expired, wakers);
        let fired = driver::released(expired, wakers);
        if wakers.contains_key(id) {
            let left = wakers.remove(id);
            law_releases_follow_ids(rest, left);
            let later = driver::released_ids(rest, left);
            assert forall|n: int| 0 <= n < ids.len() implies wakers.contains_key(#[trigger] ids[n])
                && fired[n] == wakers[ids[n]] by {
                if n > 0 {
                    assert(ids[n] == later[n - 1]);
                    assert(left.contains_key(later[n - 1]));
                }
            }
            assert forall|i: int, j: int| 0 <= i < j < ids.len() implies ids[i] != ids[j] by {
                assert(ids[j] == later[j - 1]);
                assert(left.contains_key(later[j - 1]));
                if i > 0 {
                    assert(ids[i] == later[i - 1]);
                }
            }
        } else {
            law_releases_follow_ids(rest, wakers);
        }
    }
}

/// What expires releases exactly the registrations that are listed and have a waker.
proof fn lemma_released_if_listed<W>(expired: Seq<Entry>, wakers: Map<EntryId, W>, id: EntryId)
    ensures
        driver::released_ids(expired, wakers).contains(id) <==> wakers.contains_key(id) && exists|
            n: int,
        |
            0 <= n < expired.len() && (#[trigger] expired[n]).id == id,
    decreases expired.len(),
{
    let ids = driver::released_ids(expired, wakers);
    if expired.len() > 0 {
        let first = expired[0].id;
        let rest = expired.skip(1);
        let left = if wakers.contains_key(first) {
            wakers.remove(first)
        } else {
            wakers
        };
        lemma_released_if_listed(rest, left, id);
        let later = driver::released_ids(rest, left);
        if wakers.contains_key(first) {
            assert(ids =~= seq![first] + later);
            assert(ids[0] == first);
            if later.contains(id) {
                let n = choose|n: int| 0 <= n < later.len() && later[n] == id;
                assert(ids[n + 1] == id);
            }
            if ids.contains(id) && id != first {
                let n = choose|n: int| 0 <= n < ids.len() && ids[n] == id;
                assert(later[n - 1] == id);
            }
        }
        if exists|n: int| 0 <= n < rest.len() && (#[trigger] rest[n]).id == id {
            let n = choose|n: int| 0 <= n < rest.len() && (#[trigger] rest[n]).id == id;
            assert(expired[n + 1].id == id);
        }
        if id != first && exists|n: int| 0 <= n < expired.len() && (#[trigger] expired[n]).id == id {
            let n = choose|n: int| 0 <= n < expired.len() && (#[trigger] expired[n]).id == id;
            assert(rest[n - 1].id == id);
        }
    }
}

/// Whether one of `events` is an advance to `tick` or later.
spec fn advances_to<W>(events: Seq<DriverEvent<W>>, epoch: Instant, tick: u64) -> bool {
    exists|i: int|
        0 <= i < events.len() && ((#[trigger] events[i]) matches DriverEvent::Advance(now, _)
            && driver::tick_floor(epoch, now) >= tick)
}

/// Whether none of `events` gives up the registration `id`.
pub open spec fn keeps<W>(events: Seq<DriverEvent<W>>, id: EntryId) -> bool {
    forall|i: int|
        0 <= i < events.len() ==> !((#[trigger] events[i]) is Clear) && !(events[i]
            == DriverEvent::<W>::Cancel(id))
}

/// How many registrations `events` make.
spec fn registrations<W>(events: Seq<DriverEvent<W>>) -> nat
    decreases events.len(),
{
    if events.len() == 0 {
        0
    } else {
        registrations(events.drop_last()) + if events.last() is Register {
            1nat
        } else {
            0
        }
    }
}

/// Ids are given out one after the other.
proof fn lemma_next_id<W>(state: DriverView<W>, events: Seq<DriverEvent<W>>)
    ensures
        registrations(events) <= events.len(),
        state.run(events).epoch == state.epoch,
        state.run(events).next_id == (state.next_id + registrations(events))
            % 0x1_0000_0000_0000_0000,
    decreases events.len(),
{
    if events.len() > 0 {
        lemma_next_id(state, events.drop_last());
    }
}

/// Whether no timer in the wheel has the id that the next registration gets.
pub open spec fn next_id_is_free<W>(state: DriverView<W>) -> bool {
    forall|e: Entry| #[trigger] state.pending.count(e) > 0 ==> e.id != state.next_id
}

/// Every registration gets an id of its own, whatever is done to the driver and however often it
/// is cleared, as long as there are ids left.
pub proof fn law_ids_are_fresh<W>(epoch: Instant, events: Seq<DriverEvent<W>>)
    requires
        events.len() <= u64::MAX,
    ensures
        ({
            let state = DriverView::<W>::initial(epoch).run(events);
            &&& next_id_is_free(state)
            &&& !state.wakers.contains_key(state.next_id)
            &&& forall|i: int|
                0 <= i < events.len() && (#[trigger] events[i]) is Register
                    ==> DriverView::<W>::initial(epoch).run(events.take(i)).next_id < state.next_id
        }),
    decreases events.len(),
{
    lemma_ids_below(epoch, events);
    let start = DriverView::<W>::initial(epoch);
    let state = start.run(events);
    lemma_next_id(start, events);
    assert forall|i: int|
        0 <= i < events.len() && (#[trigger] events[i]) is Register implies start.run(
        events.take(i),
    ).next_id < state.next_id by {
        let rest = events.drop_last();
        lemma_next_id(start, rest);
        if i == rest.len() {
            assert(events.take(i) =~= rest);
        } else {
            law_ids_are_fresh(epoch, rest);
            assert(rest[i] == events[i]);
            assert(rest.take(i) =~= events.take(i));
        }
    }
}

/// What a driver holds was registered earlier.
proof fn lemma_ids_below<W>(epoch: Instant, events: Seq<DriverEvent<W>>)
    requires
        events.len() <= u64::MAX,
    ensures
        ({
            let state = DriverView::<W>::initial(epoch).run(events);
            &&& forall|e: Entry| #[trigger] state.pending.count(e) > 0 ==> e.id < state.next_id
            &&& forall|id: EntryId| #[trigger] state.wakers.contains_key(id) ==> id < state.next_id
        }),
    decreases events.len(),
{
    let start = DriverView::<W>::initial(epoch);
    lemma_next_id(start, events);
    if events.len() > 0 {
        let rest = events.drop_last();
        lemma_ids_below(epoch, rest);
        lemma_next_id(start, rest);
        let before = start.run(rest);
        let state = start.run(events);
        assert forall|e: Entry| #[trigger] state.pending.count(e) > 0 implies e.id
            < state.next_id by {
            if before.pending.count(e) == 0 {
                assert(events.last() is Register);
            }
        }
        assert forall|id: EntryId| #[trigger] state.wakers.contains_key(id) implies id
            < state.next_id by {
            if !before.wakers.contains_key(id) {
                assert(events.last() is Register);
            }
        }
    }
}

/// A registration after any number of operations: it waits, or it has been released.
proof fn lemma_registration<W>(
    before: DriverView<W>,
    deadline: Instant,
    waker: W,
    events: Seq<DriverEvent<W>>,
)
    requires
        next_id_is_free(before),
        !before.is_past(deadline),
        events.len() <= u64::MAX,
        before.registered(deadline, waker).can_run(events),
        keeps(events, before.next_id),
    ensures
        ({
            let id = before.next_id;
            let entry = before.next_entry(deadline);
            let start = before.registered(deadline, waker);
            let state = start.run(events);
            let ids = start.all_releases(events);
            let fired = start.all_fires(events);
            &&& ids.len() == fired.len()
            &&& forall|n: int| 0 <= n < ids.len() && #[trigger] ids[n] == id ==> fired[n] == waker
            &&& forall|e: Entry| #[trigger]
                state.pending.count(e) > 0 && e.id == id ==> e == entry
            &&& if advances_to(events, before.epoch, entry.deadline) {
                &&& ids.to_multiset().count(id) == 1
                &&& !state.wakers.contains_key(id)
                &&& state.pending.count(entry) == 0
            } else {
                &&& ids.to_multiset().count(id) == 0
                &&& state.wakers.contains_key(id)
                &&& state.wakers[id] == waker
                &&& state.pending.count(entry) > 0
            }
        }),
    decreases events.len(),
{
    broadcast use vstd::seq_lib::group_to_multiset_ensures;

    let id = before.next_id;
    let entry = before.next_entry(deadline);
    let start = before.registered(deadline, waker);
    if events.len() > 0 {
        let rest = events.drop_last();
        let event = events.last();
        lemma_registration(before, deadline, waker, rest);
        lemma_next_id(start, rest);
        let mid = start.run(rest);
        let ids0 = start.all_releases(rest);
        let fired0 = start.all_fires(rest);
        let new_ids = mid.releases(event);
        let new_fired = mid.fires(event);
        let ids = start.all_releases(events);
        let fired = start.all_fires(events);
        vstd::seq_lib::lemma_multiset_commutative(ids0, new_ids);
        assert(events[events.len() - 1] == event);
        assert(advances_to(events, before.epoch, entry.deadline) <==> advances_to(
            rest,
            before.epoch,
            entry.deadline,
        ) || (event matches DriverEvent::Advance(now, _) && driver::tick_floor(before.epoch, now)
            >= entry.deadline)) by {
            if advances_to(rest, before.epoch, entry.deadline) {
                let i = choose|i: int|
                    0 <= i < rest.len() && ((#[trigger] rest[i]) matches DriverEvent::Advance(
                        now,
                        _,
                    ) && driver::tick_floor(before.epoch, now) >= entry.deadline);
                assert(events[i] == rest[i]);
            }
            if advances_to(events, before.epoch, entry.deadline) {
                let i = choose|i: int|
                    0 <= i < events.len() && ((#[trigger] events[i]) matches DriverEvent::Advance(
                        now,
                        _,
                    ) && driver::tick_floor(before.epoch, now) >= entry.deadline);
                if i < rest.len() {
                    assert(rest[i] == events[i]);
                }
            }
        }
        match event {
            DriverEvent::Advance(now, expired) => {
                let tick = driver::tick_floor(before.epoch, now);
                law_releases_follow_ids(expired, mid.wakers);
                lemma_released_if_listed(expired, mid.wakers, id);
                driver::lemma_due(expired, mid.pending, tick, id);
                if mid.wakers.contains_key(id) {
                    assert(driver::due(mid.pending, tick, id) <==> entry.deadline <= tick);
                }
                lemma_count_once(new_ids, id);
                assert forall|n: int| 0 <= n < ids.len() && #[trigger] ids[n] == id implies fired[n]
                    == waker by {
                    if n < ids0.len() {
                        assert(ids0[n] == id);
                    } else {
                        assert(new_ids[n - ids0.len()] == id);
                    }
                }
            },
            _ => {
                assert(ids =~= ids0);
                assert(fired =~= fired0);
                if event is Register {
                    assert(mid.next_id != id) by {
                        assert(mid.next_id == (start.next_id + registrations(rest))
                            % 0x1_0000_0000_0000_0000);
                        assert(registrations(rest) < u64::MAX);
                    }
                }
            },
        }
    } else {
        assert(start.pending.count(entry) > 0);
    }
}

/// In a list without duplicates everything occurs once or not at all.
proof fn lemma_count_once(ids: Seq<EntryId>, id: EntryId)
    requires
        ids.no_duplicates(),
    ensures
        ids.to_multiset().count(id) == if ids.contains(id) {
            1nat
        } else {
            0
        },
{
    broadcast use vstd::seq_lib::group_to_multiset_ensures;

    ids.lemma_multiset_has_no_duplicates();
}

/// A registration that is not given up fires exactly once, and in time. Over any sequence of
/// operations on the driver, its waker is handed out at most once. It is not handed out as long as
/// every advance is to a time before the deadline, and it has been handed out once there was an
/// advance to a time at least a tick past the deadline.
///
/// This is stated for deadlines within the range of the wheel, and for fewer operations than there
/// are ids.
pub proof fn law_fires_exactly_once<W>(
    before: DriverView<W>,
    deadline: Instant,
    waker: W,
    events: Seq<DriverEvent<W>>,
)
    requires
        next_id_is_free(before),
        !before.is_past(deadline),
        driver::nanos_since(before.epoch, deadline) <= u64::MAX * TICK_NS,
        driver::tick_ceil(before.epoch, deadline) < before.cursor + MAX_TICKS,
        events.len() <= u64::MAX,
        before.registered(deadline, waker).can_run(events),
        keeps(events, before.next_id),
    ensures
        ({
            let id = before.next_id;
            let start = before.registered(deadline, waker);
            let ids = start.all_releases(events);
            let fired = start.all_fires(events);
            &&& ids.len() == fired.len()
            &&& ids.to_multiset().count(id) <= 1
            &&& forall|n: int| 0 <= n < ids.len() && #[trigger] ids[n] == id ==> fired[n] == waker
            &&& (forall|i: int|
                0 <= i < events.len() ==> ((#[trigger] events[i]) matches DriverEvent::Advance(
                    now,
                    _,
                ) ==> now@ < deadline@)) ==> ids.to_multiset().count(id) == 0
            &&& (exists|i: int|
                0 <= i < events.len() && ((#[trigger] events[i]) matches DriverEvent::Advance(
                    now,
                    _,
                ) && now@ >= deadline@ + TICK_NS)) ==> ids.to_multiset().count(id) == 1
        }),
{
    let id = before.next_id;
    let entry = before.next_entry(deadline);
    lemma_registration(before, deadline, waker, events);
    if advances_to(events, before.epoch, entry.deadline) {
        let i = choose|i: int|
            0 <= i < events.len() && ((#[trigger] events[i]) matches DriverEvent::Advance(now, _)
                && driver::tick_floor(before.epoch, now) >= entry.deadline);
        let now = events[i]->Advance_0;
        if now@ >= before.epoch@ {
            law_never_early(before.epoch, before.cursor, id, deadline, now);
        }
        assert(now@ >= deadline@);
    }
    if exists|i: int|
        0 <= i < events.len() && ((#[trigger] events[i]) matches DriverEvent::Advance(now, _)
            && now@ >= deadline@ + TICK_NS) {
        let i = choose|i: int|
            0 <= i < events.len() && ((#[trigger] events[i]) matches DriverEvent::Advance(now, _)
                && now@ >= deadline@ + TICK_NS);
        let now = events[i]->Advance_0;
        law_at_most_one_tick_late(before.epoch, before.cursor, id, deadline, now);
        assert(advances_to(events, before.epoch, entry.deadline));
    }
}

/// Releases under their ids, together with the wakers that they hand out.
pub open spec fn paired<W>(ids: Seq<EntryId>, fired: Seq<W>) -> Seq<(EntryId, W)> {
    Seq::new(ids.len(), |n: int| (ids[n], fired[n]))
}

/// Without the waker of `id`, what expires hands out the same wakers but that one.
proof fn lemma_hands_out_others<W>(expired: Seq<Entry>, wakers: Map<EntryId, W>, id: EntryId)
    ensures
        paired(
            driver::released_ids(expired, wakers.remove(id)),
            driver::released(expired, wakers.remove(id)),
        ) == paired(
            driver::released_ids(expired, wakers),
            driver::released(expired, wakers),
        ).filter(|p: (EntryId, W)| p.0 != id),
    decreases expired.len(),
{
    let others = |p: (EntryId, W)| p.0 != id;
    let less = wakers.remove(id);
    let all = paired(driver::released_ids(expired, wakers), driver::released(expired, wakers));
    let some = paired(driver::released_ids(expired, less), driver::released(expired, less));
    law_releases_follow_ids(expired, wakers);
    law_releases_follow_ids(expired, less);
    reveal_with_fuel(Seq::filter, 2);
    if expired.len() > 0 {
        let first = expired[0].id;
        let rest = expired.skip(1);
        if wakers.contains_key(first) {
            let left = wakers.remove(first);
            let later = paired(driver::released_ids(rest, left), driver::released(rest, left));
            let head = seq![(first, wakers[first])];
            law_releases_follow_ids(rest, left);
            lemma_hands_out_others(rest, left, id);
            assert(all =~= head + later);
            Seq::filter_distributes_over_add(head, later, others);
            assert(head.drop_last() =~= Seq::empty());
            if first == id {
                assert(left.remove(id) =~= left);
                assert(head.filter(others) =~= Seq::empty());
                assert(some =~= later);
                assert(all.filter(others) =~= later.filter(others));
            } else {
                assert(left.remove(id) =~= less.remove(first));
                law_releases_follow_ids(rest, less.remove(first));
                assert(head.filter(others) =~= head);
                assert(some =~= head + later.filter(others));
            }
        } else {
            lemma_hands_out_others(rest, wakers, id);
            assert(!less.contains_key(first));
        }
    } else {
        assert(some =~= all.filter(others));
    }
}

/// Over any operations, there is a waker handed out for every release.
proof fn lemma_as_many_fires<W>(state: DriverView<W>, events: Seq<DriverEvent<W>>)
    ensures
        state.all_fires(events).len() == state.all_releases(events).len(),
    decreases events.len(),
{
    if events.len() > 0 {
        let rest = events.drop_last();
        lemma_as_many_fires(state, rest);
        if let DriverEvent::Advance(_, expired) = events.last() {
            law_releases_follow_ids(expired, state.run(rest).wakers);
        }
    }
}

/// Whether none of `events` gives the id `id` out.
spec fn spares<W>(state: DriverView<W>, events: Seq<DriverEvent<W>>, id: EntryId) -> bool {
    forall|i: int|
        0 <= i < events.len() && (#[trigger] events[i]) is Register ==> state.run(
            events.take(i),
        ).next_id != id
}

/// A driver without the waker of `id` does the same as one with it, but for that waker.
proof fn lemma_runs_alike<W>(state: DriverView<W>, events: Seq<DriverEvent<W>>, id: EntryId)
    requires
        spares(state, events, id),
    ensures
        ({
            let less = DriverView { wakers: state.wakers.remove(id), ..state };
            let after = state.run(events);
            &&& less.run(events) == (DriverView { wakers: after.wakers.remove(id), ..after })
            &&& less.can_run(events) == state.can_run(events)
            &&& paired(less.all_releases(events), less.all_fires(events)) == paired(
                state.all_releases(events),
                state.all_fires(events),
            ).filter(|p: (EntryId, W)| p.0 != id)
        }),
    decreases events.len(),
{
    let others = |p: (EntryId, W)| p.0 != id;
    let less = DriverView { wakers: state.wakers.remove(id), ..state };
    reveal_with_fuel(Seq::filter, 1);
    lemma_as_many_fires(state, events);
    lemma_as_many_fires(less, events);
    if events.len() > 0 {
        let rest = events.drop_last();
        let event = events.last();
        assert forall|i: int| 0 <= i < rest.len() && (#[trigger] rest[i]) is Register implies state.run(
            rest.take(i),
        ).next_id != id by {
            assert(rest[i] == events[i]);
            assert(rest.take(i) =~= events.take(i));
        }
        lemma_runs_alike(state, rest, id);
        lemma_as_many_fires(state, rest);
        lemma_as_many_fires(less, rest);
        let mid = state.run(rest);
        let mid_less = less.run(rest);
        assert(events[events.len() - 1] == event);
        assert(events.take(events.len() - 1) =~= rest);
        let after = mid.after(event);
        assert(mid_less.after(event).wakers =~= after.wakers.remove(id));
        assert(mid_less.after(event) =~= (DriverView { wakers: after.wakers.remove(id), ..after }));
        let before = paired(state.all_releases(rest), state.all_fires(rest));
        let before_less = paired(less.all_releases(rest), less.all_fires(rest));
        let new = paired(mid.releases(event), mid.fires(event));
        let new_less = paired(mid_less.releases(event), mid_less.fires(event));
        if let DriverEvent::Advance(_, expired) = event {
            lemma_hands_out_others(expired, mid.wakers, id);
            law_releases_follow_ids(expired, mid.wakers);
            law_releases_follow_ids(expired, mid_less.wakers);
        } else {
            assert(new =~= Seq::empty());
            assert(new_less =~= new.filter(others));
        }
        Seq::filter_distributes_over_add(before, new, others);
        assert(paired(state.all_releases(events), state.all_fires(events)) =~= before + new);
        assert(paired(less.all_releases(events), less.all_fires(events)) =~= before_less
            + new_less);
    } else {
        assert(paired(less.all_releases(events), less.all_fires(events)) =~= paired(
            state.all_releases(events),
            state.all_fires(events),
        ).filter(others));
    }
}

/// A cancelled registration stays silent. Cancelling fires nothing. Over any later operations, the
/// driver hands out the wakers that it would have handed out without the cancellation, in the same
/// order, but for the one that was cancelled. To cancel a registration that has fired, or that has
/// been cancelled before, changes nothing.
///
/// This is stated for fewer operations than there are ids.
pub proof fn law_cancelled_stays_silent<W>(
    before: DriverView<W>,
    deadline: Instant,
    waker: W,
    earlier: Seq<DriverEvent<W>>,
    later: Seq<DriverEvent<W>>,
)
    requires
        earlier.len() + later.len() <= u64::MAX,
        before.registered(deadline, waker).run(earlier).can_run(later),
    ensures
        ({
            let id = before.next_id;
            let state = before.registered(deadline, waker).run(earlier);
            let cancelled = state.after(DriverEvent::Cancel(id));
            &&& state.fires(DriverEvent::Cancel(id)) == Seq::<W>::empty()
            &&& cancelled.can_run(later)
            &&& !cancelled.all_releases(later).contains(id)
            &&& paired(cancelled.all_releases(later), cancelled.all_fires(later)) == paired(
                state.all_releases(later),
                state.all_fires(later),
            ).filter(|p: (EntryId, W)| p.0 != id)
            &&& cancelled.after(DriverEvent::Cancel(id)) == cancelled
            &&& !state.wakers.contains_key(id) ==> cancelled == state
        }),
{
    let id = before.next_id;
    let start = before.registered(deadline, waker);
    let state = start.run(earlier);
    let cancelled = state.after(DriverEvent::Cancel(id));
    lemma_next_id(start, earlier);
    assert forall|i: int| 0 <= i < later.len() && (#[trigger] later[i]) is Register implies state.run(
        later.take(i),
    ).next_id != id by {
        lemma_next_id(state, later.take(i));
        let made = registrations(earlier) + registrations(later.take(i));
        assert(made < u64::MAX);
        assert(state.run(later.take(i)).next_id == (start.next_id + made)
            % 0x1_0000_0000_0000_0000);
    }
    lemma_runs_alike(state, later, id);
    let ids = cancelled.all_releases(later);
    let all = paired(state.all_releases(later), state.all_fires(later));
    let others = |p: (EntryId, W)| p.0 != id;
    if ids.contains(id) {
        let n = choose|n: int| 0 <= n < ids.len() && ids[n] == id;
        assert(paired(ids, cancelled.all_fires(later))[n].0 == id);
        all.lemma_filter_pred(others, n);
    }
    assert(cancelled.wakers.remove(id) =~= cancelled.wakers);
    assert(!state.wakers.contains_key(id) ==> cancelled.wakers =~= state.wakers);
}

/// A cleared driver is silent: it fires nothing and reports no next deadline, however often it
/// advances, until something is registered again. The ids that it gives out go on where they were.
pub proof fn law_cleared_driver_is_silent<W>(state: DriverView<W>, events: Seq<DriverEvent<W>>)
    requires
        state.after(DriverEvent::Clear).can_run(events),
        forall|i: int| 0 <= i < events.len() ==> !((#[trigger] events[i]) is Register),
    ensures
        ({
            let cleared = state.after(DriverEvent::Clear);
            &&& state.fires(DriverEvent::Clear) == Seq::<W>::empty()
            &&& cleared.all_fires(events) == Seq::<W>::empty()
            &&& cleared.run(events).pending == Multiset::<Entry>::empty()
            &&& cleared.run(events).wakers == Map::<EntryId, W>::empty()
            &&& cleared.run(events).next_id == state.next_id
        }),
    decreases events.len(),
{
    let cleared = state.after(DriverEvent::Clear);
    if events.len() > 0 {
        let rest = events.drop_last();
        assert forall|i: int| 0 <= i < rest.len() implies !((#[trigger] rest[i]) is Register) by {
            assert(rest[i] == events[i]);
        }
        law_cleared_driver_is_silent(state, rest);
        let mid = cleared.run(rest);
        let event = events.last();
        assert(event == events[events.len() - 1]);
        if let DriverEvent::Advance(now, expired) = event {
            let fired = driver::released(expired, mid.wakers);
            law_releases_follow_ids(expired, mid.wakers);
            if fired.len() > 0 {
                assert(mid.wakers.contains_key(driver::released_ids(expired, mid.wakers)[0]));
            }
            assert(fired =~= Seq::<W>::empty());
        }
        assert(cleared.all_fires(events) =~= Seq::<W>::empty());
        assert(cleared.run(events).pending =~= Multiset::<Entry>::empty());
        assert(cleared.run(events).wakers =~= Map::<EntryId, W>::empty());
    }
}

/// The deadline of a sleep stays over any number of polls.
proof fn lemma_deadline_stays(sleeps: Seq<Sleep>, i: int)
    requires
        0 <= i < sleeps.len(),
        polled_in_turn(sleeps),
    ensures
        sleeps[i].deadline == sleeps[0].deadline,
    decreases i,
{
    if i > 0 {
        lemma_deadline_stays(sleeps, i - 1);
    }
}

/// The states of one sleep before each of several polls: a poll keeps the deadline.
pub open spec fn polled_in_turn(sleeps: Seq<Sleep>) -> bool {
    forall|i: int, j: int|
        0 <= i < sleeps.len() && j == i + 1 && j < sleeps.len() ==> (#[trigger] sleeps[j]).deadline
            == (#[trigger] sleeps[i]).deadline
}

/// A sleep of `dur` that was started at `start` is pending at every poll before `start` plus `dur`,
/// and ready at every poll at or after it. One of no length is ready at once.
pub proof fn law_sleep_lasts(
    start: Instant,
    dur: Duration,
    sleeps: Seq<Sleep>,
    polls: Seq<Instant>,
)
    requires
        start@ + dur@ <= u128::MAX,
        sleeps.len() == polls.len(),
        sleeps.len() > 0,
        sleeps[0].deadline@ == time::deadline_after(start, dur),
        polled_in_turn(sleeps),
    ensures
        forall|i: int|
            0 <= i < polls.len() ==> ((#[trigger] sleeps[i]).is_over(polls[i]) <==> polls[i]@
                >= start@ + dur@),
        dur@ == 0 && polls[0]@ >= start@ ==> sleeps[0].is_over(polls[0]),
{
    assert forall|i: int| 0 <= i < polls.len() implies ((#[trigger] sleeps[i]).is_over(polls[i])
        <==> polls[i]@ >= start@ + dur@) by {
        lemma_deadline_stays(sleeps, i);
    }
}

} // verus!
