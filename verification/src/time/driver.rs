//! Timer driver: the wheel of one runtime, and whom its timers wake.
//!
//! The wheel counts ticks of a millisecond from an epoch. Deadlines are rounded up to a tick and
//! the current time is rounded down, so that no timer fires before its deadline.

use std::collections::HashMap;

use vstd::multiset::Multiset;
use vstd::prelude::*;

use crate::time::instant::{Duration, Instant};
use crate::time::wheel::{self, Entry, Wheel};

verus! {

broadcast use vstd::std_specs::hash::group_hash_axioms;

/// Length of one wheel tick in nanoseconds.
pub const TICK_NS: u128 = 1_000_000;

/// Names one registration of a [`Driver`].
pub type EntryId = u64;

/// The id of the registration that follows the one with `id`.
pub open spec fn id_after(id: EntryId) -> EntryId {
    if id == u64::MAX {
        0
    } else {
        (id + 1) as u64
    }
}

/// Nanoseconds from `epoch` to `at`, or zero if `at` is the earlier one.
pub open spec fn nanos_since(epoch: Instant, at: Instant) -> nat {
    if at@ >= epoch@ {
        (at@ - epoch@) as nat
    } else {
        0
    }
}

/// The first tick that is not earlier than `at`, as far as ticks reach.
pub open spec fn tick_ceil(epoch: Instant, at: Instant) -> u64 {
    let tick = (nanos_since(epoch, at) + TICK_NS - 1) / TICK_NS as int;
    if tick > u64::MAX {
        u64::MAX
    } else {
        tick as u64
    }
}

/// The last tick that is not later than `at`, as far as ticks reach.
pub open spec fn tick_floor(epoch: Instant, at: Instant) -> u64 {
    let tick = nanos_since(epoch, at) / TICK_NS as nat;
    if tick > u64::MAX {
        u64::MAX
    } else {
        tick as u64
    }
}

/// Round `deadline` up to a tick, so that the tick is never earlier than the deadline.
pub fn instant_to_tick_ceil(epoch: Instant, deadline: Instant) -> (tick: u64)
    ensures
        tick == tick_ceil(epoch, deadline),
{
    let nanos = deadline.saturating_duration_since(epoch).as_nanos();
    let whole = nanos / TICK_NS;
    let ticks = if nanos % TICK_NS == 0 {
        whole
    } else {
        whole + 1
    };
    proof {
        assert(ticks as int == (nanos + TICK_NS - 1) / TICK_NS as int);
    }
    if ticks > u64::MAX as u128 {
        u64::MAX
    } else {
        ticks as u64
    }
}

/// Round `now` down to a tick, so that the tick has fully passed.
pub fn instant_to_tick_floor(epoch: Instant, now: Instant) -> (tick: u64)
    ensures
        tick == tick_floor(epoch, now),
{
    let nanos = now.saturating_duration_since(epoch).as_nanos();
    let ticks = nanos / TICK_NS;
    if ticks > u64::MAX as u128 {
        u64::MAX
    } else {
        ticks as u64
    }
}

/// The point in time at which `tick` starts.
pub fn tick_to_instant(epoch: Instant, tick: u64) -> (at: Instant)
    requires
        epoch@ + tick * TICK_NS <= u128::MAX,
    ensures
        at@ == epoch@ + tick * TICK_NS,
{
    epoch.after(Duration::from_millis(tick))
}

/// Whether a timer with id `id` among `pending` is due by `tick`.
pub open spec fn due(pending: Multiset<Entry>, tick: u64, id: EntryId) -> bool {
    exists|e: Entry| #[trigger] pending.count(e) > 0 && e.deadline <= tick && e.id == id
}

/// The wakers that `expired` releases from `wakers`, in the order of `expired`.
pub open spec fn released<W>(expired: Seq<Entry>, wakers: Map<EntryId, W>) -> Seq<W>
    decreases expired.len(),
{
    if expired.len() == 0 {
        Seq::empty()
    } else {
        let id = expired[0].id;
        if wakers.contains_key(id) {
            seq![wakers[id]] + released(expired.skip(1), wakers.remove(id))
        } else {
            released(expired.skip(1), wakers)
        }
    }
}

/// `expired` lists the timers of `pending` that are due by `tick`, earliest first.
pub open spec fn lists_due(expired: Seq<Entry>, pending: Multiset<Entry>, tick: u64) -> bool {
    &&& expired.to_multiset() == wheel::due_by(pending, tick)
    &&& forall|i: int, j: int|
        0 <= i <= j < expired.len() ==> (#[trigger] expired[i]).deadline <= (
        #[trigger] expired[j]).deadline
}

/// The ids of the registrations whose wakers `expired` releases from `wakers`, in the order in
/// which it releases them.
pub open spec fn released_ids<W>(expired: Seq<Entry>, wakers: Map<EntryId, W>) -> Seq<EntryId>
    decreases expired.len(),
{
    if expired.len() == 0 {
        Seq::empty()
    } else {
        let id = expired[0].id;
        if wakers.contains_key(id) {
            seq![id] + released_ids(expired.skip(1), wakers.remove(id))
        } else {
            released_ids(expired.skip(1), wakers)
        }
    }
}

/// What a driver holds.
#[verifier::ext_equal]
pub struct DriverView<W> {
    /// The timers in the wheel, cancelled ones included.
    pub pending: Multiset<Entry>,
    /// The wakers of the registrations that are neither fired nor cancelled.
    pub wakers: Map<EntryId, W>,
    /// The last tick the driver has advanced to.
    pub cursor: u64,
    /// The id that the next registration gets.
    pub next_id: EntryId,
    /// The point in time of tick zero.
    pub epoch: Instant,
}

/// What can be done to a driver.
pub enum DriverEvent<W> {
    /// A waker is registered for a deadline.
    Register(Instant, W),
    /// A registration is cancelled.
    Cancel(EntryId),
    /// The driver advances to a point in time, and takes the timers that are due in this order.
    Advance(Instant, Seq<Entry>),
    /// Every registration is dropped.
    Clear,
}

impl<W> DriverView<W> {
    /// A driver without timers.
    pub open spec fn initial(epoch: Instant) -> Self {
        DriverView {
            pending: Multiset::empty(),
            wakers: Map::empty(),
            cursor: 0,
            next_id: 0,
            epoch,
        }
    }

    /// Whether a registration for `deadline` comes too late.
    pub open spec fn is_past(self, deadline: Instant) -> bool {
        tick_ceil(self.epoch, deadline) <= self.cursor
    }

    /// The timer that the next registration puts into the wheel.
    pub open spec fn next_entry(self, deadline: Instant) -> Entry {
        wheel::clamped(
            Entry { id: self.next_id, deadline: tick_ceil(self.epoch, deadline) },
            self.cursor,
        )
    }

    /// `waker` is registered for `deadline`, unless that has passed.
    pub open spec fn registered(self, deadline: Instant, waker: W) -> Self {
        if self.is_past(deadline) {
            DriverView { next_id: id_after(self.next_id), ..self }
        } else {
            DriverView {
                pending: self.pending.insert(self.next_entry(deadline)),
                wakers: self.wakers.insert(self.next_id, waker),
                next_id: id_after(self.next_id),
                ..self
            }
        }
    }

    /// The driver advances to `now`: what is due by then is gone.
    pub open spec fn advanced(self, now: Instant) -> Self {
        let tick = tick_floor(self.epoch, now);
        DriverView {
            pending: wheel::after(self.pending, tick),
            wakers: Map::new(
                |id: EntryId| self.wakers.contains_key(id) && !due(self.pending, tick, id),
                |id: EntryId| self.wakers[id],
            ),
            cursor: if tick > self.cursor {
                tick
            } else {
                self.cursor
            },
            ..self
        }
    }

    /// The driver after `event`.
    pub open spec fn after(self, event: DriverEvent<W>) -> Self {
        match event {
            DriverEvent::Register(deadline, waker) => self.registered(deadline, waker),
            DriverEvent::Cancel(id) => DriverView { wakers: self.wakers.remove(id), ..self },
            DriverEvent::Advance(now, _) => self.advanced(now),
            DriverEvent::Clear => DriverView {
                pending: Multiset::empty(),
                wakers: Map::empty(),
                ..self
            },
        }
    }

    /// Whether `event` can happen: an advance takes what is due.
    pub open spec fn enabled(self, event: DriverEvent<W>) -> bool {
        event matches DriverEvent::Advance(now, expired) ==> lists_due(
            expired,
            self.pending,
            tick_floor(self.epoch, now),
        )
    }

    /// The ids of the registrations that `event` releases.
    pub open spec fn releases(self, event: DriverEvent<W>) -> Seq<EntryId> {
        match event {
            DriverEvent::Advance(_, expired) => released_ids(expired, self.wakers),
            _ => Seq::empty(),
        }
    }

    /// The wakers that `event` hands out to be fired.
    pub open spec fn fires(self, event: DriverEvent<W>) -> Seq<W> {
        match event {
            DriverEvent::Advance(_, expired) => released(expired, self.wakers),
            _ => Seq::empty(),
        }
    }

    /// The driver after all of `events`.
    pub open spec fn run(self, events: Seq<DriverEvent<W>>) -> Self
        decreases events.len(),
    {
        if events.len() == 0 {
            self
        } else {
            self.run(events.drop_last()).after(events.last())
        }
    }

    /// Whether `events` can happen one after the other.
    pub open spec fn can_run(self, events: Seq<DriverEvent<W>>) -> bool
        decreases events.len(),
    {
        events.len() > 0 ==> self.can_run(events.drop_last()) && self.run(
            events.drop_last(),
        ).enabled(events.last())
    }

    /// The ids of the registrations that `events` release, in order.
    pub open spec fn all_releases(self, events: Seq<DriverEvent<W>>) -> Seq<EntryId>
        decreases events.len(),
    {
        if events.len() == 0 {
            Seq::empty()
        } else {
            self.all_releases(events.drop_last()) + self.run(events.drop_last()).releases(
                events.last(),
            )
        }
    }

    /// The wakers that `events` hand out to be fired, in order.
    pub open spec fn all_fires(self, events: Seq<DriverEvent<W>>) -> Seq<W>
        decreases events.len(),
    {
        if events.len() == 0 {
            Seq::empty()
        } else {
            self.all_fires(events.drop_last()) + self.run(events.drop_last()).fires(events.last())
        }
    }
}

/// Timer state of one runtime: the wheel, and the waker of each live registration.
pub struct Driver<W> {
    wheel: Wheel,
    wakers: HashMap<EntryId, W>,
    next_id: EntryId,
    epoch: Instant,
}

impl<W> Driver<W> {
    pub closed spec fn wf(&self) -> bool {
        self.wheel.wf()
    }

    /// The timers in the wheel, cancelled ones included.
    pub closed spec fn pending(&self) -> Multiset<Entry> {
        self.wheel@
    }

    /// The last tick the driver has advanced to.
    pub closed spec fn cursor(&self) -> u64 {
        self.wheel.cursor()
    }

    /// The wakers of the registrations that are neither fired nor cancelled.
    pub closed spec fn wakers(&self) -> Map<EntryId, W> {
        self.wakers@
    }

    /// The id that the next registration gets.
    pub closed spec fn next_id(&self) -> EntryId {
        self.next_id
    }

    /// The point in time of tick zero.
    pub closed spec fn epoch(&self) -> Instant {
        self.epoch
    }

    /// What the driver holds.
    pub open spec fn view(&self) -> DriverView<W> {
        DriverView {
            pending: self.pending(),
            wakers: self.wakers(),
            cursor: self.cursor(),
            next_id: self.next_id(),
            epoch: self.epoch(),
        }
    }

    /// Every timer in the wheel is due after the last tick the driver has advanced to.
    pub proof fn law_pending_is_ahead(&self)
        requires
            self.wf(),
        ensures
            forall|e: Entry| #[trigger] self.pending().count(e) > 0 ==> e.deadline > self.cursor(),
    {
        self.wheel.law_pending_is_ahead();
    }

    /// Create a driver with no timers whose tick zero is at `epoch`.
    pub fn new(epoch: Instant) -> (driver: Self)
        ensures
            driver.wf(),
            driver@ == DriverView::<W>::initial(epoch),
    {
        Driver { wheel: Wheel::new(), wakers: HashMap::new(), next_id: 0, epoch }
    }

    /// Number of timers in the wheel, cancelled ones included.
    pub fn len(&self) -> (n: usize)
        requires
            self.wf(),
        ensures
            n == self.pending().len(),
    {
        self.wheel.len()
    }

    /// Register `waker` to fire at `deadline`.
    ///
    /// If the deadline has passed already, `waker` is handed back for the caller to fire. On
    /// success the caller wakes the reactor, so that its next timeout takes the new deadline
    /// into account.
    pub fn register(&mut self, deadline: Instant, waker: W) -> (registered: Result<EntryId, W>)
        requires
            old(self).wf(),
            old(self).pending().len() < usize::MAX,
        ensures
            final(self).wf(),
            final(self)@ == old(self)@.registered(deadline, waker),
            registered == if old(self)@.is_past(deadline) {
                Err::<EntryId, W>(waker)
            } else {
                Ok::<EntryId, W>(old(self).next_id())
            },
    {
        let tick = instant_to_tick_ceil(self.epoch, deadline);
        let id = self.next_id;
        self.next_id = self.next_id.wrapping_add(1);
        match self.wheel.insert(Entry { id, deadline: tick }) {
            Ok(_) => {
                self.wakers.insert(id, waker);
                Ok(id)
            },
            Err(_) => Err(waker),
        }
    }

    /// Drop the waker of `id` without firing it. Does nothing if it has fired or been cancelled.
    pub fn cancel(&mut self, id: EntryId)
        requires
            old(self).wf(),
        ensures
            final(self).wf(),
            final(self)@ == old(self)@.after(DriverEvent::Cancel(id)),
    {
        self.wakers.remove(&id);
    }

    /// Earliest deadline in the wheel, or `None` if the wheel is empty.
    pub fn next_deadline(&self) -> (next: Option<Instant>)
        requires
            self.wf(),
            self.epoch()@ + u64::MAX * TICK_NS <= u128::MAX,
        ensures
            match next {
                None => self.pending() == Multiset::<Entry>::empty(),
                Some(at) => exists|e: Entry| #[trigger]
                    self.pending().count(e) > 0 && at@ == self.epoch()@ + e.deadline * TICK_NS
                        && forall|o: Entry| #[trigger]
                        self.pending().count(o) > 0 ==> e.deadline <= o.deadline,
            },
    {
        match self.wheel.next_tick() {
            None => None,
            Some(tick) => {
                proof {
                    let e = choose|e: Entry| #[trigger]
                        self.wheel@.count(e) > 0 && e.deadline == tick;
                    assert(self.pending().count(e) > 0);
                }
                assert(tick * TICK_NS <= u64::MAX * TICK_NS) by (nonlinear_arith)
                    requires
                        tick <= u64::MAX,
                ;
                Some(tick_to_instant(self.epoch, tick))
            },
        }
    }

    /// Advance to `now` and return the waker of every live registration due by then, earliest
    /// deadline first, for the caller to fire.
    pub fn advance(&mut self, now: Instant) -> (fired: Vec<W>)
        requires
            old(self).wf(),
        ensures
            final(self).wf(),
            final(self)@ == old(self)@.advanced(now),
            exists|expired: Seq<Entry>| #[trigger]
                lists_due(expired, old(self).pending(), tick_floor(old(self).epoch(), now)) && fired@
                    == released(expired, old(self).wakers()),
    {
        let tick = instant_to_tick_floor(self.epoch, now);
        let drained = self.wheel.advance_to(tick);
        let mut fired: Vec<W> = Vec::new();
        let mut i: usize = 0;
        proof {
            assert(drained@.skip(0) =~= drained@);
            assert(fired@ + released(drained@, self.wakers@) =~= released(
                drained@,
                old(self).wakers@,
            ));
        }
        while i < drained.len()
            invariant
                i <= drained@.len(),
                fired@ + released(drained@.skip(i as int), self.wakers@) == released(
                    drained@,
                    old(self).wakers@,
                ),
                self.wheel.wf(),
                self.wheel.cursor() == if tick > old(self).wheel.cursor() {
                    tick
                } else {
                    old(self).wheel.cursor()
                },
                self.wheel@ == wheel::after(old(self).wheel@, tick),
                self.epoch == old(self).epoch,
                self.next_id == old(self).next_id,
                forall|id: EntryId| #[trigger]
                    self.wakers@.contains_key(id) <==> old(self).wakers@.contains_key(id) && !exists|
                        n: int,
                    |
                        0 <= n < i && (#[trigger] drained@[n]).id == id,
                forall|id: EntryId| #[trigger]
                    self.wakers@.contains_key(id) ==> self.wakers@[id] == old(self).wakers@[id],
            decreases drained@.len() - i,
        {
            let id = drained[i].id;
            let ghost wakers0 = self.wakers@;
            let ghost fired0 = fired@;
            match self.wakers.remove(&id) {
                Some(w) => {
                    fired.push(w);
                },
                None => {},
            }
            proof {
                let rest = drained@.skip(i as int);
                assert(rest.skip(1) =~= drained@.skip(i + 1));
                assert(rest[0] == drained@[i as int]);
                if wakers0.contains_key(id) {
                    assert(fired@ =~= fired0 + seq![wakers0[id]]);
                    assert(fired@ + released(drained@.skip(i + 1), self.wakers@) =~= fired0
                        + released(rest, wakers0));
                } else {
                    assert(self.wakers@ =~= wakers0);
                }
                assert forall|k: EntryId| #[trigger]
                    self.wakers@.contains_key(k) <==> old(self).wakers@.contains_key(k) && !exists|
                        n: int,
                    |
                        0 <= n < i + 1 && (#[trigger] drained@[n]).id == k by {
                    if k == id {
                        assert(drained@[i as int].id == k);
                    }
                }
            }
            i += 1;
        }
        proof {
            assert(drained@.skip(i as int) =~= Seq::empty());
            assert(fired@ =~= released(drained@, old(self).wakers@));
            assert(lists_due(drained@, old(self).pending(), tick_floor(old(self).epoch(), now)));
            assert(fired@ == released(drained@, old(self).wakers()));
            assert forall|id: EntryId| #[trigger]
                self.wakers@.contains_key(id) <==> old(self).wakers@.contains_key(id) && !due(
                    old(self).pending(),
                    tick,
                    id,
                ) by {
                lemma_due(drained@, old(self).pending(), tick, id);
            }
        }
        fired
    }

    /// Drop every registration without firing it.
    pub fn clear(&mut self)
        requires
            old(self).wf(),
        ensures
            final(self).wf(),
            final(self)@ == old(self)@.after(DriverEvent::Clear),
    {
        self.wheel.clear();
        self.wakers.clear();
    }
}

pub(crate) proof fn lemma_due(expired: Seq<Entry>, pending: Multiset<Entry>, tick: u64, id: EntryId)
    requires
        lists_due(expired, pending, tick),
    ensures
        due(pending, tick, id) <==> exists|n: int|
            0 <= n < expired.len() && (#[trigger] expired[n]).id == id,
{
    broadcast use vstd::seq_lib::group_to_multiset_ensures;

    let bag = expired.to_multiset();
    if due(pending, tick, id) {
        let e = choose|e: Entry| #[trigger]
            pending.count(e) > 0 && e.deadline <= tick && e.id == id;
        assert(bag.count(e) > 0);
        assert(expired.contains(e));
    }
    if exists|n: int| 0 <= n < expired.len() && (#[trigger] expired[n]).id == id {
        let n = choose|n: int| 0 <= n < expired.len() && (#[trigger] expired[n]).id == id;
        let e = expired[n];
        assert(expired.contains(e));
        assert(bag.count(e) > 0);
        assert(pending.count(e) > 0);
    }
}

} // verus!
