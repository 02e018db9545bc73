//! Hierarchical timer wheel: six levels of sixty-four slots each.
//!
//! A slot of level `k` covers `64^k` ticks. A timer goes to the lowest level on which its deadline
//! is less than a full turn away, into the slot of its deadline. When the cursor reaches the start
//! of a slot of a higher level, the timers in that slot are spread over the levels below, from the
//! top down, so that every timer is in the slot of its deadline on the lowest level when its tick
//! comes.

use vstd::multiset::Multiset;
use vstd::prelude::*;

verus! {

/// Number of levels in the wheel.
pub const LEVELS: usize = 6;

/// Number of slots on each level.
pub const SLOTS_PER_LEVEL: usize = 64;

/// Base-two logarithm of the number of slots on a level.
pub const LEVEL_BITS: u64 = 6;

/// Mask that selects a slot index from a shifted tick.
pub const SLOT_MASK: u64 = 63;

/// Number of ticks the wheel can look ahead, `64^6`.
pub const MAX_TICKS: u64 = 0x10_0000_0000;

/// One timer: the caller's id and the absolute tick at which it is due.
#[derive(Clone, Copy, Debug, PartialEq, Eq, Structural)]
pub struct Entry {
    pub id: u64,
    pub deadline: u64,
}

/// Ticks covered by one slot of level `k`, that is `64^k`.
spec fn period(k: int) -> int {
    if k <= 0 {
        1
    } else if k == 1 {
        64
    } else if k == 2 {
        4096
    } else if k == 3 {
        262144
    } else if k == 4 {
        16777216
    } else {
        1073741824
    }
}

/// Whole slots of level `k` before tick `tick`, that is `tick / 64^k`.
spec fn units(tick: u64, k: int) -> int {
    if k <= 0 {
        tick as int
    } else if k == 1 {
        tick as int / 64
    } else if k == 2 {
        tick as int / 4096
    } else if k == 3 {
        tick as int / 262144
    } else if k == 4 {
        tick as int / 16777216
    } else {
        tick as int / 1073741824
    }
}

/// Whether a slot of level `k` starts at tick `tick`.
spec fn aligned(tick: u64, k: int) -> bool {
    units(tick, k) * period(k) == tick
}

/// The level that holds a timer due `delta` ticks from now.
spec fn level_of(delta: int) -> int {
    if delta < 64 {
        0
    } else if delta < 4096 {
        1
    } else if delta < 262144 {
        2
    } else if delta < 16777216 {
        3
    } else if delta < 1073741824 {
        4
    } else {
        5
    }
}

/// The slot of level `k` that a timer due at tick `deadline` belongs to.
spec fn slot_of(deadline: u64, k: int) -> int {
    units(deadline, k) % 64
}

/// The latest tick the wheel can represent when its cursor is at `cursor`.
pub open spec fn horizon(cursor: u64) -> u64 {
    if cursor + MAX_TICKS - 1 > u64::MAX {
        u64::MAX
    } else {
        (cursor + MAX_TICKS - 1) as u64
    }
}

/// The entry the wheel keeps for `entry`: deadlines past the horizon move to the horizon.
pub open spec fn clamped(entry: Entry, cursor: u64) -> Entry {
    if entry.deadline > horizon(cursor) {
        Entry { id: entry.id, deadline: horizon(cursor) }
    } else {
        entry
    }
}

/// The timers of `bag` that are due by `tick`.
pub open spec fn due_by(bag: Multiset<Entry>, tick: u64) -> Multiset<Entry> {
    bag.filter(|e: Entry| e.deadline <= tick)
}

/// The timers of `bag` that are due after `tick`.
pub open spec fn after(bag: Multiset<Entry>, tick: u64) -> Multiset<Entry> {
    bag.filter(|e: Entry| e.deadline > tick)
}

/// `next` is the earliest tick at which a timer of `bag` is due, and `None` if there is none.
pub open spec fn is_next_tick(bag: Multiset<Entry>, next: Option<u64>) -> bool {
    match next {
        None => bag == Multiset::<Entry>::empty(),
        Some(t) => {
            &&& exists|e: Entry| #[trigger] bag.count(e) > 0 && e.deadline == t
            &&& forall|e: Entry| #[trigger] bag.count(e) > 0 ==> t <= e.deadline
        },
    }
}

spec fn bit(x: u64, i: int) -> bool {
    x & (1u64 << (i as u64)) != 0
}

proof fn lemma_bits(x: u64, s: u64)
    requires
        s < 64,
    ensures
        forall|i: int| 0 <= i < 64 ==> #[trigger] bit(x | (1u64 << s), i) == (i == s || bit(x, i)),
        forall|i: int| 0 <= i < 64 ==> #[trigger] bit(x & !(1u64 << s), i) == (i != s && bit(x, i)),
{
    assert forall|i: int| 0 <= i < 64 implies #[trigger] bit(x | (1u64 << s), i) == (i == s || bit(
        x,
        i,
    )) by {
        let j = i as u64;
        assert(((x | (1u64 << s)) & (1u64 << j) != 0) == (j == s || x & (1u64 << j) != 0))
            by (bit_vector)
            requires
                j < 64,
                s < 64,
        ;
    }
    assert forall|i: int| 0 <= i < 64 implies #[trigger] bit(x & !(1u64 << s), i) == (i != s && bit(
        x,
        i,
    )) by {
        let j = i as u64;
        assert(((x & !(1u64 << s)) & (1u64 << j) != 0) == (j != s && x & (1u64 << j) != 0))
            by (bit_vector)
            requires
                j < 64,
                s < 64,
        ;
    }
}

/// All entries of a sequence of slots, as a bag.
spec fn slots_bag(slots: Seq<Vec<Entry>>) -> Multiset<Entry>
    decreases slots.len(),
{
    if slots.len() == 0 {
        Multiset::empty()
    } else {
        slots_bag(slots.drop_last()).add(slots.last()@.to_multiset())
    }
}

proof fn lemma_slots_bag_update(slots: Seq<Vec<Entry>>, i: int, v: Vec<Entry>)
    requires
        0 <= i < slots.len(),
    ensures
        slots_bag(slots.update(i, v)).add(slots[i]@.to_multiset()) =~= slots_bag(slots).add(
            v@.to_multiset(),
        ),
    decreases slots.len(),
{
    let new = slots.update(i, v);
    if i == slots.len() - 1 {
        assert(new.drop_last() =~= slots.drop_last());
    } else {
        assert(new.drop_last() =~= slots.drop_last().update(i, v));
        assert(slots.drop_last()[i] == slots[i]);
        lemma_slots_bag_update(slots.drop_last(), i, v);
        assert(new.last() == slots.last());
        let a = slots_bag(new.drop_last());
        let b = slots_bag(slots.drop_last());
        assert forall|e: Entry|
            slots_bag(new).add(slots[i]@.to_multiset()).count(e) == slots_bag(slots).add(
                v@.to_multiset(),
            ).count(e) by {
            assert(a.add(slots[i]@.to_multiset()).count(e) == b.add(v@.to_multiset()).count(e));
        }
    }
}

proof fn lemma_slots_bag_has(slots: Seq<Vec<Entry>>, e: Entry)
    requires
        slots_bag(slots).count(e) > 0,
    ensures
        exists|s: int, i: int|
            0 <= s < slots.len() && 0 <= i < slots[s]@.len() && (#[trigger] slots[s]@[i]) == e,
    decreases slots.len(),
{
    if slots.len() > 0 {
        broadcast use vstd::seq_lib::group_to_multiset_ensures;
        let last = slots.last()@;
        if last.to_multiset().count(e) > 0 {
            assert(last.contains(e));
            let i = choose|i: int| 0 <= i < last.len() && last[i] == e;
            assert(slots[slots.len() - 1]@[i] == e);
        } else {
            lemma_slots_bag_has(slots.drop_last(), e);
            let (s, i) = choose|s: int, i: int|
                0 <= s < slots.drop_last().len() && 0 <= i < slots.drop_last()[s]@.len() && (
                #[trigger] slots.drop_last()[s]@[i]) == e;
            assert(slots[s]@[i] == e);
        }
    }
}

proof fn lemma_slots_bag_empty(slots: Seq<Vec<Entry>>)
    requires
        forall|s: int| 0 <= s < slots.len() ==> (#[trigger] slots[s])@.len() == 0,
    ensures
        slots_bag(slots) =~= Multiset::empty(),
    decreases slots.len(),
{
    if slots.len() > 0 {
        broadcast use vstd::seq_lib::group_to_multiset_ensures;
        lemma_slots_bag_empty(slots.drop_last());
        assert(slots.last()@ =~= Seq::empty());
    }
}

struct Level {
    slots: Vec<Vec<Entry>>,
    occupied: u64,
}

impl Level {
    spec fn wf(&self) -> bool {
        &&& self.slots@.len() == SLOTS_PER_LEVEL
        &&& forall|i: int|
            0 <= i < SLOTS_PER_LEVEL ==> (#[trigger] bit(self.occupied, i) <==> self.slots@[i]@.len()
                > 0)
    }

    spec fn bag(&self) -> Multiset<Entry> {
        slots_bag(self.slots@)
    }

    fn new() -> (level: Self)
        ensures
            level.wf(),
            level.bag() == Multiset::<Entry>::empty(),
            forall|s: int| 0 <= s < SLOTS_PER_LEVEL ==> (#[trigger] level.slots@[s])@.len() == 0,
    {
        let mut slots: Vec<Vec<Entry>> = Vec::new();
        let mut i: usize = 0;
        while i < SLOTS_PER_LEVEL
            invariant
                i <= SLOTS_PER_LEVEL,
                slots@.len() == i,
                forall|s: int| 0 <= s < i ==> (#[trigger] slots@[s])@.len() == 0,
            decreases SLOTS_PER_LEVEL - i,
        {
            slots.push(Vec::new());
            i += 1;
        }
        proof {
            lemma_slots_bag_empty(slots@);
            assert forall|i: int| 0 <= i < 64 implies !#[trigger] bit(0, i) by {
                let j = i as u64;
                assert(0u64 & (1u64 << j) == 0) by (bit_vector);
            }
        }
        Level { slots, occupied: 0 }
    }

    fn insert(&mut self, slot: usize, entry: Entry)
        requires
            old(self).wf(),
            slot < SLOTS_PER_LEVEL,
        ensures
            final(self).wf(),
            final(self).slots@.len() == old(self).slots@.len(),
            final(self).slots@[slot as int]@ == old(self).slots@[slot as int]@.push(entry),
            forall|s: int|
                0 <= s < SLOTS_PER_LEVEL && s != slot ==> #[trigger] final(self).slots@[s] == old(
                    self).slots@[s],
            final(self).bag() == old(self).bag().insert(entry),
    {
        self.slots[slot].push(entry);
        proof {
            broadcast use vstd::seq_lib::group_to_multiset_ensures;
            let v = self.slots@[slot as int];
            assert(self.slots@ =~= old(self).slots@.update(slot as int, v));
            lemma_slots_bag_update(old(self).slots@, slot as int, v);
            let was = old(self).slots@[slot as int]@;
            assert(v@.to_multiset() =~= was.to_multiset().insert(entry));
            assert forall|e: Entry|
                self.bag().count(e) == old(self).bag().insert(entry).count(e) by {
                assert(self.bag().add(was.to_multiset()).count(e) == old(self).bag().add(
                    v@.to_multiset(),
                ).count(e));
            }
            assert(self.bag() =~= old(self).bag().insert(entry));
            lemma_bits(self.occupied, slot as u64);
        }
        self.occupied = self.occupied | (1u64 << slot);
    }

    fn drain_slot(&mut self, slot: usize) -> (drained: Vec<Entry>)
        requires
            old(self).wf(),
            slot < SLOTS_PER_LEVEL,
        ensures
            final(self).wf(),
            drained@ == old(self).slots@[slot as int]@,
            final(self).slots@.len() == old(self).slots@.len(),
            final(self).slots@[slot as int]@.len() == 0,
            forall|s: int|
                0 <= s < SLOTS_PER_LEVEL && s != slot ==> #[trigger] final(self).slots@[s] == old(
                    self).slots@[s],
            old(self).bag() == final(self).bag().add(drained@.to_multiset()),
    {
        let mut drained: Vec<Entry> = Vec::new();
        core::mem::swap(&mut drained, &mut self.slots[slot]);
        proof {
            broadcast use vstd::seq_lib::group_to_multiset_ensures;
            let v = self.slots@[slot as int];
            assert(self.slots@ =~= old(self).slots@.update(slot as int, v));
            lemma_slots_bag_update(old(self).slots@, slot as int, v);
            assert(v@ =~= Seq::empty());
            assert(old(self).bag() =~= self.bag().add(drained@.to_multiset()));
            lemma_bits(self.occupied, slot as u64);
        }
        self.occupied = self.occupied & !(1u64 << slot);
        drained
    }
}

/// All entries of a sequence of levels, as a bag.
spec fn levels_bag(levels: Seq<Level>) -> Multiset<Entry>
    decreases levels.len(),
{
    if levels.len() == 0 {
        Multiset::empty()
    } else {
        levels_bag(levels.drop_last()).add(levels.last().bag())
    }
}

proof fn lemma_levels_bag_update(levels: Seq<Level>, k: int, v: Level)
    requires
        0 <= k < levels.len(),
    ensures
        levels_bag(levels.update(k, v)).add(levels[k].bag()) =~= levels_bag(levels).add(v.bag()),
    decreases levels.len(),
{
    let new = levels.update(k, v);
    if k == levels.len() - 1 {
        assert(new.drop_last() =~= levels.drop_last());
    } else {
        assert(new.drop_last() =~= levels.drop_last().update(k, v));
        assert(levels.drop_last()[k] == levels[k]);
        lemma_levels_bag_update(levels.drop_last(), k, v);
        assert(new.last() == levels.last());
        let a = levels_bag(new.drop_last());
        let b = levels_bag(levels.drop_last());
        assert forall|e: Entry|
            levels_bag(new).add(levels[k].bag()).count(e) == levels_bag(levels).add(v.bag()).count(
                e,
            ) by {
            assert(a.add(levels[k].bag()).count(e) == b.add(v.bag()).count(e));
        }
    }
}

proof fn lemma_levels_bag_has(levels: Seq<Level>, e: Entry)
    requires
        levels_bag(levels).count(e) > 0,
    ensures
        exists|k: int, s: int, i: int|
            0 <= k < levels.len() && 0 <= s < levels[k].slots@.len() && 0 <= i
                < levels[k].slots@[s]@.len() && (#[trigger] levels[k].slots@[s]@[i]) == e,
    decreases levels.len(),
{
    if levels.len() > 0 {
        if levels.last().bag().count(e) > 0 {
            lemma_slots_bag_has(levels.last().slots@, e);
            let (s, i) = choose|s: int, i: int|
                0 <= s < levels.last().slots@.len() && 0 <= i < levels.last().slots@[s]@.len() && (
                #[trigger] levels.last().slots@[s]@[i]) == e;
            assert(levels[levels.len() - 1].slots@[s]@[i] == e);
        } else {
            lemma_levels_bag_has(levels.drop_last(), e);
            let (k, s, i) = choose|k: int, s: int, i: int|
                0 <= k < levels.drop_last().len() && 0 <= s < levels.drop_last()[k].slots@.len()
                    && 0 <= i < levels.drop_last()[k].slots@[s]@.len() && (
                #[trigger] levels.drop_last()[k].slots@[s]@[i]) == e;
            assert(levels[k].slots@[s]@[i] == e);
        }
    }
}

proof fn lemma_levels_bag_empty(levels: Seq<Level>)
    requires
        forall|k: int|
            0 <= k < levels.len() ==> (#[trigger] levels[k]).bag() == Multiset::<Entry>::empty(),
    ensures
        levels_bag(levels) =~= Multiset::empty(),
    decreases levels.len(),
{
    if levels.len() > 0 {
        lemma_levels_bag_empty(levels.drop_last());
        assert(levels[levels.len() - 1].bag() == Multiset::<Entry>::empty());
    }
}

/// Where a pending timer sits: the slot of its deadline, between one and sixty-four slots
/// ahead of the cursor.
spec fn placed(k: int, s: int, deadline: u64, cursor: u64) -> bool {
    let b = units(deadline, k);
    let c = units(cursor, k);
    &&& c < b <= c + 64
    &&& s == b % 64
}

/// Where a timer may sit on a level whose current slot is about to be emptied.
spec fn turning(k: int, s: int, deadline: u64, cursor: u64) -> bool {
    let b = units(deadline, k);
    let c = units(cursor, k);
    &&& c <= b < c + 64
    &&& s == b % 64
}

proof fn lemma_place(deadline: u64, cursor: u64)
    requires
        cursor < deadline < cursor + MAX_TICKS,
    ensures
        ({
            let k = level_of(deadline - cursor);
            &&& placed(k, slot_of(deadline, k), deadline, cursor)
            &&& 0 <= slot_of(deadline, k) < SLOTS_PER_LEVEL
            &&& aligned(cursor, k + 1) && k < 5 ==> turning(
                k,
                slot_of(deadline, k),
                deadline,
                cursor,
            )
        }),
{
    let c = cursor as int;
    let d = deadline as int;
    let delta = d - c;
    if delta < 64 {
    } else if delta < 4096 {
        assert(c / 64 < d / 64 <= c / 64 + 64);
    } else if delta < 262144 {
        assert(c / 4096 < d / 4096 <= c / 4096 + 64);
    } else if delta < 16777216 {
        assert(c / 262144 < d / 262144 <= c / 262144 + 64);
    } else if delta < 1073741824 {
        assert(c / 16777216 < d / 16777216 <= c / 16777216 + 64);
    } else {
        assert(c / 1073741824 < d / 1073741824 <= c / 1073741824 + 64);
    }
}

proof fn lemma_step(k: int, s: int, deadline: u64, cursor: u64)
    requires
        0 <= k < LEVELS,
        cursor < u64::MAX,
        placed(k, s, deadline, cursor),
    ensures
        aligned((cursor + 1) as u64, k) ==> turning(k, s, deadline, (cursor + 1) as u64),
        !aligned((cursor + 1) as u64, k) ==> placed(k, s, deadline, (cursor + 1) as u64),
{
}

proof fn lemma_turned(k: int, s: int, deadline: u64, cursor: u64)
    requires
        0 <= k < LEVELS,
        turning(k, s, deadline, cursor),
    ensures
        s != slot_of(cursor, k) ==> placed(k, s, deadline, cursor),
        s == slot_of(cursor, k) && aligned(cursor, k) ==> cursor <= deadline < cursor + period(k),
{
}

proof fn lemma_placed_later(k: int, s: int, deadline: u64, cursor: u64)
    requires
        0 <= k < LEVELS,
        placed(k, s, deadline, cursor),
    ensures
        cursor < deadline,
{
}

/// A slot boundary of a level is a slot boundary of every level below it.
proof fn lemma_aligned_below(cursor: u64, j: int, k: int)
    requires
        0 <= j <= k < LEVELS,
        aligned(cursor, k),
    ensures
        aligned(cursor, j),
    decreases k - j,
{
    if j < k {
        let u = units(cursor, k);
        if k == 1 {
        } else if k == 2 {
            assert(cursor as int / 64 == 64 * u);
        } else if k == 3 {
            assert(cursor as int / 4096 == 64 * u);
        } else if k == 4 {
            assert(cursor as int / 262144 == 64 * u);
        } else {
            assert(cursor as int / 16777216 == 64 * u);
        }
        lemma_aligned_below(cursor, j, k - 1);
    }
}

/// Whether `min` holds a tick no later than `deadline`.
spec fn at_most(min: Option<u64>, deadline: u64) -> bool {
    match min {
        Some(m) => m <= deadline,
        None => false,
    }
}

/// A hierarchical timer wheel: six levels of sixty-four slots.
pub struct Wheel {
    levels: Vec<Level>,
    cursor: u64,
    count: usize,
}

impl Wheel {
    spec fn at(&self, k: int, s: int) -> Seq<Entry> {
        self.levels@[k].slots@[s]@
    }

    spec fn bag(&self) -> Multiset<Entry> {
        levels_bag(self.levels@)
    }

    spec fn shape(&self) -> bool {
        &&& self.levels@.len() == LEVELS
        &&& forall|k: int| 0 <= k < LEVELS ==> (#[trigger] self.levels@[k]).wf()
        &&& self.count == self.bag().len()
    }

    spec fn level_placed(&self, k: int) -> bool {
        forall|s: int, i: int|
            0 <= s < SLOTS_PER_LEVEL && 0 <= i < self.at(k, s).len() ==> placed(
                k,
                s,
                (#[trigger] self.at(k, s)[i]).deadline,
                self.cursor,
            )
    }

    spec fn level_turning(&self, k: int) -> bool {
        forall|s: int, i: int|
            0 <= s < SLOTS_PER_LEVEL && 0 <= i < self.at(k, s).len() ==> turning(
                k,
                s,
                (#[trigger] self.at(k, s)[i]).deadline,
                self.cursor,
            )
    }

    /// The tick up to which the wheel has advanced.
    pub closed spec fn cursor(&self) -> u64 {
        self.cursor
    }

    /// The pending timers, with the deadlines at which they will fire.
    pub closed spec fn view(&self) -> Multiset<Entry> {
        self.bag()
    }

    pub closed spec fn wf(&self) -> bool {
        &&& self.shape()
        &&& forall|k: int| 0 <= k < LEVELS ==> #[trigger] self.level_placed(k)
    }

    /// Create an empty wheel at tick zero.
    pub fn new() -> (wheel: Self)
        ensures
            wheel.wf(),
            wheel@ == Multiset::<Entry>::empty(),
            wheel.cursor() == 0,
    {
        let mut levels: Vec<Level> = Vec::new();
        let mut i: usize = 0;
        while i < LEVELS
            invariant
                i <= LEVELS,
                levels@.len() == i,
                forall|k: int|
                    #![trigger levels@[k]]
                    0 <= k < i ==> levels@[k].wf() && levels@[k].bag() == Multiset::<Entry>::empty()
                        && forall|s: int|
                        0 <= s < SLOTS_PER_LEVEL ==> (#[trigger] levels@[k].slots@[s])@.len() == 0,
            decreases LEVELS - i,
        {
            levels.push(Level::new());
            i += 1;
        }
        proof {
            lemma_levels_bag_empty(levels@);
        }
        Wheel { levels, cursor: 0, count: 0 }
    }

    /// Number of pending timers.
    pub fn len(&self) -> (n: usize)
        requires
            self.wf(),
        ensures
            n == self@.len(),
    {
        self.count
    }

    /// Put `entry` into its slot, or hand it back if it is already due.
    fn place(&mut self, entry: Entry) -> (placed: Result<(), Entry>)
        requires
            old(self).shape(),
            old(self).bag().len() < usize::MAX,
        ensures
            final(self).shape(),
            final(self).cursor == old(self).cursor,
            entry.deadline <= old(self).cursor ==> placed == Err::<(), Entry>(entry) && *final(self)
                == *old(self),
            entry.deadline > old(self).cursor ==> {
                let e = clamped(entry, old(self).cursor);
                let k = level_of(e.deadline - old(self).cursor);
                let s = slot_of(e.deadline, k);
                &&& placed == Ok::<(), Entry>(())
                &&& final(self).at(k, s) == old(self).at(k, s).push(e)
                &&& forall|j: int, t: int|
                    0 <= j < LEVELS && 0 <= t < SLOTS_PER_LEVEL && !(j == k && t == s)
                        ==> #[trigger] final(self).at(j, t) == old(self).at(j, t)
                &&& final(self).bag() == old(self).bag().insert(e)
            },
    {
        if entry.deadline <= self.cursor {
            return Err(entry);
        }
        let mut entry = entry;
        let max_deadline = self.cursor.saturating_add(MAX_TICKS - 1);
        if entry.deadline > max_deadline {
            entry.deadline = max_deadline;
        }
        let delta = entry.deadline - self.cursor;
        let k = level_for(delta);
        let slot = slot_index(entry.deadline, k);
        self.levels[k].insert(slot, entry);
        self.count += 1;
        proof {
            let v = self.levels@[k as int];
            assert(self.levels@ =~= old(self).levels@.update(k as int, v));
            lemma_levels_bag_update(old(self).levels@, k as int, v);
            assert forall|e: Entry|
                self.bag().count(e) == old(self).bag().insert(entry).count(e) by {
                assert(self.bag().add(old(self).levels@[k as int].bag()).count(e) == old(
                    self).bag().add(v.bag()).count(e));
            }
            assert(self.bag() =~= old(self).bag().insert(entry));
        }
        Ok(())
    }

    /// Insert `entry`, or hand it back if its deadline is not ahead of the cursor.
    ///
    /// A deadline past the horizon is moved to the horizon.
    pub fn insert(&mut self, entry: Entry) -> (inserted: Result<(), Entry>)
        requires
            old(self).wf(),
            old(self)@.len() < usize::MAX,
        ensures
            final(self).wf(),
            final(self).cursor() == old(self).cursor(),
            entry.deadline <= old(self).cursor() ==> inserted == Err::<(), Entry>(entry) && final(
                self)@ == old(self)@,
            entry.deadline > old(self).cursor() ==> inserted == Ok::<(), Entry>(()) && final(self)@
                == old(self)@.insert(clamped(entry, old(self).cursor())),
    {
        let inserted = self.place(entry);
        proof {
            if entry.deadline > old(self).cursor {
                let e = clamped(entry, old(self).cursor);
                let k = level_of(e.deadline - old(self).cursor);
                let s = slot_of(e.deadline, k);
                lemma_place(e.deadline, self.cursor);
                assert forall|j: int| 0 <= j < LEVELS implies #[trigger] self.level_placed(j) by {
                    assert(old(self).level_placed(j));
                    assert forall|t: int, i: int|
                        0 <= t < SLOTS_PER_LEVEL && 0 <= i < self.at(j, t).len() implies placed(
                        j,
                        t,
                        (#[trigger] self.at(j, t)[i]).deadline,
                        self.cursor,
                    ) by {
                        if j == k && t == s {
                            if i < old(self).at(j, t).len() {
                                assert(self.at(j, t)[i] == old(self).at(j, t)[i]);
                            }
                        } else {
                            assert(self.at(j, t) == old(self).at(j, t));
                            assert(self.at(j, t)[i] == old(self).at(j, t)[i]);
                        }
                    }
                }
            }
        }
        inserted
    }

    proof fn lemma_level_kept(&self, new: &Self, j: int)
        requires
            self.cursor == new.cursor,
            forall|t: int| 0 <= t < SLOTS_PER_LEVEL ==> #[trigger] new.at(j, t) == self.at(j, t),
        ensures
            self.level_placed(j) ==> new.level_placed(j),
            self.level_turning(j) ==> new.level_turning(j),
    {
        assert forall|t: int, i: int|
            0 <= t < SLOTS_PER_LEVEL && 0 <= i < new.at(j, t).len() implies (
        #[trigger] new.at(j, t)[i]) == self.at(j, t)[i] by {
            assert(new.at(j, t) == self.at(j, t));
        }
    }

    /// Every pending timer is due after the cursor.
    pub proof fn law_pending_is_ahead(&self)
        requires
            self.wf(),
        ensures
            forall|e: Entry| #[trigger] self@.count(e) > 0 ==> e.deadline > self.cursor(),
    {
        assert forall|e: Entry| #[trigger] self@.count(e) > 0 implies e.deadline
            > self.cursor() by {
            lemma_levels_bag_has(self.levels@, e);
            let (k, s, i) = choose|k: int, s: int, i: int|
                0 <= k < self.levels@.len() && 0 <= s < self.levels@[k].slots@.len() && 0 <= i
                    < self.levels@[k].slots@[s]@.len() && (
                #[trigger] self.levels@[k].slots@[s]@[i]) == e;
            assert(self.levels@[k].wf());
            assert(self.level_placed(k));
            assert(self.at(k, s)[i] == e);
            lemma_placed_later(k, s, e.deadline, self.cursor);
        }
    }

    /// The state between two ticks: levels from `k` up have been turned, those below have not.
    spec fn settling(&self, k: int) -> bool {
        &&& self.shape()
        &&& forall|j: int| k <= j < LEVELS ==> #[trigger] self.level_placed(j)
        &&& forall|j: int|
            0 <= j < k && !aligned(self.cursor, j) ==> #[trigger] self.level_placed(j)
        &&& forall|j: int|
            0 <= j < k && aligned(self.cursor, j) ==> #[trigger] self.level_turning(j)
    }

    /// Empty the current slot of level `k`.
    fn turn(&mut self, k: usize) -> (drained: Vec<Entry>)
        requires
            k < LEVELS,
            old(self).settling(k + 1),
            aligned(old(self).cursor, k as int),
        ensures
            final(self).settling(k as int),
            final(self).cursor == old(self).cursor,
            old(self).bag() == final(self).bag().add(drained@.to_multiset()),
            old(self).count == final(self).count + drained@.len(),
            forall|i: int|
                0 <= i < drained@.len() ==> old(self).cursor <= (#[trigger] drained@[i]).deadline
                    < old(self).cursor + period(k as int),
    {
        let slot = slot_index(self.cursor, k);
        let drained = self.levels[k].drain_slot(slot);
        proof {
            broadcast use vstd::seq_lib::group_to_multiset_ensures;

            let v = self.levels@[k as int];
            assert(self.levels@ =~= old(self).levels@.update(k as int, v));
            lemma_levels_bag_update(old(self).levels@, k as int, v);
            assert forall|e: Entry|
                old(self).bag().count(e) == self.bag().add(drained@.to_multiset()).count(e) by {
                assert(self.bag().add(old(self).levels@[k as int].bag()).count(e) == old(
                    self).bag().add(v.bag()).count(e));
            }
            assert(old(self).bag() =~= self.bag().add(drained@.to_multiset()));
        }
        self.count = self.count - drained.len();
        proof {
            assert(old(self).level_turning(k as int));
            assert forall|i: int| 0 <= i < drained@.len() implies old(self).cursor <= (
            #[trigger] drained@[i]).deadline < old(self).cursor + period(k as int) by {
                assert(drained@[i] == old(self).at(k as int, slot as int)[i]);
                lemma_turned(k as int, slot as int, drained@[i].deadline, self.cursor);
            }
            assert(self.level_placed(k as int)) by {
                assert forall|t: int, i: int|
                    0 <= t < SLOTS_PER_LEVEL && 0 <= i < self.at(k as int, t).len() implies placed(
                    k as int,
                    t,
                    (#[trigger] self.at(k as int, t)[i]).deadline,
                    self.cursor,
                ) by {
                    assert(self.at(k as int, t)[i] == old(self).at(k as int, t)[i]);
                    lemma_turned(k as int, t, self.at(k as int, t)[i].deadline, self.cursor);
                }
            }
            assert forall|j: int| 0 <= j < LEVELS && j != k implies (
            #[trigger] old(self).level_placed(j) ==> self.level_placed(j)) && (old(
                self).level_turning(j) ==> self.level_turning(j)) by {
                assert(self.levels@[j] == old(self).levels@[j]);
                old(self).lemma_level_kept(self, j);
            }
            assert forall|j: int| k <= j < LEVELS implies #[trigger] self.level_placed(j) by {
                assert(j != k ==> old(self).level_placed(j));
            }
            assert forall|j: int| 0 <= j < k && !aligned(self.cursor, j) implies
                #[trigger] self.level_placed(j) by {
                assert(old(self).level_placed(j));
            }
            assert forall|j: int| 0 <= j < k && aligned(self.cursor, j) implies
                #[trigger] self.level_turning(j) by {
                assert(self.levels@[j] == old(self).levels@[j]);
                old(self).lemma_level_kept(self, j);
            }
        }
        drained
    }

    /// Put `entry`, which has left level `k`, on the level below that it now belongs to.
    fn lower(&mut self, k: usize, entry: Entry) -> (lowered: Result<(), Entry>)
        requires
            1 <= k < LEVELS,
            old(self).settling(k as int),
            aligned(old(self).cursor, k as int),
            old(self).bag().len() < usize::MAX,
            old(self).cursor <= entry.deadline < old(self).cursor + period(k as int),
        ensures
            final(self).settling(k as int),
            final(self).cursor == old(self).cursor,
            entry.deadline == old(self).cursor ==> lowered == Err::<(), Entry>(entry)
                && final(self).bag() == old(self).bag(),
            entry.deadline > old(self).cursor ==> lowered == Ok::<(), Entry>(())
                && final(self).bag() == old(self).bag().insert(entry),
    {
        let lowered = self.place(entry);
        proof {
            if entry.deadline > old(self).cursor {
                assert(clamped(entry, old(self).cursor) == entry);
                let j = level_of(entry.deadline - old(self).cursor);
                let s = slot_of(entry.deadline, j);
                assert(j < k);
                lemma_place(entry.deadline, self.cursor);
                lemma_aligned_below(self.cursor, j, k as int);
                lemma_aligned_below(self.cursor, j + 1, k as int);
                assert(old(self).level_turning(j));
                assert forall|t: int, i: int|
                    0 <= t < SLOTS_PER_LEVEL && 0 <= i < self.at(j, t).len() implies turning(
                    j,
                    t,
                    (#[trigger] self.at(j, t)[i]).deadline,
                    self.cursor,
                ) by {
                    if t == s {
                        if i < old(self).at(j, t).len() {
                            assert(self.at(j, t)[i] == old(self).at(j, t)[i]);
                        }
                    } else {
                        assert(self.at(j, t) == old(self).at(j, t));
                        assert(self.at(j, t)[i] == old(self).at(j, t)[i]);
                    }
                }
                assert(self.level_turning(j));
                assert forall|l: int| k <= l < LEVELS implies #[trigger] self.level_placed(l) by {
                    assert(old(self).level_placed(l));
                    old(self).lemma_level_kept(self, l);
                }
                assert forall|l: int| 0 <= l < k && !aligned(self.cursor, l) implies
                    #[trigger] self.level_placed(l) by {
                    lemma_aligned_below(self.cursor, l, k as int);
                }
                assert forall|l: int| 0 <= l < k && aligned(self.cursor, l) implies
                    #[trigger] self.level_turning(l) by {
                    if l != j {
                        assert(old(self).level_turning(l));
                        old(self).lemma_level_kept(self, l);
                    }
                }
            }
        }
        lowered
    }

    /// Turn level `k`: its current slot is emptied, and what is not due now moves down.
    fn cascade(&mut self, k: usize, expired: &mut Vec<Entry>)
        requires
            1 <= k < LEVELS,
            old(self).settling(k + 1),
            aligned(old(self).cursor, k as int),
            old(self).bag().len() + old(expired)@.len() <= usize::MAX,
        ensures
            final(self).settling(k as int),
            final(self).cursor == old(self).cursor,
            old(expired)@.is_prefix_of(final(expired)@),
            forall|i: int|
                old(expired)@.len() <= i < final(expired)@.len() ==> (
                #[trigger] final(expired)@[i]).deadline == old(self).cursor,
            final(self).bag().add(final(expired)@.to_multiset()) == old(self).bag().add(
                old(expired)@.to_multiset(),
            ),
            final(self).bag().len() + final(expired)@.len() == old(self).bag().len()
                + old(expired)@.len(),
    {
        let drained = self.turn(k);
        let ghost total = old(self).bag().add(old(expired)@.to_multiset());
        let mut i: usize = 0;
        proof {
            assert(drained@.skip(0) =~= drained@);
            assert(self.bag().add(drained@.skip(0).to_multiset()).add(expired@.to_multiset())
                =~= total);
        }
        while i < drained.len()
            invariant
                1 <= k < LEVELS,
                i <= drained@.len(),
                self.settling(k as int),
                self.cursor == old(self).cursor,
                aligned(self.cursor, k as int),
                forall|n: int|
                    0 <= n < drained@.len() ==> self.cursor <= (#[trigger] drained@[n]).deadline
                        < self.cursor + period(k as int),
                old(expired)@.is_prefix_of(expired@),
                forall|n: int|
                    old(expired)@.len() <= n < expired@.len() ==> (#[trigger] expired@[n]).deadline
                        == self.cursor,
                self.bag().add(drained@.skip(i as int).to_multiset()).add(expired@.to_multiset())
                    == total,
                self.bag().len() + (drained@.len() - i) + expired@.len() == old(self).bag().len()
                    + old(expired)@.len(),
                old(self).bag().len() + old(expired)@.len() <= usize::MAX,
            decreases drained@.len() - i,
        {
            let entry = drained[i];
            let ghost bag0 = self.bag();
            let ghost expired0 = expired@;
            let lowered = self.lower(k, entry);
            match lowered {
                Ok(_) => {},
                Err(e) => {
                    expired.push(e);
                },
            }
            proof {
                broadcast use vstd::seq_lib::group_to_multiset_ensures;

                let rest = drained@.skip(i as int);
                let rest1 = drained@.skip(i + 1);
                assert(rest =~= seq![entry] + rest1);
                vstd::seq_lib::lemma_multiset_commutative(seq![entry], rest1);
                assert(seq![entry] =~= Seq::<Entry>::empty().push(entry));
                assert forall|e: Entry|
                    self.bag().add(rest1.to_multiset()).add(expired@.to_multiset()).count(e)
                        == total.count(e) by {
                    assert(bag0.add(rest.to_multiset()).add(expired0.to_multiset()).count(e)
                        == total.count(e));
                }
                assert(self.bag().add(rest1.to_multiset()).add(expired@.to_multiset()) =~= total);
            }
            i += 1;
        }
        proof {
            broadcast use vstd::seq_lib::group_to_multiset_ensures;

            assert(drained@.skip(i as int) =~= Seq::empty());
            assert(self.bag().add(expired@.to_multiset()) =~= total);
        }
    }

    /// What one tick does to a level that has not been touched.
    proof fn lemma_tick(&self, new: &Self, j: int)
        requires
            0 <= j < LEVELS,
            self.wf(),
            self.cursor < u64::MAX,
            new.levels == self.levels,
            new.cursor == self.cursor + 1,
        ensures
            aligned(new.cursor, j) ==> new.level_turning(j),
            !aligned(new.cursor, j) ==> new.level_placed(j),
    {
        assert(self.level_placed(j));
        assert forall|t: int, i: int|
            0 <= t < SLOTS_PER_LEVEL && 0 <= i < new.at(j, t).len() implies if aligned(
            new.cursor,
            j,
        ) {
            turning(j, t, (#[trigger] new.at(j, t)[i]).deadline, new.cursor)
        } else {
            placed(j, t, new.at(j, t)[i].deadline, new.cursor)
        } by {
            assert(new.at(j, t)[i] == self.at(j, t)[i]);
            lemma_step(j, t, new.at(j, t)[i].deadline, self.cursor);
        }
    }

    /// Advance the cursor by one tick.
    ///
    /// Levels turn from the top down, so that what moves down from a level is in place before
    /// the level below it turns.
    fn advance_one(&mut self, expired: &mut Vec<Entry>)
        requires
            old(self).wf(),
            old(self).cursor < u64::MAX,
            old(self).bag().len() + old(expired)@.len() <= usize::MAX,
        ensures
            final(self).wf(),
            final(self).cursor == old(self).cursor + 1,
            old(expired)@.is_prefix_of(final(expired)@),
            forall|i: int|
                old(expired)@.len() <= i < final(expired)@.len() ==> (
                #[trigger] final(expired)@[i]).deadline == final(self).cursor,
            final(self).bag().add(final(expired)@.to_multiset()) == old(self).bag().add(
                old(expired)@.to_multiset(),
            ),
            final(self).bag().len() + final(expired)@.len() == old(self).bag().len()
                + old(expired)@.len(),
    {
        self.cursor += 1;
        proof {
            assert forall|j: int| 0 <= j < LEVELS && !aligned(self.cursor, j) implies
                #[trigger] self.level_placed(j) by {
                old(self).lemma_tick(self, j);
            }
            assert forall|j: int| 0 <= j < LEVELS && aligned(self.cursor, j) implies
                #[trigger] self.level_turning(j) by {
                old(self).lemma_tick(self, j);
            }
            assert(self.settling(LEVELS as int));
        }
        let mut k: usize = LEVELS;
        while k > 1
            invariant
                1 <= k <= LEVELS,
                self.settling(k as int),
                self.cursor == old(self).cursor + 1,
                old(expired)@.is_prefix_of(expired@),
                forall|i: int|
                    old(expired)@.len() <= i < expired@.len() ==> (#[trigger] expired@[i]).deadline
                        == self.cursor,
                self.bag().add(expired@.to_multiset()) == old(self).bag().add(
                    old(expired)@.to_multiset(),
                ),
                self.bag().len() + expired@.len() == old(self).bag().len() + old(expired)@.len(),
                old(self).bag().len() + old(expired)@.len() <= usize::MAX,
            decreases k,
        {
            k -= 1;
            if is_aligned(self.cursor, k) {
                let ghost expired0 = expired@;
                self.cascade(k, expired);
                proof {
                    assert forall|i: int| old(expired)@.len() <= i < expired@.len() implies (
                    #[trigger] expired@[i]).deadline == self.cursor by {
                        if i < expired0.len() {
                            assert(expired@[i] == expired0[i]);
                        }
                    }
                }
            }
        }
        let mut due = self.turn(0);
        let ghost expired1 = expired@;
        let ghost due1 = due@;
        expired.append(&mut due);
        proof {
            vstd::seq_lib::lemma_multiset_commutative(expired1, due1);
            assert(expired@ =~= expired1 + due1);
            assert(self.bag().add(expired@.to_multiset()) =~= old(self).bag().add(
                old(expired)@.to_multiset(),
            ));
        }
    }

    /// Advance the cursor to `now` and return every timer due by then, earliest first.
    pub fn advance_to(&mut self, now: u64) -> (expired: Vec<Entry>)
        requires
            old(self).wf(),
        ensures
            final(self).wf(),
            final(self).cursor() == if now > old(self).cursor() { now } else { old(self).cursor() },
            expired@.to_multiset() == due_by(old(self)@, now),
            final(self)@ == after(old(self)@, now),
            forall|i: int, j: int|
                0 <= i <= j < expired@.len() ==> (#[trigger] expired@[i]).deadline <= (
                #[trigger] expired@[j]).deadline,
            forall|i: int|
                0 <= i < expired@.len() ==> old(self).cursor() < (#[trigger] expired@[i]).deadline
                    <= now,
            now <= old(self).cursor() ==> expired@.len() == 0 && *final(self) == *old(self),
    {
        let mut expired: Vec<Entry> = Vec::new();
        proof {
            broadcast use vstd::seq_lib::group_to_multiset_ensures;

            old(self).law_pending_is_ahead();
            assert(self.bag().add(expired@.to_multiset()) =~= old(self).bag());
        }
        if now <= self.cursor {
            proof {
                lemma_split(old(self)@, self@, expired@, now);
            }
            return expired;
        }
        while self.cursor < now && self.count > 0
            invariant
                self.wf(),
                old(self).cursor <= self.cursor <= now,
                self.bag().add(expired@.to_multiset()) == old(self).bag(),
                self.bag().len() + expired@.len() == old(self).bag().len(),
                old(self).bag().len() <= usize::MAX,
                forall|i: int|
                    0 <= i < expired@.len() ==> (#[trigger] expired@[i]).deadline <= self.cursor,
                forall|i: int, j: int|
                    0 <= i <= j < expired@.len() ==> (#[trigger] expired@[i]).deadline <= (
                    #[trigger] expired@[j]).deadline,
            decreases now - self.cursor,
        {
            let ghost expired0 = expired@;
            self.advance_one(&mut expired);
            proof {
                assert forall|i: int, j: int| 0 <= i <= j < expired@.len() implies (
                #[trigger] expired@[i]).deadline <= (#[trigger] expired@[j]).deadline by {
                    if i < expired0.len() {
                        assert(expired@[i] == expired0[i]);
                    }
                    if j < expired0.len() {
                        assert(expired@[j] == expired0[j]);
                    }
                }
                assert forall|i: int| 0 <= i < expired@.len() implies (
                #[trigger] expired@[i]).deadline <= self.cursor by {
                    if i < expired0.len() {
                        assert(expired@[i] == expired0[i]);
                    }
                }
            }
        }
        proof {
            self.law_pending_is_ahead();
        }
        if self.cursor < now {
            // Nothing is pending: skip straight to the target.
            self.cursor = now;
            proof {
                self.lemma_no_entries();
                assert(self.wf());
            }
        }
        proof {
            lemma_split(old(self)@, self@, expired@, now);
            old(self).law_pending_is_ahead();
            assert forall|i: int| 0 <= i < expired@.len() implies old(self).cursor() < (
            #[trigger] expired@[i]).deadline <= now by {
                lemma_listed(expired@, old(self)@, now, i);
            }
        }
        expired
    }

    /// A wheel with no pending timers is well-formed at any tick.
    proof fn lemma_no_entries(&self)
        requires
            self.shape(),
            self.count == 0,
        ensures
            forall|k: int| 0 <= k < LEVELS ==> #[trigger] self.level_placed(k),
    {
        assert forall|k: int| 0 <= k < LEVELS implies #[trigger] self.level_placed(k) by {
            assert forall|s: int, i: int|
                0 <= s < SLOTS_PER_LEVEL && 0 <= i < self.at(k, s).len() implies placed(
                k,
                s,
                (#[trigger] self.at(k, s)[i]).deadline,
                self.cursor,
            ) by {
                lemma_levels_bag_holds(self.levels@, k, s, i);
            }
        }
    }

    /// Earliest pending deadline, or `None` if nothing is pending.
    pub fn next_tick(&self) -> (next: Option<u64>)
        requires
            self.wf(),
        ensures
            is_next_tick(self@, next),
            next matches Some(t) ==> t > self.cursor(),
    {
        if self.count == 0 {
            proof {
                assert(self.bag() =~= Multiset::empty());
            }
            return None;
        }
        let mut min: Option<u64> = None;
        let mut k: usize = 0;
        while k < LEVELS
            invariant
                self.wf(),
                self.count > 0,
                k <= LEVELS,
                self.seen(min, k as int, 0, 0),
            decreases LEVELS - k,
        {
            if self.levels[k].occupied != 0 {
                let mut s: usize = 0;
                while s < SLOTS_PER_LEVEL
                    invariant
                        self.wf(),
                        self.count > 0,
                        k < LEVELS,
                        s <= SLOTS_PER_LEVEL,
                        self.seen(min, k as int, s as int, 0),
                    decreases SLOTS_PER_LEVEL - s,
                {
                    assert(self.levels@[k as int].wf());
                    let mut i: usize = 0;
                    while i < self.levels[k].slots[s].len()
                        invariant
                            self.wf(),
                            self.count > 0,
                            k < LEVELS,
                            s < SLOTS_PER_LEVEL,
                            self.levels@[k as int].wf(),
                            i <= self.at(k as int, s as int).len(),
                            self.seen(min, k as int, s as int, i as int),
                        decreases self.at(k as int, s as int).len() - i,
                    {
                        let deadline = self.levels[k].slots[s][i].deadline;
                        assert(self.at(k as int, s as int)[i as int].deadline == deadline);
                        min = match min {
                            None => Some(deadline),
                            Some(m) => if deadline < m {
                                Some(deadline)
                            } else {
                                Some(m)
                            },
                        };
                        i += 1;
                    }
                    assert(self.seen(min, k as int, s + 1, 0));
                    s += 1;
                }
            } else {
                proof {
                    let level = self.levels@[k as int];
                    assert(level.wf());
                    assert forall|s: int| 0 <= s < SLOTS_PER_LEVEL implies (
                    #[trigger] self.at(k as int, s)).len() == 0 by {
                        let j = s as u64;
                        assert(0u64 & (1u64 << j) == 0) by (bit_vector);
                        assert(!bit(level.occupied, s));
                    }
                }
            }
            assert(self.seen(min, k + 1, 0, 0));
            k += 1;
        }
        proof {
            self.lemma_seen_all(min);
            self.law_pending_is_ahead();
        }
        min
    }

    /// `min` is the least deadline among the entries that come before entry `i` of slot `s` of
    /// level `k`.
    spec fn seen(&self, min: Option<u64>, k: int, s: int, i: int) -> bool {
        &&& forall|l: int, t: int, n: int|
            0 <= l < LEVELS && 0 <= t < SLOTS_PER_LEVEL && 0 <= n < self.at(l, t).len() && (l < k
                || l == k && (t < s || t == s && n < i)) ==> at_most(
                min,
                (#[trigger] self.at(l, t)[n]).deadline,
            )
        &&& min is Some ==> exists|l: int, t: int, n: int|
            0 <= l < LEVELS && 0 <= t < SLOTS_PER_LEVEL && 0 <= n < self.at(l, t).len()
                && min->0 == (#[trigger] self.at(l, t)[n]).deadline
    }

    proof fn lemma_seen_all(&self, min: Option<u64>)
        requires
            self.wf(),
            self.count > 0,
            self.seen(min, LEVELS as int, 0, 0),
        ensures
            min is Some,
            exists|e: Entry| #[trigger] self@.count(e) > 0 && e.deadline == min->0,
            forall|e: Entry| #[trigger] self@.count(e) > 0 ==> min->0 <= e.deadline,
    {
        assert forall|e: Entry| #[trigger] self.bag().count(e) > 0 implies at_most(
            min,
            e.deadline,
        ) by {
            lemma_levels_bag_has(self.levels@, e);
            let (k, s, i) = choose|k: int, s: int, i: int|
                0 <= k < self.levels@.len() && 0 <= s < self.levels@[k].slots@.len() && 0 <= i
                    < self.levels@[k].slots@[s]@.len() && (
                #[trigger] self.levels@[k].slots@[s]@[i]) == e;
            assert(self.levels@[k].wf());
            assert(self.at(k, s)[i] == e);
        }
        let some = self.bag().choose();
        assert(self.bag().count(some) > 0);
        assert(at_most(min, some.deadline));
        let (k, s, i) = choose|k: int, s: int, i: int|
            0 <= k < LEVELS && 0 <= s < SLOTS_PER_LEVEL && 0 <= i < self.at(k, s).len() && min->0
                == (#[trigger] self.at(k, s)[i]).deadline;
        assert(self.levels@[k].wf());
        lemma_levels_bag_holds(self.levels@, k, s, i);
        assert(self@.count(self.at(k, s)[i]) > 0);
    }

    /// Drop every pending timer without firing it.
    pub fn clear(&mut self)
        requires
            old(self).wf(),
        ensures
            final(self).wf(),
            final(self)@ == Multiset::<Entry>::empty(),
            final(self).cursor() == old(self).cursor(),
    {
        let cursor = self.cursor;
        *self = Wheel::new();
        self.cursor = cursor;
        proof {
            self.lemma_no_entries();
        }
    }
}

/// Entries that were taken out are those due by `now` if none of them is later and none of the
/// rest is earlier.
proof fn lemma_split(all: Multiset<Entry>, rest: Multiset<Entry>, taken: Seq<Entry>, now: u64)
    requires
        rest.add(taken.to_multiset()) == all,
        forall|i: int| 0 <= i < taken.len() ==> (#[trigger] taken[i]).deadline <= now,
        forall|e: Entry| #[trigger] rest.count(e) > 0 ==> e.deadline > now,
    ensures
        taken.to_multiset() == due_by(all, now),
        rest == after(all, now),
{
    broadcast use vstd::seq_lib::group_to_multiset_ensures;

    let t = taken.to_multiset();
    assert forall|e: Entry| #[trigger] t.count(e) > 0 implies e.deadline <= now by {
        assert(taken.contains(e));
    }
    assert(t =~= due_by(all, now));
    assert(rest =~= after(all, now));
}

/// What a list of the timers due by `now` holds is pending and due.
proof fn lemma_listed(expired: Seq<Entry>, all: Multiset<Entry>, now: u64, i: int)
    requires
        expired.to_multiset() == due_by(all, now),
        0 <= i < expired.len(),
    ensures
        all.count(expired[i]) > 0,
        expired[i].deadline <= now,
{
    broadcast use vstd::seq_lib::group_to_multiset_ensures;

    assert(expired.contains(expired[i]));
    assert(expired.to_multiset().count(expired[i]) > 0);
}

proof fn lemma_slots_bag_holds(slots: Seq<Vec<Entry>>, s: int, i: int)
    requires
        0 <= s < slots.len(),
        0 <= i < slots[s]@.len(),
    ensures
        slots_bag(slots).count(slots[s]@[i]) > 0,
    decreases slots.len(),
{
    broadcast use vstd::seq_lib::group_to_multiset_ensures;

    if s == slots.len() - 1 {
        assert(slots.last()@.contains(slots[s]@[i]));
    } else {
        lemma_slots_bag_holds(slots.drop_last(), s, i);
    }
}

proof fn lemma_levels_bag_holds(levels: Seq<Level>, k: int, s: int, i: int)
    requires
        0 <= k < levels.len(),
        0 <= s < levels[k].slots@.len(),
        0 <= i < levels[k].slots@[s]@.len(),
    ensures
        levels_bag(levels).count(levels[k].slots@[s]@[i]) > 0,
        levels_bag(levels).len() > 0,
    decreases levels.len(),
{
    if k == levels.len() - 1 {
        lemma_slots_bag_holds(levels[k].slots@, s, i);
    } else {
        lemma_levels_bag_holds(levels.drop_last(), k, s, i);
    }
    let e = levels[k].slots@[s]@[i];
    let bag = levels_bag(levels);
    assert(bag =~= bag.remove(e).insert(e));
}

/// Whether a slot of level `k` starts at tick `tick`.
fn is_aligned(tick: u64, k: usize) -> (b: bool)
    requires
        k < LEVELS,
    ensures
        b == aligned(tick, k as int),
{
    let period = 1u64 << (LEVEL_BITS * k as u64);
    proof {
        assert(1u64 << 0u64 == 1) by (bit_vector);
        assert(1u64 << 6u64 == 64) by (bit_vector);
        assert(1u64 << 12u64 == 4096) by (bit_vector);
        assert(1u64 << 18u64 == 262144) by (bit_vector);
        assert(1u64 << 24u64 == 16777216) by (bit_vector);
        assert(1u64 << 30u64 == 1073741824) by (bit_vector);
        assert(k == 0 || k == 1 || k == 2 || k == 3 || k == 4 || k == 5);
        assert(period == self::period(k as int));
    }
    tick % period == 0
}

/// Level for a timer due `delta` ticks from now.
fn level_for(delta: u64) -> (k: usize)
    ensures
        k == level_of(delta as int),
        k < LEVELS,
{
    if delta < 64 {
        0
    } else if delta < 4096 {
        1
    } else if delta < 262144 {
        2
    } else if delta < 16777216 {
        3
    } else if delta < 1073741824 {
        4
    } else {
        5
    }
}

/// Slot of level `k` for tick `tick`.
fn slot_index(tick: u64, k: usize) -> (slot: usize)
    requires
        k < LEVELS,
    ensures
        slot == slot_of(tick, k as int),
        slot < SLOTS_PER_LEVEL,
{
    let shifted = tick >> (LEVEL_BITS * k as u64);
    proof {
        assert(tick >> 0u64 == tick) by (bit_vector);
        assert(tick >> 6u64 == tick / 64) by (bit_vector);
        assert(tick >> 12u64 == tick / 4096) by (bit_vector);
        assert(tick >> 18u64 == tick / 262144) by (bit_vector);
        assert(tick >> 24u64 == tick / 16777216) by (bit_vector);
        assert(tick >> 30u64 == tick / 1073741824) by (bit_vector);
        assert(shifted & 63 == shifted % 64) by (bit_vector);
        assert(k == 0 || k == 1 || k == 2 || k == 3 || k == 4 || k == 5);
        assert(shifted as int == units(tick, k as int));
    }
    (shifted & SLOT_MASK) as usize
}

} // verus!
