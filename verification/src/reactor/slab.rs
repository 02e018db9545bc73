//! Slots under stable keys. Freed slots are reused through a list that is threaded through the
//! vacant entries themselves.

use vstd::prelude::*;

verus! {

/// Who waits for one source. The two directions are independent.
#[derive(Debug)]
pub struct Slot<W> {
    pub read: Option<W>,
    pub write: Option<W>,
}

impl<W> Slot<W> {
    /// Nobody waits.
    pub open spec fn empty() -> Self {
        Slot { read: None, write: None }
    }
}

/// The waker at `place`, if `fire`.
pub open spec fn place<W>(place: Option<W>, fire: bool) -> Seq<W> {
    match place {
        Some(waker) if fire => seq![waker],
        _ => Seq::empty(),
    }
}

/// One entry: a slot in use, or a link to the entry that was freed before it.
enum Entry<S> {
    Vacant(Option<usize>),
    Occupied(S),
}

/// Slots of type `S`, with reuse of freed keys, the last freed first.
pub struct Slab<S> {
    entries: Vec<Entry<S>>,
    next_free: Option<usize>,
    free: Ghost<Seq<usize>>,
}

impl<S> View for Slab<S> {
    type V = Map<usize, S>;

    /// The slots in use, by their keys.
    closed spec fn view(&self) -> Map<usize, S> {
        Map::new(
            |key: usize| key < self.entries@.len() && self.entries@[key as int] is Occupied,
            |key: usize| self.entries@[key as int]->Occupied_0,
        )
    }
}

impl<S> Slab<S> {
    /// Number of keys handed out so far: those in use, and those freed.
    pub closed spec fn size(&self) -> nat {
        self.entries@.len()
    }

    /// The freed keys, in the order in which they were freed.
    pub closed spec fn free(&self) -> Seq<usize> {
        self.free@
    }

    /// The key that a link stands for at position `i` of the free list.
    spec fn link(free: Seq<usize>, i: int) -> Option<usize> {
        if i == 0 {
            None
        } else {
            Some(free[i - 1])
        }
    }

    /// The free list runs through exactly the vacant entries, each once.
    pub closed spec fn wf(&self) -> bool {
        &&& self.next_free == Self::link(self.free@, self.free@.len() as int)
        &&& self.free@.no_duplicates()
        &&& forall|i: int|
            0 <= i < self.free@.len() ==> (#[trigger] self.free@[i]) < self.entries@.len()
                && self.entries@[self.free@[i] as int] == Entry::<S>::Vacant(
                Self::link(self.free@, i),
            )
        &&& forall|key: usize|
            key < self.entries@.len() && #[trigger] self.entries@[key as int] is Vacant
                ==> self.free@.contains(key)
    }

    /// Every key handed out is in use or free, and never both.
    pub proof fn law_keys_are_used_or_free(&self, key: usize)
        requires
            self.wf(),
        ensures
            key < self.size() <==> (self@.contains_key(key) || self.free().contains(key)),
            !(self@.contains_key(key) && self.free().contains(key)),
            self.free().no_duplicates(),
    {
        if self.free@.contains(key) {
            let i = choose|i: int| 0 <= i < self.free@.len() && self.free@[i] == key;
            assert(self.free@[i] < self.entries@.len());
        }
        if key < self.entries@.len() && !(self.entries@[key as int] is Occupied) {
            assert(self.entries@[key as int] is Vacant);
        }
    }

    /// No slots.
    pub fn new() -> (slab: Self)
        ensures
            slab.wf(),
            slab@ == Map::<usize, S>::empty(),
            slab.free() == Seq::<usize>::empty(),
            slab.size() == 0,
    {
        let slab = Slab { entries: Vec::new(), next_free: None, free: Ghost(Seq::empty()) };
        proof {
            assert(slab@ =~= Map::empty());
        }
        slab
    }

    /// Whether every key there is has been handed out.
    pub fn is_full(&self) -> (full: bool)
        ensures
            full == (self.size() >= usize::MAX),
    {
        self.entries.len() == usize::MAX
    }

    /// Store `slot` and return its key: the last one freed if there is any, else a new one.
    pub fn insert_slot(&mut self, slot: S) -> (key: usize)
        requires
            old(self).wf(),
        ensures
            final(self).wf(),
            !old(self)@.contains_key(key),
            final(self)@ == old(self)@.insert(key, slot),
            if old(self).free().len() > 0 {
                &&& key == old(self).free().last()
                &&& final(self).free() == old(self).free().drop_last()
                &&& final(self).size() == old(self).size()
            } else {
                &&& key == old(self).size()
                &&& final(self).free() == old(self).free()
                &&& final(self).size() == old(self).size() + 1
            },
    {
        match self.next_free {
            None => {
                let key = self.entries.len();
                self.entries.push(Entry::Occupied(slot));
                proof {
                    assert(self@ =~= old(self)@.insert(key, slot));
                    assert forall|k: usize|
                        k < self.entries@.len() && #[trigger] self.entries@[k as int]
                            is Vacant implies self.free@.contains(k) by {
                        assert(k < old(self).entries@.len());
                        assert(old(self).entries@[k as int] is Vacant);
                    }
                }
                key
            },
            Some(key) => {
                let ghost last = self.free@.len() - 1;
                proof {
                    assert(self.free@[last] == key);
                }
                let next = match self.entries[key] {
                    Entry::Vacant(next) => next,
                    Entry::Occupied(_) => None,
                };
                self.next_free = next;
                self.entries[key] = Entry::Occupied(slot);
                proof {
                    let free0 = self.free@;
                    self.free@ = free0.drop_last();
                    assert(self@ =~= old(self)@.insert(key, slot));
                    assert forall|i: int| 0 <= i < self.free@.len() implies (
                    #[trigger] self.free@[i]) < self.entries@.len()
                        && self.entries@[self.free@[i] as int] == Entry::<S>::Vacant(
                        Self::link(self.free@, i),
                    ) by {
                        assert(free0[i] != free0[last]);
                        assert(old(self).free@[i] < old(self).entries@.len());
                    }
                    assert forall|k: usize|
                        k < self.entries@.len() && #[trigger] self.entries@[k as int]
                            is Vacant implies self.free@.contains(k) by {
                        assert(old(self).entries@[k as int] is Vacant);
                        let i = choose|i: int| 0 <= i < free0.len() && free0[i] == k;
                        assert(self.free@[i] == k);
                    }
                    if free0.len() > 1 {
                        assert(Self::link(free0, last) == Some(free0[last - 1]));
                    }
                }
                key
            },
        }
    }

    /// Free the slot at `key`. Does nothing if `key` is not in use.
    pub fn remove(&mut self, key: usize)
        requires
            old(self).wf(),
        ensures
            final(self).wf(),
            final(self)@ == old(self)@.remove(key),
            final(self).size() == old(self).size(),
            final(self).free() == if old(self)@.contains_key(key) {
                old(self).free().push(key)
            } else {
                old(self).free()
            },
    {
        if key >= self.entries.len() {
            assert(self@ =~= old(self)@.remove(key));
            return;
        }
        if let Entry::Vacant(_) = self.entries[key] {
            assert(self@ =~= old(self)@.remove(key));
            return;
        }
        self.entries[key] = Entry::Vacant(self.next_free);
        self.next_free = Some(key);
        proof {
            let free0 = self.free@;
            assert forall|i: int| 0 <= i < free0.len() implies free0[i] != key by {
                assert(old(self).free@[i] < old(self).entries@.len());
            }
            self.free@ = free0.push(key);
            assert(self@ =~= old(self)@.remove(key));
            assert forall|k: usize|
                k < self.entries@.len() && #[trigger] self.entries@[k as int]
                    is Vacant implies self.free@.contains(k) by {
                if k == key {
                    assert(self.free@[free0.len() as int] == key);
                } else {
                    assert(old(self).entries@[k as int] is Vacant);
                    let i = choose|i: int| 0 <= i < free0.len() && free0[i] == k;
                    assert(self.free@[i] == k);
                }
            }
        }
    }

    /// The slot at `key`, if it is in use.
    pub fn get_mut(&mut self, key: usize) -> (slot: Option<&mut S>)
        requires
            old(self).wf(),
        ensures
            match slot {
                Some(slot) => {
                    &&& old(self)@.contains_key(key)
                    &&& *slot == old(self)@[key]
                    &&& final(self)@ == old(self)@.insert(key, *final(slot))
                },
                None => !old(self)@.contains_key(key) && final(self)@ == old(self)@,
            },
            final(self).wf(),
            final(self).size() == old(self).size(),
            final(self).free() == old(self).free(),
    {
        if key >= self.entries.len() {
            return None;
        }
        match &mut self.entries[key] {
            Entry::Occupied(slot) => Some(slot),
            Entry::Vacant(_) => None,
        }
    }
}

impl<W> Slab<Slot<W>> {
    /// Store a slot for which nobody waits and return its key: the last one freed if there is
    /// any, else a new one.
    pub fn insert(&mut self) -> (key: usize)
        requires
            old(self).wf(),
        ensures
            final(self).wf(),
            !old(self)@.contains_key(key),
            final(self)@ == old(self)@.insert(key, Slot::empty()),
            if old(self).free().len() > 0 {
                &&& key == old(self).free().last()
                &&& final(self).free() == old(self).free().drop_last()
                &&& final(self).size() == old(self).size()
            } else {
                &&& key == old(self).size()
                &&& final(self).free() == old(self).free()
                &&& final(self).size() == old(self).size() + 1
            },
    {
        self.insert_slot(Slot { read: None, write: None })
    }
}

} // verus!
