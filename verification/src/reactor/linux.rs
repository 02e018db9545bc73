//! Linux backend: `epoll` reports which sources are ready, and an `eventfd` wakes the waiting
//! thread.
//!
//! The kernel hands a token back with each event. Token zero is the `eventfd`; every other one is
//! a slab key plus one.

use vstd::prelude::*;

use crate::reactor::slab::{self, Slab, Slot};
use crate::reactor::{self, Direction, Interest, Token};
use crate::sys::linux::epoll::{self, Event};
use crate::time::instant::Duration;

verus! {

/// Token of the `eventfd`.
pub const SELF_WAKE_TOKEN: u64 = 0;

/// What a new registration is known by and watched for.
#[derive(Clone, Copy, Debug, PartialEq, Eq, Structural)]
pub struct Registration {
    pub token: Token,
    /// The `epoll` flags to register with.
    pub events: u32,
}

/// How far [`Sources::dispatch`] got.
#[derive(Clone, Copy, Debug, PartialEq, Eq, Structural)]
pub enum Dispatch {
    /// The next event is a wake-up: the `eventfd` has to be drained, and the events from this
    /// index on dispatched after that.
    Drain(usize),
    /// There are no more events.
    Done,
}

/// The registered sources and who waits for them.
pub struct Sources<W> {
    slots: Slab<Slot<W>>,
}

/// The timeout of a wait in milliseconds, rounded down and as far as it fits; -1 for none.
pub open spec fn wait_ms(timeout: Option<Duration>) -> i32 {
    match timeout {
        None => -1i32,
        Some(d) => if d@ / 1_000_000 <= i32::MAX {
            (d@ / 1_000_000) as i32
        } else {
            i32::MAX
        },
    }
}

/// The timeout of a wait in milliseconds.
pub fn timeout_ms(timeout: Option<Duration>) -> (ms: i32)
    ensures
        ms == wait_ms(timeout),
{
    match timeout {
        None => -1,
        Some(d) => {
            let ms = d.as_millis();
            if ms <= i32::MAX as u128 {
                ms as i32
            } else {
                i32::MAX
            }
        },
    }
}

/// The `epoll` flags for `interest`.
pub open spec fn mask(interest: Interest) -> u32 {
    (if interest.read {
        0x1u32
    } else {
        0
    }) | (if interest.write {
        0x4u32
    } else {
        0
    })
}

/// The waker that waits for `ready` in each direction, the reader first.
pub open spec fn woken<W>(slot: Slot<W>, ready: u32) -> Seq<W> {
    slab::place(slot.read, epoll::lets_read(ready)) + slab::place(
        slot.write,
        epoll::lets_write(ready),
    )
}

/// Everyone who waits for `slot`, the reader first.
pub open spec fn waiting<W>(slot: Slot<W>) -> Seq<W> {
    slab::place(slot.read, true) + slab::place(slot.write, true)
}

/// `slot` after the wakers that wait for `ready` have been taken out.
pub open spec fn relieved<W>(slot: Slot<W>, ready: u32) -> Slot<W> {
    Slot {
        read: if epoll::lets_read(ready) {
            None
        } else {
            slot.read
        },
        write: if epoll::lets_write(ready) {
            None
        } else {
            slot.write
        },
    }
}

/// The slots and the wakers taken out of them after `event`. An event for a source that is not
/// registered changes nothing.
pub open spec fn after_event<W>(slots: Map<usize, Slot<W>>, event: Event) -> (
    Map<usize, Slot<W>>,
    Seq<W>,
) {
    match reactor::slot_of(Token(event.token)) {
        Some(key) if slots.contains_key(key) => (
            slots.insert(key, relieved(slots[key], event.ready)),
            woken(slots[key], event.ready),
        ),
        _ => (slots, Seq::empty()),
    }
}

/// The slots and the wakers taken out of them after all of `events`, the wakers in the order of
/// the events.
pub open spec fn after_events<W>(slots: Map<usize, Slot<W>>, events: Seq<Event>) -> (
    Map<usize, Slot<W>>,
    Seq<W>,
)
    decreases events.len(),
{
    if events.len() == 0 {
        (slots, Seq::empty())
    } else {
        let (before, wakers) = after_events(slots, events.drop_last());
        let (after, more) = after_event(before, events.last());
        (after, wakers + more)
    }
}

impl<W> View for Sources<W> {
    type V = Map<usize, Slot<W>>;

    closed spec fn view(&self) -> Map<usize, Slot<W>> {
        self.slots@
    }
}

impl<W> Sources<W> {
    pub closed spec fn wf(&self) -> bool {
        self.slots.wf()
    }

    /// Number of slots, free ones included.
    pub closed spec fn size(&self) -> nat {
        self.slots.size()
    }

    /// The keys of the free slots, the next one to be used last.
    pub closed spec fn free(&self) -> Seq<usize> {
        self.slots.free()
    }

    /// No sources.
    pub fn new() -> (sources: Self)
        ensures
            sources.wf(),
            sources@ == Map::<usize, Slot<W>>::empty(),
            sources.free() == Seq::<usize>::empty(),
            sources.size() == 0,
    {
        Sources { slots: Slab::new() }
    }

    /// Whether there is no room for another source.
    pub fn is_full(&self) -> (full: bool)
        ensures
            full == (self.size() >= usize::MAX),
    {
        self.slots.is_full()
    }

    /// Take up a source. The caller registers it with `epoll`, and forgets it if that fails.
    pub fn register(&mut self, interest: Interest) -> (registration: Registration)
        requires
            old(self).wf(),
            old(self).size() < usize::MAX,
        ensures
            final(self).wf(),
            registration.events == mask(interest),
            reactor::slot_of(registration.token) matches Some(key) && !old(self)@.contains_key(key)
                && final(self)@ == old(self)@.insert(key, Slot::empty()),
            if old(self).free().len() > 0 {
                &&& registration.token.0 == old(self).free().last() + 1
                &&& final(self).free() == old(self).free().drop_last()
                &&& final(self).size() == old(self).size()
            } else {
                &&& registration.token.0 == old(self).size() + 1
                &&& final(self).free() == old(self).free()
                &&& final(self).size() == old(self).size() + 1
            },
    {
        let mut events: u32 = 0;
        if interest.read {
            events = events | epoll::readable();
        }
        if interest.write {
            events = events | epoll::writable();
        }
        proof {
            assert(0u32 | 0x1u32 == 0x1u32 | 0u32 && 0u32 | 0x1u32 | 0x4u32 == 0x1u32 | 0x4u32)
                by (bit_vector);
            assert(0u32 | 0u32 == 0u32) by (bit_vector);
        }
        let ghost first_free = self.slots.free();
        proof {
            if first_free.len() > 0 {
                self.slots.law_keys_are_used_or_free(first_free.last());
                assert(first_free.contains(first_free.last()));
            }
        }
        let key = self.slots.insert();
        Registration { token: reactor::slot_token(key), events }
    }

    /// Let `waker` wait for the source of `token` in `direction`, in place of whoever waited
    /// before. Does nothing if there is no such source.
    pub fn set_waker(&mut self, token: Token, direction: Direction, waker: W)
        requires
            old(self).wf(),
        ensures
            final(self).wf(),
            final(self).size() == old(self).size(),
            final(self).free() == old(self).free(),
            match reactor::slot_of(token) {
                Some(key) if old(self)@.contains_key(key) => final(self)@ == old(self)@.insert(
                    key,
                    match direction {
                        Direction::Read => Slot { read: Some(waker), ..old(self)@[key] },
                        Direction::Write => Slot { write: Some(waker), ..old(self)@[key] },
                    },
                ),
                _ => final(self)@ == old(self)@,
            },
    {
        let key = match reactor::slot_key(token) {
            None => {
                return;
            },
            Some(key) => key,
        };
        if let Some(slot) = self.slots.get_mut(key) {
            match direction {
                Direction::Read => {
                    slot.read = Some(waker);
                },
                Direction::Write => {
                    slot.write = Some(waker);
                },
            }
        }
    }

    /// Forget the source of `token`, along with whoever waits for it. Does nothing if there is no
    /// such source. The caller has taken it out of `epoll` before, or has failed to put it in.
    pub fn forget(&mut self, token: Token)
        requires
            old(self).wf(),
        ensures
            final(self).wf(),
            final(self).size() == old(self).size(),
            match reactor::slot_of(token) {
                Some(key) => {
                    &&& final(self)@ == old(self)@.remove(key)
                    &&& final(self).free() == if old(self)@.contains_key(key) {
                        old(self).free().push(key)
                    } else {
                        old(self).free()
                    }
                },
                None => final(self)@ == old(self)@ && final(self).free() == old(self).free(),
            },
    {
        if let Some(key) = reactor::slot_key(token) {
            self.slots.remove(key);
        }
    }

    /// Take the wakers that `event` wakes out of their slot and put them on `wakers`.
    fn dispatch_event(&mut self, event: Event, wakers: &mut Vec<W>)
        requires
            old(self).wf(),
            event.token != SELF_WAKE_TOKEN,
        ensures
            final(self).wf(),
            final(self).size() == old(self).size(),
            final(self).free() == old(self).free(),
            final(self)@ == after_event(old(self)@, event).0,
            final(wakers)@ == old(wakers)@ + after_event(old(self)@, event).1,
    {
        let key = match reactor::slot_key(Token(event.token)) {
            None => {
                return;
            },
            Some(key) => key,
        };
        if let Some(slot) = self.slots.get_mut(key) {
            let ghost slot0 = *slot;
            if event.is_readable() {
                if let Some(waker) = slot.read.take() {
                    wakers.push(waker);
                }
            }
            if event.is_writable() {
                if let Some(waker) = slot.write.take() {
                    wakers.push(waker);
                }
            }
            proof {
                assert(wakers@ =~= old(wakers)@ + woken(slot0, event.ready));
                assert(*slot == relieved(slot0, event.ready));
            }
        }
    }

    /// Dispatch `events` from index `from` on, up to the next wake-up. The wakers to fire are put
    /// on `wakers`.
    pub fn dispatch(&mut self, events: &Vec<Event>, from: usize, wakers: &mut Vec<W>) -> (dispatch:
        Dispatch)
        requires
            old(self).wf(),
            from <= events@.len(),
        ensures
            final(self).wf(),
            final(self).size() == old(self).size(),
            final(self).free() == old(self).free(),
            ({
                let end = match dispatch {
                    Dispatch::Drain(next) => next - 1,
                    Dispatch::Done => events@.len() as int,
                };
                &&& from <= end <= events@.len()
                &&& forall|i: int|
                    from <= i < end ==> (#[trigger] events@[i]).token != SELF_WAKE_TOKEN
                &&& dispatch is Drain ==> end < events@.len() && events@[end].token
                    == SELF_WAKE_TOKEN
                &&& final(self)@ == after_events(
                    old(self)@,
                    events@.subrange(from as int, end),
                ).0
                &&& final(wakers)@ == old(wakers)@ + after_events(
                    old(self)@,
                    events@.subrange(from as int, end),
                ).1
            }),
    {
        let mut i = from;
        while i < events.len()
            invariant
                self.wf(),
                self.size() == old(self).size(),
                self.free() == old(self).free(),
                from <= i <= events@.len(),
                forall|j: int| from <= j < i ==> (#[trigger] events@[j]).token != SELF_WAKE_TOKEN,
                self@ == after_events(old(self)@, events@.subrange(from as int, i as int)).0,
                wakers@ == old(wakers)@ + after_events(
                    old(self)@,
                    events@.subrange(from as int, i as int),
                ).1,
            decreases events@.len() - i,
        {
            let event = events[i];
            if event.token == SELF_WAKE_TOKEN {
                return Dispatch::Drain(i + 1);
            }
            self.dispatch_event(event, wakers);
            proof {
                let done = events@.subrange(from as int, i + 1);
                assert(done.drop_last() =~= events@.subrange(from as int, i as int));
                assert(done.last() == event);
            }
            i += 1;
        }
        Dispatch::Done
    }
}

} // verus!
