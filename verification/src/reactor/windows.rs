//! Windows backend: a completion port reports the AFD polls that have come to an end, and a posted
//! completion wakes the waiting thread.
//!
//! A poll ends with its first event, so it is submitted again after every completion. A source
//! that is given up stays in its slot until the completion of its last poll has arrived, because
//! the kernel writes to the memory of that poll until then.

use vstd::prelude::*;

use crate::reactor::slab::{self, Slab};
use crate::reactor::{self, Direction, Interest, Token};
use crate::sys::windows::afd::{AfdPollInfo, READ_EVENTS, WRITE_EVENTS};

verus! {

/// Completion key of wake-ups.
pub const SELF_WAKE_KEY: usize = 0;

/// The poll that watches one source. `K` is the memory that the kernel writes to.
#[derive(Debug)]
pub struct WindowsSlotState<K> {
    /// The request, as it was submitted last.
    pub info: AfdPollInfo,
    /// The events that the source is watched for.
    pub requested_events: u32,
    pub kernel: K,
}

/// One source: who waits for it, and its poll.
#[derive(Debug)]
pub struct WindowsSlot<W, K> {
    pub read: Option<W>,
    pub write: Option<W>,
    /// The source has been given up; its slot is free once its poll has completed.
    pub cancelled: bool,
    pub windows: Option<WindowsSlotState<K>>,
}

impl<W, K> WindowsSlot<W, K> {
    /// Nobody waits, and there is no poll yet.
    pub open spec fn empty() -> Self {
        WindowsSlot { read: None, write: None, cancelled: false, windows: None }
    }
}

/// What a new registration is known by, and the poll to submit for it.
#[derive(Clone, Copy, Debug, PartialEq, Eq, Structural)]
pub struct Registration {
    pub token: Token,
    pub key: usize,
    pub info: AfdPollInfo,
}

/// One completion.
#[derive(Clone, Copy, Debug, PartialEq, Eq, Structural)]
pub enum Completion {
    /// A wake-up was posted.
    Posted,
    /// The poll of the slot at `key` has completed with `events`.
    Poll { key: usize, events: u32 },
}

/// What the registered sources are.
#[verifier::ext_equal]
pub struct SourcesView<W, K> {
    pub slots: Map<usize, WindowsSlot<W, K>>,
    /// The keys of the free slots, the next one to be used last.
    pub free: Seq<usize>,
}

/// What completions come to.
#[verifier::ext_equal]
pub struct Dispatched<W, K> {
    pub sources: SourcesView<W, K>,
    /// The wakers to fire.
    pub wakers: Seq<W>,
    /// The slots whose polls have to be submitted again.
    pub resubmit: Seq<usize>,
}

/// The AFD events for `interest`.
pub open spec fn mask(interest: Interest) -> u32 {
    (if interest.read {
        READ_EVENTS
    } else {
        0
    }) | (if interest.write {
        WRITE_EVENTS
    } else {
        0
    })
}

/// The waker that waits for `events` in each direction, the reader first.
pub open spec fn woken<W, K>(slot: WindowsSlot<W, K>, events: u32) -> Seq<W> {
    slab::place(slot.read, events & READ_EVENTS != 0) + slab::place(
        slot.write,
        events & WRITE_EVENTS != 0,
    )
}

/// `slot` after the wakers that wait for `events` have been taken out.
pub open spec fn relieved<W, K>(slot: WindowsSlot<W, K>, events: u32) -> WindowsSlot<W, K> {
    WindowsSlot {
        read: if events & READ_EVENTS != 0 {
            None
        } else {
            slot.read
        },
        write: if events & WRITE_EVENTS != 0 {
            None
        } else {
            slot.write
        },
        ..slot
    }
}

/// Everyone who waits for `slot`, the reader first.
pub open spec fn waiting<W, K>(slot: WindowsSlot<W, K>) -> Seq<W> {
    slab::place(slot.read, true) + slab::place(slot.write, true)
}

impl<W, K> SourcesView<W, K> {
    /// Free the slot at `key`.
    pub open spec fn freed(self, key: usize) -> Self {
        SourcesView {
            slots: self.slots.remove(key),
            free: if self.slots.contains_key(key) {
                self.free.push(key)
            } else {
                self.free
            },
        }
    }

    /// Replace the slot at `key`.
    pub open spec fn with(self, key: usize, slot: WindowsSlot<W, K>) -> Self {
        SourcesView { slots: self.slots.insert(key, slot), ..self }
    }

    /// What one completion comes to.
    pub open spec fn complete(self, completion: Completion) -> Dispatched<W, K> {
        match completion {
            Completion::Poll { key, events } if self.slots.contains_key(key) => {
                let slot = self.slots[key];
                if slot.cancelled {
                    Dispatched {
                        sources: self.freed(key),
                        wakers: Seq::empty(),
                        resubmit: Seq::empty(),
                    }
                } else if slot.windows is None {
                    Dispatched { sources: self, wakers: Seq::empty(), resubmit: Seq::empty() }
                } else {
                    Dispatched {
                        sources: self.with(key, relieved(slot, events)),
                        wakers: woken(slot, events),
                        resubmit: seq![key],
                    }
                }
            },
            _ => Dispatched { sources: self, wakers: Seq::empty(), resubmit: Seq::empty() },
        }
    }

    /// What several completions come to, one after the other.
    pub open spec fn complete_all(self, completions: Seq<Completion>) -> Dispatched<W, K>
        decreases completions.len(),
    {
        if completions.len() == 0 {
            Dispatched { sources: self, wakers: Seq::empty(), resubmit: Seq::empty() }
        } else {
            let before = self.complete_all(completions.drop_last());
            let last = before.sources.complete(completions.last());
            Dispatched {
                sources: last.sources,
                wakers: before.wakers + last.wakers,
                resubmit: before.resubmit + last.resubmit,
            }
        }
    }

    /// The poll of the slot at `key` as it is submitted again, and the sources with it; a slot
    /// that has been given up meanwhile is freed instead.
    pub open spec fn rearm(self, key: usize) -> (Self, Option<AfdPollInfo>) {
        if !self.slots.contains_key(key) {
            (self, None)
        } else if self.slots[key].cancelled {
            (self.freed(key), None)
        } else {
            match self.slots[key].windows {
                None => (self, None),
                Some(state) => {
                    let info = AfdPollInfo {
                        events: state.requested_events,
                        status: 0,
                        ..state.info
                    };
                    (
                        self.with(
                            key,
                            WindowsSlot {
                                windows: Some(WindowsSlotState { info, ..state }),
                                ..self.slots[key]
                            },
                        ),
                        Some(info),
                    )
                },
            }
        }
    }
}

/// The registered sources and who waits for them.
pub struct Sources<W, K> {
    slots: Slab<WindowsSlot<W, K>>,
}

impl<W, K> View for Sources<W, K> {
    type V = SourcesView<W, K>;

    closed spec fn view(&self) -> SourcesView<W, K> {
        SourcesView { slots: self.slots@, free: self.slots.free() }
    }
}

impl<W, K> Sources<W, K> {
    pub closed spec fn wf(&self) -> bool {
        self.slots.wf()
    }

    /// Number of slots, free ones included.
    pub closed spec fn size(&self) -> nat {
        self.slots.size()
    }

    /// No sources.
    pub fn new() -> (sources: Self)
        ensures
            sources.wf(),
            sources@ == (SourcesView::<W, K> { slots: Map::empty(), free: Seq::empty() }),
            sources.size() == 0,
    {
        Sources { slots: Slab::new() }
    }

    /// Whether there is no room for another source.
    pub fn is_full(&self) -> (full: bool)
        ensures
            full == (self.size() >= usize::MAX),
    {
        self.slots.is_full()
    }

    /// Take up the source whose base socket is `base`. The caller submits the poll, and either
    /// arms the slot or, if that fails, forgets it.
    pub fn register(&mut self, base: usize, interest: Interest) -> (registration: Registration)
        requires
            old(self).wf(),
            old(self).size() < usize::MAX,
        ensures
            final(self).wf(),
            registration.info == (AfdPollInfo {
                timeout: i64::MAX,
                number_of_handles: 1,
                exclusive: 0,
                socket: base,
                events: mask(interest),
                status: 0,
            }),
            registration.token.0 == registration.key + 1,
            !old(self)@.slots.contains_key(registration.key),
            final(self)@.slots == old(self)@.slots.insert(registration.key, WindowsSlot::empty()),
            if old(self)@.free.len() > 0 {
                &&& registration.key == old(self)@.free.last()
                &&& final(self)@.free == old(self)@.free.drop_last()
                &&& final(self).size() == old(self).size()
            } else {
                &&& registration.key == old(self).size()
                &&& final(self)@.free == old(self)@.free
                &&& final(self).size() == old(self).size() + 1
            },
    {
        let mut events: u32 = 0;
        if interest.read {
            events = events | READ_EVENTS;
        }
        if interest.write {
            events = events | WRITE_EVENTS;
        }
        proof {
            assert(0u32 | READ_EVENTS == READ_EVENTS | 0u32 && 0u32 | READ_EVENTS | WRITE_EVENTS
                == READ_EVENTS | WRITE_EVENTS && 0u32 | 0u32 == 0u32) by (bit_vector);
            if self.slots.free().len() > 0 {
                self.slots.law_keys_are_used_or_free(self.slots.free().last());
                assert(self.slots.free().contains(self.slots.free().last()));
            }
        }
        let key = self.slots.insert_slot(
            WindowsSlot { read: None, write: None, cancelled: false, windows: None },
        );
        Registration {
            token: reactor::slot_token(key),
            key,
            info: AfdPollInfo::watch(base, events),
        }
    }

    /// Keep the poll of a registration that has been submitted with the memory `kernel`. Does
    /// nothing if there is no such slot.
    pub fn arm(&mut self, registration: Registration, kernel: K)
        requires
            old(self).wf(),
        ensures
            final(self).wf(),
            final(self).size() == old(self).size(),
            ({
                let key = registration.key;
                final(self)@ == if old(self)@.slots.contains_key(key) {
                    old(self)@.with(
                        key,
                        WindowsSlot {
                            windows: Some(
                                WindowsSlotState {
                                    info: registration.info,
                                    requested_events: registration.info.events,
                                    kernel,
                                },
                            ),
                            ..old(self)@.slots[key]
                        },
                    )
                } else {
                    old(self)@
                }
            }),
    {
        if let Some(slot) = self.slots.get_mut(registration.key) {
            slot.windows = Some(
                WindowsSlotState {
                    info: registration.info,
                    requested_events: registration.info.events,
                    kernel,
                },
            );
        }
    }

    /// Free the slot of a registration whose poll could not be submitted.
    pub fn forget(&mut self, key: usize)
        requires
            old(self).wf(),
        ensures
            final(self).wf(),
            final(self).size() == old(self).size(),
            final(self)@ == old(self)@.freed(key),
    {
        self.slots.remove(key);
    }

    /// The memory of the poll of the slot at `key`, if there is one.
    pub fn kernel_mut(&mut self, key: usize) -> (kernel: Option<&mut K>)
        requires
            old(self).wf(),
        ensures
            final(self).wf(),
            final(self).size() == old(self).size(),
            match kernel {
                Some(kernel) => {
                    let slot = old(self)@.slots[key];
                    &&& old(self)@.slots.contains_key(key)
                    &&& slot.windows is Some
                    &&& *kernel == slot.windows->0.kernel
                    &&& final(self)@ == old(self)@.with(
                        key,
                        WindowsSlot {
                            windows: Some(
                                WindowsSlotState { kernel: *final(kernel), ..slot.windows->0 },
                            ),
                            ..slot
                        },
                    )
                },
                None => {
                    &&& !(old(self)@.slots.contains_key(key) && old(self)@.slots[key].windows
                        is Some)
                    &&& final(self)@ == old(self)@
                },
            },
    {
        match self.slots.get_mut(key) {
            None => None,
            Some(slot) => match &mut slot.windows {
                None => None,
                Some(state) => Some(&mut state.kernel),
            },
        }
    }

    /// Let `waker` wait for the source of `token` in `direction`, in place of whoever waited
    /// before. Does nothing if there is no such source or it has been given up.
    pub fn set_waker(&mut self, token: Token, direction: Direction, waker: W)
        requires
            old(self).wf(),
        ensures
            final(self).wf(),
            final(self).size() == old(self).size(),
            match reactor::slot_of(token) {
                Some(key) if old(self)@.slots.contains_key(key) && !old(
                    self)@.slots[key].cancelled => final(self)@ == old(self)@.with(
                    key,
                    match direction {
                        Direction::Read => WindowsSlot {
                            read: Some(waker),
                            ..old(self)@.slots[key]
                        },
                        Direction::Write => WindowsSlot {
                            write: Some(waker),
                            ..old(self)@.slots[key]
                        },
                    },
                ),
                _ => final(self)@ == old(self)@,
            },
    {
        let key = match reactor::slot_key(token) {
            None => {
                return;
            },
            Some(key) => key,
        };
        if let Some(slot) = self.slots.get_mut(key) {
            if slot.cancelled {
                proof {
                    assert(old(self)@.slots.insert(key, *slot) =~= old(self)@.slots);
                }
                return;
            }
            match direction {
                Direction::Read => {
                    slot.read = Some(waker);
                },
                Direction::Write => {
                    slot.write = Some(waker);
                },
            }
        }
    }

    /// Give the source of `token` up: whoever waits for it is dropped, and its slot is freed when
    /// the completion of its poll arrives. The caller has cancelled the poll before. Does nothing
    /// if there is no such source.
    pub fn mark_cancelled(&mut self, token: Token)
        requires
            old(self).wf(),
        ensures
            final(self).wf(),
            final(self).size() == old(self).size(),
            match reactor::slot_of(token) {
                Some(key) if old(self)@.slots.contains_key(key) => final(self)@ == old(self)@.with(
                    key,
                    WindowsSlot {
                        read: None,
                        write: None,
                        cancelled: true,
                        ..old(self)@.slots[key]
                    },
                ),
                _ => final(self)@ == old(self)@,
            },
    {
        let key = match reactor::slot_key(token) {
            None => {
                return;
            },
            Some(key) => key,
        };
        if let Some(slot) = self.slots.get_mut(key) {
            slot.cancelled = true;
            slot.read = None;
            slot.write = None;
        }
    }

    /// Dispatch one completed poll.
    fn dispatch_poll(
        &mut self,
        key: usize,
        events: u32,
        wakers: &mut Vec<W>,
        resubmit: &mut Vec<usize>,
    )
        requires
            old(self).wf(),
        ensures
            final(self).wf(),
            final(self).size() == old(self).size(),
            ({
                let done = old(self)@.complete(Completion::Poll { key, events });
                &&& final(self)@ == done.sources
                &&& final(wakers)@ == old(wakers)@ + done.wakers
                &&& final(resubmit)@ == old(resubmit)@ + done.resubmit
            }),
    {
        let ghost slots0 = self.slots@;
        let mut free = false;
        if let Some(slot) = self.slots.get_mut(key) {
            let ghost slot0 = *slot;
            if slot.cancelled {
                free = true;
            } else if slot.windows.is_some() {
                if events & READ_EVENTS != 0 {
                    if let Some(waker) = slot.read.take() {
                        wakers.push(waker);
                    }
                }
                if events & WRITE_EVENTS != 0 {
                    if let Some(waker) = slot.write.take() {
                        wakers.push(waker);
                    }
                }
                resubmit.push(key);
                proof {
                    assert(*slot == relieved(slot0, events));
                    assert(wakers@ =~= old(wakers)@ + woken(slot0, events));
                    assert(resubmit@ =~= old(resubmit)@ + seq![key]);
                }
            }
            proof {
                assert(*slot == slot0 ==> slots0.insert(key, *slot) =~= slots0);
            }
        }
        if free {
            self.slots.remove(key);
        }
        proof {
            assert(old(wakers)@ + Seq::<W>::empty() =~= old(wakers)@);
            assert(old(resubmit)@ + Seq::<usize>::empty() =~= old(resubmit)@);
        }
    }

    /// Dispatch `completions`. The wakers to fire are put on `wakers`, and the slots whose polls
    /// have to be submitted again on `resubmit`.
    pub fn dispatch(
        &mut self,
        completions: &Vec<Completion>,
        wakers: &mut Vec<W>,
        resubmit: &mut Vec<usize>,
    )
        requires
            old(self).wf(),
        ensures
            final(self).wf(),
            final(self).size() == old(self).size(),
            ({
                let done = old(self)@.complete_all(completions@);
                &&& final(self)@ == done.sources
                &&& final(wakers)@ == old(wakers)@ + done.wakers
                &&& final(resubmit)@ == old(resubmit)@ + done.resubmit
            }),
    {
        let mut i: usize = 0;
        while i < completions.len()
            invariant
                self.wf(),
                self.size() == old(self).size(),
                i <= completions@.len(),
                ({
                    let done = old(self)@.complete_all(completions@.take(i as int));
                    &&& self@ == done.sources
                    &&& wakers@ == old(wakers)@ + done.wakers
                    &&& resubmit@ == old(resubmit)@ + done.resubmit
                }),
            decreases completions@.len() - i,
        {
            match completions[i] {
                Completion::Posted => {},
                Completion::Poll { key, events } => {
                    self.dispatch_poll(key, events, wakers, resubmit);
                },
            }
            proof {
                let now = completions@.take(i + 1);
                assert(now.drop_last() =~= completions@.take(i as int));
                assert(now.last() == completions@[i as int]);
                let before = old(self)@.complete_all(completions@.take(i as int));
                let last = before.sources.complete(completions@[i as int]);
                assert(wakers@ =~= old(wakers)@ + (before.wakers + last.wakers));
                assert(resubmit@ =~= old(resubmit)@ + (before.resubmit + last.resubmit));
            }
            i += 1;
        }
        proof {
            assert(completions@.take(i as int) =~= completions@);
        }
    }

    /// The poll to submit again for the slot at `key`, if it is still wanted. If submitting it
    /// fails, the caller orphans the slot.
    pub fn rearm(&mut self, key: usize) -> (info: Option<AfdPollInfo>)
        requires
            old(self).wf(),
        ensures
            final(self).wf(),
            final(self).size() == old(self).size(),
            (final(self)@, info) == old(self)@.rearm(key),
    {
        let ghost slots0 = self.slots@;
        let mut free = false;
        let mut info: Option<AfdPollInfo> = None;
        if let Some(slot) = self.slots.get_mut(key) {
            let ghost slot0 = *slot;
            if slot.cancelled {
                free = true;
            } else if let Some(state) = &mut slot.windows {
                state.info.events = state.requested_events;
                state.info.status = 0;
                info = Some(state.info);
            }
            proof {
                assert(*slot == slot0 ==> slots0.insert(key, *slot) =~= slots0);
            }
        }
        if free {
            self.slots.remove(key);
        }
        info
    }

    /// Give up the slot at `key`, whose poll could not be submitted again. Whoever waits for it is
    /// put on `wakers`, to be fired and to see the error for itself.
    pub fn orphan(&mut self, key: usize, wakers: &mut Vec<W>)
        requires
            old(self).wf(),
        ensures
            final(self).wf(),
            final(self).size() == old(self).size(),
            final(self)@ == old(self)@.freed(key),
            final(wakers)@ == old(wakers)@ + if old(self)@.slots.contains_key(key) {
                waiting(old(self)@.slots[key])
            } else {
                Seq::empty()
            },
    {
        let ghost slots0 = self.slots@;
        if let Some(slot) = self.slots.get_mut(key) {
            let ghost slot0 = *slot;
            if let Some(waker) = slot.read.take() {
                wakers.push(waker);
            }
            if let Some(waker) = slot.write.take() {
                wakers.push(waker);
            }
            proof {
                assert(wakers@ =~= old(wakers)@ + waiting(slot0));
            }
        } else {
            assert(wakers@ =~= old(wakers)@ + Seq::<W>::empty());
        }
        proof {
            assert(self.slots@.remove(key) =~= slots0.remove(key));
        }
        self.slots.remove(key);
    }
}

} // verus!
