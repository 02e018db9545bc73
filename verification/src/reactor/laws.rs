//! What holds of the reactor backends over several operations.

use vstd::prelude::*;

use crate::reactor::linux;
use crate::reactor::slab::{self, Slot};
use crate::reactor::windows::{self, Completion, Dispatched, SourcesView, WindowsSlot};
use crate::reactor::{self, Direction, Token};
use crate::sys::linux::epoll::{self, Event};
use crate::sys::windows::afd::{READ_EVENTS, WRITE_EVENTS};
use crate::time::instant::Duration;

verus! {

/// A waker that waits for a registered source fires on the first event that lets it go on, and
/// its place is empty afterwards.
pub proof fn law_readiness_fires_the_waker<W>(
    slots: Map<usize, Slot<W>>,
    key: usize,
    direction: Direction,
    waker: W,
    event: Event,
)
    requires
        slots.contains_key(key),
        match direction {
            Direction::Read => slots[key].read == Some(waker) && epoll::lets_read(event.ready),
            Direction::Write => slots[key].write == Some(waker) && epoll::lets_write(event.ready),
        },
        reactor::slot_of(Token(event.token)) == Some(key),
    ensures
        linux::after_event(slots, event).1.contains(waker),
        match direction {
            Direction::Read => linux::after_event(slots, event).0[key].read is None,
            Direction::Write => linux::after_event(slots, event).0[key].write is None,
        },
{
    let woken = linux::woken(slots[key], event.ready);
    match direction {
        Direction::Read => {
            assert(woken[0] == waker);
        },
        Direction::Write => {
            assert(woken[woken.len() - 1] == waker);
        },
    }
}

/// A waker fires once: the same event again wakes nobody, until a waker is set anew.
pub proof fn law_waker_is_consumed_on_fire<W>(slots: Map<usize, Slot<W>>, event: Event)
    ensures
        linux::after_event(linux::after_event(slots, event).0, event).1 == Seq::<W>::empty(),
        linux::after_event(linux::after_event(slots, event).0, event).0 == linux::after_event(
            slots,
            event,
        ).0,
{
    let once = linux::after_event(slots, event).0;
    let twice = linux::after_event(once, event);
    assert(twice.1 =~= Seq::<W>::empty());
    assert(twice.0 =~= once);
}

/// An event touches no source but its own.
pub proof fn law_event_leaves_other_sources<W>(
    slots: Map<usize, Slot<W>>,
    event: Event,
    key: usize,
)
    requires
        reactor::slot_of(Token(event.token)) != Some(key),
    ensures
        linux::after_event(slots, event).0.contains_key(key) == slots.contains_key(key),
        linux::after_event(slots, event).0[key] == slots[key],
        linux::after_event(slots, event).0.dom() == slots.dom(),
{
    assert(linux::after_event(slots, event).0.dom() =~= slots.dom());
}

/// One place of a slot loses no waker: it is fired or it stays.
proof fn lemma_place_keeps_waker<W>(place: Option<W>, fire: bool)
    ensures
        ({
            let all = slab::place(place, true);
            let fired = slab::place(place, fire);
            let left = slab::place(
                if fire {
                    None
                } else {
                    place
                },
                true,
            );
            all.to_multiset() == fired.to_multiset().add(left.to_multiset())
        }),
{
    broadcast use vstd::seq_lib::group_to_multiset_ensures;

    let all = slab::place(place, true);
    assert(all.to_multiset().add(Seq::<W>::empty().to_multiset()) =~= all.to_multiset());
    assert(Seq::<W>::empty().to_multiset().add(all.to_multiset()) =~= all.to_multiset());
}

/// An event neither loses nor doubles a waker: who waited for its source is fired or waits on.
pub proof fn law_event_keeps_wakers<W>(slot: Slot<W>, ready: u32)
    ensures
        linux::waiting(slot).to_multiset() == linux::woken(slot, ready).to_multiset().add(
            linux::waiting(linux::relieved(slot, ready)).to_multiset(),
        ),
{
    let (reads, writes) = (epoll::lets_read(ready), epoll::lets_write(ready));
    lemma_place_keeps_waker(slot.read, reads);
    lemma_place_keeps_waker(slot.write, writes);
    let left = linux::relieved(slot, ready);
    lemma_sum(slab::place(slot.read, true), slab::place(slot.write, true));
    lemma_sum(slab::place(slot.read, reads), slab::place(slot.write, writes));
    lemma_sum(slab::place(left.read, true), slab::place(left.write, true));
    assert(linux::waiting(slot).to_multiset() =~= linux::woken(slot, ready).to_multiset().add(
        linux::waiting(left).to_multiset(),
    ));
}

/// The contents of two sequences together.
proof fn lemma_sum<W>(a: Seq<W>, b: Seq<W>)
    ensures
        (a + b).to_multiset() == a.to_multiset().add(b.to_multiset()),
{
    vstd::seq_lib::lemma_multiset_commutative(a, b);
}

/// Dispatching events in two parts comes to the same as dispatching them at once.
pub proof fn law_dispatch_in_parts<W>(slots: Map<usize, Slot<W>>, a: Seq<Event>, b: Seq<Event>)
    ensures
        ({
            let (middle, first) = linux::after_events(slots, a);
            let (end, second) = linux::after_events(middle, b);
            linux::after_events(slots, a + b) == (end, first + second)
        }),
    decreases b.len(),
{
    if b.len() == 0 {
        assert(a + b =~= a);
        let (middle, first) = linux::after_events(slots, a);
        assert(first + Seq::<W>::empty() =~= first);
    } else {
        law_dispatch_in_parts(slots, a, b.drop_last());
        assert((a + b).drop_last() =~= a + b.drop_last());
        assert((a + b).last() == b.last());
        let (middle, first) = linux::after_events(slots, a);
        let (before, second) = linux::after_events(middle, b.drop_last());
        let (end, last) = linux::after_event(before, b.last());
        assert((first + second) + last =~= first + (second + last));
    }
}

/// A wake-up among the events wakes no waiting task.
pub proof fn law_wake_up_fires_no_waker<W>(slots: Map<usize, Slot<W>>, ready: u32)
    ensures
        linux::after_event(slots, Event { token: linux::SELF_WAKE_TOKEN, ready }) == (
            slots,
            Seq::<W>::empty(),
        ),
{
}

/// A wait never lasts longer than its timeout, and one with a timeout never becomes one without.
pub proof fn law_wait_is_bounded(timeout: Duration)
    ensures
        linux::wait_ms(Some(timeout)) >= 0,
        linux::wait_ms(Some(timeout)) * 1_000_000 <= timeout@,
{
}

/// A completed poll fires whoever waits for its events and is submitted again with the events
/// that the source is watched for, so that it keeps reporting.
pub proof fn law_poll_is_submitted_again<W, K>(
    sources: SourcesView<W, K>,
    key: usize,
    events: u32,
)
    requires
        sources.slots.contains_key(key),
        !sources.slots[key].cancelled,
        sources.slots[key].windows is Some,
    ensures
        ({
            let done = sources.complete(Completion::Poll { key, events });
            let state = sources.slots[key].windows->0;
            &&& done.resubmit == seq![key]
            &&& done.wakers == windows::woken(sources.slots[key], events)
            &&& done.sources.rearm(key).1 matches Some(info) && info.events
                == state.requested_events && info.status == 0 && info.socket == state.info.socket
        }),
{
}

/// A completed poll neither loses nor doubles a waker: who waited for its source is fired or
/// waits on.
pub proof fn law_poll_keeps_wakers<W, K>(slot: WindowsSlot<W, K>, events: u32)
    ensures
        windows::waiting(slot).to_multiset() == windows::woken(slot, events).to_multiset().add(
            windows::waiting(windows::relieved(slot, events)).to_multiset(),
        ),
{
    let (reads, writes) = (events & READ_EVENTS != 0, events & WRITE_EVENTS != 0);
    lemma_place_keeps_waker(slot.read, reads);
    lemma_place_keeps_waker(slot.write, writes);
    let left = windows::relieved(slot, events);
    lemma_sum(slab::place(slot.read, true), slab::place(slot.write, true));
    lemma_sum(slab::place(slot.read, reads), slab::place(slot.write, writes));
    lemma_sum(slab::place(left.read, true), slab::place(left.write, true));
    assert(windows::waiting(slot).to_multiset() =~= windows::woken(slot, events).to_multiset().add(
        windows::waiting(left).to_multiset(),
    ));
}

/// A poll fires each waker once: completing again with the same events wakes nobody.
pub proof fn law_poll_consumes_wakers<W, K>(sources: SourcesView<W, K>, key: usize, events: u32)
    ensures
        ({
            let once = sources.complete(Completion::Poll { key, events });
            once.sources.complete(Completion::Poll { key, events }).wakers == Seq::<W>::empty()
        }),
{
    let once = sources.complete(Completion::Poll { key, events });
    assert(once.sources.complete(Completion::Poll { key, events }).wakers =~= Seq::<W>::empty());
}

/// A source that has been given up wakes nobody any more, is not polled again, and its slot is
/// free after the completion of its last poll.
pub proof fn law_cancelled_source_is_freed<W, K>(
    sources: SourcesView<W, K>,
    key: usize,
    events: u32,
)
    requires
        sources.slots.contains_key(key),
        sources.slots[key].cancelled,
    ensures
        sources.complete(Completion::Poll { key, events }) == (Dispatched {
            sources: SourcesView {
                slots: sources.slots.remove(key),
                free: sources.free.push(key),
            },
            wakers: Seq::<W>::empty(),
            resubmit: Seq::empty(),
        }),
        sources.rearm(key) == (
            SourcesView { slots: sources.slots.remove(key), free: sources.free.push(key) },
            None::<crate::sys::windows::afd::AfdPollInfo>,
        ),
{
}

/// A completion for a slot that is free again is ignored.
pub proof fn law_late_completion_is_ignored<W, K>(
    sources: SourcesView<W, K>,
    key: usize,
    events: u32,
)
    requires
        !sources.slots.contains_key(key),
    ensures
        sources.complete(Completion::Poll { key, events }).sources == sources,
        sources.complete(Completion::Poll { key, events }).wakers == Seq::<W>::empty(),
        sources.complete(Completion::Poll { key, events }).resubmit == Seq::<usize>::empty(),
{
}

/// Whatever completions come in one batch, only sources are polled again that were registered, not
/// given up, and had a poll when the batch came.
pub proof fn law_resubmitted_slots_have_polls<W, K>(
    sources: SourcesView<W, K>,
    completions: Seq<Completion>,
)
    ensures
        ({
            let done = sources.complete_all(completions);
            forall|i: int|
                0 <= i < done.resubmit.len() ==> sources.slots.contains_key(
                    #[trigger] done.resubmit[i],
                ) && !sources.slots[done.resubmit[i]].cancelled
                    && sources.slots[done.resubmit[i]].windows is Some
        }),
    decreases completions.len(),
{
    lemma_polls_stay(sources, completions);
    if completions.len() > 0 {
        law_resubmitted_slots_have_polls(sources, completions.drop_last());
        lemma_polls_stay(sources, completions.drop_last());
    }
}

/// Completions give no slot a poll and cancel none.
proof fn lemma_polls_stay<W, K>(sources: SourcesView<W, K>, completions: Seq<Completion>)
    ensures
        forall|key: usize| #[trigger]
            sources.complete_all(completions).sources.slots.contains_key(key)
                ==> sources.slots.contains_key(key) && sources.complete_all(
                completions,
            ).sources.slots[key].cancelled == sources.slots[key].cancelled
                && sources.complete_all(completions).sources.slots[key].windows
                == sources.slots[key].windows,
    decreases completions.len(),
{
    if completions.len() > 0 {
        lemma_polls_stay(sources, completions.drop_last());
    }
}

} // verus!
