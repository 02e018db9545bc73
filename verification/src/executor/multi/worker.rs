//! Run queues of the workers: one local queue each, a shared injector, and stealing.

use std::collections::VecDeque;

use vstd::multiset::Multiset;
use vstd::prelude::*;

verus! {

/// After this many picks a worker looks at the injector before its own queue.
pub const POLL_BUDGET: u64 = 61;

/// Seed that takes the place of a zero generator state.
pub const ZERO_SEED: u64 = 0xDEAD_BEEF_CAFE_F00D;

/// One step of the generator on a state that is not zero.
pub open spec fn xorshift(x: u64) -> u64 {
    let a = x ^ (x << 13);
    let b = a ^ (a >> 7);
    b ^ (b << 17)
}

/// The state that follows `x`.
pub open spec fn next_random(x: u64) -> u64 {
    xorshift(
        if x == 0 {
            ZERO_SEED
        } else {
            x
        },
    )
}

/// Advance the generator and return its new state.
pub fn xorshift64(state: &mut u64) -> (random: u64)
    ensures
        random == next_random(*old(state)),
        *final(state) == random,
{
    let mut x = *state;
    if x == 0 {
        x = ZERO_SEED;
    }
    x = x ^ (x << 13);
    x = x ^ (x >> 7);
    x = x ^ (x << 17);
    *state = x;
    x
}

/// The run queues of a set of workers.
pub struct Queues<T> {
    local: Vec<VecDeque<T>>,
    injector: VecDeque<T>,
}

/// What the run queues hold.
#[verifier::ext_equal]
pub struct QueuesView<T> {
    /// The local queue of each worker; new tasks go to the back.
    pub local: Seq<Seq<T>>,
    /// The shared queue, in order of arrival.
    pub injector: Seq<T>,
}

/// The part of a worker's state that no other worker sees.
#[derive(Clone, Copy, Debug)]
pub struct Worker {
    /// Index of the worker.
    pub id: usize,
    /// How often the worker has looked for a task.
    pub tick: u64,
    /// State of the generator that picks the first peer to steal from.
    pub rng: u64,
}

impl<T> QueuesView<T> {
    /// Number of workers.
    pub open spec fn workers(self) -> nat {
        self.local.len()
    }

    /// Whether any task waits anywhere.
    pub open spec fn has_work(self) -> bool {
        self.injector.len() > 0 || exists|w: int|
            0 <= w < self.workers() && (#[trigger] self.local[w]).len() > 0
    }

    /// Every task that waits, as often as it is queued.
    pub open spec fn tasks(self) -> Multiset<T> {
        self.injector.to_multiset().add(all_of(self.local))
    }

    /// Whether `me` can steal from worker `w`.
    pub open spec fn stealable(self, me: int, w: int) -> bool {
        w != me && self.local[w].len() > 0
    }

    /// The worker at distance `i` from `start`, counting round.
    pub open spec fn peer(self, start: int, i: int) -> int {
        (start + i) % self.workers() as int
    }

    /// The first worker at distance `i` or more from `start` that `me` can steal from.
    pub open spec fn victim(self, me: int, start: int, i: int) -> Option<int>
        decreases self.workers() - i,
    {
        if i >= self.workers() {
            None
        } else if self.stealable(me, self.peer(start, i)) {
            Some(self.peer(start, i))
        } else {
            self.victim(me, start, i + 1)
        }
    }

    /// `victim` gives up the front half of its queue, rounded up. The first task is returned and
    /// the others go to the back of the queue of `me`.
    pub open spec fn steal_from(self, victim: int, me: int) -> (Self, T) {
        let queue = self.local[victim];
        let take = (queue.len() + 1) / 2;
        (
            QueuesView {
                local: self.local.update(victim, queue.skip(take as int)).update(
                    me,
                    self.local[me] + queue.subrange(1, take as int),
                ),
                ..self
            },
            queue[0],
        )
    }

    /// Steal for `me` from the first peer that has a task, starting at worker `start`.
    pub open spec fn steal(self, me: int, start: int) -> (Self, Option<T>) {
        match self.victim(me, start, 0) {
            None => (self, None),
            Some(victim) => {
                let (after, task) = self.steal_from(victim, me);
                (after, Some(task))
            },
        }
    }

    /// Take the task that has been in the injector longest.
    pub open spec fn take_injected(self) -> (Self, Option<T>) {
        (QueuesView { injector: self.injector.skip(1), ..self }, Some(self.injector[0]))
    }

    /// Take the task that was put on the queue of `me` last.
    pub open spec fn take_local(self, me: int) -> (Self, Option<T>) {
        (
            QueuesView { local: self.local.update(me, self.local[me].drop_last()), ..self },
            Some(self.local[me].last()),
        )
    }

    /// Pick a task for `me`: from its own queue, else from the injector, else by stealing from
    /// `start` on; but from the injector first if `fair`.
    pub open spec fn pick(self, me: int, fair: bool, start: int) -> (Self, Option<T>) {
        if fair && self.injector.len() > 0 {
            self.take_injected()
        } else if self.local[me].len() > 0 {
            self.take_local(me)
        } else if self.injector.len() > 0 {
            self.take_injected()
        } else {
            self.steal(me, start)
        }
    }
}

/// The contents of all of `queues`.
pub open spec fn all_of<T>(queues: Seq<Seq<T>>) -> Multiset<T>
    decreases queues.len(),
{
    if queues.len() == 0 {
        Multiset::empty()
    } else {
        all_of(queues.drop_last()).add(queues.last().to_multiset())
    }
}

impl Worker {
    /// The tick after this one.
    pub open spec fn next_tick(self) -> u64 {
        if self.tick == u64::MAX {
            0
        } else {
            (self.tick + 1) as u64
        }
    }

    /// Whether the next pick looks at the injector first.
    pub open spec fn fair(self) -> bool {
        self.next_tick() % POLL_BUDGET == 0
    }

    /// The peer at which the next theft among `workers` workers starts.
    pub open spec fn start(self, workers: nat) -> int {
        next_random(self.rng) as usize as int % workers as int
    }

    /// Whether the next pick from `queues` gets as far as stealing.
    pub open spec fn steals<T>(self, queues: QueuesView<T>) -> bool {
        queues.local[self.id as int].len() == 0 && queues.injector.len() == 0 && queues.workers()
            > 1
    }

    /// A worker that has not looked for a task yet.
    pub fn new(id: usize, seed: u64) -> (worker: Self)
        ensures
            worker == (Worker { id, tick: 0, rng: seed }),
    {
        Worker { id, tick: 0, rng: seed }
    }

    /// Steal a task from a peer, starting at a random one.
    pub fn steal<T>(&mut self, queues: &mut Queues<T>) -> (task: Option<T>)
        requires
            old(self).id < old(queues)@.workers(),
        ensures
            (final(queues)@, task) == old(queues)@.steal(
                old(self).id as int,
                old(self).start(old(queues)@.workers()),
            ),
            *final(self) == (Worker {
                rng: if old(queues)@.workers() > 1 {
                    next_random(old(self).rng)
                } else {
                    old(self).rng
                },
                ..*old(self)
            }),
    {
        let n = queues.local.len();
        let ghost before = queues@;
        let ghost from = self.start(n as nat);
        if n <= 1 {
            proof {
                assert(before.peer(from, 0) == self.id);
                reveal_with_fuel(QueuesView::victim, 2);
            }
            return None;
        }
        let me = self.id;
        let random = xorshift64(&mut self.rng);
        let start = (#[verifier::truncate] (random as usize)) % n;
        let mut i: usize = 0;
        while i < n
            invariant
                queues@ == before,
                before == old(queues)@,
                n == before.workers(),
                n > 1,
                me == old(self).id,
                me < n,
                from == old(self).start(n as nat),
                start == from,
                start < n,
                i <= n,
                before.victim(me as int, from, 0) == before.victim(me as int, from, i as int),
                *self == (Worker { rng: next_random(old(self).rng), ..*old(self) }),
            decreases n - i,
        {
            let victim = if start < n - i {
                start + i
            } else {
                start - (n - i)
            };
            proof {
                assert(victim == (start + i) % n as int) by {
                    if start + i < n {
                        vstd::arithmetic::div_mod::lemma_small_mod((start + i) as nat, n as nat);
                    } else {
                        vstd::arithmetic::div_mod::lemma_small_mod(
                            (start + i - n) as nat,
                            n as nat,
                        );
                        vstd::arithmetic::div_mod::lemma_mod_sub_multiples_vanish(
                            start + i,
                            n as int,
                        );
                    }
                }
            }
            if victim != me {
                let task = queues.steal_from(victim, me);
                if task.is_some() {
                    return task;
                }
            }
            i += 1;
        }
        None
    }

    /// Pick the next task, and count the pick.
    pub fn next<T>(&mut self, queues: &mut Queues<T>) -> (task: Option<T>)
        requires
            old(self).id < old(queues)@.workers(),
        ensures
            (final(queues)@, task) == old(queues)@.pick(
                old(self).id as int,
                old(self).fair(),
                old(self).start(old(queues)@.workers()),
            ),
            *final(self) == (Worker {
                id: old(self).id,
                tick: old(self).next_tick(),
                rng: if old(self).steals(old(queues)@) {
                    next_random(old(self).rng)
                } else {
                    old(self).rng
                },
            }),
    {
        self.tick = self.tick.wrapping_add(1);
        let me = self.id;
        if self.tick % POLL_BUDGET == 0 {
            let task = queues.pop_global();
            if task.is_some() {
                return task;
            }
        }
        let task = queues.pop_local(me);
        if task.is_some() {
            return task;
        }
        let task = queues.pop_global();
        if task.is_some() {
            return task;
        }
        self.steal(queues)
    }
}

impl<T> View for Queues<T> {
    type V = QueuesView<T>;

    closed spec fn view(&self) -> QueuesView<T> {
        QueuesView {
            local: Seq::new(self.local@.len(), |w: int| self.local@[w]@),
            injector: self.injector@,
        }
    }
}

impl<T> Queues<T> {
    /// Empty queues for `workers` workers.
    pub fn new(workers: usize) -> (queues: Self)
        ensures
            queues@.local == Seq::new(workers as nat, |w: int| Seq::<T>::empty()),
            queues@.injector == Seq::<T>::empty(),
    {
        let mut local: Vec<VecDeque<T>> = Vec::new();
        let mut w: usize = 0;
        while w < workers
            invariant
                w <= workers,
                local@.len() == w,
                forall|i: int| 0 <= i < w ==> (#[trigger] local@[i])@ == Seq::<T>::empty(),
            decreases workers - w,
        {
            local.push(VecDeque::new());
            w += 1;
        }
        let queues = Queues { local, injector: VecDeque::new() };
        proof {
            assert(queues@.local =~= Seq::new(workers as nat, |w: int| Seq::<T>::empty()));
        }
        queues
    }

    /// Number of workers.
    pub fn workers(&self) -> (n: usize)
        ensures
            n == self@.workers(),
    {
        self.local.len()
    }

    /// Put `task` on the shared queue.
    pub fn push_global(&mut self, task: T)
        ensures
            final(self)@ == (QueuesView {
                injector: old(self)@.injector.push(task),
                ..old(self)@
            }),
    {
        self.injector.push_back(task);
        proof {
            assert(self@.local =~= old(self)@.local);
        }
    }

    /// Put `task` on the queue of worker `me`.
    pub fn push_local(&mut self, me: usize, task: T)
        requires
            me < old(self)@.workers(),
        ensures
            final(self)@ == (QueuesView {
                local: old(self)@.local.update(me as int, old(self)@.local[me as int].push(task)),
                ..old(self)@
            }),
    {
        self.local[me].push_back(task);
        proof {
            assert(self@.local =~= old(self)@.local.update(
                me as int,
                old(self)@.local[me as int].push(task),
            ));
        }
    }

    /// Take the oldest task of the shared queue.
    fn pop_global(&mut self) -> (task: Option<T>)
        ensures
            old(self)@.injector.len() == 0 ==> task is None && final(self)@ == old(self)@,
            old(self)@.injector.len() > 0 ==> (final(self)@, task) == old(self)@.take_injected(),
    {
        let task = self.injector.pop_front();
        proof {
            assert(self@.local =~= old(self)@.local);
            if old(self)@.injector.len() > 0 {
                assert(self@.injector =~= old(self)@.injector.skip(1));
            }
        }
        task
    }

    /// Take the newest task of the queue of worker `me`.
    fn pop_local(&mut self, me: usize) -> (task: Option<T>)
        requires
            me < old(self)@.workers(),
        ensures
            old(self)@.local[me as int].len() == 0 ==> task is None && final(self)@ == old(self)@,
            old(self)@.local[me as int].len() > 0 ==> {
                (final(self)@, task) == old(self)@.take_local(me as int)
            },
    {
        let task = self.local[me].pop_back();
        proof {
            if old(self)@.local[me as int].len() > 0 {
                assert(self@.local =~= old(self)@.take_local(me as int).0.local);
            } else {
                assert(self@.local =~= old(self)@.local);
            }
        }
        task
    }

    /// Whether there is a task for worker `me` to run or to steal.
    pub fn has_work(&self, me: usize) -> (b: bool)
        requires
            me < self@.workers(),
        ensures
            b == self@.has_work(),
    {
        if self.local[me].len() != 0 {
            assert(self@.local[me as int].len() > 0);
            return true;
        }
        if self.injector.len() != 0 {
            return true;
        }
        let mut w: usize = 0;
        while w < self.local.len()
            invariant
                w <= self.local@.len(),
                self@.injector.len() == 0,
                forall|i: int| 0 <= i < w ==> (#[trigger] self@.local[i]).len() == 0,
            decreases self.local@.len() - w,
        {
            if self.local[w].len() != 0 {
                assert(self@.local[w as int].len() > 0);
                return true;
            }
            w += 1;
        }
        false
    }

    /// Move the front half of the queue of `victim`, rounded up, over to `me`, and return the
    /// first task of it.
    fn steal_from(&mut self, victim: usize, me: usize) -> (task: Option<T>)
        requires
            victim < old(self)@.workers(),
            me < old(self)@.workers(),
            victim != me,
        ensures
            old(self)@.local[victim as int].len() == 0 ==> {
                task is None && final(self)@ == old(self)@
            },
            old(self)@.local[victim as int].len() > 0 ==> task is Some && (
            final(self)@,
            task->0,
            ) == old(self)@.steal_from(victim as int, me as int),
    {
        let total = self.local[victim].len();
        if total == 0 {
            return None;
        }
        let ghost queue = self.local@[victim as int]@;
        let ghost mine = self.local@[me as int]@;
        let take = total / 2 + total % 2;
        let first = self.local[victim].pop_front();
        let mut moved: usize = 1;
        while moved < take
            invariant
                victim < self.local@.len(),
                me < self.local@.len(),
                victim != me,
                1 <= moved <= take,
                take <= queue.len(),
                self.local@.len() == old(self).local@.len(),
                self.local@[victim as int]@ == queue.skip(moved as int),
                self.local@[me as int]@ == mine + queue.subrange(1, moved as int),
                forall|w: int|
                    0 <= w < self.local@.len() && w != victim && w != me
                        ==> #[trigger] self.local@[w] == old(self).local@[w],
                self.injector == old(self).injector,
            decreases take - moved,
        {
            match self.local[victim].pop_front() {
                Some(task) => {
                    self.local[me].push_back(task);
                },
                None => {},
            }
            moved += 1;
            proof {
                assert(self.local@[victim as int]@ =~= queue.skip(moved as int));
                assert(self.local@[me as int]@ =~= mine + queue.subrange(1, moved as int));
            }
        }
        proof {
            assert(self@.local =~= old(self)@.steal_from(victim as int, me as int).0.local);
        }
        first
    }

    /// Empty every queue and hand out what was in them: the local queues in the order of the
    /// workers, then the injector.
    pub fn drain(&mut self) -> (tasks: Vec<T>)
        ensures
            tasks@ == old(self)@.local.flatten() + old(self)@.injector,
            final(self)@ == (QueuesView {
                local: Seq::new(old(self)@.workers(), |w: int| Seq::<T>::empty()),
                injector: Seq::empty(),
            }),
    {
        let mut tasks: Vec<T> = Vec::new();
        let mut w: usize = 0;
        while w < self.local.len()
            invariant
                w <= self.local@.len(),
                self.local@.len() == old(self).local@.len(),
                self.injector == old(self).injector,
                tasks@ == old(self)@.local.take(w as int).flatten(),
                forall|i: int|
                    0 <= i < w ==> (#[trigger] self.local@[i])@ == Seq::<T>::empty(),
                forall|i: int|
                    w <= i < self.local@.len() ==> #[trigger] self.local@[i] == old(self).local@[i],
            decreases self.local@.len() - w,
        {
            let ghost taken = tasks@;
            let mut queue: VecDeque<T> = VecDeque::new();
            std::mem::swap(&mut queue, &mut self.local[w]);
            append(&mut tasks, queue);
            proof {
                let local = old(self)@.local;
                assert(local.take(w + 1).drop_last() =~= local.take(w as int));
                local.take(w + 1).lemma_flatten_and_flatten_alt_are_equivalent();
                local.take(w as int).lemma_flatten_and_flatten_alt_are_equivalent();
            }
            w += 1;
        }
        let mut queue: VecDeque<T> = VecDeque::new();
        std::mem::swap(&mut queue, &mut self.injector);
        append(&mut tasks, queue);
        proof {
            assert(old(self)@.local.take(w as int) =~= old(self)@.local);
            assert(self@.local =~= Seq::new(old(self)@.workers(), |w: int| Seq::<T>::empty()));
        }
        tasks
    }
}

/// Move what is in `queue` to the end of `tasks`.
fn append<T>(tasks: &mut Vec<T>, queue: VecDeque<T>)
    ensures
        final(tasks)@ == old(tasks)@ + queue@,
{
    let mut rest = queue;
    let ghost all = queue@;
    while rest.len() != 0
        invariant
            tasks@ + rest@ == old(tasks)@ + all,
        decreases rest@.len(),
    {
        let ghost before = rest@;
        match rest.pop_front() {
            Some(task) => {
                let ghost done = tasks@;
                tasks.push(task);
                proof {
                    assert(before =~= seq![task] + rest@);
                    assert(tasks@ + rest@ =~= done + before);
                }
            },
            None => {},
        }
    }
    proof {
        assert(tasks@ + rest@ =~= tasks@);
    }
}

} // verus!
