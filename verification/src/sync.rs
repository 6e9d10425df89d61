//! Semaphore, reentrant lock and spinlock, built on the scheduler's
//! block/unblock protocol.
//!
//! A P on an exhausted semaphore parks the calling thread on the wait list
//! and schedules away; V wakes the first waiter in FIFO order, placing it at
//! the head of the ready queue. The lock is a semaphore of initial value one
//! with a holder id and a nesting counter.

use vstd::prelude::*;

use crate::intr::Cpu;
use crate::thread::{Sched, SchedModel, Status};

verus! {

/// Single word acquired by atomic exchange. On the model's single core an
/// acquire only proceeds when the word is free; a contended acquire would
/// spin without ever being preempted, which the precondition rules out.
pub struct SpinLock {
    pub data: u32,
}

impl SpinLock {
    pub fn new() -> (r: SpinLock)
        ensures
            r.data == 0,
    {
        SpinLock { data: 0 }
    }

    /// Take the free spinlock.
    pub fn lock(&mut self)
        requires
            old(self).data == 0,
        ensures
            final(self).data == 1,
    {
        self.data = 1;
    }

    /// Release the spinlock.
    pub fn unlock(&mut self)
        ensures
            final(self).data == 0,
    {
        self.data = 0;
    }
}

/// Counting semaphore: a value and the FIFO list of blocked waiter ids.
pub struct Semaphore {
    pub value: u32,
    pub waiters: Vec<usize>,
}

impl Semaphore {
    /// The wait list holds distinct ids of parked threads of `sched`; the
    /// dedicated idle thread never waits.
    pub open spec fn wf_for(&self, sched: Sched) -> bool {
        &&& (forall|k: int|
            0 <= k < self.waiters@.len() ==> (#[trigger] self.waiters@[k]) < sched.pcbs@.len() && (
            sched.pcbs@[self.waiters@[k] as int].status == Status::Blocked || sched.pcbs@[
                self.waiters@[k] as int].status == Status::Waiting || sched.pcbs@[
                self.waiters@[k] as int].status == Status::Hanging)
                && self.waiters@[k] != sched.idle)
        &&& (forall|k1: int, k2: int|
            0 <= k1 < self.waiters@.len() && 0 <= k2 < self.waiters@.len() && k1 != k2
                ==> #[trigger] self.waiters@[k1] != #[trigger] self.waiters@[k2])
    }

    pub fn new(value: u32) -> (r: Semaphore)
        ensures
            r.value == value,
            r.waiters@.len() == 0,
    {
        Semaphore { value, waiters: Vec::new() }
    }

    /// The P operation, one observable step. With a positive value it
    /// simply takes one unit and never blocks. With value zero the calling
    /// thread is appended to the wait list, marked `Blocked`, and the
    /// scheduler dispatches the next thread; the woken thread retries P
    /// after its V arrives. A thread already on the wait list repeating P is
    /// an internal error, excluded by precondition.
    pub fn p(&mut self, sched: &mut Sched, cpu: &mut Cpu) -> (acquired: bool)
        requires
            old(sched).wf(),
            old(self).wf_for(*old(sched)),
            !old(self).waiters@.contains(old(sched).current),
            old(self).value == 0 ==> old(sched).current != old(sched).idle,
        ensures
            final(sched).wf(),
            final(self).wf_for(*final(sched)),
            final(cpu).int_on == old(cpu).int_on,
            final(sched).pcbs@.len() == old(sched).pcbs@.len(),
            old(self).value > 0 ==> {
                &&& acquired
                &&& final(self).value == old(self).value - 1
                &&& final(self).waiters@ == old(self).waiters@
                &&& *final(sched) == *old(sched)
            },
            old(self).value == 0 ==> {
                &&& !acquired
                &&& final(self).value == 0
                &&& final(self).waiters@ == old(self).waiters@.push(old(sched).current)
                &&& final(sched).model() == (SchedModel {
                    statuses: old(sched).model().statuses.update(
                        old(sched).current as int,
                        Status::Blocked,
                    ),
                    ticks_left: old(sched).model().ticks_left,
                    priorities: old(sched).model().priorities,
                    ready: old(sched).model().ready,
                    current: old(sched).model().current,
                    idle: old(sched).model().idle,
                }).dispatch()
            },
    {
        let old_int = cpu.disable_int();
        if self.value == 0 {
            let cur = sched.current;
            self.waiters.push(cur);
            let ghost sched0 = *old(sched);
            block(sched, cpu, Status::Blocked);
            proof {
                let m1 = SchedModel {
                    statuses: sched0.model().statuses.update(
                        sched0.current as int,
                        Status::Blocked,
                    ),
                    ticks_left: sched0.model().ticks_left,
                    priorities: sched0.model().priorities,
                    ready: sched0.model().ready,
                    current: sched0.model().current,
                    idle: sched0.model().idle,
                };
                let q = m1.dispatch_queue();
                let n = q[0];
                // the dispatched thread is either a ready one or the idle
                // thread, never a waiter
                assert(sched0.ready@.len() > 0 ==> n == sched0.ready@[0] && sched0.pcbs@[n].status
                    == Status::Ready);
                assert(sched0.ready@.len() == 0 ==> n == sched0.idle as int);
                assert forall|k: int|
                    0 <= k < self.waiters@.len() implies (#[trigger] self.waiters@[k])
                    < sched.pcbs@.len() && (sched.pcbs@[self.waiters@[k] as int].status
                    == Status::Blocked || sched.pcbs@[self.waiters@[k] as int].status
                    == Status::Waiting || sched.pcbs@[self.waiters@[k] as int].status
                    == Status::Hanging) && self.waiters@[k] != sched.idle by {
                    let id = self.waiters@[k] as int;
                    assert(sched.model().statuses[id] == sched.pcbs@[id].status);
                    if k < self.waiters@.len() - 1 {
                        assert(old(self).waiters@[k] == self.waiters@[k]);
                        assert(id != n) by {
                            if sched0.ready@.len() > 0 {
                                assert(sched0.pcbs@[id].status != Status::Ready);
                            }
                        }
                    }
                }
            }
            cpu.set_int(old_int);
            return false;
        }
        let val = self.value;
        self.value = val - 1;
        cpu.set_int(old_int);
        true
    }

    /// The V operation: wake the first waiter, if any, and release one
    /// unit. The woken thread moves from the wait list to the head of the
    /// ready queue; wake order is FIFO by wait order.
    pub fn v(&mut self, sched: &mut Sched, cpu: &mut Cpu)
        requires
            old(sched).wf(),
            old(self).wf_for(*old(sched)),
            old(self).value < 0xffff_ffff,
        ensures
            final(sched).wf(),
            final(self).wf_for(*final(sched)),
            final(cpu).int_on == old(cpu).int_on,
            final(self).value == old(self).value + 1,
            final(sched).pcbs@.len() == old(sched).pcbs@.len(),
            final(sched).current == old(sched).current,
            old(self).waiters@.len() == 0 ==> {
                &&& final(self).waiters@ == old(self).waiters@
                &&& *final(sched) == *old(sched)
            },
            old(self).waiters@.len() > 0 ==> {
                let woken = old(self).waiters@[0];
                &&& final(self).waiters@ == old(self).waiters@.drop_first()
                &&& final(sched).ready@ == seq![woken].add(old(sched).ready@)
                &&& final(sched).pcbs@[woken as int].status == Status::Ready
                &&& (forall|id: int|
                    0 <= id < old(sched).pcbs@.len() && id != woken ==> final(sched).pcbs@[id]
                        == old(sched).pcbs@[id])
            },
    {
        let old_int = cpu.disable_int();
        if self.waiters.len() > 0 {
            let blocked = self.waiters.remove(0);
            proof {
                assert(old(self).waiters@[0] == blocked);
                assert(self.waiters@ =~= old(self).waiters@.drop_first());
            }
            unblock(sched, cpu, blocked);
            proof {
                assert(final(sched).ready@ =~= seq![blocked].add(old(sched).ready@));
                assert forall|k: int|
                    0 <= k < self.waiters@.len() implies (#[trigger] self.waiters@[k])
                    < sched.pcbs@.len() && (sched.pcbs@[self.waiters@[k] as int].status
                    == Status::Blocked || sched.pcbs@[self.waiters@[k] as int].status
                    == Status::Waiting || sched.pcbs@[self.waiters@[k] as int].status
                    == Status::Hanging) && self.waiters@[k] != sched.idle by {
                    assert(self.waiters@[k] == old(self).waiters@[k + 1]);
                    assert(old(self).waiters@[k + 1] != old(self).waiters@[0]);
                }
            }
        }
        let val = self.value;
        self.value = val + 1;
        cpu.set_int(old_int);
    }
}

/// Park the current thread with the given parked status and dispatch the
/// next one.
pub fn block(sched: &mut Sched, cpu: &mut Cpu, status: Status)
    requires
        old(sched).wf(),
        status == Status::Blocked || status == Status::Waiting || status == Status::Hanging,
    ensures
        final(sched).wf(),
        final(cpu).int_on == old(cpu).int_on,
        final(sched).pcbs@.len() == old(sched).pcbs@.len(),
        final(sched).model() == (SchedModel {
            statuses: old(sched).model().statuses.update(old(sched).current as int, status),
            ticks_left: old(sched).model().ticks_left,
            priorities: old(sched).model().priorities,
            ready: old(sched).model().ready,
            current: old(sched).model().current,
            idle: old(sched).model().idle,
        }).dispatch(),
        forall|id: int|
            0 <= id < final(sched).pcbs@.len() ==> (#[trigger] final(sched).pcbs@[id]).off == old(
                sched,
            ).pcbs@[id].off && final(sched).pcbs@[id].pd == old(sched).pcbs@[id].pd,
{
    let old_int = cpu.disable_int();
    let cur = sched.current;
    let c = &mut sched.pcbs[cur];
    c.status = status;
    proof {
        let m1 = SchedModel {
            statuses: old(sched).model().statuses.update(old(sched).current as int, status),
            ticks_left: old(sched).model().ticks_left,
            priorities: old(sched).model().priorities,
            ready: old(sched).model().ready,
            current: old(sched).model().current,
            idle: old(sched).model().idle,
        };
        assert(sched.model().statuses =~= m1.statuses);
        assert(sched.model().ticks_left =~= m1.ticks_left);
        assert(sched.model().priorities =~= m1.priorities);
        assert(sched.model().ready =~= m1.ready);
        assert(sched.model() == m1);
    }
    sched.schedule(cpu);
    cpu.set_int(old_int);
}

/// Move a parked thread back to the head of the ready queue. Waking a
/// thread that is not parked, or that already sits in the ready queue, is
/// an internal error excluded by precondition (and by the queue holding
/// only `Ready` threads).
pub fn unblock(sched: &mut Sched, cpu: &mut Cpu, id: usize)
    requires
        old(sched).wf(),
        id < old(sched).pcbs@.len(),
        old(sched).pcbs@[id as int].status == Status::Blocked || old(sched).pcbs@[
            id as int
        ].status == Status::Waiting || old(sched).pcbs@[id as int].status == Status::Hanging,
    ensures
        final(sched).wf(),
        final(cpu).int_on == old(cpu).int_on,
        final(sched).pcbs@.len() == old(sched).pcbs@.len(),
        final(sched).current == old(sched).current,
        final(sched).idle == old(sched).idle,
        final(sched).ready@ == seq![id].add(old(sched).ready@),
        final(sched).pcbs@[id as int].status == Status::Ready,
        forall|j: int|
            0 <= j < old(sched).pcbs@.len() && j != id ==> final(sched).pcbs@[j] == old(
                sched,
            ).pcbs@[j],
{
    let old_int = cpu.disable_int();
    let c = &mut sched.pcbs[id];
    c.status = Status::Ready;
    sched.ready.insert(0, id);
    proof {
        assert(sched.ready@ =~= seq![id].add(old(sched).ready@));
        assert forall|k1: int, k2: int|
            0 <= k1 < sched.ready@.len() && 0 <= k2 < sched.ready@.len() && k1
                != k2 implies #[trigger] sched.ready@[k1] != #[trigger] sched.ready@[k2] by {
            if k1 == 0 || k2 == 0 {
                // a parked thread cannot already sit in the queue of ready ones
                assert(old(sched).pcbs@[id as int].status != Status::Ready);
            }
        }
    }
    cpu.set_int(old_int);
}

/// Voluntarily give up the processor: requeue the current thread at the
/// tail, keeping its remaining quota, and dispatch the next one.
pub fn th_yield(sched: &mut Sched, cpu: &mut Cpu)
    requires
        old(sched).wf(),
    ensures
        final(sched).wf(),
        final(cpu).int_on == old(cpu).int_on,
        final(sched).pcbs@.len() == old(sched).pcbs@.len(),
        final(sched).model() == (SchedModel {
            statuses: old(sched).model().statuses.update(
                old(sched).current as int,
                Status::Ready,
            ),
            ticks_left: old(sched).model().ticks_left,
            priorities: old(sched).model().priorities,
            ready: old(sched).model().ready.push(old(sched).current as int),
            current: old(sched).model().current,
            idle: old(sched).model().idle,
        }).dispatch(),
{
    let old_int = cpu.disable_int();
    let cur = sched.current;
    sched.ready.push(cur);
    let c = &mut sched.pcbs[cur];
    c.status = Status::Ready;
    proof {
        let m1 = SchedModel {
            statuses: old(sched).model().statuses.update(old(sched).current as int, Status::Ready),
            ticks_left: old(sched).model().ticks_left,
            priorities: old(sched).model().priorities,
            ready: old(sched).model().ready.push(old(sched).current as int),
            current: old(sched).model().current,
            idle: old(sched).model().idle,
        };
        assert(sched.model().statuses =~= m1.statuses);
        assert(sched.model().ticks_left =~= m1.ticks_left);
        assert(sched.model().priorities =~= m1.priorities);
        assert(sched.model().ready =~= m1.ready);
        assert(sched.model() == m1);
    }
    sched.schedule(cpu);
    cpu.set_int(old_int);
}

/// Ticks a sleep of `t` milliseconds takes; the clock-driven loop yields
/// until that many ticks have passed.
pub fn sleep_mils(t: u32) -> (r: u32)
    ensures
        r == t / crate::timer::MIL_SECONDS_PER_INT,
{
    t / crate::timer::MIL_SECONDS_PER_INT
}

/// Whether a sleep that began at tick `start` and asked for `t` ticks is
/// over at tick `now`; the sleeping loop yields until this holds.
pub fn sleep_done(start: u32, now: u32, t: u32) -> (r: bool)
    ensures
        r == (now.wrapping_sub(start) >= t),
{
    now.wrapping_sub(start) >= t
}

/// Reentrant mutex: a binary semaphore with holder identity and nesting
/// depth. The same holder may re-lock without blocking; only the outermost
/// unlock releases the semaphore.
pub struct Lock {
    pub holder: Option<usize>,
    pub sem: Semaphore,
    pub repeats: u32,
}

impl Lock {
    /// A holder is recorded exactly while the semaphore is taken, and the
    /// nesting depth is positive exactly while someone holds the lock.
    pub open spec fn wf_for(&self, sched: Sched) -> bool {
        &&& self.sem.wf_for(sched)
        &&& self.sem.value <= 1
        &&& (self.holder is None <==> self.repeats == 0)
        &&& (self.holder is Some ==> self.sem.value == 0)
    }

    /// An open lock.
    pub fn new() -> (r: Lock)
        ensures
            r.holder is None,
            r.sem.value == 1,
            r.sem.waiters@.len() == 0,
            r.repeats == 0,
    {
        Lock { holder: None, sem: Semaphore::new(1), repeats: 0 }
    }

    /// Reset to the open state.
    pub fn init(&mut self)
        ensures
            final(self).holder is None,
            final(self).sem.value == 1,
            final(self).sem.waiters@.len() == 0,
            final(self).repeats == 0,
    {
        self.holder = None;
        self.sem = Semaphore::new(1);
        self.repeats = 0;
    }

    /// Acquire the lock, or nest one level deeper when the caller already
    /// holds it. Returns whether the caller now holds the lock; `false`
    /// means it was parked behind the holder and must retry after waking.
    pub fn lock(&mut self, sched: &mut Sched, cpu: &mut Cpu) -> (acquired: bool)
        requires
            old(sched).wf(),
            old(self).wf_for(*old(sched)),
            !old(self).sem.waiters@.contains(old(sched).current),
            old(self).repeats < 0xffff_ffff,
            old(self).sem.value == 0 ==> old(sched).current != old(sched).idle,
        ensures
            final(sched).wf(),
            final(self).wf_for(*final(sched)),
            final(cpu).int_on == old(cpu).int_on,
            old(self).holder == Some(old(sched).current) ==> {
                &&& acquired
                &&& final(self).repeats == old(self).repeats + 1
                &&& final(self).holder == old(self).holder
                &&& final(self).sem == old(self).sem
                &&& *final(sched) == *old(sched)
            },
            old(self).holder != Some(old(sched).current) && old(self).sem.value > 0 ==> {
                &&& acquired
                &&& final(self).holder == Some(old(sched).current)
                &&& final(self).repeats == 1
                &&& final(self).sem.value == 0
                &&& *final(sched) == *old(sched)
            },
            old(self).holder != Some(old(sched).current) && old(self).sem.value == 0 ==> {
                &&& !acquired
                &&& final(self).holder == old(self).holder
                &&& final(self).repeats == old(self).repeats
                &&& final(self).sem.waiters@ == old(self).sem.waiters@.push(old(sched).current)
                &&& final(sched).pcbs@[old(sched).current as int].status == Status::Blocked
            },
    {
        let cur = sched.current;
        let held = match self.holder {
            Some(h) => h == cur,
            None => false,
        };
        if held {
            let rep = self.repeats;
            self.repeats = rep + 1;
            return true;
        }
        let ghost sched0 = *sched;
        let acquired = self.sem.p(sched, cpu);
        if acquired {
            self.holder = Some(cur);
            self.repeats = 1;
            return true;
        }
        proof {
            let m1 = (SchedModel {
                statuses: sched0.model().statuses.update(sched0.current as int, Status::Blocked),
                ticks_left: sched0.model().ticks_left,
                priorities: sched0.model().priorities,
                ready: sched0.model().ready,
                current: sched0.model().current,
                idle: sched0.model().idle,
            });
            assert(sched.model() == m1.dispatch());
            let q = m1.dispatch_queue();
            let n = q[0];
            assert(n != sched0.current as int) by {
                if sched0.ready@.len() > 0 {
                    assert(sched0.pcbs@[sched0.ready@[0] as int].status == Status::Ready);
                }
            }
            assert(sched.model().statuses[sched0.current as int] == Status::Blocked);
            assert(sched.pcbs@[sched0.current as int].status == sched.model().statuses[
            sched0.current as int]);
        }
        false
    }

    /// Release one nesting level; the outermost release clears the holder
    /// and signals the semaphore, waking the first blocked contender.
    /// Unlocking without holding the lock is an internal error excluded by
    /// precondition.
    pub fn unlock(&mut self, sched: &mut Sched, cpu: &mut Cpu)
        requires
            old(sched).wf(),
            old(self).wf_for(*old(sched)),
            old(self).holder == Some(old(sched).current),
        ensures
            final(sched).wf(),
            final(self).wf_for(*final(sched)),
            final(cpu).int_on == old(cpu).int_on,
            old(self).repeats > 1 ==> {
                &&& final(self).repeats == old(self).repeats - 1
                &&& final(self).holder == old(self).holder
                &&& final(self).sem == old(self).sem
                &&& *final(sched) == *old(sched)
            },
            old(self).repeats == 1 ==> {
                &&& final(self).repeats == 0
                &&& final(self).holder is None
                &&& final(self).sem.value == 1
                &&& (old(self).sem.waiters@.len() == 0 ==> *final(sched) == *old(sched)
                    && final(self).sem.waiters@ == old(self).sem.waiters@)
                &&& (old(self).sem.waiters@.len() > 0 ==> {
                    let woken = old(self).sem.waiters@[0];
                    &&& final(self).sem.waiters@ == old(self).sem.waiters@.drop_first()
                    &&& final(sched).ready@ == seq![woken].add(old(sched).ready@)
                    &&& final(sched).pcbs@[woken as int].status == Status::Ready
                })
            },
    {
        if self.repeats > 1 {
            let rep = self.repeats;
            self.repeats = rep - 1;
            return ;
        }
        self.holder = None;
        self.repeats = 0;
        self.sem.v(sched, cpu);
    }
}

/// The no-block transition of `lock` for a caller that already holds it:
/// one nesting level deeper, everything else untouched.
pub open spec fn relock_step(l: Lock) -> Lock {
    Lock { holder: l.holder, sem: l.sem, repeats: (l.repeats + 1) as u32 }
}

/// `n` re-locks in a row.
pub open spec fn relock_n(l: Lock, n: int) -> Lock
    decreases n,
{
    if n <= 0 {
        l
    } else {
        relock_step(relock_n(l, n - 1))
    }
}

/// The transition of `unlock` above nesting depth one: one level shallower,
/// the semaphore untouched.
pub open spec fn inner_unlock_step(l: Lock) -> Lock {
    Lock { holder: l.holder, sem: l.sem, repeats: (l.repeats - 1) as u32 }
}

/// `k` inner unlocks in a row.
pub open spec fn inner_unlock_n(l: Lock, k: int) -> Lock
    decreases k,
{
    if k <= 0 {
        l
    } else {
        inner_unlock_step(inner_unlock_n(l, k - 1))
    }
}

proof fn lemma_relock_n_repeats(l: Lock, n: int)
    requires
        0 <= n,
        l.repeats + n <= 0xffff_ffff,
    ensures
        relock_n(l, n).repeats == l.repeats + n,
        relock_n(l, n).holder == l.holder,
        relock_n(l, n).sem == l.sem,
    decreases n,
{
    if n > 0 {
        lemma_relock_n_repeats(l, n - 1);
    }
}

proof fn lemma_inner_unlock_n_repeats(l: Lock, k: int)
    requires
        0 <= k <= l.repeats,
    ensures
        inner_unlock_n(l, k).repeats == l.repeats - k,
        inner_unlock_n(l, k).holder == l.holder,
        inner_unlock_n(l, k).sem == l.sem,
    decreases k,
{
    if k > 0 {
        lemma_inner_unlock_n_repeats(l, k - 1);
    }
}

/// Law: `n` nested acquisitions by the holder demand exactly `n` matching
/// releases before the semaphore is touched. `lock` by the holder is
/// `relock_step` and `unlock` above depth one is `inner_unlock_step`, as
/// their contracts state; after `n - 1` re-locks, the first `n - 1` releases
/// leave the semaphore exactly as it was and a deeper nesting level open,
/// and only the `n`-th release — the one `unlock` performs at depth one —
/// reaches the semaphore.
pub proof fn lemma_nested_lock_releases_at_n(l: Lock, n: int, k: int)
    requires
        l.repeats == 1,
        1 <= n,
        n <= 0xffff_fffe,
        0 <= k < n,
    ensures
        relock_n(l, n - 1).repeats == n,
        inner_unlock_n(relock_n(l, n - 1), k).sem == l.sem,
        inner_unlock_n(relock_n(l, n - 1), k).holder == l.holder,
        inner_unlock_n(relock_n(l, n - 1), k).repeats == n - k,
        k < n - 1 ==> inner_unlock_n(relock_n(l, n - 1), k).repeats > 1,
        k == n - 1 ==> inner_unlock_n(relock_n(l, n - 1), k).repeats == 1,
{
    lemma_relock_n_repeats(l, n - 1);
    lemma_inner_unlock_n_repeats(relock_n(l, n - 1), k);
}

/// Law: a control block never sits on the ready queue and a semaphore's
/// wait list at the same time — queued threads are `Ready`, waiting threads
/// are parked.
pub proof fn lemma_ready_wait_disjoint(sched: Sched, sem: Semaphore)
    requires
        sched.wf(),
        sem.wf_for(sched),
    ensures
        forall|k1: int, k2: int|
            0 <= k1 < sched.ready@.len() && 0 <= k2 < sem.waiters@.len() ==> #[trigger] sched
                .ready@[k1] != #[trigger] sem.waiters@[k2],
{
    assert forall|k1: int, k2: int|
        0 <= k1 < sched.ready@.len() && 0 <= k2 < sem.waiters@.len() implies #[trigger] sched
        .ready@[k1] != #[trigger] sem.waiters@[k2] by {
        assert(sched.pcbs@[sched.ready@[k1] as int].status == Status::Ready);
    }
}

} // verus!
