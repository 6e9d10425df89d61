//! Control blocks and the preemptive scheduler.
//!
//! Threads live in a registry and are named by their index, the stable
//! thread id; the ready queue holds ids. Dispatch pops the queue head and
//! runs it; a quota of timer ticks, reset from the thread's priority on
//! requeue, bounds each turn. When nothing is ready a dedicated idle thread
//! is forced ready first, so dispatch always finds work.

use vstd::prelude::*;

use crate::arena::Heap;
use crate::err::SE;
use crate::intr::Cpu;
use crate::page::PageDirectory;
use crate::palloc::pg_alloc;
use crate::pool::{PagePool, VPool};
use crate::reg::{KernelCtx, INT_CTX_SIZE, KERNEL_CTX_SIZE};

verus! {

/// Quota, in ticks, granted per dispatch to ordinary threads.
pub const DEFAULT_PRIORITY: u8 = 32;

/// Priority of the boot thread.
pub const MAIN_PRIORITY: u8 = 32;

/// Pages of one control block.
pub const PCB_PAGES: usize = 1;

/// Bytes of one control block page.
pub const PCB_SIZE: usize = 4096;

/// Guard value at the end of the header; a tick that finds it changed has
/// caught the stack overflowing into the control block.
pub const STACK_MAGIC: u32 = 0x238745ea;

/// Kernel data segment selector loaded into a fresh thread's context.
pub const SELECTOR_K_DATA: u32 = 16;

/// Bytes of the fixed name buffer in a control block.
pub const NAME_BUF_LEN: usize = 16;

/// Lifecycle of a control block.
#[derive(Clone, Copy, PartialEq, Eq, Structural, Debug)]
pub enum Status {
    Ready,
    Running,
    Blocked,
    Waiting,
    Hanging,
    Died,
}

/// One control block: scheduling state, naming, the optional page directory
/// of a user process, and the per-thread virtual pool and heap descriptors.
pub struct PCB {
    /// Page start of this control block; the model's stand-in for its
    /// address.
    pub off: usize,
    /// Current stack top within the control-block page.
    pub stack: usize,
    pub status: Status,
    pub priority: u8,
    /// Ticks left of the current quota.
    pub ticks: u8,
    pub elapsed_ticks: u32,
    pub name: Vec<u8>,
    /// Physical address of the page directory; 0 marks a kernel thread.
    pub pd: usize,
    /// Virtual pool of a user process.
    pub v_pool: VPool,
    /// Heap descriptors of a user process.
    pub heap: Heap,
    pub magic: u32,
    /// The saved context a fresh thread first resumes from.
    pub kctx: KernelCtx,
}

impl PCB {
    /// A fresh, ready control block on the page at `off`. The name is a
    /// fixed-size record field: at most `NAME_BUF_LEN` bytes are kept.
    pub fn new(name: Vec<u8>, priority: u8, off: usize) -> (r: PCB)
        requires
            off + PCB_SIZE <= usize::MAX,
        ensures
            r.off == off,
            r.stack == off + PCB_SIZE,
            r.status == Status::Ready,
            r.priority == priority,
            r.ticks == priority,
            r.elapsed_ticks == 0,
            r.pd == 0,
            r.magic == STACK_MAGIC,
            r.name@ == (if name@.len() <= NAME_BUF_LEN {
                name@
            } else {
                name@.subrange(0, NAME_BUF_LEN as int)
            }),
    {
        let mut stored = name;
        stored.truncate(NAME_BUF_LEN);
        PCB {
            off,
            stack: off + PCB_SIZE,
            status: Status::Ready,
            priority,
            ticks: priority,
            elapsed_ticks: 0,
            name: stored,
            pd: 0,
            v_pool: VPool::new(0, 0),
            heap: Heap::new(),
            magic: STACK_MAGIC,
            kctx: KernelCtx::zero(),
        }
    }

    /// Prime the saved context so that first dispatch lands in `entry`,
    /// which enables interrupts and calls routine `rt` with `arg`. Every
    /// thread's first resumption then looks like an ordinary switch.
    pub fn init(&mut self, entry: u32, rt: u32, arg: u32)
        requires
            old(self).stack >= INT_CTX_SIZE + KERNEL_CTX_SIZE,
        ensures
            final(self).stack == old(self).stack - INT_CTX_SIZE - KERNEL_CTX_SIZE,
            final(self).kctx.eip == entry,
            final(self).kctx.func == rt,
            final(self).kctx.arg == arg,
            final(self).kctx.ds == SELECTOR_K_DATA,
            final(self).kctx.es == SELECTOR_K_DATA,
            final(self).off == old(self).off,
            final(self).status == old(self).status,
            final(self).priority == old(self).priority,
            final(self).ticks == old(self).ticks,
            final(self).elapsed_ticks == old(self).elapsed_ticks,
            final(self).name@ == old(self).name@,
            final(self).pd == old(self).pd,
            final(self).magic == old(self).magic,
    {
        self.stack = self.stack - INT_CTX_SIZE - KERNEL_CTX_SIZE;
        self.kctx.func = rt;
        self.kctx.eip = entry;
        self.kctx.ds = SELECTOR_K_DATA;
        self.kctx.es = SELECTOR_K_DATA;
        self.kctx.arg = arg;
    }

    /// Whether this control block runs a user process.
    pub fn user(&self) -> (r: bool)
        ensures
            r == (self.pd != 0),
    {
        self.pd != 0
    }

    /// Whether the stack has overflowed into the header.
    pub fn overflow(&self) -> (r: bool)
        ensures
            r == (self.magic != STACK_MAGIC),
    {
        self.magic != STACK_MAGIC
    }

    /// Page start of this control block.
    pub fn off(&self) -> (r: usize)
        ensures
            r == self.off,
    {
        self.off
    }

    /// Top of this control block's page, the initial stack pointer.
    pub fn stack_off(&self) -> (r: usize)
        requires
            self.off + PCB_SIZE <= usize::MAX,
        ensures
            r == self.off + PCB_SIZE,
    {
        self.off + PCB_SIZE
    }

    /// Borrow the status for update.
    pub fn status_mut(&mut self) -> (r: &mut Status)
        ensures
            *r == old(self).status,
            final(self).status == *final(r),
            final(self).off == old(self).off,
            final(self).stack == old(self).stack,
            final(self).priority == old(self).priority,
            final(self).ticks == old(self).ticks,
            final(self).elapsed_ticks == old(self).elapsed_ticks,
            final(self).name@ == old(self).name@,
            final(self).pd == old(self).pd,
            final(self).v_pool == old(self).v_pool,
            final(self).heap == old(self).heap,
            final(self).magic == old(self).magic,
            final(self).kctx == old(self).kctx,
    {
        &mut self.status
    }

    /// Borrow the virtual pool for update.
    pub fn v_pool(&mut self) -> (r: &mut VPool)
        ensures
            *r == old(self).v_pool,
            final(self).v_pool == *final(r),
            final(self).off == old(self).off,
            final(self).stack == old(self).stack,
            final(self).status == old(self).status,
            final(self).priority == old(self).priority,
            final(self).ticks == old(self).ticks,
            final(self).elapsed_ticks == old(self).elapsed_ticks,
            final(self).name@ == old(self).name@,
            final(self).pd == old(self).pd,
            final(self).heap == old(self).heap,
            final(self).magic == old(self).magic,
            final(self).kctx == old(self).kctx,
    {
        &mut self.v_pool
    }
}

/// The scheduling-relevant part of a scheduler state: statuses, quotas and
/// the ready queue, with threads named by registry index.
pub struct SchedModel {
    pub statuses: Seq<Status>,
    pub ticks_left: Seq<u8>,
    pub priorities: Seq<u8>,
    pub ready: Seq<int>,
    pub current: int,
    pub idle: int,
}

impl SchedModel {
    /// The queue dispatch pops from: the current thread is requeued at the
    /// tail while it is still runnable; an empty queue is refilled with the
    /// idle thread.
    pub open spec fn dispatch_queue(self) -> Seq<int> {
        if self.statuses[self.current] == Status::Running {
            self.ready.push(self.current)
        } else if self.ready.len() == 0 {
            seq![self.idle]
        } else {
            self.ready
        }
    }

    /// One scheduling decision: requeue the current thread if runnable
    /// (resetting its quota), pop the head, and run it.
    pub open spec fn dispatch(self) -> SchedModel {
        let q = self.dispatch_queue();
        let n = q[0];
        let st1 = if self.statuses[self.current] == Status::Running {
            self.statuses.update(self.current, Status::Ready)
        } else {
            self.statuses
        };
        let st2 = if n == self.idle && self.ready.len() == 0 && self.statuses[self.current]
            != Status::Running {
            st1.update(self.idle, Status::Ready)
        } else {
            st1
        };
        SchedModel {
            statuses: st2.update(n, Status::Running),
            ticks_left: if self.statuses[self.current] == Status::Running {
                self.ticks_left.update(self.current, self.priorities[self.current])
            } else {
                self.ticks_left
            },
            priorities: self.priorities,
            ready: q.drop_first(),
            current: n,
            idle: self.idle,
        }
    }
}

/// The scheduler: the registry of every control block (the all list, with
/// the thread id as index), the ready queue, and tick accounting.
pub struct Sched {
    pub pcbs: Vec<PCB>,
    pub ready: Vec<usize>,
    pub current: usize,
    pub idle: usize,
    pub ticks: u32,
}

impl Sched {
    /// The scheduling-relevant abstraction of this state.
    pub open spec fn model(&self) -> SchedModel {
        SchedModel {
            statuses: Seq::new(self.pcbs@.len(), |i: int| self.pcbs@[i].status),
            ticks_left: Seq::new(self.pcbs@.len(), |i: int| self.pcbs@[i].ticks),
            priorities: Seq::new(self.pcbs@.len(), |i: int| self.pcbs@[i].priority),
            ready: Seq::new(self.ready@.len(), |i: int| self.ready@[i] as int),
            current: self.current as int,
            idle: self.idle as int,
        }
    }

    /// The part of the invariant that survives parking the current thread:
    /// any `Running` thread is the current one, and the ready queue holds
    /// distinct ids of `Ready` threads.
    pub open spec fn wf_base(&self) -> bool {
        &&& self.current < self.pcbs@.len()
        &&& self.idle < self.pcbs@.len()
        &&& (forall|id: int|
            0 <= id < self.pcbs@.len() && #[trigger] self.pcbs@[id].status == Status::Running
                ==> id == self.current)
        &&& (forall|k: int|
            0 <= k < self.ready@.len() ==> (#[trigger] self.ready@[k]) < self.pcbs@.len()
                && self.pcbs@[self.ready@[k] as int].status == Status::Ready)
        &&& (forall|k1: int, k2: int|
            0 <= k1 < self.ready@.len() && 0 <= k2 < self.ready@.len() && k1 != k2
                ==> #[trigger] self.ready@[k1] != #[trigger] self.ready@[k2])
    }

    /// Scheduler invariant: exactly one thread is `Running` — the current
    /// one — on top of the base invariant.
    pub open spec fn wf(&self) -> bool {
        &&& self.wf_base()
        &&& self.pcbs@[self.current as int].status == Status::Running
    }

    /// A scheduler over the already-running boot thread and a parked idle
    /// thread.
    pub fn new(mut main: PCB, mut idle_pcb: PCB) -> (r: Sched)
        ensures
            r.wf(),
            r.pcbs@.len() == 2,
            r.current == 0,
            r.idle == 1,
            r.ready@.len() == 0,
            r.ticks == 0,
            r.pcbs@[0].status == Status::Running,
            r.pcbs@[1].status == Status::Hanging,
    {
        main.status = Status::Running;
        idle_pcb.status = Status::Hanging;
        let mut pcbs: Vec<PCB> = Vec::new();
        pcbs.push(main);
        pcbs.push(idle_pcb);
        Sched { pcbs, ready: Vec::new(), current: 0, idle: 1, ticks: 0 }
    }

    /// The currently running control block.
    pub fn current_pcb(&self) -> (r: &PCB)
        requires
            self.wf(),
        ensures
            r == self.pcbs@[self.current as int],
    {
        &self.pcbs[self.current]
    }

    /// Global tick count.
    pub fn ticks(&self) -> (r: u32)
        ensures
            r == self.ticks,
    {
        self.ticks
    }

    /// Dispatch the next thread: exactly the `dispatch` step of the model.
    /// Interrupts must be off; the scheduler relies on non-reentrant
    /// execution, not locks, for its own list manipulation.
    pub fn schedule(&mut self, cpu: &Cpu)
        requires
            old(self).wf_base(),
            !cpu.int_on,
        ensures
            final(self).wf(),
            final(self).model() == old(self).model().dispatch(),
            final(self).ticks == old(self).ticks,
            final(self).idle == old(self).idle,
            final(self).pcbs@.len() == old(self).pcbs@.len(),
            forall|id: int|
                0 <= id < final(self).pcbs@.len() ==> (#[trigger] final(self).pcbs@[id]).off
                    == old(self).pcbs@[id].off && final(self).pcbs@[id].pd
                    == old(self).pcbs@[id].pd && final(self).pcbs@[id].priority
                    == old(self).pcbs@[id].priority && final(self).pcbs@[id].magic
                    == old(self).pcbs@[id].magic && final(self).pcbs@[id].elapsed_ticks
                    == old(self).pcbs@[id].elapsed_ticks && final(self).pcbs@[id].name@
                    == old(self).pcbs@[id].name@ && final(self).pcbs@[id].stack
                    == old(self).pcbs@[id].stack && final(self).pcbs@[id].kctx
                    == old(self).pcbs@[id].kctx,
    {
        let cur = self.current;
        let running = self.pcbs[cur].status == Status::Running;
        if running {
            let c = &mut self.pcbs[cur];
            c.status = Status::Ready;
            let pr = c.priority;
            c.ticks = pr;
            self.ready.push(cur);
        }
        if self.ready.len() == 0 {
            let idle = self.idle;
            let c = &mut self.pcbs[idle];
            c.status = Status::Ready;
            self.ready.push(idle);
        }
        let n = self.ready.remove(0);
        let c = &mut self.pcbs[n];
        c.status = Status::Running;
        self.current = n;
        proof {
            let m0 = old(self).model();
            let m1 = final(self).model();
            assert(m1.statuses =~= m0.dispatch().statuses);
            assert(m1.ticks_left =~= m0.dispatch().ticks_left);
            assert(m1.priorities =~= m0.dispatch().priorities);
            assert(m1.ready =~= m0.dispatch().ready);
            assert(m1 == m0.dispatch());
        }
    }

    /// One timer tick: account the tick, verify the stack guard of the
    /// running thread, and burn one unit of its quota; when the quota is
    /// already exhausted, schedule instead.
    pub fn handle_int(&mut self, cpu: &Cpu)
        requires
            old(self).wf(),
            !cpu.int_on,
            old(self).pcbs@[old(self).current as int].magic == STACK_MAGIC,
        ensures
            final(self).wf(),
            final(self).ticks == old(self).ticks.wrapping_add(1),
            final(self).idle == old(self).idle,
            final(self).pcbs@.len() == old(self).pcbs@.len(),
            forall|id: int|
                0 <= id < final(self).pcbs@.len() ==> (#[trigger] final(self).pcbs@[id]).off
                    == old(self).pcbs@[id].off && final(self).pcbs@[id].pd
                    == old(self).pcbs@[id].pd && final(self).pcbs@[id].priority
                    == old(self).pcbs@[id].priority && final(self).pcbs@[id].magic
                    == old(self).pcbs@[id].magic && final(self).pcbs@[id].name@
                    == old(self).pcbs@[id].name@ && final(self).pcbs@[id].stack
                    == old(self).pcbs@[id].stack && final(self).pcbs@[id].kctx
                    == old(self).pcbs@[id].kctx,
            forall|id: int|
                0 <= id < final(self).pcbs@.len() && id != old(self).current
                    ==> (#[trigger] final(self).pcbs@[id]).elapsed_ticks
                    == old(self).pcbs@[id].elapsed_ticks,
            old(self).pcbs@[old(self).current as int].ticks > 0 ==> {
                &&& final(self).current == old(self).current
                &&& final(self).ready@ == old(self).ready@
                &&& final(self).pcbs@[old(self).current as int].ticks == old(self).pcbs@[old(self).current as int].ticks - 1
                &&& (forall|id: int|
                    0 <= id < final(self).pcbs@.len() && id != old(self).current
                        ==> #[trigger] final(self).pcbs@[id] == old(self).pcbs@[id])
            },
            old(self).pcbs@[old(self).current as int].ticks == 0 ==> final(self).model()
                == old(self).model().dispatch(),
            final(self).pcbs@[old(self).current as int].elapsed_ticks == old(self).pcbs@[old(self).current as int].elapsed_ticks.wrapping_add(1),
    {
        let cur = self.current;
        self.ticks = self.ticks.wrapping_add(1);
        let c = &mut self.pcbs[cur];
        let e = c.elapsed_ticks;
        c.elapsed_ticks = e.wrapping_add(1);
        if c.ticks != 0 {
            let t = c.ticks;
            c.ticks = t - 1;
            return ;
        }
        proof {
            assert(self.model().statuses =~= old(self).model().statuses);
            assert(self.model().ticks_left =~= old(self).model().ticks_left);
            assert(self.model().priorities =~= old(self).model().priorities);
            assert(self.model().ready =~= old(self).model().ready);
            assert(self.model() == old(self).model());
        }
        self.schedule(cpu);
    }
}

/// Spawn a kernel thread: allocate its control-block page, prime its first
/// context so dispatch lands in `entry` (which calls routine `rt` with
/// `args`), and append it to the ready queue and the registry. Returns the
/// new thread's id.
pub fn new_thread(
    sched: &mut Sched,
    v: &mut VPool,
    phys: &mut PagePool,
    dir: &mut PageDirectory,
    entry: u32,
    rt: u32,
    args: u32,
    name: Vec<u8>,
    priority: u8,
) -> (r: Result<usize, SE>)
    requires
        old(sched).wf(),
        old(v).wf(),
        old(phys).wf(),
        old(dir).wf(),
    ensures
        final(sched).wf(),
        final(v).wf(),
        final(phys).wf(),
        final(dir).wf(),
        final(v).v_start == old(v).v_start,
        final(v).bitmap@.len() == old(v).bitmap@.len(),
        final(dir).base == old(dir).base,
        final(phys).total_pages == old(phys).total_pages,
        final(phys).p_start == old(phys).p_start,
        match r {
            Ok(id) => {
                &&& id == old(sched).pcbs@.len()
                &&& final(sched).pcbs@.len() == old(sched).pcbs@.len() + 1
                &&& final(sched).pcbs@[id as int].status == Status::Ready
                &&& final(sched).pcbs@[id as int].priority == priority
                &&& final(sched).pcbs@[id as int].ticks == priority
                &&& final(sched).pcbs@[id as int].kctx.eip == entry
                &&& final(sched).pcbs@[id as int].kctx.func == rt
                &&& final(sched).pcbs@[id as int].kctx.arg == args
                &&& final(sched).pcbs@[id as int].name@ == (if name@.len() <= NAME_BUF_LEN {
                    name@
                } else {
                    name@.subrange(0, NAME_BUF_LEN as int)
                })
                &&& final(sched).pcbs@[id as int].pd == 0
                &&& final(sched).pcbs@[id as int].magic == STACK_MAGIC
                &&& final(sched).pcbs@[id as int].elapsed_ticks == 0
                &&& (forall|j: int|
                    0 <= j < old(sched).pcbs@.len() ==> final(sched).pcbs@[j] == old(
                        sched,
                    ).pcbs@[j])
                &&& final(sched).ready@ == old(sched).ready@.push(id)
                &&& final(sched).current == old(sched).current
                &&& final(sched).idle == old(sched).idle
                &&& final(sched).ticks == old(sched).ticks
                &&& old(phys).avl_pages - 2 <= final(phys).avl_pages <= old(phys).avl_pages - 1
                &&& (exists|s: int|
                    0 <= s && s + 1 <= old(v).bitmap@.len() && final(v).bitmap@
                        == #[trigger] crate::bitmap::filled(old(v).bitmap@, s, 1, true))
            },
            Err(e) => {
                &&& *final(sched) == *old(sched)
                &&& (e == SE::NotEnoughMemory <==> old(phys).avl_pages < 1)
                &&& (e == SE::NotEnoughMemory ==> *final(v) == *old(v) && *final(phys) == *old(
                    phys,
                ))
            },
        },
        old(phys).avl_pages >= 2 && (exists|j: int|
            0 <= j && j + 1 <= old(v).bitmap@.len() && crate::bitmap::free_run(
                old(v).bitmap@,
                j,
                1,
            )) ==> r is Ok,
{
    let pcb_off = match pg_alloc(v, phys, dir, 1) {
        Ok(off) => off,
        Err(e) => {
            return Err(e);
        },
    };
    proof {
        lemma_pcb_page_bound(
            old(v).v_start as int,
            pcb_off as int,
            old(v).bitmap@.len() as int,
        );
    }
    let mut pcb = PCB::new(name, priority, pcb_off);
    pcb.init(entry, rt, args);
    let id = sched.pcbs.len();
    sched.pcbs.push(pcb);
    sched.ready.push(id);
    Ok(id)
}

/// A control-block page from the virtual pool leaves room for the whole
/// block below the loopback window.
proof fn lemma_pcb_page_bound(v_start: int, off: int, len: int)
    by (nonlinear_arith)
    requires
        0 <= v_start,
        v_start <= off,
        (off - v_start) % 4096 == 0,
        (off - v_start) / 4096 + 1 <= len,
        v_start + len * 4096 <= 0xffc00000,
    ensures
        off + 4096 <= 0xffc00000,
{
}

/// `k` scheduling decisions in a row.
pub open spec fn dispatch_n(m: SchedModel, k: int) -> SchedModel
    decreases k,
{
    if k <= 0 {
        m
    } else {
        dispatch_n(m, k - 1).dispatch()
    }
}

/// Iterating dispatch peels from the front as well as from the back.
pub proof fn lemma_dispatch_n_shift(m: SchedModel, k: int)
    requires
        1 <= k,
    ensures
        dispatch_n(m, k) == dispatch_n(m.dispatch(), k - 1),
    decreases k,
{
    if k == 1 {
        assert(dispatch_n(m, 1) == dispatch_n(m, 0).dispatch());
        assert(dispatch_n(m, 0) == m);
        assert(dispatch_n(m.dispatch(), 0) == m.dispatch());
    } else {
        lemma_dispatch_n_shift(m, k - 1);
        assert(dispatch_n(m, k) == dispatch_n(m, k - 1).dispatch());
        assert(dispatch_n(m.dispatch(), k - 1) == dispatch_n(m.dispatch(), k - 2).dispatch());
    }
}

/// Law: round-robin fairness. With the current thread running and `N`
/// threads of the ready queue all ready and distinct, the `j`-th scheduling
/// decision hands the processor to the `j`-th queued thread, for every
/// `j <= N`: each ready thread runs before any thread runs twice, in queue
/// order, and none of them is the thread that was running.
pub proof fn lemma_round_robin(m: SchedModel, j: int)
    requires
        0 <= m.current < m.statuses.len(),
        m.statuses[m.current] == Status::Running,
        forall|k: int|
            0 <= k < m.ready.len() ==> 0 <= #[trigger] m.ready[k] < m.statuses.len()
                && m.statuses[m.ready[k]] == Status::Ready,
        forall|k1: int, k2: int|
            0 <= k1 < m.ready.len() && 0 <= k2 < m.ready.len() && k1 != k2 ==> #[trigger] m.ready[k1]
                != #[trigger] m.ready[k2],
        1 <= j <= m.ready.len(),
    ensures
        dispatch_n(m, j).current == m.ready[j - 1],
        dispatch_n(m, j).current != m.current,
    decreases j,
{
    let m1 = m.dispatch();
    let q = m.dispatch_queue();
    assert(q == m.ready.push(m.current));
    assert(m1.current == m.ready[0]);
    assert(m.ready[j - 1] != m.current);
    lemma_dispatch_n_shift(m, j);
    if j > 1 {
        assert(m1.ready =~= m.ready.drop_first().push(m.current));
        assert(m1.statuses[m1.current] == Status::Running);
        assert forall|k: int|
            0 <= k < m1.ready.len() implies 0 <= #[trigger] m1.ready[k] < m1.statuses.len()
            && m1.statuses[m1.ready[k]] == Status::Ready by {
            if k < m1.ready.len() - 1 {
                assert(m1.ready[k] == m.ready[k + 1]);
                assert(m.ready[k + 1] != m.ready[0]);
            } else {
                assert(m1.ready[k] == m.current);
            }
        }
        assert forall|k1: int, k2: int|
            0 <= k1 < m1.ready.len() && 0 <= k2 < m1.ready.len() && k1 != k2 implies #[trigger] m1
                .ready[k1] != #[trigger] m1.ready[k2] by {
            if k1 < m1.ready.len() - 1 && k2 < m1.ready.len() - 1 {
                assert(m1.ready[k1] == m.ready[k1 + 1] && m1.ready[k2] == m.ready[k2 + 1]);
            } else if k1 == m1.ready.len() - 1 {
                assert(m1.ready[k1] == m.current && m1.ready[k2] == m.ready[k2 + 1]);
            } else {
                assert(m1.ready[k2] == m.current && m1.ready[k1] == m.ready[k1 + 1]);
            }
        }
        lemma_round_robin(m1, j - 1);
        assert(m1.ready[j - 2] == m.ready[j - 1]);
    }
}

/// Boot wiring of the scheduler: the already-running boot thread becomes
/// the first registry entry, with the parked idle thread beside it.
pub fn init(main: PCB, idle_pcb: PCB) -> (r: Sched)
    ensures
        r.wf(),
        r.pcbs@.len() == 2,
        r.current == 0,
        r.idle == 1,
        r.ready@.len() == 0,
{
    Sched::new(main, idle_pcb)
}

} // verus!
