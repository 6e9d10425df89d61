use kcore::intr::Cpu;
use kcore::mem;
use kcore::page::{PageDirectory, PDE_START};
use kcore::sync::{block, th_yield, unblock, Lock, Semaphore, SpinLock};
use kcore::thread::{new_thread, PCB, Sched, Status, PCB_SIZE};

fn boot_sched(main_priority: u8) -> Sched {
    let main = PCB::new(b"main".to_vec(), main_priority, 0x200000);
    let idle = PCB::new(b"idle".to_vec(), 1, 0x200000 + PCB_SIZE);
    Sched::new(main, idle)
}

fn spawn3(sched: &mut Sched, priority: u8) -> (Vec<usize>, PageDirectory) {
    let layout = mem::init(64 * 1024 * 1024);
    let mut v = layout.v;
    let mut phys = layout.kernel;
    let mut dir = PageDirectory::new(PDE_START);
    let mut ids = Vec::new();
    for name in [b"th0".to_vec(), b"th1".to_vec(), b"th2".to_vec()] {
        let id = new_thread(sched, &mut v, &mut phys, &mut dir, 0x100000, 0, 15, name, priority)
            .unwrap();
        ids.push(id);
    }
    (ids, dir)
}

// End-to-end scenario: three threads at priority 1 plus the boot thread take
// turns in queue order, each running before any repeats.
#[test]
fn round_robin_runs_each_before_repeats() {
    let mut sched = boot_sched(1);
    let cpu = Cpu::new();
    let (ids, _dir) = spawn3(&mut sched, 1);
    assert_eq!(ids, vec![2, 3, 4]);

    let mut order = Vec::new();
    // each quota is one tick: the first tick burns it, the second dispatches
    for _ in 0..8 {
        sched.handle_int(&cpu);
        order.push(sched.current);
    }
    assert_eq!(order, vec![0, 2, 2, 3, 3, 4, 4, 0]);

    // exactly one control block is running at any point
    let running: Vec<usize> = (0..sched.pcbs.len())
        .filter(|id| sched.pcbs[*id].status == Status::Running)
        .collect();
    assert_eq!(running, vec![sched.current]);
}

#[test]
fn idle_thread_takes_over_when_nothing_is_ready() {
    let mut sched = boot_sched(1);
    let mut cpu = Cpu::new();
    // the only thread parks itself: the idle thread must be forced ready
    block(&mut sched, &mut cpu, Status::Blocked);
    assert_eq!(sched.current, sched.idle);
    assert_eq!(sched.pcbs[sched.idle].status, Status::Running);
    assert_eq!(sched.pcbs[0].status, Status::Blocked);
}

#[test]
fn yield_requeues_at_tail() {
    let mut sched = boot_sched(5);
    let mut cpu = Cpu::new();
    let (ids, _dir) = spawn3(&mut sched, 5);
    th_yield(&mut sched, &mut cpu);
    // the former current went to the tail; the first spawned thread runs
    assert_eq!(sched.current, ids[0]);
    assert_eq!(sched.ready, vec![ids[1], ids[2], 0]);
}

// P then V on an uncontended semaphore never blocks and restores the value.
#[test]
fn uncontended_p_v_never_blocks() {
    let mut sched = boot_sched(5);
    let mut cpu = Cpu::new();
    let mut sem = Semaphore::new(1);
    let cur = sched.current;

    let acquired = sem.p(&mut sched, &mut cpu);
    assert!(acquired);
    assert_eq!(sem.value, 0);
    assert_eq!(sched.current, cur);
    assert_eq!(sched.pcbs[cur].status, Status::Running);

    sem.v(&mut sched, &mut cpu);
    assert_eq!(sem.value, 1);
    assert_eq!(sched.current, cur);
}

// End-to-end scenario: thread A waits on a zero semaphore, B signals; A
// moves Blocked -> Ready -> Running without a duplicate ready entry.
#[test]
fn blocked_p_wakes_through_v() {
    let mut sched = boot_sched(5);
    let mut cpu = Cpu::new();
    let (ids, _dir) = spawn3(&mut sched, 5);
    let a = sched.current;
    let mut sem = Semaphore::new(0);

    let acquired = sem.p(&mut sched, &mut cpu);
    assert!(!acquired);
    assert_eq!(sched.pcbs[a].status, Status::Blocked);
    assert_eq!(sem.waiters, vec![a]);
    assert_eq!(sched.current, ids[0]);

    // the signalling thread wakes A to the head of the ready queue
    sem.v(&mut sched, &mut cpu);
    assert_eq!(sem.value, 1);
    assert!(sem.waiters.is_empty());
    assert_eq!(sched.pcbs[a].status, Status::Ready);
    let on_ready: Vec<&usize> = sched.ready.iter().filter(|id| **id == a).collect();
    assert_eq!(on_ready.len(), 1);

    // A runs again on the next dispatch and takes the unit it waited for
    th_yield(&mut sched, &mut cpu);
    assert_eq!(sched.current, a);
    assert_eq!(sched.pcbs[a].status, Status::Running);
    let again = sem.p(&mut sched, &mut cpu);
    assert!(again);
    assert_eq!(sem.value, 0);
}

// Three nested locks need exactly three unlocks before the semaphore is
// released.
#[test]
fn nested_lock_unlock_releases_at_outermost() {
    let mut sched = boot_sched(5);
    let mut cpu = Cpu::new();
    let mut lock = Lock::new();

    for expect in [1u32, 2, 3] {
        let got = lock.lock(&mut sched, &mut cpu);
        assert!(got);
        assert_eq!(lock.repeats, expect);
        assert_eq!(lock.sem.value, 0);
    }
    lock.unlock(&mut sched, &mut cpu);
    assert_eq!(lock.repeats, 2);
    assert_eq!(lock.sem.value, 0);
    lock.unlock(&mut sched, &mut cpu);
    assert_eq!(lock.repeats, 1);
    assert_eq!(lock.sem.value, 0);
    lock.unlock(&mut sched, &mut cpu);
    assert_eq!(lock.repeats, 0);
    assert_eq!(lock.holder, None);
    assert_eq!(lock.sem.value, 1);
}

// A second thread's lock against a held lock blocks until the holder's
// outermost unlock.
#[test]
fn contended_lock_blocks_until_outermost_unlock() {
    let mut sched = boot_sched(5);
    let mut cpu = Cpu::new();
    let (ids, _dir) = spawn3(&mut sched, 5);
    let holder = sched.current;
    let mut lock = Lock::new();

    assert!(lock.lock(&mut sched, &mut cpu));
    assert!(lock.lock(&mut sched, &mut cpu));

    // hand the processor to the second thread; its lock attempt parks it
    th_yield(&mut sched, &mut cpu);
    let contender = sched.current;
    assert_eq!(contender, ids[0]);
    let got = lock.lock(&mut sched, &mut cpu);
    assert!(!got);
    assert_eq!(sched.pcbs[contender].status, Status::Blocked);
    assert_eq!(lock.sem.waiters, vec![contender]);

    // hand the processor back to the holder
    th_yield(&mut sched, &mut cpu);
    th_yield(&mut sched, &mut cpu);
    assert_eq!(sched.current, holder);

    // the holder unlocks twice; only the second release wakes the contender
    lock.unlock(&mut sched, &mut cpu);
    assert_eq!(sched.pcbs[contender].status, Status::Blocked);
    lock.unlock(&mut sched, &mut cpu);
    assert_eq!(sched.pcbs[contender].status, Status::Ready);
    assert_eq!(lock.holder, None);
}

#[test]
fn unblock_puts_thread_at_ready_head() {
    let mut sched = boot_sched(5);
    let mut cpu = Cpu::new();
    let (ids, _dir) = spawn3(&mut sched, 5);
    block(&mut sched, &mut cpu, Status::Waiting);
    assert_eq!(sched.pcbs[0].status, Status::Waiting);
    unblock(&mut sched, &mut cpu, 0);
    assert_eq!(sched.ready[0], 0);
    assert_eq!(sched.pcbs[0].status, Status::Ready);
    assert_eq!(sched.current, ids[0]);
}

#[test]
fn user_process_gets_own_directory() {
    let mut sched = boot_sched(5);
    let layout = kcore::mem::init(64 * 1024 * 1024);
    let mut v = layout.v;
    let mut phys = layout.kernel;
    let mut dir = PageDirectory::new(PDE_START);
    // a kernel mapping the new process must inherit
    let va = v.v_start;
    kcore::palloc::alloc_one(&mut v, &mut phys, &mut dir, va).unwrap();

    let (id, udir) = kcore::user::create(
        &mut sched,
        &mut v,
        &mut phys,
        &mut dir,
        0x100000,
        0,
        0,
        b"proc".to_vec(),
        8,
    )
    .unwrap();
    assert!(sched.pcbs[id].user());
    assert_eq!(sched.pcbs[id].pd, udir.base);
    assert_eq!(sched.pcbs[id].v_pool.v_start, 8 * 1024 * 1024);
    // the kernel mapping carried over; the loopback slot points home
    assert_eq!(kcore::page::v2p(&udir, va), kcore::page::v2p(&dir, va));
    assert_eq!(udir.entries[1023].data & 0xfffff000, udir.base);
}

#[test]
fn spinlock_exchange() {
    let mut s = SpinLock::new();
    assert_eq!(s.data, 0);
    s.lock();
    assert_eq!(s.data, 1);
    s.unlock();
    assert_eq!(s.data, 0);
}

#[test]
fn interrupt_flag_save_restore() {
    let mut cpu = Cpu::new();
    assert!(!cpu.int_enabled());
    let old = cpu.enable_int();
    assert!(!old);
    assert!(cpu.int_enabled());
    let old2 = cpu.disable_int();
    assert!(old2);
    assert!(!cpu.int_enabled());
    cpu.set_int(old2);
    assert!(cpu.int_enabled());
}

#[test]
fn tick_accounting_decrements_quota() {
    let mut sched = boot_sched(3);
    let cpu = Cpu::new();
    assert_eq!(sched.pcbs[0].ticks, 3);
    sched.handle_int(&cpu);
    assert_eq!(sched.pcbs[0].ticks, 2);
    assert_eq!(sched.ticks(), 1);
    assert_eq!(sched.pcbs[0].elapsed_ticks, 1);
}

#[test]
fn sleep_done_wraps() {
    assert!(kcore::sync::sleep_done(10, 25, 15));
    assert!(!kcore::sync::sleep_done(10, 24, 15));
    // the tick counter may wrap around between the two reads
    assert!(kcore::sync::sleep_done(u32::MAX - 1, 3, 5));
}
