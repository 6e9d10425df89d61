//! User-process creation: a thread with its own address space.
//!
//! On top of an ordinary thread, a user process gets a dedicated page
//! directory — a copy of the kernel's, with the loopback slot re-pointed at
//! the new directory's own page — and a virtual pool rooted at the fixed
//! user split, so its allocations stay out of the kernel window.

use vstd::prelude::*;

use crate::err::SE;
use crate::page::{
    lemma_frame_aligned, v2p, PageDirectory, PageTable, PageTableEntry, DEFAULT_PT_ATTR, PT_LEN,
    USER_V_START,
};
use crate::palloc::pg_alloc;
use crate::pool::{PagePool, VPool, PAGE_SIZE};
use crate::thread::{new_thread, Sched, Status};

verus! {

/// Virtual page slots of one user process: everything between the user
/// split and the kernel window.
pub const USER_V_SLOTS: usize = 784384;

/// A copy of `src` serving a new address space at physical page `base`:
/// the same mappings, with the loopback slot re-pointed at `base`.
fn clone_directory(src: &PageDirectory, base: usize) -> (r: PageDirectory)
    requires
        src.wf(),
        base % PAGE_SIZE == 0,
        base <= 0xffff_ffff,
    ensures
        r.wf(),
        r.base == base,
        forall|w: int|
            0 <= w < 1024 * 1024 ==> #[trigger] r.mapped(w) == src.mapped(w) && (src.mapped(w)
                ==> r.frame_of(w) == src.frame_of(w)),
{
    let mut entries: Vec<PageTableEntry> = Vec::new();
    let mut i: usize = 0;
    while i < PT_LEN
        invariant
            i <= PT_LEN,
            src.wf(),
            entries@.len() == i,
            forall|k: int| 0 <= k < i ==> entries@[k] == src.entries@[k],
        decreases PT_LEN - i,
    {
        let e = src.entries[i];
        entries.push(e);
        i += 1;
    }
    let loopback = PageTableEntry::new(base, DEFAULT_PT_ATTR);
    entries.set(PT_LEN - 1, loopback);

    let mut tables: Vec<PageTable> = Vec::new();
    let mut t: usize = 0;
    while t < PT_LEN
        invariant
            t <= PT_LEN,
            src.wf(),
            tables@.len() == t,
            forall|k: int|
                0 <= k < t ==> (#[trigger] tables@[k]).entries@ == src.tables@[k].entries@,
        decreases PT_LEN - t,
    {
        let mut te: Vec<PageTableEntry> = Vec::new();
        let mut j: usize = 0;
        while j < PT_LEN
            invariant
                j <= PT_LEN,
                t < PT_LEN,
                src.wf(),
                te@.len() == j,
                forall|k: int| 0 <= k < j ==> te@[k] == src.tables@[t as int].entries@[k],
            decreases PT_LEN - j,
        {
            let e = src.tables[t].entries[j];
            te.push(e);
            j += 1;
        }
        proof {
            assert(te@ =~= src.tables@[t as int].entries@);
        }
        tables.push(PageTable { entries: te });
        t += 1;
    }

    let r = PageDirectory { base, entries, tables };
    proof {
        assert forall|w: int|
            0 <= w < 1024 * 1024 implies #[trigger] r.mapped(w) == src.mapped(w) && (src.mapped(w)
            ==> r.frame_of(w) == src.frame_of(w)) by {
            crate::page::lemma_split_1024(w);
        }
    }
    r
}

/// Spawn a user process: an ordinary thread plus its own page directory —
/// the kernel mappings copied, the loopback slot pointing at the directory's
/// freshly allocated page — and a virtual pool rooted at the user split. The
/// new directory is returned beside the thread id; the control block records
/// its physical base, which marks the thread as a user process.
pub fn create(
    sched: &mut Sched,
    v: &mut VPool,
    phys: &mut PagePool,
    dir: &mut PageDirectory,
    entry: u32,
    rt: u32,
    args: u32,
    name: Vec<u8>,
    priority: u8,
) -> (r: Result<(usize, PageDirectory), SE>)
    requires
        old(sched).wf(),
        old(v).wf(),
        old(phys).wf(),
        old(dir).wf(),
        old(phys).p_start >= PAGE_SIZE,
    ensures
        final(sched).wf(),
        final(v).wf(),
        final(phys).wf(),
        final(dir).wf(),
        final(sched).current == old(sched).current,
        final(sched).idle == old(sched).idle,
        match r {
            Ok((id, udir)) => {
                &&& id == old(sched).pcbs@.len()
                &&& final(sched).pcbs@.len() == old(sched).pcbs@.len() + 1
                &&& final(sched).pcbs@[id as int].status == Status::Ready
                &&& final(sched).pcbs@[id as int].pd == udir.base
                &&& final(sched).pcbs@[id as int].pd != 0
                &&& final(sched).pcbs@[id as int].v_pool.v_start == USER_V_START
                &&& final(sched).pcbs@[id as int].v_pool.bitmap@.len() == USER_V_SLOTS
                &&& udir.wf()
                &&& (forall|w: int|
                    0 <= w < 1024 * 1024 ==> #[trigger] udir.mapped(w) == final(dir).mapped(w))
                &&& final(sched).ready@ == old(sched).ready@.push(id)
            },
            Err(e) => {
                &&& (e == SE::MemoryOverflow || e == SE::NotEnoughMemory)
                &&& old(sched).pcbs@.len() <= final(sched).pcbs@.len() <= old(sched).pcbs@.len()
                    + 1
                &&& (old(phys).avl_pages == 0 ==> *final(sched) == *old(sched) && *final(v)
                    == *old(v) && *final(phys) == *old(phys))
            },
        },
        old(phys).avl_pages >= 4 && (exists|j: int|
            0 <= j && j + 2 <= old(v).bitmap@.len() && crate::bitmap::free_run(
                old(v).bitmap@,
                j,
                2,
            )) ==> r is Ok,
{
    proof {
        if old(phys).avl_pages >= 4 && (exists|j: int|
            0 <= j && j + 2 <= old(v).bitmap@.len() && crate::bitmap::free_run(
                old(v).bitmap@,
                j,
                2,
            )) {
            let j = choose|j: int|
                0 <= j && j + 2 <= old(v).bitmap@.len() && crate::bitmap::free_run(
                    old(v).bitmap@,
                    j,
                    2,
                );
            assert(!old(v).bitmap@[j]);
            assert(crate::bitmap::free_run(old(v).bitmap@, j, 1));
        }
    }
    let id = match new_thread(sched, v, phys, dir, entry, rt, args, name, priority) {
        Ok(id) => id,
        Err(e) => {
            return Err(e);
        },
    };

    // a fresh page holds the new directory; its physical address becomes
    // both the loopback target and the control block's directory field
    let ghost v1 = *v;
    proof {
        // with two adjacent free slots at the start, one slot is still free
        // after the control-block page took the other
        if old(phys).avl_pages >= 4 && (exists|j: int|
            0 <= j && j + 2 <= old(v).bitmap@.len() && crate::bitmap::free_run(
                old(v).bitmap@,
                j,
                2,
            )) {
            let j = choose|j: int|
                0 <= j && j + 2 <= old(v).bitmap@.len() && crate::bitmap::free_run(
                    old(v).bitmap@,
                    j,
                    2,
                );
            let s = choose|s: int|
                0 <= s && s + 1 <= old(v).bitmap@.len() && v.bitmap@
                    == #[trigger] crate::bitmap::filled(old(v).bitmap@, s, 1, true);
            let jp = if s == j {
                j + 1
            } else {
                j
            };
            assert(!old(v).bitmap@[jp]);
            assert(!v.bitmap@[jp]);
            assert(crate::bitmap::free_run(v.bitmap@, jp, 1));
        }
    }
    let pd_page = match pg_alloc(v, phys, dir, 1) {
        Ok(p) => p,
        Err(e) => {
            return Err(e);
        },
    };
    proof {
        crate::palloc::lemma_pool_page(
            v1.v_start as int,
            pd_page as int,
            v1.bitmap@.len() as int,
        );
        assert(dir.mapped(pd_page as int / 0x1000 + 0));
    }
    let base = v2p(dir, pd_page);
    proof {
        let vpn = pd_page as int / 0x1000;
        lemma_frame_aligned((dir.tables@[vpn / 1024].entries@[vpn % 1024]).data);
        assert(base % PAGE_SIZE == 0);
        // the directory page's frame comes from the pool, which starts past
        // physical zero
        assert(dir.frame_of(vpn + 0) >= phys.p_start);
        assert(base != 0);
    }
    let udir = clone_directory(dir, base);

    let pcb = &mut sched.pcbs[id];
    pcb.pd = base;
    pcb.v_pool = VPool::new(USER_V_START, USER_V_SLOTS);

    Ok((id, udir))
}

} // verus!
