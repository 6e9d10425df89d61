//! Size-classed heap built on whole pages.
//!
//! Seven classes of power-of-two blocks, 16 to 1024 bytes, each carved out
//! of one page behind a small arena header. Requests above the largest class
//! take whole pages directly as one large arena. An arena whose free-block
//! count returns to the class capacity is released back to the page
//! allocator, resetting the class free list as the drain step.

use vstd::prelude::*;

use crate::err::SE;
use crate::palloc::{freeable, pg_alloc, v_free};
use crate::page::PageDirectory;
use crate::pool::{PagePool, VPool, PAGE_SIZE};

verus! {

/// Number of size classes.
pub const DESC_CNT: usize = 7;

/// Largest block size served from a class.
pub const MAX_BLK_SIZE: usize = 1024;

/// Bytes of the arena header at the start of each arena page.
pub const ARENA_HDR: usize = 12;

/// Block size of class `i`.
pub open spec fn class_size(i: int) -> int {
    if i == 0 {
        16
    } else if i == 1 {
        32
    } else if i == 2 {
        64
    } else if i == 3 {
        128
    } else if i == 4 {
        256
    } else if i == 5 {
        512
    } else {
        1024
    }
}

/// Index of the smallest class whose block size holds `size` bytes.
pub open spec fn smallest_class(size: int) -> int {
    if size <= 16 {
        0
    } else if size <= 32 {
        1
    } else if size <= 64 {
        2
    } else if size <= 128 {
        3
    } else if size <= 256 {
        4
    } else if size <= 512 {
        5
    } else {
        6
    }
}

/// Blocks a one-page arena of class `i` holds.
pub open spec fn class_blocks(i: int) -> int {
    (PAGE_SIZE - ARENA_HDR) / class_size(i)
}

/// Pages a fresh allocation of `size` bytes takes from the page allocator:
/// one for a class arena, the rounded-up run for a large one.
pub open spec fn malloc_pages(size: int) -> int {
    if size > MAX_BLK_SIZE {
        (size + ARENA_HDR + PAGE_SIZE - 1) / (PAGE_SIZE as int)
    } else {
        1
    }
}

/// One arena: a page (or, when `large`, a run of `count` pages) handed out
/// by the page allocator. For a small arena `desc` names its class and
/// `count` tracks how many of its blocks are free; a dead arena has been
/// returned to the page allocator.
pub struct Arena {
    pub off: usize,
    pub desc: usize,
    pub count: usize,
    pub large: bool,
    pub live: bool,
}

impl Arena {
    /// Address of block `i` of a small arena with block size `blk_sz`.
    pub fn block(&self, blk_sz: usize, i: usize) -> (r: usize)
        requires
            1 <= blk_sz,
            self.off + ARENA_HDR + blk_sz * (i + 1) <= self.off + PAGE_SIZE,
            self.off + PAGE_SIZE <= 0x1_0000_0000,
        ensures
            r == self.off + ARENA_HDR + blk_sz * i,
    {
        proof {
            assert(blk_sz * i >= 0 && blk_sz * (i + 1) == blk_sz * i + blk_sz) by (nonlinear_arith)
                requires
                    blk_sz >= 0,
                    i >= 0,
            ;
        }
        self.off + ARENA_HDR + blk_sz * i
    }
}

/// Free-list descriptor of one size class. The list holds (arena index,
/// block index) pairs into the heap's arena registry.
pub struct BlkDesc {
    pub blk_sz: usize,
    pub blocks: usize,
    pub frees: Vec<(usize, usize)>,
}

impl BlkDesc {
    /// Reset the free list.
    pub fn init(&mut self)
        ensures
            final(self).blk_sz == old(self).blk_sz,
            final(self).blocks == old(self).blocks,
            final(self).frees@.len() == 0,
    {
        self.frees.clear();
    }
}

/// The heap: class descriptors plus the registry of arenas carved so far.
/// One instance serves the kernel; each user process embeds its own.
pub struct Heap {
    pub descs: Vec<BlkDesc>,
    pub arenas: Vec<Arena>,
}

/// First live arena owning the page at `page`, or the length of the
/// registry when none does.
pub open spec fn find_arena(arenas: Seq<Arena>, page: int, k: int) -> int
    decreases arenas.len() - k,
{
    if k < 0 || k >= arenas.len() {
        arenas.len() as int
    } else if arenas[k].live && arenas[k].off == page {
        k
    } else {
        find_arena(arenas, page, k + 1)
    }
}

/// How many pairs of the free list point into arena `ai`.
pub open spec fn count_matching(frees: Seq<(usize, usize)>, ai: int) -> nat
    decreases frees.len(),
{
    if frees.len() == 0 {
        0
    } else {
        count_matching(frees.drop_last(), ai) + if frees.last().0 == ai {
            1nat
        } else {
            0nat
        }
    }
}

/// The free list without the pairs of arena `ai`, in order.
pub open spec fn remove_arena(frees: Seq<(usize, usize)>, ai: int) -> Seq<(usize, usize)>
    decreases frees.len(),
{
    if frees.len() == 0 {
        seq![]
    } else if frees.last().0 == ai {
        remove_arena(frees.drop_last(), ai)
    } else {
        remove_arena(frees.drop_last(), ai).push(frees.last())
    }
}

/// Every kept pair comes from the list and points away from `ai`.
pub proof fn lemma_remove_arena_members(frees: Seq<(usize, usize)>, ai: int)
    ensures
        forall|k: int|
            0 <= k < remove_arena(frees, ai).len() ==> frees.contains(
                #[trigger] remove_arena(frees, ai)[k],
            ) && remove_arena(frees, ai)[k].0 != ai,
    decreases frees.len(),
{
    if frees.len() > 0 {
        lemma_remove_arena_members(frees.drop_last(), ai);
        assert forall|k: int|
            0 <= k < remove_arena(frees, ai).len() implies frees.contains(
            #[trigger] remove_arena(frees, ai)[k],
        ) && remove_arena(frees, ai)[k].0 != ai by {
            let r = remove_arena(frees, ai);
            let rd = remove_arena(frees.drop_last(), ai);
            if k < rd.len() {
                let k0 = choose|k0: int|
                    0 <= k0 < frees.drop_last().len() && frees.drop_last()[k0] == rd[k];
                assert(frees[k0] == rd[k]);
            } else {
                assert(r[k] == frees.last());
                assert(frees[frees.len() - 1] == frees.last());
            }
        }
    }
}

/// Removing one arena's pairs leaves every other arena's count as it was.
pub proof fn lemma_remove_arena_counts(frees: Seq<(usize, usize)>, ai: int, j: int)
    requires
        j != ai,
    ensures
        count_matching(remove_arena(frees, ai), j) == count_matching(frees, j),
    decreases frees.len(),
{
    if frees.len() > 0 {
        lemma_remove_arena_counts(frees.drop_last(), ai, j);
        if frees.last().0 != ai {
            lemma_count_matching_push(remove_arena(frees.drop_last(), ai), frees.last(), j);
        }
    }
}

/// Appending a pair raises the matching count of its arena by one and no
/// other.
pub proof fn lemma_count_matching_push(frees: Seq<(usize, usize)>, pr: (usize, usize), ai: int)
    ensures
        count_matching(frees.push(pr), ai) == count_matching(frees, ai) + (if pr.0 == ai {
            1int
        } else {
            0int
        }),
{
    assert(frees.push(pr).drop_last() =~= frees);
}

impl Heap {
    pub open spec fn wf(&self) -> bool {
        &&& self.descs@.len() == DESC_CNT
        &&& (forall|i: int|
            0 <= i < DESC_CNT ==> (#[trigger] self.descs@[i]).blk_sz == class_size(i))
        &&& (forall|i: int|
            0 <= i < DESC_CNT ==> (#[trigger] self.descs@[i]).blocks == class_blocks(i))
        &&& (forall|i: int, k: int|
            0 <= i < DESC_CNT && 0 <= k < self.descs@[i].frees@.len() ==> {
                let pr = #[trigger] self.descs@[i].frees@[k];
                &&& (pr.0 as int) < self.arenas@.len()
                &&& self.arenas@[pr.0 as int].live
                &&& !self.arenas@[pr.0 as int].large
                &&& self.arenas@[pr.0 as int].desc == i
                &&& (pr.1 as int) < class_blocks(i)
            })
        &&& (forall|j: int|
            0 <= j < self.arenas@.len() ==> (#[trigger] self.arenas@[j]).off + PAGE_SIZE
                <= 0x1_0000_0000)
        &&& (forall|j: int|
            0 <= j < self.arenas@.len() && !self.arenas@[j].large
                ==> (#[trigger] self.arenas@[j]).desc < DESC_CNT)
        &&& (forall|j: int|
            0 <= j < self.arenas@.len() && self.arenas@[j].live && !self.arenas@[j].large
                ==> (#[trigger] self.arenas@[j]).count >= count_matching(
                self.descs@[self.arenas@[j].desc as int].frees@,
                j,
            ))
    }

    /// An empty heap with its seven class descriptors set up.
    pub fn new() -> (r: Heap)
        ensures
            r.wf(),
            r.arenas@.len() == 0,
            forall|i: int| 0 <= i < DESC_CNT ==> (#[trigger] r.descs@[i]).frees@.len() == 0,
    {
        let mut descs: Vec<BlkDesc> = Vec::new();
        let mut block_size: usize = 16;
        let mut i: usize = 0;
        while i < DESC_CNT
            invariant
                i <= DESC_CNT,
                descs@.len() == i,
                i < DESC_CNT ==> block_size == class_size(i as int),
                forall|k: int|
                    0 <= k < i ==> (#[trigger] descs@[k]).blk_sz == class_size(k) && descs@[k].blocks
                        == class_blocks(k) && descs@[k].frees@.len() == 0,
            decreases DESC_CNT - i,
        {
            let blocks = (PAGE_SIZE - ARENA_HDR) / block_size;
            descs.push(BlkDesc { blk_sz: block_size, blocks, frees: Vec::new() });
            if i + 1 < DESC_CNT {
                block_size = block_size * 2;
            }
            i += 1;
        }
        Heap { descs, arenas: Vec::new() }
    }
}

/// Allocate `size` bytes from the heap. Requests up to `MAX_BLK_SIZE` come
/// from the smallest class whose block size holds them, carving a fresh page
/// into blocks when the class free list is empty; larger requests take whole
/// pages as one large arena. The returned address always sits at a block
/// boundary of an arena of exactly that class. The model tracks addresses,
/// not byte contents: callers zero the returned block through
/// `crate::mem::fill_zero` on the memory it addresses.
pub fn malloc(
    h: &mut Heap,
    v: &mut VPool,
    phys: &mut PagePool,
    dir: &mut PageDirectory,
    size: usize,
) -> (r: Result<usize, SE>)
    requires
        old(h).wf(),
        old(v).wf(),
        old(phys).wf(),
        old(dir).wf(),
        1 <= size,
        size + ARENA_HDR + PAGE_SIZE <= usize::MAX,
    ensures
        final(h).wf(),
        final(v).wf(),
        final(phys).wf(),
        final(dir).wf(),
        final(v).v_start == old(v).v_start,
        final(dir).base == old(dir).base,
        final(phys).total_pages == old(phys).total_pages,
        final(phys).p_start == old(phys).p_start,
        match r {
            Ok(a) => {
                if size > MAX_BLK_SIZE {
                    let pages = (size + ARENA_HDR + PAGE_SIZE - 1) as int / (PAGE_SIZE as int);
                    &&& final(h).arenas@.len() == old(h).arenas@.len() + 1
                    &&& final(h).arenas@.last() == (Arena {
                        off: (a - ARENA_HDR) as usize,
                        desc: 0,
                        count: pages as usize,
                        large: true,
                        live: true,
                    })
                    &&& final(h).descs@ == old(h).descs@
                    &&& old(phys).avl_pages - 2 * pages <= final(phys).avl_pages <= old(
                        phys,
                    ).avl_pages - pages
                    &&& freeable(*final(v), *final(phys), *final(dir), a - ARENA_HDR, pages)
                    &&& ((forall|k: int|
                        0 <= k < pages ==> old(dir).entries@[#[trigger] crate::page::pd_index(
                            a - ARENA_HDR + k * PAGE_SIZE,
                        )].present()) ==> final(phys).avl_pages == old(phys).avl_pages - pages)
                } else {
                    let ci = smallest_class(size as int);
                    &&& (exists|ai: int, bi: int|
                        {
                            &&& 0 <= ai < final(h).arenas@.len()
                            &&& final(h).arenas@[ai].live
                            &&& !final(h).arenas@[ai].large
                            &&& final(h).arenas@[ai].desc == ci
                            &&& 0 <= bi < class_blocks(ci)
                            &&& a == #[trigger] (final(h).arenas@[ai].off + ARENA_HDR + class_size(
                                ci,
                            ) * bi)
                        })
                    &&& (old(h).descs@[ci].frees@.len() > 0 ==> *final(v) == *old(v)
                        && *final(phys) == *old(phys) && final(h).arenas@.len()
                        == old(h).arenas@.len())
                    &&& (old(h).descs@[ci].frees@.len() == 0 ==> final(h).arenas@.len()
                        == old(h).arenas@.len() + 1 && old(phys).avl_pages - 2
                        <= final(phys).avl_pages < old(phys).avl_pages
                        && final(h).arenas@.last().live && !final(h).arenas@.last().large
                        && freeable(
                        *final(v),
                        *final(phys),
                        *final(dir),
                        final(h).arenas@.last().off as int,
                        1,
                    ) && (old(dir).entries@[crate::page::pd_index(
                        final(h).arenas@.last().off as int,
                    )].present() ==> final(phys).avl_pages == old(phys).avl_pages - 1))
                }
            },
            Err(e) => {
                &&& (e == SE::MemoryOverflow || e == SE::NotEnoughMemory)
                &&& *final(h) == *old(h)
                &&& (e == SE::NotEnoughMemory ==> *final(v) == *old(v) && *final(phys) == *old(
                    phys,
                ))
                &&& (e == SE::MemoryOverflow && !(exists|j: int|
                    0 <= j && j + malloc_pages(size as int) <= old(v).bitmap@.len()
                        && crate::bitmap::free_run(
                        old(v).bitmap@,
                        j,
                        malloc_pages(size as int),
                    )) ==> *final(v) == *old(v) && *final(phys) == *old(phys))
            },
        },
        size <= MAX_BLK_SIZE && old(h).descs@[smallest_class(size as int)].frees@.len() > 0
            ==> r is Ok,
        old(phys).avl_pages >= 2 * malloc_pages(size as int) && (size > MAX_BLK_SIZE || old(
            h,
        ).descs@[smallest_class(size as int)].frees@.len() == 0) && (exists|j: int|
            0 <= j && j + malloc_pages(size as int) <= old(v).bitmap@.len()
                && crate::bitmap::free_run(old(v).bitmap@, j, malloc_pages(size as int)))
            ==> r is Ok,
{
    if size > MAX_BLK_SIZE {
        let pages = (size + ARENA_HDR + PAGE_SIZE - 1) / PAGE_SIZE;
        proof {
            lemma_large_pages(size as int);
            assert(pages as int == malloc_pages(size as int));
        }
        let p = match pg_alloc(v, phys, dir, pages) {
            Ok(p) => p,
            Err(e) => {
                return Err(e);
            },
        };
        proof {
            lemma_pg_off_bound(
                old(v).v_start as int,
                p as int,
                old(v).bitmap@.len() as int,
                pages as int,
            );
        }
        let slot = Arena { off: p, desc: 0, count: pages, large: true, live: true };
        h.arenas.push(slot);
        proof {
            assert forall|j: int|
                0 <= j < h.arenas@.len() && h.arenas@[j].live && !h.arenas@[j].large implies (
            #[trigger] h.arenas@[j]).count >= count_matching(
                h.descs@[h.arenas@[j].desc as int].frees@,
                j,
            ) by {
                assert(j < old(h).arenas@.len());
            }
        }
        return Ok(p + ARENA_HDR);
    }

    // pick the smallest class that holds the request
    let mut ci: usize = 0;
    while ci < DESC_CNT - 1 && h.descs[ci].blk_sz < size
        invariant
            ci < DESC_CNT,
            h.wf(),
            *h == *old(h),
            forall|k: int| 0 <= k < ci ==> class_size(k) < size,
        decreases DESC_CNT - ci,
    {
        ci += 1;
    }
    proof {
        if ci > 0 {
            assert(class_size(ci as int - 1) < size);
        }
        assert(ci as int == smallest_class(size as int));
    }

    if h.descs[ci].frees.len() == 0 {
        // carve a fresh page into blocks for this class
        proof {
            assert(malloc_pages(size as int) == 1);
        }
        let p = match pg_alloc(v, phys, dir, 1) {
            Ok(p) => p,
            Err(e) => {
                return Err(e);
            },
        };
        proof {
            lemma_class_blocks_bounds(ci as int);
        }
        let blocks = h.descs[ci].blocks;
        let ai = h.arenas.len();
        h.arenas.push(
            Arena { off: p, desc: ci, count: blocks - 1, large: false, live: true },
        );
        let mut j: usize = 0;
        while j < blocks - 1
            invariant
                j <= blocks - 1,
                blocks == class_blocks(ci as int),
                ci < DESC_CNT,
                ai == h.arenas@.len() - 1,
                h.arenas@.len() == old(h).arenas@.len() + 1,
                h.descs@.len() == DESC_CNT,
                forall|i: int|
                    0 <= i < DESC_CNT ==> (#[trigger] h.descs@[i]).blk_sz == class_size(i)
                        && h.descs@[i].blocks == class_blocks(i),
                forall|jj: int|
                    0 <= jj < old(h).arenas@.len() ==> h.arenas@[jj] == old(h).arenas@[jj],
                h.arenas@[ai as int] == (Arena {
                    off: p,
                    desc: ci,
                    count: (blocks - 1) as usize,
                    large: false,
                    live: true,
                }),
                forall|i: int|
                    0 <= i < DESC_CNT && i != ci ==> (#[trigger] h.descs@[i]).frees@ == old(
                        h,
                    ).descs@[i].frees@,
                h.descs@[ci as int].frees@.len() == j,
                forall|k: int|
                    0 <= k < j ==> #[trigger] h.descs@[ci as int].frees@[k] == (ai, k as usize),
                old(h).wf(),
                old(h).descs@[ci as int].frees@.len() == 0,
            decreases blocks - 1 - j,
        {
            let d = &mut h.descs[ci];
            d.frees.push((ai, j));
            j += 1;
        }
        proof {
            lemma_pg_off_bound(old(v).v_start as int, p as int, old(v).bitmap@.len() as int, 1);
            lemma_fresh_arena_wf(*h, *old(h), ai, ci);
        }
        let a = h.arenas[ai].block(h.descs[ci].blk_sz, blocks - 1);
        proof {
            let cii = ci as int;
            assert(h.arenas@[ai as int].live);
            assert(!h.arenas@[ai as int].large);
            assert(h.arenas@[ai as int].desc == cii);
            assert(0 <= (blocks - 1) as int && ((blocks - 1) as int) < class_blocks(cii));
            assert(a as int == h.arenas@[ai as int].off + ARENA_HDR + class_size(cii) * ((blocks
                - 1) as int));
        }
        return Ok(a);
    }

    // pop a block from the class free list
    let d = &mut h.descs[ci];
    let pr = match d.frees.pop() {
        Some(pr) => pr,
        None => {
            proof {
                assert(false);
            }
            (0, 0)
        },
    };
    let ghost frees0 = old(h).descs@[ci as int].frees@;
    proof {
        assert(frees0.drop_last() =~= h.descs@[ci as int].frees@);
        assert(count_matching(frees0, pr.0 as int) >= 1) by {
            lemma_count_matching_last(frees0, pr.0 as int);
        }
    }
    let ai = pr.0;
    let an = &mut h.arenas[ai];
    let c = an.count;
    an.count = c - 1;
    proof {
        assert forall|j: int|
            0 <= j < h.arenas@.len() && h.arenas@[j].live && !h.arenas@[j].large implies (
        #[trigger] h.arenas@[j]).count >= count_matching(
            h.descs@[h.arenas@[j].desc as int].frees@,
            j,
        ) by {
            lemma_count_matching_last(frees0, j);
            if h.arenas@[j].desc != ci {
                assert(h.descs@[h.arenas@[j].desc as int].frees@ == old(h).descs@[h.arenas@[
                j].desc as int].frees@);
            }
        }
    }
    let blk_sz = h.descs[ci].blk_sz;
    let an2 = &h.arenas[ai];
    proof {
        lemma_class_blocks_bounds(ci as int);
        lemma_block_in_page(ci as int, pr.1 as int);
    }
    let a = an2.block(blk_sz, pr.1);
    proof {
        let cii = ci as int;
        assert(h.arenas@[ai as int].live);
        assert(!h.arenas@[ai as int].large);
        assert(h.arenas@[ai as int].desc == cii);
        assert(0 <= pr.1 as int && (pr.1 as int) < class_blocks(cii));
        assert(a as int == h.arenas@[ai as int].off + ARENA_HDR + class_size(cii) * (pr.1 as int));
    }
    Ok(a)
}

/// Return the heap block at `p`. A large arena gives its whole page run
/// back to the page allocator. A block of a size class goes back on the
/// class free list; when that raises the arena's free count to the class
/// capacity, the arena page is released and its entries leave the class
/// free list, so no arena stays half-registered.
/// Freeing an address outside any live arena is an internal error and is
/// excluded by precondition.
pub fn free(h: &mut Heap, v: &mut VPool, phys: &mut PagePool, dir: &mut PageDirectory, p: usize)
    requires
        old(h).wf(),
        old(v).wf(),
        old(phys).wf(),
        old(dir).wf(),
        ({
            let page = (p as int / 4096) * 4096;
            let s0 = find_arena(old(h).arenas@, page, 0);
            &&& s0 < old(h).arenas@.len()
            &&& {
                let a0 = old(h).arenas@[s0];
                if a0.large {
                    &&& p == a0.off + ARENA_HDR
                    &&& 1 <= a0.count
                    &&& freeable(*old(v), *old(phys), *old(dir), a0.off as int, a0.count as int)
                } else {
                    let blk = class_size(a0.desc as int);
                    &&& a0.off + ARENA_HDR <= p
                    &&& (p - a0.off - ARENA_HDR) % blk == 0
                    &&& (p - a0.off - ARENA_HDR) / blk < class_blocks(a0.desc as int)
                    &&& a0.count < class_blocks(a0.desc as int)
                    &&& (a0.count + 1 == class_blocks(a0.desc as int) ==> freeable(
                        *old(v),
                        *old(phys),
                        *old(dir),
                        a0.off as int,
                        1,
                    ))
                }
            }
        }),
    ensures
        final(h).wf(),
        final(v).wf(),
        final(phys).wf(),
        final(dir).wf(),
        final(v).v_start == old(v).v_start,
        final(dir).base == old(dir).base,
        final(phys).total_pages == old(phys).total_pages,
        final(phys).p_start == old(phys).p_start,
        ({
            let page = (p as int / 4096) * 4096;
            let s0 = find_arena(old(h).arenas@, page, 0);
            let a0 = old(h).arenas@[s0];
            if a0.large {
                &&& final(h).arenas@ == old(h).arenas@.update(
                    s0,
                    Arena {
                        off: a0.off,
                        desc: a0.desc,
                        count: a0.count,
                        large: true,
                        live: false,
                    },
                )
                &&& final(h).descs@ == old(h).descs@
                &&& final(phys).avl_pages == old(phys).avl_pages + a0.count
                &&& final(v).bitmap@ == crate::bitmap::filled(
                    old(v).bitmap@,
                    old(v).slot_index(a0.off as int),
                    a0.count as int,
                    false,
                )
            } else {
                let di = a0.desc as int;
                let bi = (p - a0.off - ARENA_HDR) / class_size(di);
                if a0.count + 1 < class_blocks(di) {
                    &&& final(h).arenas@ == old(h).arenas@.update(
                        s0,
                        Arena {
                            off: a0.off,
                            desc: a0.desc,
                            count: (a0.count + 1) as usize,
                            large: false,
                            live: true,
                        },
                    )
                    &&& final(h).descs@[di].frees@ == old(h).descs@[di].frees@.push(
                        (s0 as usize, bi as usize),
                    )
                    &&& (forall|i: int|
                        0 <= i < DESC_CNT && i != di ==> final(h).descs@[i] == old(h).descs@[i])
                    &&& *final(v) == *old(v)
                    &&& *final(phys) == *old(phys)
                    &&& *final(dir) == *old(dir)
                } else {
                    &&& final(h).arenas@ == old(h).arenas@.update(
                        s0,
                        Arena {
                            off: a0.off,
                            desc: a0.desc,
                            count: (a0.count + 1) as usize,
                            large: false,
                            live: false,
                        },
                    )
                    &&& final(h).descs@[di].frees@ == remove_arena(
                        old(h).descs@[di].frees@,
                        s0,
                    )
                    &&& (forall|i: int|
                        0 <= i < DESC_CNT && i != di ==> final(h).descs@[i] == old(h).descs@[i])
                    &&& final(phys).avl_pages == old(phys).avl_pages + 1
                    &&& final(v).bitmap@ == crate::bitmap::filled(
                        old(v).bitmap@,
                        old(v).slot_index(a0.off as int),
                        1,
                        false,
                    )
                }
            }
        }),
{
    let page = p / PAGE_SIZE * PAGE_SIZE;
    let n = h.arenas.len();
    let mut ai: usize = 0;
    while ai < n && !(h.arenas[ai].live && h.arenas[ai].off == page)
        invariant
            ai <= n,
            n == h.arenas@.len(),
            *h == *old(h),
            page == (p as int / 4096) * 4096,
            find_arena(h.arenas@, page as int, 0) == find_arena(h.arenas@, page as int, ai as int),
            find_arena(h.arenas@, page as int, 0) < h.arenas@.len(),
        decreases n - ai,
    {
        ai += 1;
    }
    proof {
        assert(ai as int == find_arena(old(h).arenas@, page as int, 0));
    }

    if h.arenas[ai].large {
        let off = h.arenas[ai].off;
        let cnt = h.arenas[ai].count;
        let an = &mut h.arenas[ai];
        an.live = false;
        proof {
            lemma_dead_arena_wf(*h, *old(h), ai as int);
        }
        v_free(v, phys, dir, off, cnt);
        return ;
    }

    let di = h.arenas[ai].desc;
    let off = h.arenas[ai].off;
    let blk_sz = h.descs[di].blk_sz;
    let bi = (p - off - ARENA_HDR) / blk_sz;
    let blocks = h.descs[di].blocks;
    let c = h.arenas[ai].count;

    if c + 1 == blocks {
        // arena fully drained: its own free-list pairs leave the class list
        // and the page goes back, leaving no arena half-registered
        let d = &mut h.descs[di];
        let n = d.frees.len();
        let mut kept: Vec<(usize, usize)> = Vec::new();
        let mut t: usize = 0;
        while t < n
            invariant
                t <= n,
                n == d.frees@.len(),
                kept@ == remove_arena(d.frees@.subrange(0, t as int), ai as int),
            decreases n - t,
        {
            let pr = d.frees[t];
            proof {
                assert(d.frees@.subrange(0, t + 1).drop_last() =~= d.frees@.subrange(0, t as int));
                assert(d.frees@.subrange(0, t + 1).last() == d.frees@[t as int]);
            }
            if pr.0 != ai {
                kept.push(pr);
            }
            t += 1;
        }
        proof {
            assert(d.frees@.subrange(0, n as int) =~= d.frees@);
        }
        d.frees = kept;
        let an = &mut h.arenas[ai];
        an.count = c + 1;
        an.live = false;
        proof {
            lemma_dead_arena_wf(*h, *old(h), ai as int);
        }
        v_free(v, phys, dir, off, 1);
    } else {
        let d = &mut h.descs[di];
        d.frees.push((ai, bi));
        let an = &mut h.arenas[ai];
        an.count = c + 1;
        proof {
            let ghost frees1 = final(h).descs@[di as int].frees@;
            assert forall|j: int|
                0 <= j < h.arenas@.len() && h.arenas@[j].live && !h.arenas@[j].large implies (
            #[trigger] h.arenas@[j]).count >= count_matching(
                h.descs@[h.arenas@[j].desc as int].frees@,
                j,
            ) by {
                lemma_count_matching_push(old(h).descs@[di as int].frees@, (ai, bi), j);
            }
        }
    }
}

/// Killing one arena whose class list no longer references it (because its
/// entries were removed, or because the arena is large) keeps the heap
/// invariant.
proof fn lemma_dead_arena_wf(h: Heap, h0: Heap, ai: int)
    requires
        h0.wf(),
        0 <= ai < h0.arenas@.len(),
        h.arenas@.len() == h0.arenas@.len(),
        forall|j: int| 0 <= j < h0.arenas@.len() && j != ai ==> h.arenas@[j] == h0.arenas@[j],
        !h.arenas@[ai].live,
        h.arenas@[ai].off == h0.arenas@[ai].off,
        h.arenas@[ai].desc == h0.arenas@[ai].desc,
        h.arenas@[ai].large == h0.arenas@[ai].large,
        h.descs@.len() == DESC_CNT,
        forall|i: int|
            0 <= i < DESC_CNT ==> (#[trigger] h.descs@[i]).blk_sz == class_size(i) && h.descs@[
            i].blocks == class_blocks(i),
        h0.arenas@[ai].large ==> h.descs@ == h0.descs@,
        !h0.arenas@[ai].large ==> {
            let di = h0.arenas@[ai].desc as int;
            &&& h.descs@[di].frees@ == remove_arena(h0.descs@[di].frees@, ai)
            &&& h.descs@[di].blk_sz == h0.descs@[di].blk_sz
            &&& h.descs@[di].blocks == h0.descs@[di].blocks
            &&& (forall|i: int| 0 <= i < DESC_CNT && i != di ==> h.descs@[i] == h0.descs@[i])
        },
    ensures
        h.wf(),
{
    if !h0.arenas@[ai].large {
        let di = h0.arenas@[ai].desc as int;
        lemma_remove_arena_members(h0.descs@[di].frees@, ai);
        assert forall|i: int, k: int|
            0 <= i < DESC_CNT && 0 <= k < h.descs@[i].frees@.len() implies {
            let pr = #[trigger] h.descs@[i].frees@[k];
            &&& (pr.0 as int) < h.arenas@.len()
            &&& h.arenas@[pr.0 as int].live
            &&& !h.arenas@[pr.0 as int].large
            &&& h.arenas@[pr.0 as int].desc == i
            &&& (pr.1 as int) < class_blocks(i)
        } by {
            if i == di {
                let pr = h.descs@[i].frees@[k];
                assert(h0.descs@[di].frees@.contains(pr) && pr.0 != ai);
                let k0 = choose|k0: int|
                    0 <= k0 < h0.descs@[di].frees@.len() && h0.descs@[di].frees@[k0] == pr;
                assert(h0.descs@[di].frees@[k0] == pr);
            }
        }
    }
    assert forall|j: int|
        0 <= j < h.arenas@.len() && h.arenas@[j].live && !h.arenas@[j].large implies (
    #[trigger] h.arenas@[j]).count >= count_matching(h.descs@[h.arenas@[j].desc as int].frees@, j)
        by {
        let dj = h.arenas@[j].desc as int;
        if h.descs@[dj].frees@ == h0.descs@[dj].frees@ {
            assert(h0.arenas@[j].count >= count_matching(h0.descs@[dj].frees@, j));
        } else {
            let di = h0.arenas@[ai].desc as int;
            assert(dj == di);
            lemma_remove_arena_counts(h0.descs@[di].frees@, ai, j);
            assert(h0.arenas@[j].count >= count_matching(h0.descs@[di].frees@, j));
        }
    }
}

/// The last pair contributes to its arena's matching count, and dropping it
/// lowers exactly that count by one.
proof fn lemma_count_matching_last(frees: Seq<(usize, usize)>, ai: int)
    requires
        frees.len() > 0,
    ensures
        count_matching(frees, ai) == count_matching(frees.drop_last(), ai) + (if frees.last().0
            == ai {
            1int
        } else {
            0int
        }),
{
}

/// A fresh one-page arena of `blocks - 1` listed blocks satisfies the heap
/// invariant.
proof fn lemma_fresh_arena_wf(h: Heap, h0: Heap, ai: usize, ci: usize)
    requires
        h0.wf(),
        ci < DESC_CNT,
        h0.descs@[ci as int].frees@.len() == 0,
        ai == h0.arenas@.len(),
        h.arenas@.len() == h0.arenas@.len() + 1,
        forall|jj: int| 0 <= jj < h0.arenas@.len() ==> h.arenas@[jj] == h0.arenas@[jj],
        h.arenas@[ai as int].live && !h.arenas@[ai as int].large && h.arenas@[ai as int].desc == ci,
        h.arenas@[ai as int].count == class_blocks(ci as int) - 1,
        h.arenas@[ai as int].off + PAGE_SIZE <= 0x1_0000_0000,
        h.descs@.len() == DESC_CNT,
        forall|i: int|
            0 <= i < DESC_CNT ==> (#[trigger] h.descs@[i]).blk_sz == class_size(i) && h.descs@[
            i].blocks == class_blocks(i),
        forall|i: int|
            0 <= i < DESC_CNT && i != ci ==> (#[trigger] h.descs@[i]).frees@ == h0.descs@[i].frees@,
        h.descs@[ci as int].frees@.len() == class_blocks(ci as int) - 1,
        forall|k: int|
            0 <= k < h.descs@[ci as int].frees@.len() ==> #[trigger] h.descs@[ci as int].frees@[k]
                == (ai, k as usize),
    ensures
        h.wf(),
{
    lemma_class_blocks_bounds(ci as int);
    assert forall|j: int|
        0 <= j < h.arenas@.len() && h.arenas@[j].live && !h.arenas@[j].large implies (
    #[trigger] h.arenas@[j]).count >= count_matching(h.descs@[h.arenas@[j].desc as int].frees@, j)
        by {
        if j == ai {
            lemma_count_matching_all(h.descs@[ci as int].frees@, ai);
        } else {
            let di = h.arenas@[j].desc as int;
            if di == ci {
                assert forall|k: int|
                    0 <= k < h.descs@[ci as int].frees@.len() implies (#[trigger] h.descs@[
                ci as int].frees@[k]).0 != j by {
                    assert(h.descs@[ci as int].frees@[k] == (ai, k as usize));
                }
                lemma_count_matching_none(h.descs@[ci as int].frees@, j);
            }
        }
    }
}

/// When every pair points into `ai`, the matching count is the length.
proof fn lemma_count_matching_all(frees: Seq<(usize, usize)>, ai: usize)
    requires
        forall|k: int| 0 <= k < frees.len() ==> (#[trigger] frees[k]).0 == ai,
    ensures
        count_matching(frees, ai as int) == frees.len(),
    decreases frees.len(),
{
    if frees.len() > 0 {
        assert(frees[frees.len() - 1].0 == ai);
        lemma_count_matching_all(frees.drop_last(), ai);
    }
}

/// When no pair points into `j`, the matching count is zero.
proof fn lemma_count_matching_none(frees: Seq<(usize, usize)>, j: int)
    requires
        forall|k: int| 0 <= k < frees.len() ==> (#[trigger] frees[k]).0 != j,
    ensures
        count_matching(frees, j) == 0,
    decreases frees.len(),
{
    if frees.len() > 0 {
        assert(frees[frees.len() - 1].0 != j);
        lemma_count_matching_none(frees.drop_last(), j);
    }
}

/// Every class fits at least one block in a page, and blocks stay inside
/// the page.
proof fn lemma_class_blocks_bounds(ci: int)
    requires
        0 <= ci < DESC_CNT,
    ensures
        1 <= class_blocks(ci),
        class_blocks(ci) <= 255,
        ARENA_HDR + class_size(ci) * class_blocks(ci) <= PAGE_SIZE,
{
    assert(class_blocks(0) == 255 && class_blocks(1) == 127 && class_blocks(2) == 63
        && class_blocks(3) == 31 && class_blocks(4) == 15 && class_blocks(5) == 7 && class_blocks(6)
        == 3);
}

/// Block `bi` of class `ci` lies inside its page.
proof fn lemma_block_in_page(ci: int, bi: int)
    by (nonlinear_arith)
    requires
        0 <= ci < DESC_CNT,
        0 <= bi < class_blocks(ci),
        ARENA_HDR + class_size(ci) * class_blocks(ci) <= PAGE_SIZE,
    ensures
        ARENA_HDR + class_size(ci) * (bi + 1) <= PAGE_SIZE,
        0 <= class_size(ci) * bi,
{
}

/// A run handed out by the virtual pool ends below the loopback window.
proof fn lemma_pg_off_bound(v_start: int, off: int, len: int, pages: int)
    by (nonlinear_arith)
    requires
        0 <= v_start,
        v_start <= off,
        (off - v_start) % 4096 == 0,
        (off - v_start) / 4096 + pages <= len,
        v_start + len * 4096 <= 0xffc00000,
        1 <= pages,
    ensures
        off + pages * 4096 <= 0xffc00000,
        off + 4096 <= 0xffc00000,
{
}

/// Page count of a large allocation: it rounds `size` plus the header up to
/// whole pages.
proof fn lemma_large_pages(size: int)
    requires
        MAX_BLK_SIZE < size,
    ensures
        1 <= (size + ARENA_HDR + PAGE_SIZE - 1) / (PAGE_SIZE as int),
{
}

/// Set up the class descriptors of a heap in place, as at boot.
pub fn init_descs(h: &mut Heap)
    requires
        old(h).wf(),
    ensures
        final(h).wf(),
        final(h).arenas@ == old(h).arenas@,
        forall|i: int| 0 <= i < DESC_CNT ==> (#[trigger] final(h).descs@[i]).frees@.len() == 0,
{
    let fresh = Heap::new();
    h.descs = fresh.descs;
}

} // verus!
