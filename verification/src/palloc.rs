//! Page-granular allocation: one page at a fixed virtual address, runs of
//! contiguous virtual pages backed by scattered physical frames, and the
//! inverse that returns both to their pools.

use vstd::prelude::*;

use crate::err::SE;
use crate::page::{PageDirectory, DEFAULT_PT_ATTR};
use crate::pool::{PagePool, VPool, PAGE_SIZE};

verus! {

/// A page-aligned address inside a pool bounded by the loopback window has
/// a directory index below the loopback slot.
proof fn lemma_pool_pd(v_start: int, slot: int, len: int, k: int)
    by (nonlinear_arith)
    requires
        0 <= v_start,
        v_start % 4096 == 0,
        0 <= slot,
        0 <= k,
        slot + k < len,
        v_start + len * 4096 <= 0xffc00000,
    ensures
        (v_start + slot * 4096 + k * 4096) / 0x400000 < 1023,
        (v_start + slot * 4096 + k * 4096) % 4096 == 0,
        (v_start + slot * 4096 + k * 4096) / 0x1000 == v_start / 4096 + slot + k,
        v_start + slot * 4096 + k * 4096 <= 0xffff_ffff,
        (v_start + slot * 4096) / 0x1000 + k == v_start / 4096 + slot + k,
{
}

/// A page handed out by a virtual pool is page-aligned and below the
/// loopback window.
pub proof fn lemma_pool_page(v_start: int, off: int, len: int)
    by (nonlinear_arith)
    requires
        0 <= v_start,
        v_start % 4096 == 0,
        v_start <= off,
        (off - v_start) % 4096 == 0,
        (off - v_start) / 4096 + 1 <= len,
        v_start + len * 4096 <= 0xffc00000,
    ensures
        off <= 0xffff_ffff,
        off % 4096 == 0,
        (off / 0x1000) / 1024 != 1023,
        0 <= off / 0x1000 < 1024 * 1024,
{
}

/// Allocate one physical frame and map it at the fixed virtual address
/// `v_ad`, which must be page-aligned, free in the virtual pool, and below
/// the loopback window. Two frames are taken when the covering page table
/// does not exist yet.
pub fn alloc_one(v: &mut VPool, phys: &mut PagePool, dir: &mut PageDirectory, v_ad: usize) -> (r:
    Result<usize, SE>)
    requires
        old(v).wf(),
        old(phys).wf(),
        old(dir).wf(),
        v_ad % PAGE_SIZE == 0,
        old(v).v_start <= v_ad,
        old(v).slot_index(v_ad as int) < old(v).bitmap@.len(),
        !old(v).bitmap@[old(v).slot_index(v_ad as int)],
    ensures
        final(v).wf(),
        final(phys).wf(),
        final(dir).wf(),
        final(v).v_start == old(v).v_start,
        final(dir).base == old(dir).base,
        final(phys).total_pages == old(phys).total_pages,
        final(phys).p_start == old(phys).p_start,
        match r {
            Ok(a) => {
                &&& a == v_ad
                &&& final(v).bitmap@ == old(v).bitmap@.update(
                    old(v).slot_index(v_ad as int),
                    true,
                )
                &&& final(dir).mapped(v_ad as int / 0x1000)
                &&& (forall|w: int|
                    #![trigger final(dir).mapped(w)]
                    0 <= w < 1024 * 1024 && w != v_ad as int / 0x1000 ==> final(dir).mapped(w)
                        == old(dir).mapped(w))
                &&& old(phys).avl_pages - 2 <= final(phys).avl_pages < old(phys).avl_pages
            },
            Err(e) => {
                &&& e == SE::MemoryOverflow
                &&& old(phys).avl_pages <= 1
                &&& *final(v) == *old(v)
            },
        },
{
    proof {
        lemma_pool_pd(
            old(v).v_start as int,
            old(v).slot_index(v_ad as int),
            old(v).bitmap@.len() as int,
            0,
        );
    }
    let p = match phys.p_alloc() {
        Ok(p) => p,
        Err(e) => {
            return Err(e);
        },
    };
    proof {
        lemma_frame_of_pool(old(phys).p_start as int, p as int, old(phys).total_pages as int);
    }
    match dir.map_page(v_ad, p, DEFAULT_PT_ATTR, phys) {
        Ok(()) => {},
        Err(e) => {
            return Err(e);
        },
    }
    let bit_i = (v_ad - v.v_start) / PAGE_SIZE;
    v.bitmap.set(bit_i, true);
    proof {
        assert(v.bitmap@ =~= old(v).bitmap@.update(old(v).slot_index(v_ad as int), true));
    }
    Ok(v_ad)
}

/// A frame from a well-formed pool is page-aligned and below 4 GiB.
proof fn lemma_frame_of_pool(p_start: int, p: int, total: int)
    by (nonlinear_arith)
    requires
        0 <= p_start,
        p_start % 4096 == 0,
        p_start <= p,
        (p - p_start) % 4096 == 0,
        (p - p_start) / 4096 < total,
        p_start + total * 4096 <= 0x1_0000_0000,
    ensures
        p % 4096 == 0,
        p <= 0xffff_ffff,
{
}

/// Allocate `pages` contiguous virtual pages and back each with a physical
/// frame. Virtual space must be contiguous; the frames need not be. Fails
/// with `NotEnoughMemory`, touching nothing, when fewer than `pages` frames
/// are available; with `MemoryOverflow` when no contiguous virtual run
/// exists (nothing is touched either) or when frames run out for the page
/// tables mid-way. With at least `2 * pages` frames available and a free
/// virtual run, it succeeds.
pub fn pg_alloc(v: &mut VPool, phys: &mut PagePool, dir: &mut PageDirectory, pages: usize) -> (r:
    Result<usize, SE>)
    requires
        old(v).wf(),
        old(phys).wf(),
        old(dir).wf(),
        1 <= pages,
    ensures
        final(v).wf(),
        final(phys).wf(),
        final(dir).wf(),
        final(v).v_start == old(v).v_start,
        final(v).bitmap@.len() == old(v).bitmap@.len(),
        final(dir).base == old(dir).base,
        final(phys).total_pages == old(phys).total_pages,
        final(phys).p_start == old(phys).p_start,
        match r {
            Ok(off) => {
                &&& old(v).v_start <= off
                &&& (off - old(v).v_start) % (PAGE_SIZE as int) == 0
                &&& old(v).slot_index(off as int) + pages <= old(v).bitmap@.len()
                &&& crate::bitmap::free_run(
                    old(v).bitmap@,
                    old(v).slot_index(off as int),
                    pages as int,
                )
                &&& final(v).bitmap@ == crate::bitmap::filled(
                    old(v).bitmap@,
                    old(v).slot_index(off as int),
                    pages as int,
                    true,
                )
                &&& (forall|k: int|
                    0 <= k < pages ==> #[trigger] final(dir).mapped(off as int / 0x1000 + k))
                &&& old(phys).avl_pages - 2 * pages <= final(phys).avl_pages <= old(
                    phys,
                ).avl_pages - pages
                &&& freeable(*final(v), *final(phys), *final(dir), off as int, pages as int)
                &&& (forall|w: int|
                    #![trigger final(dir).mapped(w)]
                    0 <= w < 1024 * 1024 && !(off as int / 0x1000 <= w < off as int / 0x1000
                        + pages) ==> final(dir).mapped(w) == old(dir).mapped(w))
                &&& (forall|w: int|
                    #![trigger final(dir).frame_of(w)]
                    0 <= w < 1024 * 1024 && !(off as int / 0x1000 <= w < off as int / 0x1000
                        + pages) && old(dir).mapped(w) ==> final(dir).frame_of(w) == old(
                        dir,
                    ).frame_of(w))
                &&& ((forall|k: int|
                    0 <= k < pages ==> old(dir).entries@[#[trigger] crate::page::pd_index(
                        off as int + k * PAGE_SIZE,
                    )].present()) ==> final(phys).avl_pages == old(phys).avl_pages - pages)
            },
            Err(e) => {
                &&& (e == SE::NotEnoughMemory <==> old(phys).avl_pages < pages)
                &&& (e == SE::NotEnoughMemory ==> *final(v) == *old(v) && *final(phys) == *old(
                    phys,
                ))
                &&& (e == SE::MemoryOverflow && !(exists|j: int|
                    0 <= j && j + pages <= old(v).bitmap@.len() && crate::bitmap::free_run(
                        old(v).bitmap@,
                        j,
                        pages as int,
                    )) ==> *final(v) == *old(v) && *final(phys) == *old(phys) && *final(dir)
                    == *old(dir))
            },
        },
        forall|idx: int|
            0 <= idx < old(phys).bitmap@.len() && old(phys).bitmap@[idx]
                ==> #[trigger] final(phys).bitmap@[idx],
        old(phys).avl_pages >= 2 * pages && (exists|j: int|
            0 <= j && j + pages <= old(v).bitmap@.len() && crate::bitmap::free_run(
                old(v).bitmap@,
                j,
                pages as int,
            )) ==> r is Ok,
{
    if phys.avl_pages < pages {
        return Err(SE::NotEnoughMemory);
    }

    let v_start = match v.v_alloc(pages) {
        Ok(off) => off,
        Err(e) => {
            proof {
                assert forall|j: int|
                    0 <= j && j + pages <= old(v).bitmap@.len() implies !crate::bitmap::free_run(
                    old(v).bitmap@,
                    j,
                    pages as int,
                ) by {}
            }
            return Err(e);
        },
    };

    let ghost slot = old(v).slot_index(v_start as int);
    let ghost vpn0 = v_start as int / 0x1000;

    let mut i: usize = 0;
    while i < pages
        invariant
            i <= pages,
            1 <= pages,
            v.wf(),
            v.v_start == old(v).v_start,
            v.bitmap@.len() == old(v).bitmap@.len(),
            old(phys).avl_pages >= pages,
            phys.wf(),
            dir.wf(),
            dir.base == old(dir).base,
            phys.total_pages == old(phys).total_pages,
            phys.p_start == old(phys).p_start,
            old(v).wf(),
            old(v).v_start <= v_start,
            v_start as int == old(v).v_start + slot * PAGE_SIZE,
            0 <= slot,
            slot + pages <= old(v).bitmap@.len(),
            vpn0 == v_start as int / 0x1000,
            crate::bitmap::free_run(old(v).bitmap@, slot, pages as int),
            old(phys).avl_pages - 2 * i <= phys.avl_pages <= old(phys).avl_pages - i,
            old(phys).avl_pages >= 2 * pages ==> phys.avl_pages >= 2 * pages - 2 * i,
            phys.bitmap@.len() == old(phys).bitmap@.len(),
            forall|k: int| 0 <= k < i ==> #[trigger] dir.mapped(vpn0 + k),
            forall|k: int|
                0 <= k < i ==> {
                    let f = #[trigger] dir.frame_of(vpn0 + k);
                    &&& phys.p_start <= f
                    &&& (f - phys.p_start) % (PAGE_SIZE as int) == 0
                    &&& phys.frame_index(f) < phys.total_pages
                    &&& phys.bitmap@[phys.frame_index(f)]
                },
            forall|k1: int, k2: int|
                0 <= k1 < i && 0 <= k2 < i && k1 != k2 ==> #[trigger] dir.frame_of(vpn0 + k1)
                    != #[trigger] dir.frame_of(vpn0 + k2),
            forall|w: int|
                #![trigger dir.mapped(w)]
                0 <= w < 1024 * 1024 && !(vpn0 <= w < vpn0 + i) ==> dir.mapped(w) == old(
                    dir,
                ).mapped(w),
            forall|w: int|
                #![trigger dir.frame_of(w)]
                0 <= w < 1024 * 1024 && !(vpn0 <= w < vpn0 + i) && old(dir).mapped(w)
                    ==> dir.frame_of(w) == old(dir).frame_of(w),
            forall|idx: int|
                0 <= idx < old(phys).bitmap@.len() && old(phys).bitmap@[idx]
                    ==> #[trigger] phys.bitmap@[idx],
            forall|pd: int|
                0 <= pd < 1024 && old(dir).entries@[pd].present()
                    ==> #[trigger] dir.entries@[pd].present(),
            (forall|k: int|
                0 <= k < pages ==> old(dir).entries@[#[trigger] crate::page::pd_index(
                    v_start as int + k * PAGE_SIZE,
                )].present()) ==> phys.avl_pages == old(phys).avl_pages - i,
        decreases pages - i,
    {
        proof {
            lemma_pool_pd(
                old(v).v_start as int,
                slot,
                old(v).bitmap@.len() as int,
                i as int,
            );
        }
        let ghost phys1 = *phys;
        let p_a = match phys.p_alloc() {
            Ok(p) => p,
            Err(e) => {
                return Err(e);
            },
        };
        proof {
            lemma_frame_of_pool(
                old(phys).p_start as int,
                p_a as int,
                old(phys).total_pages as int,
            );
        }
        let ghost phys2 = *phys;
        let ghost dir2 = *dir;
        match dir.map_page(v_start + i * PAGE_SIZE, p_a, DEFAULT_PT_ATTR, phys) {
            Ok(()) => {},
            Err(e) => {
                return Err(e);
            },
        }
        proof {
            let ii = i as int;
            let va = v_start as int + ii * PAGE_SIZE;
            assert(va / 0x1000 == vpn0 + ii);
            // the fresh frame: in the pool, aligned, and its bit now set
            assert(dir.frame_of(vpn0 + ii) == p_a);
            let pidx = phys1.frame_index(p_a as int);
            assert(phys2.bitmap@ == phys1.bitmap@.update(pidx, true));
            // earlier frames keep their set bits: the pool only gains bits
            assert forall|k: int|
                0 <= k < ii + 1 implies {
                let f = #[trigger] dir.frame_of(vpn0 + k);
                &&& phys.p_start <= f
                &&& (f - phys.p_start) % (PAGE_SIZE as int) == 0
                &&& phys.frame_index(f) < phys.total_pages
                &&& phys.bitmap@[phys.frame_index(f)]
            } by {
                if k < ii {
                    assert(dir.frame_of(vpn0 + k) == dir2.frame_of(vpn0 + k));
                }
            }
            // a fresh frame was clear while every earlier one was set
            assert forall|k1: int, k2: int|
                0 <= k1 < ii + 1 && 0 <= k2 < ii + 1 && k1 != k2 implies #[trigger] dir.frame_of(
                vpn0 + k1,
            ) != #[trigger] dir.frame_of(vpn0 + k2) by {
                if k1 == ii || k2 == ii {
                    let ko = if k1 == ii {
                        k2
                    } else {
                        k1
                    };
                    assert(dir.frame_of(vpn0 + ko) == dir2.frame_of(vpn0 + ko));
                    assert(phys1.bitmap@[phys1.frame_index(dir2.frame_of(vpn0 + ko))]);
                    assert(!phys1.bitmap@[pidx]);
                }
            }
        }
        i += 1;
    }
    proof {
        assert(freeable(*v, *phys, *dir, v_start as int, pages as int));
    }
    Ok(v_start)
}

/// The conditions under which a run of `pages` virtual pages at `off` can
/// be returned: the run lies in the virtual pool, every page is mapped, and
/// the backing frames are distinct allocated frames of the physical pool.
pub open spec fn freeable(
    v: VPool,
    phys: PagePool,
    dir: PageDirectory,
    off: int,
    pages: int,
) -> bool {
    &&& v.v_start <= off
    &&& (off - v.v_start) % (PAGE_SIZE as int) == 0
    &&& v.slot_index(off) + pages <= v.bitmap@.len()
    &&& (forall|k: int| 0 <= k < pages ==> #[trigger] dir.mapped(off / 0x1000 + k))
    &&& (forall|k: int|
        0 <= k < pages ==> {
            let f = #[trigger] dir.frame_of(off / 0x1000 + k);
            &&& phys.p_start <= f
            &&& (f - phys.p_start) % (PAGE_SIZE as int) == 0
            &&& phys.frame_index(f) < phys.total_pages
            &&& phys.bitmap@[phys.frame_index(f)]
        })
    &&& (forall|k1: int, k2: int|
        0 <= k1 < pages && 0 <= k2 < pages && k1 != k2 ==> #[trigger] dir.frame_of(off / 0x1000 + k1)
            != #[trigger] dir.frame_of(off / 0x1000 + k2))
}

/// Whether `idx` is the frame index of a frame backing one of the first
/// `pages` virtual pages at page number `vpn0`.
pub open spec fn backs_run(
    dir: PageDirectory,
    phys: PagePool,
    vpn0: int,
    pages: int,
    idx: int,
) -> bool {
    exists|k: int| 0 <= k < pages && idx == phys.frame_index(#[trigger] dir.frame_of(vpn0 + k))
}

/// Free `pages` contiguous virtual pages starting at `off`: each backing
/// frame goes back to the physical pool, its leaf entry is cleared, and the
/// virtual slots are released. Freeing a page that is not mapped to an
/// allocated frame is an internal error and is excluded by precondition.
pub fn v_free(v: &mut VPool, phys: &mut PagePool, dir: &mut PageDirectory, off: usize, pages: usize)
    requires
        old(v).wf(),
        old(phys).wf(),
        old(dir).wf(),
        1 <= pages,
        freeable(*old(v), *old(phys), *old(dir), off as int, pages as int),
    ensures
        final(v).wf(),
        final(phys).wf(),
        final(dir).wf(),
        final(v).v_start == old(v).v_start,
        final(dir).base == old(dir).base,
        final(phys).total_pages == old(phys).total_pages,
        final(phys).p_start == old(phys).p_start,
        final(phys).avl_pages == old(phys).avl_pages + pages,
        final(v).bitmap@ == crate::bitmap::filled(
            old(v).bitmap@,
            old(v).slot_index(off as int),
            pages as int,
            false,
        ),
        forall|k: int|
            0 <= k < pages ==> !final(phys).bitmap@[old(phys).frame_index(
                #[trigger] old(dir).frame_of(off as int / 0x1000 + k),
            )],
        forall|idx: int|
            0 <= idx < old(phys).bitmap@.len() && !backs_run(
                *old(dir),
                *old(phys),
                off as int / 0x1000,
                pages as int,
                idx,
            ) ==> #[trigger] final(phys).bitmap@[idx] == old(phys).bitmap@[idx],
        forall|k: int| 0 <= k < pages ==> !#[trigger] final(dir).mapped(off as int / 0x1000 + k),
        forall|w: int|
            #![trigger final(dir).mapped(w)]
            0 <= w < 1024 * 1024 && !(off as int / 0x1000 <= w < off as int / 0x1000 + pages)
                ==> final(dir).mapped(w) == old(dir).mapped(w),
{
    let ghost slot = old(v).slot_index(off as int);
    let ghost vpn0 = off as int / 0x1000;

    let mut k: usize = 0;
    while k < pages
        invariant
            k <= pages,
            1 <= pages,
            v == old(v),
            phys.wf(),
            dir.wf(),
            dir.base == old(dir).base,
            phys.total_pages == old(phys).total_pages,
            phys.p_start == old(phys).p_start,
            phys.bitmap@.len() == old(phys).bitmap@.len(),
            old(v).wf(),
            old(v).v_start <= off,
            off as int == old(v).v_start + slot * PAGE_SIZE,
            0 <= slot,
            slot + pages <= old(v).bitmap@.len(),
            vpn0 == off as int / 0x1000,
            phys.avl_pages == old(phys).avl_pages + k,
            forall|j: int| 0 <= j < pages ==> #[trigger] old(dir).mapped(vpn0 + j),
            forall|j: int|
                0 <= j < pages ==> {
                    let f = #[trigger] old(dir).frame_of(vpn0 + j);
                    &&& old(phys).p_start <= f
                    &&& (f - old(phys).p_start) % (PAGE_SIZE as int) == 0
                    &&& old(phys).frame_index(f) < old(phys).total_pages
                },
            forall|j1: int, j2: int|
                0 <= j1 < pages && 0 <= j2 < pages && j1 != j2 ==> #[trigger] old(dir).frame_of(
                    vpn0 + j1,
                ) != #[trigger] old(dir).frame_of(vpn0 + j2),
            forall|j: int|
                k <= j < pages ==> #[trigger] phys.bitmap@[old(phys).frame_index(
                    old(dir).frame_of(vpn0 + j),
                )],
            forall|j: int|
                0 <= j < k ==> !phys.bitmap@[old(phys).frame_index(
                    #[trigger] old(dir).frame_of(vpn0 + j),
                )],
            forall|idx: int|
                0 <= idx < old(phys).bitmap@.len() && !backs_run(
                    *old(dir),
                    *old(phys),
                    vpn0,
                    k as int,
                    idx,
                ) ==> phys.bitmap@[idx] == #[trigger] old(phys).bitmap@[idx],
            forall|j: int| 0 <= j < k ==> !#[trigger] dir.mapped(vpn0 + j),
            forall|w: int|
                #![trigger dir.mapped(w)]
                0 <= w < 1024 * 1024 && !(vpn0 <= w < vpn0 + k) ==> dir.mapped(w) == old(
                    dir,
                ).mapped(w),
            forall|w: int|
                #![trigger dir.frame_of(w)]
                0 <= w < 1024 * 1024 && !(vpn0 <= w < vpn0 + k) && old(dir).mapped(w)
                    ==> dir.frame_of(w) == old(dir).frame_of(w),
        decreases pages - k,
    {
        proof {
            lemma_pool_pd(old(v).v_start as int, slot, old(v).bitmap@.len() as int, k as int);
        }
        let va = off + k * PAGE_SIZE;
        let p = crate::page::v2p(dir, va);
        let ghost phys0 = *phys;
        let ghost kk = k as int;
        proof {
            assert(p as int == old(dir).frame_of(vpn0 + kk));
        }
        phys.remove(p);
        dir.unmap(va);
        proof {
            let p_idx = old(phys).frame_index(old(dir).frame_of(vpn0 + kk));
            assert(phys.bitmap@ == phys0.bitmap@.update(p_idx, false));
            assert forall|idx: int|
                0 <= idx < old(phys).bitmap@.len() && !backs_run(
                    *old(dir),
                    *old(phys),
                    vpn0,
                    kk + 1,
                    idx,
                ) implies phys.bitmap@[idx] == old(phys).bitmap@[idx] by {
                if idx == old(phys).frame_index(#[trigger] old(dir).frame_of(vpn0 + kk)) {
                    assert(backs_run(*old(dir), *old(phys), vpn0, kk + 1, idx));
                }
                if backs_run(*old(dir), *old(phys), vpn0, kk, idx) {
                    let j = choose|j: int|
                        0 <= j < kk && idx == old(phys).frame_index(
                            #[trigger] old(dir).frame_of(vpn0 + j),
                        );
                    assert(backs_run(*old(dir), *old(phys), vpn0, kk + 1, idx));
                }
                assert(phys0.bitmap@.len() == old(phys).bitmap@.len());
                assert(phys0.bitmap@[idx] == old(phys).bitmap@[idx]);
                assert(idx != p_idx);
            }
        }
        k += 1;
    }

    v.remove(off, pages);
}

} // verus!
