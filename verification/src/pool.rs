//! Physical and virtual page pools.
//!
//! A physical pool hands out single frames and keeps `avl_pages` equal to
//! `total_pages` minus the number of allocated bits. A virtual pool hands out
//! runs of contiguous page slots; only virtual allocations must be
//! contiguous.

use vstd::prelude::*;

use crate::bitmap::{Bitmap, filled, free_run};
use crate::err::SE;

verus! {

/// Bytes in one page.
pub const PAGE_SIZE: usize = 4096;

/// Number of set bits in a bit sequence.
pub open spec fn count_true(s: Seq<bool>) -> nat
    decreases s.len(),
{
    if s.len() == 0 {
        0
    } else {
        count_true(s.drop_last()) + if s.last() {
            1nat
        } else {
            0nat
        }
    }
}

pub proof fn lemma_count_true_le(s: Seq<bool>)
    ensures
        count_true(s) <= s.len(),
    decreases s.len(),
{
    if s.len() > 0 {
        lemma_count_true_le(s.drop_last());
    }
}

/// Updating one bit moves the count by exactly the change of that bit.
pub proof fn lemma_count_true_update(s: Seq<bool>, i: int, v: bool)
    requires
        0 <= i < s.len(),
    ensures
        count_true(s.update(i, v)) == count_true(s) - (if s[i] {
            1int
        } else {
            0int
        }) + (if v {
            1int
        } else {
            0int
        }),
    decreases s.len(),
{
    if i == s.len() - 1 {
        assert(s.update(i, v).drop_last() =~= s.drop_last());
    } else {
        lemma_count_true_update(s.drop_last(), i, v);
        assert(s.update(i, v).drop_last() =~= s.drop_last().update(i, v));
    }
}

/// The count reaches the length exactly when every bit is set.
pub proof fn lemma_count_true_full(s: Seq<bool>)
    ensures
        count_true(s) == s.len() <==> (forall|i: int| 0 <= i < s.len() ==> s[i]),
    decreases s.len(),
{
    if s.len() > 0 {
        lemma_count_true_full(s.drop_last());
        lemma_count_true_le(s.drop_last());
        if count_true(s) == s.len() {
            assert forall|i: int| 0 <= i < s.len() implies s[i] by {
                if i < s.len() - 1 {
                    assert(s.drop_last()[i] == s[i]);
                }
            }
        }
        if forall|i: int| 0 <= i < s.len() ==> s[i] {
            assert forall|i: int| 0 <= i < s.drop_last().len() implies s.drop_last()[i] by {
                assert(s[i]);
            }
        }
    }
}

/// Law: across any run of successful frame allocations — each turning one
/// previously clear bit on — the number of set bits grows by exactly the
/// number of allocations. With `PagePool::wf`, `avl_pages` after `k`
/// successful `p_alloc` calls on a pool that started with `a` available
/// pages is therefore `a - k`.
pub proof fn lemma_alloc_run_count(ss: Seq<Seq<bool>>, idxs: Seq<int>)
    requires
        ss.len() == idxs.len() + 1,
        forall|j: int|
            0 <= j < idxs.len() ==> 0 <= #[trigger] idxs[j] < ss[j].len() && !ss[j][idxs[j]] && ss[
                j + 1
            ] == ss[j].update(idxs[j], true),
    ensures
        count_true(ss[ss.len() - 1]) == count_true(ss[0]) + idxs.len(),
    decreases idxs.len(),
{
    if idxs.len() > 0 {
        lemma_count_true_update(ss[0], idxs[0], true);
        let ss2 = ss.drop_first();
        let idxs2 = idxs.drop_first();
        assert forall|j: int|
            0 <= j < idxs2.len() implies 0 <= #[trigger] idxs2[j] < ss2[j].len()
            && !ss2[j][idxs2[j]] && ss2[j + 1] == ss2[j].update(idxs2[j], true) by {
            assert(idxs2[j] == idxs[j + 1]);
            assert(ss2[j] == ss[j + 1]);
            assert(ss2[j + 1] == ss[j + 2]);
        }
        lemma_alloc_run_count(ss2, idxs2);
        assert(ss2[ss2.len() - 1] == ss[ss.len() - 1]);
        assert(ss2[0] == ss[1]);
    }
}

/// A multiple of `m` divides back exactly.
proof fn lemma_mul_div_exact(i: int, m: int)
    by (nonlinear_arith)
    requires
        0 <= i,
        0 < m,
    ensures
        (i * m) / m == i,
        (i * m) % m == 0,
{
}

/// Which physical pool an allocation draws from.
#[derive(Clone, Copy, PartialEq, Eq, Structural, Debug)]
pub enum Pool {
    KERNEL,
    USER,
}

/// Pool of physical page frames.
pub struct PagePool {
    pub bitmap: Bitmap,
    pub total_pages: usize,
    pub avl_pages: usize,
    pub p_start: usize,
}

impl PagePool {
    /// Internal consistency: the bitmap tracks exactly `total_pages` frames,
    /// the available count mirrors the clear bits, and every frame address
    /// fits the address space.
    pub open spec fn wf(&self) -> bool {
        &&& self.bitmap@.len() == self.total_pages
        &&& self.avl_pages as int == self.total_pages - count_true(self.bitmap@)
        &&& self.p_start % PAGE_SIZE == 0
        &&& self.p_start + self.total_pages * PAGE_SIZE <= 0x1_0000_0000
        &&& self.total_pages <= 0x10_0000
    }

    /// Frame index of physical address `p` within this pool.
    pub open spec fn frame_index(&self, p: int) -> int {
        (p - self.p_start) / (PAGE_SIZE as int)
    }

    /// A pool with `total_pages` free frames starting at `p_start`.
    pub fn new(p_start: usize, total_pages: usize) -> (r: PagePool)
        requires
            total_pages % 8 == 0,
            total_pages <= 0x10_0000,
            p_start % PAGE_SIZE == 0,
            p_start + total_pages * PAGE_SIZE <= 0x1_0000_0000,
        ensures
            r.wf(),
            r.total_pages == total_pages,
            r.avl_pages == total_pages,
            r.p_start == p_start,
            forall|i: int| 0 <= i < r.bitmap@.len() ==> !r.bitmap@[i],
    {
        let bitmap = Bitmap::new(total_pages / 8);
        let r = PagePool { bitmap, total_pages, avl_pages: total_pages, p_start };
        proof {
            lemma_count_all_clear(r.bitmap@);
        }
        r
    }

    /// Total bytes governed by the pool.
    pub fn size(&self) -> (r: usize)
        requires
            self.wf(),
            self.total_pages * PAGE_SIZE <= usize::MAX,
        ensures
            r == self.total_pages * PAGE_SIZE,
    {
        self.total_pages * PAGE_SIZE
    }

    /// Reserve exactly one physical frame, first-fit. On success the lowest
    /// free frame is marked allocated and `avl_pages` drops by one; when no
    /// frame is free the pool is left untouched.
    pub fn p_alloc(&mut self) -> (r: Result<usize, SE>)
        requires
            old(self).wf(),
        ensures
            final(self).wf(),
            final(self).total_pages == old(self).total_pages,
            final(self).p_start == old(self).p_start,
            match r {
                Ok(p) => {
                    &&& old(self).avl_pages > 0
                    &&& final(self).avl_pages == old(self).avl_pages - 1
                    &&& old(self).p_start <= p
                    &&& (p - old(self).p_start) % (PAGE_SIZE as int) == 0
                    &&& old(self).frame_index(p as int) < old(self).total_pages
                    &&& !old(self).bitmap@[old(self).frame_index(p as int)]
                    &&& (forall|j: int|
                        0 <= j < old(self).frame_index(p as int) ==> old(self).bitmap@[j])
                    &&& final(self).bitmap@ == old(self).bitmap@.update(
                        old(self).frame_index(p as int),
                        true,
                    )
                },
                Err(e) => {
                    &&& e == SE::MemoryOverflow
                    &&& old(self).avl_pages == 0
                    &&& *final(self) == *old(self)
                },
            },
    {
        let bit_i = self.bitmap.try_alloc(1);
        if bit_i < 0 {
            proof {
                // every single-bit window is refused, so every frame is taken
                assert forall|i: int| 0 <= i < self.bitmap@.len() implies self.bitmap@[i] by {
                    assert(!free_run(self.bitmap@, i, 1));
                }
                lemma_count_true_full(self.bitmap@);
            }
            return Err(SE::MemoryOverflow);
        }
        let i = bit_i as usize;
        proof {
            assert(free_run(self.bitmap@, i as int, 1));
            assert(!self.bitmap@[i as int]);
            lemma_count_true_le(self.bitmap@);
            lemma_count_true_full(self.bitmap@);
            lemma_count_true_update(self.bitmap@, i as int, true);
            assert(i * PAGE_SIZE <= self.total_pages * PAGE_SIZE) by (nonlinear_arith)
                requires
                    i < self.total_pages,
                    PAGE_SIZE > 0,
            ;
        }
        self.bitmap.set(i, true);
        proof {
            assert(self.bitmap@ =~= old(self).bitmap@.update(i as int, true));
        }
        self.avl_pages = self.avl_pages - 1;
        let p = self.p_start + i * PAGE_SIZE;
        proof {
            lemma_mul_div_exact(i as int, PAGE_SIZE as int);
            assert(old(self).frame_index(p as int) == i);
            assert forall|j: int| 0 <= j < i implies old(self).bitmap@[j] by {
                if !old(self).bitmap@[j] {
                    assert(free_run(old(self).bitmap@, j, 1));
                }
            }
        }
        Ok(p)
    }

    /// Return the frame at physical address `off` to the pool. Freeing a
    /// frame that is not currently allocated is an internal error and is
    /// excluded by precondition.
    pub fn remove(&mut self, off: usize)
        requires
            old(self).wf(),
            old(self).p_start <= off,
            (off - old(self).p_start) % (PAGE_SIZE as int) == 0,
            old(self).frame_index(off as int) < old(self).total_pages,
            old(self).bitmap@[old(self).frame_index(off as int)],
        ensures
            final(self).wf(),
            final(self).total_pages == old(self).total_pages,
            final(self).p_start == old(self).p_start,
            final(self).avl_pages == old(self).avl_pages + 1,
            final(self).bitmap@ == old(self).bitmap@.update(
                old(self).frame_index(off as int),
                false,
            ),
    {
        let i = (off - self.p_start) / PAGE_SIZE;
        proof {
            lemma_count_true_le(self.bitmap@);
            lemma_count_true_update(self.bitmap@, i as int, false);
        }
        self.bitmap.set(i, false);
        self.avl_pages = self.avl_pages + 1;
        proof {
            assert(final(self).bitmap@ =~= old(self).bitmap@.update(
                old(self).frame_index(off as int),
                false,
            ));
        }
    }
}

proof fn lemma_count_all_clear(s: Seq<bool>)
    requires
        forall|i: int| 0 <= i < s.len() ==> !s[i],
    ensures
        count_true(s) == 0,
    decreases s.len(),
{
    if s.len() > 0 {
        assert forall|i: int| 0 <= i < s.drop_last().len() implies !s.drop_last()[i] by {
            assert(!s[i]);
        }
        lemma_count_all_clear(s.drop_last());
    }
}

/// Pool of virtual page slots for one address space.
pub struct VPool {
    pub bitmap: Bitmap,
    pub v_start: usize,
}

impl VPool {
    pub open spec fn wf(&self) -> bool {
        &&& self.v_start % PAGE_SIZE == 0
        &&& self.v_start + self.bitmap@.len() * PAGE_SIZE <= 0xffc00000
        &&& self.bitmap@.len() <= 0x10_0000
    }

    /// Page-slot index of virtual address `v` within this pool.
    pub open spec fn slot_index(&self, v: int) -> int {
        (v - self.v_start) / (PAGE_SIZE as int)
    }

    /// A pool of `slots` free virtual page slots starting at `v_start`.
    pub fn new(v_start: usize, slots: usize) -> (r: VPool)
        requires
            slots % 8 == 0,
            slots <= 0x10_0000,
            v_start % PAGE_SIZE == 0,
            v_start + slots * PAGE_SIZE <= 0xffc00000,
        ensures
            r.wf(),
            r.v_start == v_start,
            r.bitmap@.len() == slots,
            forall|i: int| 0 <= i < r.bitmap@.len() ==> !r.bitmap@[i],
    {
        VPool { bitmap: Bitmap::new(slots / 8), v_start }
    }

    /// Reserve `pages` contiguous virtual page slots, first-fit. On success
    /// the returned address marks the start of a previously free run now
    /// allocated; on failure no run of that length exists and nothing
    /// changes.
    pub fn v_alloc(&mut self, pages: usize) -> (r: Result<usize, SE>)
        requires
            old(self).wf(),
            1 <= pages,
        ensures
            final(self).wf(),
            final(self).v_start == old(self).v_start,
            final(self).bitmap@.len() == old(self).bitmap@.len(),
            match r {
                Ok(off) => {
                    &&& old(self).v_start <= off
                    &&& (off - old(self).v_start) % (PAGE_SIZE as int) == 0
                    &&& old(self).slot_index(off as int) + pages <= old(self).bitmap@.len()
                    &&& free_run(old(self).bitmap@, old(self).slot_index(off as int), pages as int)
                    &&& (forall|j: int|
                        0 <= j < old(self).slot_index(off as int) ==> !free_run(
                            old(self).bitmap@,
                            j,
                            pages as int,
                        ))
                    &&& final(self).bitmap@ == filled(
                        old(self).bitmap@,
                        old(self).slot_index(off as int),
                        pages as int,
                        true,
                    )
                },
                Err(e) => {
                    &&& e == SE::MemoryOverflow
                    &&& *final(self) == *old(self)
                    &&& (forall|j: int|
                        0 <= j && j + pages <= old(self).bitmap@.len() ==> !free_run(
                            old(self).bitmap@,
                            j,
                            pages as int,
                        ))
                },
            },
    {
        let bit_i = self.bitmap.try_alloc(pages);
        if bit_i < 0 {
            return Err(SE::MemoryOverflow);
        }
        let i = bit_i as usize;
        proof {
            assert(i * PAGE_SIZE <= self.bitmap@.len() * PAGE_SIZE) by (nonlinear_arith)
                requires
                    i <= self.bitmap@.len(),
                    PAGE_SIZE > 0,
            ;
        }
        self.bitmap.fill_n(i, pages, true);
        let off = self.v_start + i * PAGE_SIZE;
        proof {
            lemma_mul_div_exact(i as int, PAGE_SIZE as int);
        }
        Ok(off)
    }

    /// Clear the bookkeeping bits of `pages` slots starting at `off`. The
    /// physical frames behind them are released separately.
    pub fn remove(&mut self, off: usize, pages: usize)
        requires
            old(self).wf(),
            old(self).v_start <= off,
            (off - old(self).v_start) % (PAGE_SIZE as int) == 0,
            old(self).slot_index(off as int) + pages <= old(self).bitmap@.len(),
        ensures
            final(self).wf(),
            final(self).v_start == old(self).v_start,
            final(self).bitmap@ == filled(
                old(self).bitmap@,
                old(self).slot_index(off as int),
                pages as int,
                false,
            ),
    {
        let start_i = (off - self.v_start) / PAGE_SIZE;
        self.bitmap.fill_n(start_i, pages, false);
    }
}

} // verus!
