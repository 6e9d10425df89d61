//! Boot-time sizing of the memory pools, and the byte-buffer zeroing the
//! allocators hand back to callers.

use vstd::prelude::*;

use crate::page::{KERNEL_MEM, OS_MEM_OFF, RESERVED_MEM};
use crate::pool::{PagePool, VPool, PAGE_SIZE};

verus! {

/// The three pools the memory manager runs on: physical frames for the
/// kernel and for user processes, and the kernel's virtual page slots.
pub struct MemLayout {
    pub kernel: PagePool,
    pub user: PagePool,
    pub v: VPool,
}

/// Size the pools from the machine's memory size: the kernel pool covers
/// `KERNEL_MEM` right above the reserved area, the user pool everything
/// after it (rounded down to eight pages), and the kernel virtual pool
/// mirrors the kernel pool above `OS_MEM_OFF`.
pub fn init(total_mem: u32) -> (r: MemLayout)
    requires
        total_mem as int >= RESERVED_MEM + KERNEL_MEM + 8 * PAGE_SIZE,
        total_mem < 0x4000_0000,
    ensures
        r.kernel.wf(),
        r.user.wf(),
        r.v.wf(),
        r.kernel.p_start == RESERVED_MEM,
        r.kernel.total_pages == KERNEL_MEM as int / PAGE_SIZE as int,
        r.kernel.avl_pages == r.kernel.total_pages,
        r.user.p_start == RESERVED_MEM + KERNEL_MEM,
        r.user.avl_pages == r.user.total_pages,
        r.user.total_pages as int == ((total_mem as int / PAGE_SIZE as int) * PAGE_SIZE as int
            - RESERVED_MEM - KERNEL_MEM) / PAGE_SIZE as int / 8 * 8,
        r.v.v_start == OS_MEM_OFF + RESERVED_MEM,
        r.v.bitmap@.len() == KERNEL_MEM as int / PAGE_SIZE as int,
        forall|i: int| 0 <= i < r.kernel.bitmap@.len() ==> !r.kernel.bitmap@[i],
        forall|i: int| 0 <= i < r.user.bitmap@.len() ==> !r.user.bitmap@[i],
        forall|i: int| 0 <= i < r.v.bitmap@.len() ==> !r.v.bitmap@[i],
{
    let total = (total_mem as usize) / PAGE_SIZE * PAGE_SIZE;
    let user_mem = total - RESERVED_MEM - KERNEL_MEM;
    let kernel_pages = KERNEL_MEM / PAGE_SIZE;
    let user_pages = user_mem / PAGE_SIZE / 8 * 8;

    proof {
        lemma_layout_bounds(total_mem as int);
    }

    let kernel = PagePool::new(RESERVED_MEM, kernel_pages);
    let user = PagePool::new(RESERVED_MEM + KERNEL_MEM, user_pages);
    let v = VPool::new(OS_MEM_OFF + RESERVED_MEM, kernel_pages);
    MemLayout { kernel, user, v }
}

/// The sized pools stay within the 32-bit address space and page-align.
proof fn lemma_layout_bounds(total_mem: int)
    by (nonlinear_arith)
    requires
        total_mem >= 0x500000 + 0x300000 + 8 * 4096,
        total_mem < 0x4000_0000,
    ensures
        (total_mem / 4096) * 4096 <= total_mem,
        (total_mem / 4096) * 4096 >= total_mem - 4095,
        ({
            let total = (total_mem / 4096) * 4096;
            let user_mem = total - 0x500000 - 0x300000;
            let user_pages = user_mem / 4096 / 8 * 8;
            &&& user_pages % 8 == 0
            &&& user_pages <= 0x10_0000
            &&& 0x800000 + user_pages * 4096 <= 0x1_0000_0000
            &&& user_pages * 4096 <= user_mem
            &&& 0 <= user_pages
        }),
        (0x300000int / 4096) % 8 == 0,
        0x500000 + (0x300000int / 4096) * 4096 <= 0x1_0000_0000,
        0xc0000000 + 0x500000 + (0x300000int / 4096) * 4096 <= 0xffc00000,
{
}

/// Zero the bytes `[start, start + len)` of a buffer, leaving the rest.
pub fn fill_zero(buf: &mut Vec<u8>, start: usize, len: usize)
    requires
        start + len <= old(buf)@.len(),
    ensures
        final(buf)@.len() == old(buf)@.len(),
        forall|i: int| start <= i < start + len ==> final(buf)@[i] == 0,
        forall|i: int|
            0 <= i < final(buf)@.len() && !(start <= i < start + len) ==> final(buf)@[i] == old(
                buf,
            )@[i],
{
    // the vector's length pins the index sums below the usize bound
    let _n = buf.len();
    let mut i: usize = 0;
    while i < len
        invariant
            i <= len,
            start + len <= buf@.len(),
            buf@.len() <= usize::MAX,
            buf@.len() == old(buf)@.len(),
            forall|k: int| start <= k < start + i ==> buf@[k] == 0,
            forall|k: int| 0 <= k < buf@.len() && !(start <= k < start + i) ==> buf@[k] == old(
                buf,
            )@[k],
        decreases len - i,
    {
        buf.set(start + i, 0);
        i += 1;
    }
}

} // verus!
