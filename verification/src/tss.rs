//! Task state segment: the record of stack pointers the processor reads
//! when crossing from user to kernel privilege.

use vstd::prelude::*;

use crate::gdt::{gdt_pack, GdtBuilder};

verus! {

/// Words of the task state segment.
pub const TSS_LEN: usize = 27;

/// Bytes of the task state segment.
pub const TSS_SIZE: usize = 108;

/// Byte bound of the segment, as a descriptor limit.
pub const TSS_BOUND: usize = 107;

/// Word index of the ring-0 stack pointer.
pub const TSS_ESP0: usize = 1;

/// Word index of the ring-0 stack selector.
pub const TSS_SS0: usize = 2;

/// Word index of the I/O bitmap base.
pub const TSS_IO_BASE: usize = 26;

/// The task state segment as its raw words.
pub struct Tss {
    pub words: Vec<u32>,
}

impl Tss {
    pub open spec fn wf(&self) -> bool {
        self.words@.len() == TSS_LEN
    }

    /// An all-zero segment.
    pub fn new() -> (r: Tss)
        ensures
            r.wf(),
            forall|i: int| 0 <= i < TSS_LEN ==> r.words@[i] == 0,
    {
        let mut words: Vec<u32> = Vec::new();
        let mut i: usize = 0;
        while i < TSS_LEN
            invariant
                i <= TSS_LEN,
                words@.len() == i,
                forall|k: int| 0 <= k < i ==> words@[k] == 0,
            decreases TSS_LEN - i,
        {
            words.push(0);
            i += 1;
        }
        Tss { words }
    }

    /// The saved ring-0 stack pointer.
    pub fn esp0(&self) -> (r: u32)
        requires
            self.wf(),
        ensures
            r == self.words@[TSS_ESP0 as int],
    {
        self.words[TSS_ESP0]
    }

    /// Point the ring-0 stack at `v`; set at dispatch of a user process so
    /// its traps land on its own control-block page.
    pub fn set_esp0(&mut self, v: u32)
        requires
            old(self).wf(),
        ensures
            final(self).wf(),
            final(self).words@ == old(self).words@.update(TSS_ESP0 as int, v),
    {
        self.words.set(TSS_ESP0, v);
    }

    /// Boot-time setup: record the kernel stack selector and push the I/O
    /// bitmap base past the segment end.
    pub fn init(&mut self, k_data_selector: u32)
        requires
            old(self).wf(),
        ensures
            final(self).wf(),
            final(self).words@[TSS_SS0 as int] == k_data_selector,
            final(self).words@[TSS_IO_BASE as int] == TSS_SIZE as u32,
            forall|i: int|
                0 <= i < TSS_LEN && i != TSS_SS0 && i != TSS_IO_BASE ==> final(self).words@[i]
                    == old(self).words@[i],
    {
        self.words.set(TSS_SS0, k_data_selector);
        self.words.set(TSS_IO_BASE, TSS_SIZE as u32);
    }
}

/// The descriptor installing a task state segment at `base` in the global
/// descriptor table.
pub fn tss_descriptor(base: u32) -> (r: u64)
    ensures
        r == gdt_pack(TSS_BOUND as u32, base, 0x89, 0x08),
{
    let mut bd = GdtBuilder::new();
    bd.present(true);
    bd.base(base);
    bd.limit(TSS_BOUND as u32);
    bd.access(true);
    bd.privilege(0);
    bd.system(true);
    bd.lim_4k(true);
    bd.executable(true);
    proof {
        assert((((((0u8 | (1u8 << 7)) | 1u8) | (0u8 << 5)) & !(1u8 << 4)) | (1u8 << 3)) == 0x89u8
            && (0u8 | (1u8 << 3)) == 0x08u8) by (bit_vector);
    }
    bd.build()
}

} // verus!
