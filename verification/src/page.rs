//! Two-level page tables for the 32-bit, 4 KiB-page address scheme.
//!
//! A virtual address splits into a directory index (top 10 bits), a table
//! index (next 10 bits) and a page offset (low 12 bits). The last directory
//! slot is reserved as the loopback entry, which maps the directory page
//! itself so the kernel can edit tables through virtual addresses.

use vstd::prelude::*;

use crate::err::SE;
use crate::pool::{PagePool, PAGE_SIZE};

verus! {

/// Bytes of one page-table entry.
pub const PE_SIZE: usize = 4;

/// Entries per table (and per directory).
pub const PT_LEN: usize = 1024;

/// Bytes of one whole table.
pub const PT_SIZE: usize = 4096;

/// Start of the kernel window in virtual space.
pub const OS_MEM_OFF: usize = 0xc0000000;

/// Physical memory below this line is reserved for the boot image.
pub const RESERVED_MEM: usize = 5 * 1024 * 1024;

/// Kernel heap memory placed right above the reserved area.
pub const KERNEL_MEM: usize = 3 * 1024 * 1024;

/// First physical address handed to user pools.
pub const USER_P_START: usize = 8 * 1024 * 1024;

/// First virtual address handed to user pools.
pub const USER_V_START: usize = 8 * 1024 * 1024;

/// Present + writable + user attribute bits.
pub const DEFAULT_PT_ATTR: u16 = 7;

/// Physical address of the boot page directory.
pub const PDE_START: usize = 0x10000;

/// End of the area the pre-paging bump allocator may hand out.
pub const BUF_UPPER_BOUND: usize = 0x80000;

/// Virtual address of the loopback-mapped page directory.
pub const LOOP_BACK_PD: usize = 0xfffff000;

/// Directory index of virtual address `v`.
pub open spec fn pd_index(v: int) -> int {
    v / 0x400000
}

/// Table index of virtual address `v`.
pub open spec fn pt_index(v: int) -> int {
    (v / 0x1000) % 0x400
}

/// Splitting a virtual address into directory and table indices.
pub trait VirtualAddress: Sized {
    spec fn addr(self) -> int;

    /// Top ten bits: which directory slot covers this address.
    fn pde_i(self) -> (r: usize)
        requires
            0 <= self.addr() <= 0xffff_ffff,
        ensures
            r == pd_index(self.addr()),
            r < PT_LEN,
    ;

    /// Middle ten bits: which table slot covers this address.
    fn pte_i(self) -> (r: usize)
        requires
            0 <= self.addr() <= 0xffff_ffff,
        ensures
            r == pt_index(self.addr()),
            r < PT_LEN,
    ;
}

impl VirtualAddress for usize {
    open spec fn addr(self) -> int {
        self as int
    }

    fn pde_i(self) -> (r: usize) {
        let v = self;
        proof {
            assert(v >> 22 == v / 0x400000 && v >> 22 < 1024) by (bit_vector)
                requires
                    v <= 0xffff_ffffusize,
            ;
        }
        self >> 22
    }

    fn pte_i(self) -> (r: usize) {
        let v = self;
        proof {
            assert((v >> 12) & 0x3ff == (v / 0x1000) % 0x400 && (v >> 12) & 0x3ff < 1024)
                by (bit_vector);
        }
        (self >> 12) & 0x3ff
    }
}

/// One entry of a directory or table: a frame address with low attribute
/// bits, bit 0 meaning "present".
#[derive(Clone, Copy, PartialEq, Eq, Structural, Debug)]
pub struct PageTableEntry {
    pub data: usize,
}

impl PageTableEntry {
    /// Whether the entry maps something.
    pub open spec fn present(&self) -> bool {
        self.data & 1 != 0
    }

    /// Physical frame address stored by the entry.
    pub open spec fn frame(&self) -> int {
        (self.data & 0xfffff000) as int
    }

    /// Attribute bits stored by the entry.
    pub open spec fn attr(&self) -> int {
        (self.data & 0xfff) as int
    }

    /// An empty, absent entry.
    pub fn zero() -> (r: PageTableEntry)
        ensures
            !r.present(),
            r.data == 0,
    {
        proof {
            assert(0usize & 1 == 0) by (bit_vector);
        }
        PageTableEntry { data: 0 }
    }

    /// An entry mapping the page-aligned frame `p_start` with attribute
    /// `flags`.
    pub fn new(p_start: usize, flags: u16) -> (r: PageTableEntry)
        requires
            p_start % PAGE_SIZE == 0,
            p_start <= 0xffff_ffff,
            flags < 0x1000,
        ensures
            r.data == (p_start | (flags as usize)),
            r.frame() == p_start,
            r.attr() == flags,
            r.present() == (flags % 2 == 1),
    {
        let fl = flags as usize;
        let r = PageTableEntry { data: p_start | fl };
        proof {
            let p = p_start;
            assert((p | fl) & 0xfffff000 == p && (p | fl) & 0xfff == fl && ((p | fl) & 1 != 0) == (
            fl % 2 == 1)) by (bit_vector)
                requires
                    p % 4096 == 0,
                    p <= 0xffff_ffffusize,
                    fl < 0x1000usize,
            ;
        }
        r
    }

    /// Executable form of `present`.
    pub fn is_present(&self) -> (r: bool)
        ensures
            r == self.present(),
    {
        self.data & 1 != 0
    }

    /// Clear the present bit, keeping the frame and the other attribute
    /// bits.
    pub fn delete(&mut self)
        ensures
            final(self).data == (old(self).data & !1usize),
            !final(self).present(),
            final(self).frame() == old(self).frame(),
            final(self).attr() == (old(self).attr() as usize & !1usize),
    {
        let d = self.data;
        proof {
            assert((d & !1) & 1 == 0 && (d & !1) & 0xfffff000 == d & 0xfffff000 && (d & !1) & 0xfff
                == (d & 0xfff) & !1) by (bit_vector);
        }
        self.data = d & (!1usize);
    }
}

/// One second-level table of `PT_LEN` entries.
pub struct PageTable {
    pub entries: Vec<PageTableEntry>,
}

impl PageTable {
    pub open spec fn wf(&self) -> bool {
        self.entries@.len() == PT_LEN
    }

    /// A table with every entry absent.
    pub fn zeroed() -> (r: PageTable)
        ensures
            r.wf(),
            forall|i: int| 0 <= i < PT_LEN ==> !r.entries@[i].present(),
    {
        let mut entries: Vec<PageTableEntry> = Vec::new();
        let mut i: usize = 0;
        while i < PT_LEN
            invariant
                i <= PT_LEN,
                entries@.len() == i,
                forall|k: int| 0 <= k < i ==> !entries@[k].present(),
            decreases PT_LEN - i,
        {
            entries.push(PageTableEntry::zero());
            i += 1;
        }
        PageTable { entries }
    }
}

/// The top-level directory together with its second-level tables. `tables`
/// runs parallel to `entries`: slot `i` of `tables` backs directory entry
/// `i`. The last directory entry is the loopback slot and has no table of
/// its own.
pub struct PageDirectory {
    /// Physical address of the directory page, the loopback target.
    pub base: usize,
    pub entries: Vec<PageTableEntry>,
    pub tables: Vec<PageTable>,
}

impl PageDirectory {
    pub open spec fn wf(&self) -> bool {
        &&& self.entries@.len() == PT_LEN
        &&& self.tables@.len() == PT_LEN
        &&& (forall|i: int| 0 <= i < PT_LEN ==> (#[trigger] self.tables@[i]).wf())
        &&& self.entries@[PT_LEN - 1].present()
        &&& self.entries@[PT_LEN - 1].frame() == self.base
    }

    /// Whether virtual page number `vpn` is mapped. The loopback slot is
    /// not an ordinary mapping.
    pub open spec fn mapped(&self, vpn: int) -> bool {
        &&& 0 <= vpn < 1024 * 1024
        &&& vpn / 1024 != PT_LEN - 1
        &&& self.entries@[vpn / 1024].present()
        &&& self.tables@[vpn / 1024].entries@[vpn % 1024].present()
    }

    /// Physical frame backing virtual page number `vpn`.
    pub open spec fn frame_of(&self, vpn: int) -> int {
        self.tables@[vpn / 1024].entries@[vpn % 1024].frame()
    }

    /// A directory with only the loopback slot populated.
    pub fn new(base: usize) -> (r: PageDirectory)
        requires
            base % PAGE_SIZE == 0,
            base <= 0xffff_ffff,
        ensures
            r.wf(),
            r.base == base,
            forall|vpn: int| !r.mapped(vpn),
            forall|i: int| 0 <= i < PT_LEN - 1 ==> !r.entries@[i].present(),
    {
        let mut entries: Vec<PageTableEntry> = Vec::new();
        let mut tables: Vec<PageTable> = Vec::new();
        let mut i: usize = 0;
        while i < PT_LEN
            invariant
                i <= PT_LEN,
                entries@.len() == i,
                tables@.len() == i,
                forall|k: int| 0 <= k < i ==> !entries@[k].present(),
                forall|k: int| 0 <= k < i ==> (#[trigger] tables@[k]).wf(),
            decreases PT_LEN - i,
        {
            entries.push(PageTableEntry::zero());
            tables.push(PageTable::zeroed());
            i += 1;
        }
        let loopback = PageTableEntry::new(base, DEFAULT_PT_ATTR);
        entries.set(PT_LEN - 1, loopback);
        PageDirectory { base, entries, tables }
    }

    /// Install the mapping `v -> p` in this directory. A missing second
    /// level table is taken from the physical pool first (the model of the
    /// loopback-install step). Re-mapping an already present leaf entry
    /// simply overwrites it, tolerating idempotent re-mapping during
    /// bring-up.
    pub fn map_page(&mut self, v: usize, p: usize, flags: u16, phys: &mut PagePool) -> (r: Result<
        (),
        SE,
    >)
        requires
            old(self).wf(),
            old(phys).wf(),
            v <= 0xffff_ffff,
            pd_index(v as int) != PT_LEN - 1,
            p % PAGE_SIZE == 0,
            p <= 0xffff_ffff,
            flags < 0x1000,
            flags % 2 == 1,
        ensures
            final(self).wf(),
            final(phys).wf(),
            final(self).base == old(self).base,
            final(phys).total_pages == old(phys).total_pages,
            final(phys).p_start == old(phys).p_start,
            final(phys).bitmap@.len() == old(phys).bitmap@.len(),
            forall|idx: int|
                0 <= idx < old(phys).bitmap@.len() && old(phys).bitmap@[idx]
                    ==> #[trigger] final(phys).bitmap@[idx],
            match r {
                Ok(()) => {
                    &&& final(self).mapped(v as int / 0x1000)
                    &&& final(self).frame_of(v as int / 0x1000) == p
                    &&& final(self).tables@[pd_index(v as int)].entries@[pt_index(v as int)].attr()
                        == flags
                    &&& (forall|w: int|
                        #![trigger final(self).mapped(w)]
                        0 <= w < 1024 * 1024 && w != v as int / 0x1000 ==> final(self).mapped(w)
                            == old(self).mapped(w))
                    &&& (forall|w: int|
                        #![trigger final(self).frame_of(w)]
                        0 <= w < 1024 * 1024 && w != v as int / 0x1000 && old(self).mapped(w)
                            ==> final(self).frame_of(w) == old(self).frame_of(w))
                    &&& final(self).entries@[pd_index(v as int)].present()
                    &&& (forall|d: int|
                        0 <= d < PT_LEN && d != pd_index(v as int) ==> final(self).entries@[d]
                            == old(self).entries@[d])
                    &&& (old(self).entries@[pd_index(v as int)].present() ==> *final(phys)
                        == *old(phys))
                    &&& (!old(self).entries@[pd_index(v as int)].present() ==> final(phys).avl_pages
                        == old(phys).avl_pages - 1)
                },
                Err(e) => {
                    &&& e == SE::MemoryOverflow
                    &&& !old(self).entries@[pd_index(v as int)].present()
                    &&& old(phys).avl_pages == 0
                    &&& *final(phys) == *old(phys)
                    &&& final(self).entries@ == old(self).entries@
                    &&& final(self).tables@ == old(self).tables@
                },
            },
    {
        let pde_i = v.pde_i();
        let pte_i = v.pte_i();
        proof {
            lemma_vpn_split(v as int);
        }

        if !self.entries[pde_i].is_present() {
            let buf = match phys.p_alloc() {
                Ok(b) => b,
                Err(e) => {
                    return Err(e);
                },
            };
            proof {
                lemma_frame_address(old(phys).p_start as int, buf as int, old(phys).total_pages as int);
            }
            let pde = PageTableEntry::new(buf, flags);
            self.entries.set(pde_i, pde);
            self.tables.set(pde_i, PageTable::zeroed());
        }

        let leaf = PageTableEntry::new(p, flags);
        let tbl = &mut self.tables[pde_i];
        tbl.entries.set(pte_i, leaf);
        proof {
            let vp = v as int / 0x1000;
            let pd = pd_index(v as int);
            assert(self.mapped(vp));
            assert forall|w: int|
                0 <= w < 1024 * 1024 && w != vp implies self.mapped(w) == old(self).mapped(w) && (
            old(self).mapped(w) ==> self.frame_of(w) == old(self).frame_of(w)) by {
                lemma_split_1024(w);
                if w / 1024 == pd {
                    assert(w % 1024 != pt_index(v as int));
                }
            }
        }
        Ok(())
    }
}

impl PageDirectory {
    /// Remove the mapping of the page holding `v` by clearing the present
    /// bit of its leaf entry. Every other mapping stays as it was.
    pub fn unmap(&mut self, v: usize)
        requires
            old(self).wf(),
            v <= 0xffff_ffff,
            old(self).mapped(v as int / 0x1000),
        ensures
            final(self).wf(),
            final(self).base == old(self).base,
            final(self).entries@ == old(self).entries@,
            !final(self).mapped(v as int / 0x1000),
            forall|w: int|
                #![trigger final(self).mapped(w)]
                0 <= w < 1024 * 1024 && w != v as int / 0x1000 ==> final(self).mapped(w)
                    == old(self).mapped(w),
            forall|w: int|
                #![trigger final(self).frame_of(w)]
                0 <= w < 1024 * 1024 && w != v as int / 0x1000 && old(self).mapped(w)
                    ==> final(self).frame_of(w) == old(self).frame_of(w),
    {
        let pde_i = v.pde_i();
        let pte_i = v.pte_i();
        proof {
            lemma_vpn_split(v as int);
        }
        let mut e = self.tables[pde_i].entries[pte_i];
        e.delete();
        let tbl = &mut self.tables[pde_i];
        tbl.entries.set(pte_i, e);
        proof {
            let vp = v as int / 0x1000;
            let pd = pd_index(v as int);
            assert forall|w: int|
                0 <= w < 1024 * 1024 && w != vp implies self.mapped(w) == old(self).mapped(w) && (
            old(self).mapped(w) ==> self.frame_of(w) == old(self).frame_of(w)) by {
                lemma_split_1024(w);
                if w / 1024 == pd {
                    assert(w % 1024 != pt_index(v as int));
                }
            }
        }
    }

    /// `map_page` for the boot phase: a missing second-level table comes
    /// from the static bump area instead of the physical pool.
    pub fn map_page_boot(&mut self, v: usize, p: usize, flags: u16, bump: &mut BumpAlloc) -> (r:
        Result<(), SE>)
        requires
            old(self).wf(),
            old(bump).wf(),
            v <= 0xffff_ffff,
            pd_index(v as int) != PT_LEN - 1,
            p % PAGE_SIZE == 0,
            p <= 0xffff_ffff,
            flags < 0x1000,
            flags % 2 == 1,
        ensures
            final(self).wf(),
            final(bump).wf(),
            final(self).base == old(self).base,
            match r {
                Ok(()) => {
                    &&& final(self).mapped(v as int / 0x1000)
                    &&& final(self).frame_of(v as int / 0x1000) == p
                    &&& final(self).tables@[pd_index(v as int)].entries@[pt_index(v as int)].attr()
                        == flags
                    &&& (forall|w: int|
                        #![trigger final(self).mapped(w)]
                        0 <= w < 1024 * 1024 && w != v as int / 0x1000 ==> final(self).mapped(w)
                            == old(self).mapped(w))
                    &&& (forall|w: int|
                        #![trigger final(self).frame_of(w)]
                        0 <= w < 1024 * 1024 && w != v as int / 0x1000 && old(self).mapped(w)
                            ==> final(self).frame_of(w) == old(self).frame_of(w))
                    &&& final(self).entries@[pd_index(v as int)].present()
                    &&& (forall|d: int|
                        0 <= d < PT_LEN && d != pd_index(v as int) ==> final(self).entries@[d]
                            == old(self).entries@[d])
                    &&& (old(self).entries@[pd_index(v as int)].present() ==> *final(bump) == *old(
                        bump,
                    ))
                    &&& (!old(self).entries@[pd_index(v as int)].present() ==> final(bump).used
                        == old(bump).used + 1)
                },
                Err(e) => {
                    &&& e == SE::MemoryOverflow
                    &&& !old(self).entries@[pd_index(v as int)].present()
                    &&& *final(bump) == *old(bump)
                    &&& (BUF_UPPER_BOUND - old(bump).next_off()) / (PAGE_SIZE as int) < 1
                    &&& final(self).entries@ == old(self).entries@
                    &&& final(self).tables@ == old(self).tables@
                },
            },
    {
        let pde_i = v.pde_i();
        let pte_i = v.pte_i();
        proof {
            lemma_vpn_split(v as int);
        }

        if !self.entries[pde_i].is_present() {
            let buf = match bump.static_alloc(1) {
                Ok(b) => b,
                Err(e) => {
                    return Err(e);
                },
            };
            let pde = PageTableEntry::new(buf, flags);
            self.entries.set(pde_i, pde);
            self.tables.set(pde_i, PageTable::zeroed());
        }

        let leaf = PageTableEntry::new(p, flags);
        let tbl = &mut self.tables[pde_i];
        tbl.entries.set(pte_i, leaf);
        proof {
            let vp = v as int / 0x1000;
            let pd = pd_index(v as int);
            assert(self.mapped(vp));
            assert forall|w: int|
                0 <= w < 1024 * 1024 && w != vp implies self.mapped(w) == old(self).mapped(w) && (
            old(self).mapped(w) ==> self.frame_of(w) == old(self).frame_of(w)) by {
                lemma_split_1024(w);
                if w / 1024 == pd {
                    assert(w % 1024 != pt_index(v as int));
                }
            }
        }
        Ok(())
    }
}

/// Identity-map the reserved and kernel areas, map the kernel window at
/// `OS_MEM_OFF` onto the reserved area, and reserve the loopback slot: the
/// boot page directory. Every second-level table comes from the static boot
/// area, which is large enough for the four tables this takes.
#[verifier::rlimit(50)]
pub fn init_page(bump: &mut BumpAlloc) -> (dir: PageDirectory)
    requires
        old(bump).used == 0,
    ensures
        final(bump).wf(),
        dir.wf(),
        dir.base == PDE_START,
        forall|k: int|
            0 <= k < ((RESERVED_MEM + KERNEL_MEM) as int) / (PAGE_SIZE as int) ==> #[trigger] dir.mapped(k)
                && dir.frame_of(k) == k * PAGE_SIZE,
        forall|k: int|
            0 <= k < (RESERVED_MEM as int) / (PAGE_SIZE as int) ==> #[trigger] dir.mapped(
                (OS_MEM_OFF as int) / (PAGE_SIZE as int) + k,
            ) && dir.frame_of((OS_MEM_OFF as int) / (PAGE_SIZE as int) + k) == k * PAGE_SIZE,
        forall|w: int|
            #[trigger] dir.mapped(w) ==> (0 <= w < ((RESERVED_MEM + KERNEL_MEM) as int) / (PAGE_SIZE as int)
                || (OS_MEM_OFF as int) / (PAGE_SIZE as int) <= w < (OS_MEM_OFF as int) / (
            PAGE_SIZE as int) + (RESERVED_MEM as int) / (PAGE_SIZE as int)),
{
    let mut dir = PageDirectory::new(PDE_START);
    let idn: usize = (RESERVED_MEM + KERNEL_MEM) / PAGE_SIZE;
    let win: usize = RESERVED_MEM / PAGE_SIZE;

    let mut i: usize = 0;
    while i < idn
        invariant
            i <= idn,
            idn == 2048,
            dir.wf(),
            bump.wf(),
            dir.base == PDE_START,
            bump.used == (if i == 0 {
                0int
            } else if i <= 1024 {
                1int
            } else {
                2int
            }),
            i == 0 ==> !dir.entries@[0].present(),
            i >= 1 ==> dir.entries@[0].present(),
            i >= 1025 ==> dir.entries@[1].present(),
            i <= 1024 ==> !dir.entries@[1].present(),
            forall|d: int| 2 <= d < PT_LEN - 1 ==> !dir.entries@[d].present(),
            forall|k: int| 0 <= k < i ==> #[trigger] dir.mapped(k),
            forall|k: int| 0 <= k < i ==> #[trigger] dir.frame_of(k) == k * 4096,
            forall|w: int| #[trigger] dir.mapped(w) ==> 0 <= w < i,
        decreases idn - i,
    {
        let v = i * PAGE_SIZE;
        proof {
            lemma_identity_page(i as int);
        }
        let ghost dir0 = dir;
        let r = dir.map_page_boot(v, v, DEFAULT_PT_ATTR, bump);
        match r {
            Ok(()) => {},
            Err(_) => {
                proof {
                    assert(false);
                }
            },
        }
        proof {
            assert forall|k: int| 0 <= k < i + 1 implies #[trigger] dir.frame_of(k) == k * 4096 by {
                if k < i {
                    assert(dir0.mapped(k));
                    assert(dir.frame_of(k) == dir0.frame_of(k));
                }
            }
        }
        i += 1;
    }

    let mut k: usize = 0;
    while k < win
        invariant
            k <= win,
            win == 1280,
            dir.wf(),
            bump.wf(),
            dir.base == PDE_START,
            bump.used == 2 + (if k == 0 {
                0int
            } else if k <= 1024 {
                1int
            } else {
                2int
            }),
            k >= 1 ==> dir.entries@[768].present(),
            k >= 1025 ==> dir.entries@[769].present(),
            k == 0 ==> !dir.entries@[768].present(),
            k <= 1024 ==> !dir.entries@[769].present(),
            forall|kk: int| 0 <= kk < 2048 ==> #[trigger] dir.mapped(kk),
            forall|kk: int| 0 <= kk < 2048 ==> #[trigger] dir.frame_of(kk) == kk * 4096,
            forall|kk: int| 0 <= kk < k ==> #[trigger] dir.mapped(0xc0000 + kk),
            forall|kk: int| 0 <= kk < k ==> #[trigger] dir.frame_of(0xc0000 + kk) == kk * 4096,
            forall|w: int| #[trigger] dir.mapped(w) ==> (0 <= w < 2048 || 0xc0000 <= w < 0xc0000
                + k),
        decreases win - k,
    {
        let v = OS_MEM_OFF + k * PAGE_SIZE;
        proof {
            lemma_window_page(k as int);
        }
        let p = k * PAGE_SIZE;
        let ghost dir0 = dir;
        let r = dir.map_page_boot(v, p, DEFAULT_PT_ATTR, bump);
        match r {
            Ok(()) => {},
            Err(_) => {
                proof {
                    assert(false);
                }
            },
        }
        proof {
            assert forall|kk: int| 0 <= kk < 2048 implies #[trigger] dir.frame_of(kk) == kk
                * 4096 by {
                assert(dir0.mapped(kk));
                assert(dir.frame_of(kk) == dir0.frame_of(kk));
            }
            assert forall|kk: int| 0 <= kk < k implies #[trigger] dir.frame_of(0xc0000 + kk) == kk
                * 4096 by {
                assert(dir0.mapped(0xc0000 + kk));
                assert(dir.frame_of(0xc0000 + kk) == dir0.frame_of(0xc0000 + kk));
            }
        }
        k += 1;
    }

    dir
}

/// Index arithmetic for the identity-mapped pages.
proof fn lemma_identity_page(i: int)
    by (nonlinear_arith)
    requires
        0 <= i < 2048,
    ensures
        (i * 4096) / 0x400000 == i / 1024,
        (i * 4096) / 0x1000 == i,
        0 <= i / 1024 <= 1,
        i < 1024 <==> i / 1024 == 0,
        (i * 4096) % 4096 == 0,
        i * 4096 <= 0xffff_ffff,
{
}

/// Index arithmetic for the kernel-window pages.
proof fn lemma_window_page(k: int)
    by (nonlinear_arith)
    requires
        0 <= k < 1280,
    ensures
        (0xc0000000 + k * 4096) / 0x400000 == 768 + k / 1024,
        (0xc0000000 + k * 4096) / 0x1000 == 0xc0000 + k,
        0 <= k / 1024 <= 1,
        k < 1024 <==> k / 1024 == 0,
        (k * 4096) % 4096 == 0,
        0xc0000000 + k * 4096 <= 0xffff_ffff,
        k * 4096 <= 0xffff_ffff,
{
}

/// Bump allocator for whole pages, used before paging is on. It hands out
/// the area between the boot page directory and `BUF_UPPER_BOUND`.
pub struct BumpAlloc {
    pub used: usize,
}

impl BumpAlloc {
    pub open spec fn wf(&self) -> bool {
        PDE_START + PT_SIZE + self.used * PT_SIZE <= BUF_UPPER_BOUND
    }

    /// Next page the allocator would hand out.
    pub open spec fn next_off(&self) -> int {
        PDE_START + PT_SIZE + self.used * PT_SIZE
    }

    pub fn new() -> (r: BumpAlloc)
        ensures
            r.wf(),
            r.used == 0,
    {
        BumpAlloc { used: 0 }
    }

    /// Reserve `pages` pages from the static boot area. Fails exactly when
    /// fewer pages than asked are left below `BUF_UPPER_BOUND`.
    pub fn static_alloc(&mut self, pages: usize) -> (r: Result<usize, SE>)
        requires
            old(self).wf(),
        ensures
            final(self).wf(),
            match r {
                Ok(off) => {
                    &&& off == old(self).next_off()
                    &&& final(self).used == old(self).used + pages
                    &&& off % PAGE_SIZE == 0
                    &&& off + pages * PAGE_SIZE <= BUF_UPPER_BOUND
                    &&& off <= 0xffff_ffff
                },
                Err(e) => {
                    &&& e == SE::MemoryOverflow
                    &&& *final(self) == *old(self)
                    &&& (BUF_UPPER_BOUND - old(self).next_off()) / (PAGE_SIZE as int) < pages
                },
            },
    {
        let off = PDE_START + PT_SIZE + self.used * PT_SIZE;
        let avl = (BUF_UPPER_BOUND - off) / PAGE_SIZE;
        if avl < pages {
            return Err(SE::MemoryOverflow);
        }
        proof {
            lemma_bump_bounds(self.used as int, pages as int);
        }
        self.used = self.used + pages;
        Ok(off)
    }
}

/// Arithmetic facts about the bump area: the handed-out page run is aligned
/// and stays below the upper bound.
proof fn lemma_bump_bounds(used: int, pages: int)
    by (nonlinear_arith)
    requires
        0 <= used,
        0 <= pages,
        0x10000 + 0x1000 + used * 0x1000 <= 0x80000,
        (0x80000 - (0x10000 + 0x1000 + used * 0x1000)) / 0x1000 >= pages,
    ensures
        (0x10000 + 0x1000 + used * 0x1000) % 0x1000 == 0,
        0x10000 + 0x1000 + used * 0x1000 + pages * 0x1000 <= 0x80000,
        0x10000 + 0x1000 + (used + pages) * 0x1000 <= 0x80000,
{
}

/// Address of the page-table entry for `v`, as seen through the loopback
/// window: the top directory slot routes the address back into the tables
/// themselves.
pub fn pte_ptr(v: usize) -> (r: usize)
    requires
        v <= 0xffff_ffff,
    ensures
        r == 0xffc00000 + pd_index(v as int) * 0x1000 + pt_index(v as int) * 4,
{
    let pde = v.pde_i();
    let pte = v.pte_i();
    let r = 0xffc00000usize | (pde << 12usize) | (pte << 2usize);
    proof {
        let d = pde;
        let t = pte;
        assert(((0xffc00000usize | (d << 12usize) | (t << 2usize)) as int) == 0xffc00000 + (
        d as int) * 0x1000 + (t as int) * 4) by (bit_vector)
            requires
                d < 1024usize,
                t < 1024usize,
        ;
    }
    r
}

/// Translate a mapped virtual address to its physical address.
pub fn v2p(dir: &PageDirectory, v: usize) -> (r: usize)
    requires
        dir.wf(),
        v <= 0xffff_ffff,
        dir.mapped(v as int / 0x1000),
    ensures
        r == dir.frame_of(v as int / 0x1000) + (v as int % 0x1000),
{
    let pde = v.pde_i();
    let pte = v.pte_i();
    proof {
        lemma_vpn_split(v as int);
    }
    let d = dir.tables[pde].entries[pte].data;
    let r = (d & 0xfffff000) | (v & 0xfff);
    proof {
        assert((((d & 0xfffff000) | (v & 0xfff)) as int) == ((d & 0xfffff000) as int) + ((
        v as int) % 0x1000)) by (bit_vector);
    }
    r
}

/// The frame part of an entry is page-aligned and below 4 GiB.
pub proof fn lemma_frame_aligned(d: usize)
    by (bit_vector)
    ensures
        (d & 0xfffff000) % 4096 == 0,
        (d & 0xfffff000) <= 0xffff_f000,
{
}

/// A virtual page number splits into directory and table indices.
proof fn lemma_vpn_split(v: int)
    by (nonlinear_arith)
    requires
        0 <= v,
    ensures
        (v / 0x1000) / 1024 == v / 0x400000,
        (v / 0x1000) % 1024 == (v / 0x1000) % 0x400,
        v / 0x1000 == (v / 0x400000) * 1024 + (v / 0x1000) % 0x400,
        v <= 0xffff_ffff ==> v / 0x1000 < 1024 * 1024,
{
}

/// A page number recombines from its directory and table indices.
pub proof fn lemma_split_1024(w: int)
    by (nonlinear_arith)
    requires
        0 <= w,
    ensures
        w == (w / 1024) * 1024 + w % 1024,
        0 <= w % 1024 < 1024,
{
}

/// A frame handed out by a pool bounded to the 32-bit address space is
/// page-aligned and below 4 GiB.
proof fn lemma_frame_address(p_start: int, buf: int, total: int)
    by (nonlinear_arith)
    requires
        0 <= p_start,
        p_start % 4096 == 0,
        p_start <= buf,
        (buf - p_start) % 4096 == 0,
        (buf - p_start) / 4096 < total,
        p_start + total * 4096 <= 0x1_0000_0000,
    ensures
        buf % 4096 == 0,
        buf <= 0xffff_ffff,
{
}

} // verus!
