//! Builder for 8-byte global-descriptor-table entries.
//!
//! A descriptor packs a 20-bit limit, a 32-bit base, an access byte and a
//! flags nibble into one `u64` in the interleaved layout the processor
//! expects.

use vstd::prelude::*;

verus! {

/// Operating mode encoded in the descriptor flags.
#[derive(Clone, Copy, PartialEq, Eq, Structural, Debug)]
pub enum Mode {
    Real,
    Protect,
    Long,
}

/// The packed descriptor for the given raw fields.
pub open spec fn gdt_pack(limit: u32, base: u32, access: u8, flags: u8) -> u64 {
    (((limit & 0xffff) as u64) | (((base & 0xffff) as u64) << 16) | (((((base & 0xff0000) >> 16) | (
    (access as u32) << 8)) as u64) << 32) | (((((limit & 0xf0000) >> 16) as u64) | ((
    flags as u64) << 4) | ((((base as u64) & 0xff000000) >> 24) << 8)) << 48)) as u64
}

/// Assembles one descriptor field by field.
#[derive(Clone, Copy, PartialEq, Eq, Structural, Debug)]
pub struct GdtBuilder {
    pub limit: u32,
    pub base: u32,
    pub access: u8,
    pub flags: u8,
}

impl GdtBuilder {
    /// The all-zero starting point.
    pub fn new() -> (r: GdtBuilder)
        ensures
            r == (GdtBuilder { limit: 0, base: 0, access: 0, flags: 0 }),
    {
        GdtBuilder { limit: 0, base: 0, access: 0, flags: 0 }
    }

    pub fn limit(&mut self, lim: u32)
        ensures
            *final(self) == (GdtBuilder { limit: lim, ..*old(self) }),
    {
        self.limit = lim;
    }

    pub fn base(&mut self, base: u32)
        ensures
            *final(self) == (GdtBuilder { base: base, ..*old(self) }),
    {
        self.base = base;
    }

    /// Bit 0 of the access byte: the accessed flag.
    pub fn access(&mut self, v: bool)
        ensures
            *final(self) == (GdtBuilder {
                access: if v {
                    old(self).access | 1
                } else {
                    old(self).access & !1
                },
                ..*old(self)
            }),
    {
        if v {
            self.access = self.access | 1;
        } else {
            self.access = self.access & !1;
        }
    }

    /// Bit 7 of the access byte: segment present.
    pub fn present(&mut self, v: bool)
        ensures
            *final(self) == (GdtBuilder {
                access: if v {
                    old(self).access | (1u8 << 7)
                } else {
                    old(self).access & !(1u8 << 7)
                },
                ..*old(self)
            }),
    {
        if v {
            self.access = self.access | (1u8 << 7);
        } else {
            self.access = self.access & !(1u8 << 7);
        }
    }

    /// Bit 2 for a data segment: it grows downward. Only meaningful while
    /// the executable bit is clear.
    pub fn grow_down(&mut self, v: bool)
        requires
            old(self).access & (1u8 << 3) == 0,
        ensures
            *final(self) == (GdtBuilder {
                access: if v {
                    old(self).access | (1u8 << 2)
                } else {
                    old(self).access & !(1u8 << 2)
                },
                ..*old(self)
            }),
    {
        if v {
            self.access = self.access | (1u8 << 2);
        } else {
            self.access = self.access & !(1u8 << 2);
        }
    }

    /// Bit 2 for a code segment: conforming. Only meaningful while the
    /// executable bit is set.
    pub fn conforming(&mut self, v: bool)
        requires
            old(self).access & (1u8 << 3) != 0,
        ensures
            *final(self) == (GdtBuilder {
                access: if v {
                    old(self).access | (1u8 << 2)
                } else {
                    old(self).access & !(1u8 << 2)
                },
                ..*old(self)
            }),
    {
        if v {
            self.access = self.access | (1u8 << 2);
        } else {
            self.access = self.access & !(1u8 << 2);
        }
    }

    /// Bit 1: writable for data, readable for code.
    pub fn rw(&mut self, v: bool)
        ensures
            *final(self) == (GdtBuilder {
                access: if v {
                    old(self).access | (1u8 << 1)
                } else {
                    old(self).access & !(1u8 << 1)
                },
                ..*old(self)
            }),
    {
        if v {
            self.access = self.access | (1u8 << 1);
        } else {
            self.access = self.access & !(1u8 << 1);
        }
    }

    /// Bit 3: code segment when set, data segment when clear.
    pub fn executable(&mut self, v: bool)
        ensures
            *final(self) == (GdtBuilder {
                access: if v {
                    old(self).access | (1u8 << 3)
                } else {
                    old(self).access & !(1u8 << 3)
                },
                ..*old(self)
            }),
    {
        if v {
            self.access = self.access | (1u8 << 3);
        } else {
            self.access = self.access & !(1u8 << 3);
        }
    }

    /// Bits 5 and 6: the descriptor privilege level.
    pub fn privilege(&mut self, v: u8)
        requires
            v < 4,
        ensures
            *final(self) == (GdtBuilder { access: old(self).access | (v << 5), ..*old(self) }),
    {
        self.access = self.access | (v << 5);
    }

    /// Bit 4, inverted: clear for a system segment.
    pub fn system(&mut self, v: bool)
        ensures
            *final(self) == (GdtBuilder {
                access: if v {
                    old(self).access & !(1u8 << 4)
                } else {
                    old(self).access | (1u8 << 4)
                },
                ..*old(self)
            }),
    {
        if v {
            self.access = self.access & !(1u8 << 4);
        } else {
            self.access = self.access | (1u8 << 4);
        }
    }

    /// Flag bits 1 and 2 select the operating mode.
    pub fn mode(&mut self, m: Mode)
        ensures
            *final(self) == (GdtBuilder {
                flags: match m {
                    Mode::Real => (old(self).flags & !(1u8 << 2)) & !(1u8 << 1),
                    Mode::Protect => (old(self).flags | (1u8 << 2)) & !(1u8 << 1),
                    Mode::Long => (old(self).flags & !(1u8 << 2)) | (1u8 << 1),
                },
                ..*old(self)
            }),
    {
        match m {
            Mode::Real => {
                self.flags = self.flags & !(1u8 << 2);
                self.flags = self.flags & !(1u8 << 1);
            },
            Mode::Protect => {
                self.flags = self.flags | (1u8 << 2);
                self.flags = self.flags & !(1u8 << 1);
            },
            Mode::Long => {
                self.flags = self.flags & !(1u8 << 2);
                self.flags = self.flags | (1u8 << 1);
            },
        }
    }

    /// Flag bit 3: the limit counts 4 KiB pages rather than bytes.
    pub fn lim_4k(&mut self, v: bool)
        ensures
            *final(self) == (GdtBuilder {
                flags: if v {
                    old(self).flags | (1u8 << 3)
                } else {
                    old(self).flags & !(1u8 << 3)
                },
                ..*old(self)
            }),
    {
        if v {
            self.flags = self.flags | (1u8 << 3);
        } else {
            self.flags = self.flags & !(1u8 << 3);
        }
    }

    /// Pack the collected fields into the processor's descriptor layout.
    pub fn build(&self) -> (r: u64)
        ensures
            r == gdt_pack(self.limit, self.base, self.access, self.flags),
    {
        let limit = self.limit;
        let base = self.base;
        let access = self.access;
        let flags = self.flags;
        ((limit & 0xffff) as u64) | (((base & 0xffff) as u64) << 16) | (((((base & 0xff0000) >> 16)
            | ((access as u32) << 8)) as u64) << 32) | (((((limit & 0xf0000) >> 16) as u64) | ((
        flags as u64) << 4) | ((((base as u64) & 0xff000000) >> 24) << 8)) << 48)
    }
}

/// A descriptor in its six-field byte layout, as the boot loader writes it.
#[derive(Clone, Copy, PartialEq, Eq, Structural, Debug)]
pub struct GD {
    pub lim_low: u16,
    pub base_low: u16,
    pub base_mid: u8,
    pub acc: u8,
    pub lim_flags: u8,
    pub base_high: u8,
}

impl GD {
    /// The zero descriptor, the mandatory first table entry.
    pub fn zero() -> (r: GD)
        ensures
            r == (GD {
                lim_low: 0,
                base_low: 0,
                base_mid: 0,
                acc: 0,
                lim_flags: 0,
                base_high: 0,
            }),
    {
        GD { lim_low: 0, base_low: 0, base_mid: 0, acc: 0, lim_flags: 0, base_high: 0 }
    }

    /// A present descriptor assembled in one step: readable/writable,
    /// executable and system choices in the access byte, the operating-mode
    /// bits and the high limit nibble in the flags byte.
    pub fn new(limit: u32, base: u32, rw: bool, ex: bool, sys: bool, mode: u8, pri: u8, scale_4k: bool) -> (r:
        GD)
        ensures
            r.lim_low == limit & 0xffff,
            r.base_low == base & 0xffff,
            r.base_mid == (base & 0xff0000) >> 16,
            r.base_high == base >> 24,
            r.acc == ((0x80u8 | (if rw {
                2u8
            } else {
                0u8
            }) | (if ex {
                8u8
            } else {
                0u8
            }) | (if sys {
                0u8
            } else {
                0x10u8
            })) | ((pri & 3) << 5)),
            r.lim_flags == ((((limit & 0xf0000) >> 16) as u8 | mode) | (if scale_4k {
                0x80u8
            } else {
                0u8
            })),
    {
        let mut acc: u8 = 0x80;
        if rw {
            acc = acc | 2;
        }
        if ex {
            acc = acc | 8;
        }
        if !sys {
            acc = acc | 0x10;
        }
        acc = acc | ((pri & 3) << 5);

        proof {
            let l = limit;
            assert((l & 0xffff) < 0x10000 && ((l & 0xff0000) >> 16) < 0x100 && ((l & 0xf0000)
                >> 16) < 0x100) by (bit_vector);
            let b = base;
            assert((b & 0xffff) < 0x10000 && ((b & 0xff0000) >> 16) < 0x100 && (b >> 24) < 0x100)
                by (bit_vector);
            assert(((pri & 3) << 5) < 0x100) by (bit_vector);
            // a cleared option leaves the byte as it was
            assert(forall|x: u8| #[trigger] (x | 0u8) == x) by (bit_vector);
        }
        let mut fl: u8 = ((limit & 0xf0000) >> 16) as u8;
        fl = fl | mode;
        if scale_4k {
            fl = fl | 0x80;
        }

        GD {
            lim_low: (limit & 0xffff) as u16,
            base_low: (base & 0xffff) as u16,
            base_mid: ((base & 0xff0000) >> 16) as u8,
            acc,
            lim_flags: fl,
            base_high: (base >> 24) as u8,
        }
    }
}

impl Default for GdtBuilder {
    /// The all-zero starting point.
    fn default() -> (r: GdtBuilder)
        ensures
            r == (GdtBuilder { limit: 0, base: 0, access: 0, flags: 0 }),
    {
        GdtBuilder::new()
    }
}

/// Descriptor of the flat user-mode code segment.
pub fn user_code() -> (r: u64)
    ensures
        r == gdt_pack(0xffffffff, 0, 0xfc, 0x0c),
{
    let mut bd = GdtBuilder::new();
    bd.limit(0xffffffff);
    bd.present(true);
    bd.executable(true);
    bd.rw(false);
    bd.mode(Mode::Protect);
    bd.privilege(3);
    bd.lim_4k(true);
    bd.system(false);
    proof {
        assert(((((((0u8 | (1u8 << 7)) | (1u8 << 3)) & !(1u8 << 1)) | (3u8 << 5)) | (1u8 << 4)) & (
        1u8 << 3) != 0) && (((((((0u8 | (1u8 << 7)) | (1u8 << 3)) & !(1u8 << 1)) | (3u8 << 5)) | (
        1u8 << 4)) | (1u8 << 2)) == 0xfcu8) && ((0u8 | (1u8 << 2)) & !(1u8 << 1)) | (1u8 << 3)
            == 0x0cu8) by (bit_vector);
    }
    bd.conforming(true);
    bd.build()
}

/// Descriptor of the flat user-mode data segment.
pub fn user_data() -> (r: u64)
    ensures
        r == gdt_pack(0xffffffff, 0, 0xf2, 0x0c),
{
    let mut bd = GdtBuilder::new();
    bd.limit(0xffffffff);
    bd.present(true);
    bd.executable(false);
    bd.rw(true);
    bd.mode(Mode::Protect);
    bd.privilege(3);
    bd.lim_4k(true);
    bd.system(false);
    proof {
        assert(((((((0u8 | (1u8 << 7)) & !(1u8 << 3)) | (1u8 << 1)) | (3u8 << 5)) | (1u8 << 4))
            == 0xf2u8) && ((0u8 | (1u8 << 2)) & !(1u8 << 1)) | (1u8 << 3) == 0x0cu8)
            by (bit_vector);
    }
    bd.build()
}

} // verus!
