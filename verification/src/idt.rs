//! Interrupt descriptor table entries and controller setup.

use vstd::prelude::*;

verus! {

/// Vector of the system-call gate.
pub const SYS_VEC: usize = 0x80;

/// Attribute of a 32-bit ring-0 interrupt gate.
pub const IDT_DESC_ATTR_DPL0: u8 = 0x8e;

/// Attribute of a 32-bit ring-3 interrupt gate.
pub const IDT_DESC_ATTR_DPL3: u8 = 0xee;

/// Selector of the kernel code segment.
pub const SELECTOR_K_CODE: u16 = 8;

/// Mask of the interrupt-enable flag in the saved processor flags.
pub const E_FLAGS_IF: u32 = 0x200;

/// One interrupt gate: the handler address split around the selector and
/// attribute bytes.
#[derive(Clone, Copy, PartialEq, Eq, Structural, Debug)]
pub struct GateBits {
    pub off_low: u16,
    pub selector: u16,
    pub reserved: u8,
    pub attr: u8,
    pub off_high: u16,
}

impl GateBits {
    /// A gate routing to handler address `entry` with the given attribute.
    pub fn new(entry: u32, attr: u8) -> (r: GateBits)
        ensures
            r.off_low == entry & 0xffff,
            r.off_high == (entry & 0xffff0000) >> 16,
            r.selector == SELECTOR_K_CODE,
            r.reserved == 0,
            r.attr == attr,
    {
        proof {
            assert(entry & 0xffff < 0x10000 && (entry & 0xffff0000) >> 16 < 0x10000)
                by (bit_vector);
        }
        GateBits {
            off_low: (entry & 0xffff) as u16,
            selector: SELECTOR_K_CODE,
            reserved: 0,
            attr,
            off_high: ((entry & 0xffff0000) >> 16) as u16,
        }
    }
}

/// Size and base of the descriptor table, as loaded into the processor.
#[derive(Clone, Copy, PartialEq, Eq, Structural, Debug)]
pub struct IdtPtr {
    pub size: u16,
    pub off: u32,
}

/// The port writes that initialize and remap the two interrupt
/// controllers, unmasking the timer and the cascade line.
pub fn init_pic() -> (r: Vec<(u16, u8)>)
    ensures
        r@.len() == 10,
        r@[0] == (0x20u16, 0x11u8),
        r@[1] == (0x21u16, 0x20u8),
        r@[2] == (0x21u16, 0x04u8),
        r@[3] == (0x21u16, 0x01u8),
        r@[4] == (0xa0u16, 0x11u8),
        r@[5] == (0xa1u16, 0x28u8),
        r@[6] == (0xa1u16, 0x02u8),
        r@[7] == (0xa1u16, 0x01u8),
        r@[8] == (0x21u16, 0xf8u8),
        r@[9] == (0xa1u16, 0xbfu8),
{
    let mut r: Vec<(u16, u8)> = Vec::new();
    r.push((0x20, 0x11));
    r.push((0x21, 0x20));
    r.push((0x21, 0x04));
    r.push((0x21, 0x01));
    r.push((0xa0, 0x11));
    r.push((0xa1, 0x28));
    r.push((0xa1, 0x02));
    r.push((0xa1, 0x01));
    r.push((0x21, 0xf8));
    r.push((0xa1, 0xbf));
    r
}

/// Build the descriptor table: one ring-0 gate per hardware entry, and the
/// ring-3 system-call gate last.
pub fn init_idt(entries: &Vec<u32>, sys_entry: u32) -> (r: Vec<GateBits>)
    requires
        entries@.len() <= SYS_VEC,
    ensures
        r@.len() == SYS_VEC + 1,
        forall|i: int|
            0 <= i < entries@.len() ==> (#[trigger] r@[i]).attr == IDT_DESC_ATTR_DPL0 && r@[i].off_low
                == entries@[i] & 0xffff && r@[i].off_high == (entries@[i] & 0xffff0000) >> 16,
        r@[SYS_VEC as int].attr == IDT_DESC_ATTR_DPL3,
        r@[SYS_VEC as int].off_low == sys_entry & 0xffff,
{
    let mut r: Vec<GateBits> = Vec::new();
    let mut i: usize = 0;
    while i < entries.len()
        invariant
            i <= entries@.len(),
            entries@.len() <= SYS_VEC,
            r@.len() == i,
            forall|k: int|
                0 <= k < i ==> (#[trigger] r@[k]).attr == IDT_DESC_ATTR_DPL0 && r@[k].off_low
                    == entries@[k] & 0xffff && r@[k].off_high == (entries@[k] & 0xffff0000) >> 16,
        decreases entries@.len() - i,
    {
        r.push(GateBits::new(entries[i], IDT_DESC_ATTR_DPL0));
        i += 1;
    }
    let mut j: usize = r.len();
    while j < SYS_VEC
        invariant
            entries@.len() <= j <= SYS_VEC,
            r@.len() == j,
            forall|k: int|
                0 <= k < entries@.len() ==> (#[trigger] r@[k]).attr == IDT_DESC_ATTR_DPL0
                    && r@[k].off_low == entries@[k] & 0xffff && r@[k].off_high == (entries@[k]
                    & 0xffff0000) >> 16,
        decreases SYS_VEC - j,
    {
        r.push(GateBits::new(0, IDT_DESC_ATTR_DPL0));
        j += 1;
    }
    r.push(GateBits::new(sys_entry, IDT_DESC_ATTR_DPL3));
    r
}

} // verus!
