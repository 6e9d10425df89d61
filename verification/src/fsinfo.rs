//! Readers of on-disk identify data and the boot sector's partition table.

use vstd::prelude::*;

verus! {

/// Byte offset of the partition table inside a boot sector.
pub const PT_OFF: usize = 446;

/// Entries of a primary partition table.
pub const PRIMARY_LEN: usize = 4;

/// Bytes of one partition table entry.
pub const PTE_SIZE: usize = 16;

/// One partition-table entry of a boot sector.
#[derive(Clone, Copy, PartialEq, Eq, Structural, Debug)]
pub struct PTE {
    pub boot: u8,
    pub start_head: u8,
    pub start_sec: u8,
    pub start_cyl: u8,
    pub fs_type: u8,
    pub end_head: u8,
    pub end_sec: u8,
    pub end_cyl: u8,
    pub start_lba: u32,
    pub sec_n: u32,
}

/// The little-endian 32-bit value at byte offset `off`.
pub open spec fn le32_at(s: Seq<u8>, off: int) -> int {
    s[off] + s[off + 1] * 0x100 + s[off + 2] * 0x10000 + s[off + 3] * 0x1000000
}

/// Read a little-endian 32-bit value from byte offset `off`.
pub fn read_le32(buf: &Vec<u8>, off: usize) -> (r: u32)
    requires
        off + 4 <= buf@.len(),
    ensures
        r == le32_at(buf@, off as int),
{
    // the vector's length pins the index sums below the usize bound
    let _n = buf.len();
    (buf[off] as u32) + (buf[off + 1] as u32) * 0x100 + (buf[off + 2] as u32) * 0x10000 + (buf[off
        + 3] as u32) * 0x1000000
}

/// Swapped-pair text of identify data: each byte pair comes back in
/// big-endian order, stopping at the first zero byte.
pub open spec fn be_text(z: Seq<u8>, i: int) -> Seq<u8>
    decreases z.len() / 2 - i,
{
    if i < 0 || i >= z.len() / 2 {
        seq![]
    } else if z[2 * i + 1] == 0 {
        seq![]
    } else if z[2 * i] == 0 {
        seq![z[2 * i + 1]]
    } else {
        seq![z[2 * i + 1], z[2 * i]].add(be_text(z, i + 1))
    }
}

/// The identify-data text of `len` bytes starting at `off`, with each byte
/// pair swapped into reading order.
pub fn write_as_be(buf: &Vec<u8>, off: usize, len: usize) -> (r: Vec<u8>)
    requires
        off + len <= buf@.len(),
    ensures
        r@ == be_text(buf@.subrange(off as int, (off + len) as int), 0),
{
    let ghost z = buf@.subrange(off as int, (off + len) as int);
    let _n = buf.len();
    let mut r: Vec<u8> = Vec::new();
    let mut i: usize = 0;
    let half = len / 2;
    while i < half
        invariant
            i <= half,
            half == len as int / 2,
            2 * half <= len,
            _n == buf@.len(),
            off + len <= buf@.len(),
            z == buf@.subrange(off as int, (off + len) as int),
            be_text(z, 0) == r@.add(be_text(z, i as int)),
        decreases half - i,
    {
        let c1 = buf[off + 2 * i + 1];
        if c1 == 0 {
            proof {
                assert(be_text(z, i as int) =~= seq![]);
                assert(r@ =~= r@.add(be_text(z, i as int)));
            }
            return r;
        }
        r.push(c1);
        let c0 = buf[off + 2 * i];
        if c0 == 0 {
            proof {
                assert(be_text(z, i as int) =~= seq![c1]);
            }
            return r;
        }
        r.push(c0);
        proof {
            assert(be_text(z, i as int) =~= seq![c1, c0].add(be_text(z, i + 1)));
            assert(be_text(z, 0) =~= r@.add(be_text(z, i + 1)));
        }
        i += 1;
    }
    proof {
        assert(be_text(z, i as int) =~= seq![]);
        assert(r@ =~= r@.add(be_text(z, i as int)));
    }
    r
}

/// The serial-number text of an identify sector.
pub fn write_sn(buf: &Vec<u8>) -> (r: Vec<u8>)
    requires
        buf@.len() >= 40,
    ensures
        r@ == be_text(buf@.subrange(20, 40), 0),
{
    write_as_be(buf, 20, 20)
}

/// The model text of an identify sector.
pub fn write_md(buf: &Vec<u8>) -> (r: Vec<u8>)
    requires
        buf@.len() >= 94,
    ensures
        r@ == be_text(buf@.subrange(54, 94), 0),
{
    write_as_be(buf, 54, 40)
}

/// Sector count of an identify sector: the 32-bit word at word offset 60.
pub fn sectors(buf: &Vec<u8>) -> (r: usize)
    requires
        buf@.len() >= 124,
    ensures
        r == le32_at(buf@, 120),
{
    let v = read_le32(buf, 120);
    v as usize
}

/// Parse one partition-table entry at byte offset `off`.
pub fn parse_pte(buf: &Vec<u8>, off: usize) -> (r: PTE)
    requires
        off + PTE_SIZE <= buf@.len(),
    ensures
        r.boot == buf@[off as int],
        r.start_head == buf@[off + 1],
        r.start_sec == buf@[off + 2],
        r.start_cyl == buf@[off + 3],
        r.fs_type == buf@[off + 4],
        r.end_head == buf@[off + 5],
        r.end_sec == buf@[off + 6],
        r.end_cyl == buf@[off + 7],
        r.start_lba == le32_at(buf@, off + 8),
        r.sec_n == le32_at(buf@, off + 12),
{
    // the vector's length pins the index sums below the usize bound
    let _n = buf.len();
    PTE {
        boot: buf[off],
        start_head: buf[off + 1],
        start_sec: buf[off + 2],
        start_cyl: buf[off + 3],
        fs_type: buf[off + 4],
        end_head: buf[off + 5],
        end_sec: buf[off + 6],
        end_cyl: buf[off + 7],
        start_lba: read_le32(buf, off + 8),
        sec_n: read_le32(buf, off + 12),
    }
}

/// The four primary partition entries of a boot sector.
pub fn partition_table(boot: &Vec<u8>) -> (r: Vec<PTE>)
    requires
        boot@.len() >= 512,
    ensures
        r@.len() == PRIMARY_LEN,
        forall|k: int|
            0 <= k < PRIMARY_LEN ==> (#[trigger] r@[k]).start_lba == le32_at(
                boot@,
                PT_OFF + k * PTE_SIZE + 8,
            ) && r@[k].sec_n == le32_at(boot@, PT_OFF + k * PTE_SIZE + 12) && r@[k].fs_type
                == boot@[PT_OFF + k * PTE_SIZE + 4],
{
    let mut r: Vec<PTE> = Vec::new();
    let mut k: usize = 0;
    while k < PRIMARY_LEN
        invariant
            k <= PRIMARY_LEN,
            boot@.len() >= 512,
            r@.len() == k,
            forall|j: int|
                0 <= j < k ==> (#[trigger] r@[j]).start_lba == le32_at(
                    boot@,
                    PT_OFF + j * PTE_SIZE + 8,
                ) && r@[j].sec_n == le32_at(boot@, PT_OFF + j * PTE_SIZE + 12) && r@[j].fs_type
                    == boot@[PT_OFF + j * PTE_SIZE + 4],
        decreases PRIMARY_LEN - k,
    {
        let e = parse_pte(boot, PT_OFF + k * PTE_SIZE);
        r.push(e);
        k += 1;
    }
    r
}

} // verus!
