//! IDE channel and disk logic: register layout, device selection, read
//! batching, the ready-poll decision, and the completion interrupt.
//!
//! The port reads and writes themselves are outside work; this module
//! computes exactly what goes out on which port and decides from what came
//! back, and drives the channel's lock and completion semaphore.

use vstd::prelude::*;

use crate::intr::Cpu;
use crate::sync::{Lock, Semaphore};
use crate::thread::{Sched, Status};

verus! {

/// Status register: drive is busy.
pub const BIT_STAT_BSY: u8 = 0x80;

/// Status register: drive is ready.
pub const BIT_STAT_DRDY: u8 = 0x40;

/// Status register: data request ready.
pub const BIT_STAT_DRQ: u8 = 0x8;

/// Device register: always-set marker bits.
pub const BIT_DEV_MBS: u8 = 0xa0;

/// Device register: address by logical block.
pub const BIT_DEV_LBA: u8 = 0x40;

/// Device register: the second device of the channel.
pub const BIT_DEV_DEV: u8 = 0x10;

/// Command: identify the device.
pub const CMD_ID: u8 = 0xec;

/// Command: read sectors.
pub const CMD_READ_SEC: u8 = 0x20;

/// Command: write sectors.
pub const CMD_WRITE_SEC: u8 = 0x30;

/// Bytes of one sector.
pub const SEC_SIZE: usize = 512;

/// Highest logical block the driver accepts.
pub const MAX_LBA: u32 = 163839;

/// One partition of a disk.
pub struct Partition {
    pub start: u32,
    pub sec_n: u32,
    /// Index of the owning disk.
    pub disk: usize,
    pub name: Vec<u8>,
}

/// One ATA channel: its port base, interrupt vector, the lock serializing
/// commands, and the semaphore its completion interrupt signals.
pub struct IdeChannel {
    pub name: Vec<u8>,
    pub port: u16,
    pub int_vec: u16,
    pub lock: Lock,
    pub expecting: bool,
    pub disk_done: Semaphore,
}

impl IdeChannel {
    pub open spec fn wf(&self) -> bool {
        self.port + 7 <= u16::MAX
    }

    /// Device register of the channel.
    pub fn reg_dev(&self) -> (r: u16)
        requires
            self.wf(),
        ensures
            r == self.port + 6,
    {
        self.port + 6
    }

    /// Command register of the channel.
    pub fn reg_cmd(&self) -> (r: u16)
        requires
            self.wf(),
        ensures
            r == self.port + 7,
    {
        self.port + 7
    }

    /// Status register of the channel.
    pub fn reg_status(&self) -> (r: u16)
        requires
            self.wf(),
        ensures
            r == self.port + 7,
    {
        self.port + 7
    }

    /// Data register of the channel.
    pub fn reg_data(&self) -> (r: u16)
        ensures
            r == self.port,
    {
        self.port
    }

    /// Sector-count register of the channel.
    pub fn reg_sec_n(&self) -> (r: u16)
        requires
            self.wf(),
        ensures
            r == self.port + 2,
    {
        self.port + 2
    }

    /// The four port writes that select device `dev_no` and logical block
    /// `lba`: the low three address bytes, then the device byte carrying
    /// address bits 24 to 27.
    pub fn out_lba(&self, dev_no: u8, lba: u32) -> (r: Vec<(u16, u8)>)
        requires
            self.wf(),
        ensures
            r@.len() == 4,
            r@[0].0 == self.port + 3 && r@[0].1 == lba as u8,
            r@[1].0 == self.port + 4 && r@[1].1 == (lba >> 8) as u8,
            r@[2].0 == self.port + 5 && r@[2].1 == (lba >> 16) as u8,
            r@[3].0 == self.port + 6,
            r@[3].1 == (BIT_DEV_MBS | BIT_DEV_LBA | (if dev_no > 0 {
                BIT_DEV_DEV
            } else {
                0
            }) | ((lba >> 24) & 0xf) as u8),
    {
        let mut r: Vec<(u16, u8)> = Vec::new();
        r.push((self.port + 3, lba as u8));
        r.push((self.port + 4, (lba >> 8) as u8));
        r.push((self.port + 5, (lba >> 16) as u8));
        proof {
            assert((lba >> 24) & 0xf < 0x10) by (bit_vector);
        }
        let dev_bit: u8 = if dev_no > 0 {
            BIT_DEV_DEV
        } else {
            0
        };
        r.push((self.port + 6, BIT_DEV_MBS | BIT_DEV_LBA | dev_bit | ((lba >> 24) & 0xf) as u8));
        r
    }

    /// Arm the channel for a completion interrupt and give the port write
    /// that issues command `cmd`.
    pub fn cmd_out(&mut self, cmd: u8) -> (r: (u16, u8))
        requires
            old(self).wf(),
        ensures
            final(self).expecting,
            final(self).port == old(self).port,
            final(self).int_vec == old(self).int_vec,
            final(self).lock == old(self).lock,
            final(self).disk_done == old(self).disk_done,
            r.0 == old(self).port + 7,
            r.1 == cmd,
    {
        self.expecting = true;
        (self.port + 7, cmd)
    }
}

/// One disk on a channel.
pub struct Disk {
    pub name: Vec<u8>,
    /// Index of the owning channel.
    pub ide: usize,
    pub dev_no: u8,
}

impl Disk {
    /// Index of this disk's channel.
    pub fn ide(&self) -> (r: usize)
        ensures
            r == self.ide,
    {
        self.ide
    }

    /// The device-register write that selects this disk.
    pub fn select(&self, ch: &IdeChannel) -> (r: (u16, u8))
        requires
            ch.wf(),
        ensures
            r.0 == ch.port + 6,
            r.1 == (BIT_DEV_MBS | BIT_DEV_LBA | (if self.dev_no > 0 {
                BIT_DEV_DEV
            } else {
                0
            })),
    {
        let dev_bit: u8 = if self.dev_no > 0 {
            BIT_DEV_DEV
        } else {
            0
        };
        (ch.port + 6, BIT_DEV_MBS | BIT_DEV_LBA | dev_bit)
    }

    /// Replay of the ready poll over the sampled status bytes, one sample
    /// per 10 ms: wait while the busy bit stands, up to `mils`
    /// milliseconds; on the first calm sample the data-request bit decides.
    /// Controllers disagree on the polarity of that bit, so it is passed in
    /// explicitly rather than fixed.
    pub fn busy_wait(&self, statuses: &Vec<u8>, mils: u32, drq_set_means_ready: bool) -> (r: bool)
        requires
            statuses@.len() * 10 >= mils,
        ensures
            r == busy_wait_spec(statuses@, mils as int, drq_set_means_ready),
    {
        let mut left = mils;
        let mut i: usize = 0;
        while left > 0
            invariant
                statuses@.len() * 10 >= mils,
                left > 0 ==> i * 10 + left <= mils,
                busy_wait_spec(statuses@, mils as int, drq_set_means_ready) == busy_wait_rec(
                    statuses@,
                    left as int,
                    i as int,
                    drq_set_means_ready,
                ),
            decreases left,
        {
            proof {
                assert(i < statuses@.len()) by (nonlinear_arith)
                    requires
                        statuses@.len() * 10 >= mils,
                        i * 10 + left <= mils,
                        left > 0,
                ;
            }
            let st = statuses[i];
            if st & BIT_STAT_BSY == 0 {
                let ready = st & BIT_STAT_DRQ != 0;
                return if drq_set_means_ready {
                    ready
                } else {
                    !ready
                };
            }
            if left >= 10 {
                left = left - 10;
            } else {
                left = 0;
            }
            i += 1;
        }
        false
    }
}

/// What the ready poll returns, over the sampled status bytes.
pub open spec fn busy_wait_spec(statuses: Seq<u8>, mils: int, drq_set: bool) -> bool {
    busy_wait_rec(statuses, mils, 0, drq_set)
}

pub open spec fn busy_wait_rec(statuses: Seq<u8>, left: int, i: int, drq_set: bool) -> bool
    decreases left,
{
    if left <= 0 || i >= statuses.len() {
        false
    } else if statuses[i] & BIT_STAT_BSY == 0 {
        if drq_set {
            statuses[i] & BIT_STAT_DRQ != 0
        } else {
            statuses[i] & BIT_STAT_DRQ == 0
        }
    } else {
        busy_wait_rec(statuses, if left >= 10 {
            left - 10
        } else {
            0
        }, i + 1, drq_set)
    }
}

/// The command batches of a read of `sec_n` sectors starting at `lba`: at
/// most 256 sectors per command (0 encodes 256), consecutive, covering the
/// request exactly.
pub fn ide_read(lba: u32, sec_n: usize) -> (r: Vec<(u32, u8)>)
    requires
        lba < MAX_LBA,
        1 <= sec_n,
        lba + sec_n + 256 <= 0x1_0000_0000,
    ensures
        r@.len() == (sec_n + 255) as int / 256,
        forall|i: int| 0 <= i < r@.len() ==> (#[trigger] r@[i]).0 == lba + i * 256,
        forall|i: int| 0 <= i < r@.len() - 1 ==> (#[trigger] r@[i]).1 == 0,
        r@[r@.len() - 1].1 == (if sec_n % 256 == 0 {
            0u8
        } else {
            (sec_n % 256) as u8
        }),
{
    let batches = (sec_n + 255) / 256;
    proof {
        lemma_read_batches(sec_n as int);
    }
    let mut r: Vec<(u32, u8)> = Vec::new();
    let mut i: usize = 0;
    while i < batches
        invariant
            i <= batches,
            batches == (sec_n + 255) as int / 256,
            1 <= batches,
            batches * 256 <= sec_n + 255,
            lba + sec_n + 256 <= 0x1_0000_0000,
            r@.len() == i,
            forall|k: int| 0 <= k < i ==> (#[trigger] r@[k]).0 == lba + k * 256,
            forall|k: int| 0 <= k < i && k < batches - 1 ==> (#[trigger] r@[k]).1 == 0,
            i > 0 && i == batches ==> r@[i - 1].1 == (if sec_n % 256 == 0 {
                0u8
            } else {
                (sec_n % 256) as u8
            }),
        decreases batches - i,
    {
        proof {
            assert(i * 256 <= sec_n) by (nonlinear_arith)
                requires
                    i < batches,
                    batches * 256 <= sec_n + 255,
                    0 <= i,
            ;
        }
        let start = lba + (i * 256) as u32;
        let count: u8 = if i + 1 < batches || sec_n % 256 == 0 {
            0
        } else {
            (sec_n % 256) as u8
        };
        r.push((start, count));
        i += 1;
    }
    r
}

/// A read of at least one sector takes at least one batch, and the batches
/// cover no more than one short batch past the request.
proof fn lemma_read_batches(sec_n: int)
    by (nonlinear_arith)
    requires
        1 <= sec_n,
    ensures
        1 <= (sec_n + 255) / 256,
        ((sec_n + 255) / 256) * 256 <= sec_n + 255,
        0 <= sec_n % 256 < 256,
{
}

/// Set up the ATA channels and their disks: the primary channel sits at
/// port 0x1f0 with interrupt vector 0x2e, the secondary at 0x170 with 0x2f.
/// Each channel starts with an open command lock and a zero completion
/// semaphore, expecting nothing; its two disks are named `sda` onward in
/// channel-then-device order.
pub fn init(ch_cnt: usize) -> (r: (Vec<IdeChannel>, Vec<Disk>))
    requires
        ch_cnt <= 2,
    ensures
        r.0@.len() == ch_cnt,
        r.1@.len() == 2 * ch_cnt,
        forall|c: int|
            0 <= c < ch_cnt ==> {
                let ch = #[trigger] r.0@[c];
                &&& ch.port == (if c == 0 {
                    0x1f0u16
                } else {
                    0x170u16
                })
                &&& ch.int_vec == (if c == 0 {
                    0x2eu16
                } else {
                    0x2fu16
                })
                &&& !ch.expecting
                &&& ch.disk_done.value == 0
                &&& ch.disk_done.waiters@.len() == 0
                &&& ch.lock.holder is None
                &&& ch.lock.sem.value == 1
                &&& ch.lock.repeats == 0
                &&& ch.name@ == seq![105u8, 100u8, 101u8, 45u8, (48 + c) as u8]
            },
        forall|d: int|
            0 <= d < 2 * ch_cnt ==> {
                let hd = #[trigger] r.1@[d];
                &&& hd.ide == d / 2
                &&& hd.dev_no == (d % 2) as u8
                &&& hd.name@ == seq![115u8, 100u8, (97 + d) as u8]
            },
{
    let mut chs: Vec<IdeChannel> = Vec::new();
    let mut disks: Vec<Disk> = Vec::new();
    let mut c: usize = 0;
    while c < ch_cnt
        invariant
            c <= ch_cnt,
            ch_cnt <= 2,
            chs@.len() == c,
            disks@.len() == 2 * c,
            forall|j: int|
                0 <= j < c ==> {
                    let ch = #[trigger] chs@[j];
                    &&& ch.port == (if j == 0 {
                        0x1f0u16
                    } else {
                        0x170u16
                    })
                    &&& ch.int_vec == (if j == 0 {
                        0x2eu16
                    } else {
                        0x2fu16
                    })
                    &&& !ch.expecting
                    &&& ch.disk_done.value == 0
                    &&& ch.disk_done.waiters@.len() == 0
                    &&& ch.lock.holder is None
                    &&& ch.lock.sem.value == 1
                    &&& ch.lock.repeats == 0
                    &&& ch.name@ == seq![105u8, 100u8, 101u8, 45u8, (48 + j) as u8]
                },
            forall|d: int|
                0 <= d < 2 * c ==> {
                    let hd = #[trigger] disks@[d];
                    &&& hd.ide == d / 2
                    &&& hd.dev_no == (d % 2) as u8
                    &&& hd.name@ == seq![115u8, 100u8, (97 + d) as u8]
                },
        decreases ch_cnt - c,
    {
        let mut name: Vec<u8> = Vec::new();
        name.push(105);
        name.push(100);
        name.push(101);
        name.push(45);
        name.push(48 + (c as u8));
        let (port, int_vec): (u16, u16) = if c == 0 {
            (0x1f0, 0x2e)
        } else {
            (0x170, 0x2f)
        };
        let ch = IdeChannel {
            name,
            port,
            int_vec,
            lock: Lock::new(),
            expecting: false,
            disk_done: Semaphore::new(0),
        };
        proof {
            assert(ch.name@ =~= seq![105u8, 100u8, 101u8, 45u8, (48 + c) as u8]);
        }
        chs.push(ch);

        let mut dev: usize = 0;
        while dev < 2
            invariant
                dev <= 2,
                c < ch_cnt,
                ch_cnt <= 2,
                disks@.len() == 2 * c + dev,
                forall|d: int|
                    0 <= d < 2 * c + dev ==> {
                        let hd = #[trigger] disks@[d];
                        &&& hd.ide == d / 2
                        &&& hd.dev_no == (d % 2) as u8
                        &&& hd.name@ == seq![115u8, 100u8, (97 + d) as u8]
                    },
            decreases 2 - dev,
        {
            let mut dname: Vec<u8> = Vec::new();
            dname.push(115);
            dname.push(100);
            dname.push(97 + (c as u8) * 2 + (dev as u8));
            let hd = Disk { name: dname, ide: c, dev_no: dev as u8 };
            proof {
                lemma_disk_index(c as int, dev as int);
                assert(hd.name@ =~= seq![115u8, 100u8, (97 + (2 * c + dev)) as u8]);
            }
            disks.push(hd);
            dev += 1;
        }
        c += 1;
    }
    (chs, disks)
}

/// A disk's flat index splits back into its channel and device number.
proof fn lemma_disk_index(c: int, dev: int)
    by (nonlinear_arith)
    requires
        0 <= c,
        0 <= dev < 2,
    ensures
        (2 * c + dev) / 2 == c,
        (2 * c + dev) % 2 == dev,
{
}

/// Completion interrupt of a channel: when a command is outstanding, clear
/// the flag and signal the completion semaphore, waking its first waiter in
/// FIFO order onto the head of the ready queue.
pub fn int_handle(ch: &mut IdeChannel, sched: &mut Sched, cpu: &mut Cpu, vec: u32)
    requires
        old(sched).wf(),
        old(ch).disk_done.wf_for(*old(sched)),
        old(ch).disk_done.value < 0xffff_ffff,
        vec == old(ch).int_vec,
        vec == 0x2e || vec == 0x2f,
    ensures
        final(sched).wf(),
        final(ch).disk_done.wf_for(*final(sched)),
        !final(ch).expecting,
        final(sched).current == old(sched).current,
        final(sched).pcbs@.len() == old(sched).pcbs@.len(),
        old(ch).expecting ==> final(ch).disk_done.value == old(ch).disk_done.value + 1,
        old(ch).expecting && old(ch).disk_done.waiters@.len() == 0 ==> final(ch).disk_done.waiters@
            == old(ch).disk_done.waiters@ && *final(sched) == *old(sched),
        old(ch).expecting && old(ch).disk_done.waiters@.len() > 0 ==> {
            let woken = old(ch).disk_done.waiters@[0];
            &&& final(ch).disk_done.waiters@ == old(ch).disk_done.waiters@.drop_first()
            &&& final(sched).ready@ == seq![woken].add(old(sched).ready@)
            &&& final(sched).pcbs@[woken as int].status == Status::Ready
            &&& (forall|id: int|
                0 <= id < old(sched).pcbs@.len() && id != woken ==> final(sched).pcbs@[id] == old(
                    sched,
                ).pcbs@[id])
        },
        !old(ch).expecting ==> *final(ch) == *old(ch) && *final(sched) == *old(sched)
            && old(ch).expecting == final(ch).expecting,
{
    if !ch.expecting {
        return ;
    }
    ch.expecting = false;
    ch.disk_done.v(sched, cpu);
}

} // verus!
