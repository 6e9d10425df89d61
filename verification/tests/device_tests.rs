use kcore::fmtbuf::SliceWriter;
use kcore::fsinfo::{partition_table, sectors, write_sn};
use kcore::ide::{
    ide_read, int_handle, Disk, IdeChannel, BIT_DEV_DEV, BIT_DEV_LBA, BIT_DEV_MBS, BIT_STAT_BSY,
    BIT_STAT_DRQ, CMD_READ_SEC,
};
use kcore::idt::{init_idt, init_pic, GateBits, IDT_DESC_ATTR_DPL0, IDT_DESC_ATTR_DPL3, SYS_VEC,
    SELECTOR_K_CODE};
use kcore::intr::Cpu;
use kcore::err::SE;
use kcore::page::{init_page, pte_ptr, v2p, BumpAlloc, PageTableEntry, PDE_START};
use kcore::sync::{Lock, Semaphore};
use kcore::syscall::{sys_decode, SysAction, NR_FREE, NR_MALLOC, NR_WRITE};
use kcore::thread::{Sched, Status, PCB};
use kcore::timer;
use kcore::tss::{tss_descriptor, Tss, TSS_SIZE};
use kcore::vga::{init_com1, Vga, BLANK, VGA_COLS, VGA_LINES, VGA_WORDS};

fn channel() -> IdeChannel {
    IdeChannel {
        name: b"ide-0".to_vec(),
        port: 0x1f0,
        int_vec: 0x2e,
        lock: Lock::new(),
        expecting: false,
        disk_done: Semaphore::new(0),
    }
}

#[test]
fn channel_register_layout() {
    let ch = channel();
    assert_eq!(ch.reg_data(), 0x1f0);
    assert_eq!(ch.reg_sec_n(), 0x1f2);
    assert_eq!(ch.reg_dev(), 0x1f6);
    assert_eq!(ch.reg_cmd(), 0x1f7);
    assert_eq!(ch.reg_status(), 0x1f7);
}

#[test]
fn lba_goes_out_byte_by_byte() {
    let ch = channel();
    let w = ch.out_lba(1, 0x0a1b2c3d);
    assert_eq!(w[0], (0x1f3, 0x3d));
    assert_eq!(w[1], (0x1f4, 0x2c));
    assert_eq!(w[2], (0x1f5, 0x1b));
    assert_eq!(w[3], (0x1f6, BIT_DEV_MBS | BIT_DEV_LBA | BIT_DEV_DEV | 0x0a));
}

#[test]
fn read_batches_cover_request() {
    let plan = ide_read(100, 600);
    assert_eq!(plan.len(), 3);
    assert_eq!(plan[0], (100, 0));
    assert_eq!(plan[1], (356, 0));
    assert_eq!(plan[2], (612, 88));

    let exact = ide_read(0, 512);
    assert_eq!(exact.len(), 2);
    assert_eq!(exact[1], (256, 0));

    let one = ide_read(7, 1);
    assert_eq!(one, vec![(7, 1)]);
}

#[test]
fn busy_wait_polls_until_calm() {
    let d = Disk { name: b"sda".to_vec(), ide: 0, dev_no: 0 };
    let busy = BIT_STAT_BSY;
    let ready = BIT_STAT_DRQ;
    // two busy samples, then calm with data ready
    assert!(d.busy_wait(&vec![busy, busy, ready], 30, true));
    // calm but no data request
    assert!(!d.busy_wait(&vec![busy, 0], 20, true));
    // with inverted polarity the same sample reads as ready
    assert!(d.busy_wait(&vec![busy, 0], 20, false));
    // the budget runs out while busy
    assert!(!d.busy_wait(&vec![busy, busy, busy], 30, true));
}

#[test]
fn completion_interrupt_signals_waiter() {
    let main = PCB::new(b"main".to_vec(), 5, 0x200000);
    let idle = PCB::new(b"idle".to_vec(), 1, 0x201000);
    let mut sched = Sched::new(main, idle);
    let mut cpu = Cpu::new();
    let mut ch = channel();
    let w = ch.cmd_out(CMD_READ_SEC);
    assert_eq!(w, (0x1f7, CMD_READ_SEC));
    assert!(ch.expecting);
    int_handle(&mut ch, &mut sched, &mut cpu, 0x2e);
    assert!(!ch.expecting);
    assert_eq!(ch.disk_done.value, 1);
    // a second interrupt with no command outstanding changes nothing
    int_handle(&mut ch, &mut sched, &mut cpu, 0x2e);
    assert_eq!(ch.disk_done.value, 1);
}

#[test]
fn identify_text_and_sectors() {
    let mut buf = vec![0u8; 512];
    // serial number bytes, swapped pairwise on disk, zero-terminated
    let sn: Vec<u8> = vec![
        b'e', b'S', b'i', b'r', b'l', b'a', b'-', b'N', b'm', b'u', b'e', b'b', 0, b'r',
    ];
    buf[20..34].copy_from_slice(&sn);
    let text = write_sn(&buf);
    assert_eq!(text, b"SerialN-umber".to_vec());

    buf[120..124].copy_from_slice(&0x00a0_0000u32.to_le_bytes());
    assert_eq!(sectors(&buf), 0x00a0_0000);
}

#[test]
fn boot_sector_partition_table() {
    let mut boot = vec![0u8; 512];
    let base = 446;
    boot[base + 4] = 0x83;
    boot[base + 8..base + 12].copy_from_slice(&2048u32.to_le_bytes());
    boot[base + 12..base + 16].copy_from_slice(&40960u32.to_le_bytes());
    let pt = partition_table(&boot);
    assert_eq!(pt.len(), 4);
    assert_eq!(pt[0].fs_type, 0x83);
    assert_eq!(pt[0].start_lba, 2048);
    assert_eq!(pt[0].sec_n, 40960);
    assert_eq!(pt[1].start_lba, 0);
}

#[test]
fn slice_writer_truncates() {
    let mut w = SliceWriter::new(8);
    w.write_str(&b"ide-".to_vec());
    w.write_char(b'0');
    assert_eq!(&w.buf[..5], b"ide-0");
    assert_eq!(w.off, 5);
    w.write_str(&b"overflowing".to_vec());
    assert_eq!(w.off, 8);
    assert_eq!(&w.buf[..8], b"ide-0ove");
}

#[test]
fn syscall_decode() {
    assert_eq!(sys_decode(NR_WRITE, 0x1000, 5), SysAction::Write { ptr: 0x1000, len: 5 });
    assert_eq!(sys_decode(NR_MALLOC, 64, 0), SysAction::Malloc { size: 64 });
    assert_eq!(sys_decode(NR_FREE, 0x2000, 0), SysAction::Free { ptr: 0x2000 });
    assert_eq!(sys_decode(0, 0, 0), SysAction::GetPid);
    assert_eq!(sys_decode(99, 0, 0), SysAction::Unknown);
}

#[test]
fn timer_divisor_bytes() {
    let w = timer::init();
    assert_eq!(w.len(), 3);
    assert_eq!(w[0], (0x43, 0x34));
    // 1193180 / 10000 = 119
    assert_eq!(w[1], (0x40, 119));
    assert_eq!(w[2], (0x40, 0));
}

#[test]
fn pic_and_com1_sequences() {
    let pic = init_pic();
    assert_eq!(pic.len(), 10);
    assert_eq!(pic[0], (0x20, 0x11));
    assert_eq!(pic[8], (0x21, 0xf8));
    let com = init_com1();
    assert_eq!(com.len(), 10);
    assert_eq!(com[8], (0x3f8, 0xae));
}

#[test]
fn idt_table_layout() {
    let entries = vec![0x8000u32, 0x8010, 0x8020];
    let t = init_idt(&entries, 0x9000);
    assert_eq!(t.len(), SYS_VEC + 1);
    assert_eq!(t[1].off_low, 0x8010);
    assert_eq!(t[1].attr, IDT_DESC_ATTR_DPL0);
    assert_eq!(t[SYS_VEC].off_low, 0x9000);
    assert_eq!(t[SYS_VEC].attr, IDT_DESC_ATTR_DPL3);
}

#[test]
fn channels_and_disks_named_in_order() {
    let (chs, disks) = kcore::ide::init(2);
    assert_eq!(chs.len(), 2);
    assert_eq!(disks.len(), 4);
    assert_eq!(chs[0].name, b"ide-0".to_vec());
    assert_eq!(chs[1].name, b"ide-1".to_vec());
    assert_eq!((chs[1].port, chs[1].int_vec), (0x170, 0x2f));
    assert_eq!(disks[0].name, b"sda".to_vec());
    assert_eq!(disks[3].name, b"sdd".to_vec());
    assert_eq!((disks[3].ide, disks[3].dev_no), (1, 1));
}

#[test]
fn gate_bits_split_handler_address() {
    let g = GateBits::new(0xdeadbeef, IDT_DESC_ATTR_DPL0);
    assert_eq!(g.off_low, 0xbeef);
    assert_eq!(g.off_high, 0xdead);
    assert_eq!(g.selector, SELECTOR_K_CODE);
    assert_eq!(g.attr, IDT_DESC_ATTR_DPL0);
}

#[test]
fn tss_stack_switch_record() {
    let mut t = Tss::new();
    t.init(16);
    t.set_esp0(0x208000);
    assert_eq!(t.esp0(), 0x208000);
    assert_eq!(t.words[2], 16);
    assert_eq!(t.words[26], TSS_SIZE as u32);
    let d = tss_descriptor(0x100000);
    assert_eq!(d & 0xffff, 107);
}

#[test]
fn boot_directory_maps_kernel() {
    let mut bump = BumpAlloc::new();
    let dir = init_page(&mut bump);
    // identity mapping of the reserved and kernel areas
    assert_eq!(v2p(&dir, 0x1000), 0x1000);
    assert_eq!(v2p(&dir, 0x7fffff), 0x7fffff);
    // the kernel window above OS_MEM_OFF mirrors low memory
    assert_eq!(v2p(&dir, 0xc0000000), 0);
    assert_eq!(v2p(&dir, 0xc04fffff), 0x4fffff);
    // four tables were carved from the static area
    assert_eq!(bump.used, 4);
    // the loopback slot points back at the directory
    assert_eq!(dir.base, PDE_START);
    assert!(dir.entries[1023].data & 1 != 0);
}

#[test]
fn bump_area_runs_out() {
    let mut bump = BumpAlloc::new();
    let first = bump.static_alloc(4).unwrap();
    assert_eq!(first, 0x11000);
    assert_eq!(bump.used, 4);
    // the static area below 0x80000 holds 111 pages in all
    assert_eq!(bump.static_alloc(200), Err(SE::MemoryOverflow));
    assert_eq!(bump.used, 4);
}

#[test]
fn pte_ptr_uses_loopback_window() {
    assert_eq!(pte_ptr(0), 0xffc00000);
    assert_eq!(pte_ptr(0x00400000), 0xffc01000);
    assert_eq!(pte_ptr(0x00001000), 0xffc00004);
}

#[test]
fn page_entry_bits() {
    let e = PageTableEntry::new(0x5000, 7);
    assert_eq!(e.data, 0x5007);
    let mut d = e;
    d.delete();
    assert_eq!(d.data, 0x5006);
    let z = PageTableEntry::zero();
    assert!(!z.is_present());
}

#[test]
fn vga_scroll_and_put() {
    let mut v = Vga::new();
    v.put_char(b'A');
    assert_eq!(v.words[(VGA_LINES - 1) * VGA_COLS], 0x0f41);
    assert_eq!(v.col, 1);
    v.put_char(b'\n');
    assert_eq!(v.col, 0);
    // the glyph scrolled up one line
    assert_eq!(v.words[(VGA_LINES - 2) * VGA_COLS], 0x0f41);
    assert_eq!(v.words[VGA_WORDS - 1], BLANK);
    v.puts(&b"ok".to_vec());
    assert_eq!(v.col, 2);
    v.cls();
    assert_eq!(v.words[(VGA_LINES - 2) * VGA_COLS], BLANK);
}

#[test]
fn pcb_primed_context() {
    let mut p = PCB::new(b"th".to_vec(), 8, 0x300000);
    assert_eq!(p.stack_off(), 0x301000);
    assert!(!p.user());
    assert!(!p.overflow());
    p.init(0x100000, 0x2000, 42);
    assert_eq!(p.stack, 0x301000 - 76 - 64);
    assert_eq!(p.kctx.eip, 0x100000);
    assert_eq!(p.kctx.func, 0x2000);
    assert_eq!(p.kctx.arg, 42);
    *p.status_mut() = Status::Running;
    assert_eq!(p.status, Status::Running);
    assert_eq!(p.off(), 0x300000);

    // the name is a fixed-size record field: a long one is cut to 16 bytes
    let long = PCB::new(b"seventeen-bytes!!".to_vec(), 1, 0x300000);
    assert_eq!(long.name, b"seventeen-bytes!".to_vec());
}
