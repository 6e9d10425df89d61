use kcore::gdt::{user_code, user_data, GdtBuilder, Mode, GD};
use kcore::link::LinkedList;
use kcore::list::{List, Node};

#[test]
fn list_test() {
    let mut li = List::new();
    li.init();

    let n = Node::new();
    assert_eq!((n.prev, n.next), (0, 0));

    li.prepend(0);
    println!("li.len() = {}", li.len());
    assert_eq!(li.len(), 1);

    li.pop_head();
    println!("li.len() = {}", li.len());
    assert_eq!(li.len(), 0);
}

#[test]
fn gdt_test_test() {
    let mut bd = GdtBuilder::default();
    bd.limit(0xffffffff);
    bd.present(true);
    bd.rw(false);
    bd.executable(true);
    bd.mode(Mode::Protect);
    bd.privilege(0);
    bd.lim_4k(true);
    bd.system(false);

    let r = bd.build();

    assert_eq!(r, 58432445946593279);
}

#[test]
fn link_test_test() {
    println!("align = {}", core::mem::align_of::<u16>());
    let mut li = LinkedList::new(0, 1);
    li.init(0, 1);

    let ids = [0usize, 1, 2, 3];

    // append the first two nodes
    li.append(ids[0]);
    li.append(ids[1]);

    let v = li.iter();
    println!("{:?}", v);
    println!("{}", li.len());
    assert_eq!(v, vec![0, 1]);

    // prepend the third
    li.push_head(ids[2]);
    let v = li.iter();
    println!("{:?}", v);
    assert_eq!(v, vec![2, 0, 1]);

    // pop the head
    let pop = li.pop_head();
    println!("{:?}", pop);
    let v = li.iter();
    println!("{:?}", v);
    assert_eq!(pop, Some(2));
    assert_eq!(v, vec![0, 1]);

    li.append(pop.unwrap());
    let v = li.iter();
    println!("{:?}", v);
    assert_eq!(v, vec![0, 1, 2]);
}

#[test]
fn link_test_test1() {
    const LEN: usize = 32;
    let mut x: [u32; LEN] = [0; LEN];

    let slice = &mut x[LEN / 4..LEN / 4 + LEN / 4];
    slice.fill(1);
    let mut y: [u32; LEN / 4] = [0; LEN / 4];
    y.copy_from_slice(slice);

    println!("{:?}", y);
    assert_eq!(y, [1u32; LEN / 4]);
}

#[test]
fn gdt_pack_matches_fields() {
    // base and limit spread across the interleaved descriptor bytes
    let mut bd = GdtBuilder::new();
    bd.limit(0xabcde);
    bd.base(0x12345678);
    bd.present(true);
    bd.executable(false);
    bd.rw(true);
    bd.mode(Mode::Protect);
    bd.privilege(0);
    bd.lim_4k(false);
    bd.system(false);
    let r = bd.build();
    assert_eq!(r & 0xffff, 0xbcde);
    assert_eq!((r >> 16) & 0xffff, 0x5678);
    assert_eq!((r >> 32) & 0xff, 0x34);
    assert_eq!((r >> 56) & 0xff, 0x12);
    assert_eq!((r >> 48) & 0xf, 0xa);
}

#[test]
fn user_segments() {
    assert_eq!(user_code(), 0x00cffc000000ffff);
    assert_eq!(user_data(), 0x00cff2000000ffff);
}

#[test]
fn gd_flat_kernel_code() {
    // flat protected-mode kernel code segment, in the byte layout the boot
    // loader writes
    let g = GD::new(0, 0, true, true, false, 1 << 6, 0, true);
    assert_eq!(g.lim_low, 0);
    assert_eq!(g.base_low, 0);
    assert_eq!(g.base_mid, 0);
    assert_eq!(g.acc, 0x80 | 0x02 | 0x08 | 0x10);
    assert_eq!(g.lim_flags, (1 << 6) | 0x80);
    assert_eq!(g.base_high, 0);
    let z = GD::zero();
    assert_eq!(z.acc, 0);
}

#[test]
fn sleep_mils_to_ticks() {
    assert_eq!(kcore::sync::sleep_mils(30), 3);
    assert_eq!(kcore::sync::sleep_mils(9), 0);
}

#[test]
fn linked_list_first_and_contains() {
    let mut li = LinkedList::new(2, 3);
    assert_eq!(li.first(), None);
    li.append(7);
    li.append(9);
    assert_eq!(li.first(), Some(7));
    assert!(li.contains(9));
    assert!(!li.contains(8));
    assert_eq!(li.raw_iter(), vec![7, 9]);
    assert!(!li.is_empty());
}

#[test]
fn list_order_and_contains() {
    let mut li = List::new();
    li.append(4);
    li.prepend(5);
    li.append(6);
    assert_eq!(li.traverse(), vec![5, 4, 6]);
    assert!(li.contains(4));
    assert!(!li.contains(7));
    assert_eq!(li.pop_head(), Some(5));
    assert!(!li.is_empty());
}
