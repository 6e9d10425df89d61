use kcore::bitmap::Bitmap;

fn binary_strings(b: &Bitmap) -> Vec<String> {
    b.buf.iter().map(|x| format!("{:08b}", x)).collect()
}

#[test]
fn bitmap_test() {
    println!("testing!");

    let mut x = Bitmap { buf: vec![1 << 3, 0, 1 << 4] };
    let start = x.try_alloc(4 + 8 + 3);
    println!("start = {}", start);
    x.fill_n(4, 15, true);

    for i in 0..x.bits() {
        println!("bit {} = {}", i, x.test(i));
    }

    // the run was placed at the first fit after the bit at index 3
    assert_eq!(start, 4);
    for i in 0..24 {
        let expected = i == 3 || (4 <= i && i < 19) || i == 20;
        assert_eq!(x.test(i), expected);
    }
}

#[test]
fn bitmap_test1() {
    let x0 = Bitmap { buf: vec![0, 0, 0, 0] };
    let mut x = Bitmap { buf: x0.buf.clone() };
    let mut y = Bitmap { buf: x0.buf.clone() };
    let mut z = Bitmap { buf: x0.buf.clone() };
    let mut z0 = Bitmap { buf: x0.buf.clone() };

    x.fill_n(8, 10, true);
    y.fill_n(8, 17, true);
    z.fill_n(8, 8, true);
    z0.fill_n(3, 3, true);

    for a in [&x, &y, &z, &z0] {
        let s = binary_strings(a);
        println!("{:?}", s);
    }

    assert_eq!(x.buf, vec![0x00, 0xff, 0x03, 0x00]);
    assert_eq!(y.buf, vec![0x00, 0xff, 0xff, 0x01]);
    assert_eq!(z.buf, vec![0x00, 0xff, 0x00, 0x00]);
    assert_eq!(z0.buf, vec![0x38, 0x00, 0x00, 0x00]);
}

#[test]
fn test2() {
    let x0 = Bitmap { buf: vec![0xff, 0xff, 0xff, 0xff] };
    let mut x = Bitmap { buf: x0.buf.clone() };
    let mut y = Bitmap { buf: x0.buf.clone() };
    let mut z = Bitmap { buf: x0.buf.clone() };
    let mut z0 = Bitmap { buf: x0.buf.clone() };

    x.fill_n(8, 10, false);
    y.fill_n(8, 17, false);
    z.fill_n(8, 8, false);
    z0.fill_n(3, 3, false);

    for a in [&x, &y, &z, &z0] {
        let s = binary_strings(a);
        println!("{:?}", s);
    }

    assert_eq!(x.buf, vec![0xff, 0x00, 0xfc, 0xff]);
    assert_eq!(y.buf, vec![0xff, 0x00, 0x00, 0xfe]);
    assert_eq!(z.buf, vec![0xff, 0x00, 0xff, 0xff]);
    assert_eq!(z0.buf, vec![0xc7, 0xff, 0xff, 0xff]);
}

#[test]
fn fill_round_trip_restores_bitmap() {
    let mut x = Bitmap { buf: vec![0b0000_0101, 0b1000_0000] };
    let before = x.buf.clone();
    // bits 3..10 are clear: fill and clear them again
    x.fill_n(3, 7, true);
    for i in 3..10 {
        assert!(x.test(i));
    }
    assert!(x.test(0) && x.test(2) && x.test(15));
    x.fill_n(3, 7, false);
    assert_eq!(x.buf, before);
}

#[test]
fn try_alloc_never_overlaps_set_bits() {
    let mut x = Bitmap { buf: vec![0b1110_0111, 0b0000_1111, 0xff] };
    let r = x.try_alloc(2);
    assert_eq!(r, 3);
    for i in r..r + 2 {
        assert!(!x.test(i as usize));
    }
    // no run of nine free units exists anywhere
    assert_eq!(x.try_alloc(9), -1);
    // a full map refuses a single unit
    x.fill_n(0, 24, true);
    assert_eq!(x.try_alloc(1), -1);
}

#[test]
fn set_and_test_single_bits() {
    let mut x = Bitmap::new(2);
    assert_eq!(x.bits(), 16);
    x.set(9, true);
    assert!(x.test(9));
    assert!(!x.test(8));
    assert!(!x.test(10));
    x.set(9, false);
    for i in 0..16 {
        assert!(!x.test(i));
    }
    x.init();
    assert!(!x.test(9));
}
