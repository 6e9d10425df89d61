use kcore::arena::{free, malloc, Heap, ARENA_HDR, DESC_CNT, MAX_BLK_SIZE};
use kcore::err::SE;
use kcore::mem;
use kcore::page::{PageDirectory, PDE_START};
use kcore::palloc::{alloc_one, pg_alloc, v_free};
use kcore::pool::{PagePool, VPool, PAGE_SIZE};

// End-to-end scenario: a pool of 1024 physical pages loses one page per
// allocation and gets it back, bit and count, on free.
#[test]
fn pool_of_1024_pages_alloc_free() {
    let mut pool = PagePool::new(8 * 1024 * 1024, 1024);
    assert_eq!(pool.avl_pages, 1024);

    let p = pool.p_alloc().unwrap();
    assert_eq!(pool.avl_pages, 1023);
    let frame = (p - pool.p_start) / PAGE_SIZE;
    assert!(pool.bitmap.test(frame));

    pool.remove(p);
    assert_eq!(pool.avl_pages, 1024);
    assert!(!pool.bitmap.test(frame));
}

#[test]
fn avl_after_k_allocs_is_total_minus_k() {
    let mut pool = PagePool::new(0, 64);
    for k in 1..=10usize {
        pool.p_alloc().unwrap();
        assert_eq!(pool.avl_pages, 64 - k);
    }
}

#[test]
fn exhausted_pool_fails_without_mutation() {
    let mut pool = PagePool::new(0, 8);
    let mut taken = Vec::new();
    for _ in 0..8 {
        taken.push(pool.p_alloc().unwrap());
    }
    assert_eq!(pool.avl_pages, 0);
    let bits_before: Vec<u8> = pool.bitmap.buf.clone();
    assert_eq!(pool.p_alloc(), Err(SE::MemoryOverflow));
    assert_eq!(pool.avl_pages, 0);
    assert_eq!(pool.bitmap.buf, bits_before);
}

#[test]
fn v_alloc_needs_contiguous_run() {
    let mut v = VPool::new(0x10000, 16);
    // fragment the space: slots 0..4 and 8..12 taken
    v.bitmap.fill_n(0, 4, true);
    v.bitmap.fill_n(8, 4, true);
    // a run of four exists at 4 and at 12; a run of five does not
    let off = v.v_alloc(4).unwrap();
    assert_eq!(off, 0x10000 + 4 * PAGE_SIZE);
    assert_eq!(v.v_alloc(5), Err(SE::MemoryOverflow));
}

fn small_setup() -> (VPool, PagePool, PageDirectory, Heap) {
    let layout = mem::init(64 * 1024 * 1024);
    let dir = PageDirectory::new(PDE_START);
    let heap = Heap::new();
    (layout.v, layout.kernel, dir, heap)
}

// End-to-end scenario: a small request takes a 16-byte-class block, a large
// one whole pages; freeing both restores the pool's available count.
#[test]
fn malloc_small_and_large_free_restores_pool() {
    let (mut v, mut phys, mut dir, mut heap) = small_setup();
    let before = phys.avl_pages;

    let a = malloc(&mut heap, &mut v, &mut phys, &mut dir, 10).unwrap();
    let page_a = a / PAGE_SIZE * PAGE_SIZE;
    let slot_a = heap
        .arenas
        .iter()
        .position(|s| s.live && s.off == page_a)
        .unwrap();
    assert!(!heap.arenas[slot_a].large);
    assert_eq!(heap.descs[heap.arenas[slot_a].desc].blk_sz, 16);

    let b = malloc(&mut heap, &mut v, &mut phys, &mut dir, 2000).unwrap();
    let page_b = b - ARENA_HDR;
    let slot_b = heap
        .arenas
        .iter()
        .position(|s| s.live && s.off == page_b)
        .unwrap();
    assert!(heap.arenas[slot_b].large);
    // 2000 bytes plus the header round up to one page
    assert_eq!(heap.arenas[slot_b].count, 1);

    free(&mut heap, &mut v, &mut phys, &mut dir, b);
    assert!(!heap.arenas[slot_b].live);

    // draining the whole 16-byte class hands its page back as well
    free(&mut heap, &mut v, &mut phys, &mut dir, a);
    let blocks = heap.descs[0].blocks;
    let mut taken = Vec::new();
    for _ in 0..blocks {
        taken.push(malloc(&mut heap, &mut v, &mut phys, &mut dir, 16).unwrap());
    }
    for p in taken.iter() {
        free(&mut heap, &mut v, &mut phys, &mut dir, *p);
    }
    // every arena page went back; only the page tables built along the way
    // stay allocated
    let tables = 1;
    assert_eq!(phys.avl_pages, before - tables);
}

// Draining one arena removes only its own entries from the class free
// list; another live arena of the same class keeps its free blocks.
#[test]
fn drain_keeps_other_arenas_entries() {
    let (mut v, mut phys, mut dir, mut heap) = small_setup();
    let blocks = 255;

    // fill a first arena completely so a second one gets carved
    let mut first = Vec::new();
    for _ in 0..blocks {
        first.push(malloc(&mut heap, &mut v, &mut phys, &mut dir, 16).unwrap());
    }
    let b = malloc(&mut heap, &mut v, &mut phys, &mut dir, 16).unwrap();
    let page_b = b / PAGE_SIZE * PAGE_SIZE;
    let second = heap
        .arenas
        .iter()
        .position(|s| s.live && s.off == page_b)
        .unwrap();
    let entries_of_second = heap.descs[0]
        .frees
        .iter()
        .filter(|pr| pr.0 == second)
        .count();
    assert_eq!(entries_of_second, blocks - 1);

    // drain the first arena: the second one's entries must survive
    for p in first.iter() {
        free(&mut heap, &mut v, &mut phys, &mut dir, *p);
    }
    let first_slot = heap
        .arenas
        .iter()
        .position(|s| !s.live && !s.large)
        .unwrap();
    assert!(heap.descs[0].frees.iter().all(|pr| pr.0 != first_slot));
    let survivors = heap.descs[0]
        .frees
        .iter()
        .filter(|pr| pr.0 == second)
        .count();
    assert_eq!(survivors, blocks - 1);
    assert!(heap.arenas[second].live);
}

#[test]
fn malloc_picks_smallest_class() {
    let (mut v, mut phys, mut dir, mut heap) = small_setup();
    let sizes = [1usize, 16, 17, 32, 100, 128, 129, 512, 1024];
    let classes = [16usize, 16, 32, 32, 128, 128, 256, 512, 1024];
    for (sz, cl) in sizes.iter().zip(classes.iter()) {
        let a = malloc(&mut heap, &mut v, &mut phys, &mut dir, *sz).unwrap();
        let page = a / PAGE_SIZE * PAGE_SIZE;
        let s = heap
            .arenas
            .iter()
            .position(|s| s.live && s.off == page)
            .unwrap();
        assert_eq!(heap.descs[heap.arenas[s].desc].blk_sz, *cl);
    }
    assert!(1024 == MAX_BLK_SIZE && DESC_CNT == 7);
}

#[test]
fn large_malloc_rounds_to_whole_pages() {
    let (mut v, mut phys, mut dir, mut heap) = small_setup();
    // 3 pages: 2 * 4096 + header needs a third page
    let a = malloc(&mut heap, &mut v, &mut phys, &mut dir, 2 * 4096).unwrap();
    let page = a - ARENA_HDR;
    let s = heap
        .arenas
        .iter()
        .position(|s| s.live && s.off == page)
        .unwrap();
    assert!(heap.arenas[s].large);
    assert_eq!(heap.arenas[s].count, 3);
}

#[test]
fn pg_alloc_fails_not_enough_memory() {
    let mut v = VPool::new(0x10000, 64);
    let mut phys = PagePool::new(0, 8);
    let mut dir = PageDirectory::new(PDE_START);
    assert_eq!(pg_alloc(&mut v, &mut phys, &mut dir, 9), Err(SE::NotEnoughMemory));
    assert_eq!(phys.avl_pages, 8);
}

#[test]
fn alloc_one_maps_fixed_address_and_v_free_returns_it() {
    let (mut v, mut phys, mut dir, _heap) = small_setup();
    let before = phys.avl_pages;
    let v_ad = v.v_start + 5 * PAGE_SIZE;
    let a = alloc_one(&mut v, &mut phys, &mut dir, v_ad).unwrap();
    assert_eq!(a, v_ad);
    assert!(v.bitmap.test(5));
    // one frame for the page, one for its fresh page table
    assert_eq!(phys.avl_pages, before - 2);

    v_free(&mut v, &mut phys, &mut dir, v_ad, 1);
    assert!(!v.bitmap.test(5));
    assert_eq!(phys.avl_pages, before - 1);
}

#[test]
fn fill_zero_clears_exact_range() {
    let mut buf = vec![7u8; 16];
    mem::fill_zero(&mut buf, 4, 8);
    for i in 0..16 {
        if 4 <= i && i < 12 {
            assert_eq!(buf[i], 0);
        } else {
            assert_eq!(buf[i], 7);
        }
    }
}
