use quark::mem::heap_model::Layout;
use quark::mem::list_allocator::ListAllocator;
use quark::mem::span_list::SpanList;

const START: u64 = 0x10_0000;
const END: u64 = 0x20_0000;
const CONTROL: u64 = 0x1000;

fn fresh() -> ListAllocator {
    let mut a = ListAllocator::New(START, END);
    assert!(a.Add(START + CONTROL, END - START - CONTROL));
    a
}

#[test]
fn exact_fit_succeeds_once_then_heap_is_exhausted() {
    let mut a = fresh();
    let whole = Layout { size: END - START - CONTROL, align: 1 };
    assert_eq!(a.Alloc(whole), Some(START + CONTROL));
    assert_eq!(a.Alloc(Layout { size: 1, align: 1 }), None);
    assert_eq!(a.Alloc(whole), None);
}

#[test]
fn alloc_dealloc_alloc_reuses_the_block() {
    let mut a = fresh();
    let l = Layout { size: 4096, align: 64 };
    let p = a.Alloc(l).unwrap();
    assert!(a.IsLive(p, l.size));
    a.Dealloc(p, l);
    assert!(!a.IsLive(p, l.size));
    assert_eq!(a.Alloc(l), Some(p));
}

#[test]
fn nothing_leaks_over_many_cycles() {
    let mut a = fresh();
    let whole = Layout { size: END - START - CONTROL, align: 1 };
    for round in 0..20u64 {
        let lay1 = Layout { size: 100 + round, align: 8 };
        let lay2 = Layout { size: 5000, align: 4096 };
        let lay3 = Layout { size: 1, align: 1 };
        let blk1 = a.Alloc(lay1).unwrap();
        let blk2 = a.Alloc(lay2).unwrap();
        let blk3 = a.Alloc(lay3).unwrap();
        // returned in another order than they were handed out
        a.Dealloc(blk2, lay2);
        a.Dealloc(blk1, lay1);
        a.Dealloc(blk3, lay3);
    }
    // the free spans were joined again into the one span
    assert_eq!(a.Alloc(whole), Some(START + CONTROL));
}

#[test]
fn blocks_are_aligned_in_range_and_apart() {
    let mut a = fresh();
    let layouts = [
        Layout { size: 3, align: 1 },
        Layout { size: 100, align: 64 },
        Layout { size: 7, align: 4096 },
        Layout { size: 4096, align: 8 },
        Layout { size: 1, align: 3 },
        Layout { size: 33, align: 32 },
    ];
    let mut live: Vec<(u64, u64)> = Vec::new();
    for l in layouts {
        let p = a.Alloc(l).unwrap();
        assert_eq!(p % l.align, 0);
        assert!(p >= START + CONTROL);
        assert!(p + l.size <= END);
        for (q, n) in &live {
            assert!(p + l.size <= *q || q + n <= p);
        }
        live.push((p, l.size));
    }
}

#[test]
fn block_goes_to_the_lowest_fitting_address() {
    let mut a = fresh();
    let base = START + CONTROL;
    assert_eq!(a.Alloc(Layout { size: 10, align: 1 }), Some(base));
    // the next multiple of 64 behind the first block
    assert_eq!(a.Alloc(Layout { size: 10, align: 64 }), Some(base + 64));
    // the gap between the two blocks is still free, and lower
    assert_eq!(a.Alloc(Layout { size: 54, align: 1 }), Some(base + 10));
    assert_eq!(a.Alloc(Layout { size: 1, align: 1 }), Some(base + 74));
}

#[test]
fn empty_and_unaligned_layouts_are_not_served() {
    let mut a = fresh();
    assert_eq!(a.Alloc(Layout { size: 0, align: 8 }), None);
    assert_eq!(a.Alloc(Layout { size: 8, align: 0 }), None);
    assert_eq!(a.Alloc(Layout { size: END - START, align: 1 }), None);
}

#[test]
fn add_refuses_spans_that_cannot_be_donated() {
    let mut a = ListAllocator::New(START, END);
    assert!(!a.Add(START, 0));
    assert!(!a.Add(START - 1, 16));
    assert!(!a.Add(END - 8, 16));
    assert!(!a.Add(u64::MAX - 4, 16));
    assert!(a.Add(START, 0x1000));
    // overlaps what is free
    assert!(!a.Add(START + 0xfff, 2));
    let p = a.Alloc(Layout { size: 0x1000, align: 1 }).unwrap();
    assert_eq!(p, START);
    // overlaps a live block
    assert!(!a.Add(START + 8, 8));
    assert!(a.Add(START + 0x1000, 0x1000));
    assert_eq!(a.Alloc(Layout { size: 0x1001, align: 1 }), None);
    assert_eq!(a.Alloc(Layout { size: 0x1000, align: 1 }), Some(START + 0x1000));
}

#[test]
fn donated_neighbours_are_joined() {
    let mut a = ListAllocator::New(0, 1000);
    assert!(a.Add(300, 100));
    assert!(a.Add(100, 100));
    assert_eq!(a.Alloc(Layout { size: 150, align: 1 }), None);
    // fills the gap between the two spans
    assert!(a.Add(200, 100));
    assert_eq!(a.Alloc(Layout { size: 300, align: 1 }), Some(100));
}

#[test]
fn initialize_sets_the_flag_only() {
    let mut a = fresh();
    assert!(!a.IsInitialized());
    a.initialize();
    assert!(a.IsInitialized());
    a.Check();
    assert_eq!(a.Start(), START);
    assert_eq!(a.End(), END);
    assert_eq!(a.Alloc(Layout { size: 16, align: 16 }), Some(START + CONTROL));
}

#[test]
fn span_list_finds_inserts_and_carves() {
    let mut l = SpanList::New();
    assert_eq!(l.Len(), 0);
    assert_eq!(l.FindFit(1, 1), None);
    l.Insert(100, 50);
    l.Insert(200, 50);
    assert_eq!(l.Len(), 2);
    assert!(l.Overlaps(149, 1));
    assert!(!l.Overlaps(150, 50));
    assert!(!l.Overlaps(120, 0));
    assert_eq!(l.FindFit(50, 1), Some((0, 100)));
    assert_eq!(l.FindFit(51, 1), None);
    assert_eq!(l.FindFit(10, 128), Some((0, 128)));
    assert_eq!(l.FindFit(30, 128), None);
    l.Insert(150, 50);
    assert_eq!(l.Len(), 1);
    assert_eq!(l.Get(0).addr, 100);
    assert_eq!(l.Get(0).size, 150);
    l.Carve(0, 120, 10);
    assert_eq!(l.Len(), 2);
    assert_eq!((l.Get(0).addr, l.Get(0).size), (100, 20));
    assert_eq!((l.Get(1).addr, l.Get(1).size), (130, 120));
    l.Carve(0, 100, 20);
    assert_eq!(l.Len(), 1);
    l.Carve(0, 130, 20);
    assert_eq!((l.Get(0).addr, l.Get(0).size), (150, 100));
    l.Carve(0, 240, 10);
    assert_eq!((l.Get(0).addr, l.Get(0).size), (150, 90));
}

#[test]
fn live_blocks_stay_apart_over_a_long_history() {
    let mut a = fresh();
    let mut live: Vec<(u64, Layout)> = Vec::new();
    let mut seed: u64 = 0x2545_F491_4F6C_DD1D;
    for _ in 0..2000 {
        seed = seed.wrapping_mul(6364136223846793005).wrapping_add(1442695040888963407);
        let pick = (seed >> 33) as usize;
        if pick % 3 != 0 || live.is_empty() {
            let layout = Layout { size: 1 + (seed >> 40) % 5000, align: 1 << ((seed >> 20) % 13) };
            if let Some(p) = a.Alloc(layout) {
                assert_eq!(p % layout.align, 0);
                assert!(p >= START + CONTROL && p + layout.size <= END);
                for (q, other) in &live {
                    assert!(p + layout.size <= *q || q + other.size <= p);
                }
                live.push((p, layout));
            }
        } else {
            let (p, layout) = live.swap_remove(pick % live.len());
            assert!(a.IsLive(p, layout.size));
            a.Dealloc(p, layout);
            assert!(!a.IsLive(p, layout.size));
        }
    }
    for (p, layout) in live.drain(..) {
        a.Dealloc(p, layout);
    }
    assert_eq!(
        a.Alloc(Layout { size: END - START - CONTROL, align: 1 }),
        Some(START + CONTROL)
    );
}
