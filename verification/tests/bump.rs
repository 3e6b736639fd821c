use korrodium::bump::{BumpAllocator, Placement, PAGE_SIZE};

#[test]
fn first_allocation_starts_at_heap_base_and_grows() {
    let mut a = BumpAllocator::new();
    assert_eq!(a, BumpAllocator { next: 0, end: 0 });
    let p = a.place(1024, 10, 8);
    assert_eq!(a, BumpAllocator { next: 1024, end: 1024 });
    assert_eq!(p, Placement { addr: 1024, new_next: 1034, grow_pages: 1 });
    assert_eq!(a.commit(p, true), Some(1024));
    assert_eq!(a, BumpAllocator { next: 1034, end: 1024 + PAGE_SIZE });
}

#[test]
fn later_allocations_are_aligned_and_disjoint() {
    let mut a = BumpAllocator { next: 1034, end: 1024 + PAGE_SIZE };
    let p = a.place(1024, 4, 16);
    assert_eq!(p, Placement { addr: 1040, new_next: 1044, grow_pages: 0 });
    assert_eq!(a.commit(p, false), Some(1040));
    let q = a.place(1024, 1, 1);
    assert_eq!(q.addr, 1044);
    assert_eq!(a.commit(q, false), Some(1044));
    assert_eq!(a.next, 1045);
}

#[test]
fn growth_rounds_up_to_whole_pages() {
    let mut a = BumpAllocator { next: 100, end: 100 };
    let p = a.place(1, 2 * PAGE_SIZE + 1, 4);
    assert_eq!(p.grow_pages, 3);
    let p = a.place(1, 2 * PAGE_SIZE - 4, 4);
    assert_eq!(p.grow_pages, 2);
    let p = a.place(1, 0, 4);
    assert_eq!(p, Placement { addr: 100, new_next: 100, grow_pages: 0 });
}

#[test]
fn refused_growth_hands_out_nothing() {
    let mut a = BumpAllocator { next: 64, end: 64 };
    let p = a.place(8, 100, 8);
    assert_eq!(p.grow_pages, 1);
    assert_eq!(a.commit(p, false), None);
    assert_eq!(a, BumpAllocator { next: 64, end: 64 });
}
