use alloc_wg::abort::AbortAlloc;
use alloc_wg::capability::{AllocRef, BuildAllocRef, DeallocRef, ReallocRef};
use alloc_wg::layout::{NonZeroLayout, MAX_LAYOUT_SIZE};
use alloc_wg::region::{Region, RegionFull, RegionRecipe};

fn layout(size: usize, align: usize) -> NonZeroLayout {
    NonZeroLayout::from_size_align(size, align).unwrap()
}

#[test]
fn layout_accepts_valid_requests() {
    let l = layout(24, 8);
    assert_eq!(l.size(), 24);
    assert_eq!(l.align(), 8);
    assert!(NonZeroLayout::from_size_align(1, 1).is_some());
    assert!(NonZeroLayout::from_size_align(MAX_LAYOUT_SIZE, 1).is_some());
}

#[test]
fn layout_rejects_zero_size() {
    assert!(NonZeroLayout::from_size_align(0, 8).is_none());
}

#[test]
fn layout_rejects_alignment_not_power_of_two() {
    assert!(NonZeroLayout::from_size_align(8, 0).is_none());
    assert!(NonZeroLayout::from_size_align(8, 3).is_none());
    assert!(NonZeroLayout::from_size_align(8, 12).is_none());
}

#[test]
fn layout_rejects_size_that_overflows_when_rounded() {
    assert!(NonZeroLayout::from_size_align(MAX_LAYOUT_SIZE, 2).is_none());
    assert!(NonZeroLayout::from_size_align(MAX_LAYOUT_SIZE - 1, 2).is_some());
}

#[test]
fn region_hands_out_aligned_blocks_in_order() {
    let mut r = Region::new(64);
    assert_eq!(r.capacity(), 64);
    assert_eq!(r.allocate(layout(3, 1)), Ok(1));
    assert_eq!(r.allocate(layout(4, 4)), Ok(4));
    assert_eq!(r.allocate(layout(8, 16)), Ok(16));
}

#[test]
fn region_reports_full() {
    let mut r = Region::new(8);
    assert_eq!(r.allocate(layout(8, 1)), Ok(1));
    assert_eq!(r.allocate(layout(1, 1)), Err(RegionFull));
    let mut empty = Region::new(0);
    assert_eq!(empty.alloc_zeroed(layout(1, 1)), Err(RegionFull));
}

#[test]
fn region_write_then_read() {
    let mut r = Region::new(16);
    let p = r.allocate(layout(4, 1)).unwrap();
    let q = r.allocate(layout(4, 1)).unwrap();
    r.write(p, 3, 0xAB);
    r.write(q, 0, 0xCD);
    assert_eq!(r.read(p, 3), 0xAB);
    assert_eq!(r.read(q, 0), 0xCD);
}

#[test]
fn region_dealloc_of_last_block_gives_space_back() {
    let mut r = Region::new(8);
    let p = r.allocate(layout(8, 1)).unwrap();
    r.dealloc(p, layout(8, 1));
    assert_eq!(r.allocate(layout(8, 1)), Ok(1));
}

#[test]
fn abort_allocate_matches_inner() {
    let mut direct = Region::new(64);
    let mut wrapped = AbortAlloc(Region::new(64));
    for (size, align) in [(3, 1), (4, 4), (10, 8), (1, 32)] {
        let l = layout(size, align);
        let a = direct.allocate(l).unwrap();
        let b = wrapped.allocate(l).unwrap();
        assert_eq!(a, b);
    }
    let l = layout(5, 2);
    let a = direct.alloc_zeroed(l).unwrap();
    let b = wrapped.alloc_zeroed(l).unwrap();
    assert_eq!(a, b);
    direct.write(a, 2, 9);
    wrapped.0.write(b, 2, 9);
    let l2 = layout(9, 2);
    let a2 = direct.realloc(a, l, l2).unwrap();
    let b2 = wrapped.realloc(b, l, l2).unwrap();
    assert_eq!(a2, b2);
    for i in 0..9 {
        assert_eq!(direct.read(a2, i), wrapped.0.read(b2, i));
    }
}

#[test]
fn abort_alloc_zeroed_on_fresh_memory() {
    let mut a = AbortAlloc(Region::new(32));
    let l = layout(16, 8);
    let p = a.alloc_zeroed(l).unwrap();
    assert_eq!(p, 8);
    for i in 0..16 {
        assert_eq!(a.0.read(p, i), 0);
    }
}

#[test]
fn abort_alloc_zeroed_clears_reused_memory() {
    let mut a = AbortAlloc(Region::new(16));
    let l = layout(8, 1);
    let p = a.allocate(l).unwrap();
    for i in 0..8 {
        a.0.write(p, i, 0xFF);
    }
    a.dealloc(p, l);
    let q = a.alloc_zeroed(l).unwrap();
    assert_eq!(q, p);
    for i in 0..8 {
        assert_eq!(a.0.read(q, i), 0);
    }
}

#[test]
fn abort_realloc_grow_keeps_bytes() {
    let mut a = AbortAlloc(Region::new(64));
    let old = layout(4, 1);
    let p = a.allocate(old).unwrap();
    for i in 0..4 {
        a.0.write(p, i, 10 + i as u8);
    }
    let q = a.realloc(p, old, layout(12, 4)).unwrap();
    assert_eq!(q, 8);
    for i in 0..4 {
        assert_eq!(a.0.read(q, i), 10 + i as u8);
    }
}

#[test]
fn abort_realloc_shrink_keeps_prefix() {
    let mut a = AbortAlloc(Region::new(64));
    let old = layout(8, 1);
    let p = a.alloc_zeroed(old).unwrap();
    for i in 0..8 {
        a.0.write(p, i, 1 + i as u8);
    }
    let q = a.realloc(p, old, layout(3, 1)).unwrap();
    assert_eq!(q, 9);
    for i in 0..3 {
        assert_eq!(a.0.read(q, i), 1 + i as u8);
    }
}

#[test]
fn region_realloc_failure_leaves_block() {
    let mut r = Region::new(8);
    let l = layout(4, 1);
    let p = r.allocate(l).unwrap();
    r.write(p, 0, 42);
    assert_eq!(r.realloc(p, l, layout(8, 1)), Err(RegionFull));
    assert_eq!(r.read(p, 0), 42);
    assert_eq!(r.allocate(layout(4, 1)), Ok(5));
}

#[test]
fn recipe_rejects_impossible_capacity() {
    assert!(RegionRecipe::new(MAX_LAYOUT_SIZE + 1).is_none());
    assert_eq!(RegionRecipe::new(12).unwrap().capacity(), 12);
}

#[test]
fn region_builder_round_trip() {
    let mut recipe = RegionRecipe::new(32).unwrap();
    let start = recipe;
    let mut handle = recipe.build_alloc_ref(1, None);
    assert_eq!(handle.capacity(), 32);
    let fresh = handle.get_build_alloc();
    assert_eq!(fresh, start);
    assert_eq!(recipe, start);
}

#[test]
fn abort_builder_round_trip() {
    let mut recipe = AbortAlloc(RegionRecipe::new(48).unwrap());
    let start = recipe;
    let mut handle = recipe.build_alloc_ref(16, Some(layout(48, 16)));
    assert_eq!(handle.0.capacity(), 48);
    assert_eq!(handle.allocate(layout(48, 1)), Ok(1));
    let fresh = handle.get_build_alloc();
    assert_eq!(fresh.0, start.0);
    let mut again = AbortAlloc(fresh.0).build_alloc_ref(16, None);
    assert_eq!(again.allocate(layout(48, 1)), Ok(1));
}
