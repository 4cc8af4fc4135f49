use rm_os::allocator::align_up;
use rm_os::allocator::bump::BumpAllocator;
use rm_os::allocator::fixed_size_block::{block_size, list_index, FixedSizeBlockAllocator, BLOCK_SIZE_COUNT};
use std::mem::MaybeUninit;

#[test]
fn align_up_rounds_to_multiple() {
    assert_eq!(align_up(0, 8), 0);
    assert_eq!(align_up(1, 8), 8);
    assert_eq!(align_up(8, 8), 8);
    assert_eq!(align_up(9, 8), 16);
    assert_eq!(align_up(0x1001, 0x1000), 0x2000);
    assert_eq!(align_up(5, 1), 5);
}

#[test]
fn bump_new_is_empty() {
    let mut bump = BumpAllocator::new();
    assert_eq!(bump.allocate(0, 1), Some(0));
    assert_eq!(bump.allocate(1, 1), None);
}

#[test]
fn bump_allocates_in_order_and_aligned() {
    let mut bump = BumpAllocator::new();
    bump.init(0x1000, 0x100);
    assert_eq!(bump.allocate(3, 1), Some(0x1000));
    assert_eq!(bump.allocate(8, 8), Some(0x1008));
    assert_eq!(bump.allocate(16, 16), Some(0x1010));
    assert_eq!(bump.allocate(0xd0, 1), Some(0x1020));
    assert_eq!(bump.allocate(0x11, 1), None);
    assert_eq!(bump.allocate(0x10, 1), Some(0x10f0));
    assert_eq!(bump.allocate(1, 1), None);
}

#[test]
fn bump_reuses_only_after_all_freed() {
    let mut bump = BumpAllocator::new();
    bump.init(0x2000, 0x40);
    assert_eq!(bump.allocate(0x10, 8), Some(0x2000));
    assert_eq!(bump.allocate(0x10, 8), Some(0x2010));
    bump.deallocate();
    assert_eq!(bump.allocate(0x10, 8), Some(0x2020));
    bump.deallocate();
    bump.deallocate();
    assert_eq!(bump.allocate(0x40, 8), Some(0x2000));
}

#[test]
fn bump_out_of_memory_keeps_state() {
    let mut bump = BumpAllocator::new();
    bump.init(0x3000, 0x20);
    assert_eq!(bump.allocate(0x21, 1), None);
    assert_eq!(bump.allocate(usize::MAX / 2, 1), None);
    assert_eq!(bump.allocate(0x20, 1), Some(0x3000));
}

#[test]
fn block_sizes_are_powers_of_two() {
    let mut expected = 8;
    for i in 0..BLOCK_SIZE_COUNT {
        assert_eq!(block_size(i), expected);
        expected *= 2;
    }
}

#[test]
fn list_index_picks_smallest_block() {
    assert_eq!(list_index(0, 1), Some(0));
    assert_eq!(list_index(8, 8), Some(0));
    assert_eq!(list_index(9, 1), Some(1));
    assert_eq!(list_index(4, 64), Some(3));
    assert_eq!(list_index(100, 4), Some(4));
    assert_eq!(list_index(2048, 8), Some(8));
    assert_eq!(list_index(2049, 8), None);
    assert_eq!(list_index(8, 4096), None);
}

#[test]
fn fixed_size_empty_heap_gives_nothing() {
    let mut alloc = FixedSizeBlockAllocator::new();
    assert_eq!(alloc.allocate(8, 8), None);
    assert_eq!(alloc.allocate(5000, 8), None);
}

#[test]
fn fixed_size_reuses_last_freed_block() {
    let mut alloc = FixedSizeBlockAllocator::new();
    assert!(alloc.deallocate(0x1000, 16, 8));
    assert!(alloc.deallocate(0x2000, 10, 1));
    assert_eq!(alloc.allocate(12, 4), Some(0x2000));
    assert_eq!(alloc.allocate(16, 16), Some(0x1000));
    assert_eq!(alloc.allocate(16, 16), None);
}

#[test]
fn fixed_size_large_blocks_bypass_lists() {
    let mut alloc = FixedSizeBlockAllocator::new();
    assert!(!alloc.deallocate(0x8000, 4096, 8));
    assert_eq!(alloc.allocate(4096, 8), None);
}

#[test]
fn fixed_size_falls_back_to_heap() {
    let mut alloc = FixedSizeBlockAllocator::new();
    let memory: &'static mut [MaybeUninit<u8>] =
        Box::leak(vec![MaybeUninit::<u8>::uninit(); 0x4000].into_boxed_slice());
    let start = memory.as_ptr() as usize;
    alloc.fallback_allocator.init_from_slice(memory);
    let small = alloc.allocate(24, 8).unwrap();
    assert_ne!(small, 0);
    assert_eq!(small % 32, 0);
    assert!(start <= small && small + 32 <= start + 0x4000);
    let large = alloc.allocate(3000, 64).unwrap();
    assert_eq!(large % 64, 0);
    assert!(start <= large && large + 3000 <= start + 0x4000);
    assert!(large + 3000 <= small || small + 32 <= large);
}

#[test]
fn fixed_size_rejects_unservable_layouts() {
    let mut alloc = FixedSizeBlockAllocator::new();
    let huge_align = 1usize << (usize::BITS - 1);
    assert!(!alloc.fallback_accepts(0, huge_align));
    assert_eq!(alloc.try_allocate(0, huge_align), None);
    assert!(alloc.fallback_accepts(8, 8));
    assert!(alloc.fallback_accepts(5000, 4096));
    assert_eq!(alloc.try_allocate(8, 8), Some(None));
    assert_eq!(alloc.try_allocate(5000, 4096), Some(None));
}

#[test]
fn fixed_size_try_allocate_uses_free_list() {
    let mut alloc = FixedSizeBlockAllocator::new();
    assert!(alloc.deallocate(0x4000, 64, 64));
    assert_eq!(alloc.try_allocate(40, 8), Some(Some(0x4000)));
}

#[test]
fn align_up_at_top_of_address_space() {
    assert_eq!(align_up(usize::MAX - 15, 16), usize::MAX - 15);
    assert_eq!(align_up(usize::MAX - 30, 16), usize::MAX - 15);
}

#[test]
fn bump_allocates_at_top_of_address_space() {
    let mut bump = BumpAllocator::new();
    bump.init(usize::MAX - 15, 15);
    assert_eq!(bump.allocate(0, 16), Some(usize::MAX - 15));
    assert_eq!(bump.allocate(16, 1), None);
}
