use std::mem::MaybeUninit;

use linked_list_allocator::Heap;
use wflos_boot::frame_allocator::FrameAllocator;
use wflos_boot::heap::{reserve_heap, stats, usage_from_free, verify_heap, HeapInitError, HEAP_FRAMES, HEAP_SIZE};
use wflos_boot::limine::{LimineMemoryMapEntry, LIMINE_MEMMAP_USABLE};

fn allocator_for(entries: &[LimineMemoryMapEntry]) -> FrameAllocator {
    let refs: Vec<&LimineMemoryMapEntry> = entries.iter().collect();
    let mut allocator = FrameAllocator::new();
    allocator.init(&refs, 0);
    allocator
}

#[test]
fn heap_size_in_frames() {
    assert_eq!(HEAP_SIZE, 65536);
    assert_eq!(HEAP_FRAMES, 16);
}

#[test]
fn heap_is_placed_in_the_direct_map() {
    let map = [
        LimineMemoryMapEntry { base: 0x100000, length: 8 * 4096, entry_type: LIMINE_MEMMAP_USABLE },
        LimineMemoryMapEntry { base: 0x400000, length: 32 * 4096, entry_type: LIMINE_MEMMAP_USABLE },
    ];
    let mut frames = allocator_for(&map);
    assert_eq!(reserve_heap(&mut frames, 0xffff_8000_0000_0000), Ok(0xffff_8000_0040_0000));
    assert_eq!(frames.used_frames(), 16);
    assert_eq!(reserve_heap(&mut frames, 0), Ok(0x410000));
    assert_eq!(reserve_heap(&mut frames, 0), Err(HeapInitError::OutOfFrames));
    assert_eq!(frames.used_frames(), 32);
}

#[test]
fn heap_address_overflow_is_reported() {
    let map = [LimineMemoryMapEntry { base: 0x100000, length: 16 * 4096, entry_type: LIMINE_MEMMAP_USABLE }];
    let mut frames = allocator_for(&map);
    assert_eq!(reserve_heap(&mut frames, u64::MAX), Err(HeapInitError::AddressOverflow));
}

#[test]
fn usage_figures() {
    assert_eq!(usage_from_free(65536), Some((65536, 0, 65536)));
    assert_eq!(usage_from_free(1000), Some((65536, 64536, 1000)));
    assert_eq!(usage_from_free(0), Some((65536, 65536, 0)));
    assert_eq!(usage_from_free(65537), None);
}

#[test]
fn stats_of_a_real_heap() {
    let memory: &'static mut [MaybeUninit<u8>] = Box::leak(vec![MaybeUninit::new(0u8); HEAP_SIZE].into_boxed_slice());
    let heap = Heap::from_slice(memory);
    let (total, used, free) = stats(&heap).unwrap();
    assert_eq!(total, HEAP_SIZE);
    assert_eq!(used + free, HEAP_SIZE);
    assert_eq!(free, heap.free());
    assert!(free > 0);
}

#[test]
fn boxed_value_reads_back() {
    assert_eq!(verify_heap(), 0xDEAD_BEEF);
}
