use wflos_boot::frame_allocator::{self, FrameAllocator, FRAME_SIZE};
use wflos_boot::limine::{LimineMemoryMapEntry, LIMINE_MEMMAP_RESERVED, LIMINE_MEMMAP_USABLE};

fn usable(base: u64, length: u64) -> LimineMemoryMapEntry {
    LimineMemoryMapEntry { base, length, entry_type: LIMINE_MEMMAP_USABLE }
}

fn allocator_for(entries: &[LimineMemoryMapEntry]) -> FrameAllocator {
    let refs: Vec<&LimineMemoryMapEntry> = entries.iter().collect();
    let mut allocator = FrameAllocator::new();
    allocator.init(&refs, 0xffff_8000_0000_0000);
    allocator
}

#[test]
fn two_region_map_reports_total_and_spills_into_second_region() {
    let map = [usable(0x100000, 0x400000), usable(0x800000, 0x100000)];
    let mut allocator = allocator_for(&map);
    assert_eq!(allocator.total_frames(), 1280);
    for i in 0..1024usize {
        assert_eq!(allocator.allocate_frame(), Some(0x100000 + i * FRAME_SIZE));
    }
    assert_eq!(allocator.allocate_frame(), Some(0x800000));
    assert_eq!(allocator.used_frames(), 1025);
    assert_eq!(allocator.free_frames(), 255);
}

#[test]
fn only_usable_entries_become_regions() {
    let map = [
        LimineMemoryMapEntry { base: 0, length: 0x10000, entry_type: LIMINE_MEMMAP_RESERVED },
        usable(0x200000, 0x2800),
    ];
    let mut allocator = allocator_for(&map);
    // 0x2800 bytes hold two whole frames.
    assert_eq!(allocator.total_frames(), 2);
    assert_eq!(allocator.allocate_frame(), Some(0x200000));
    assert_eq!(allocator.allocate_frame(), Some(0x201000));
    assert_eq!(allocator.allocate_frame(), None);
}

#[test]
fn used_plus_free_is_total_after_every_call() {
    let map = [usable(0x10000, 8 * 4096), usable(0x40000, 4 * 4096)];
    let mut allocator = allocator_for(&map);
    let mut held = Vec::new();
    for step in 0..40usize {
        if step % 3 == 2 {
            if let Some(a) = held.pop() {
                allocator.deallocate_frame(a);
            }
        } else if let Some(a) = allocator.allocate_frame() {
            held.push(a);
        }
        assert_eq!(allocator.used_frames() + allocator.free_frames(), allocator.total_frames());
        assert_eq!(allocator.used_frames(), held.len());
    }
}

#[test]
fn allocation_until_exhaustion_gives_distinct_aligned_frames() {
    let map = [usable(0x100000, 37 * 4096), usable(0x300000, 5 * 4096), usable(0x500000, 0x800)];
    let mut allocator = allocator_for(&map);
    let mut seen = Vec::new();
    while let Some(a) = allocator.allocate_frame() {
        assert_eq!(a % FRAME_SIZE, 0);
        assert!(!seen.contains(&a));
        seen.push(a);
    }
    assert_eq!(seen.len(), 42);
    assert_eq!(allocator.free_frames(), 0);
}

#[test]
fn contiguous_run_stays_inside_one_region() {
    let map = [usable(0x100000, 10 * 4096), usable(0x10a000, 3 * 4096)];
    let mut allocator = allocator_for(&map);
    assert_eq!(allocator.allocate_contiguous_frames(5), Some(0x100000));
    assert_eq!(allocator.allocate_contiguous_frames(5), Some(0x105000));
    // Both regions now have fewer than five free frames in a row, although
    // the second region starts right where the first ends.
    assert_eq!(allocator.allocate_contiguous_frames(5), None);
    assert_eq!(allocator.allocate_contiguous_frames(3), Some(0x10a000));
    assert_eq!(allocator.used_frames(), 13);
}

#[test]
fn contiguous_fails_when_every_region_is_short() {
    let map = [usable(0x100000, 4 * 4096), usable(0x200000, 3 * 4096)];
    let mut allocator = allocator_for(&map);
    assert_eq!(allocator.allocate_contiguous_frames(5), None);
    assert_eq!(allocator.used_frames(), 0);
    assert_eq!(allocator.allocate_contiguous_frames(0), None);
}

#[test]
fn contiguous_skips_allocated_frames_within_a_region() {
    let map = [usable(0x100000, 10 * 4096)];
    let mut allocator = allocator_for(&map);
    assert_eq!(allocator.allocate_frame(), Some(0x100000));
    assert_eq!(allocator.allocate_frame(), Some(0x101000));
    assert_eq!(allocator.allocate_frame(), Some(0x102000));
    allocator.deallocate_frame(0x101000);
    // Frame 1 is free again but alone; the first run of three starts at frame 3.
    assert_eq!(allocator.allocate_contiguous_frames(3), Some(0x103000));
    assert_eq!(allocator.allocate_frame(), Some(0x101000));
    assert_eq!(allocator.used_frames(), 6);
}

#[test]
fn freed_frame_is_reallocated_first() {
    let map = [usable(0x100000, 4 * 4096)];
    let mut allocator = allocator_for(&map);
    let a = allocator.allocate_frame().unwrap();
    let b = allocator.allocate_frame().unwrap();
    allocator.deallocate_frame(a);
    assert_eq!(allocator.allocate_frame(), Some(a));
    assert_ne!(a, b);
    assert_eq!(allocator.used_frames(), 2);
}

#[test]
fn invalid_or_double_free_changes_nothing() {
    let map = [usable(0x100000, 4 * 4096)];
    let mut allocator = allocator_for(&map);
    let a = allocator.allocate_frame().unwrap();
    allocator.deallocate_frame(0x900000);
    assert_eq!(allocator.used_frames(), 1);
    allocator.deallocate_frame(a);
    allocator.deallocate_frame(a);
    assert_eq!(allocator.used_frames(), 0);
    assert_eq!(allocator.free_frames(), 4);
    // An address inside a frame frees that frame.
    let b = allocator.allocate_frame().unwrap();
    allocator.deallocate_frame(b + 0x123);
    assert_eq!(allocator.used_frames(), 0);
}

#[test]
fn empty_allocator_has_nothing() {
    let mut allocator = FrameAllocator::new();
    assert_eq!(allocator.total_frames(), 0);
    assert_eq!(allocator.allocate_frame(), None);
    assert_eq!(allocator.allocate_contiguous_frames(1), None);
    allocator.deallocate_frame(0);
    assert_eq!(allocator.free_frames(), 0);
}

#[test]
fn shared_allocator_under_lock() {
    let map = [usable(0x100000, 0x400000), usable(0x800000, 0x100000)];
    let refs: Vec<&LimineMemoryMapEntry> = map.iter().collect();
    let shared = frame_allocator::new_shared();
    frame_allocator::init(&shared, &refs, 0);
    assert_eq!(frame_allocator::stats(&shared), (1280, 0, 1280));
    assert_eq!(frame_allocator::allocate_frame(&shared), Some(0x100000));
    assert_eq!(frame_allocator::allocate_contiguous_frames(&shared, 16), Some(0x101000));
    assert_eq!(frame_allocator::stats(&shared), (1280, 17, 1263));
    frame_allocator::deallocate_frame(&shared, 0x100000);
    assert_eq!(frame_allocator::stats(&shared), (1280, 16, 1264));
}
