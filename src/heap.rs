//! The kernel heap's dependency on the frame allocator: where its backing
//! memory comes from, and its usage figures.
use vstd::prelude::*;
use crate::frame_allocator::{FrameAllocator, FRAME_SIZE};

verus! {

/// Size of the heap in bytes.
pub const HEAP_SIZE: usize = 64 * 1024;
/// Frames backing the heap: its size rounded up to whole frames.
pub const HEAP_FRAMES: usize = (HEAP_SIZE + FRAME_SIZE - 1) / FRAME_SIZE;

#[verifier::external_type_specification]
#[verifier::external_body]
pub struct ExHeap(linked_list_allocator::Heap);

/// Relies on `Heap::free` of linked_list_allocator: the bytes of the heap not
/// in use.
pub assume_specification[ linked_list_allocator::Heap::free ](
    heap: &linked_list_allocator::Heap,
) -> usize;

/// Why the heap could not be given memory.
#[derive(Clone, Copy, Debug, PartialEq, Eq, Structural)]
pub enum HeapInitError {
    /// No region has enough contiguous free frames.
    OutOfFrames,
    /// The frames' address in the direct map does not fit in a `usize`.
    AddressOverflow,
}

/// Allocates the heap's frames, contiguous in one region, and returns the
/// heap's start address in the higher-half direct map (`hhdm_offset` plus the
/// first frame's physical address).
pub fn reserve_heap(frames: &mut FrameAllocator, hhdm_offset: u64) -> (r: Result<usize, HeapInitError>)
    requires
        old(frames).wf(),
    ensures
        exists|p: Option<usize>|
            FrameAllocator::contiguous_step(*old(frames), *final(frames), HEAP_FRAMES, p) && match p {
                None => r == Err::<usize, HeapInitError>(HeapInitError::OutOfFrames),
                Some(phys) => if hhdm_offset + phys <= usize::MAX {
                    r == Ok::<usize, HeapInitError>((hhdm_offset + phys) as usize)
                } else {
                    r == Err::<usize, HeapInitError>(HeapInitError::AddressOverflow)
                },
            },
{
    let heap_phys = match frames.allocate_contiguous_frames(HEAP_FRAMES) {
        Some(phys) => phys,
        None => {
            return Err(HeapInitError::OutOfFrames);
        },
    };
    if hhdm_offset as u128 + heap_phys as u128 > usize::MAX as u128 {
        return Err(HeapInitError::AddressOverflow);
    }
    Ok(hhdm_offset as usize + heap_phys)
}

/// Heap usage from its free byte count: `(total, used, free)` with total the
/// heap size; `None` when `free` exceeds the heap size.
pub fn usage_from_free(free: usize) -> (r: Option<(usize, usize, usize)>)
    ensures
        free <= HEAP_SIZE ==> r == Some((HEAP_SIZE, (HEAP_SIZE - free) as usize, free)),
        free > HEAP_SIZE ==> r is None,
{
    if free > HEAP_SIZE {
        return None;
    }
    Some((HEAP_SIZE, HEAP_SIZE - free, free))
}

/// Usage of `heap` as `(total, used, free)` in bytes: used and free add up
/// to the heap size.
pub fn stats(heap: &linked_list_allocator::Heap) -> (r: Option<(usize, usize, usize)>)
    ensures
        r matches Some(t) ==> t.0 == HEAP_SIZE && t.1 + t.2 == HEAP_SIZE,
{
    let free = heap.free();
    usage_from_free(free)
}

/// Allocates a boxed value on the heap and reads it back.
pub fn verify_heap() -> (r: u64)
    ensures
        r == 0xDEAD_BEEF,
{
    let test_val = Box::new(0xDEAD_BEEFu64);
    *test_val
}

} // verus!
