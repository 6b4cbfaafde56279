//! Physical frame allocator.
//!
//! Usable memory is a list of regions in the order the boot memory map
//! reported them. Frames of all regions are numbered consecutively in that
//! order, and one bit per frame records whether it is allocated.
use vstd::prelude::*;
use vstd::set_lib::*;
use crate::limine::{LimineMemoryMapEntry, LIMINE_MEMMAP_USABLE};
use crate::spinlock::Spinlock;

verus! {

/// Size in bytes of one physical frame.
pub const FRAME_SIZE: usize = 4096;

/// A usable range of physical memory: its base address and how many whole
/// frames it holds.
#[derive(Clone, Copy)]
pub struct MemoryRegion {
    pub base: usize,
    pub frame_count: usize,
}

/// Number of frames in the regions before region `r`; the index of the first
/// frame of region `r`.
pub open spec fn frames_before(regions: Seq<MemoryRegion>, r: int) -> int
    decreases r,
{
    if r <= 0 {
        0
    } else {
        frames_before(regions, r - 1) + regions[r - 1].frame_count
    }
}

/// Number of frames over all regions.
pub open spec fn frames_total(regions: Seq<MemoryRegion>) -> int {
    frames_before(regions, regions.len() as int)
}

/// Physical address of frame `index`, looking for its region from region `r` on.
pub open spec fn phys_from(regions: Seq<MemoryRegion>, r: int, index: int) -> Option<int>
    decreases regions.len() - r,
{
    if r < 0 || r >= regions.len() {
        None
    } else if index < frames_before(regions, r + 1) {
        Some(regions[r].base + (index - frames_before(regions, r)) * FRAME_SIZE)
    } else {
        phys_from(regions, r + 1, index)
    }
}

/// Physical address of frame `index`: the first region (in order) whose span
/// of indices holds it decides.
pub open spec fn phys_of(regions: Seq<MemoryRegion>, index: int) -> Option<int> {
    if index < 0 {
        None
    } else {
        phys_from(regions, 0, index)
    }
}

/// Whether `addr` lies in `[base, base + frame_count * FRAME_SIZE)` of `region`.
pub open spec fn region_contains(region: MemoryRegion, addr: int) -> bool {
    region.base <= addr < region.base + region.frame_count * FRAME_SIZE
}

/// Frame index of physical address `addr`, looking for its region from region `r` on.
pub open spec fn index_from(regions: Seq<MemoryRegion>, r: int, addr: int) -> Option<int>
    decreases regions.len() - r,
{
    if r < 0 || r >= regions.len() {
        None
    } else if region_contains(regions[r], addr) {
        Some(frames_before(regions, r) + (addr - regions[r].base) / (FRAME_SIZE as int))
    } else {
        index_from(regions, r + 1, addr)
    }
}

/// Frame index of physical address `addr`: the first region (in order) that
/// contains the address decides.
pub open spec fn index_of(regions: Seq<MemoryRegion>, addr: int) -> Option<int> {
    index_from(regions, 0, addr)
}

/// The region that a usable memory-map entry describes.
pub open spec fn region_of_entry(e: LimineMemoryMapEntry) -> MemoryRegion {
    MemoryRegion { base: e.base as usize, frame_count: (e.length / (FRAME_SIZE as u64)) as usize }
}

/// The regions of the first `n` entries of a memory map: the usable ones, in order.
pub open spec fn usable_regions(map: Seq<&LimineMemoryMapEntry>, n: int) -> Seq<MemoryRegion>
    decreases n,
{
    if n <= 0 {
        Seq::empty()
    } else if map[n - 1].entry_type == LIMINE_MEMMAP_USABLE {
        usable_regions(map, n - 1).push(region_of_entry(*map[n - 1]))
    } else {
        usable_regions(map, n - 1)
    }
}

/// The memory map stays inside the address space, and its usable frames can
/// be counted in a `usize`.
pub open spec fn memory_map_fits(map: Seq<&LimineMemoryMapEntry>) -> bool {
    &&& forall|i: int|
        0 <= i < map.len() && #[trigger] map[i].entry_type == LIMINE_MEMMAP_USABLE
            ==> map[i].base + map[i].length <= usize::MAX
    &&& frames_total(usable_regions(map, map.len() as int)) <= usize::MAX
}

/// Whether bit `i` of a bitmap (bit `i % 8` of byte `i / 8`) is set.
pub open spec fn bit_set(bitmap: Seq<u8>, i: int) -> bool {
    (bitmap[i / 8] >> ((i % 8) as u8)) & 1u8 == 1u8
}


proof fn lemma_frames_before_monotone(regions: Seq<MemoryRegion>, a: int, b: int)
    requires
        0 <= a <= b,
    ensures
        0 <= frames_before(regions, a) <= frames_before(regions, b),
    decreases b,
{
    if b > a {
        lemma_frames_before_monotone(regions, a, b - 1);
    } else if a > 0 {
        lemma_frames_before_monotone(regions, 0, a - 1);
    }
}

proof fn lemma_frames_before_push(regions: Seq<MemoryRegion>, x: MemoryRegion, k: int)
    requires
        0 <= k <= regions.len(),
    ensures
        frames_before(regions.push(x), k) == frames_before(regions, k),
    decreases k,
{
    if k > 0 {
        lemma_frames_before_push(regions, x, k - 1);
    }
}

proof fn lemma_frames_total_push(regions: Seq<MemoryRegion>, x: MemoryRegion)
    ensures
        frames_total(regions.push(x)) == frames_total(regions) + x.frame_count,
{
    lemma_frames_before_push(regions, x, regions.len() as int);
}

proof fn lemma_usable_total_monotone(map: Seq<&LimineMemoryMapEntry>, a: int, b: int)
    requires
        0 <= a <= b <= map.len(),
    ensures
        frames_total(usable_regions(map, a)) <= frames_total(usable_regions(map, b)),
    decreases b,
{
    if b > a {
        lemma_usable_total_monotone(map, a, b - 1);
        if map[b - 1].entry_type == LIMINE_MEMMAP_USABLE {
            lemma_frames_total_push(usable_regions(map, b - 1), region_of_entry(*map[b - 1]));
        }
    }
}

proof fn lemma_bit_or(b: u8, k: u8, j: u8)
    by (bit_vector)
    requires
        k < 8,
        j < 8,
    ensures
        ((b | (1u8 << k)) >> j) & 1u8 == (if j == k { 1u8 } else { (b >> j) & 1u8 }),
{
}

proof fn lemma_bit_and_not(b: u8, k: u8, j: u8)
    by (bit_vector)
    requires
        k < 8,
        j < 8,
    ensures
        ((b & !(1u8 << k)) >> j) & 1u8 == (if j == k { 0u8 } else { (b >> j) & 1u8 }),
{
}

proof fn lemma_bit_test(b: u8, k: u8)
    by (bit_vector)
    requires
        k < 8,
    ensures
        (b & (1u8 << k) == 0u8) <==> ((b >> k) & 1u8 != 1u8),
{
}

proof fn lemma_zero_byte(k: u8)
    by (bit_vector)
    ensures
        (0u8 >> k) & 1u8 != 1u8,
{
}


/// An optional address as a mathematical integer.
pub open spec fn opt_int(o: Option<usize>) -> Option<int> {
    match o {
        Some(v) => Some(v as int),
        None => None,
    }
}

proof fn lemma_mul_frame_lt(d: int, c: int)
    by (nonlinear_arith)
    requires
        0 <= d < c,
    ensures
        d * 4096 + 4096 <= c * 4096,
{
}

proof fn lemma_div_frame_lt(d: int, c: int)
    by (nonlinear_arith)
    requires
        0 <= d < c * 4096,
    ensures
        0 <= d / 4096 < c,
{
}

proof fn lemma_div_mul_le(l: int)
    by (nonlinear_arith)
    requires
        0 <= l,
    ensures
        (l / 4096) * 4096 <= l,
{
}

proof fn lemma_phys_from_some(regions: Seq<MemoryRegion>, r: int, index: int)
    requires
        0 <= r <= regions.len(),
        frames_before(regions, r) <= index < frames_total(regions),
    ensures
        phys_from(regions, r, index) is Some,
    decreases regions.len() - r,
{
    if r < regions.len() && index >= frames_before(regions, r + 1) {
        lemma_phys_from_some(regions, r + 1, index);
    }
}

proof fn lemma_index_from_bound(regions: Seq<MemoryRegion>, r: int, addr: int)
    requires
        0 <= r,
    ensures
        index_from(regions, r, addr) matches Some(i) ==> frames_before(regions, r) <= i
            < frames_total(regions),
    decreases regions.len() - r,
{
    if r < regions.len() {
        lemma_frames_before_monotone(regions, r + 1, regions.len() as int);
        if region_contains(regions[r], addr) {
            lemma_div_frame_lt(addr - regions[r].base, regions[r].frame_count as int);
        } else {
            lemma_index_from_bound(regions, r + 1, addr);
            lemma_frames_before_monotone(regions, r, r + 1);
        }
    }
}

/// Bitmap allocator of physical frames. Bit `i` of the bitmap (bit `i % 8` of
/// byte `i / 8`) is set while frame `i` is allocated; `used_frames` counts the
/// set bits among the `total_frames` frames.
pub struct FrameAllocator {
    bitmap: Vec<u8>,
    total_frames: usize,
    used_frames: usize,
    regions: Vec<MemoryRegion>,
    hhdm_offset: u64,
}

impl FrameAllocator {
    /// The usable regions, in the order they were reported.
    pub closed spec fn regions(self) -> Seq<MemoryRegion> {
        self.regions@
    }

    /// Number of frames managed.
    pub closed spec fn total(self) -> int {
        self.total_frames as int
    }

    /// Number of frames allocated, as the allocator counts them.
    pub closed spec fn used(self) -> int {
        self.used_frames as int
    }

    /// Indices of the allocated frames.
    pub closed spec fn allocated(self) -> Set<int> {
        Set::new(|i: int| 0 <= i < self.total_frames && bit_set(self.bitmap@, i))
    }

    /// Offset of the higher-half direct map given at initialization.
    pub closed spec fn hhdm(self) -> u64 {
        self.hhdm_offset
    }

    /// The bitmap covers every frame, the frame count is the regions' sum,
    /// every region lies inside the address space, and the allocated count
    /// matches the bitmap.
    pub closed spec fn wf(self) -> bool {
        &&& self.bitmap@.len() * 8 >= self.total_frames
        &&& self.total_frames == frames_total(self.regions@)
        &&& forall|r: int|
            0 <= r < self.regions@.len() ==> #[trigger] self.regions@[r].base
                + self.regions@[r].frame_count * FRAME_SIZE <= usize::MAX
        &&& self.used_frames == self.allocated().len()
    }

    /// An allocator with no memory: every allocation fails until `init`.
    pub fn new() -> (r: Self)
        ensures
            r.wf(),
            r.regions().len() == 0,
            r.total() == 0,
            r.used() == 0,
            r.allocated() == Set::<int>::empty(),
    {
        let r = FrameAllocator {
            bitmap: Vec::new(),
            total_frames: 0,
            used_frames: 0,
            regions: Vec::new(),
            hhdm_offset: 0,
        };
        assert(r.allocated() =~= Set::<int>::empty());
        r
    }

    proof fn lemma_allocated_finite(self)
        ensures
            self.allocated().subset_of(set_int_range(0, self.total())),
            self.allocated().finite(),
            self.allocated().len() <= self.total(),
    {
        lemma_int_range(0, self.total());
        assert(self.allocated().subset_of(set_int_range(0, self.total())));
        lemma_len_subset(self.allocated(), set_int_range(0, self.total()));
    }

    /// Whether bit `index` of the bitmap is set.
    fn test_bit(&self, index: usize) -> (r: bool)
        requires
            index < self.bitmap@.len() * 8,
        ensures
            r == bit_set(self.bitmap@, index as int),
    {
        let byte = self.bitmap[index / 8];
        let bit = (index % 8) as u8;
        proof {
            lemma_bit_test(byte, bit);
        }
        byte & (1u8 << bit) != 0
    }

    /// Sets (`value`) or clears bit `index` of the bitmap.
    fn write_bit(&mut self, index: usize, value: bool)
        requires
            index < old(self).bitmap@.len() * 8,
        ensures
            final(self).bitmap@.len() == old(self).bitmap@.len(),
            final(self).total_frames == old(self).total_frames,
            final(self).used_frames == old(self).used_frames,
            final(self).regions == old(self).regions,
            final(self).hhdm_offset == old(self).hhdm_offset,
            forall|m: int|
                0 <= m < old(self).bitmap@.len() * 8 ==> #[trigger] bit_set(final(self).bitmap@, m)
                    == if m == index {
                    value
                } else {
                    bit_set(old(self).bitmap@, m)
                },
    {
        let byte_index = index / 8;
        let bit = (index % 8) as u8;
        let old_byte = self.bitmap[byte_index];
        let new_byte = if value {
            old_byte | (1u8 << bit)
        } else {
            old_byte & !(1u8 << bit)
        };
        self.bitmap.set(byte_index, new_byte);
        proof {
            assert forall|m: int| 0 <= m < old(self).bitmap@.len() * 8 implies #[trigger] bit_set(
                self.bitmap@,
                m,
            ) == if m == index {
                value
            } else {
                bit_set(old(self).bitmap@, m)
            } by {
                if m / 8 == byte_index as int {
                    lemma_bit_or(old_byte, bit, (m % 8) as u8);
                    lemma_bit_and_not(old_byte, bit, (m % 8) as u8);
                }
            }
        }
    }

    /// Frame `i` is the lowest-numbered free frame.
    pub open spec fn lowest_free(self, i: int) -> bool {
        &&& 0 <= i < self.total()
        &&& !self.allocated().contains(i)
        &&& forall|j: int| 0 <= j < i ==> self.allocated().contains(j)
    }

    /// Every frame is allocated.
    pub open spec fn exhausted(self) -> bool {
        forall|j: int| 0 <= j < self.total() ==> self.allocated().contains(j)
    }

    /// `after` has the regions, size and offset of `before`, and is well formed.
    pub open spec fn same_layout(before: Self, after: Self) -> bool {
        &&& after.wf()
        &&& after.regions() == before.regions()
        &&& after.total() == before.total()
        &&& after.hhdm() == before.hhdm()
    }

    /// `allocate_frame` on `before` gives `after` and returns `r`: the
    /// lowest-numbered free frame becomes allocated and its address is
    /// returned; `None`, with nothing changed, when every frame is allocated.
    pub open spec fn allocate_frame_step(before: Self, after: Self, r: Option<usize>) -> bool {
        &&& Self::same_layout(before, after)
        &&& r is Some <==> !before.exhausted()
        &&& before.exhausted() ==> after.allocated() == before.allocated()
        &&& !before.exhausted() ==> exists|i: int|
            #[trigger] before.lowest_free(i) && after.allocated() == before.allocated().insert(i)
                && opt_int(r) == phys_of(before.regions(), i)
    }

    /// `deallocate_frame(phys_addr)` on `before` gives `after`: the frame that
    /// the address falls in becomes free; an address outside every region
    /// changes nothing.
    pub open spec fn deallocate_frame_step(before: Self, after: Self, phys_addr: usize) -> bool {
        &&& Self::same_layout(before, after)
        &&& after.allocated() == match index_of(before.regions(), phys_addr as int) {
            Some(i) => before.allocated().remove(i),
            None => before.allocated(),
        }
    }

    /// `allocate_contiguous_frames(count)` on `before` gives `after` and
    /// returns `r`: the first free run of `count` frames inside one region
    /// becomes allocated and the address of its first frame is returned;
    /// `None`, with nothing changed, when `count` is zero or no region has
    /// such a run.
    pub open spec fn contiguous_step(before: Self, after: Self, count: usize, r: Option<usize>) -> bool {
        &&& Self::same_layout(before, after)
        &&& r is Some <==> (count > 0 && exists|r2: int, s2: int|
            #[trigger] before.run_free(r2, s2, count as int))
        &&& r is None ==> after.allocated() == before.allocated()
        &&& r matches Some(addr) ==> exists|rr: int, ss: int|
            #[trigger] before.first_run(rr, ss, count as int) && addr == before.regions()[rr].base + ss
                * FRAME_SIZE && after.allocated() == before.allocated().union(
                set_int_range(
                    frames_before(before.regions(), rr) + ss,
                    frames_before(before.regions(), rr) + ss + count,
                ),
            )
    }

    /// Physical address of frame `index`, found by walking the regions in order.
    fn frame_index_to_phys(&self, index: usize) -> (r: Option<usize>)
        requires
            self.wf(),
        ensures
            opt_int(r) == phys_of(self.regions(), index as int),
    {
        let mut offset: usize = 0;
        let mut i: usize = 0;
        while i < self.regions.len()
            invariant
                self.wf(),
                0 <= i <= self.regions@.len(),
                offset == frames_before(self.regions@, i as int),
                offset <= index,
                phys_of(self.regions@, index as int) == phys_from(self.regions@, i as int, index as int),
            decreases self.regions@.len() - i,
        {
            let region = self.regions[i];
            proof {
                lemma_frames_before_monotone(self.regions@, i + 1, self.regions@.len() as int);
            }
            if index < offset + region.frame_count {
                proof {
                    lemma_mul_frame_lt(index - offset, region.frame_count as int);
                    assert(self.regions@[i as int].base + self.regions@[i as int].frame_count * FRAME_SIZE
                        <= usize::MAX);
                }
                return Some(region.base + (index - offset) * FRAME_SIZE);
            }
            offset = offset + region.frame_count;
            i += 1;
        }
        None
    }

    /// Frame index of a physical address, found by checking the regions in order.
    fn phys_to_frame_index(&self, phys_addr: usize) -> (r: Option<usize>)
        requires
            self.wf(),
        ensures
            opt_int(r) == index_of(self.regions(), phys_addr as int),
            r matches Some(i) ==> i < self.total(),
    {
        proof {
            lemma_index_from_bound(self.regions@, 0, phys_addr as int);
        }
        let mut offset: usize = 0;
        let mut i: usize = 0;
        while i < self.regions.len()
            invariant
                self.wf(),
                0 <= i <= self.regions@.len(),
                offset == frames_before(self.regions@, i as int),
                index_of(self.regions@, phys_addr as int) == index_from(
                    self.regions@,
                    i as int,
                    phys_addr as int,
                ),
                index_of(self.regions@, phys_addr as int) matches Some(k) ==> k < self.total(),
            decreases self.regions@.len() - i,
        {
            let region = self.regions[i];
            proof {
                assert(self.regions@[i as int].base + self.regions@[i as int].frame_count * FRAME_SIZE
                    <= usize::MAX);
                lemma_frames_before_monotone(self.regions@, i + 1, self.regions@.len() as int);
            }
            let region_end = region.base + region.frame_count * FRAME_SIZE;
            if phys_addr >= region.base && phys_addr < region_end {
                proof {
                    lemma_div_frame_lt(phys_addr - region.base, region.frame_count as int);
                }
                return Some(offset + (phys_addr - region.base) / FRAME_SIZE);
            }
            offset = offset + region.frame_count;
            i += 1;
        }
        None
    }

    /// Allocates the lowest-numbered free frame and returns its physical
    /// address, or `None` when every frame is allocated.
    pub fn allocate_frame(&mut self) -> (r: Option<usize>)
        requires
            old(self).wf(),
        ensures
            Self::allocate_frame_step(*old(self), *final(self), r),
    {
        let mut frame_index: usize = 0;
        while frame_index < self.total_frames
            invariant
                self.wf(),
                *self == *old(self),
                frame_index <= self.total_frames,
                forall|j: int| 0 <= j < frame_index ==> self.allocated().contains(j),
            decreases self.total_frames - frame_index,
        {
            if !self.test_bit(frame_index) {
                let ghost before = self.allocated();
                self.write_bit(frame_index, true);
                proof {
                    assert(self.allocated() =~= before.insert(frame_index as int));
                    old(self).lemma_allocated_finite();
                    self.lemma_allocated_finite();
                    assert(old(self).lowest_free(frame_index as int));
                }
                self.used_frames = self.used_frames + 1;
                proof {
                    lemma_phys_from_some(self.regions@, 0, frame_index as int);
                }
                return self.frame_index_to_phys(frame_index);
            }
            frame_index += 1;
        }
        None
    }

    /// Frames `s .. s + n` of region `r`, counted from the region's first
    /// frame, lie inside the region and are all free.
    pub open spec fn run_free(self, r: int, s: int, n: int) -> bool {
        &&& 0 <= r < self.regions().len()
        &&& 0 <= s
        &&& s + n <= self.regions()[r].frame_count
        &&& forall|k: int|
            0 <= k < n ==> !#[trigger] self.allocated().contains(
                frames_before(self.regions(), r) + s + k,
            )
    }

    /// `(r, s)` is the first free run of `n` frames: in the lowest region
    /// that has one, at the lowest start in that region.
    pub open spec fn first_run(self, r: int, s: int, n: int) -> bool {
        &&& self.run_free(r, s, n)
        &&& forall|r2: int, s2: int|
            (r2 < r || (r2 == r && s2 < s)) ==> !#[trigger] self.run_free(r2, s2, n)
    }

    /// Allocates `count` consecutive frames inside a single region and
    /// returns the physical address of the first. Runs never span two
    /// regions, even adjacent ones. `None` when `count` is zero or no region
    /// has such a run of free frames.
    pub fn allocate_contiguous_frames(&mut self, count: usize) -> (r: Option<usize>)
        requires
            old(self).wf(),
        ensures
            Self::contiguous_step(*old(self), *final(self), count, r),
    {
        if count == 0 {
            return None;
        }
        let mut region_start_index: usize = 0;
        let mut r: usize = 0;
        while r < self.regions.len()
            invariant
                self.wf(),
                *self == *old(self),
                0 <= r <= self.regions@.len(),
                count > 0,
                region_start_index == frames_before(self.regions@, r as int),
                forall|r2: int, s2: int| r2 < r ==> !#[trigger] self.run_free(r2, s2, count as int),
            decreases self.regions@.len() - r,
        {
            let region = self.regions[r];
            proof {
                lemma_frames_before_monotone(self.regions@, r + 1, self.regions@.len() as int);
            }
            if region.frame_count >= count {
                let mut run_start: usize = 0;
                let mut run_len: usize = 0;
                let mut f: usize = 0;
                while f < region.frame_count
                    invariant
                        self.wf(),
                        *self == *old(self),
                        0 <= r < self.regions@.len(),
                        region == self.regions@[r as int],
                        count > 0,
                        region_start_index == frames_before(self.regions@, r as int),
                        region_start_index + region.frame_count <= self.total_frames,
                        forall|r2: int, s2: int|
                            r2 < r ==> !#[trigger] self.run_free(r2, s2, count as int),
                        f <= region.frame_count,
                        run_len <= f,
                        run_len < count,
                        run_len > 0 ==> run_start == f - run_len,
                        forall|k: int|
                            f - run_len <= k < f ==> !#[trigger] self.allocated().contains(
                                region_start_index + k,
                            ),
                        f - run_len > 0 ==> self.allocated().contains(
                            region_start_index + f - run_len - 1,
                        ),
                        forall|s2: int|
                            s2 + count <= f ==> !#[trigger] self.run_free(r as int, s2, count as int),
                    decreases region.frame_count - f,
                {
                    let frame_index = region_start_index + f;
                    let free = !self.test_bit(frame_index);
                    let ghost start = f - run_len;
                    if free {
                        if run_len == 0 {
                            run_start = f;
                        }
                        run_len += 1;
                        if run_len == count {
                            proof {
                                assert forall|r2: int, s2: int|
                                    (r2 < r || (r2 == r && s2 < run_start)) implies !#[trigger] self.run_free(
                                    r2,
                                    s2,
                                    count as int,
                                ) by {
                                    if r2 == r && s2 + count > f {
                                        assert(s2 + count <= f);
                                    }
                                }
                                assert forall|k: int| 0 <= k < count implies !#[trigger] self.allocated().contains(
                                    frames_before(self.regions(), r as int) + run_start + k,
                                ) by {
                                    if k < count - 1 {
                                        assert(!self.allocated().contains(
                                            region_start_index + (run_start + k),
                                        ));
                                    }
                                }
                                assert(self.run_free(r as int, run_start as int, count as int));
                                assert(self.first_run(r as int, run_start as int, count as int));
                            }
                            let base_frame_index = region_start_index + run_start;
                            let ghost span = set_int_range(
                                base_frame_index as int,
                                base_frame_index + count,
                            );
                            let mut i: usize = 0;
                            while i < count
                                invariant
                                    i <= count,
                                    base_frame_index + count <= self.total_frames,
                                    self.bitmap@.len() * 8 >= self.total_frames,
                                    self.total_frames == old(self).total_frames,
                                    self.used_frames == old(self).used_frames,
                                    self.regions == old(self).regions,
                                    self.hhdm_offset == old(self).hhdm_offset,
                                    self.allocated() == old(self).allocated().union(
                                        set_int_range(
                                            base_frame_index as int,
                                            base_frame_index + i,
                                        ),
                                    ),
                                decreases count - i,
                            {
                                let ghost before = self.allocated();
                                self.write_bit(base_frame_index + i, true);
                                proof {
                                    assert(self.allocated() =~= before.insert(base_frame_index + i));
                                    assert(self.allocated() =~= old(self).allocated().union(
                                        set_int_range(
                                            base_frame_index as int,
                                            base_frame_index + i + 1,
                                        ),
                                    ));
                                }
                                i += 1;
                            }
                            proof {
                                lemma_int_range(base_frame_index as int, base_frame_index + count);
                                old(self).lemma_allocated_finite();
                                self.lemma_allocated_finite();
                                assert forall|x: int| span.contains(x) implies !old(
                                    self,
                                ).allocated().contains(x) by {
                                    let k = x - base_frame_index;
                                    assert(!old(self).allocated().contains(
                                        frames_before(old(self).regions(), r as int) + run_start
                                            + k,
                                    ));
                                }
                                assert(old(self).allocated().disjoint(span));
                                lemma_set_disjoint_lens(old(self).allocated(), span);
                                lemma_mul_frame_lt(run_start as int, region.frame_count as int);
                                assert(self.regions@[r as int].base + self.regions@[r as int].frame_count
                                    * FRAME_SIZE <= usize::MAX);
                            }
                            self.used_frames = self.used_frames + count;
                            return Some(region.base + run_start * FRAME_SIZE);
                        }
                    } else {
                        run_len = 0;
                    }
                    proof {
                        assert forall|s2: int| s2 + count <= f + 1 implies !#[trigger] self.run_free(
                            r as int,
                            s2,
                            count as int,
                        ) by {
                            if s2 + count == f + 1 && s2 >= 0 {
                                if !free {
                                    assert(self.allocated().contains(
                                        frames_before(self.regions(), r as int) + s2 + (f - s2),
                                    ));
                                } else {
                                    assert(self.allocated().contains(
                                        frames_before(self.regions(), r as int) + s2 + (start - 1
                                            - s2),
                                    ));
                                }
                            }
                        }
                    }
                    f += 1;
                }
            }
            region_start_index = region_start_index + region.frame_count;
            r += 1;
        }
        None
    }

    /// Returns the frame at `phys_addr` to the free pool. An address outside
    /// every region, or of a frame that is already free, changes nothing.
    pub fn deallocate_frame(&mut self, phys_addr: usize)
        requires
            old(self).wf(),
        ensures
            Self::deallocate_frame_step(*old(self), *final(self), phys_addr),
    {
        let frame_index = match self.phys_to_frame_index(phys_addr) {
            Some(idx) => idx,
            None => {
                proof {
                    assert(old(self).allocated() == old(self).allocated());
                }
                return;
            },
        };
        if self.test_bit(frame_index) {
            let ghost before = self.allocated();
            self.write_bit(frame_index, false);
            proof {
                assert(self.allocated() =~= before.remove(frame_index as int));
                old(self).lemma_allocated_finite();
                self.lemma_allocated_finite();
            }
            self.used_frames = self.used_frames - 1;
        } else {
            proof {
                assert(old(self).allocated().remove(frame_index as int) =~= old(self).allocated());
            }
        }
    }

    /// Number of frames managed.
    pub fn total_frames(&self) -> (r: usize)
        ensures
            r == self.total(),
    {
        self.total_frames
    }

    /// Number of frames allocated.
    pub fn used_frames(&self) -> (r: usize)
        ensures
            r == self.used(),
    {
        self.used_frames
    }

    /// Number of frames free: always the total less the allocated.
    pub fn free_frames(&self) -> (r: usize)
        requires
            self.wf(),
        ensures
            r == self.total() - self.used(),
            r + self.used() == self.total(),
    {
        proof {
            self.lemma_allocated_finite();
        }
        self.total_frames - self.used_frames
    }

    /// The count of allocated frames is the number of set bits among the
    /// managed frames, so it never exceeds the total.
    pub proof fn lemma_used_within_total(self)
        requires
            self.wf(),
        ensures
            self.used() == self.allocated().len(),
            0 <= self.used() <= self.total(),
            self.allocated().subset_of(set_int_range(0, self.total())),
    {
        self.lemma_allocated_finite();
    }

    /// Replaces the allocator's state with the usable regions of `memory_map`,
    /// all frames free.
    pub fn init(&mut self, memory_map: &[&LimineMemoryMapEntry], hhdm_offset: u64)
        requires
            memory_map_fits(memory_map@),
        ensures
            final(self).wf(),
            final(self).regions() == usable_regions(memory_map@, memory_map@.len() as int),
            final(self).total() == frames_total(final(self).regions()),
            final(self).allocated() == Set::<int>::empty(),
            final(self).used() == 0,
            final(self).hhdm() == hhdm_offset,
    {
        let mut regions: Vec<MemoryRegion> = Vec::new();
        let mut total: usize = 0;
        let mut i: usize = 0;
        while i < memory_map.len()
            invariant
                0 <= i <= memory_map@.len(),
                memory_map_fits(memory_map@),
                regions@ == usable_regions(memory_map@, i as int),
                total == frames_total(regions@),
                forall|r: int|
                    0 <= r < regions@.len() ==> #[trigger] regions@[r].base + regions@[r].frame_count
                        * FRAME_SIZE <= usize::MAX,
            decreases memory_map@.len() - i,
        {
            let entry = memory_map[i];
            if entry.entry_type == LIMINE_MEMMAP_USABLE {
                let frames = (entry.length / (FRAME_SIZE as u64)) as usize;
                let region = MemoryRegion { base: entry.base as usize, frame_count: frames };
                proof {
                    lemma_frames_total_push(regions@, region);
                    lemma_usable_total_monotone(
                        memory_map@,
                        i + 1,
                        memory_map@.len() as int,
                    );
                    assert(memory_map@[i as int].entry_type == LIMINE_MEMMAP_USABLE);
                    lemma_div_mul_le(entry.length as int);
                    assert(frames * FRAME_SIZE <= entry.length);
                }
                regions.push(region);
                total = total + frames;
            }
            i += 1;
        }
        let bytes = total / 8 + if total % 8 == 0 {
            0
        } else {
            1
        };
        let mut bitmap: Vec<u8> = Vec::new();
        let mut k: usize = 0;
        while k < bytes
            invariant
                k <= bytes,
                bitmap@.len() == k,
                forall|j: int| 0 <= j < k ==> bitmap@[j] == 0u8,
            decreases bytes - k,
        {
            bitmap.push(0u8);
            k += 1;
        }
        *self = FrameAllocator {
            bitmap,
            total_frames: total,
            used_frames: 0,
            regions,
            hhdm_offset,
        };
        proof {
            assert forall|m: int| 0 <= m < total implies !bit_set(self.bitmap@, m) by {
                lemma_zero_byte((m % 8) as u8);
            }
            assert(self.allocated() =~= Set::<int>::empty());
        }
    }
}

/// What the lock of a shared allocator keeps true of it.
pub open spec fn allocator_wf() -> spec_fn(FrameAllocator) -> bool {
    |a: FrameAllocator| a.wf()
}

/// An allocator to share between normal and interrupt context, behind a
/// lock; it has no memory until `init`.
pub fn new_shared() -> (r: Spinlock<FrameAllocator>)
    ensures
        r.guarded() == allocator_wf(),
{
    Spinlock::with_invariant(FrameAllocator::new(), Ghost(allocator_wf()))
}

/// Initializes the shared allocator from the boot memory map.
pub fn init(lock: &Spinlock<FrameAllocator>, memory_map: &[&LimineMemoryMapEntry], hhdm_offset: u64)
    requires
        lock.guarded() == allocator_wf(),
        memory_map_fits(memory_map@),
{
    let mut guard = lock.lock();
    guard.get_mut().init(memory_map, hhdm_offset);
    guard.release();
}

/// Allocates one frame of the shared allocator.
pub fn allocate_frame(lock: &Spinlock<FrameAllocator>) -> Option<usize>
    requires
        lock.guarded() == allocator_wf(),
{
    let mut guard = lock.lock();
    let r = guard.get_mut().allocate_frame();
    guard.release();
    r
}

/// Allocates `count` contiguous frames of the shared allocator.
pub fn allocate_contiguous_frames(lock: &Spinlock<FrameAllocator>, count: usize) -> (r: Option<usize>)
    requires
        lock.guarded() == allocator_wf(),
    ensures
        count == 0 ==> r is None,
{
    let mut guard = lock.lock();
    let r = guard.get_mut().allocate_contiguous_frames(count);
    guard.release();
    r
}

/// Returns a frame to the shared allocator.
pub fn deallocate_frame(lock: &Spinlock<FrameAllocator>, phys_addr: usize)
    requires
        lock.guarded() == allocator_wf(),
{
    let mut guard = lock.lock();
    guard.get_mut().deallocate_frame(phys_addr);
    guard.release();
}

/// Total, used and free frames of the shared allocator, read under one
/// acquisition of the lock: used and free always add up to the total.
pub fn stats(lock: &Spinlock<FrameAllocator>) -> (r: (usize, usize, usize))
    requires
        lock.guarded() == allocator_wf(),
    ensures
        r.1 + r.2 == r.0,
{
    let guard = lock.lock();
    let allocator = guard.get();
    let r = (allocator.total_frames(), allocator.used_frames(), allocator.free_frames());
    guard.release();
    r
}

/// Regions start on a frame boundary and no two of them share an address.
pub open spec fn regions_aligned_disjoint(regions: Seq<MemoryRegion>) -> bool {
    &&& forall|r: int| 0 <= r < regions.len() ==> #[trigger] regions[r].base % FRAME_SIZE == 0
    &&& forall|r1: int, r2: int|
        0 <= r1 < regions.len() && 0 <= r2 < regions.len() && r1 != r2 ==> {
            ||| #[trigger] regions[r1].base + regions[r1].frame_count * FRAME_SIZE <= regions[r2].base
            ||| #[trigger] regions[r2].base + regions[r2].frame_count * FRAME_SIZE <= regions[r1].base
        }
}

/// The region that holds frame `i`, looking from region `r0` on.
spec fn region_index_from(regions: Seq<MemoryRegion>, r0: int, i: int) -> int
    decreases regions.len() - r0,
{
    if r0 < 0 || r0 >= regions.len() || i < frames_before(regions, r0 + 1) {
        r0
    } else {
        region_index_from(regions, r0 + 1, i)
    }
}

proof fn lemma_phys_from_region(regions: Seq<MemoryRegion>, r0: int, i: int)
    requires
        0 <= r0 <= regions.len(),
        frames_before(regions, r0) <= i < frames_total(regions),
    ensures
        ({
            let r = region_index_from(regions, r0, i);
            &&& r0 <= r < regions.len()
            &&& frames_before(regions, r) <= i < frames_before(regions, r + 1)
            &&& phys_from(regions, r0, i) == Some(
                regions[r].base + (i - frames_before(regions, r)) * FRAME_SIZE,
            )
            &&& region_contains(regions[r], phys_from(regions, r0, i)->0)
        }),
    decreases regions.len() - r0,
{
    if r0 == regions.len() {
        assert(false);
    } else if i < frames_before(regions, r0 + 1) {
        lemma_mul_frame_lt(i - frames_before(regions, r0), regions[r0].frame_count as int);
    } else {
        lemma_phys_from_region(regions, r0 + 1, i);
    }
}

proof fn lemma_mul_div_exact(d: int)
    by (nonlinear_arith)
    requires
        0 <= d,
    ensures
        (d * 4096) / 4096 == d,
{
}

proof fn lemma_index_from_region(regions: Seq<MemoryRegion>, r0: int, r: int, a: int)
    requires
        regions_aligned_disjoint(regions),
        0 <= r0 <= r < regions.len(),
        region_contains(regions[r], a),
    ensures
        index_from(regions, r0, a) == Some(
            frames_before(regions, r) + (a - regions[r].base) / (FRAME_SIZE as int),
        ),
    decreases r - r0,
{
    if r0 < r {
        assert(!region_contains(regions[r0], a)) by {
            assert(regions[r0].base + regions[r0].frame_count * FRAME_SIZE <= regions[r].base
                || regions[r].base + regions[r].frame_count * FRAME_SIZE <= regions[r0].base);
        }
        lemma_index_from_region(regions, r0 + 1, r, a);
    }
}

/// Over aligned, disjoint regions, walking from a frame index to its address
/// and back gives the index again.
pub proof fn lemma_index_of_phys(regions: Seq<MemoryRegion>, i: int)
    requires
        regions_aligned_disjoint(regions),
        0 <= i < frames_total(regions),
    ensures
        phys_of(regions, i) is Some,
        index_of(regions, phys_of(regions, i)->0) == Some(i),
        phys_of(regions, i)->0 % (FRAME_SIZE as int) == 0,
{
    lemma_phys_from_region(regions, 0, i);
    let a = phys_of(regions, i)->0;
    let r = region_index_from(regions, 0, i);
    let d = i - frames_before(regions, r);
    lemma_mul_div_exact(d);
    lemma_index_from_region(regions, 0, r, a);
    assert(regions[r].base % 4096 == 0);
    assert((regions[r].base + d * 4096) % 4096 == 0) by (nonlinear_arith)
        requires
            regions[r].base % 4096 == 0,
            d >= 0,
    ;
}

/// No frame is handed out twice: over aligned, disjoint regions, the address
/// that `allocate_frame` returns is frame-aligned and differs from the address
/// of every frame that was already allocated.
pub proof fn lemma_allocation_fresh(
    before: FrameAllocator,
    after: FrameAllocator,
    addr: usize,
    j: int,
)
    requires
        before.wf(),
        regions_aligned_disjoint(before.regions()),
        FrameAllocator::allocate_frame_step(before, after, Some(addr)),
        before.allocated().contains(j),
    ensures
        addr % FRAME_SIZE == 0,
        phys_of(before.regions(), j) != Some(addr as int),
        after.allocated().contains(j),
{
    before.lemma_used_within_total();
    let i = choose|i: int|
        #[trigger] before.lowest_free(i) && after.allocated() == before.allocated().insert(i)
            && opt_int(Some(addr)) == phys_of(before.regions(), i);
    lemma_index_of_phys(before.regions(), i);
    lemma_index_of_phys(before.regions(), j);
}

/// Allocating a frame, freeing it and allocating again hands out the same
/// frame: first fit finds the freed frame again, and the allocator ends as
/// it was after the first allocation.
pub proof fn lemma_reallocate_after_free(
    s0: FrameAllocator,
    s1: FrameAllocator,
    s2: FrameAllocator,
    s3: FrameAllocator,
    addr: usize,
    r: Option<usize>,
)
    requires
        s0.wf(),
        regions_aligned_disjoint(s0.regions()),
        FrameAllocator::allocate_frame_step(s0, s1, Some(addr)),
        FrameAllocator::deallocate_frame_step(s1, s2, addr),
        FrameAllocator::allocate_frame_step(s2, s3, r),
    ensures
        r == Some(addr),
        s2.allocated() == s0.allocated(),
        s3.allocated() == s1.allocated(),
{
    let i = choose|i: int|
        #[trigger] s0.lowest_free(i) && s1.allocated() == s0.allocated().insert(i)
            && opt_int(Some(addr)) == phys_of(s0.regions(), i);
    lemma_index_of_phys(s0.regions(), i);
    assert(s2.allocated() =~= s0.allocated());
    assert(s2.lowest_free(i));
    let k = choose|k: int|
        #[trigger] s2.lowest_free(k) && s3.allocated() == s2.allocated().insert(k)
            && opt_int(r) == phys_of(s2.regions(), k);
    if k < i {
        assert(s2.allocated().contains(k));
    } else if i < k {
        assert(s2.allocated().contains(i));
    }
}

/// A contiguous allocation lies inside one region: the `count` frames from
/// the returned address all belong to a single region.
pub proof fn lemma_contiguous_within_region(
    before: FrameAllocator,
    after: FrameAllocator,
    count: usize,
    addr: usize,
)
    requires
        FrameAllocator::contiguous_step(before, after, count, Some(addr)),
    ensures
        exists|r: int|
            0 <= r < before.regions().len() && #[trigger] before.regions()[r].base <= addr && addr
                + count * FRAME_SIZE <= before.regions()[r].base + before.regions()[r].frame_count
                * FRAME_SIZE,
{
    let (rr, ss) = choose|rr: int, ss: int|
        #[trigger] before.first_run(rr, ss, count as int) && addr == before.regions()[rr].base + ss
            * FRAME_SIZE && after.allocated() == before.allocated().union(
            set_int_range(
                frames_before(before.regions(), rr) + ss,
                frames_before(before.regions(), rr) + ss + count,
            ),
        );
    let c = before.regions()[rr].frame_count as int;
    assert((ss + count) * 4096 <= c * 4096) by (nonlinear_arith)
        requires
            ss + count <= c,
    ;
    assert(before.regions()[rr].base <= addr);
}

} // verus!
