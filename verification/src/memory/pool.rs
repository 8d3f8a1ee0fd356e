use vstd::prelude::*;

use super::block::{align, align_up, lemma_align_up, Block};
use super::free_list::{
    alloc_outcome, block_in_chunks, some_fit, carve, fits, is_first_fit, placed, release, free_accepts,
    whole_chunks, FreeListAllocator,
};

verus! {

// Vulkan memory property bits.
pub const MEMORY_DEVICE_LOCAL: u32 = 0x1;
pub const MEMORY_HOST_VISIBLE: u32 = 0x2;
pub const MEMORY_HOST_COHERENT: u32 = 0x4;

// Vulkan buffer usage bits.
pub const USAGE_TRANSFER_SRC: u32 = 0x1;
pub const USAGE_TRANSFER_DST: u32 = 0x2;
pub const USAGE_UNIFORM_TEXEL_BUFFER: u32 = 0x4;
pub const USAGE_STORAGE_TEXEL_BUFFER: u32 = 0x8;
pub const USAGE_UNIFORM_BUFFER: u32 = 0x10;
pub const USAGE_STORAGE_BUFFER: u32 = 0x20;
pub const USAGE_INDEX_BUFFER: u32 = 0x40;
pub const USAGE_VERTEX_BUFFER: u32 = 0x80;

/// Size of the memory chunks that pools request from the device.
pub const CHUNK_SIZE: u64 = 0x100_0000;

/// Smallest alignment of device memory suballocations.
pub const MIN_ALIGNMENT: u64 = 32;

/// Whether a memory type with index `type_index` is allowed by the mask
/// `type_bits`.
pub fn compatible_type(type_bits: u32, type_index: u32) -> (r: bool)
    requires
        type_index < 32,
    ensures
        r == (type_bits & (1u32 << type_index) > 0),
{
    type_bits & (1u32 << type_index) > 0
}

/// Whether `flags` holds every bit of `required`.
pub open spec fn has_flags(flags: u32, required: u32) -> bool {
    flags & required == required
}

/// One of the device's memory types.
#[derive(Clone, Copy, Debug, PartialEq, Eq, Structural)]
pub struct MemoryType {
    pub property_flags: u32,
    pub heap_index: u32,
}

/// Memory type `i` is allowed by `type_mask` and has all of `flags`.
pub open spec fn type_matches(types: Seq<MemoryType>, flags: u32, type_mask: u32, i: int) -> bool {
    &&& type_mask & (1u32 << (i as u32)) > 0
    &&& has_flags(types[i].property_flags, flags)
}

/// Finds a desirable memory type that meets requirements: the first one
/// allowed by `type_mask` that has all of `flags`. Implementations list
/// memory types in order of "performance", so the first match is
/// probably the best for general use.
pub fn find_memory_type(types: &[MemoryType], flags: u32, type_mask: u32) -> (r: Option<u32>)
    requires
        types@.len() <= 32,
    ensures
        r matches Some(i) ==> {
            &&& i < types@.len()
            &&& type_matches(types@, flags, type_mask, i as int)
            &&& forall|j: int| 0 <= j < i ==> !type_matches(types@, flags, type_mask, j)
        },
        r is None ==> forall|j: int| 0 <= j < types@.len() ==> !type_matches(types@, flags, type_mask, j),
{
    let n = types.len();
    let mut i: usize = 0;
    while i < n
        invariant
            0 <= i <= n,
            n == types@.len(),
            n <= 32,
            forall|j: int| 0 <= j < i ==> !type_matches(types@, flags, type_mask, j),
        decreases n - i,
    {
        let ty = types[i];
        if compatible_type(type_mask, i as u32) && (ty.property_flags & flags == flags) {
            return Some(i as u32);
        }
        i = i + 1;
    }
    None
}

/// Property flags for host visible, coherent memory.
pub fn visible_coherent_flags() -> (r: u32)
    ensures
        r == MEMORY_HOST_VISIBLE | MEMORY_HOST_COHERENT,
{
    MEMORY_HOST_VISIBLE | MEMORY_HOST_COHERENT
}

/// Image memory arrangement.
#[derive(Clone, Copy, Debug, PartialEq, Eq, Structural, Hash)]
pub enum Tiling {
    /// Denotes a linear image or a buffer.
    Linear,
    /// Denotes a nonlinear (a.k.a. optimal) image.
    Nonlinear,
}

/// Whether memory is mapped into the host address space.
#[derive(Clone, Copy, Debug, PartialEq, Eq, Structural, Hash)]
pub enum MemoryMapping {
    Unmapped,
    Mapped,
}

impl MemoryMapping {
    pub fn memory_property_flags(self) -> (r: u32)
        ensures
            r == match self {
                MemoryMapping::Mapped => MEMORY_HOST_VISIBLE | MEMORY_HOST_COHERENT,
                MemoryMapping::Unmapped => MEMORY_DEVICE_LOCAL,
            },
    {
        match self {
            MemoryMapping::Mapped => visible_coherent_flags(),
            MemoryMapping::Unmapped => MEMORY_DEVICE_LOCAL,
        }
    }

    /// Extra usage needed by buffers in memory of this kind: unmapped
    /// buffers are filled by transfers.
    pub fn usage(self) -> (r: u32)
        ensures
            r == if self == MemoryMapping::Unmapped {
                USAGE_TRANSFER_DST
            } else {
                0
            },
    {
        match self {
            MemoryMapping::Unmapped => USAGE_TRANSFER_DST,
            MemoryMapping::Mapped => 0,
        }
    }

    pub fn mapped(self) -> (r: bool)
        ensures
            r == (self == MemoryMapping::Mapped),
    {
        match self {
            MemoryMapping::Mapped => true,
            MemoryMapping::Unmapped => false,
        }
    }
}

/// A block handed out by a pool, and the size of the chunk that the pool
/// had to reserve for it, if any. A reserved chunk must be backed by
/// device memory of that size before the block is used.
#[derive(Clone, Copy, Debug, PartialEq, Eq, Structural)]
pub struct PoolAllocation {
    pub block: Block,
    pub new_chunk: Option<u64>,
}

proof fn lemma_align_up_aligned(alignment: int, x: int)
    by (nonlinear_arith)
    requires
        alignment > 0,
        x >= 0,
        x % alignment == 0,
    ensures
        align_up(alignment, x) == x,
{
    let q = x / alignment;
    assert(x == q * alignment);
    assert((x + alignment - 1) / alignment == q);
}

/// What suballocating `size` bytes aligned to `alignment` did to an
/// allocator that grows in chunks of `chunk_size`: when a free block fits,
/// the first fitting one gave the block; otherwise a chunk of the chunk
/// size rounded up to the request was added (and must be backed by memory
/// of that size) and the block placed in it.
pub open spec fn grow_alloc_effect(
    before: FreeListAllocator,
    after: FreeListAllocator,
    size: int,
    alignment: int,
    chunk_size: int,
    r: PoolAllocation,
) -> bool {
    let s = before.free_blocks();
    &&& r.block.end - r.block.start == size
    &&& after.used_bytes() == before.used_bytes() + size
    &&& if some_fit(s, size, alignment) {
        &&& r.new_chunk is None
        &&& alloc_outcome(s, size, alignment, r.block, after.free_blocks())
        &&& after.chunk_sizes() == before.chunk_sizes()
        &&& after.reserved_bytes() == before.reserved_bytes()
    } else {
        let csize = align_up(chunk_size, size);
        let grown = s.push(Block { chunk: before.chunk_sizes().len() as u32, start: 0, end: csize as u64 });
        &&& r.new_chunk == Some(csize as u64)
        &&& alloc_outcome(grown, size, alignment, r.block, after.free_blocks())
        &&& after.chunk_sizes() == before.chunk_sizes().push(csize as u64)
        &&& after.reserved_bytes() == before.reserved_bytes() + csize
    }
}

/// The alignment a pool uses for a request aligned to `alignment`.
pub open spec fn pool_alignment(alignment: u64) -> int {
    if alignment > MIN_ALIGNMENT {
        alignment as int
    } else {
        MIN_ALIGNMENT as int
    }
}

/// A pool raises a request's alignment to the minimum alignment and no
/// further: it uses the larger of the two.
pub proof fn law_pool_alignment_is_larger(alignment: u64)
    ensures
        pool_alignment(alignment) >= alignment,
        pool_alignment(alignment) >= 32,
        pool_alignment(alignment) == alignment || pool_alignment(alignment) == 32,
{
}

proof fn lemma_multiple_of_divisor(x: int, a: int, b: int)
    by (nonlinear_arith)
    requires
        a > 0,
        b > 0,
        x % a == 0,
        a % b == 0,
    ensures
        x % b == 0,
{
    let p = x / a;
    let q = a / b;
    assert(x == p * a);
    assert(a == q * b);
    assert(x == (p * q) * b);
}

/// Every block a pool hands out for a request aligned to `alignment`
/// starts at a multiple of `alignment`, for any alignment that divides
/// the minimum alignment or exceeds it (every power of two): whether an
/// existing free block or a new chunk holds it.
pub proof fn law_pool_block_aligned(
    before: FreeListAllocator,
    after: FreeListAllocator,
    size: u64,
    alignment: u64,
    r: PoolAllocation,
)
    requires
        alignment > 0,
        alignment > 32 || 32u64 % alignment == 0,
        grow_alloc_effect(
            before,
            after,
            align_up(pool_alignment(alignment), size as int),
            pool_alignment(alignment),
            CHUNK_SIZE as int,
            r,
        ),
    ensures
        r.block.start % alignment == 0,
{
    let pa = pool_alignment(alignment);
    let sz = align_up(pa, size as int);
    let s = before.free_blocks();
    let free = if some_fit(s, sz, pa) {
        s
    } else {
        let csize = align_up(CHUNK_SIZE as int, sz);
        s.push(Block { chunk: before.chunk_sizes().len() as u32, start: 0, end: csize as u64 })
    };
    assert(alloc_outcome(free, sz, pa, r.block, after.free_blocks()));
    let i = choose|i: int| is_first_fit(free, sz, pa, i) && r.block == placed(free[i], sz, pa) && after.free_blocks()
        == carve(free, i, r.block.start, r.block.end);
    lemma_align_up(pa, free[i].start as int);
    lemma_align_up(pa, size as int);
    let start = align_up(pa, free[i].start as int);
    assert(start + sz <= free[i].end);
    assert(r.block.start == start);
    if pa == alignment {
    } else {
        assert(pa == 32);
        lemma_multiple_of_divisor(start, pa, alignment as int);
    }
}

/// Suballocation from `allocator` that reserves a new chunk when no free
/// block fits: the request (already rounded to `alignment`) is tried
/// first fit, and on failure a chunk of `chunk_size` rounded up to the
/// request is added and the request placed in it.
pub(crate) fn allocate_or_grow(
    allocator: &mut FreeListAllocator,
    size: u64,
    alignment: u64,
    chunk_size: u64,
) -> (r: PoolAllocation)
    requires
        old(allocator).wf(),
        alignment > 0,
        size > 0,
        chunk_size > 0,
        size % alignment == 0,
        old(allocator).reserved_bytes() + 2 * size + 2 * alignment + chunk_size <= u64::MAX,
        old(allocator).chunk_sizes().len() <= u32::MAX,
    ensures
        final(allocator).wf(),
        grow_alloc_effect(*old(allocator), *final(allocator), size as int, alignment as int, chunk_size as int, r),
{
    proof {
        lemma_align_up_aligned(alignment as int, size as int);
    }
    let first = allocator.allocate(size, alignment);
    match first {
        Some(block) => {
            proof {
                let s = old(allocator).free_blocks();
                let i = choose|i: int|
                    #![trigger is_first_fit(s, size as int, alignment as int, i)]
                    is_first_fit(s, size as int, alignment as int, i) && block == placed(s[i], size as int, alignment as int)
                        && allocator.free_blocks() == carve(s, i, block.start, block.end);
                assert(is_first_fit(s, size as int, alignment as int, i));
            }
            PoolAllocation { block, new_chunk: None }
        },
        None => {
            let csize = align(chunk_size, size);
            proof {
                lemma_align_up(chunk_size as int, size as int);
            }
            let ghost before = allocator.free_blocks();
            allocator.add_chunk(csize);
            proof {
                let s = allocator.free_blocks();
                let last = s.len() - 1;
                lemma_align_up(alignment as int, 0);
                assert(align_up(alignment as int, 0) == 0) by (nonlinear_arith)
                    requires
                        alignment > 0,
                {}
                assert(fits(s[last], size as int, alignment as int));
            }
            let block = allocator.allocate(size, alignment).unwrap();
            PoolAllocation { block, new_chunk: Some(csize) }
        },
    }
}

/// Pool of device memory of one memory type and tiling, grown in chunks.
#[derive(Debug)]
pub struct HeapPool {
    type_index: u32,
    tiling: Tiling,
    allocator: FreeListAllocator,
}

impl HeapPool {
    pub closed spec fn wf(&self) -> bool {
        self.allocator.wf()
    }

    /// The pool's suballocator.
    pub closed spec fn allocator_state(&self) -> FreeListAllocator {
        self.allocator
    }

    pub closed spec fn type_index_spec(&self) -> u32 {
        self.type_index
    }

    pub closed spec fn tiling_spec(&self) -> Tiling {
        self.tiling
    }

    pub fn new(type_index: u32, tiling: Tiling) -> (r: Self)
        ensures
            r.wf(),
            r.type_index_spec() == type_index,
            r.tiling_spec() == tiling,
            r.allocator_state().reserved_bytes() == 0,
            r.allocator_state().used_bytes() == 0,
            r.allocator_state().chunk_sizes() == Seq::<u64>::empty(),
    {
        HeapPool { type_index, tiling, allocator: FreeListAllocator::new() }
    }

    pub fn type_index(&self) -> (r: u32)
        ensures
            r == self.type_index_spec(),
    {
        self.type_index
    }

    pub fn tiling(&self) -> (r: Tiling)
        ensures
            r == self.tiling_spec(),
    {
        self.tiling
    }

    /// A pool never uses more than it reserved.
    pub proof fn lemma_used_within_reserved(&self)
        requires
            self.wf(),
        ensures
            self.allocator_state().used_bytes() <= self.allocator_state().reserved_bytes(),
    {
        self.allocator.law_accounting();
    }

    /// Returns a tuple (used, reserved) of memory usage numbers.
    pub fn usage(&self) -> (r: (u64, u64))
        ensures
            r.0 == self.allocator_state().used_bytes(),
            r.1 == self.allocator_state().reserved_bytes(),
    {
        (self.allocator.used(), self.allocator.capacity())
    }

    /// Number of chunks the pool has reserved.
    pub fn chunk_count(&self) -> (r: usize)
        ensures
            r == self.allocator_state().chunk_sizes().len(),
    {
        self.allocator.chunk_count()
    }

    pub fn chunk_size(&self) -> (r: u64)
        ensures
            r == CHUNK_SIZE,
    {
        CHUNK_SIZE
    }

    pub fn min_alignment(&self) -> (r: u64)
        ensures
            r == MIN_ALIGNMENT,
    {
        MIN_ALIGNMENT
    }

    /// Suballocates `size` bytes aligned to `alignment` (raised to the
    /// minimum alignment; the size is rounded up to it). When no free
    /// block fits, a new chunk of the chunk size rounded up to the request
    /// is reserved, and the allocation always succeeds.
    pub fn allocate(&mut self, size: u64, alignment: u64) -> (r: PoolAllocation)
        requires
            old(self).wf(),
            size > 0,
            old(self).allocator_state().reserved_bytes() + 2 * size + 4 * alignment + CHUNK_SIZE + 128
                <= u64::MAX,
            old(self).allocator_state().chunk_sizes().len() <= u32::MAX,
        ensures
            final(self).wf(),
            final(self).type_index_spec() == old(self).type_index_spec(),
            final(self).tiling_spec() == old(self).tiling_spec(),
            grow_alloc_effect(
                old(self).allocator_state(),
                final(self).allocator_state(),
                align_up(pool_alignment(alignment), size as int),
                pool_alignment(alignment),
                CHUNK_SIZE as int,
                r,
            ),
            alignment > 0 && (alignment > 32 || 32u64 % alignment == 0) ==> r.block.start % alignment == 0,
    {
        let ghost requested = alignment;
        let ghost size_arg = size;
        let ghost before = self.allocator_state();
        let alignment = if MIN_ALIGNMENT > alignment {
            MIN_ALIGNMENT
        } else {
            alignment
        };
        let size = align(alignment, size);
        let r = allocate_or_grow(&mut self.allocator, size, alignment, CHUNK_SIZE);
        proof {
            if requested > 0 && (requested > 32 || 32u64 % requested == 0) {
                law_pool_block_aligned(before, self.allocator_state(), size_arg, requested, r);
            }
        }
        r
    }

    /// Returns a block to the pool.
    pub fn free(&mut self, block: Block)
        requires
            old(self).wf(),
            block_in_chunks(block, old(self).allocator_state().chunk_sizes()),
            block.end - block.start <= old(self).allocator_state().used_bytes(),
            free_accepts(old(self).allocator_state().free_blocks(), block),
        ensures
            final(self).wf(),
            final(self).type_index_spec() == old(self).type_index_spec(),
            final(self).tiling_spec() == old(self).tiling_spec(),
            final(self).allocator_state().used_bytes() == old(self).allocator_state().used_bytes() - (
            block.end - block.start),
            final(self).allocator_state().free_blocks() == release(
                old(self).allocator_state().free_blocks(),
                block,
            ),
            final(self).allocator_state().chunk_sizes() == old(self).allocator_state().chunk_sizes(),
    {
        self.allocator.free(block);
    }

    /// Invalidates existing allocations.
    pub fn clear(&mut self)
        requires
            old(self).wf(),
        ensures
            final(self).wf(),
            final(self).type_index_spec() == old(self).type_index_spec(),
            final(self).tiling_spec() == old(self).tiling_spec(),
            final(self).allocator_state().used_bytes() == 0,
            final(self).allocator_state().free_blocks() == whole_chunks(
                old(self).allocator_state().chunk_sizes(),
            ),
            final(self).allocator_state().chunk_sizes() == old(self).allocator_state().chunk_sizes(),
    {
        self.allocator.clear();
    }
}

} // verus!
