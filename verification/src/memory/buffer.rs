use vstd::prelude::*;

use super::block::{align, align_up, Block};
use super::free_list::{
    alloc_outcome, block_in_chunks, release, free_accepts, some_fit, whole_chunks, FreeListAllocator,
};
use super::pool::{
    grow_alloc_effect, MemoryMapping, PoolAllocation, CHUNK_SIZE, MEMORY_DEVICE_LOCAL, USAGE_INDEX_BUFFER,
    USAGE_STORAGE_BUFFER, USAGE_STORAGE_TEXEL_BUFFER, USAGE_TRANSFER_DST, USAGE_UNIFORM_BUFFER,
    USAGE_UNIFORM_TEXEL_BUFFER, USAGE_VERTEX_BUFFER,
};

verus! {

/// How a buffer is bound to shaders.
#[derive(Clone, Copy, Debug, PartialEq, Eq, Structural, Hash)]
pub enum BufferBinding {
    Storage,
    Uniform,
    StorageTexel,
    UniformTexel,
    Vertex,
    Index,
}

pub open spec fn binding_usage(binding: BufferBinding) -> u32 {
    match binding {
        BufferBinding::Storage => USAGE_STORAGE_BUFFER,
        BufferBinding::Uniform => USAGE_UNIFORM_BUFFER,
        BufferBinding::StorageTexel => USAGE_STORAGE_TEXEL_BUFFER,
        BufferBinding::UniformTexel => USAGE_UNIFORM_TEXEL_BUFFER,
        BufferBinding::Vertex => USAGE_VERTEX_BUFFER,
        BufferBinding::Index => USAGE_INDEX_BUFFER,
    }
}

/// Number of buffer bindings.
pub const BUFFER_BINDING_COUNT: usize = 6;

pub open spec fn binding_index(binding: BufferBinding) -> int {
    match binding {
        BufferBinding::Storage => 0,
        BufferBinding::Uniform => 1,
        BufferBinding::StorageTexel => 2,
        BufferBinding::UniformTexel => 3,
        BufferBinding::Vertex => 4,
        BufferBinding::Index => 5,
    }
}

pub open spec fn binding_at(i: int) -> BufferBinding {
    if i == 0 {
        BufferBinding::Storage
    } else if i == 1 {
        BufferBinding::Uniform
    } else if i == 2 {
        BufferBinding::StorageTexel
    } else if i == 3 {
        BufferBinding::UniformTexel
    } else if i == 4 {
        BufferBinding::Vertex
    } else {
        BufferBinding::Index
    }
}

impl BufferBinding {
    /// The binding's position among all bindings.
    pub fn index(self) -> (r: usize)
        ensures
            r == binding_index(self),
            r < BUFFER_BINDING_COUNT,
            binding_at(r as int) == self,
    {
        match self {
            BufferBinding::Storage => 0,
            BufferBinding::Uniform => 1,
            BufferBinding::StorageTexel => 2,
            BufferBinding::UniformTexel => 3,
            BufferBinding::Vertex => 4,
            BufferBinding::Index => 5,
        }
    }

    /// The binding at position `i`.
    pub fn from_index(i: usize) -> (r: BufferBinding)
        requires
            i < BUFFER_BINDING_COUNT,
        ensures
            r == binding_at(i as int),
            binding_index(r) == i,
    {
        if i == 0 {
            BufferBinding::Storage
        } else if i == 1 {
            BufferBinding::Uniform
        } else if i == 2 {
            BufferBinding::StorageTexel
        } else if i == 3 {
            BufferBinding::UniformTexel
        } else if i == 4 {
            BufferBinding::Vertex
        } else {
            BufferBinding::Index
        }
    }

    /// Vulkan buffer usage bit for this binding.
    pub fn usage(self) -> (r: u32)
        ensures
            r == binding_usage(self),
    {
        match self {
            BufferBinding::Storage => USAGE_STORAGE_BUFFER,
            BufferBinding::Uniform => USAGE_UNIFORM_BUFFER,
            BufferBinding::StorageTexel => USAGE_STORAGE_TEXEL_BUFFER,
            BufferBinding::UniformTexel => USAGE_UNIFORM_TEXEL_BUFFER,
            BufferBinding::Vertex => USAGE_VERTEX_BUFFER,
            BufferBinding::Index => USAGE_INDEX_BUFFER,
        }
    }
}

/// The device limits that buffer suballocation depends on.
#[derive(Clone, Copy, Debug, PartialEq, Eq, Structural)]
pub struct BufferLimits {
    pub min_storage_buffer_offset_alignment: u64,
    pub min_uniform_buffer_offset_alignment: u64,
    pub min_texel_buffer_offset_alignment: u64,
    pub max_uniform_buffer_range: u32,
    pub max_storage_buffer_range: u32,
}

pub open spec fn binding_alignment(limits: BufferLimits, binding: BufferBinding) -> u64 {
    match binding {
        BufferBinding::Storage => limits.min_storage_buffer_offset_alignment,
        BufferBinding::Uniform => limits.min_uniform_buffer_offset_alignment,
        BufferBinding::StorageTexel | BufferBinding::UniformTexel => limits.min_texel_buffer_offset_alignment,
        BufferBinding::Vertex | BufferBinding::Index => 1,
    }
}

/// A request of `size` bytes (after rounding) is within the range limit
/// of the binding; uniform and storage buffers have one.
pub open spec fn within_range(limits: BufferLimits, binding: BufferBinding, size: int) -> bool {
    match binding {
        BufferBinding::Uniform => size < limits.max_uniform_buffer_range,
        BufferBinding::Storage => size < limits.max_storage_buffer_range,
        _ => true,
    }
}

/// Whether the pools of `binding` accept a request of `size` bytes: it
/// is not empty and, rounded up to the binding's alignment, within the
/// binding's range limit.
pub fn request_in_range(limits: &BufferLimits, binding: BufferBinding, size: u64) -> (r: bool)
    requires
        binding_alignment(*limits, binding) > 0,
    ensures
        r == (size > 0 && within_range(
            *limits,
            binding,
            align_up(binding_alignment(*limits, binding) as int, size as int),
        )),
{
    if size == 0 {
        return false;
    }
    let alignment: u64 = match binding {
        BufferBinding::Storage => limits.min_storage_buffer_offset_alignment,
        BufferBinding::Uniform => limits.min_uniform_buffer_offset_alignment,
        BufferBinding::StorageTexel | BufferBinding::UniformTexel => limits.min_texel_buffer_offset_alignment,
        BufferBinding::Vertex | BufferBinding::Index => 1,
    };
    let al = alignment as u128;
    let n: u128 = size as u128 + al - 1;
    let q: u128 = n / al;
    assert(q * al <= n) by (nonlinear_arith)
        requires
            q == n / al,
            al > 0,
    ;
    let aligned: u128 = q * al;
    match binding {
        BufferBinding::Uniform => aligned < limits.max_uniform_buffer_range as u128,
        BufferBinding::Storage => aligned < limits.max_storage_buffer_range as u128,
        _ => true,
    }
}

/// Suballocator of one kind of buffer (binding and mapping), grown in
/// buffer-sized chunks.
#[derive(Debug)]
pub struct BufferPool {
    binding: BufferBinding,
    mapping: MemoryMapping,
    limits: BufferLimits,
    allocator: FreeListAllocator,
}

impl BufferPool {
    pub closed spec fn wf(&self) -> bool {
        &&& self.allocator.wf()
        &&& binding_alignment(self.limits, self.binding) > 0
    }

    pub closed spec fn allocator_state(&self) -> FreeListAllocator {
        self.allocator
    }

    pub closed spec fn binding_spec(&self) -> BufferBinding {
        self.binding
    }

    pub closed spec fn mapping_spec(&self) -> MemoryMapping {
        self.mapping
    }

    pub closed spec fn limits_spec(&self) -> BufferLimits {
        self.limits
    }

    pub fn new(binding: BufferBinding, mapping: MemoryMapping, limits: BufferLimits) -> (r: Self)
        requires
            binding_alignment(limits, binding) > 0,
        ensures
            r.wf(),
            r.binding_spec() == binding,
            r.mapping_spec() == mapping,
            r.limits_spec() == limits,
            r.allocator_state().reserved_bytes() == 0,
            r.allocator_state().used_bytes() == 0,
            r.allocator_state().chunk_sizes() == Seq::<u64>::empty(),
    {
        BufferPool { binding, mapping, limits, allocator: FreeListAllocator::new() }
    }

    pub fn used(&self) -> (r: u64)
        ensures
            r == self.allocator_state().used_bytes(),
    {
        self.allocator.used()
    }

    pub fn limits(&self) -> (r: BufferLimits)
        ensures
            r == self.limits_spec(),
    {
        self.limits
    }

    pub fn reserved(&self) -> (r: u64)
        ensures
            r == self.allocator_state().reserved_bytes(),
    {
        self.allocator.capacity()
    }

    /// Number of chunks the pool has reserved.
    pub fn chunk_count(&self) -> (r: usize)
        ensures
            r == self.allocator_state().chunk_sizes().len(),
    {
        self.allocator.chunk_count()
    }

    pub fn chunk_size(&self) -> (r: u64)
        ensures
            r == CHUNK_SIZE,
    {
        CHUNK_SIZE
    }

    pub fn binding(&self) -> (r: BufferBinding)
        ensures
            r == self.binding_spec(),
    {
        self.binding
    }

    pub fn mapping(&self) -> (r: MemoryMapping)
        ensures
            r == self.mapping_spec(),
    {
        self.mapping
    }

    pub fn mapped(&self) -> (r: bool)
        ensures
            r == (self.mapping_spec() == MemoryMapping::Mapped),
    {
        self.mapping.mapped()
    }

    /// Offset alignment that the device demands for this binding.
    pub fn alignment(&self) -> (r: u64)
        ensures
            r == binding_alignment(self.limits_spec(), self.binding_spec()),
    {
        match self.binding {
            BufferBinding::Storage => self.limits.min_storage_buffer_offset_alignment,
            BufferBinding::Uniform => self.limits.min_uniform_buffer_offset_alignment,
            BufferBinding::StorageTexel | BufferBinding::UniformTexel => self.limits.min_texel_buffer_offset_alignment,
            BufferBinding::Vertex | BufferBinding::Index => 1,
        }
    }

    /// Usage flags of the pool's buffers.
    pub fn usage(&self) -> (r: u32)
        ensures
            r == binding_usage(self.binding_spec()) | (if self.mapping_spec()
                == MemoryMapping::Unmapped {
                USAGE_TRANSFER_DST
            } else {
                0u32
            }),
    {
        self.binding.usage() | self.mapping.usage()
    }

    /// Reserves a chunk big enough for `min_size` bytes: the chunk size
    /// rounded up to a multiple of it. Returns the chunk's size, which
    /// must be backed by a buffer of that size.
    pub fn add_chunk(&mut self, min_size: u64) -> (r: u64)
        requires
            old(self).wf(),
            old(self).allocator_state().reserved_bytes() + min_size + CHUNK_SIZE <= u64::MAX,
            old(self).allocator_state().chunk_sizes().len() <= u32::MAX,
        ensures
            final(self).wf(),
            r == align_up(CHUNK_SIZE as int, min_size as int),
            final(self).binding_spec() == old(self).binding_spec(),
            final(self).mapping_spec() == old(self).mapping_spec(),
            final(self).limits_spec() == old(self).limits_spec(),
            final(self).allocator_state().chunk_sizes() == old(self).allocator_state().chunk_sizes().push(r),
            final(self).allocator_state().reserved_bytes() == old(self).allocator_state().reserved_bytes() + r,
            final(self).allocator_state().used_bytes() == old(self).allocator_state().used_bytes(),
            final(self).allocator_state().free_blocks() == old(self).allocator_state().free_blocks().push(
                Block { chunk: old(self).allocator_state().chunk_sizes().len() as u32, start: 0, end: r },
            ),
    {
        let size = align(CHUNK_SIZE, min_size);
        self.allocator.add_chunk(size);
        size
    }

    /// Suballocates `size` bytes rounded up to the binding's alignment.
    /// When no free block fits, a new chunk is reserved (see
    /// `PoolAllocation`), and the allocation always succeeds.
    pub fn allocate(&mut self, size: u64) -> (r: PoolAllocation)
        requires
            old(self).wf(),
            size > 0,
            within_range(
                old(self).limits_spec(),
                old(self).binding_spec(),
                align_up(
                    binding_alignment(old(self).limits_spec(), old(self).binding_spec()) as int,
                    size as int,
                ),
            ),
            old(self).allocator_state().reserved_bytes() + 2 * size + 4 * binding_alignment(
                old(self).limits_spec(),
                old(self).binding_spec(),
            ) + CHUNK_SIZE <= u64::MAX,
            old(self).allocator_state().chunk_sizes().len() <= u32::MAX,
        ensures
            final(self).wf(),
            final(self).binding_spec() == old(self).binding_spec(),
            final(self).mapping_spec() == old(self).mapping_spec(),
            final(self).limits_spec() == old(self).limits_spec(),
            grow_alloc_effect(
                old(self).allocator_state(),
                final(self).allocator_state(),
                align_up(binding_alignment(old(self).limits_spec(), old(self).binding_spec()) as int, size as int),
                binding_alignment(old(self).limits_spec(), old(self).binding_spec()) as int,
                CHUNK_SIZE as int,
                r,
            ),
    {
        let alignment = self.alignment();
        let size = align(alignment, size);
        super::pool::allocate_or_grow(&mut self.allocator, size, alignment, CHUNK_SIZE)
    }

    /// Returns a block to the pool.
    pub fn free(&mut self, block: Block)
        requires
            old(self).wf(),
            block_in_chunks(block, old(self).allocator_state().chunk_sizes()),
            block.end - block.start <= old(self).allocator_state().used_bytes(),
            free_accepts(old(self).allocator_state().free_blocks(), block),
        ensures
            final(self).wf(),
            final(self).binding_spec() == old(self).binding_spec(),
            final(self).mapping_spec() == old(self).mapping_spec(),
            final(self).limits_spec() == old(self).limits_spec(),
            final(self).allocator_state().used_bytes() == old(self).allocator_state().used_bytes() - (
            block.end - block.start),
            final(self).allocator_state().free_blocks() == release(
                old(self).allocator_state().free_blocks(),
                block,
            ),
            final(self).allocator_state().chunk_sizes() == old(self).allocator_state().chunk_sizes(),
    {
        self.allocator.free(block);
    }

    /// Invalidates existing allocations.
    pub fn clear(&mut self)
        requires
            old(self).wf(),
        ensures
            final(self).wf(),
            final(self).binding_spec() == old(self).binding_spec(),
            final(self).mapping_spec() == old(self).mapping_spec(),
            final(self).limits_spec() == old(self).limits_spec(),
            final(self).allocator_state().used_bytes() == 0,
            final(self).allocator_state().free_blocks() == whole_chunks(old(self).allocator_state().chunk_sizes()),
            final(self).allocator_state().chunk_sizes() == old(self).allocator_state().chunk_sizes(),
            final(self).allocator_state().reserved_bytes() == old(self).allocator_state().reserved_bytes(),
    {
        self.allocator.clear();
    }
}

/// The pools of one buffer binding: a memory mapped pool, which is the
/// only one on unified memory, and an unmapped device-local pool on
/// discrete systems.
#[derive(Debug)]
pub struct BufferHeapEntry {
    binding: BufferBinding,
    mapped_pool: BufferPool,
    unmapped_pool: Option<BufferPool>,
}

impl BufferHeapEntry {
    pub closed spec fn wf(&self) -> bool {
        &&& self.mapped_pool.wf()
        &&& self.mapped_pool.binding_spec() == self.binding
        &&& self.mapped_pool.mapping_spec() == MemoryMapping::Mapped
        &&& self.unmapped_pool matches Some(p) ==> p.wf() && p.binding_spec() == self.binding
            && p.mapping_spec() == MemoryMapping::Unmapped
    }

    pub closed spec fn binding_spec(&self) -> BufferBinding {
        self.binding
    }

    pub closed spec fn has_unmapped_pool(&self) -> bool {
        self.unmapped_pool is Some
    }

    pub fn binding(&self) -> (r: BufferBinding)
        ensures
            r == self.binding_spec(),
    {
        self.binding
    }

    /// Creates the pools of `binding`. The mapped pool gets one chunk up
    /// front; `chunk_memory_flags` are the property flags of the memory
    /// that backs that chunk. The unmapped pool is made when that memory
    /// is device local.
    pub fn new(binding: BufferBinding, limits: BufferLimits, chunk_memory_flags: u32) -> (r: Self)
        requires
            binding_alignment(limits, binding) > 0,
        ensures
            r.wf(),
            r.binding_spec() == binding,
            r.has_unmapped_pool() == (chunk_memory_flags & MEMORY_DEVICE_LOCAL == MEMORY_DEVICE_LOCAL),
    {
        let mut mapped_pool = BufferPool::new(binding, MemoryMapping::Mapped, limits);
        // Pre-allocate a chunk of memory to infer if we're on UMA.
        mapped_pool.add_chunk(1);
        let unmapped_pool = if chunk_memory_flags & MEMORY_DEVICE_LOCAL == MEMORY_DEVICE_LOCAL {
            Some(BufferPool::new(binding, MemoryMapping::Unmapped, limits))
        } else {
            None
        };
        BufferHeapEntry { binding, mapped_pool, unmapped_pool }
    }

    pub closed spec fn mapped_spec(&self) -> BufferPool {
        self.mapped_pool
    }

    pub closed spec fn unmapped_spec(&self) -> Option<BufferPool> {
        self.unmapped_pool
    }

    /// Whether requests for `mapping` go to the unmapped pool: unmapped
    /// memory is asked for and the pool exists.
    pub open spec fn serves_unmapped(&self, mapping: MemoryMapping) -> bool {
        mapping == MemoryMapping::Unmapped && self.unmapped_spec() is Some
    }

    /// The pool serving requests for `mapping`.
    pub open spec fn serving(&self, mapping: MemoryMapping) -> BufferPool {
        if self.serves_unmapped(mapping) {
            self.unmapped_spec()->0
        } else {
            self.mapped_spec()
        }
    }

    /// The pool serving requests for `mapping`.
    pub fn pool(&self, mapping: MemoryMapping) -> (r: &BufferPool)
        requires
            self.wf(),
        ensures
            *r == self.serving(mapping),
    {
        match &self.unmapped_pool {
            Some(pool) => {
                if mapping == MemoryMapping::Unmapped {
                    return pool;
                }
            },
            None => {},
        }
        &self.mapped_pool
    }

    /// The pool serving requests for `mapping`: the unmapped pool when
    /// unmapped memory is asked for and the pool exists, else the mapped
    /// pool.
    pub fn pool_mut(&mut self, mapping: MemoryMapping) -> (r: &mut BufferPool)
        requires
            old(self).wf(),
        ensures
            *r == old(self).serving(mapping),
            r.wf(),
            r.mapping_spec() == if old(self).serves_unmapped(mapping) {
                MemoryMapping::Unmapped
            } else {
                MemoryMapping::Mapped
            },
            r.binding_spec() == old(self).binding_spec(),
            final(self).binding_spec() == old(self).binding_spec(),
            old(self).serves_unmapped(mapping) ==> final(self).unmapped_spec() == Some(*final(r))
                && final(self).mapped_spec() == old(self).mapped_spec(),
            !old(self).serves_unmapped(mapping) ==> final(self).mapped_spec() == *final(r)
                && final(self).unmapped_spec() == old(self).unmapped_spec(),
    {
        match self.unmapped_pool {
            Some(ref mut pool) => {
                if mapping == MemoryMapping::Unmapped {
                    return pool;
                }
            },
            None => {},
        }
        &mut self.mapped_pool
    }

    /// Suballocates `size` bytes from the pool serving `mapping`.
    pub fn allocate(&mut self, mapping: MemoryMapping, size: u64) -> (r: PoolAllocation)
        requires
            old(self).wf(),
            size > 0,
            within_range(
                old(self).serving(mapping).limits_spec(),
                old(self).binding_spec(),
                align_up(
                    binding_alignment(old(self).serving(mapping).limits_spec(), old(self).binding_spec()) as int,
                    size as int,
                ),
            ),
            old(self).serving(mapping).allocator_state().reserved_bytes() + 2 * size + 4 * binding_alignment(
                old(self).serving(mapping).limits_spec(),
                old(self).binding_spec(),
            ) + CHUNK_SIZE <= u64::MAX,
            old(self).serving(mapping).allocator_state().chunk_sizes().len() <= u32::MAX,
        ensures
            final(self).wf(),
            final(self).binding_spec() == old(self).binding_spec(),
            final(self).serves_unmapped(mapping) == old(self).serves_unmapped(mapping),
            grow_alloc_effect(
                old(self).serving(mapping).allocator_state(),
                final(self).serving(mapping).allocator_state(),
                align_up(
                    binding_alignment(old(self).serving(mapping).limits_spec(), old(self).binding_spec()) as int,
                    size as int,
                ),
                binding_alignment(old(self).serving(mapping).limits_spec(), old(self).binding_spec()) as int,
                CHUNK_SIZE as int,
                r,
            ),
    {
        let pool = self.pool_mut(mapping);
        pool.allocate(size)
    }

    /// Returns `block` to the pool serving `mapping`, which handed it out.
    pub fn free(&mut self, mapping: MemoryMapping, block: Block)
        requires
            old(self).wf(),
            block_in_chunks(block, old(self).serving(mapping).allocator_state().chunk_sizes()),
            block.end - block.start <= old(self).serving(mapping).allocator_state().used_bytes(),
            free_accepts(old(self).serving(mapping).allocator_state().free_blocks(), block),
        ensures
            final(self).wf(),
            final(self).binding_spec() == old(self).binding_spec(),
            final(self).serves_unmapped(mapping) == old(self).serves_unmapped(mapping),
            final(self).serving(mapping).allocator_state().used_bytes() == old(self).serving(
                mapping,
            ).allocator_state().used_bytes() - (block.end - block.start),
            final(self).serving(mapping).allocator_state().free_blocks() == release(
                old(self).serving(mapping).allocator_state().free_blocks(),
                block,
            ),
    {
        let pool = self.pool_mut(mapping);
        pool.free(block);
    }
}

/// Buffer memory for every binding.
#[derive(Debug)]
pub struct BufferHeap {
    entries: Vec<BufferHeapEntry>,
}

/// Every binding has a positive offset alignment.
pub open spec fn limits_usable(limits: BufferLimits) -> bool {
    forall|b: BufferBinding| binding_alignment(limits, b) > 0
}

impl BufferHeap {
    /// The entries, by binding position.
    pub closed spec fn entries_spec(&self) -> Seq<BufferHeapEntry> {
        self.entries@
    }

    pub closed spec fn wf(&self) -> bool {
        &&& self.entries@.len() == BUFFER_BINDING_COUNT
        &&& forall|i: int|
            0 <= i < BUFFER_BINDING_COUNT ==> (#[trigger] self.entries@[i]).wf() && self.entries@[i].binding_spec()
                == binding_at(i)
    }

    /// The entries of all bindings; `chunk_memory_flags[i]` are the
    /// property flags of the memory behind the first chunk of the binding
    /// at position `i`.
    pub fn new(limits: BufferLimits, chunk_memory_flags: &[u32]) -> (r: Self)
        requires
            limits_usable(limits),
            chunk_memory_flags@.len() == BUFFER_BINDING_COUNT,
        ensures
            r.wf(),
            forall|i: int|
                0 <= i < BUFFER_BINDING_COUNT ==> (#[trigger] r.entries_spec()[i]).has_unmapped_pool() == (
                chunk_memory_flags@[i] & MEMORY_DEVICE_LOCAL == MEMORY_DEVICE_LOCAL),
    {
        let mut entries: Vec<BufferHeapEntry> = Vec::new();
        let mut i: usize = 0;
        while i < BUFFER_BINDING_COUNT
            invariant
                i <= BUFFER_BINDING_COUNT,
                limits_usable(limits),
                chunk_memory_flags@.len() == BUFFER_BINDING_COUNT,
                entries@.len() == i,
                forall|j: int|
                    0 <= j < i ==> {
                        &&& (#[trigger] entries@[j]).wf()
                        &&& entries@[j].binding_spec() == binding_at(j)
                        &&& entries@[j].has_unmapped_pool() == (chunk_memory_flags@[j] & MEMORY_DEVICE_LOCAL
                            == MEMORY_DEVICE_LOCAL)
                    },
            decreases BUFFER_BINDING_COUNT - i,
        {
            let binding = BufferBinding::from_index(i);
            proof {
                assert(binding_alignment(limits, binding) > 0);
            }
            entries.push(BufferHeapEntry::new(binding, limits, chunk_memory_flags[i]));
            i = i + 1;
        }
        BufferHeap { entries }
    }

    /// The pools of `binding`.
    pub fn entry(&self, binding: BufferBinding) -> (r: &BufferHeapEntry)
        requires
            self.wf(),
        ensures
            *r == self.entries_spec()[binding_index(binding)],
            r.wf(),
            r.binding_spec() == binding,
    {
        &self.entries[binding.index()]
    }

    /// Whether the pool of `binding` serving `mapping` can take a request
    /// of `size` bytes: it is in range, and the pool's reserved bytes and
    /// chunk count leave room for the chunk it may add.
    pub fn has_headroom(&self, binding: BufferBinding, mapping: MemoryMapping, size: u64) -> (r: bool)
        requires
            self.wf(),
        ensures
            r == ({
                let p = self.entries_spec()[binding_index(binding)].serving(mapping);
                let al = binding_alignment(p.limits_spec(), binding);
                &&& size > 0
                &&& within_range(p.limits_spec(), binding, align_up(al as int, size as int))
                &&& p.allocator_state().reserved_bytes() + 2 * size + 4 * al + CHUNK_SIZE <= u64::MAX
                &&& p.allocator_state().chunk_sizes().len() <= u32::MAX
            }),
    {
        let entry = self.entry(binding);
        let pool = entry.pool(mapping);
        proof {
            assert(pool.wf());
        }
        let limits = pool.limits();
        if !request_in_range(&limits, binding, size) {
            return false;
        }
        let al = pool.alignment() as u128;
        let room = (pool.reserved() as u128) + 2 * (size as u128) + 4 * al + (CHUNK_SIZE as u128);
        room <= u64::MAX as u128 && pool.chunk_count() as u128 <= u32::MAX as u128
    }

    /// Suballocates `size` bytes of buffer memory for `binding` from the
    /// pool serving `mapping`.
    pub fn allocate(&mut self, binding: BufferBinding, mapping: MemoryMapping, size: u64) -> (r: PoolAllocation)
        requires
            old(self).wf(),
            size > 0,
            ({
                let p = old(self).entries_spec()[binding_index(binding)].serving(mapping);
                let al = binding_alignment(p.limits_spec(), binding);
                &&& within_range(p.limits_spec(), binding, align_up(al as int, size as int))
                &&& p.allocator_state().reserved_bytes() + 2 * size + 4 * al + CHUNK_SIZE <= u64::MAX
                &&& p.allocator_state().chunk_sizes().len() <= u32::MAX
            }),
        ensures
            final(self).wf(),
            ({
                let i = binding_index(binding);
                let before = old(self).entries_spec()[i];
                let after = final(self).entries_spec()[i];
                let al = binding_alignment(before.serving(mapping).limits_spec(), binding);
                &&& after.serves_unmapped(mapping) == before.serves_unmapped(mapping)
                &&& grow_alloc_effect(
                    before.serving(mapping).allocator_state(),
                    after.serving(mapping).allocator_state(),
                    align_up(al as int, size as int),
                    al as int,
                    CHUNK_SIZE as int,
                    r,
                )
            }),
            forall|j: int|
                #![trigger final(self).entries_spec()[j]]
                0 <= j < BUFFER_BINDING_COUNT && j != binding_index(binding) ==> final(self).entries_spec()[j]
                    == old(self).entries_spec()[j],
    {
        let i = binding.index();
        let ghost old_entries = self.entries@;
        proof {
            assert(old(self).entries_spec()[i as int] == old_entries[i as int]);
        }
        let mut entry = self.entries.remove(i);
        proof {
            assert(entry == old_entries[i as int]);
        }
        let r = entry.allocate(mapping, size);
        self.entries.insert(i, entry);
        proof {
            assert forall|j: int| 0 <= j < BUFFER_BINDING_COUNT implies (#[trigger] self.entries@[j]).wf()
                && self.entries@[j].binding_spec() == binding_at(j) by {
                if j != i {
                    assert(self.entries@[j] == old_entries[j]);
                }
            }
        }
        r
    }

    /// Returns `block` to the pool of `binding` serving `mapping`, which
    /// handed it out.
    pub fn free(&mut self, binding: BufferBinding, mapping: MemoryMapping, block: Block)
        requires
            old(self).wf(),
            ({
                let a = old(self).entries_spec()[binding_index(binding)].serving(mapping).allocator_state();
                &&& block_in_chunks(block, a.chunk_sizes())
                &&& block.end - block.start <= a.used_bytes()
                &&& free_accepts(a.free_blocks(), block)
            }),
        ensures
            final(self).wf(),
            ({
                let i = binding_index(binding);
                let before = old(self).entries_spec()[i].serving(mapping).allocator_state();
                let after = final(self).entries_spec()[i].serving(mapping).allocator_state();
                &&& after.used_bytes() == before.used_bytes() - (block.end - block.start)
                &&& after.free_blocks() == release(before.free_blocks(), block)
            }),
            forall|j: int|
                #![trigger final(self).entries_spec()[j]]
                0 <= j < BUFFER_BINDING_COUNT && j != binding_index(binding) ==> final(self).entries_spec()[j]
                    == old(self).entries_spec()[j],
    {
        let i = binding.index();
        let ghost old_entries = self.entries@;
        proof {
            assert(old(self).entries_spec()[i as int] == old_entries[i as int]);
        }
        let mut entry = self.entries.remove(i);
        proof {
            assert(entry == old_entries[i as int]);
        }
        entry.free(mapping, block);
        self.entries.insert(i, entry);
        proof {
            assert forall|j: int| 0 <= j < BUFFER_BINDING_COUNT implies (#[trigger] self.entries@[j]).wf()
                && self.entries@[j].binding_spec() == binding_at(j) by {
                if j != i {
                    assert(self.entries@[j] == old_entries[j]);
                }
            }
        }
    }
}

} // verus!
