use gfx::memory::block::{align, Block};
use gfx::memory::buffer::{request_in_range, BufferBinding, BufferHeap, BufferHeapEntry, BufferLimits, BufferPool};
use gfx::memory::free_list::FreeListAllocator;
use gfx::memory::heap::{DeviceHeap, HeapInfo};
use gfx::memory::pool::{
    compatible_type, find_memory_type, visible_coherent_flags, HeapPool, MemoryMapping, MemoryType,
    Tiling, CHUNK_SIZE, MEMORY_DEVICE_LOCAL, MEMORY_HOST_COHERENT, MEMORY_HOST_VISIBLE, MIN_ALIGNMENT,
};

fn blk(chunk: u32, start: u64, end: u64) -> Block {
    Block { chunk, start, end }
}

#[test]
fn align_rounds_up_to_multiple() {
    assert_eq!(align(16, 0), 0);
    assert_eq!(align(16, 1), 16);
    assert_eq!(align(16, 16), 16);
    assert_eq!(align(16, 17), 32);
    assert_eq!(align(3, 7), 9);
    assert_eq!(align(1, 12345), 12345);
}

#[test]
fn block_size_and_offset() {
    let b = blk(2, 32, 96);
    assert_eq!(b.offset(), 32);
    assert_eq!(b.size(), 64);
    assert!(!b.is_empty());
    assert!(blk(0, 5, 5).is_empty());
}

#[test]
fn free_list_allocates_first_fit_from_chunk_start() {
    let mut a = FreeListAllocator::new();
    assert_eq!(a.used(), 0);
    assert_eq!(a.capacity(), 0);
    a.add_chunk(1024);
    assert_eq!(a.capacity(), 1024);

    assert_eq!(a.allocate(16, 1), Some(blk(0, 0, 16)));
    assert_eq!(a.used(), 16);
    assert_eq!(a.allocate(16, 1), Some(blk(0, 16, 32)));
    assert_eq!(a.used(), 32);

    // Cannot allocate past the end of the chunk.
    assert_eq!(a.allocate(1000, 1), None);
    assert_eq!(a.used(), 32);
    assert_eq!(a.capacity(), 1024);

    // Can allocate up to the end of the chunk.
    assert_eq!(a.allocate(992, 1), Some(blk(0, 32, 1024)));
    assert_eq!(a.used(), 1024);
    assert_eq!(a.allocate(8, 1), None);
}

#[test]
fn free_list_respects_alignment() {
    let mut a = FreeListAllocator::new();
    a.add_chunk(256);
    assert_eq!(a.allocate(10, 1), Some(blk(0, 0, 10)));
    // The next block starts at the next multiple of 64, and its size is
    // rounded up to the alignment.
    assert_eq!(a.allocate(8, 64), Some(blk(0, 64, 128)));
    assert_eq!(a.used(), 74);
    // The gap before the aligned block stays free and is used first.
    assert_eq!(a.allocate(20, 1), Some(blk(0, 10, 30)));
}

#[test]
fn free_list_uses_later_chunks_when_earlier_are_full() {
    let mut a = FreeListAllocator::new();
    a.add_chunk(100);
    a.add_chunk(200);
    assert_eq!(a.capacity(), 300);
    assert_eq!(a.allocate(150, 1), Some(blk(1, 0, 150)));
    assert_eq!(a.allocate(100, 1), Some(blk(0, 0, 100)));
    assert_eq!(a.allocate(60, 1), None);
    assert_eq!(a.allocate(50, 1), Some(blk(1, 150, 200)));
    assert_eq!(a.used(), 300);
}

#[test]
fn free_list_free_then_reallocate_same_block() {
    let mut a = FreeListAllocator::new();
    a.add_chunk(1024);
    let b0 = a.allocate(64, 16).unwrap();
    let b1 = a.allocate(64, 16).unwrap();
    assert_eq!(b0, blk(0, 0, 64));
    assert_eq!(b1, blk(0, 64, 128));
    a.free(b0);
    assert_eq!(a.used(), 64);
    // The freed block is the first fit again.
    assert_eq!(a.allocate(64, 16), Some(b0));
    a.free(b1);
    a.free(b0);
    assert_eq!(a.used(), 0);
    // Everything merged back: the whole chunk is one block.
    assert_eq!(a.allocate(1024, 1), Some(blk(0, 0, 1024)));
}

#[test]
fn free_list_free_merges_neighbours() {
    let mut a = FreeListAllocator::new();
    a.add_chunk(300);
    let b0 = a.allocate(100, 1).unwrap();
    let b1 = a.allocate(100, 1).unwrap();
    let b2 = a.allocate(100, 1).unwrap();
    a.free(b0);
    a.free(b2);
    assert_eq!(a.used(), 100);
    // Freeing the middle block joins all three.
    a.free(b1);
    assert_eq!(a.used(), 0);
    assert_eq!(a.allocate(300, 1), Some(blk(0, 0, 300)));
}

#[test]
fn free_list_free_in_earlier_chunk_keeps_address_order() {
    let mut a = FreeListAllocator::new();
    a.add_chunk(256);
    a.add_chunk(256);
    let b = a.allocate(256, 1).unwrap();
    assert_eq!(b, blk(0, 0, 256));
    assert_eq!(a.free_list(), &[blk(1, 0, 256)][..]);
    // The block of chunk 0 goes back in front of chunk 1's block.
    a.free(b);
    assert_eq!(a.free_list(), &[blk(0, 0, 256), blk(1, 0, 256)][..]);
    assert_eq!(a.used(), 0);
    // A block in the middle of an earlier chunk, with a later chunk free.
    let x = a.allocate(100, 1).unwrap();
    let y = a.allocate(100, 1).unwrap();
    assert_eq!(a.free_list(), &[blk(0, 200, 256), blk(1, 0, 256)][..]);
    a.free(x);
    assert_eq!(a.free_list(), &[blk(0, 0, 100), blk(0, 200, 256), blk(1, 0, 256)][..]);
    a.free(y);
    assert_eq!(a.free_list(), &[blk(0, 0, 256), blk(1, 0, 256)][..]);
}

#[test]
fn free_list_alloc_in_and_carve_block() {
    let mut a = FreeListAllocator::new();
    a.add_chunk(128);
    a.add_chunk(128);
    // Allocate in the second free block (chunk 1) directly.
    assert_eq!(a.alloc_in(1, 32, 32), Some(blk(1, 0, 32)));
    assert_eq!(a.used(), 32);
    // A request too large for the block fails without change.
    assert_eq!(a.alloc_in(0, 200, 1), None);
    assert_eq!(a.used(), 32);
    // Carve the middle of chunk 0.
    a.carve_block(0, 40..60);
    assert_eq!(a.used(), 52);
    assert_eq!(a.allocate(40, 1), Some(blk(0, 0, 40)));
    assert_eq!(a.allocate(60, 1), Some(blk(0, 60, 120)));
}

#[test]
fn free_list_clear_frees_everything() {
    let mut a = FreeListAllocator::new();
    a.add_chunk(64);
    a.add_chunk(64);
    a.allocate(64, 1).unwrap();
    a.allocate(10, 1).unwrap();
    a.clear();
    assert_eq!(a.used(), 0);
    assert_eq!(a.capacity(), 128);
    assert_eq!(a.allocate(64, 1), Some(blk(0, 0, 64)));
    assert_eq!(a.allocate(64, 1), Some(blk(1, 0, 64)));
}

#[test]
fn law_alloc_then_free_restores_usage() {
    let mut a = FreeListAllocator::new();
    a.add_chunk(4096);
    let before = a.used();
    let b = a.allocate(100, 64).unwrap();
    assert_eq!(a.used(), before + b.size());
    a.free(b);
    assert_eq!(a.used(), before);
    assert_eq!(a.allocate(4096, 1), Some(blk(0, 0, 4096)));
}

#[test]
fn law_accounting_used_plus_free_is_capacity() {
    let mut a = FreeListAllocator::new();
    a.add_chunk(500);
    a.add_chunk(700);
    a.allocate(123, 1).unwrap();
    a.allocate(456, 1).unwrap();
    let used = a.used();
    // What remains free is exactly capacity - used: taking it all works.
    let mut remaining = a.capacity() - used;
    while let Some(b) = a.allocate(1, 1) {
        assert!(remaining > 0);
        remaining -= b.size();
    }
    assert_eq!(remaining, 0);
    assert_eq!(a.used(), a.capacity());
}

#[test]
fn memory_type_compatibility_and_search() {
    assert!(compatible_type(0b101, 0));
    assert!(!compatible_type(0b101, 1));
    assert!(compatible_type(0b101, 2));
    let types = [
        MemoryType { property_flags: MEMORY_DEVICE_LOCAL, heap_index: 0 },
        MemoryType { property_flags: MEMORY_HOST_VISIBLE | MEMORY_HOST_COHERENT, heap_index: 1 },
        MemoryType { property_flags: MEMORY_DEVICE_LOCAL | MEMORY_HOST_VISIBLE | MEMORY_HOST_COHERENT, heap_index: 0 },
    ];
    assert_eq!(find_memory_type(&types, MEMORY_DEVICE_LOCAL, !0), Some(0));
    assert_eq!(find_memory_type(&types, visible_coherent_flags(), !0), Some(1));
    // Type 1 is excluded by the mask, so the next match is found.
    assert_eq!(find_memory_type(&types, visible_coherent_flags(), 0b100), Some(2));
    assert_eq!(find_memory_type(&types, MEMORY_DEVICE_LOCAL, 0b010), None);
    assert_eq!(visible_coherent_flags(), MEMORY_HOST_VISIBLE | MEMORY_HOST_COHERENT);
}

#[test]
fn memory_mapping_flags() {
    assert_eq!(MemoryMapping::Mapped.memory_property_flags(), MEMORY_HOST_VISIBLE | MEMORY_HOST_COHERENT);
    assert_eq!(MemoryMapping::Unmapped.memory_property_flags(), MEMORY_DEVICE_LOCAL);
    assert!(MemoryMapping::Mapped.mapped());
    assert!(!MemoryMapping::Unmapped.mapped());
}

#[test]
fn heap_pool_grows_by_chunks() {
    let mut pool = HeapPool::new(3, Tiling::Linear);
    assert_eq!(pool.type_index(), 3);
    assert_eq!(pool.tiling(), Tiling::Linear);
    assert_eq!(pool.chunk_size(), CHUNK_SIZE);
    assert_eq!(pool.min_alignment(), MIN_ALIGNMENT);
    assert_eq!(pool.usage(), (0, 0));

    // The first request reserves a chunk.
    let a0 = pool.allocate(100, 4);
    assert_eq!(a0.new_chunk, Some(CHUNK_SIZE));
    // Size is rounded up to the minimum alignment.
    assert_eq!(a0.block, blk(0, 0, 128));
    assert_eq!(pool.usage(), (128, CHUNK_SIZE));

    // The next one fits in the chunk; its size is rounded up to its
    // alignment.
    let a1 = pool.allocate(64, 256);
    assert_eq!(a1.new_chunk, None);
    assert_eq!(a1.block, blk(0, 256, 512));
    assert_eq!(pool.usage(), (384, CHUNK_SIZE));

    // A request larger than a chunk reserves a larger chunk.
    let big = 2 * CHUNK_SIZE + 1;
    let a2 = pool.allocate(big, 1);
    let rounded = align(MIN_ALIGNMENT, big);
    assert_eq!(a2.new_chunk, Some(align(CHUNK_SIZE, rounded)));
    assert_eq!(a2.block, blk(1, 0, rounded));

    pool.free(a1.block);
    assert_eq!(pool.usage().0, 128 + rounded);
    pool.clear();
    assert_eq!(pool.usage().0, 0);
}

#[test]
fn buffer_pool_allocates_aligned_blocks() {
    let limits = BufferLimits {
        min_storage_buffer_offset_alignment: 64,
        min_uniform_buffer_offset_alignment: 256,
        min_texel_buffer_offset_alignment: 16,
        max_uniform_buffer_range: 65536,
        max_storage_buffer_range: 1 << 27,
    };
    let mut pool = BufferPool::new(BufferBinding::Uniform, MemoryMapping::Mapped, limits);
    assert_eq!(pool.binding(), BufferBinding::Uniform);
    assert_eq!(pool.mapping(), MemoryMapping::Mapped);
    assert!(pool.mapped());
    assert_eq!(pool.alignment(), 256);
    assert_eq!(pool.used(), 0);
    assert_eq!(pool.reserved(), 0);

    let a = pool.allocate(100);
    assert!(a.new_chunk.is_some());
    assert_eq!(a.block.start, 0);
    assert_eq!(a.block.size(), 256);
    let b = pool.allocate(10);
    assert_eq!(b.new_chunk, None);
    assert_eq!(b.block.start, 256);
    assert_eq!(pool.used(), 512);
    pool.free(a.block);
    assert_eq!(pool.used(), 256);
    pool.clear();
    assert_eq!(pool.used(), 0);
}

#[test]
fn buffer_heap_entry_picks_pool_by_mapping() {
    let limits = BufferLimits {
        min_storage_buffer_offset_alignment: 64,
        min_uniform_buffer_offset_alignment: 256,
        min_texel_buffer_offset_alignment: 16,
        max_uniform_buffer_range: 65536,
        max_storage_buffer_range: 1 << 27,
    };
    // Discrete memory: a separate unmapped pool exists.
    let mut entry = BufferHeapEntry::new(BufferBinding::Storage, limits, MEMORY_DEVICE_LOCAL);
    assert_eq!(entry.pool_mut(MemoryMapping::Unmapped).mapping(), MemoryMapping::Unmapped);
    assert_eq!(entry.pool_mut(MemoryMapping::Mapped).mapping(), MemoryMapping::Mapped);
    // The mapped pool starts with one reserved chunk.
    assert_eq!(entry.pool_mut(MemoryMapping::Mapped).reserved(), CHUNK_SIZE);
    // Host-only memory: unmapped requests are served by the mapped pool.
    let mut uma = BufferHeapEntry::new(BufferBinding::Storage, limits, MEMORY_HOST_VISIBLE);
    assert_eq!(uma.pool_mut(MemoryMapping::Unmapped).mapping(), MemoryMapping::Mapped);
    assert_eq!(uma.pool_mut(MemoryMapping::Unmapped).alignment(), 64);
}

#[test]
fn device_heap_routes_allocations_by_type_and_tiling() {
    let types = vec![
        MemoryType { property_flags: MEMORY_DEVICE_LOCAL, heap_index: 0 },
        MemoryType { property_flags: MEMORY_HOST_VISIBLE | MEMORY_HOST_COHERENT, heap_index: 1 },
        MemoryType { property_flags: MEMORY_DEVICE_LOCAL | MEMORY_HOST_VISIBLE | MEMORY_HOST_COHERENT, heap_index: 0 },
    ];
    let mut heap = DeviceHeap::new(types, 2);
    assert_eq!(heap.heaps(), vec![HeapInfo::default(), HeapInfo::default()]);

    assert_eq!(heap.find_type(MemoryMapping::Unmapped, !0), Some(0));
    assert_eq!(heap.find_type(MemoryMapping::Mapped, !0), Some(1));
    assert_eq!(heap.find_type(MemoryMapping::Mapped, 0b100), Some(2));
    assert_eq!(heap.find_type(MemoryMapping::Unmapped, 0b010), None);

    let (ty, a) = heap.allocate(1000, 256, !0, Tiling::Nonlinear, MemoryMapping::Unmapped);
    assert_eq!(ty, 0);
    assert_eq!(a.new_chunk, Some(CHUNK_SIZE));
    assert_eq!(a.block, blk(0, 0, 1024));
    assert_eq!(heap.pool(0, Tiling::Nonlinear).usage(), (1024, CHUNK_SIZE));
    assert_eq!(heap.pool(0, Tiling::Linear).usage(), (0, 0));

    let (ty, b) = heap.allocate(64, 1, 0b110, Tiling::Linear, MemoryMapping::Mapped);
    assert_eq!(ty, 1);
    assert_eq!(b.block, blk(0, 0, 64));
    let (ty, c) = heap.allocate(32, 1, 0b100, Tiling::Linear, MemoryMapping::Mapped);
    assert_eq!(ty, 2);
    assert_eq!(c.block, blk(0, 0, 32));

    // Heap 0 holds types 0 and 2; heap 1 holds type 1.
    assert_eq!(
        heap.heaps(),
        vec![
            HeapInfo { reserved: 2 * CHUNK_SIZE, used: 1024 + 32 },
            HeapInfo { reserved: CHUNK_SIZE, used: 64 },
        ]
    );

    heap.free(0, Tiling::Nonlinear, a.block);
    assert_eq!(heap.pool(0, Tiling::Nonlinear).usage(), (0, CHUNK_SIZE));
    assert_eq!(heap.heaps()[0], HeapInfo { reserved: 2 * CHUNK_SIZE, used: 32 });
}

fn buffer_limits() -> BufferLimits {
    BufferLimits {
        min_storage_buffer_offset_alignment: 64,
        min_uniform_buffer_offset_alignment: 256,
        min_texel_buffer_offset_alignment: 16,
        max_uniform_buffer_range: 65536,
        max_storage_buffer_range: 1 << 27,
    }
}

#[test]
fn oversize_test() {
    let limits = buffer_limits();
    // Twice the uniform range is refused; so is anything that rounds up
    // to the range.
    assert!(!request_in_range(&limits, BufferBinding::Uniform, 2 * 65536));
    assert!(!request_in_range(&limits, BufferBinding::Uniform, 65536 - 100));
    assert!(request_in_range(&limits, BufferBinding::Uniform, 65536 - 256));
    assert!(!request_in_range(&limits, BufferBinding::Storage, 1 << 27));
    assert!(request_in_range(&limits, BufferBinding::Vertex, u64::MAX));
    assert!(!request_in_range(&limits, BufferBinding::Index, 0));
}

#[test]
fn buffer_heap_routes_by_binding_and_mapping() {
    let flags = [
        MEMORY_DEVICE_LOCAL | MEMORY_HOST_VISIBLE,
        MEMORY_HOST_VISIBLE,
        MEMORY_HOST_VISIBLE,
        MEMORY_HOST_VISIBLE,
        MEMORY_HOST_VISIBLE,
        MEMORY_HOST_VISIBLE,
    ];
    let mut heap = BufferHeap::new(buffer_limits(), &flags);
    for i in 0..6 {
        let b = BufferBinding::from_index(i);
        assert_eq!(b.index(), i);
        assert_eq!(heap.entry(b).binding(), b);
    }
    // Every mapped pool starts with one chunk.
    let a = heap.allocate(BufferBinding::Uniform, MemoryMapping::Mapped, 100);
    assert_eq!(a.new_chunk, None);
    assert_eq!(a.block, blk(0, 0, 256));
    let b = heap.allocate(BufferBinding::Storage, MemoryMapping::Unmapped, 100);
    // The storage binding has an unmapped pool; it starts empty.
    assert_eq!(b.new_chunk, Some(CHUNK_SIZE));
    assert_eq!(b.block, blk(0, 0, 128));
    // The uniform binding has none: unmapped requests go to the mapped
    // pool.
    let c = heap.allocate(BufferBinding::Uniform, MemoryMapping::Unmapped, 1);
    assert_eq!(c.block, blk(0, 256, 512));
    heap.free(BufferBinding::Uniform, MemoryMapping::Mapped, a.block);
    let d = heap.allocate(BufferBinding::Uniform, MemoryMapping::Mapped, 10);
    assert_eq!(d.block, blk(0, 0, 256));
}
