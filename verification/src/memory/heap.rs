use vstd::prelude::*;

use crate::memory::block::{align_up, Block};
use crate::memory::free_list::{block_in_chunks, release, free_accepts};
use crate::memory::pool::{
    find_memory_type, grow_alloc_effect, pool_alignment, type_matches, HeapPool, MemoryMapping, MemoryType,
    PoolAllocation, Tiling, CHUNK_SIZE,
};

verus! {

/// Memory reserved from and used within one device heap.
#[derive(Clone, Copy, Debug, Default, PartialEq, Eq, Structural)]
pub struct HeapInfo {
    pub reserved: u64,
    pub used: u64,
}

pub open spec fn tiling_index(t: Tiling) -> int {
    match t {
        Tiling::Linear => 0,
        Tiling::Nonlinear => 1,
    }
}

pub open spec fn tiling_at(i: int) -> Tiling {
    if i == 0 {
        Tiling::Linear
    } else {
        Tiling::Nonlinear
    }
}

/// Position of the pool of memory type `type_index` and tiling `tiling`.
pub open spec fn pool_slot(type_index: int, tiling: Tiling) -> int {
    2 * type_index + tiling_index(tiling)
}

/// Memory mapping property flags of a mapping, as the allocation asks
/// for them.
pub open spec fn mapping_flags(mapping: MemoryMapping) -> u32 {
    match mapping {
        MemoryMapping::Mapped => crate::memory::pool::MEMORY_HOST_VISIBLE | crate::memory::pool::MEMORY_HOST_COHERENT,
        MemoryMapping::Unmapped => crate::memory::pool::MEMORY_DEVICE_LOCAL,
    }
}

/// The first memory type allowed by `type_bits` with all of `flags`.
pub open spec fn is_first_match(types: Seq<MemoryType>, flags: u32, type_bits: u32, i: int) -> bool {
    &&& 0 <= i < types.len()
    &&& type_matches(types, flags, type_bits, i)
    &&& forall|j: int| 0 <= j < i ==> !type_matches(types, flags, type_bits, j)
}

/// Sum of what `pools[..n]` reserve (`reserved`) or use (`!reserved`) in
/// heap `heap`, each pool counting in the heap of its memory type.
pub open spec fn heap_total(
    pools: Seq<HeapPool>,
    types: Seq<MemoryType>,
    heap: int,
    n: int,
    reserved: bool,
) -> int
    decreases n,
{
    if n <= 0 {
        0
    } else {
        let p = pools[n - 1];
        let here = if types[(n - 1) / 2].heap_index == heap {
            if reserved {
                p.allocator_state().reserved_bytes() as int
            } else {
                p.allocator_state().used_bytes() as int
            }
        } else {
            0
        };
        heap_total(pools, types, heap, n - 1, reserved) + here
    }
}

/// All device memory, as one pool per memory type and tiling.
#[derive(Debug)]
pub struct DeviceHeap {
    types: Vec<MemoryType>,
    heap_count: u32,
    pools: Vec<HeapPool>,
}

impl DeviceHeap {
    pub closed spec fn types_spec(&self) -> Seq<MemoryType> {
        self.types@
    }

    pub closed spec fn heap_count_spec(&self) -> u32 {
        self.heap_count
    }

    /// The pools; the pool of memory type `i` and tiling `t` is at
    /// `pool_slot(i, t)`.
    pub closed spec fn pools_spec(&self) -> Seq<HeapPool> {
        self.pools@
    }

    pub closed spec fn wf(&self) -> bool {
        &&& self.types@.len() <= 32
        &&& self.pools@.len() == 2 * self.types@.len()
        &&& forall|i: int| 0 <= i < self.types@.len() ==> #[trigger] self.types@[i].heap_index < self.heap_count
        &&& forall|k: int|
            0 <= k < self.pools@.len() ==> {
                &&& (#[trigger] self.pools@[k]).wf()
                &&& self.pools@[k].type_index_spec() == k / 2
                &&& self.pools@[k].tiling_spec() == tiling_at(k % 2)
            }
    }

    /// Empty pools for each of `types`, whose heaps are numbered below
    /// `heap_count`.
    pub fn new(types: Vec<MemoryType>, heap_count: u32) -> (r: Self)
        requires
            types@.len() <= 32,
            forall|i: int| 0 <= i < types@.len() ==> #[trigger] types@[i].heap_index < heap_count,
        ensures
            r.wf(),
            r.types_spec() == types@,
            r.heap_count_spec() == heap_count,
            forall|k: int|
                0 <= k < r.pools_spec().len() ==> (#[trigger] r.pools_spec()[k]).allocator_state().reserved_bytes()
                    == 0 && r.pools_spec()[k].allocator_state().used_bytes() == 0,
    {
        let mut pools: Vec<HeapPool> = Vec::new();
        let n = types.len();
        let mut i: usize = 0;
        while i < n
            invariant
                i <= n,
                n == types@.len(),
                n <= 32,
                pools@.len() == 2 * i,
                forall|k: int|
                    0 <= k < pools@.len() ==> {
                        &&& (#[trigger] pools@[k]).wf()
                        &&& pools@[k].type_index_spec() == k / 2
                        &&& pools@[k].tiling_spec() == tiling_at(k % 2)
                        &&& pools@[k].allocator_state().reserved_bytes() == 0
                        &&& pools@[k].allocator_state().used_bytes() == 0
                    },
            decreases n - i,
        {
            pools.push(HeapPool::new(i as u32, Tiling::Linear));
            pools.push(HeapPool::new(i as u32, Tiling::Nonlinear));
            i = i + 1;
        }
        DeviceHeap { types, heap_count, pools }
    }

    fn slot(type_index: u32, tiling: Tiling) -> (r: usize)
        requires
            type_index < 32,
        ensures
            r == pool_slot(type_index as int, tiling),
    {
        let t: usize = match tiling {
            Tiling::Linear => 0,
            Tiling::Nonlinear => 1,
        };
        2 * type_index as usize + t
    }

    /// The pool of memory type `type_index` and tiling `tiling`.
    pub fn pool(&self, type_index: u32, tiling: Tiling) -> (r: &HeapPool)
        requires
            self.wf(),
            type_index < self.types_spec().len(),
        ensures
            *r == self.pools_spec()[pool_slot(type_index as int, tiling)],
    {
        &self.pools[Self::slot(type_index, tiling)]
    }

    /// The memory type that an allocation with `mapping` allowed by
    /// `type_bits` is made in.
    pub fn find_type(&self, mapping: MemoryMapping, type_bits: u32) -> (r: Option<u32>)
        requires
            self.wf(),
        ensures
            r matches Some(i) ==> is_first_match(self.types_spec(), mapping_flags(mapping), type_bits, i as int),
            r is None ==> forall|j: int|
                0 <= j < self.types_spec().len() ==> !type_matches(
                    self.types_spec(),
                    mapping_flags(mapping),
                    type_bits,
                    j,
                ),
    {
        find_memory_type(self.types.as_slice(), mapping.memory_property_flags(), type_bits)
    }

    /// Whether every pool leaves room for a request of `size` bytes
    /// aligned to `alignment`, with the chunk it may add.
    pub fn has_headroom(&self, size: u64, alignment: u64) -> (r: bool)
        ensures
            r == forall|k: int|
                0 <= k < self.pools_spec().len() ==> {
                    &&& (#[trigger] self.pools_spec()[k]).allocator_state().reserved_bytes() + 2 * size + 4
                        * alignment + CHUNK_SIZE + 128 <= u64::MAX
                    &&& self.pools_spec()[k].allocator_state().chunk_sizes().len() <= u32::MAX
                },
    {
        let mut k: usize = 0;
        while k < self.pools.len()
            invariant
                k <= self.pools@.len(),
                forall|j: int|
                    0 <= j < k ==> {
                        &&& (#[trigger] self.pools@[j]).allocator_state().reserved_bytes() + 2 * size + 4
                            * alignment + CHUNK_SIZE + 128 <= u64::MAX
                        &&& self.pools@[j].allocator_state().chunk_sizes().len() <= u32::MAX
                    },
            decreases self.pools@.len() - k,
        {
            let pool = &self.pools[k];
            let (_, reserved) = pool.usage();
            let room = (reserved as u128) + 2 * (size as u128) + 4 * (alignment as u128) + (CHUNK_SIZE as u128)
                + 128;
            if room > u64::MAX as u128 || pool.chunk_count() as u128 > u32::MAX as u128 {
                proof {
                    assert(self.pools_spec()[k as int] == self.pools@[k as int]);
                }
                return false;
            }
            k = k + 1;
        }
        true
    }

    /// Allocates `size` bytes aligned to `alignment` of memory with
    /// `mapping` and `tiling`, in the first memory type that `type_bits`
    /// allows and that has the mapping's properties; returns that type and
    /// what its pool handed out. A suitable type must exist.
    pub fn allocate(
        &mut self,
        size: u64,
        alignment: u64,
        type_bits: u32,
        tiling: Tiling,
        mapping: MemoryMapping,
    ) -> (r: (u32, PoolAllocation))
        requires
            old(self).wf(),
            size > 0,
            exists|i: int| is_first_match(old(self).types_spec(), mapping_flags(mapping), type_bits, i),
            forall|k: int|
                0 <= k < old(self).pools_spec().len() ==> {
                    &&& (#[trigger] old(self).pools_spec()[k]).allocator_state().reserved_bytes() + 2 * size + 4
                        * alignment + CHUNK_SIZE + 128 <= u64::MAX
                    &&& old(self).pools_spec()[k].allocator_state().chunk_sizes().len() <= u32::MAX
                },
        ensures
            final(self).wf(),
            final(self).types_spec() == old(self).types_spec(),
            final(self).heap_count_spec() == old(self).heap_count_spec(),
            is_first_match(old(self).types_spec(), mapping_flags(mapping), type_bits, r.0 as int),
            grow_alloc_effect(
                old(self).pools_spec()[pool_slot(r.0 as int, tiling)].allocator_state(),
                final(self).pools_spec()[pool_slot(r.0 as int, tiling)].allocator_state(),
                align_up(pool_alignment(alignment), size as int),
                pool_alignment(alignment),
                CHUNK_SIZE as int,
                r.1,
            ),
            alignment > 0 && (alignment > 32 || 32u64 % alignment == 0) ==> r.1.block.start % alignment == 0,
            forall|k: int|
                #![trigger final(self).pools_spec()[k]]
                0 <= k < final(self).pools_spec().len() && k != pool_slot(r.0 as int, tiling)
                    ==> final(self).pools_spec()[k] == old(self).pools_spec()[k],
    {
        let found = self.find_type(mapping, type_bits);
        let type_index = match found {
            Some(i) => i,
            None => {
                proof {
                    let i = choose|i: int| is_first_match(self.types_spec(), mapping_flags(mapping), type_bits, i);
                    assert(type_matches(self.types@, mapping_flags(mapping), type_bits, i));
                }
                0
            },
        };
        let slot = Self::slot(type_index, tiling);
        let ghost old_pools = self.pools@;
        proof {
            assert(old(self).pools_spec()[slot as int] == old_pools[slot as int]);
        }
        let mut pool = self.pools.remove(slot);
        proof {
            assert(pool == old_pools[slot as int]);
        }
        let r = pool.allocate(size, alignment);
        self.pools.insert(slot, pool);
        proof {
            assert forall|k: int| 0 <= k < self.pools@.len() && k != slot implies #[trigger] self.pools@[k]
                == old_pools[k] by {}
            assert forall|k: int| 0 <= k < self.pools@.len() implies {
                &&& (#[trigger] self.pools@[k]).wf()
                &&& self.pools@[k].type_index_spec() == k / 2
                &&& self.pools@[k].tiling_spec() == tiling_at(k % 2)
            } by {
                if k == slot {
                    assert(old_pools[k].wf());
                }
            }
        }
        (type_index, r)
    }

    /// Returns `block` to the pool of memory type `type_index` and tiling
    /// `tiling` that it was allocated from.
    pub fn free(&mut self, type_index: u32, tiling: Tiling, block: Block)
        requires
            old(self).wf(),
            type_index < old(self).types_spec().len(),
            ({
                let a = old(self).pools_spec()[pool_slot(type_index as int, tiling)].allocator_state();
                &&& block_in_chunks(block, a.chunk_sizes())
                &&& block.end - block.start <= a.used_bytes()
                &&& free_accepts(a.free_blocks(), block)
            }),
        ensures
            final(self).wf(),
            final(self).types_spec() == old(self).types_spec(),
            final(self).heap_count_spec() == old(self).heap_count_spec(),
            ({
                let slot = pool_slot(type_index as int, tiling);
                let before = old(self).pools_spec()[slot].allocator_state();
                let after = final(self).pools_spec()[slot].allocator_state();
                &&& after.used_bytes() == before.used_bytes() - (block.end - block.start)
                &&& after.free_blocks() == release(before.free_blocks(), block)
                &&& after.chunk_sizes() == before.chunk_sizes()
            }),
            forall|k: int|
                #![trigger final(self).pools_spec()[k]]
                0 <= k < final(self).pools_spec().len() && k != pool_slot(type_index as int, tiling)
                    ==> final(self).pools_spec()[k] == old(self).pools_spec()[k],
    {
        let slot = Self::slot(type_index, tiling);
        let ghost old_pools = self.pools@;
        let mut pool = self.pools.remove(slot);
        proof {
            assert(pool == old_pools[slot as int]);
        }
        pool.free(block);
        self.pools.insert(slot, pool);
        proof {
            assert forall|k: int| 0 <= k < self.pools@.len() && k != slot implies #[trigger] self.pools@[k]
                == old_pools[k] by {}
            assert forall|k: int| 0 <= k < self.pools@.len() implies {
                &&& (#[trigger] self.pools@[k]).wf()
                &&& self.pools@[k].type_index_spec() == k / 2
                &&& self.pools@[k].tiling_spec() == tiling_at(k % 2)
            } by {
                if k == slot {
                    assert(old_pools[k].wf());
                }
            }
        }
    }

    /// Memory reserved and used per heap: each pool counts in the heap of
    /// its memory type.
    pub fn heaps(&self) -> (r: Vec<HeapInfo>)
        requires
            self.wf(),
            forall|h: int|
                0 <= h < self.heap_count_spec() ==> #[trigger] heap_total(
                    self.pools_spec(),
                    self.types_spec(),
                    h,
                    self.pools_spec().len() as int,
                    true,
                ) <= u64::MAX,
        ensures
            r@.len() == self.heap_count_spec(),
            forall|h: int|
                0 <= h < r@.len() ==> (#[trigger] r@[h]).reserved == heap_total(
                    self.pools_spec(),
                    self.types_spec(),
                    h,
                    self.pools_spec().len() as int,
                    true,
                ) && r@[h].used == heap_total(
                    self.pools_spec(),
                    self.types_spec(),
                    h,
                    self.pools_spec().len() as int,
                    false,
                ),
    {
        let ghost pools = self.pools@;
        let ghost types = self.types@;
        let mut heaps: Vec<HeapInfo> = Vec::new();
        let mut h: u32 = 0;
        while h < self.heap_count
            invariant
                h <= self.heap_count,
                heaps@.len() == h,
                forall|j: int| 0 <= j < h ==> #[trigger] heaps@[j] == (HeapInfo { reserved: 0, used: 0 }),
            decreases self.heap_count - h,
        {
            heaps.push(HeapInfo { reserved: 0, used: 0 });
            h = h + 1;
        }
        let n = self.pools.len();
        proof {
            assert forall|g: int| 0 <= g < self.heap_count implies #[trigger] heap_total(
                pools,
                types,
                g,
                n as int,
                true,
            ) <= u64::MAX by {
                assert(heap_total(self.pools_spec(), self.types_spec(), g, self.pools_spec().len() as int, true)
                    <= u64::MAX);
            }
        }
        let mut k: usize = 0;
        while k < n
            invariant
                self.wf(),
                pools == self.pools@,
                types == self.types@,
                n == pools.len(),
                k <= n,
                heaps@.len() == self.heap_count,
                forall|g: int|
                    0 <= g < self.heap_count ==> #[trigger] heap_total(pools, types, g, n as int, true) <= u64::MAX,
                forall|g: int|
                    0 <= g < heaps@.len() ==> (#[trigger] heaps@[g]).reserved == heap_total(
                        pools,
                        types,
                        g,
                        k as int,
                        true,
                    ) && heaps@[g].used == heap_total(pools, types, g, k as int, false),
            decreases n - k,
        {
            let g = self.types[k / 2].heap_index as usize;
            let (used, reserved) = self.pools[k].usage();
            proof {
                assert(self.types@[(k / 2) as int].heap_index < self.heap_count);
                lemma_heap_total_mono(pools, types, g as int, k + 1, n as int, true);
                lemma_heap_totals_ordered(pools, types, g as int, k + 1);
            }
            let before = heaps[g];
            let ghost old_heaps = heaps@;
            heaps.set(g, HeapInfo { reserved: before.reserved + reserved, used: before.used + used });
            proof {
                assert forall|j: int| 0 <= j < heaps@.len() implies (#[trigger] heaps@[j]).reserved == heap_total(
                    pools,
                    types,
                    j,
                    k + 1,
                    true,
                ) && heaps@[j].used == heap_total(pools, types, j, k + 1, false) by {
                    if j != g {
                        assert(heaps@[j] == old_heaps[j]);
                    }
                }
            }
            k = k + 1;
        }
        heaps
    }
}

/// Counting more pools never lowers a heap's total.
proof fn lemma_heap_total_mono(
    pools: Seq<HeapPool>,
    types: Seq<MemoryType>,
    heap: int,
    n1: int,
    n2: int,
    reserved: bool,
)
    requires
        0 <= n1 <= n2,
    ensures
        heap_total(pools, types, heap, n1, reserved) <= heap_total(pools, types, heap, n2, reserved),
    decreases n2 - n1,
{
    if n1 < n2 {
        lemma_heap_total_mono(pools, types, heap, n1, n2 - 1, reserved);
    }
}

/// Within a heap, the pools use no more than they reserve.
proof fn lemma_heap_totals_ordered(pools: Seq<HeapPool>, types: Seq<MemoryType>, heap: int, n: int)
    requires
        0 <= n <= pools.len(),
        forall|k: int| 0 <= k < pools.len() ==> (#[trigger] pools[k]).wf(),
    ensures
        heap_total(pools, types, heap, n, false) <= heap_total(pools, types, heap, n, true),
    decreases n,
{
    if n > 0 {
        lemma_heap_totals_ordered(pools, types, heap, n - 1);
        pools[n - 1].lemma_used_within_reserved();
    }
}

} // verus!
