use std::sync::Arc;

use vstd::prelude::*;

use crate::format::{depth_stencil, Format};
use crate::image::{has_bit, ImageFlags, INPUT_ATTACHMENT, NO_SAMPLE, STORAGE};
use crate::memory::buffer::BufferBinding;
use crate::render_pass::{input_attachment_layout, input_layout_spec, ImageLayout};

verus! {

broadcast use vstd::array::group_array_axioms;

/// Number of descriptor types that descriptor counts track.
pub const DESCRIPTOR_TYPE_COUNT: usize = 11;

/// Vulkan descriptor types, in the order of their numeric values.
#[derive(Clone, Copy, Debug, PartialEq, Eq, Structural, Hash)]
pub enum DescriptorType {
    Sampler,
    CombinedImageSampler,
    SampledImage,
    StorageImage,
    UniformTexelBuffer,
    StorageTexelBuffer,
    UniformBuffer,
    StorageBuffer,
    UniformBufferDynamic,
    StorageBufferDynamic,
    InputAttachment,
}

pub open spec fn type_index(ty: DescriptorType) -> int {
    match ty {
        DescriptorType::Sampler => 0,
        DescriptorType::CombinedImageSampler => 1,
        DescriptorType::SampledImage => 2,
        DescriptorType::StorageImage => 3,
        DescriptorType::UniformTexelBuffer => 4,
        DescriptorType::StorageTexelBuffer => 5,
        DescriptorType::UniformBuffer => 6,
        DescriptorType::StorageBuffer => 7,
        DescriptorType::UniformBufferDynamic => 8,
        DescriptorType::StorageBufferDynamic => 9,
        DescriptorType::InputAttachment => 10,
    }
}

pub open spec fn type_at(i: int) -> DescriptorType {
    if i == 0 {
        DescriptorType::Sampler
    } else if i == 1 {
        DescriptorType::CombinedImageSampler
    } else if i == 2 {
        DescriptorType::SampledImage
    } else if i == 3 {
        DescriptorType::StorageImage
    } else if i == 4 {
        DescriptorType::UniformTexelBuffer
    } else if i == 5 {
        DescriptorType::StorageTexelBuffer
    } else if i == 6 {
        DescriptorType::UniformBuffer
    } else if i == 7 {
        DescriptorType::StorageBuffer
    } else if i == 8 {
        DescriptorType::UniformBufferDynamic
    } else if i == 9 {
        DescriptorType::StorageBufferDynamic
    } else {
        DescriptorType::InputAttachment
    }
}

impl DescriptorType {
    /// The Vulkan numeric value of the type.
    pub fn index(self) -> (r: usize)
        ensures
            r == type_index(self),
            r < DESCRIPTOR_TYPE_COUNT,
            type_at(r as int) == self,
    {
        match self {
            DescriptorType::Sampler => 0,
            DescriptorType::CombinedImageSampler => 1,
            DescriptorType::SampledImage => 2,
            DescriptorType::StorageImage => 3,
            DescriptorType::UniformTexelBuffer => 4,
            DescriptorType::StorageTexelBuffer => 5,
            DescriptorType::UniformBuffer => 6,
            DescriptorType::StorageBuffer => 7,
            DescriptorType::UniformBufferDynamic => 8,
            DescriptorType::StorageBufferDynamic => 9,
            DescriptorType::InputAttachment => 10,
        }
    }

    /// The type with Vulkan numeric value `i`.
    pub fn from_index(i: usize) -> (r: DescriptorType)
        requires
            i < DESCRIPTOR_TYPE_COUNT,
        ensures
            r == type_at(i as int),
            type_index(r) == i,
    {
        if i == 0 {
            DescriptorType::Sampler
        } else if i == 1 {
            DescriptorType::CombinedImageSampler
        } else if i == 2 {
            DescriptorType::SampledImage
        } else if i == 3 {
            DescriptorType::StorageImage
        } else if i == 4 {
            DescriptorType::UniformTexelBuffer
        } else if i == 5 {
            DescriptorType::StorageTexelBuffer
        } else if i == 6 {
            DescriptorType::UniformBuffer
        } else if i == 7 {
            DescriptorType::StorageBuffer
        } else if i == 8 {
            DescriptorType::UniformBufferDynamic
        } else if i == 9 {
            DescriptorType::StorageBufferDynamic
        } else {
            DescriptorType::InputAttachment
        }
    }
}

/// Descriptor types that layouts may use; texel and dynamic buffers are
/// not supported yet.
pub open spec fn valid_type(ty: DescriptorType) -> bool {
    match ty {
        DescriptorType::Sampler | DescriptorType::CombinedImageSampler | DescriptorType::SampledImage
        | DescriptorType::StorageImage | DescriptorType::UniformBuffer | DescriptorType::StorageBuffer
        | DescriptorType::InputAttachment => true,
        _ => false,
    }
}

pub fn is_valid_type(ty: DescriptorType) -> (r: bool)
    ensures
        r == valid_type(ty),
{
    match ty {
        DescriptorType::Sampler | DescriptorType::CombinedImageSampler | DescriptorType::SampledImage
        | DescriptorType::StorageImage | DescriptorType::UniformBuffer | DescriptorType::StorageBuffer
        | DescriptorType::InputAttachment => true,
        _ => false,
    }
}

pub fn is_buffer(ty: DescriptorType) -> (r: bool)
    ensures
        r == (ty == DescriptorType::UniformBuffer || ty == DescriptorType::StorageBuffer),
{
    (ty == DescriptorType::UniformBuffer) || (ty == DescriptorType::StorageBuffer)
}

pub fn is_uniform_buffer(ty: DescriptorType) -> (r: bool)
    ensures
        r == (ty == DescriptorType::UniformBuffer),
{
    ty == DescriptorType::UniformBuffer
}

pub fn is_storage_buffer(ty: DescriptorType) -> (r: bool)
    ensures
        r == (ty == DescriptorType::StorageBuffer),
{
    ty == DescriptorType::StorageBuffer
}

/// A count of descriptors per descriptor type.
#[derive(Clone, Copy, Debug, PartialEq, Eq)]
pub struct DescriptorCounts(pub [u32; 11]);

impl View for DescriptorCounts {
    type V = Seq<u32>;

    open spec fn view(&self) -> Seq<u32> {
        self.0@
    }
}

impl DescriptorCounts {
    /// All counts zero.
    pub fn new() -> (r: Self)
        ensures
            r@.len() == DESCRIPTOR_TYPE_COUNT,
            forall|i: int| 0 <= i < DESCRIPTOR_TYPE_COUNT ==> r@[i] == 0,
    {
        DescriptorCounts([0u32; 11])
    }

    /// Count for descriptor type `ty`.
    pub fn get(&self, ty: DescriptorType) -> (r: u32)
        ensures
            r == self@[type_index(ty)],
    {
        self.0[ty.index()]
    }

    /// Sets the count for descriptor type `ty`.
    pub fn set(&mut self, ty: DescriptorType, n: u32)
        ensures
            final(self)@ == old(self)@.update(type_index(ty), n),
    {
        let i = ty.index();
        self.0[i] = n;
    }

    /// Pairs of descriptor type and count, in type order.
    pub fn iter(&self) -> (r: Vec<(DescriptorType, u32)>)
        ensures
            r@.len() == DESCRIPTOR_TYPE_COUNT,
            forall|i: int| 0 <= i < DESCRIPTOR_TYPE_COUNT ==> #[trigger] r@[i] == (type_at(i), self@[i]),
    {
        let mut r: Vec<(DescriptorType, u32)> = Vec::new();
        let mut i: usize = 0;
        while i < DESCRIPTOR_TYPE_COUNT
            invariant
                0 <= i <= DESCRIPTOR_TYPE_COUNT,
                r@.len() == i,
                forall|j: int| 0 <= j < i ==> #[trigger] r@[j] == (type_at(j), self@[j]),
            decreases DESCRIPTOR_TYPE_COUNT - i,
        {
            r.push((DescriptorType::from_index(i), self.0[i]));
            i = i + 1;
        }
        r
    }

    /// Componentwise sum.
    pub fn add_counts(&self, other: &Self) -> (r: Self)
        requires
            forall|i: int| 0 <= i < DESCRIPTOR_TYPE_COUNT ==> self@[i] + other@[i] <= u32::MAX,
        ensures
            forall|i: int| 0 <= i < DESCRIPTOR_TYPE_COUNT ==> #[trigger] r@[i] == self@[i] + other@[i],
    {
        let mut r = *self;
        let mut i: usize = 0;
        while i < DESCRIPTOR_TYPE_COUNT
            invariant
                0 <= i <= DESCRIPTOR_TYPE_COUNT,
                forall|j: int| 0 <= j < DESCRIPTOR_TYPE_COUNT ==> self@[j] + other@[j] <= u32::MAX,
                forall|j: int| 0 <= j < i ==> #[trigger] r@[j] == self@[j] + other@[j],
                forall|j: int| i <= j < DESCRIPTOR_TYPE_COUNT ==> #[trigger] r@[j] == self@[j],
            decreases DESCRIPTOR_TYPE_COUNT - i,
        {
            proof {
                assert(self@[i as int] + other@[i as int] <= u32::MAX);
            }
            let ghost before = r@;
            let v = self.0[i] + other.0[i];
            r.0[i] = v;
            proof {
                assert(r@ =~= before.update(i as int, v));
            }
            i = i + 1;
        }
        r
    }

    /// Componentwise difference.
    pub fn sub_counts(&self, other: &Self) -> (r: Self)
        requires
            forall|i: int| 0 <= i < DESCRIPTOR_TYPE_COUNT ==> other@[i] <= self@[i],
        ensures
            forall|i: int| 0 <= i < DESCRIPTOR_TYPE_COUNT ==> #[trigger] r@[i] == self@[i] - other@[i],
    {
        let mut r = *self;
        let mut i: usize = 0;
        while i < DESCRIPTOR_TYPE_COUNT
            invariant
                0 <= i <= DESCRIPTOR_TYPE_COUNT,
                forall|j: int| 0 <= j < DESCRIPTOR_TYPE_COUNT ==> other@[j] <= self@[j],
                forall|j: int| 0 <= j < i ==> #[trigger] r@[j] == self@[j] - other@[j],
                forall|j: int| i <= j < DESCRIPTOR_TYPE_COUNT ==> #[trigger] r@[j] == self@[j],
            decreases DESCRIPTOR_TYPE_COUNT - i,
        {
            proof {
                assert(other@[i as int] <= self@[i as int]);
            }
            let ghost before = r@;
            let v = self.0[i] - other.0[i];
            r.0[i] = v;
            proof {
                assert(r@ =~= before.update(i as int, v));
            }
            i = i + 1;
        }
        r
    }

    /// Every count multiplied by `k`.
    pub fn mul_scalar(&self, k: u32) -> (r: Self)
        requires
            forall|i: int| 0 <= i < DESCRIPTOR_TYPE_COUNT ==> self@[i] * k <= u32::MAX,
        ensures
            forall|i: int| 0 <= i < DESCRIPTOR_TYPE_COUNT ==> #[trigger] r@[i] == self@[i] * k,
    {
        let mut r = *self;
        let mut i: usize = 0;
        while i < DESCRIPTOR_TYPE_COUNT
            invariant
                0 <= i <= DESCRIPTOR_TYPE_COUNT,
                forall|j: int| 0 <= j < DESCRIPTOR_TYPE_COUNT ==> self@[j] * k <= u32::MAX,
                forall|j: int| 0 <= j < i ==> #[trigger] r@[j] == self@[j] * k,
                forall|j: int| i <= j < DESCRIPTOR_TYPE_COUNT ==> #[trigger] r@[j] == self@[j],
            decreases DESCRIPTOR_TYPE_COUNT - i,
        {
            proof {
                assert(self@[i as int] * k <= u32::MAX);
            }
            let ghost before = r@;
            let v = self.0[i] * k;
            r.0[i] = v;
            proof {
                assert(r@ =~= before.update(i as int, v));
            }
            i = i + 1;
        }
        r
    }

    /// Every count divided by `k`.
    pub fn div_scalar(&self, k: u32) -> (r: Self)
        requires
            k > 0,
        ensures
            forall|i: int| 0 <= i < DESCRIPTOR_TYPE_COUNT ==> #[trigger] r@[i] == self@[i] / k,
    {
        let mut r = *self;
        let mut i: usize = 0;
        while i < DESCRIPTOR_TYPE_COUNT
            invariant
                0 <= i <= DESCRIPTOR_TYPE_COUNT,
                k > 0,
                forall|j: int| 0 <= j < i ==> #[trigger] r@[j] == self@[j] / k,
                forall|j: int| i <= j < DESCRIPTOR_TYPE_COUNT ==> #[trigger] r@[j] == self@[j],
            decreases DESCRIPTOR_TYPE_COUNT - i,
        {
            proof {
                
            }
            let ghost before = r@;
            let v = self.0[i] / k;
            r.0[i] = v;
            proof {
                assert(r@ =~= before.update(i as int, v));
            }
            i = i + 1;
        }
        r
    }

    /// Sum of the counts of the pairs, per type.
    pub fn sum(pairs: &[(DescriptorType, u32)]) -> (r: Self)
        requires
            forall|t: DescriptorType| #[trigger] pair_total(pairs@, t) <= u32::MAX,
        ensures
            forall|i: int| 0 <= i < DESCRIPTOR_TYPE_COUNT ==> #[trigger] r@[i] == pair_total(pairs@, type_at(i)),
    {
        let mut counts = DescriptorCounts::new();
        let n = pairs.len();
        let mut k: usize = 0;
        while k < n
            invariant
                0 <= k <= n,
                n == pairs@.len(),
                forall|t: DescriptorType| #[trigger] pair_total(pairs@, t) <= u32::MAX,
                forall|i: int| 0 <= i < DESCRIPTOR_TYPE_COUNT ==> #[trigger] counts@[i] == pair_total(
                    pairs@.subrange(0, k as int),
                    type_at(i),
                ),
            decreases n - k,
        {
            let (ty, v) = pairs[k];
            proof {
                lemma_pair_total_prefix_bound(pairs@, k as int + 1, ty);
                assert(pairs@.subrange(0, k + 1).drop_last() =~= pairs@.subrange(0, k as int));
                assert forall|i: int| 0 <= i < DESCRIPTOR_TYPE_COUNT implies type_index(type_at(i)) == i by {}
            }
            let cur = counts.get(ty);
            counts.set(ty, cur + v);
            k = k + 1;
        }
        proof {
            assert(pairs@.subrange(0, n as int) =~= pairs@);
        }
        counts
    }

    /// Counts taken from the pairs; a later pair for the same type
    /// replaces an earlier one.
    pub fn from_pairs(pairs: &[(DescriptorType, u32)]) -> (r: Self)
        ensures
            forall|i: int| 0 <= i < DESCRIPTOR_TYPE_COUNT ==> #[trigger] r@[i] == pair_last(pairs@, type_at(i)),
    {
        let mut counts = DescriptorCounts::new();
        let n = pairs.len();
        let mut k: usize = 0;
        while k < n
            invariant
                0 <= k <= n,
                n == pairs@.len(),
                forall|i: int| 0 <= i < DESCRIPTOR_TYPE_COUNT ==> #[trigger] counts@[i] == pair_last(
                    pairs@.subrange(0, k as int),
                    type_at(i),
                ),
            decreases n - k,
        {
            let (ty, v) = pairs[k];
            proof {
                assert(pairs@.subrange(0, k + 1).drop_last() =~= pairs@.subrange(0, k as int));
                assert forall|i: int| 0 <= i < DESCRIPTOR_TYPE_COUNT implies type_index(type_at(i)) == i by {}
            }
            counts.set(ty, v);
            k = k + 1;
        }
        proof {
            assert(pairs@.subrange(0, n as int) =~= pairs@);
        }
        counts
    }
}

/// Sum of the counts that `pairs` gives type `t`.
pub open spec fn pair_total(pairs: Seq<(DescriptorType, u32)>, t: DescriptorType) -> int
    decreases pairs.len(),
{
    if pairs.len() == 0 {
        0
    } else {
        pair_total(pairs.drop_last(), t) + if pairs.last().0 == t {
            pairs.last().1 as int
        } else {
            0
        }
    }
}

/// The count of the last pair for type `t`, or zero.
pub open spec fn pair_last(pairs: Seq<(DescriptorType, u32)>, t: DescriptorType) -> u32
    decreases pairs.len(),
{
    if pairs.len() == 0 {
        0
    } else if pairs.last().0 == t {
        pairs.last().1
    } else {
        pair_last(pairs.drop_last(), t)
    }
}

proof fn lemma_pair_total_prefix_bound(pairs: Seq<(DescriptorType, u32)>, k: int, t: DescriptorType)
    requires
        0 <= k <= pairs.len(),
    ensures
        pair_total(pairs.subrange(0, k), t) <= pair_total(pairs, t),
        pair_total(pairs.subrange(0, k), t) >= 0,
    decreases pairs.len(),
{
    if k == pairs.len() {
        assert(pairs.subrange(0, k) =~= pairs);
        lemma_pair_total_nonneg(pairs, t);
    } else {
        lemma_pair_total_prefix_bound(pairs.drop_last(), k, t);
        assert(pairs.drop_last().subrange(0, k) =~= pairs.subrange(0, k));
    }
}

proof fn lemma_pair_total_nonneg(pairs: Seq<(DescriptorType, u32)>, t: DescriptorType)
    ensures
        pair_total(pairs, t) >= 0,
    decreases pairs.len(),
{
    if pairs.len() > 0 {
        lemma_pair_total_nonneg(pairs.drop_last(), t);
    }
}

/// A binding of a descriptor set layout.
#[derive(Clone, Copy, Debug, PartialEq, Eq, Structural)]
pub struct DescriptorSetLayoutBinding {
    pub binding: u32,
    pub descriptor_type: DescriptorType,
    pub descriptor_count: u32,
    pub stage_flags: u32,
}

pub open spec fn binding_pairs(bindings: Seq<DescriptorSetLayoutBinding>) -> Seq<(DescriptorType, u32)> {
    Seq::new(bindings.len(), |i: int| (bindings[i].descriptor_type, bindings[i].descriptor_count))
}

/// Total descriptors of each type over the bindings.
pub fn count_descriptors(bindings: &[DescriptorSetLayoutBinding]) -> (r: DescriptorCounts)
    requires
        forall|t: DescriptorType| #[trigger] pair_total(binding_pairs(bindings@), t) <= u32::MAX,
    ensures
        forall|i: int| 0 <= i < DESCRIPTOR_TYPE_COUNT ==> #[trigger] r@[i] == pair_total(
            binding_pairs(bindings@),
            type_at(i),
        ),
{
    let mut pairs: Vec<(DescriptorType, u32)> = Vec::new();
    let n = bindings.len();
    let mut k: usize = 0;
    while k < n
        invariant
            0 <= k <= n,
            n == bindings@.len(),
            pairs@ == binding_pairs(bindings@).subrange(0, k as int),
        decreases n - k,
    {
        let b = bindings[k];
        pairs.push((b.descriptor_type, b.descriptor_count));
        proof {
            assert(pairs@ =~= binding_pairs(bindings@).subrange(0, k + 1));
        }
        k = k + 1;
    }
    proof {
        assert(pairs@ =~= binding_pairs(bindings@));
    }
    DescriptorCounts::sum(pairs.as_slice())
}

/// One entry of a descriptor pool's size list.
#[derive(Clone, Copy, Debug, PartialEq, Eq, Structural)]
pub struct DescriptorPoolSize {
    pub ty: DescriptorType,
    pub descriptor_count: u32,
}

/// Pool sizes for the first `n` types whose count is non-zero, in type
/// order.
pub open spec fn nonzero_sizes(counts: Seq<u32>, n: int) -> Seq<DescriptorPoolSize>
    decreases n,
{
    if n <= 0 {
        Seq::empty()
    } else {
        let prev = nonzero_sizes(counts, n - 1);
        if counts[n - 1] > 0 {
            prev.push(DescriptorPoolSize { ty: type_at(n - 1), descriptor_count: counts[n - 1] })
        } else {
            prev
        }
    }
}

/// The pool sizes of the non-zero counts.
pub fn pool_sizes(counts: &DescriptorCounts) -> (r: Vec<DescriptorPoolSize>)
    ensures
        r@ == nonzero_sizes(counts@, DESCRIPTOR_TYPE_COUNT as int),
{
    let mut r: Vec<DescriptorPoolSize> = Vec::new();
    let mut i: usize = 0;
    while i < DESCRIPTOR_TYPE_COUNT
        invariant
            0 <= i <= DESCRIPTOR_TYPE_COUNT,
            r@ == nonzero_sizes(counts@, i as int),
        decreases DESCRIPTOR_TYPE_COUNT - i,
    {
        let n = counts.0[i];
        if n > 0 {
            r.push(DescriptorPoolSize { ty: DescriptorType::from_index(i), descriptor_count: n });
        }
        i = i + 1;
    }
    r
}

/// Maximum set count of the global descriptor pool.
pub const GLOBAL_MAX_SETS: u32 = 0x1_0000;

/// The counts of the global descriptor pool, by type index.
pub open spec fn global_counts_spec() -> Seq<u32> {
    seq![
        GLOBAL_MAX_SETS,
        0x8_0000u32,
        0x8_0000u32,
        GLOBAL_MAX_SETS,
        GLOBAL_MAX_SETS,
        GLOBAL_MAX_SETS,
        GLOBAL_MAX_SETS,
        GLOBAL_MAX_SETS,
        0,
        0,
        256,
    ]
}

/// The global pool holds, per set it can allocate, one descriptor of each
/// plain resource type, eight combined image samplers and eight sampled
/// images; 256 input attachments in all; and no dynamic buffers.
pub proof fn law_global_pool_shares(t: DescriptorType)
    ensures
        global_counts_spec().len() == 11,
        global_counts_spec()[type_index(t)] as int == match t {
            DescriptorType::Sampler => 0x1_0000int,
            DescriptorType::CombinedImageSampler => 8 * 0x1_0000int,
            DescriptorType::SampledImage => 8 * 0x1_0000int,
            DescriptorType::StorageImage => 0x1_0000int,
            DescriptorType::UniformTexelBuffer => 0x1_0000int,
            DescriptorType::StorageTexelBuffer => 0x1_0000int,
            DescriptorType::UniformBuffer => 0x1_0000int,
            DescriptorType::StorageBuffer => 0x1_0000int,
            DescriptorType::UniformBufferDynamic => 0int,
            DescriptorType::StorageBufferDynamic => 0int,
            DescriptorType::InputAttachment => 256int,
        },
{
}

/// Returns a reasonable number of descriptor sets and pool sizes for a
/// global descriptor pool.
pub fn global_descriptor_counts() -> (r: (u32, DescriptorCounts))
    ensures
        r.0 == GLOBAL_MAX_SETS,
        r.1@ == global_counts_spec(),
{
    let max_sets = GLOBAL_MAX_SETS;
    let pairs = [
        (DescriptorType::Sampler, 1 * max_sets),
        (DescriptorType::CombinedImageSampler, 8 * max_sets),
        (DescriptorType::SampledImage, 8 * max_sets),
        (DescriptorType::StorageImage, 1 * max_sets),
        (DescriptorType::UniformTexelBuffer, 1 * max_sets),
        (DescriptorType::StorageTexelBuffer, 1 * max_sets),
        (DescriptorType::UniformBuffer, 1 * max_sets),
        (DescriptorType::StorageBuffer, 1 * max_sets),
        (DescriptorType::InputAttachment, 256),
    ];
    let counts = DescriptorCounts::from_pairs(pairs.as_slice());
    proof {
        reveal_with_fuel(pair_last, 10);
        assert(counts@ =~= global_counts_spec());
    }
    (max_sets, counts)
}

// Descriptor set layout creation flag.
pub const LAYOUT_UPDATE_AFTER_BIND_POOL: u32 = 0x2;

// Descriptor pool creation flags.
pub const POOL_FREE_DESCRIPTOR_SET: u32 = 0x1;
pub const POOL_UPDATE_AFTER_BIND: u32 = 0x2;

/// Pool creation flags needed by sets of a layout with `layout_flags`.
pub open spec fn required_pool_flags_spec(layout_flags: u32) -> u32 {
    if layout_flags & LAYOUT_UPDATE_AFTER_BIND_POOL == LAYOUT_UPDATE_AFTER_BIND_POOL {
        POOL_UPDATE_AFTER_BIND
    } else {
        0u32
    }
}

/// A pool with `pool_flags` can hold sets of a layout with `layout_flags`.
pub open spec fn pool_allows(pool_flags: u32, layout_flags: u32) -> bool {
    pool_flags & required_pool_flags_spec(layout_flags) == required_pool_flags_spec(layout_flags)
}

/// A descriptor set layout: its bindings and descriptor totals.
#[derive(Clone, Debug)]
pub struct DescriptorSetLayout {
    flags: u32,
    bindings: Vec<DescriptorSetLayoutBinding>,
    counts: DescriptorCounts,
}

impl DescriptorSetLayout {
    pub closed spec fn flags_spec(&self) -> u32 {
        self.flags
    }

    pub closed spec fn bindings_spec(&self) -> Seq<DescriptorSetLayoutBinding> {
        self.bindings@
    }

    pub closed spec fn counts_spec(&self) -> Seq<u32> {
        self.counts@
    }

    /// The counts that sets of this layout carry are the layout's counts.
    pub proof fn lemma_counts(&self)
        ensures
            self.counts_value()@ == self.counts_spec(),
    {
    }

    pub closed spec fn counts_value(&self) -> DescriptorCounts {
        self.counts
    }

    /// A well-formed layout counts, for each descriptor type, the total
    /// descriptor count of its bindings of that type.
    pub proof fn lemma_counts_of_bindings(&self)
        requires
            self.wf(),
        ensures
            self.counts_spec().len() == DESCRIPTOR_TYPE_COUNT,
            forall|i: int| 0 <= i < DESCRIPTOR_TYPE_COUNT ==> #[trigger] self.counts_spec()[i] == pair_total(
                binding_pairs(self.bindings_spec()),
                type_at(i),
            ),
    {
    }

    pub closed spec fn wf(&self) -> bool {
        &&& self.counts@ == self.counts_value()@
        &&& self.counts@.len() == DESCRIPTOR_TYPE_COUNT
        &&& forall|i: int| 0 <= i < DESCRIPTOR_TYPE_COUNT ==> #[trigger] self.counts@[i] == pair_total(
            binding_pairs(self.bindings@),
            type_at(i),
        )
    }

    /// Creates a layout of `bindings`, whose types must all be supported.
    pub fn new(flags: u32, bindings: Vec<DescriptorSetLayoutBinding>) -> (r: Self)
        requires
            forall|i: int| 0 <= i < bindings@.len() ==> valid_type(#[trigger] bindings@[i].descriptor_type),
            forall|t: DescriptorType| #[trigger] pair_total(binding_pairs(bindings@), t) <= u32::MAX,
        ensures
            r.wf(),
            r.flags_spec() == flags,
            r.bindings_spec() == bindings@,
            r.counts_spec().len() == DESCRIPTOR_TYPE_COUNT,
            forall|i: int| 0 <= i < DESCRIPTOR_TYPE_COUNT ==> #[trigger] r.counts_spec()[i] == pair_total(
                binding_pairs(bindings@),
                type_at(i),
            ),
    {
        let counts = count_descriptors(bindings.as_slice());
        DescriptorSetLayout { flags, bindings, counts }
    }

    pub fn flags(&self) -> (r: u32)
        ensures
            r == self.flags_spec(),
    {
        self.flags
    }

    pub fn bindings(&self) -> (r: &[DescriptorSetLayoutBinding])
        ensures
            r@ == self.bindings_spec(),
    {
        self.bindings.as_slice()
    }

    pub fn counts(&self) -> (r: &DescriptorCounts)
        ensures
            r@ == self.counts_spec(),
            *r == self.counts_value(),
    {
        &self.counts
    }

    /// Pool creation flags that a pool must have to allocate sets of this
    /// layout.
    pub fn required_pool_flags(&self) -> (r: u32)
        ensures
            r == required_pool_flags_spec(self.flags_spec()),
    {
        let mut flags: u32 = 0;
        if self.flags & LAYOUT_UPDATE_AFTER_BIND_POOL == LAYOUT_UPDATE_AFTER_BIND_POOL {
            flags = flags | POOL_UPDATE_AFTER_BIND;
        }
        proof {
            assert(0u32 | POOL_UPDATE_AFTER_BIND == POOL_UPDATE_AFTER_BIND) by (bit_vector);
        }
        flags
    }
}

/// A descriptor set allocated from the pool with identifier `pool`; it
/// carries the descriptor counts of its layout.
#[derive(Clone, Copy, Debug, PartialEq, Eq)]
pub struct DescriptorSet {
    pub pool: u64,
    pub counts: DescriptorCounts,
}

/// `after` is `before` with `n` more sets of descriptor counts `counts`
/// in use; nothing else about the pool changed.
pub open spec fn usage_added(before: DescriptorPool, after: DescriptorPool, counts: Seq<u32>, n: int) -> bool {
    &&& after.id_spec() == before.id_spec()
    &&& after.flags_spec() == before.flags_spec()
    &&& after.max_sets_spec() == before.max_sets_spec()
    &&& after.max_descriptors_spec() == before.max_descriptors_spec()
    &&& after.used_sets_spec() == before.used_sets_spec() + n
    &&& after.used_descriptors_spec().len() == before.used_descriptors_spec().len()
    &&& forall|i: int|
        0 <= i < DESCRIPTOR_TYPE_COUNT ==> #[trigger] after.used_descriptors_spec()[i]
            == before.used_descriptors_spec()[i] + counts[i] * n
}

/// `after` is `before` with one set of descriptor counts `counts` no
/// longer in use; nothing else about the pool changed.
pub open spec fn usage_removed(before: DescriptorPool, after: DescriptorPool, counts: Seq<u32>) -> bool {
    &&& after.id_spec() == before.id_spec()
    &&& after.flags_spec() == before.flags_spec()
    &&& after.max_sets_spec() == before.max_sets_spec()
    &&& after.max_descriptors_spec() == before.max_descriptors_spec()
    &&& after.used_sets_spec() == before.used_sets_spec() - 1
    &&& after.used_descriptors_spec().len() == before.used_descriptors_spec().len()
    &&& forall|i: int|
        0 <= i < DESCRIPTOR_TYPE_COUNT ==> #[trigger] after.used_descriptors_spec()[i]
            == before.used_descriptors_spec()[i] - counts[i]
}

/// Accounting of a fixed-size general-purpose descriptor pool.
#[derive(Debug)]
pub struct DescriptorPool {
    id: u64,
    flags: u32,
    // Note: limits are not hard but are informative
    max_sets: u32,
    used_sets: u32,
    max_descriptors: DescriptorCounts,
    used_descriptors: DescriptorCounts,
}

impl DescriptorPool {
    pub closed spec fn id_spec(&self) -> u64 {
        self.id
    }

    pub closed spec fn flags_spec(&self) -> u32 {
        self.flags
    }

    pub closed spec fn max_sets_spec(&self) -> u32 {
        self.max_sets
    }

    pub closed spec fn used_sets_spec(&self) -> u32 {
        self.used_sets
    }

    pub closed spec fn max_descriptors_spec(&self) -> Seq<u32> {
        self.max_descriptors@
    }

    pub closed spec fn used_descriptors_spec(&self) -> Seq<u32> {
        self.used_descriptors@
    }

    /// Creates the accounting of pool `id`; the maximum descriptor counts
    /// come from `pool_sizes`, a later entry for a type replacing an
    /// earlier one.
    pub fn new(id: u64, flags: u32, max_sets: u32, pool_sizes: &[DescriptorPoolSize]) -> (r: Self)
        requires
            max_sets > 0,
        ensures
            r.id_spec() == id,
            r.flags_spec() == flags,
            r.max_sets_spec() == max_sets,
            r.used_sets_spec() == 0,
            forall|i: int| 0 <= i < DESCRIPTOR_TYPE_COUNT ==> #[trigger] r.max_descriptors_spec()[i]
                == pair_last(size_pairs(pool_sizes@), type_at(i)),
            forall|i: int| 0 <= i < DESCRIPTOR_TYPE_COUNT ==> #[trigger] r.used_descriptors_spec()[i] == 0,
    {
        let mut pairs: Vec<(DescriptorType, u32)> = Vec::new();
        let n = pool_sizes.len();
        let mut k: usize = 0;
        while k < n
            invariant
                0 <= k <= n,
                n == pool_sizes@.len(),
                pairs@ == size_pairs(pool_sizes@).subrange(0, k as int),
            decreases n - k,
        {
            let s = pool_sizes[k];
            pairs.push((s.ty, s.descriptor_count));
            proof {
                assert(pairs@ =~= size_pairs(pool_sizes@).subrange(0, k + 1));
            }
            k = k + 1;
        }
        proof {
            assert(pairs@ =~= size_pairs(pool_sizes@));
        }
        let max_descriptors = DescriptorCounts::from_pairs(pairs.as_slice());
        DescriptorPool {
            id,
            flags,
            max_sets,
            used_sets: 0,
            max_descriptors,
            used_descriptors: DescriptorCounts::new(),
        }
    }

    pub fn can_free(&self) -> (r: bool)
        ensures
            r == (self.flags_spec() & POOL_FREE_DESCRIPTOR_SET == POOL_FREE_DESCRIPTOR_SET),
    {
        self.flags & POOL_FREE_DESCRIPTOR_SET == POOL_FREE_DESCRIPTOR_SET
    }

    pub fn max_sets(&self) -> (r: u32)
        ensures
            r == self.max_sets_spec(),
    {
        self.max_sets
    }

    pub fn used_sets(&self) -> (r: u32)
        ensures
            r == self.used_sets_spec(),
    {
        self.used_sets
    }

    pub fn max_descriptors(&self) -> (r: &DescriptorCounts)
        ensures
            r@ == self.max_descriptors_spec(),
    {
        &self.max_descriptors
    }

    pub fn used_descriptors(&self) -> (r: &DescriptorCounts)
        ensures
            r@ == self.used_descriptors_spec(),
    {
        &self.used_descriptors
    }

    /// Accounts for `count` sets of `layout`; the pool must have the
    /// flags the layout requires.
    pub fn alloc_many(&mut self, layout: &DescriptorSetLayout, count: u32) -> (r: Vec<DescriptorSet>)
        requires
            layout.wf(),
            pool_allows(old(self).flags_spec(), layout.flags_spec()),
            old(self).used_sets_spec() + count <= u32::MAX,
            forall|i: int| 0 <= i < DESCRIPTOR_TYPE_COUNT ==> #[trigger] layout.counts_spec()[i] * count <= u32::MAX,
            forall|i: int| 0 <= i < DESCRIPTOR_TYPE_COUNT ==> #[trigger] old(self).used_descriptors_spec()[i]
                + layout.counts_spec()[i] * count <= u32::MAX,
        ensures
            usage_added(*old(self), *final(self), layout.counts_spec(), count as int),
            r@.len() == count,
            forall|j: int| 0 <= j < count ==> #[trigger] r@[j] == (DescriptorSet {
                pool: old(self).id_spec(),
                counts: layout.counts_value(),
            }),
    {
        let required = layout.required_pool_flags();
        assert(self.flags & required == required);

        self.used_sets = self.used_sets + count;
        let added = layout.counts().mul_scalar(count);
        proof {
            assert forall|i: int| 0 <= i < DESCRIPTOR_TYPE_COUNT implies self.used_descriptors@[i]
                + added@[i] <= u32::MAX by {
                assert(added@[i] == layout.counts_spec()[i] * count);
                assert(old(self).used_descriptors_spec()[i] + layout.counts_spec()[i] * count <= u32::MAX);
            }
        }
        self.used_descriptors = self.used_descriptors.add_counts(&added);

        let mut sets: Vec<DescriptorSet> = Vec::new();
        let mut j: u32 = 0;
        while j < count
            invariant
                0 <= j <= count,
                sets@.len() == j,
                forall|k: int| 0 <= k < j ==> #[trigger] sets@[k] == (DescriptorSet {
                    pool: self.id,
                    counts: layout.counts_value(),
                }),
            decreases count - j,
        {
            sets.push(DescriptorSet { pool: self.id, counts: *layout.counts() });
            j = j + 1;
        }
        sets
    }

    /// Accounts for one set of `layout`.
    pub fn allocate(&mut self, layout: &DescriptorSetLayout) -> (r: DescriptorSet)
        requires
            layout.wf(),
            pool_allows(old(self).flags_spec(), layout.flags_spec()),
            old(self).used_sets_spec() + 1 <= u32::MAX,
            forall|i: int| 0 <= i < DESCRIPTOR_TYPE_COUNT ==> #[trigger] old(self).used_descriptors_spec()[i]
                + layout.counts_spec()[i] <= u32::MAX,
        ensures
            usage_added(*old(self), *final(self), layout.counts_spec(), 1),
            r == (DescriptorSet { pool: old(self).id_spec(), counts: layout.counts_value() }),
    {
        let mut sets = self.alloc_many(layout, 1);
        sets.pop().unwrap()
    }

    /// Accounts for freeing `set`, which must come from this pool, and the
    /// pool must allow freeing.
    pub fn free(&mut self, set: &DescriptorSet)
        requires
            old(self).flags_spec() & POOL_FREE_DESCRIPTOR_SET == POOL_FREE_DESCRIPTOR_SET,
            set.pool == old(self).id_spec(),
            old(self).used_sets_spec() >= 1,
            forall|i: int| 0 <= i < DESCRIPTOR_TYPE_COUNT ==> #[trigger] set.counts@[i]
                <= old(self).used_descriptors_spec()[i],
        ensures
            usage_removed(*old(self), *final(self), set.counts@),
    {
        assert(self.flags & POOL_FREE_DESCRIPTOR_SET == POOL_FREE_DESCRIPTOR_SET);
        assert(self.id == set.pool);

        self.used_sets = self.used_sets - 1;
        self.used_descriptors = self.used_descriptors.sub_counts(&set.counts);
    }
}

pub open spec fn size_pairs(sizes: Seq<DescriptorPoolSize>) -> Seq<(DescriptorType, u32)> {
    Seq::new(sizes.len(), |i: int| (sizes[i].ty, sizes[i].descriptor_count))
}

/// Accounting of the global descriptor pool: sets may be freed, and the
/// limits are those of `global_descriptor_counts`.
pub fn create_global_descriptor_pool(id: u64) -> (r: DescriptorPool)
    ensures
        r.id_spec() == id,
        r.flags_spec() == POOL_FREE_DESCRIPTOR_SET,
        r.max_sets_spec() == GLOBAL_MAX_SETS,
        r.used_sets_spec() == 0,
        forall|i: int| 0 <= i < DESCRIPTOR_TYPE_COUNT ==> #[trigger] r.max_descriptors_spec()[i]
            == global_counts_spec()[i],
        forall|i: int| 0 <= i < DESCRIPTOR_TYPE_COUNT ==> #[trigger] r.used_descriptors_spec()[i] == 0,
{
    let (max_sets, max_descriptors) = global_descriptor_counts();
    let sizes = pool_sizes(&max_descriptors);
    let r = DescriptorPool::new(id, POOL_FREE_DESCRIPTOR_SET, max_sets, sizes.as_slice());
    proof {
        lemma_pair_last_nonzero(max_descriptors@, DESCRIPTOR_TYPE_COUNT as int);
    }
    r
}

/// Reading back the pool sizes of non-zero counts gives the counts.
proof fn lemma_pair_last_nonzero(counts: Seq<u32>, n: int)
    requires
        0 <= n <= DESCRIPTOR_TYPE_COUNT,
        counts.len() == DESCRIPTOR_TYPE_COUNT,
    ensures
        forall|i: int| 0 <= i < DESCRIPTOR_TYPE_COUNT ==> #[trigger] pair_last(
            size_pairs(nonzero_sizes(counts, n)),
            type_at(i),
        ) == if i < n {
            counts[i]
        } else {
            0
        },
    decreases n,
{
    if n > 0 {
        lemma_pair_last_nonzero(counts, n - 1);
        let prev = nonzero_sizes(counts, n - 1);
        let cur = nonzero_sizes(counts, n);
        assert forall|i: int| 0 <= i < DESCRIPTOR_TYPE_COUNT implies #[trigger] pair_last(
            size_pairs(cur),
            type_at(i),
        ) == if i < n {
            counts[i]
        } else {
            0
        } by {
            assert(type_at(i) == type_at(n - 1) <==> i == n - 1);
            let before = pair_last(size_pairs(prev), type_at(i));
            assert(before == if i < n - 1 {
                counts[i]
            } else {
                0
            });
            if counts[n - 1] > 0 {
                assert(size_pairs(cur).drop_last() =~= size_pairs(prev));
                assert(size_pairs(cur).last() == (type_at(n - 1), counts[n - 1]));
                assert(size_pairs(cur).len() > 0);
                if i == n - 1 {
                    assert(pair_last(size_pairs(cur), type_at(i)) == counts[n - 1]);
                } else {
                    assert(pair_last(size_pairs(cur), type_at(i)) == pair_last(
                        size_pairs(cur).drop_last(),
                        type_at(i),
                    ));
                }
            } else {
                assert(cur == prev);
            }
        }
    }
}

/// Whether `binding` may receive `count` buffers starting at element
/// `first`, the buffers being bound as `kinds`: there is at least one, they
/// fit in the binding, and each matches the binding's descriptor type.
pub open spec fn buffer_write_ok(binding: DescriptorSetLayoutBinding, first: u32, kinds: Seq<BufferBinding>) -> bool {
    &&& kinds.len() != 0
    &&& first + kinds.len() <= binding.descriptor_count
    &&& forall|i: int|
        0 <= i < kinds.len() ==> match #[trigger] kinds[i] {
            BufferBinding::Uniform => binding.descriptor_type == DescriptorType::UniformBuffer,
            BufferBinding::Storage => binding.descriptor_type == DescriptorType::StorageBuffer,
            _ => false,
        }
}

/// Checks a write of uniform or storage buffers into a set's binding.
pub fn validate_buffer_write(binding: &DescriptorSetLayoutBinding, first: u32, kinds: &[BufferBinding]) -> (r: bool)
    ensures
        r == buffer_write_ok(*binding, first, kinds@),
{
    if kinds.len() == 0 {
        return false;
    }
    if kinds.len() > binding.descriptor_count as usize {
        return false;
    }
    if kinds.len() as u64 + first as u64 > binding.descriptor_count as u64 {
        return false;
    }
    let ty = binding.descriptor_type;
    let mut i: usize = 0;
    while i < kinds.len()
        invariant
            i <= kinds@.len(),
            ty == binding.descriptor_type,
            forall|j: int|
                0 <= j < i ==> match #[trigger] kinds@[j] {
                    BufferBinding::Uniform => ty == DescriptorType::UniformBuffer,
                    BufferBinding::Storage => ty == DescriptorType::StorageBuffer,
                    _ => false,
                },
        decreases kinds@.len() - i,
    {
        let ok = match kinds[i] {
            BufferBinding::Uniform => is_uniform_buffer(ty),
            BufferBinding::Storage => is_storage_buffer(ty),
            _ => false,
        };
        if !ok {
            return false;
        }
        i = i + 1;
    }
    true
}

/// A range of a buffer, as a buffer descriptor names it: the buffer's
/// identifier, how the buffer is bound, and the range's offset and size.
#[derive(Clone, Copy, Debug, PartialEq, Eq, Structural)]
pub struct BufferRange {
    pub buffer: u64,
    pub binding: BufferBinding,
    pub offset: u64,
    pub size: u64,
}

/// What a buffer descriptor is written with.
#[derive(Clone, Copy, Debug, PartialEq, Eq, Structural)]
pub struct DescriptorBufferInfo {
    pub buffer: u64,
    pub offset: u64,
    pub range: u64,
}

/// A write of consecutive buffer descriptors into one binding of a set.
#[derive(Clone, Debug)]
pub struct BufferWrite {
    pub binding: u32,
    pub first_element: u32,
    pub descriptor_count: u32,
    pub descriptor_type: DescriptorType,
    pub buffer_infos: Vec<DescriptorBufferInfo>,
}

/// How each of `buffers` is bound.
pub open spec fn range_kinds(buffers: Seq<BufferRange>) -> Seq<BufferBinding> {
    Seq::new(buffers.len(), |i: int| buffers[i].binding)
}

/// The descriptor info of a buffer range: the buffer, the offset and the
/// size as the range.
pub open spec fn buffer_info_spec(b: BufferRange) -> DescriptorBufferInfo {
    DescriptorBufferInfo { buffer: b.buffer, offset: b.offset, range: b.size }
}

/// The write of uniform or storage `buffers` into binding `binding` of
/// `layout`, from element `first_element` on: one descriptor per buffer,
/// of the binding's type, with the buffers' infos in their order. Texel
/// buffers need a buffer view and are not written this way.
pub fn buffer_write(layout: &DescriptorSetLayout, binding: u32, first_element: u32, buffers: &[BufferRange]) -> (r:
    BufferWrite)
    requires
        binding < layout.bindings_spec().len(),
        buffer_write_ok(layout.bindings_spec()[binding as int], first_element, range_kinds(buffers@)),
    ensures
        r.binding == binding,
        r.first_element == first_element,
        r.descriptor_count == buffers@.len(),
        r.descriptor_type == layout.bindings_spec()[binding as int].descriptor_type,
        r.buffer_infos@.len() == buffers@.len(),
        forall|i: int| 0 <= i < buffers@.len() ==> #[trigger] r.buffer_infos@[i] == buffer_info_spec(buffers@[i]),
{
    let layout_binding = layout.bindings()[binding as usize];
    let mut infos: Vec<DescriptorBufferInfo> = Vec::new();
    let mut k: usize = 0;
    while k < buffers.len()
        invariant
            0 <= k <= buffers@.len(),
            infos@.len() == k,
            forall|i: int| 0 <= i < k ==> #[trigger] infos@[i] == buffer_info_spec(buffers@[i]),
        decreases buffers@.len() - k,
    {
        let b = buffers[k];
        infos.push(DescriptorBufferInfo { buffer: b.buffer, offset: b.offset, range: b.size });
        k = k + 1;
    }
    proof {
        assert(range_kinds(buffers@).len() == buffers@.len());
    }
    BufferWrite {
        binding,
        first_element,
        descriptor_count: buffers.len() as u32,
        descriptor_type: layout_binding.descriptor_type,
        buffer_infos: infos,
    }
}

/// The descriptor types that hold images.
pub open spec fn is_image_type(ty: DescriptorType) -> bool {
    ty == DescriptorType::CombinedImageSampler || ty == DescriptorType::SampledImage || ty
        == DescriptorType::StorageImage || ty == DescriptorType::InputAttachment
}

/// Whether an image with flags `flags` (with a sampler where `has_sampler`)
/// may be written to element `element` of `binding`: the element exists,
/// the image supports the access the descriptor type makes, and a sampler
/// comes exactly with combined image samplers.
pub open spec fn image_write_ok(
    binding: DescriptorSetLayoutBinding,
    element: u32,
    flags: ImageFlags,
    has_sampler: bool,
) -> bool {
    let ty = binding.descriptor_type;
    &&& element < binding.descriptor_count
    &&& is_image_type(ty)
    &&& (ty == DescriptorType::CombinedImageSampler || ty == DescriptorType::SampledImage) ==> !has_bit(
        flags.bits,
        NO_SAMPLE,
    )
    &&& ty == DescriptorType::StorageImage ==> has_bit(flags.bits, STORAGE)
    &&& ty == DescriptorType::InputAttachment ==> has_bit(flags.bits, INPUT_ATTACHMENT)
    &&& (ty == DescriptorType::CombinedImageSampler) == has_sampler
}

/// Checks a write of one image into a set's binding.
pub fn validate_image_write(
    binding: &DescriptorSetLayoutBinding,
    element: u32,
    flags: ImageFlags,
    has_sampler: bool,
) -> (r: bool)
    ensures
        r == image_write_ok(*binding, element, flags, has_sampler),
{
    let ty = binding.descriptor_type;
    if element >= binding.descriptor_count {
        return false;
    }
    let access_ok = match ty {
        DescriptorType::CombinedImageSampler | DescriptorType::SampledImage => !flags.contains(NO_SAMPLE),
        DescriptorType::StorageImage => flags.contains(STORAGE),
        DescriptorType::InputAttachment => flags.contains(INPUT_ATTACHMENT),
        _ => false,
    };
    access_ok && (ty == DescriptorType::CombinedImageSampler) == has_sampler
}

/// The layout that an image of format `format` is read in through a
/// descriptor of type `ty`.
pub open spec fn image_write_layout_spec(ty: DescriptorType, format: Format) -> ImageLayout {
    if ty == DescriptorType::StorageImage {
        ImageLayout::General
    } else if ty == DescriptorType::InputAttachment {
        input_layout_spec(format)
    } else if depth_stencil(format) {
        ImageLayout::DepthStencilReadOnlyOptimal
    } else {
        ImageLayout::ShaderReadOnlyOptimal
    }
}

/// The layout an image is in while a descriptor of type `ty` reads it.
pub fn image_write_layout(ty: DescriptorType, format: Format) -> (r: ImageLayout)
    requires
        is_image_type(ty),
    ensures
        r == image_write_layout_spec(ty, format),
{
    match ty {
        DescriptorType::StorageImage => ImageLayout::General,
        DescriptorType::InputAttachment => input_attachment_layout(format),
        _ => {
            if format.is_depth_stencil() {
                ImageLayout::DepthStencilReadOnlyOptimal
            } else {
                ImageLayout::ShaderReadOnlyOptimal
            }
        },
    }
}

/// `VK_SHADER_STAGE_ALL`.
pub const SHADER_STAGE_ALL: u32 = 0x7fff_ffff;

/// The set layouts that every renderer shares.
#[derive(Debug)]
pub struct BuiltinSetLayouts {
    pub example_globals: Arc<DescriptorSetLayout>,
    pub example_instances: Arc<DescriptorSetLayout>,
}

impl BuiltinSetLayouts {
    /// Both layouts are one layout: a single storage buffer visible to
    /// all stages.
    pub fn new() -> (r: Self)
        ensures
            r.example_globals.wf(),
            r.example_globals.flags_spec() == 0,
            r.example_globals.bindings_spec() == seq![
                DescriptorSetLayoutBinding {
                    binding: 0,
                    descriptor_type: DescriptorType::StorageBuffer,
                    descriptor_count: 1,
                    stage_flags: SHADER_STAGE_ALL,
                },
            ],
            *r.example_instances == *r.example_globals,
    {
        let mut bindings: Vec<DescriptorSetLayoutBinding> = Vec::new();
        bindings.push(
            DescriptorSetLayoutBinding {
                binding: 0,
                descriptor_type: DescriptorType::StorageBuffer,
                descriptor_count: 1,
                stage_flags: SHADER_STAGE_ALL,
            },
        );
        proof {
            assert forall|t: DescriptorType| #[trigger] pair_total(binding_pairs(bindings@), t) <= u32::MAX by {
                let pairs = binding_pairs(bindings@);
                assert(pairs.drop_last().len() == 0);
                reveal_with_fuel(pair_total, 2);
            }
        }
        let example = Arc::new(DescriptorSetLayout::new(0, bindings));
        BuiltinSetLayouts { example_globals: Arc::clone(&example), example_instances: example }
    }
}

// ---------------------------------------------------------------------
// Laws
// ---------------------------------------------------------------------

/// Freeing a set right after allocating it gives back the pool as it
/// was before the allocation: `p1` is `p0` after `allocate` handed out
/// `set`, and `p2` is `p1` after `free` of `set`.
pub proof fn law_free_undoes_alloc(p0: DescriptorPool, p1: DescriptorPool, p2: DescriptorPool, set: DescriptorSet)
    requires
        usage_added(p0, p1, set.counts@, 1),
        usage_removed(p1, p2, set.counts@),
    ensures
        p2.id_spec() == p0.id_spec(),
        p2.flags_spec() == p0.flags_spec(),
        p2.max_sets_spec() == p0.max_sets_spec(),
        p2.max_descriptors_spec() == p0.max_descriptors_spec(),
        p2.used_sets_spec() == p0.used_sets_spec(),
        p2.used_descriptors_spec() == p0.used_descriptors_spec(),
{
    assert(p2.used_descriptors_spec() =~= p0.used_descriptors_spec());
}


/// Reading back the pool sizes of descriptor counts gives the counts:
/// each type's last (and only) size is its count, zero for a type with
/// no size.
pub proof fn law_pool_sizes_read_back(counts: Seq<u32>)
    requires
        counts.len() == DESCRIPTOR_TYPE_COUNT,
    ensures
        forall|i: int| 0 <= i < DESCRIPTOR_TYPE_COUNT ==> #[trigger] pair_last(
            size_pairs(nonzero_sizes(counts, DESCRIPTOR_TYPE_COUNT as int)),
            type_at(i),
        ) == counts[i],
{
    lemma_pair_last_nonzero(counts, DESCRIPTOR_TYPE_COUNT as int);
}

proof fn lemma_pair_total_absent(pairs: Seq<(DescriptorType, u32)>, t: DescriptorType)
    requires
        forall|k: int| 0 <= k < pairs.len() ==> (#[trigger] pairs[k]).0 != t,
    ensures
        pair_total(pairs, t) == 0,
    decreases pairs.len(),
{
    if pairs.len() > 0 {
        let q = pairs.drop_last();
        assert forall|k: int| 0 <= k < q.len() implies (#[trigger] q[k]).0 != t by {
            assert(q[k] == pairs[k]);
        }
        lemma_pair_total_absent(q, t);
        assert(pairs.last() == pairs[pairs.len() - 1]);
    }
}

/// Where no descriptor type occurs twice, summing the pairs and keeping
/// each type's last pair give the same count for every type.
pub proof fn law_sum_is_last_without_repeats(pairs: Seq<(DescriptorType, u32)>, t: DescriptorType)
    requires
        forall|a: int, b: int| 0 <= a < b < pairs.len() ==> (#[trigger] pairs[a]).0 != (#[trigger] pairs[b]).0,
    ensures
        pair_total(pairs, t) == pair_last(pairs, t),
    decreases pairs.len(),
{
    if pairs.len() > 0 {
        let q = pairs.drop_last();
        let n = pairs.len() - 1;
        assert forall|a: int, b: int| 0 <= a < b < q.len() implies (#[trigger] q[a]).0 != (#[trigger] q[b]).0 by {
            assert(q[a] == pairs[a] && q[b] == pairs[b]);
        }
        law_sum_is_last_without_repeats(q, t);
        assert(pairs.last() == pairs[n]);
        if pairs[n].0 == t {
            assert forall|k: int| 0 <= k < q.len() implies (#[trigger] q[k]).0 != t by {
                assert(q[k] == pairs[k]);
                assert(pairs[k].0 != pairs[n].0);
            }
            lemma_pair_total_absent(q, t);
        }
    }
}

} // verus!
