use vstd::prelude::*;

use crate::format::{format_aspects, format_size, Format, SampleCount};
use crate::image::{range_ok, Extent3D, SubresourceRange};
use crate::render_pass::ImageLayout;

verus! {

/// `VK_ACCESS_TRANSFER_WRITE_BIT`.
pub const ACCESS_TRANSFER_WRITE: u32 = 0x1000;

/// Bump allocator over a staging buffer of fixed capacity.
#[derive(Clone, Copy, Debug)]
pub struct LinearAllocator {
    capacity: u64,
    used: u64,
}

impl LinearAllocator {
    pub closed spec fn capacity_spec(&self) -> u64 {
        self.capacity
    }

    pub closed spec fn used_spec(&self) -> u64 {
        self.used
    }

    /// No more than the capacity is handed out.
    pub closed spec fn wf(&self) -> bool {
        self.used <= self.capacity
    }

    /// `size` more bytes can be handed out.
    pub open spec fn fits(&self, size: int) -> bool {
        self.used_spec() + size <= self.capacity_spec()
    }

    /// An empty allocator over `capacity` bytes.
    pub fn new(capacity: u64) -> (r: Self)
        ensures
            r.wf(),
            r.capacity_spec() == capacity,
            r.used_spec() == 0,
    {
        LinearAllocator { capacity, used: 0 }
    }

    pub fn capacity(&self) -> (r: u64)
        ensures
            r == self.capacity_spec(),
    {
        self.capacity
    }

    pub fn used(&self) -> (r: u64)
        ensures
            r == self.used_spec(),
    {
        self.used
    }

    /// Hands out the next `size` bytes: their offset, or `None`, with
    /// nothing changed, where they do not fit.
    pub fn allocate(&mut self, size: u64) -> (r: Option<u64>)
        requires
            old(self).wf(),
        ensures
            final(self).wf(),
            final(self).capacity_spec() == old(self).capacity_spec(),
            r is Some <==> old(self).fits(size as int),
            r matches Some(offset) ==> offset == old(self).used_spec() && final(self).used_spec()
                == old(self).used_spec() + size,
            r is None ==> final(self).used_spec() == old(self).used_spec(),
    {
        if size > self.capacity - self.used {
            return None;
        }
        let offset = self.used;
        self.used = self.used + size;
        Some(offset)
    }

    /// Forgets every allocation.
    pub fn clear(&mut self)
        ensures
            final(self).wf(),
            final(self).capacity_spec() == old(self).capacity_spec(),
            final(self).used_spec() == 0,
    {
        self.used = 0;
    }
}

/// What an upload needs to know of the image it fills.
#[derive(Clone, Copy, Debug, PartialEq, Eq, Structural)]
pub struct UploadImage {
    pub format: Format,
    pub samples: SampleCount,
    pub extent: Extent3D,
    pub mip_levels: u32,
    pub layers: u32,
}

/// One dimension at mip level `level`: halved per level, at least one.
pub open spec fn mip_dim(d: u32, level: u32) -> u32 {
    if d >> level == 0 {
        1
    } else {
        d >> level
    }
}

/// The extent of mip level `level`.
pub open spec fn mip_extent(e: Extent3D, level: u32) -> Extent3D {
    Extent3D { width: mip_dim(e.width, level), height: mip_dim(e.height, level), depth: mip_dim(e.depth, level) }
}

/// Bytes of one mip level of the range: every layer of it.
pub open spec fn level_size(image: UploadImage, sub: SubresourceRange, level: u32) -> int {
    let e = mip_extent(image.extent, level);
    e.width * e.height * e.depth * format_size(image.format) * sub.layer_count
}

/// Where the `k`-th level of the range starts in the staged data: the
/// levels lie one after the other from the base level on.
pub open spec fn mip_offset(image: UploadImage, sub: SubresourceRange, k: nat) -> int
    decreases k,
{
    if k == 0 {
        0
    } else {
        mip_offset(image, sub, (k - 1) as nat) + level_size(image, sub, (sub.base_mip_level + k - 1) as u32)
    }
}

/// Bytes that the range of subresources takes.
pub open spec fn subresource_size(image: UploadImage, sub: SubresourceRange) -> int {
    mip_offset(image, sub, sub.level_count as nat)
}

/// The range names existing levels and layers of the image, every aspect
/// of its format, and levels whose extent can be computed.
pub open spec fn upload_range_valid(image: UploadImage, sub: SubresourceRange) -> bool {
    &&& range_ok(sub.base_mip_level, sub.level_count, image.mip_levels)
    &&& range_ok(sub.base_array_layer, sub.layer_count, image.layers)
    &&& sub.aspect_mask == format_aspects(image.format)
    &&& sub.base_mip_level + sub.level_count <= 32
}

/// A copy of staged data into one mip level of an image.
#[derive(Clone, Copy, Debug, PartialEq, Eq, Structural)]
pub struct BufferImageCopy {
    pub buffer_offset: u64,
    pub mip_level: u32,
    pub aspect_mask: u32,
    pub base_array_layer: u32,
    pub layer_count: u32,
    pub extent: Extent3D,
}

/// A layout transition of the uploaded subresources.
#[derive(Clone, Copy, Debug, PartialEq, Eq, Structural)]
pub struct ImageBarrier {
    pub src_access: u32,
    pub dst_access: u32,
    pub old_layout: ImageLayout,
    pub new_layout: ImageLayout,
    pub range: SubresourceRange,
}

/// How to upload a range of an image: where its data is staged, one copy
/// per mip level, and the barriers around the copies.
#[derive(Clone, Debug)]
pub struct ImageUploadPlan {
    pub offset: u64,
    pub size: u64,
    pub copies: Vec<BufferImageCopy>,
    pub pre_barrier: Option<ImageBarrier>,
    pub post_barrier: ImageBarrier,
}

/// Copy `k` of an upload staged at `offset`.
pub open spec fn upload_copy(image: UploadImage, sub: SubresourceRange, offset: int, k: int) -> BufferImageCopy {
    BufferImageCopy {
        buffer_offset: (offset + mip_offset(image, sub, k as nat)) as u64,
        mip_level: (sub.base_mip_level + k) as u32,
        aspect_mask: sub.aspect_mask,
        base_array_layer: sub.base_array_layer,
        layer_count: sub.layer_count,
        extent: mip_extent(image.extent, (sub.base_mip_level + k) as u32),
    }
}

proof fn lemma_mip_offset_grows(image: UploadImage, sub: SubresourceRange, j: nat, k: nat)
    requires
        j <= k,
    ensures
        mip_offset(image, sub, j) <= mip_offset(image, sub, k),
    decreases k,
{
    if j < k {
        lemma_mip_offset_grows(image, sub, j, (k - 1) as nat);
        lemma_level_size_positive(image, sub, (sub.base_mip_level + k - 1) as u32);
    }
}

proof fn lemma_level_size_positive(image: UploadImage, sub: SubresourceRange, level: u32)
    ensures
        level_size(image, sub, level) >= 0,
{
    let e = mip_extent(image.extent, level);
    lemma_product_nonneg(e.width as int, e.height as int, e.depth as int, format_size(image.format) as int, sub.layer_count as int);
}

proof fn lemma_product_nonneg(a: int, b: int, c: int, d: int, f: int)
    by (nonlinear_arith)
    requires
        a >= 0,
        b >= 0,
        c >= 0,
        d >= 0,
        f >= 0,
    ensures
        a * b * c * d * f >= 0,
{
}

/// `x * y` where both are at least one is at least `x`.
proof fn lemma_factor_le(x: int, y: int)
    requires
        x >= 1,
        y >= 1,
    ensures
        x <= x * y,
{
    assert(x <= x * y) by (nonlinear_arith)
        requires
            x >= 1,
            y >= 1,
    ;
}

fn mip_dim_exec(d: u32, level: u32) -> (r: u32)
    requires
        level < 32,
    ensures
        r == mip_dim(d, level),
        r >= 1,
{
    let s = d >> level;
    if s == 0 {
        1
    } else {
        s
    }
}

/// The extent of mip level `level` of an image of extent `e`.
pub fn mip_level_extent(e: Extent3D, level: u32) -> (r: Extent3D)
    requires
        level < 32,
    ensures
        r == mip_extent(e, level),
{
    Extent3D {
        width: mip_dim_exec(e.width, level),
        height: mip_dim_exec(e.height, level),
        depth: mip_dim_exec(e.depth, level),
    }
}

/// Bytes of mip level `level` of the range, where they fit in `u64`.
fn level_bytes(image: &UploadImage, sub: &SubresourceRange, level: u32) -> (r: u64)
    requires
        level < 32,
        sub.layer_count >= 1,
        level_size(*image, *sub, level) <= u64::MAX,
    ensures
        r == level_size(*image, *sub, level),
{
    let e = mip_level_extent(image.extent, level);
    let fs = image.format.size() as u64;
    let w = e.width as u64;
    let h = e.height as u64;
    let d = e.depth as u64;
    let n = sub.layer_count as u64;
    proof {
        let a: int = w * h;
        let b: int = a * d;
        let c: int = b * fs;
        lemma_factor_le(w as int, h as int);
        lemma_factor_le(a, d as int);
        lemma_factor_le(b, fs as int);
        lemma_factor_le(c, n as int);
    }
    w * h * d * fs * n
}

/// The size in bytes of a range of subresources of an image.
pub fn subresource_bytes(image: &UploadImage, sub: &SubresourceRange) -> (r: u64)
    requires
        upload_range_valid(*image, *sub),
        subresource_size(*image, *sub) <= u64::MAX,
    ensures
        r == subresource_size(*image, *sub),
{
    let mut total: u64 = 0;
    let mut k: u32 = 0;
    while k < sub.level_count
        invariant
            k <= sub.level_count,
            upload_range_valid(*image, *sub),
            subresource_size(*image, *sub) <= u64::MAX,
            total == mip_offset(*image, *sub, k as nat),
        decreases sub.level_count - k,
    {
        proof {
            lemma_mip_offset_grows(*image, *sub, (k + 1) as nat, sub.level_count as nat);
            lemma_level_size_positive(*image, *sub, (sub.base_mip_level + k) as u32);
        }
        let level = sub.base_mip_level + k;
        let bytes = level_bytes(image, sub, level);
        total = total + bytes;
        k = k + 1;
    }
    total
}

/// Plans the upload of a range of subresources of a single-sampled image
/// through `staging`: the data of the range is staged in one allocation,
/// its mip levels one after the other from the base level on; each level
/// is copied from where it lies; an optional barrier first moves the
/// range from an undefined layout to the transfer destination layout,
/// and a barrier after the copies moves it to `final_layout` for
/// accesses `access`. `None` where the staging buffer has no room, with
/// the allocator unchanged.
pub fn plan_image_upload(
    image: &UploadImage,
    sub: SubresourceRange,
    emit_pre_barrier: bool,
    final_layout: ImageLayout,
    access: u32,
    staging: &mut LinearAllocator,
) -> (r: Option<ImageUploadPlan>)
    requires
        old(staging).wf(),
        upload_range_valid(*image, sub),
        image.samples == SampleCount::One,
        subresource_size(*image, sub) <= u64::MAX,
    ensures
        final(staging).wf(),
        final(staging).capacity_spec() == old(staging).capacity_spec(),
        r is None <==> !old(staging).fits(subresource_size(*image, sub)),
        r is None ==> final(staging).used_spec() == old(staging).used_spec(),
        r matches Some(p) ==> {
            &&& p.offset == old(staging).used_spec()
            &&& p.size == subresource_size(*image, sub)
            &&& final(staging).used_spec() == old(staging).used_spec() + subresource_size(*image, sub)
            &&& p.copies@.len() == sub.level_count
            &&& forall|k: int| 0 <= k < sub.level_count ==> #[trigger] p.copies@[k] == upload_copy(
                *image,
                sub,
                p.offset as int,
                k,
            )
            &&& (p.pre_barrier is Some <==> emit_pre_barrier)
            &&& p.pre_barrier matches Some(b) ==> b == (ImageBarrier {
                src_access: 0,
                dst_access: ACCESS_TRANSFER_WRITE,
                old_layout: ImageLayout::Undefined,
                new_layout: ImageLayout::TransferDstOptimal,
                range: sub,
            })
            &&& p.post_barrier == (ImageBarrier {
                src_access: ACCESS_TRANSFER_WRITE,
                dst_access: access,
                old_layout: ImageLayout::TransferDstOptimal,
                new_layout: final_layout,
                range: sub,
            })
        },
{
    let size = subresource_bytes(image, &sub);
    let offset = match staging.allocate(size) {
        Some(o) => o,
        None => return None,
    };
    let mut copies: Vec<BufferImageCopy> = Vec::new();
    let mut level_offset: u64 = 0;
    let mut k: u32 = 0;
    while k < sub.level_count
        invariant
            k <= sub.level_count,
            upload_range_valid(*image, sub),
            subresource_size(*image, sub) == size,
            offset + size <= u64::MAX,
            level_offset == mip_offset(*image, sub, k as nat),
            copies@.len() == k,
            forall|j: int| 0 <= j < k ==> #[trigger] copies@[j] == upload_copy(*image, sub, offset as int, j),
        decreases sub.level_count - k,
    {
        proof {
            lemma_mip_offset_grows(*image, sub, (k + 1) as nat, sub.level_count as nat);
            lemma_mip_offset_grows(*image, sub, k as nat, sub.level_count as nat);
            lemma_level_size_positive(*image, sub, (sub.base_mip_level + k) as u32);
        }
        let level = sub.base_mip_level + k;
        copies.push(
            BufferImageCopy {
                buffer_offset: offset + level_offset,
                mip_level: level,
                aspect_mask: sub.aspect_mask,
                base_array_layer: sub.base_array_layer,
                layer_count: sub.layer_count,
                extent: mip_level_extent(image.extent, level),
            },
        );
        let bytes = level_bytes(image, &sub, level);
        level_offset = level_offset + bytes;
        k = k + 1;
    }
    let pre_barrier = if emit_pre_barrier {
        Some(
            ImageBarrier {
                src_access: 0,
                dst_access: ACCESS_TRANSFER_WRITE,
                old_layout: ImageLayout::Undefined,
                new_layout: ImageLayout::TransferDstOptimal,
                range: sub,
            },
        )
    } else {
        None
    };
    let post_barrier = ImageBarrier {
        src_access: ACCESS_TRANSFER_WRITE,
        dst_access: access,
        old_layout: ImageLayout::TransferDstOptimal,
        new_layout: final_layout,
        range: sub,
    };
    Some(ImageUploadPlan { offset, size, copies, pre_barrier, post_barrier })
}

} // verus!
