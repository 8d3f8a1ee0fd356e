use vstd::prelude::*;
use vstd::std_specs::bits::u32_leading_zeros;

use crate::format::{depth_stencil, format_aspects, Format};

verus! {

// Vulkan image usage bits.
pub const IMAGE_USAGE_TRANSFER_DST: u32 = 0x2;
pub const IMAGE_USAGE_SAMPLED: u32 = 0x4;
pub const IMAGE_USAGE_STORAGE: u32 = 0x8;
pub const IMAGE_USAGE_COLOR_ATTACHMENT: u32 = 0x10;
pub const IMAGE_USAGE_DEPTH_STENCIL_ATTACHMENT: u32 = 0x20;
pub const IMAGE_USAGE_INPUT_ATTACHMENT: u32 = 0x80;

// Vulkan image creation flag.
pub const IMAGE_CREATE_CUBE_COMPATIBLE: u32 = 0x10;

/// How an image is going to be used.
#[derive(Clone, Copy, Debug, Default, PartialEq, Eq, Structural, Hash)]
pub struct ImageFlags {
    pub bits: u32,
}

/// Image will not be sampled by shaders.
pub const NO_SAMPLE: u32 = 0x1;
/// Image may be used as a shader storage image.
pub const STORAGE: u32 = 0x2;
/// Image may be used as a color attachment.
pub const COLOR_ATTACHMENT: u32 = 0x4;
/// Image may be used as a depth/stencil attachment.
pub const DEPTH_STENCIL_ATTACHMENT: u32 = 0x8;
/// Image may be used as an input attachment.
pub const INPUT_ATTACHMENT: u32 = 0x10;

pub open spec fn has_bit(bits: u32, flag: u32) -> bool {
    bits & flag == flag
}

/// Vulkan usage of images with `bits`.
pub open spec fn usage_spec(bits: u32) -> u32 {
    (if has_bit(bits, STORAGE) { IMAGE_USAGE_STORAGE } else { 0u32 })
    | (if has_bit(bits, COLOR_ATTACHMENT) { IMAGE_USAGE_COLOR_ATTACHMENT } else { 0u32 })
    | (if has_bit(bits, DEPTH_STENCIL_ATTACHMENT) { IMAGE_USAGE_DEPTH_STENCIL_ATTACHMENT } else { 0u32 })
    | (if has_bit(bits, INPUT_ATTACHMENT) { IMAGE_USAGE_INPUT_ATTACHMENT } else { 0u32 })
    | (if !has_bit(bits, NO_SAMPLE) { IMAGE_USAGE_SAMPLED } else { 0u32 })
    | (if bits & (COLOR_ATTACHMENT | DEPTH_STENCIL_ATTACHMENT) == 0 { IMAGE_USAGE_TRANSFER_DST } else { 0u32 })
}

/// Each image flag grants its own Vulkan usage: storage (0x8), color
/// attachment (0x10), depth/stencil attachment (0x20) and input
/// attachment (0x80) exactly when the flag is set; sampling (0x4) unless
/// the image is never sampled; transfer destination (0x2) exactly when
/// the image is no render target; and no other usage.
pub proof fn law_usage_bits(bits: u32)
    ensures
        (usage_spec(bits) & 0x8 != 0) == (bits & 0x2 != 0),
        (usage_spec(bits) & 0x10 != 0) == (bits & 0x4 != 0),
        (usage_spec(bits) & 0x20 != 0) == (bits & 0x8 != 0),
        (usage_spec(bits) & 0x80 != 0) == (bits & 0x10 != 0),
        (usage_spec(bits) & 0x4 != 0) == (bits & 0x1 == 0),
        (usage_spec(bits) & 0x2 != 0) == (bits & 0xC == 0),
        usage_spec(bits) & !0xBEu32 == 0,
{
    let u = usage_spec(bits);
    assert(COLOR_ATTACHMENT | DEPTH_STENCIL_ATTACHMENT == 0xCu32) by (bit_vector);
    assert(u == (if bits & 2 == 2 { 8u32 } else { 0u32 }) | (if bits & 4 == 4 { 0x10u32 } else { 0u32 }) | (
    if bits & 8 == 8 { 0x20u32 } else { 0u32 }) | (if bits & 0x10 == 0x10 { 0x80u32 } else { 0u32 }) | (if !(bits & 1
        == 1) { 4u32 } else { 0u32 }) | (if bits & 0xCu32 == 0 { 2u32 } else { 0u32 }));
    assert({
        let v = (if bits & 2 == 2 { 8u32 } else { 0u32 }) | (if bits & 4 == 4 { 0x10u32 } else { 0u32 }) | (
        if bits & 8 == 8 { 0x20u32 } else { 0u32 }) | (if bits & 0x10 == 0x10 { 0x80u32 } else { 0u32 }) | (if !(bits
            & 1 == 1) { 4u32 } else { 0u32 }) | (if bits & 0xCu32 == 0 { 2u32 } else { 0u32 });
        &&& (v & 0x8 != 0) == (bits & 0x2 != 0)
        &&& (v & 0x10 != 0) == (bits & 0x4 != 0)
        &&& (v & 0x20 != 0) == (bits & 0x8 != 0)
        &&& (v & 0x80 != 0) == (bits & 0x10 != 0)
        &&& (v & 0x4 != 0) == (bits & 0x1 == 0)
        &&& (v & 0x2 != 0) == (bits & 0xC == 0)
        &&& v & !0xBEu32 == 0
    }) by (bit_vector);
}

impl ImageFlags {
    pub fn contains(self, flag: u32) -> (r: bool)
        ensures
            r == has_bit(self.bits, flag),
    {
        self.bits & flag == flag
    }

    pub fn is_render_target(self) -> (r: bool)
        ensures
            r == (self.bits & (COLOR_ATTACHMENT | DEPTH_STENCIL_ATTACHMENT) != 0),
    {
        self.bits & (COLOR_ATTACHMENT | DEPTH_STENCIL_ATTACHMENT) != 0
    }

    pub fn is_attachment(self) -> (r: bool)
        ensures
            r == (self.bits & (COLOR_ATTACHMENT | DEPTH_STENCIL_ATTACHMENT | INPUT_ATTACHMENT) != 0),
    {
        self.bits & (COLOR_ATTACHMENT | DEPTH_STENCIL_ATTACHMENT | INPUT_ATTACHMENT) != 0
    }

    /// Vulkan image usage for these flags: one usage per attachment or
    /// storage flag, sampling unless `NO_SAMPLE`, and transfer
    /// destination for images that are not render targets.
    pub fn usage(self) -> (r: u32)
        ensures
            r == usage_spec(self.bits),
    {
        let storage = if self.contains(STORAGE) {
            IMAGE_USAGE_STORAGE
        } else {
            0
        };
        let color = if self.contains(COLOR_ATTACHMENT) {
            IMAGE_USAGE_COLOR_ATTACHMENT
        } else {
            0
        };
        let depth = if self.contains(DEPTH_STENCIL_ATTACHMENT) {
            IMAGE_USAGE_DEPTH_STENCIL_ATTACHMENT
        } else {
            0
        };
        let input = if self.contains(INPUT_ATTACHMENT) {
            IMAGE_USAGE_INPUT_ATTACHMENT
        } else {
            0
        };
        let sampled = if !self.contains(NO_SAMPLE) {
            IMAGE_USAGE_SAMPLED
        } else {
            0
        };
        let transfer = if !self.is_render_target() {
            IMAGE_USAGE_TRANSFER_DST
        } else {
            0
        };
        storage | color | depth | input | sampled | transfer
    }
}

/// Dimensionality of an image.
#[derive(Clone, Copy, Debug, PartialEq, Eq, Structural, Hash)]
pub enum ImageType {
    /// One-dimensional image or image array.
    OneDim,
    /// Two-dimensional image or image array other than a cube map.
    TwoDim,
    /// Three-dimensional image.
    ThreeDim,
    /// A cube or cube array, which is a type of 2D array.
    Cube,
}

/// Vulkan image view types.
#[derive(Clone, Copy, Debug, PartialEq, Eq, Structural, Hash)]
pub enum ImageViewType {
    OneDim,
    TwoDim,
    ThreeDim,
    Cube,
    OneDimArray,
    TwoDimArray,
    CubeArray,
}

/// Vulkan image types.
#[derive(Clone, Copy, Debug, PartialEq, Eq, Structural, Hash)]
pub enum VkImageType {
    OneDim,
    TwoDim,
    ThreeDim,
}

pub open spec fn compatible_view(ty: ImageType, view: ImageViewType) -> bool {
    match ty {
        ImageType::OneDim => view == ImageViewType::OneDim || view == ImageViewType::OneDimArray,
        ImageType::TwoDim => view == ImageViewType::TwoDim || view == ImageViewType::TwoDimArray,
        ImageType::ThreeDim => view == ImageViewType::ThreeDim,
        ImageType::Cube => view == ImageViewType::TwoDim || view == ImageViewType::TwoDimArray || view
            == ImageViewType::Cube || view == ImageViewType::CubeArray,
    }
}

pub open spec fn vk_type_of(ty: ImageType) -> VkImageType {
    match ty {
        ImageType::OneDim => VkImageType::OneDim,
        ImageType::TwoDim | ImageType::Cube => VkImageType::TwoDim,
        ImageType::ThreeDim => VkImageType::ThreeDim,
    }
}

impl ImageType {
    /// Image creation flags for this type.
    pub fn flags(self) -> (r: u32)
        ensures
            r == if self == ImageType::Cube {
                IMAGE_CREATE_CUBE_COMPATIBLE
            } else {
                0u32
            },
    {
        match self {
            ImageType::Cube => IMAGE_CREATE_CUBE_COMPATIBLE,
            _ => 0,
        }
    }

    /// Whether a view of type `view` may be created on images of this
    /// type (2D array compatibility of 3D images is not supported).
    pub fn compat_view(self, view: ImageViewType) -> (r: bool)
        ensures
            r == compatible_view(self, view),
    {
        match self {
            ImageType::OneDim => view == ImageViewType::OneDim || view == ImageViewType::OneDimArray,
            ImageType::TwoDim => view == ImageViewType::TwoDim || view == ImageViewType::TwoDimArray,
            ImageType::ThreeDim => view == ImageViewType::ThreeDim,
            ImageType::Cube => view == ImageViewType::TwoDim || view == ImageViewType::TwoDimArray || view
                == ImageViewType::Cube || view == ImageViewType::CubeArray,
        }
    }

    /// The Vulkan image type.
    pub fn vk_type(self) -> (r: VkImageType)
        ensures
            r == vk_type_of(self),
    {
        match self {
            ImageType::OneDim => VkImageType::OneDim,
            ImageType::TwoDim | ImageType::Cube => VkImageType::TwoDim,
            ImageType::ThreeDim => VkImageType::ThreeDim,
        }
    }

    /// View type of the default view of an image with `layers` layers.
    pub fn default_view_type(self, layers: u32) -> (r: ImageViewType)
        ensures
            r == match self {
                ImageType::OneDim => if layers == 0 { ImageViewType::OneDim } else { ImageViewType::OneDimArray },
                ImageType::TwoDim => if layers == 0 { ImageViewType::TwoDim } else { ImageViewType::TwoDimArray },
                ImageType::ThreeDim => ImageViewType::ThreeDim,
                ImageType::Cube => if layers == 0 { ImageViewType::Cube } else { ImageViewType::CubeArray },
            },
    {
        match self {
            ImageType::OneDim => if layers == 0 {
                ImageViewType::OneDim
            } else {
                ImageViewType::OneDimArray
            },
            ImageType::TwoDim => if layers == 0 {
                ImageViewType::TwoDim
            } else {
                ImageViewType::TwoDimArray
            },
            ImageType::ThreeDim => ImageViewType::ThreeDim,
            ImageType::Cube => if layers == 0 {
                ImageViewType::Cube
            } else {
                ImageViewType::CubeArray
            },
        }
    }
}

#[derive(Clone, Copy, Debug, PartialEq, Eq, Structural, Hash)]
pub struct Extent3D {
    pub width: u32,
    pub height: u32,
    pub depth: u32,
}

/// Index of the highest set bit of a non-zero number.
pub open spec fn floor_log2(n: u32) -> int {
    31 - u32_leading_zeros(n)
}

pub open spec fn mip_levels_spec(e: Extent3D) -> int {
    vstd::math::max(vstd::math::max(floor_log2(e.width), floor_log2(e.height)), floor_log2(e.depth)) + 1
}

fn log2(n: u32) -> (r: u32)
    requires
        n > 0,
    ensures
        r == floor_log2(n),
        r < 32,
{
    proof {
        vstd::std_specs::bits::axiom_u32_leading_zeros(n);
    }
    31 - n.leading_zeros()
}

/// Number of mip levels of a full mip chain for an extent.
pub fn num_mip_levels(extent: Extent3D) -> (r: u32)
    requires
        extent.width > 0,
        extent.height > 0,
        extent.depth > 0,
    ensures
        r == mip_levels_spec(extent),
        1 <= r <= 32,
{
    let w = log2(extent.width);
    let h = log2(extent.height);
    let d = log2(extent.depth);
    let m = if w > h { w } else { h };
    let m = if m > d { m } else { d };
    m + 1
}

/// The device limits that image validation depends on.
#[derive(Clone, Copy, Debug, PartialEq, Eq, Structural)]
pub struct ImageLimits {
    pub max_image_dimension_1d: u32,
    pub max_image_dimension_2d: u32,
    pub max_image_dimension_3d: u32,
    pub max_image_dimension_cube: u32,
    pub max_image_array_layers: u32,
    pub max_framebuffer_width: u32,
    pub max_framebuffer_height: u32,
    pub max_framebuffer_layers: u32,
}

pub open spec fn max_dim(limits: ImageLimits, ty: ImageType) -> u32 {
    match ty {
        ImageType::OneDim => limits.max_image_dimension_1d,
        ImageType::TwoDim => limits.max_image_dimension_2d,
        ImageType::ThreeDim => limits.max_image_dimension_3d,
        ImageType::Cube => limits.max_image_dimension_cube,
    }
}

/// The (partial) validity conditions of image creation.
pub open spec fn image_creation_valid(
    limits: ImageLimits,
    flags: ImageFlags,
    ty: ImageType,
    format: Format,
    extent: Extent3D,
    mip_levels: u32,
    layers: u32,
) -> bool {
    let attachment = flags.bits & (COLOR_ATTACHMENT | DEPTH_STENCIL_ATTACHMENT | INPUT_ATTACHMENT) != 0;
    &&& extent.width > 0
    &&& extent.height > 0
    &&& extent.depth > 0
    &&& mip_levels > 0
    &&& mip_levels <= mip_levels_spec(extent)
    &&& layers > 0
    &&& extent.width <= max_dim(limits, ty)
    &&& extent.height <= max_dim(limits, ty)
    &&& extent.depth <= max_dim(limits, ty)
    &&& layers <= limits.max_image_array_layers
    &&& ty == ImageType::Cube ==> extent.width == extent.height && layers >= 6
    &&& vk_type_of(ty) == VkImageType::OneDim ==> extent.height == 1 && extent.depth == 1
    &&& vk_type_of(ty) == VkImageType::TwoDim ==> extent.depth == 1
    &&& attachment ==> extent.width <= limits.max_framebuffer_width && extent.height
        <= limits.max_framebuffer_height && layers <= limits.max_framebuffer_layers
    &&& has_bit(flags.bits, DEPTH_STENCIL_ATTACHMENT) ==> depth_stencil(format)
}

/// Checks the conditions that image creation places on its arguments.
pub fn validate_image_creation(
    limits: &ImageLimits,
    flags: ImageFlags,
    ty: ImageType,
    format: Format,
    extent: Extent3D,
    mip_levels: u32,
    layers: u32,
) -> (r: bool)
    ensures
        r == image_creation_valid(*limits, flags, ty, format, extent, mip_levels, layers),
{
    if !(extent.width > 0 && extent.height > 0 && extent.depth > 0) {
        return false;
    }
    if !(mip_levels > 0 && mip_levels <= num_mip_levels(extent) && layers > 0) {
        return false;
    }
    let max_dim = match ty {
        ImageType::OneDim => limits.max_image_dimension_1d,
        ImageType::TwoDim => limits.max_image_dimension_2d,
        ImageType::ThreeDim => limits.max_image_dimension_3d,
        ImageType::Cube => limits.max_image_dimension_cube,
    };
    if !(extent.width <= max_dim && extent.height <= max_dim && extent.depth <= max_dim) {
        return false;
    }
    if !(layers <= limits.max_image_array_layers) {
        return false;
    }
    if ty == ImageType::Cube && !(extent.width == extent.height && layers >= 6) {
        return false;
    }
    let dim = ty.vk_type();
    if dim == VkImageType::OneDim && !(extent.height == 1 && extent.depth == 1) {
        return false;
    } else if dim == VkImageType::TwoDim && extent.depth != 1 {
        return false;
    }
    if flags.is_attachment() {
        if !(extent.width <= limits.max_framebuffer_width && extent.height <= limits.max_framebuffer_height
            && layers <= limits.max_framebuffer_layers) {
            return false;
        }
    }
    if flags.contains(DEPTH_STENCIL_ATTACHMENT) && !format.is_depth_stencil() {
        return false;
    }
    true
}

/// The parts of an image that a view covers.
#[derive(Clone, Copy, Debug, PartialEq, Eq, Structural, Hash)]
pub struct SubresourceRange {
    pub aspect_mask: u32,
    pub base_mip_level: u32,
    pub level_count: u32,
    pub base_array_layer: u32,
    pub layer_count: u32,
}

/// What view validation needs to know of an image.
#[derive(Clone, Copy, Debug, PartialEq, Eq, Structural, Hash)]
pub struct ImageInfo {
    pub ty: ImageType,
    pub format: Format,
    pub mip_levels: u32,
    pub layers: u32,
}

pub open spec fn range_ok(base: u32, len: u32, max: u32) -> bool {
    base < max && len > 0 && base + len <= max
}

fn range_check(base: u32, len: u32, max: u32) -> (r: bool)
    ensures
        r == range_ok(base, len, max),
{
    base < max && len > 0 && (base as u64) + (len as u64) <= max as u64
}

/// The (partial) validity conditions of image view creation.
pub open spec fn view_creation_valid(
    image: ImageInfo,
    ty: ImageViewType,
    format: Format,
    range: SubresourceRange,
) -> bool {
    &&& compatible_view(image.ty, ty)
    &&& ty == ImageViewType::Cube ==> range.layer_count == 6
    &&& ty == ImageViewType::CubeArray ==> range.layer_count % 6 == 0
    &&& format == image.format
    &&& has_bit(format_aspects(format), range.aspect_mask)
    &&& range_ok(range.base_mip_level, range.level_count, image.mip_levels)
    &&& range_ok(range.base_array_layer, range.layer_count, image.layers)
}

/// Checks the conditions that view creation places on its arguments.
pub fn validate_image_view_creation(
    image: &ImageInfo,
    ty: ImageViewType,
    format: Format,
    range: SubresourceRange,
) -> (r: bool)
    ensures
        r == view_creation_valid(*image, ty, format, range),
{
    if !image.ty.compat_view(ty) {
        return false;
    }
    if ty == ImageViewType::Cube && range.layer_count != 6 {
        return false;
    } else if ty == ImageViewType::CubeArray && range.layer_count % 6 != 0 {
        return false;
    }
    // Mutable formats are not yet supported
    if format != image.format {
        return false;
    }
    if format.aspects() & range.aspect_mask != range.aspect_mask {
        return false;
    }
    range_check(range.base_mip_level, range.level_count, image.mip_levels) && range_check(
        range.base_array_layer,
        range.layer_count,
        image.layers,
    )
}

} // verus!
