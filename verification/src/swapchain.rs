use vstd::prelude::*;

use crate::image::{IMAGE_USAGE_COLOR_ATTACHMENT, IMAGE_USAGE_TRANSFER_DST};

verus! {

/// `VK_FORMAT_B8G8R8A8_SRGB`, the format swapchain images are made in.
pub const SWAPCHAIN_FORMAT: u32 = 50;

/// `VK_COLOR_SPACE_SRGB_NONLINEAR_KHR`.
pub const SWAPCHAIN_COLOR_SPACE: u32 = 0;

/// `VK_COMPOSITE_ALPHA_OPAQUE_BIT_KHR`.
pub const COMPOSITE_ALPHA_OPAQUE: u32 = 0x1;

/// A two-dimensional size in pixels.
#[derive(Clone, Copy, Debug, PartialEq, Eq, Structural, Hash, Default)]
pub struct Extent2D {
    pub width: u32,
    pub height: u32,
}

/// What the surface reports about the swapchains it supports.
#[derive(Clone, Copy, Debug, PartialEq, Eq, Structural)]
pub struct SurfaceCapabilities {
    pub min_image_count: u32,
    /// Zero where there is no limit.
    pub max_image_count: u32,
    pub current_extent: Extent2D,
    pub supported_composite_alpha: u32,
    pub supported_usage_flags: u32,
}

/// A format and color space pair that the surface supports.
#[derive(Clone, Copy, Debug, PartialEq, Eq, Structural)]
pub struct SurfaceFormat {
    pub format: u32,
    pub color_space: u32,
}

/// Why a swapchain cannot be made for a surface.
#[derive(Clone, Copy, Debug, PartialEq, Eq, Structural)]
pub enum SwapchainError {
    FormatNotSupported,
    CompositeAlphaUnavailable,
    UsageNotSupported,
}

impl SwapchainError {
    /// The text the error is reported with.
    pub fn message(self) -> (r: &'static str)
        ensures
            r@ == match self {
                SwapchainError::FormatNotSupported => "surface format not supported"@,
                SwapchainError::CompositeAlphaUnavailable => "swapchain composite alpha mode not available"@,
                SwapchainError::UsageNotSupported => "swapchain image usage not supported"@,
            },
    {
        match self {
            SwapchainError::FormatNotSupported => "surface format not supported",
            SwapchainError::CompositeAlphaUnavailable => "swapchain composite alpha mode not available",
            SwapchainError::UsageNotSupported => "swapchain image usage not supported",
        }
    }
}

/// The parameters a swapchain is created with.
#[derive(Clone, Copy, Debug, PartialEq, Eq, Structural)]
pub struct SwapchainConfig {
    pub min_image_count: u32,
    pub extent: Extent2D,
    pub image_usage: u32,
    pub composite_alpha: u32,
}

/// The usage that swapchain images are created with.
pub open spec fn swapchain_usage() -> u32 {
    IMAGE_USAGE_COLOR_ATTACHMENT | IMAGE_USAGE_TRANSFER_DST
}

/// One image more than the surface's minimum, within its maximum.
pub open spec fn image_count_for(caps: SurfaceCapabilities) -> u32 {
    let max: u32 = if caps.max_image_count == 0 { u32::MAX } else { caps.max_image_count };
    if caps.min_image_count + 1 <= max {
        (caps.min_image_count + 1) as u32
    } else {
        max
    }
}

pub open spec fn offers_srgb(formats: Seq<SurfaceFormat>) -> bool {
    exists|i: int|
        0 <= i < formats.len() && (#[trigger] formats[i]).format == SWAPCHAIN_FORMAT && formats[i].color_space
            == SWAPCHAIN_COLOR_SPACE
}

/// A window's surface has a usable extent: defined by the surface, and
/// not empty (as it is while the window is minimized).
pub open spec fn extent_usable(extent: Extent2D) -> bool {
    &&& !(extent.width == u32::MAX && extent.height == u32::MAX)
    &&& !(extent.width == 0 && extent.height == 0)
}

/// The outcome of choosing a swapchain's parameters for a surface.
pub open spec fn swapchain_outcome(
    caps: SurfaceCapabilities,
    formats: Seq<SurfaceFormat>,
) -> Result<SwapchainConfig, SwapchainError> {
    if !offers_srgb(formats) {
        Err(SwapchainError::FormatNotSupported)
    } else if caps.supported_composite_alpha & COMPOSITE_ALPHA_OPAQUE == 0 {
        Err(SwapchainError::CompositeAlphaUnavailable)
    } else if caps.supported_usage_flags & swapchain_usage() != swapchain_usage() {
        Err(SwapchainError::UsageNotSupported)
    } else {
        Ok(
            SwapchainConfig {
                min_image_count: image_count_for(caps),
                extent: caps.current_extent,
                image_usage: swapchain_usage(),
                composite_alpha: COMPOSITE_ALPHA_OPAQUE,
            },
        )
    }
}

/// Chooses the parameters of a swapchain from what the surface reports.
pub fn choose_swapchain_config(caps: &SurfaceCapabilities, formats: &[SurfaceFormat]) -> (r: Result<
    SwapchainConfig,
    SwapchainError,
>)
    requires
        caps.min_image_count < u32::MAX,
        offers_srgb(formats@) ==> extent_usable(caps.current_extent),
    ensures
        r == swapchain_outcome(*caps, formats@),
{
    let max_image_count = if caps.max_image_count == 0 {
        u32::MAX
    } else {
        caps.max_image_count
    };
    let min_image_count = if caps.min_image_count + 1 <= max_image_count {
        caps.min_image_count + 1
    } else {
        max_image_count
    };
    let mut found = false;
    let mut i: usize = 0;
    while i < formats.len()
        invariant
            i <= formats@.len(),
            found == exists|j: int|
                0 <= j < i && (#[trigger] formats@[j]).format == SWAPCHAIN_FORMAT && formats@[j].color_space
                    == SWAPCHAIN_COLOR_SPACE,
        decreases formats@.len() - i,
    {
        let f = formats[i];
        if f.format == SWAPCHAIN_FORMAT && f.color_space == SWAPCHAIN_COLOR_SPACE {
            found = true;
        }
        i = i + 1;
    }
    if !found {
        return Err(SwapchainError::FormatNotSupported);
    }
    if caps.supported_composite_alpha & COMPOSITE_ALPHA_OPAQUE == 0 {
        return Err(SwapchainError::CompositeAlphaUnavailable);
    }
    let image_usage = IMAGE_USAGE_COLOR_ATTACHMENT | IMAGE_USAGE_TRANSFER_DST;
    if caps.supported_usage_flags & image_usage != image_usage {
        return Err(SwapchainError::UsageNotSupported);
    }
    Ok(
        SwapchainConfig {
            min_image_count,
            extent: caps.current_extent,
            image_usage,
            composite_alpha: COMPOSITE_ALPHA_OPAQUE,
        },
    )
}

} // verus!
