use vstd::prelude::*;

verus! {

// Vulkan image aspect bits.
pub const ASPECT_COLOR: u32 = 0x1;
pub const ASPECT_DEPTH: u32 = 0x2;
pub const ASPECT_STENCIL: u32 = 0x4;

/// A selection of the most useful data formats. Keep in mind that not
/// all devices/drivers support all formats.
///
/// # Naming conventions
///
/// No suffix means `_UNORM`. An `F` means `_SFLOAT`. The size is not
/// repeated for each component if they all are the same size.
#[allow(non_camel_case_types)]
#[derive(Clone, Copy, Debug, PartialEq, Eq, Structural, Hash)]
pub enum Format {
    R8,
    R16F,
    R32F,
    RG8,
    RG16,
    RG16F,
    RG32F,
    RGB8,
    RGB16F,
    RGB32F,
    RGBA8,
    RGBA8U,
    RGBA16F,
    RGBA32F,
    BGRA8_SRGB,
    D16,
    D32F,
    S8,
    D16_S8,
    D32F_S8,
}

/// Bytes per texel.
pub open spec fn format_size(f: Format) -> nat {
    match f {
        Format::R8 => 1,
        Format::R16F => 2,
        Format::R32F => 4,
        Format::RG8 => 2,
        Format::RG16 => 2,
        Format::RG16F => 4,
        Format::RG32F => 8,
        Format::RGB8 => 3,
        Format::RGB16F => 6,
        Format::RGB32F => 12,
        Format::RGBA8 => 4,
        Format::RGBA8U => 4,
        Format::RGBA16F => 8,
        Format::RGBA32F => 16,
        Format::BGRA8_SRGB => 4,
        Format::D16 => 2,
        Format::D32F => 4,
        Format::S8 => 1,
        Format::D16_S8 => 3,
        Format::D32F_S8 => 5,
    }
}

/// Image aspects that the format has.
pub open spec fn format_aspects(f: Format) -> u32 {
    match f {
        Format::R8 => ASPECT_COLOR,
        Format::R16F => ASPECT_COLOR,
        Format::R32F => ASPECT_COLOR,
        Format::RG8 => ASPECT_COLOR,
        Format::RG16 => ASPECT_COLOR,
        Format::RG16F => ASPECT_COLOR,
        Format::RG32F => ASPECT_COLOR,
        Format::RGB8 => ASPECT_COLOR,
        Format::RGB16F => ASPECT_COLOR,
        Format::RGB32F => ASPECT_COLOR,
        Format::RGBA8 => ASPECT_COLOR,
        Format::RGBA8U => ASPECT_COLOR,
        Format::RGBA16F => ASPECT_COLOR,
        Format::RGBA32F => ASPECT_COLOR,
        Format::BGRA8_SRGB => ASPECT_COLOR,
        Format::D16 => ASPECT_DEPTH,
        Format::D32F => ASPECT_DEPTH,
        Format::S8 => ASPECT_STENCIL,
        Format::D16_S8 => ASPECT_DEPTH | ASPECT_STENCIL,
        Format::D32F_S8 => ASPECT_DEPTH | ASPECT_STENCIL,
    }
}

/// Vulkan numeric value of the format.
pub open spec fn format_code(f: Format) -> u32 {
    match f {
        Format::R8 => 9,
        Format::R16F => 76,
        Format::R32F => 100,
        Format::RG8 => 16,
        Format::RG16 => 77,
        Format::RG16F => 83,
        Format::RG32F => 103,
        Format::RGB8 => 23,
        Format::RGB16F => 90,
        Format::RGB32F => 106,
        Format::RGBA8 => 37,
        Format::RGBA8U => 41,
        Format::RGBA16F => 97,
        Format::RGBA32F => 109,
        Format::BGRA8_SRGB => 50,
        Format::D16 => 124,
        Format::D32F => 126,
        Format::S8 => 127,
        Format::D16_S8 => 128,
        Format::D32F_S8 => 130,
    }
}

/// Bytes per texel block of a Vulkan format, by its `VkFormat` number,
/// as the Vulkan specification's format tables give them.
pub open spec fn vk_texel_block_bytes(code: u32) -> int {
    if code == 9 || code == 127 {
        1
    } else if code == 16 || code == 76 || code == 124 {
        2
    } else if code == 23 || code == 128 {
        3
    } else if code == 37 || code == 41 || code == 50 || code == 77 || code == 83 || code == 100 || code == 126 {
        4
    } else if code == 130 {
        5
    } else if code == 90 {
        6
    } else if code == 97 || code == 103 {
        8
    } else if code == 106 {
        12
    } else if code == 109 {
        16
    } else {
        0
    }
}

/// A format's size is the size of a texel of the Vulkan format it stands
/// for. The one exception is `RG16`, which is given 2 bytes where Vulkan's
/// `R16G16_UNORM` has 4.
pub proof fn law_size_is_texel_size(f: Format)
    requires
        f != Format::RG16,
    ensures
        format_size(f) == vk_texel_block_bytes(format_code(f)),
{
}

/// Formats with a depth or stencil aspect.
pub open spec fn depth_stencil(f: Format) -> bool {
    format_aspects(f) & (ASPECT_DEPTH | ASPECT_STENCIL) != 0
}

impl Format {
    pub fn aspects(self) -> (r: u32)
        ensures
            r == format_aspects(self),
    {
        match self {
            Format::R8 => ASPECT_COLOR,
            Format::R16F => ASPECT_COLOR,
            Format::R32F => ASPECT_COLOR,
            Format::RG8 => ASPECT_COLOR,
            Format::RG16 => ASPECT_COLOR,
            Format::RG16F => ASPECT_COLOR,
            Format::RG32F => ASPECT_COLOR,
            Format::RGB8 => ASPECT_COLOR,
            Format::RGB16F => ASPECT_COLOR,
            Format::RGB32F => ASPECT_COLOR,
            Format::RGBA8 => ASPECT_COLOR,
            Format::RGBA8U => ASPECT_COLOR,
            Format::RGBA16F => ASPECT_COLOR,
            Format::RGBA32F => ASPECT_COLOR,
            Format::BGRA8_SRGB => ASPECT_COLOR,
            Format::D16 => ASPECT_DEPTH,
            Format::D32F => ASPECT_DEPTH,
            Format::S8 => ASPECT_STENCIL,
            Format::D16_S8 => ASPECT_DEPTH | ASPECT_STENCIL,
            Format::D32F_S8 => ASPECT_DEPTH | ASPECT_STENCIL,
        }
    }

    pub fn size(self) -> (r: usize)
        ensures
            r == format_size(self),
            r > 0,
    {
        match self {
            Format::R8 => 1,
            Format::R16F => 2,
            Format::R32F => 4,
            Format::RG8 => 2,
            Format::RG16 => 2,
            Format::RG16F => 4,
            Format::RG32F => 8,
            Format::RGB8 => 3,
            Format::RGB16F => 6,
            Format::RGB32F => 12,
            Format::RGBA8 => 4,
            Format::RGBA8U => 4,
            Format::RGBA16F => 8,
            Format::RGBA32F => 16,
            Format::BGRA8_SRGB => 4,
            Format::D16 => 2,
            Format::D32F => 4,
            Format::S8 => 1,
            Format::D16_S8 => 3,
            Format::D32F_S8 => 5,
        }
    }

    /// The Vulkan format.
    pub fn vk_format(self) -> (r: u32)
        ensures
            r == format_code(self),
    {
        match self {
            Format::R8 => 9,
            Format::R16F => 76,
            Format::R32F => 100,
            Format::RG8 => 16,
            Format::RG16 => 77,
            Format::RG16F => 83,
            Format::RG32F => 103,
            Format::RGB8 => 23,
            Format::RGB16F => 90,
            Format::RGB32F => 106,
            Format::RGBA8 => 37,
            Format::RGBA8U => 41,
            Format::RGBA16F => 97,
            Format::RGBA32F => 109,
            Format::BGRA8_SRGB => 50,
            Format::D16 => 124,
            Format::D32F => 126,
            Format::S8 => 127,
            Format::D16_S8 => 128,
            Format::D32F_S8 => 130,
        }
    }

    pub fn is_depth_stencil(self) -> (r: bool)
        ensures
            r == depth_stencil(self),
            r == (self == Format::D16 || self == Format::D32F || self == Format::S8 || self == Format::D16_S8
                || self == Format::D32F_S8),
    {
        let a = self.aspects();
        proof {
            assert(1u32 & 6u32 == 0) by (bit_vector);
            assert(2u32 & 6u32 != 0) by (bit_vector);
            assert(4u32 & 6u32 != 0) by (bit_vector);
            assert(6u32 & 6u32 != 0) by (bit_vector);
            assert(ASPECT_DEPTH | ASPECT_STENCIL == 6u32) by (bit_vector);
        }
        a & (ASPECT_DEPTH | ASPECT_STENCIL) != 0
    }
}

/// Number of samples per texel.
#[derive(Clone, Copy, Debug, Default, PartialEq, Eq, Structural, Hash)]
pub enum SampleCount {
    #[default]
    One,
    Two,
    Four,
    Eight,
    Sixteen,
    ThirtyTwo,
    SixtyFour,
}

pub open spec fn sample_count_bits(s: SampleCount) -> u32 {
    match s {
        SampleCount::One => 0x1,
        SampleCount::Two => 0x2,
        SampleCount::Four => 0x4,
        SampleCount::Eight => 0x8,
        SampleCount::Sixteen => 0x10,
        SampleCount::ThirtyTwo => 0x20,
        SampleCount::SixtyFour => 0x40,
    }
}

impl SampleCount {
    /// The Vulkan sample count flag.
    pub fn vk_flags(self) -> (r: u32)
        ensures
            r == sample_count_bits(self),
    {
        match self {
            SampleCount::One => 0x1,
            SampleCount::Two => 0x2,
            SampleCount::Four => 0x4,
            SampleCount::Eight => 0x8,
            SampleCount::Sixteen => 0x10,
            SampleCount::ThirtyTwo => 0x20,
            SampleCount::SixtyFour => 0x40,
        }
    }
}

} // verus!
