//! Pixel formats of storage images.
use vstd::prelude::*;
use wgpu::TextureFormat;

verus! {

/// A pixel format that a storage image can have: every uncompressed format
/// that a device offers for storage without an optional feature.
#[derive(Clone, Copy, Debug, PartialEq, Eq, Structural)]
pub enum PixelFormat {
    Rgba8Unorm,
    Rgba8Snorm,
    Rgba8Uint,
    Rgba8Sint,
    R32Uint,
    R32Sint,
    R32Float,
    Rg32Uint,
    Rg32Sint,
    Rg32Float,
    Rgba16Uint,
    Rgba16Sint,
    Rgba16Float,
    Rgba32Uint,
    Rgba32Sint,
    Rgba32Float,
}

/// Size of one pixel of `format`, in bytes.
pub open spec fn bytes_per_pixel(format: PixelFormat) -> nat {
    match format {
        PixelFormat::Rgba8Unorm => 4,
        PixelFormat::Rgba8Snorm => 4,
        PixelFormat::Rgba8Uint => 4,
        PixelFormat::Rgba8Sint => 4,
        PixelFormat::R32Uint => 4,
        PixelFormat::R32Sint => 4,
        PixelFormat::R32Float => 4,
        PixelFormat::Rg32Uint => 8,
        PixelFormat::Rg32Sint => 8,
        PixelFormat::Rg32Float => 8,
        PixelFormat::Rgba16Uint => 8,
        PixelFormat::Rgba16Sint => 8,
        PixelFormat::Rgba16Float => 8,
        PixelFormat::Rgba32Uint => 16,
        PixelFormat::Rgba32Sint => 16,
        PixelFormat::Rgba32Float => 16,
    }
}

/// `wgpu::TextureFormat::describe` on the format of the same name, its field
/// `block_size`: for an uncompressed format the size of one pixel, as the
/// table in `describe` lists it.
#[verifier::external_body]
fn block_size(format: PixelFormat) -> (r: u8)
    ensures
        r == bytes_per_pixel(format),
{
    let native = match format {
        PixelFormat::Rgba8Unorm => TextureFormat::Rgba8Unorm, PixelFormat::Rgba8Snorm => TextureFormat::Rgba8Snorm,
        PixelFormat::Rgba8Uint => TextureFormat::Rgba8Uint, PixelFormat::Rgba8Sint => TextureFormat::Rgba8Sint,
        PixelFormat::R32Uint => TextureFormat::R32Uint, PixelFormat::R32Sint => TextureFormat::R32Sint,
        PixelFormat::R32Float => TextureFormat::R32Float, PixelFormat::Rg32Uint => TextureFormat::Rg32Uint,
        PixelFormat::Rg32Sint => TextureFormat::Rg32Sint, PixelFormat::Rg32Float => TextureFormat::Rg32Float,
        PixelFormat::Rgba16Uint => TextureFormat::Rgba16Uint, PixelFormat::Rgba16Sint => TextureFormat::Rgba16Sint,
        PixelFormat::Rgba16Float => TextureFormat::Rgba16Float, PixelFormat::Rgba32Uint => TextureFormat::Rgba32Uint,
        PixelFormat::Rgba32Sint => TextureFormat::Rgba32Sint, PixelFormat::Rgba32Float => TextureFormat::Rgba32Float,
    };
    native.describe().block_size
}

impl PixelFormat {
    /// Size of one pixel, in bytes.
    pub fn bytes_per_pixel(self) -> (r: usize)
        ensures
            r == bytes_per_pixel(self),
            1 <= r <= 16,
    {
        block_size(self) as usize
    }
}

} // verus!
