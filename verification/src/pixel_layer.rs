//! [`PixelLayer`]: the raster payload of a pixel layer.

use vstd::prelude::*;

use crate::color_space::ColorSpaceId;
use crate::tile::{TileCache, TILE_SIZE};

verus! {

/// A raster layer whose pixels live in a [`TileCache`].
///
/// Spatial coordinates are in document pixels; the layer may be offset from
/// the canvas origin and cropped.
#[derive(Debug, Clone)]
pub struct PixelLayer {
    /// The layer's pixels.
    pub tiles: TileCache,
    /// Horizontal position of the layer's top-left corner on the canvas.
    pub canvas_offset_x: i32,
    /// Vertical position of the layer's top-left corner on the canvas.
    pub canvas_offset_y: i32,
    /// The visible rectangle of the layer, when it is cropped.
    pub crop_bounds: Option<CropBounds>,
    /// Which channels the tiles hold.
    pub channel_layout: ChannelLayout,
    /// Bits per channel.
    pub bit_depth: BitDepth,
    /// The colour space the pixel values are in.
    pub color_space: ColorSpaceId,
    /// The OpenEXR codec used when tiles are written out.
    pub compression: ExrCompression,
}

/// `⌈n / d⌉` for `d > 0`.
pub open spec fn ceil_div(n: nat, d: nat) -> nat
    recommends
        d > 0,
{
    ((n + d - 1) / (d as int)) as nat
}

impl PixelLayer {
    /// Number of tiles needed to cover `pixel_count` pixels at the default
    /// tile size: `⌈pixel_count / 256⌉`.
    pub fn tiles_needed(pixel_count: u32) -> (r: u32)
        ensures
            r == ceil_div(pixel_count as nat, TILE_SIZE as nat),
    {
        let q = pixel_count / TILE_SIZE;
        if pixel_count % TILE_SIZE == 0 {
            q
        } else {
            q + 1
        }
    }

    /// Number of tiles needed to cover this layer's `crop_bounds`, or `(0, 0)`
    /// if no crop is set.
    pub fn cropped_tile_dims(&self) -> (r: (u32, u32))
        ensures
            r == match self.crop_bounds {
                Some(b) => (
                    ceil_div(b.width as nat, TILE_SIZE as nat) as u32,
                    ceil_div(b.height as nat, TILE_SIZE as nat) as u32,
                ),
                None => (0u32, 0u32),
            },
    {
        if let Some(bounds) = &self.crop_bounds {
            let across = Self::tiles_needed(bounds.width);
            let down = Self::tiles_needed(bounds.height);
            (across, down)
        } else {
            (0, 0)
        }
    }
}

/// The channels of a [`PixelLayer`].
#[derive(Debug, Clone, Copy, PartialEq, Eq, Hash, Structural)]
pub enum ChannelLayout {
    /// Red, green, blue, alpha.
    Rgba,
    /// Red, green and blue, without alpha.
    Rgb,
    /// Luminance plus alpha.
    La,
    /// Luminance only.
    L,
    /// Cyan, magenta, yellow, key (black).
    Cmyk,
}

/// Bits per channel of a [`PixelLayer`].
#[derive(Debug, Clone, Copy, PartialEq, Eq, Hash, Structural)]
pub enum BitDepth {
    /// 8-bit unsigned integer.
    U8,
    /// 16-bit unsigned integer.
    U16,
    /// 16-bit float (half precision) — the compositor's working depth.
    F16,
    /// 32-bit float (single precision).
    F32,
}

/// OpenEXR compression codec applied when tiles are flushed to disk.
#[derive(Debug, Clone, Copy, PartialEq, Eq, Hash, Structural)]
pub enum ExrCompression {
    /// ZIP over blocks of sixteen scanlines.
    Zip,
    /// ZIP over single scanlines.
    Zips,
    /// Wavelet (PIZ) compression.
    Piz,
    /// DWA over large blocks.
    Dwab,
    /// DWA over blocks of 32 scanlines.
    Dwaa,
}

/// Crop rectangle within a [`PixelLayer`]'s tile data, in layer pixels.
#[derive(Debug, Clone, Copy, PartialEq, Eq, Structural)]
pub struct CropBounds {
    /// Left edge of the crop.
    pub x: i32,
    /// Top edge of the crop.
    pub y: i32,
    /// Cropped width in pixels.
    pub width: u32,
    /// Cropped height in pixels.
    pub height: u32,
}

} // verus!
