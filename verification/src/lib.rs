//! Verified core of the Iris raster editor: blend modes, colour spaces,
//! tile storage, the layer tree, the undo stack, and the byte-level PSD and
//! OpenRaster formats.

pub mod text;
pub mod blend;
pub mod ops;
pub mod half;
pub mod tile_data;
pub mod tile;
pub mod color_space;
pub mod pixel_layer;
pub mod snapshot;
pub mod undo;
pub mod layer;
pub mod tree;
pub mod psd;
pub mod ora;
pub mod canvas;
pub mod plugin;
