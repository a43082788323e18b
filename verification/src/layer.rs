//! [`Layer`] and [`LayerContent`]: the nodes of the document layer tree.

use vstd::prelude::*;

use crate::blend::BlendMode;
use crate::ops::LayerId;
use crate::pixel_layer::PixelLayer;

verus! {

/// One node of a document's layer tree.
#[derive(Debug, Clone)]
pub struct Layer {
    /// The layer's identity, fixed when it is made.
    pub id: LayerId,
    /// The name users see.
    pub name: String,
    /// The layer's payload: pixel layer, group, or another kind.
    pub content: LayerContent,
    /// Whether the layer is drawn.
    pub visible: bool,
    /// Whether edits to the layer are refused.
    pub locked: bool,
    /// Compositing opacity (`0.0` transparent … `1.0` opaque), held as the
    /// IEEE 754 bit pattern of the single-precision value.
    pub opacity_bits: u32,
    /// Compositing blend mode.
    pub blend_mode: BlendMode,
    /// When `true`, this layer clips to the alpha of the layer directly below.
    pub clipping_mask: bool,
    /// A mask, when the layer has one.
    pub mask: Option<LayerMask>,
}

/// The payload of a [`Layer`].
#[derive(Debug, Clone)]
pub enum LayerContent {
    /// A group of layers.
    Group {
        /// Child ids, the topmost first.
        children: Vec<LayerId>,
    },
    /// Raster pixels.
    Pixel(PixelLayer),
    /// A vector layer (scene of path objects); not composited by this crate.
    Vector,
    /// A text layer; not yet composited.
    Text,
    /// An adjustment layer; not yet composited.
    Adjustment,
    /// A fill layer; not yet composited.
    Fill,
    /// A smart object layer; not yet composited.
    SmartObject,
}

/// Non-destructive pixel mask applied to a layer (a placeholder: masks carry
/// no data yet).
#[derive(Debug, Clone, Copy, PartialEq, Eq, Structural)]
pub struct LayerMask;

} // verus!
