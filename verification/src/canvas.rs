//! Small pieces of the canvas: the fill rule of the vector rasteriser,
//! pointer buttons, tile-cache keys and the compositor's error type.

use vstd::prelude::*;

use crate::ops::{LayerId, TileCoord};
use crate::text::push_text;

verus! {

/// Whether an accumulated winding number counts as inside the path: odd
/// under the even-odd rule, non-zero under the non-zero rule.
pub fn is_inside(winding: i32, even_odd: bool) -> (r: bool)
    ensures
        r == (if even_odd { winding % 2 != 0 } else { winding != 0 }),
{
    if even_odd {
        winding % 2 != 0
    } else {
        winding != 0
    }
}

/// Which pointer button produced an event.
#[derive(Debug, Clone, Copy, PartialEq, Eq, Structural)]
pub enum PointerButton {
    /// The primary (usually left) button, or a stylus touch.
    Primary,
    /// The secondary (usually right) button.
    Secondary,
    /// The middle button.
    Middle,
}

/// Uniquely identifies one tile of one layer in the texture cache.
#[derive(Debug, Clone, Copy, PartialEq, Eq, Hash, Structural)]
pub struct TileKey {
    /// Where the tile lies in its layer's grid.
    pub tile: TileCoord,
    /// The layer the tile belongs to.
    pub layer_id: LayerId,
}

impl TileKey {
    /// Construct a key from a layer id and a tile coordinate.
    pub fn new(layer_id: LayerId, tile: TileCoord) -> (r: TileKey)
        ensures
            r.layer_id == layer_id,
            r.tile == tile,
    {
        TileKey { layer_id, tile }
    }
}

/// Errors from the compositor.
#[derive(Debug, Clone)]
pub enum CompositorError {
    /// A GPU-level operation failed; its message.
    Wgpu(String),
}

impl CompositorError {
    /// The human-readable message of this error.
    pub fn message(&self) -> (r: String)
        ensures
            r@ == (match self {
                CompositorError::Wgpu(m) => "wgpu compositor error: "@ + m@,
            }),
    {
        match self {
            CompositorError::Wgpu(m) => {
                let mut s = "wgpu compositor error: ".to_owned();
                push_text(&mut s, m.as_str());
                s
            },
        }
    }
}

} // verus!
