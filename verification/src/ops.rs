//! Typed document operations recorded by the undo stack, and the tile-grid
//! coordinate shared by the pixel and undo modules.

use vstd::prelude::*;

verus! {

/// Position of one 256-pixel-square tile in a layer's tile grid.
///
/// The tile `(tx, ty)` starts at canvas pixel
/// `(tx * 256, ty * 256)`. Coordinates order lexicographically: by `tx`, then
/// by `ty`.
#[derive(Debug, Clone, Copy, PartialEq, Eq, Hash, PartialOrd, Ord, Structural)]
pub struct TileCoord {
    /// Column of the tile.
    pub tx: u32,
    /// Row of the tile.
    pub ty: u32,
}

/// The lexicographic order on tile coordinates (by column, then by row).
pub open spec fn coord_lt(a: TileCoord, b: TileCoord) -> bool {
    a.tx < b.tx || (a.tx == b.tx && a.ty < b.ty)
}

/// Executable form of [`coord_lt`].
pub fn coord_less(a: TileCoord, b: TileCoord) -> (r: bool)
    ensures
        r == coord_lt(a, b),
{
    a.tx < b.tx || (a.tx == b.tx && a.ty < b.ty)
}

} // verus!

verus! {

/// Unique identifier for a layer within a document: the 128-bit value of the
/// layer's UUID.
pub type LayerId = u128;

/// Compact serialised form of a layer's metadata, sufficient to reconstruct
/// the layer on undo. Holds no pixel tile data; the encoding is the caller's.
#[derive(Debug, PartialEq, Eq)]
pub struct LayerSnapshot(Vec<u8>);

impl View for LayerSnapshot {
    type V = Seq<u8>;

    closed spec fn view(&self) -> Seq<u8> {
        self.0@
    }
}

impl Clone for LayerSnapshot {
    fn clone(&self) -> (r: Self)
        ensures
            r@ == self@,
    {
        LayerSnapshot(copy_bytes(&self.0))
    }
}

/// A fresh vector holding the same bytes.
pub fn copy_bytes(v: &Vec<u8>) -> (r: Vec<u8>)
    ensures
        r@ == v@,
{
    let mut out: Vec<u8> = Vec::new();
    let mut i: usize = 0;
    while i < v.len()
        invariant
            i <= v@.len(),
            out@ == v@.subrange(0, i as int),
        decreases v@.len() - i,
    {
        out.push(v[i]);
        i = i + 1;
        assert(out@ =~= v@.subrange(0, i as int));
    }
    assert(out@ =~= v@);
    out
}

impl LayerSnapshot {
    /// A snapshot holding `bytes`.
    pub fn from_bytes(bytes: Vec<u8>) -> (r: LayerSnapshot)
        ensures
            r@ == bytes@,
    {
        LayerSnapshot(bytes)
    }

    /// The bytes this snapshot holds.
    pub fn as_bytes(&self) -> (r: &[u8])
        ensures
            r@ == self@,
    {
        self.0.as_slice()
    }
}

/// Which scalar property of a layer changed in a [`LayerOp::SetProp`].
#[derive(Debug, Clone, Copy, PartialEq, Eq, Structural)]
pub enum LayerProp {
    /// The layer's display name.
    Name,
    /// Whether the layer is visible in the compositor.
    Visible,
    /// Whether the layer is locked against further edits.
    Locked,
    /// Compositing opacity in the range 0.0–1.0.
    Opacity,
    /// The compositing blend mode, carried as its AIF identifier.
    BlendMode,
}

/// The value of a [`LayerProp`], as carried by [`LayerOp::SetProp`].
#[derive(Debug, PartialEq)]
pub enum PropValue {
    /// A string value (a layer name, or a blend mode's AIF identifier).
    Str(String),
    /// A boolean value (`visible`, `locked`).
    Bool(bool),
    /// A single-precision value (`opacity`), held as its IEEE 754 bit pattern.
    Float(u32),
}

/// The mathematical value of a [`PropValue`].
pub enum PropValueModel {
    /// A string value.
    Str(Seq<char>),
    /// A boolean value.
    Bool(bool),
    /// An IEEE 754 single-precision bit pattern.
    Float(u32),
}

impl View for PropValue {
    type V = PropValueModel;

    open spec fn view(&self) -> PropValueModel {
        match self {
            PropValue::Str(s) => PropValueModel::Str(s@),
            PropValue::Bool(b) => PropValueModel::Bool(*b),
            PropValue::Float(f) => PropValueModel::Float(*f),
        }
    }
}

impl Clone for PropValue {
    fn clone(&self) -> (r: Self)
        ensures
            r@ == self@,
    {
        match self {
            PropValue::Str(s) => PropValue::Str(s.clone()),
            PropValue::Bool(b) => PropValue::Bool(*b),
            PropValue::Float(f) => PropValue::Float(*f),
        }
    }
}

/// Edits of the layer tree.
#[derive(Debug, PartialEq)]
pub enum LayerOp {
    /// A layer was added.
    Add {
        /// Parent layer, or `None` to insert at the document root.
        parent: Option<LayerId>,
        /// Where it went among the parent's children (0 is the top).
        position: usize,
        /// Serialised metadata sufficient to reconstruct the layer on undo.
        snapshot: LayerSnapshot,
    },
    /// A layer was removed.
    Remove {
        /// The layer being removed.
        layer_id: LayerId,
        /// Snapshot taken immediately before removal.
        snapshot: LayerSnapshot,
    },
    /// A layer changed parent or position.
    Move {
        /// The layer being moved.
        layer_id: LayerId,
        /// Destination parent, or `None` for the document root.
        new_parent: Option<LayerId>,
        /// Its position under the new parent.
        new_position: usize,
        /// Previous parent, or `None` if the layer was at the document root.
        old_parent: Option<LayerId>,
        /// Its position under the old parent.
        old_position: usize,
    },
    /// A scalar property of a layer changed.
    SetProp {
        /// The layer whose property changed.
        layer_id: LayerId,
        /// Which property changed.
        prop: LayerProp,
        /// Value before the change; applied on undo.
        before: PropValue,
        /// Value after the change; applied on redo.
        after: PropValue,
    },
}

/// Edits of pixel data.
#[derive(Debug, PartialEq)]
pub enum TileOp {
    /// A tile's pixels were replaced, as by a brush stroke.
    Paint {
        /// The layer containing the tile.
        layer_id: LayerId,
        /// Which tile changed.
        tile: TileCoord,
        /// The pixels before; undo puts them back.
        before: crate::snapshot::TileSnapshot,
        /// The pixels after; redo puts them back.
        after: crate::snapshot::TileSnapshot,
    },
}

/// One recorded document operation.
#[derive(Debug, PartialEq)]
pub enum Op {
    /// An edit of the tree or of a layer's properties.
    Layer(LayerOp),
    /// An edit of pixel tiles.
    Tile(TileOp),
}

/// The mathematical value of a [`LayerOp`].
pub enum LayerOpModel {
    /// See [`LayerOp::Add`].
    Add { parent: Option<LayerId>, position: usize, snapshot: Seq<u8> },
    /// See [`LayerOp::Remove`].
    Remove { layer_id: LayerId, snapshot: Seq<u8> },
    /// See [`LayerOp::Move`].
    Move {
        layer_id: LayerId,
        new_parent: Option<LayerId>,
        new_position: usize,
        old_parent: Option<LayerId>,
        old_position: usize,
    },
    /// See [`LayerOp::SetProp`].
    SetProp { layer_id: LayerId, prop: LayerProp, before: PropValueModel, after: PropValueModel },
}

/// The mathematical value of an [`Op`].
pub enum OpModel {
    /// A layer-tree operation.
    Layer(LayerOpModel),
    /// A tile paint: layer, tile, and the compressed before/after bytes.
    Paint { layer_id: LayerId, tile: TileCoord, before: Seq<u8>, after: Seq<u8> },
}

impl View for LayerOp {
    type V = LayerOpModel;

    open spec fn view(&self) -> LayerOpModel {
        match self {
            LayerOp::Add { parent, position, snapshot } => LayerOpModel::Add {
                parent: *parent,
                position: *position,
                snapshot: snapshot@,
            },
            LayerOp::Remove { layer_id, snapshot } => LayerOpModel::Remove {
                layer_id: *layer_id,
                snapshot: snapshot@,
            },
            LayerOp::Move { layer_id, new_parent, new_position, old_parent, old_position } =>
                LayerOpModel::Move {
                layer_id: *layer_id,
                new_parent: *new_parent,
                new_position: *new_position,
                old_parent: *old_parent,
                old_position: *old_position,
            },
            LayerOp::SetProp { layer_id, prop, before, after } => LayerOpModel::SetProp {
                layer_id: *layer_id,
                prop: *prop,
                before: before@,
                after: after@,
            },
        }
    }
}

impl View for Op {
    type V = OpModel;

    open spec fn view(&self) -> OpModel {
        match self {
            Op::Layer(l) => OpModel::Layer(l@),
            Op::Tile(TileOp::Paint { layer_id, tile, before, after }) => OpModel::Paint {
                layer_id: *layer_id,
                tile: *tile,
                before: before@,
                after: after@,
            },
        }
    }
}

impl Clone for LayerOp {
    fn clone(&self) -> (r: Self)
        ensures
            r@ == self@,
    {
        match self {
            LayerOp::Add { parent, position, snapshot } => LayerOp::Add {
                parent: *parent,
                position: *position,
                snapshot: snapshot.clone(),
            },
            LayerOp::Remove { layer_id, snapshot } => LayerOp::Remove {
                layer_id: *layer_id,
                snapshot: snapshot.clone(),
            },
            LayerOp::Move { layer_id, new_parent, new_position, old_parent, old_position } =>
                LayerOp::Move {
                layer_id: *layer_id,
                new_parent: *new_parent,
                new_position: *new_position,
                old_parent: *old_parent,
                old_position: *old_position,
            },
            LayerOp::SetProp { layer_id, prop, before, after } => LayerOp::SetProp {
                layer_id: *layer_id,
                prop: *prop,
                before: before.clone(),
                after: after.clone(),
            },
        }
    }
}

impl Clone for TileOp {
    fn clone(&self) -> (r: Self)
        ensures
            Op::Tile(r)@ == Op::Tile(*self)@,
    {
        match self {
            TileOp::Paint { layer_id, tile, before, after } => TileOp::Paint {
                layer_id: *layer_id,
                tile: *tile,
                before: before.clone(),
                after: after.clone(),
            },
        }
    }
}

impl Clone for Op {
    fn clone(&self) -> (r: Self)
        ensures
            r@ == self@,
    {
        match self {
            Op::Layer(l) => Op::Layer(l.clone()),
            Op::Tile(t) => Op::Tile(t.clone()),
        }
    }
}

} // verus!
