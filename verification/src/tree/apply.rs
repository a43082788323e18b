//! Reading and applying scalar [`LayerProp`] values: the building blocks of
//! undoable property edits.

use vstd::prelude::*;

use crate::blend::{aif_name, mode_of_aif_name, BlendMode};
use crate::layer::Layer;
use crate::ops::{LayerId, LayerProp, PropValue, PropValueModel};

use super::{same_shape, LayerTree, LayerTreeError};

verus! {

/// The IEEE 754 single-precision bit pattern of `1.0`.
pub const ONE_BITS: u32 = 0x3F80_0000;

/// The IEEE 754 single-precision bit pattern of `-0.0`.
pub const NEG_ZERO_BITS: u32 = 0x8000_0000;

/// Whether `b` is the bit pattern of a NaN (all exponent bits set, a
/// non-zero fraction, either sign).
pub open spec fn is_nan_bits(b: u32) -> bool {
    (0x7F80_0001 <= b && b <= 0x7FFF_FFFF) || 0xFF80_0001 <= b
}

/// The bit pattern of the single-precision value `b` clamped to `[0.0, 1.0]`:
/// NaN and `-0.0` are kept, other negatives become `0.0`, values above
/// `1.0` become `1.0`.
pub open spec fn clamp_unit_bits(b: u32) -> u32 {
    if is_nan_bits(b) {
        b
    } else if b >= NEG_ZERO_BITS {
        if b == NEG_ZERO_BITS {
            b
        } else {
            0
        }
    } else if b > ONE_BITS {
        ONE_BITS
    } else {
        b
    }
}

/// Clamp the single-precision value with bit pattern `b` to `[0.0, 1.0]`.
pub fn clamp_unit(b: u32) -> (r: u32)
    ensures
        r == clamp_unit_bits(b),
{
    if (0x7F80_0001 <= b && b <= 0x7FFF_FFFF) || 0xFF80_0001 <= b {
        b
    } else if b >= NEG_ZERO_BITS {
        if b == NEG_ZERO_BITS {
            b
        } else {
            0
        }
    } else if b > ONE_BITS {
        ONE_BITS
    } else {
        b
    }
}

/// The value of property `p` of layer `l`.
pub open spec fn prop_of(l: Layer, p: LayerProp) -> PropValueModel {
    match p {
        LayerProp::Name => PropValueModel::Str(l.name@),
        LayerProp::Visible => PropValueModel::Bool(l.visible),
        LayerProp::Locked => PropValueModel::Bool(l.locked),
        LayerProp::Opacity => PropValueModel::Float(l.opacity_bits),
        LayerProp::BlendMode => PropValueModel::Str(aif_name(l.blend_mode)),
    }
}

/// `b` is `a` with property `p` set from `v` where the value fits the
/// property (opacity clamped to `[0, 1]`, a blend mode given by a known
/// identifier); a mismatched value leaves `a` as it is.
pub open spec fn prop_applied(a: Layer, b: Layer, p: LayerProp, v: PropValueModel) -> bool {
    let name_same = b.name@ == a.name@;
    let others_same = b.id == a.id && b.clipping_mask == a.clipping_mask && b.mask == a.mask && b.content
        == a.content;
    &&& others_same
    &&& match (p, v) {
        (LayerProp::Name, PropValueModel::Str(s)) => b.name@ == s && b.visible == a.visible && b.locked
            == a.locked && b.opacity_bits == a.opacity_bits && b.blend_mode == a.blend_mode,
        (LayerProp::Visible, PropValueModel::Bool(x)) => name_same && b.visible == x && b.locked == a.locked
            && b.opacity_bits == a.opacity_bits && b.blend_mode == a.blend_mode,
        (LayerProp::Locked, PropValueModel::Bool(x)) => name_same && b.visible == a.visible && b.locked == x
            && b.opacity_bits == a.opacity_bits && b.blend_mode == a.blend_mode,
        (LayerProp::Opacity, PropValueModel::Float(f)) => name_same && b.visible == a.visible && b.locked
            == a.locked && b.opacity_bits == clamp_unit_bits(f) && b.blend_mode == a.blend_mode,
        (LayerProp::BlendMode, PropValueModel::Str(s)) => name_same && b.visible == a.visible && b.locked
            == a.locked && b.opacity_bits == a.opacity_bits && b.blend_mode == (match mode_of_aif_name(s) {
            Some(mode) => mode,
            None => a.blend_mode,
        }),
        _ => name_same && b.visible == a.visible && b.locked == a.locked && b.opacity_bits == a.opacity_bits
            && b.blend_mode == a.blend_mode,
    }
}

impl LayerTree {
    /// Read the current value of a scalar layer property.
    ///
    /// Returns `None` if no layer with `id` exists. The blend mode is given
    /// as its AIF identifier.
    pub fn layer_prop(&self, id: LayerId, prop: &LayerProp) -> (r: Option<PropValue>)
        requires
            self.wf(),
        ensures
            match r {
                Some(v) => self.layer_map().contains_key(id) && v@ == prop_of(self.layer_map()[id], *prop),
                None => !self.layer_map().contains_key(id),
            },
    {
        let layer = match self.get(id) {
            Some(l) => l,
            None => {
                return None;
            },
        };
        let value = match prop {
            LayerProp::Opacity => PropValue::Float(layer.opacity_bits),
            LayerProp::BlendMode => {
                let text = layer.blend_mode.to_aif_str();
                PropValue::Str(text.to_owned())
            },
            LayerProp::Locked => PropValue::Bool(layer.locked),
            LayerProp::Visible => PropValue::Bool(layer.visible),
            LayerProp::Name => PropValue::Str(layer.name.clone()),
        };
        Some(value)
    }

    /// Apply a scalar property `value` to layer `id`: the primitive behind
    /// both redo (apply the new value) and undo (apply the captured old one).
    ///
    /// A value of the wrong kind for `prop`, or an unknown blend-mode
    /// identifier, is ignored.
    pub fn set_layer_prop(&mut self, id: LayerId, prop: &LayerProp, value: &PropValue) -> (r: Result<
        (),
        LayerTreeError,
    >)
        requires
            old(self).wf(),
        ensures
            final(self).wf(),
            final(self).same_canvas(&*old(self)),
            final(self).roots() == old(self).roots(),
            if old(self).layer_map().contains_key(id) {
                &&& r == Ok::<(), LayerTreeError>(())
                &&& final(self).layer_map().dom() == old(self).layer_map().dom()
                &&& forall|k: LayerId|
                    #[trigger] old(self).layer_map().contains_key(k) && k != id ==> final(self).layer_map()[k]
                        == old(self).layer_map()[k]
                &&& prop_applied(old(self).layer_map()[id], final(self).layer_map()[id], *prop, value@)
            } else {
                &&& r == Err::<(), LayerTreeError>(LayerTreeError::NotFound(id))
                &&& final(self).layer_map() == old(self).layer_map()
            },
    {
        let layer = match self.get_mut(id) {
            Some(l) => l,
            None => {
                return Err(LayerTreeError::NotFound(id));
            },
        };
        match (prop, value) {
            (LayerProp::Name, PropValue::Str(s)) => {
                layer.name = s.clone();
            },
            (LayerProp::Visible, PropValue::Bool(b)) => {
                layer.visible = *b;
            },
            (LayerProp::Locked, PropValue::Bool(b)) => {
                layer.locked = *b;
            },
            (LayerProp::Opacity, PropValue::Float(f)) => {
                layer.opacity_bits = clamp_unit(*f);
            },
            (LayerProp::BlendMode, PropValue::Str(s)) => match BlendMode::from_aif_str(s.as_str()) {
                Some(m) => {
                    layer.blend_mode = m;
                },
                None => {},
            },
            _ => {},
        }
        Ok(())
    }
}

} // verus!
