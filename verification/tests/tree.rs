use iris::blend::BlendMode;
use iris::color_space::LINEAR_SRGB;
use iris::layer::{Layer, LayerContent};
use iris::ops::{LayerId, LayerProp, PropValue};
use iris::pixel_layer::{BitDepth, ChannelLayout, ExrCompression, PixelLayer};
use iris::tile::TileCache;
use iris::tree::{clamp_unit, LayerTree, LayerTreeError};
use uuid::Uuid;

fn new_id() -> LayerId {
    Uuid::new_v4().as_u128()
}

fn pixel_layer() -> Layer {
    Layer {
        id: new_id(),
        name: "layer".into(),
        visible: true,
        locked: false,
        opacity_bits: 1.0f32.to_bits(),
        blend_mode: BlendMode::Normal,
        clipping_mask: false,
        mask: None,
        content: LayerContent::Pixel(PixelLayer {
            channel_layout: ChannelLayout::Rgba,
            bit_depth: BitDepth::F16,
            color_space: LINEAR_SRGB(),
            compression: ExrCompression::Zip,
            canvas_offset_x: 0,
            canvas_offset_y: 0,
            crop_bounds: None,
            tiles: TileCache::new(8),
        }),
    }
}

fn group_layer() -> Layer {
    Layer {
        id: new_id(),
        name: "group".into(),
        visible: true,
        locked: false,
        opacity_bits: 1.0f32.to_bits(),
        blend_mode: BlendMode::Normal,
        clipping_mask: false,
        mask: None,
        content: LayerContent::Group { children: vec![] },
    }
}

fn new_tree() -> LayerTree {
    LayerTree::new(1920, 1080, 72.0f32.to_bits(), 72.0f32.to_bits())
}

fn children_of(t: &LayerTree, id: LayerId) -> Vec<LayerId> {
    match &t.get(id).expect("group").content {
        LayerContent::Group { children } => children.clone(),
        _ => panic!("not a group"),
    }
}

#[test]
fn add_then_get_round_trip() {
    let mut t = new_tree();
    let layer = pixel_layer();
    let id = layer.id;
    assert_eq!(t.add_layer(None, 0, layer).expect("add"), id);
    assert_eq!(t.get(id).map(|l| l.id), Some(id));
    assert_eq!(t.root_layer_ids(), &[id]);
}

#[test]
fn remove_layer_removes_from_parent_children() {
    let mut t = new_tree();
    let g = group_layer();
    let gid = g.id;
    t.add_layer(None, 0, g).expect("add group");
    let child = pixel_layer();
    let cid = child.id;
    t.add_layer(Some(gid), 0, child).expect("add child");
    t.remove_layer(cid).expect("remove");
    assert!(t.get(cid).is_none());
    if let LayerContent::Group { children } = &t.get(gid).expect("parent").content {
        assert!(!children.contains(&cid));
    }
}

#[test]
fn move_layer_circular_detected() {
    let mut t = new_tree();
    let a = group_layer();
    let aid = a.id;
    t.add_layer(None, 0, a).expect("add A");
    let b = pixel_layer();
    let bid = b.id;
    t.add_layer(Some(aid), 0, b).expect("add B under A");
    assert!(matches!(t.move_layer(aid, Some(bid), 0), Err(LayerTreeError::CircularMove(_))));
}

#[test]
fn add_layer_position_out_of_range() {
    let mut t = new_tree();
    assert!(matches!(t.add_layer(None, 999, pixel_layer()), Err(LayerTreeError::PositionOutOfRange(999))));
}

#[test]
fn iter_depth_first_visits_all_layers() {
    let mut t = new_tree();
    let g = group_layer();
    let gid = g.id;
    t.add_layer(None, 0, g).expect("add group");
    let c1 = pixel_layer();
    let c1id = c1.id;
    t.add_layer(Some(gid), 0, c1).expect("add c1");
    let c2 = pixel_layer();
    let c2id = c2.id;
    t.add_layer(Some(gid), 1, c2).expect("add c2");
    let ids: Vec<LayerId> = t.iter_depth_first().iter().map(|l| l.id).collect();
    assert_eq!(ids, vec![gid, c1id, c2id]);
}

#[test]
fn remove_takes_the_whole_subtree() {
    let mut t = new_tree();
    let outer = group_layer();
    let oid = outer.id;
    t.add_layer(None, 0, outer).expect("outer");
    let inner = group_layer();
    let iid = inner.id;
    t.add_layer(Some(oid), 0, inner).expect("inner");
    let leaf = pixel_layer();
    let lid = leaf.id;
    t.add_layer(Some(iid), 0, leaf).expect("leaf");
    let keep = pixel_layer();
    let kid = keep.id;
    t.add_layer(None, 1, keep).expect("keep");
    let removed = t.remove_layer(oid).expect("remove");
    assert_eq!(removed.id, oid);
    assert!(t.get(oid).is_none() && t.get(iid).is_none() && t.get(lid).is_none());
    assert_eq!(t.root_layer_ids(), &[kid]);
    assert!(t.get(kid).is_some());
}

#[test]
fn remove_of_unknown_layer_is_not_found() {
    let mut t = new_tree();
    let missing = new_id();
    assert!(matches!(t.remove_layer(missing), Err(LayerTreeError::NotFound(x)) if x == missing));
}

#[test]
fn move_between_groups_and_to_root() {
    let mut t = new_tree();
    let g1 = group_layer();
    let g1id = g1.id;
    let g2 = group_layer();
    let g2id = g2.id;
    t.add_layer(None, 0, g1).expect("g1");
    t.add_layer(None, 1, g2).expect("g2");
    let p = pixel_layer();
    let pid = p.id;
    t.add_layer(Some(g1id), 0, p).expect("p");
    t.move_layer(pid, Some(g2id), 0).expect("move into g2");
    assert!(children_of(&t, g1id).is_empty());
    assert_eq!(children_of(&t, g2id), vec![pid]);
    t.move_layer(pid, None, 0).expect("move to root");
    assert_eq!(t.root_layer_ids(), &[pid, g1id, g2id]);
    assert!(children_of(&t, g2id).is_empty());
}

#[test]
fn move_onto_itself_is_circular() {
    let mut t = new_tree();
    let g = group_layer();
    let gid = g.id;
    t.add_layer(None, 0, g).expect("g");
    assert!(matches!(t.move_layer(gid, Some(gid), 0), Err(LayerTreeError::CircularMove(x)) if x == gid));
    assert_eq!(t.root_layer_ids(), &[gid]);
}

#[test]
fn move_to_bad_position_leaves_layer_detached() {
    let mut t = new_tree();
    let p = pixel_layer();
    let pid = p.id;
    t.add_layer(None, 0, p).expect("p");
    assert!(matches!(t.move_layer(pid, None, 5), Err(LayerTreeError::PositionOutOfRange(5))));
    assert!(t.root_layer_ids().is_empty());
    assert!(t.get(pid).is_some());
    assert!(t.iter_depth_first().is_empty());
}

#[test]
fn add_under_non_group_is_not_found() {
    let mut t = new_tree();
    let p = pixel_layer();
    let pid = p.id;
    t.add_layer(None, 0, p).expect("p");
    assert!(matches!(t.add_layer(Some(pid), 0, pixel_layer()), Err(LayerTreeError::NotFound(x)) if x == pid));
}

fn tree_with_layer() -> (LayerTree, LayerId) {
    let layer = pixel_layer();
    let id = layer.id;
    let mut t = LayerTree::new(64, 64, 72.0f32.to_bits(), 72.0f32.to_bits());
    t.add_layer(None, 0, layer).expect("add");
    (t, id)
}

fn opacity(t: &LayerTree, id: LayerId) -> f32 {
    f32::from_bits(t.get(id).unwrap().opacity_bits)
}

#[test]
fn opacity_read_apply_round_trip() {
    let (mut t, id) = tree_with_layer();
    let before = t.layer_prop(id, &LayerProp::Opacity).expect("read");
    assert_eq!(before, PropValue::Float(1.0f32.to_bits()));
    t.set_layer_prop(id, &LayerProp::Opacity, &PropValue::Float(0.4f32.to_bits())).expect("set");
    assert_eq!(opacity(&t, id), 0.4);
    t.set_layer_prop(id, &LayerProp::Opacity, &before).expect("undo");
    assert_eq!(opacity(&t, id), 1.0);
}

#[test]
fn opacity_is_clamped() {
    let (mut t, id) = tree_with_layer();
    t.set_layer_prop(id, &LayerProp::Opacity, &PropValue::Float(2.0f32.to_bits())).expect("set");
    assert_eq!(opacity(&t, id), 1.0);
}

#[test]
fn negative_opacity_clamps_to_zero() {
    let (mut t, id) = tree_with_layer();
    t.set_layer_prop(id, &LayerProp::Opacity, &PropValue::Float((-0.5f32).to_bits())).expect("set");
    assert_eq!(opacity(&t, id), 0.0);
}

#[test]
fn clamp_matches_float_clamp() {
    for v in [-3.0f32, -0.0, 0.0, 0.25, 1.0, 1.5, f32::INFINITY, f32::NEG_INFINITY, f32::NAN] {
        let expected = v.clamp(0.0, 1.0);
        let got = f32::from_bits(clamp_unit(v.to_bits()));
        assert!(got.to_bits() == expected.to_bits(), "{v}");
    }
}

#[test]
fn blend_mode_via_aif_string() {
    let (mut t, id) = tree_with_layer();
    let before = t.layer_prop(id, &LayerProp::BlendMode).expect("read");
    assert_eq!(before, PropValue::Str("normal".into()));
    let after = PropValue::Str("multiply".into());
    t.set_layer_prop(id, &LayerProp::BlendMode, &after).expect("set");
    assert_eq!(t.get(id).unwrap().blend_mode, BlendMode::Multiply);
    t.set_layer_prop(id, &LayerProp::BlendMode, &before).expect("undo");
    assert_eq!(t.get(id).unwrap().blend_mode, BlendMode::Normal);
}

#[test]
fn unknown_blend_mode_string_ignored() {
    let (mut t, id) = tree_with_layer();
    t.set_layer_prop(id, &LayerProp::BlendMode, &PropValue::Str("bogus".into())).expect("ok");
    assert_eq!(t.get(id).unwrap().blend_mode, BlendMode::Normal);
}

#[test]
fn missing_layer_errors() {
    let (mut t, _) = tree_with_layer();
    let missing = new_id();
    assert!(t.layer_prop(missing, &LayerProp::Opacity).is_none());
    assert!(matches!(
        t.set_layer_prop(missing, &LayerProp::Opacity, &PropValue::Float(0.5f32.to_bits())),
        Err(LayerTreeError::NotFound(_))
    ));
}

#[test]
fn type_mismatch_is_ignored() {
    let (mut t, id) = tree_with_layer();
    t.set_layer_prop(id, &LayerProp::Opacity, &PropValue::Bool(true)).expect("ok");
    assert_eq!(opacity(&t, id), 1.0);
}

#[test]
fn name_and_flags_round_trip() {
    let (mut t, id) = tree_with_layer();
    t.set_layer_prop(id, &LayerProp::Name, &PropValue::Str("Sky".into())).expect("name");
    t.set_layer_prop(id, &LayerProp::Visible, &PropValue::Bool(false)).expect("visible");
    t.set_layer_prop(id, &LayerProp::Locked, &PropValue::Bool(true)).expect("locked");
    assert_eq!(t.layer_prop(id, &LayerProp::Name), Some(PropValue::Str("Sky".into())));
    assert_eq!(t.layer_prop(id, &LayerProp::Visible), Some(PropValue::Bool(false)));
    assert_eq!(t.layer_prop(id, &LayerProp::Locked), Some(PropValue::Bool(true)));
}

#[test]
fn repeated_id_is_listed_again_and_replaces_the_layer() {
    let mut t = new_tree();
    let layer = pixel_layer();
    let id = layer.id;
    let mut again = pixel_layer();
    again.id = id;
    again.name = "again".into();
    t.add_layer(None, 0, layer).expect("add");
    assert_eq!(t.add_layer(None, 0, again), Ok(id));
    assert_eq!(t.root_layer_ids(), &[id, id]);
    assert_eq!(t.get(id).map(|l| l.name.as_str()), Some("again"));
}

#[test]
fn repeated_id_with_bad_position_is_out_of_range() {
    let mut t = new_tree();
    let layer = pixel_layer();
    let id = layer.id;
    let mut again = pixel_layer();
    again.id = id;
    t.add_layer(None, 0, layer).expect("add");
    assert_eq!(t.add_layer(None, 5, again), Err(LayerTreeError::PositionOutOfRange(5)));
    assert_eq!(t.root_layer_ids(), &[id]);
}

#[test]
fn group_arriving_with_children_is_inserted() {
    let mut t = new_tree();
    let child = new_id();
    let mut g = group_layer();
    g.content = LayerContent::Group { children: vec![child] };
    let gid = g.id;
    assert_eq!(t.add_layer(None, 0, g), Ok(gid));
    assert_eq!(t.root_layer_ids(), &[gid]);
    assert_eq!(children_of(&t, gid), vec![child]);
}

#[test]
fn position_out_of_range_leaves_tree_empty() {
    let mut t = new_tree();
    assert_eq!(t.add_layer(None, 999, pixel_layer()), Err(LayerTreeError::PositionOutOfRange(999)));
    assert!(t.root_layer_ids().is_empty());
}

#[test]
fn depth_first_lists_nested_layers_once_in_pre_order() {
    let mut t = new_tree();
    let outer = group_layer();
    let oid = outer.id;
    let inner = group_layer();
    let iid = inner.id;
    let leaf = pixel_layer();
    let lid = leaf.id;
    let top = pixel_layer();
    let tid = top.id;
    t.add_layer(None, 0, outer).expect("outer");
    t.add_layer(Some(oid), 0, inner).expect("inner");
    t.add_layer(Some(iid), 0, leaf).expect("leaf");
    t.add_layer(None, 0, top).expect("top");
    let ids: Vec<LayerId> = t.iter_depth_first().iter().map(|l| l.id).collect();
    assert_eq!(ids, vec![tid, oid, iid, lid]);
}
