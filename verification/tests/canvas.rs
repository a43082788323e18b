use std::collections::HashSet;

use iris::canvas::{is_inside, CompositorError, PointerButton, TileKey};
use iris::ops::TileCoord;
use iris::plugin::IrisPlugin;
use uuid::Uuid;

#[test]
fn tile_key_equality_and_hash() {
    let id = Uuid::new_v4().as_u128();
    let c = TileCoord { tx: 3, ty: 7 };
    let k1 = TileKey::new(id, c);
    let k2 = TileKey::new(id, c);
    let k3 = TileKey::new(Uuid::new_v4().as_u128(), c);
    assert_eq!(k1, k2);
    assert_ne!(k1, k3);
    let mut set = HashSet::new();
    set.insert(k1);
    assert!(set.contains(&k2));
    assert!(!set.contains(&k3));
}

#[test]
fn iris_plugin_is_object_safe() {
    let _: Option<Box<dyn IrisPlugin>> = None;
}

#[test]
fn fill_rules() {
    assert!(is_inside(-3, true));
    assert!(!is_inside(2, true));
    assert!(is_inside(2, false));
    assert!(!is_inside(0, false));
}

#[test]
fn compositor_error_message() {
    assert_eq!(CompositorError::Wgpu("lost".into()).message(), "wgpu compositor error: lost");
    assert_ne!(PointerButton::Primary, PointerButton::Middle);
}
