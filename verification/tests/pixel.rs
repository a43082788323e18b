use iris::blend::BlendMode;
use iris::color_space::{ColorSpaceId, CMYK_GENERIC, DISPLAY_P3, LINEAR_SRGB, PROPHOTO_RGB, SRGB};
use iris::ops::TileCoord;
use iris::pixel_layer::{ChannelLayout, PixelLayer};
use iris::tile::{TileCache, TILE_SIZE};
use iris::tile_data::{RevisionSource, TileData};

const ALL_MODES: &[BlendMode] = &[
    BlendMode::Normal,
    BlendMode::Dissolve,
    BlendMode::Darken,
    BlendMode::Multiply,
    BlendMode::ColorBurn,
    BlendMode::LinearBurn,
    BlendMode::DarkerColor,
    BlendMode::Lighten,
    BlendMode::Screen,
    BlendMode::ColorDodge,
    BlendMode::LinearDodge,
    BlendMode::LighterColor,
    BlendMode::Overlay,
    BlendMode::SoftLight,
    BlendMode::HardLight,
    BlendMode::VividLight,
    BlendMode::LinearLight,
    BlendMode::PinLight,
    BlendMode::HardMix,
    BlendMode::Difference,
    BlendMode::Exclusion,
    BlendMode::Subtract,
    BlendMode::Divide,
    BlendMode::Hue,
    BlendMode::Saturation,
    BlendMode::Color,
    BlendMode::Luminosity,
];

#[test]
fn exactly_27_variants() {
    assert_eq!(ALL_MODES.len(), 27);
}

#[test]
fn aif_str_round_trip() {
    for &mode in ALL_MODES {
        let s = mode.to_aif_str();
        assert_eq!(BlendMode::from_aif_str(s), Some(mode), "round-trip failed for {s:?}");
    }
}

#[test]
fn unknown_str_returns_none() {
    assert_eq!(BlendMode::from_aif_str("not-a-mode"), None);
    assert_eq!(BlendMode::from_aif_str("Normal"), None);
    assert_eq!(BlendMode::from_aif_str(""), None);
}

#[test]
fn aif_identifiers_are_exact() {
    assert_eq!(BlendMode::ColorBurn.to_aif_str(), "color-burn");
    assert_eq!(BlendMode::from_aif_str("linear-light"), Some(BlendMode::LinearLight));
}

#[test]
fn round_trip_all_known() {
    let known = [SRGB(), LINEAR_SRGB(), DISPLAY_P3(), PROPHOTO_RGB(), CMYK_GENERIC()];
    for cs in known {
        assert_eq!(ColorSpaceId::from_aif_str(cs.as_str()), Some(cs), "round-trip failed for {:?}", cs.as_str());
    }
}

#[test]
fn unknown_returns_none() {
    assert_eq!(ColorSpaceId::from_aif_str("xyz"), None);
    assert_eq!(ColorSpaceId::from_aif_str(""), None);
}

#[test]
fn cmyk_compatibility() {
    assert!(CMYK_GENERIC().is_compatible_with_channel_layout(ChannelLayout::Cmyk));
    assert!(!CMYK_GENERIC().is_compatible_with_channel_layout(ChannelLayout::Rgba));
    assert!(!SRGB().is_compatible_with_channel_layout(ChannelLayout::Cmyk));
    assert!(SRGB().is_compatible_with_channel_layout(ChannelLayout::Rgba));
    assert!(LINEAR_SRGB().is_compatible_with_channel_layout(ChannelLayout::L));
}

#[test]
fn tiles_needed_exact_multiple() {
    assert_eq!(PixelLayer::tiles_needed(256), 1);
    assert_eq!(PixelLayer::tiles_needed(512), 2);
    assert_eq!(PixelLayer::tiles_needed(0), 0);
}

#[test]
fn tiles_needed_partial_tile() {
    assert_eq!(PixelLayer::tiles_needed(1), 1);
    assert_eq!(PixelLayer::tiles_needed(257), 2);
    assert_eq!(PixelLayer::tiles_needed(1920), 8);
}

#[test]
fn tiles_needed_largest_input() {
    assert_eq!(PixelLayer::tiles_needed(u32::MAX), 16_777_216);
}

fn solid_tile(value: u8, revs: &mut RevisionSource) -> TileData {
    TileData::from_vec(vec![value; TILE_SIZE as usize * TILE_SIZE as usize * 8], revs)
}

#[test]
fn get_mut_marks_dirty() {
    let mut revs = RevisionSource::new();
    let mut cache = TileCache::new(16);
    let coord = TileCoord { tx: 1, ty: 2 };
    cache.insert(coord, solid_tile(1, &mut revs));
    cache.mark_clean(coord);
    assert_eq!(cache.dirty_coords().iter().count(), 0);
    assert!(cache.get_mut(coord).is_some());
    assert_eq!(cache.dirty_coords().iter().count(), 1, "get_mut must mark dirty");
}

#[test]
fn tile_cache_lru_eviction_drops_oldest() {
    let mut revs = RevisionSource::new();
    let mut cache = TileCache::new(2);
    let c00 = TileCoord { tx: 0, ty: 0 };
    let c01 = TileCoord { tx: 0, ty: 1 };
    let c02 = TileCoord { tx: 0, ty: 2 };
    cache.insert(c00, solid_tile(1, &mut revs));
    cache.insert(c01, solid_tile(2, &mut revs));
    cache.insert(c02, solid_tile(3, &mut revs));
    assert!(cache.get(c00).is_none(), "(0,0) must be evicted");
    assert!(cache.get(c01).is_some(), "(0,1) must remain");
    assert!(cache.get(c02).is_some(), "(0,2) must remain");
}

#[test]
fn tile_cache_update_does_not_evict_prematurely() {
    let mut revs = RevisionSource::new();
    let mut cache = TileCache::new(2);
    let c00 = TileCoord { tx: 0, ty: 0 };
    let c01 = TileCoord { tx: 0, ty: 1 };
    cache.insert(c00, solid_tile(1, &mut revs));
    cache.insert(c01, solid_tile(2, &mut revs));
    cache.insert(c00, solid_tile(9, &mut revs));
    assert!(cache.get(c00).is_some());
    assert!(cache.get(c01).is_some());
}

#[test]
fn dirty_tracking_and_clean() {
    let mut revs = RevisionSource::new();
    let mut cache = TileCache::new(16);
    let coord = TileCoord { tx: 1, ty: 1 };
    cache.insert(coord, TileData::transparent(TILE_SIZE, &mut revs));
    let dirty: Vec<TileCoord> = cache.dirty_coords();
    assert_eq!(dirty, vec![coord]);
    cache.mark_clean(coord);
    assert_eq!(cache.dirty_coords().iter().count(), 0);
}

#[test]
fn remove_returns_tile_and_cleans_dirty() {
    let mut revs = RevisionSource::new();
    let mut cache = TileCache::new(16);
    let coord = TileCoord { tx: 2, ty: 3 };
    cache.insert(coord, TileData::transparent(TILE_SIZE, &mut revs));
    let removed = cache.remove(coord);
    assert!(removed.is_some());
    assert!(cache.get(coord).is_none());
    assert_eq!(cache.dirty_coords().iter().count(), 0);
}

#[test]
fn zero_capacity_cache_keeps_the_last_tile() {
    let mut revs = RevisionSource::new();
    let mut cache = TileCache::new(0);
    let a = TileCoord { tx: 0, ty: 0 };
    let b = TileCoord { tx: 5, ty: 1 };
    cache.insert(a, TileData::from_vec(vec![1; 8], &mut revs));
    cache.insert(b, TileData::from_vec(vec![2; 8], &mut revs));
    assert!(cache.get(a).is_none());
    assert_eq!(cache.get(b).map(|t| t.bytes()[0]), Some(2));
}

#[test]
fn inserted_tile_reads_back_and_is_dirty() {
    let mut revs = RevisionSource::new();
    let mut cache = TileCache::new(4);
    let c = TileCoord { tx: 7, ty: 7 };
    cache.insert(c, TileData::from_vec(vec![5, 6, 7], &mut revs));
    assert_eq!(cache.get(c).map(|t| t.bytes().to_vec()), Some(vec![5, 6, 7]));
    assert_eq!(cache.dirty_coords(), vec![c]);
}

#[test]
fn dirty_coords_come_out_sorted() {
    let mut revs = RevisionSource::new();
    let mut cache = TileCache::new(8);
    let c1 = TileCoord { tx: 3, ty: 0 };
    let c2 = TileCoord { tx: 0, ty: 2 };
    let c3 = TileCoord { tx: 1, ty: 0 };
    cache.insert(c1, TileData::from_vec(vec![0; 8], &mut revs));
    cache.insert(c2, TileData::from_vec(vec![0; 8], &mut revs));
    cache.insert(c3, TileData::from_vec(vec![0; 8], &mut revs));
    let mut expected = vec![c1, c2, c3];
    expected.sort();
    assert_eq!(cache.dirty_coords(), expected);
}

fn small_tile(value: u8, revs: &mut RevisionSource) -> TileData {
    TileData::from_vec(vec![value; 64], revs)
}

#[test]
fn clone_shares_buffer_until_mutation() {
    let mut revs = RevisionSource::new();
    let mut a = small_tile(1, &mut revs);
    let b = a.clone();
    assert_eq!(a.bytes().as_ptr(), b.bytes().as_ptr(), "clone must share");
    a.bytes_mut(&mut revs)[0] = 9;
    assert_ne!(a.bytes().as_ptr(), b.bytes().as_ptr(), "write must un-share");
    assert_eq!(b.bytes()[0], 1, "snapshot clone must be unaffected");
    assert_eq!(a.bytes()[0], 9);
}

#[test]
fn revision_shared_by_clone_changed_by_write() {
    let mut revs = RevisionSource::new();
    let mut a = small_tile(1, &mut revs);
    let b = a.clone();
    assert_eq!(a.revision(), b.revision(), "clones share a revision");
    let before = a.revision();
    let _ = a.bytes_mut(&mut revs);
    assert_ne!(a.revision(), before, "bytes_mut must assign a new revision");
    assert_eq!(b.revision(), before, "other clone keeps the old revision");
}

#[test]
fn distinct_tiles_have_distinct_revisions() {
    let mut revs = RevisionSource::new();
    assert_ne!(small_tile(0, &mut revs).revision(), small_tile(0, &mut revs).revision());
}

#[test]
fn equality_compares_content() {
    let mut revs = RevisionSource::new();
    let a = small_tile(3, &mut revs);
    let b = small_tile(3, &mut revs);
    assert_eq!(a, b);
    assert_ne!(a, small_tile(4, &mut revs));
}

#[test]
fn transparent_tile_is_fully_transparent_and_sized() {
    let mut revs = RevisionSource::new();
    let tile = TileData::transparent(TILE_SIZE, &mut revs);
    assert!(tile.is_fully_transparent());
    assert_eq!(tile.byte_len(), 256 * 256 * 8);
}

#[test]
fn opaque_pixel_is_not_transparent() {
    let mut revs = RevisionSource::new();
    let mut bytes = vec![0u8; 16];
    bytes[15] = 0x3C;
    assert!(!TileData::from_vec(bytes, &mut revs).is_fully_transparent());
}

#[test]
fn f16_decode_basics() {
    let decode = |bits: u16| f32::from_bits(iris::half::f16_bits_to_f32_bits(bits));
    assert_eq!(decode(0x0000), 0.0);
    assert_eq!(decode(0x3C00), 1.0);
    assert_eq!(decode(0x4000), 2.0);
}

#[test]
fn f16_specials_keep_their_class() {
    let decode = |bits: u16| f32::from_bits(iris::half::f16_bits_to_f32_bits(bits));
    assert_eq!(decode(0xBC00), -1.0);
    assert_eq!(decode(0x7C00), f32::INFINITY);
    assert!(decode(0x7E00).is_nan());
    assert_eq!(decode(0x0001), 0.0);
    assert_eq!(decode(0x3800), 0.5);
}

#[test]
fn get_mut_writes_through_to_the_cache() {
    let mut revs = RevisionSource::new();
    let mut cache = TileCache::new(4);
    let c = TileCoord { tx: 4, ty: 9 };
    cache.insert(c, TileData::from_vec(vec![1; 8], &mut revs));
    cache.get_mut(c).expect("cached").bytes_mut(&mut revs)[0] = 42;
    assert_eq!(cache.get(c).map(|t| t.bytes()[0]), Some(42));
    assert!(cache.get_mut(TileCoord { tx: 0, ty: 0 }).is_none());
}

#[test]
fn extreme_coordinates_are_kept_apart_and_ordered() {
    let mut revs = RevisionSource::new();
    let mut cache = TileCache::new(8);
    let wide = TileCoord { tx: u32::MAX, ty: 0 };
    let tall = TileCoord { tx: 0, ty: u32::MAX };
    let corner = TileCoord { tx: u32::MAX, ty: u32::MAX };
    cache.insert(corner, TileData::from_vec(vec![3; 8], &mut revs));
    cache.insert(wide, TileData::from_vec(vec![1; 8], &mut revs));
    cache.insert(tall, TileData::from_vec(vec![2; 8], &mut revs));
    assert_eq!(cache.get(wide).map(|t| t.bytes()[0]), Some(1));
    assert_eq!(cache.get(tall).map(|t| t.bytes()[0]), Some(2));
    assert_eq!(cache.get(corner).map(|t| t.bytes()[0]), Some(3));
    assert_eq!(cache.dirty_coords(), vec![tall, wide, corner]);
}

#[test]
fn a_source_hands_out_distinct_revisions_in_turn() {
    let mut revs = RevisionSource::new();
    let drawn: Vec<u64> = (0..5).map(|_| revs.draw()).collect();
    assert_eq!(drawn, vec![0, 1, 2, 3, 4]);
}
