use std::io::{Cursor, Read, Write};

use iris::blend::BlendMode;
use iris::color_space::LINEAR_SRGB;
use iris::layer::{Layer, LayerContent};
use iris::ops::LayerId;
use iris::ora::{apply_layer_node, check_mimetype, insert_nodes, stack_group, OraError, OraReader, OraWriter, stack_xml, OraLayer, OraLayerExport, OraNode, OraRaster, OraStack};
use iris::pixel_layer::{BitDepth, ChannelLayout, ExrCompression, PixelLayer};
use iris::psd::{
    group_keys, populate_tree, psd_children, require_supported_color_mode, write_layer_and_mask_section,
    PsdChild, PsdColorMode, PsdError, PsdGroupInfo, PsdLayerExport, PsdWriter, RecordStyle, Rgba8Layer,
};
use iris::tile::TileCache;
use iris::tree::LayerTree;

fn layer(id: LayerId, name: &str, content: LayerContent) -> Layer {
    Layer {
        id,
        name: name.into(),
        visible: true,
        locked: false,
        opacity_bits: 1.0f32.to_bits(),
        blend_mode: BlendMode::Normal,
        clipping_mask: false,
        mask: None,
        content,
    }
}

fn pixels() -> LayerContent {
    LayerContent::Pixel(PixelLayer {
        channel_layout: ChannelLayout::Rgba,
        bit_depth: BitDepth::F16,
        color_space: LINEAR_SRGB(),
        compression: ExrCompression::Zip,
        canvas_offset_x: 0,
        canvas_offset_y: 0,
        crop_bounds: None,
        tiles: TileCache::new(4),
    })
}

fn empty_group() -> LayerContent {
    LayerContent::Group { children: vec![] }
}

fn tree(w: u32, h: u32) -> LayerTree {
    LayerTree::new(w, h, 72.0f32.to_bits(), 72.0f32.to_bits())
}

fn kids(t: &LayerTree, id: LayerId) -> Vec<LayerId> {
    match &t.get(id).expect("present").content {
        LayerContent::Group { children } => children.clone(),
        _ => panic!("not a group"),
    }
}

fn name_of(t: &LayerTree, id: LayerId) -> String {
    t.get(id).expect("present").name.clone()
}

fn contains(hay: &[u8], needle: &[u8]) -> bool {
    hay.windows(needle.len()).any(|w| w == needle)
}

fn normal(opacity: u8) -> RecordStyle {
    RecordStyle { blend_key: *b"norm", opacity }
}

#[test]
fn rgb_and_grayscale_are_supported() {
    assert!(require_supported_color_mode(PsdColorMode::Rgb).is_ok());
    assert!(require_supported_color_mode(PsdColorMode::Grayscale).is_ok());
}

#[test]
fn cmyk_is_rejected() {
    let err = require_supported_color_mode(PsdColorMode::Cmyk).unwrap_err();
    assert!(matches!(err, PsdError::UnsupportedColorMode(_)));
}

#[test]
fn refused_modes_are_named() {
    match require_supported_color_mode(PsdColorMode::Lab) {
        Err(PsdError::UnsupportedColorMode(name)) => assert_eq!(name, "Lab"),
        _ => panic!("Lab must be refused"),
    }
}

#[test]
fn rejects_oversized_canvas() {
    let t = tree(40_000, 8);
    assert!(matches!(
        PsdWriter::to_bytes(&t, &vec![], &[], 72 << 16, 72 << 16),
        Err(PsdError::DimensionsTooLarge { .. })
    ));
}

#[test]
fn empty_document_is_header_resources_and_planar_composite() {
    let t = tree(2, 1);
    let merged = [1u8, 2, 3, 4, 5, 6, 7, 8];
    let bytes = PsdWriter::to_bytes(&t, &vec![], &merged, 72 << 16, 72 << 16).expect("write");
    assert_eq!(bytes.len(), 26 + 4 + 4 + 28 + 4 + 2 + 8);
    assert_eq!(&bytes[0..4], b"8BPS");
    assert_eq!(&bytes[14..18], &1u32.to_be_bytes());
    assert_eq!(&bytes[18..22], &2u32.to_be_bytes());
    assert_eq!(&bytes[30..34], &28u32.to_be_bytes());
    assert_eq!(&bytes[62..66], &0u32.to_be_bytes());
    assert_eq!(&bytes[66..68], &0u16.to_be_bytes());
    assert_eq!(&bytes[68..], &[1, 5, 2, 6, 3, 7, 4, 8]);
}

#[test]
fn groups_are_written_between_their_dividers() {
    let mut t = tree(4, 4);
    let (gid, pid) = (10u128, 11u128);
    t.add_layer(None, 0, layer(gid, "Group A", empty_group())).expect("add group");
    t.add_layer(Some(gid), 0, layer(pid, "Layer 1", pixels())).expect("add child");
    let px = Rgba8Layer { width: 1, height: 1, offset_x: 0, offset_y: 0, rgba: vec![9, 8, 7, 6] };
    let ex = vec![
        PsdLayerExport { id: gid, style: normal(255), pixels: None },
        PsdLayerExport { id: pid, style: normal(128), pixels: Some(px) },
    ];
    let mut buf = Vec::new();
    write_layer_and_mask_section(&mut buf, &t, &ex);
    // Section length, layer-info length, then three records.
    assert_eq!(&buf[8..10], &3u16.to_be_bytes());
    assert!(contains(&buf, b"</Layer group>"));
    let bounding = buf.windows(14).position(|w| w == b"</Layer group>").expect("bounding");
    let child = buf.windows(7).position(|w| w == b"Layer 1").expect("child");
    let open = buf.windows(7).position(|w| w == b"Group A").expect("open");
    assert!(bounding < child && child < open, "file order is bottom to top");
    // The channel data of the one pixel layer closes the layer info: R, G, B, A.
    let tail = &buf[buf.len() - 4 - 12..buf.len() - 4];
    assert_eq!(tail, &[0, 0, 9, 0, 0, 8, 0, 0, 7, 0, 0, 6]);
}

#[test]
fn layers_without_an_export_entry_are_skipped() {
    let mut t = tree(4, 4);
    t.add_layer(None, 0, layer(5, "quiet", pixels())).expect("add");
    let mut buf = Vec::new();
    write_layer_and_mask_section(&mut buf, &t, &vec![]);
    assert_eq!(buf, 0u32.to_be_bytes().to_vec());
}

#[test]
fn group_keys_follow_the_lowest_inner_layer() {
    let parents = [None, Some(1), Some(2), None];
    let groups = [PsdGroupInfo { id: 1, parent: None }, PsdGroupInfo { id: 2, parent: Some(1) }];
    let keys = group_keys(&parents, &groups);
    assert_eq!(keys, vec![1, 2]);
    assert_eq!(
        psd_children(&parents, &groups, &keys, None),
        vec![(0, PsdChild::Layer(0)), (1, PsdChild::Group(1)), (3, PsdChild::Layer(3))]
    );
    assert_eq!(
        psd_children(&parents, &groups, &keys, Some(1)),
        vec![(1, PsdChild::Layer(1)), (2, PsdChild::Group(2))]
    );
}

#[test]
fn empty_groups_sort_last_in_given_order() {
    let parents = [None];
    let groups = [PsdGroupInfo { id: 8, parent: None }, PsdGroupInfo { id: 3, parent: None }];
    let keys = group_keys(&parents, &groups);
    assert_eq!(keys, vec![usize::MAX, usize::MAX]);
    assert_eq!(
        psd_children(&parents, &groups, &keys, None),
        vec![(0, PsdChild::Layer(0)), (usize::MAX, PsdChild::Group(8)), (usize::MAX, PsdChild::Group(3))]
    );
}

#[test]
fn populate_keeps_nesting_and_panel_order() {
    let mut t = tree(4, 4);
    let parents = [Some(7), None];
    let groups = [PsdGroupInfo { id: 7, parent: None }];
    let mut layers = vec![Some(layer(1, "a", pixels())), Some(layer(2, "b", pixels()))];
    let mut group_layers = vec![Some(layer(3, "G", empty_group()))];
    populate_tree(&mut t, &parents, &groups, &mut layers, &mut group_layers, None);
    assert_eq!(t.root_layer_ids(), &[2, 3]);
    assert_eq!(kids(&t, 3), vec![1]);
    assert_eq!(name_of(&t, 1), "a");
}

#[test]
fn document_without_layers_gets_its_composite() {
    let mut t = tree(4, 4);
    let composite = layer(42, "Background", pixels());
    populate_tree(&mut t, &[], &[], &mut vec![], &mut vec![], Some(composite));
    assert_eq!(t.root_layer_ids(), &[42]);
    assert_eq!(name_of(&t, 42), "Background");
}

fn ora_layer(name: &str) -> OraNode {
    OraNode::Layer(OraLayer {
        name: name.into(),
        src: "data/x.png".into(),
        x: 0,
        y: 0,
        opacity: None,
        visible: true,
        composite_op: "svg:src-over".into(),
    })
}

#[test]
fn ora_nodes_insert_top_first_with_nesting() {
    let mut t = tree(4, 4);
    let nodes = vec![
        ora_layer("top"),
        OraNode::Stack(OraStack {
            name: "S".into(),
            opacity: None,
            visible: true,
            composite_op: "svg:src-over".into(),
            children: vec![ora_layer("inner")],
        }),
    ];
    let mut converted =
        vec![Some(layer(1, "top", pixels())), Some(layer(2, "S", empty_group())), Some(layer(3, "inner", pixels()))];
    let mut next = 0usize;
    insert_nodes(&mut t, None, &nodes, &mut converted, &mut next);
    assert_eq!(next, 3);
    assert_eq!(t.root_layer_ids(), &[1, 2]);
    assert_eq!(kids(&t, 2), vec![3]);
}

#[test]
fn stack_xml_lists_layers_and_parts() {
    let mut t = tree(3, 2);
    t.add_layer(None, 0, layer(1, "a<b", pixels())).expect("add");
    let ex = vec![OraLayerExport {
        id: 1,
        opacity: "0.5".into(),
        raster: Some(OraRaster { x: -1, y: 2, png: vec![1, 2, 3] }),
    }];
    let (xml, parts) = stack_xml(&t, &ex);
    assert_eq!(
        xml,
        "<?xml version='1.0' encoding='UTF-8'?>\n<image version=\"0.0.3\" w=\"3\" h=\"2\">\n  <stack>\n    <layer name=\"a&lt;b\" src=\"data/0.png\" x=\"-1\" y=\"2\" opacity=\"0.5\" visibility=\"visible\" composite-op=\"svg:src-over\"/>\n  </stack>\n</image>\n"
    );
    assert_eq!(parts.len(), 1);
    assert_eq!(parts[0].src, "data/0.png");
    assert_eq!(parts[0].png, vec![1, 2, 3]);
}

#[test]
fn mimetype_must_name_openraster() {
    assert!(check_mimetype(Some("image/openraster")).is_ok());
    assert!(check_mimetype(Some("  image/openraster\n")).is_ok());
    assert!(matches!(check_mimetype(Some("image/png")), Err(OraError::BadMimetype)));
    assert!(matches!(check_mimetype(None), Err(OraError::BadMimetype)));
}

#[test]
fn rejects_missing_mimetype() {
    let mut zw = zip::ZipWriter::new(Cursor::new(Vec::new()));
    zw.start_file("stack.xml", zip::write::SimpleFileOptions::default()).expect("start");
    zw.write_all(b"<image w=\"1\" h=\"1\"><stack/></image>").expect("write");
    let bytes = zw.finish().expect("finish").into_inner();

    assert!(matches!(OraReader::from_bytes(&bytes), Err(OraError::BadMimetype)));
}

#[test]
fn mimetype_is_read_out_of_the_archive() {
    let mut zw = zip::ZipWriter::new(Cursor::new(Vec::new()));
    zw.start_file("mimetype", zip::write::SimpleFileOptions::default()).expect("start");
    zw.write_all(b"image/openraster\n").expect("write");
    let bytes = zw.finish().expect("finish").into_inner();

    let mut archive = zip::ZipArchive::new(Cursor::new(bytes.as_slice())).expect("archive");
    let mut text = String::new();
    archive.by_name("mimetype").expect("entry").read_to_string(&mut text).expect("read");
    assert!(check_mimetype(Some(text.as_str())).is_ok());
    assert!(matches!(OraReader::from_bytes(&bytes), Err(OraError::MissingStackXml)));
}

#[test]
fn not_a_zip_is_a_container_error() {
    assert!(matches!(OraReader::from_bytes(b"plainly not an archive"), Err(OraError::Zip(_))));
}

#[test]
fn archive_round_trips_stack_and_parts() {
    let mut t = tree(5, 6);
    t.add_layer(None, 0, layer(10, "Group A", empty_group())).expect("add group");
    t.add_layer(Some(10), 0, layer(11, "Layer 1", pixels())).expect("add child");
    t.add_layer(None, 1, layer(12, "bottom", pixels())).expect("add bottom");
    let ex = vec![
        OraLayerExport { id: 10, opacity: "1".into(), raster: None },
        OraLayerExport { id: 11, opacity: "0.5".into(), raster: Some(OraRaster { x: 1, y: 2, png: vec![7, 7] }) },
        OraLayerExport { id: 12, opacity: "1".into(), raster: Some(OraRaster { x: 0, y: 0, png: vec![9] }) },
    ];
    let bytes = OraWriter::to_bytes(&t, &ex, &[1, 2, 3]).expect("write");
    let (image, parts) = OraReader::from_bytes(&bytes).expect("read");
    assert_eq!((image.width, image.height), (5, 6));
    assert_eq!(image.children.len(), 2);
    match &image.children[0] {
        OraNode::Stack(s) => {
            assert_eq!(s.name, "Group A");
            assert_eq!(s.children.len(), 1);
            match &s.children[0] {
                OraNode::Layer(l) => {
                    assert_eq!(l.name, "Layer 1");
                    assert_eq!(l.src, "data/0.png");
                    assert_eq!((l.x, l.y), (1, 2));
                    assert_eq!(l.opacity.as_deref(), Some("0.5"));
                },
                _ => panic!("expected a layer"),
            }
        },
        _ => panic!("expected a stack"),
    }
    match &image.children[1] {
        OraNode::Layer(l) => assert_eq!(l.src, "data/1.png"),
        _ => panic!("expected a layer"),
    }
    assert_eq!(parts, vec![Some(vec![7, 7]), Some(vec![9])]);
}

#[test]
fn layer_node_attributes_land_on_the_decoded_layer() {
    let mut l = layer(7, "decoded", pixels());
    let node = OraLayer {
        name: "decoded".into(),
        src: "data/0.png".into(),
        x: -3,
        y: 11,
        opacity: Some("0.5".into()),
        visible: false,
        composite_op: "svg:multiply".into(),
    };
    apply_layer_node(&mut l, &node, 0.5f32.to_bits());
    assert_eq!(l.id, 7);
    assert_eq!(l.name, "decoded");
    assert!(!l.visible);
    assert_eq!(l.opacity_bits, 0.5f32.to_bits());
    assert_eq!(l.blend_mode, BlendMode::Multiply);
    match &l.content {
        LayerContent::Pixel(px) => {
            assert_eq!(px.canvas_offset_x, -3);
            assert_eq!(px.canvas_offset_y, 11);
        },
        _ => panic!("not a pixel layer"),
    }
}

#[test]
fn stack_node_becomes_an_empty_group() {
    let s = OraStack {
        name: "Folder".into(),
        opacity: None,
        visible: true,
        composite_op: "svg:screen".into(),
        children: vec![ora_layer("inside")],
    };
    let g = stack_group(&s, 99, 1.0f32.to_bits());
    assert_eq!(g.id, 99);
    assert_eq!(g.name, "Folder");
    assert!(g.visible);
    assert!(!g.locked);
    assert_eq!(g.blend_mode, BlendMode::Screen);
    assert!(matches!(&g.content, LayerContent::Group { children } if children.is_empty()));
}
