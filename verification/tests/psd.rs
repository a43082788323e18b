use iris::blend::BlendMode;
use iris::psd::{
    crop_rgba, file_header, find_resolution, layer_crop, map_blend_mode, name_padded_len, pascal_name,
    read_resolution, resolution_resource, validate_header, write_image_data, LayerCrop, PsdError, PSD_HEADER_LEN,
};

#[test]
fn maps_common_modes() {
    assert_eq!(map_blend_mode("Normal"), BlendMode::Normal);
    assert_eq!(map_blend_mode("Multiply"), BlendMode::Multiply);
    assert_eq!(map_blend_mode("Luminosity"), BlendMode::Luminosity);
}

#[test]
fn pass_through_and_unknown_degrade_to_normal() {
    assert_eq!(map_blend_mode("PassThrough"), BlendMode::Normal);
    assert_eq!(map_blend_mode("☃"), BlendMode::Normal);
}

#[test]
fn error_messages_render() {
    assert_eq!(PsdError::BadSignature.message(), "not a PSD file (bad signature)");
    assert!(PsdError::UnsupportedVersion(2).message().contains("PSB"));
    assert!(PsdError::UnsupportedColorMode("Cmyk".into()).message().contains("Cmyk"));
}

#[test]
fn error_messages_with_numbers() {
    assert_eq!(PsdError::Truncated(4).message(), "file too short to be a PSD (4 bytes)");
    assert_eq!(
        PsdError::DimensionsTooLarge { width: 40000, height: 10 }.message(),
        "document 40000×10 exceeds the PSD 30000px dimension limit"
    );
    assert_eq!(PsdError::Corrupt("bad".into()).message(), "malformed PSD: bad");
    assert_eq!(PsdError::Io("gone".into()).message(), "I/O error: gone");
}

#[test]
fn rejects_bad_signature() {
    let bytes = vec![0u8; 64];
    assert!(matches!(validate_header(&bytes), Err(PsdError::BadSignature)));
}

#[test]
fn rejects_truncated() {
    let bytes = b"8BPS".to_vec();
    assert!(matches!(validate_header(&bytes), Err(PsdError::Truncated(4))));
}

#[test]
fn rejects_psb_version() {
    let mut bytes = vec![0u8; PSD_HEADER_LEN];
    bytes[0..4].copy_from_slice(b"8BPS");
    bytes[4..6].copy_from_slice(&2u16.to_be_bytes());
    assert!(matches!(validate_header(&bytes), Err(PsdError::UnsupportedVersion(2))));
}

#[test]
fn rejects_non_psd_file() {
    let png = vec![
        0x89, 0x50, 0x4E, 0x47, 0x0D, 0x0A, 0x1A, 0x0A, 0, 0, 0, 0, 0, 0, 0, 0, 0, 0, 0, 0, 0, 0, 0, 0, 0, 0, 0, 0,
    ];
    assert!(matches!(validate_header(&png), Err(PsdError::BadSignature)));
}

#[test]
fn accepts_written_header() {
    let h = file_header(640, 480);
    assert_eq!(h.len(), 26);
    assert!(validate_header(&h).is_ok());
    assert_eq!(&h[0..4], b"8BPS");
    assert_eq!(&h[14..18], &480u32.to_be_bytes());
    assert_eq!(&h[18..22], &640u32.to_be_bytes());
    assert_eq!(&h[22..26], &[0, 8, 0, 3]);
}

fn psd_prefix(resource: &[u8]) -> Vec<u8> {
    let mut b = vec![0u8; PSD_HEADER_LEN];
    b.extend_from_slice(&0u32.to_be_bytes());
    b.extend_from_slice(&(resource.len() as u32).to_be_bytes());
    b.extend_from_slice(resource);
    b
}

fn fixed(dpi: f32) -> i32 {
    ((dpi as f64) * 65536.0).round() as i32
}

fn dpi(v: i32) -> f32 {
    (v as f64 / 65536.0) as f32
}

#[test]
fn write_then_read_round_trips() {
    let bytes = psd_prefix(&resolution_resource(fixed(150.0), fixed(300.0)));
    let (x, y) = read_resolution(&bytes).expect("resolution present");
    let (x, y) = (dpi(x), dpi(y));
    assert!((x - 150.0).abs() < 1e-3, "dpi_x {x}");
    assert!((y - 300.0).abs() < 1e-3, "dpi_y {y}");
}

#[test]
fn missing_resolution_is_none() {
    let mut res = Vec::new();
    res.extend_from_slice(b"8BIM");
    res.extend_from_slice(&0x0400u16.to_be_bytes());
    res.extend_from_slice(&[0, 0]);
    res.extend_from_slice(&0u32.to_be_bytes());
    assert!(read_resolution(&psd_prefix(&res)).is_none());
}

#[test]
fn truncated_inputs_return_none_without_panic() {
    assert!(read_resolution(&[]).is_none());
    assert!(read_resolution(&[0u8; PSD_HEADER_LEN]).is_none());
    let mut b = vec![0u8; PSD_HEADER_LEN];
    b.extend_from_slice(&0u32.to_be_bytes());
    b.extend_from_slice(&999u32.to_be_bytes());
    assert!(read_resolution(&b).is_none());
}

#[test]
fn skips_other_blocks_to_find_resolution() {
    let mut res = Vec::new();
    res.extend_from_slice(b"8BIM");
    res.extend_from_slice(&0x0408u16.to_be_bytes());
    res.extend_from_slice(&[0, 0]);
    res.extend_from_slice(&3u32.to_be_bytes());
    res.extend_from_slice(&[1, 2, 3, 0]);
    res.extend_from_slice(&resolution_resource(fixed(72.0), fixed(72.0)));
    let (x, y) = read_resolution(&psd_prefix(&res)).expect("resolution present");
    assert!((dpi(x) - 72.0).abs() < 1e-3 && (dpi(y) - 72.0).abs() < 1e-3);
}

#[test]
fn resolution_block_is_exact() {
    let b = resolution_resource(0x0048_0000, 0x0096_0000);
    assert_eq!(b.len(), 28);
    assert_eq!(&b[0..12], &[0x38, 0x42, 0x49, 0x4D, 0x03, 0xED, 0, 0, 0, 0, 0, 16]);
    assert_eq!(&b[12..16], &[0x00, 0x48, 0x00, 0x00]);
    assert_eq!(find_resolution(&b), Some((0x0048_0000, 0x0096_0000)));
}

#[test]
fn non_positive_resolution_is_none() {
    assert_eq!(find_resolution(&resolution_resource(0, 5)), None);
    assert_eq!(find_resolution(&resolution_resource(-7, 5)), None);
}

#[test]
fn pascal_names_pad_to_four() {
    let mut b = Vec::new();
    pascal_name(&mut b, "abc");
    assert_eq!(b, vec![3, b'a', b'b', b'c']);
    let mut b = Vec::new();
    pascal_name(&mut b, "ab");
    assert_eq!(b, vec![2, b'a', b'b', 0]);
    assert_eq!(name_padded_len("ab"), 3);
    assert_eq!(name_padded_len(""), 3);
    let long = "x".repeat(300);
    assert_eq!(name_padded_len(&long), 255);
}

#[test]
fn image_data_is_planar() {
    let mut buf = Vec::new();
    write_image_data(&mut buf, &[1, 2, 3, 4, 5, 6, 7, 8], 2, 1);
    assert_eq!(buf, vec![0, 0, 1, 5, 2, 6, 3, 7, 4, 8]);
    let mut short = Vec::new();
    write_image_data(&mut short, &[9], 1, 1);
    assert_eq!(short, vec![0, 0, 9, 0, 0, 0]);
}

#[test]
fn crop_copies_rows_inside_the_buffer() {
    let canvas: Vec<u8> = (0u8..32).collect();
    let out = crop_rgba(&canvas, 4, 1, 0, 2, 2);
    assert_eq!(out, vec![4, 5, 6, 7, 8, 9, 10, 11, 20, 21, 22, 23, 24, 25, 26, 27]);
    let beyond = crop_rgba(&canvas, 4, 0, 1, 1, 2);
    assert_eq!(beyond, vec![16, 17, 18, 19, 0, 0, 0, 0]);
}

#[test]
fn layer_bounds_clamp_to_canvas() {
    assert_eq!(layer_crop(-5, 2, 10, 4, 8, 8), Some(LayerCrop { x: 0, y: 2, width: 5, height: 4 }));
    assert_eq!(layer_crop(6, 6, 10, 10, 8, 8), Some(LayerCrop { x: 6, y: 6, width: 2, height: 2 }));
    assert_eq!(layer_crop(9, 0, 3, 3, 8, 8), None);
}
