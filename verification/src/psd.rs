//! Photoshop PSD support: header validation, blend-mode mapping, layer
//! cropping, the resolution image resource and the byte-level writer.

mod blend;
mod color_mode;
mod crop;
mod error;
mod export;
mod header;
mod import;
mod records;
mod resources;
mod writer;

pub use self::blend::{law_psd_mode_name_round_trip, map_blend_mode, psd_blend_of, psd_mode_name};
pub use self::color_mode::{color_mode_name, require_supported_color_mode, PsdColorMode};
pub use self::crop::{crop_rgba, cropped_bytes, layer_crop, LayerCrop};
pub use self::error::{psd_message, PsdError};
pub use self::export::{
    bounding_name, exports_ok, law_psd_file_prefix, find_psd_export, pixel_data, pixels_ok, psd_file_bytes, psd_layers, psd_node, psd_rev,
    write_layer_and_mask_section, PsdLayerExport,
};
pub use self::header::{header_result, validate_header, PsdReader, PSD_HEADER_LEN, PSD_VERSION};
pub use self::import::{
    all_group_keys, ancestry, children_order, climb, climb_fuel, law_group_key_is_lowest_nested, nested_in, group_entries, group_key, group_keys, group_parent,
    group_pos, insert_by_key, law_children_sorted, layer_entries, populate_tree, psd_children, psd_items, psd_level,
    reaches, sort_by_key, sorted_by_key, take_slot, PsdChild, PsdGroupInfo, PsdInsertState,
};
pub use self::records::{
    append, channel_bytes, divider_record, divider_record_bytes, joined, layer_section_bytes, lsct_bytes, pixel_record,
    pixel_record_bytes, push_part, views, write_section, channel_data, law_pixel_channels_match, psd_channel_byte,
    record_channel_id, rgba_or_zero, plane_byte, channel_value, RecordStyle, Rgba8Layer,
};
pub use self::resources::{
    be_u32, be_u32_at, find_resolution, law_resolution_round_trip, parse_resolution_info, read_resolution,
    read_resolution_spec, resolution_bytes, resolution_of, resolution_resource, scan_resolution,
    RESOLUTION_INFO_ID,
};
pub use self::writer::{
    be16, be16_bytes, be32, be32_bytes, bei32, common_bytes, file_header, file_header_bytes, name_padded_len,
    padded, pascal_bytes, pascal_name, planar, stored_len, write_common, write_image_data, PsdWriter, PSD_MAX_DIM,
};
