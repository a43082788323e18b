//! OpenRaster support: composite-op identifiers, `stack.xml` attribute text
//! and parsing, and the adapter's error type.

mod archive;
mod composite_op;
mod document;
mod error;
mod import;
mod markup;
mod stack;
mod writer;
mod xml;

pub use self::archive::{
    entry_names, entry_view, zip_archive, zip_entry_read, zip_small, zip_total, zip_written, ArchiveWriter, ZipEntries, ZipFault,
};
pub use self::document::{
    archive_fits, entry_part, entry_text, law_ora_archive_layout, layer_srcs, ora_entries, part_views, OraReader,
};
pub use self::composite_op::{from_ora, law_ora_name_spelling, law_ora_round_trip, mode_of_ora, ora_name, svg_blend, to_ora, underscored};
pub use self::error::{ora_message, OraError};
pub use self::import::{advanced, apply_layer_node, check_mimetype, insert_nodes, stack_group, ora_insert, skipped, take_at, OraInsertState};
pub use self::markup::{escape, escape_char, escaped, visibility, visibility_name};
pub use self::stack::{
    attr_value, blank, fed, fed_all, finished, frame_of, i32_or_zero, layer_of, opt_text, shown, stack_result, text_or,
    u32_or_zero, with_child, OraImage,
    OraLayer, OraNode, OraStack, StackParser, XmlAttr, XmlEvent,
};
pub use self::xml::{parse_stack, xml_events};
pub use self::writer::{
    emit_node, find_export, indent, int_text, layer_line, opacity_of, ora_list, ora_node, parts_view, src_text,
    root_listing, stack_close, stack_open, stack_parts, stack_text, stack_xml, OraLayerExport, OraPart, OraRaster,
    OraWriter,
};
