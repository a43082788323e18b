//! Walking the layer tree into PSD layer records, in Photoshop's
//! bottom-to-top file order.

use vstd::prelude::*;
use vstd::utf8::{encode_utf8, is_ascii_chars, is_ascii_chars_encode_utf8};

use crate::layer::{Layer, LayerContent};
use crate::ops::LayerId;
use crate::tree::{below, edges_ok, kids, lemma_kids_below, lemma_shape_edges, LayerTree};

use super::error::PsdError;
use super::resources::{resolution_bytes, resolution_resource};
use super::writer::{
    be16_bytes, be32, be32_bytes, file_header, file_header_bytes, planar, write_image_data, PsdWriter, PSD_MAX_DIM,
};
use super::records::{
    channel_bytes, divider_record, divider_record_bytes, layer_section_bytes, pixel_record, pixel_record_bytes,
    push_part, views, write_section, RecordStyle, Rgba8Layer,
};

verus! {

/// What the writer needs of one layer besides the tree: how its record is
/// composited, and for a pixel layer its 8-bit rendering.
pub struct PsdLayerExport {
    /// The layer this describes.
    pub id: LayerId,
    /// Blend key and opacity byte of the layer's records.
    pub style: RecordStyle,
    /// The layer's pixels (`None` for a layer with no pixels to write).
    pub pixels: Option<Rgba8Layer>,
}

/// The export entry for `id`: the first one naming it.
pub open spec fn find_psd_export(ex: Seq<PsdLayerExport>, id: LayerId) -> Option<PsdLayerExport>
    decreases ex.len(),
{
    if ex.len() == 0 {
        None
    } else if ex[0].id == id {
        Some(ex[0])
    } else {
        find_psd_export(ex.drop_first(), id)
    }
}

/// A pixel rendering whose record fits the format's fields.
pub open spec fn pixels_ok(px: Rgba8Layer) -> bool {
    &&& px.width <= i32::MAX
    &&& px.height <= i32::MAX
    &&& px.width * px.height + 2 <= u32::MAX
    &&& 4 * (px.width * px.height) + 3 <= usize::MAX
    &&& i32::MIN <= px.offset_y + px.height <= i32::MAX
    &&& i32::MIN <= px.offset_x + px.width <= i32::MAX
}

/// Every export entry with pixels fits the format's fields.
pub open spec fn exports_ok(ex: Seq<PsdLayerExport>) -> bool {
    forall|i: int| 0 <= i < ex.len() ==> ((#[trigger] ex[i]).pixels matches Some(px) ==> pixels_ok(px))
}

/// The channel image data of a pixel rendering: R, G, B and alpha.
pub open spec fn pixel_data(px: Rgba8Layer) -> Seq<u8> {
    let plane = (px.width * px.height) as nat;
    channel_bytes(px.rgba@, plane, 0) + channel_bytes(px.rgba@, plane, 1) + channel_bytes(px.rgba@, plane, 2)
        + channel_bytes(px.rgba@, plane, 3)
}

/// The name written on a group's bounding divider.
pub open spec fn bounding_name() -> Seq<u8> {
    seq![0x3Cu8, 0x2Fu8, 0x4Cu8, 0x61u8, 0x79u8, 0x65u8, 0x72u8, 0x20u8, 0x67u8, 0x72u8, 0x6Fu8, 0x75u8, 0x70u8, 0x3Eu8]
}

/// The records and channel data that layer `id` contributes, in file
/// order. A layer without an export entry contributes nothing. A pixel
/// layer whose entry carries pixels gives its record and its channel data.
/// A group gives its bounding divider, what its children contribute from
/// the bottom one up, and its open-folder divider named after it; the
/// dividers carry empty channel data. Other layers contribute nothing.
pub open spec fn psd_node(m: Map<LayerId, Layer>, h: Map<LayerId, nat>, ex: Seq<PsdLayerExport>, id: LayerId) -> (
    Seq<Seq<u8>>,
    Seq<Seq<u8>>,
)
    decreases h[id] + 1, 0nat,
    when below(h, kids(m, id), h[id])
{
    if !m.contains_key(id) {
        (Seq::empty(), Seq::empty())
    } else {
        let l = m[id];
        match find_psd_export(ex, id) {
            None => (Seq::empty(), Seq::empty()),
            Some(e) => match l.content {
                LayerContent::Pixel(_) => match e.pixels {
                    Some(px) => (
                        seq![
                            pixel_record_bytes(
                                px.width,
                                px.height,
                                px.offset_x,
                                px.offset_y,
                                e.style,
                                l.clipping_mask,
                                l.visible,
                                encode_utf8(l.name@),
                            ),
                        ],
                        seq![pixel_data(px)],
                    ),
                    None => (Seq::empty(), Seq::empty()),
                },
                LayerContent::Group { .. } => {
                    let inner = psd_rev(m, h, ex, kids(m, id), h[id]);
                    let open = divider_record_bytes(e.style, l.clipping_mask, l.visible, 1, encode_utf8(l.name@));
                    let bounding = divider_record_bytes(e.style, l.clipping_mask, l.visible, 3, bounding_name());
                    (seq![bounding] + inner.0 + seq![open], seq![Seq::empty()] + inner.1 + seq![Seq::empty()])
                },
                _ => (Seq::empty(), Seq::empty()),
            },
        }
    }
}

/// What the layers of `list` contribute, the last one first.
pub open spec fn psd_rev(
    m: Map<LayerId, Layer>,
    h: Map<LayerId, nat>,
    ex: Seq<PsdLayerExport>,
    list: Seq<LayerId>,
    hb: nat,
) -> (Seq<Seq<u8>>, Seq<Seq<u8>>)
    decreases hb, list.len(),
    when below(h, list, hb)
{
    if list.len() == 0 {
        (Seq::empty(), Seq::empty())
    } else {
        let rest = psd_rev(m, h, ex, list.drop_first(), hb);
        let first = psd_node(m, h, ex, list[0]);
        (rest.0 + first.0, rest.1 + first.1)
    }
}

/// What the whole tree contributes: its root layers, the bottom one first.
pub open spec fn psd_layers(tree: &LayerTree, ex: Seq<PsdLayerExport>) -> (Seq<Seq<u8>>, Seq<Seq<u8>>) {
    psd_rev(tree.layer_map(), tree.heights(), ex, tree.roots(), tree.spec_height_bound())
}

/// The index of the export entry for `id`, if there is one.
fn psd_export_for(ex: &Vec<PsdLayerExport>, id: LayerId) -> (r: Option<usize>)
    ensures
        match r {
            Some(i) => i < ex@.len() && find_psd_export(ex@, id) == Some(ex@[i as int]),
            None => find_psd_export(ex@, id) is None,
        },
{
    let mut i: usize = 0;
    assert(ex@.subrange(0, ex@.len() as int) =~= ex@);
    while i < ex.len()
        invariant
            i <= ex@.len(),
            find_psd_export(ex@, id) == find_psd_export(ex@.subrange(i as int, ex@.len() as int), id),
        decreases ex@.len() - i,
    {
        let ghost rest = ex@.subrange(i as int, ex@.len() as int);
        assert(rest[0] == ex@[i as int]);
        assert(rest.drop_first() =~= ex@.subrange(i + 1, ex@.len() as int));
        if ex[i].id == id {
            return Some(i);
        }
        i = i + 1;
    }
    None
}

/// One unfolding of [`psd_node`].
proof fn lemma_psd_node_step(m: Map<LayerId, Layer>, h: Map<LayerId, nat>, ex: Seq<PsdLayerExport>, id: LayerId)
    requires
        edges_ok(m, h),
    ensures
        below(h, kids(m, id), h[id]),
        psd_node(m, h, ex, id) == (if !m.contains_key(id) {
            (Seq::<Seq<u8>>::empty(), Seq::<Seq<u8>>::empty())
        } else {
            let l = m[id];
            match find_psd_export(ex, id) {
                None => (Seq::<Seq<u8>>::empty(), Seq::<Seq<u8>>::empty()),
                Some(e) => match l.content {
                    LayerContent::Pixel(_) => match e.pixels {
                        Some(px) => (
                            seq![
                                pixel_record_bytes(
                                    px.width,
                                    px.height,
                                    px.offset_x,
                                    px.offset_y,
                                    e.style,
                                    l.clipping_mask,
                                    l.visible,
                                    encode_utf8(l.name@),
                                ),
                            ],
                            seq![pixel_data(px)],
                        ),
                        None => (Seq::<Seq<u8>>::empty(), Seq::<Seq<u8>>::empty()),
                    },
                    LayerContent::Group { .. } => {
                        let inner = psd_rev(m, h, ex, kids(m, id), h[id]);
                        let open = divider_record_bytes(e.style, l.clipping_mask, l.visible, 1, encode_utf8(l.name@));
                        let bounding = divider_record_bytes(e.style, l.clipping_mask, l.visible, 3, bounding_name());
                        (seq![bounding] + inner.0 + seq![open], seq![Seq::<u8>::empty()] + inner.1 + seq![Seq::<u8>::empty()])
                    },
                    _ => (Seq::<Seq<u8>>::empty(), Seq::<Seq<u8>>::empty()),
                },
            }
        }),
{
    lemma_kids_below(m, h, id);
}

/// The contribution of a suffix of `list` grows by one node at a time.
proof fn lemma_psd_rev_step(
    m: Map<LayerId, Layer>,
    h: Map<LayerId, nat>,
    ex: Seq<PsdLayerExport>,
    list: Seq<LayerId>,
    j: int,
    hb: nat,
)
    requires
        edges_ok(m, h),
        below(h, list, hb),
        0 < j <= list.len(),
    ensures
        h[list[j - 1]] < hb,
        below(h, list.subrange(j, list.len() as int), hb),
        below(h, list.subrange(j - 1, list.len() as int), hb),
        ({
            let a = psd_rev(m, h, ex, list.subrange(j, list.len() as int), hb);
            let b = psd_node(m, h, ex, list[j - 1]);
            psd_rev(m, h, ex, list.subrange(j - 1, list.len() as int), hb) == (a.0 + b.0, a.1 + b.1)
        }),
{
    let s = list.subrange(j - 1, list.len() as int);
    assert forall|i: int| 0 <= i < s.len() implies h[#[trigger] s[i]] < hb by {
        assert(s[i] == list[i + j - 1]);
    }
    let t = list.subrange(j, list.len() as int);
    assert forall|i: int| 0 <= i < t.len() implies h[#[trigger] t[i]] < hb by {
        assert(t[i] == list[i + j]);
    }
    assert(s.drop_first() =~= t);
    assert(s[0] == list[j - 1]);
    assert(h[list[j - 1]] < hb);
    lemma_kids_below(m, h, list[j - 1]);
}

/// Append what the layers of `list` contribute, the last one first.
fn emit_list(
    tree: &LayerTree,
    list: &[LayerId],
    hb: Ghost<nat>,
    ex: &Vec<PsdLayerExport>,
    records: &mut Vec<Vec<u8>>,
    channels: &mut Vec<Vec<u8>>,
)
    requires
        tree.wf(),
        exports_ok(ex@),
        below(tree.heights(), list@, hb@),
    ensures
        ({
            let r = psd_rev(tree.layer_map(), tree.heights(), ex@, list@, hb@);
            &&& views(final(records)@) == views(old(records)@) + r.0
            &&& views(final(channels)@) == views(old(channels)@) + r.1
        }),
    decreases hb@, 0nat,
{
    let ghost m = tree.layer_map();
    let ghost h = tree.heights();
    let ghost r0 = views(records@);
    let ghost c0 = views(channels@);
    proof {
        lemma_shape_edges(m, tree.roots(), h, tree.spec_height_bound());
        let e = list@.subrange(list@.len() as int, list@.len() as int);
        assert(e =~= Seq::<LayerId>::empty());
        assert(r0 =~= r0 + Seq::<Seq<u8>>::empty());
        assert(c0 =~= c0 + Seq::<Seq<u8>>::empty());
    }
    let mut j: usize = list.len();
    while j > 0
        invariant
            tree.wf(),
            m == tree.layer_map(),
            h == tree.heights(),
            edges_ok(m, h),
            exports_ok(ex@),
            below(h, list@, hb@),
            j <= list@.len(),
            ({
                let a = psd_rev(m, h, ex@, list@.subrange(j as int, list@.len() as int), hb@);
                &&& views(records@) == r0 + a.0
                &&& views(channels@) == c0 + a.1
            }),
        decreases j,
    {
        proof {
            lemma_psd_rev_step(m, h, ex@, list@, j as int, hb@);
        }
        let ghost a = psd_rev(m, h, ex@, list@.subrange(j as int, list@.len() as int), hb@);
        emit_node(tree, list[j - 1], ex, records, channels);
        proof {
            let b = psd_node(m, h, ex@, list@[j - 1]);
            assert(views(records@) =~= r0 + (a.0 + b.0));
            assert(views(channels@) =~= c0 + (a.1 + b.1));
        }
        j = j - 1;
    }
    assert(list@.subrange(0, list@.len() as int) =~= list@);
}

/// Append what layer `id` contributes (see [`psd_node`]).
fn emit_node(
    tree: &LayerTree,
    id: LayerId,
    ex: &Vec<PsdLayerExport>,
    records: &mut Vec<Vec<u8>>,
    channels: &mut Vec<Vec<u8>>,
)
    requires
        tree.wf(),
        exports_ok(ex@),
    ensures
        ({
            let r = psd_node(tree.layer_map(), tree.heights(), ex@, id);
            &&& views(final(records)@) == views(old(records)@) + r.0
            &&& views(final(channels)@) == views(old(channels)@) + r.1
        }),
    decreases tree.heights()[id], 1nat,
{
    let ghost m = tree.layer_map();
    let ghost h = tree.heights();
    let ghost r0 = views(records@);
    let ghost c0 = views(channels@);
    proof {
        lemma_shape_edges(m, tree.roots(), h, tree.spec_height_bound());
        lemma_psd_node_step(m, h, ex@, id);
        assert(r0 =~= r0 + Seq::<Seq<u8>>::empty());
        assert(c0 =~= c0 + Seq::<Seq<u8>>::empty());
    }
    let layer = match tree.get(id) {
        Some(l) => l,
        None => return,
    };
    let i = match psd_export_for(ex, id) {
        Some(i) => i,
        None => return,
    };
    let e = &ex[i];
    match &layer.content {
        LayerContent::Pixel(_) => {
            if let Some(px) = &e.pixels {
                proof {
                    assert(ex@[i as int].pixels matches Some(p) && pixels_ok(p));
                }
                let (record, data) = pixel_record(
                    px,
                    e.style,
                    layer.clipping_mask,
                    layer.visible,
                    layer.name.as_str(),
                );
                push_part(records, record);
                push_part(channels, data);
            }
        },
        LayerContent::Group { children } => {
            let bounding = divider_record(e.style, layer.clipping_mask, layer.visible, 3, "</Layer group>");
            proof {
                reveal_strlit("</Layer group>");
                let chars = "</Layer group>"@;
                assert(is_ascii_chars(chars));
                is_ascii_chars_encode_utf8(chars);
                assert(encode_utf8(chars) =~= bounding_name());
            }
            push_part(records, bounding);
            push_part(channels, Vec::new());
            let ghost r1 = views(records@);
            let ghost c1 = views(channels@);
            emit_list(tree, children.as_slice(), Ghost(h[id]), ex, records, channels);
            let open = divider_record(e.style, layer.clipping_mask, layer.visible, 1, layer.name.as_str());
            push_part(records, open);
            push_part(channels, Vec::new());
            proof {
                let inner = psd_rev(m, h, ex@, kids(m, id), h[id]);
                assert(views(records@) =~= r0 + (seq![
                    divider_record_bytes(e.style, layer.clipping_mask, layer.visible, 3, bounding_name()),
                ] + inner.0 + seq![
                    divider_record_bytes(e.style, layer.clipping_mask, layer.visible, 1, encode_utf8(layer.name@)),
                ]));
                assert(views(channels@) =~= c0 + (seq![Seq::<u8>::empty()] + inner.1 + seq![Seq::<u8>::empty()]));
            }
        },
        _ => {},
    }
}

/// Append the layer-and-mask information section for `tree`: what its root
/// layers contribute, bottom-most first (see [`psd_node`]), framed as in
/// [`layer_section_bytes`]; a lone zero length when nothing is written.
pub fn write_layer_and_mask_section(buf: &mut Vec<u8>, tree: &LayerTree, ex: &Vec<PsdLayerExport>)
    requires
        tree.wf(),
        exports_ok(ex@),
        old(buf)@.len() + psd_layers(tree, ex@).0.flatten().len() + psd_layers(tree, ex@).1.flatten().len() + 16
            <= usize::MAX,
    ensures
        final(buf)@ == old(buf)@ + layer_section_bytes(psd_layers(tree, ex@).0, psd_layers(tree, ex@).1),
{
    let mut records: Vec<Vec<u8>> = Vec::new();
    let mut channels: Vec<Vec<u8>> = Vec::new();
    proof {
        assert(views(records@) =~= Seq::<Seq<u8>>::empty());
        assert(views(channels@) =~= Seq::<Seq<u8>>::empty());
        assert forall|i: int| 0 <= i < tree.roots().len() implies tree.heights()[#[trigger] tree.roots()[i]]
            < tree.spec_height_bound() by {
            assert(tree.layer_map().contains_key(tree.roots()[i]));
        }
    }
    emit_list(tree, tree.root_layer_ids(), Ghost(tree.spec_height_bound()), ex, &mut records, &mut channels);
    proof {
        assert(views(records@) =~= psd_layers(tree, ex@).0);
        assert(views(channels@) =~= psd_layers(tree, ex@).1);
    }
    write_section(buf, &records, &channels);
}

/// A whole PSD file: the header, an empty colour-mode section, the image
/// resources (one ResolutionInfo block for `h_res` and `v_res`, 16.16 fixed
/// point), the layer-and-mask section for `layers`, and the merged image.
pub open spec fn psd_file_bytes(
    width: u32,
    height: u32,
    h_res: i32,
    v_res: i32,
    layers: (Seq<Seq<u8>>, Seq<Seq<u8>>),
    merged: Seq<u8>,
) -> Seq<u8> {
    file_header_bytes(width, height) + be32_bytes(0) + be32_bytes(28) + resolution_bytes(h_res, v_res)
        + layer_section_bytes(layers.0, layers.1) + be16_bytes(0) + planar(merged, (width * height) as nat)
}

impl PsdWriter {
    /// Serialise `tree` to PSD bytes: its layers as `ex` describes them, the
    /// interleaved RGBA `merged` rendering of the canvas as the composite,
    /// and the resolutions `h_res` and `v_res` (16.16 fixed point). A canvas
    /// wider or taller than [`PSD_MAX_DIM`] is refused.
    pub fn to_bytes(tree: &LayerTree, ex: &Vec<PsdLayerExport>, merged: &[u8], h_res: i32, v_res: i32) -> (r:
        Result<Vec<u8>, PsdError>)
        requires
            tree.wf(),
            exports_ok(ex@),
            tree.canvas().0 <= PSD_MAX_DIM && tree.canvas().1 <= PSD_MAX_DIM ==> 4 * (tree.canvas().0
                * tree.canvas().1) + psd_layers(tree, ex@).0.flatten().len() + psd_layers(tree, ex@).1.flatten().len()
                + 100 <= usize::MAX,
        ensures
            ({
                let (w, h) = (tree.canvas().0, tree.canvas().1);
                match r {
                    Ok(bytes) => w <= PSD_MAX_DIM && h <= PSD_MAX_DIM && bytes@ == psd_file_bytes(
                        w,
                        h,
                        h_res,
                        v_res,
                        psd_layers(tree, ex@),
                        merged@,
                    ),
                    Err(e) => (w > PSD_MAX_DIM || h > PSD_MAX_DIM) && (e matches PsdError::DimensionsTooLarge {
                        width,
                        height,
                    } && width == w && height == h),
                }
            }),
    {
        let (w, h) = tree.canvas_size();
        if w > PSD_MAX_DIM || h > PSD_MAX_DIM {
            return Err(PsdError::DimensionsTooLarge { width: w, height: h });
        }
        let mut buf = file_header(w, h);
        be32(&mut buf, 0);
        let resources = resolution_resource(h_res, v_res);
        assert(resources@.len() == 28);
        be32(&mut buf, resources.len() as u32);
        super::records::append(&mut buf, resources.as_slice());
        let ghost before_layers = buf@;
        assert(before_layers.len() == 62);
        write_layer_and_mask_section(&mut buf, tree, ex);
        proof {
            let l = psd_layers(tree, ex@);
            if l.0.len() > 0 {
                assert(layer_section_bytes(l.0, l.1).len() == 14 + l.0.flatten().len() + l.1.flatten().len());
            }
            assert(w * h <= 900_000_000) by (nonlinear_arith)
                requires w <= 30_000, h <= 30_000;
        }
        write_image_data(&mut buf, merged, w, h);
        assert(buf@ =~= psd_file_bytes(w, h, h_res, v_res, psd_layers(tree, ex@), merged@));
        Ok(buf)
    }
}

/// A written PSD file opens with the 26-byte header for its canvas, then
/// an empty (zero-length) colour-mode section.
pub proof fn law_psd_file_prefix(
    width: u32,
    height: u32,
    h_res: i32,
    v_res: i32,
    layers: (Seq<Seq<u8>>, Seq<Seq<u8>>),
    merged: Seq<u8>,
)
    ensures
        psd_file_bytes(width, height, h_res, v_res, layers, merged).subrange(0, 26) == file_header_bytes(width, height),
        psd_file_bytes(width, height, h_res, v_res, layers, merged).subrange(26, 30) == seq![0u8, 0u8, 0u8, 0u8],
{
    let f = psd_file_bytes(width, height, h_res, v_res, layers, merged);
    let hd = file_header_bytes(width, height);
    assert(hd.len() == 26);
    assert(f.subrange(0, 26) =~= hd);
    assert(be32_bytes(0) =~= seq![0u8, 0u8, 0u8, 0u8]);
    assert(f.subrange(26, 30) =~= be32_bytes(0));
}

} // verus!
