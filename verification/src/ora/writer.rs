//! Writing `stack.xml`: one `<layer>` per exported pixel layer and one
//! `<stack>` per group, in the tree's order, with the archive parts the
//! layers refer to.

use vstd::prelude::*;

use crate::layer::{Layer, LayerContent};
use crate::ops::LayerId;
use crate::text::{decimal, push_decimal, push_text};
use crate::tree::{below, kids, LayerTree};

use super::composite_op::{ora_name, to_ora};
use super::markup::{escape, escaped, visibility, visibility_name};

verus! {

/// The encoded raster of a pixel layer: its offset on the canvas and its
/// PNG bytes.
pub struct OraRaster {
    /// Left edge on the canvas.
    pub x: i32,
    /// Top edge on the canvas.
    pub y: i32,
    /// The PNG-encoded pixels.
    pub png: Vec<u8>,
}

/// What the writer needs of one layer besides the tree: its opacity as
/// written in the `opacity` attribute, and for a pixel layer its raster.
pub struct OraLayerExport {
    /// The layer this describes.
    pub id: LayerId,
    /// The `opacity` attribute text.
    pub opacity: String,
    /// The layer's raster (`None` for a layer that has no pixels to write).
    pub raster: Option<OraRaster>,
}

/// One archive part referenced from `stack.xml`.
pub struct OraPart {
    /// The part's path in the archive.
    pub src: String,
    /// The part's bytes.
    pub png: Vec<u8>,
}

/// The export entry for `id`: the first one naming it.
pub open spec fn find_export(ex: Seq<OraLayerExport>, id: LayerId) -> Option<OraLayerExport>
    decreases ex.len(),
{
    if ex.len() == 0 {
        None
    } else if ex[0].id == id {
        Some(ex[0])
    } else {
        find_export(ex.drop_first(), id)
    }
}

/// The `opacity` text for `id` (empty when it has no export entry).
pub open spec fn opacity_of(ex: Seq<OraLayerExport>, id: LayerId) -> Seq<char> {
    match find_export(ex, id) {
        Some(e) => e.opacity@,
        None => Seq::empty(),
    }
}

/// Two spaces per level of nesting.
pub open spec fn indent(depth: nat) -> Seq<char>
    decreases depth,
{
    if depth == 0 {
        Seq::empty()
    } else {
        indent((depth - 1) as nat) + "  "@
    }
}

/// The decimal text of `v`, with a leading `-` when negative.
pub open spec fn int_text(v: i32) -> Seq<char> {
    if v < 0 {
        "-"@ + decimal((-(v as int)) as nat)
    } else {
        decimal(v as nat)
    }
}

/// The archive path of the `n`-th layer raster.
pub open spec fn src_text(n: nat) -> Seq<char> {
    "data/"@ + decimal(n) + ".png"@
}

/// The `<layer>` line of a pixel layer.
pub open spec fn layer_line(l: Layer, r: OraRaster, n: nat, opacity: Seq<char>, depth: nat) -> Seq<char> {
    indent(depth) + "<layer name=\""@ + escaped(l.name@) + "\" src=\""@ + src_text(n) + "\" x=\""@ + int_text(r.x)
        + "\" y=\""@ + int_text(r.y) + "\" opacity=\""@ + opacity + "\" visibility=\""@ + visibility_name(l.visible)
        + "\" composite-op=\""@ + ora_name(l.blend_mode) + "\"/>\n"@
}

/// The opening `<stack>` line of a group.
pub open spec fn stack_open(l: Layer, opacity: Seq<char>, depth: nat) -> Seq<char> {
    indent(depth) + "<stack name=\""@ + escaped(l.name@) + "\" opacity=\""@ + opacity + "\" visibility=\""@
        + visibility_name(l.visible) + "\" composite-op=\""@ + ora_name(l.blend_mode) + "\">\n"@
}

/// The closing `</stack>` line of a group.
pub open spec fn stack_close(depth: nat) -> Seq<char> {
    indent(depth) + "</stack>\n"@
}

/// What writing layer `id` at nesting `depth` appends, when the next
/// raster is numbered `n`: the text, the archive parts (path and bytes),
/// and the number of the raster after it. Pixel layers without a raster,
/// and layers that are neither pixel layers nor groups, write nothing.
pub open spec fn ora_node(
    m: Map<LayerId, Layer>,
    h: Map<LayerId, nat>,
    ex: Seq<OraLayerExport>,
    id: LayerId,
    depth: nat,
    n: nat,
) -> (Seq<char>, Seq<(Seq<char>, Seq<u8>)>, nat)
    decreases h[id] + 1, 0nat,
    when below(h, kids(m, id), h[id])
{
    if !m.contains_key(id) {
        (Seq::empty(), Seq::empty(), n)
    } else {
        let l = m[id];
        match l.content {
            LayerContent::Pixel(_) => match find_export(ex, id) {
                Some(e) => match e.raster {
                    Some(r) => (layer_line(l, r, n, e.opacity@, depth), seq![(src_text(n), r.png@)], n + 1),
                    None => (Seq::empty(), Seq::empty(), n),
                },
                None => (Seq::empty(), Seq::empty(), n),
            },
            LayerContent::Group { .. } => {
                let inner = ora_list(m, h, ex, kids(m, id), depth + 1, n, h[id]);
                (stack_open(l, opacity_of(ex, id), depth) + inner.0 + stack_close(depth), inner.1, inner.2)
            },
            _ => (Seq::empty(), Seq::empty(), n),
        }
    }
}

/// What writing the layers of `list` in order appends (see [`ora_node`]).
pub open spec fn ora_list(
    m: Map<LayerId, Layer>,
    h: Map<LayerId, nat>,
    ex: Seq<OraLayerExport>,
    list: Seq<LayerId>,
    depth: nat,
    n: nat,
    hb: nat,
) -> (Seq<char>, Seq<(Seq<char>, Seq<u8>)>, nat)
    decreases hb, list.len(),
    when below(h, list, hb)
{
    if list.len() == 0 {
        (Seq::empty(), Seq::empty(), n)
    } else {
        let a = ora_list(m, h, ex, list.drop_last(), depth, n, hb);
        let b = ora_node(m, h, ex, list.last(), depth, a.2);
        (a.0 + b.0, a.1 + b.1, b.2)
    }
}

/// The path and bytes of each part.
pub open spec fn parts_view(p: Seq<OraPart>) -> Seq<(Seq<char>, Seq<u8>)> {
    p.map_values(|x: OraPart| (x.src@, x.png@))
}

/// The export entry for `id`, if any.
fn export_for(ex: &Vec<OraLayerExport>, id: LayerId) -> (r: Option<usize>)
    ensures
        match r {
            Some(i) => i < ex@.len() && find_export(ex@, id) == Some(ex@[i as int]),
            None => find_export(ex@, id) is None,
        },
{
    let mut i: usize = 0;
    assert(ex@.subrange(0, ex@.len() as int) =~= ex@);
    while i < ex.len()
        invariant
            i <= ex@.len(),
            find_export(ex@, id) == find_export(ex@.subrange(i as int, ex@.len() as int), id),
        decreases ex@.len() - i,
    {
        let ghost rest = ex@.subrange(i as int, ex@.len() as int);
        assert(rest[0] == ex@[i as int]);
        assert(rest.drop_first() =~= ex@.subrange(i + 1, ex@.len() as int));
        if ex[i].id == id {
            return Some(i);
        }
        i = i + 1;
    }
    None
}

/// Append the indentation for `depth`.
fn push_indent(xml: &mut String, depth: usize)
    ensures
        final(xml)@ == old(xml)@ + indent(depth as nat),
{
    let ghost start = xml@;
    let mut i: usize = 0;
    while i < depth
        invariant
            i <= depth,
            xml@ == start + indent(i as nat),
        decreases depth - i,
    {
        push_text(xml, "  ");
        i = i + 1;
        assert(xml@ =~= start + indent(i as nat));
    }
}

/// Append the decimal text of `v`.
fn push_int(xml: &mut String, v: i32)
    ensures
        final(xml)@ == old(xml)@ + int_text(v),
{
    let ghost start = xml@;
    if v < 0 {
        push_text(xml, "-");
        push_decimal(xml, (0 - (v as i64)) as u64);
    } else {
        push_decimal(xml, v as u64);
    }
    assert(xml@ =~= start + int_text(v));
}

/// Writing a list never numbers fewer rasters than it started from.
proof fn lemma_counts_grow_list(
    m: Map<LayerId, Layer>,
    h: Map<LayerId, nat>,
    ex: Seq<OraLayerExport>,
    list: Seq<LayerId>,
    depth: nat,
    n: nat,
    hb: nat,
)
    requires
        crate::tree::edges_ok(m, h),
        below(h, list, hb),
    ensures
        ora_list(m, h, ex, list, depth, n, hb).2 >= n,
    decreases hb, list.len(),
{
    if list.len() > 0 {
        lemma_list_step(m, h, ex, list, depth, n, hb);
        lemma_counts_grow_list(m, h, ex, list.drop_last(), depth, n, hb);
        let a = ora_list(m, h, ex, list.drop_last(), depth, n, hb);
        assert(h[list.last()] < hb);
        lemma_node_grows_below(m, h, ex, list.last(), depth, a.2, hb);
    }
}

/// Writing a node below the bound never numbers fewer rasters than it
/// started from.
proof fn lemma_node_grows_below(
    m: Map<LayerId, Layer>,
    h: Map<LayerId, nat>,
    ex: Seq<OraLayerExport>,
    id: LayerId,
    depth: nat,
    n: nat,
    hb: nat,
)
    requires
        crate::tree::edges_ok(m, h),
        h[id] < hb,
    ensures
        ora_node(m, h, ex, id, depth, n).2 >= n,
    decreases hb, 0nat,
{
    lemma_node_step(m, h, ex, id, depth, n);
    if m.contains_key(id) && m[id].content is Group {
        lemma_counts_grow_list(m, h, ex, kids(m, id), depth + 1, n, h[id]);
    }
}

/// One unfolding of [`ora_node`].
proof fn lemma_node_step(m: Map<LayerId, Layer>, h: Map<LayerId, nat>, ex: Seq<OraLayerExport>, id: LayerId, depth: nat, n: nat)
    requires
        crate::tree::edges_ok(m, h),
    ensures
        below(h, kids(m, id), h[id]),
        ora_node(m, h, ex, id, depth, n) == (if !m.contains_key(id) {
            (Seq::<char>::empty(), Seq::<(Seq<char>, Seq<u8>)>::empty(), n)
        } else {
            let l = m[id];
            match l.content {
                LayerContent::Pixel(_) => match find_export(ex, id) {
                    Some(e) => match e.raster {
                        Some(r) => (layer_line(l, r, n, e.opacity@, depth), seq![(src_text(n), r.png@)], n + 1),
                        None => (Seq::<char>::empty(), Seq::<(Seq<char>, Seq<u8>)>::empty(), n),
                    },
                    None => (Seq::<char>::empty(), Seq::<(Seq<char>, Seq<u8>)>::empty(), n),
                },
                LayerContent::Group { .. } => {
                    let inner = ora_list(m, h, ex, kids(m, id), depth + 1, n, h[id]);
                    (stack_open(l, opacity_of(ex, id), depth) + inner.0 + stack_close(depth), inner.1, inner.2)
                },
                _ => (Seq::<char>::empty(), Seq::<(Seq<char>, Seq<u8>)>::empty(), n),
            }
        }),
{
    crate::tree::lemma_kids_below(m, h, id);
}

/// One unfolding of [`ora_list`].
proof fn lemma_list_step(
    m: Map<LayerId, Layer>,
    h: Map<LayerId, nat>,
    ex: Seq<OraLayerExport>,
    list: Seq<LayerId>,
    depth: nat,
    n: nat,
    hb: nat,
)
    requires
        crate::tree::edges_ok(m, h),
        below(h, list, hb),
        list.len() > 0,
    ensures
        below(h, list.drop_last(), hb),
        h[list.last()] < hb,
        ({
            let a = ora_list(m, h, ex, list.drop_last(), depth, n, hb);
            let b = ora_node(m, h, ex, list.last(), depth, a.2);
            ora_list(m, h, ex, list, depth, n, hb) == (a.0 + b.0, a.1 + b.1, b.2)
        }),
{
    assert forall|i: int| 0 <= i < list.drop_last().len() implies h[#[trigger] list.drop_last()[i]] < hb by {
        assert(list.drop_last()[i] == list[i]);
    }
    assert(h[list[list.len() - 1]] < hb);
    crate::tree::lemma_kids_below(m, h, list.last());
}

/// Append the `<layer>` line of a pixel layer and its part, numbered
/// `counter`.
#[verifier::rlimit(40)]
#[verifier::spinoff_prover]
fn emit_layer_line(
    layer: &Layer,
    e: &OraLayerExport,
    r: &OraRaster,
    depth: usize,
    xml: &mut String,
    parts: &mut Vec<OraPart>,
    counter: &mut usize,
)
    requires
        *old(counter) < usize::MAX,
    ensures
        final(xml)@ == old(xml)@ + layer_line(*layer, *r, *old(counter) as nat, e.opacity@, depth as nat),
        parts_view(final(parts)@) == parts_view(old(parts)@) + seq![(src_text(*old(counter) as nat), r.png@)],
        *final(counter) == *old(counter) + 1,
{
    let ghost x0 = xml@;
    let ghost p0 = parts_view(parts@);
    let ghost n0 = *counter as nat;
    let mut src = "data/".to_owned();
    push_decimal(&mut src, *counter as u64);
    push_text(&mut src, ".png");
    *counter = *counter + 1;
    push_indent(xml, depth);
    push_text(xml, "<layer name=\"");
    let name = escape(layer.name.as_str());
    push_text(xml, name.as_str());
    push_text(xml, "\" src=\"");
    push_text(xml, src.as_str());
    push_text(xml, "\" x=\"");
    push_int(xml, r.x);
    push_text(xml, "\" y=\"");
    push_int(xml, r.y);
    push_text(xml, "\" opacity=\"");
    push_text(xml, e.opacity.as_str());
    push_text(xml, "\" visibility=\"");
    push_text(xml, visibility(layer.visible));
    push_text(xml, "\" composite-op=\"");
    push_text(xml, to_ora(layer.blend_mode));
    push_text(xml, "\"/>\n");
    parts.push(OraPart { src, png: crate::ops::copy_bytes(&r.png) });
    proof {
        assert(xml@ =~= x0 + layer_line(*layer, *r, n0, e.opacity@, depth as nat));
        assert(parts_view(parts@) =~= p0 + seq![(src_text(n0), r.png@)]);
    }
}

/// Append the opening `<stack>` line of a group.
fn emit_stack_open(layer: &Layer, id: LayerId, depth: usize, ex: &Vec<OraLayerExport>, xml: &mut String)
    ensures
        final(xml)@ == old(xml)@ + stack_open(*layer, opacity_of(ex@, id), depth as nat),
{
    let ghost x0 = xml@;
    push_indent(xml, depth);
    push_text(xml, "<stack name=\"");
    let name = escape(layer.name.as_str());
    push_text(xml, name.as_str());
    push_text(xml, "\" opacity=\"");
    match export_for(ex, id) {
        Some(i) => push_text(xml, ex[i].opacity.as_str()),
        None => {},
    }
    push_text(xml, "\" visibility=\"");
    push_text(xml, visibility(layer.visible));
    push_text(xml, "\" composite-op=\"");
    push_text(xml, to_ora(layer.blend_mode));
    push_text(xml, "\">\n");
    proof {
        assert(xml@ =~= x0 + stack_open(*layer, opacity_of(ex@, id), depth as nat));
    }
}

/// Append what writing the children of group `id` produces, each at
/// nesting `depth`.
#[verifier::rlimit(30)]
fn emit_children(
    tree: &LayerTree,
    id: LayerId,
    children: &Vec<LayerId>,
    depth: usize,
    ex: &Vec<OraLayerExport>,
    xml: &mut String,
    parts: &mut Vec<OraPart>,
    counter: &mut usize,
)
    requires
        tree.wf(),
        tree.layer_map().contains_key(id),
        children@ == kids(tree.layer_map(), id),
        depth + tree.heights()[id] <= usize::MAX,
        ora_list(tree.layer_map(), tree.heights(), ex@, children@, depth as nat, *old(counter) as nat, tree.heights()[id]).2
            <= usize::MAX,
    ensures
        ({
            let r = ora_list(tree.layer_map(), tree.heights(), ex@, children@, depth as nat, *old(counter) as nat, tree.heights()[id]);
            &&& final(xml)@ == old(xml)@ + r.0
            &&& parts_view(final(parts)@) == parts_view(old(parts)@) + r.1
            &&& *final(counter) == r.2
        }),
    decreases tree.heights()[id], 0nat,
{
    let ghost m = tree.layer_map();
    let ghost h = tree.heights();
    let ghost n0 = *counter as nat;
    let ghost x1 = xml@;
    let ghost p0 = parts_view(parts@);
    let ghost hb = h[id];
    proof {
        crate::tree::lemma_shape_edges(m, tree.roots(), h, tree.spec_height_bound());
        crate::tree::lemma_kids_below(m, h, id);
        assert(ora_list(m, h, ex@, children@.subrange(0, 0), depth as nat, n0, hb) == (
            Seq::<char>::empty(),
            Seq::<(Seq<char>, Seq<u8>)>::empty(),
            n0,
        ));
        assert(x1 =~= x1 + Seq::<char>::empty());
        assert(p0 =~= p0 + Seq::<(Seq<char>, Seq<u8>)>::empty());
    }
    let mut i: usize = 0;
    while i < children.len()
        invariant
            tree.wf(),
            m == tree.layer_map(),
            h == tree.heights(),
            hb == h[id],
            crate::tree::edges_ok(m, h),
            m.contains_key(id),
            children@ == kids(m, id),
            below(h, children@, hb),
            depth + hb <= usize::MAX,
            i <= children@.len(),
            ora_list(m, h, ex@, children@, depth as nat, n0, hb).2 <= usize::MAX,
            ({
                let a = ora_list(m, h, ex@, children@.subrange(0, i as int), depth as nat, n0, hb);
                &&& xml@ == x1 + a.0
                &&& parts_view(parts@) == p0 + a.1
                &&& *counter == a.2
            }),
        decreases children@.len() - i,
    {
        let c = children[i];
        let ghost pre = children@.subrange(0, i as int);
        let ghost post = children@.subrange(0, i + 1);
        proof {
            assert(post.drop_last() =~= pre);
            assert(post.last() == c);
            lemma_prefix_count(m, h, ex@, children@, i as int + 1, depth as nat, n0, hb);
            lemma_prefix_count(m, h, ex@, children@, i as int, depth as nat, n0, hb);
            lemma_list_step(m, h, ex@, post, depth as nat, n0, hb);
            assert(kids(m, id).contains(c));
            assert(h[c] < hb);
        }
        emit_node(tree, c, depth, ex, xml, parts, counter);
        proof {
            assert(xml@ =~= x1 + ora_list(m, h, ex@, post, depth as nat, n0, hb).0);
            assert(parts_view(parts@) =~= p0 + ora_list(m, h, ex@, post, depth as nat, n0, hb).1);
        }
        i = i + 1;
    }
    proof {
        assert(children@.subrange(0, children@.len() as int) =~= children@);
    }
}

/// Append what writing layer `id` at nesting `depth` produces (see
/// [`ora_node`]): its line, or for a group its opening line, its children
/// and its closing line; the rasters' parts are numbered from `counter`.
pub fn emit_node(
    tree: &LayerTree,
    id: LayerId,
    depth: usize,
    ex: &Vec<OraLayerExport>,
    xml: &mut String,
    parts: &mut Vec<OraPart>,
    counter: &mut usize,
)
    requires
        tree.wf(),
        depth + tree.heights()[id] + 1 <= usize::MAX,
        ora_node(tree.layer_map(), tree.heights(), ex@, id, depth as nat, *old(counter) as nat).2 <= usize::MAX,
    ensures
        ({
            let r = ora_node(tree.layer_map(), tree.heights(), ex@, id, depth as nat, *old(counter) as nat);
            &&& final(xml)@ == old(xml)@ + r.0
            &&& parts_view(final(parts)@) == parts_view(old(parts)@) + r.1
            &&& *final(counter) == r.2
        }),
    decreases tree.heights()[id], 1nat,
{
    let ghost m = tree.layer_map();
    let ghost h = tree.heights();
    let ghost n0 = *counter as nat;
    let ghost x0 = xml@;
    let ghost p0 = parts_view(parts@);
    proof {
        crate::tree::lemma_shape_edges(m, tree.roots(), h, tree.spec_height_bound());
        lemma_node_step(m, h, ex@, id, depth as nat, n0);
    }
    let layer = match tree.get(id) {
        Some(l) => l,
        None => {
            proof {
                assert(xml@ =~= x0 + Seq::<char>::empty());
                assert(parts_view(parts@) =~= p0 + Seq::<(Seq<char>, Seq<u8>)>::empty());
            }
            return;
        },
    };
    match &layer.content {
        LayerContent::Pixel(_) => {
            match export_for(ex, id) {
                Some(i) => match &ex[i].raster {
                    Some(r) => emit_layer_line(layer, &ex[i], r, depth, xml, parts, counter),
                    None => {
                        proof {
                            assert(xml@ =~= x0 + Seq::<char>::empty());
                            assert(parts_view(parts@) =~= p0 + Seq::<(Seq<char>, Seq<u8>)>::empty());
                        }
                    },
                },
                None => {
                    proof {
                        assert(xml@ =~= x0 + Seq::<char>::empty());
                        assert(parts_view(parts@) =~= p0 + Seq::<(Seq<char>, Seq<u8>)>::empty());
                    }
                },
            }
        },
        LayerContent::Group { children } => {
            emit_stack_open(layer, id, depth, ex, xml);
            let ghost x1 = xml@;
            emit_children(tree, id, children, depth + 1, ex, xml, parts, counter);
            let ghost x2 = xml@;
            push_indent(xml, depth);
            push_text(xml, "</stack>\n");
            proof {
                let inner = ora_list(m, h, ex@, kids(m, id), (depth + 1) as nat, n0, h[id]);
                assert(xml@ =~= x0 + (stack_open(*layer, opacity_of(ex@, id), depth as nat) + inner.0 + stack_close(
                    depth as nat,
                )));
            }
        },
        _ => {
            proof {
                assert(xml@ =~= x0 + Seq::<char>::empty());
                assert(parts_view(parts@) =~= p0 + Seq::<(Seq<char>, Seq<u8>)>::empty());
            }
        },
    }
}

/// The count after a prefix of a list is at most the count after the
/// whole list, and the node following the prefix ends within it too.
proof fn lemma_prefix_count(
    m: Map<LayerId, Layer>,
    h: Map<LayerId, nat>,
    ex: Seq<OraLayerExport>,
    list: Seq<LayerId>,
    k: int,
    depth: nat,
    n: nat,
    hb: nat,
)
    requires
        crate::tree::edges_ok(m, h),
        below(h, list, hb),
        0 <= k <= list.len(),
    ensures
        below(h, list.subrange(0, k), hb),
        ora_list(m, h, ex, list.subrange(0, k), depth, n, hb).2 <= ora_list(m, h, ex, list, depth, n, hb).2,
    decreases list.len() - k,
{
    assert forall|i: int| 0 <= i < list.subrange(0, k).len() implies h[#[trigger] list.subrange(0, k)[i]] < hb by {
        assert(list.subrange(0, k)[i] == list[i]);
    }
    if k < list.len() {
        lemma_prefix_count(m, h, ex, list, k + 1, depth, n, hb);
        let s1 = list.subrange(0, k + 1);
        lemma_list_step(m, h, ex, s1, depth, n, hb);
        assert(s1.drop_last() =~= list.subrange(0, k));
        let a = ora_list(m, h, ex, list.subrange(0, k), depth, n, hb);
        assert(h[s1.last()] < hb);
        lemma_node_grows_below(m, h, ex, s1.last(), depth, a.2, hb);
    } else {
        assert(list.subrange(0, k) =~= list);
    }
}

/// What the root layers of `tree` write at nesting two, from raster `0`
/// (see [`ora_list`]).
pub open spec fn root_listing(tree: &LayerTree, ex: Seq<OraLayerExport>) -> (Seq<char>, Seq<(Seq<char>, Seq<u8>)>, nat) {
    ora_list(tree.layer_map(), tree.heights(), ex, tree.roots(), 2, 0, tree.spec_height_bound())
}

/// The `stack.xml` text of `tree`: the XML declaration, the `<image>`
/// element with the canvas size, a root `<stack>` holding what the root
/// layers write, and the closing tags.
pub open spec fn stack_text(tree: &LayerTree, ex: Seq<OraLayerExport>) -> Seq<char> {
    "<?xml version='1.0' encoding='UTF-8'?>\n<image version=\"0.0.3\" w=\""@ + decimal(tree.canvas().0 as nat)
        + "\" h=\""@ + decimal(tree.canvas().1 as nat) + "\">\n  <stack>\n"@ + root_listing(tree, ex).0
        + "  </stack>\n</image>\n"@
}

/// The archive parts (path and PNG bytes) the layers of `tree` refer to.
pub open spec fn stack_parts(tree: &LayerTree, ex: Seq<OraLayerExport>) -> Seq<(Seq<char>, Seq<u8>)> {
    root_listing(tree, ex).1
}

/// The `stack.xml` text of `tree`, with the archive parts its layers refer
/// to: the XML declaration, the `<image>` element with the canvas size, a
/// root `<stack>` holding the root layers in order, and the closing tags.
pub fn stack_xml(tree: &LayerTree, ex: &Vec<OraLayerExport>) -> (r: (String, Vec<OraPart>))
    requires
        tree.wf(),
        tree.spec_height_bound() + 3 <= usize::MAX,
        ora_list(tree.layer_map(), tree.heights(), ex@, tree.roots(), 2, 0, tree.spec_height_bound()).2
            <= usize::MAX,
    ensures
        r.0@ == stack_text(tree, ex@),
        parts_view(r.1@) == stack_parts(tree, ex@),
{
    let ghost m = tree.layer_map();
    let ghost h = tree.heights();
    let ghost hb = tree.spec_height_bound();
    let mut xml = "<?xml version='1.0' encoding='UTF-8'?>\n<image version=\"0.0.3\" w=\"".to_owned();
    let (w, h_px) = tree.canvas_size();
    push_decimal(&mut xml, w as u64);
    push_text(&mut xml, "\" h=\"");
    push_decimal(&mut xml, h_px as u64);
    push_text(&mut xml, "\">\n  <stack>\n");
    let ghost x1 = xml@;
    let mut parts: Vec<OraPart> = Vec::new();
    let mut counter: usize = 0;
    let roots = tree.root_layer_ids();
    proof {
        crate::tree::lemma_shape_edges(m, tree.roots(), h, hb);
        assert(ora_list(m, h, ex@, roots@.subrange(0, 0), 2, 0, hb) == (
            Seq::<char>::empty(),
            Seq::<(Seq<char>, Seq<u8>)>::empty(),
            0nat,
        ));
        assert(x1 =~= x1 + Seq::<char>::empty());
        assert(parts_view(parts@) =~= Seq::<(Seq<char>, Seq<u8>)>::empty());
    }
    let mut i: usize = 0;
    while i < roots.len()
        invariant
            tree.wf(),
            m == tree.layer_map(),
            h == tree.heights(),
            hb == tree.spec_height_bound(),
            hb + 3 <= usize::MAX,
            crate::tree::edges_ok(m, h),
            roots@ == tree.roots(),
            below(h, roots@, hb),
            i <= roots@.len(),
            ora_list(m, h, ex@, roots@, 2, 0, hb).2 <= usize::MAX,
            ({
                let a = ora_list(m, h, ex@, roots@.subrange(0, i as int), 2, 0, hb);
                &&& xml@ == x1 + a.0
                &&& parts_view(parts@) == a.1
                &&& counter == a.2
            }),
        decreases roots@.len() - i,
    {
        let c = roots[i];
        let ghost pre = roots@.subrange(0, i as int);
        let ghost post = roots@.subrange(0, i + 1);
        proof {
            assert(post.drop_last() =~= pre);
            assert(post.last() == c);
            lemma_prefix_count(m, h, ex@, roots@, i as int + 1, 2, 0, hb);
            lemma_prefix_count(m, h, ex@, roots@, i as int, 2, 0, hb);
            lemma_list_step(m, h, ex@, post, 2, 0, hb);
            assert(m.contains_key(c));
        }
        emit_node(tree, c, 2, ex, &mut xml, &mut parts, &mut counter);
        proof {
            assert(xml@ =~= x1 + ora_list(m, h, ex@, post, 2, 0, hb).0);
            assert(parts_view(parts@) =~= ora_list(m, h, ex@, post, 2, 0, hb).1);
        }
        i = i + 1;
    }
    proof {
        assert(roots@.subrange(0, roots@.len() as int) =~= roots@);
    }
    push_text(&mut xml, "  </stack>\n</image>\n");
    (xml, parts)
}

/// Stateless writer that serialises documents to OpenRaster.
pub struct OraWriter;

} // verus!
