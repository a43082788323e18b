//! Inserting a parsed `stack.xml` hierarchy into a [`LayerTree`].
//!
//! The caller converts every node to a [`Layer`] first (reading a layer's
//! PNG from the archive, building a group for a stack), listing them in
//! pre-order: a node, then its children, top-first.

use vstd::prelude::*;
use vstd::string::StrSliceExecFns;

use crate::layer::{Layer, LayerContent};
use crate::ops::LayerId;
use crate::text::{str_eq, trim_bounds, trimmed};
use crate::tree::{add_step, lemma_add_step, lemma_nesting_of, nesting_of, represents, LayerTree, Nesting};

use super::error::OraError;
use super::composite_op::{from_ora, mode_of_ora};
use super::stack::{OraLayer, OraNode, OraStack};

verus! {

/// The cursor moved one step, never past `usize::MAX`.
pub open spec fn advanced(next: nat) -> nat {
    if next < usize::MAX {
        next + 1
    } else {
        next
    }
}

/// The cursor after `nodes` and all their descendants, one step per node.
pub open spec fn skipped(next: nat, nodes: Seq<OraNode>) -> nat
    decreases nodes,
{
    if nodes.len() == 0 {
        next
    } else {
        let after = match nodes[0] {
            OraNode::Stack(s) => {
                proof {
                    assert(decreases_to!(nodes => nodes[0]));
                }
                skipped(advanced(next), s.children@)
            },
            _ => advanced(next),
        };
        skipped(after, nodes.drop_first())
    }
}

/// The importer's state: the tree's nesting, the converted layers not yet
/// taken, and the cursor into them.
pub type OraInsertState = (Nesting, Seq<Option<Layer>>, nat);

/// The layer under the cursor, taken out (none past the end).
pub open spec fn take_at(conv: Seq<Option<Layer>>, next: nat) -> (Option<Layer>, Seq<Option<Layer>>) {
    if next < conv.len() {
        (conv[next as int], conv.update(next as int, None))
    } else {
        (None, conv)
    }
}

/// What inserting `nodes` under `parent` does, the first at position
/// `base`: each node takes the layer under the cursor and offers it at its
/// position; a stack that was added is followed into, its children at
/// positions from `0`, and one that was not has its descendants' layers
/// skipped.
pub open spec fn ora_insert(st: OraInsertState, parent: Option<LayerId>, nodes: Seq<OraNode>, base: nat) -> OraInsertState
    decreases nodes,
{
    if nodes.len() == 0 {
        st
    } else {
        let (n, conv, next) = st;
        let (l, conv1) = take_at(conv, next);
        let next1 = advanced(next);
        let mid = match nodes[0] {
            OraNode::Layer(_) => match l {
                Some(x) => (add_step(n, parent, base as usize, x).0, conv1, next1),
                None => (n, conv1, next1),
            },
            OraNode::Stack(s) => {
                proof {
                    assert(decreases_to!(nodes => nodes[0]));
                }
                let (n2, res) = match l {
                    Some(g) => add_step(n, parent, base as usize, g),
                    None => (n, None),
                };
                match res {
                    Some(Ok(gid)) => ora_insert((n2, conv1, next1), Some(gid), s.children@, 0),
                    _ => (n2, conv1, skipped(next1, s.children@)),
                }
            },
        };
        ora_insert(mid, parent, nodes.drop_first(), base + 1)
    }
}

/// Advance `next` past `nodes` and all their descendants (see
/// [`skipped`]).
fn skip_nodes(nodes: &Vec<OraNode>, next: &mut usize)
    ensures
        *final(next) == skipped(*old(next) as nat, nodes@),
    decreases nodes,
{
    let ghost n0 = *next as nat;
    let mut i: usize = 0;
    assert(nodes@.subrange(0, nodes@.len() as int) =~= nodes@);
    while i < nodes.len()
        invariant
            i <= nodes@.len(),
            skipped(*next as nat, nodes@.subrange(i as int, nodes@.len() as int)) == skipped(n0, nodes@),
        decreases nodes@.len() - i,
    {
        let ghost rest = nodes@.subrange(i as int, nodes@.len() as int);
        assert(rest[0] == nodes@[i as int]);
        assert(rest.drop_first() =~= nodes@.subrange(i + 1, nodes@.len() as int));
        if *next < usize::MAX {
            *next = *next + 1;
        }
        if let OraNode::Stack(s) = &nodes[i] {
            assert(decreases_to!(nodes => nodes@[i as int]));
            skip_nodes(&s.children, next);
        }
        i = i + 1;
    }
    assert(nodes@.subrange(nodes@.len() as int, nodes@.len() as int) =~= Seq::<OraNode>::empty());
}

/// [`insert_nodes`] on a tree that represents nesting `n`.
fn insert_tracked(
    tree: &mut LayerTree,
    parent: Option<LayerId>,
    nodes: &Vec<OraNode>,
    converted: &mut Vec<Option<Layer>>,
    next: &mut usize,
    n: Ghost<Nesting>,
)
    requires
        old(tree).wf(),
        represents(*old(tree), n@),
    ensures
        final(tree).wf(),
        final(tree).same_canvas(&*old(tree)),
        ({
            let r = ora_insert((n@, old(converted)@, *old(next) as nat), parent, nodes@, 0);
            &&& represents(*final(tree), r.0)
            &&& final(converted)@ == r.1
            &&& *final(next) as nat == r.2
        }),
    decreases nodes,
{
    let ghost t0 = *tree;
    let ghost goal = ora_insert((n@, converted@, *next as nat), parent, nodes@, 0);
    let ghost mut st: OraInsertState = (n@, converted@, *next as nat);
    let mut i: usize = 0;
    assert(nodes@.subrange(0, nodes@.len() as int) =~= nodes@);
    while i < nodes.len()
        invariant
            tree.wf(),
            tree.same_canvas(&t0),
            i <= nodes@.len(),
            represents(*tree, st.0),
            converted@ == st.1,
            *next as nat == st.2,
            ora_insert(st, parent, nodes@.subrange(i as int, nodes@.len() as int), i as nat) == goal,
        decreases nodes@.len() - i,
    {
        let ghost rest = nodes@.subrange(i as int, nodes@.len() as int);
        proof {
            assert(rest[0] == nodes@[i as int]);
            assert(rest.drop_first() =~= nodes@.subrange(i + 1, nodes@.len() as int));
        }
        let ghost n_before = st.0;
        let layer = if *next < converted.len() {
            converted[*next].take()
        } else {
            None
        };
        if *next < usize::MAX {
            *next = *next + 1;
        }
        proof {
            assert(converted@ == take_at(st.1, st.2).1);
            assert(layer == take_at(st.1, st.2).0);
        }
        match &nodes[i] {
            OraNode::Layer(_) => {
                if let Some(l) = layer {
                    let ghost t1 = *tree;
                    let r = tree.add_fresh(parent, i, l);
                    proof {
                        lemma_add_step(t1, *tree, n_before, parent, i, l, r);
                        st = (add_step(n_before, parent, i, l).0, converted@, *next as nat);
                    }
                } else {
                    proof {
                        st = (n_before, converted@, *next as nat);
                    }
                }
            },
            OraNode::Stack(s) => {
                assert(decreases_to!(nodes => nodes@[i as int]));
                let ghost mut n2 = n_before;
                let added = match layer {
                    Some(g) => {
                        let ghost t1 = *tree;
                        let r = tree.add_fresh(parent, i, g);
                        proof {
                            lemma_add_step(t1, *tree, n_before, parent, i, g, r);
                            n2 = add_step(n_before, parent, i, g).0;
                        }
                        r
                    },
                    None => None,
                };
                match added {
                    Some(Ok(gid)) => {
                        let ghost t2 = *tree;
                        insert_tracked(tree, Some(gid), &s.children, converted, next, Ghost(n2));
                        proof {
                            st = ora_insert((n2, take_at(st.1, st.2).1, advanced(st.2)), Some(gid), s.children@, 0);
                        }
                    },
                    _ => {
                        skip_nodes(&s.children, next);
                        proof {
                            st = (n2, converted@, *next as nat);
                        }
                    },
                }
            },
        }
        i = i + 1;
    }
    assert(nodes@.subrange(nodes@.len() as int, nodes@.len() as int) =~= Seq::<OraNode>::empty());
}

/// Insert `nodes` under `parent` (the root list when `None`), the `i`-th
/// at position `i`, taking each node's converted layer from `converted`
/// at the cursor `next` (see [`ora_insert`], read from the tree's own
/// nesting): a stack's children follow it only when the stack was added,
/// and a node whose layer is missing, whose id the tree already holds, or
/// which the tree refuses is left out.
pub fn insert_nodes(
    tree: &mut LayerTree,
    parent: Option<LayerId>,
    nodes: &Vec<OraNode>,
    converted: &mut Vec<Option<Layer>>,
    next: &mut usize,
)
    requires
        old(tree).wf(),
    ensures
        final(tree).wf(),
        final(tree).same_canvas(&*old(tree)),
        ({
            let r = ora_insert((nesting_of(*old(tree)), old(converted)@, *old(next) as nat), parent, nodes@, 0);
            &&& represents(*final(tree), r.0)
            &&& final(converted)@ == r.1
            &&& *final(next) as nat == r.2
        }),
{
    proof {
        lemma_nesting_of(*tree);
    }
    insert_tracked(tree, parent, nodes, converted, next, Ghost(nesting_of(*tree)));
}

/// Accept an archive whose `mimetype` entry (its text, `None` when the
/// entry is missing or unreadable) is `image/openraster`, white space
/// around it aside.
pub fn check_mimetype(contents: Option<&str>) -> (r: Result<(), OraError>)
    ensures
        match contents {
            Some(s) => if trimmed(s@) == "image/openraster"@ {
                r is Ok
            } else {
                r matches Err(OraError::BadMimetype)
            },
            None => r matches Err(OraError::BadMimetype),
        },
{
    match contents {
        Some(s) => {
            let (lo, hi) = trim_bounds(s);
            if str_eq(s.substring_char(lo, hi), "image/openraster") {
                Ok(())
            } else {
                Err(OraError::BadMimetype)
            }
        },
        None => Err(OraError::BadMimetype),
    }
}

/// Give a decoded layer the attributes its `<layer>` element carries: the
/// canvas offset (for a pixel layer), visibility, opacity (as the bits of
/// the opacity read from the element) and blend mode. Everything else is
/// kept.
pub fn apply_layer_node(layer: &mut Layer, node: &OraLayer, opacity_bits: u32)
    ensures
        final(layer).id == old(layer).id,
        final(layer).name == old(layer).name,
        final(layer).locked == old(layer).locked,
        final(layer).clipping_mask == old(layer).clipping_mask,
        final(layer).mask == old(layer).mask,
        final(layer).visible == node.visible,
        final(layer).opacity_bits == opacity_bits,
        final(layer).blend_mode == mode_of_ora(node.composite_op@),
        match old(layer).content {
            LayerContent::Pixel(p) => final(layer).content == LayerContent::Pixel(
                crate::pixel_layer::PixelLayer { canvas_offset_x: node.x, canvas_offset_y: node.y, ..p },
            ),
            _ => final(layer).content == old(layer).content,
        },
{
    match &mut layer.content {
        LayerContent::Pixel(px) => {
            px.canvas_offset_x = node.x;
            px.canvas_offset_y = node.y;
        },
        _ => {},
    }
    layer.visible = node.visible;
    layer.opacity_bits = opacity_bits;
    layer.blend_mode = from_ora(node.composite_op.as_str());
}

/// The empty group layer a `<stack>` element becomes, under the given id,
/// with the bits of the opacity read from the element.
pub fn stack_group(stack: &OraStack, id: LayerId, opacity_bits: u32) -> (r: Layer)
    ensures
        r.id == id,
        r.name@ == stack.name@,
        r.visible == stack.visible,
        !r.locked,
        r.opacity_bits == opacity_bits,
        r.blend_mode == mode_of_ora(stack.composite_op@),
        !r.clipping_mask,
        r.mask is None,
        r.content matches LayerContent::Group { children } && children@.len() == 0,
{
    Layer {
        id,
        name: stack.name.clone(),
        visible: stack.visible,
        locked: false,
        opacity_bits,
        blend_mode: from_ora(stack.composite_op.as_str()),
        clipping_mask: false,
        mask: None,
        content: LayerContent::Group { children: Vec::new() },
    }
}

} // verus!
