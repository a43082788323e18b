//! Properties of the layer tree that span several operations.

use vstd::prelude::*;

use crate::blend::{lemma_aif_name_parse_print, lemma_aif_name_round_trip, mode_of_aif_name};
use crate::layer::Layer;
use crate::ops::{LayerId, LayerProp, PropValueModel};

use super::apply::{clamp_unit_bits, prop_applied, prop_of};
use super::order::{
    below, in_subtree, lemma_list_contains, lemma_list_unfold,
    lemma_node_unfold, lemma_subtree_height, lemma_subtree_parent, pre_list, pre_node,
};
use super::{kids, lemma_shape_edges, shape_ok, without, LayerTree, LayerTreeError};
use super::edit::{detach_touched, parent_of};

verus! {

/// A layer that was added can be read back: after a successful
/// [`add_layer`](LayerTree::add_layer), [`get`](LayerTree::get) finds the
/// layer under its id, unchanged.
pub proof fn law_add_then_get(
    before: LayerTree,
    after: LayerTree,
    parent: Option<LayerId>,
    position: usize,
    layer: Layer,
    r: Result<LayerId, LayerTreeError>,
)
    requires
        before.wf(),
        before.added(parent, position, layer, r, after),
        r is Ok,
    ensures
        r == Ok::<LayerId, LayerTreeError>(layer.id),
        after.layer_map().contains_key(layer.id),
        after.layer_map()[layer.id] == layer,
{
}

/// Removing a layer leaves nothing of its subtree behind: after a successful
/// [`remove_layer`](LayerTree::remove_layer), no layer of the removed
/// subtree (the layer itself included) is found any more, no list (the
/// roots, or a group's children) names the removed layer, and every other
/// layer is still there; all but the removed layer's parent group are
/// unchanged.
pub proof fn law_remove_leaves_no_orphans(
    before: LayerTree,
    after: LayerTree,
    id: LayerId,
    r: Result<Layer, LayerTreeError>,
    c: LayerId,
)
    requires
        before.wf(),
        before.removed(id, r, after),
        r is Ok,
    ensures
        in_subtree(before.layer_map(), before.heights(), id, c) ==> !after.layer_map().contains_key(c),
        !after.layer_map().contains_key(id),
        before.layer_map().contains_key(c) && !in_subtree(before.layer_map(), before.heights(), id, c)
            ==> after.layer_map().contains_key(c),
        !after.roots().contains(id),
        !kids(after.layer_map(), c).contains(id),
        before.layer_map().contains_key(c) && !in_subtree(before.layer_map(), before.heights(), id, c)
            && !kids(before.layer_map(), c).contains(id) ==> after.layer_map()[c] == before.layer_map()[c],
{
    let m = before.layer_map();
    let roots = before.roots();
    lemma_shape_edges(m, roots, before.heights(), before.spec_height_bound());
    super::order::lemma_node_contains(m, before.heights(), id, id);
    super::edit::lemma_without(roots, id);
    let sub = pre_node(m, before.heights(), id).to_set();
    let m1 = m.remove_keys(sub);
    let touched = detach_touched(m, roots, id);
    if after.layer_map().contains_key(c) {
        assert(m1.contains_key(c));
        if touched.contains(c) {
            assert(kids(m, c).contains(id));
            super::edit::lemma_without(kids(m, c), id);
            assert(kids(after.layer_map(), c) == without(kids(m, c), id));
        } else {
            assert(after.layer_map()[c] == m1[c]);
            if kids(m, c).contains(id) {
                assert(!roots.contains(id));
                assert(touched == set![parent_of(m, id)]);
                assert(kids(m, parent_of(m, id)).contains(id));
                assert(parent_of(m, id) == c);
            }
        }
    }
}

/// Moving a layer places it exactly once: after a successful
/// [`move_layer`](LayerTree::move_layer) the layer stands at `new_position`
/// of its destination list (the roots, or the new parent's children), which
/// lists it once, and in no other list; the tree keeps the same layers, each
/// with its own id, name, visibility, lock, opacity, blend mode, clipping
/// flag and mask.
pub proof fn law_move_places_once(
    before: LayerTree,
    after: LayerTree,
    id: LayerId,
    new_parent: Option<LayerId>,
    new_position: usize,
    r: Result<(), LayerTreeError>,
    g: LayerId,
)
    requires
        before.wf(),
        after.wf(),
        before.moved(id, new_parent, new_position, r, after),
        r is Ok,
    ensures
        after.layer_map().dom() == before.layer_map().dom(),
        match new_parent {
            None => {
                &&& 0 <= new_position < after.roots().len()
                &&& after.roots()[new_position as int] == id
                &&& after.roots().no_duplicates()
                &&& !kids(after.layer_map(), g).contains(id)
            },
            Some(np) => {
                &&& 0 <= new_position < kids(after.layer_map(), np).len()
                &&& kids(after.layer_map(), np)[new_position as int] == id
                &&& kids(after.layer_map(), np).no_duplicates()
                &&& !after.roots().contains(id)
                &&& g != np ==> !kids(after.layer_map(), g).contains(id)
            },
        },
        before.layer_map().contains_key(g) ==> {
            let a = before.layer_map()[g];
            let b = after.layer_map()[g];
            &&& b.id == a.id
            &&& b.name == a.name
            &&& b.visible == a.visible
            &&& b.locked == a.locked
            &&& b.opacity_bits == a.opacity_bits
            &&& b.blend_mode == a.blend_mode
            &&& b.clipping_mask == a.clipping_mask
            &&& b.mask == a.mask
        },
{
    let m = before.layer_map();
    let roots = before.roots();
    let am = after.layer_map();
    lemma_shape_edges(m, roots, before.heights(), before.spec_height_bound());
    super::edit::lemma_without(roots, id);
    let t = detach_touched(m, roots, id);
    if m.contains_key(g) {
        super::edit::lemma_without(kids(m, g), id);
    }
    if kids(m, g).contains(id) {
        assert(!roots.contains(id));
        assert(t == set![parent_of(m, id)]);
        assert(kids(m, parent_of(m, id)).contains(id));
        assert(parent_of(m, id) == g);
    }
    assert(am.dom() =~= m.dom());
    match new_parent {
        None => {
            assert(after.roots() == without(roots, id).insert(new_position as int, id));
            assert(after.roots()[new_position as int] == id);
            if am.contains_key(g) {
                if t.contains(g) {
                    assert(kids(am, g) == without(kids(m, g), id));
                } else {
                    assert(am[g] == m[g]);
                }
            }
        },
        Some(np) => {
            super::edit::lemma_without(kids(m, np), id);
            if g != np && am.contains_key(g) {
                if t.contains(g) {
                    assert(t.insert(np).contains(g));
                    assert(kids(am, g) == without(kids(m, g), id));
                } else {
                    assert(am[g] == m[g]);
                }
            }
        },
    }
}

/// A layer can never be moved into its own subtree: such a
/// [`move_layer`](LayerTree::move_layer) is refused with
/// [`LayerTreeError::CircularMove`] and leaves the tree as it was.
pub proof fn law_circular_move_refused(
    before: LayerTree,
    after: LayerTree,
    id: LayerId,
    np: LayerId,
    position: usize,
    r: Result<(), LayerTreeError>,
)
    requires
        before.wf(),
        before.moved(id, Some(np), position, r, after),
        before.layer_map().contains_key(id),
        in_subtree(before.layer_map(), before.heights(), id, np),
    ensures
        r == Err::<(), LayerTreeError>(LayerTreeError::CircularMove(id)),
        after.layer_map() == before.layer_map(),
        after.roots() == before.roots(),
{
}

/// The depth-first walk visits exactly the layers reachable from the roots.
pub proof fn law_depth_first_visits_attached(t: LayerTree, c: LayerId)
    requires
        t.wf(),
    ensures
        t.depth_first().contains(c) <==> exists|i: int|
            0 <= i < t.roots().len() && #[trigger] in_subtree(t.layer_map(), t.heights(), t.roots()[i], c),
{
    let m = t.layer_map();
    let h = t.heights();
    lemma_shape_edges(m, t.roots(), h, t.spec_height_bound());
    lemma_list_contains(m, h, t.roots(), t.spec_height_bound(), c);
    if t.depth_first().contains(c) {
        let i = choose|i: int| 0 <= i < t.roots().len() && #[trigger] pre_node(m, h, t.roots()[i]).contains(c);
        assert(in_subtree(m, h, t.roots()[i], c));
    }
    if exists|i: int| 0 <= i < t.roots().len() && #[trigger] in_subtree(m, h, t.roots()[i], c) {
        let i = choose|i: int| 0 <= i < t.roots().len() && #[trigger] in_subtree(m, h, t.roots()[i], c);
        assert(pre_node(m, h, t.roots()[i]).contains(c));
    }
}

/// Applying a property value and reading it back gives the value applied:
/// a name or flag as given, an opacity clamped to `[0, 1]`, a known blend
/// mode identifier as given; a value of the wrong kind, or an unknown blend
/// mode identifier, leaves the property as it was.
pub proof fn law_set_then_read(a: Layer, b: Layer, p: LayerProp, v: PropValueModel)
    requires
        prop_applied(a, b, p, v),
    ensures
        match (p, v) {
            (LayerProp::Name, PropValueModel::Str(_)) => prop_of(b, p) == v,
            (LayerProp::Visible, PropValueModel::Bool(_)) => prop_of(b, p) == v,
            (LayerProp::Locked, PropValueModel::Bool(_)) => prop_of(b, p) == v,
            (LayerProp::Opacity, PropValueModel::Float(f)) => prop_of(b, p) == PropValueModel::Float(
                clamp_unit_bits(f),
            ),
            (LayerProp::BlendMode, PropValueModel::Str(s)) => if mode_of_aif_name(s) is Some {
                prop_of(b, p) == v
            } else {
                prop_of(b, p) == prop_of(a, p)
            },
            _ => prop_of(b, p) == prop_of(a, p),
        },
{
    if let (LayerProp::BlendMode, PropValueModel::Str(s)) = (p, v) {
        lemma_aif_name_parse_print(s);
    }
}

/// Re-applying the value read before an edit undoes the edit: reading
/// property `p` of `a`, applying any value `v` to get `b`, then applying
/// the value read gives back every field of `a` (for opacity, when `a`'s
/// opacity already lies in `[0, 1]`).
pub proof fn law_read_apply_restores(a: Layer, b: Layer, c: Layer, p: LayerProp, v: PropValueModel)
    requires
        prop_applied(a, b, p, v),
        prop_applied(b, c, p, prop_of(a, p)),
        p == LayerProp::Opacity ==> clamp_unit_bits(a.opacity_bits) == a.opacity_bits,
    ensures
        c.id == a.id,
        c.name@ == a.name@,
        c.visible == a.visible,
        c.locked == a.locked,
        c.opacity_bits == a.opacity_bits,
        c.blend_mode == a.blend_mode,
        c.clipping_mask == a.clipping_mask,
        c.mask == a.mask,
        c.content == a.content,
{
    if p == LayerProp::BlendMode {
        lemma_aif_name_round_trip(a.blend_mode);
    }
}

/// Two subtrees that share a layer are nested: one root lies in the other's
/// subtree (each layer has at most one parent).
proof fn lemma_common_descendant(
    m: Map<LayerId, Layer>,
    roots: Seq<LayerId>,
    h: Map<LayerId, nat>,
    bound: nat,
    a: LayerId,
    b: LayerId,
    c: LayerId,
)
    requires
        shape_ok(m, roots, h, bound),
        in_subtree(m, h, a, c),
        in_subtree(m, h, b, c),
    ensures
        in_subtree(m, h, a, b) || in_subtree(m, h, b, a),
    decreases h[a] - h[c],
{
    lemma_shape_edges(m, roots, h, bound);
    if c != a && c != b {
        lemma_subtree_height(m, h, a, c);
        lemma_subtree_parent(m, h, a, c);
        lemma_subtree_parent(m, h, b, c);
        let p1 = choose|p: LayerId| #[trigger] kids(m, p).contains(c) && in_subtree(m, h, a, p);
        let p2 = choose|p: LayerId| #[trigger] kids(m, p).contains(c) && in_subtree(m, h, b, p);
        assert(p1 == p2);
        assert(m.contains_key(p1)) by {
            if !m.contains_key(p1) {
                assert(kids(m, p1).len() == 0);
            }
        }
        assert(h[c] < h[p1]);
        if p1 != a {
            lemma_subtree_height(m, h, a, p1);
        }
        lemma_common_descendant(m, roots, h, bound, a, b, p1);
    }
}

/// No layer of `l` lies in the subtree of another layer of `l`.
spec fn unnested(m: Map<LayerId, Layer>, h: Map<LayerId, nat>, l: Seq<LayerId>) -> bool {
    forall|i: int, j: int|
        0 <= i < l.len() && 0 <= j < l.len() && i != j ==> !in_subtree(m, h, #[trigger] l[i], #[trigger] l[j])
}

/// A subtree lists each of its layers once.
proof fn lemma_node_once(m: Map<LayerId, Layer>, roots: Seq<LayerId>, h: Map<LayerId, nat>, bound: nat, a: LayerId)
    requires
        shape_ok(m, roots, h, bound),
    ensures
        pre_node(m, h, a).no_duplicates(),
    decreases h[a] + 1, 0nat,
{
    lemma_shape_edges(m, roots, h, bound);
    lemma_node_unfold(m, h, a);
    let ks = kids(m, a);
    assert(ks.no_duplicates()) by {
        if !m.contains_key(a) {
            assert(ks.len() == 0);
        }
    }
    assert(unnested(m, h, ks)) by {
        assert forall|i: int, j: int|
            0 <= i < ks.len() && 0 <= j < ks.len() && i != j implies !in_subtree(m, h, #[trigger] ks[i], #[trigger] ks[j]) by {
            if in_subtree(m, h, ks[i], ks[j]) {
                assert(ks.contains(ks[i]) && ks.contains(ks[j]));
                lemma_subtree_parent(m, h, ks[i], ks[j]);
                let p = choose|p: LayerId| #[trigger] kids(m, p).contains(ks[j]) && in_subtree(m, h, ks[i], p);
                assert(p == a);
                assert(m.contains_key(a));
                lemma_subtree_height(m, h, ks[i], a);
            }
        }
    }
    lemma_list_once(m, roots, h, bound, ks, h[a]);
    let rest = pre_list(m, h, ks, h[a]);
    assert(!rest.contains(a)) by {
        if rest.contains(a) {
            lemma_list_contains(m, h, ks, h[a], a);
            let i = choose|i: int| 0 <= i < ks.len() && #[trigger] pre_node(m, h, ks[i]).contains(a);
            assert(ks.contains(ks[i]));
            lemma_subtree_height(m, h, ks[i], a);
        }
    }
    let full = seq![a] + rest;
    assert forall|i: int, j: int| 0 <= i < full.len() && 0 <= j < full.len() && i != j implies full[i] != full[j] by {
        if i == 0 && j > 0 {
            assert(full[j] == rest[j - 1]);
        } else if j == 0 && i > 0 {
            assert(full[i] == rest[i - 1]);
        } else if i > 0 && j > 0 {
            assert(full[i] == rest[i - 1] && full[j] == rest[j - 1]);
        }
    }
}

/// The listing of unnested, distinct layers lists each layer once.
proof fn lemma_list_once(
    m: Map<LayerId, Layer>,
    roots: Seq<LayerId>,
    h: Map<LayerId, nat>,
    bound: nat,
    l: Seq<LayerId>,
    hb: nat,
)
    requires
        shape_ok(m, roots, h, bound),
        below(h, l, hb),
        l.no_duplicates(),
        unnested(m, h, l),
    ensures
        pre_list(m, h, l, hb).no_duplicates(),
    decreases hb, l.len(),
{
    lemma_shape_edges(m, roots, h, bound);
    if l.len() > 0 {
        let t = l.drop_first();
        lemma_list_unfold(m, h, l, hb);
        assert(t.no_duplicates()) by {
            assert forall|i: int, j: int| 0 <= i < t.len() && 0 <= j < t.len() && i != j implies t[i] != t[j] by {
                assert(t[i] == l[i + 1] && t[j] == l[j + 1]);
            }
        }
        assert(unnested(m, h, t)) by {
            assert forall|i: int, j: int|
                0 <= i < t.len() && 0 <= j < t.len() && i != j implies !in_subtree(m, h, #[trigger] t[i], #[trigger] t[j]) by {
                assert(t[i] == l[i + 1] && t[j] == l[j + 1]);
            }
        }
        assert(h[l[0]] < hb);
        lemma_node_once(m, roots, h, bound, l[0]);
        lemma_list_once(m, roots, h, bound, t, hb);
        let x = pre_node(m, h, l[0]);
        let y = pre_list(m, h, t, hb);
        assert forall|c: LayerId| x.contains(c) implies !y.contains(c) by {
            if y.contains(c) {
                lemma_list_contains(m, h, t, hb, c);
                let j = choose|j: int| 0 <= j < t.len() && #[trigger] pre_node(m, h, t[j]).contains(c);
                assert(t[j] == l[j + 1]);
                lemma_common_descendant(m, roots, h, bound, l[0], t[j], c);
                assert(!in_subtree(m, h, l[0], l[j + 1]));
                assert(!in_subtree(m, h, l[j + 1], l[0]));
            }
        }
        let z = x + y;
        assert forall|i: int, j: int| 0 <= i < z.len() && 0 <= j < z.len() && i != j implies z[i] != z[j] by {
            if i < x.len() && j < x.len() {
            } else if i >= x.len() && j >= x.len() {
                assert(z[i] == y[i - x.len()] && z[j] == y[j - x.len()]);
            } else if i < x.len() {
                assert(z[j] == y[j - x.len()]);
                assert(x.contains(z[i]));
                assert(y.contains(z[j]));
            } else {
                assert(z[i] == y[i - x.len()]);
                assert(x.contains(z[j]));
                assert(y.contains(z[i]));
            }
        }
    }
}

/// A depth-first walk visits each attached layer exactly once: the walk
/// lists no layer twice (and, by [`law_depth_first_visits_attached`],
/// lists exactly the layers under some root).
pub proof fn law_depth_first_once(t: LayerTree)
    requires
        t.wf(),
    ensures
        t.depth_first().no_duplicates(),
{
    let m = t.layer_map();
    let h = t.heights();
    let roots = t.roots();
    let bound = t.spec_height_bound();
    lemma_shape_edges(m, roots, h, bound);
    assert(unnested(m, h, roots)) by {
        assert forall|i: int, j: int|
            0 <= i < roots.len() && 0 <= j < roots.len() && i != j implies !in_subtree(m, h, #[trigger] roots[i], #[trigger] roots[j]) by {
            if in_subtree(m, h, roots[i], roots[j]) {
                lemma_subtree_parent(m, h, roots[i], roots[j]);
                let p = choose|p: LayerId| #[trigger] kids(m, p).contains(roots[j]) && in_subtree(m, h, roots[i], p);
                assert(roots.contains(roots[j]));
            }
        }
    }
    lemma_list_once(m, roots, h, bound, roots, bound);
}

} // verus!
