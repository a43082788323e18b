//! Structural edits of a [`LayerTree`]: detaching, removing and moving
//! layers.

use vstd::prelude::*;

use crate::layer::{Layer, LayerContent};
use crate::ops::LayerId;

use super::order::{
    edges_ok, in_subtree, lemma_list_contains, lemma_node_unfold, lemma_subtree_height, lemma_subtree_parent, pre_list,
    pre_node,
};
use super::walk::{reversed, ParentLocation};
use super::{
    insert_child, is_group, kids, lemma_remove_layer, lemma_shape_edges, lemma_update_layer, lmap, shape_ok, sorted_ids, with_children, without,
    LayerTree, LayerTreeError,
};

verus! {

/// `id` is attached to the tree: listed among the roots or in the child
/// list of a group.
pub open spec fn attached(m: Map<LayerId, Layer>, roots: Seq<LayerId>, id: LayerId) -> bool {
    roots.contains(id) || exists|p: LayerId| #[trigger] kids(m, p).contains(id)
}

/// The group whose child list holds `id` (meaningful when there is one).
pub open spec fn parent_of(m: Map<LayerId, Layer>, id: LayerId) -> LayerId {
    choose|p: LayerId| #[trigger] kids(m, p).contains(id)
}

/// The groups whose child list changes when `id` is taken out of the tree:
/// its parent, when it is not a root.
pub open spec fn detach_touched(m: Map<LayerId, Layer>, roots: Seq<LayerId>, id: LayerId) -> Set<LayerId> {
    if !roots.contains(id) && exists|p: LayerId| #[trigger] kids(m, p).contains(id) {
        set![parent_of(m, id)]
    } else {
        Set::empty()
    }
}

/// The child lists of `m` with `id` taken out.
pub open spec fn drop_child(m: Map<LayerId, Layer>, id: LayerId) -> spec_fn(LayerId) -> Seq<LayerId> {
    |g: LayerId| without(kids(m, g), id)
}

/// `after` is `m` with only the child lists of the groups in `touched`
/// changed, each to `f` of its id.
pub open spec fn relisted(
    m: Map<LayerId, Layer>,
    after: Map<LayerId, Layer>,
    touched: Set<LayerId>,
    f: spec_fn(LayerId) -> Seq<LayerId>,
) -> bool {
    &&& after.dom() == m.dom()
    &&& forall|k: LayerId| m.contains_key(k) && !touched.contains(k) ==> after[k] == m[k]
    &&& forall|k: LayerId| m.contains_key(k) && #[trigger] touched.contains(k) ==> with_children(m[k], after[k], f(k))
}

pub proof fn lemma_without(s: Seq<LayerId>, x: LayerId)
    requires
        s.no_duplicates(),
    ensures
        without(s, x).no_duplicates(),
        forall|y: LayerId| #[trigger] without(s, x).contains(y) <==> (s.contains(y) && y != x),
        !s.contains(x) ==> without(s, x) == s,
        s.contains(x) ==> without(s, x).len() + 1 == s.len(),
{
    if s.contains(x) {
        let k = s.index_of(x);
        let t = s.remove(k);
        assert forall|i: int, j: int| 0 <= i < j < t.len() implies t[i] != t[j] by {
            let a = if i < k { i } else { i + 1 };
            let b = if j < k { j } else { j + 1 };
            assert(t[i] == s[a] && t[j] == s[b]);
        }
        assert forall|y: LayerId| #[trigger] t.contains(y) <==> (s.contains(y) && y != x) by {
            if t.contains(y) {
                let i = choose|i: int| 0 <= i < t.len() && t[i] == y;
                let a = if i < k { i } else { i + 1 };
                assert(s[a] == y);
                assert(a != k);
            }
            if s.contains(y) && y != x {
                let a = choose|a: int| 0 <= a < s.len() && s[a] == y;
                assert(a != k);
                if a < k {
                    assert(t[a] == y);
                } else {
                    assert(t[a - 1] == y);
                }
            }
        }
    }
}

/// `v` without the id `x`, every other id kept in order.
fn without_id(v: &[LayerId], x: LayerId) -> (r: Vec<LayerId>)
    requires
        v@.no_duplicates(),
    ensures
        r@ == without(v@, x),
{
    let ghost n = v@.len() as int;
    let ghost k: int = if v@.contains(x) { v@.index_of(x) } else { n };
    let mut r: Vec<LayerId> = Vec::new();
    let mut i: usize = 0;
    while i < v.len()
        invariant
            i <= n,
            n == v@.len(),
            v@.no_duplicates(),
            0 <= k <= n,
            k < n ==> v@[k] == x,
            k == n ==> !v@.contains(x),
            r@ == (if i <= k {
                v@.subrange(0, i as int)
            } else {
                v@.subrange(0, k) + v@.subrange(k + 1, i as int)
            }),
        decreases n - i,
    {
        if v[i] != x {
            proof {
                if i > k {
                    assert(v@.subrange(0, k) + v@.subrange(k + 1, i + 1) =~= v@.subrange(0, k) + v@.subrange(
                        k + 1,
                        i as int,
                    ) + seq![v@[i as int]]);
                } else {
                    assert(v@.subrange(0, i + 1) =~= v@.subrange(0, i as int) + seq![v@[i as int]]);
                }
            }
            r.push(v[i]);
        } else {
            proof {
                if (i as int) != k {
                    assert(k < n);
                    assert(v@[k] == v@[i as int]);
                }
                assert(v@.subrange(0, k) + v@.subrange(k + 1, i + 1) =~= v@.subrange(0, k));
            }
        }
        i = i + 1;
    }
    proof {
        if k < n {
            assert(r@ =~= v@.remove(k));
        } else {
            assert(r@ =~= v@);
        }
    }
    r
}

/// `l` with `id` taken out of its group child list.
fn remove_child(l: Layer, id: LayerId) -> (r: Layer)
    requires
        l.content matches LayerContent::Group { children } && children@.no_duplicates(),
    ensures
        l.content matches LayerContent::Group { children } && with_children(l, r, without(children@, id)),
{
    let Layer { id: lid, name, visible, locked, opacity_bits, blend_mode, clipping_mask, mask, content } = l;
    let content = match content {
        LayerContent::Group { children } => {
            let kept = without_id(children.as_slice(), id);
            LayerContent::Group { children: kept }
        },
        other => other,
    };
    Layer { id: lid, name, visible, locked, opacity_bits, blend_mode, clipping_mask, mask, content }
}

/// Taking an attached layer out of its list keeps the tree invariant.
proof fn lemma_detach_shape(
    m: Map<LayerId, Layer>,
    roots: Seq<LayerId>,
    h: Map<LayerId, nat>,
    bound: nat,
    id: LayerId,
    m1: Map<LayerId, Layer>,
    roots1: Seq<LayerId>,
)
    requires
        shape_ok(m, roots, h, bound),
        attached(m, roots, id),
        roots1 == without(roots, id),
        relisted(m, m1, detach_touched(m, roots, id), drop_child(m, id)),
    ensures
        shape_ok(m1, roots1, h, bound),
        forall|g: LayerId| #[trigger] kids(m1, g) == without(kids(m, g), id),
        !attached(m1, roots1, id),
{
    let t = detach_touched(m, roots, id);
    lemma_without(roots, id);
    assert forall|g: LayerId| #[trigger] kids(m1, g) == without(kids(m, g), id) by {
        if m.contains_key(g) {
            lemma_without(kids(m, g), id);
            if t.contains(g) {
            } else {
                assert(m1[g] == m[g]);
                if kids(m, g).contains(id) {
                    assert(!roots.contains(id));
                    assert(t.contains(parent_of(m, id)));
                    let p = parent_of(m, id);
                    assert(kids(m, p).contains(id));
                    assert(g == p);
                }
            }
        } else {
            assert(kids(m, g) == Seq::<LayerId>::empty());
            assert(without(kids(m, g), id) =~= kids(m, g));
        }
    }
    assert forall|g: LayerId| #[trigger] m1.contains_key(g) implies kids(m1, g).no_duplicates() by {
        lemma_without(kids(m, g), id);
    }
    assert forall|k: LayerId| #[trigger] m1.contains_key(k) implies m1[k].id == k by {
        if !t.contains(k) {
            assert(m1[k] == m[k]);
        }
    }
    assert forall|i: int| 0 <= i < roots1.len() implies m1.contains_key(#[trigger] roots1[i]) by {
        assert(roots1.contains(roots1[i]));
    }
    assert forall|g: LayerId, i: int| m1.contains_key(g) && 0 <= i < kids(m1, g).len() implies m1.contains_key(
        #[trigger] kids(m1, g)[i],
    ) by {
        lemma_without(kids(m, g), id);
        assert(kids(m1, g).contains(kids(m1, g)[i]));
        let c = kids(m1, g)[i];
        let j = choose|j: int| 0 <= j < kids(m, g).len() && kids(m, g)[j] == c;
    }
    assert forall|g: LayerId, c: LayerId| #[trigger] kids(m1, g).contains(c) implies !roots1.contains(c) by {
        lemma_without(kids(m, g), id);
    }
    assert forall|g1: LayerId, g2: LayerId, c: LayerId|
        #[trigger] kids(m1, g1).contains(c) && #[trigger] kids(m1, g2).contains(c) implies g1 == g2 by {
        lemma_without(kids(m, g1), id);
        lemma_without(kids(m, g2), id);
    }
    assert forall|g: LayerId, c: LayerId| m1.contains_key(g) && #[trigger] kids(m1, g).contains(c) implies h[c] < h[g] by {
        lemma_without(kids(m, g), id);
    }
    assert forall|p: LayerId| !(#[trigger] kids(m1, p).contains(id)) by {
        if m.contains_key(p) {
            lemma_without(kids(m, p), id);
        } else {
            assert(kids(m1, p) == without(kids(m, p), id));
            assert(kids(m, p) == Seq::<LayerId>::empty());
        }
    }
}

impl LayerTree {
    /// Take the attached layer `id` out of the list it is attached to
    /// (`loc`), leaving it (and its subtree) unattached.
    fn detach(&mut self, id: LayerId, loc: ParentLocation)
        requires
            old(self).wf(),
            match loc {
                ParentLocation::Root => old(self).roots().contains(id),
                ParentLocation::Group(p) => {
                    &&& !old(self).roots().contains(id)
                    &&& old(self).layer_map().contains_key(p)
                    &&& kids(old(self).layer_map(), p).contains(id)
                },
            },
        ensures
            final(self).wf(),
            final(self).same_canvas(&*old(self)),
            final(self).heights() == old(self).heights(),
            final(self).spec_height_bound() == old(self).spec_height_bound(),
            final(self).roots() == without(old(self).roots(), id),
            relisted(
                old(self).layer_map(),
                final(self).layer_map(),
                detach_touched(old(self).layer_map(), old(self).roots(), id),
                drop_child(old(self).layer_map(), id),
            ),
            !attached(final(self).layer_map(), final(self).roots(), id),
    {
        let ghost m = self.layer_map();
        let ghost roots = self.roots();
        let ghost h = self.heights();
        let ghost bound = self.spec_height_bound();
        let ghost t = detach_touched(m, roots, id);
        match loc {
            ParentLocation::Root => {
                let nr = without_id(self.root_ids.as_slice(), id);
                self.root_ids = nr;
                proof {
                    assert(t =~= Set::<LayerId>::empty());
                }
            },
            ParentLocation::Group(p) => {
                let idx = match self.find_index(p) {
                    Some(i) => i,
                    None => {
                        return;
                    },
                };
                proof {
                    lemma_without(roots, id);
                    assert(kids(m, parent_of(m, id)).contains(id));
                    assert(parent_of(m, id) == p);
                    assert(t =~= set![p]);
                    assert(self.layers@[idx as int] == m[p]);
                    assert(m[p].content is Group);
                }
                let ghost s0 = self.layers@;
                let l = self.layers.remove(idx);
                let l2 = remove_child(l, id);
                self.layers.insert(idx, l2);
                proof {
                    assert(self.layers@ == s0.update(idx as int, l2));
                    lemma_update_layer(s0, idx as int, l2);
                    assert(self.layer_map() == m.insert(p, l2));
                    assert(self.layer_map().dom() =~= m.dom());
                }
            },
        }
        proof {
            lemma_detach_shape(m, roots, h, bound, id, self.layer_map(), self.roots());
        }
    }
}

proof fn lemma_push_set(s: Seq<LayerId>, x: LayerId)
    ensures
        s.push(x).to_set() == s.to_set().insert(x),
{
    assert forall|y: LayerId| s.push(x).to_set().contains(y) implies s.to_set().insert(x).contains(y) by {
        let t = s.push(x);
        let k = choose|k: int| 0 <= k < t.len() && t[k] == y;
        if k < s.len() {
            assert(s[k] == y);
        }
    }
    assert forall|y: LayerId| s.to_set().insert(x).contains(y) implies s.push(x).to_set().contains(y) by {
        let t = s.push(x);
        if y == x {
            assert(t[s.len() as int] == y);
        } else {
            let k = choose|k: int| 0 <= k < s.len() && s[k] == y;
            assert(t[k] == y);
        }
    }
    assert(s.push(x).to_set() =~= s.to_set().insert(x));
}

proof fn lemma_cons_set(s: Seq<LayerId>, x: LayerId)
    ensures
        (seq![x] + s).to_set() == s.to_set().insert(x),
{
    let t = seq![x] + s;
    assert forall|y: LayerId| t.to_set().contains(y) implies s.to_set().insert(x).contains(y) by {
        let k = choose|k: int| 0 <= k < t.len() && t[k] == y;
        if k > 0 {
            assert(s[k - 1] == y);
        }
    }
    assert forall|y: LayerId| s.to_set().insert(x).contains(y) implies t.to_set().contains(y) by {
        if y == x {
            assert(t[0] == y);
        } else {
            let k = choose|k: int| 0 <= k < s.len() && s[k] == y;
            assert(t[k + 1] == y);
        }
    }
    assert(t.to_set() =~= s.to_set().insert(x));
}

/// A layer appears once in the listing of its own subtree.
proof fn lemma_root_once(m: Map<LayerId, Layer>, h: Map<LayerId, nat>, id: LayerId)
    requires
        edges_ok(m, h),
    ensures
        pre_node(m, h, id).len() >= 1,
        pre_node(m, h, id)[0] == id,
        !pre_node(m, h, id).subrange(1, pre_node(m, h, id).len() as int).contains(id),
{
    lemma_node_unfold(m, h, id);
    let ks = kids(m, id);
    let rest = pre_node(m, h, id).subrange(1, pre_node(m, h, id).len() as int);
    assert(rest =~= pre_list(m, h, ks, h[id]));
    lemma_list_contains(m, h, ks, h[id], id);
    if rest.contains(id) {
        let i = choose|i: int| 0 <= i < ks.len() && #[trigger] pre_node(m, h, ks[i]).contains(id);
        assert(ks.contains(ks[i]));
        if ks[i] == id {
            assert(h[id] < h[id]);
        } else {
            lemma_subtree_height(m, h, ks[i], id);
        }
    }
}

/// Dropping the detached subtree of `id` keeps the tree invariant.
proof fn lemma_gone_shape(
    m: Map<LayerId, Layer>,
    roots: Seq<LayerId>,
    h: Map<LayerId, nat>,
    bound: nat,
    id: LayerId,
    m1: Map<LayerId, Layer>,
    roots1: Seq<LayerId>,
)
    requires
        shape_ok(m, roots, h, bound),
        roots1 == without(roots, id),
        m1.dom() == m.dom(),
        forall|g: LayerId| #[trigger] kids(m1, g) == without(kids(m, g), id),
        shape_ok(m1, roots1, h, bound),
    ensures
        shape_ok(m1.remove_keys(pre_node(m, h, id).to_set()), roots1, h, bound),
{
    let gone = pre_node(m, h, id).to_set();
    let m2 = m1.remove_keys(gone);
    lemma_shape_edges(m, roots, h, bound);
    lemma_without(roots, id);
    assert forall|g: LayerId| #[trigger] kids(m2, g) == if m2.contains_key(g) {
        kids(m1, g)
    } else {
        Seq::<LayerId>::empty()
    } by {}
    assert forall|r: LayerId| #[trigger] roots1.contains(r) implies !gone.contains(r) by {
        if in_subtree(m, h, id, r) {
            lemma_subtree_parent(m, h, id, r);
            let p = choose|p: LayerId| #[trigger] kids(m, p).contains(r) && in_subtree(m, h, id, p);
        }
    }
    assert forall|g: LayerId, c: LayerId| m2.contains_key(g) && #[trigger] kids(m1, g).contains(c) implies !gone.contains(
        c,
    ) by {
        lemma_without(kids(m, g), id);
        if in_subtree(m, h, id, c) {
            lemma_subtree_parent(m, h, id, c);
            let q = choose|q: LayerId| #[trigger] kids(m, q).contains(c) && in_subtree(m, h, id, q);
            assert(q == g);
        }
    }
    assert forall|i: int| 0 <= i < roots1.len() implies m2.contains_key(#[trigger] roots1[i]) by {
        assert(roots1.contains(roots1[i]));
    }
    assert forall|g: LayerId, i: int| m2.contains_key(g) && 0 <= i < kids(m2, g).len() implies m2.contains_key(
        #[trigger] kids(m2, g)[i],
    ) by {
        assert(kids(m1, g).contains(kids(m1, g)[i]));
    }
}

impl LayerTree {
    /// What [`remove_layer`](LayerTree::remove_layer) makes of `self` (as
    /// `after`), returning `r`.
    pub open spec fn removed(self, id: LayerId, r: Result<Layer, LayerTreeError>, after: LayerTree) -> bool {
        let m = self.layer_map();
        let roots = self.roots();
        &&& after.same_canvas(&self)
        &&& if !attached(m, roots, id) {
            &&& r == Err::<Layer, LayerTreeError>(LayerTreeError::NotFound(id))
            &&& after.layer_map() == m
            &&& after.roots() == roots
        } else {
            &&& r == Ok::<Layer, LayerTreeError>(m[id])
            &&& after.roots() == without(roots, id)
            &&& relisted(
                m.remove_keys(pre_node(m, self.heights(), id).to_set()),
                after.layer_map(),
                detach_touched(m, roots, id),
                drop_child(m, id),
            )
        }
    }

    /// Remove a layer and all its descendants, returning the removed layer.
    ///
    /// The layer is taken out of the list it is attached to; a layer that is
    /// not attached to the tree is reported as not found.
    pub fn remove_layer(&mut self, id: LayerId) -> (r: Result<Layer, LayerTreeError>)
        requires
            old(self).wf(),
        ensures
            final(self).wf(),
            old(self).removed(id, r, *final(self)),
    {
        let loc = match self.find_parent(id) {
            Some(l) => l,
            None => {
                return Err(LayerTreeError::NotFound(id));
            },
        };
        let ghost m = self.layer_map();
        let ghost roots = self.roots();
        let ghost h = self.heights();
        let ghost bound = self.spec_height_bound();
        proof {
            lemma_shape_edges(m, roots, h, bound);
            match loc {
                ParentLocation::Root => {
                    let i = choose|i: int| 0 <= i < roots.len() && roots[i] == id;
                },
                ParentLocation::Group(p) => {
                    let i = choose|i: int| 0 <= i < kids(m, p).len() && kids(m, p)[i] == id;
                },
            }
            assert(m.contains_key(id));
            lemma_root_once(m, h, id);
        }
        let mut start: Vec<LayerId> = Vec::new();
        start.push(id);
        let doomed = self.dfs_from(start);
        proof {
            assert(reversed(seq![id]) =~= seq![id]);
            super::order::lemma_list_unfold(m, h, seq![id], bound);
            assert(seq![id].drop_first() =~= Seq::<LayerId>::empty());
            assert(doomed@ =~= pre_node(m, h, id));
        }
        self.detach(id, loc);
        let ghost m1 = self.layer_map();
        let ghost roots1 = self.roots();
        proof {
            lemma_detach_shape(m, roots, h, bound, id, m1, roots1);
            assert(m1.remove_keys(doomed@.subrange(1, 1).to_set()) =~= m1);
        }
        let mut j: usize = 1;
        while j < doomed.len()
            invariant
                1 <= j <= doomed@.len(),
                sorted_ids(self.layers@),
                lmap(self.layers@) == m1.remove_keys(doomed@.subrange(1, j as int).to_set()),
                self.root_ids@ == roots1,
                self.height@ == h,
                self.height_bound@ == bound,
                self.canvas() == old(self).canvas(),
            decreases doomed@.len() - j,
        {
            let ghost before = self.layers@;
            let ghost done = doomed@.subrange(1, j as int).to_set();
            let ghost done2 = doomed@.subrange(1, j + 1).to_set();
            proof {
                lemma_push_set(doomed@.subrange(1, j as int), doomed@[j as int]);
                assert(doomed@.subrange(1, j + 1) =~= doomed@.subrange(1, j as int).push(doomed@[j as int]));
            }
            match self.find_index(doomed[j]) {
                Some(i) => {
                    self.layers.remove(i);
                    proof {
                        lemma_remove_layer(before, i as int);
                        assert(lmap(self.layers@) =~= m1.remove_keys(done2));
                    }
                },
                None => {
                    proof {
                        assert(lmap(self.layers@) =~= m1.remove_keys(done2));
                    }
                },
            }
            j = j + 1;
        }
        let ghost gone = doomed@.to_set();
        let ghost rest = doomed@.subrange(1, doomed@.len() as int).to_set();
        proof {
            assert(!rest.contains(id));
            assert(m1.contains_key(id));
            assert(lmap(self.layers@).contains_key(id));
        }
        match self.find_index(id) {
            Some(i) => {
                let ghost before = self.layers@;
                let l = self.layers.remove(i);
                proof {
                    lemma_remove_layer(before, i as int);
                    lemma_cons_set(doomed@.subrange(1, doomed@.len() as int), id);
                    assert(doomed@ =~= seq![id] + doomed@.subrange(1, doomed@.len() as int));
                    assert(self.layer_map() =~= m1.remove_keys(gone));
                    lemma_gone_shape(m, roots, h, bound, id, m1, roots1);
                    assert(!kids(m, id).contains(id)) by {
                        if kids(m, id).contains(id) {
                            assert(h[id] < h[id]);
                        }
                    }
                    let t = detach_touched(m, roots, id);
                    if t.contains(id) {
                        assert(kids(m, parent_of(m, id)).contains(id));
                    }
                    assert(m1[id] == m[id]);
                    assert forall|k: LayerId| #[trigger] t.contains(k) implies !gone.contains(k) by {
                        let p = parent_of(m, id);
                        assert(kids(m, p).contains(id));
                        assert(m.contains_key(p));
                        if in_subtree(m, h, id, p) {
                            if p != id {
                                lemma_subtree_height(m, h, id, p);
                            }
                        }
                    }
                    let mr = m.remove_keys(gone);
                    assert(self.layer_map().dom() =~= mr.dom());
                }
                Ok(l)
            },
            None => Err(LayerTreeError::NotFound(id)),
        }
    }
}

/// Heights `h` with every layer outside `keep` raised by `d`.
pub open spec fn shifted(h: Map<LayerId, nat>, keep: Set<LayerId>, d: nat) -> Map<LayerId, nat> {
    Map::new(|k: LayerId| h.contains_key(k), |k: LayerId| if keep.contains(k) { h[k] } else { h[k] + d })
}

/// Re-attaching a detached layer outside its own subtree keeps the tree
/// invariant, with the heights of every other layer raised above the subtree.
proof fn lemma_attach_shape(
    m: Map<LayerId, Layer>,
    roots: Seq<LayerId>,
    h: Map<LayerId, nat>,
    bound: nat,
    id: LayerId,
    m1: Map<LayerId, Layer>,
    roots1: Seq<LayerId>,
    m2: Map<LayerId, Layer>,
    roots2: Seq<LayerId>,
    dest: Option<LayerId>,
    pos: int,
)
    requires
        shape_ok(m, roots, h, bound),
        m.contains_key(id),
        roots1 == without(roots, id),
        m1.dom() == m.dom(),
        forall|g: LayerId| #[trigger] kids(m1, g) == without(kids(m, g), id),
        shape_ok(m1, roots1, h, bound),
        !attached(m1, roots1, id),
        match dest {
            None => {
                &&& m2 == m1
                &&& 0 <= pos <= roots1.len()
                &&& roots2 == roots1.insert(pos, id)
            },
            Some(np) => {
                &&& m1.contains_key(np)
                &&& !in_subtree(m, h, id, np)
                &&& roots2 == roots1
                &&& m2.dom() == m1.dom()
                &&& m2[np].id == np
                &&& forall|k: LayerId| m1.contains_key(k) && k != np ==> m2[k] == m1[k]
                &&& 0 <= pos <= kids(m1, np).len()
                &&& kids(m2, np) == kids(m1, np).insert(pos, id)
            },
        },
    ensures
        shape_ok(m2, roots2, shifted(h, pre_node(m, h, id).to_set(), bound), 2 * bound),
{
    let sub = pre_node(m, h, id).to_set();
    let h2 = shifted(h, sub, bound);
    lemma_shape_edges(m, roots, h, bound);
    super::order::lemma_node_contains(m, h, id, id);
    assert(sub.contains(id));
    assert forall|g: LayerId| #[trigger] kids(m2, g) == if dest == Some(g) {
        kids(m1, g).insert(pos, id)
    } else {
        kids(m1, g)
    } by {
        if dest != Some(g) && m1.contains_key(g) && dest is Some {
            assert(m2[g] == m1[g]);
        }
    }
    // Facts about the old edges that survive the detach.
    assert forall|g: LayerId, c: LayerId| #[trigger] kids(m1, g).contains(c) implies c != id && kids(m, g).contains(c)
        && m1.contains_key(g) && m1.contains_key(c) by {
        lemma_without(kids(m, g), id);
        if !m1.contains_key(g) {
            assert(kids(m, g) == Seq::<LayerId>::empty());
        }
        let i = choose|i: int| 0 <= i < kids(m1, g).len() && kids(m1, g)[i] == c;
    }
    assert forall|s: Seq<LayerId>, y: LayerId|
        0 <= pos <= s.len() implies (#[trigger] s.insert(pos, id).contains(y) <==> (s.contains(y) || y == id)) by {
        {
            let t = s.insert(pos, id);
            if t.contains(y) {
                let k = choose|k: int| 0 <= k < t.len() && t[k] == y;
                if k < pos {
                    assert(s[k] == y);
                } else if k > pos {
                    assert(s[k - 1] == y);
                }
            }
            if s.contains(y) {
                let k = choose|k: int| 0 <= k < s.len() && s[k] == y;
                if k < pos {
                    assert(t[k] == y);
                } else {
                    assert(t[k + 1] == y);
                }
            }
            if y == id {
                assert(t[pos] == y);
            }
        }
    }
    assert forall|s: Seq<LayerId>|
        0 <= pos <= s.len() && s.no_duplicates() && !s.contains(id) implies #[trigger] s.insert(pos, id).no_duplicates() by {
        let t = s.insert(pos, id);
        assert forall|i: int, j: int| 0 <= i < j < t.len() implies t[i] != t[j] by {
            if j < pos {
            } else if j == pos {
                assert(s.contains(t[i]));
            } else if i < pos {
                assert(t[j] == s[j - 1]);
            } else if i == pos {
                assert(s.contains(t[j]));
            } else {
                assert(t[i] == s[i - 1] && t[j] == s[j - 1]);
            }
        }
    }
    assert(!roots1.contains(id));
    assert forall|k: LayerId| #[trigger] m2.contains_key(k) implies m2[k].id == k by {
        if dest != Some(k) {
            assert(m2[k] == m1[k]);
        }
    }
    assert(roots2.no_duplicates());
    assert forall|i: int| 0 <= i < roots2.len() implies m2.contains_key(#[trigger] roots2[i]) by {
        assert(roots2.contains(roots2[i]));
        if roots2[i] != id {
            assert(roots1.contains(roots2[i]));
            let j = choose|j: int| 0 <= j < roots1.len() && roots1[j] == roots2[i];
        }
    }
    assert forall|g: LayerId| #[trigger] m2.contains_key(g) implies kids(m2, g).no_duplicates() by {
        if dest == Some(g) {
            assert(!kids(m1, g).contains(id));
        }
    }
    assert forall|g: LayerId, i: int| m2.contains_key(g) && 0 <= i < kids(m2, g).len() implies m2.contains_key(
        #[trigger] kids(m2, g)[i],
    ) by {
        let c = kids(m2, g)[i];
        assert(kids(m2, g).contains(c));
        if c != id {
            assert(kids(m1, g).contains(c));
        }
    }
    assert forall|g: LayerId, c: LayerId| #[trigger] kids(m2, g).contains(c) implies !roots2.contains(c) by {
        if c != id {
            assert(kids(m1, g).contains(c));
        } else {
            assert(dest == Some(g));
        }
    }
    assert forall|g1: LayerId, g2: LayerId, c: LayerId|
        #[trigger] kids(m2, g1).contains(c) && #[trigger] kids(m2, g2).contains(c) implies g1 == g2 by {
        if c == id {
            assert(dest == Some(g1));
            assert(dest == Some(g2));
        } else {
            assert(kids(m1, g1).contains(c));
            assert(kids(m1, g2).contains(c));
        }
    }
    assert forall|k: LayerId| #[trigger] m2.contains_key(k) implies h2.contains_key(k) && h2[k] < 2 * bound by {
        assert(h[k] < bound);
    }
    assert forall|g: LayerId, c: LayerId| m2.contains_key(g) && #[trigger] kids(m2, g).contains(c) implies h2[c]
        < h2[g] by {
        assert(h[g] < bound);
        if c == id {
            assert(dest == Some(g));
            assert(!sub.contains(g));
        } else {
            assert(kids(m1, g).contains(c));
            assert(kids(m, g).contains(c));
            assert(h[c] < h[g]);
            if sub.contains(g) {
                super::order::lemma_subtree_closed(m, h, id, g, c);
            } else if sub.contains(c) {
                lemma_subtree_parent(m, h, id, c);
                let q = choose|q: LayerId| #[trigger] kids(m, q).contains(c) && in_subtree(m, h, id, q);
                assert(q == g);
            }
        }
    }
}

impl LayerTree {
    /// What [`move_layer`](LayerTree::move_layer) makes of `self` (as
    /// `after`), returning `r`.
    pub open spec fn moved(
        self,
        id: LayerId,
        new_parent: Option<LayerId>,
        pos: usize,
        r: Result<(), LayerTreeError>,
        after: LayerTree,
    ) -> bool {
        let m = self.layer_map();
        let roots = self.roots();
        let roots1 = without(roots, id);
        let t = detach_touched(m, roots, id);
        let f = drop_child(m, id);
        let unchanged = after.layer_map() == m && after.roots() == roots;
        &&& after.same_canvas(&self)
        &&& if !m.contains_key(id) {
            r == Err::<(), LayerTreeError>(LayerTreeError::NotFound(id)) && unchanged
        } else if new_parent is Some && in_subtree(m, self.heights(), id, new_parent->0) {
            r == Err::<(), LayerTreeError>(LayerTreeError::CircularMove(id)) && unchanged
        } else if new_parent is Some && !m.contains_key(new_parent->0) {
            r == Err::<(), LayerTreeError>(LayerTreeError::NotFound(new_parent->0)) && unchanged
        } else if !attached(m, roots, id) {
            r == Err::<(), LayerTreeError>(LayerTreeError::NotFound(id)) && unchanged
        } else {
            match new_parent {
                None => if pos > roots1.len() {
                    &&& r == Err::<(), LayerTreeError>(LayerTreeError::PositionOutOfRange(pos))
                    &&& after.roots() == roots1
                    &&& relisted(m, after.layer_map(), t, f)
                } else {
                    &&& r == Ok::<(), LayerTreeError>(())
                    &&& after.roots() == roots1.insert(pos as int, id)
                    &&& relisted(m, after.layer_map(), t, f)
                },
                Some(np) => if !is_group(m[np]) {
                    &&& r == Err::<(), LayerTreeError>(LayerTreeError::NotFound(np))
                    &&& after.roots() == roots1
                    &&& relisted(m, after.layer_map(), t, f)
                } else if pos > without(kids(m, np), id).len() {
                    &&& r == Err::<(), LayerTreeError>(LayerTreeError::PositionOutOfRange(pos))
                    &&& after.roots() == roots1
                    &&& relisted(m, after.layer_map(), t, f)
                } else {
                    &&& r == Ok::<(), LayerTreeError>(())
                    &&& after.roots() == roots1
                    &&& relisted(
                        m,
                        after.layer_map(),
                        t.insert(np),
                        |g: LayerId|
                            if g == np {
                                without(kids(m, np), id).insert(pos as int, id)
                            } else {
                                without(kids(m, g), id)
                            },
                    )
                },
            }
        }
    }

    /// Move a layer under a new parent, or to a new position, or both.
    ///
    /// Moving a layer into its own subtree is refused with
    /// [`LayerTreeError::CircularMove`]. The layer is detached before the
    /// destination is checked for being a group with room at `new_position`;
    /// when that check fails the layer stays detached.
    #[verifier::spinoff_prover]
    #[verifier::rlimit(40)]
    pub fn move_layer(&mut self, id: LayerId, new_parent: Option<LayerId>, new_position: usize) -> (r: Result<
        (),
        LayerTreeError,
    >)
        requires
            old(self).wf(),
        ensures
            final(self).wf(),
            old(self).moved(id, new_parent, new_position, r, *final(self)),
    {
        if self.find_index(id).is_none() {
            return Err(LayerTreeError::NotFound(id));
        }
        match new_parent {
            Some(np) => {
                if self.is_in_subtree(id, np) {
                    return Err(LayerTreeError::CircularMove(id));
                }
                if self.find_index(np).is_none() {
                    return Err(LayerTreeError::NotFound(np));
                }
            },
            None => {},
        }
        let loc = match self.find_parent(id) {
            Some(l) => l,
            None => {
                return Err(LayerTreeError::NotFound(id));
            },
        };
        let ghost m = self.layer_map();
        let ghost roots = self.roots();
        let ghost h = self.heights();
        let ghost bound = self.spec_height_bound();
        let ghost t = detach_touched(m, roots, id);
        self.detach(id, loc);
        let ghost m1 = self.layer_map();
        let ghost roots1 = self.roots();
        proof {
            lemma_detach_shape(m, roots, h, bound, id, m1, roots1);
            lemma_without(roots, id);
        }
        match new_parent {
            None => {
                let room = self.root_ids.len();
                if room < new_position {
                    return Err(LayerTreeError::PositionOutOfRange(new_position));
                }
                self.root_ids.insert(new_position, id);
            },
            Some(np) => {
                let idx = match self.find_index(np) {
                    Some(i) => i,
                    None => {
                        return Err(LayerTreeError::NotFound(np));
                    },
                };
                proof {
                    if t.contains(np) {
                        assert(with_children(m[np], m1[np], without(kids(m, np), id)));
                    } else {
                        assert(m1[np] == m[np]);
                    }
                    assert(is_group(m1[np]) == is_group(m[np]));
                    assert(kids(m1, np) == without(kids(m, np), id));
                }
                let status: u8 = match &self.layers[idx].content {
                    LayerContent::Group { children } => if new_position > children.len() {
                        1
                    } else {
                        0
                    },
                    _ => 2,
                };
                if status == 2 {
                    return Err(LayerTreeError::NotFound(np));
                }
                if status == 1 {
                    return Err(LayerTreeError::PositionOutOfRange(new_position));
                }
                let ghost s0 = self.layers@;
                let p = self.layers.remove(idx);
                let p2 = insert_child(p, new_position, id);
                self.layers.insert(idx, p2);
                proof {
                    assert(self.layers@ == s0.update(idx as int, p2));
                    lemma_update_layer(s0, idx as int, p2);
                    assert(self.layer_map().dom() =~= m1.dom());
                }
            },
        }
        proof {
            let m2 = self.layer_map();
            let roots2 = self.roots();
            lemma_attach_shape(m, roots, h, bound, id, m1, roots1, m2, roots2, new_parent, new_position as int);
            self.height@ = shifted(h, pre_node(m, h, id).to_set(), bound);
            self.height_bound@ = 2 * bound;
            match new_parent {
                None => {},
                Some(np) => {
                    let f2 = |g: LayerId|
                        if g == np {
                            without(kids(m, np), id).insert(new_position as int, id)
                        } else {
                            without(kids(m, g), id)
                        };
                    assert forall|k: LayerId| m.contains_key(k) && #[trigger] t.insert(np).contains(k) implies with_children(
                        m[k],
                        m2[k],
                        f2(k),
                    ) by {
                        if k == np {
                            if t.contains(np) {
                                assert(with_children(m[np], m1[np], without(kids(m, np), id)));
                            } else {
                                assert(m1[np] == m[np]);
                            }
                        } else {
                            assert(m2[k] == m1[k]);
                        }
                    }
                    assert forall|k: LayerId| m.contains_key(k) && !t.insert(np).contains(k) implies m2[k] == m[k] by {
                        assert(m2[k] == m1[k]);
                    }
                },
            }
        }
        Ok(())
    }
}

} // verus!
