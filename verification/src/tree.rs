//! [`LayerTree`]: the authoritative in-memory document layer tree.
//!
//! Layers live in a flat map keyed by id (kept as a vector sorted by id);
//! the tree structure is encoded by the child lists of group layers and the
//! list of root-level ids.

use vstd::prelude::*;

use crate::layer::{Layer, LayerContent};
use crate::ops::LayerId;

mod order;
mod walk;
mod edit;
mod apply;
mod laws;
mod shape;

pub use self::order::{below, edges_ok, in_subtree, lemma_kids_below, pre_list, pre_node};
pub use self::walk::{ids_contain, reversed};
pub use self::edit::{attached, detach_touched, drop_child, parent_of, relisted, shifted};
pub use self::laws::{
    law_add_then_get, law_circular_move_refused, law_depth_first_once, law_move_places_once, law_depth_first_visits_attached, law_read_apply_restores,
    law_remove_leaves_no_orphans, law_set_then_read,
};
pub use self::shape::{add_step, lemma_add_step, lemma_nesting_of, nesting_of, offerable, represents, Nesting};
pub use self::apply::{clamp_unit, clamp_unit_bits, is_nan_bits, prop_applied, prop_of, NEG_ZERO_BITS, ONE_BITS};

verus! {

/// Why an edit of a [`LayerTree`] was refused.
#[derive(Debug, Clone, Copy, PartialEq, Eq, Structural)]
pub enum LayerTreeError {
    /// No layer with the given id exists in the tree (or it is not a group
    /// where a group is needed, or it is not attached to the tree).
    NotFound(LayerId),
    /// The requested move would put a layer inside its own subtree.
    CircularMove(LayerId),
    /// The position is past the end of the list it names.
    PositionOutOfRange(usize),
}

/// The child ids of `g` in `m` when `g` is a group, top-first; empty
/// otherwise.
pub open spec fn kids(m: Map<LayerId, Layer>, g: LayerId) -> Seq<LayerId> {
    if m.contains_key(g) {
        match m[g].content {
            LayerContent::Group { children } => children@,
            _ => Seq::empty(),
        }
    } else {
        Seq::empty()
    }
}

/// Whether `l` is a group layer.
pub open spec fn is_group(l: Layer) -> bool {
    l.content is Group
}

/// `b` is `a` with the group child list replaced by `children`; every other
/// field is unchanged.
pub open spec fn with_children(a: Layer, b: Layer, children: Seq<LayerId>) -> bool {
    &&& b.id == a.id
    &&& b.name == a.name
    &&& b.visible == a.visible
    &&& b.locked == a.locked
    &&& b.opacity_bits == a.opacity_bits
    &&& b.blend_mode == a.blend_mode
    &&& b.clipping_mask == a.clipping_mask
    &&& b.mask == a.mask
    &&& b.content matches LayerContent::Group { children: c } && c@ == children
}

/// The structural invariant of a layer tree with layer map `m` and root list
/// `roots`, witnessed by a height map `h` bounded by `bound`:
/// ids are keyed consistently, roots and child lists name existing layers
/// without repetition, every layer is attached in at most one place, and
/// heights strictly decrease from a group to its children (so there are no
/// cycles).
pub open spec fn shape_ok(
    m: Map<LayerId, Layer>,
    roots: Seq<LayerId>,
    h: Map<LayerId, nat>,
    bound: nat,
) -> bool {
    &&& forall|k: LayerId| #[trigger] m.contains_key(k) ==> m[k].id == k
    &&& roots.no_duplicates()
    &&& forall|i: int| 0 <= i < roots.len() ==> m.contains_key(#[trigger] roots[i])
    &&& forall|g: LayerId| #[trigger] m.contains_key(g) ==> kids(m, g).no_duplicates()
    &&& forall|g: LayerId, i: int|
        m.contains_key(g) && 0 <= i < kids(m, g).len() ==> m.contains_key(#[trigger] kids(m, g)[i])
    &&& forall|g: LayerId, c: LayerId|
        #[trigger] kids(m, g).contains(c) ==> !roots.contains(c)
    &&& forall|g1: LayerId, g2: LayerId, c: LayerId|
        #[trigger] kids(m, g1).contains(c) && #[trigger] kids(m, g2).contains(c) ==> g1 == g2
    &&& forall|k: LayerId| #[trigger] m.contains_key(k) ==> h.contains_key(k) && h[k] < bound
    &&& forall|g: LayerId, c: LayerId| m.contains_key(g) && #[trigger] kids(m, g).contains(c) ==> h[c] < h[g]
}

/// The tree invariant gives valid heights along every edge.
pub proof fn lemma_shape_edges(m: Map<LayerId, Layer>, roots: Seq<LayerId>, h: Map<LayerId, nat>, bound: nat)
    requires
        shape_ok(m, roots, h, bound),
    ensures
        edges_ok(m, h),
{
    assert forall|g: LayerId, c: LayerId| m.contains_key(g) && #[trigger] kids(m, g).contains(c) implies m.contains_key(
        c,
    ) && h[c] < h[g] by {
        let i = choose|i: int| 0 <= i < kids(m, g).len() && kids(m, g)[i] == c;
    }
}

/// A document's layers, their nesting and the canvas they sit on.
pub struct LayerTree {
    /// Canvas width in pixels.
    pub canvas_width: u32,
    /// Canvas height in pixels.
    pub canvas_height: u32,
    /// Horizontal dots-per-inch, as an IEEE 754 single-precision bit pattern.
    pub dpi_x_bits: u32,
    /// Vertical dots-per-inch, as an IEEE 754 single-precision bit pattern.
    pub dpi_y_bits: u32,
    /// All layers, strictly increasing by id.
    layers: Vec<Layer>,
    /// Root-level layer ids, top-first.
    root_ids: Vec<LayerId>,
    /// Heights witnessing that the tree has no cycles.
    height: Ghost<Map<LayerId, nat>>,
    /// A strict upper bound on every height.
    height_bound: Ghost<nat>,
}

/// The position of the layer with id `k` in `s` (meaningful when present).
spec fn lindex(s: Seq<Layer>, k: LayerId) -> int {
    choose|i: int| 0 <= i < s.len() && s[i].id == k
}

/// The layer map a sorted layer vector represents.
spec fn lmap(s: Seq<Layer>) -> Map<LayerId, Layer> {
    Map::new(|k: LayerId| exists|i: int| 0 <= i < s.len() && s[i].id == k, |k: LayerId| s[lindex(s, k)])
}

/// `s` is strictly increasing by id.
spec fn sorted_ids(s: Seq<Layer>) -> bool {
    forall|a: int, b: int| 0 <= a < b < s.len() ==> s[a].id < s[b].id
}

proof fn lemma_lindex(s: Seq<Layer>, k: LayerId, j: int)
    requires
        sorted_ids(s),
        0 <= j < s.len(),
        s[j].id == k,
    ensures
        lindex(s, k) == j,
        lmap(s).contains_key(k),
        lmap(s)[k] == s[j],
{
    assert(exists|i: int| 0 <= i < s.len() && s[i].id == k);
    let i = lindex(s, k);
    if i < j {
        assert(s[i].id < s[j].id);
    } else if i > j {
        assert(s[j].id < s[i].id);
    }
}

/// Inserting a layer with a fresh id at its sorted position.
proof fn lemma_insert_layer(s: Seq<Layer>, p: int, l: Layer)
    requires
        sorted_ids(s),
        0 <= p <= s.len(),
        forall|i: int| 0 <= i < p ==> s[i].id < l.id,
        forall|i: int| p <= i < s.len() ==> l.id < s[i].id,
    ensures
        sorted_ids(s.insert(p, l)),
        lmap(s.insert(p, l)) == lmap(s).insert(l.id, l),
{
    let t = s.insert(p, l);
    assert forall|i: int, j: int| 0 <= i < j < t.len() implies t[i].id < t[j].id by {
        if j < p {
        } else if j == p {
        } else if i < p {
            assert(t[j] == s[j - 1]);
        } else if i == p {
            assert(t[j] == s[j - 1]);
        } else {
            assert(t[i] == s[i - 1] && t[j] == s[j - 1]);
        }
    }
    assert forall|k: LayerId| lmap(t).contains_key(k) <==> lmap(s).insert(l.id, l).contains_key(k) by {
        if exists|i: int| 0 <= i < t.len() && t[i].id == k {
            let i = choose|i: int| 0 <= i < t.len() && t[i].id == k;
            if i < p {
                assert(s[i].id == k);
            } else if i > p {
                assert(s[i - 1].id == k);
            }
        }
        if exists|i: int| 0 <= i < s.len() && s[i].id == k {
            let i = choose|i: int| 0 <= i < s.len() && s[i].id == k;
            if i < p {
                assert(t[i].id == k);
            } else {
                assert(t[i + 1].id == k);
            }
        }
        if k == l.id {
            assert(t[p].id == k);
        }
    }
    assert forall|k: LayerId| #[trigger] lmap(t).contains_key(k) implies lmap(t)[k] == lmap(s).insert(
        l.id,
        l,
    )[k] by {
        let i = choose|i: int| 0 <= i < t.len() && t[i].id == k;
        lemma_lindex(t, k, i);
        if i < p {
            lemma_lindex(s, k, i);
        } else if i > p {
            lemma_lindex(s, k, i - 1);
        }
    }
    assert(lmap(t) =~= lmap(s).insert(l.id, l));
}

/// Replacing the layer at position `i` by one with the same id.
proof fn lemma_update_layer(s: Seq<Layer>, i: int, l: Layer)
    requires
        sorted_ids(s),
        0 <= i < s.len(),
        l.id == s[i].id,
    ensures
        sorted_ids(s.update(i, l)),
        lmap(s.update(i, l)) == lmap(s).insert(l.id, l),
{
    let t = s.update(i, l);
    assert forall|a: int, b: int| 0 <= a < b < t.len() implies t[a].id < t[b].id by {
        assert(s[a].id < s[b].id);
    }
    assert forall|k: LayerId| lmap(t).contains_key(k) <==> lmap(s).insert(l.id, l).contains_key(k) by {
        if exists|j: int| 0 <= j < t.len() && t[j].id == k {
            let j = choose|j: int| 0 <= j < t.len() && t[j].id == k;
            assert(s[j].id == k);
        }
        if exists|j: int| 0 <= j < s.len() && s[j].id == k {
            let j = choose|j: int| 0 <= j < s.len() && s[j].id == k;
            assert(t[j].id == k);
        }
    }
    assert forall|k: LayerId| #[trigger] lmap(t).contains_key(k) implies lmap(t)[k] == lmap(s).insert(
        l.id,
        l,
    )[k] by {
        let j = choose|j: int| 0 <= j < t.len() && t[j].id == k;
        lemma_lindex(t, k, j);
        lemma_lindex(s, k, j);
    }
    assert(lmap(t) =~= lmap(s).insert(l.id, l));
}

/// Removing the layer at position `i`.
proof fn lemma_remove_layer(s: Seq<Layer>, i: int)
    requires
        sorted_ids(s),
        0 <= i < s.len(),
    ensures
        sorted_ids(s.remove(i)),
        lmap(s.remove(i)) == lmap(s).remove(s[i].id),
{
    let t = s.remove(i);
    let key = s[i].id;
    assert forall|a: int, b: int| 0 <= a < b < t.len() implies t[a].id < t[b].id by {
        if b < i {
        } else if a < i {
            assert(t[b] == s[b + 1]);
        } else {
            assert(t[a] == s[a + 1] && t[b] == s[b + 1]);
        }
    }
    assert forall|k: LayerId| lmap(t).contains_key(k) <==> lmap(s).remove(key).contains_key(k) by {
        if exists|j: int| 0 <= j < t.len() && t[j].id == k {
            let j = choose|j: int| 0 <= j < t.len() && t[j].id == k;
            if j < i {
                assert(s[j].id == k);
                assert(s[j].id < s[i].id);
            } else {
                assert(s[j + 1].id == k);
                assert(s[i].id < s[j + 1].id);
            }
        }
        if exists|j: int| 0 <= j < s.len() && s[j].id == k && k != key {
            let j = choose|j: int| 0 <= j < s.len() && s[j].id == k && k != key;
            if j < i {
                assert(t[j].id == k);
            } else {
                assert(j != i);
                assert(t[j - 1].id == k);
            }
        }
    }
    assert forall|k: LayerId| #[trigger] lmap(t).contains_key(k) implies lmap(t)[k] == lmap(s).remove(
        key,
    )[k] by {
        let j = choose|j: int| 0 <= j < t.len() && t[j].id == k;
        lemma_lindex(t, k, j);
        if j < i {
            lemma_lindex(s, k, j);
        } else {
            lemma_lindex(s, k, j + 1);
        }
    }
    assert(lmap(t) =~= lmap(s).remove(key));
}

/// `b` has the tree shape of `a`: same id, and a group with the same child
/// list exactly when `a` is one.
pub open spec fn same_shape(a: Layer, b: Layer) -> bool {
    &&& b.id == a.id
    &&& is_group(b) == is_group(a)
    &&& (a.content matches LayerContent::Group { children: ca } ==> b.content matches LayerContent::Group {
        children: cb,
    } && cb@ == ca@)
}

/// `s` without the occurrence of `x` (unchanged when `x` is absent).
pub open spec fn without(s: Seq<LayerId>, x: LayerId) -> Seq<LayerId> {
    if s.contains(x) {
        s.remove(s.index_of(x))
    } else {
        s
    }
}

impl LayerTree {
    /// All layers by id.
    pub closed spec fn layer_map(&self) -> Map<LayerId, Layer> {
        lmap(self.layers@)
    }

    /// Root-level layer ids, top-first.
    pub closed spec fn roots(&self) -> Seq<LayerId> {
        self.root_ids@
    }

    /// A strict bound on the nesting depth of the tree.
    pub closed spec fn spec_height_bound(&self) -> nat {
        self.height_bound@
    }

    /// Heights of the layers, witnessing that the tree has no cycles.
    pub closed spec fn heights(&self) -> Map<LayerId, nat> {
        self.height@
    }

    /// The layer storage is ordered by id.
    pub closed spec fn storage_ok(&self) -> bool {
        sorted_ids(self.layers@)
    }

    /// The tree's invariant (see [`shape_ok`]).
    pub open spec fn wf(&self) -> bool {
        &&& self.storage_ok()
        &&& shape_ok(self.layer_map(), self.roots(), self.heights(), self.spec_height_bound())
    }

    /// The canvas metadata: width, height, and the two dpi bit patterns.
    pub closed spec fn canvas(&self) -> (u32, u32, u32, u32) {
        (self.canvas_width, self.canvas_height, self.dpi_x_bits, self.dpi_y_bits)
    }

    /// The canvas metadata is as in `other`.
    pub open spec fn same_canvas(&self, other: &LayerTree) -> bool {
        self.canvas() == other.canvas()
    }

    /// Create an empty layer tree with the given canvas dimensions and
    /// resolution (dpi values as IEEE 754 single-precision bit patterns).
    pub fn new(canvas_width: u32, canvas_height: u32, dpi_x_bits: u32, dpi_y_bits: u32) -> (r: LayerTree)
        ensures
            r.wf(),
            r.canvas() == (canvas_width, canvas_height, dpi_x_bits, dpi_y_bits),
            r.layer_map() == Map::<LayerId, Layer>::empty(),
            r.roots() == Seq::<LayerId>::empty(),
    {
        let r = LayerTree {
            canvas_width,
            canvas_height,
            dpi_x_bits,
            dpi_y_bits,
            layers: Vec::new(),
            root_ids: Vec::new(),
            height: Ghost(Map::empty()),
            height_bound: Ghost(0),
        };
        assert(lmap(r.layers@) =~= Map::<LayerId, Layer>::empty());
        r
    }

    /// The canvas width and height in pixels.
    pub fn canvas_size(&self) -> (r: (u32, u32))
        ensures
            r.0 == self.canvas().0,
            r.1 == self.canvas().1,
    {
        (self.canvas_width, self.canvas_height)
    }

    /// Ordered slice of root-level layer ids (index 0 = topmost).
    pub fn root_layer_ids(&self) -> (r: &[LayerId])
        ensures
            r@ == self.roots(),
    {
        self.root_ids.as_slice()
    }

    /// The position of layer `id` in the layer vector, if present.
    fn find_index(&self, id: LayerId) -> (r: Option<usize>)
        requires
            sorted_ids(self.layers@),
        ensures
            match r {
                Some(i) => i < self.layers@.len() && self.layers@[i as int].id == id
                    && self.layer_map().contains_key(id) && self.layer_map()[id] == self.layers@[i as int],
                None => !self.layer_map().contains_key(id),
            },
    {
        let mut i: usize = 0;
        while i < self.layers.len()
            invariant
                sorted_ids(self.layers@),
                i <= self.layers@.len(),
                forall|j: int| 0 <= j < i ==> self.layers@[j].id != id,
            decreases self.layers@.len() - i,
        {
            if self.layers[i].id == id {
                proof {
                    lemma_lindex(self.layers@, id, i as int);
                }
                return Some(i);
            }
            i = i + 1;
        }
        proof {
            if self.layer_map().contains_key(id) {
                let j = choose|j: int| 0 <= j < self.layers@.len() && self.layers@[j].id == id;
            }
        }
        None
    }

    /// The position at which a layer with id `id` keeps the vector sorted.
    fn insert_position(&self, id: LayerId) -> (r: usize)
        requires
            sorted_ids(self.layers@),
            !self.layer_map().contains_key(id),
        ensures
            r <= self.layers@.len(),
            forall|i: int| 0 <= i < r ==> self.layers@[i].id < id,
            forall|i: int| r <= i < self.layers@.len() ==> id < self.layers@[i].id,
    {
        let mut i: usize = 0;
        while i < self.layers.len() && self.layers[i].id < id
            invariant
                sorted_ids(self.layers@),
                i <= self.layers@.len(),
                forall|j: int| 0 <= j < i ==> self.layers@[j].id < id,
            decreases self.layers@.len() - i,
        {
            i = i + 1;
        }
        proof {
            if i < self.layers@.len() {
                assert(self.layers@[i as int].id != id) by {
                    if self.layers@[i as int].id == id {
                        lemma_lindex(self.layers@, id, i as int);
                    }
                }
                assert forall|j: int| i <= j < self.layers@.len() implies id < self.layers@[j].id by {
                    if j > i {
                        assert(self.layers@[i as int].id < self.layers@[j].id);
                    }
                }
            }
        }
        i
    }

    /// Immutable access to a layer by id.
    pub fn get(&self, id: LayerId) -> (r: Option<&Layer>)
        requires
            self.wf(),
        ensures
            match r {
                Some(l) => self.layer_map().contains_key(id) && *l == self.layer_map()[id],
                None => !self.layer_map().contains_key(id),
            },
    {
        match self.find_index(id) {
            Some(i) => Some(&self.layers[i]),
            None => None,
        }
    }

    /// Mutable access to a layer by id.
    ///
    /// The tree keeps its invariant when the borrowed layer keeps its id and
    /// its shape (group-ness and child list).
    pub fn get_mut(&mut self, id: LayerId) -> (r: Option<&mut Layer>)
        requires
            old(self).wf(),
        ensures
            final(self).same_canvas(&*old(self)),
            final(self).roots() == old(self).roots(),
            match r {
                Some(l) => {
                    &&& old(self).layer_map().contains_key(id)
                    &&& *l == old(self).layer_map()[id]
                    &&& final(l).id == id ==> final(self).layer_map() == old(self).layer_map().insert(
                        id,
                        *final(l),
                    )
                    &&& same_shape(*l, *final(l)) ==> final(self).wf()
                },
                None => {
                    &&& !old(self).layer_map().contains_key(id)
                    &&& final(self).layer_map() == old(self).layer_map()
                    &&& final(self).wf()
                },
            },
    {
        match self.find_index(id) {
            Some(i) => {
                proof {
                    self.lemma_same_shape_keeps_wf(i as int);
                }
                Some(&mut self.layers[i])
            },
            None => None,
        }
    }

    /// Replacing layer `i` by any layer of the same shape keeps the
    /// invariant, and (with the same id) updates the map at that id.
    proof fn lemma_same_shape_keeps_wf(&self, i: int)
        requires
            self.wf(),
            0 <= i < self.layers@.len(),
        ensures
            forall|l: Layer| #[trigger] same_shape(self.layers@[i], l) ==> {
                &&& sorted_ids(self.layers@.update(i, l))
                &&& lmap(self.layers@.update(i, l)) == lmap(self.layers@).insert(l.id, l)
                &&& shape_ok(lmap(self.layers@.update(i, l)), self.root_ids@, self.height@, self.height_bound@)
            },
            forall|l: Layer| l.id == self.layers@[i].id ==> #[trigger] lmap(self.layers@.update(i, l)) == lmap(
                self.layers@,
            ).insert(l.id, l),
    {
        let s = self.layers@;
        let m = lmap(s);
        assert forall|l: Layer| l.id == s[i].id implies #[trigger] lmap(s.update(i, l)) == m.insert(l.id, l) by {
            lemma_update_layer(s, i, l);
        }
        assert forall|l: Layer| #[trigger] same_shape(s[i], l) implies {
            &&& sorted_ids(s.update(i, l))
            &&& lmap(s.update(i, l)) == m.insert(l.id, l)
            &&& shape_ok(lmap(s.update(i, l)), self.root_ids@, self.height@, self.height_bound@)
        } by {
            lemma_update_layer(s, i, l);
            lemma_lindex(s, s[i].id, i);
            let m2 = m.insert(l.id, l);
            assert(m2.dom() =~= m.dom());
            assert forall|g: LayerId| #[trigger] kids(m2, g) == kids(m, g) by {
                if g == l.id {
                    assert(m[g] == s[i]);
                }
            }
            assert forall|k: LayerId| #[trigger] m2.contains_key(k) implies m2[k].id == k by {}
        }
    }
}

/// Heights with every existing entry raised by one and `id` at height 0.
pub open spec fn raised_heights(h: Map<LayerId, nat>, id: LayerId) -> Map<LayerId, nat> {
    Map::new(|k: LayerId| h.contains_key(k) || k == id, |k: LayerId| if k == id { 0 } else { h[k] + 1 })
}

/// Adding a fresh childless layer at the root or under a group keeps the
/// tree's invariant (with raised heights).
proof fn lemma_add_shape(
    m: Map<LayerId, Layer>,
    roots: Seq<LayerId>,
    h: Map<LayerId, nat>,
    bound: nat,
    m2: Map<LayerId, Layer>,
    roots2: Seq<LayerId>,
    parent: Option<LayerId>,
    layer: Layer,
)
    requires
        shape_ok(m, roots, h, bound),
        !m.contains_key(layer.id),
        kids(m.insert(layer.id, layer), layer.id) == Seq::<LayerId>::empty(),
        match parent {
            None => {
                &&& m2 == m.insert(layer.id, layer)
                &&& roots2.to_set() == roots.to_set().insert(layer.id)
                &&& roots2.no_duplicates()
            },
            Some(pid) => {
                &&& m.contains_key(pid)
                &&& pid != layer.id
                &&& roots2 == roots
                &&& m2.dom() == m.dom().insert(layer.id)
                &&& m2[layer.id] == layer
                &&& m2[pid].id == pid
                &&& forall|k: LayerId| m.contains_key(k) && k != pid ==> m2[k] == m[k]
                &&& kids(m2, pid).no_duplicates()
                &&& kids(m2, pid).to_set() == kids(m, pid).to_set().insert(layer.id)
            },
        },
    ensures
        shape_ok(m2, roots2, raised_heights(h, layer.id), bound + 1),
{
    let id = layer.id;
    let h2 = raised_heights(h, id);
    assert forall|g: LayerId| #[trigger] kids(m2, g) == if parent == Some(g) {
        kids(m2, g)
    } else if g == id {
        Seq::<LayerId>::empty()
    } else {
        kids(m, g)
    } by {
        if g == id {
        } else if parent != Some(g) && m.contains_key(g) {
            assert(m2[g] == m[g]);
        }
    }
    // Children of old groups are old layers, so never the fresh id.
    assert forall|g: LayerId, c: LayerId| #[trigger] kids(m, g).contains(c) implies m.contains_key(c) && m.contains_key(g) by {
        let i = choose|i: int| 0 <= i < kids(m, g).len() && kids(m, g)[i] == c;
    }
    assert forall|k: LayerId| #[trigger] m2.contains_key(k) implies m2[k].id == k by {
        if k != id && parent != Some(k) {
            assert(m2[k] == m[k]);
        }
    }
    assert forall|i: int| 0 <= i < roots2.len() implies m2.contains_key(#[trigger] roots2[i]) by {
        assert(roots2.to_set().contains(roots2[i]));
        if roots2[i] != id {
            assert(roots.to_set().contains(roots2[i]));
            let j = choose|j: int| 0 <= j < roots.len() && roots[j] == roots2[i];
            assert(m.contains_key(roots[j]));
        }
    }
    assert forall|g: LayerId| #[trigger] m2.contains_key(g) implies kids(m2, g).no_duplicates() by {
        if parent != Some(g) && g != id {
            assert(kids(m2, g) == kids(m, g));
        }
    }
    assert forall|g: LayerId, i: int| m2.contains_key(g) && 0 <= i < kids(m2, g).len() implies m2.contains_key(
        #[trigger] kids(m2, g)[i],
    ) by {
        let c = kids(m2, g)[i];
        assert(kids(m2, g).contains(c));
        if parent == Some(g) {
            assert(kids(m2, g).to_set().contains(c));
            if c != id {
                assert(kids(m, g).to_set().contains(c));
                assert(kids(m, g).contains(c));
            }
        } else if g != id {
            assert(kids(m, g).contains(c));
        }
    }
    assert forall|g: LayerId, c: LayerId| #[trigger] kids(m2, g).contains(c) implies !roots2.contains(c) by {
        if parent == Some(g) {
            assert(kids(m2, g).to_set().contains(c));
            if c == id {
                assert(!roots2.contains(id));
            } else {
                assert(kids(m, g).to_set().contains(c));
                assert(kids(m, g).contains(c));
            }
        } else if g != id {
            assert(kids(m, g).contains(c));
            assert(m.contains_key(c));
            if roots2.contains(c) {
                if parent is None {
                    assert(roots2.to_set().contains(c));
                    assert(roots.to_set().contains(c));
                }
            }
        }
    }
    assert forall|g1: LayerId, g2: LayerId, c: LayerId|
        #[trigger] kids(m2, g1).contains(c) && #[trigger] kids(m2, g2).contains(c) implies g1 == g2 by {
        if c == id {
            if parent != Some(g1) && g1 != id {
                assert(kids(m, g1).contains(c));
            }
            if parent != Some(g2) && g2 != id {
                assert(kids(m, g2).contains(c));
            }
        } else {
            if parent == Some(g1) {
                assert(kids(m2, g1).to_set().contains(c));
                assert(kids(m, g1).to_set().contains(c));
                assert(kids(m, g1).contains(c));
            } else if g1 != id {
                assert(kids(m, g1).contains(c));
            }
            if parent == Some(g2) {
                assert(kids(m2, g2).to_set().contains(c));
                assert(kids(m, g2).to_set().contains(c));
                assert(kids(m, g2).contains(c));
            } else if g2 != id {
                assert(kids(m, g2).contains(c));
            }
        }
    }
    assert forall|k: LayerId| #[trigger] m2.contains_key(k) implies h2.contains_key(k) && h2[k] < bound + 1 by {
    }
    assert forall|g: LayerId, c: LayerId| m2.contains_key(g) && #[trigger] kids(m2, g).contains(c) implies #[trigger] h2[c]
        < h2[g] by {
        if parent == Some(g) {
            assert(kids(m2, g).to_set().contains(c));
            if c != id {
                assert(kids(m, g).to_set().contains(c));
                assert(kids(m, g).contains(c));
                assert(h[c] < h[g]);
            }
        } else if g != id {
            assert(kids(m, g).contains(c));
            assert(h[c] < h[g]);
            assert(m.contains_key(c));
        }
    }
}

/// `l` with `id` inserted into its group child list at `position`.
fn insert_child(l: Layer, position: usize, id: LayerId) -> (r: Layer)
    requires
        l.content matches LayerContent::Group { children } && position <= children@.len(),
    ensures
        l.content matches LayerContent::Group { children } && with_children(l, r, children@.insert(position as int, id)),
{
    let Layer { id: lid, name, visible, locked, opacity_bits, blend_mode, clipping_mask, mask, content } = l;
    let content = match content {
        LayerContent::Group { mut children } => {
            children.insert(position, id);
            LayerContent::Group { children }
        },
        other => other,
    };
    Layer { id: lid, name, visible, locked, opacity_bits, blend_mode, clipping_mask, mask, content }
}

impl LayerTree {
    /// What [`add_layer`](LayerTree::add_layer) makes of `self` (as `after`),
    /// returning `r`.
    pub open spec fn added(
        self,
        parent: Option<LayerId>,
        position: usize,
        layer: Layer,
        r: Result<LayerId, LayerTreeError>,
        after: LayerTree,
    ) -> bool {
        let m = self.layer_map();
        &&& after.same_canvas(&self)
        &&& match parent {
            None => if position > self.roots().len() {
                &&& r == Err::<LayerId, LayerTreeError>(LayerTreeError::PositionOutOfRange(position))
                &&& after.layer_map() == m
                &&& after.roots() == self.roots()
            } else {
                &&& r == Ok::<LayerId, LayerTreeError>(layer.id)
                &&& after.roots() == self.roots().insert(position as int, layer.id)
                &&& after.layer_map() == m.insert(layer.id, layer)
            },
            Some(pid) => if !m.contains_key(pid) || !is_group(m[pid]) {
                &&& r == Err::<LayerId, LayerTreeError>(LayerTreeError::NotFound(pid))
                &&& after.layer_map() == m
                &&& after.roots() == self.roots()
            } else if position > kids(m, pid).len() {
                &&& r == Err::<LayerId, LayerTreeError>(LayerTreeError::PositionOutOfRange(position))
                &&& after.layer_map() == m
                &&& after.roots() == self.roots()
            } else {
                &&& r == Ok::<LayerId, LayerTreeError>(layer.id)
                &&& after.roots() == self.roots()
                &&& after.layer_map().dom() == m.dom().insert(layer.id)
                &&& after.layer_map()[layer.id] == layer
                &&& pid != layer.id ==> with_children(
                    m[pid],
                    after.layer_map()[pid],
                    kids(m, pid).insert(position as int, layer.id),
                )
                &&& forall|k: LayerId| m.contains_key(k) && k != pid && k != layer.id ==> after.layer_map()[k] == m[k]
            },
        }
    }

    /// Add a layer to the tree, returning its id on success.
    ///
    /// `parent = None` inserts at the document root; `parent = Some(id)`
    /// requires that layer to be a group. `position = 0` is the topmost slot.
    /// The tree keeps its invariant when the layer is [`offerable`]: its id
    /// is new and, if it is a group, it has no children yet. Any other layer
    /// is inserted all the same (a repeated id is listed again and replaces
    /// the layer held under it), and the invariant is then not promised.
    pub fn add_layer(&mut self, parent: Option<LayerId>, position: usize, layer: Layer) -> (r: Result<
        LayerId,
        LayerTreeError,
    >)
        requires
            old(self).wf(),
        ensures
            old(self).added(parent, position, layer, r, *final(self)),
            offerable(old(self).layer_map(), layer) ==> final(self).wf(),
    {
        let childless = match &layer.content {
            LayerContent::Group { children } => children.len() == 0,
            _ => true,
        };
        if childless && self.get(layer.id).is_none() {
            self.insert_fresh(parent, position, layer)
        } else {
            self.insert_any(parent, position, layer)
        }
    }

    /// Store `layer` under its id, replacing any layer held there, keeping
    /// the layer vector sorted by id.
    fn put_layer(&mut self, layer: Layer)
        requires
            sorted_ids(old(self).layers@),
        ensures
            sorted_ids(final(self).layers@),
            final(self).layer_map() == old(self).layer_map().insert(layer.id, layer),
            final(self).root_ids@ == old(self).root_ids@,
            final(self).canvas() == old(self).canvas(),
            final(self).height@ == old(self).height@,
            final(self).height_bound@ == old(self).height_bound@,
    {
        match self.find_index(layer.id) {
            Some(i) => {
                let ghost s0 = self.layers@;
                self.layers.set(i, layer);
                proof {
                    lemma_update_layer(s0, i as int, layer);
                }
            },
            None => {
                let pos = self.insert_position(layer.id);
                let ghost s1 = self.layers@;
                self.layers.insert(pos, layer);
                proof {
                    lemma_insert_layer(s1, pos as int, layer);
                }
            },
        }
    }

    /// [`add_layer`](LayerTree::add_layer) for any layer, checking the
    /// parent and the position only.
    fn insert_any(&mut self, parent: Option<LayerId>, position: usize, layer: Layer) -> (r: Result<
        LayerId,
        LayerTreeError,
    >)
        requires
            old(self).wf(),
        ensures
            old(self).added(parent, position, layer, r, *final(self)),
    {
        let id = layer.id;
        let ghost m = self.layer_map();
        match parent {
            None => {
                if self.root_ids.len() < position {
                    return Err(LayerTreeError::PositionOutOfRange(position));
                }
                self.root_ids.insert(position, id);
            },
            Some(pid) => {
                let idx = match self.find_index(pid) {
                    Some(i) => i,
                    None => {
                        return Err(LayerTreeError::NotFound(pid));
                    },
                };
                let status: u8 = match &self.layers[idx].content {
                    LayerContent::Group { children } => if position > children.len() {
                        1
                    } else {
                        0
                    },
                    _ => 2,
                };
                if status == 2 {
                    return Err(LayerTreeError::NotFound(pid));
                }
                if status == 1 {
                    return Err(LayerTreeError::PositionOutOfRange(position));
                }
                let ghost s0 = self.layers@;
                let p = self.layers.remove(idx);
                let p2 = insert_child(p, position, id);
                self.layers.insert(idx, p2);
                proof {
                    assert(self.layers@ == s0.update(idx as int, p2));
                    lemma_update_layer(s0, idx as int, p2);
                }
            },
        }
        let ghost m1 = self.layer_map();
        self.put_layer(layer);
        proof {
            assert(self.layer_map() == m1.insert(id, layer));
            assert(self.layer_map().dom() =~= m.dom().insert(id));
        }
        Ok(id)
    }

    /// [`add_layer`](LayerTree::add_layer) for a layer that may be offered.
    ///
    /// `parent = None` inserts at the document root; `parent = Some(id)`
    /// requires that layer to be a group. `position = 0` is the topmost slot.
    /// The layer's id must be new to the tree, and a group must arrive
    /// without children.
    #[verifier::rlimit(50)]
    #[verifier::spinoff_prover]
    fn insert_fresh(&mut self, parent: Option<LayerId>, position: usize, layer: Layer) -> (r: Result<
        LayerId,
        LayerTreeError,
    >)
        requires
            old(self).wf(),
            !old(self).layer_map().contains_key(layer.id),
            layer.content matches LayerContent::Group { children } ==> children@.len() == 0,
        ensures
            final(self).wf(),
            old(self).added(parent, position, layer, r, *final(self)),
    {
        let id = layer.id;
        let ghost m = self.layer_map();
        let ghost h = self.height@;
        let ghost bound = self.height_bound@;
        let ghost roots0 = self.root_ids@;
        match parent {
            None => {
                let room = self.root_ids.len();
                if room < position {
                    return Err(LayerTreeError::PositionOutOfRange(position));
                }
                proof {
                    assert(!roots0.contains(id));
                }
                self.root_ids.insert(position, id);
                proof {
                    assert(self.root_ids@ == roots0.insert(position as int, id));
                    assert(self.root_ids@.to_set() =~= roots0.to_set().insert(id)) by {
                        assert forall|x: LayerId| self.root_ids@.to_set().contains(x) implies roots0.to_set().insert(id).contains(x) by {
                            let k = choose|k: int| 0 <= k < self.root_ids@.len() && self.root_ids@[k] == x;
                            if k < position {
                                assert(roots0[k] == x);
                            } else if k > position {
                                assert(roots0[k - 1] == x);
                            }
                        }
                        assert forall|x: LayerId| roots0.to_set().insert(id).contains(x) implies self.root_ids@.to_set().contains(x) by {
                            if x == id {
                                assert(self.root_ids@[position as int] == x);
                            } else {
                                let k = choose|k: int| 0 <= k < roots0.len() && roots0[k] == x;
                                if k < position {
                                    assert(self.root_ids@[k] == x);
                                } else {
                                    assert(self.root_ids@[k + 1] == x);
                                }
                            }
                        }
                    }
                    assert forall|i: int, j: int| 0 <= i < j < self.root_ids@.len() implies self.root_ids@[i] != self.root_ids@[j] by {
                        if j < position {
                        } else if j == position {
                            assert(roots0.contains(self.root_ids@[i]));
                        } else if i < position {
                        } else if i == position {
                            assert(roots0.contains(self.root_ids@[j]));
                        } else {
                        }
                    }
                }
            },
            Some(pid) => {
                let idx = match self.find_index(pid) {
                    Some(i) => i,
                    None => {
                        return Err(LayerTreeError::NotFound(pid));
                    },
                };
                let status: u8 = match &self.layers[idx].content {
                    LayerContent::Group { children } => if position > children.len() {
                        1
                    } else {
                        0
                    },
                    _ => 2,
                };
                if status == 2 {
                    return Err(LayerTreeError::NotFound(pid));
                }
                if status == 1 {
                    return Err(LayerTreeError::PositionOutOfRange(position));
                }
                let ghost s0 = self.layers@;
                let p = self.layers.remove(idx);
                let p2 = insert_child(p, position, id);
                self.layers.insert(idx, p2);
                proof {
                    assert(self.layers@ == s0.update(idx as int, p2));
                    lemma_update_layer(s0, idx as int, p2);
                }
            },
        }
        let ghost m1 = self.layer_map();
        let pos = self.insert_position(id);
        let ghost s1 = self.layers@;
        self.layers.insert(pos, layer);
        proof {
            lemma_insert_layer(s1, pos as int, layer);
            let m2 = self.layer_map();
            assert(m2 == m1.insert(id, layer));
            assert(kids(m.insert(id, layer), id) =~= Seq::<LayerId>::empty());
            match parent {
                None => {
                    lemma_add_shape(m, roots0, h, bound, m2, self.root_ids@, parent, layer);
                },
                Some(pid) => {
                    let ks = kids(m, pid);
                    let ks2 = kids(m2, pid);
                    assert(ks2 == ks.insert(position as int, id));
                    assert(!ks.contains(id));
                    assert(ks2.to_set() =~= ks.to_set().insert(id)) by {
                        assert forall|x: LayerId| ks2.to_set().contains(x) implies ks.to_set().insert(id).contains(x) by {
                            let k = choose|k: int| 0 <= k < ks2.len() && ks2[k] == x;
                            if k < position {
                                assert(ks[k] == x);
                            } else if k > position {
                                assert(ks[k - 1] == x);
                            }
                        }
                        assert forall|x: LayerId| ks.to_set().insert(id).contains(x) implies ks2.to_set().contains(x) by {
                            if x == id {
                                assert(ks2[position as int] == x);
                            } else {
                                let k = choose|k: int| 0 <= k < ks.len() && ks[k] == x;
                                if k < position {
                                    assert(ks2[k] == x);
                                } else {
                                    assert(ks2[k + 1] == x);
                                }
                            }
                        }
                    }
                    assert(ks.no_duplicates());
                    assert forall|i: int, j: int| 0 <= i < j < ks2.len() implies ks2[i] != ks2[j] by {
                        if j < position {
                        } else if j == position {
                            assert(ks.contains(ks2[i]));
                        } else if i < position {
                        } else if i == position {
                            assert(ks.contains(ks2[j]));
                        } else {
                        }
                    }
                    assert(m2.dom() =~= m.dom().insert(id));
                    lemma_add_shape(m, roots0, h, bound, m2, self.root_ids@, parent, layer);
                },
            }
            self.height@ = raised_heights(h, id);
            self.height_bound@ = bound + 1;
        }
        Ok(id)
    }
}

/// Everything `before` holds is still in `after`, on the same canvas, and
/// `after` keeps the tree invariant.
pub open spec fn grown(before: LayerTree, after: LayerTree) -> bool {
    &&& after.wf()
    &&& after.same_canvas(&before)
    &&& forall|k: LayerId| before.layer_map().contains_key(k) ==> #[trigger] after.layer_map().contains_key(k)
}

impl LayerTree {
    /// Offer `layer` to [`add_layer`](LayerTree::add_layer) and hand back
    /// its answer, unless the tree already holds the layer's id or the layer
    /// is a group that arrives with children: then nothing is offered
    /// (`None`) and the tree is unchanged.
    pub fn add_fresh(&mut self, parent: Option<LayerId>, position: usize, layer: Layer) -> (r: Option<
        Result<LayerId, LayerTreeError>,
    >)
        requires
            old(self).wf(),
        ensures
            grown(*old(self), *final(self)),
            ({
                let fresh = !old(self).layer_map().contains_key(layer.id) && (layer.content matches LayerContent::Group {
                    children,
                } ==> children@.len() == 0);
                &&& fresh ==> (r matches Some(res) && old(self).added(parent, position, layer, res, *final(self)))
                &&& !fresh ==> r is None && final(self).layer_map() == old(self).layer_map() && final(self).roots()
                    == old(self).roots()
            }),
    {
        let childless = match &layer.content {
            LayerContent::Group { children } => children.len() == 0,
            _ => true,
        };
        if !childless || self.get(layer.id).is_some() {
            return None;
        }
        Some(self.add_layer(parent, position, layer))
    }
}

} // verus!
