//! Read-only walks over a [`LayerTree`]: parent lookup, subtree membership
//! and the depth-first listing.

use vstd::prelude::*;

use crate::layer::{Layer, LayerContent};
use crate::ops::LayerId;

use super::order::{
    below, edges_ok, in_subtree, lemma_concat_contains, lemma_kids_below, lemma_list_append, lemma_list_bound,
    lemma_list_unfold, lemma_node_contains, lemma_node_unfold, pre_list, pre_node,
};
use super::{kids, lemma_shape_edges, LayerTree};

verus! {

/// Where a layer is attached in the tree.
#[derive(Debug, Clone, Copy, PartialEq, Eq, Structural)]
pub enum ParentLocation {
    /// In the root-level list.
    Root,
    /// In the child list of the given group.
    Group(LayerId),
}

/// `s` read back to front.
pub open spec fn reversed(s: Seq<LayerId>) -> Seq<LayerId> {
    Seq::new(s.len(), |i: int| s[s.len() - 1 - i])
}

proof fn lemma_reversed_push(s: Seq<LayerId>, x: LayerId)
    ensures
        reversed(s.push(x)) == seq![x] + reversed(s),
{
    assert(reversed(s.push(x)) =~= seq![x] + reversed(s));
}

proof fn lemma_reversed_pop(s: Seq<LayerId>)
    requires
        s.len() > 0,
    ensures
        reversed(s).len() > 0,
        reversed(s)[0] == s.last(),
        reversed(s.drop_last()) == reversed(s).drop_first(),
{
    assert(reversed(s.drop_last()) =~= reversed(s).drop_first());
}

/// Whether `v` holds `x`.
pub fn ids_contain(v: &[LayerId], x: LayerId) -> (r: bool)
    ensures
        r == v@.contains(x),
{
    let mut i: usize = 0;
    while i < v.len()
        invariant
            i <= v@.len(),
            forall|j: int| 0 <= j < i ==> v@[j] != x,
        decreases v@.len() - i,
    {
        if v[i] == x {
            assert(v@[i as int] == x);
            return true;
        }
        i = i + 1;
    }
    false
}

impl LayerTree {
    /// The layer ids in depth-first pre-order: each root, then its subtree,
    /// roots top-first and children top-first.
    pub open spec fn depth_first(&self) -> Seq<LayerId> {
        pre_list(self.layer_map(), self.heights(), self.roots(), self.spec_height_bound())
    }

    /// Every id of `s` names a layer of the tree, below the height bound.
    proof fn lemma_ids_below(&self, s: Seq<LayerId>)
        requires
            self.wf(),
            forall|i: int| 0 <= i < s.len() ==> self.layer_map().contains_key(#[trigger] s[i]),
        ensures
            below(self.heights(), s, self.spec_height_bound()),
    {
    }

    /// The child ids of the layer `id` (empty for a missing or non-group
    /// layer).
    pub(super) fn child_ids(&self, id: LayerId) -> (r: &[LayerId])
        requires
            self.wf(),
        ensures
            r@ == kids(self.layer_map(), id),
    {
        match self.get(id) {
            Some(l) => match &l.content {
                LayerContent::Group { children } => children.as_slice(),
                _ => &[],
            },
            None => &[],
        }
    }

    /// Push the ids of `children` onto `stack` last-first, so that the first
    /// child ends on top.
    fn push_children(&self, stack: &mut Vec<LayerId>, children: &[LayerId])
        requires
            self.wf(),
            forall|i: int| 0 <= i < children@.len() ==> self.layer_map().contains_key(#[trigger] children@[i]),
            forall|i: int| 0 <= i < old(stack)@.len() ==> self.layer_map().contains_key(#[trigger] old(stack)@[i]),
        ensures
            reversed(final(stack)@) == children@ + reversed(old(stack)@),
            forall|i: int| 0 <= i < final(stack)@.len() ==> self.layer_map().contains_key(#[trigger] final(stack)@[i]),
    {
        let ghost rest = reversed(stack@);
        let mut j = children.len();
        proof {
            assert(children@.subrange(j as int, children@.len() as int) + rest =~= rest);
        }
        while j > 0
            invariant
                self.wf(),
                j <= children@.len(),
                forall|i: int| 0 <= i < children@.len() ==> self.layer_map().contains_key(#[trigger] children@[i]),
                forall|i: int| 0 <= i < stack@.len() ==> self.layer_map().contains_key(#[trigger] stack@[i]),
                reversed(stack@) == children@.subrange(j as int, children@.len() as int) + rest,
            decreases j,
        {
            j = j - 1;
            let ghost before = stack@;
            stack.push(children[j]);
            proof {
                lemma_reversed_push(before, children@[j as int]);
                assert(children@.subrange(j as int, children@.len() as int) =~= seq![children@[j as int]]
                    + children@.subrange(j + 1, children@.len() as int));
            }
        }
        proof {
            assert(children@.subrange(0, children@.len() as int) =~= children@);
        }
    }

    /// The depth-first listing of the subtrees rooted at the ids of `stack`,
    /// taken from the top of the stack down.
    pub(super) fn dfs_from(&self, stack: Vec<LayerId>) -> (out: Vec<LayerId>)
        requires
            self.wf(),
            forall|i: int| 0 <= i < stack@.len() ==> self.layer_map().contains_key(#[trigger] stack@[i]),
        ensures
            below(self.heights(), reversed(stack@), self.spec_height_bound()),
            out@ == pre_list(self.layer_map(), self.heights(), reversed(stack@), self.spec_height_bound()),
    {
        let ghost m = self.layer_map();
        let ghost h = self.heights();
        let ghost b = self.spec_height_bound();
        proof {
            lemma_shape_edges(m, self.roots(), h, b);
            self.lemma_ids_below(reversed(stack@));
        }
        let ghost total = pre_list(m, h, reversed(stack@), b);
        let mut stack = stack;
        let mut out: Vec<LayerId> = Vec::new();
        while stack.len() > 0
            invariant
                self.wf(),
                m == self.layer_map(),
                h == self.heights(),
                b == self.spec_height_bound(),
                edges_ok(m, h),
                forall|i: int| 0 <= i < stack@.len() ==> m.contains_key(#[trigger] stack@[i]),
                below(h, reversed(stack@), b),
                out@ + pre_list(m, h, reversed(stack@), b) == total,
            decreases pre_list(m, h, reversed(stack@), b).len(),
        {
            let ghost s0 = stack@;
            let id = stack.pop().unwrap();
            proof {
                lemma_reversed_pop(s0);
                assert(stack@ == s0.drop_last());
                lemma_list_unfold(m, h, reversed(s0), b);
                lemma_node_unfold(m, h, id);
                assert(m.contains_key(id));
            }
            out.push(id);
            let children = self.child_ids(id);
            proof {
                lemma_kids_below(m, h, id);
                assert(below(h, children@, b));
                lemma_list_bound(m, h, children@, h[id], b);
            }
            let ghost s1 = stack@;
            self.push_children(&mut stack, children);
            proof {
                self.lemma_ids_below(s1);
                self.lemma_ids_below(reversed(s1));
                lemma_list_append(m, h, children@, reversed(s1), b);
                self.lemma_ids_below(reversed(stack@));
                assert(out@ + pre_list(m, h, reversed(stack@), b) =~= total);
            }
        }
        proof {
            assert(reversed(stack@) =~= Seq::<LayerId>::empty());
            assert(out@ =~= total);
        }
        out
    }

    /// Collect all layer ids in depth-first pre-order.
    fn dfs_ids(&self) -> (out: Vec<LayerId>)
        requires
            self.wf(),
        ensures
            out@ == self.depth_first(),
    {
        let mut stack: Vec<LayerId> = Vec::new();
        self.push_children(&mut stack, self.root_ids.as_slice());
        proof {
            assert(reversed(Seq::<LayerId>::empty()) =~= Seq::<LayerId>::empty());
            assert(reversed(stack@) =~= self.roots());
        }
        self.dfs_from(stack)
    }

    /// All layers in depth-first pre-order (each root, then its children,
    /// then grandchildren).
    pub fn iter_depth_first(&self) -> (r: Vec<&Layer>)
        requires
            self.wf(),
        ensures
            r@.len() == self.depth_first().len(),
            forall|i: int| 0 <= i < r@.len() ==> *r@[i] == self.layer_map()[self.depth_first()[i]],
    {
        let ids = self.dfs_ids();
        let ghost m = self.layer_map();
        proof {
            lemma_shape_edges(m, self.roots(), self.heights(), self.spec_height_bound());
            self.lemma_depth_first_present();
        }
        let mut out: Vec<&Layer> = Vec::new();
        let mut i: usize = 0;
        while i < ids.len()
            invariant
                self.wf(),
                m == self.layer_map(),
                ids@ == self.depth_first(),
                forall|k: int| 0 <= k < ids@.len() ==> m.contains_key(#[trigger] ids@[k]),
                i <= ids@.len(),
                out@.len() == i,
                forall|k: int| 0 <= k < i ==> *out@[k] == m[ids@[k]],
            decreases ids@.len() - i,
        {
            match self.get(ids[i]) {
                Some(l) => out.push(l),
                None => {},
            }
            i = i + 1;
        }
        out
    }

    /// Every id in the depth-first listing names a layer of the tree.
    proof fn lemma_depth_first_present(&self)
        requires
            self.wf(),
        ensures
            forall|k: int| 0 <= k < self.depth_first().len() ==> self.layer_map().contains_key(
                #[trigger] self.depth_first()[k],
            ),
    {
        let m = self.layer_map();
        let h = self.heights();
        let b = self.spec_height_bound();
        lemma_shape_edges(m, self.roots(), h, b);
        self.lemma_ids_below(self.roots());
        assert forall|k: int| 0 <= k < self.depth_first().len() implies m.contains_key(
            #[trigger] self.depth_first()[k],
        ) by {
            let c = self.depth_first()[k];
            assert(self.depth_first().contains(c));
            super::order::lemma_list_contains(m, h, self.roots(), b, c);
            let i = choose|i: int| 0 <= i < self.roots().len() && #[trigger] pre_node(m, h, self.roots()[i]).contains(c);
            let r = self.roots()[i];
            assert(m.contains_key(r));
            if c != r {
                super::order::lemma_subtree_height(m, h, r, c);
            }
        }
    }

    /// Whether `candidate` lies anywhere in the subtree rooted at `ancestor`
    /// (`ancestor` included).
    pub(super) fn is_in_subtree(&self, ancestor: LayerId, candidate: LayerId) -> (r: bool)
        requires
            self.wf(),
            self.layer_map().contains_key(ancestor),
        ensures
            r == in_subtree(self.layer_map(), self.heights(), ancestor, candidate),
    {
        let ghost m = self.layer_map();
        let ghost h = self.heights();
        let ghost b = self.spec_height_bound();
        let ghost goal = in_subtree(m, h, ancestor, candidate);
        let mut stack: Vec<LayerId> = Vec::new();
        stack.push(ancestor);
        proof {
            lemma_shape_edges(m, self.roots(), h, b);
            assert(reversed(stack@) =~= seq![ancestor]);
            self.lemma_ids_below(seq![ancestor]);
            lemma_list_unfold(m, h, seq![ancestor], b);
            assert(seq![ancestor].drop_first() =~= Seq::<LayerId>::empty());
            assert(pre_list(m, h, seq![ancestor], b) =~= pre_node(m, h, ancestor));
        }
        while stack.len() > 0
            invariant
                self.wf(),
                m == self.layer_map(),
                h == self.heights(),
                b == self.spec_height_bound(),
                edges_ok(m, h),
                goal == in_subtree(m, h, ancestor, candidate),
                forall|i: int| 0 <= i < stack@.len() ==> m.contains_key(#[trigger] stack@[i]),
                below(h, reversed(stack@), b),
                pre_list(m, h, reversed(stack@), b).contains(candidate) == goal,
            decreases pre_list(m, h, reversed(stack@), b).len(),
        {
            let ghost s0 = stack@;
            let id = stack.pop().unwrap();
            proof {
                lemma_reversed_pop(s0);
                assert(stack@ == s0.drop_last());
                lemma_list_unfold(m, h, reversed(s0), b);
                lemma_node_unfold(m, h, id);
                assert(m.contains_key(id));
                lemma_concat_contains(pre_node(m, h, id), pre_list(m, h, reversed(stack@), b), candidate);
            }
            if id == candidate {
                proof {
                    assert(pre_node(m, h, id)[0] == candidate);
                }
                return true;
            }
            let children = self.child_ids(id);
            proof {
                lemma_kids_below(m, h, id);
                lemma_list_bound(m, h, children@, h[id], b);
            }
            let ghost s1 = stack@;
            self.push_children(&mut stack, children);
            proof {
                self.lemma_ids_below(reversed(s1));
                lemma_list_append(m, h, children@, reversed(s1), b);
                self.lemma_ids_below(reversed(stack@));
                lemma_concat_contains(seq![id], pre_list(m, h, children@, b), candidate);
                lemma_concat_contains(pre_list(m, h, children@, b), pre_list(m, h, reversed(s1), b), candidate);
                assert(seq![id].contains(candidate) ==> candidate == id) by {
                    if seq![id].contains(candidate) {
                        let k = choose|k: int| 0 <= k < 1 && seq![id][k] == candidate;
                    }
                }
            }
        }
        proof {
            assert(reversed(stack@) =~= Seq::<LayerId>::empty());
            assert(pre_list(m, h, reversed(stack@), b) =~= Seq::<LayerId>::empty());
        }
        false
    }

    /// Where layer `id` is attached: in the root list, in the child list of
    /// a group, or nowhere.
    pub(super) fn find_parent(&self, id: LayerId) -> (r: Option<ParentLocation>)
        requires
            self.wf(),
        ensures
            match r {
                Some(ParentLocation::Root) => self.roots().contains(id),
                Some(ParentLocation::Group(p)) => {
                    &&& !self.roots().contains(id)
                    &&& self.layer_map().contains_key(p)
                    &&& kids(self.layer_map(), p).contains(id)
                },
                None => {
                    &&& !self.roots().contains(id)
                    &&& forall|p: LayerId| !(#[trigger] kids(self.layer_map(), p).contains(id))
                },
            },
    {
        if ids_contain(self.root_ids.as_slice(), id) {
            return Some(ParentLocation::Root);
        }
        let ghost m = self.layer_map();
        let mut i: usize = 0;
        while i < self.layers.len()
            invariant
                self.wf(),
                m == self.layer_map(),
                i <= self.layers@.len(),
                forall|j: int| 0 <= j < i ==> !(#[trigger] kids(m, self.layers@[j].id)).contains(id),
            decreases self.layers@.len() - i,
        {
            let pid = self.layers[i].id;
            proof {
                super::lemma_lindex(self.layers@, pid, i as int);
            }
            match &self.layers[i].content {
                LayerContent::Group { children } => {
                    if ids_contain(children.as_slice(), id) {
                        return Some(ParentLocation::Group(pid));
                    }
                },
                _ => {},
            }
            i = i + 1;
        }
        proof {
            assert forall|p: LayerId| !(#[trigger] kids(m, p).contains(id)) by {
                if m.contains_key(p) {
                    let j = choose|j: int| 0 <= j < self.layers@.len() && self.layers@[j].id == p;
                    assert(!kids(m, self.layers@[j].id).contains(id));
                }
            }
        }
        None
    }
}

} // verus!
