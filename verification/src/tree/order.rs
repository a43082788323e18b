//! Depth-first (pre-order) listings of a layer tree and the subtree relation
//! they define, with the facts the tree operations rely on.

use vstd::prelude::*;

use crate::layer::Layer;
use crate::ops::LayerId;

use super::kids;

verus! {

/// Every child of a layer exists and lies strictly below its parent in `h`.
pub open spec fn edges_ok(m: Map<LayerId, Layer>, h: Map<LayerId, nat>) -> bool {
    forall|g: LayerId, c: LayerId|
        m.contains_key(g) && #[trigger] kids(m, g).contains(c) ==> m.contains_key(c) && h[c] < h[g]
}

/// Every id of `list` lies strictly below `hb` in `h`.
pub open spec fn below(h: Map<LayerId, nat>, list: Seq<LayerId>, hb: nat) -> bool {
    forall|i: int| 0 <= i < list.len() ==> h[#[trigger] list[i]] < hb
}

/// The pre-order listing of the subtree rooted at `node`: the node, then
/// the listings of its children in order (defined where heights decrease
/// from `node` to its children).
pub open spec fn pre_node(m: Map<LayerId, Layer>, h: Map<LayerId, nat>, node: LayerId) -> Seq<LayerId>
    decreases h[node] + 1, 0nat,
    when below(h, kids(m, node), h[node])
{
    seq![node] + pre_list(m, h, kids(m, node), h[node])
}

/// The pre-order listings of the subtrees rooted at the ids of `list`,
/// concatenated in order (defined where every id lies below `hb`).
pub open spec fn pre_list(m: Map<LayerId, Layer>, h: Map<LayerId, nat>, list: Seq<LayerId>, hb: nat) -> Seq<
    LayerId,
>
    decreases hb, list.len(),
    when below(h, list, hb)
{
    if list.len() == 0 {
        Seq::empty()
    } else {
        pre_node(m, h, list[0]) + pre_list(m, h, list.drop_first(), hb)
    }
}

/// `c` lies in the subtree rooted at `a` (`a` included).
pub open spec fn in_subtree(m: Map<LayerId, Layer>, h: Map<LayerId, nat>, a: LayerId, c: LayerId) -> bool {
    pre_node(m, h, a).contains(c)
}

pub proof fn lemma_concat_contains(a: Seq<LayerId>, b: Seq<LayerId>, c: LayerId)
    ensures
        (a + b).contains(c) <==> a.contains(c) || b.contains(c),
{
    if (a + b).contains(c) {
        let k = choose|k: int| 0 <= k < (a + b).len() && (a + b)[k] == c;
        if k < a.len() {
            assert(a[k] == c);
        } else {
            assert(b[k - a.len()] == c);
        }
    }
    if a.contains(c) {
        let k = choose|k: int| 0 <= k < a.len() && a[k] == c;
        assert((a + b)[k] == c);
    }
    if b.contains(c) {
        let k = choose|k: int| 0 <= k < b.len() && b[k] == c;
        assert((a + b)[k + a.len()] == c);
    }
}

pub proof fn lemma_kids_below(m: Map<LayerId, Layer>, h: Map<LayerId, nat>, a: LayerId)
    requires
        edges_ok(m, h),
    ensures
        below(h, kids(m, a), h[a]),
        forall|i: int| 0 <= i < kids(m, a).len() ==> m.contains_key(#[trigger] kids(m, a)[i]),
{
    assert forall|i: int| 0 <= i < kids(m, a).len() implies h[#[trigger] kids(m, a)[i]] < h[a]
        && m.contains_key(kids(m, a)[i]) by {
        assert(kids(m, a).contains(kids(m, a)[i]));
    }
}

pub proof fn lemma_node_unfold(m: Map<LayerId, Layer>, h: Map<LayerId, nat>, a: LayerId)
    requires
        edges_ok(m, h),
    ensures
        pre_node(m, h, a) == seq![a] + pre_list(m, h, kids(m, a), h[a]),
        below(h, kids(m, a), h[a]),
        pre_node(m, h, a).len() >= 1,
        pre_node(m, h, a)[0] == a,
{
    lemma_kids_below(m, h, a);
}

pub proof fn lemma_list_unfold(m: Map<LayerId, Layer>, h: Map<LayerId, nat>, l: Seq<LayerId>, hb: nat)
    requires
        edges_ok(m, h),
        below(h, l, hb),
        l.len() > 0,
    ensures
        pre_list(m, h, l, hb) == pre_node(m, h, l[0]) + pre_list(m, h, l.drop_first(), hb),
        below(h, l.drop_first(), hb),
{
    lemma_kids_below(m, h, l[0]);
    assert forall|i: int| 0 <= i < l.drop_first().len() implies h[#[trigger] l.drop_first()[i]] < hb by {
        assert(l.drop_first()[i] == l[i + 1]);
    }
}

pub proof fn lemma_list_contains(
    m: Map<LayerId, Layer>,
    h: Map<LayerId, nat>,
    l: Seq<LayerId>,
    hb: nat,
    c: LayerId,
)
    requires
        edges_ok(m, h),
        below(h, l, hb),
    ensures
        pre_list(m, h, l, hb).contains(c) <==> exists|i: int|
            0 <= i < l.len() && #[trigger] pre_node(m, h, l[i]).contains(c),
    decreases l.len(),
{
    if l.len() > 0 {
        let t = l.drop_first();
        lemma_list_unfold(m, h, l, hb);
        lemma_list_contains(m, h, t, hb, c);
        lemma_concat_contains(pre_node(m, h, l[0]), pre_list(m, h, t, hb), c);
        if pre_list(m, h, l, hb).contains(c) {
            if pre_node(m, h, l[0]).contains(c) {
            } else {
                let i = choose|i: int| 0 <= i < t.len() && #[trigger] pre_node(m, h, t[i]).contains(c);
                assert(t[i] == l[i + 1]);
            }
        }
        if exists|i: int| 0 <= i < l.len() && #[trigger] pre_node(m, h, l[i]).contains(c) {
            let i = choose|i: int| 0 <= i < l.len() && #[trigger] pre_node(m, h, l[i]).contains(c);
            if i > 0 {
                assert(t[i - 1] == l[i]);
            }
        }
    }
}

/// The listing of a list does not depend on the bound it is taken under.
pub proof fn lemma_list_bound(m: Map<LayerId, Layer>, h: Map<LayerId, nat>, l: Seq<LayerId>, hb1: nat, hb2: nat)
    requires
        edges_ok(m, h),
        below(h, l, hb1),
        below(h, l, hb2),
    ensures
        pre_list(m, h, l, hb1) == pre_list(m, h, l, hb2),
    decreases l.len(),
{
    if l.len() > 0 {
        lemma_list_unfold(m, h, l, hb1);
        lemma_list_unfold(m, h, l, hb2);
        lemma_list_bound(m, h, l.drop_first(), hb1, hb2);
    }
}

/// The listing of a concatenation is the concatenation of the listings.
pub proof fn lemma_list_append(
    m: Map<LayerId, Layer>,
    h: Map<LayerId, nat>,
    l1: Seq<LayerId>,
    l2: Seq<LayerId>,
    hb: nat,
)
    requires
        edges_ok(m, h),
        below(h, l1, hb),
        below(h, l2, hb),
    ensures
        below(h, l1 + l2, hb),
        pre_list(m, h, l1 + l2, hb) == pre_list(m, h, l1, hb) + pre_list(m, h, l2, hb),
    decreases l1.len(),
{
    let l = l1 + l2;
    assert forall|i: int| 0 <= i < l.len() implies h[#[trigger] l[i]] < hb by {
        if i < l1.len() {
            assert(l[i] == l1[i]);
        } else {
            assert(l[i] == l2[i - l1.len()]);
        }
    }
    if l1.len() == 0 {
        assert(l =~= l2);
        assert(pre_list(m, h, l1, hb) =~= Seq::<LayerId>::empty());
        assert(pre_list(m, h, l1, hb) + pre_list(m, h, l2, hb) =~= pre_list(m, h, l2, hb));
    } else {
        lemma_list_unfold(m, h, l1, hb);
        lemma_list_unfold(m, h, l, hb);
        assert(l.drop_first() =~= l1.drop_first() + l2);
        assert(l[0] == l1[0]);
        lemma_list_append(m, h, l1.drop_first(), l2, hb);
        assert(pre_list(m, h, l, hb) =~= pre_list(m, h, l1, hb) + pre_list(m, h, l2, hb));
    }
}

/// A layer lies in the subtree of `a` exactly when it is `a` or lies in the
/// subtree of one of `a`'s children.
pub proof fn lemma_node_contains(m: Map<LayerId, Layer>, h: Map<LayerId, nat>, a: LayerId, c: LayerId)
    requires
        edges_ok(m, h),
    ensures
        in_subtree(m, h, a, c) <==> (c == a || exists|i: int|
            0 <= i < kids(m, a).len() && #[trigger] in_subtree(m, h, kids(m, a)[i], c)),
        in_subtree(m, h, a, a),
{
    lemma_node_unfold(m, h, a);
    lemma_concat_contains(seq![a], pre_list(m, h, kids(m, a), h[a]), c);
    lemma_list_contains(m, h, kids(m, a), h[a], c);
    assert(seq![a].contains(c) <==> c == a) by {
        if seq![a].contains(c) {
            let k = choose|k: int| 0 <= k < 1 && seq![a][k] == c;
        }
        if c == a {
            assert(seq![a][0] == c);
        }
    }
    assert(pre_node(m, h, a)[0] == a);
    if exists|i: int| 0 <= i < kids(m, a).len() && #[trigger] in_subtree(m, h, kids(m, a)[i], c) {
        let i = choose|i: int| 0 <= i < kids(m, a).len() && #[trigger] in_subtree(m, h, kids(m, a)[i], c);
        assert(pre_node(m, h, kids(m, a)[i]).contains(c));
    }
    if pre_list(m, h, kids(m, a), h[a]).contains(c) {
        let i = choose|i: int| 0 <= i < kids(m, a).len() && #[trigger] pre_node(m, h, kids(m, a)[i]).contains(c);
        assert(in_subtree(m, h, kids(m, a)[i], c));
    }
}

/// Under valid heights, a layer strictly inside the subtree of `a` exists
/// and lies strictly below `a`.
pub proof fn lemma_subtree_height(m: Map<LayerId, Layer>, h: Map<LayerId, nat>, a: LayerId, c: LayerId)
    requires
        edges_ok(m, h),
        in_subtree(m, h, a, c),
        c != a,
    ensures
        m.contains_key(a),
        m.contains_key(c),
        h[c] < h[a],
    decreases h[a],
{
    lemma_node_contains(m, h, a, c);
    let i = choose|i: int| 0 <= i < kids(m, a).len() && #[trigger] in_subtree(m, h, kids(m, a)[i], c);
    let k = kids(m, a)[i];
    assert(kids(m, a).contains(k));
    if c != k {
        lemma_subtree_height(m, h, k, c);
    }
}

/// Subtrees are closed under taking children.
pub proof fn lemma_subtree_closed(m: Map<LayerId, Layer>, h: Map<LayerId, nat>, a: LayerId, p: LayerId, c: LayerId)
    requires
        edges_ok(m, h),
        in_subtree(m, h, a, p),
        kids(m, p).contains(c),
    ensures
        in_subtree(m, h, a, c),
    decreases h[a],
{
    lemma_node_contains(m, h, a, c);
    if p == a {
        let i = choose|i: int| 0 <= i < kids(m, a).len() && kids(m, a)[i] == c;
        lemma_node_contains(m, h, c, c);
        assert(in_subtree(m, h, kids(m, a)[i], c));
    } else {
        lemma_node_contains(m, h, a, p);
        let i = choose|i: int| 0 <= i < kids(m, a).len() && #[trigger] in_subtree(m, h, kids(m, a)[i], p);
        let k = kids(m, a)[i];
        assert(kids(m, a).contains(k));
        assert(m.contains_key(a)) by {
            if !m.contains_key(a) {
                assert(kids(m, a).len() == 0);
            }
        }
        lemma_subtree_closed(m, h, k, p, c);
    }
}

/// Subtrees nest.
pub proof fn lemma_subtree_trans(m: Map<LayerId, Layer>, h: Map<LayerId, nat>, a: LayerId, b: LayerId, c: LayerId)
    requires
        edges_ok(m, h),
        in_subtree(m, h, a, b),
        in_subtree(m, h, b, c),
    ensures
        in_subtree(m, h, a, c),
    decreases h[b],
{
    if c != b {
        lemma_node_contains(m, h, b, c);
        let i = choose|i: int| 0 <= i < kids(m, b).len() && #[trigger] in_subtree(m, h, kids(m, b)[i], c);
        let k = kids(m, b)[i];
        assert(kids(m, b).contains(k));
        assert(m.contains_key(b)) by {
            if !m.contains_key(b) {
                assert(kids(m, b).len() == 0);
            }
        }
        lemma_subtree_closed(m, h, a, b, k);
        lemma_subtree_trans(m, h, a, k, c);
    }
}

/// A layer strictly inside the subtree of `a` has a parent in that subtree.
pub proof fn lemma_subtree_parent(m: Map<LayerId, Layer>, h: Map<LayerId, nat>, a: LayerId, c: LayerId)
    requires
        edges_ok(m, h),
        in_subtree(m, h, a, c),
        c != a,
    ensures
        exists|p: LayerId| #[trigger] kids(m, p).contains(c) && in_subtree(m, h, a, p),
    decreases h[a],
{
    lemma_node_contains(m, h, a, c);
    let i = choose|i: int| 0 <= i < kids(m, a).len() && #[trigger] in_subtree(m, h, kids(m, a)[i], c);
    let k = kids(m, a)[i];
    assert(kids(m, a).contains(k));
    if c == k {
        assert(kids(m, a).contains(c));
    } else {
        lemma_subtree_height(m, h, a, c);
        lemma_subtree_parent(m, h, k, c);
        let p = choose|p: LayerId| #[trigger] kids(m, p).contains(c) && in_subtree(m, h, k, p);
        lemma_subtree_closed(m, h, a, a, k);
        lemma_subtree_trans(m, h, a, k, p);
    }
}

} // verus!
