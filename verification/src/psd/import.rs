//! Rebuilding a PSD's layer hierarchy: where each group sits among its
//! siblings, the bottom-to-top order of every parent's children, and the
//! insertion of the converted layers into a [`LayerTree`].

use vstd::prelude::*;

use crate::layer::{Layer, LayerContent};
use crate::ops::LayerId;
use crate::tree::{add_step, lemma_add_step, lemma_nesting_of, nesting_of, represents, LayerTree, Nesting};

verus! {

/// What the importer knows of one PSD group folder.
#[derive(Debug, Clone, Copy)]
pub struct PsdGroupInfo {
    /// The group's id in the file.
    pub id: u32,
    /// The id of the group that holds it (`None` at the document root).
    pub parent: Option<u32>,
}

/// One entry of a parent's child list.
#[derive(Debug, Clone, Copy, PartialEq, Eq, Structural)]
pub enum PsdChild {
    /// The layer at this flat index (`0` is the bottom layer).
    Layer(usize),
    /// The group with this id.
    Group(u32),
}

/// The parent recorded for group `g`: that of the first entry with id `g`,
/// `None` when there is none.
pub open spec fn group_parent(groups: Seq<PsdGroupInfo>, g: u32) -> Option<u32>
    decreases groups.len(),
{
    if groups.len() == 0 {
        None
    } else if groups[0].id == g {
        groups[0].parent
    } else {
        group_parent(groups.drop_first(), g)
    }
}

/// The group ids met when climbing from `start` through recorded parents,
/// at most `fuel` of them.
pub open spec fn ancestry(groups: Seq<PsdGroupInfo>, start: Option<u32>, fuel: nat) -> Seq<u32>
    decreases fuel,
{
    match start {
        None => Seq::empty(),
        Some(g) => if fuel == 0 {
            Seq::empty()
        } else {
            seq![g] + ancestry(groups, group_parent(groups, g), (fuel - 1) as nat)
        },
    }
}

/// How many groups a climb visits at most: one more than there are groups,
/// which every chain of parents ending at the root stays within.
pub open spec fn climb_fuel(groups: Seq<PsdGroupInfo>) -> nat {
    groups.len() + 1
}

/// Layer `i` lies, at some depth, inside group `g`.
pub open spec fn reaches(parents: Seq<Option<u32>>, groups: Seq<PsdGroupInfo>, i: int, g: u32) -> bool {
    ancestry(groups, parents[i], climb_fuel(groups)).contains(g)
}

/// The lowest index among the first `n` layers that lies inside group `g`
/// (`usize::MAX` when none does): where the group sits among its siblings.
pub open spec fn group_key(parents: Seq<Option<u32>>, groups: Seq<PsdGroupInfo>, g: u32, n: nat) -> usize
    decreases n,
{
    if n == 0 {
        usize::MAX
    } else {
        let k = group_key(parents, groups, g, (n - 1) as nat);
        if k == usize::MAX && reaches(parents, groups, n - 1, g) {
            (n - 1) as usize
        } else {
            k
        }
    }
}

/// A group's key is the sentinel or one of the layers counted.
proof fn lemma_group_key_below(parents: Seq<Option<u32>>, groups: Seq<PsdGroupInfo>, g: u32, n: nat)
    ensures
        group_key(parents, groups, g, n) == usize::MAX || group_key(parents, groups, g, n) < n,
    decreases n,
{
    if n > 0 {
        lemma_group_key_below(parents, groups, g, (n - 1) as nat);
    }
}

/// The group reached from `start` after `n` steps up through recorded
/// parents (`None` once the chain has left the groups).
pub open spec fn climb(groups: Seq<PsdGroupInfo>, start: Option<u32>, n: nat) -> Option<u32>
    decreases n,
{
    if n == 0 {
        start
    } else {
        match climb(groups, start, (n - 1) as nat) {
            Some(g) => group_parent(groups, g),
            None => None,
        }
    }
}

/// Layer `i` lies inside group `g` at some depth: following the chain of
/// parent groups up from the layer's own parent meets `g`.
pub open spec fn nested_in(parents: Seq<Option<u32>>, groups: Seq<PsdGroupInfo>, i: int, g: u32) -> bool {
    exists|n: nat| #[trigger] climb(groups, parents[i], n) == Some(g)
}

/// A group with a recorded parent is listed.
proof fn lemma_parent_listed(groups: Seq<PsdGroupInfo>, x: u32)
    requires
        group_parent(groups, x) is Some,
    ensures
        groups.map_values(|e: PsdGroupInfo| e.id).contains(x),
    decreases groups.len(),
{
    let ids = groups.map_values(|e: PsdGroupInfo| e.id);
    if groups[0].id == x {
        assert(ids[0] == x);
    } else {
        lemma_parent_listed(groups.drop_first(), x);
        let rest = groups.drop_first().map_values(|e: PsdGroupInfo| e.id);
        let j = choose|j: int| 0 <= j < rest.len() && rest[j] == x;
        assert(ids[j + 1] == x);
    }
}

/// One step up from `x`, then `m` more, is `m + 1` steps from `x`.
proof fn lemma_climb_step(groups: Seq<PsdGroupInfo>, x: u32, m: nat)
    ensures
        climb(groups, Some(x), m + 1) == climb(groups, group_parent(groups, x), m),
    decreases m,
{
    assert(climb(groups, Some(x), 0) == Some(x));
    if m > 0 {
        lemma_climb_step(groups, x, (m - 1) as nat);
        assert(climb(groups, Some(x), m + 1) == match climb(groups, Some(x), m) {
            Some(g) => group_parent(groups, g),
            None => None,
        });
        assert(climb(groups, group_parent(groups, x), m) == match climb(
            groups,
            group_parent(groups, x),
            (m - 1) as nat,
        ) {
            Some(g) => group_parent(groups, g),
            None => None,
        });
    }
}

/// Two points of a chain that agree keep agreeing further up.
proof fn lemma_climb_shift(groups: Seq<PsdGroupInfo>, start: Option<u32>, a: nat, b: nat, t: nat)
    requires
        climb(groups, start, a) == climb(groups, start, b),
    ensures
        climb(groups, start, a + t) == climb(groups, start, b + t),
    decreases t,
{
    if t > 0 {
        lemma_climb_shift(groups, start, a, b, (t - 1) as nat);
        assert(climb(groups, start, a + t) == match climb(groups, start, (a + t - 1) as nat) {
            Some(g) => group_parent(groups, g),
            None => None,
        });
        assert(climb(groups, start, b + t) == match climb(groups, start, (b + t - 1) as nat) {
            Some(g) => group_parent(groups, g),
            None => None,
        });
    }
}

/// A chain that has ended stays ended.
proof fn lemma_climb_ended(groups: Seq<PsdGroupInfo>, start: Option<u32>, k: nat, n: nat)
    requires
        climb(groups, start, k) is None,
        k <= n,
    ensures
        climb(groups, start, n) is None,
    decreases n,
{
    if n > k {
        lemma_climb_ended(groups, start, k, (n - 1) as nat);
    }
}

/// Whatever a chain meets, it meets within as many steps as there are
/// groups: it can only repeat itself beyond that.
proof fn lemma_climb_short(groups: Seq<PsdGroupInfo>, start: Option<u32>, n: nat, g: u32)
    requires
        climb(groups, start, n) == Some(g),
    ensures
        exists|m: nat| m <= groups.len() && #[trigger] climb(groups, start, m) == Some(g),
    decreases n,
{
    if n <= groups.len() {
        return;
    }
    let ids = groups.map_values(|e: PsdGroupInfo| e.id);
    assert forall|k: nat| k < n implies #[trigger] climb(groups, start, k) is Some && ids.contains(
        climb(groups, start, k)->0,
    ) by {
        if climb(groups, start, k) is None {
            lemma_climb_ended(groups, start, k, n);
        }
        let y = climb(groups, start, k)->0;
        assert(climb(groups, start, k + 1) == group_parent(groups, y));
        if climb(groups, start, k + 1) is None {
            lemma_climb_ended(groups, start, k + 1, n);
        }
        lemma_parent_listed(groups, y);
    }
    let vals = Seq::new(n, |k: int| climb(groups, start, k as nat)->0);
    if vals.no_duplicates() {
        vals.unique_seq_to_set();
        ids.lemma_cardinality_of_set();
        assert(vals.to_set().subset_of(ids.to_set())) by {
            assert forall|v: u32| vals.to_set().contains(v) implies ids.to_set().contains(v) by {
                let k = choose|k: int| 0 <= k < vals.len() && vals[k] == v;
                assert(climb(groups, start, k as nat) is Some);
            }
        }
        vstd::set_lib::lemma_len_subset(vals.to_set(), ids.to_set());
        assert(false);
    } else {
        let (p, q) = choose|p: int, q: int| 0 <= p < vals.len() && 0 <= q < vals.len() && p != q && vals[p] == vals[q];
        let (lo, hi) = if p < q { (p, q) } else { (q, p) };
        assert(climb(groups, start, lo as nat) is Some && climb(groups, start, hi as nat) is Some);
        assert(climb(groups, start, lo as nat) == climb(groups, start, hi as nat));
        lemma_climb_shift(groups, start, lo as nat, hi as nat, (n - hi) as nat);
        assert(hi + (n - hi) == n);
        lemma_climb_short(groups, start, (lo + (n - hi)) as nat, g);
    }
}

/// The climb [`reaches`] makes meets exactly the groups that the unbounded
/// chain of parents meets within `fuel` steps.
proof fn lemma_ancestry_climb(groups: Seq<PsdGroupInfo>, start: Option<u32>, fuel: nat, g: u32)
    ensures
        ancestry(groups, start, fuel).contains(g) <==> exists|n: nat| n < fuel && #[trigger] climb(groups, start, n) == Some(g),
    decreases fuel,
{
    match start {
        None => {
            assert forall|n: nat| #[trigger] climb(groups, start, n) != Some(g) by {
                lemma_climb_ended(groups, start, 0, n);
            }
        },
        Some(x) => {
            if fuel > 0 {
                let up = group_parent(groups, x);
                lemma_ancestry_climb(groups, up, (fuel - 1) as nat, g);
                let rest = ancestry(groups, up, (fuel - 1) as nat);
                assert(ancestry(groups, start, fuel) == seq![x] + rest);
                if ancestry(groups, start, fuel).contains(g) {
                    let k = choose|k: int| 0 <= k < ancestry(groups, start, fuel).len() && ancestry(groups, start, fuel)[k] == g;
                    if k == 0 {
                        assert(climb(groups, start, 0) == Some(g));
                    } else {
                        assert(rest[k - 1] == g);
                        let m = choose|m: nat| m < fuel - 1 && #[trigger] climb(groups, up, m) == Some(g);
                        lemma_climb_step(groups, x, m);
                        assert(climb(groups, start, m + 1) == Some(g));
                    }
                }
                if exists|n: nat| n < fuel && #[trigger] climb(groups, start, n) == Some(g) {
                    let n = choose|n: nat| n < fuel && #[trigger] climb(groups, start, n) == Some(g);
                    if n == 0 {
                        assert((seq![x] + rest)[0] == g);
                    } else {
                        lemma_climb_step(groups, x, (n - 1) as nat);
                        assert(climb(groups, up, (n - 1) as nat) == Some(g));
                        let k = choose|k: int| 0 <= k < rest.len() && rest[k] == g;
                        assert((seq![x] + rest)[k + 1] == g);
                    }
                }
            }
        },
    }
}

/// [`reaches`] says exactly that the layer is nested in the group.
proof fn lemma_reaches_nested(parents: Seq<Option<u32>>, groups: Seq<PsdGroupInfo>, i: int, g: u32)
    ensures
        reaches(parents, groups, i, g) <==> nested_in(parents, groups, i, g),
{
    lemma_ancestry_climb(groups, parents[i], climb_fuel(groups), g);
    if nested_in(parents, groups, i, g) {
        let n = choose|n: nat| #[trigger] climb(groups, parents[i], n) == Some(g);
        lemma_climb_short(groups, parents[i], n, g);
    }
}

/// Over the first `n` layers, a group's key is the least index of a layer
/// that [`reaches`] it, or the sentinel when none does.
proof fn lemma_group_key_least(parents: Seq<Option<u32>>, groups: Seq<PsdGroupInfo>, g: u32, n: nat)
    requires
        n < usize::MAX,
    ensures
        forall|i: int| 0 <= i < n && reaches(parents, groups, i, g) ==> group_key(parents, groups, g, n) <= i,
        group_key(parents, groups, g, n) != usize::MAX ==> group_key(parents, groups, g, n) < n && reaches(
            parents,
            groups,
            group_key(parents, groups, g, n) as int,
            g,
        ),
    decreases n,
{
    if n > 0 {
        lemma_group_key_least(parents, groups, g, (n - 1) as nat);
    }
}

/// A group's key (what [`group_keys`] computes for it) is the least index
/// of a layer nested in the group at any depth: no layer inside the group
/// lies below it, and it is itself such a layer whenever it is not the
/// `usize::MAX` of a group that holds no layer.
pub proof fn law_group_key_is_lowest_nested(parents: Seq<Option<u32>>, groups: Seq<PsdGroupInfo>, g: u32)
    requires
        parents.len() < usize::MAX,
    ensures
        forall|i: int|
            0 <= i < parents.len() && #[trigger] nested_in(parents, groups, i, g) ==> group_key(
                parents,
                groups,
                g,
                parents.len() as nat,
            ) <= i,
        group_key(parents, groups, g, parents.len() as nat) != usize::MAX ==> ({
            let k = group_key(parents, groups, g, parents.len() as nat);
            k < parents.len() && nested_in(parents, groups, k as int, g)
        }),
{
    let n = parents.len() as nat;
    lemma_group_key_least(parents, groups, g, n);
    assert forall|i: int| 0 <= i < parents.len() && #[trigger] nested_in(parents, groups, i, g) implies group_key(
        parents,
        groups,
        g,
        n,
    ) <= i by {
        lemma_reaches_nested(parents, groups, i, g);
    }
    let k = group_key(parents, groups, g, n);
    if k != usize::MAX {
        lemma_reaches_nested(parents, groups, k as int, g);
    }
}

/// The recorded parent of group `g` (see [`group_parent`]).
fn parent_of_group(groups: &[PsdGroupInfo], g: u32) -> (r: Option<u32>)
    ensures
        r == group_parent(groups@, g),
{
    let mut i: usize = 0;
    assert(groups@.subrange(0, groups@.len() as int) =~= groups@);
    while i < groups.len()
        invariant
            i <= groups@.len(),
            group_parent(groups@, g) == group_parent(groups@.subrange(i as int, groups@.len() as int), g),
        decreases groups@.len() - i,
    {
        let ghost rest = groups@.subrange(i as int, groups@.len() as int);
        assert(rest[0] == groups@[i as int]);
        assert(rest.drop_first() =~= groups@.subrange(i + 1, groups@.len() as int));
        if groups[i].id == g {
            return groups[i].parent;
        }
        i = i + 1;
    }
    None
}

/// For each group of `groups`, its [`group_key`] over all the layers, whose
/// parent group ids are `parents`.
pub fn group_keys(parents: &[Option<u32>], groups: &[PsdGroupInfo]) -> (keys: Vec<usize>)
    requires
        groups@.len() < usize::MAX,
    ensures
        keys@.len() == groups@.len(),
        forall|k: int|
            0 <= k < groups@.len() ==> keys@[k] == group_key(parents@, groups@, groups@[k].id, parents@.len() as nat),
{
    let mut keys: Vec<usize> = Vec::new();
    let mut k: usize = 0;
    while k < groups.len()
        invariant
            k <= groups@.len(),
            keys@.len() == k,
            forall|j: int| 0 <= j < k ==> keys@[j] == usize::MAX,
        decreases groups@.len() - k,
    {
        keys.push(usize::MAX);
        k = k + 1;
    }
    let mut i: usize = 0;
    while i < parents.len()
        invariant
            groups@.len() < usize::MAX,
            i <= parents@.len(),
            keys@.len() == groups@.len(),
            forall|j: int|
                0 <= j < groups@.len() ==> keys@[j] == group_key(parents@, groups@, groups@[j].id, i as nat),
        decreases parents@.len() - i,
    {
        let ghost before = keys@;
        proof {
            assert forall|j: int| 0 <= j < groups@.len() implies before[j] == usize::MAX || before[j] < i by {
                lemma_group_key_below(parents@, groups@, groups@[j].id, i as nat);
            }
        }
        let ghost full = ancestry(groups@, parents@[i as int], climb_fuel(groups@));
        let mut cur = parents[i];
        let mut fuel: usize = groups.len() + 1;
        let ghost mut seen: Seq<u32> = Seq::empty();
        while fuel > 0 && cur.is_some()
            invariant
                i < parents@.len(),
                keys@.len() == groups@.len(),
                full == seen + ancestry(groups@, cur, fuel as nat),
                forall|j: int|
                    0 <= j < groups@.len() ==> keys@[j] == (if before[j] == usize::MAX && seen.contains(
                        groups@[j].id,
                    ) {
                        i
                    } else {
                        before[j]
                    }),
                forall|j: int| 0 <= j < groups@.len() ==> before[j] == usize::MAX || before[j] < i,
            decreases fuel,
        {
            let g = cur.unwrap();
            let ghost seen0 = seen;
            proof {
                seen = seen.push(g);
                assert(seen0 + ancestry(groups@, cur, fuel as nat) =~= seen + ancestry(
                    groups@,
                    group_parent(groups@, g),
                    (fuel - 1) as nat,
                ));
            }
            let mut j: usize = 0;
            while j < groups.len()
                invariant
                    i < parents@.len(),
                    keys@.len() == groups@.len(),
                    j <= groups@.len(),
                    seen == seen0.push(g),
                    forall|t: int|
                        0 <= t < groups@.len() ==> before[t] == usize::MAX || before[t] < i,
                    forall|t: int|
                        0 <= t < groups@.len() ==> keys@[t] == (if before[t] == usize::MAX && (if t < j {
                            seen
                        } else {
                            seen0
                        }).contains(groups@[t].id) {
                            i
                        } else {
                            before[t]
                        }),
                decreases groups@.len() - j,
            {
                if groups[j].id == g && i < keys[j] {
                    keys.set(j, i);
                }
                proof {
                    assert(seen[seen.len() - 1] == g);
                    assert(seen.contains(g));
                    assert forall|x: u32| seen0.contains(x) implies seen.contains(x) by {
                        let q = choose|q: int| 0 <= q < seen0.len() && seen0[q] == x;
                        assert(seen[q] == x);
                    }
                    assert forall|x: u32| seen.contains(x) && x != g implies seen0.contains(x) by {
                        let q = choose|q: int| 0 <= q < seen.len() && seen[q] == x;
                        assert(q < seen0.len());
                        assert(seen0[q] == x);
                    }
                }
                j = j + 1;
            }
            cur = parent_of_group(groups, g);
            fuel = fuel - 1;
        }
        proof {
            assert(ancestry(groups@, cur, fuel as nat) =~= Seq::<u32>::empty());
            assert(seen =~= full);
            assert forall|j: int| 0 <= j < groups@.len() implies keys@[j] == group_key(
                parents@,
                groups@,
                groups@[j].id,
                (i + 1) as nat,
            ) by {
                assert(before[j] == group_key(parents@, groups@, groups@[j].id, i as nat));
                assert(reaches(parents@, groups@, i as int, groups@[j].id) == full.contains(groups@[j].id));
            }
        }
        i = i + 1;
    }
    keys
}

/// The layers among the first `n` whose parent is `parent`, each keyed by
/// its own index, in index order.
pub open spec fn layer_entries(parents: Seq<Option<u32>>, parent: Option<u32>, n: nat) -> Seq<(usize, PsdChild)>
    decreases n,
{
    if n == 0 {
        Seq::empty()
    } else {
        let rest = layer_entries(parents, parent, (n - 1) as nat);
        if parents[n - 1] == parent {
            rest.push(((n - 1) as usize, PsdChild::Layer((n - 1) as usize)))
        } else {
            rest
        }
    }
}

/// The groups among the first `n` whose parent is `parent`, each with its
/// key from `keys`, in the order given.
pub open spec fn group_entries(groups: Seq<PsdGroupInfo>, keys: Seq<usize>, parent: Option<u32>, n: nat) -> Seq<
    (usize, PsdChild),
>
    decreases n,
{
    if n == 0 {
        Seq::empty()
    } else {
        let rest = group_entries(groups, keys, parent, (n - 1) as nat);
        if groups[n - 1].parent == parent {
            rest.push((keys[n - 1], PsdChild::Group(groups[n - 1].id)))
        } else {
            rest
        }
    }
}

/// `x` placed after the last entry of `s`, scanning from the back, whose
/// key is at most its own.
pub open spec fn insert_by_key(s: Seq<(usize, PsdChild)>, x: (usize, PsdChild)) -> Seq<(usize, PsdChild)>
    decreases s.len(),
{
    if s.len() == 0 {
        seq![x]
    } else if s.last().0 <= x.0 {
        s.push(x)
    } else {
        insert_by_key(s.drop_last(), x).push(s.last())
    }
}

/// `s` sorted by key, entries with equal keys keeping their order.
pub open spec fn sort_by_key(s: Seq<(usize, PsdChild)>) -> Seq<(usize, PsdChild)>
    decreases s.len(),
{
    if s.len() == 0 {
        s
    } else {
        insert_by_key(sort_by_key(s.drop_last()), s.last())
    }
}

/// The children of `parent` in stacking order, bottom first: its layers
/// keyed by their index and then its groups keyed by `keys`, sorted by key
/// with ties kept in that order.
pub open spec fn children_order(
    parents: Seq<Option<u32>>,
    groups: Seq<PsdGroupInfo>,
    keys: Seq<usize>,
    parent: Option<u32>,
) -> Seq<(usize, PsdChild)> {
    sort_by_key(layer_entries(parents, parent, parents.len()) + group_entries(groups, keys, parent, groups.len()))
}

/// Every key of `s` is at most the key of every later entry.
pub open spec fn sorted_by_key(s: Seq<(usize, PsdChild)>) -> bool {
    forall|a: int, b: int| 0 <= a < b < s.len() ==> s[a].0 <= s[b].0
}

/// Inserting at the first position from the back whose predecessor's key
/// is at most `x`'s is [`insert_by_key`].
proof fn lemma_insert_at(s: Seq<(usize, PsdChild)>, x: (usize, PsdChild), p: int)
    requires
        0 <= p <= s.len(),
        forall|q: int| p <= q < s.len() ==> s[q].0 > x.0,
        p == 0 || s[p - 1].0 <= x.0,
    ensures
        insert_by_key(s, x) == s.insert(p, x),
    decreases s.len(),
{
    if s.len() == 0 {
        assert(s.insert(p, x) =~= seq![x]);
    } else if s.last().0 <= x.0 {
        assert(p == s.len());
        assert(s.insert(p, x) =~= s.push(x));
    } else {
        lemma_insert_at(s.drop_last(), x, p);
        assert(s.drop_last().insert(p, x).push(s.last()) =~= s.insert(p, x));
    }
}

/// Insert `x` into `out` as [`insert_by_key`] does.
fn insert_keyed(out: &mut Vec<(usize, PsdChild)>, x: (usize, PsdChild))
    ensures
        final(out)@ == insert_by_key(old(out)@, x),
{
    let mut p: usize = out.len();
    while p > 0 && out[p - 1].0 > x.0
        invariant
            p <= out@.len(),
            forall|q: int| p <= q < out@.len() ==> out@[q].0 > x.0,
        decreases p,
    {
        p = p - 1;
    }
    proof {
        lemma_insert_at(out@, x, p as int);
    }
    out.insert(p, x);
}

/// The children of `parent` in stacking order, bottom first (see
/// [`children_order`]); `parents` are the layers' parent group ids and
/// `keys` the groups' keys.
pub fn psd_children(parents: &[Option<u32>], groups: &[PsdGroupInfo], keys: &[usize], parent: Option<u32>) -> (r: Vec<
    (usize, PsdChild),
>)
    requires
        keys@.len() == groups@.len(),
    ensures
        r@ == children_order(parents@, groups@, keys@, parent),
{
    let mut entries: Vec<(usize, PsdChild)> = Vec::new();
    let mut i: usize = 0;
    while i < parents.len()
        invariant
            i <= parents@.len(),
            entries@ == layer_entries(parents@, parent, i as nat),
        decreases parents@.len() - i,
    {
        if parents[i] == parent {
            entries.push((i, PsdChild::Layer(i)));
        }
        i = i + 1;
    }
    let ghost layers_part = entries@;
    let mut k: usize = 0;
    assert(layers_part =~= layers_part + group_entries(groups@, keys@, parent, 0));
    while k < groups.len()
        invariant
            k <= groups@.len(),
            keys@.len() == groups@.len(),
            entries@ == layers_part + group_entries(groups@, keys@, parent, k as nat),
        decreases groups@.len() - k,
    {
        if groups[k].parent == parent {
            entries.push((keys[k], PsdChild::Group(groups[k].id)));
            assert(entries@ =~= layers_part + group_entries(groups@, keys@, parent, (k + 1) as nat));
        }
        k = k + 1;
    }
    let mut out: Vec<(usize, PsdChild)> = Vec::new();
    let mut t: usize = 0;
    assert(entries@.subrange(0, 0) =~= Seq::<(usize, PsdChild)>::empty());
    while t < entries.len()
        invariant
            t <= entries@.len(),
            out@ == sort_by_key(entries@.subrange(0, t as int)),
        decreases entries@.len() - t,
    {
        proof {
            let pre = entries@.subrange(0, t + 1);
            assert(pre.drop_last() =~= entries@.subrange(0, t as int));
            assert(pre.last() == entries@[t as int]);
        }
        insert_keyed(&mut out, entries[t]);
        t = t + 1;
    }
    assert(entries@.subrange(0, entries@.len() as int) =~= entries@);
    out
}

/// Inserting into a sorted sequence keeps it sorted, and adds exactly `x`.
proof fn lemma_insert_sorted(s: Seq<(usize, PsdChild)>, x: (usize, PsdChild))
    requires
        sorted_by_key(s),
    ensures
        sorted_by_key(insert_by_key(s, x)),
        insert_by_key(s, x).to_multiset() == s.to_multiset().insert(x),
    decreases s.len(),
{
    broadcast use vstd::seq_lib::group_to_multiset_ensures;

    if s.len() == 0 {
        assert(seq![x] =~= Seq::<(usize, PsdChild)>::empty().push(x));
    } else if s.last().0 <= x.0 {
    } else {
        let d = s.drop_last();
        lemma_insert_sorted(d, x);
        let t = insert_by_key(d, x);
        assert(s =~= d.push(s.last()));
        assert forall|a: int| 0 <= a < t.len() implies t[a].0 <= s.last().0 by {
            assert(t.to_multiset().count(t[a]) > 0);
            assert(d.to_multiset().insert(x).count(t[a]) > 0);
            if t[a] != x {
                assert(d.to_multiset().count(t[a]) > 0);
                assert(d.contains(t[a]));
                let q = choose|q: int| 0 <= q < d.len() && d[q] == t[a];
                assert(s[q] == d[q]);
            }
        }
    }
}

/// Sorting by key gives a sorted permutation.
proof fn lemma_sort_sorted(s: Seq<(usize, PsdChild)>)
    ensures
        sorted_by_key(sort_by_key(s)),
        sort_by_key(s).to_multiset() == s.to_multiset(),
    decreases s.len(),
{
    broadcast use vstd::seq_lib::group_to_multiset_ensures;

    if s.len() > 0 {
        lemma_sort_sorted(s.drop_last());
        lemma_insert_sorted(sort_by_key(s.drop_last()), s.last());
        assert(s =~= s.drop_last().push(s.last()));
    }
}

/// Every parent's children come out sorted bottom-to-top by stacking key,
/// and they are exactly that parent's layers and groups.
pub proof fn law_children_sorted(
    parents: Seq<Option<u32>>,
    groups: Seq<PsdGroupInfo>,
    keys: Seq<usize>,
    parent: Option<u32>,
)
    ensures
        sorted_by_key(children_order(parents, groups, keys, parent)),
        children_order(parents, groups, keys, parent).to_multiset() == (layer_entries(
            parents,
            parent,
            parents.len(),
        ) + group_entries(groups, keys, parent, groups.len())).to_multiset(),
{
    lemma_sort_sorted(layer_entries(parents, parent, parents.len()) + group_entries(groups, keys, parent, groups.len()));
}

/// The position of the first group with id `g`.
pub open spec fn group_pos(groups: Seq<PsdGroupInfo>, g: u32) -> Option<int>
    decreases groups.len(),
{
    if groups.len() == 0 {
        None
    } else if groups[0].id == g {
        Some(0)
    } else {
        match group_pos(groups.drop_first(), g) {
            Some(k) => Some(k + 1),
            None => None,
        }
    }
}

/// The position of the first group with id `g` (see [`group_pos`]).
fn group_index(groups: &[PsdGroupInfo], g: u32) -> (r: Option<usize>)
    ensures
        match r {
            Some(k) => group_pos(groups@, g) == Some(k as int) && k < groups@.len(),
            None => group_pos(groups@, g) is None,
        },
{
    let mut k: usize = 0;
    assert(groups@.subrange(0, groups@.len() as int) =~= groups@);
    while k < groups.len()
        invariant
            k <= groups@.len(),
            group_pos(groups@, g) == match group_pos(groups@.subrange(k as int, groups@.len() as int), g) {
                Some(j) => Some(j + k),
                None => None::<int>,
            },
        decreases groups@.len() - k,
    {
        let ghost rest = groups@.subrange(k as int, groups@.len() as int);
        assert(rest[0] == groups@[k as int]);
        assert(rest.drop_first() =~= groups@.subrange(k + 1, groups@.len() as int));
        if groups[k].id == g {
            return Some(k);
        }
        k = k + 1;
    }
    None
}

/// The importer's state: the tree's nesting, then the converted layers
/// and group layers not yet taken.
pub type PsdInsertState = (Nesting, Seq<Option<Layer>>, Seq<Option<Layer>>);

/// The entry at `i` of `slots`, taken out (none when out of range).
pub open spec fn take_slot(slots: Seq<Option<Layer>>, i: int) -> (Option<Layer>, Seq<Option<Layer>>) {
    if 0 <= i < slots.len() {
        (slots[i], slots.update(i, None))
    } else {
        (None, slots)
    }
}

/// What inserting `items` (a parent's children in stacking order) under
/// `parent_iris` does, each on top: a layer takes its converted layer; a
/// group takes its group layer and, when that was added, has its own
/// children inserted under it with `levels` more levels allowed.
pub open spec fn psd_items(
    parents: Seq<Option<u32>>,
    groups: Seq<PsdGroupInfo>,
    keys: Seq<usize>,
    st: PsdInsertState,
    items: Seq<(usize, PsdChild)>,
    parent_iris: Option<LayerId>,
    levels: nat,
) -> PsdInsertState
    decreases 2 * levels + 2, items.len(),
{
    if items.len() == 0 {
        st
    } else {
        let (n, ls, gs) = st;
        let mid = match items[0].1 {
            PsdChild::Layer(idx) => {
                let (l, ls1) = take_slot(ls, idx as int);
                match l {
                    Some(x) => (add_step(n, parent_iris, 0, x).0, ls1, gs),
                    None => (n, ls1, gs),
                }
            },
            PsdChild::Group(gid) => match group_pos(groups, gid) {
                None => st,
                Some(k) => {
                    let (g, gs1) = take_slot(gs, k);
                    match g {
                        None => (n, ls, gs1),
                        Some(gl) => {
                            let (n2, res) = add_step(n, parent_iris, 0, gl);
                            match res {
                                Some(Ok(gi)) => psd_level(parents, groups, keys, (n2, ls, gs1), Some(gid), Some(gi), levels),
                                _ => (n2, ls, gs1),
                            }
                        },
                    }
                },
            },
        };
        psd_items(parents, groups, keys, mid, items.drop_first(), parent_iris, levels)
    }
}

/// What inserting the children of `parent_psd` under `parent_iris` does
/// (see [`psd_items`]), with `levels` levels allowed: none at `0`.
pub open spec fn psd_level(
    parents: Seq<Option<u32>>,
    groups: Seq<PsdGroupInfo>,
    keys: Seq<usize>,
    st: PsdInsertState,
    parent_psd: Option<u32>,
    parent_iris: Option<LayerId>,
    levels: nat,
) -> PsdInsertState
    decreases 2 * levels + 1, 0nat,
{
    if levels == 0 {
        st
    } else {
        psd_items(
            parents,
            groups,
            keys,
            st,
            children_order(parents, groups, keys, parent_psd),
            parent_iris,
            (levels - 1) as nat,
        )
    }
}

/// Insert the children of the PSD parent `parent_psd` under `parent_iris`
/// (see [`psd_level`]), on a tree that represents nesting `n`.
fn add_children(
    tree: &mut LayerTree,
    parents: &[Option<u32>],
    groups: &[PsdGroupInfo],
    keys: &[usize],
    parent_psd: Option<u32>,
    parent_iris: Option<LayerId>,
    layers: &mut Vec<Option<Layer>>,
    group_layers: &mut Vec<Option<Layer>>,
    depth_left: usize,
    n: Ghost<Nesting>,
)
    requires
        old(tree).wf(),
        represents(*old(tree), n@),
        keys@.len() == groups@.len(),
        old(group_layers)@.len() == groups@.len(),
    ensures
        final(tree).wf(),
        final(tree).same_canvas(&*old(tree)),
        final(group_layers)@.len() == groups@.len(),
        ({
            let r = psd_level(
                parents@,
                groups@,
                keys@,
                (n@, old(layers)@, old(group_layers)@),
                parent_psd,
                parent_iris,
                depth_left as nat,
            );
            &&& represents(*final(tree), r.0)
            &&& final(layers)@ == r.1
            &&& final(group_layers)@ == r.2
        }),
    decreases depth_left,
{
    if depth_left == 0 {
        return;
    }
    let items = psd_children(parents, groups, keys, parent_psd);
    let ghost t0 = *tree;
    let ghost levels = (depth_left - 1) as nat;
    let ghost goal = psd_items(parents@, groups@, keys@, (n@, layers@, group_layers@), items@, parent_iris, levels);
    let ghost mut st: PsdInsertState = (n@, layers@, group_layers@);
    let mut i: usize = 0;
    assert(items@.subrange(0, items@.len() as int) =~= items@);
    while i < items.len()
        invariant
            tree.wf(),
            tree.same_canvas(&t0),
            keys@.len() == groups@.len(),
            group_layers@.len() == groups@.len(),
            i <= items@.len(),
            depth_left > 0,
            levels == depth_left - 1,
            represents(*tree, st.0),
            layers@ == st.1,
            group_layers@ == st.2,
            psd_items(parents@, groups@, keys@, st, items@.subrange(i as int, items@.len() as int), parent_iris, levels)
                == goal,
        decreases items@.len() - i,
    {
        let ghost rest = items@.subrange(i as int, items@.len() as int);
        proof {
            assert(rest[0] == items@[i as int]);
            assert(rest.drop_first() =~= items@.subrange(i + 1, items@.len() as int));
        }
        let ghost n0 = st.0;
        match items[i].1 {
            PsdChild::Layer(idx) => {
                let taken = if idx < layers.len() {
                    layers[idx].take()
                } else {
                    None
                };
                if let Some(layer) = taken {
                    let ghost t1 = *tree;
                    let r = tree.add_fresh(parent_iris, 0, layer);
                    proof {
                        lemma_add_step(t1, *tree, n0, parent_iris, 0, layer, r);
                        st = (add_step(n0, parent_iris, 0, layer).0, layers@, group_layers@);
                    }
                } else {
                    proof {
                        st = (n0, layers@, group_layers@);
                    }
                }
            },
            PsdChild::Group(gid) => {
                if let Some(k) = group_index(groups, gid) {
                    if let Some(group) = group_layers[k].take() {
                        let ghost t1 = *tree;
                        let r = tree.add_fresh(parent_iris, 0, group);
                        let ghost n2 = add_step(n0, parent_iris, 0, group).0;
                        proof {
                            lemma_add_step(t1, *tree, n0, parent_iris, 0, group, r);
                        }
                        if let Some(Ok(group_iris)) = r {
                            let ghost mid = (n2, layers@, group_layers@);
                            add_children(
                                tree,
                                parents,
                                groups,
                                keys,
                                Some(gid),
                                Some(group_iris),
                                layers,
                                group_layers,
                                depth_left - 1,
                                Ghost(n2),
                            );
                            proof {
                                st = psd_level(parents@, groups@, keys@, mid, Some(gid), Some(group_iris), levels);
                            }
                        } else {
                            proof {
                                st = (n2, layers@, group_layers@);
                            }
                        }
                    } else {
                        proof {
                            st = (n0, layers@, group_layers@);
                        }
                    }
                }
            },
        }
        i = i + 1;
    }
    assert(items@.subrange(items@.len() as int, items@.len() as int) =~= Seq::<(usize, PsdChild)>::empty());
}

/// The keys [`group_keys`] computes for `groups`.
pub open spec fn all_group_keys(parents: Seq<Option<u32>>, groups: Seq<PsdGroupInfo>) -> Seq<usize> {
    Seq::new(groups.len(), |k: int| group_key(parents, groups, groups[k].id, parents.len() as nat))
}

/// Fill `tree` with a PSD's layers, keeping group nesting and stacking
/// order. `parents` holds each layer's parent group id by flat index
/// (bottom first) and `layers` its converted layer (`None` when it could
/// not be converted); `groups` describes the group folders and
/// `group_layers` their converted layers, position by position. The
/// children of the document root are inserted as [`psd_level`] describes,
/// with one level more than there are groups, which no file whose every
/// group has a single parent chain to the root can exceed. A document
/// without layers gets its `composite` rendering as a single root layer.
pub fn populate_tree(
    tree: &mut LayerTree,
    parents: &[Option<u32>],
    groups: &[PsdGroupInfo],
    layers: &mut Vec<Option<Layer>>,
    group_layers: &mut Vec<Option<Layer>>,
    composite: Option<Layer>,
)
    requires
        old(tree).wf(),
        groups@.len() < usize::MAX,
        old(group_layers)@.len() == groups@.len(),
    ensures
        final(tree).wf(),
        final(tree).same_canvas(&*old(tree)),
        parents@.len() == 0 ==> final(layers)@ == old(layers)@ && final(group_layers)@ == old(group_layers)@
            && represents(
            *final(tree),
            match composite {
                Some(l) => add_step(nesting_of(*old(tree)), None, 0, l).0,
                None => nesting_of(*old(tree)),
            },
        ),
        parents@.len() > 0 ==> ({
            let r = psd_level(
                parents@,
                groups@,
                all_group_keys(parents@, groups@),
                (nesting_of(*old(tree)), old(layers)@, old(group_layers)@),
                None,
                None,
                groups@.len() + 1,
            );
            &&& represents(*final(tree), r.0)
            &&& final(layers)@ == r.1
            &&& final(group_layers)@ == r.2
        }),
{
    proof {
        lemma_nesting_of(*tree);
    }
    let ghost t0 = *tree;
    if parents.len() == 0 {
        if let Some(l) = composite {
            let r = tree.add_fresh(None, 0, l);
            proof {
                lemma_add_step(t0, *tree, nesting_of(t0), None, 0, l, r);
            }
        }
        return;
    }
    let keys = group_keys(parents, groups);
    assert(keys@ =~= all_group_keys(parents@, groups@));
    add_children(
        tree,
        parents,
        groups,
        keys.as_slice(),
        None,
        None,
        layers,
        group_layers,
        groups.len() + 1,
        Ghost(nesting_of(t0)),
    );
}

} // verus!
