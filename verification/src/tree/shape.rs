//! The nesting of a layer tree as a functional value: each layer as it was
//! added, the root list and every layer's child list, with what one checked
//! insertion ([`LayerTree::add_fresh`]) does to it.

use vstd::prelude::*;

use crate::layer::{Layer, LayerContent};
use crate::ops::LayerId;

use super::{is_group, kids, with_children, LayerTree, LayerTreeError};

verus! {

/// The tracked contents of a tree: layers as added, the root list, and the
/// child list of every layer.
pub type Nesting = (Map<LayerId, Layer>, Seq<LayerId>, Map<LayerId, Seq<LayerId>>);

/// `t` holds exactly the layers of `n`, with its root list and child lists:
/// a layer that is not a group is as it was added, and a group is as it
/// was added but for its children.
pub open spec fn represents(t: LayerTree, n: Nesting) -> bool {
    let (entries, roots, children) = n;
    let m = t.layer_map();
    &&& m.dom() == entries.dom()
    &&& t.roots() == roots
    &&& forall|k: LayerId|
        #[trigger] entries.contains_key(k) ==> {
            &&& children.contains_key(k)
            &&& kids(m, k) == children[k]
            &&& is_group(entries[k]) ==> with_children(entries[k], m[k], children[k])
            &&& !is_group(entries[k]) ==> m[k] == entries[k]
        }
}

/// The nesting `t` is read as before any insertion.
pub open spec fn nesting_of(t: LayerTree) -> Nesting {
    let m = t.layer_map();
    (m, t.roots(), Map::new(|k: LayerId| m.contains_key(k), |k: LayerId| kids(m, k)))
}

/// A tree represents the nesting it is read as.
pub proof fn lemma_nesting_of(t: LayerTree)
    ensures
        represents(t, nesting_of(t)),
{
    let m = t.layer_map();
    assert forall|k: LayerId| #[trigger] m.contains_key(k) implies is_group(m[k]) ==> with_children(
        m[k],
        m[k],
        kids(m, k),
    ) by {}
}

/// `layer` may be offered for insertion: its id is new and, if a group, it
/// has no children yet.
pub open spec fn offerable(entries: Map<LayerId, Layer>, layer: Layer) -> bool {
    &&& !entries.contains_key(layer.id)
    &&& layer.content matches LayerContent::Group { children } ==> children@.len() == 0
}

/// What a checked insertion of `layer` at `position` under `parent` does
/// to nesting `n`, and what it answers: nothing offered (`None`) for a
/// layer that is not [`offerable`], else the tree's answer.
pub open spec fn add_step(n: Nesting, parent: Option<LayerId>, position: usize, layer: Layer) -> (
    Nesting,
    Option<Result<LayerId, LayerTreeError>>,
) {
    let (entries, roots, children) = n;
    let id = layer.id;
    if !offerable(entries, layer) {
        (n, None)
    } else {
        match parent {
            None => if position > roots.len() {
                (n, Some(Err(LayerTreeError::PositionOutOfRange(position))))
            } else {
                (
                    (entries.insert(id, layer), roots.insert(position as int, id), children.insert(id, Seq::empty())),
                    Some(Ok(id)),
                )
            },
            Some(pid) => if !entries.contains_key(pid) || !is_group(entries[pid]) {
                (n, Some(Err(LayerTreeError::NotFound(pid))))
            } else if position > children[pid].len() {
                (n, Some(Err(LayerTreeError::PositionOutOfRange(position))))
            } else {
                (
                    (
                        entries.insert(id, layer),
                        roots,
                        children.insert(pid, children[pid].insert(position as int, id)).insert(id, Seq::empty()),
                    ),
                    Some(Ok(id)),
                )
            },
        }
    }
}

/// [`LayerTree::add_fresh`] follows [`add_step`] on any nesting the tree
/// represents.
pub proof fn lemma_add_step(
    before: LayerTree,
    after: LayerTree,
    n: Nesting,
    parent: Option<LayerId>,
    position: usize,
    layer: Layer,
    r: Option<Result<LayerId, LayerTreeError>>,
)
    requires
        before.wf(),
        represents(before, n),
        ({
            let fresh = !before.layer_map().contains_key(layer.id) && (layer.content matches LayerContent::Group {
                children,
            } ==> children@.len() == 0);
            &&& fresh ==> (r matches Some(res) && before.added(parent, position, layer, res, after))
            &&& !fresh ==> r is None && after.layer_map() == before.layer_map() && after.roots() == before.roots()
        }),
    ensures
        represents(after, add_step(n, parent, position, layer).0),
        r == add_step(n, parent, position, layer).1,
{
    let (entries, roots, children) = n;
    let m = before.layer_map();
    let m2 = after.layer_map();
    let id = layer.id;
    assert(m.contains_key(id) == entries.contains_key(id));
    if !offerable(entries, layer) {
        return;
    }
    let step = add_step(n, parent, position, layer).0;
    match parent {
        None => {
            if position <= roots.len() {
                assert(m2 == m.insert(id, layer));
                assert(m2.dom() =~= step.0.dom());
                assert forall|k: LayerId| #[trigger] step.0.contains_key(k) implies {
                    &&& step.2.contains_key(k)
                    &&& kids(m2, k) == step.2[k]
                    &&& is_group(step.0[k]) ==> with_children(step.0[k], m2[k], step.2[k])
                    &&& !is_group(step.0[k]) ==> m2[k] == step.0[k]
                } by {
                    if k != id {
                        assert(entries.contains_key(k));
                        assert(m2[k] == m[k]);
                        assert(kids(m2, k) == kids(m, k));
                    } else {
                        assert(m2[id] == layer);
                        assert(step.0[id] == layer);
                        assert(step.2[id] == Seq::<LayerId>::empty());
                        assert(kids(m2, id) =~= Seq::<LayerId>::empty());
                    }
                }
            }
        },
        Some(pid) => {
            if entries.contains_key(pid) && is_group(entries[pid]) && position <= children[pid].len() {
                assert(m.contains_key(pid));
                assert(is_group(m[pid]));
                assert(kids(m, pid) == children[pid]);
                assert(m2.dom() =~= step.0.dom());
                assert forall|k: LayerId| #[trigger] step.0.contains_key(k) implies {
                    &&& step.2.contains_key(k)
                    &&& kids(m2, k) == step.2[k]
                    &&& is_group(step.0[k]) ==> with_children(step.0[k], m2[k], step.2[k])
                    &&& !is_group(step.0[k]) ==> m2[k] == step.0[k]
                } by {
                    if k != id && k != pid {
                        assert(entries.contains_key(k));
                        assert(m2[k] == m[k]);
                        assert(kids(m2, k) == kids(m, k));
                    } else if k == id {
                        assert(m2[id] == layer);
                        assert(step.0[id] == layer);
                        assert(step.2[id] == Seq::<LayerId>::empty());
                        assert(kids(m2, id) =~= Seq::<LayerId>::empty());
                    } else {
                        assert(step.0[pid] == entries[pid]);
                        assert(step.2[pid] == children[pid].insert(position as int, id));
                        assert(with_children(m[pid], m2[pid], kids(m, pid).insert(position as int, id)));
                        assert(with_children(entries[pid], m[pid], children[pid]));
                    }
                }
            } else if entries.contains_key(pid) && is_group(entries[pid]) {
                assert(m.contains_key(pid) && is_group(m[pid]) && kids(m, pid) == children[pid]);
            } else if entries.contains_key(pid) {
                assert(m[pid] == entries[pid]);
            }
        },
    }
}

} // verus!
