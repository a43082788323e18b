//! [`UndoStack`]: in-memory undo/redo history with a depth limit.

use std::collections::VecDeque;

use vstd::prelude::*;

use crate::ops::{Op, OpModel};

verus! {

/// Bounded history of operations for undo and redo.
#[derive(Debug, Clone)]
pub struct UndoStack {
    depth: usize,
    undo: VecDeque<Op>,
    redo: VecDeque<Op>,
}

/// The values of a sequence of operations.
pub open spec fn models(s: Seq<Op>) -> Seq<OpModel> {
    s.map_values(|op: Op| op@)
}

impl UndoStack {
    /// The undoable operations, oldest first (the last one is undone next).
    pub closed spec fn undo_ops(&self) -> Seq<OpModel> {
        models(self.undo@)
    }

    /// The redoable operations, the last one is redone next.
    pub closed spec fn redo_ops(&self) -> Seq<OpModel> {
        models(self.redo@)
    }

    /// The maximum number of undoable operations.
    pub closed spec fn spec_depth(&self) -> usize {
        self.depth
    }

    /// `after` is `self` with `op` recorded: the redo stack is cleared and,
    /// when the undo stack would exceed the depth, its oldest entry dropped.
    pub open spec fn pushed(self, op: OpModel, after: UndoStack) -> bool {
        &&& after.spec_depth() == self.spec_depth()
        &&& after.redo_ops() == Seq::<OpModel>::empty()
        &&& after.undo_ops() == if self.undo_ops().len() + 1 > self.spec_depth() {
            self.undo_ops().push(op).drop_first()
        } else {
            self.undo_ops().push(op)
        }
    }

    /// `after` is `self` after an undo that returned `r`: the newest undoable
    /// operation moves to the redo stack and is returned.
    pub open spec fn undone(self, r: Option<OpModel>, after: UndoStack) -> bool {
        &&& after.spec_depth() == self.spec_depth()
        &&& match r {
            Some(op) => {
                &&& self.undo_ops().len() > 0
                &&& op == self.undo_ops().last()
                &&& after.undo_ops() == self.undo_ops().drop_last()
                &&& after.redo_ops() == self.redo_ops().push(op)
            },
            None => {
                &&& self.undo_ops().len() == 0
                &&& after.undo_ops() == self.undo_ops()
                &&& after.redo_ops() == self.redo_ops()
            },
        }
    }

    /// `after` is `self` after a redo that returned `r`: the newest redoable
    /// operation moves back to the undo stack and is returned.
    pub open spec fn redone(self, r: Option<OpModel>, after: UndoStack) -> bool {
        &&& after.spec_depth() == self.spec_depth()
        &&& match r {
            Some(op) => {
                &&& self.redo_ops().len() > 0
                &&& op == self.redo_ops().last()
                &&& after.redo_ops() == self.redo_ops().drop_last()
                &&& after.undo_ops() == self.undo_ops().push(op)
            },
            None => {
                &&& self.redo_ops().len() == 0
                &&& after.undo_ops() == self.undo_ops()
                &&& after.redo_ops() == self.redo_ops()
            },
        }
    }

    /// Create a new stack with the given maximum undo depth (0 keeps no
    /// history).
    pub fn new(depth: usize) -> (r: UndoStack)
        ensures
            r.undo_ops() == Seq::<OpModel>::empty(),
            r.redo_ops() == Seq::<OpModel>::empty(),
            r.spec_depth() == depth,
    {
        let r = UndoStack { depth, undo: VecDeque::new(), redo: VecDeque::new() };
        assert(r.undo_ops() =~= Seq::<OpModel>::empty());
        assert(r.redo_ops() =~= Seq::<OpModel>::empty());
        r
    }

    /// Record a new operation.
    ///
    /// Clears the redo stack (history does not branch) and, when the undo
    /// stack then holds more than `depth` operations, discards the oldest.
    pub fn push(&mut self, op: Op)
        ensures
            old(self).pushed(op@, *final(self)),
    {
        let ghost opm = op@;
        self.redo.clear();
        self.undo.push_back(op);
        assert(models(self.undo@) =~= models(old(self).undo@).push(opm));
        if self.undo.len() > self.depth {
            let ghost before = self.undo@;
            let _ = self.undo.pop_front();
            assert(models(self.undo@) =~= models(before).drop_first());
        }
        assert(models(self.redo@) =~= Seq::<OpModel>::empty());
    }

    /// Undo the most recent operation: returns it (so the caller can apply its
    /// `before` state) and moves a copy onto the redo stack; `None` when there
    /// is nothing to undo.
    pub fn undo(&mut self) -> (r: Option<Op>)
        ensures
            old(self).undone(
                match r {
                    Some(op) => Some(op@),
                    None => None,
                },
                *final(self),
            ),
    {
        match self.undo.pop_back() {
            Some(op) => {
                assert(models(self.undo@) =~= models(old(self).undo@).drop_last());
                let copy = op.clone();
                self.redo.push_back(copy);
                assert(models(self.redo@) =~= models(old(self).redo@).push(op@));
                Some(op)
            },
            None => None,
        }
    }

    /// Redo the most recently undone operation: returns it (so the caller can
    /// re-apply its `after` state) and moves a copy back onto the undo stack;
    /// `None` when there is nothing to redo.
    pub fn redo(&mut self) -> (r: Option<Op>)
        ensures
            old(self).redone(
                match r {
                    Some(op) => Some(op@),
                    None => None,
                },
                *final(self),
            ),
    {
        match self.redo.pop_back() {
            Some(op) => {
                assert(models(self.redo@) =~= models(old(self).redo@).drop_last());
                let copy = op.clone();
                self.undo.push_back(copy);
                assert(models(self.undo@) =~= models(old(self).undo@).push(op@));
                Some(op)
            },
            None => None,
        }
    }

    /// Whether at least one operation can be undone.
    pub fn can_undo(&self) -> (r: bool)
        ensures
            r == (self.undo_ops().len() > 0),
    {
        self.undo.len() > 0
    }

    /// Whether at least one operation can be redone.
    pub fn can_redo(&self) -> (r: bool)
        ensures
            r == (self.redo_ops().len() > 0),
    {
        self.redo.len() > 0
    }

    /// Forget all history, both undoable and redoable.
    pub fn clear(&mut self)
        ensures
            final(self).spec_depth() == old(self).spec_depth(),
            final(self).undo_ops() == Seq::<OpModel>::empty(),
            final(self).redo_ops() == Seq::<OpModel>::empty(),
    {
        self.undo.clear();
        self.redo.clear();
        assert(models(self.undo@) =~= Seq::<OpModel>::empty());
        assert(models(self.redo@) =~= Seq::<OpModel>::empty());
    }
}

/// Errors of the undo/redo engine, for callers that prefer a `Result` over
/// the `Option` that [`UndoStack::undo`] and [`UndoStack::redo`] return.
#[derive(Debug, Clone, Copy, PartialEq, Eq, Structural)]
pub enum UndoError {
    /// There is nothing left to undo.
    NothingToUndo,
    /// There is nothing left to redo.
    NothingToRedo,
}

impl UndoError {
    /// The error's message.
    pub fn message(&self) -> (r: &'static str)
        ensures
            r@ == match self {
                UndoError::NothingToUndo => "nothing to undo"@,
                UndoError::NothingToRedo => "nothing to redo"@,
            },
    {
        match self {
            UndoError::NothingToUndo => "nothing to undo",
            UndoError::NothingToRedo => "nothing to redo",
        }
    }
}

/// Pushing an operation and then undoing returns that operation, provided
/// the depth keeps any history at all.
pub proof fn law_push_then_undo(
    s0: UndoStack,
    op: OpModel,
    s1: UndoStack,
    r: Option<OpModel>,
    s2: UndoStack,
)
    requires
        s0.spec_depth() > 0,
        s0.pushed(op, s1),
        s1.undone(r, s2),
    ensures
        r == Some(op),
        s2.redo_ops() == seq![op],
{
    if s0.undo_ops().len() + 1 > s0.spec_depth() {
        assert(s1.undo_ops().len() == s0.undo_ops().len());
        assert(s1.undo_ops().last() == op);
    }
    assert(s2.redo_ops() =~= seq![op]);
}

/// Undoing and then redoing restores both stacks and hands back the same
/// operation.
pub proof fn law_undo_then_redo(
    s0: UndoStack,
    op: OpModel,
    s1: UndoStack,
    r: Option<OpModel>,
    s2: UndoStack,
)
    requires
        s0.undone(Some(op), s1),
        s1.redone(r, s2),
    ensures
        r == Some(op),
        s2.undo_ops() == s0.undo_ops(),
        s2.redo_ops() == s0.redo_ops(),
{
    assert(s2.undo_ops() =~= s0.undo_ops());
    assert(s2.redo_ops() =~= s0.redo_ops());
}

/// The history never holds more than `depth` operations in total: pushing,
/// undoing and redoing keep `undo + redo ≤ depth`.
pub proof fn law_depth_bound(s0: UndoStack, op: OpModel, r: Option<OpModel>, s1: UndoStack)
    requires
        s0.undo_ops().len() + s0.redo_ops().len() <= s0.spec_depth(),
        s0.pushed(op, s1) || s0.undone(r, s1) || s0.redone(r, s1),
    ensures
        s1.undo_ops().len() + s1.redo_ops().len() <= s1.spec_depth(),
{
}

} // verus!
