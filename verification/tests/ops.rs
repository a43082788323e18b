use iris::ops::{LayerOp, LayerSnapshot, Op, TileCoord, TileOp};
use iris::snapshot::{OpsError, TileSnapshot};
use iris::undo::{UndoError, UndoStack};
use uuid::Uuid;

fn layer_op() -> Op {
    Op::Layer(LayerOp::Add { parent: None, position: 0, snapshot: LayerSnapshot::from_bytes(vec![1, 2, 3]) })
}

fn tile_op() -> Op {
    let raw = vec![0u8; 64];
    Op::Tile(TileOp::Paint {
        layer_id: Uuid::new_v4().as_u128(),
        tile: TileCoord { tx: 0, ty: 0 },
        before: TileSnapshot::compress(&raw),
        after: TileSnapshot::compress(&raw),
    })
}

#[test]
fn push_then_undo_returns_same_op() {
    let mut stack = UndoStack::new(200);
    let op = layer_op();
    stack.push(op.clone());
    assert_eq!(stack.undo(), Some(op));
}

#[test]
fn undo_empty_stack_returns_none() {
    let mut stack = UndoStack::new(200);
    assert!(stack.undo().is_none());
}

#[test]
fn redo_after_undo_returns_op() {
    let mut stack = UndoStack::new(200);
    let op = tile_op();
    stack.push(op.clone());
    let undone = stack.undo().expect("undo must succeed after push");
    assert_eq!(undone, op);
    assert!(stack.can_redo());
    let redone = stack.redo().expect("redo must succeed after undo");
    assert_eq!(redone, op);
    assert!(!stack.can_redo());
    assert!(stack.can_undo());
}

#[test]
fn depth_limit_drops_oldest() {
    const DEPTH: usize = 200;
    let mut stack = UndoStack::new(DEPTH);
    for _ in 0..=DEPTH {
        stack.push(layer_op());
    }
    let mut count = 0usize;
    while stack.undo().is_some() {
        count += 1;
    }
    assert_eq!(count, DEPTH, "depth={DEPTH} stack must hold exactly {DEPTH} ops");
}

#[test]
fn push_clears_redo_stack() {
    let mut stack = UndoStack::new(200);
    stack.push(layer_op());
    stack.undo();
    assert!(stack.can_redo(), "redo must be possible after undo");
    stack.push(layer_op());
    assert!(!stack.can_redo(), "push must clear the redo stack");
}

#[test]
fn clear_empties_both_stacks() {
    let mut stack = UndoStack::new(200);
    stack.push(layer_op());
    stack.push(layer_op());
    stack.undo();
    stack.clear();
    assert!(!stack.can_undo(), "undo stack must be empty after clear");
    assert!(!stack.can_redo(), "redo stack must be empty after clear");
}

#[test]
fn undo_messages() {
    assert_eq!(UndoError::NothingToUndo.message(), "nothing to undo");
    assert_eq!(UndoError::NothingToRedo.message(), "nothing to redo");
}

#[test]
fn round_trip_small() {
    let raw: Vec<u8> = (0u8..=255).cycle().take(512).collect();
    let snap = TileSnapshot::compress(&raw);
    let out = snap.decompress().expect("valid snapshot must decompress without error");
    assert_eq!(out, raw);
}

#[test]
fn round_trip_full_tile() {
    let raw: Vec<u8> = (0u8..=255).cycle().take(524_288).collect();
    let snap = TileSnapshot::compress(&raw);
    assert!(snap.compressed_len() < raw.len(), "lz4 must compress repeating data below its raw size");
    let out = snap.decompress().expect("full-tile snapshot must decompress without error");
    assert_eq!(out, raw);
}

#[test]
fn corrupt_bytes_return_error() {
    let corrupt = TileSnapshot(vec![0xFF, 0xFF, 0xFF, 0xFF, 0xDE, 0xAD, 0xBE, 0xEF]);
    assert!(corrupt.decompress().is_err(), "corrupted snapshot bytes must return Err(OpsError::Decompression)");
}

#[test]
fn compressed_snapshot_is_not_the_raw_bytes() {
    let raw = vec![7u8; 100];
    let snap = TileSnapshot::compress(&raw);
    assert_ne!(snap.0, raw);
    assert_eq!(&snap.0[0..4], &100u32.to_le_bytes());
    match TileSnapshot(vec![1]).decompress() {
        Err(OpsError::Decompression(m)) => assert!(!m.is_empty()),
        other => panic!("unexpected {other:?}"),
    }
}
