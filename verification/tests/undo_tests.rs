use velo::undo::{
    record_copy, record_create_dir, record_create_file, record_move, record_rename, UndoAction,
    UndoStack,
};

#[test]
fn test_undo_stack_push_and_count() {
    let mut stack = UndoStack::new();
    assert_eq!(stack.undo_count(), 0);
    assert!(!stack.can_undo());
    stack.push(record_create_file("/tmp/x"));
    assert_eq!(stack.undo_count(), 1);
    assert!(stack.can_undo());
}

#[test]
fn test_undo_clears_redo() {
    let mut stack = UndoStack::new();
    stack.push(record_create_file("/tmp/x"));
    stack.redo.push(record_create_file("/tmp/y"));
    assert!(stack.can_redo());
    stack.push(record_create_file("/tmp/z"));
    assert!(!stack.can_redo());
}

#[test]
fn test_nothing_to_undo() {
    let mut stack = UndoStack::new();
    assert!(stack.undo().is_err());
}

#[test]
fn test_nothing_to_redo() {
    let mut stack = UndoStack::new();
    assert!(stack.redo().is_err());
}

#[test]
fn test_max_size() {
    let mut stack = UndoStack::new();
    for i in 0..150 {
        stack.push(record_create_file(&format!("/tmp/{i}")));
    }
    assert!(stack.undo_count() <= 100);
}

#[test]
fn test_action_descriptions() {
    let a = record_copy("/tmp/file.txt");
    assert!(a.description().contains("Copy"));

    let a = record_move("/a", "/b");
    assert!(a.description().contains("/a"));

    let a = record_rename("/dir/old.txt", "/dir/new.txt");
    assert!(a.description().contains("Rename"));

    let a = record_create_file("/tmp/x");
    assert!(a.description().contains("Create"));

    let a = record_create_dir("/tmp/d");
    assert!(a.description().contains("dir"));
}

#[test]
fn test_last_undo_desc() {
    let mut stack = UndoStack::new();
    assert!(stack.last_undo_desc().is_none());
    stack.push(record_create_file("/tmp/x"));
    assert!(stack.last_undo_desc().is_some());
}

#[test]
fn undo_error_messages_and_stacks_untouched() {
    let mut stack = UndoStack::new();
    assert_eq!(stack.undo().unwrap_err(), "Nothing to undo");
    assert_eq!(stack.redo().unwrap_err(), "Nothing to redo");
    assert_eq!(stack.undo_count(), 0);
    assert_eq!(stack.redo_count(), 0);
}

#[test]
fn undo_then_redo_restores_a_move_record() {
    // The bookkeeping round trip behind undo/redo of a move: undoing
    // books the reversed move on the redo side, and redoing books
    // the forward move once more.
    let mut stack = UndoStack::new();
    stack.push(record_move("/tmp/from.txt", "/tmp/to.txt"));
    let msg = stack.undo().unwrap();
    assert!(msg.starts_with("Undo: "));
    assert_eq!(stack.undo_count(), 0);
    assert_eq!(stack.redo_count(), 1);
    let msg = stack.redo().unwrap();
    assert!(msg.starts_with("Redo: "));
    assert_eq!(stack.undo_count(), 1);
    assert_eq!(stack.redo_count(), 0);
    match stack.undo_target().unwrap() {
        UndoAction::Move { src, dest } => {
            assert_eq!(src, "/tmp/from.txt");
            assert_eq!(dest, "/tmp/to.txt");
        }
        _ => panic!("expected a move record"),
    }
}

#[test]
fn rename_description_uses_file_names() {
    let a = record_rename("/dir/old.txt", "/dir/new.txt");
    assert_eq!(a.description(), "Rename old.txt → new.txt");
}

#[test]
fn inverse_swaps_rename_ends() {
    let a = record_rename("/d/a", "/d/b");
    match a.inverse() {
        UndoAction::Rename { old_path, new_path } => {
            assert_eq!(old_path, "/d/b");
            assert_eq!(new_path, "/d/a");
        }
        _ => panic!("expected a rename record"),
    }
    let c = record_copy("/d/c");
    match c.inverse() {
        UndoAction::CreateFile { path } => assert_eq!(path, "/d/c"),
        _ => panic!("expected a create record"),
    }
}
