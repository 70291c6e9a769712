use orinfar::buffer::Buffer;
use orinfar::undo::{Action, ActionType, UndoTree};

fn buffer_of(text: &str, cursor: usize) -> Buffer {
    let mut buffer = Buffer::new();
    buffer.insert_text(text);
    buffer.update_list_reset();
    buffer.cursor = cursor;
    buffer
}

fn top(log: &UndoTree) -> (usize, String) {
    let action = log.actions.last().unwrap();
    match &action.kind {
        ActionType::Insert(t) => (action.position, format!("insert {}", t)),
        ActionType::Delete(t) => (action.position, format!("delete {}", t)),
        ActionType::Replace { positions, original, new } => {
            (action.position, format!("replace {:?} {} {}", positions, original, new))
        }
        ActionType::Neither => (action.position, String::from("neither")),
    }
}

#[test]
fn new_action_always_pushes() {
    let mut log = UndoTree::new();
    assert_eq!(log.len(), 0);
    log.new_action(Action::insert(0, String::from("a")));
    log.new_action(Action::insert(1, String::from("b")));
    log.new_action(Action::delete(1, String::from("b")));
    log.new_action(Action::delete(0, String::from("a")));
    assert_eq!(log.len(), 4);
    assert_eq!(top(&log), (0, String::from("delete a")));
}

#[test]
fn inserts_merge_with_older_position_and_newer_text_first() {
    let mut log = UndoTree::new();
    log.new_action_merge(Action::insert(3, String::from("a")));
    log.new_action_merge(Action::insert(4, String::from("b")));
    log.new_action_merge(Action::insert(5, String::from("cd")));
    assert_eq!(log.len(), 1);
    assert_eq!(top(&log), (3, String::from("insert cdba")));
}

#[test]
fn deletes_merge_with_newer_position_and_newer_text_first() {
    let mut log = UndoTree::new();
    log.new_action_merge(Action::delete(5, String::from("c")));
    log.new_action_merge(Action::delete(4, String::from("b")));
    log.new_action_merge(Action::delete(3, String::from("a")));
    assert_eq!(log.len(), 1);
    assert_eq!(top(&log), (3, String::from("delete abc")));
}

#[test]
fn different_kinds_do_not_merge() {
    let mut log = UndoTree::new();
    log.new_action_merge(Action::insert(0, String::from("a")));
    log.new_action_merge(Action::delete(0, String::from("a")));
    log.new_action_merge(Action::insert(0, String::from("b")));
    log.new_action_merge(Action::neither(4));
    log.new_action_merge(Action::neither(4));
    log.new_action_merge(Action::insert(0, String::from("c")));
    assert_eq!(log.len(), 6);
}

#[test]
fn replace_merges_only_with_its_duplicate() {
    let mut log = UndoTree::new();
    log.new_action_merge(Action::replace(vec![2], String::from("a"), String::from("b")));
    log.new_action_merge(Action::replace(vec![2], String::from("a"), String::from("b")));
    assert_eq!(log.len(), 1);
    log.new_action_merge(Action::replace(vec![3], String::from("a"), String::from("b")));
    assert_eq!(log.len(), 2);
    log.new_action_merge(Action::replace(vec![3], String::from("a"), String::from("c")));
    assert_eq!(log.len(), 3);
    log.new_action_merge(Action::replace(vec![3], String::from("x"), String::from("c")));
    assert_eq!(log.len(), 4);
    log.new_action_merge(Action::replace(vec![3, 4], String::from("x"), String::from("c")));
    assert_eq!(log.len(), 5);
    assert_eq!(top(&log), (0, String::from("replace [3, 4] x c")));
}

#[test]
fn undo_insert_removes_the_text() {
    let mut buffer = buffer_of("abXYZcd", 6);
    let mut log = UndoTree::new();
    log.new_action(Action::insert(2, String::from("XYZ")));
    log.undo(&mut buffer);
    assert_eq!(buffer.to_string(), "abcd");
    assert_eq!(buffer.cursor, 2);
    assert_eq!(log.len(), 0);
    assert!(buffer.has_changed);
    assert_eq!(buffer.lines_for_updating, vec![true]);
}

#[test]
fn undo_delete_puts_the_text_back() {
    let mut buffer = buffer_of("ab\ncd", 0);
    let mut log = UndoTree::new();
    log.new_action(Action::delete(3, String::from("x\ny")));
    log.undo(&mut buffer);
    assert_eq!(buffer.to_string(), "ab\nx\nycd");
    assert_eq!(buffer.cursor, 3);
    assert_eq!(buffer.lines_for_updating, vec![true, true, true]);
}

#[test]
fn undo_replace_puts_the_original_back() {
    let mut buffer = buffer_of("xyz bb xyz", 1);
    let mut log = UndoTree::new();
    log.new_action(Action::replace(vec![3, 10], String::from("aa"), String::from("xyz")));
    log.undo(&mut buffer);
    assert_eq!(buffer.to_string(), "aa bb aa");
    assert_eq!(buffer.cursor, 1);
    assert_eq!(log.len(), 0);
}

#[test]
fn undo_neither_moves_the_cursor() {
    let mut buffer = buffer_of("abcdef", 1);
    let mut log = UndoTree::new();
    log.new_action(Action::neither(4));
    log.new_action(Action::neither(40));
    log.undo(&mut buffer);
    assert_eq!(buffer.cursor, 6);
    log.undo(&mut buffer);
    assert_eq!(buffer.cursor, 4);
    assert_eq!(buffer.to_string(), "abcdef");
}

#[test]
fn undo_keeps_within_the_document() {
    let mut buffer = buffer_of("abc", 0);
    let mut log = UndoTree::new();
    log.new_action(Action::insert(2, String::from("long text")));
    log.undo(&mut buffer);
    assert_eq!(buffer.to_string(), "ab");
    assert_eq!(buffer.cursor, 2);
    log.new_action(Action::insert(9, String::from("x")));
    log.undo(&mut buffer);
    assert_eq!(buffer.to_string(), "ab");
    assert_eq!(buffer.cursor, 2);
    log.new_action(Action::delete(9, String::from("cd")));
    log.undo(&mut buffer);
    assert_eq!(buffer.to_string(), "abcd");
    assert_eq!(buffer.cursor, 2);
}

#[test]
fn undo_on_empty_log_changes_nothing() {
    let mut buffer = buffer_of("abc", 1);
    let mut log = UndoTree::new();
    log.undo(&mut buffer);
    assert_eq!(buffer.to_string(), "abc");
    assert_eq!(buffer.cursor, 1);
    assert!(!buffer.has_changed);
    assert_eq!(buffer.lines_for_updating, vec![false]);
}

#[test]
fn action_copies() {
    let action = Action::replace(vec![1, 2], String::from("a"), String::from("b"));
    let copy = action.clone_value();
    assert_eq!(copy.position, 0);
    match copy.kind {
        ActionType::Replace { positions, original, new } => {
            assert_eq!(positions, vec![1, 2]);
            assert_eq!(original, "a");
            assert_eq!(new, "b");
        }
        _ => panic!("another kind"),
    }
    assert!(matches!(Action::insert(3, String::from("t")).clone_value().kind, ActionType::Insert(_)));
    assert!(matches!(Action::delete(3, String::from("t")).clone_value().kind, ActionType::Delete(_)));
    assert_eq!(Action::neither(7).clone_value().position, 7);
}
