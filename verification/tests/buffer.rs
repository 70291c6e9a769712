use orinfar::buffer::Buffer;
use orinfar::undo::UndoTree;

fn buffer_of(text: &str, cursor: usize) -> Buffer {
    let mut buffer = Buffer::new();
    buffer.insert_text(text);
    buffer.update_list_reset();
    buffer.cursor = cursor;
    buffer
}

fn check(buffer: &Buffer) {
    let text = buffer.to_string();
    assert!(buffer.cursor <= text.chars().count());
    assert_eq!(
        buffer.lines_for_updating.len(),
        text.chars().filter(|c| *c == '\n').count() + 1
    );
}

#[test]
fn new_buffer_is_one_empty_line() {
    let buffer = Buffer::new();
    assert_eq!(buffer.to_string(), "");
    assert_eq!(buffer.cursor, 0);
    assert_eq!(buffer.len(), 1);
    assert_eq!(buffer.lines_for_updating, vec![true]);
    assert!(buffer.has_changed);
    assert!(buffer.is_empty_line());
    assert!(buffer.is_last_row());
    assert!(buffer.is_first_row());
    assert!(buffer.is_last_col());
    assert!(!buffer.is_last_char());
}

#[test]
fn clear_empties_and_resets() {
    let mut buffer = buffer_of("ab\ncd", 4);
    buffer.clear();
    assert_eq!(buffer.to_string(), "");
    assert_eq!(buffer.cursor, 0);
    assert_eq!(buffer.lines_for_updating, vec![true]);
    check(&buffer);
}

#[test]
fn clone_shares_text_and_cursor() {
    let buffer = buffer_of("ab\ncd", 3);
    let mut copy = buffer.clone();
    assert_eq!(copy.to_string(), "ab\ncd");
    assert_eq!(copy.cursor, 3);
    copy.insert_char('x');
    assert_eq!(copy.to_string(), "ab\nxcd");
    assert_eq!(buffer.to_string(), "ab\ncd");
}

#[test]
fn load_replaces_document_and_clamps_cursor() {
    let mut buffer = buffer_of("a long first text", 12);
    buffer.update_list_reset();
    buffer.load("ab\ncd\n");
    assert_eq!(buffer.to_string(), "ab\ncd\n");
    assert_eq!(buffer.cursor, 6);
    assert_eq!(buffer.lines_for_updating, vec![true, true, true]);
    assert!(buffer.has_changed);
    buffer.cursor = 2;
    buffer.load("xyz");
    assert_eq!(buffer.cursor, 2);
}

#[test]
fn insert_char_keeps_cursor() {
    let mut buffer = buffer_of("ac", 1);
    buffer.insert_char('b');
    assert_eq!(buffer.to_string(), "abc");
    assert_eq!(buffer.cursor, 1);
    assert_eq!(buffer.lines_for_updating, vec![false]);
    assert!(!buffer.has_changed);
}

#[test]
fn insert_line_feed_adds_a_flag() {
    let mut buffer = buffer_of("ab\ncd\nef", 4);
    buffer.insert_char('\n');
    assert_eq!(buffer.to_string(), "ab\nc\nd\nef");
    assert_eq!(buffer.lines_for_updating, vec![false, true, true, true]);
    assert!(buffer.has_changed);
    check(&buffer);
}

#[test]
fn insert_char_n_times_repeats() {
    let mut buffer = buffer_of("ab", 1);
    buffer.insert_char_n_times('-', 3);
    assert_eq!(buffer.to_string(), "a---b");
    assert_eq!(buffer.cursor, 1);
    buffer.insert_char_n_times('x', 0);
    assert_eq!(buffer.to_string(), "a---b");
    buffer.insert_char_n_times('\n', 2);
    assert_eq!(buffer.to_string(), "a\n\n---b");
    assert_eq!(buffer.lines_for_updating.len(), 3);
    check(&buffer);
}

#[test]
fn delete_curr_char_removes_under_cursor() {
    let mut buffer = buffer_of("abc", 1);
    buffer.delete_curr_char();
    assert_eq!(buffer.to_string(), "ac");
    assert_eq!(buffer.cursor, 1);
    assert_eq!(buffer.lines_for_updating, vec![false]);
}

#[test]
fn delete_curr_char_at_end_does_nothing() {
    let mut buffer = buffer_of("abc", 3);
    buffer.delete_curr_char();
    assert_eq!(buffer.to_string(), "abc");
    assert_eq!(buffer.cursor, 3);
    let mut empty = Buffer::new();
    empty.delete_curr_char();
    assert_eq!(empty.to_string(), "");
}

#[test]
fn delete_line_feed_merges_flags() {
    let mut buffer = buffer_of("ab\ncd\nef\ngh", 5);
    buffer.delete_curr_char();
    assert_eq!(buffer.to_string(), "ab\ncdef\ngh");
    assert_eq!(buffer.lines_for_updating, vec![true, true, true]);
    let mut buffer = buffer_of("ab\ncd\nef\ngh", 8);
    buffer.delete_curr_char();
    assert_eq!(buffer.lines_for_updating, vec![false, true, true]);
    assert!(buffer.has_changed);
    check(&buffer);
}

#[test]
fn replace_curr_char_flags_its_line() {
    let mut buffer = buffer_of("ab\ncd", 3);
    buffer.replace_curr_char('X');
    assert_eq!(buffer.to_string(), "ab\nXd");
    assert_eq!(buffer.cursor, 3);
    assert_eq!(buffer.lines_for_updating, vec![false, true]);
    assert!(buffer.has_changed);
}

#[test]
fn replace_with_and_of_line_feed_keeps_flags_in_step() {
    let mut buffer = buffer_of("ab\ncd", 2);
    buffer.replace_curr_char('-');
    assert_eq!(buffer.to_string(), "ab-cd");
    check(&buffer);
    buffer.replace_curr_char('\n');
    assert_eq!(buffer.to_string(), "ab\ncd");
    check(&buffer);
}

#[test]
fn insert_newline_copies_indentation() {
    let mut buffer = buffer_of("    foo bar", 7);
    let inserted = buffer.insert_newline();
    assert_eq!(inserted, "\n    ");
    assert_eq!(buffer.to_string(), "    foo\n     bar");
    assert_eq!(buffer.cursor, 12);
    check(&buffer);
    let mut buffer = buffer_of("a\n  b", 5);
    let inserted = buffer.insert_newline();
    assert_eq!(inserted, "\n  ");
    assert_eq!(buffer.to_string(), "a\n  b\n  ");
    assert_eq!(buffer.cursor, 8);
    let mut buffer = buffer_of("ab", 1);
    assert_eq!(buffer.insert_newline(), "\n");
    assert_eq!(buffer.cursor, 2);
}

#[test]
fn char_queries() {
    let buffer = buffer_of("abc", 1);
    assert_eq!(buffer.get_curr_char(), 'b');
    assert_eq!(buffer.get_next_char(), Some('c'));
    assert_eq!(buffer.get_prev_char(), Some('a'));
    assert!(!buffer.is_last_char());
    let buffer = buffer_of("abc", 2);
    assert_eq!(buffer.get_next_char(), None);
    assert!(buffer.is_last_char());
    assert!(buffer.is_last_col());
    let buffer = buffer_of("abc", 0);
    assert_eq!(buffer.get_prev_char(), None);
    let buffer = buffer_of("abc", 3);
    assert_eq!(buffer.get_next_char(), None);
    assert_eq!(buffer.get_prev_char(), Some('c'));
}

#[test]
fn next_and_prev_char_stop_at_bounds() {
    let mut buffer = buffer_of("ab", 0);
    assert_eq!(buffer.next_and_char(), Some('b'));
    assert_eq!(buffer.cursor, 1);
    assert_eq!(buffer.next_and_char(), None);
    assert_eq!(buffer.cursor, 2);
    assert_eq!(buffer.next_and_char(), None);
    assert_eq!(buffer.cursor, 2);
    assert_eq!(buffer.next_char(), None);
    assert_eq!(buffer.cursor, 2);
    assert_eq!(buffer.prev_char(), Some('b'));
    assert_eq!(buffer.prev_char(), Some('a'));
    assert_eq!(buffer.prev_char(), None);
    assert_eq!(buffer.cursor, 0);
    assert_eq!(buffer.next_char(), Some('b'));
    assert_eq!(buffer.cursor, 1);
}

#[test]
fn rows_and_columns() {
    let buffer = buffer_of("ab\ncde\n\nf", 5);
    assert_eq!(buffer.get_row(), 1);
    assert_eq!(buffer.get_col(), 2);
    assert_eq!(buffer.len(), 4);
    assert_eq!(buffer.get_start_of_line(), 3);
    assert_eq!(buffer.get_end_of_line(), 6);
    assert_eq!(buffer.get_start_of_n_line(0), 0);
    assert_eq!(buffer.get_start_of_n_line(2), 7);
    assert_eq!(buffer.get_start_of_n_line(3), 8);
    assert_eq!(buffer.get_start_of_n_line(4), 9);
    assert_eq!(buffer.get_start_of_char_line(6), 3);
    assert_eq!(buffer.get_start_of_char_line(7), 7);
    assert_eq!(buffer.get_end_of_n_line(0), 2);
    assert_eq!(buffer.get_end_of_n_line(2), 7);
    assert_eq!(buffer.get_end_of_n_line(3), 8);
    assert!(!buffer.is_last_row());
    assert!(!buffer.is_first_row());
    assert!(!buffer.is_empty_line());
}

#[test]
fn end_of_line_is_the_line_feed_or_the_last_character() {
    let buffer = buffer_of("abc\n", 1);
    assert_eq!(buffer.get_end_of_line(), 3);
    let buffer = buffer_of("abc", 1);
    assert_eq!(buffer.get_end_of_line(), 2);
    let buffer = buffer_of("abc", 3);
    assert_eq!(buffer.get_end_of_line(), 2);
    let buffer = buffer_of("abc\n", 4);
    assert_eq!(buffer.get_end_of_line(), 4);
    let buffer = buffer_of("", 0);
    assert_eq!(buffer.get_end_of_line(), 0);
    assert_eq!(buffer.line_stop_from(0), 0);
    assert_eq!(buffer.line_limit_from(0), 0);
    let buffer = buffer_of("ab\ncd", 0);
    assert_eq!(buffer.line_limit_from(0), 3);
    assert_eq!(buffer.line_limit_from(3), 5);
}

#[test]
fn empty_line_holds_only_its_line_feed() {
    assert!(buffer_of("a\n\nb", 2).is_empty_line());
    assert!(!buffer_of("a\n\nb", 0).is_empty_line());
    assert!(!buffer_of("a\n\nb", 3).is_empty_line());
    assert!(buffer_of("a\n", 2).is_empty_line());
    assert!(!buffer_of("a\nb\n", 2).is_empty_line());
}

#[test]
fn set_col_stays_in_document() {
    let mut buffer = buffer_of("abc\ndef", 5);
    buffer.set_col(0);
    assert_eq!(buffer.cursor, 4);
    buffer.set_col(2);
    assert_eq!(buffer.cursor, 6);
    buffer.set_col(100);
    assert_eq!(buffer.cursor, 7);
    buffer.set_col(usize::MAX);
    assert_eq!(buffer.cursor, 7);
}

#[test]
fn set_row_keeps_column_or_stops_at_line_end() {
    let mut buffer = buffer_of("abcdef\nab\nabcd", 4);
    buffer.set_row(1);
    assert_eq!(buffer.cursor, 9);
    buffer.set_row(2);
    assert_eq!(buffer.cursor, 12);
    buffer.set_row(0);
    assert_eq!(buffer.cursor, 2);
    buffer.set_row(0);
    assert_eq!(buffer.cursor, 2);
    buffer.set_row(3);
    assert_eq!(buffer.cursor, 2);
    buffer.set_row(usize::MAX);
    assert_eq!(buffer.cursor, 2);
    buffer.cursor = 5;
    buffer.set_row(2);
    assert_eq!(buffer.cursor, 13);
}

#[test]
fn prev_and_next_line() {
    let mut buffer = buffer_of("ab\ncd\nef", 4);
    buffer.prev_line();
    assert_eq!(buffer.cursor, 1);
    buffer.prev_line();
    assert_eq!(buffer.cursor, 1);
    buffer.next_line();
    buffer.next_line();
    assert_eq!(buffer.cursor, 7);
    buffer.next_line();
    assert_eq!(buffer.cursor, 7);
}

#[test]
fn start_and_end_of_line_move_cursor() {
    let mut buffer = buffer_of("ab\ncdef\ngh", 5);
    buffer.start_of_line();
    assert_eq!(buffer.cursor, 3);
    buffer.end_of_line();
    assert_eq!(buffer.cursor, 7);
    buffer.cursor = 10;
    buffer.end_of_line();
    assert_eq!(buffer.cursor, 9);
}

#[test]
fn first_non_whitespace() {
    let buffer = buffer_of("ab\n   cd", 7);
    assert_eq!(buffer.first_non_whitespace_col(), 3);
    assert_eq!(buffer.get_first_non_whitespace_col(), 6);
    let buffer = buffer_of("ab", 1);
    assert_eq!(buffer.first_non_whitespace_col(), 0);
    let buffer = buffer_of("  ", 1);
    assert_eq!(buffer.first_non_whitespace_col(), 2);
    let buffer = buffer_of("\t x", 0);
    assert_eq!(buffer.first_non_whitespace_col(), 2);
}

#[test]
fn line_texts() {
    let buffer = buffer_of("ab\ncdef\ngh", 5);
    assert_eq!(buffer.get_curr_line(), "cdef\n");
    assert_eq!(buffer.get_until_end_of_line(), "ef\n");
    assert_eq!(buffer.slice_to_string(1, 4), "b\nc");
    assert_eq!(buffer.find_char_in_current_line('e'), Some(2));
    assert_eq!(buffer.find_char_in_current_line('\n'), Some(4));
    assert_eq!(buffer.find_char_in_current_line('g'), None);
    let buffer = buffer_of("ab\ncdef\ngh", 9);
    assert_eq!(buffer.get_curr_line(), "gh");
    assert_eq!(buffer.get_until_end_of_line(), "h");
}

#[test]
fn remove_n_line_takes_line_and_flag() {
    let mut buffer = buffer_of("ab\ncd\nef", 7);
    buffer.remove_n_line(1);
    assert_eq!(buffer.to_string(), "ab\nef");
    assert_eq!(buffer.cursor, 5);
    assert_eq!(buffer.lines_for_updating, vec![false, true]);
    check(&buffer);
    buffer.remove_n_line(1);
    assert_eq!(buffer.to_string(), "ab\n");
    assert_eq!(buffer.cursor, 3);
    check(&buffer);
    buffer.remove_n_line(1);
    assert_eq!(buffer.to_string(), "ab\n");
    buffer.remove_n_line(0);
    assert_eq!(buffer.to_string(), "");
    assert_eq!(buffer.cursor, 0);
    check(&buffer);
}

#[test]
fn spaces_before_cursor_and_alignment() {
    let buffer = buffer_of("ab      ", 7);
    assert_eq!(buffer.count_spaces_backwards(), 6);
    let buffer = buffer_of("   ", 2);
    assert_eq!(buffer.count_spaces_backwards(), 2);
    let buffer = buffer_of("ab ", 1);
    assert_eq!(buffer.count_spaces_backwards(), 0);
    let buffer = buffer_of("ab ", 3);
    assert_eq!(buffer.count_spaces_backwards(), 0);
    let mut buffer = buffer_of("ab      ", 7);
    assert_eq!(buffer.delete_to_4_spaces_alignment(6), "  ");
    assert_eq!(buffer.to_string(), "ab    ");
    assert_eq!(buffer.cursor, 6);
    buffer.cursor = 5;
    assert_eq!(buffer.delete_to_4_spaces_alignment(4), "    ");
    assert_eq!(buffer.to_string(), "ab");
    assert_eq!(buffer.cursor, 2);
    let mut buffer = buffer_of("x         ", 9);
    assert_eq!(buffer.delete_to_4_spaces_alignment(9), " ");
    assert_eq!(buffer.delete_to_4_spaces_alignment(0), "");
    assert_eq!(buffer.to_string(), "x        ");
    buffer.cursor = 8;
    assert_eq!(buffer.delete_to_4_spaces_alignment(8), "    ");
    assert_eq!(buffer.cursor, 5);
    buffer.cursor = 4;
    assert_eq!(buffer.delete_to_4_spaces_alignment(3), "   ");
    assert_eq!(buffer.to_string(), "x ");
}

#[test]
fn find_occurrences_gives_end_offsets() {
    let buffer = buffer_of("aa bb aa", 0);
    assert_eq!(buffer.find_occurrences(&vec!['a', 'a']), vec![2, 8]);
    assert_eq!(buffer.find_occurrences(&vec!['b']), vec![4, 5]);
    assert_eq!(buffer.find_occurrences(&vec!['x']), Vec::<usize>::new());
    assert_eq!(buffer.find_occurrences(&vec![]), Vec::<usize>::new());
    let buffer = buffer_of("aaaaa", 0);
    assert_eq!(buffer.find_occurrences(&vec!['a', 'a']), vec![2, 4]);
    let buffer = buffer_of("a b a", 0);
    assert_eq!(buffer.find_occurrences(&vec!['a', 'a']), Vec::<usize>::new());
    let buffer = buffer_of("ab", 0);
    assert_eq!(buffer.find_occurrences(&vec!['a', 'b', 'c']), Vec::<usize>::new());
}

#[test]
fn replace_text_shifts_later_offsets() {
    let mut buffer = buffer_of("aa bb aa", 7);
    let mut log = UndoTree::new();
    buffer.update_list_reset();
    buffer.replace_text("xyz", "aa", &vec![2, 8], &mut log, false);
    assert_eq!(buffer.to_string(), "xyz bb xyz");
    assert_eq!(buffer.cursor, 7);
    assert_eq!(log.len(), 1);
    assert!(buffer.has_changed);
    assert_eq!(buffer.lines_for_updating, vec![true]);
    log.undo(&mut buffer);
    assert_eq!(buffer.to_string(), "aa bb aa");
    assert_eq!(log.len(), 0);
}

#[test]
fn replace_text_passes_over_offsets_that_do_not_fit() {
    let mut buffer = buffer_of("abcdef", 6);
    let mut log = UndoTree::new();
    buffer.replace_text("", "cd", &vec![1, 4, 40, usize::MAX], &mut log, true);
    assert_eq!(buffer.to_string(), "abef");
    assert_eq!(buffer.cursor, 4);
    assert_eq!(log.len(), 0);
    let done = buffer.replace_run("--", "", &vec![0, 4]);
    assert_eq!(buffer.to_string(), "--abef--");
    assert_eq!(done, vec![2, 8]);
}

#[test]
fn replace_text_with_line_feeds_keeps_flags_in_step() {
    let mut buffer = buffer_of("a,b,c", 0);
    let mut log = UndoTree::new();
    let ends = buffer.find_occurrences(&vec![',']);
    buffer.replace_text("\n", ",", &ends, &mut log, false);
    assert_eq!(buffer.to_string(), "a\nb\nc");
    check(&buffer);
    log.undo(&mut buffer);
    assert_eq!(buffer.to_string(), "a,b,c");
    check(&buffer);
}

#[test]
fn replace_contents_records_two_steps() {
    let mut buffer = buffer_of("old text", 5);
    let mut log = UndoTree::new();
    buffer.replace_contents(String::from("new\ntext\n"), &mut log);
    assert_eq!(buffer.to_string(), "new\ntext\n");
    assert_eq!(buffer.cursor, 0);
    assert_eq!(log.len(), 2);
    check(&buffer);
    log.undo(&mut buffer);
    assert_eq!(buffer.to_string(), "");
    log.undo(&mut buffer);
    assert_eq!(buffer.to_string(), "old text");
    check(&buffer);
}

#[test]
fn find_next_and_prev_include_the_cursor() {
    let buffer = buffer_of("(a(b)c)", 2);
    assert_eq!(buffer.find_prev('('), Some(2));
    assert_eq!(buffer.find_next('('), Some(2));
    assert_eq!(buffer.find_next(')'), Some(4));
    assert_eq!(buffer.find_prev(')'), None);
    assert_eq!(buffer.find_prev('a'), Some(1));
    assert_eq!(buffer.find_next('a'), None);
    let buffer = buffer_of("ab", 2);
    assert_eq!(buffer.find_prev('b'), Some(1));
    assert_eq!(buffer.find_next('b'), None);
}

#[test]
fn flags_bookkeeping() {
    let mut buffer = buffer_of("a\nb\nc\nd", 2);
    assert_eq!(buffer.lines_for_updating, vec![false; 4]);
    buffer.update_list_use_current_line();
    assert_eq!(buffer.lines_for_updating, vec![false, true, false, false]);
    assert!(buffer.has_changed);
    buffer.update_list_reset();
    assert_eq!(buffer.lines_for_updating, vec![false; 4]);
    assert!(!buffer.has_changed);
    buffer.update_list_set(2, true);
    assert_eq!(buffer.lines_for_updating, vec![false, false, true, true]);
    assert!(!buffer.has_changed);
    buffer.update_list_set(4, false);
    assert_eq!(buffer.lines_for_updating, vec![false, false, true, true]);
    buffer.update_list_reset();
    buffer.update_list_add(1);
    assert_eq!(buffer.lines_for_updating, vec![false, true, true, true, true]);
    buffer.update_list_reset();
    buffer.update_list_remove(3);
    assert_eq!(buffer.lines_for_updating, vec![false, false, false, true]);
    buffer.update_list_reset();
    buffer.update_list_add_current();
    assert_eq!(buffer.lines_for_updating, vec![false, true, true, true, true]);
    buffer.update_list_reset();
    buffer.cursor = 4;
    buffer.update_list_remove_current();
    assert_eq!(buffer.lines_for_updating, vec![false, true, true, true]);
    buffer.update_list_reset();
    buffer.cursor = 0;
    buffer.update_list_remove_current();
    assert_eq!(buffer.lines_for_updating, vec![true, true, true]);
    buffer.update_list_reset();
    buffer.update_list_all();
    assert_eq!(buffer.lines_for_updating, vec![true, true, true]);
    buffer.mark_all_lines();
    assert_eq!(buffer.lines_for_updating, vec![true, true, true, true]);
}

#[test]
fn line_feed_is_the_only_line_break() {
    let buffer = buffer_of("a\rb\u{0B}c\u{0C}d\u{85}e\u{2028}f\u{2029}g\r\nh", 0);
    assert_eq!(buffer.len(), 2);
    assert_eq!(buffer.get_start_of_n_line(1), 15);
    assert_eq!(buffer.get_end_of_line(), 14);
}

#[test]
fn offsets_count_characters() {
    let mut buffer = buffer_of("héllo wörld", 0);
    assert_eq!(buffer.get_end_of_line(), 10);
    buffer.cursor = 7;
    assert_eq!(buffer.get_curr_char(), 'ö');
    buffer.delete_curr_char();
    assert_eq!(buffer.to_string(), "héllo wrld");
}
