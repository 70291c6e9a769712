use orinfar::buffer::Buffer;
use orinfar::motion::{
    back, beginning_of_line, char_is_bracket, char_of_class, end_of_line, end_of_word, find,
    find_back, find_until, next_char, next_corresponding_bracket, next_newline, next_row,
    prev_char, prev_newline, prev_row, scan_backward, scan_forward, walk_rows, word, CharClass,
    Motion, MotionKind,
};

fn buffer_of(text: &str, cursor: usize) -> Buffer {
    let mut buffer = Buffer::new();
    buffer.insert_text(text);
    buffer.update_list_reset();
    buffer.cursor = cursor;
    buffer
}

fn after(motion: fn(&mut Buffer), text: &str, cursor: usize) -> usize {
    let mut buffer = buffer_of(text, cursor);
    motion(&mut buffer);
    assert_eq!(buffer.to_string(), text);
    assert_eq!(buffer.lines_for_updating, vec![false; buffer.len()]);
    assert!(!buffer.has_changed);
    assert!(buffer.cursor <= text.chars().count());
    buffer.cursor
}

fn after_key(motion: fn(&mut Buffer, Option<char>), key: Option<char>, text: &str, cursor: usize) -> usize {
    let mut buffer = buffer_of(text, cursor);
    motion(&mut buffer, key);
    assert_eq!(buffer.to_string(), text);
    buffer.cursor
}

#[test]
fn char_motions() {
    assert_eq!(after(prev_char, "abc", 2), 1);
    assert_eq!(after(prev_char, "abc", 0), 0);
    assert_eq!(after(next_char, "abc", 2), 3);
    assert_eq!(after(next_char, "abc", 3), 3);
    assert_eq!(after(next_char, "a\nb", 1), 2);
}

#[test]
fn row_motions() {
    assert_eq!(after(next_row, "abcd\nab\nabcd", 3), 7);
    assert_eq!(after(next_row, "abcd\nab\nabcd", 6), 9);
    assert_eq!(after(next_row, "abcd\nab\nabcd", 9), 9);
    assert_eq!(after(prev_row, "abcd\nab\nabcd", 11), 7);
    assert_eq!(after(prev_row, "abcd\nab\nabcd", 5), 0);
    assert_eq!(after(prev_row, "abcd\nab\nabcd", 2), 2);
    assert_eq!(after(next_row, "ab\n", 1), 3);
    assert_eq!(after(prev_row, "\nab", 2), 0);
}

#[test]
fn word_skips_word_and_whitespace() {
    assert_eq!(after(word, "hello world", 0), 6);
    assert_eq!(after(word, "hello world", 3), 6);
    assert_eq!(after(word, "hello   world", 0), 8);
    assert_eq!(after(word, "foo, bar", 0), 3);
    assert_eq!(after(word, "foo, bar", 3), 5);
    assert_eq!(after(word, "  foo", 0), 2);
}

#[test]
fn word_stops_at_end_of_line() {
    assert_eq!(after(word, "ab cd\nef", 3), 5);
    assert_eq!(after(word, "ab cd\nef", 5), 5);
    assert_eq!(after(word, "ab cd", 3), 4);
    assert_eq!(after(word, "ab cd", 4), 4);
    assert_eq!(after(word, "ab cd", 5), 5);
    assert_eq!(after(word, "ab  \ncd", 0), 4);
    assert_eq!(after(word, "", 0), 0);
    assert_eq!(after(word, "\n\n", 1), 1);
}

#[test]
fn back_goes_to_start_of_previous_word() {
    assert_eq!(after(back, "hello world", 6), 0);
    assert_eq!(after(back, "hello world", 8), 6);
    assert_eq!(after(back, "hello world", 11), 6);
    assert_eq!(after(back, "foo, bar", 5), 0);
    assert_eq!(after(back, "foo", 0), 0);
    assert_eq!(after(back, "  foo", 2), 0);
    assert_eq!(after(back, "ab\ncd", 3), 0);
    assert_eq!(after(back, "ab\n\ncd", 4), 0);
    assert_eq!(after(back, "ab cd\n  ef", 8), 3);
}

#[test]
fn end_of_word_goes_to_last_character_of_word() {
    assert_eq!(after(end_of_word, "hello world", 0), 4);
    assert_eq!(after(end_of_word, "hello world", 2), 4);
    assert_eq!(after(end_of_word, "hello world", 4), 10);
    assert_eq!(after(end_of_word, "hello world", 5), 10);
    assert_eq!(after(end_of_word, "a  b c", 0), 3);
    assert_eq!(after(end_of_word, "a b", 0), 2);
    assert_eq!(after(end_of_word, "ab, cd", 1), 5);
}

#[test]
fn end_of_word_stops_at_end_of_line() {
    assert_eq!(after(end_of_word, "ab cd\nef", 4), 5);
    assert_eq!(after(end_of_word, "ab cd\nef", 5), 5);
    assert_eq!(after(end_of_word, "ab  \ncd", 1), 4);
    assert_eq!(after(end_of_word, "ab", 1), 1);
    assert_eq!(after(end_of_word, "ab", 2), 2);
    assert_eq!(after(end_of_word, "", 0), 0);
    assert_eq!(after(end_of_word, "a\n", 0), 1);
}

#[test]
fn line_motions() {
    assert_eq!(after(end_of_line, "ab\ncdef\ngh", 4), 7);
    assert_eq!(after(end_of_line, "ab\ncdef\ngh", 8), 9);
    assert_eq!(after(end_of_line, "", 0), 0);
    assert_eq!(after(beginning_of_line, "ab\n   cdef", 8), 6);
    assert_eq!(after(beginning_of_line, "abc", 2), 0);
    assert_eq!(after(beginning_of_line, "   ", 1), 3);
}

#[test]
fn find_scans_the_line_forward() {
    assert_eq!(after_key(find, Some('o'), "hello world\nfoo", 0), 4);
    assert_eq!(after_key(find, Some('o'), "hello world\nfoo", 4), 4);
    assert_eq!(after_key(find, Some('o'), "hello world\nfoo", 5), 7);
    assert_eq!(after_key(find, Some('f'), "hello world\nfoo", 5), 5);
    assert_eq!(after_key(find, Some('\n'), "hello world\nfoo", 5), 11);
    assert_eq!(after_key(find, Some('d'), "hello world", 1), 10);
    assert_eq!(after_key(find, None, "hello world", 1), 1);
    assert_eq!(after_key(find, Some('h'), "hello", 5), 5);
    assert_eq!(after_key(find, Some('h'), "", 0), 0);
}

#[test]
fn find_back_scans_the_line_backward() {
    assert_eq!(after_key(find_back, Some('o'), "foo\nhello world", 14), 11);
    assert_eq!(after_key(find_back, Some('o'), "foo\nhello world", 11), 11);
    assert_eq!(after_key(find_back, Some('o'), "foo\nhello world", 10), 8);
    assert_eq!(after_key(find_back, Some('f'), "foo\nhello world", 10), 10);
    assert_eq!(after_key(find_back, Some('h'), "foo\nhello world", 10), 4);
    assert_eq!(after_key(find_back, Some('d'), "hello world", 11), 10);
    assert_eq!(after_key(find_back, None, "hello world", 5), 5);
    assert_eq!(after_key(find_back, Some('x'), "", 0), 0);
}

#[test]
fn find_until_stops_before_the_key() {
    assert_eq!(after_key(find_until, Some('w'), "hello world", 0), 5);
    assert_eq!(after_key(find_until, Some('e'), "hello world", 0), 0);
    assert_eq!(after_key(find_until, Some('h'), "hello world", 0), 0);
    assert_eq!(after_key(find_until, Some('x'), "hello world", 0), 0);
    assert_eq!(after_key(find_until, None, "hello world", 3), 3);
}

#[test]
fn bracket_motion_finds_the_match() {
    assert_eq!(after(next_corresponding_bracket, "(a(b)c)", 0), 6);
    assert_eq!(after(next_corresponding_bracket, "(a(b)c)", 2), 4);
    assert_eq!(after(next_corresponding_bracket, "(a(b)c)", 1), 4);
    assert_eq!(after(next_corresponding_bracket, "(a(b)c)", 6), 0);
    assert_eq!(after(next_corresponding_bracket, "(a(b)c)", 4), 2);
    assert_eq!(after(next_corresponding_bracket, "(a(b)c)", 5), 0);
    assert_eq!(after(next_corresponding_bracket, "x = [1, {2}];", 0), 11);
    assert_eq!(after(next_corresponding_bracket, "x = [1, {2}];", 5), 10);
    assert_eq!(after(next_corresponding_bracket, "f(\n  a\n)", 0), 7);
    assert_eq!(after(next_corresponding_bracket, "f(\n  a\n)", 7), 1);
    assert_eq!(after(next_corresponding_bracket, "([)]", 0), 2);
}

#[test]
fn bracket_motion_without_match_stays() {
    assert_eq!(after(next_corresponding_bracket, "(abc", 1), 1);
    assert_eq!(after(next_corresponding_bracket, "(abc", 0), 0);
    assert_eq!(after(next_corresponding_bracket, "abc)", 1), 1);
    assert_eq!(after(next_corresponding_bracket, "abc", 1), 1);
    assert_eq!(after(next_corresponding_bracket, "ab\n(c)", 0), 0);
    assert_eq!(after(next_corresponding_bracket, "((a)", 0), 0);
    assert_eq!(after(next_corresponding_bracket, "(a", 2), 2);
    assert_eq!(after(next_corresponding_bracket, "", 0), 0);
    assert_eq!(after(next_corresponding_bracket, ")", 0), 0);
}

#[test]
fn paragraph_motions() {
    let text = "a\nb\n\nc\nd\n\n\ne";
    assert_eq!(after(next_newline, text, 0), 4);
    assert_eq!(after(next_newline, text, 2), 4);
    assert_eq!(after(next_newline, text, 4), 9);
    assert_eq!(after(next_newline, text, 5), 9);
    assert_eq!(after(next_newline, text, 9), 11);
    assert_eq!(after(next_newline, text, 11), 11);
    assert_eq!(after(prev_newline, text, 11), 10);
    assert_eq!(after(prev_newline, text, 10), 4);
    assert_eq!(after(prev_newline, text, 7), 4);
    assert_eq!(after(prev_newline, text, 4), 0);
    assert_eq!(after(prev_newline, text, 2), 0);
    assert_eq!(after(prev_newline, text, 0), 0);
    assert_eq!(after(next_newline, "", 0), 0);
    assert_eq!(after(prev_newline, "abc", 2), 2);
}

#[test]
fn walk_rows_stops_where_blankness_changes() {
    let mut buffer = buffer_of("\n\nab\ncd\n\n", 0);
    walk_rows(&mut buffer, true, true);
    assert_eq!(buffer.cursor, 2);
    walk_rows(&mut buffer, true, true);
    assert_eq!(buffer.cursor, 2);
    walk_rows(&mut buffer, true, false);
    assert_eq!(buffer.cursor, 8);
    walk_rows(&mut buffer, false, true);
    assert_eq!(buffer.cursor, 5);
    walk_rows(&mut buffer, false, false);
    assert_eq!(buffer.cursor, 1);
}

#[test]
fn scans_over_classes() {
    let buffer = buffer_of("ab12  ,;x", 0);
    assert_eq!(scan_forward(&buffer, 0, 9, CharClass::Alnum, true), 4);
    assert_eq!(scan_forward(&buffer, 0, 3, CharClass::Alnum, true), 3);
    assert_eq!(scan_forward(&buffer, 4, 9, CharClass::Space, true), 6);
    assert_eq!(scan_forward(&buffer, 4, 9, CharClass::Alnum, false), 8);
    assert_eq!(scan_forward(&buffer, 4, 9, CharClass::Space, false), 4);
    assert_eq!(scan_backward(&buffer, 9, 0, CharClass::Alnum, true), 8);
    assert_eq!(scan_backward(&buffer, 8, 0, CharClass::Alnum, false), 4);
    assert_eq!(scan_backward(&buffer, 4, 1, CharClass::Alnum, true), 1);
    assert_eq!(scan_backward(&buffer, 6, 0, CharClass::Space, true), 4);
}

#[test]
fn classes_of_characters() {
    assert!(char_of_class('a', CharClass::Alnum));
    assert!(char_of_class('7', CharClass::Alnum));
    assert!(char_of_class('é', CharClass::Alnum));
    assert!(!char_of_class('_', CharClass::Alnum));
    assert!(!char_of_class(' ', CharClass::Alnum));
    assert!(!char_of_class('\n', CharClass::Alnum));
    assert!(char_of_class(' ', CharClass::Space));
    assert!(char_of_class('\n', CharClass::Space));
    assert!(char_of_class('\t', CharClass::Space));
    assert!(!char_of_class('a', CharClass::Space));
    for c in ['(', ')', '[', ']', '{', '}'] {
        assert!(char_is_bracket(c));
    }
    assert!(!char_is_bracket('<'));
    assert!(!char_is_bracket('a'));
}

#[test]
fn motion_applies_and_evaluates() {
    let w = Motion::exclusive("w", MotionKind::Word);
    assert_eq!(w.name, "w");
    assert!(!w.inclusive);
    assert!(!w.needs_key());
    let f = Motion::inclusive("f", MotionKind::Find);
    assert!(f.inclusive);
    assert!(f.needs_key());
    assert!(Motion::inclusive("F", MotionKind::FindBack).needs_key());
    assert!(Motion::inclusive("t", MotionKind::FindUntil).needs_key());
    let mut buffer = buffer_of("hello world", 0);
    assert_eq!(w.evaluate(&buffer, None), 6);
    assert_eq!(buffer.cursor, 0);
    assert_eq!(f.evaluate(&buffer, Some('r')), 8);
    assert_eq!(buffer.cursor, 0);
    w.apply(&mut buffer, None);
    assert_eq!(buffer.cursor, 6);
    f.apply(&mut buffer, Some('d'));
    assert_eq!(buffer.cursor, 10);
}

#[test]
fn every_kind_of_motion_applies() {
    let cases = [
        (MotionKind::PrevChar, 6),
        (MotionKind::NextChar, 8),
        (MotionKind::NextRow, 12),
        (MotionKind::PrevRow, 1),
        (MotionKind::Word, 9),
        (MotionKind::Back, 6),
        (MotionKind::EndOfWord, 10),
        (MotionKind::EndOfLine, 11),
        (MotionKind::BeginningOfLine, 6),
        (MotionKind::Find, 10),
        (MotionKind::FindBack, 7),
        (MotionKind::FindUntil, 9),
        (MotionKind::NextCorrespondingBracket, 7),
        (MotionKind::NextNewline, 12),
        (MotionKind::PrevNewline, 1),
    ];
    for (kind, expected) in cases {
        let mut buffer = buffer_of("abcde\nfg hi\nj", 7);
        Motion::inclusive("m", kind).apply(&mut buffer, Some('i'));
        assert_eq!(buffer.cursor, expected, "{:?}", kind);
    }
}
