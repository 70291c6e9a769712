use orinfar::action::{reset, DispatchState, Key};
use orinfar::buffer::Buffer;
use orinfar::commands::{char_to_string, Command, CommandKind};
use orinfar::keymap::default_motions;
use orinfar::keys::contains_char;
use orinfar::meta_command::{
    attach_buffer, meta_command_at, parse_decimal, path_argument, stops_line, string_of,
    MetaCommand,
};
use orinfar::mode::Mode;
use orinfar::named::{collect_name_chars, find_by_name, find_by_trigger, name_is};
use orinfar::operator::{
    change, change_until_before, delete, iterate_range, yank, OnFinish, Operator, OperatorKind,
    PerChar,
};
use orinfar::register::RegisterHandler;
use orinfar::status_bar::StatusBar;
use orinfar::status_line::{push_chars, push_decimal, push_repeated, status_line};
use orinfar::text_object::{
    curly_braces, find_matching, parentheses, quotations, square_braces, TextObject,
    TextObjectKind, TextObjectType,
};
use orinfar::tutorial::{count_line, count_longest_line, split_lines, write_line_centered};
use orinfar::undo::UndoTree;
use orinfar::utility::is_symbol;
use orinfar::view::{Side, View};
use orinfar::view_box::{count_digits, ViewBox};
use orinfar::view_command::{center_viewbox_on_cursor, ViewCommand, ViewCommandKind};

fn buffer_of(text: &str, cursor: usize) -> Buffer {
    let mut buffer = Buffer::new();
    buffer.insert_text(text);
    buffer.update_list_reset();
    buffer.cursor = cursor;
    buffer
}

fn bar_of(text: &str) -> StatusBar {
    let mut bar = StatusBar::new();
    for c in text.chars() {
        bar.push(c);
    }
    bar
}

#[test]
fn registers_hold_texts_by_name() {
    let mut registers = RegisterHandler::new();
    assert_eq!(registers.current_register, "0");
    assert_eq!(registers.get_reg(), "");
    assert_eq!(registers.get_curr_reg(), '0');
    registers.push_reg("ab");
    registers.push_reg("cd");
    assert_eq!(registers.get_reg(), "abcd");
    registers.set_reg(String::from("xy"));
    assert_eq!(registers.get_reg(), "xy");
    registers.init_reg(String::from("k"), String::from("v"));
    assert_eq!(registers.current_register, "k");
    assert_eq!(registers.get_reg(), "v");
    assert_eq!(registers.get_curr_reg(), 'k');
    registers.empty_reg();
    assert_eq!(registers.get_reg(), "");
    registers.reset_current_register();
    assert_eq!(registers.get_reg(), "xy");
    assert_eq!(
        registers.entries(),
        vec![(String::from("0"), String::from("xy")), (String::from("k"), String::new())]
    );
    registers.current_register = String::new();
    assert_eq!(registers.get_curr_reg(), '"');
}

#[test]
fn modes() {
    let mut mode = Mode::Normal;
    mode.insert();
    assert_eq!(mode, Mode::Insert);
    assert_eq!(mode.to_string(), "insert");
    mode.normal();
    assert_eq!(mode, Mode::Normal);
    assert_eq!(mode.to_string(), "normal");
    assert_eq!(Mode::Meta.to_string(), "meta");
    assert_eq!(Mode::Visual.to_string(), "visual");
}

#[test]
fn status_bar_keeps_its_first_character() {
    let mut bar = StatusBar::new();
    assert_eq!(bar.idx(), 0);
    assert_eq!(bar.buffer(), "");
    bar.delete();
    assert_eq!(bar.len(), 0);
    bar.push(':');
    bar.push('w');
    bar.push('q');
    assert_eq!(bar.idx(), 3);
    assert_eq!(bar.buffer(), ":wq");
    assert_eq!(bar.char_at(1), 'w');
    bar.delete();
    assert_eq!(bar.buffer(), ":w");
    bar.delete();
    bar.delete();
    bar.delete();
    assert_eq!(bar.buffer(), ":");
    assert_eq!(bar.idx(), 1);
    bar.clear();
    assert_eq!(bar.buffer(), "");
    assert_eq!(bar.idx(), 0);
}

#[test]
fn symbols() {
    for c in "$`':~()\\+-=#^[&]*<@%!{|}>/?.,".chars() {
        assert!(is_symbol(c), "{}", c);
    }
    for c in "aZ09 _;\"\n".chars() {
        assert!(!is_symbol(c), "{:?}", c);
    }
}

#[test]
fn meta_commands_by_character() {
    let bar = bar_of(":wulodrsq!");
    assert_eq!(meta_command_at(&bar, 1), MetaCommand::Write);
    assert_eq!(meta_command_at(&bar, 2), MetaCommand::Detach);
    assert_eq!(meta_command_at(&bar, 3), MetaCommand::Load);
    assert_eq!(meta_command_at(&bar, 4), MetaCommand::Open);
    assert_eq!(meta_command_at(&bar, 5), MetaCommand::Directories);
    assert_eq!(meta_command_at(&bar, 6), MetaCommand::Registers);
    assert_eq!(meta_command_at(&bar, 7), MetaCommand::Substitute);
    assert_eq!(meta_command_at(&bar, 8), MetaCommand::Quit);
    assert_eq!(meta_command_at(&bar, 9), MetaCommand::Unknown('!'));
    assert_eq!(meta_command_at(&bar, 0), MetaCommand::Unknown(':'));
    assert!(stops_line(&MetaCommand::Open));
    assert!(stops_line(&MetaCommand::Substitute));
    assert!(stops_line(&MetaCommand::Quit));
    assert!(stops_line(&MetaCommand::Line(None)));
    assert!(!stops_line(&MetaCommand::Write));
    assert!(!stops_line(&MetaCommand::Unknown('x')));
}

#[test]
fn line_numbers_on_the_command_line() {
    assert_eq!(meta_command_at(&bar_of(":120"), 1), MetaCommand::Line(Some(120)));
    assert_eq!(meta_command_at(&bar_of(":120"), 2), MetaCommand::Line(Some(20)));
    assert_eq!(meta_command_at(&bar_of(":0"), 1), MetaCommand::Line(Some(0)));
    assert_eq!(meta_command_at(&bar_of(":12w"), 1), MetaCommand::Line(None));
    assert_eq!(meta_command_at(&bar_of(":\u{0663}"), 1), MetaCommand::Line(None));
    assert_eq!(
        meta_command_at(&bar_of(":18446744073709551615"), 1),
        MetaCommand::Line(Some(18446744073709551615))
    );
    assert_eq!(meta_command_at(&bar_of(":18446744073709551616"), 1), MetaCommand::Line(None));
    assert_eq!(meta_command_at(&bar_of(":99999999999999999999999"), 1), MetaCommand::Line(None));
    assert_eq!(parse_decimal(&bar_of(":007"), 1), Some(7));
    assert_eq!(parse_decimal(&bar_of(":7"), 2), None);
    assert_eq!(parse_decimal(&bar_of(":7"), 0), None);
    assert_eq!(parse_decimal(&bar_of(""), 0), None);
}

#[test]
fn path_on_the_command_line() {
    assert_eq!(path_argument(&bar_of(":o  src/main.rs "), 1), Some(String::from("src/main.rs")));
    assert_eq!(path_argument(&bar_of(":oa b"), 1), Some(String::from("a b")));
    assert_eq!(path_argument(&bar_of(":o   "), 1), Some(String::new()));
    assert_eq!(path_argument(&bar_of(":o"), 1), None);
    assert_eq!(path_argument(&bar_of(":o"), 7), None);
    assert_eq!(string_of(&vec!['a', 'b']), "ab");
}

#[test]
fn attaching_a_buffer() {
    let mut buffer = buffer_of("text", 2);
    let mut path: Option<String> = None;
    attach_buffer(&mut buffer, &bar_of(":o"), 1, &mut path);
    assert_eq!(path, None);
    attach_buffer(&mut buffer, &bar_of(":o a.txt"), 1, &mut path);
    assert_eq!(path, Some(String::from("a.txt")));
    assert_eq!(buffer.to_string(), "text");
    assert_eq!(buffer.cursor, 2);
    attach_buffer(&mut buffer, &bar_of(":o b.txt"), 1, &mut path);
    assert_eq!(path, Some(String::from("b.txt")));
    assert_eq!(buffer.to_string(), "");
    assert_eq!(buffer.cursor, 0);
    assert_eq!(buffer.lines_for_updating, vec![true]);
}

#[test]
fn status_line_texts() {
    let bar = bar_of(":s/a/b");
    let none: Option<&str> = None;
    assert_eq!(status_line(Mode::Meta, &bar, none, 0, 1, '"', &[], none, 80), ":s/a/b");
    assert_eq!(status_line(Mode::Insert, &bar, none, 0, 1, '"', &[], none, 80), "-- INSERT --");
    assert_eq!(status_line(Mode::Visual, &bar, none, 0, 1, '"', &[], none, 80), "-- VISUAL --");
    assert_eq!(
        status_line(Mode::Normal, &bar, none, 0, 1, '"', &[], none, 80),
        "-- Unattached Buffer -- "
    );
    assert_eq!(
        status_line(Mode::Normal, &bar, none, 0, 12, 'k', &['d', 'i'], none, 80),
        "-- Unattached Buffer -- 12\"kdi"
    );
    assert_eq!(
        status_line(Mode::Normal, &bar, Some("a.rs"), 1204, 3, 'k', &['d'], Some("abc123"), 40),
        "Editing File: \"a.rs\" 1204b \"k3 d  abc123"
    );
    assert_eq!(
        status_line(Mode::Normal, &bar, Some("a.rs"), 0, 1, '"', &[], none, 30),
        "Editing File: \"a.rs\" 0b       "
    );
    assert_eq!(
        status_line(Mode::Normal, &bar, Some("a.rs"), 7, 1, '"', &[], Some("ff"), 5),
        "Editing File: \"a.rs\" 7b  ff"
    );
}

#[test]
fn decimal_and_padding_helpers() {
    let mut out = String::from(">");
    push_decimal(&mut out, 0);
    push_decimal(&mut out, 907);
    push_decimal(&mut out, usize::MAX);
    assert_eq!(out, format!(">0907{}", usize::MAX));
    push_repeated(&mut out, '-', 3);
    push_chars(&mut out, &['x', 'y']);
    assert!(out.ends_with("---xy"));
    assert_eq!(count_digits(0), 1);
    assert_eq!(count_digits(9), 1);
    assert_eq!(count_digits(10), 2);
    assert_eq!(count_digits(12345), 5);
    assert_eq!(count_digits(usize::MAX), 20);
    assert_eq!(char_to_string('q'), "q");
    assert!(contains_char(&vec!['a', 'b'], 'b'));
    assert!(!contains_char(&vec!['a', 'b'], 'c'));
    assert_eq!(Key::Char('x').as_char(), Some('x'));
    assert_eq!(Key::Esc.as_char(), None);
}

#[test]
fn names_are_found_by_trigger_and_by_name() {
    let motions = default_motions();
    assert_eq!(find_by_trigger(&motions, 'w'), Some(4));
    assert_eq!(find_by_trigger(&motions, '{'), Some(13));
    assert_eq!(find_by_trigger(&motions, 'x'), None);
    let commands = vec![
        Command::new("gg", CommandKind::FirstRow),
        Command::new("", CommandKind::Noop),
        Command::new("g", CommandKind::LastRow),
        Command::new("gg", CommandKind::Undo),
    ];
    assert_eq!(find_by_trigger(&commands, 'g'), Some(0));
    assert_eq!(find_by_name(&commands, &vec!['g']), Some(2));
    assert_eq!(find_by_name(&commands, &vec!['g', 'g']), Some(0));
    assert_eq!(find_by_name(&commands, &vec![]), Some(1));
    assert_eq!(find_by_name(&commands, &vec!['g', 'g', 'g']), None);
    assert!(name_is("gg", &vec!['g', 'g']));
    assert!(!name_is("gg", &vec!['g']));
    assert!(!name_is("gg", &vec!['g', 'x']));
    let mut chars = vec!['!'];
    collect_name_chars(&commands, &mut chars);
    assert_eq!(chars, vec!['!', 'g', 'g', 'g', 'g', 'g']);
    assert!(Command::new("r", CommandKind::Replace).needs_key());
    assert!(Command::new("\"", CommandKind::DoubleQuote).needs_key());
    assert!(!Command::new("x", CommandKind::Cut).needs_key());
}

#[test]
fn dispatch_state_resets() {
    let mut state = DispatchState::new();
    assert_eq!(state.count, 1);
    state.push_count_digit(4);
    state.push_count_digit(0);
    assert_eq!(state.count, 40);
    state.chained.push('d');
    state.pending_operator = Some(0);
    state.pending_text_object_kind = Some(TextObjectType::Around);
    reset(&mut state);
    assert_eq!(state.count, 1);
    assert_eq!(state.last_count, 40);
    assert_eq!(state.last_chained, vec!['d']);
    assert!(state.chained.is_empty());
    assert_eq!(state.pending_operator, None);
    assert_eq!(state.pending_text_object_kind, None);
}

#[test]
fn text_object_bounds() {
    let buffer = buffer_of("f(a, [b], \"c\") {d}", 7);
    assert_eq!(parentheses(&buffer), Some((1, 13)));
    assert_eq!(square_braces(&buffer), Some((5, 7)));
    assert_eq!(curly_braces(&buffer), None);
    assert_eq!(quotations(&buffer), None);
    assert_eq!(find_matching(&buffer, 'a', 'c'), Some((2, 11)));
    let parens = TextObject::new("(", TextObjectKind::Parentheses);
    assert_eq!(parens.around(&buffer), Some((1, 13)));
    assert_eq!(parens.evaluate(&buffer), Some((1, 13)));
    assert_eq!(parens.inside(&buffer), Some((2, 12)));
    let quotes = TextObject::new("\"", TextObjectKind::Quotations);
    let buffer = buffer_of("f(a, [b], \"c\") {d}", 11);
    assert_eq!(quotes.around(&buffer), Some((10, 12)));
    assert_eq!(quotes.inside(&buffer), Some((11, 11)));
    let buffer = buffer_of("f(a, [b], \"c\") {d}", 10);
    assert_eq!(quotes.around(&buffer), Some((10, 10)));
    assert_eq!(quotes.inside(&buffer), Some((10, 10)));
    let buffer = buffer_of("{}", 0);
    let curly = TextObject::new("{", TextObjectKind::CurlyBraces);
    assert_eq!(curly.around(&buffer), Some((0, 1)));
    assert_eq!(curly.inside(&buffer), Some((1, 0)));
    assert_eq!(TextObject::new("[", TextObjectKind::SquareBraces).inside(&buffer), None);
}

#[test]
fn operators_on_ranges() {
    let mut registers = RegisterHandler::new();
    let mut mode = Mode::Normal;
    let mut log = UndoTree::new();
    let mut buffer = buffer_of("abcdefgh", 2);
    delete(4, &mut buffer, &mut registers, &mut mode, &mut log);
    assert_eq!(buffer.to_string(), "abfgh");
    assert_eq!(registers.get_reg(), "cde");
    assert_eq!(buffer.cursor, 2);
    assert_eq!(log.len(), 1);
    delete(0, &mut buffer, &mut registers, &mut mode, &mut log);
    assert_eq!(buffer.to_string(), "gh");
    assert_eq!(registers.get_reg(), "abf");
    assert_eq!(buffer.cursor, 0);
    yank(1, &mut buffer, &mut registers, &mut mode, &mut log);
    assert_eq!(registers.get_reg(), "gh");
    assert_eq!(buffer.cursor, 0);
    buffer.cursor = 2;
    yank(0, &mut buffer, &mut registers, &mut mode, &mut log);
    assert_eq!(registers.get_reg(), "gh");
    assert_eq!(buffer.cursor, 2);
    yank(2, &mut buffer, &mut registers, &mut mode, &mut log);
    assert_eq!(registers.get_reg(), "gh");
    assert_eq!(log.len(), 2);
    assert_eq!(mode, Mode::Normal);
    buffer.cursor = 1;
    change(usize::MAX, &mut buffer, &mut registers, &mut mode, &mut log);
    assert_eq!(buffer.to_string(), "g");
    assert_eq!(registers.get_reg(), "h");
    assert_eq!(buffer.cursor, 0);
    assert_eq!(mode, Mode::Insert);
    let mut buffer = buffer_of("abcdef", 1);
    change_until_before(3, &mut buffer, &mut registers, &mut mode, &mut log);
    assert_eq!(buffer.to_string(), "adef");
    change_until_before(0, &mut buffer, &mut registers, &mut mode, &mut log);
    assert_eq!(buffer.to_string(), "ef");
    assert_eq!(registers.get_reg(), "ad");
}

#[test]
fn delete_across_lines_keeps_flags_in_step() {
    let mut registers = RegisterHandler::new();
    let mut mode = Mode::Normal;
    let mut log = UndoTree::new();
    let mut buffer = buffer_of("ab\ncd\nef\ngh", 1);
    delete(7, &mut buffer, &mut registers, &mut mode, &mut log);
    assert_eq!(buffer.to_string(), "a\ngh");
    assert_eq!(registers.get_reg(), "b\ncd\nef");
    assert_eq!(buffer.lines_for_updating.len(), 2);
    assert!(buffer.lines_for_updating[0]);
    buffer.cursor = 3;
    delete(1, &mut buffer, &mut registers, &mut mode, &mut log);
    assert_eq!(buffer.to_string(), "a");
    assert_eq!(registers.get_reg(), "\ngh");
    assert_eq!(buffer.cursor, 0);
    assert_eq!(buffer.lines_for_updating.len(), 1);
}

#[test]
fn range_algorithm() {
    let mut registers = RegisterHandler::new();
    let mut mode = Mode::Normal;
    let mut buffer = buffer_of("abcdef", 4);
    iterate_range(&mut mode, &mut registers, &mut buffer, 1, PerChar::Yank, OnFinish::Nothing);
    assert_eq!(registers.get_reg(), "bcde");
    assert_eq!(buffer.cursor, 1);
    iterate_range(&mut mode, &mut registers, &mut buffer, 3, PerChar::Yank, OnFinish::Insert);
    assert_eq!(registers.get_reg(), "bcd");
    assert_eq!(buffer.cursor, 4);
    assert_eq!(mode, Mode::Insert);
    iterate_range(&mut mode, &mut registers, &mut buffer, 9, PerChar::Delete, OnFinish::ResetPosition);
    assert_eq!(buffer.to_string(), "abcd");
    assert_eq!(registers.get_reg(), "ef");
    assert_eq!(buffer.cursor, 4);
    iterate_range(&mut mode, &mut registers, &mut buffer, 2, PerChar::Delete, OnFinish::ResetPosition);
    assert_eq!(buffer.to_string(), "ab");
    assert_eq!(registers.get_reg(), "cd");
    assert_eq!(buffer.cursor, 2);
}

#[test]
fn operator_runs_by_kind() {
    let mut registers = RegisterHandler::new();
    let mut mode = Mode::Normal;
    let mut log = UndoTree::new();
    let mut buffer = buffer_of("one two\nthree", 4);
    let y = Operator::new("y", OperatorKind::Yank);
    y.run(5, &mut buffer, &mut registers, &mut mode, &mut log);
    assert_eq!(registers.get_reg(), "tw");
    y.entire_line(&mut buffer, &mut registers, &mut mode, &mut log);
    assert_eq!(registers.get_reg(), "one two\n");
    assert_eq!(buffer.cursor, 4);
    let d = Operator::new("d", OperatorKind::Delete);
    d.entire_line(&mut buffer, &mut registers, &mut mode, &mut log);
    assert_eq!(buffer.to_string(), "three");
    assert_eq!(buffer.cursor, 0);
    d.entire_line(&mut buffer, &mut registers, &mut mode, &mut log);
    assert_eq!(buffer.to_string(), "");
    assert_eq!(registers.get_reg(), "three\n");
}

#[test]
fn welcome_screen_is_centered() {
    assert_eq!(split_lines("ab\n\ncde\n"), vec![vec!['a', 'b'], vec![], vec!['c', 'd', 'e']]);
    assert_eq!(split_lines("ab\ncd"), vec![vec!['a', 'b'], vec!['c', 'd']]);
    assert_eq!(split_lines(""), Vec::<Vec<char>>::new());
    assert_eq!(split_lines("\n"), vec![Vec::<char>::new()]);
    assert_eq!(count_line("a\nb\nc"), 3);
    assert_eq!(count_longest_line("a\nbcd\nef"), 3);
    assert_eq!(count_longest_line(""), 0);
    let mut contents = String::from("|");
    write_line_centered(&['a', 'b'], &mut contents, 7);
    assert_eq!(contents, "|  ab  \n");
    write_line_centered(&['a', 'b', 'c'], &mut contents, 2);
    assert_eq!(contents, "|  ab  \nabc\n");
    let mut pane = ViewBox::new(8, 6, 0, 0);
    pane.write_welcome_screen("hi\nthere");
    assert_eq!(pane.buffer.to_string(), "\n\n   hi   \n there \n");
    assert_eq!(pane.buffer.lines_for_updating, vec![true; 5]);
    assert!(pane.buffer.has_changed);
    let mut pane = ViewBox::new(5, 6, 0, 0);
    pane.write_welcome_screen("hi\nthere");
    assert_eq!(pane.buffer.to_string(), "");
    let mut pane = ViewBox::new(8, 2, 0, 0);
    pane.write_welcome_screen("hi\nthere");
    assert_eq!(pane.buffer.to_string(), "");
}

#[test]
fn pane_follows_the_cursor() {
    let mut pane = ViewBox::new(4, 3, 0, 0);
    pane.buffer.load("0\n1\n2\n3\n4\n5 long line\n6");
    pane.buffer.update_list_reset();
    assert_eq!(pane.height(), 3);
    assert_eq!(pane.width(), 4);
    assert!(!pane.adjust());
    assert_eq!(pane.buffer.lines_for_updating, vec![false; 7]);
    pane.buffer.cursor = 8;
    assert!(pane.adjust());
    assert_eq!(pane.top, 2);
    assert_eq!(pane.left, 0);
    assert_eq!(pane.buffer.lines_for_updating, vec![true; 7]);
    pane.buffer.cursor = 19;
    assert!(pane.adjust());
    assert_eq!(pane.top, 3);
    assert_eq!(pane.left, 5);
    assert_eq!(pane.cursor_position(), (4, 2));
    pane.buffer.cursor = 2;
    assert!(pane.adjust());
    assert_eq!(pane.top, 1);
    assert_eq!(pane.left, 0);
    assert_eq!(pane.cursor_position(), (0, 0));
    assert_eq!(pane.shown_rows(), (1, 4));
    assert_eq!(pane.line_number_width(), 1);
    pane.top = 8;
    assert_eq!(pane.line_number_width(), 2);
    assert_eq!(pane.shown_rows(), (7, 7));
    assert_eq!(pane.get_lower_left(), (0, 3));
    assert_eq!(pane.get_upper_right(), (4, 0));
}

#[test]
fn pane_shows_part_of_each_line() {
    let mut pane = ViewBox::new(4, 3, 0, 0);
    pane.buffer.load("abcdefgh\nab\n\nxyz");
    assert_eq!(pane.shown_text(0), "abcd");
    assert_eq!(pane.shown_text(1), "ab\n");
    assert_eq!(pane.shown_text(2), "\n");
    assert_eq!(pane.shown_text(3), "xyz");
    pane.left = 3;
    assert_eq!(pane.shown_text(0), "defg");
    assert_eq!(pane.shown_text(1), "\n");
    assert_eq!(pane.shown_text(2), "\n");
    assert_eq!(pane.shown_text(3), "\n");
    pane.buffer.load("ab\n");
    assert_eq!(pane.shown_text(1), "");
    assert_eq!(ViewBox::line_label(7, 3), "  7 ");
    assert_eq!(ViewBox::line_label(120, 3), "120 ");
    assert_eq!(ViewBox::line_label(1200, 3), "1200 ");
}

#[test]
fn centering_a_pane() {
    let mut pane = ViewBox::new(10, 4, 0, 0);
    pane.buffer.load("0\n1\n2\n3\n4\n5\n6\n7");
    pane.buffer.update_list_reset();
    pane.buffer.cursor = 2;
    center_viewbox_on_cursor(&mut pane);
    assert_eq!(pane.top, 0);
    assert!(!pane.buffer.has_changed);
    pane.buffer.cursor = 10;
    center_viewbox_on_cursor(&mut pane);
    assert_eq!(pane.top, 3);
    assert!(pane.buffer.has_changed);
    assert_eq!(pane.buffer.lines_for_updating, vec![true; 8]);
    let mut view = View::new(10, 5);
    view.get_buffer_mut().load("0\n1\n2\n3\n4\n5\n6\n7");
    view.get_buffer_mut().cursor = 14;
    ViewCommand::new("zz", ViewCommandKind::CenterOnCursor).execute(&mut view);
    assert_eq!(view.view_box().top, 5);
}

#[test]
fn view_splits_and_closes_panes() {
    let mut view = View::new(80, 25);
    assert_eq!(view.boxes_len(), 1);
    assert_eq!(view.get_lower_right(), (80, 24));
    assert_eq!(view.cursor, 0);
    view.split_view_box_vertical(0);
    assert_eq!(view.boxes_len(), 2);
    assert_eq!((view.boxes[0].x, view.boxes[0].y, view.boxes[0].width, view.boxes[0].height), (0, 0, 80, 12));
    assert_eq!((view.boxes[1].x, view.boxes[1].y, view.boxes[1].width, view.boxes[1].height), (0, 12, 80, 12));
    view.split_view_box_horizontal(1);
    assert_eq!((view.boxes[1].x, view.boxes[1].y, view.boxes[1].width, view.boxes[1].height), (0, 12, 40, 12));
    assert_eq!((view.boxes[2].x, view.boxes[2].y, view.boxes[2].width, view.boxes[2].height), (40, 12, 40, 12));
    view.split_view_box_vertical(2);
    assert_eq!((view.boxes[2].y, view.boxes[2].height), (12, 6));
    assert_eq!((view.boxes[3].x, view.boxes[3].y, view.boxes[3].width, view.boxes[3].height), (40, 18, 40, 6));
    assert_eq!(view.position_view_box_down(), Some(1));
    assert_eq!(view.position_view_box_up(), None);
    assert_eq!(view.position_view_box_left(), None);
    assert_eq!(view.position_view_box_right(), None);
    view.set_cursor(2);
    assert_eq!(view.position_view_box_left(), Some(1));
    assert_eq!(view.position_view_box_down(), Some(3));
    assert_eq!(view.position_beside(Side::Up), None);
    view.set_cursor(1);
    assert_eq!(view.position_view_box_right(), Some(2));
    assert_eq!(view.position_view_box_up(), Some(0));
    view.cursor_to_last();
    assert_eq!(view.cursor, 3);
    assert_eq!(view.position_view_box_up(), Some(2));
    view.boxes[3].buffer.update_list_reset();
    view.boxes[2].buffer.update_list_reset();
    view.delete_curr_view_box();
    assert_eq!(view.boxes_len(), 3);
    assert_eq!(view.cursor, 2);
    assert_eq!((view.boxes[2].y, view.boxes[2].height), (12, 12));
    assert!(view.boxes[2].buffer.has_changed);
    view.set_cursor(0);
    view.delete_curr_view_box();
    assert_eq!(view.boxes_len(), 2);
    assert_eq!(view.cursor, 0);
    assert_eq!((view.boxes[0].x, view.boxes[0].y, view.boxes[0].width, view.boxes[0].height), (0, 0, 40, 24));
    assert_eq!((view.boxes[1].x, view.boxes[1].y, view.boxes[1].width, view.boxes[1].height), (40, 12, 40, 12));
    view.set_cursor(1);
    view.delete_curr_view_box();
    assert_eq!(view.boxes_len(), 1);
    assert_eq!(view.cursor, 0);
    view.delete_curr_view_box();
    assert_eq!(view.boxes_len(), 1);
}

#[test]
fn odd_rows_and_columns_go_to_the_new_pane() {
    let mut view = View::new(81, 26);
    view.split_view_box_vertical(0);
    assert_eq!((view.boxes[0].height, view.boxes[1].y, view.boxes[1].height), (12, 12, 13));
    view.split_view_box_horizontal(0);
    assert_eq!((view.boxes[0].width, view.boxes[2].x, view.boxes[2].width), (40, 40, 41));
}

#[test]
fn view_finds_panes_and_buffers() {
    let mut view = View::new(80, 25);
    view.split_view_box_vertical(0);
    view.split_view_box_horizontal(0);
    assert_eq!(view.position_of_box(|b: &ViewBox| b.y == 12), Some(1));
    assert_eq!(view.position_of_box(|b: &ViewBox| b.x == 40), Some(2));
    assert_eq!(view.position_of_box(|b: &ViewBox| b.x == 41), None);
    assert_eq!(view.find_box(|b: &ViewBox| b.x == 40).map(|b| b.width), Some(40));
    assert!(view.find_box(|b: &ViewBox| b.width == 0).is_none());
    view.get_buffer_mut().load("first");
    view.set_cursor(2);
    view.get_view_box().top = 4;
    assert_eq!(view.view_box().top, 4);
    assert_eq!(view.get_buffer().to_string(), "");
    assert_eq!(view.boxes[0].buffer.to_string(), "first");
    assert_eq!(view.get_path(), None);
    view.set_path(Some(String::from("a.rs")), Some(String::from("abc")));
    assert_eq!(view.get_path(), Some(&String::from("a.rs")));
    assert_eq!(view.get_git_hash(), Some(&String::from("abc")));
    assert_eq!(view.boxes[0].path, None);
    let mut log = UndoTree::new();
    view.replace_buffer_contents(String::from("new"), 0, &mut log);
    assert_eq!(view.boxes[0].buffer.to_string(), "new");
    assert_eq!(view.cursor, 2);
    assert_eq!(log.len(), 2);
    view.boxes[2].buffer.load("0\n1\n2\n3\n4\n5\n6\n7\n8\n9\n10\n11\n12\n13");
    view.boxes[2].top = 0;
    view.boxes[2].buffer.cursor = 28;
    assert!(view.adjust());
    assert_eq!(view.boxes[2].top, 1);
}
