//! Commands: the edits and moves that a single chord runs without a range.

use vstd::prelude::*;
use crate::buffer::Buffer;
use crate::buffer_char::flags_replaced;
use crate::buffer_line::row_target;
use crate::buffer_update::flags_line_added;
use crate::mode::Mode;
use crate::named::Named;
use crate::register::RegisterHandler;
use crate::state::{snapshot, Snapshot};
use crate::text::{
    end_of_line_at, lemma_line_of_bound, line_count, line_of, line_start, splice_in,
};
use crate::undo::{undone_cursor, undone_text, Action, ActionView, UndoTree};

verus! {

/// What a command does.
#[derive(Clone, Copy, Debug, PartialEq, Eq, Structural)]
pub enum CommandKind {
    Noop,
    Insert,
    Append,
    Cut,
    InsertNewLine,
    InsertNewLineAbove,
    Paste,
    DoubleQuote,
    Replace,
    LastRow,
    FirstRow,
    Undo,
}

/// Whether a command of this kind waits for one more key before it runs.
pub open spec fn command_needs_key(kind: CommandKind) -> bool {
    kind == CommandKind::DoubleQuote || kind == CommandKind::Replace
}

/// Where `append` puts the cursor: behind the character it stands on,
/// unless it stands at the end of a line that another line follows, or
/// behind the document.
pub open spec fn append_target(s: Seq<char>, c: int) -> int {
    if c < s.len() && (c != end_of_line_at(s, c) || c + 1 == s.len()) {
        c + 1
    } else {
        c
    }
}

/// The state after `cut`: the character under the cursor, unless it is a
/// line feed, has gone to the active register. The cursor steps back where
/// it would else stand on the last column, and its line is flagged.
pub open spec fn cut_state(st: Snapshot) -> Snapshot {
    if 0 <= st.cursor < st.text.len() && st.text[st.cursor] != '\n' {
        let text = st.text.remove(st.cursor);
        (Snapshot {
            text,
            cursor: if st.cursor != 0 && (st.cursor + 1 >= text.len() || text[st.cursor]
                == '\n') {
                st.cursor - 1
            } else {
                st.cursor
            },
            registers: st.registers.insert(st.current_register, seq![st.text[st.cursor]]),
            log: st.log.push(
                ActionView::Delete {
                    position: st.cursor as nat,
                    text: seq![st.text[st.cursor]],
                },
            ),
            ..st
        }).with_line_flagged()
    } else {
        st
    }
}

/// The state after `insert_new_line`: a new line is open below the
/// cursor's line, with the cursor on it, in insert mode.
pub open spec fn new_line_state(st: Snapshot) -> Snapshot {
    let at = append_target(st.text, end_of_line_at(st.text, st.cursor));
    Snapshot {
        text: st.text.insert(at, '\n'),
        flags: flags_line_added(st.flags, line_of(st.text, at) as int),
        has_changed: true,
        cursor: at + 1,
        mode: Mode::Insert,
        log: st.log.push(ActionView::Insert { position: at as nat, text: seq!['\n'] }),
        ..st
    }
}

/// The state after `insert_new_line_above`: a new line is open above the
/// cursor's line, with the cursor on it, in insert mode.
pub open spec fn new_line_above_state(st: Snapshot) -> Snapshot {
    let at = line_start(st.text, st.cursor);
    Snapshot {
        text: st.text.insert(at, '\n'),
        flags: flags_line_added(st.flags, line_of(st.text, at) as int),
        has_changed: true,
        cursor: at,
        mode: Mode::Insert,
        log: st.log.push(ActionView::Insert { position: at as nat, text: seq!['\n'] }),
        ..st
    }
}

/// The state after `paste`: the text of the active register stands in
/// front of the cursor's offset, and every line is flagged.
pub open spec fn paste_state(st: Snapshot) -> Snapshot {
    (Snapshot {
        text: splice_in(st.text, st.cursor, st.active()),
        log: st.log.push(ActionView::Insert { position: st.cursor as nat, text: st.active() }),
        ..st
    }).with_all_flagged()
}

/// The state after `replace` read `key`: that character stands in the
/// place of the one under the cursor.
pub open spec fn replace_state(st: Snapshot, key: Option<char>) -> Snapshot {
    match key {
        Some(k) => if 0 <= st.cursor < st.text.len() {
            Snapshot {
                text: st.text.update(st.cursor, k),
                flags: flags_replaced(st.flags, st.row(), st.text[st.cursor], k),
                has_changed: true,
                log: st.log.push(
                    ActionView::Replace {
                        positions: seq![(st.cursor + 1) as usize],
                        original: seq![st.text[st.cursor]],
                        new: seq![k],
                    },
                ),
                ..st
            }
        } else {
            st
        },
        None => st,
    }
}

/// The state after `double_quote_cmd` read `key`: the register of that
/// name is active and empty.
pub open spec fn register_chosen(st: Snapshot, key: Option<char>) -> Snapshot {
    match key {
        Some(k) => Snapshot {
            registers: st.registers.insert(seq![k], Seq::<char>::empty()),
            current_register: seq![k],
            ..st
        },
        None => st,
    }
}

/// The state after the newest action of the log was taken back; every
/// line is then flagged.
pub open spec fn undo_state(st: Snapshot) -> Snapshot {
    if st.log.len() == 0 {
        st
    } else {
        (Snapshot {
            text: undone_text(st.log.last(), st.text),
            cursor: undone_cursor(st.log.last(), st.text, st.cursor),
            log: st.log.drop_last(),
            ..st
        }).with_all_flagged()
    }
}

/// The state after a command of kind `kind` ran. `key` is the character
/// that was read for a command that waits for one.
pub open spec fn commanded(kind: CommandKind, key: Option<char>, st: Snapshot) -> Snapshot {
    match kind {
        CommandKind::Noop => st,
        CommandKind::Insert => Snapshot { mode: Mode::Insert, ..st },
        CommandKind::Append => Snapshot {
            cursor: append_target(st.text, st.cursor),
            mode: Mode::Insert,
            ..st
        },
        CommandKind::Cut => cut_state(st),
        CommandKind::InsertNewLine => new_line_state(st),
        CommandKind::InsertNewLineAbove => new_line_above_state(st),
        CommandKind::Paste => paste_state(st),
        CommandKind::DoubleQuote => register_chosen(st, key),
        CommandKind::Replace => replace_state(st, key),
        CommandKind::LastRow => st.with_cursor(row_target(st.text, st.cursor, line_count(st.text) - 1)),
        CommandKind::FirstRow => st.with_cursor(row_target(st.text, st.cursor, 0)),
        CommandKind::Undo => undo_state(st),
    }
}

/// A string of the one character `c`.
pub fn char_to_string(c: char) -> (s: String)
    ensures
        s@ == seq![c],
{
    let mut s = String::new();
    s.push(c);
    assert(s@ =~= seq![c]);
    s
}

/// A named command.
pub struct Command<'a> {
    pub name: &'a str,
    pub command: CommandKind,
}

impl<'a> Command<'a> {
    /// A command that goes by `name`.
    pub fn new(name: &'a str, command: CommandKind) -> (c: Self)
        ensures
            c.name == name,
            c.command == command,
    {
        Command { name, command }
    }

    /// Whether the command waits for one more key before it runs.
    pub fn needs_key(&self) -> (r: bool)
        ensures
            r == command_needs_key(self.command),
    {
        match self.command {
            CommandKind::DoubleQuote | CommandKind::Replace => true,
            _ => false,
        }
    }

    /// Runs the command.
    pub fn execute(
        &self,
        key: Option<char>,
        buffer: &mut Buffer,
        register_handler: &mut RegisterHandler,
        mode: &mut Mode,
        undo_tree: &mut UndoTree,
    )
        requires
            old(buffer).wf(),
        ensures
            final(buffer).wf(),
            snapshot(*final(buffer), *final(register_handler), *final(mode), *final(undo_tree))
                == commanded(
                self.command,
                key,
                snapshot(*old(buffer), *old(register_handler), *old(mode), *old(undo_tree)),
            ),
    {
        match self.command {
            CommandKind::Noop => noop(buffer, register_handler, mode, undo_tree),
            CommandKind::Insert => insert(buffer, register_handler, mode, undo_tree),
            CommandKind::Append => append(buffer, register_handler, mode, undo_tree),
            CommandKind::Cut => cut(buffer, register_handler, mode, undo_tree),
            CommandKind::InsertNewLine => insert_new_line(
                buffer,
                register_handler,
                mode,
                undo_tree,
            ),
            CommandKind::InsertNewLineAbove => insert_new_line_above(
                buffer,
                register_handler,
                mode,
                undo_tree,
            ),
            CommandKind::Paste => paste(buffer, register_handler, mode, undo_tree),
            CommandKind::DoubleQuote => double_quote_cmd(
                key,
                buffer,
                register_handler,
                mode,
                undo_tree,
            ),
            CommandKind::Replace => replace(key, buffer, register_handler, mode, undo_tree),
            CommandKind::LastRow => last_row(buffer, register_handler, mode, undo_tree),
            CommandKind::FirstRow => first_row(buffer, register_handler, mode, undo_tree),
            CommandKind::Undo => undo(buffer, register_handler, mode, undo_tree),
        }
    }
}

/// Does nothing.
pub fn noop(
    buffer: &mut Buffer,
    register_handler: &mut RegisterHandler,
    mode: &mut Mode,
    undo_tree: &mut UndoTree,
)
    ensures
        *final(buffer) == *old(buffer),
        *final(register_handler) == *old(register_handler),
        *final(mode) == *old(mode),
        *final(undo_tree) == *old(undo_tree),
{
}

/// Enters insert mode.
pub fn insert(
    buffer: &mut Buffer,
    register_handler: &mut RegisterHandler,
    mode: &mut Mode,
    undo_tree: &mut UndoTree,
)
    ensures
        *final(buffer) == *old(buffer),
        *final(register_handler) == *old(register_handler),
        *final(mode) == Mode::Insert,
        *final(undo_tree) == *old(undo_tree),
{
    mode.insert();
}

/// Enters insert mode behind the character under the cursor.
pub fn append(
    buffer: &mut Buffer,
    register_handler: &mut RegisterHandler,
    mode: &mut Mode,
    undo_tree: &mut UndoTree,
)
    requires
        old(buffer).cursor_ok(),
    ensures
        final(buffer).moved_from(*old(buffer)),
        final(buffer).cursor == append_target(old(buffer).text(), old(buffer).cursor as int),
        *final(register_handler) == *old(register_handler),
        *final(mode) == Mode::Insert,
        *final(undo_tree) == *old(undo_tree),
{
    let len = buffer.rope.len_chars();
    if buffer.cursor < len && (buffer.cursor != buffer.get_end_of_line() || len - buffer.cursor
        == 1) {
        buffer.cursor += 1;
    }
    mode.insert();
}

/// Cuts the character under the cursor into the active register. A line
/// feed is not cut.
pub fn cut(
    buffer: &mut Buffer,
    register_handler: &mut RegisterHandler,
    mode: &mut Mode,
    undo_tree: &mut UndoTree,
)
    requires
        old(buffer).wf(),
    ensures
        final(buffer).wf(),
        snapshot(*final(buffer), *final(register_handler), *final(mode), *final(undo_tree))
            == cut_state(
            snapshot(*old(buffer), *old(register_handler), *old(mode), *old(undo_tree)),
        ),
{
    if let Some(c) = buffer.rope.get_char(buffer.cursor) {
        if c == '\n' {
            return ;
        }
        register_handler.set_reg(char_to_string(c));
        buffer.delete_curr_char();
        undo_tree.new_action(Action::delete(buffer.cursor, char_to_string(c)));
        if buffer.cursor != 0 && buffer.is_last_col() {
            buffer.cursor -= 1;
        }
        proof {
            lemma_line_of_bound(buffer.text(), buffer.cursor as int);
        }
        buffer.update_list_use_current_line();
    }
}

/// Opens a new line below the cursor's line and enters insert mode on it.
pub fn insert_new_line(
    buffer: &mut Buffer,
    register_handler: &mut RegisterHandler,
    mode: &mut Mode,
    undo_tree: &mut UndoTree,
)
    requires
        old(buffer).wf(),
    ensures
        final(buffer).wf(),
        snapshot(*final(buffer), *final(register_handler), *final(mode), *final(undo_tree))
            == new_line_state(
            snapshot(*old(buffer), *old(register_handler), *old(mode), *old(undo_tree)),
        ),
{
    buffer.end_of_line();
    append(buffer, register_handler, mode, undo_tree);
    buffer.insert_char('\n');
    undo_tree.new_action(Action::insert(buffer.cursor, char_to_string('\n')));
    buffer.next_char();
}

/// Opens a new line above the cursor's line and enters insert mode on it.
pub fn insert_new_line_above(
    buffer: &mut Buffer,
    register_handler: &mut RegisterHandler,
    mode: &mut Mode,
    undo_tree: &mut UndoTree,
)
    requires
        old(buffer).wf(),
    ensures
        final(buffer).wf(),
        snapshot(*final(buffer), *final(register_handler), *final(mode), *final(undo_tree))
            == new_line_above_state(
            snapshot(*old(buffer), *old(register_handler), *old(mode), *old(undo_tree)),
        ),
{
    buffer.start_of_line();
    buffer.insert_char('\n');
    undo_tree.new_action(Action::insert(buffer.cursor, char_to_string('\n')));
    mode.insert();
    buffer.has_changed = true;
}

/// Puts the text of the active register in front of the cursor's offset.
pub fn paste(
    buffer: &mut Buffer,
    register_handler: &mut RegisterHandler,
    mode: &mut Mode,
    undo_tree: &mut UndoTree,
)
    requires
        old(buffer).wf(),
    ensures
        final(buffer).wf(),
        snapshot(*final(buffer), *final(register_handler), *final(mode), *final(undo_tree))
            == paste_state(
            snapshot(*old(buffer), *old(register_handler), *old(mode), *old(undo_tree)),
        ),
{
    let contents = register_handler.get_reg();
    buffer.insert_text(contents.as_str());
    undo_tree.new_action(Action::insert(buffer.cursor, contents));
}

/// Makes the register that `key` names the active one, and empties it.
pub fn double_quote_cmd(
    key: Option<char>,
    buffer: &mut Buffer,
    register_handler: &mut RegisterHandler,
    mode: &mut Mode,
    undo_tree: &mut UndoTree,
)
    ensures
        *final(buffer) == *old(buffer),
        snapshot(*final(buffer), *final(register_handler), *final(mode), *final(undo_tree))
            == register_chosen(
            snapshot(*old(buffer), *old(register_handler), *old(mode), *old(undo_tree)),
            key,
        ),
{
    if let Some(k) = key {
        register_handler.init_reg(char_to_string(k), String::new());
    }
}

/// Puts `key` in the place of the character under the cursor.
pub fn replace(
    key: Option<char>,
    buffer: &mut Buffer,
    register_handler: &mut RegisterHandler,
    mode: &mut Mode,
    undo_tree: &mut UndoTree,
)
    requires
        old(buffer).wf(),
    ensures
        final(buffer).wf(),
        snapshot(*final(buffer), *final(register_handler), *final(mode), *final(undo_tree))
            == replace_state(
            snapshot(*old(buffer), *old(register_handler), *old(mode), *old(undo_tree)),
            key,
        ),
{
    if let Some(c) = key {
        if buffer.cursor < buffer.rope.len_chars() {
            let was = buffer.get_curr_char();
            buffer.replace_curr_char(c);
            let mut positions: Vec<usize> = Vec::new();
            positions.push(buffer.cursor + 1);
            assert(positions@ =~= seq![(buffer.cursor + 1) as usize]);
            undo_tree.new_action(Action::replace(positions, char_to_string(was), char_to_string(c)));
        }
    }
}

/// Moves the cursor to the last line.
pub fn last_row(
    buffer: &mut Buffer,
    register_handler: &mut RegisterHandler,
    mode: &mut Mode,
    undo_tree: &mut UndoTree,
)
    requires
        old(buffer).cursor_ok(),
    ensures
        final(buffer).moved_from(*old(buffer)),
        final(buffer).cursor == row_target(
            old(buffer).text(),
            old(buffer).cursor as int,
            line_count(old(buffer).text()) - 1,
        ),
        *final(register_handler) == *old(register_handler),
        *final(mode) == *old(mode),
        *final(undo_tree) == *old(undo_tree),
{
    let last_row = buffer.len() - 1;
    buffer.set_row(last_row);
}

/// Moves the cursor to the first line.
pub fn first_row(
    buffer: &mut Buffer,
    register_handler: &mut RegisterHandler,
    mode: &mut Mode,
    undo_tree: &mut UndoTree,
)
    requires
        old(buffer).cursor_ok(),
    ensures
        final(buffer).moved_from(*old(buffer)),
        final(buffer).cursor == row_target(old(buffer).text(), old(buffer).cursor as int, 0),
        *final(register_handler) == *old(register_handler),
        *final(mode) == *old(mode),
        *final(undo_tree) == *old(undo_tree),
{
    buffer.set_row(0);
}

/// Takes back the newest action of the log.
pub fn undo(
    buffer: &mut Buffer,
    register_handler: &mut RegisterHandler,
    mode: &mut Mode,
    undo_tree: &mut UndoTree,
)
    requires
        old(buffer).wf(),
    ensures
        final(buffer).wf(),
        snapshot(*final(buffer), *final(register_handler), *final(mode), *final(undo_tree))
            == undo_state(
            snapshot(*old(buffer), *old(register_handler), *old(mode), *old(undo_tree)),
        ),
{
    undo_tree.undo(buffer);
}

impl<'a> Named for Command<'a> {
    open spec fn name_view(&self) -> Seq<char> {
        self.name@
    }

    fn entry_name(&self) -> (name: &str) {
        self.name
    }
}

} // verus!
