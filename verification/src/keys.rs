//! What a key does in normal mode and in insert mode.

use vstd::prelude::*;
use crate::action::{
    count_after_digit, dispatched, match_action, reset, resume, resumed, Awaiting, Chord,
    DispatchState, Dispatched, Key, Outcome,
};
use crate::buffer::Buffer;
use crate::buffer_char::{alignment_cut, spaces_back};
use crate::buffer_line::first_non_whitespace;
use crate::buffer_update::{flags_cut, flags_line_added, lemma_flags_cut_more};
use crate::chars::{decimal_value, to_decimal_digit};
use crate::commands::{char_to_string, Command};
use crate::mode::Mode;
use crate::motion::{next_row, next_row_target, prev_row, prev_row_target, Motion};
use crate::operator::Operator;
use crate::register::RegisterHandler;
use crate::state::{snapshot, Snapshot};
use crate::text::{
    count_lf, cut_out, lemma_line_of_bound, line_of, line_start, repeat, splice_in,
};
use crate::text_object::TextObject;
use crate::undo::{log_merged, Action, ActionView, UndoTree};
use crate::view_command::ViewCommand;

verus! {

/// Where an arrow key takes the cursor; any other key leaves it.
pub open spec fn arrow_target(key: Key, s: Seq<char>, c: int) -> int {
    match key {
        Key::Left => if c > 0 {
            c - 1
        } else {
            0
        },
        Key::Right => if c < s.len() {
            c + 1
        } else {
            c
        },
        Key::Up => prev_row_target(s, c),
        Key::Down => next_row_target(s, c),
        _ => c,
    }
}

/// The step that normal mode takes on `key`.
///
/// A suspended chord takes any key for its answer. Else Escape resets the
/// pending state; a digit goes into the count; the colon enters the command
/// line; an arrow moves the cursor; a character of the alphabet goes to the
/// chord; and anything else is dropped.
#[verifier::opaque]
pub open spec fn keyed(
    ch: Chord,
    key: Key,
    alphabet: Seq<char>,
    st: Snapshot,
    commands: Seq<Command>,
    operators: Seq<Operator>,
    motions: Seq<Motion>,
    text_objects: Seq<TextObject>,
    view_commands: Seq<ViewCommand>,
) -> Dispatched {
    if ch.awaiting != Awaiting::Nothing {
        resumed(ch, key.character(), st, commands, operators, motions)
    } else {
        match key {
            Key::Esc => Dispatched { chord: ch.reset(), state: st, outcome: Outcome::Reset },
            Key::Char(c) => if let Some(d) = decimal_value(c) {
                Dispatched {
                    chord: Chord { count: count_after_digit(ch.count, d as int), ..ch },
                    state: st,
                    outcome: Outcome::Pending,
                }
            } else if c == ':' {
                Dispatched {
                    chord: ch,
                    state: Snapshot { mode: Mode::Meta, ..st },
                    outcome: Outcome::Meta,
                }
            } else if alphabet.contains(c) {
                dispatched(ch, c, st, commands, operators, motions, text_objects, view_commands)
            } else {
                Dispatched { chord: ch, state: st, outcome: Outcome::Ignored }
            },
            Key::Left | Key::Right | Key::Up | Key::Down => Dispatched {
                chord: ch,
                state: st.with_cursor(arrow_target(key, st.text, st.cursor)),
                outcome: Outcome::Moved,
            },
            _ => Dispatched { chord: ch, state: st, outcome: Outcome::Ignored },
        }
    }
}

/// The state after the character `c` was typed in insert mode: it stands
/// before the cursor, the cursor's line is flagged, and the insertion is
/// coalesced with the newest action of the log.
pub open spec fn state_typed(st: Snapshot, c: char) -> Snapshot {
    (Snapshot {
        text: st.text.insert(st.cursor, c),
        cursor: st.cursor + 1,
        flags: if c == '\n' {
            flags_line_added(st.flags, st.row())
        } else {
            st.flags
        },
        log: log_merged(
            st.log,
            ActionView::Insert { position: st.cursor as nat, text: seq![c] },
        ),
        ..st
    }).with_line_flagged()
}

/// The number of characters that a backspace removes before offset `c`:
/// one, or, where spaces end there, as many as reach back to a column that
/// is a multiple of four.
pub open spec fn backspace_width(s: Seq<char>, c: int) -> int {
    if spaces_back(s, c - 1) >= 1 {
        alignment_cut(spaces_back(s, c - 1)) as int
    } else {
        1
    }
}

/// The state after a backspace in insert mode.
pub open spec fn state_backspaced(st: Snapshot) -> Snapshot {
    if st.cursor <= 0 {
        st
    } else {
        let from = st.cursor - backspace_width(st.text, st.cursor);
        (Snapshot {
            text: cut_out(st.text, from, st.cursor),
            cursor: from,
            flags: flags_cut(
                st.flags,
                line_of(st.text, from) as int,
                count_lf(st.text.subrange(from, st.cursor)) as int,
            ),
            log: log_merged(
                st.log,
                ActionView::Delete {
                    position: from as nat,
                    text: st.text.subrange(from, st.cursor),
                },
            ),
            ..st
        }).with_line_flagged()
    }
}

/// The state after a tab in insert mode: four spaces.
pub open spec fn state_tabbed(st: Snapshot) -> Snapshot {
    (Snapshot {
        text: splice_in(st.text, st.cursor, repeat(' ', 4)),
        cursor: st.cursor + 4,
        log: log_merged(
            st.log,
            ActionView::Insert { position: st.cursor as nat, text: repeat(' ', 4) },
        ),
        ..st
    }).with_line_flagged()
}

/// What Enter inserts in insert mode: a line feed, and a space for each
/// whitespace character that leads the line.
pub open spec fn line_break_text(s: Seq<char>, c: int) -> Seq<char> {
    seq!['\n'] + repeat(' ', (first_non_whitespace(s, c) - line_start(s, c)) as nat)
}

/// The state after Enter in insert mode.
pub open spec fn state_entered(st: Snapshot) -> Snapshot {
    Snapshot {
        text: splice_in(st.text, st.cursor, line_break_text(st.text, st.cursor)),
        cursor: st.cursor + line_break_text(st.text, st.cursor).len(),
        flags: flags_line_added(st.flags, st.row()),
        has_changed: true,
        log: st.log.push(
            ActionView::Insert {
                position: st.cursor as nat,
                text: line_break_text(st.text, st.cursor),
            },
        ),
        ..st
    }
}

/// The state after Escape in insert mode: normal mode, with the cursor back
/// on the character before it unless it stands at the start of a line.
pub open spec fn state_escaped(st: Snapshot) -> Snapshot {
    Snapshot {
        cursor: if st.cursor != line_start(st.text, st.cursor) {
            st.cursor - 1
        } else {
            st.cursor
        },
        mode: Mode::Normal,
        ..st
    }
}

/// The state after `key` in insert mode.
pub open spec fn insert_keyed(st: Snapshot, key: Key) -> Snapshot {
    match key {
        Key::Char(c) => state_typed(st, c),
        Key::Esc => state_escaped(st),
        Key::Backspace => state_backspaced(st),
        Key::Tab => state_tabbed(st),
        Key::Enter => state_entered(st),
        Key::Left | Key::Right | Key::Up | Key::Down => st.with_cursor(
            arrow_target(key, st.text, st.cursor),
        ),
        Key::Other => st,
    }
}

/// Spaces that end at an offset lie within the document and behind its
/// first character, and a backspace removes at least one of them and no
/// more than there are.
pub proof fn lemma_spaces_back(s: Seq<char>, i: int)
    ensures
        spaces_back(s, i) >= 1 ==> 0 < i < s.len(),
        0 <= i ==> spaces_back(s, i) <= i,
        alignment_cut(spaces_back(s, i)) <= spaces_back(s, i),
        spaces_back(s, i) >= 1 ==> alignment_cut(spaces_back(s, i)) >= 1,
    decreases i,
{
    if 0 < i < s.len() && s[i] == ' ' {
        lemma_spaces_back(s, i - 1);
    }
}

/// Whether `c` is one of `chars`.
pub fn contains_char(chars: &Vec<char>, c: char) -> (r: bool)
    ensures
        r == chars@.contains(c),
{
    let mut i: usize = 0;
    while i < chars.len()
        invariant
            i <= chars@.len(),
            forall|k: int| 0 <= k < i ==> chars@[k] != c,
        decreases chars@.len() - i,
    {
        if chars[i] == c {
            return true;
        }
        i += 1;
    }
    false
}

/// Moves the cursor as an arrow key says; any other key leaves it.
pub fn arrow_key(key: Key, buffer: &mut Buffer)
    requires
        old(buffer).cursor_ok(),
    ensures
        final(buffer).moved_from(*old(buffer)),
        final(buffer).cursor == arrow_target(key, old(buffer).text(), old(buffer).cursor as int),
{
    match key {
        Key::Left => {
            buffer.prev_char();
        },
        Key::Right => {
            buffer.next_char();
        },
        Key::Up => {
            prev_row(buffer);
        },
        Key::Down => {
            next_row(buffer);
        },
        _ => {},
    }
}

/// Handles one key of normal mode.
pub fn normal_mode_key(
    state: &mut DispatchState,
    key: Key,
    alphabet: &Vec<char>,
    register_handler: &mut RegisterHandler,
    undo_tree: &mut UndoTree,
    buffer: &mut Buffer,
    mode: &mut Mode,
    commands: &[Command],
    operators: &[Operator],
    motions: &[Motion],
    text_objects: &[TextObject],
    view_commands: &[ViewCommand],
) -> (outcome: Outcome)
    requires
        old(buffer).wf(),
        old(state)@.fits(commands@.len() as int, operators@.len() as int, motions@.len() as int),
    ensures
        final(buffer).wf(),
        final(state)@.fits(commands@.len() as int, operators@.len() as int, motions@.len() as int),
        (Dispatched {
            chord: final(state)@,
            state: snapshot(
                *final(buffer),
                *final(register_handler),
                *final(mode),
                *final(undo_tree),
            ),
            outcome,
        }) == keyed(
            old(state)@,
            key,
            alphabet@,
            snapshot(*old(buffer), *old(register_handler), *old(mode), *old(undo_tree)),
            commands@,
            operators@,
            motions@,
            text_objects@,
            view_commands@,
        ),
{
    reveal(keyed);
    if state.awaiting != Awaiting::Nothing {
        return resume(
            state,
            key.as_char(),
            register_handler,
            undo_tree,
            buffer,
            mode,
            commands,
            operators,
            motions,
        );
    }
    match key {
        Key::Esc => {
            reset(state);
            Outcome::Reset
        },
        Key::Char(c) => {
            if let Some(d) = to_decimal_digit(c) {
                state.push_count_digit(d);
                Outcome::Pending
            } else if c == ':' {
                *mode = Mode::Meta;
                Outcome::Meta
            } else if contains_char(alphabet, c) {
                match_action(
                    state,
                    c,
                    register_handler,
                    undo_tree,
                    buffer,
                    mode,
                    commands,
                    operators,
                    motions,
                    text_objects,
                    view_commands,
                )
            } else {
                Outcome::Ignored
            }
        },
        Key::Left | Key::Right | Key::Up | Key::Down => {
            arrow_key(key, buffer);
            Outcome::Moved
        },
        _ => Outcome::Ignored,
    }
}

/// Types `c` in front of the cursor's offset and moves the cursor behind
/// it. The insertion is coalesced with the newest action of the log.
pub fn type_char(c: char, buffer: &mut Buffer, undo_tree: &mut UndoTree)
    requires
        old(buffer).wf(),
    ensures
        final(buffer).wf(),
        final(buffer).text() == old(buffer).text().insert(old(buffer).cursor as int, c),
        final(buffer).cursor == old(buffer).cursor + 1,
        final(undo_tree)@ == log_merged(
            old(undo_tree)@,
            ActionView::Insert { position: old(buffer).cursor as nat, text: seq![c] },
        ),
        final(buffer).has_changed,
        final(buffer).lines_for_updating@ == (if c == '\n' {
            flags_line_added(old(buffer).lines_for_updating@, old(buffer).row() as int)
        } else {
            old(buffer).lines_for_updating@
        }).update(final(buffer).row() as int, true),
{
    let at = buffer.cursor;
    buffer.insert_char(c);
    buffer.next_char();
    proof {
        lemma_line_of_bound(buffer.text(), buffer.cursor as int);
    }
    buffer.update_list_use_current_line();
    undo_tree.new_action_merge(Action::insert(at, char_to_string(c)));
}

/// Removes the character before the cursor, or the spaces before it back to
/// a column that is a multiple of four. The removal is coalesced with the
/// newest action of the log.
pub fn backspace(buffer: &mut Buffer, undo_tree: &mut UndoTree)
    requires
        old(buffer).wf(),
    ensures
        final(buffer).wf(),
        old(buffer).cursor == 0 ==> *final(buffer) == *old(buffer) && *final(undo_tree) == *old(undo_tree),
        old(buffer).cursor > 0 ==> {
            let from = old(buffer).cursor - backspace_width(
                old(buffer).text(),
                old(buffer).cursor as int,
            );
            &&& final(buffer).text() == cut_out(old(buffer).text(), from, old(buffer).cursor as int)
            &&& final(buffer).cursor == from
            &&& final(buffer).has_changed
            &&& final(buffer).lines_for_updating@ == flags_cut(
                old(buffer).lines_for_updating@,
                line_of(old(buffer).text(), from) as int,
                count_lf(old(buffer).text().subrange(from, old(buffer).cursor as int)) as int,
            ).update(final(buffer).row() as int, true)
            &&& final(undo_tree)@ == log_merged(
                old(undo_tree)@,
                ActionView::Delete {
                    position: from as nat,
                    text: old(buffer).text().subrange(from, old(buffer).cursor as int),
                },
            )
        },
{
    if buffer.cursor == 0 {
        return ;
    }
    let ghost s = buffer.text();
    buffer.cursor -= 1;
    proof {
        lemma_spaces_back(s, buffer.cursor as int);
    }
    let spaces = buffer.count_spaces_backwards();
    let deleted = if spaces >= 1 {
        buffer.delete_to_4_spaces_alignment(spaces)
    } else {
        let c = buffer.get_curr_char();
        proof {
            lemma_line_of_bound(s, buffer.cursor as int);
            lemma_flags_cut_more(old(buffer).lines_for_updating@, buffer.row() as int, 0);
            crate::text::lemma_count_lf_single(c);
        }
        buffer.delete_curr_char();
        proof {
            assert(buffer.text() =~= cut_out(s, buffer.cursor as int, buffer.cursor + 1));
            assert(seq![c] =~= s.subrange(buffer.cursor as int, buffer.cursor + 1));
        }
        char_to_string(c)
    };
    proof {
        lemma_line_of_bound(buffer.text(), buffer.cursor as int);
    }
    buffer.update_list_use_current_line();
    undo_tree.new_action_merge(Action::delete(buffer.cursor, deleted));
}

/// Handles one key of insert mode.
pub fn insert_mode_key(
    key: Key,
    register_handler: &RegisterHandler,
    undo_tree: &mut UndoTree,
    buffer: &mut Buffer,
    mode: &mut Mode,
)
    requires
        old(buffer).wf(),
    ensures
        final(buffer).wf(),
        snapshot(*final(buffer), *register_handler, *final(mode), *final(undo_tree))
            == insert_keyed(
            snapshot(*old(buffer), *register_handler, *old(mode), *old(undo_tree)),
            key,
        ),
{
    match key {
        Key::Char(c) => {
            type_char(c, buffer, undo_tree);
        },
        Key::Esc => {
            if buffer.cursor != buffer.get_start_of_line() {
                buffer.cursor -= 1;
            }
            mode.normal();
        },
        Key::Backspace => {
            backspace(buffer, undo_tree);
        },
        Key::Tab => {
            let at = buffer.cursor;
            buffer.insert_char_n_times(' ', 4);
            buffer.next_char();
            buffer.next_char();
            buffer.next_char();
            buffer.next_char();
            proof {
                lemma_line_of_bound(buffer.text(), buffer.cursor as int);
            }
            buffer.update_list_use_current_line();
            let mut text = String::new();
            text.push(' ');
            text.push(' ');
            text.push(' ');
            text.push(' ');
            assert(text@ =~= repeat(' ', 4));
            undo_tree.new_action_merge(Action::insert(at, text));
        },
        Key::Enter => {
            let at = buffer.cursor;
            proof {
                crate::text::lemma_line_start(buffer.text(), at as int);
                crate::text::lemma_skip_while(
                    buffer.text(),
                    line_start(buffer.text(), at as int),
                    buffer.text().len() as int,
                    crate::buffer_line::is_space(),
                );
            }
            let inserted = buffer.insert_newline();
            undo_tree.new_action(Action::insert(at, inserted));
        },
        Key::Left | Key::Right | Key::Up | Key::Down => {
            arrow_key(key, buffer);
        },
        Key::Other => {},
    }
}

/// The pending state and the editor's state after one key, whatever the
/// mode: normal mode and insert mode take the key as their own; in the
/// other modes only the arrows do anything here.
pub open spec fn after_key(
    ch: Chord,
    st: Snapshot,
    key: Key,
    alphabet: Seq<char>,
    commands: Seq<Command>,
    operators: Seq<Operator>,
    motions: Seq<Motion>,
    text_objects: Seq<TextObject>,
    view_commands: Seq<ViewCommand>,
) -> (Chord, Snapshot) {
    match st.mode {
        Mode::Normal => {
            let step = keyed(
                ch,
                key,
                alphabet,
                st,
                commands,
                operators,
                motions,
                text_objects,
                view_commands,
            );
            (step.chord, step.state)
        },
        Mode::Insert => (ch, insert_keyed(st, key)),
        _ => (ch, st.with_cursor(arrow_target(key, st.text, st.cursor))),
    }
}

/// The pending state and the editor's state after the first `n` of `keys`,
/// one after the other.
pub open spec fn after_keys(
    ch: Chord,
    st: Snapshot,
    keys: Seq<Key>,
    n: int,
    alphabet: Seq<char>,
    commands: Seq<Command>,
    operators: Seq<Operator>,
    motions: Seq<Motion>,
    text_objects: Seq<TextObject>,
    view_commands: Seq<ViewCommand>,
) -> (Chord, Snapshot)
    decreases n,
{
    if n <= 0 {
        (ch, st)
    } else {
        let before = after_keys(
            ch,
            st,
            keys,
            n - 1,
            alphabet,
            commands,
            operators,
            motions,
            text_objects,
            view_commands,
        );
        after_key(
            before.0,
            before.1,
            keys[n - 1],
            alphabet,
            commands,
            operators,
            motions,
            text_objects,
            view_commands,
        )
    }
}

/// Handles a sequence of keys, each in the mode that the keys before it
/// left. Whatever the keys are, the buffer stays well formed: the cursor
/// lies within the document and the redraw flags follow its lines.
pub fn feed_keys(
    state: &mut DispatchState,
    keys: &Vec<Key>,
    alphabet: &Vec<char>,
    register_handler: &mut RegisterHandler,
    undo_tree: &mut UndoTree,
    buffer: &mut Buffer,
    mode: &mut Mode,
    commands: &[Command],
    operators: &[Operator],
    motions: &[Motion],
    text_objects: &[TextObject],
    view_commands: &[ViewCommand],
)
    requires
        old(buffer).wf(),
        old(state)@.fits(commands@.len() as int, operators@.len() as int, motions@.len() as int),
    ensures
        final(buffer).wf(),
        final(state)@.fits(commands@.len() as int, operators@.len() as int, motions@.len() as int),
        (
            final(state)@,
            snapshot(
                *final(buffer),
                *final(register_handler),
                *final(mode),
                *final(undo_tree),
            ),
        ) == after_keys(
            old(state)@,
            snapshot(*old(buffer), *old(register_handler), *old(mode), *old(undo_tree)),
            keys@,
            keys@.len() as int,
            alphabet@,
            commands@,
            operators@,
            motions@,
            text_objects@,
            view_commands@,
        ),
{
    let ghost ch0 = state@;
    let ghost st0 = snapshot(*buffer, *register_handler, *mode, *undo_tree);
    let mut i: usize = 0;
    while i < keys.len()
        invariant
            i <= keys@.len(),
            buffer.wf(),
            state@.fits(commands@.len() as int, operators@.len() as int, motions@.len() as int),
            (state@, snapshot(*buffer, *register_handler, *mode, *undo_tree)) == after_keys(
                ch0,
                st0,
                keys@,
                i as int,
                alphabet@,
                commands@,
                operators@,
                motions@,
                text_objects@,
                view_commands@,
            ),
        decreases keys@.len() - i,
    {
        let key = keys[i];
        match *mode {
            Mode::Normal => {
                normal_mode_key(
                    state,
                    key,
                    alphabet,
                    register_handler,
                    undo_tree,
                    buffer,
                    mode,
                    commands,
                    operators,
                    motions,
                    text_objects,
                    view_commands,
                );
            },
            Mode::Insert => {
                insert_mode_key(key, register_handler, undo_tree, buffer, mode);
            },
            _ => {
                arrow_key(key, buffer);
            },
        }
        i += 1;
    }
}

} // verus!
