//! The chord dispatcher: the state machine that turns keystrokes of normal
//! mode into counts, operators, motions, text objects and commands.

use vstd::prelude::*;
use vstd::string::StrSliceExecFns;
use crate::buffer::Buffer;
use crate::commands::{command_needs_key, commanded, Command, CommandKind};
use crate::mode::Mode;
use crate::motion::{motion_target, needs_key, Motion};
use crate::named::{
    chars_of, collect_name_chars, find_by_name, find_by_trigger, first_named, first_with_trigger,
    names_of,
};
use crate::operator::{executed, line_operated, object_operated, Operator, OperatorKind};
use crate::register::RegisterHandler;
use crate::state::{snapshot, Snapshot};
use crate::text_object::{TextObject, TextObjectType};
use crate::undo::UndoTree;
use crate::view_command::ViewCommand;

verus! {

/// A key as the dispatcher sees it.
#[derive(Clone, Copy, Debug, PartialEq, Eq, Structural)]
pub enum Key {
    Char(char),
    Esc,
    Enter,
    Backspace,
    Tab,
    Left,
    Right,
    Up,
    Down,
    Other,
}

impl Key {
    /// The character of the key, where it is one.
    pub open spec fn character(self) -> Option<char> {
        match self {
            Key::Char(c) => Some(c),
            _ => None,
        }
    }

    /// The character of the key, where it is one.
    pub fn as_char(self) -> (c: Option<char>)
        ensures
            c == self.character(),
    {
        match self {
            Key::Char(c) => Some(c),
            _ => None,
        }
    }
}

/// What the dispatcher waits for while a chord is suspended for one more
/// key. The numbers are indices into the tables.
#[derive(Clone, Copy, Debug, PartialEq, Eq, Structural)]
pub enum Awaiting {
    Nothing,
    /// The key of a motion that moves the cursor.
    MotionKey(usize),
    /// The key of a motion that gives an operator its range: the operator,
    /// then the motion.
    OperatorMotionKey(usize, usize),
    /// The key of a command.
    CommandKey(usize),
}

/// What a keystroke led to.
#[derive(Clone, Copy, Debug, PartialEq, Eq, Structural)]
pub enum Outcome {
    /// The chord is not complete.
    Pending,
    /// The chord ran and the state was reset.
    Executed,
    /// The chord waits for one more key, whatever key that is.
    AwaitingKey,
    /// The chord names a view command, for the owner of the view to run
    /// `count` times; the state was reset.
    ViewCommand { index: usize, count: u16 },
    /// The colon that opens the command line.
    Meta,
    /// Escape cleared what was pending.
    Reset,
    /// An arrow key moved the cursor.
    Moved,
    /// The key means nothing here and was dropped.
    Ignored,
}

/// The pending state of the dispatcher.
pub struct DispatchState {
    pub chained: Vec<char>,
    pub count: u16,
    pub pending_operator: Option<usize>,
    pub pending_text_object_kind: Option<TextObjectType>,
    pub awaiting: Awaiting,
    pub last_chained: Vec<char>,
    pub last_count: u16,
}

/// The pending state as a mathematical value.
pub struct Chord {
    pub chained: Seq<char>,
    pub count: int,
    pub operator: Option<usize>,
    pub kind: Option<TextObjectType>,
    pub awaiting: Awaiting,
    pub last_chained: Seq<char>,
    pub last_count: int,
}

impl View for DispatchState {
    type V = Chord;

    open spec fn view(&self) -> Chord {
        Chord {
            chained: self.chained@,
            count: self.count as int,
            operator: self.pending_operator,
            kind: self.pending_text_object_kind,
            awaiting: self.awaiting,
            last_chained: self.last_chained@,
            last_count: self.last_count as int,
        }
    }
}

impl Chord {
    /// The state after a reset: nothing is pending and the count is 1. The
    /// chord and the count that were pending are kept as the last ones.
    pub open spec fn reset(self) -> Chord {
        Chord {
            chained: Seq::<char>::empty(),
            count: 1,
            operator: None,
            kind: None,
            awaiting: Awaiting::Nothing,
            last_chained: self.chained,
            last_count: self.count,
        }
    }

    /// Every index that the state holds points into its table.
    pub open spec fn fits(self, commands: int, operators: int, motions: int) -> bool {
        &&& self.operator matches Some(o) ==> o < operators
        &&& match self.awaiting {
            Awaiting::Nothing => true,
            Awaiting::MotionKey(m) => m < motions,
            Awaiting::OperatorMotionKey(o, m) => o < operators && m < motions,
            Awaiting::CommandKey(k) => k < commands,
        }
    }
}

/// The count after the digit `digit` was keyed in: the digit is appended,
/// where a count of 1 stands for no count yet. The count stops at the
/// largest that it can hold. A leading zero begins a count like any digit,
/// and so gives the count zero.
pub open spec fn count_after_digit(count: int, digit: int) -> int {
    let grown = (if count == 1 {
        0
    } else {
        count
    }) * 10 + digit;
    if grown <= u16::MAX {
        grown
    } else {
        u16::MAX as int
    }
}

/// `f` applied `n` times to `st`.
pub open spec fn repeated(f: spec_fn(Snapshot) -> Snapshot, n: nat, st: Snapshot) -> Snapshot
    decreases n,
{
    if n == 0 {
        st
    } else {
        f(repeated(f, (n - 1) as nat, st))
    }
}

/// One application of a motion to the cursor.
pub open spec fn motion_step(motion: Motion, key: Option<char>) -> spec_fn(Snapshot) -> Snapshot {
    |st: Snapshot| st.with_cursor(motion_target(motion.command, st.text, st.cursor, key))
}

/// One run of an operator over the range of a motion.
pub open spec fn operator_step(kind: OperatorKind, motion: Motion, key: Option<char>) -> spec_fn(
    Snapshot,
) -> Snapshot {
    |st: Snapshot| executed(kind, motion, key, st)
}

/// One run of an operator over the cursor's line.
pub open spec fn line_step(kind: OperatorKind) -> spec_fn(Snapshot) -> Snapshot {
    |st: Snapshot| line_operated(kind, st)
}

/// One run of an operator over a text object.
pub open spec fn object_step(kind: OperatorKind, object: TextObject, which: TextObjectType) -> spec_fn(
    Snapshot,
) -> Snapshot {
    |st: Snapshot| object_operated(kind, object, which, st)
}

/// One run of a command.
pub open spec fn command_step(kind: CommandKind, key: Option<char>) -> spec_fn(Snapshot) -> Snapshot {
    |st: Snapshot| commanded(kind, key, st)
}

/// A step of the dispatcher: the pending state, the editor's state and the
/// outcome after it.
pub struct Dispatched {
    pub chord: Chord,
    pub state: Snapshot,
    pub outcome: Outcome,
}

/// The step that leaves the chord pending with `chord`.
pub open spec fn pending(chord: Chord, st: Snapshot) -> Dispatched {
    Dispatched { chord, state: st, outcome: Outcome::Pending }
}

/// The step that ran a chord to the state `st`.
pub open spec fn ran(chord: Chord, st: Snapshot) -> Dispatched {
    Dispatched { chord: chord.reset(), state: st, outcome: Outcome::Executed }
}

/// The step that suspends the chord for one more key.
pub open spec fn suspended(chord: Chord, awaiting: Awaiting, st: Snapshot) -> Dispatched {
    Dispatched { chord: Chord { awaiting, ..chord }, state: st, outcome: Outcome::AwaitingKey }
}

/// The step that a suspended chord takes on the key it waited for: what it
/// waited to do runs `count` times with that key, then the state is reset.
/// Any key is taken for the answer.
pub open spec fn resumed(
    ch: Chord,
    key: Option<char>,
    st: Snapshot,
    commands: Seq<Command>,
    operators: Seq<Operator>,
    motions: Seq<Motion>,
) -> Dispatched {
    match ch.awaiting {
        Awaiting::Nothing => Dispatched { chord: ch, state: st, outcome: Outcome::Ignored },
        Awaiting::MotionKey(m) => ran(
            ch,
            repeated(motion_step(motions[m as int], key), ch.count as nat, st),
        ),
        Awaiting::OperatorMotionKey(o, m) => ran(
            ch,
            repeated(
                operator_step(operators[o as int].command, motions[m as int], key),
                ch.count as nat,
                st,
            ),
        ),
        Awaiting::CommandKey(k) => ran(
            ch,
            repeated(command_step(commands[k as int].command, key), ch.count as nat, st),
        ),
    }
}

/// The step that the dispatcher takes on the accepted character `c`.
///
/// The character joins the chord. With an operator pending, it names, in
/// this order: the motion that gives the operator its range; `i` or `a`,
/// for a text object without or with its delimiters; the operator itself,
/// for the whole line; or, after `i` or `a`, a text object. With none
/// pending, the chord names a command or a view command by its whole name, a
/// motion by a single character, or an operator, which then is pending.
/// What it names runs `count` times and the state is reset; a motion or
/// command that needs one more key suspends the chord instead.
#[verifier::opaque]
pub open spec fn dispatched(
    ch: Chord,
    c: char,
    st: Snapshot,
    commands: Seq<Command>,
    operators: Seq<Operator>,
    motions: Seq<Motion>,
    text_objects: Seq<TextObject>,
    view_commands: Seq<ViewCommand>,
) -> Dispatched {
    let chord = Chord { chained: ch.chained.push(c), ..ch };
    let n = ch.count as nat;
    if ch.awaiting != Awaiting::Nothing {
        resumed(ch, Some(c), st, commands, operators, motions)
    } else if let Some(o) = ch.operator {
        let kind = operators[o as int].command;
        if let Some(m) = first_with_trigger(names_of(motions), c, 0) {
            if needs_key(motions[m].command) {
                suspended(chord, Awaiting::OperatorMotionKey(o, m as usize), st)
            } else {
                ran(chord, repeated(operator_step(kind, motions[m], None), n, st))
            }
        } else if c == 'i' {
            pending(Chord { kind: Some(TextObjectType::Inside), ..chord }, st)
        } else if c == 'a' {
            pending(Chord { kind: Some(TextObjectType::Around), ..chord }, st)
        } else if operators[o as int].name@.len() > 0 && operators[o as int].name@.last() == c {
            ran(chord, repeated(line_step(kind), n, st))
        } else if ch.kind is Some && first_with_trigger(names_of(text_objects), c, 0) is Some {
            ran(
                chord,
                repeated(
                    object_step(
                        kind,
                        text_objects[first_with_trigger(names_of(text_objects), c, 0)->Some_0],
                        ch.kind->Some_0,
                    ),
                    n,
                    st,
                ),
            )
        } else {
            pending(chord, st)
        }
    } else if let Some(k) = first_named(names_of(commands), chord.chained, 0) {
        if command_needs_key(commands[k].command) {
            suspended(chord, Awaiting::CommandKey(k as usize), st)
        } else {
            ran(chord, repeated(command_step(commands[k].command, None), n, st))
        }
    } else if let Some(v) = first_named(names_of(view_commands), chord.chained, 0) {
        Dispatched {
            chord: chord.reset(),
            state: st,
            outcome: Outcome::ViewCommand { index: v as usize, count: ch.count as u16 },
        }
    } else if chord.chained.len() == 1 && first_with_trigger(names_of(motions), c, 0) is Some {
        let m = first_with_trigger(names_of(motions), c, 0)->Some_0;
        if needs_key(motions[m].command) {
            suspended(chord, Awaiting::MotionKey(m as usize), st)
        } else {
            ran(chord, repeated(motion_step(motions[m], None), n, st))
        }
    } else if let Some(o) = first_named(names_of(operators), chord.chained, 0) {
        pending(Chord { operator: Some(o as usize), ..chord }, st)
    } else {
        pending(chord, st)
    }
}

impl DispatchState {
    /// Nothing pending; the count is 1.
    pub fn new() -> (s: DispatchState)
        ensures
            s@ == (Chord {
                chained: Seq::<char>::empty(),
                count: 1,
                operator: None,
                kind: None,
                awaiting: Awaiting::Nothing,
                last_chained: Seq::<char>::empty(),
                last_count: 1,
            }),
    {
        DispatchState {
            chained: Vec::new(),
            count: 1,
            pending_operator: None,
            pending_text_object_kind: None,
            awaiting: Awaiting::Nothing,
            last_chained: Vec::new(),
            last_count: 1,
        }
    }

    /// Takes the digit `digit` into the count.
    pub fn push_count_digit(&mut self, digit: u32)
        requires
            digit <= 9,
        ensures
            final(self)@ == (Chord {
                count: count_after_digit(old(self).count as int, digit as int),
                ..old(self)@
            }),
    {
        let base: u32 = if self.count == 1 {
            0
        } else {
            self.count as u32
        };
        let grown: u32 = base * 10 + digit;
        self.count = if grown <= 65535 {
            grown as u16
        } else {
            65535
        };
    }
}

/// Clears the pending state: the chord, both pending fields and what the
/// dispatcher waits for; the count returns to 1. The chord and count that
/// were pending are kept as the last ones.
pub fn reset(state: &mut DispatchState)
    ensures
        final(state)@ == old(state)@.reset(),
{
    let mut last: Vec<char> = Vec::new();
    let mut i: usize = 0;
    while i < state.chained.len()
        invariant
            i <= state.chained@.len(),
            last@ == state.chained@.take(i as int),
            *state == *old(state),
        decreases state.chained@.len() - i,
    {
        last.push(state.chained[i]);
        i += 1;
        assert(last@ =~= state.chained@.take(i as int));
    }
    assert(last@ =~= state.chained@);
    state.last_chained = last;
    state.last_count = state.count;
    state.chained = Vec::new();
    state.count = 1;
    state.pending_operator = None;
    state.pending_text_object_kind = None;
    state.awaiting = Awaiting::Nothing;
}

/// The characters that normal mode accepts: those of every name in the
/// tables, table after table. Any other character is dropped before it
/// reaches the chord.
pub fn enumerate_normal_chars(
    commands: &[Command],
    operators: &[Operator],
    motions: &[Motion],
    text_objects: &[TextObject],
    view_commands: &[ViewCommand],
) -> (chars: Vec<char>)
    ensures
        chars@ == chars_of(names_of(commands@), commands@.len() as int) + chars_of(
            names_of(operators@),
            operators@.len() as int,
        ) + chars_of(names_of(motions@), motions@.len() as int) + chars_of(
            names_of(text_objects@),
            text_objects@.len() as int,
        ) + chars_of(names_of(view_commands@), view_commands@.len() as int),
{
    let mut chars: Vec<char> = Vec::new();
    collect_name_chars(commands, &mut chars);
    collect_name_chars(operators, &mut chars);
    collect_name_chars(motions, &mut chars);
    collect_name_chars(text_objects, &mut chars);
    collect_name_chars(view_commands, &mut chars);
    chars
}

/// Applies `motion` to the cursor `count` times.
fn run_motion(
    motion: &Motion,
    key: Option<char>,
    count: u16,
    buffer: &mut Buffer,
    register_handler: &RegisterHandler,
    mode: &Mode,
    undo_tree: &UndoTree,
)
    requires
        old(buffer).wf(),
    ensures
        final(buffer).wf(),
        snapshot(*final(buffer), *register_handler, *mode, *undo_tree) == repeated(
            motion_step(*motion, key),
            count as nat,
            snapshot(*old(buffer), *register_handler, *mode, *undo_tree),
        ),
{
    let ghost st = snapshot(*buffer, *register_handler, *mode, *undo_tree);
    let ghost f = motion_step(*motion, key);
    let mut i: u16 = 0;
    while i < count
        invariant
            i <= count,
            buffer.wf(),
            f == motion_step(*motion, key),
            snapshot(*buffer, *register_handler, *mode, *undo_tree) == repeated(f, i as nat, st),
        decreases count - i,
    {
        motion.apply(buffer, key);
        i += 1;
    }
}

/// Runs `operator` over the range of `motion`, `count` times.
fn run_operator(
    operator: &Operator,
    motion: &Motion,
    key: Option<char>,
    count: u16,
    buffer: &mut Buffer,
    register_handler: &mut RegisterHandler,
    mode: &mut Mode,
    undo_tree: &mut UndoTree,
)
    requires
        old(buffer).wf(),
    ensures
        final(buffer).wf(),
        snapshot(*final(buffer), *final(register_handler), *final(mode), *final(undo_tree))
            == repeated(
            operator_step(operator.command, *motion, key),
            count as nat,
            snapshot(*old(buffer), *old(register_handler), *old(mode), *old(undo_tree)),
        ),
{
    let ghost st = snapshot(*buffer, *register_handler, *mode, *undo_tree);
    let ghost f = operator_step(operator.command, *motion, key);
    let mut i: u16 = 0;
    while i < count
        invariant
            i <= count,
            buffer.wf(),
            f == operator_step(operator.command, *motion, key),
            snapshot(*buffer, *register_handler, *mode, *undo_tree) == repeated(f, i as nat, st),
        decreases count - i,
    {
        operator.execute(motion, key, buffer, register_handler, mode, undo_tree);
        i += 1;
    }
}

/// Runs `operator` over the cursor's line, `count` times.
fn run_line(
    operator: &Operator,
    count: u16,
    buffer: &mut Buffer,
    register_handler: &mut RegisterHandler,
    mode: &mut Mode,
    undo_tree: &mut UndoTree,
)
    requires
        old(buffer).wf(),
    ensures
        final(buffer).wf(),
        snapshot(*final(buffer), *final(register_handler), *final(mode), *final(undo_tree))
            == repeated(
            line_step(operator.command),
            count as nat,
            snapshot(*old(buffer), *old(register_handler), *old(mode), *old(undo_tree)),
        ),
{
    let ghost st = snapshot(*buffer, *register_handler, *mode, *undo_tree);
    let ghost f = line_step(operator.command);
    let mut i: u16 = 0;
    while i < count
        invariant
            i <= count,
            buffer.wf(),
            f == line_step(operator.command),
            snapshot(*buffer, *register_handler, *mode, *undo_tree) == repeated(f, i as nat, st),
        decreases count - i,
    {
        operator.entire_line(buffer, register_handler, mode, undo_tree);
        i += 1;
    }
}

/// Runs `operator` over `text_object`, `count` times.
fn run_object(
    operator: &Operator,
    text_object: &TextObject,
    which: TextObjectType,
    count: u16,
    buffer: &mut Buffer,
    register_handler: &mut RegisterHandler,
    mode: &mut Mode,
    undo_tree: &mut UndoTree,
)
    requires
        old(buffer).wf(),
    ensures
        final(buffer).wf(),
        snapshot(*final(buffer), *final(register_handler), *final(mode), *final(undo_tree))
            == repeated(
            object_step(operator.command, *text_object, which),
            count as nat,
            snapshot(*old(buffer), *old(register_handler), *old(mode), *old(undo_tree)),
        ),
{
    let ghost st = snapshot(*buffer, *register_handler, *mode, *undo_tree);
    let ghost f = object_step(operator.command, *text_object, which);
    let mut i: u16 = 0;
    while i < count
        invariant
            i <= count,
            buffer.wf(),
            f == object_step(operator.command, *text_object, which),
            snapshot(*buffer, *register_handler, *mode, *undo_tree) == repeated(f, i as nat, st),
        decreases count - i,
    {
        operator.execute_text_object(
            text_object,
            which,
            buffer,
            register_handler,
            mode,
            undo_tree,
        );
        i += 1;
    }
}

/// Runs `command`, `count` times.
fn run_command(
    command: &Command,
    key: Option<char>,
    count: u16,
    buffer: &mut Buffer,
    register_handler: &mut RegisterHandler,
    mode: &mut Mode,
    undo_tree: &mut UndoTree,
)
    requires
        old(buffer).wf(),
    ensures
        final(buffer).wf(),
        snapshot(*final(buffer), *final(register_handler), *final(mode), *final(undo_tree))
            == repeated(
            command_step(command.command, key),
            count as nat,
            snapshot(*old(buffer), *old(register_handler), *old(mode), *old(undo_tree)),
        ),
{
    let ghost st = snapshot(*buffer, *register_handler, *mode, *undo_tree);
    let ghost f = command_step(command.command, key);
    let mut i: u16 = 0;
    while i < count
        invariant
            i <= count,
            buffer.wf(),
            f == command_step(command.command, key),
            snapshot(*buffer, *register_handler, *mode, *undo_tree) == repeated(f, i as nat, st),
        decreases count - i,
    {
        command.execute(key, buffer, register_handler, mode, undo_tree);
        i += 1;
    }
}

/// Gives a suspended chord the key it waited for, whatever that key is: a
/// key that is no character makes a motion stay where it is. Without a
/// suspended chord the key is dropped.
pub fn resume(
    state: &mut DispatchState,
    key: Option<char>,
    register_handler: &mut RegisterHandler,
    undo_tree: &mut UndoTree,
    buffer: &mut Buffer,
    mode: &mut Mode,
    commands: &[Command],
    operators: &[Operator],
    motions: &[Motion],
) -> (outcome: Outcome)
    requires
        old(buffer).wf(),
        old(state)@.fits(commands@.len() as int, operators@.len() as int, motions@.len() as int),
    ensures
        final(buffer).wf(),
        final(state)@.fits(commands@.len() as int, operators@.len() as int, motions@.len() as int),
        (Dispatched {
            chord: final(state)@,
            state: snapshot(
                *final(buffer),
                *final(register_handler),
                *final(mode),
                *final(undo_tree),
            ),
            outcome,
        }) == resumed(
            old(state)@,
            key,
            snapshot(*old(buffer), *old(register_handler), *old(mode), *old(undo_tree)),
            commands@,
            operators@,
            motions@,
        ),
{
    let count = state.count;
    match state.awaiting {
        Awaiting::Nothing => {
            return Outcome::Ignored;
        },
        Awaiting::MotionKey(m) => {
            run_motion(&motions[m], key, count, buffer, register_handler, mode, undo_tree);
        },
        Awaiting::OperatorMotionKey(o, m) => {
            run_operator(
                &operators[o],
                &motions[m],
                key,
                count,
                buffer,
                register_handler,
                mode,
                undo_tree,
            );
        },
        Awaiting::CommandKey(k) => {
            run_command(&commands[k], key, count, buffer, register_handler, mode, undo_tree);
        },
    }
    reset(state);
    Outcome::Executed
}

/// Takes the accepted character `key` into the chord and runs what the
/// chord then names.
pub fn match_action(
    state: &mut DispatchState,
    key: char,
    register_handler: &mut RegisterHandler,
    undo_tree: &mut UndoTree,
    buffer: &mut Buffer,
    mode: &mut Mode,
    commands: &[Command],
    operators: &[Operator],
    motions: &[Motion],
    text_objects: &[TextObject],
    view_commands: &[ViewCommand],
) -> (outcome: Outcome)
    requires
        old(buffer).wf(),
        old(state)@.fits(commands@.len() as int, operators@.len() as int, motions@.len() as int),
    ensures
        final(buffer).wf(),
        final(state)@.fits(commands@.len() as int, operators@.len() as int, motions@.len() as int),
        (Dispatched {
            chord: final(state)@,
            state: snapshot(
                *final(buffer),
                *final(register_handler),
                *final(mode),
                *final(undo_tree),
            ),
            outcome,
        }) == dispatched(
            old(state)@,
            key,
            snapshot(*old(buffer), *old(register_handler), *old(mode), *old(undo_tree)),
            commands@,
            operators@,
            motions@,
            text_objects@,
            view_commands@,
        ),
{
    reveal(dispatched);
    if state.awaiting != Awaiting::Nothing {
        return resume(
            state,
            Some(key),
            register_handler,
            undo_tree,
            buffer,
            mode,
            commands,
            operators,
            motions,
        );
    }
    state.chained.push(key);
    let count = state.count;
    if let Some(o) = state.pending_operator {
        let operation = &operators[o];
        let name = operation.name;
        let name_len = name.unicode_len();
        if let Some(m) = find_by_trigger(motions, key) {
            if motions[m].needs_key() {
                state.awaiting = Awaiting::OperatorMotionKey(o, m);
                return Outcome::AwaitingKey;
            }
            run_operator(
                operation,
                &motions[m],
                None,
                count,
                buffer,
                register_handler,
                mode,
                undo_tree,
            );
        } else if key == 'i' {
            state.pending_text_object_kind = Some(TextObjectType::Inside);
            return Outcome::Pending;
        } else if key == 'a' {
            state.pending_text_object_kind = Some(TextObjectType::Around);
            return Outcome::Pending;
        } else if name_len > 0 && name.get_char(name_len - 1) == key {
            run_line(operation, count, buffer, register_handler, mode, undo_tree);
        } else {
            let object = match state.pending_text_object_kind {
                Some(which) => match find_by_trigger(text_objects, key) {
                    Some(t) => Some((which, t)),
                    None => None,
                },
                None => None,
            };
            match object {
                Some((which, t)) => {
                    run_object(
                        operation,
                        &text_objects[t],
                        which,
                        count,
                        buffer,
                        register_handler,
                        mode,
                        undo_tree,
                    );
                },
                None => {
                    return Outcome::Pending;
                },
            }
        }
    } else if let Some(k) = find_by_name(commands, &state.chained) {
        if commands[k].needs_key() {
            state.awaiting = Awaiting::CommandKey(k);
            return Outcome::AwaitingKey;
        }
        run_command(&commands[k], None, count, buffer, register_handler, mode, undo_tree);
    } else if let Some(v) = find_by_name(view_commands, &state.chained) {
        reset(state);
        return Outcome::ViewCommand { index: v, count };
    } else {
        let motion = if state.chained.len() == 1 {
            find_by_trigger(motions, key)
        } else {
            None
        };
        match motion {
            Some(m) => {
                if motions[m].needs_key() {
                    state.awaiting = Awaiting::MotionKey(m);
                    return Outcome::AwaitingKey;
                }
                run_motion(&motions[m], None, count, buffer, register_handler, mode, undo_tree);
            },
            None => {
                if let Some(o) = find_by_name(operators, &state.chained) {
                    state.pending_operator = Some(o);
                }
                return Outcome::Pending;
            },
        }
    }
    reset(state);
    Outcome::Executed
}

} // verus!
