//! The tables of the editor's own key bindings.

use vstd::prelude::*;
use crate::commands::{Command, CommandKind};
use crate::motion::{Motion, MotionKind};
use crate::operator::{Operator, OperatorKind};
use crate::text_object::{TextObject, TextObjectKind};
use crate::view_command::{ViewCommand, ViewCommandKind};

verus! {

/// The commands: `i`, `p`, `a`, `o`, `O`, `x`, `r`, `G`, `gg`, `u` and `"`.
pub fn default_commands() -> (table: Vec<Command<'static>>)
    ensures
        table@ == seq![
            Command { name: "i", command: CommandKind::Insert },
            Command { name: "p", command: CommandKind::Paste },
            Command { name: "a", command: CommandKind::Append },
            Command { name: "o", command: CommandKind::InsertNewLine },
            Command { name: "O", command: CommandKind::InsertNewLineAbove },
            Command { name: "x", command: CommandKind::Cut },
            Command { name: "r", command: CommandKind::Replace },
            Command { name: "G", command: CommandKind::LastRow },
            Command { name: "gg", command: CommandKind::FirstRow },
            Command { name: "u", command: CommandKind::Undo },
            Command { name: "\"", command: CommandKind::DoubleQuote },
        ],
{
    let mut table: Vec<Command<'static>> = Vec::new();
    table.push(Command::new("i", CommandKind::Insert));
    table.push(Command::new("p", CommandKind::Paste));
    table.push(Command::new("a", CommandKind::Append));
    table.push(Command::new("o", CommandKind::InsertNewLine));
    table.push(Command::new("O", CommandKind::InsertNewLineAbove));
    table.push(Command::new("x", CommandKind::Cut));
    table.push(Command::new("r", CommandKind::Replace));
    table.push(Command::new("G", CommandKind::LastRow));
    table.push(Command::new("gg", CommandKind::FirstRow));
    table.push(Command::new("u", CommandKind::Undo));
    table.push(Command::new("\"", CommandKind::DoubleQuote));
    assert(table@ =~= seq![
        Command { name: "i", command: CommandKind::Insert },
        Command { name: "p", command: CommandKind::Paste },
        Command { name: "a", command: CommandKind::Append },
        Command { name: "o", command: CommandKind::InsertNewLine },
        Command { name: "O", command: CommandKind::InsertNewLineAbove },
        Command { name: "x", command: CommandKind::Cut },
        Command { name: "r", command: CommandKind::Replace },
        Command { name: "G", command: CommandKind::LastRow },
        Command { name: "gg", command: CommandKind::FirstRow },
        Command { name: "u", command: CommandKind::Undo },
        Command { name: "\"", command: CommandKind::DoubleQuote },
    ]);
    table
}

/// The operators: `d`, `y`, `c` and `t`.
pub fn default_operators() -> (table: Vec<Operator<'static>>)
    ensures
        table@ == seq![
            Operator { name: "d", command: OperatorKind::Delete },
            Operator { name: "y", command: OperatorKind::Yank },
            Operator { name: "c", command: OperatorKind::Change },
            Operator { name: "t", command: OperatorKind::ChangeUntilBefore },
        ],
{
    let mut table: Vec<Operator<'static>> = Vec::new();
    table.push(Operator::new("d", OperatorKind::Delete));
    table.push(Operator::new("y", OperatorKind::Yank));
    table.push(Operator::new("c", OperatorKind::Change));
    table.push(Operator::new("t", OperatorKind::ChangeUntilBefore));
    assert(table@ =~= seq![
        Operator { name: "d", command: OperatorKind::Delete },
        Operator { name: "y", command: OperatorKind::Yank },
        Operator { name: "c", command: OperatorKind::Change },
        Operator { name: "t", command: OperatorKind::ChangeUntilBefore },
    ]);
    table
}

/// The motions: `h`, `j`, `k`, `l`, `w`, `b`, `e`, `$`, `_`, `f`, `F`, `%`,
/// `}` and `{`. Only `w` and `b` are exclusive.
pub fn default_motions() -> (table: Vec<Motion<'static>>)
    ensures
        table@ == seq![
            Motion { name: "h", command: MotionKind::PrevChar, inclusive: true },
            Motion { name: "j", command: MotionKind::NextRow, inclusive: true },
            Motion { name: "k", command: MotionKind::PrevRow, inclusive: true },
            Motion { name: "l", command: MotionKind::NextChar, inclusive: true },
            Motion { name: "w", command: MotionKind::Word, inclusive: false },
            Motion { name: "b", command: MotionKind::Back, inclusive: false },
            Motion { name: "e", command: MotionKind::EndOfWord, inclusive: true },
            Motion { name: "$", command: MotionKind::EndOfLine, inclusive: true },
            Motion { name: "_", command: MotionKind::BeginningOfLine, inclusive: true },
            Motion { name: "f", command: MotionKind::Find, inclusive: true },
            Motion { name: "F", command: MotionKind::FindBack, inclusive: true },
            Motion { name: "%", command: MotionKind::NextCorrespondingBracket, inclusive: true },
            Motion { name: "}", command: MotionKind::NextNewline, inclusive: true },
            Motion { name: "{", command: MotionKind::PrevNewline, inclusive: true },
        ],
{
    let mut table: Vec<Motion<'static>> = Vec::new();
    table.push(Motion::inclusive("h", MotionKind::PrevChar));
    table.push(Motion::inclusive("j", MotionKind::NextRow));
    table.push(Motion::inclusive("k", MotionKind::PrevRow));
    table.push(Motion::inclusive("l", MotionKind::NextChar));
    table.push(Motion::exclusive("w", MotionKind::Word));
    table.push(Motion::exclusive("b", MotionKind::Back));
    table.push(Motion::inclusive("e", MotionKind::EndOfWord));
    table.push(Motion::inclusive("$", MotionKind::EndOfLine));
    table.push(Motion::inclusive("_", MotionKind::BeginningOfLine));
    table.push(Motion::inclusive("f", MotionKind::Find));
    table.push(Motion::inclusive("F", MotionKind::FindBack));
    table.push(Motion::inclusive("%", MotionKind::NextCorrespondingBracket));
    table.push(Motion::inclusive("}", MotionKind::NextNewline));
    table.push(Motion::inclusive("{", MotionKind::PrevNewline));
    assert(table@ =~= seq![
        Motion { name: "h", command: MotionKind::PrevChar, inclusive: true },
        Motion { name: "j", command: MotionKind::NextRow, inclusive: true },
        Motion { name: "k", command: MotionKind::PrevRow, inclusive: true },
        Motion { name: "l", command: MotionKind::NextChar, inclusive: true },
        Motion { name: "w", command: MotionKind::Word, inclusive: false },
        Motion { name: "b", command: MotionKind::Back, inclusive: false },
        Motion { name: "e", command: MotionKind::EndOfWord, inclusive: true },
        Motion { name: "$", command: MotionKind::EndOfLine, inclusive: true },
        Motion { name: "_", command: MotionKind::BeginningOfLine, inclusive: true },
        Motion { name: "f", command: MotionKind::Find, inclusive: true },
        Motion { name: "F", command: MotionKind::FindBack, inclusive: true },
        Motion { name: "%", command: MotionKind::NextCorrespondingBracket, inclusive: true },
        Motion { name: "}", command: MotionKind::NextNewline, inclusive: true },
        Motion { name: "{", command: MotionKind::PrevNewline, inclusive: true },
    ]);
    table
}

/// The text objects: `(`, `{`, `[` and `"`.
pub fn default_text_objects() -> (table: Vec<TextObject<'static>>)
    ensures
        table@ == seq![
            TextObject { name: "(", command: TextObjectKind::Parentheses },
            TextObject { name: "{", command: TextObjectKind::CurlyBraces },
            TextObject { name: "[", command: TextObjectKind::SquareBraces },
            TextObject { name: "\"", command: TextObjectKind::Quotations },
        ],
{
    let mut table: Vec<TextObject<'static>> = Vec::new();
    table.push(TextObject::new("(", TextObjectKind::Parentheses));
    table.push(TextObject::new("{", TextObjectKind::CurlyBraces));
    table.push(TextObject::new("[", TextObjectKind::SquareBraces));
    table.push(TextObject::new("\"", TextObjectKind::Quotations));
    assert(table@ =~= seq![
        TextObject { name: "(", command: TextObjectKind::Parentheses },
        TextObject { name: "{", command: TextObjectKind::CurlyBraces },
        TextObject { name: "[", command: TextObjectKind::SquareBraces },
        TextObject { name: "\"", command: TextObjectKind::Quotations },
    ]);
    table
}

/// The view commands: `zz`.
pub fn default_view_commands() -> (table: Vec<ViewCommand<'static>>)
    ensures
        table@ == seq![ViewCommand { name: "zz", command: ViewCommandKind::CenterOnCursor }],
{
    let mut table: Vec<ViewCommand<'static>> = Vec::new();
    table.push(ViewCommand::new("zz", ViewCommandKind::CenterOnCursor));
    assert(table@ =~= seq![ViewCommand { name: "zz", command: ViewCommandKind::CenterOnCursor }]);
    table
}

} // verus!
