//! The commands of the command line: what each character of the line asks
//! for, and the substitution that the line can carry.

use vstd::prelude::*;
use crate::buffer::Buffer;
use crate::buffer_edit::{occurrences, replace_run, replaced_ends};
use crate::chars::{decimal_value, numeric, to_decimal_digit, whitespace};
use crate::status_bar::StatusBar;
use crate::text::{is_not, lemma_skip_back_while, lemma_skip_while, skip_back_while, skip_while};
use crate::undo::{clamped, ActionView, UndoTree};

verus! {

/// What one character of the command line asks for.
#[derive(Debug, Clone, PartialEq, Eq)]
pub enum MetaCommand {
    /// `w`: write the document to its file.
    Write,
    /// `u`: part the document from its file.
    Detach,
    /// `l`: load the document from its file.
    Load,
    /// `o`: open the file that the rest of the line names.
    Open,
    /// `d`: list the directory of the file.
    Directories,
    /// `r`: list the registers.
    Registers,
    /// `s`: substitute as the rest of the line says.
    Substitute,
    /// A number: go to that line. `None` where the rest of the line is no
    /// number that fits.
    Line(Option<usize>),
    /// `q`: quit.
    Quit,
    /// Any other character.
    Unknown(char),
}

/// What the character `c` of the command line asks for, where `number` is
/// what the line holds from that character on, read as a number.
pub open spec fn meta_command_of(c: char, number: Option<usize>) -> MetaCommand {
    if c == 'w' {
        MetaCommand::Write
    } else if c == 'u' {
        MetaCommand::Detach
    } else if c == 'l' {
        MetaCommand::Load
    } else if c == 'o' {
        MetaCommand::Open
    } else if c == 'd' {
        MetaCommand::Directories
    } else if c == 'r' {
        MetaCommand::Registers
    } else if c == 's' {
        MetaCommand::Substitute
    } else if numeric(c) {
        MetaCommand::Line(number)
    } else if c == 'q' {
        MetaCommand::Quit
    } else {
        MetaCommand::Unknown(c)
    }
}

/// Whether the commands behind this one on the line are left unread.
pub open spec fn ends_line(command: MetaCommand) -> bool {
    command is Open || command is Substitute || command is Line || command is Quit
}

/// The number that the digits `s[from..]` spell in base ten, if they are
/// digits, at least one, and the number fits.
pub open spec fn decimal_of(s: Seq<char>, from: int) -> Option<usize> {
    if 0 <= from < s.len() && all_digits(s, from) && digits_value(s, from, s.len() as int)
        <= usize::MAX {
        Some(digits_value(s, from, s.len() as int) as usize)
    } else {
        None
    }
}

/// Whether every character of `s` from `from` on is a decimal digit.
pub open spec fn all_digits(s: Seq<char>, from: int) -> bool {
    forall|k: int| from <= k < s.len() ==> (#[trigger] decimal_value(s[k])) is Some
}

/// The value in base ten of the digits `s[from..to]`.
pub open spec fn digits_value(s: Seq<char>, from: int, to: int) -> nat
    decreases to - from,
{
    if to <= from {
        0
    } else {
        digits_value(s, from, to - 1) * 10 + match decimal_value(s[to - 1]) {
            Some(d) => d as nat,
            None => 0,
        }
    }
}

/// More digits spell no smaller number.
pub proof fn lemma_digits_value_grows(s: Seq<char>, from: int, mid: int, to: int)
    requires
        from <= mid <= to,
    ensures
        digits_value(s, from, mid) <= digits_value(s, from, to),
    decreases to - mid,
{
    if mid < to {
        lemma_digits_value_grows(s, from, mid, to - 1);
        assert(digits_value(s, from, to - 1) <= digits_value(s, from, to - 1) * 10) by (nonlinear_arith)
            requires
                digits_value(s, from, to - 1) >= 0,
        ;
    }
}

/// The two parts of a substitution: what is replaced, and by what. The text
/// behind the `s` has the form `/original/new` with exactly two slashes.
pub open spec fn substitution_of(cmd: Seq<char>) -> Option<(Seq<char>, Seq<char>)> {
    if cmd.len() >= 1 && cmd[0] == '/' {
        let second = skip_while(cmd, 1, cmd.len() as int, is_not('/'));
        if second < cmd.len() && skip_while(cmd, second + 1, cmd.len() as int, is_not('/'))
            == cmd.len() {
            Some((cmd.subrange(1, second), cmd.skip(second + 1)))
        } else {
            None
        }
    } else {
        None
    }
}

/// What the command line holds behind the character at index `i`.
pub open spec fn rest_after(s: Seq<char>, i: int) -> Seq<char> {
    if 0 <= i && i + 1 <= s.len() {
        s.skip(i + 1)
    } else {
        Seq::<char>::empty()
    }
}

/// The test "is whitespace".
pub open spec fn is_blank() -> spec_fn(char) -> bool {
    |c: char| whitespace(c)
}

/// `s` without the whitespace at its ends.
pub open spec fn trimmed(s: Seq<char>) -> Seq<char> {
    let from = skip_while(s, 0, s.len() as int, is_blank());
    let to = skip_back_while(s, s.len() as int, from, is_blank());
    s.subrange(from, to)
}

/// The number that the command line holds from index `from` on.
pub fn parse_decimal(status_bar: &StatusBar, from: usize) -> (r: Option<usize>)
    ensures
        r == decimal_of(status_bar@, from as int),
{
    let n = status_bar.len();
    if from >= n {
        return None;
    }
    let ghost s = status_bar@;
    let mut value: usize = 0;
    let mut i: usize = from;
    while i < n
        invariant
            from <= i <= n,
            n == s.len(),
            s == status_bar@,
            value == digits_value(s, from as int, i as int),
            forall|k: int| from <= k < i ==> (#[trigger] decimal_value(s[k])) is Some,
        decreases n - i,
    {
        let digit = match to_decimal_digit(status_bar.char_at(i)) {
            Some(d) => d,
            None => {
                assert(!all_digits(s, from as int));
                return None;
            },
        };
        proof {
            lemma_digits_value_grows(s, from as int, i + 1, n as int);
        }
        if value > (usize::MAX - digit as usize) / 10 {
            assert(digits_value(s, from as int, i + 1) > usize::MAX) by (nonlinear_arith)
                requires
                    digits_value(s, from as int, i + 1) == value * 10 + digit,
                    value > (usize::MAX - digit) / 10,
                    0 <= digit <= 9,
            ;
            return None;
        }
        assert(value * 10 + digit <= usize::MAX) by (nonlinear_arith)
            requires
                value <= (usize::MAX - digit) / 10,
                0 <= digit <= 9,
        ;
        value = value * 10 + digit as usize;
        i += 1;
    }
    Some(value)
}

/// What the character at index `i` of the command line asks for.
pub fn meta_command_at(status_bar: &StatusBar, i: usize) -> (command: MetaCommand)
    requires
        i < status_bar@.len(),
    ensures
        command == meta_command_of(status_bar@[i as int], decimal_of(status_bar@, i as int)),
{
    let c = status_bar.char_at(i);
    if c == 'w' {
        MetaCommand::Write
    } else if c == 'u' {
        MetaCommand::Detach
    } else if c == 'l' {
        MetaCommand::Load
    } else if c == 'o' {
        MetaCommand::Open
    } else if c == 'd' {
        MetaCommand::Directories
    } else if c == 'r' {
        MetaCommand::Registers
    } else if c == 's' {
        MetaCommand::Substitute
    } else if c.is_numeric() {
        MetaCommand::Line(parse_decimal(status_bar, i))
    } else if c == 'q' {
        MetaCommand::Quit
    } else {
        MetaCommand::Unknown(c)
    }
}

/// Whether the commands behind this one on the line are left unread.
pub fn stops_line(command: &MetaCommand) -> (r: bool)
    ensures
        r == ends_line(*command),
{
    match command {
        MetaCommand::Open | MetaCommand::Substitute | MetaCommand::Line(_) | MetaCommand::Quit => true,
        _ => false,
    }
}

/// The characters of the command line from index `from` up to, not
/// including, index `to`.
fn copy_range(status_bar: &StatusBar, from: usize, to: usize) -> (out: Vec<char>)
    requires
        from <= to <= status_bar@.len(),
    ensures
        out@ == status_bar@.subrange(from as int, to as int),
{
    let mut out: Vec<char> = Vec::new();
    let mut i = from;
    while i < to
        invariant
            from <= i <= to <= status_bar@.len(),
            out@ == status_bar@.subrange(from as int, i as int),
        decreases to - i,
    {
        out.push(status_bar.char_at(i));
        i += 1;
        assert(out@ =~= status_bar@.subrange(from as int, i as int));
    }
    out
}

/// The characters of `chars` as a string.
pub fn string_of(chars: &Vec<char>) -> (s: String)
    ensures
        s@ == chars@,
{
    let mut s = String::new();
    let mut i: usize = 0;
    while i < chars.len()
        invariant
            i <= chars@.len(),
            s@ == chars@.take(i as int),
        decreases chars@.len() - i,
    {
        s.push(chars[i]);
        i += 1;
        assert(s@ =~= chars@.take(i as int));
    }
    assert(chars@.take(i as int) =~= chars@);
    s
}

/// The file name that the command line holds behind the character at index
/// `i`: the rest of the line without the whitespace at its ends. `None`
/// where nothing follows that character.
pub fn path_argument(status_bar: &StatusBar, i: usize) -> (path: Option<String>)
    ensures
        match path {
            Some(p) => i + 1 < status_bar@.len() && p@ == trimmed(status_bar@.skip(i + 1)),
            None => i + 1 >= status_bar@.len(),
        },
{
    let n = status_bar.len();
    if i >= n || n - i <= 1 {
        return None;
    }
    let ghost rest = status_bar@.skip(i + 1);
    let mut from = i + 1;
    proof {
        lemma_skip_while(rest, 0, rest.len() as int, is_blank());
    }
    while from < n && status_bar.char_at(from).is_whitespace()
        invariant
            i + 1 <= from <= n,
            n == status_bar@.len(),
            rest == status_bar@.skip(i + 1),
            skip_while(rest, from - (i + 1), rest.len() as int, is_blank()) == skip_while(
                rest,
                0,
                rest.len() as int,
                is_blank(),
            ),
        decreases n - from,
    {
        from += 1;
    }
    let mut to = n;
    proof {
        lemma_skip_back_while(rest, rest.len() as int, from - (i + 1), is_blank());
    }
    while to > from && status_bar.char_at(to - 1).is_whitespace()
        invariant
            from <= to <= n,
            i + 1 <= from,
            n == status_bar@.len(),
            rest == status_bar@.skip(i + 1),
            skip_back_while(rest, to - (i + 1), from - (i + 1), is_blank()) == skip_back_while(
                rest,
                rest.len() as int,
                from - (i + 1),
                is_blank(),
            ),
        decreases to,
    {
        to -= 1;
    }
    let chars = copy_range(status_bar, from, to);
    assert(chars@ =~= trimmed(rest));
    Some(string_of(&chars))
}

/// Parts the document from its file for the file that the command line
/// names behind the character at index `i`. A buffer that had a file is
/// emptied, so that the text of the one file does not go to the other.
/// Without a name nothing changes.
pub fn attach_buffer(
    buffer: &mut Buffer,
    status_bar: &StatusBar,
    i: usize,
    path: &mut Option<String>,
)
    requires
        old(buffer).cursor_ok(),
    ensures
        i + 1 >= status_bar@.len() ==> *final(buffer) == *old(buffer) && *final(path) == *old(path),
        i + 1 < status_bar@.len() ==> {
            &&& *final(path) matches Some(p) && p@ == trimmed(status_bar@.skip(i + 1))
            &&& *old(path) is None ==> *final(buffer) == *old(buffer)
            &&& *old(path) is Some ==> {
                &&& final(buffer).wf()
                &&& final(buffer).text() == Seq::<char>::empty()
                &&& final(buffer).cursor == 0
                &&& final(buffer).has_changed
                &&& final(buffer).lines_for_updating@ == seq![true]
            }
        },
{
    let name = match path_argument(status_bar, i) {
        Some(name) => name,
        None => {
            return ;
        },
    };
    if path.is_some() {
        buffer.clear();
    }
    *path = Some(name);
}

/// Runs the substitution that the command line holds behind the `s` at index
/// `i`: every occurrence of the one text in the document is replaced by the
/// other, and the log records it. A line of another form changes nothing.
pub fn substitute_cmd(
    buffer: &mut Buffer,
    status_bar: &StatusBar,
    undo_tree: &mut UndoTree,
    i: usize,
)
    requires
        old(buffer).wf(),
    ensures
        final(buffer).wf(),
        match substitution_of(rest_after(status_bar@, i as int)) {
            Some((original, new)) => {
                let ends = occurrences(old(buffer).text(), original, 0);
                &&& final(buffer).text() == replace_run(
                    old(buffer).text(),
                    ends,
                    0,
                    original.len() as int,
                    new,
                    0,
                )
                &&& final(buffer).cursor == clamped(old(buffer).cursor as int, final(buffer).text())
                &&& final(undo_tree)@ == old(undo_tree)@.push(
                    ActionView::Replace {
                        positions: replaced_ends(
                            old(buffer).text(),
                            ends,
                            0,
                            original.len() as int,
                            new,
                            0,
                        ),
                        original,
                        new,
                    },
                )
                &&& final(buffer).has_changed
            },
            None => *final(buffer) == *old(buffer) && *final(undo_tree) == *old(undo_tree),
        },
{
    let n = status_bar.len();
    let ghost cmd = rest_after(status_bar@, i as int);
    if i >= n || n - i <= 1 {
        return ;
    }
    let start = i + 1;
    if status_bar.char_at(start) != '/' {
        return ;
    }
    let mut second = start + 1;
    proof {
        lemma_skip_while(cmd, 1, cmd.len() as int, is_not('/'));
    }
    while second < n && status_bar.char_at(second) != '/'
        invariant
            start + 1 <= second <= n,
            start == i + 1,
            n == status_bar@.len(),
            cmd == rest_after(status_bar@, i as int),
            skip_while(cmd, second - start, cmd.len() as int, is_not('/')) == skip_while(
                cmd,
                1,
                cmd.len() as int,
                is_not('/'),
            ),
        decreases n - second,
    {
        second += 1;
    }
    if second >= n {
        return ;
    }
    let mut third = second + 1;
    proof {
        lemma_skip_while(cmd, second + 1 - start, cmd.len() as int, is_not('/'));
    }
    while third < n && status_bar.char_at(third) != '/'
        invariant
            second + 1 <= third <= n,
            start + 1 <= second < n,
            start == i + 1,
            n == status_bar@.len(),
            cmd == rest_after(status_bar@, i as int),
            skip_while(cmd, third - start, cmd.len() as int, is_not('/')) == skip_while(
                cmd,
                second + 1 - start,
                cmd.len() as int,
                is_not('/'),
            ),
        decreases n - third,
    {
        third += 1;
    }
    if third < n {
        return ;
    }
    let original = copy_range(status_bar, start + 1, second);
    let new = copy_range(status_bar, second + 1, n);
    proof {
        assert(original@ =~= cmd.subrange(1, second - start));
        assert(new@ =~= cmd.skip(second - start + 1));
    }
    let ends = buffer.find_occurrences(&original);
    let new_text = string_of(&new);
    let original_text = string_of(&original);
    buffer.replace_text(new_text.as_str(), original_text.as_str(), &ends, undo_tree, false);
}

} // verus!
