//! Text objects: the span between a pair of delimiters around the cursor.

use vstd::prelude::*;
use crate::buffer::Buffer;
use crate::buffer_edit::{next_index_of, prev_index_of};
use crate::named::Named;

verus! {

/// Whether an operator works on a text object with or without its
/// delimiters.
#[derive(Clone, Copy, Debug, PartialEq, Eq, Structural)]
pub enum TextObjectType {
    Inside,
    Around,
}

/// The first and the last offset of a span, if there is one.
pub type TOBounds = Option<(usize, usize)>;

/// The pair of delimiters of a text object.
#[derive(Clone, Copy, Debug, PartialEq, Eq, Structural)]
pub enum TextObjectKind {
    Parentheses,
    CurlyBraces,
    SquareBraces,
    Quotations,
}

/// The delimiter that opens a text object of kind `kind`.
pub open spec fn opening(kind: TextObjectKind) -> char {
    match kind {
        TextObjectKind::Parentheses => '(',
        TextObjectKind::CurlyBraces => '{',
        TextObjectKind::SquareBraces => '[',
        TextObjectKind::Quotations => '"',
    }
}

/// The delimiter that closes a text object of kind `kind`.
pub open spec fn closing(kind: TextObjectKind) -> char {
    match kind {
        TextObjectKind::Parentheses => ')',
        TextObjectKind::CurlyBraces => '}',
        TextObjectKind::SquareBraces => ']',
        TextObjectKind::Quotations => '"',
    }
}

/// The span from the last `start` at or before offset `c` to the first `end`
/// at or after it. The two are sought apart from each other, with no regard
/// to nesting; where either is missing there is no span.
pub open spec fn matching_bounds(s: Seq<char>, c: int, start: char, end: char) -> TOBounds {
    match (prev_index_of(s, c, start), next_index_of(s, c, end)) {
        (Some(i), Some(j)) => Some((i, j)),
        _ => None,
    }
}

/// A span without its delimiters: one shorter at each end. A span of a
/// single offset stays as it is.
pub open spec fn shrunk(b: TOBounds) -> TOBounds {
    match b {
        Some((i, j)) => if i == j {
            Some((i, j))
        } else {
            Some(((i + 1) as usize, (j - 1) as usize))
        },
        None => None,
    }
}

/// The span that a text object of kind `kind` takes, with its delimiters or
/// without.
pub open spec fn object_bounds(
    kind: TextObjectKind,
    which: TextObjectType,
    s: Seq<char>,
    c: int,
) -> TOBounds {
    let around = matching_bounds(s, c, opening(kind), closing(kind));
    match which {
        TextObjectType::Around => around,
        TextObjectType::Inside => shrunk(around),
    }
}

/// A named text object.
pub struct TextObject<'a> {
    pub name: &'a str,
    pub command: TextObjectKind,
}

impl<'a> TextObject<'a> {
    /// A text object that goes by `name`.
    pub fn new(name: &'a str, command: TextObjectKind) -> (t: Self)
        ensures
            t.name == name,
            t.command == command,
    {
        TextObject { name, command }
    }

    /// The span of the text object around the cursor, delimiters included.
    pub fn around(&self, buffer: &Buffer) -> (b: TOBounds)
        requires
            buffer.cursor_ok(),
        ensures
            b == object_bounds(
                self.command,
                TextObjectType::Around,
                buffer.text(),
                buffer.cursor as int,
            ),
            b matches Some((i, j)) ==> i <= buffer.cursor <= j < buffer.text().len(),
    {
        match self.command {
            TextObjectKind::Parentheses => parentheses(buffer),
            TextObjectKind::CurlyBraces => curly_braces(buffer),
            TextObjectKind::SquareBraces => square_braces(buffer),
            TextObjectKind::Quotations => quotations(buffer),
        }
    }

    /// The span of the text object around the cursor, delimiters included.
    pub fn evaluate(&self, buffer: &Buffer) -> (b: TOBounds)
        requires
            buffer.cursor_ok(),
        ensures
            b == object_bounds(
                self.command,
                TextObjectType::Around,
                buffer.text(),
                buffer.cursor as int,
            ),
    {
        self.around(buffer)
    }

    /// The span of the text object around the cursor without its
    /// delimiters. Between two delimiters that touch, the span is empty:
    /// its first offset lies behind its last.
    pub fn inside(&self, buffer: &Buffer) -> (b: TOBounds)
        requires
            buffer.cursor_ok(),
        ensures
            b == object_bounds(
                self.command,
                TextObjectType::Inside,
                buffer.text(),
                buffer.cursor as int,
            ),
            b matches Some((i, j)) ==> i <= buffer.text().len() && j < buffer.text().len() && i
                <= j + 1,
    {
        let (i, j) = match self.around(buffer) {
            Some(b) => b,
            None => {
                return None;
            },
        };
        if i == j {
            return Some((i, j));
        }
        Some((i + 1, j - 1))
    }
}

/// The span from the last `start` at or before the cursor to the first `end`
/// at or after it.
pub fn find_matching(buffer: &Buffer, start: char, end: char) -> (b: TOBounds)
    requires
        buffer.cursor_ok(),
    ensures
        b == matching_bounds(buffer.text(), buffer.cursor as int, start, end),
        b matches Some((i, j)) ==> i <= buffer.cursor <= j < buffer.text().len(),
{
    let first = match buffer.find_prev(start) {
        Some(i) => i,
        None => {
            return None;
        },
    };
    let second = match buffer.find_next(end) {
        Some(j) => j,
        None => {
            return None;
        },
    };
    Some((first, second))
}

/// The span of the round brackets around the cursor.
pub fn parentheses(buffer: &Buffer) -> (b: TOBounds)
    requires
        buffer.cursor_ok(),
    ensures
        b == matching_bounds(buffer.text(), buffer.cursor as int, '(', ')'),
        b matches Some((i, j)) ==> i <= buffer.cursor <= j < buffer.text().len(),
{
    find_matching(buffer, '(', ')')
}

/// The span of the curly brackets around the cursor.
pub fn curly_braces(buffer: &Buffer) -> (b: TOBounds)
    requires
        buffer.cursor_ok(),
    ensures
        b == matching_bounds(buffer.text(), buffer.cursor as int, '{', '}'),
        b matches Some((i, j)) ==> i <= buffer.cursor <= j < buffer.text().len(),
{
    find_matching(buffer, '{', '}')
}

/// The span of the square brackets around the cursor.
pub fn square_braces(buffer: &Buffer) -> (b: TOBounds)
    requires
        buffer.cursor_ok(),
    ensures
        b == matching_bounds(buffer.text(), buffer.cursor as int, '[', ']'),
        b matches Some((i, j)) ==> i <= buffer.cursor <= j < buffer.text().len(),
{
    find_matching(buffer, '[', ']')
}

/// The span of the double quotes around the cursor.
pub fn quotations(buffer: &Buffer) -> (b: TOBounds)
    requires
        buffer.cursor_ok(),
    ensures
        b == matching_bounds(buffer.text(), buffer.cursor as int, '"', '"'),
        b matches Some((i, j)) ==> i <= buffer.cursor <= j < buffer.text().len(),
{
    find_matching(buffer, '"', '"')
}

impl<'a> Named for TextObject<'a> {
    open spec fn name_view(&self) -> Seq<char> {
        self.name@
    }

    fn entry_name(&self) -> (name: &str) {
        self.name
    }
}

} // verus!
