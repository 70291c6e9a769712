//! A pane of the screen: a buffer and the part of it that the pane shows.

use vstd::prelude::*;
use vstd::string::{StrSliceExecFns, StringExecFns};
use crate::buffer::Buffer;
use crate::buffer_update::flags_set_from;
use crate::status_line::{decimal, push_decimal, push_repeated};
use crate::text::{line_count, line_limit, line_start, nth_line_start, repeat};

verus! {

/// A pane. `x`, `y`, `width` and `height` place it on the screen; `top` and
/// `left` are the first line and column of the buffer that it shows.
pub struct ViewBox {
    pub buffer: Buffer,
    pub top: usize,
    pub left: usize,
    pub x: u16,
    pub y: u16,
    pub width: u16,
    pub height: u16,
    pub path: Option<String>,
    pub git_hash: Option<String>,
}

/// The first line shown after the view followed the cursor to line `row`:
/// the view moves up to a line above it, and down so far that a line
/// below it is the last one shown. A view without rows begins at the
/// cursor's line.
pub open spec fn adjusted_top(top: int, height: int, row: int) -> int {
    if top > row || height == 0 {
        row
    } else if top + height <= row {
        row - (height - 1)
    } else {
        top
    }
}

/// The first column shown after the view followed the cursor to column
/// `col`.
pub open spec fn adjusted_left(left: int, width: int, col: int) -> int {
    if left > col {
        col
    } else if left + width < col {
        col - width
    } else {
        left
    }
}

/// The label of line `line` beside the text: its number, set to the right
/// in `padding` columns, and a space.
pub open spec fn label_text(line: nat, padding: nat) -> Seq<char> {
    repeat(
        ' ',
        if decimal(line).len() <= padding {
            (padding - decimal(line).len()) as nat
        } else {
            0
        },
    ) + decimal(line) + seq![' ']
}

/// What a pane that begins at column `left` and is `width` columns wide
/// shows of the line that begins at offset `start` of `s`: the part of the
/// line, line feed included, that lies in those columns; a bare line feed
/// where the line ends before them; and nothing of an empty last line.
pub open spec fn shown_part(s: Seq<char>, start: int, left: int, width: int) -> Seq<char> {
    let len = line_limit(s, start) - start;
    let last_col = if left + width <= len {
        left + width
    } else {
        len
    };
    if len == 0 {
        Seq::<char>::empty()
    } else if left >= last_col {
        seq!['\n']
    } else {
        s.subrange(start + left, start + last_col)
    }
}

/// Whether `after` is the pane `before` with its view moved so that it
/// shows the cursor, and `adjusted` says whether the view moved; a view
/// that moved has every line flagged for drawing.
pub open spec fn followed(before: ViewBox, after: ViewBox, adjusted: bool) -> bool {
    &&& after.top == adjusted_top(
        before.top as int,
        before.height as int,
        before.buffer.row() as int,
    )
    &&& after.left == adjusted_left(
        before.left as int,
        before.width as int,
        before.buffer.cursor - line_start(before.buffer.text(), before.buffer.cursor as int),
    )
    &&& adjusted == (after.top != before.top || after.left != before.left)
    &&& after.buffer.rope == before.buffer.rope
    &&& after.buffer.cursor == before.buffer.cursor
    &&& after.buffer.has_changed == before.buffer.has_changed
    &&& after.buffer.lines_for_updating@ == if adjusted {
        flags_set_from(before.buffer.lines_for_updating@, 0, true)
    } else {
        before.buffer.lines_for_updating@
    }
    &&& after.x == before.x && after.y == before.y
    &&& after.width == before.width && after.height == before.height
    &&& after.path == before.path && after.git_hash == before.git_hash
}

/// The number of decimal digits of `n`.
pub open spec fn decimal_width(n: nat) -> nat
    decreases n,
{
    if n < 10 {
        1
    } else {
        1 + decimal_width(n / 10)
    }
}

impl ViewBox {
    /// The buffer is well formed and the pane lies on a screen whose
    /// coordinates fit in sixteen bits.
    pub open spec fn wf(&self) -> bool {
        &&& self.buffer.wf()
        &&& self.x + self.width <= u16::MAX
        &&& self.y + self.height <= u16::MAX
    }

    /// A pane of `cols` columns and `rows` rows at (`x`, `y`), with an empty
    /// buffer shown from its start.
    pub fn new(cols: u16, rows: u16, x: u16, y: u16) -> (b: ViewBox)
        requires
            x + cols <= u16::MAX,
            y + rows <= u16::MAX,
        ensures
            b.wf(),
            b.buffer.text() == Seq::<char>::empty(),
            b.buffer.cursor == 0,
            b.top == 0 && b.left == 0,
            b.x == x && b.y == y && b.width == cols && b.height == rows,
            b.path is None && b.git_hash is None,
    {
        ViewBox {
            buffer: Buffer::new(),
            top: 0,
            left: 0,
            x,
            y,
            width: cols,
            height: rows,
            path: None,
            git_hash: None,
        }
    }

    /// The number of rows of the pane.
    pub fn height(&self) -> (h: usize)
        ensures
            h == self.height,
    {
        self.height as usize
    }

    /// The number of columns of the pane.
    pub fn width(&self) -> (w: usize)
        ensures
            w == self.width,
    {
        self.width as usize
    }

    /// The corner below the pane's first column.
    pub fn get_lower_left(&self) -> (p: (u16, u16))
        requires
            self.y + self.height <= u16::MAX,
        ensures
            p.0 == self.x,
            p.1 == self.y + self.height,
    {
        (self.x, self.y + self.height)
    }

    /// The corner behind the pane's first row.
    pub fn get_upper_right(&self) -> (p: (u16, u16))
        requires
            self.x + self.width <= u16::MAX,
        ensures
            p.0 == self.x + self.width,
            p.1 == self.y,
    {
        (self.x + self.width, self.y)
    }

    /// Moves the view so that it shows the cursor, and says whether it
    /// moved; if so, every line is flagged for drawing.
    pub fn adjust(&mut self) -> (adjusted: bool)
        requires
            old(self).wf(),
        ensures
            final(self).wf(),
            followed(*old(self), *final(self), adjusted),
    {
        let col = self.buffer.get_col();
        let row = self.buffer.get_row();
        let height = self.height as usize;
        let width = self.width as usize;
        let mut adjusted = false;
        if self.top > row || height == 0 {
            adjusted = self.top != row;
            self.top = row;
        } else if row - self.top >= height {
            self.top = row - (height - 1);
            adjusted = true;
        }
        if self.left > col {
            self.left = col;
            adjusted = true;
        } else if col - self.left > width {
            self.left = col - width;
            adjusted = true;
        }
        if adjusted {
            self.buffer.update_list_set(0, true);
        }
        adjusted
    }

    /// The place of the cursor within what the pane shows: its column and
    /// its row, counted from the pane's first column and line. A cursor
    /// before them is placed on them.
    pub fn cursor_position(&self) -> (p: (usize, usize))
        requires
            self.buffer.cursor_ok(),
        ensures
            p.1 == if self.buffer.row() >= self.top {
                self.buffer.row() - self.top
            } else {
                0
            },
            p.0 == if self.buffer.cursor - line_start(
                self.buffer.text(),
                self.buffer.cursor as int,
            ) >= self.left {
                self.buffer.cursor - line_start(self.buffer.text(), self.buffer.cursor as int)
                    - self.left
            } else {
                0
            },
    {
        let col = self.buffer.get_col();
        let row = self.buffer.get_row();
        let shown_row = if row >= self.top {
            row - self.top
        } else {
            0
        };
        let shown_col = if col >= self.left {
            col - self.left
        } else {
            0
        };
        (shown_col, shown_row)
    }

    /// The label of line `line` beside the text.
    pub fn line_label(line: usize, padding: usize) -> (label: String)
        ensures
            label@ == label_text(line as nat, padding as nat),
    {
        let mut number = String::new();
        push_decimal(&mut number, line);
        let used = number.as_str().unicode_len();
        let mut label = String::new();
        push_repeated(
            &mut label,
            ' ',
            if used <= padding {
                padding - used
            } else {
                0
            },
        );
        label.append(number.as_str());
        label.push(' ');
        assert(label@ =~= label_text(line as nat, padding as nat));
        label
    }

    /// What the pane shows of line `line` of its buffer.
    pub fn shown_text(&self, line: usize) -> (text: String)
        requires
            self.buffer.cursor_ok(),
            line < line_count(self.buffer.text()),
        ensures
            text@ == shown_part(
                self.buffer.text(),
                nth_line_start(self.buffer.text(), line as int),
                self.left as int,
                self.width as int,
            ),
    {
        let start = self.buffer.get_start_of_n_line(line);
        let limit = self.buffer.line_limit_from(start);
        let len = limit - start;
        let width = self.width as usize;
        let last_col = if self.left <= len && width <= len - self.left {
            self.left + width
        } else {
            len
        };
        if len == 0 {
            String::new()
        } else if self.left >= last_col {
            let mut text = String::new();
            text.push('\n');
            assert(text@ =~= seq!['\n']);
            text
        } else {
            self.buffer.slice_to_string(start + self.left, start + last_col)
        }
    }

    /// The lines that the pane shows: the first, and one past the last.
    pub fn shown_rows(&self) -> (rows: (usize, usize))
        ensures
            rows.0 == if self.top <= line_count(self.buffer.text()) {
                self.top as int
            } else {
                line_count(self.buffer.text()) as int
            },
            rows.1 == if self.top + self.height <= line_count(self.buffer.text()) {
                self.top + self.height
            } else {
                line_count(self.buffer.text()) as int
            },
    {
        let lines = self.buffer.len();
        let height = self.height as usize;
        let first = if self.top <= lines {
            self.top
        } else {
            lines
        };
        let last = if self.top <= lines && height <= lines - self.top {
            self.top + height
        } else {
            lines
        };
        (first, last)
    }

    /// The width of the line numbers beside the text: as many digits as the
    /// number of the last line that the pane can show has.
    pub fn line_number_width(&self) -> (w: usize)
        ensures
            w == decimal_width(
                if self.top + self.height <= usize::MAX {
                    (self.top + self.height) as nat
                } else {
                    usize::MAX as nat
                },
            ),
            1 <= w <= 20,
    {
        let height = self.height as usize;
        let last = if self.top <= usize::MAX - height {
            self.top + height
        } else {
            usize::MAX
        };
        count_digits(last)
    }
}

/// The number of decimal digits of `n`.
pub fn count_digits(n: usize) -> (w: usize)
    ensures
        w == decimal_width(n as nat),
        1 <= w <= 20,
{
    let mut rest = n;
    let mut w: usize = 1;
    proof {
        lemma_decimal_width_bound(n as nat);
    }
    while rest >= 10
        invariant
            decimal_width(n as nat) == (w - 1) + decimal_width(rest as nat),
            1 <= w,
            decimal_width(n as nat) <= 20,
        decreases rest,
    {
        rest = rest / 10;
        w += 1;
    }
    w
}

/// A number that fits a machine word has at most twenty digits.
pub proof fn lemma_decimal_width_bound(n: nat)
    requires
        n <= usize::MAX,
    ensures
        decimal_width(n) <= 20,
{
    reveal_with_fuel(decimal_width, 21);
}

} // verus!
