//! The welcome screen: a text set in the middle of a pane.

use vstd::prelude::*;
use vstd::string::StrSliceExecFns;
use crate::status_line::{push_chars, push_repeated};
use crate::text::{is_not, lemma_skip_while, line_end, repeat, skip_while};
use crate::undo::clamped;
use crate::view_box::ViewBox;

verus! {

/// The lines of `s` from offset `from` on, without their line feeds. A line
/// feed at the very end opens no further line.
pub open spec fn lines_of(s: Seq<char>, from: int) -> Seq<Seq<char>>
    decreases s.len() + 1 - from,
{
    if from < 0 || from >= s.len() {
        Seq::<Seq<char>>::empty()
    } else {
        proof {
            lemma_skip_while(s, from, s.len() as int, is_not('\n'));
        }
        seq![s.subrange(from, line_end(s, from))] + lines_of(s, line_end(s, from) + 1)
    }
}

/// The length of the longest of the first `n` lines.
pub open spec fn longest(lines: Seq<Seq<char>>, n: int) -> nat
    decreases n,
{
    if n <= 0 {
        0
    } else if lines[n - 1].len() > longest(lines, n - 1) {
        lines[n - 1].len()
    } else {
        longest(lines, n - 1)
    }
}

/// The number of spaces on either side of a line of `len` characters in a
/// row of `width` columns.
pub open spec fn side_padding(len: int, width: int) -> nat {
    if len <= width {
        ((width - len) / 2) as nat
    } else {
        0
    }
}

/// `line` in the middle of a row of `width` columns, with as many spaces
/// behind it as before it, and a line feed.
pub open spec fn centered_line(line: Seq<char>, width: int) -> Seq<char> {
    repeat(' ', side_padding(line.len() as int, width)) + line + repeat(
        ' ',
        side_padding(line.len() as int, width),
    ) + seq!['\n']
}

/// The first `n` lines, each in the middle of a row of `width` columns.
pub open spec fn centered_lines(lines: Seq<Seq<char>>, width: int, n: int) -> Seq<char>
    decreases n,
{
    if n <= 0 {
        Seq::<char>::empty()
    } else {
        centered_lines(lines, width, n - 1) + centered_line(lines[n - 1], width)
    }
}

/// Whether a text of these lines has room to spare in a pane of `width`
/// columns and `height` rows, down and across.
pub open spec fn fits_pane(lines: Seq<Seq<char>>, width: int, height: int) -> bool {
    lines.len() < height && longest(lines, lines.len() as int) < width
}

/// The welcome screen for a pane of `width` columns and `height` rows: the
/// lines of `text`, each in the middle of its row, below half of the rows
/// that the text leaves free.
pub open spec fn welcome_text(text: Seq<char>, width: int, height: int) -> Seq<char> {
    let lines = lines_of(text, 0);
    repeat('\n', ((height - lines.len()) / 2) as nat) + centered_lines(
        lines,
        width,
        lines.len() as int,
    )
}

/// The lines of `text`, without their line feeds.
pub fn split_lines(text: &str) -> (lines: Vec<Vec<char>>)
    ensures
        lines@.len() == lines_of(text@, 0).len(),
        forall|i: int| 0 <= i < lines@.len() ==> (#[trigger] lines@[i])@ == lines_of(text@, 0)[i],
{
    let n = text.unicode_len();
    let mut lines: Vec<Vec<char>> = Vec::new();
    let mut from: usize = 0;
    let ghost mut done: Seq<Seq<char>> = Seq::empty();
    assert(done + lines_of(text@, 0) =~= lines_of(text@, 0));
    while from < n
        invariant
            n == text@.len(),
            from <= n,
            lines@.len() == done.len(),
            forall|i: int| 0 <= i < lines@.len() ==> (#[trigger] lines@[i])@ == done[i],
            lines_of(text@, 0) == done + lines_of(text@, from as int),
        decreases n - from,
    {
        let mut line: Vec<char> = Vec::new();
        let mut at = from;
        proof {
            lemma_skip_while(text@, from as int, n as int, is_not('\n'));
        }
        while at < n && text.get_char(at) != '\n'
            invariant
                from <= at <= n,
                n == text@.len(),
                line@ == text@.subrange(from as int, at as int),
                skip_while(text@, at as int, n as int, is_not('\n')) == skip_while(
                    text@,
                    from as int,
                    n as int,
                    is_not('\n'),
                ),
            decreases n - at,
        {
            line.push(text.get_char(at));
            at += 1;
            assert(line@ =~= text@.subrange(from as int, at as int));
        }
        proof {
            let rest = lines_of(text@, at + 1);
            assert(done + (seq![line@] + rest) =~= done.push(line@) + rest);
            done = done.push(line@);
        }
        lines.push(line);
        from = if at < n {
            at + 1
        } else {
            n
        };
    }
    proof {
        assert(done + lines_of(text@, from as int) =~= done);
    }
    lines
}

/// The number of lines of `text`.
pub fn count_line(text: &str) -> (n: usize)
    ensures
        n == lines_of(text@, 0).len(),
{
    split_lines(text).len()
}

/// The length of the longest line among `lines`.
fn longest_of(lines: &Vec<Vec<char>>) -> (w: usize)
    ensures
        w == longest(Seq::new(lines@.len(), |i: int| lines@[i]@), lines@.len() as int),
{
    let ghost views = Seq::new(lines@.len(), |i: int| lines@[i]@);
    let mut w: usize = 0;
    let mut i: usize = 0;
    while i < lines.len()
        invariant
            i <= lines@.len(),
            views == Seq::new(lines@.len(), |i: int| lines@[i]@),
            w == longest(views, i as int),
        decreases lines@.len() - i,
    {
        if lines[i].len() > w {
            w = lines[i].len();
        }
        i += 1;
    }
    w
}

/// The length of the longest line of `text`.
pub fn count_longest_line(text: &str) -> (w: usize)
    ensures
        w == longest(lines_of(text@, 0), lines_of(text@, 0).len() as int),
{
    let lines = split_lines(text);
    assert(Seq::new(lines@.len(), |i: int| lines@[i]@) =~= lines_of(text@, 0));
    longest_of(&lines)
}

/// Appends `line` to `contents`, set in the middle of a row of `width`
/// columns.
pub fn write_line_centered(line: &[char], contents: &mut String, width: u16)
    ensures
        final(contents)@ == old(contents)@ + centered_line(line@, width as int),
{
    let width = width as usize;
    let padding = if line.len() <= width {
        (width - line.len()) / 2
    } else {
        0
    };
    push_repeated(contents, ' ', padding);
    push_chars(contents, line);
    push_repeated(contents, ' ', padding);
    contents.push('\n');
    assert(contents@ =~= old(contents)@ + centered_line(line@, width as int));
}

impl ViewBox {
    /// Fills the pane's buffer with the welcome screen made of `text`, where
    /// the pane has room to spare for it; a pane without leaves its buffer
    /// as it is.
    pub fn write_welcome_screen(&mut self, text: &str)
        requires
            old(self).wf(),
        ensures
            final(self).wf(),
            final(self).x == old(self).x && final(self).y == old(self).y,
            final(self).width == old(self).width && final(self).height == old(self).height,
            final(self).top == old(self).top && final(self).left == old(self).left,
            final(self).path == old(self).path && final(self).git_hash == old(self).git_hash,
            !fits_pane(lines_of(text@, 0), old(self).width as int, old(self).height as int)
                ==> final(self).buffer == old(self).buffer,
            fits_pane(lines_of(text@, 0), old(self).width as int, old(self).height as int) ==> {
                &&& final(self).buffer.text() == welcome_text(
                    text@,
                    old(self).width as int,
                    old(self).height as int,
                )
                &&& final(self).buffer.cursor == clamped(
                    old(self).buffer.cursor as int,
                    final(self).buffer.text(),
                )
                &&& final(self).buffer.has_changed
                &&& final(self).buffer.lines_for_updating@ == crate::buffer_update::all_flagged(
                    final(self).buffer.text(),
                )
            },
    {
        let lines = split_lines(text);
        let ghost views = Seq::new(lines@.len(), |i: int| lines@[i]@);
        assert(views =~= lines_of(text@, 0));
        let text_height = lines.len();
        let text_width = longest_of(&lines);
        let height = self.height as usize;
        let width = self.width as usize;
        if text_height >= height || text_width >= width {
            return ;
        }
        let mut contents = String::new();
        push_repeated(&mut contents, '\n', (height - text_height) / 2);
        let ghost head = contents@;
        let mut i: usize = 0;
        assert(contents@ =~= head + centered_lines(views, width as int, 0));
        while i < lines.len()
            invariant
                i <= lines@.len(),
                views == Seq::new(lines@.len(), |i: int| lines@[i]@),
                width == self.width,
                contents@ == head + centered_lines(views, width as int, i as int),
            decreases lines@.len() - i,
        {
            write_line_centered(lines[i].as_slice(), &mut contents, self.width);
            i += 1;
            assert(contents@ =~= head + centered_lines(views, width as int, i as int));
        }
        self.buffer.load(contents.as_str());
    }
}

} // verus!
