//! Line queries and line-wise navigation of the text buffer.

use vstd::prelude::*;
use crate::buffer::Buffer;
use crate::buffer_update::{flags_line_removed, flags_set_from};
use crate::chars::whitespace;
use crate::rope::rope_remove;
use crate::text::{
    cut_out, end_of_line_at, is_line_start, is_not, lemma_count_lf_cut, lemma_line_limit,
    lemma_line_of_bound, lemma_line_start, lemma_line_stop, lemma_nth_line_start,
    lemma_skip_while, line_count, line_end, line_limit, line_of, line_start, line_stop,
    line_text, nth_line_start, skip_while,
};

verus! {

/// The test "is whitespace".
pub open spec fn is_space() -> spec_fn(char) -> bool {
    |c: char| whitespace(c)
}

/// The offset of the first character at or after the start of the line of
/// `i` that is not whitespace, or the length of the document.
pub open spec fn first_non_whitespace(s: Seq<char>, i: int) -> int {
    skip_while(s, line_start(s, i), s.len() as int, is_space())
}

/// Whether the line that begins at `start` holds no character but its line
/// feed.
pub open spec fn blank_line_at(s: Seq<char>, start: int) -> bool {
    start >= s.len() || s[start] == '\n'
}

/// The cursor that a move to line `row` gives: the column is kept where
/// the target line is long enough, and else the cursor stops at that
/// line's end. A move to the cursor's own line or beyond the last line
/// leaves the cursor where it is.
pub open spec fn row_target(s: Seq<char>, cursor: int, row: int) -> int {
    if row == line_of(s, cursor) || row >= line_count(s) {
        cursor
    } else {
        let start = nth_line_start(s, row);
        let want = start + (cursor - line_start(s, cursor));
        let stop = line_stop(s, start);
        if want <= stop {
            want
        } else {
            stop
        }
    }
}

/// A move to a line of the document lands on that line.
pub proof fn lemma_row_target(s: Seq<char>, cursor: int, row: int)
    requires
        0 <= cursor <= s.len(),
        0 <= row < line_count(s),
    ensures
        0 <= row_target(s, cursor, row) <= s.len(),
        line_of(s, row_target(s, cursor, row)) == row,
{
    if row != line_of(s, cursor) {
        crate::text::lemma_line_exists(s, row);
        let start = nth_line_start(s, row);
        lemma_line_stop(s, start);
        lemma_line_start(s, cursor);
        crate::text::lemma_same_line(s, start, row_target(s, cursor, row));
    }
}

impl Buffer {
    /// Whether the cursor's line holds no character but its line feed.
    pub fn is_empty_line(&self) -> (b: bool)
        requires
            self.cursor_ok(),
        ensures
            b == blank_line_at(self.text(), line_start(self.text(), self.cursor as int)),
    {
        let start = self.get_start_of_line();
        match self.rope.get_char(start) {
            Some(c) => c == '\n',
            None => true,
        }
    }

    /// Removes line `line_idx` with its line feed. The last line, which has
    /// none, is emptied and stays. The cursor is kept within the document.
    pub fn remove_n_line(&mut self, line_idx: usize)
        requires
            old(self).wf(),
            line_idx < line_count(old(self).text()),
        ensures
            final(self).wf(),
            final(self).text() == cut_out(
                old(self).text(),
                nth_line_start(old(self).text(), line_idx as int),
                line_limit(old(self).text(), nth_line_start(old(self).text(), line_idx as int)),
            ),
            final(self).cursor == if old(self).cursor <= final(self).text().len() {
                old(self).cursor as int
            } else {
                final(self).text().len() as int
            },
            final(self).has_changed,
            final(self).lines_for_updating@ == if line_idx + 1 < line_count(old(self).text()) {
                flags_line_removed(old(self).lines_for_updating@, line_idx as int)
            } else {
                flags_set_from(old(self).lines_for_updating@, line_idx as int, true)
            },
    {
        let ghost s = self.text();
        let start = self.get_start_of_n_line(line_idx);
        let limit = self.line_limit_from(start);
        let terminated = self.rope.len_lines() - line_idx > 1;
        proof {
            lemma_line_limit(s, start as int);
            lemma_count_lf_cut(s, start as int, limit as int);
            // The line has a line feed exactly when another line follows it.
            let e = line_end(s, start as int);
            if e < s.len() {
                crate::text::lemma_line_of_step(s, e);
                crate::text::lemma_count_lf_none(s.subrange(start as int, e));
                assert(s.take(e) =~= s.take(start as int) + s.subrange(start as int, e));
                crate::text::lemma_count_lf_concat(
                    s.take(start as int),
                    s.subrange(start as int, e),
                );
                lemma_line_of_bound(s, e + 1);
            } else {
                crate::text::lemma_count_lf_none(s.subrange(start as int, s.len() as int));
                assert(s =~= s.take(start as int) + s.subrange(start as int, s.len() as int));
                crate::text::lemma_count_lf_concat(
                    s.take(start as int),
                    s.subrange(start as int, s.len() as int),
                );
            }
        }
        if terminated {
            self.update_list_remove(line_idx);
        } else {
            self.update_list_set(line_idx, true);
            self.has_changed = true;
        }
        rope_remove(&mut self.rope, start, limit);
        let len = self.rope.len_chars();
        if self.cursor > len {
            self.cursor = len;
        }
    }

    /// The number of lines of the document.
    pub fn len(&self) -> (n: usize)
        ensures
            n == line_count(self.text()),
    {
        self.rope.len_lines()
    }

    /// The offset at which line `line_idx` begins; for the index one past
    /// the last line, the length of the document.
    pub fn get_start_of_n_line(&self, line_idx: usize) -> (r: usize)
        requires
            line_idx <= line_count(self.text()),
        ensures
            r <= self.text().len(),
            line_idx < line_count(self.text()) ==> r == nth_line_start(
                self.text(),
                line_idx as int,
            ) && is_line_start(self.text(), r as int) && line_of(self.text(), r as int)
                == line_idx,
            line_idx == line_count(self.text()) ==> r == self.text().len(),
    {
        let r = self.rope.line_to_char(line_idx);
        proof {
            if line_idx < line_count(self.text()) {
                lemma_nth_line_start(self.text(), line_idx as int, r as int);
            }
        }
        r
    }

    /// The offset at which the line that holds `char_idx` begins.
    pub fn get_start_of_char_line(&self, char_idx: usize) -> (r: usize)
        requires
            char_idx <= self.text().len(),
        ensures
            r == line_start(self.text(), char_idx as int),
            r <= char_idx,
    {
        proof {
            lemma_line_of_bound(self.text(), char_idx as int);
            lemma_line_start(self.text(), char_idx as int);
        }
        let line = self.rope.char_to_line(char_idx);
        let r = self.rope.line_to_char(line);
        proof {
            crate::text::lemma_line_start_unique(
                self.text(),
                r as int,
                line_start(self.text(), char_idx as int),
            );
        }
        r
    }

    /// The offset of the first character of the cursor's line, or of a line
    /// below it, that is not whitespace.
    pub fn get_first_non_whitespace_col(&self) -> (r: usize)
        requires
            self.cursor_ok(),
        ensures
            r == first_non_whitespace(self.text(), self.cursor as int),
            line_start(self.text(), self.cursor as int) <= r <= self.text().len(),
    {
        let start = self.get_start_of_line();
        let len = self.rope.len_chars();
        let mut idx = start;
        proof {
            lemma_skip_while(self.text(), start as int, len as int, is_space());
        }
        while idx < len && self.rope.char(idx).is_whitespace()
            invariant
                start <= idx <= len,
                len == self.text().len(),
                skip_while(self.text(), idx as int, len as int, is_space()) == skip_while(
                    self.text(),
                    start as int,
                    len as int,
                    is_space(),
                ),
            decreases len - idx,
        {
            idx += 1;
        }
        idx
    }

    /// The number of whitespace characters that stand at the start of the
    /// cursor's line.
    pub fn first_non_whitespace_col(&self) -> (r: usize)
        requires
            self.cursor_ok(),
        ensures
            r == first_non_whitespace(self.text(), self.cursor as int) - line_start(
                self.text(),
                self.cursor as int,
            ),
            line_start(self.text(), self.cursor as int) + r <= self.text().len(),
    {
        let start = self.get_start_of_line();
        self.get_first_non_whitespace_col() - start
    }

    /// The offset at which the cursor's line begins.
    pub fn get_start_of_line(&self) -> (r: usize)
        requires
            self.cursor_ok(),
        ensures
            r == line_start(self.text(), self.cursor as int),
            r <= self.cursor,
    {
        self.get_start_of_char_line(self.cursor)
    }

    /// Moves the cursor to the start of its line.
    pub fn start_of_line(&mut self)
        requires
            old(self).cursor_ok(),
        ensures
            final(self).cursor == line_start(old(self).text(), old(self).cursor as int),
            final(self).cursor <= old(self).cursor,
            final(self).rope == old(self).rope,
            final(self).lines_for_updating == old(self).lines_for_updating,
            final(self).has_changed == old(self).has_changed,
    {
        self.cursor = self.get_start_of_line();
    }

    /// Where a line that is read from `start` ends.
    pub fn line_stop_from(&self, start: usize) -> (r: usize)
        requires
            start <= self.text().len(),
        ensures
            r == line_stop(self.text(), start as int),
            start <= r <= self.text().len(),
    {
        let len = self.rope.len_chars();
        let mut idx = start;
        proof {
            lemma_line_stop(self.text(), start as int);
        }
        while len - idx > 1 && self.rope.char(idx) != '\n'
            invariant
                start <= idx <= len,
                len == self.text().len(),
                line_stop(self.text(), idx as int) == line_stop(self.text(), start as int),
            decreases len - idx,
        {
            idx += 1;
        }
        idx
    }

    /// One past the last character of the line read from `start`, its line
    /// feed included.
    pub fn line_limit_from(&self, start: usize) -> (r: usize)
        requires
            start <= self.text().len(),
        ensures
            r == line_limit(self.text(), start as int),
            start <= r <= self.text().len(),
    {
        let len = self.rope.len_chars();
        let mut idx = start;
        proof {
            lemma_skip_while(self.text(), start as int, len as int, is_not('\n'));
        }
        while idx < len && self.rope.char(idx) != '\n'
            invariant
                start <= idx <= len,
                len == self.text().len(),
                skip_while(self.text(), idx as int, len as int, is_not('\n')) == skip_while(
                    self.text(),
                    start as int,
                    len as int,
                    is_not('\n'),
                ),
            decreases len - idx,
        {
            idx += 1;
        }
        if idx < len {
            idx + 1
        } else {
            len
        }
    }

    /// The offset at which line `line` ends: that of its line feed, or of
    /// the last character of the document where the line has none. This is
    /// not the line's last column.
    pub fn get_end_of_n_line(&self, line: usize) -> (r: usize)
        requires
            line <= line_count(self.text()),
        ensures
            r <= self.text().len(),
            line < line_count(self.text()) ==> r == line_stop(
                self.text(),
                nth_line_start(self.text(), line as int),
            ),
            line == line_count(self.text()) ==> r == self.text().len(),
    {
        let start = self.get_start_of_n_line(line);
        proof {
            if line == line_count(self.text()) {
                assert(line_stop(self.text(), start as int) == start);
            }
        }
        self.line_stop_from(start)
    }

    /// The offset at which the cursor's line ends: that of its line feed, or
    /// of the last character of the document where the line has none.
    pub fn get_end_of_line(&self) -> (r: usize)
        requires
            self.cursor_ok(),
        ensures
            r == end_of_line_at(self.text(), self.cursor as int),
            line_start(self.text(), self.cursor as int) <= r <= self.text().len(),
    {
        let start = self.get_start_of_line();
        self.line_stop_from(start)
    }

    /// Moves the cursor to the end of its line.
    pub fn end_of_line(&mut self)
        requires
            old(self).cursor_ok(),
        ensures
            final(self).cursor == end_of_line_at(old(self).text(), old(self).cursor as int),
            final(self).cursor_ok(),
            final(self).rope == old(self).rope,
            final(self).lines_for_updating == old(self).lines_for_updating,
            final(self).has_changed == old(self).has_changed,
    {
        self.cursor = self.get_end_of_line();
    }

    /// The characters from offset `from` up to, not including, `to`.
    pub fn slice_to_string(&self, from: usize, to: usize) -> (out: String)
        requires
            from <= to <= self.text().len(),
        ensures
            out@ == self.text().subrange(from as int, to as int),
    {
        let mut out = String::new();
        let mut idx = from;
        while idx < to
            invariant
                from <= idx <= to <= self.text().len(),
                out@ == self.text().subrange(from as int, idx as int),
            decreases to - idx,
        {
            out.push(self.rope.char(idx));
            idx += 1;
            assert(self.text().subrange(from as int, idx as int) =~= self.text().subrange(
                from as int,
                idx - 1,
            ).push(self.text()[idx - 1]));
        }
        out
    }

    /// The rest of the cursor's line from the cursor on, with its line feed.
    pub fn get_until_end_of_line(&self) -> (out: String)
        requires
            self.cursor_ok(),
        ensures
            out@ == self.text().subrange(
                self.cursor as int,
                line_limit(self.text(), self.cursor as int),
            ),
    {
        let limit = self.line_limit_from(self.cursor);
        self.slice_to_string(self.cursor, limit)
    }

    /// The column of the first `c` on the cursor's line, if there is one.
    pub fn find_char_in_current_line(&self, c: char) -> (r: Option<usize>)
        requires
            self.cursor_ok(),
        ensures
            ({
                let start = line_start(self.text(), self.cursor as int);
                let limit = line_limit(self.text(), start);
                let at = skip_while(self.text(), start, limit, is_not(c));
                r == if at < limit {
                    Some((at - start) as usize)
                } else {
                    None
                }
            }),
    {
        let start = self.get_start_of_line();
        let limit = self.line_limit_from(start);
        let mut idx = start;
        proof {
            lemma_skip_while(self.text(), start as int, limit as int, is_not(c));
        }
        while idx < limit && self.rope.char(idx) != c
            invariant
                start <= idx <= limit <= self.text().len(),
                skip_while(self.text(), idx as int, limit as int, is_not(c)) == skip_while(
                    self.text(),
                    start as int,
                    limit as int,
                    is_not(c),
                ),
            decreases limit - idx,
        {
            idx += 1;
        }
        if idx < limit {
            Some(idx - start)
        } else {
            None
        }
    }

    /// The cursor's line, with its line feed if it has one.
    pub fn get_curr_line(&self) -> (out: String)
        requires
            self.cursor_ok(),
        ensures
            out@ == line_text(self.text(), self.cursor as int),
    {
        let start = self.get_start_of_line();
        let limit = self.line_limit_from(start);
        self.slice_to_string(start, limit)
    }
}

} // verus!
