//! Character-wise edits and navigation of the text buffer.

use vstd::prelude::*;
use crate::buffer::Buffer;
use crate::buffer_line::{first_non_whitespace, row_target};
use crate::buffer_update::{flags_cut, flags_line_added, flags_line_merged};
use crate::text::{
    count_lf, cut_out, lemma_count_lf_insert, lemma_count_lf_remove, lemma_line_of_bound,
    line_count, line_of, line_start, repeat, splice_in,
};

verus! {

/// The number of spaces that end at offset `i`, counted backward from `i`
/// itself; the first character of the document is never counted.
pub open spec fn spaces_back(s: Seq<char>, i: int) -> nat
    decreases i,
{
    if 0 < i < s.len() && s[i] == ' ' {
        1 + spaces_back(s, i - 1)
    } else {
        0
    }
}

/// How many of `n` trailing spaces a backspace removes to reach the previous
/// multiple-of-four column: all of up to four, else the remainder by four,
/// or four where that is zero.
pub open spec fn alignment_cut(n: nat) -> nat {
    if n <= 4 {
        n
    } else if n % 4 == 0 {
        4
    } else {
        n % 4
    }
}

/// The flags after `n` line breaks were added on line `row`, one by one.
pub open spec fn flags_lines_added(d: Seq<bool>, row: int, n: nat) -> Seq<bool>
    decreases n,
{
    if n == 0 {
        d
    } else {
        flags_line_added(flags_lines_added(d, row, (n - 1) as nat), row)
    }
}

/// The flags after the character `was` on line `row` was replaced by `now`.
pub open spec fn flags_replaced(d: Seq<bool>, row: int, was: char, now: char) -> Seq<bool> {
    let d1 = if was == '\n' {
        flags_line_merged(d, row)
    } else {
        d
    };
    let d2 = if now == '\n' {
        flags_line_added(d1, row)
    } else {
        d1
    };
    d2.update(row, true)
}

impl Buffer {
    /// Whether the cursor stands on the last character of its line: on a
    /// line feed, or on or behind the last character of the document.
    pub fn is_last_col(&self) -> (b: bool)
        requires
            self.cursor_ok(),
        ensures
            b == (self.cursor + 1 >= self.text().len() || self.text()[self.cursor as int]
                == '\n'),
    {
        self.rope.len_chars() - self.cursor <= 1 || self.rope.char(self.cursor) == '\n'
    }

    /// Whether the cursor stands on the last line.
    pub fn is_last_row(&self) -> (b: bool)
        requires
            self.cursor_ok(),
        ensures
            b == (self.row() + 1 == line_count(self.text())),
    {
        proof {
            lemma_line_of_bound(self.text(), self.cursor as int);
        }
        self.rope.len_lines() - self.rope.char_to_line(self.cursor) == 1
    }

    /// Whether the cursor stands on the first line.
    pub fn is_first_row(&self) -> (b: bool)
        requires
            self.cursor_ok(),
        ensures
            b == (self.row() == 0),
    {
        self.rope.char_to_line(self.cursor) == 0
    }

    /// Removes the character under the cursor; at the end of the document
    /// there is none and nothing changes. With a line feed goes its line's
    /// redraw flag.
    pub fn delete_curr_char(&mut self)
        requires
            old(self).wf(),
        ensures
            final(self).wf(),
            final(self).cursor == old(self).cursor,
            final(self).text() == if old(self).cursor < old(self).text().len() {
                old(self).text().remove(old(self).cursor as int)
            } else {
                old(self).text()
            },
            final(self).lines_for_updating@ == if old(self).cursor < old(self).text().len()
                && old(self).text()[old(self).cursor as int] == '\n' {
                flags_line_merged(old(self).lines_for_updating@, old(self).row() as int)
            } else {
                old(self).lines_for_updating@
            },
            final(self).has_changed == (old(self).has_changed || (old(self).cursor
                < old(self).text().len() && old(self).text()[old(self).cursor as int] == '\n')),
    {
        if self.cursor == self.rope.len_chars() {
            return ;
        }
        proof {
            lemma_line_of_bound(self.text(), self.cursor as int);
            lemma_count_lf_remove(self.text(), self.cursor as int);
            assert(self.text().remove(self.cursor as int) =~= cut_out(
                self.text(),
                self.cursor as int,
                self.cursor + 1,
            ));
        }
        if self.rope.char(self.cursor) == '\n' {
            self.update_list_remove_current();
        }
        crate::rope::rope_remove(&mut self.rope, self.cursor, self.cursor + 1);
    }

    /// Puts `c` in the place of the character under the cursor and flags the
    /// cursor's line.
    pub fn replace_curr_char(&mut self, c: char)
        requires
            old(self).wf(),
            old(self).cursor < old(self).text().len(),
        ensures
            final(self).wf(),
            final(self).cursor == old(self).cursor,
            final(self).text() == old(self).text().update(old(self).cursor as int, c),
            final(self).lines_for_updating@ == flags_replaced(
                old(self).lines_for_updating@,
                old(self).row() as int,
                old(self).text()[old(self).cursor as int],
                c,
            ),
            final(self).has_changed,
    {
        let ghost s = self.text();
        let ghost at = self.cursor as int;
        self.delete_curr_char();
        proof {
            assert(self.text().take(at) =~= s.take(at));
        }
        self.insert_char(c);
        proof {
            assert(self.text() =~= s.update(at, c));
            assert(self.text().take(at) =~= s.take(at));
            lemma_line_of_bound(self.text(), at);
        }
        self.update_list_use_current_line();
    }

    /// Puts `c` in front of the cursor's offset; the cursor stays where it
    /// is, now on `c`. A line feed gets a redraw flag for the line it makes.
    pub fn insert_char(&mut self, c: char)
        requires
            old(self).wf(),
        ensures
            final(self).wf(),
            final(self).cursor == old(self).cursor,
            final(self).text() == old(self).text().insert(old(self).cursor as int, c),
            final(self).lines_for_updating@ == if c == '\n' {
                flags_line_added(old(self).lines_for_updating@, old(self).row() as int)
            } else {
                old(self).lines_for_updating@
            },
            final(self).has_changed == (old(self).has_changed || c == '\n'),
    {
        proof {
            lemma_line_of_bound(self.text(), self.cursor as int);
            lemma_count_lf_insert(self.text(), self.cursor as int, c);
        }
        if c == '\n' {
            self.update_list_add_current();
        }
        self.rope.insert_char(self.cursor, c);
    }

    /// Puts `n` copies of `c` in front of the cursor's offset; the cursor
    /// stays where it is.
    pub fn insert_char_n_times(&mut self, c: char, n: u8)
        requires
            old(self).wf(),
        ensures
            final(self).wf(),
            final(self).cursor == old(self).cursor,
            final(self).text() == splice_in(
                old(self).text(),
                old(self).cursor as int,
                repeat(c, n as nat),
            ),
            final(self).lines_for_updating@ == if c == '\n' {
                flags_lines_added(old(self).lines_for_updating@, old(self).row() as int, n as nat)
            } else {
                old(self).lines_for_updating@
            },
            final(self).has_changed == (old(self).has_changed || (c == '\n' && n > 0)),
    {
        self.insert_repeated(c, n as usize);
    }

    /// Puts `n` copies of `c` in front of the cursor's offset; the cursor
    /// stays where it is.
    pub fn insert_repeated(&mut self, c: char, n: usize)
        requires
            old(self).wf(),
        ensures
            final(self).wf(),
            final(self).cursor == old(self).cursor,
            final(self).text() == splice_in(
                old(self).text(),
                old(self).cursor as int,
                repeat(c, n as nat),
            ),
            final(self).lines_for_updating@ == if c == '\n' {
                flags_lines_added(old(self).lines_for_updating@, old(self).row() as int, n as nat)
            } else {
                old(self).lines_for_updating@
            },
            final(self).has_changed == (old(self).has_changed || (c == '\n' && n > 0)),
    {
        let ghost s = self.text();
        let ghost at = self.cursor as int;
        let mut i: usize = 0;
        proof {
            assert(splice_in(s, at, repeat(c, 0)) =~= s);
        }
        while i < n
            invariant
                i <= n,
                self.wf(),
                self.cursor == at,
                at == old(self).cursor,
                0 <= at <= s.len(),
                s == old(self).text(),
                self.text() == splice_in(s, at, repeat(c, i as nat)),
                self.row() == old(self).row(),
                self.lines_for_updating@ == if c == '\n' {
                    flags_lines_added(
                        old(self).lines_for_updating@,
                        old(self).row() as int,
                        i as nat,
                    )
                } else {
                    old(self).lines_for_updating@
                },
                self.has_changed == (old(self).has_changed || (c == '\n' && i > 0)),
            decreases n - i,
        {
            self.insert_char(c);
            i += 1;
            proof {
                assert(self.text() =~= splice_in(s, at, repeat(c, i as nat)));
                assert(self.text().take(at) =~= s.take(at));
            }
        }
    }

    /// Splits the cursor's line at the cursor and indents the new line by as
    /// many spaces as whitespace characters lead the line that is split. The
    /// cursor moves behind what was inserted, which is returned: the line
    /// feed and the spaces.
    pub fn insert_newline(&mut self) -> (out: String)
        requires
            old(self).wf(),
        ensures
            final(self).wf(),
            ({
                let indent = first_non_whitespace(old(self).text(), old(self).cursor as int)
                    - line_start(old(self).text(), old(self).cursor as int);
                &&& out@ == seq!['\n'] + repeat(' ', indent as nat)
                &&& final(self).cursor == old(self).cursor + 1 + indent
            }),
            final(self).text() == splice_in(old(self).text(), old(self).cursor as int, out@),
            final(self).lines_for_updating@ == flags_line_added(
                old(self).lines_for_updating@,
                old(self).row() as int,
            ),
            final(self).has_changed,
    {
        let ghost s = self.text();
        let ghost at = self.cursor as int;
        let indent = self.first_non_whitespace_col();
        self.insert_char('\n');
        let ghost s1 = self.text();
        self.next_char();
        self.insert_repeated(' ', indent);
        proof {
            assert(s1.skip(at + 1) =~= s.skip(at));
            assert(s1.take(at + 1) =~= s.take(at) + seq!['\n']);
        }
        if indent <= self.rope.len_chars() - self.cursor {
            self.cursor += indent;
        }
        let mut out = String::new();
        out.push('\n');
        let mut i: usize = 0;
        while i < indent
            invariant
                i <= indent,
                out@ == seq!['\n'] + repeat(' ', i as nat),
            decreases indent - i,
        {
            out.push(' ');
            i += 1;
            assert(out@ =~= seq!['\n'] + repeat(' ', i as nat));
        }
        proof {
            assert(self.text() =~= splice_in(s, at, out@));
        }
        out
    }

    /// Whether the cursor stands on the last character of the document.
    pub fn is_last_char(&self) -> (b: bool)
        ensures
            b == (self.cursor + 1 == self.text().len()),
    {
        let len = self.rope.len_chars();
        self.cursor < len && len - self.cursor == 1
    }

    /// The character under the cursor.
    pub fn get_curr_char(&self) -> (c: char)
        requires
            self.cursor < self.text().len(),
        ensures
            c == self.text()[self.cursor as int],
    {
        self.rope.char(self.cursor)
    }

    /// The character behind the one under the cursor, if there is one.
    pub fn get_next_char(&self) -> (c: Option<char>)
        ensures
            c == if self.cursor + 1 < self.text().len() {
                Some(self.text()[self.cursor + 1])
            } else {
                None
            },
    {
        let len = self.rope.len_chars();
        if self.cursor < len && len - self.cursor > 1 {
            Some(self.rope.char(self.cursor + 1))
        } else {
            None
        }
    }

    /// Moves the cursor one character on, unless it stands at the end of the
    /// document, and returns the character it lands on, if it lands on one.
    pub fn next_and_char(&mut self) -> (c: Option<char>)
        requires
            old(self).cursor_ok(),
        ensures
            final(self).cursor_ok(),
            final(self).cursor == if old(self).cursor < old(self).text().len() {
                old(self).cursor + 1
            } else {
                old(self).cursor as int
            },
            c == if old(self).cursor + 1 < old(self).text().len() {
                Some(old(self).text()[old(self).cursor + 1])
            } else {
                None
            },
            final(self).rope == old(self).rope,
            final(self).lines_for_updating == old(self).lines_for_updating,
            final(self).has_changed == old(self).has_changed,
    {
        let len = self.rope.len_chars();
        if self.cursor < len {
            self.cursor += 1;
        }
        self.rope.get_char(self.cursor)
    }

    /// Moves the cursor one character on, unless it stands at the end of the
    /// document, and returns the character it lands on, if it lands on one.
    pub fn next_char(&mut self) -> (c: Option<char>)
        requires
            old(self).cursor_ok(),
        ensures
            final(self).cursor_ok(),
            final(self).cursor == if old(self).cursor < old(self).text().len() {
                old(self).cursor + 1
            } else {
                old(self).cursor as int
            },
            c == if old(self).cursor + 1 < old(self).text().len() {
                Some(old(self).text()[old(self).cursor + 1])
            } else {
                None
            },
            final(self).rope == old(self).rope,
            final(self).lines_for_updating == old(self).lines_for_updating,
            final(self).has_changed == old(self).has_changed,
    {
        self.next_and_char()
    }

    /// The character before the cursor, if there is one.
    pub fn get_prev_char(&self) -> (c: Option<char>)
        requires
            self.cursor_ok(),
        ensures
            c == if self.cursor > 0 {
                Some(self.text()[self.cursor - 1])
            } else {
                None
            },
    {
        if self.cursor == 0 {
            None
        } else {
            Some(self.rope.char(self.cursor - 1))
        }
    }

    /// Moves the cursor one character back, unless it stands at the start of
    /// the document, and returns the character it lands on.
    pub fn prev_char(&mut self) -> (c: Option<char>)
        requires
            old(self).cursor_ok(),
        ensures
            final(self).cursor_ok(),
            final(self).cursor == if old(self).cursor > 0 {
                old(self).cursor - 1
            } else {
                0
            },
            c == if old(self).cursor > 0 {
                Some(old(self).text()[old(self).cursor - 1])
            } else {
                None
            },
            final(self).rope == old(self).rope,
            final(self).lines_for_updating == old(self).lines_for_updating,
            final(self).has_changed == old(self).has_changed,
    {
        if self.cursor == 0 {
            None
        } else {
            self.cursor -= 1;
            Some(self.rope.char(self.cursor))
        }
    }

    /// The column of the cursor: its distance from the start of its line.
    pub fn get_col(&self) -> (col: usize)
        requires
            self.cursor_ok(),
        ensures
            col == self.cursor - line_start(self.text(), self.cursor as int),
    {
        let start_idx = self.get_start_of_line();
        self.cursor - start_idx
    }

    /// Moves the cursor to column `col` of its line, and no further than the
    /// end of the document.
    pub fn set_col(&mut self, col: usize)
        requires
            old(self).cursor_ok(),
        ensures
            final(self).cursor_ok(),
            final(self).cursor == if line_start(old(self).text(), old(self).cursor as int) + col
                <= old(self).text().len() {
                line_start(old(self).text(), old(self).cursor as int) + col
            } else {
                old(self).text().len() as int
            },
            final(self).rope == old(self).rope,
            final(self).lines_for_updating == old(self).lines_for_updating,
            final(self).has_changed == old(self).has_changed,
    {
        let start_idx = self.get_start_of_line();
        let len = self.rope.len_chars();
        self.cursor = if col <= len - start_idx {
            start_idx + col
        } else {
            len
        };
    }

    /// The index of the cursor's line.
    pub fn get_row(&self) -> (row: usize)
        requires
            self.cursor_ok(),
        ensures
            row == self.row(),
            row < line_count(self.text()),
    {
        proof {
            lemma_line_of_bound(self.text(), self.cursor as int);
        }
        self.rope.char_to_line(self.cursor)
    }

    /// Moves the cursor to line `row` and keeps its column; where the target
    /// line is shorter, the cursor stops at that line's end. There is no
    /// move to a line that the document does not have.
    pub fn set_row(&mut self, row: usize)
        requires
            old(self).cursor_ok(),
        ensures
            final(self).cursor_ok(),
            final(self).cursor == row_target(
                old(self).text(),
                old(self).cursor as int,
                row as int,
            ),
            final(self).rope == old(self).rope,
            final(self).lines_for_updating == old(self).lines_for_updating,
            final(self).has_changed == old(self).has_changed,
    {
        let curr_row = self.get_row();
        if curr_row == row || self.rope.len_lines() <= row {
            return ;
        }
        let col = self.get_col();
        let end_next_row = self.get_end_of_n_line(row);
        let start_of_next_row = self.get_start_of_n_line(row);
        proof {
            crate::text::lemma_line_stop(self.text(), start_of_next_row as int);
        }
        self.cursor = if col <= end_next_row - start_of_next_row {
            start_of_next_row + col
        } else {
            end_next_row
        };
    }

    /// Moves the cursor one line up, unless it stands on the first.
    pub fn prev_line(&mut self)
        requires
            old(self).cursor_ok(),
        ensures
            final(self).cursor_ok(),
            final(self).cursor == if old(self).row() == 0 {
                old(self).cursor as int
            } else {
                row_target(old(self).text(), old(self).cursor as int, old(self).row() - 1)
            },
            final(self).rope == old(self).rope,
            final(self).lines_for_updating == old(self).lines_for_updating,
            final(self).has_changed == old(self).has_changed,
    {
        let row = self.get_row();
        if row > 0 {
            self.set_row(row - 1);
        }
    }

    /// Moves the cursor one line down, unless it stands on the last.
    pub fn next_line(&mut self)
        requires
            old(self).cursor_ok(),
        ensures
            final(self).cursor_ok(),
            final(self).cursor == row_target(
                old(self).text(),
                old(self).cursor as int,
                (old(self).row() + 1) as int,
            ),
            final(self).rope == old(self).rope,
            final(self).lines_for_updating == old(self).lines_for_updating,
            final(self).has_changed == old(self).has_changed,
    {
        let line = self.get_row();
        if self.rope.len_lines() - line > 1 {
            self.set_row(line + 1);
        }
    }

    /// The number of spaces that end at the cursor, counted backward from
    /// the character under it.
    pub fn count_spaces_backwards(&self) -> (n: usize)
        ensures
            n == spaces_back(self.text(), self.cursor as int),
    {
        let len = self.rope.len_chars();
        let mut space_count: usize = 0;
        let mut idx = self.cursor;
        while idx > 0 && idx < len && self.rope.char(idx) == ' '
            invariant
                idx <= self.cursor,
                len == self.text().len(),
                space_count + idx == self.cursor,
                spaces_back(self.text(), self.cursor as int) == space_count + spaces_back(
                    self.text(),
                    idx as int,
                ),
            decreases idx,
        {
            idx -= 1;
            space_count += 1;
        }
        space_count
    }

    /// Removes the last `alignment_cut(space_count)` characters up to and
    /// with the one under the cursor, and leaves the cursor where the first
    /// of them stood. Returns what was removed.
    pub fn delete_to_4_spaces_alignment(&mut self, space_count: usize) -> (deleted: String)
        requires
            old(self).wf(),
            alignment_cut(space_count as nat) > 0 ==> old(self).cursor < old(self).text().len()
                && alignment_cut(space_count as nat) <= old(self).cursor + 1,
        ensures
            final(self).wf(),
            ({
                let k = alignment_cut(space_count as nat);
                let from = if k == 0 {
                    old(self).cursor as int
                } else {
                    old(self).cursor + 1 - k
                };
                &&& final(self).cursor == from
                &&& deleted@ == old(self).text().subrange(from, from + k)
                &&& final(self).text() == cut_out(old(self).text(), from, from + k)
                &&& final(self).lines_for_updating@ == flags_cut(
                    old(self).lines_for_updating@,
                    line_of(old(self).text(), from) as int,
                    count_lf(deleted@) as int,
                )
                &&& final(self).has_changed == (old(self).has_changed || count_lf(deleted@) > 0)
            }),
    {
        let mut deleted = String::new();
        let leftover: usize = if space_count <= 4 {
            space_count
        } else if space_count % 4 == 0 {
            4
        } else {
            space_count % 4
        };
        if leftover == 0 {
            proof {
                assert(self.text() =~= cut_out(
                    self.text(),
                    self.cursor as int,
                    self.cursor as int,
                ));
                assert(deleted@ =~= self.text().subrange(self.cursor as int, self.cursor as int));
            }
            return deleted;
        }
        let ghost s = self.text();
        let ghost d0 = self.lines_for_updating@;
        self.cursor -= leftover - 1;
        let ghost from = self.cursor as int;
        let mut i: usize = 0;
        proof {
            assert(s =~= cut_out(s, from, from));
        }
        while i < leftover
            invariant
                i <= leftover,
                self.wf(),
                self.cursor == from,
                0 <= from,
                from + leftover <= s.len(),
                self.text() == cut_out(s, from, from + i),
                deleted@ == s.subrange(from, from + i),
                d0 == old(self).lines_for_updating@,
                d0.len() == line_count(s),
                s == old(self).text(),
                self.lines_for_updating@ == flags_cut(
                    d0,
                    line_of(s, from) as int,
                    count_lf(deleted@) as int,
                ),
                self.has_changed == (old(self).has_changed || count_lf(deleted@) > 0),
            decreases leftover - i,
        {
            proof {
                let done = s.subrange(from, from + i);
                assert(s.subrange(from, from + i + 1).drop_last() =~= done);
                assert(self.text().take(from) =~= s.take(from));
                assert(s.take(from + i + 1) =~= s.take(from) + s.subrange(from, from + i + 1));
                crate::text::lemma_count_lf_concat(s.take(from), s.subrange(from, from + i + 1));
                lemma_line_of_bound(s, from + i + 1);
                if s[from + i] == '\n' {
                    crate::buffer_update::lemma_flags_cut_more(
                        d0,
                        line_of(s, from) as int,
                        count_lf(done) as int,
                    );
                }
            }
            deleted.push(self.get_curr_char());
            self.delete_curr_char();
            i += 1;
            proof {
                assert(self.text() =~= cut_out(s, from, from + i));
                assert(deleted@ =~= s.subrange(from, from + i));
            }
        }
        deleted
    }
}

} // verus!
