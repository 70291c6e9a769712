//! Searching the document and replacing text in it.

use vstd::prelude::*;
use vstd::string::{StrSliceExecFns, StringExecFns};
use crate::buffer::Buffer;
use crate::buffer_update::all_flagged;
use crate::text::{
    is_not, lemma_skip_back_while, lemma_skip_while, skip_back_while, skip_while, splice_in,
};
use crate::undo::{clamped, Action, ActionView, UndoTree};

verus! {

/// The offsets at which the occurrences of `pat` end that a scan of `s` from
/// offset `i` finds: the scan takes the first occurrence it meets and goes
/// on behind it, so no two overlap. An empty pattern occurs nowhere.
pub open spec fn occurrences(s: Seq<char>, pat: Seq<char>, i: int) -> Seq<usize>
    decreases s.len() - i,
{
    if pat.len() == 0 || i < 0 || i + pat.len() > s.len() {
        Seq::<usize>::empty()
    } else if s.subrange(i, i + pat.len()) == pat {
        seq![(i + pat.len()) as usize] + occurrences(s, pat, i + pat.len())
    } else {
        occurrences(s, pat, i + 1)
    }
}

/// `s` with the `m` characters that end at offset `end` replaced by `t`.
pub open spec fn replace_at(s: Seq<char>, end: int, m: int, t: Seq<char>) -> Seq<char> {
    s.take(end - m) + t + s.skip(end)
}

/// `s` after the replacements at `ends[from..]`, in that order: each offset
/// is first moved by `delta`, the change in length that the replacements
/// before it made; then the `m` characters that end there are replaced by
/// `t`. An offset at which `m` characters do not end within the document is
/// passed over.
pub open spec fn replace_run(
    s: Seq<char>,
    ends: Seq<usize>,
    from: int,
    m: int,
    t: Seq<char>,
    delta: int,
) -> Seq<char>
    decreases ends.len() - from,
{
    if from < 0 || from >= ends.len() {
        s
    } else if m <= ends[from] + delta <= s.len() {
        replace_run(
            replace_at(s, ends[from] + delta, m, t),
            ends,
            from + 1,
            m,
            t,
            delta + t.len() - m,
        )
    } else {
        replace_run(s, ends, from + 1, m, t, delta)
    }
}

/// The offsets at which the replacing texts end after the replacements of
/// `replace_run`.
pub open spec fn replaced_ends(
    s: Seq<char>,
    ends: Seq<usize>,
    from: int,
    m: int,
    t: Seq<char>,
    delta: int,
) -> Seq<usize>
    decreases ends.len() - from,
{
    if from < 0 || from >= ends.len() {
        Seq::<usize>::empty()
    } else if m <= ends[from] + delta <= s.len() {
        seq![(ends[from] + delta - m + t.len()) as usize] + replaced_ends(
            replace_at(s, ends[from] + delta, m, t),
            ends,
            from + 1,
            m,
            t,
            delta + t.len() - m,
        )
    } else {
        replaced_ends(s, ends, from + 1, m, t, delta)
    }
}

/// The offset of the first `c` at or after offset `i`, if there is one.
pub open spec fn next_index_of(s: Seq<char>, i: int, c: char) -> Option<usize> {
    let at = skip_while(s, i, s.len() as int, is_not(c));
    if at < s.len() {
        Some(at as usize)
    } else {
        None
    }
}

/// The offset of the last `c` at or before offset `i`, if there is one.
pub open spec fn prev_index_of(s: Seq<char>, i: int, c: char) -> Option<usize> {
    let from = if i < s.len() {
        i + 1
    } else {
        s.len() as int
    };
    let at = skip_back_while(s, from, 0, is_not(c));
    if at > 0 {
        Some((at - 1) as usize)
    } else {
        None
    }
}

impl Buffer {
    /// Flags every line for drawing, with one flag for each line of the
    /// document as it is now.
    pub fn mark_all_lines(&mut self)
        requires
            old(self).cursor_ok(),
        ensures
            final(self).wf(),
            final(self).rope == old(self).rope,
            final(self).cursor == old(self).cursor,
            final(self).has_changed,
            final(self).lines_for_updating@ == all_flagged(final(self).text()),
    {
        let n = self.rope.len_lines();
        let mut flags: Vec<bool> = Vec::new();
        let mut i: usize = 0;
        while i < n
            invariant
                i <= n,
                flags@.len() == i,
                forall|k: int| 0 <= k < i ==> flags@[k],
            decreases n - i,
        {
            flags.push(true);
            i += 1;
        }
        self.lines_for_updating = flags;
        self.has_changed = true;
        assert(self.lines_for_updating@ =~= all_flagged(self.text()));
    }

    /// Whether `pat` stands at offset `i` of the document.
    fn matches_at(&self, pat: &Vec<char>, i: usize) -> (r: bool)
        requires
            i + pat@.len() <= self.text().len(),
        ensures
            r == (self.text().subrange(i as int, i + pat@.len()) == pat@),
    {
        let len = self.rope.len_chars();
        let mut k: usize = 0;
        while k < pat.len()
            invariant
                k <= pat@.len(),
                i + pat@.len() <= self.text().len(),
                len == self.text().len(),
                forall|j: int| 0 <= j < k ==> self.text()[i + j] == pat@[j],
            decreases pat@.len() - k,
        {
            if self.rope.char(i + k) != pat[k] {
                assert(self.text().subrange(i as int, i + pat@.len())[k as int] != pat@[k as int]);
                return false;
            }
            k += 1;
        }
        assert(self.text().subrange(i as int, i + pat@.len()) =~= pat@);
        true
    }

    /// The offsets at which the occurrences of `pattern` end, found in one
    /// scan of the whole document; occurrences do not overlap.
    pub fn find_occurrences(&self, pattern: &Vec<char>) -> (ends: Vec<usize>)
        ensures
            ends@ == occurrences(self.text(), pattern@, 0),
    {
        let mut ends: Vec<usize> = Vec::new();
        let len = self.rope.len_chars();
        let m = pattern.len();
        if m == 0 || m > len {
            return ends;
        }
        let mut i: usize = 0;
        while i <= len - m
            invariant
                0 < m <= len,
                m == pattern@.len(),
                len == self.text().len(),
                i <= len,
                occurrences(self.text(), pattern@, 0) == ends@ + occurrences(
                    self.text(),
                    pattern@,
                    i as int,
                ),
            decreases len - i,
        {
            if self.matches_at(pattern, i) {
                let ghost before = ends@;
                ends.push(i + m);
                assert(ends@ =~= before + seq![(i + m) as usize]);
                i += m;
            } else {
                i += 1;
            }
        }
        ends
    }

    /// Replaces, at each of `ends` in turn, the characters of `original`'s
    /// length that end there by `new`; each offset is first moved by the
    /// change in length that the replacements before it made. Returns the
    /// offsets at which the replacing texts end. The cursor is kept within
    /// the document, and every line is flagged.
    #[verifier::rlimit(30)]
    pub fn replace_run(&mut self, new: &str, original: &str, ends: &Vec<usize>) -> (done: Vec<
        usize,
    >)
        requires
            old(self).cursor_ok(),
        ensures
            final(self).wf(),
            final(self).text() == replace_run(
                old(self).text(),
                ends@,
                0,
                original@.len() as int,
                new@,
                0,
            ),
            done@ == replaced_ends(old(self).text(), ends@, 0, original@.len() as int, new@, 0),
            final(self).cursor == clamped(old(self).cursor as int, final(self).text()),
            final(self).has_changed,
            final(self).lines_for_updating@ == all_flagged(final(self).text()),
    {
        let ghost s0 = self.text();
        let m = original.unicode_len();
        let n = new.unicode_len();
        let grows = n >= m;
        let step: usize = if grows {
            n - m
        } else {
            m - n
        };
        let mut shift: usize = 0;
        let mut done: Vec<usize> = Vec::new();
        let mut i: usize = 0;
        while i < ends.len()
            invariant
                i <= ends.len(),
                m == original@.len(),
                n == new@.len(),
                grows == (n >= m),
                step == if grows {
                    n - m
                } else {
                    m - n
                },
                self.text().len() == s0.len() + if grows {
                    shift as int
                } else {
                    -(shift as int)
                },
                self.cursor == old(self).cursor,
                replace_run(s0, ends@, 0, m as int, new@, 0) == replace_run(
                    self.text(),
                    ends@,
                    i as int,
                    m as int,
                    new@,
                    if grows {
                        shift as int
                    } else {
                        -(shift as int)
                    },
                ),
                replaced_ends(s0, ends@, 0, m as int, new@, 0) == done@ + replaced_ends(
                    self.text(),
                    ends@,
                    i as int,
                    m as int,
                    new@,
                    if grows {
                        shift as int
                    } else {
                        -(shift as int)
                    },
                ),
            decreases ends.len() - i,
        {
            let len = self.rope.len_chars();
            let p = ends[i];
            let ghost s = self.text();
            // The offset as the replacements so far have moved it, where it
            // still lies within the document.
            let moved: Option<usize> = if grows {
                if p <= len && shift <= len - p {
                    Some(p + shift)
                } else {
                    None
                }
            } else {
                if shift <= p {
                    Some(p - shift)
                } else {
                    None
                }
            };
            let end: Option<usize> = match moved {
                Some(e) => if m <= e && e <= len {
                    Some(e)
                } else {
                    None
                },
                None => None,
            };
            match end {
                Some(e) => {
                    crate::rope::rope_remove(&mut self.rope, e - m, e);
                    self.rope.insert(e - m, new);
                    let new_len = self.rope.len_chars();
                    proof {
                        assert(self.text() =~= replace_at(s, e as int, m as int, new@));
                        assert(new_len == len - m + n);
                    }
                    done.push(e - m + n);
                    shift = shift + step;
                },
                None => {},
            }
            i += 1;
        }
        let len = self.rope.len_chars();
        if self.cursor > len {
            self.cursor = len;
        }
        self.mark_all_lines();
        done
    }

    /// Replaces each occurrence of `original` that ends at one of
    /// `end_offsets` by `new`, as `replace_run` does, and records the
    /// replacement in `undo_log` unless it is itself part of an undo.
    pub fn replace_text(
        &mut self,
        new: &str,
        original: &str,
        end_offsets: &Vec<usize>,
        undo_log: &mut UndoTree,
        is_undoing: bool,
    )
        requires
            old(self).cursor_ok(),
        ensures
            final(self).wf(),
            final(self).text() == replace_run(
                old(self).text(),
                end_offsets@,
                0,
                original@.len() as int,
                new@,
                0,
            ),
            final(self).cursor == clamped(old(self).cursor as int, final(self).text()),
            final(self).has_changed,
            final(self).lines_for_updating@ == all_flagged(final(self).text()),
            final(undo_log)@ == if is_undoing {
                old(undo_log)@
            } else {
                old(undo_log)@.push(
                    ActionView::Replace {
                        positions: replaced_ends(
                            old(self).text(),
                            end_offsets@,
                            0,
                            original@.len() as int,
                            new@,
                            0,
                        ),
                        original: original@,
                        new: new@,
                    },
                )
            },
    {
        let done = self.replace_run(new, original, end_offsets);
        if !is_undoing {
            undo_log.new_action(
                Action::replace(done, String::from_str(original), String::from_str(new)),
            );
        }
    }

    /// Replaces the whole document by `contents`, as when a file is loaded.
    /// The cursor stays at its offset where the new document reaches that
    /// far, and else goes to its end. Every line is flagged.
    pub fn load(&mut self, contents: &str)
        ensures
            final(self).wf(),
            final(self).text() == contents@,
            final(self).cursor == clamped(old(self).cursor as int, contents@),
            final(self).has_changed,
            final(self).lines_for_updating@ == all_flagged(final(self).text()),
    {
        self.rope = ropey::Rope::from_str(contents);
        let len = self.rope.len_chars();
        if self.cursor > len {
            self.cursor = len;
        }
        self.mark_all_lines();
    }

    /// Puts `text` in front of the cursor's offset; the cursor stays where it
    /// is. Every line is flagged.
    pub fn insert_text(&mut self, text: &str)
        requires
            old(self).cursor_ok(),
        ensures
            final(self).wf(),
            final(self).text() == splice_in(old(self).text(), old(self).cursor as int, text@),
            final(self).cursor == old(self).cursor,
            final(self).has_changed,
            final(self).lines_for_updating@ == all_flagged(final(self).text()),
    {
        self.rope.insert(self.cursor, text);
        self.mark_all_lines();
    }

    /// Replaces the whole document by `contents` and moves the cursor to its
    /// start. The log records the removal of the old text and the insertion
    /// of the new, so two steps of undo bring the old document back.
    pub fn replace_contents(&mut self, contents: String, undo_log: &mut UndoTree)
        requires
            old(self).cursor_ok(),
        ensures
            final(self).wf(),
            final(self).text() == contents@,
            final(self).cursor == 0,
            final(self).has_changed,
            final(self).lines_for_updating@ == all_flagged(final(self).text()),
            final(undo_log)@ == old(undo_log)@.push(
                ActionView::Delete { position: 0, text: old(self).text() },
            ).push(ActionView::Insert { position: 0, text: contents@ }),
    {
        let was = self.to_string();
        let len = self.rope.len_chars();
        crate::rope::rope_remove(&mut self.rope, 0, len);
        self.cursor = 0;
        self.rope.insert(0, contents.as_str());
        assert(self.text() =~= contents@);
        self.mark_all_lines();
        undo_log.new_action(Action::delete(0, was));
        undo_log.new_action(Action::insert(0, contents));
    }

    /// The offset of the first `c` at or after the cursor, if there is one.
    pub fn find_next(&self, c: char) -> (r: Option<usize>)
        requires
            self.cursor_ok(),
        ensures
            r == next_index_of(self.text(), self.cursor as int, c),
            r matches Some(i) ==> self.cursor <= i < self.text().len() && self.text()[i as int]
                == c,
    {
        let len = self.rope.len_chars();
        let mut idx = self.cursor;
        proof {
            lemma_skip_while(self.text(), self.cursor as int, len as int, is_not(c));
        }
        while idx < len && self.rope.char(idx) != c
            invariant
                self.cursor <= idx <= len,
                len == self.text().len(),
                skip_while(self.text(), idx as int, len as int, is_not(c)) == skip_while(
                    self.text(),
                    self.cursor as int,
                    len as int,
                    is_not(c),
                ),
            decreases len - idx,
        {
            idx += 1;
        }
        if idx < len {
            Some(idx)
        } else {
            None
        }
    }

    /// The offset of the last `c` at or before the cursor, if there is one.
    pub fn find_prev(&self, c: char) -> (r: Option<usize>)
        requires
            self.cursor_ok(),
        ensures
            r == prev_index_of(self.text(), self.cursor as int, c),
            r matches Some(i) ==> i <= self.cursor && i < self.text().len() && self.text()[i as int]
                == c,
    {
        let len = self.rope.len_chars();
        let from = if self.cursor < len {
            self.cursor + 1
        } else {
            len
        };
        let mut idx = from;
        proof {
            lemma_skip_back_while(self.text(), from as int, 0, is_not(c));
        }
        while idx > 0 && self.rope.char(idx - 1) != c
            invariant
                idx <= from <= len,
                len == self.text().len(),
                skip_back_while(self.text(), idx as int, 0, is_not(c)) == skip_back_while(
                    self.text(),
                    from as int,
                    0,
                    is_not(c),
                ),
            decreases idx,
        {
            idx -= 1;
        }
        if idx > 0 {
            Some(idx - 1)
        } else {
            None
        }
    }
}

} // verus!
