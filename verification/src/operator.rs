//! Operators: delete, yank and change over a range of the document.
//!
//! An operator works on the characters between the cursor and an end offset,
//! both included, in either direction. It collects them in the active
//! register, in the order of the document.

use vstd::prelude::*;
use vstd::string::StrSliceExecFns;
use crate::buffer::Buffer;
use crate::buffer_update::{flags_cut, lemma_flags_cut_above, lemma_flags_cut_more};
use crate::mode::Mode;
use crate::motion::{motion_target, Motion};
use crate::named::Named;
use crate::register::RegisterHandler;
use crate::state::{snapshot, Snapshot};
use crate::text::{
    count_lf, cut_out, end_of_line_at, lemma_count_lf_concat, lemma_count_lf_single,
    lemma_line_of_bound, lemma_line_of_step, line_count, line_of, line_start,
};
use crate::text_object::{object_bounds, TextObject, TextObjectType};
use crate::undo::{clamped, Action, ActionView, UndoTree};

verus! {

/// What an operator does.
#[derive(Clone, Copy, Debug, PartialEq, Eq, Structural)]
pub enum OperatorKind {
    Delete,
    Yank,
    Change,
    ChangeUntilBefore,
}

/// What the range algorithm does with each character of the range.
#[derive(Clone, Copy, Debug, PartialEq, Eq, Structural)]
pub enum PerChar {
    /// Collect the character and remove it.
    Delete,
    /// Collect the character and go on to the next.
    Yank,
}

/// What the range algorithm does when it is through.
#[derive(Clone, Copy, Debug, PartialEq, Eq, Structural)]
pub enum OnFinish {
    Nothing,
    /// Put the cursor back where it stood.
    ResetPosition,
    /// Enter insert mode.
    Insert,
}

/// The first offset of the range between the cursor `c` and the end `e`.
pub open spec fn range_lo(c: int, e: int) -> int {
    if e >= c {
        c
    } else {
        e
    }
}

/// One past the last offset of the range between the cursor `c` and the end
/// `e`, in a document of length `len`: the range holds both, as far as the
/// document goes.
pub open spec fn range_hi(c: int, e: int, len: int) -> int {
    let top = if e >= c {
        e
    } else {
        c
    };
    if top < len {
        top + 1
    } else {
        len
    }
}

/// The characters of the range between the cursor `c` and the end `e`.
pub open spec fn range_text(s: Seq<char>, c: int, e: int) -> Seq<char> {
    s.subrange(range_lo(c, e), range_hi(c, e, s.len() as int))
}

/// The state after the range algorithm ran from the cursor to `end`.
pub open spec fn iterated(st: Snapshot, end: int, per_char: PerChar, on_finish: OnFinish) -> Snapshot {
    let lo = range_lo(st.cursor, end);
    let hi = range_hi(st.cursor, end, st.text.len() as int);
    let text = match per_char {
        PerChar::Delete => cut_out(st.text, lo, hi),
        PerChar::Yank => st.text,
    };
    Snapshot {
        text,
        flags: match per_char {
            PerChar::Delete => flags_cut(
                st.flags,
                line_of(st.text, lo) as int,
                count_lf(range_text(st.text, st.cursor, end)) as int,
            ),
            PerChar::Yank => st.flags,
        },
        has_changed: match per_char {
            PerChar::Delete => st.has_changed || count_lf(range_text(st.text, st.cursor, end))
                > 0,
            PerChar::Yank => st.has_changed,
        },
        cursor: match on_finish {
            OnFinish::ResetPosition => clamped(st.cursor, text),
            _ => match per_char {
                PerChar::Delete => lo,
                PerChar::Yank => if end >= st.cursor {
                    hi
                } else {
                    lo
                },
            },
        },
        registers: st.registers.insert(st.current_register, range_text(st.text, st.cursor, end)),
        current_register: st.current_register,
        mode: if on_finish == OnFinish::Insert {
            Mode::Insert
        } else {
            st.mode
        },
        log: st.log,
    }
}

/// The last offset on which the cursor rests in normal mode: that of the
/// last character, or 0 in an empty document.
pub open spec fn last_offset(s: Seq<char>) -> int {
    if s.len() >= 1 {
        s.len() - 1
    } else {
        0
    }
}

/// The state after a removal from the cursor to `end`: the range is gone
/// from the document and stands in the active register, the log holds the
/// removal, and the cursor rests at the start of the range or, where the
/// document now ends before that, on its last character. The cursor's line
/// is flagged for drawing.
pub open spec fn deleted(st: Snapshot, end: int, on_finish: OnFinish) -> Snapshot {
    let it = iterated(st, end, PerChar::Delete, on_finish);
    (Snapshot {
        cursor: if it.cursor <= last_offset(it.text) {
            it.cursor
        } else {
            last_offset(it.text)
        },
        log: st.log.push(
            ActionView::Delete {
                position: it.cursor as nat,
                text: range_text(st.text, st.cursor, end),
            },
        ),
        ..it
    }).with_line_flagged()
}

/// The state after a yank from the cursor to `end`: the range stands in the
/// active register and nothing else has changed. At the end of the document
/// with nowhere to go, there is nothing to yank and the register stays too.
pub open spec fn yanked(st: Snapshot, end: int) -> Snapshot {
    if end == st.cursor && st.cursor == st.text.len() {
        st
    } else {
        iterated(st, end, PerChar::Yank, OnFinish::ResetPosition)
    }
}

/// The state after an operator of kind `kind` ran from the cursor to `end`.
pub open spec fn operated(kind: OperatorKind, st: Snapshot, end: int) -> Snapshot {
    match kind {
        OperatorKind::Delete => deleted(st, end, OnFinish::Nothing),
        OperatorKind::Yank => yanked(st, end),
        OperatorKind::Change => deleted(st, end, OnFinish::Insert),
        OperatorKind::ChangeUntilBefore => deleted(
            st,
            if end == 0 {
                0
            } else {
                end - 1
            },
            OnFinish::Insert,
        ),
    }
}

/// The end of the range that an operator works on for a motion that lands on
/// `target`. An inclusive motion gives its target. An exclusive motion that
/// went forward gives the offset before its target; one that did not gives
/// the offset behind it, unless the target is the end of the document.
pub open spec fn operator_end(inclusive: bool, target: int, c: int, len: int) -> int {
    if inclusive {
        target
    } else if target > c {
        target - 1
    } else if target != len {
        target + 1
    } else {
        target
    }
}

/// The state after an operator ran over the range that a motion gives.
pub open spec fn executed(
    kind: OperatorKind,
    motion: Motion,
    key: Option<char>,
    st: Snapshot,
) -> Snapshot {
    operated(
        kind,
        st,
        operator_end(
            motion.inclusive,
            motion_target(motion.command, st.text, st.cursor, key),
            st.cursor,
            st.text.len() as int,
        ),
    )
}

/// `t` with a line feed at its end, added where it has none.
pub open spec fn line_terminated(t: Seq<char>) -> Seq<char> {
    if t.len() > 0 && t.last() == '\n' {
        t
    } else {
        t.push('\n')
    }
}

/// The state after an operator ran over the whole line of the cursor, from
/// its start to its end: the register holds the line with its line feed,
/// and a yank leaves the cursor where it stood.
pub open spec fn line_operated(kind: OperatorKind, st: Snapshot) -> Snapshot {
    let from = st.with_cursor(line_start(st.text, st.cursor));
    let done = operated(kind, from, end_of_line_at(st.text, st.cursor));
    let kept = if kind == OperatorKind::Yank {
        done.with_cursor(st.cursor)
    } else {
        done
    };
    kept.with_active(line_terminated(kept.active()))
}

/// The state after an operator ran over the span of a text object. Where
/// there is no span, or the span is empty, nothing changes. A yank leaves
/// the cursor where it stood.
pub open spec fn object_operated(
    kind: OperatorKind,
    object: TextObject,
    which: TextObjectType,
    st: Snapshot,
) -> Snapshot {
    match object_bounds(object.command, which, st.text, st.cursor) {
        Some((i, j)) => if i <= j {
            let done = operated(kind, st.with_cursor(i as int), j as int);
            if kind == OperatorKind::Yank {
                done.with_cursor(st.cursor)
            } else {
                done
            }
        } else {
            st
        },
        None => st,
    }
}

/// The state on which the range algorithm works: it has no part in the log.
pub open spec fn range_state(buffer: Buffer, registers: RegisterHandler, mode: Mode) -> Snapshot {
    Snapshot {
        text: buffer.text(),
        cursor: buffer.cursor as int,
        flags: buffer.lines_for_updating@,
        has_changed: buffer.has_changed,
        registers: registers@,
        current_register: registers.current_register@,
        mode,
        log: Seq::<ActionView>::empty(),
    }
}

/// A named operator.
pub struct Operator<'a> {
    pub name: &'a str,
    pub command: OperatorKind,
}

impl<'a> Operator<'a> {
    /// An operator that goes by `name`.
    pub fn new(name: &'a str, command: OperatorKind) -> (o: Self)
        ensures
            o.name == name,
            o.command == command,
    {
        Self { name, command }
    }

    /// Runs the operator from the cursor to `end`.
    pub fn run(
        &self,
        end: usize,
        buffer: &mut Buffer,
        register_handler: &mut RegisterHandler,
        mode: &mut Mode,
        undo_tree: &mut UndoTree,
    )
        requires
            old(buffer).wf(),
        ensures
            final(buffer).wf(),
            snapshot(*final(buffer), *final(register_handler), *final(mode), *final(undo_tree))
                == operated(
                self.command,
                snapshot(*old(buffer), *old(register_handler), *old(mode), *old(undo_tree)),
                end as int,
            ),
            self.command == OperatorKind::Yank ==> final(buffer).moved_from(*old(buffer)),
    {
        match self.command {
            OperatorKind::Delete => delete(end, buffer, register_handler, mode, undo_tree),
            OperatorKind::Yank => yank(end, buffer, register_handler, mode, undo_tree),
            OperatorKind::Change => change(end, buffer, register_handler, mode, undo_tree),
            OperatorKind::ChangeUntilBefore => change_until_before(
                end,
                buffer,
                register_handler,
                mode,
                undo_tree,
            ),
        }
    }

    /// Runs the operator over the range from the cursor to where `motion`
    /// would take it. `key` is the character that was read for a motion that
    /// waits for one.
    pub fn execute(
        &self,
        motion: &Motion,
        key: Option<char>,
        buffer: &mut Buffer,
        register_handler: &mut RegisterHandler,
        mode: &mut Mode,
        undo_tree: &mut UndoTree,
    )
        requires
            old(buffer).wf(),
        ensures
            final(buffer).wf(),
            snapshot(*final(buffer), *final(register_handler), *final(mode), *final(undo_tree))
                == executed(
                self.command,
                *motion,
                key,
                snapshot(*old(buffer), *old(register_handler), *old(mode), *old(undo_tree)),
            ),
            self.command == OperatorKind::Yank ==> final(buffer).moved_from(*old(buffer)),
    {
        let target = motion.evaluate(buffer, key);
        let len = buffer.rope.len_chars();
        let end = if motion.inclusive {
            target
        } else if target > buffer.cursor {
            target - 1
        } else if target != len {
            target + 1
        } else {
            target
        };
        self.run(end, buffer, register_handler, mode, undo_tree);
    }

    /// Runs the operator over the whole line of the cursor. The register
    /// then holds the line with a line feed at its end.
    #[verifier::rlimit(30)]
    pub fn entire_line(
        &self,
        buffer: &mut Buffer,
        register_handler: &mut RegisterHandler,
        mode: &mut Mode,
        undo_tree: &mut UndoTree,
    )
        requires
            old(buffer).wf(),
        ensures
            final(buffer).wf(),
            snapshot(*final(buffer), *final(register_handler), *final(mode), *final(undo_tree))
                == line_operated(
                self.command,
                snapshot(*old(buffer), *old(register_handler), *old(mode), *old(undo_tree)),
            ),
            self.command == OperatorKind::Yank ==> final(buffer).moved_from(*old(buffer)),
    {
        let ghost st = snapshot(*buffer, *register_handler, *mode, *undo_tree);
        let anchor = buffer.cursor;
        let end_of_line = buffer.get_end_of_line();
        buffer.start_of_line();
        let ghost from = snapshot(*buffer, *register_handler, *mode, *undo_tree);
        assert(from == st.with_cursor(line_start(st.text, st.cursor)));
        self.run(end_of_line, buffer, register_handler, mode, undo_tree);
        let ghost done = snapshot(*buffer, *register_handler, *mode, *undo_tree);
        assert(done == operated(self.command, from, end_of_line_at(st.text, st.cursor)));
        if let OperatorKind::Yank = self.command {
            buffer.cursor = anchor;
        }
        let ghost kept = snapshot(*buffer, *register_handler, *mode, *undo_tree);
        assert(kept == if self.command == OperatorKind::Yank {
            done.with_cursor(st.cursor)
        } else {
            done
        });
        let text = register_handler.get_reg();
        assert(text@ == kept.active());
        let n = text.as_str().unicode_len();
        if n == 0 || text.as_str().get_char(n - 1) != '\n' {
            register_handler.push_reg("\n");
            proof {
                reveal_strlit("\n");
                assert(text@ + "\n"@ =~= text@.push('\n'));
            }
        }
        proof {
            let now = snapshot(*buffer, *register_handler, *mode, *undo_tree);
            assert(now.registers =~= kept.with_active(line_terminated(kept.active())).registers);
            assert(now == kept.with_active(line_terminated(kept.active())));
        }
    }

    /// Runs the operator over the span of `text_object` around the cursor,
    /// with its delimiters (`Around`) or without (`Inside`).
    pub fn execute_text_object(
        &self,
        text_object: &TextObject,
        kind: TextObjectType,
        buffer: &mut Buffer,
        register_handler: &mut RegisterHandler,
        mode: &mut Mode,
        undo_tree: &mut UndoTree,
    )
        requires
            old(buffer).wf(),
        ensures
            final(buffer).wf(),
            snapshot(*final(buffer), *final(register_handler), *final(mode), *final(undo_tree))
                == object_operated(
                self.command,
                *text_object,
                kind,
                snapshot(*old(buffer), *old(register_handler), *old(mode), *old(undo_tree)),
            ),
            self.command == OperatorKind::Yank ==> final(buffer).moved_from(*old(buffer)),
    {
        let bounds = match kind {
            TextObjectType::Inside => text_object.inside(buffer),
            TextObjectType::Around => text_object.around(buffer),
        };
        if let Some((start, end)) = bounds {
            if start <= end {
                let anchor = buffer.cursor;
                buffer.cursor = start;
                self.run(end, buffer, register_handler, mode, undo_tree);
                if let OperatorKind::Yank = self.command {
                    buffer.cursor = anchor;
                }
            }
        }
    }
}

/// The range algorithm that the operators share. It empties the active
/// register, then goes over the characters between the cursor and `end`,
/// both included, forward or backward, and does with each what `per_char`
/// says; then it does what `on_finish` says. The register receives the
/// characters in the order of the document, whichever way the range was
/// walked. A removal leaves the cursor at the start of the range; a cursor
/// that is put back stays within the document.
#[verifier::rlimit(30)]
pub fn iterate_range(
    mode: &mut Mode,
    register_handler: &mut RegisterHandler,
    buffer: &mut Buffer,
    end: usize,
    per_char: PerChar,
    on_finish: OnFinish,
)
    requires
        old(buffer).wf(),
    ensures
        final(buffer).wf(),
        range_state(*final(buffer), *final(register_handler), *final(mode)) == iterated(
            range_state(*old(buffer), *old(register_handler), *old(mode)),
            end as int,
            per_char,
            on_finish,
        ),
        final(register_handler).current_register == old(register_handler).current_register,
        per_char == PerChar::Yank ==> final(buffer).rope == old(buffer).rope
            && final(buffer).lines_for_updating == old(buffer).lines_for_updating,
{
    let ghost s = buffer.text();
    let ghost d0 = buffer.lines_for_updating@;
    let anchor = buffer.cursor;
    let len = buffer.rope.len_chars();
    register_handler.empty_reg();
    let mut text = String::new();
    if end >= anchor {
        let hi = if end < len {
            end + 1
        } else {
            len
        };
        let n = hi - anchor;
        let mut i: usize = 0;
        while i < n
            invariant
                i <= n,
                n == hi - anchor,
                anchor <= hi <= len,
                len == s.len(),
                buffer.wf(),
                text@ == s.subrange(anchor as int, anchor + i),
                per_char == PerChar::Delete ==> buffer.cursor == anchor && buffer.text() == cut_out(
                    s,
                    anchor as int,
                    anchor + i,
                ) && buffer.lines_for_updating@ == flags_cut(
                    d0,
                    line_of(s, anchor as int) as int,
                    count_lf(s.subrange(anchor as int, anchor + i)) as int,
                ) && buffer.has_changed == (old(buffer).has_changed || count_lf(
                    s.subrange(anchor as int, anchor + i),
                ) > 0),
                d0 == old(buffer).lines_for_updating@,
                d0.len() == line_count(s),
                per_char == PerChar::Yank ==> buffer.cursor == anchor + i
                    && buffer.rope == old(buffer).rope
                    && buffer.lines_for_updating == old(buffer).lines_for_updating
                    && buffer.has_changed == old(buffer).has_changed,
                s == old(buffer).text(),
            decreases n - i,
        {
            text.push(buffer.get_curr_char());
            proof {
                let done = s.subrange(anchor as int, anchor + i);
                assert(s.subrange(anchor as int, anchor + i + 1).drop_last() =~= done);
                assert(buffer.text().take(anchor as int) =~= s.take(anchor as int));
                assert(s.take(anchor + i + 1) =~= s.take(anchor as int) + s.subrange(
                    anchor as int,
                    anchor + i + 1,
                ));
                lemma_count_lf_concat(
                    s.take(anchor as int),
                    s.subrange(anchor as int, anchor + i + 1),
                );
                lemma_line_of_bound(s, anchor + i + 1);
                if s[anchor + i] == '\n' {
                    lemma_flags_cut_more(
                        d0,
                        line_of(s, anchor as int) as int,
                        count_lf(done) as int,
                    );
                }
            }
            match per_char {
                PerChar::Delete => buffer.delete_curr_char(),
                PerChar::Yank => {
                    buffer.next_char();
                },
            }
            i += 1;
            proof {
                assert(text@ =~= s.subrange(anchor as int, anchor + i));
                if per_char == PerChar::Delete {
                    assert(buffer.text() =~= cut_out(s, anchor as int, anchor + i));
                }
            }
        }
    } else {
        let hi = if anchor < len {
            anchor + 1
        } else {
            len
        };
        let n = hi - end;
        let mut collected: Vec<char> = Vec::new();
        buffer.cursor = hi - 1;
        let mut i: usize = 0;
        while i < n
            invariant
                i <= n,
                n == hi - end,
                n >= 1,
                end < hi <= len,
                len == s.len(),
                buffer.wf(),
                collected@.len() == i,
                forall|k: int| 0 <= k < i ==> collected@[k] == s[hi - 1 - k],
                i < n ==> buffer.cursor == hi - 1 - i,
                i == n ==> buffer.cursor == end,
                per_char == PerChar::Delete ==> buffer.text() == cut_out(s, hi - i, hi as int)
                    && buffer.lines_for_updating@ == flags_cut(
                    d0,
                    line_of(s, hi - i) as int,
                    count_lf(s.subrange(hi - i, hi as int)) as int,
                ) && buffer.has_changed == (old(buffer).has_changed || count_lf(
                    s.subrange(hi - i, hi as int),
                ) > 0),
                d0 == old(buffer).lines_for_updating@,
                d0.len() == line_count(s),
                per_char == PerChar::Yank ==> buffer.rope == old(buffer).rope
                    && buffer.lines_for_updating == old(buffer).lines_for_updating
                    && buffer.has_changed == old(buffer).has_changed,
                s == old(buffer).text(),
            decreases n - i,
        {
            collected.push(buffer.get_curr_char());
            proof {
                let q = hi - i;
                let done = s.subrange(q, hi as int);
                assert(s.subrange(q - 1, hi as int) =~= seq![s[q - 1]] + done);
                lemma_count_lf_concat(seq![s[q - 1]], done);
                lemma_count_lf_single(s[q - 1]);
                lemma_line_of_step(s, q - 1);
                assert(buffer.text().take(q - 1) =~= s.take(q - 1));
                assert(s.take(hi as int) =~= s.take(q) + done);
                lemma_count_lf_concat(s.take(q), done);
                lemma_line_of_bound(s, hi as int);
                if s[q - 1] == '\n' {
                    lemma_flags_cut_above(d0, line_of(s, q) as int, count_lf(done) as int);
                }
            }
            match per_char {
                PerChar::Delete => {
                    buffer.delete_curr_char();
                    proof {
                        assert(buffer.text() =~= cut_out(s, hi - i - 1, hi as int));
                    }
                },
                PerChar::Yank => {},
            }
            i += 1;
            if i < n {
                buffer.cursor -= 1;
            }
        }
        let mut k: usize = 0;
        while k < n
            invariant
                k <= n,
                n == hi - end,
                collected@.len() == n,
                end < hi <= s.len(),
                forall|j: int| 0 <= j < n ==> collected@[j] == s[hi - 1 - j],
                text@ == s.subrange(end as int, end + k),
            decreases n - k,
        {
            text.push(collected[n - 1 - k]);
            k += 1;
            proof {
                assert(text@ =~= s.subrange(end as int, end + k));
            }
        }
    }
    register_handler.push_reg(text.as_str());
    proof {
        assert(text@ == range_text(s, anchor as int, end as int));
        assert(register_handler@ =~= old(register_handler)@.insert(
            old(register_handler).current_register@,
            text@,
        ));
    }
    match on_finish {
        OnFinish::Nothing => {},
        OnFinish::ResetPosition => {
            let now = buffer.rope.len_chars();
            buffer.cursor = if anchor <= now {
                anchor
            } else {
                now
            };
        },
        OnFinish::Insert => {
            mode.insert();
        },
    }
}

/// The removal at the heart of `delete` and `change`.
fn delete_range(
    end: usize,
    buffer: &mut Buffer,
    register_handler: &mut RegisterHandler,
    mode: &mut Mode,
    undo_tree: &mut UndoTree,
    on_finish: OnFinish,
)
    requires
        old(buffer).wf(),
        on_finish != OnFinish::ResetPosition,
    ensures
        final(buffer).wf(),
        snapshot(*final(buffer), *final(register_handler), *final(mode), *final(undo_tree))
            == deleted(
            snapshot(*old(buffer), *old(register_handler), *old(mode), *old(undo_tree)),
            end as int,
            on_finish,
        ),
        final(buffer).has_changed,
{
    iterate_range(mode, register_handler, buffer, end, PerChar::Delete, on_finish);
    undo_tree.new_action(Action::delete(buffer.cursor, register_handler.get_reg()));
    let len = buffer.rope.len_chars();
    let last = if len >= 1 {
        len - 1
    } else {
        0
    };
    if buffer.cursor > last {
        buffer.cursor = last;
    }
    proof {
        crate::text::lemma_line_of_bound(buffer.text(), buffer.cursor as int);
    }
    buffer.update_list_use_current_line();
}

/// Removes the characters from the cursor to `end`, keeps them in the
/// active register and records the removal.
pub fn delete(
    end: usize,
    buffer: &mut Buffer,
    register_handler: &mut RegisterHandler,
    mode: &mut Mode,
    undo_tree: &mut UndoTree,
)
    requires
        old(buffer).wf(),
    ensures
        final(buffer).wf(),
        snapshot(*final(buffer), *final(register_handler), *final(mode), *final(undo_tree))
            == deleted(
            snapshot(*old(buffer), *old(register_handler), *old(mode), *old(undo_tree)),
            end as int,
            OnFinish::Nothing,
        ),
        final(buffer).has_changed,
{
    delete_range(end, buffer, register_handler, mode, undo_tree, OnFinish::Nothing);
}

/// Copies the characters from the cursor to `end` into the active
/// register. The buffer stays as it is, cursor and all.
pub fn yank(
    end: usize,
    buffer: &mut Buffer,
    register_handler: &mut RegisterHandler,
    mode: &mut Mode,
    undo_tree: &mut UndoTree,
)
    requires
        old(buffer).wf(),
    ensures
        final(buffer).wf(),
        snapshot(*final(buffer), *final(register_handler), *final(mode), *final(undo_tree))
            == yanked(
            snapshot(*old(buffer), *old(register_handler), *old(mode), *old(undo_tree)),
            end as int,
        ),
        final(buffer).rope == old(buffer).rope,
        final(buffer).cursor == old(buffer).cursor,
        final(buffer).lines_for_updating == old(buffer).lines_for_updating,
        final(buffer).has_changed == old(buffer).has_changed,
        *final(undo_tree) == *old(undo_tree),
        *final(mode) == *old(mode),
{
    if end == buffer.cursor && buffer.cursor == buffer.rope.len_chars() {
        return ;
    }
    iterate_range(mode, register_handler, buffer, end, PerChar::Yank, OnFinish::ResetPosition);
}

/// Removes the characters from the cursor to `end` as `delete` does, and
/// enters insert mode.
pub fn change(
    end: usize,
    buffer: &mut Buffer,
    register_handler: &mut RegisterHandler,
    mode: &mut Mode,
    undo_tree: &mut UndoTree,
)
    requires
        old(buffer).wf(),
    ensures
        final(buffer).wf(),
        snapshot(*final(buffer), *final(register_handler), *final(mode), *final(undo_tree))
            == deleted(
            snapshot(*old(buffer), *old(register_handler), *old(mode), *old(undo_tree)),
            end as int,
            OnFinish::Insert,
        ),
        final(buffer).has_changed,
{
    delete_range(end, buffer, register_handler, mode, undo_tree, OnFinish::Insert);
}

/// Removes the characters from the cursor up to the one before `end`, and
/// enters insert mode.
pub fn change_until_before(
    end: usize,
    buffer: &mut Buffer,
    register_handler: &mut RegisterHandler,
    mode: &mut Mode,
    undo_tree: &mut UndoTree,
)
    requires
        old(buffer).wf(),
    ensures
        final(buffer).wf(),
        snapshot(*final(buffer), *final(register_handler), *final(mode), *final(undo_tree))
            == operated(
            OperatorKind::ChangeUntilBefore,
            snapshot(*old(buffer), *old(register_handler), *old(mode), *old(undo_tree)),
            end as int,
        ),
        final(buffer).has_changed,
{
    let end = if end == 0 {
        0
    } else {
        end - 1
    };
    delete_range(end, buffer, register_handler, mode, undo_tree, OnFinish::Insert);
}

impl<'a> Named for Operator<'a> {
    open spec fn name_view(&self) -> Seq<char> {
        self.name@
    }

    fn entry_name(&self) -> (name: &str) {
        self.name
    }
}

} // verus!
