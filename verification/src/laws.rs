//! Laws that relate the operators, the motions, typing and the undo log.

use vstd::prelude::*;
use crate::commands::undo_state;
use crate::keys::state_typed;
use crate::motion::{end_of_word_target, in_class, word_target, CharClass};
use crate::operator::{
    line_operated, object_operated, operated, range_hi, range_lo, range_text, yanked,
    OperatorKind,
};
use crate::state::Snapshot;
use crate::text::{
    cut_out, end_of_line_at, lemma_end_of_line, lemma_skip_while, line_start, skip_while,
    splice_in,
};
use crate::text_object::{TextObject, TextObjectType};
use crate::undo::ActionView;

verus! {

/// Taking back a removal restores the document as it was, and takes the
/// removal off the log. The cursor returns to the start of the removed
/// range, which is where it stood if the range went forward from it.
pub proof fn law_delete_then_undo(kind: OperatorKind, st: Snapshot, end: int)
    requires
        st.wf(),
        end >= 0,
        kind == OperatorKind::Delete || kind == OperatorKind::Change,
    ensures
        undo_state(operated(kind, st, end)).text == st.text,
        undo_state(operated(kind, st, end)).log == st.log,
        undo_state(operated(kind, st, end)).cursor == range_lo(st.cursor, end),
        end >= st.cursor ==> undo_state(operated(kind, st, end)).cursor == st.cursor,
{
    let d = operated(kind, st, end);
    let lo = range_lo(st.cursor, end);
    let hi = range_hi(st.cursor, end, st.text.len() as int);
    assert(d.log.last() == (ActionView::Delete {
        position: lo as nat,
        text: range_text(st.text, st.cursor, end),
    }));
    assert(d.log.drop_last() =~= st.log);
    assert(d.text == cut_out(st.text, lo, hi));
    assert(splice_in(d.text, lo, range_text(st.text, st.cursor, end)) =~= st.text);
}

/// Taking back the removal of the cursor's line restores the document as it
/// was; the cursor returns to the start of that line.
pub proof fn law_delete_line_then_undo(st: Snapshot)
    requires
        st.wf(),
    ensures
        undo_state(line_operated(OperatorKind::Delete, st)).text == st.text,
        undo_state(line_operated(OperatorKind::Delete, st)).log == st.log,
        undo_state(line_operated(OperatorKind::Delete, st)).cursor == line_start(
            st.text,
            st.cursor,
        ),
{
    crate::text::lemma_line_start(st.text, st.cursor);
    crate::text::lemma_line_stop(st.text, line_start(st.text, st.cursor));
    let from = st.with_cursor(line_start(st.text, st.cursor));
    law_delete_then_undo(OperatorKind::Delete, from, end_of_line_at(st.text, st.cursor));
}

/// A yank changes neither the document nor the cursor, the mode or the log,
/// and no register but the active one.
pub proof fn law_yank_changes_no_text(st: Snapshot, end: int)
    requires
        st.wf(),
        end >= 0,
    ensures
        yanked(st, end).text == st.text,
        yanked(st, end).cursor == st.cursor,
        yanked(st, end).mode == st.mode,
        yanked(st, end).log == st.log,
        yanked(st, end).current_register == st.current_register,
        forall|id: Seq<char>|
            id != st.current_register ==> (yanked(st, end).registers.contains_key(id)
                <==> st.registers.contains_key(id)) && (st.registers.contains_key(id) ==> yanked(
                st,
                end,
            ).registers[id] == st.registers[id]),
{
}

/// A yank of the cursor's line or of a text object changes neither the
/// document nor the cursor, the mode or the log.
pub proof fn law_yank_of_line_or_object_changes_no_text(
    st: Snapshot,
    object: TextObject,
    which: TextObjectType,
)
    requires
        st.wf(),
    ensures
        line_operated(OperatorKind::Yank, st).text == st.text,
        line_operated(OperatorKind::Yank, st).cursor == st.cursor,
        line_operated(OperatorKind::Yank, st).mode == st.mode,
        line_operated(OperatorKind::Yank, st).log == st.log,
        object_operated(OperatorKind::Yank, object, which, st).text == st.text,
        object_operated(OperatorKind::Yank, object, which, st).cursor == st.cursor,
        object_operated(OperatorKind::Yank, object, which, st).mode == st.mode,
        object_operated(OperatorKind::Yank, object, which, st).log == st.log,
{
}

/// On the last character of its line the cursor stays where it is under
/// `word` and under `end_of_word`.
pub proof fn law_word_motions_stop_at_end_of_line(s: Seq<char>, c: int)
    requires
        0 <= c < s.len(),
        c == end_of_line_at(s, c),
    ensures
        word_target(s, c) == c,
        end_of_word_target(s, c) == c,
{
}

/// From any offset of the document, `word` and `end_of_word` take the cursor
/// forward to an offset of the document, and never beyond its end.
pub proof fn law_word_motions_stay_in_document(s: Seq<char>, c: int)
    requires
        0 <= c <= s.len(),
    ensures
        c <= word_target(s, c) <= s.len(),
        c <= end_of_word_target(s, c) <= s.len(),
{
    if c < s.len() {
        lemma_end_of_line(s, c);
        let last = end_of_line_at(s, c);
        let alnum = in_class(CharClass::Alnum, true);
        let other = in_class(CharClass::Alnum, false);
        lemma_skip_while(s, c, last, other);
        lemma_skip_while(s, c, last, alnum);
        lemma_skip_while(s, skip_while(s, c, last, alnum), last, in_class(CharClass::Space, true));
        if c + 1 < s.len() && c < last {
            lemma_skip_while(s, c + 1, last, other);
            lemma_skip_while(s, c + 1, last + 1, alnum);
            lemma_skip_while(s, skip_while(s, c + 1, last, other) + 1, last + 1, alnum);
        }
    }
}

/// The state after the characters of `cs` were typed one after the other.
pub open spec fn typed_all(st: Snapshot, cs: Seq<char>) -> Snapshot
    decreases cs.len(),
{
    if cs.len() == 0 {
        st
    } else {
        state_typed(typed_all(st, cs.drop_last()), cs.last())
    }
}

/// Whether the newest action of a log is an insertion.
pub open spec fn ends_in_insert(log: Seq<ActionView>) -> bool {
    log.len() > 0 && log.last() is Insert
}

/// Typing a run of characters leaves one insertion on the log, which begins
/// where the cursor stood and is as long as the run.
pub proof fn lemma_typed_all(st: Snapshot, cs: Seq<char>)
    requires
        st.wf(),
        cs.len() > 0,
        !ends_in_insert(st.log),
    ensures
        typed_all(st, cs).text == splice_in(st.text, st.cursor, cs),
        typed_all(st, cs).cursor == st.cursor + cs.len(),
        typed_all(st, cs).log.len() == st.log.len() + 1,
        typed_all(st, cs).log.drop_last() == st.log,
        typed_all(st, cs).log.last() matches ActionView::Insert { position, text }
            && position == st.cursor && text.len() == cs.len(),
        typed_all(st, cs).registers == st.registers,
        typed_all(st, cs).current_register == st.current_register,
        typed_all(st, cs).mode == st.mode,
    decreases cs.len(),
{
    let before = typed_all(st, cs.drop_last());
    let after = typed_all(st, cs);
    if cs.len() == 1 {
        assert(cs.drop_last() =~= Seq::<char>::empty());
        assert(before == st);
        assert(after.text =~= splice_in(st.text, st.cursor, cs));
        assert(after.log.drop_last() =~= st.log);
    } else {
        lemma_typed_all(st, cs.drop_last());
        assert(after.text =~= splice_in(st.text, st.cursor, cs));
        assert(after.log.drop_last() =~= st.log);
    }
}

/// One undo takes back a whole run of typed characters: the document, the
/// cursor, the log, the registers and the mode are as they were before the
/// first of them. The law
/// speaks of runs that do not follow an insertion on the log, with which
/// the run would be coalesced too.
pub proof fn law_typed_run_undone_in_one_step(st: Snapshot, cs: Seq<char>)
    requires
        st.wf(),
        cs.len() > 0,
        !ends_in_insert(st.log),
    ensures
        undo_state(typed_all(st, cs)).text == st.text,
        undo_state(typed_all(st, cs)).cursor == st.cursor,
        undo_state(typed_all(st, cs)).log == st.log,
        undo_state(typed_all(st, cs)).registers == st.registers,
        undo_state(typed_all(st, cs)).current_register == st.current_register,
        undo_state(typed_all(st, cs)).mode == st.mode,
{
    lemma_typed_all(st, cs);
    let after = typed_all(st, cs);
    let back = undo_state(after);
    assert(back.text =~= st.text);
    assert(back.log =~= st.log);
}

} // verus!
