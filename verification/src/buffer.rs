//! The text buffer: a document, a cursor into it, and the per-line redraw
//! flags that follow the document's lines.

use vstd::prelude::*;
use ropey::Rope;
use crate::rope::{rope_remove, rope_text, rope_to_string};
use crate::text::{line_count, line_of};

verus! {

/// A document with its cursor.
///
/// The cursor is an absolute character offset and never lies beyond the end
/// of the document. `lines_for_updating` holds one flag per line, set where
/// the line has changed since the flags were last reset.
pub struct Buffer {
    pub has_changed: bool,
    pub lines_for_updating: Vec<bool>,
    pub rope: Rope,
    pub cursor: usize,
}

impl Buffer {
    /// The characters of the document.
    pub open spec fn text(&self) -> Seq<char> {
        rope_text(self.rope)
    }

    /// The cursor lies within the document.
    pub open spec fn cursor_ok(&self) -> bool {
        self.cursor <= self.text().len()
    }

    /// The cursor lies within the document, and there is one redraw flag for
    /// each line.
    pub open spec fn wf(&self) -> bool {
        &&& self.cursor_ok()
        &&& self.lines_for_updating@.len() == line_count(self.text())
    }

    /// This buffer is `before` with, at most, the cursor moved to another
    /// offset of the document.
    pub open spec fn moved_from(&self, before: Buffer) -> bool {
        &&& self.rope == before.rope
        &&& self.lines_for_updating == before.lines_for_updating
        &&& self.has_changed == before.has_changed
        &&& self.cursor_ok()
    }

    /// The index of the line that holds the cursor.
    pub open spec fn row(&self) -> nat {
        line_of(self.text(), self.cursor as int)
    }

    /// An empty document: one empty line, flagged for drawing.
    pub fn new() -> (b: Buffer)
        ensures
            b.wf(),
            b.text() == Seq::<char>::empty(),
            b.cursor == 0,
            b.has_changed,
            b.lines_for_updating@ == seq![true],
    {
        proof {
            reveal_strlit("");
            reveal_with_fuel(crate::text::count_lf, 2);
        }
        Buffer {
            has_changed: true,
            lines_for_updating: vec![true],
            rope: Rope::from_str(""),
            cursor: 0,
        }
    }

    /// Empties the document. The cursor returns to the start and the single
    /// remaining line is flagged.
    pub fn clear(&mut self)
        requires
            old(self).cursor_ok(),
        ensures
            final(self).wf(),
            final(self).text() == Seq::<char>::empty(),
            final(self).cursor == 0,
            final(self).has_changed,
            final(self).lines_for_updating@ == seq![true],
    {
        let len = self.rope.len_chars();
        rope_remove(&mut self.rope, 0, len);
        self.cursor = 0;
        self.lines_for_updating = vec![true];
        self.has_changed = true;
        proof {
            assert(self.text() =~= Seq::<char>::empty());
            reveal_with_fuel(crate::text::count_lf, 2);
        }
    }

    /// The document as an owned string.
    pub fn to_string(&self) -> (s: String)
        ensures
            s@ == self.text(),
    {
        rope_to_string(&self.rope)
    }
}

impl Clone for Buffer {
    /// A copy of the buffer that shares the document's storage.
    fn clone(&self) -> (b: Buffer)
        ensures
            b.text() == self.text(),
            b.cursor == self.cursor,
            b.has_changed == self.has_changed,
            b.lines_for_updating@ == self.lines_for_updating@,
    {
        Buffer {
            has_changed: self.has_changed,
            lines_for_updating: self.lines_for_updating.clone(),
            rope: self.rope.clone(),
            cursor: self.cursor,
        }
    }
}

} // verus!
