//! Bookkeeping of the per-line redraw flags.

use vstd::prelude::*;
use crate::buffer::Buffer;
use crate::text::line_count;

verus! {

/// `d` with every flag from index `from` on replaced by `value`.
pub open spec fn flags_set_from(d: Seq<bool>, from: int, value: bool) -> Seq<bool> {
    Seq::new(d.len(), |i: int| if i >= from { value } else { d[i] })
}

/// The flags after a line break was added on line `row`: a new entry at
/// `row`, and every line from there on flagged.
pub open spec fn flags_line_added(d: Seq<bool>, row: int) -> Seq<bool> {
    flags_set_from(d.insert(row, true), row, true)
}

/// The flags after the entry of line `idx` was dropped: every line from there
/// on is flagged.
pub open spec fn flags_line_removed(d: Seq<bool>, idx: int) -> Seq<bool> {
    flags_set_from(d.remove(idx), idx, true)
}

/// The flags after the line break that ends line `row` was removed: the
/// entry of `row` is dropped, and the line above and all that follow are
/// flagged.
pub open spec fn flags_line_merged(d: Seq<bool>, row: int) -> Seq<bool> {
    flags_set_from(d.remove(row), if row >= 1 { row - 1 } else { 0 }, true)
}

/// One set flag for each line of `text`.
pub open spec fn all_flagged(text: Seq<char>) -> Seq<bool> {
    Seq::new(line_count(text), |i: int| true)
}

/// The flags after `k` line breaks were removed from line `row` on: the
/// entries of the `k` lines that were joined to line `row` are dropped,
/// and the line above and all that follow are flagged.
pub open spec fn flags_cut(d: Seq<bool>, row: int, k: int) -> Seq<bool> {
    if k <= 0 {
        d
    } else {
        flags_set_from(d.take(row) + d.skip(row + k), if row >= 1 { row - 1 } else { 0 }, true)
    }
}

/// Removing one more line break from the same line joins one more line.
pub proof fn lemma_flags_cut_more(d: Seq<bool>, row: int, k: int)
    requires
        0 <= row,
        0 <= k,
        row + k < d.len(),
    ensures
        flags_line_merged(flags_cut(d, row, k), row) == flags_cut(d, row, k + 1),
{
    assert(flags_line_merged(flags_cut(d, row, k), row) =~= flags_cut(d, row, k + 1));
}

/// Removing the line break that ends the line above joins that line too.
pub proof fn lemma_flags_cut_above(d: Seq<bool>, row: int, k: int)
    requires
        1 <= row,
        0 <= k,
        row + k <= d.len(),
    ensures
        flags_line_merged(flags_cut(d, row, k), row - 1) == flags_cut(d, row - 1, k + 1),
{
    assert(flags_line_merged(flags_cut(d, row, k), row - 1) =~= flags_cut(d, row - 1, k + 1));
}

impl Buffer {
    /// Sets every flag from index `from` on to `value`. Leaves `has_changed`
    /// as it is.
    pub fn update_list_set(&mut self, from: usize, value: bool)
        requires
            from <= old(self).lines_for_updating@.len(),
        ensures
            final(self).lines_for_updating@ == flags_set_from(
                old(self).lines_for_updating@,
                from as int,
                value,
            ),
            final(self).rope == old(self).rope,
            final(self).cursor == old(self).cursor,
            final(self).has_changed == old(self).has_changed,
    {
        let n = self.lines_for_updating.len();
        let mut i: usize = from;
        while i < n
            invariant
                from <= i <= n,
                n == self.lines_for_updating@.len(),
                n == old(self).lines_for_updating@.len(),
                self.rope == old(self).rope,
                self.cursor == old(self).cursor,
                self.has_changed == old(self).has_changed,
                forall|k: int|
                    0 <= k < n ==> self.lines_for_updating@[k] == if from <= k < i {
                        value
                    } else {
                        old(self).lines_for_updating@[k]
                    },
            decreases n - i,
        {
            self.lines_for_updating.set(i, value);
            i += 1;
        }
        assert(self.lines_for_updating@ =~= flags_set_from(
            old(self).lines_for_updating@,
            from as int,
            value,
        ));
    }

    /// Clears every flag, and `has_changed` with them.
    pub fn update_list_reset(&mut self)
        ensures
            final(self).lines_for_updating@ == flags_set_from(
                old(self).lines_for_updating@,
                0,
                false,
            ),
            !final(self).has_changed,
            final(self).rope == old(self).rope,
            final(self).cursor == old(self).cursor,
    {
        self.update_list_set(0, false);
        self.has_changed = false;
    }

    /// Flags every line, and sets `has_changed`.
    pub fn update_list_all(&mut self)
        ensures
            final(self).lines_for_updating@ == flags_set_from(
                old(self).lines_for_updating@,
                0,
                true,
            ),
            final(self).has_changed,
            final(self).rope == old(self).rope,
            final(self).cursor == old(self).cursor,
    {
        self.update_list_set(0, true);
        self.has_changed = true;
    }

    /// Drops the entry of line `idx` and flags every line from there on.
    pub fn update_list_remove(&mut self, idx: usize)
        requires
            idx < old(self).lines_for_updating@.len(),
        ensures
            final(self).lines_for_updating@ == flags_line_removed(
                old(self).lines_for_updating@,
                idx as int,
            ),
            final(self).has_changed,
            final(self).rope == old(self).rope,
            final(self).cursor == old(self).cursor,
    {
        self.lines_for_updating.remove(idx);
        self.update_list_set(idx, true);
        self.has_changed = true;
    }

    /// Adds an entry for a new line at index `idx` and flags every line from
    /// there on.
    pub fn update_list_add(&mut self, idx: usize)
        requires
            idx <= old(self).lines_for_updating@.len(),
        ensures
            final(self).lines_for_updating@ == flags_line_added(
                old(self).lines_for_updating@,
                idx as int,
            ),
            final(self).has_changed,
            final(self).rope == old(self).rope,
            final(self).cursor == old(self).cursor,
    {
        self.lines_for_updating.insert(idx, true);
        self.update_list_set(idx, true);
        self.has_changed = true;
    }

    /// Updates the flags for the removal of the line break that ends the
    /// cursor's line.
    pub fn update_list_remove_current(&mut self)
        requires
            old(self).cursor_ok(),
            old(self).row() < old(self).lines_for_updating@.len(),
        ensures
            final(self).lines_for_updating@ == flags_line_merged(
                old(self).lines_for_updating@,
                old(self).row() as int,
            ),
            final(self).has_changed,
            final(self).rope == old(self).rope,
            final(self).cursor == old(self).cursor,
    {
        let current_line = self.rope.char_to_line(self.cursor);
        self.lines_for_updating.remove(current_line);
        let from: usize = if current_line >= 1 {
            current_line - 1
        } else {
            0
        };
        self.update_list_set(from, true);
        self.has_changed = true;
    }

    /// Updates the flags for a line break added on the cursor's line.
    pub fn update_list_add_current(&mut self)
        requires
            old(self).cursor_ok(),
            old(self).row() <= old(self).lines_for_updating@.len(),
        ensures
            final(self).lines_for_updating@ == flags_line_added(
                old(self).lines_for_updating@,
                old(self).row() as int,
            ),
            final(self).has_changed,
            final(self).rope == old(self).rope,
            final(self).cursor == old(self).cursor,
    {
        let current_line = self.rope.char_to_line(self.cursor);
        self.update_list_add(current_line);
    }

    /// Flags the cursor's line.
    pub fn update_list_use_current_line(&mut self)
        requires
            old(self).cursor_ok(),
            old(self).row() < old(self).lines_for_updating@.len(),
        ensures
            final(self).lines_for_updating@ == old(self).lines_for_updating@.update(
                old(self).row() as int,
                true,
            ),
            final(self).has_changed,
            final(self).rope == old(self).rope,
            final(self).cursor == old(self).cursor,
    {
        let current_line = self.rope.char_to_line(self.cursor);
        self.lines_for_updating.set(current_line, true);
        self.has_changed = true;
    }
}

} // verus!
