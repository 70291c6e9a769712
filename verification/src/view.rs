//! The screen as a set of panes, one of which holds the cursor.

use vstd::prelude::*;
use vstd::view::View as _;
use crate::buffer::Buffer;
use crate::undo::{ActionView, UndoTree};
use crate::view_box::ViewBox;

verus! {

/// A side of a pane.
#[derive(Clone, Copy, Debug, PartialEq, Eq, Structural)]
pub enum Side {
    Down,
    Up,
    Left,
    Right,
}

/// Whether pane `b` lies against side `side` of pane `cur`, corner to
/// corner: below or above it from the same column, left or right of it
/// from the same row.
pub open spec fn adjoins(side: Side, cur: ViewBox, b: ViewBox) -> bool {
    match side {
        Side::Down => b.x == cur.x && b.y == cur.y + cur.height,
        Side::Up => b.x == cur.x && b.y + b.height == cur.y,
        Side::Left => b.y == cur.y && b.x + b.width == cur.x,
        Side::Right => b.y == cur.y && b.x == cur.x + cur.width,
    }
}

/// The index of the first pane from index `from` on that lies against
/// side `side` of `cur`.
pub open spec fn first_adjoining(boxes: Seq<ViewBox>, side: Side, cur: ViewBox, from: int) -> Option<
    usize,
>
    decreases boxes.len() - from,
{
    if from < 0 || from >= boxes.len() {
        None
    } else if adjoins(side, cur, boxes[from]) {
        Some(from as usize)
    } else {
        first_adjoining(boxes, side, cur, from + 1)
    }
}

/// The index that pane `i` has after pane `gone` left the list; the pane
/// that left has none.
pub open spec fn index_without(i: Option<usize>, gone: int) -> Option<usize> {
    match i {
        Some(k) => if k == gone {
            None
        } else if k > gone {
            Some((k - 1) as usize)
        } else {
            Some(k)
        },
        None => None,
    }
}

/// A pane that has grown by `rows` rows, from row `y` on.
pub open spec fn grown(b: ViewBox, y: u16, rows: u16) -> ViewBox {
    ViewBox { y, height: (b.height + rows) as u16, ..b }
}

/// The panes after pane `c` was closed, and the index of the pane that then
/// holds the cursor. The pane above takes the room of the closed pane, else
/// the pane below does; where neither is there, the room stays empty. The
/// last pane is not closed.
pub open spec fn closed(boxes: Seq<ViewBox>, c: int) -> (Seq<ViewBox>, int) {
    if boxes.len() <= 1 {
        (boxes, c)
    } else {
        let gone = boxes[c];
        let rest = boxes.remove(c);
        let down = index_without(first_adjoining(boxes, Side::Down, gone, 0), c);
        let up = index_without(first_adjoining(boxes, Side::Up, gone, 0), c);
        match (down, up) {
            (_, Some(u)) => (
                rest.update(u as int, grown(rest[u as int], rest[u as int].y, gone.height)),
                u as int,
            ),
            (Some(d), None) => (
                rest.update(d as int, grown(rest[d as int], gone.y, gone.height)),
                d as int,
            ),
            (None, None) => (
                rest,
                if c >= 1 {
                    c - 1
                } else {
                    0
                },
            ),
        }
    }
}

/// The pane split off the lower half of `b`, which takes the odd row.
pub open spec fn lower_half(b: ViewBox) -> (u16, u16, u16, u16) {
    (b.width, (b.height - b.height / 2) as u16, b.x, (b.y + b.height / 2) as u16)
}

/// The pane split off the right half of `b`, which takes the odd column.
pub open spec fn right_half(b: ViewBox) -> (u16, u16, u16, u16) {
    ((b.width - b.width / 2) as u16, b.height, (b.x + b.width / 2) as u16, b.y)
}

/// Whether `b` is a fresh pane of the given columns and rows at the given
/// place.
pub open spec fn fresh_pane(b: ViewBox, place: (u16, u16, u16, u16)) -> bool {
    &&& b.wf()
    &&& b.buffer.text() == Seq::<char>::empty()
    &&& b.buffer.cursor == 0
    &&& b.top == 0 && b.left == 0
    &&& b.width == place.0 && b.height == place.1 && b.x == place.2 && b.y == place.3
    &&& b.path is None && b.git_hash is None
}

/// The panes of the screen and the index of the one that holds the cursor.
pub struct View {
    pub boxes: Vec<ViewBox>,
    pub cursor: usize,
    pub width: u16,
    pub height: u16,
}

impl View {
    /// There is a pane at the cursor, and every pane is well formed.
    pub open spec fn wf(&self) -> bool {
        &&& self.cursor < self.boxes@.len()
        &&& forall|i: int| 0 <= i < self.boxes@.len() ==> (#[trigger] self.boxes@[i]).wf()
    }

    /// A screen of `cols` columns and `rows` rows with one pane, which
    /// leaves the last row to the status line.
    pub fn new(cols: u16, rows: u16) -> (v: View)
        requires
            rows >= 1,
        ensures
            v.wf(),
            v.boxes@.len() == 1,
            fresh_pane(v.boxes@[0], (cols, (rows - 1) as u16, 0, 0)),
            v.cursor == 0,
            v.width == cols,
            v.height == rows - 1,
    {
        let mut boxes: Vec<ViewBox> = Vec::new();
        boxes.push(ViewBox::new(cols, rows - 1, 0, 0));
        View { boxes, cursor: 0, width: cols, height: rows - 1 }
    }

    /// The buffer of the pane that holds the cursor.
    pub fn get_buffer(&self) -> (b: &Buffer)
        requires
            self.cursor < self.boxes@.len(),
        ensures
            *b == self.boxes@[self.cursor as int].buffer,
    {
        &self.boxes[self.cursor].buffer
    }

    /// The pane that holds the cursor.
    pub fn view_box(&self) -> (b: &ViewBox)
        requires
            self.cursor < self.boxes@.len(),
        ensures
            *b == self.boxes@[self.cursor as int],
    {
        &self.boxes[self.cursor]
    }

    /// The corner behind the last column and the last row of the panes.
    pub fn get_lower_right(&self) -> (p: (u16, u16))
        ensures
            p == (self.width, self.height),
    {
        (self.width, self.height)
    }

    /// The first pane that `predicate` accepts.
    pub fn find_box<P: Fn(&ViewBox) -> bool>(&self, predicate: P) -> (found: Option<&ViewBox>)
        requires
            forall|b: &ViewBox| call_requires(predicate, (b,)),
        ensures
            match found {
                Some(b) => exists|i: int|
                    0 <= i < self.boxes@.len() && *b == self.boxes@[i] && call_ensures(
                        predicate,
                        (&self.boxes@[i],),
                        true,
                    ) && forall|j: int|
                        0 <= j < i ==> call_ensures(predicate, (&#[trigger] self.boxes@[j],), false),
                None => forall|j: int|
                    0 <= j < self.boxes@.len() ==> call_ensures(
                        predicate,
                        (&#[trigger] self.boxes@[j],),
                        false,
                    ),
            },
    {
        match self.position_of_box(predicate) {
            Some(i) => Some(&self.boxes[i]),
            None => None,
        }
    }

    /// The index of the first pane that `predicate` accepts.
    pub fn position_of_box<P: Fn(&ViewBox) -> bool>(&self, predicate: P) -> (found: Option<usize>)
        requires
            forall|b: &ViewBox| call_requires(predicate, (b,)),
        ensures
            match found {
                Some(i) => i < self.boxes@.len() && call_ensures(
                    predicate,
                    (&self.boxes@[i as int],),
                    true,
                ) && forall|j: int|
                    0 <= j < i ==> call_ensures(predicate, (&#[trigger] self.boxes@[j],), false),
                None => forall|j: int|
                    0 <= j < self.boxes@.len() ==> call_ensures(
                        predicate,
                        (&#[trigger] self.boxes@[j],),
                        false,
                    ),
            },
    {
        let mut i: usize = 0;
        while i < self.boxes.len()
            invariant
                i <= self.boxes@.len(),
                forall|b: &ViewBox| call_requires(predicate, (b,)),
                forall|j: int|
                    0 <= j < i ==> call_ensures(predicate, (&#[trigger] self.boxes@[j],), false),
            decreases self.boxes@.len() - i,
        {
            if predicate(&self.boxes[i]) {
                return Some(i);
            }
            i += 1;
        }
        None
    }

    /// The index of the first pane that lies against side `side` of the
    /// pane that holds the cursor.
    pub fn position_beside(&self, side: Side) -> (found: Option<usize>)
        requires
            self.cursor < self.boxes@.len(),
        ensures
            found == first_adjoining(self.boxes@, side, self.boxes@[self.cursor as int], 0),
            found matches Some(i) ==> i < self.boxes@.len() && adjoins(
                side,
                self.boxes@[self.cursor as int],
                self.boxes@[i as int],
            ),
    {
        let cur = &self.boxes[self.cursor];
        let mut i: usize = 0;
        while i < self.boxes.len()
            invariant
                i <= self.boxes@.len(),
                *cur == self.boxes@[self.cursor as int],
                first_adjoining(self.boxes@, side, *cur, 0) == first_adjoining(
                    self.boxes@,
                    side,
                    *cur,
                    i as int,
                ),
            decreases self.boxes@.len() - i,
        {
            let b = &self.boxes[i];
            let hit = match side {
                Side::Down => b.x == cur.x && b.y as u32 == cur.y as u32 + cur.height as u32,
                Side::Up => b.x == cur.x && b.y as u32 + b.height as u32 == cur.y as u32,
                Side::Left => b.y == cur.y && b.x as u32 + b.width as u32 == cur.x as u32,
                Side::Right => b.y == cur.y && b.x as u32 == cur.x as u32 + cur.width as u32,
            };
            if hit {
                return Some(i);
            }
            i += 1;
        }
        None
    }

    /// The index of the pane below the one that holds the cursor.
    pub fn position_view_box_down(&self) -> (found: Option<usize>)
        requires
            self.cursor < self.boxes@.len(),
        ensures
            found == first_adjoining(self.boxes@, Side::Down, self.boxes@[self.cursor as int], 0),
    {
        self.position_beside(Side::Down)
    }

    /// The index of the pane above the one that holds the cursor.
    pub fn position_view_box_up(&self) -> (found: Option<usize>)
        requires
            self.cursor < self.boxes@.len(),
        ensures
            found == first_adjoining(self.boxes@, Side::Up, self.boxes@[self.cursor as int], 0),
    {
        self.position_beside(Side::Up)
    }

    /// The index of the pane left of the one that holds the cursor.
    pub fn position_view_box_left(&self) -> (found: Option<usize>)
        requires
            self.cursor < self.boxes@.len(),
        ensures
            found == first_adjoining(self.boxes@, Side::Left, self.boxes@[self.cursor as int], 0),
    {
        self.position_beside(Side::Left)
    }

    /// The index of the pane right of the one that holds the cursor.
    pub fn position_view_box_right(&self) -> (found: Option<usize>)
        requires
            self.cursor < self.boxes@.len(),
        ensures
            found == first_adjoining(self.boxes@, Side::Right, self.boxes@[self.cursor as int], 0),
    {
        self.position_beside(Side::Right)
    }

    /// The number of panes.
    pub fn boxes_len(&self) -> (n: usize)
        ensures
            n == self.boxes@.len(),
    {
        self.boxes.len()
    }

    /// Moves the cursor to pane `new`.
    pub fn set_cursor(&mut self, new: usize)
        requires
            old(self).wf(),
            new < old(self).boxes@.len(),
        ensures
            final(self).wf(),
            final(self).cursor == new,
            final(self).boxes == old(self).boxes,
            final(self).width == old(self).width,
            final(self).height == old(self).height,
    {
        self.cursor = new;
    }

    /// Moves the cursor to the last pane.
    pub fn cursor_to_last(&mut self)
        requires
            old(self).wf(),
        ensures
            final(self).wf(),
            final(self).cursor == old(self).boxes@.len() - 1,
            final(self).boxes == old(self).boxes,
            final(self).width == old(self).width,
            final(self).height == old(self).height,
    {
        let last = self.boxes_len() - 1;
        self.set_cursor(last);
    }

    /// The file of the pane that holds the cursor.
    pub fn get_path(&self) -> (p: Option<&String>)
        requires
            self.cursor < self.boxes@.len(),
        ensures
            match p {
                Some(s) => self.boxes@[self.cursor as int].path == Some(*s),
                None => self.boxes@[self.cursor as int].path is None,
            },
    {
        self.boxes[self.cursor].path.as_ref()
    }

    /// The revision of the file of the pane that holds the cursor.
    pub fn get_git_hash(&self) -> (p: Option<&String>)
        requires
            self.cursor < self.boxes@.len(),
        ensures
            match p {
                Some(s) => self.boxes@[self.cursor as int].git_hash == Some(*s),
                None => self.boxes@[self.cursor as int].git_hash is None,
            },
    {
        self.boxes[self.cursor].git_hash.as_ref()
    }

    /// The buffer of the pane that holds the cursor, to be changed.
    pub fn get_buffer_mut(&mut self) -> (b: &mut Buffer)
        requires
            old(self).cursor < old(self).boxes@.len(),
        ensures
            *b == old(self).boxes@[old(self).cursor as int].buffer,
            final(self).boxes@ == old(self).boxes@.update(
                old(self).cursor as int,
                ViewBox { buffer: *final(b), ..old(self).boxes@[old(self).cursor as int] },
            ),
            final(self).cursor == old(self).cursor,
            final(self).width == old(self).width,
            final(self).height == old(self).height,
    {
        &mut self.boxes[self.cursor].buffer
    }

    /// The pane that holds the cursor, to be changed.
    pub fn get_view_box(&mut self) -> (b: &mut ViewBox)
        requires
            old(self).cursor < old(self).boxes@.len(),
        ensures
            *b == old(self).boxes@[old(self).cursor as int],
            final(self).boxes@ == old(self).boxes@.update(old(self).cursor as int, *final(b)),
            final(self).cursor == old(self).cursor,
            final(self).width == old(self).width,
            final(self).height == old(self).height,
    {
        &mut self.boxes[self.cursor]
    }

    /// Closes the pane that holds the cursor. The pane above it takes its
    /// room, else the pane below it; the cursor goes to the pane that took
    /// the room, or else to the pane before the closed one. That pane is
    /// drawn anew. The last pane is not closed.
    pub fn delete_curr_view_box(&mut self)
        requires
            old(self).wf(),
        ensures
            final(self).wf(),
            final(self).width == old(self).width,
            final(self).height == old(self).height,
            old(self).boxes@.len() <= 1 ==> final(self).boxes == old(self).boxes
                && final(self).cursor == old(self).cursor,
            old(self).boxes@.len() > 1 ==> {
                let (boxes, cursor) = closed(old(self).boxes@, old(self).cursor as int);
                &&& final(self).cursor == cursor
                &&& final(self).boxes@.len() == boxes.len()
                &&& forall|i: int|
                    0 <= i < boxes.len() && i != cursor ==> final(self).boxes@[i] == boxes[i]
                &&& final(self).boxes@[cursor].buffer.has_changed
                &&& final(self).boxes@[cursor].buffer.rope == boxes[cursor].buffer.rope
                &&& final(self).boxes@[cursor].buffer.cursor == boxes[cursor].buffer.cursor
                &&& final(self).boxes@[cursor].buffer.lines_for_updating
                    == boxes[cursor].buffer.lines_for_updating
                &&& final(self).boxes@[cursor].x == boxes[cursor].x
                &&& final(self).boxes@[cursor].y == boxes[cursor].y
                &&& final(self).boxes@[cursor].width == boxes[cursor].width
                &&& final(self).boxes@[cursor].height == boxes[cursor].height
                &&& final(self).boxes@[cursor].top == boxes[cursor].top
                &&& final(self).boxes@[cursor].left == boxes[cursor].left
                &&& final(self).boxes@[cursor].path == boxes[cursor].path
                &&& final(self).boxes@[cursor].git_hash == boxes[cursor].git_hash
            },
    {
        if self.boxes.len() <= 1 {
            return ;
        }
        let at = self.cursor;
        let ghost before = self.boxes@;
        let down = shifted(self.position_view_box_down(), at);
        let up = shifted(self.position_view_box_up(), at);
        proof {
            lemma_first_adjoining(before, Side::Down, before[at as int], 0);
            lemma_first_adjoining(before, Side::Up, before[at as int], 0);
        }
        let gone = self.boxes.remove(at);
        match (down, up) {
            (_, Some(up_i)) => {
                let up_box = &mut self.boxes[up_i];
                up_box.height = up_box.height + gone.height;
                self.cursor = up_i;
            },
            (Some(down_i), None) => {
                let down_box = &mut self.boxes[down_i];
                down_box.y = gone.y;
                down_box.height = down_box.height + gone.height;
                self.cursor = down_i;
            },
            (None, None) => {
                self.cursor = if at >= 1 {
                    at - 1
                } else {
                    0
                };
            },
        }
        let current = &mut self.boxes[self.cursor];
        current.buffer.has_changed = true;
    }

    /// Splits pane `idx` into an upper and a lower half. The lower half is
    /// a new pane at the end of the list; it takes the odd row.
    pub fn split_view_box_vertical(&mut self, idx: usize)
        requires
            old(self).wf(),
            idx < old(self).boxes@.len(),
        ensures
            final(self).wf(),
            final(self).cursor == old(self).cursor,
            final(self).width == old(self).width,
            final(self).height == old(self).height,
            final(self).boxes@.len() == old(self).boxes@.len() + 1,
            final(self).boxes@.drop_last() == old(self).boxes@.update(
                idx as int,
                ViewBox {
                    height: old(self).boxes@[idx as int].height / 2,
                    ..old(self).boxes@[idx as int]
                },
            ),
            fresh_pane(final(self).boxes@.last(), lower_half(old(self).boxes@[idx as int])),
    {
        let ghost before = self.boxes@;
        let view_box = &mut self.boxes[idx];
        let half_height = view_box.height / 2;
        let half_y = half_height + view_box.y;
        let rest = view_box.height - half_height;
        let new_view_box = ViewBox::new(view_box.width, rest, view_box.x, half_y);
        view_box.height = half_height;
        self.boxes.push(new_view_box);
        assert(self.boxes@.drop_last() =~= before.update(
            idx as int,
            ViewBox { height: before[idx as int].height / 2, ..before[idx as int] },
        ));
    }

    /// Splits pane `idx` into a left and a right half. The right half is a
    /// new pane at the end of the list; it takes the odd column.
    pub fn split_view_box_horizontal(&mut self, idx: usize)
        requires
            old(self).wf(),
            idx < old(self).boxes@.len(),
        ensures
            final(self).wf(),
            final(self).cursor == old(self).cursor,
            final(self).width == old(self).width,
            final(self).height == old(self).height,
            final(self).boxes@.len() == old(self).boxes@.len() + 1,
            final(self).boxes@.drop_last() == old(self).boxes@.update(
                idx as int,
                ViewBox {
                    width: old(self).boxes@[idx as int].width / 2,
                    ..old(self).boxes@[idx as int]
                },
            ),
            fresh_pane(final(self).boxes@.last(), right_half(old(self).boxes@[idx as int])),
    {
        let ghost before = self.boxes@;
        let view_box = &mut self.boxes[idx];
        let half_width = view_box.width / 2;
        let half_x = half_width + view_box.x;
        let rest = view_box.width - half_width;
        let new_view_box = ViewBox::new(rest, view_box.height, half_x, view_box.y);
        view_box.width = half_width;
        self.boxes.push(new_view_box);
        assert(self.boxes@.drop_last() =~= before.update(
            idx as int,
            ViewBox { width: before[idx as int].width / 2, ..before[idx as int] },
        ));
    }

    /// Replaces the document of pane `cursor` by `contents`, as
    /// `Buffer::replace_contents` does.
    pub fn replace_buffer_contents(
        &mut self,
        contents: String,
        cursor: usize,
        undo_tree: &mut UndoTree,
    )
        requires
            old(self).wf(),
            cursor < old(self).boxes@.len(),
        ensures
            final(self).wf(),
            final(self).cursor == old(self).cursor,
            final(self).width == old(self).width,
            final(self).height == old(self).height,
            final(self).boxes@.len() == old(self).boxes@.len(),
            forall|i: int|
                0 <= i < old(self).boxes@.len() && i != cursor
                    ==> final(self).boxes@[i] == old(self).boxes@[i],
            final(self).boxes@[cursor as int].buffer.text() == contents@,
            final(self).boxes@[cursor as int].buffer.cursor == 0,
            final(self).boxes@[cursor as int].buffer.has_changed,
            final(self).boxes@[cursor as int].buffer.lines_for_updating@
                == crate::buffer_update::all_flagged(contents@),
            final(self).boxes@[cursor as int] == (ViewBox {
                buffer: final(self).boxes@[cursor as int].buffer,
                ..old(self).boxes@[cursor as int]
            }),
            final(undo_tree)@ == old(undo_tree)@.push(
                ActionView::Delete {
                    position: 0,
                    text: old(self).boxes@[cursor as int].buffer.text(),
                },
            ).push(ActionView::Insert { position: 0, text: contents@ }),
    {
        let view_box = &mut self.boxes[cursor];
        view_box.buffer.replace_contents(contents, undo_tree);
    }

    /// Moves the view of the pane that holds the cursor so that it shows
    /// the buffer's cursor, and says whether it moved.
    pub fn adjust(&mut self) -> (adjusted: bool)
        requires
            old(self).wf(),
        ensures
            final(self).wf(),
            final(self).cursor == old(self).cursor,
            final(self).boxes@.len() == old(self).boxes@.len(),
            forall|i: int|
                0 <= i < old(self).boxes@.len() && i != old(self).cursor
                    ==> final(self).boxes@[i] == old(self).boxes@[i],
            crate::view_box::followed(
                old(self).boxes@[old(self).cursor as int],
                final(self).boxes@[old(self).cursor as int],
                adjusted,
            ),
            final(self).width == old(self).width,
            final(self).height == old(self).height,
    {
        let view_box = &mut self.boxes[self.cursor];
        view_box.adjust()
    }

    /// Gives the pane that holds the cursor its file and the revision of
    /// that file.
    pub fn set_path(&mut self, path: Option<String>, git_hash: Option<String>)
        requires
            old(self).wf(),
        ensures
            final(self).wf(),
            final(self).cursor == old(self).cursor,
            final(self).width == old(self).width,
            final(self).height == old(self).height,
            final(self).boxes@ == old(self).boxes@.update(
                old(self).cursor as int,
                ViewBox { path, git_hash, ..old(self).boxes@[old(self).cursor as int] },
            ),
    {
        let view_box = &mut self.boxes[self.cursor];
        view_box.git_hash = git_hash;
        view_box.path = path;
    }
}

/// The index that pane `i` has after pane `gone` left the list.
fn shifted(i: Option<usize>, gone: usize) -> (r: Option<usize>)
    ensures
        r == index_without(i, gone as int),
{
    match i {
        Some(k) => if k == gone {
            None
        } else if k > gone {
            Some(k - 1)
        } else {
            Some(k)
        },
        None => None,
    }
}

/// The pane that is found lies in the list and against the side.
pub proof fn lemma_first_adjoining(boxes: Seq<ViewBox>, side: Side, cur: ViewBox, from: int)
    requires
        0 <= from,
        boxes.len() <= usize::MAX,
    ensures
        first_adjoining(boxes, side, cur, from) matches Some(i) ==> from <= i < boxes.len()
            && adjoins(side, cur, boxes[i as int]),
    decreases boxes.len() - from,
{
    if from < boxes.len() && !adjoins(side, cur, boxes[from]) {
        lemma_first_adjoining(boxes, side, cur, from + 1);
    }
}

} // verus!
