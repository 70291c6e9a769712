//! Commands that move the view, not the cursor.

use vstd::prelude::*;
use vstd::view::View as _;
use crate::buffer_update::flags_set_from;
use crate::named::Named;
use crate::view::View;
use crate::view_box::ViewBox;

verus! {

/// What a view command does.
#[derive(Clone, Copy, Debug, PartialEq, Eq, Structural)]
pub enum ViewCommandKind {
    CenterOnCursor,
}

/// A named view command.
pub struct ViewCommand<'a> {
    pub name: &'a str,
    pub command: ViewCommandKind,
}

impl<'a> Named for ViewCommand<'a> {
    open spec fn name_view(&self) -> Seq<char> {
        self.name@
    }

    fn entry_name(&self) -> (name: &str) {
        self.name
    }
}

impl<'a> ViewCommand<'a> {
    /// A view command that goes by `name`.
    pub fn new(name: &'a str, command: ViewCommandKind) -> (c: Self)
        ensures
            c.name == name,
            c.command == command,
    {
        ViewCommand { name, command }
    }

    /// Runs the view command on the pane that holds the cursor.
    pub fn execute(&self, view: &mut View)
        requires
            old(view).wf(),
        ensures
            final(view).wf(),
            final(view).cursor == old(view).cursor,
            final(view).boxes@.len() == old(view).boxes@.len(),
            forall|i: int|
                0 <= i < old(view).boxes@.len() && i != old(view).cursor
                    ==> final(view).boxes@[i] == old(view).boxes@[i],
            centered(
                old(view).boxes@[old(view).cursor as int],
                final(view).boxes@[old(view).cursor as int],
            ),
    {
        match self.command {
            ViewCommandKind::CenterOnCursor => {
                let view_box = view.get_view_box();
                center_viewbox_on_cursor(view_box);
            },
        }
    }
}

/// Whether `after` is the pane `before` with the cursor's line in the
/// middle of what it shows: the view begins half the pane's height above
/// that line, and every line is flagged. Where the cursor stands in the
/// first half of the buffer's first screen, the pane stays as it is.
pub open spec fn centered(before: ViewBox, after: ViewBox) -> bool {
    if before.buffer.row() < before.height / 2 {
        after == before
    } else {
        &&& after.top == before.buffer.row() - before.height / 2
        &&& after.buffer.lines_for_updating@ == flags_set_from(
            before.buffer.lines_for_updating@,
            0,
            true,
        )
        &&& after.buffer.has_changed
        &&& after.buffer.rope == before.buffer.rope
        &&& after.buffer.cursor == before.buffer.cursor
        &&& after.left == before.left
        &&& after.x == before.x && after.y == before.y
        &&& after.width == before.width && after.height == before.height
        &&& after.path == before.path && after.git_hash == before.git_hash
    }
}

/// Moves the view of `view_box` so that the cursor's line stands in its
/// middle.
pub fn center_viewbox_on_cursor(view_box: &mut ViewBox)
    requires
        old(view_box).wf(),
    ensures
        final(view_box).wf(),
        centered(*old(view_box), *final(view_box)),
{
    let half_height = view_box.height() / 2;
    let row = view_box.buffer.get_row();
    if row < half_height {
        return ;
    }
    let new_top = row - half_height;
    view_box.top = new_top;
    view_box.buffer.update_list_all();
}

} // verus!
