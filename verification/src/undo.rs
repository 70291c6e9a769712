//! The undo log: a linear stack of actions, with coalescing of keystroke
//! edits and the inverse of each action.

use vstd::prelude::*;
use vstd::string::{StrSliceExecFns, StringExecFns};
use crate::buffer::Buffer;
use crate::buffer_edit::replace_run;
use crate::buffer_update::all_flagged;
use crate::text::{cut_out, splice_in};

verus! {

/// What an action did to the document.
#[derive(Debug, Clone)]
pub enum ActionType {
    /// The text was inserted.
    Insert(String),
    /// The text was removed.
    Delete(String),
    /// Each occurrence of `original` was replaced by `new`; `positions` are
    /// the offsets at which the replacing texts end in the new document.
    Replace { positions: Vec<usize>, original: String, new: String },
    /// Nothing but a cursor move.
    Neither,
}

/// One unit of undo.
///
/// `position` is where an inserted text begins, where the cursor stood after
/// a removal (and so where the text goes back in), or the cursor to go back
/// to. A replacement does not use it.
#[derive(Debug, Clone)]
pub struct Action {
    pub position: usize,
    pub kind: ActionType,
}

/// An action as a mathematical value.
pub enum ActionView {
    Insert { position: nat, text: Seq<char> },
    Delete { position: nat, text: Seq<char> },
    Replace { positions: Seq<usize>, original: Seq<char>, new: Seq<char> },
    Neither { position: nat },
}

impl View for Action {
    type V = ActionView;

    open spec fn view(&self) -> ActionView {
        match self.kind {
            ActionType::Insert(t) => ActionView::Insert { position: self.position as nat, text: t@ },
            ActionType::Delete(t) => ActionView::Delete { position: self.position as nat, text: t@ },
            ActionType::Replace { positions, original, new } => ActionView::Replace {
                positions: positions@,
                original: original@,
                new: new@,
            },
            ActionType::Neither => ActionView::Neither { position: self.position as nat },
        }
    }
}

/// The action that takes the place of `top` and `incoming` where the two
/// coalesce, and `None` where `incoming` is to be pushed as it is.
///
/// Two insertions become one that begins where the older began, and two
/// removals one that ends where the newer ended; either holds the newer text
/// before the older. A replacement coalesces only with its exact duplicate.
pub open spec fn coalesced(top: ActionView, incoming: ActionView) -> Option<ActionView> {
    match (top, incoming) {
        (
            ActionView::Insert { position: p, text: t },
            ActionView::Insert { position: _, text: n },
        ) => Some(ActionView::Insert { position: p, text: n + t }),
        (
            ActionView::Delete { position: _, text: t },
            ActionView::Delete { position: q, text: n },
        ) => Some(ActionView::Delete { position: q, text: n + t }),
        (ActionView::Replace { .. }, ActionView::Replace { .. }) => if top == incoming {
            Some(incoming)
        } else {
            None
        },
        _ => None,
    }
}

/// The log after `incoming` was recorded with coalescing.
pub open spec fn log_merged(log: Seq<ActionView>, incoming: ActionView) -> Seq<ActionView> {
    if log.len() > 0 && coalesced(log.last(), incoming) is Some {
        log.drop_last().push(coalesced(log.last(), incoming)->Some_0)
    } else {
        log.push(incoming)
    }
}

/// `p`, or the length of `s` where `p` lies beyond it.
pub open spec fn clamped(p: int, s: Seq<char>) -> int {
    if p <= s.len() {
        p
    } else {
        s.len() as int
    }
}

/// The document after `a` was taken back from `s`.
pub open spec fn undone_text(a: ActionView, s: Seq<char>) -> Seq<char> {
    match a {
        ActionView::Insert { position, text } => cut_out(
            s,
            clamped(position as int, s),
            clamped(clamped(position as int, s) + text.len(), s),
        ),
        ActionView::Delete { position, text } => splice_in(s, clamped(position as int, s), text),
        ActionView::Replace { positions, original, new } => replace_run(
            s,
            positions,
            0,
            new.len() as int,
            original,
            0,
        ),
        ActionView::Neither { .. } => s,
    }
}

/// The cursor after `a` was taken back from `s`, where it stood at `cursor`.
pub open spec fn undone_cursor(a: ActionView, s: Seq<char>, cursor: int) -> int {
    match a {
        ActionView::Insert { position, .. } => clamped(position as int, s),
        ActionView::Delete { position, .. } => clamped(position as int, s),
        ActionView::Replace { .. } => clamped(cursor, undone_text(a, s)),
        ActionView::Neither { position } => clamped(position as int, s),
    }
}

impl Action {
    /// The removal of `text`, after which the cursor stood at
    /// `final_position`.
    pub fn delete(final_position: usize, text: String) -> (a: Action)
        ensures
            a@ == (ActionView::Delete { position: final_position as nat, text: text@ }),
    {
        Action { position: final_position, kind: ActionType::Delete(text) }
    }

    /// The insertion of `text` at `initial_position`.
    pub fn insert(initial_position: usize, text: String) -> (a: Action)
        ensures
            a@ == (ActionView::Insert { position: initial_position as nat, text: text@ }),
    {
        Action { position: initial_position, kind: ActionType::Insert(text) }
    }

    /// The replacement of `original` by `new`, which now ends at each of
    /// `positions`.
    pub fn replace(positions: Vec<usize>, original: String, new: String) -> (a: Action)
        ensures
            a@ == (ActionView::Replace {
                positions: positions@,
                original: original@,
                new: new@,
            }),
    {
        Action { position: 0, kind: ActionType::Replace { positions, original, new } }
    }

    /// A cursor that stood at `initial_position`.
    pub fn neither(initial_position: usize) -> (a: Action)
        ensures
            a@ == (ActionView::Neither { position: initial_position as nat }),
    {
        Action { position: initial_position, kind: ActionType::Neither }
    }
}

/// Whether two lists of offsets are the same.
fn same_offsets(a: &Vec<usize>, b: &Vec<usize>) -> (r: bool)
    ensures
        r == (a@ == b@),
{
    if a.len() != b.len() {
        return false;
    }
    let mut i: usize = 0;
    while i < a.len()
        invariant
            i <= a.len(),
            a.len() == b.len(),
            forall|k: int| 0 <= k < i ==> a@[k] == b@[k],
        decreases a.len() - i,
    {
        if a[i] != b[i] {
            return false;
        }
        i += 1;
    }
    assert(a@ =~= b@);
    true
}

/// The history of a buffer: a stack of actions, the newest on top. There is
/// no redo and no branching.
#[derive(Debug, Clone)]
pub struct UndoTree {
    pub actions: Vec<Action>,
}

impl View for UndoTree {
    type V = Seq<ActionView>;

    open spec fn view(&self) -> Seq<ActionView> {
        self.actions@.map_values(|a: Action| a@)
    }
}

impl UndoTree {
    /// An empty history.
    pub fn new() -> (t: UndoTree)
        ensures
            t@ == Seq::<ActionView>::empty(),
    {
        let t = UndoTree { actions: Vec::new() };
        assert(t@ =~= Seq::<ActionView>::empty());
        t
    }

    /// The number of actions that can be taken back.
    pub fn len(&self) -> (n: usize)
        ensures
            n == self@.len(),
    {
        self.actions.len()
    }

    /// Records `action` as a step of its own.
    pub fn new_action(&mut self, action: Action)
        ensures
            final(self)@ == old(self)@.push(action@),
    {
        self.actions.push(action);
        assert(self@ =~= old(self)@.push(action@));
    }

    /// Records `action`, coalescing it with the newest action where the two
    /// are of one kind, so that a run of keystrokes is taken back in one step.
    pub fn new_action_merge(&mut self, action: Action)
        ensures
            final(self)@ == log_merged(old(self)@, action@),
    {
        let ghost log = self@;
        let n = self.actions.len();
        if n == 0 {
            self.new_action(action);
            return ;
        }
        assert(log.last() == self.actions@[n - 1]@);
        let merged: Option<Action> = match (&self.actions[n - 1].kind, &action.kind) {
            (ActionType::Insert(last_text), ActionType::Insert(text)) => {
                let mut joined = text.clone();
                joined.append(last_text.as_str());
                Some(Action::insert(self.actions[n - 1].position, joined))
            },
            (ActionType::Delete(last_text), ActionType::Delete(text)) => {
                let mut joined = text.clone();
                joined.append(last_text.as_str());
                Some(Action::delete(action.position, joined))
            },
            (
                ActionType::Replace { positions: p0, original: o0, new: n0 },
                ActionType::Replace { positions: p1, original: o1, new: n1 },
            ) => {
                if same_offsets(p0, p1) && *o0 == *o1 && *n0 == *n1 {
                    Some(action.clone_value())
                } else {
                    None
                }
            },
            _ => None,
        };
        match merged {
            Some(m) => {
                self.actions.pop();
                self.actions.push(m);
                assert(self@ =~= log.drop_last().push(m@));
            },
            None => {
                self.new_action(action);
            },
        }
    }

    /// Takes back the newest action, if there is one: removes what it
    /// inserted, puts back what it removed, or replaces each replacing text
    /// by the text that it replaced. Then every line is flagged for drawing.
    pub fn undo(&mut self, buffer: &mut Buffer)
        requires
            old(buffer).wf(),
        ensures
            final(buffer).wf(),
            old(self)@.len() == 0 ==> *final(buffer) == *old(buffer) && final(self)@ == old(self)@,
            old(self)@.len() > 0 ==> {
                &&& final(self)@ == old(self)@.drop_last()
                &&& final(buffer).text() == undone_text(old(self)@.last(), old(buffer).text())
                &&& final(buffer).cursor == undone_cursor(
                    old(self)@.last(),
                    old(buffer).text(),
                    old(buffer).cursor as int,
                )
                &&& final(buffer).has_changed
                &&& final(buffer).lines_for_updating@ == all_flagged(final(buffer).text())
            },
    {
        let ghost log = self@;
        let action = match self.actions.pop() {
            Some(prev_state) => prev_state,
            None => {
                return ;
            },
        };
        assert(self@ =~= log.drop_last());
        assert(action@ == log.last());
        let len = buffer.rope.len_chars();
        let at = if action.position <= len {
            action.position
        } else {
            len
        };
        match action.kind {
            ActionType::Insert(text) => {
                let n = text.as_str().unicode_len();
                let end = if n <= len - at {
                    at + n
                } else {
                    len
                };
                buffer.cursor = at;
                crate::rope::rope_remove(&mut buffer.rope, at, end);
            },
            ActionType::Delete(text) => {
                buffer.cursor = at;
                buffer.rope.insert(at, text.as_str());
            },
            ActionType::Replace { positions, original, new } => {
                buffer.replace_run(original.as_str(), new.as_str(), &positions);
            },
            ActionType::Neither => {
                buffer.cursor = at;
            },
        }
        buffer.mark_all_lines();
    }
}

impl Action {
    /// A copy of the action.
    pub fn clone_value(&self) -> (a: Action)
        ensures
            a@ == self@,
    {
        match &self.kind {
            ActionType::Insert(t) => Action::insert(self.position, t.clone()),
            ActionType::Delete(t) => Action::delete(self.position, t.clone()),
            ActionType::Replace { positions, original, new } => {
                let mut p: Vec<usize> = Vec::new();
                let mut i: usize = 0;
                while i < positions.len()
                    invariant
                        i <= positions.len(),
                        p@ == positions@.take(i as int),
                    decreases positions.len() - i,
                {
                    p.push(positions[i]);
                    i += 1;
                    assert(p@ =~= positions@.take(i as int));
                }
                assert(p@ =~= positions@);
                Action::replace(p, original.clone(), new.clone())
            },
            ActionType::Neither => Action::neither(self.position),
        }
    }
}

} // verus!
