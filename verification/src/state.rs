//! The editor's state as one mathematical value: what the contracts of
//! operators, commands and the dispatcher speak of.

use vstd::prelude::*;
use crate::buffer::Buffer;
use crate::buffer_update::all_flagged;
use crate::mode::Mode;
use crate::register::RegisterHandler;
use crate::text::{line_count, line_of};
use crate::undo::{ActionView, UndoTree};

verus! {

/// The document with its cursor and redraw flags, the registers, the mode
/// and the undo log.
pub struct Snapshot {
    pub text: Seq<char>,
    pub cursor: int,
    pub flags: Seq<bool>,
    pub has_changed: bool,
    pub registers: Map<Seq<char>, Seq<char>>,
    pub current_register: Seq<char>,
    pub mode: Mode,
    pub log: Seq<ActionView>,
}

impl Snapshot {
    /// The cursor lies within the document, and there is one redraw flag
    /// for each line.
    pub open spec fn wf(self) -> bool {
        &&& 0 <= self.cursor <= self.text.len()
        &&& self.flags.len() == line_count(self.text)
    }

    /// The index of the line that holds the cursor.
    pub open spec fn row(self) -> int {
        line_of(self.text, self.cursor) as int
    }

    /// This state with the cursor's line flagged for drawing.
    pub open spec fn with_line_flagged(self) -> Snapshot {
        Snapshot { flags: self.flags.update(self.row(), true), has_changed: true, ..self }
    }

    /// This state with every line flagged for drawing: one flag for each
    /// line of the document as it is now.
    pub open spec fn with_all_flagged(self) -> Snapshot {
        Snapshot { flags: all_flagged(self.text), has_changed: true, ..self }
    }

    /// The text of the active register.
    pub open spec fn active(self) -> Seq<char> {
        if self.registers.contains_key(self.current_register) {
            self.registers[self.current_register]
        } else {
            Seq::<char>::empty()
        }
    }

    /// This state with the cursor at another offset.
    pub open spec fn with_cursor(self, cursor: int) -> Snapshot {
        Snapshot { cursor, ..self }
    }

    /// This state with another text in the active register.
    pub open spec fn with_active(self, text: Seq<char>) -> Snapshot {
        Snapshot { registers: self.registers.insert(self.current_register, text), ..self }
    }
}

/// The state that the four parts of an editor make up.
pub open spec fn snapshot(
    buffer: Buffer,
    registers: RegisterHandler,
    mode: Mode,
    undo: UndoTree,
) -> Snapshot {
    Snapshot {
        text: buffer.text(),
        cursor: buffer.cursor as int,
        flags: buffer.lines_for_updating@,
        has_changed: buffer.has_changed,
        registers: registers@,
        current_register: registers.current_register@,
        mode,
        log: undo@,
    }
}

} // verus!
