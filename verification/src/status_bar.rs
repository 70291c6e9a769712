//! The command line at the foot of the screen.

use vstd::prelude::*;

verus! {

/// The characters keyed into the command line, and the column of its
/// cursor, which stands behind the last of them.
pub struct StatusBar {
    pub buffer: Vec<char>,
    pub idx: usize,
}

impl View for StatusBar {
    type V = Seq<char>;

    open spec fn view(&self) -> Seq<char> {
        self.buffer@
    }
}

impl StatusBar {
    /// The cursor stands behind the last character.
    pub open spec fn wf(&self) -> bool {
        self.idx == self.buffer@.len()
    }

    /// An empty command line.
    pub fn new() -> (s: StatusBar)
        ensures
            s.wf(),
            s@ == Seq::<char>::empty(),
    {
        StatusBar { buffer: Vec::new(), idx: 0 }
    }

    /// The column of the cursor.
    pub fn idx(&self) -> (i: usize)
        ensures
            i == self.idx,
    {
        self.idx
    }

    /// The number of characters.
    pub fn len(&self) -> (n: usize)
        ensures
            n == self@.len(),
    {
        self.buffer.len()
    }

    /// The character at index `i`.
    pub fn char_at(&self, i: usize) -> (c: char)
        requires
            i < self@.len(),
        ensures
            c == self@[i as int],
    {
        self.buffer[i]
    }

    /// The text of the command line.
    pub fn buffer(&self) -> (text: String)
        ensures
            text@ == self@,
    {
        let mut text = String::new();
        let mut i: usize = 0;
        while i < self.buffer.len()
            invariant
                i <= self.buffer@.len(),
                text@ == self.buffer@.take(i as int),
            decreases self.buffer@.len() - i,
        {
            text.push(self.buffer[i]);
            i += 1;
            assert(text@ =~= self.buffer@.take(i as int));
        }
        assert(self.buffer@.take(i as int) =~= self.buffer@);
        text
    }

    /// Appends a character.
    pub fn push(&mut self, c: char)
        requires
            old(self).wf(),
        ensures
            final(self).wf(),
            final(self)@ == old(self)@.push(c),
    {
        self.buffer.push(c);
        self.idx = self.buffer.len();
    }

    /// Removes the last character. The first character, which opened the
    /// command line, stays.
    pub fn delete(&mut self)
        requires
            old(self).wf(),
        ensures
            final(self).wf(),
            final(self)@ == if old(self)@.len() <= 1 {
                old(self)@
            } else {
                old(self)@.drop_last()
            },
    {
        if self.idx <= 1 {
            return ;
        }
        self.buffer.remove(self.idx - 1);
        self.idx -= 1;
        assert(self@ =~= old(self)@.drop_last());
    }

    /// Empties the command line.
    pub fn clear(&mut self)
        ensures
            final(self).wf(),
            final(self)@ == Seq::<char>::empty(),
    {
        self.buffer.clear();
        self.idx = 0;
    }
}

} // verus!
