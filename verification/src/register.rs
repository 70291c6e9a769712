//! The register store: named texts, one of which is active.

use vstd::hash_map::StringHashMap;
use vstd::prelude::*;
use vstd::string::{StrSliceExecFns, StringExecFns};

verus! {

/// The name of a register.
pub type RegId = String;

/// The text of a register.
pub type RegContents = String;

/// The name of the register that is active unless another was chosen.
pub open spec fn default_register() -> Seq<char> {
    seq!['0']
}

/// Named registers and the name of the active one. A register that was
/// never written holds the empty text.
pub struct RegisterHandler {
    pub registers: StringHashMap<RegContents>,
    pub current_register: RegId,
    /// The names of the registers that were written, each once, in the
    /// order in which they were first written.
    pub written: Vec<RegId>,
}

impl View for RegisterHandler {
    type V = Map<Seq<char>, Seq<char>>;

    /// The registers that were written, each with its text.
    open spec fn view(&self) -> Map<Seq<char>, Seq<char>> {
        Map::new(|k: Seq<char>| self.registers@.contains_key(k), |k: Seq<char>| self.registers@[k]@)
    }
}

impl RegisterHandler {
    /// The text of register `id`.
    pub open spec fn text_of(&self, id: Seq<char>) -> Seq<char> {
        if self@.contains_key(id) {
            self@[id]
        } else {
            Seq::<char>::empty()
        }
    }

    /// The text of the active register.
    pub open spec fn active(&self) -> Seq<char> {
        self.text_of(self.current_register@)
    }

    /// The names of the registers that were written, in the order in which
    /// they were first written.
    pub open spec fn names(&self) -> Seq<Seq<char>> {
        Seq::new(self.written@.len(), |i: int| self.written@[i]@)
    }

    /// The names list each written register, and no other.
    pub open spec fn wf(&self) -> bool {
        forall|k: Seq<char>| self@.contains_key(k) <==> self.names().contains(k)
    }

    /// The names after register `id` was written.
    pub open spec fn names_with(&self, id: Seq<char>) -> Seq<Seq<char>> {
        if self@.contains_key(id) {
            self.names()
        } else {
            self.names().push(id)
        }
    }

    /// No register written; the default register is active.
    pub fn new() -> (r: RegisterHandler)
        ensures
            r.wf(),
            r@ == Map::<Seq<char>, Seq<char>>::empty(),
            r.current_register@ == default_register(),
            r.names() == Seq::<Seq<char>>::empty(),
    {
        proof {
            reveal_strlit("0");
        }
        let r = RegisterHandler {
            registers: StringHashMap::new(),
            current_register: String::from_str("0"),
            written: Vec::new(),
        };
        assert(r@ =~= Map::<Seq<char>, Seq<char>>::empty());
        assert(r.names() =~= Seq::<Seq<char>>::empty());
        assert(r.current_register@ =~= default_register());
        r
    }

    /// Makes `reg` the active register and gives it the text `value`.
    pub fn init_reg(&mut self, reg: String, value: String)
        ensures
            final(self).current_register@ == reg@,
            final(self)@ == old(self)@.insert(reg@, value@),
            final(self).names() == old(self).names_with(reg@),
            old(self).wf() ==> final(self).wf(),
    {
        self.current_register = reg;
        self.set_reg(value);
    }

    /// Gives the active register the text `value`.
    pub fn set_reg(&mut self, value: RegContents)
        ensures
            final(self).current_register == old(self).current_register,
            final(self)@ == old(self)@.insert(old(self).current_register@, value@),
            final(self).names() == old(self).names_with(old(self).current_register@),
            old(self).wf() ==> final(self).wf(),
    {
        if !self.registers.contains_key(self.current_register.as_str()) {
            self.written.push(self.current_register.clone());
            assert(self.names() =~= old(self).names().push(old(self).current_register@));
        }
        self.registers.insert(self.current_register.clone(), value);
        assert(self@ =~= old(self)@.insert(old(self).current_register@, value@));
        assert(self.names() =~= old(self).names_with(old(self).current_register@));
        proof {
            if old(self).wf() {
                let id = old(self).current_register@;
                assert forall|k: Seq<char>| self@.contains_key(k) <==> self.names().contains(
                    k,
                ) by {
                    if old(self).names().contains(k) {
                        let i = choose|i: int|
                            0 <= i < old(self).names().len() && old(self).names()[i] == k;
                        assert(self.names()[i] == k);
                    }
                    if k == id {
                        if old(self)@.contains_key(id) {
                            assert(old(self).names().contains(id));
                        } else {
                            assert(self.names()[self.names().len() - 1] == id);
                        }
                    }
                    if self.names().contains(k) && k != id {
                        let i = choose|i: int| 0 <= i < self.names().len() && self.names()[i] == k;
                        assert(old(self).names()[i] == k);
                    }
                }
            }
        }
    }

    /// Gives the active register the empty text.
    pub fn empty_reg(&mut self)
        ensures
            old(self).wf() ==> final(self).wf(),
            final(self).names() == old(self).names_with(old(self).current_register@),
            final(self).current_register == old(self).current_register,
            final(self)@ == old(self)@.insert(
                old(self).current_register@,
                Seq::<char>::empty(),
            ),
    {
        self.set_reg(String::new());
    }

    /// Appends `append_value` to the text of the active register.
    pub fn push_reg(&mut self, append_value: &str)
        ensures
            old(self).wf() ==> final(self).wf(),
            final(self).names() == old(self).names_with(old(self).current_register@),
            final(self).current_register == old(self).current_register,
            final(self)@ == old(self)@.insert(
                old(self).current_register@,
                old(self).active() + append_value@,
            ),
    {
        let mut value = match self.registers.get(self.current_register.as_str()) {
            Some(v) => v.clone(),
            None => String::new(),
        };
        value.append(append_value);
        self.set_reg(value);
    }

    /// The text of the active register.
    pub fn get_reg(&self) -> (r: String)
        ensures
            r@ == self.active(),
    {
        match self.registers.get(self.current_register.as_str()) {
            Some(s) => s.clone(),
            None => String::new(),
        }
    }

    /// The first character of the name of the active register, or a double
    /// quote where the name is empty.
    pub fn get_curr_reg(&self) -> (c: char)
        ensures
            c == if self.current_register@.len() > 0 {
                self.current_register@[0]
            } else {
                '"'
            },
    {
        if self.current_register.as_str().unicode_len() > 0 {
            self.current_register.as_str().get_char(0)
        } else {
            '"'
        }
    }

    /// The written registers, each with its name and its text, in the order
    /// in which they were first written.
    pub fn entries(&self) -> (list: Vec<(String, String)>)
        ensures
            list@.len() == self.names().len(),
            forall|i: int|
                0 <= i < list@.len() ==> (#[trigger] list@[i]).0@ == self.names()[i] && list@[i].1@
                    == self.text_of(self.names()[i]),
    {
        let mut list: Vec<(String, String)> = Vec::new();
        let mut i: usize = 0;
        while i < self.written.len()
            invariant
                i <= self.written@.len(),
                list@.len() == i,
                forall|k: int|
                    0 <= k < i ==> (#[trigger] list@[k]).0@ == self.names()[k] && list@[k].1@
                        == self.text_of(self.names()[k]),
            decreases self.written@.len() - i,
        {
            let name = self.written[i].clone();
            let text = match self.registers.get(name.as_str()) {
                Some(s) => s.clone(),
                None => String::new(),
            };
            list.push((name, text));
            i += 1;
        }
        list
    }

    /// Makes the default register the active one.
    pub fn reset_current_register(&mut self)
        ensures
            final(self).current_register@ == default_register(),
            final(self)@ == old(self)@,
            final(self).names() == old(self).names(),
    {
        proof {
            reveal_strlit("0");
        }
        self.current_register = String::from_str("0");
        assert(self.current_register@ =~= default_register());
    }
}

} // verus!
