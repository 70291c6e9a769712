//! Tables of named entries, and how a keystroke finds an entry in one.

use vstd::prelude::*;
use vstd::string::StrSliceExecFns;

verus! {

/// An entry of a table that goes by a name.
pub trait Named {
    /// The characters of the name.
    spec fn name_view(&self) -> Seq<char>;

    /// The name.
    fn entry_name(&self) -> (name: &str)
        ensures
            name@ == self.name_view(),
    ;
}

/// The names of the entries of a table, in its order.
pub open spec fn names_of<T: Named>(table: Seq<T>) -> Seq<Seq<char>> {
    Seq::new(table.len(), |i: int| table[i].name_view())
}

/// The index of the first name from index `from` on whose last character is
/// `c`: the entry that a keystroke `c` triggers.
pub open spec fn first_with_trigger(names: Seq<Seq<char>>, c: char, from: int) -> Option<int>
    decreases names.len() - from,
{
    if from < 0 || from >= names.len() {
        None
    } else if names[from].len() > 0 && names[from].last() == c {
        Some(from)
    } else {
        first_with_trigger(names, c, from + 1)
    }
}

/// The index of the first name from index `from` on that is exactly
/// `chained`.
pub open spec fn first_named(names: Seq<Seq<char>>, chained: Seq<char>, from: int) -> Option<int>
    decreases names.len() - from,
{
    if from < 0 || from >= names.len() {
        None
    } else if names[from] == chained {
        Some(from)
    } else {
        first_named(names, chained, from + 1)
    }
}

/// The characters of the first `n` names, one name after the other.
pub open spec fn chars_of(names: Seq<Seq<char>>, n: int) -> Seq<char>
    decreases n,
{
    if n <= 0 {
        Seq::<char>::empty()
    } else {
        chars_of(names, n - 1) + names[n - 1]
    }
}



/// Whether `name` is exactly the characters `chained`.
pub fn name_is(name: &str, chained: &Vec<char>) -> (r: bool)
    ensures
        r == (name@ == chained@),
{
    let n = name.unicode_len();
    if n != chained.len() {
        return false;
    }
    let mut i: usize = 0;
    while i < n
        invariant
            i <= n,
            n == name@.len(),
            n == chained@.len(),
            forall|k: int| 0 <= k < i ==> name@[k] == chained@[k],
        decreases n - i,
    {
        if name.get_char(i) != chained[i] {
            return false;
        }
        i += 1;
    }
    assert(name@ =~= chained@);
    true
}

/// The entry of `table` that the keystroke `c` triggers, if there is one.
pub fn find_by_trigger<T: Named>(table: &[T], c: char) -> (r: Option<usize>)
    ensures
        r matches Some(i) ==> i < table@.len(),
        match r {
            Some(i) => first_with_trigger(names_of(table@), c, 0) == Some(i as int),
            None => first_with_trigger(names_of(table@), c, 0) is None,
        },
{
    let mut i: usize = 0;
    while i < table.len()
        invariant
            i <= table@.len(),
            first_with_trigger(names_of(table@), c, 0) == first_with_trigger(
                names_of(table@),
                c,
                i as int,
            ),
        decreases table@.len() - i,
    {
        let name = table[i].entry_name();
        let n = name.unicode_len();
        if n > 0 && name.get_char(n - 1) == c {
            return Some(i);
        }
        i += 1;
    }
    None
}

/// The entry of `table` whose name is exactly `chained`, if there is one.
pub fn find_by_name<T: Named>(table: &[T], chained: &Vec<char>) -> (r: Option<usize>)
    ensures
        r matches Some(i) ==> i < table@.len(),
        match r {
            Some(i) => first_named(names_of(table@), chained@, 0) == Some(i as int),
            None => first_named(names_of(table@), chained@, 0) is None,
        },
{
    let mut i: usize = 0;
    while i < table.len()
        invariant
            i <= table@.len(),
            first_named(names_of(table@), chained@, 0) == first_named(
                names_of(table@),
                chained@,
                i as int,
            ),
        decreases table@.len() - i,
    {
        if name_is(table[i].entry_name(), chained) {
            return Some(i);
        }
        i += 1;
    }
    None
}

/// Appends the characters of every name of `table` to `out`.
pub fn collect_name_chars<T: Named>(table: &[T], out: &mut Vec<char>)
    ensures
        final(out)@ == old(out)@ + chars_of(names_of(table@), table@.len() as int),
{
    let mut i: usize = 0;
    assert(out@ =~= old(out)@ + chars_of(names_of(table@), 0));
    while i < table.len()
        invariant
            i <= table@.len(),
            out@ == old(out)@ + chars_of(names_of(table@), i as int),
        decreases table@.len() - i,
    {
        let name = table[i].entry_name();
        let n = name.unicode_len();
        let ghost before = out@;
        let mut k: usize = 0;
        while k < n
            invariant
                k <= n,
                n == name@.len(),
                out@ == before + name@.take(k as int),
            decreases n - k,
        {
            out.push(name.get_char(k));
            k += 1;
            assert(out@ =~= before + name@.take(k as int));
        }
        assert(name@.take(n as int) =~= name@);
        i += 1;
        assert(out@ =~= old(out)@ + chars_of(names_of(table@), i as int));
    }
}

} // verus!
