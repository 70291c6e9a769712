//! Small helpers on characters.

use vstd::prelude::*;
use vstd::string::StrSliceExecFns;

verus! {

/// The characters that count as symbols.
pub open spec fn symbols() -> Seq<char> {
    "$`':~()\\+-=$#^[&]*<@%!{|}>/?.,"@
}

/// Whether `c` is a symbol.
pub fn is_symbol(c: char) -> (r: bool)
    ensures
        r == symbols().contains(c),
{
    let symbols = "$`':~()\\+-=$#^[&]*<@%!{|}>/?.,";
    let n = symbols.unicode_len();
    let mut i: usize = 0;
    while i < n
        invariant
            i <= n,
            n == symbols@.len(),
            symbols@ == self::symbols(),
            forall|k: int| 0 <= k < i ==> symbols@[k] != c,
        decreases n - i,
    {
        if symbols.get_char(i) == c {
            return true;
        }
        i += 1;
    }
    false
}

} // verus!
