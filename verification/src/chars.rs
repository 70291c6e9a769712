//! What the verified code believes of the standard library's character
//! classes and of `String::push`.

use vstd::prelude::*;

verus! {

/// Whether `char::is_alphanumeric` holds of `c`: the Unicode classes
/// Alphabetic and Number.
pub uninterp spec fn alphanumeric(c: char) -> bool;

/// Whether `char::is_whitespace` holds of `c`: the Unicode property
/// White_Space.
pub uninterp spec fn whitespace(c: char) -> bool;

/// Whether `char::is_numeric` holds of `c`: the Unicode classes Nd, Nl, No.
pub uninterp spec fn numeric(c: char) -> bool;

/// `char::is_alphanumeric` depends on the character alone.
pub assume_specification[ char::is_alphanumeric ](c: char) -> (b: bool)
    ensures
        b == alphanumeric(c),
;

/// `char::is_whitespace` depends on the character alone.
pub assume_specification[ char::is_whitespace ](c: char) -> (b: bool)
    ensures
        b == whitespace(c),
;

/// `char::is_numeric` depends on the character alone.
pub assume_specification[ char::is_numeric ](c: char) -> (b: bool)
    ensures
        b == numeric(c),
;

/// The value of `c` as a decimal digit.
pub open spec fn decimal_value(c: char) -> Option<u32> {
    if '0' <= c <= '9' {
        Some((c as u32 - '0' as u32) as u32)
    } else {
        None
    }
}

/// Calls `char::to_digit` with radix 10, which gives the value of the ASCII
/// digits `0` to `9` and `None` for every other character.
#[verifier::external_body]
pub(crate) fn to_decimal_digit(c: char) -> (d: Option<u32>)
    ensures
        d == decimal_value(c),
{
    c.to_digit(10)
}

/// `String::push` appends one character.
pub assume_specification[ String::push ](s: &mut String, ch: char)
    ensures
        final(s)@ == old(s)@.push(ch),
;

} // verus!
