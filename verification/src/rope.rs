//! What the verified code believes of `ropey::Rope`, the structurally shared
//! character sequence that backs a document.
//!
//! The crate takes ropey without its `cr_lines` and `unicode_lines`
//! features. The rope then recognises the line feed as its only line break,
//! and its line arithmetic agrees with [`crate::text`].

use vstd::prelude::*;
use ropey::Rope;
use crate::text::{is_line_start, line_count, line_of};

verus! {

/// `ropey::Rope`, of which the verified code sees nothing but what the
/// items below say.
#[verifier::external_type_specification]
#[verifier::external_body]
pub struct ExRope(ropey::Rope);

/// The characters that a rope holds, in order.
pub uninterp spec fn rope_text(r: Rope) -> Seq<char>;

/// `Rope::from_str` makes a rope of the characters of `text`.
pub assume_specification[ Rope::from_str ](text: &str) -> (r: Rope)
    ensures
        rope_text(r) == text@,
;

/// `Rope::len_chars` counts the characters.
pub assume_specification[ Rope::len_chars ](r: &Rope) -> (n: usize)
    ensures
        n == rope_text(*r).len(),
;

/// `Rope::len_lines` is one more than the number of line breaks.
pub assume_specification[ Rope::len_lines ](r: &Rope) -> (n: usize)
    ensures
        n == line_count(rope_text(*r)),
;

/// `Rope::char` returns the character at an index below the length, and
/// panics at any other index.
pub assume_specification[ Rope::char ](r: &Rope, char_idx: usize) -> (c: char)
    requires
        char_idx < rope_text(*r).len(),
    ensures
        c == rope_text(*r)[char_idx as int],
;

/// `Rope::get_char` returns the character at an index below the length, and
/// `None` at any other index.
pub assume_specification[ Rope::get_char ](r: &Rope, char_idx: usize) -> (c: Option<char>)
    ensures
        c == if char_idx < rope_text(*r).len() {
            Some(rope_text(*r)[char_idx as int])
        } else {
            None
        },
;

/// `Rope::char_to_line` counts the line breaks before an index that is at
/// most the length, and panics beyond it.
pub assume_specification[ Rope::char_to_line ](r: &Rope, char_idx: usize) -> (line: usize)
    requires
        char_idx <= rope_text(*r).len(),
    ensures
        line == line_of(rope_text(*r), char_idx as int),
;

/// `Rope::line_to_char` returns the offset at which a line begins; for the
/// index one past the last line it returns the length, and beyond that it
/// panics.
pub assume_specification[ Rope::line_to_char ](r: &Rope, line_idx: usize) -> (i: usize)
    requires
        line_idx <= line_count(rope_text(*r)),
    ensures
        line_idx < line_count(rope_text(*r)) ==> is_line_start(rope_text(*r), i as int)
            && line_of(rope_text(*r), i as int) == line_idx,
        line_idx == line_count(rope_text(*r)) ==> i == rope_text(*r).len(),
;

/// `Rope::insert_char` puts one character in front of the given index, which
/// is at most the length; beyond it the call panics.
pub assume_specification[ Rope::insert_char ](r: &mut Rope, char_idx: usize, ch: char)
    requires
        char_idx <= rope_text(*old(r)).len(),
    ensures
        rope_text(*final(r)) == rope_text(*old(r)).insert(char_idx as int, ch),
;

/// `Rope::insert` puts a text in front of the given index, which is at most
/// the length; beyond it the call panics.
pub assume_specification[ Rope::insert ](r: &mut Rope, char_idx: usize, text: &str)
    requires
        char_idx <= rope_text(*old(r)).len(),
    ensures
        rope_text(*final(r)) == rope_text(*old(r)).take(char_idx as int) + text@
            + rope_text(*old(r)).skip(char_idx as int),
;

/// `Clone::clone` of a rope shares its characters.
pub assume_specification[ <Rope as Clone>::clone ](r: &Rope) -> (c: Rope)
    ensures
        rope_text(c) == rope_text(*r),
;

/// Calls `Rope::remove` on the half-open range from `start` to `end`, which
/// takes those characters out; the call panics where the range is reversed
/// or ends beyond the length.
#[verifier::external_body]
pub(crate) fn rope_remove(r: &mut Rope, start: usize, end: usize)
    requires
        start <= end <= rope_text(*old(r)).len(),
    ensures
        rope_text(*final(r)) == rope_text(*old(r)).take(start as int) + rope_text(*old(r)).skip(
            end as int,
        ),
{
    r.remove(start..end)
}

/// Calls `String::from` on a rope, which copies its characters out.
#[verifier::external_body]
pub(crate) fn rope_to_string(r: &Rope) -> (s: String)
    ensures
        s@ == rope_text(*r),
{
    String::from(r)
}

} // verus!
