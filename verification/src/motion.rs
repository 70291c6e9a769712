//! Cursor motions: where each takes the cursor, and the motions themselves.
//!
//! A motion moves the cursor and changes nothing else. Applied, it commits
//! the move; evaluated, it tells where the move would end, for an operator
//! to work up to.

use vstd::prelude::*;
use crate::buffer::Buffer;
use crate::buffer_line::{blank_line_at, first_non_whitespace, lemma_row_target, row_target};
use crate::chars::{alphanumeric, whitespace};
use crate::named::Named;
use crate::text::{
    end_of_line_at, is_not, lemma_end_of_line, lemma_line_of_bound, lemma_skip_back_while,
    lemma_skip_while, line_count, line_of, line_start, skip_back_while, skip_while,
};

verus! {

/// A lexical class of characters. What is neither is of the third class.
#[derive(Clone, Copy, Debug, PartialEq, Eq, Structural)]
pub enum CharClass {
    Alnum,
    Space,
}

/// Whether `c` is of class `class`.
pub open spec fn of_class(c: char, class: CharClass) -> bool {
    match class {
        CharClass::Alnum => alphanumeric(c),
        CharClass::Space => whitespace(c),
    }
}

/// The test "is of class `class`", or its negation where `want` is false.
pub open spec fn in_class(class: CharClass, want: bool) -> spec_fn(char) -> bool {
    |c: char| of_class(c, class) == want
}

/// Where `word` takes the cursor: over the run of other characters that
/// the cursor stands on, or over the word it stands on and the whitespace
/// behind the word; never beyond the end of the line.
pub open spec fn word_target(s: Seq<char>, c: int) -> int {
    if c < 0 || c >= s.len() {
        c
    } else if !alphanumeric(s[c]) {
        skip_while(s, c, end_of_line_at(s, c), in_class(CharClass::Alnum, false))
    } else {
        skip_while(
            s,
            skip_while(s, c, end_of_line_at(s, c), in_class(CharClass::Alnum, true)),
            end_of_line_at(s, c),
            in_class(CharClass::Space, true),
        )
    }
}

/// Where `back` takes the cursor: to the start of the word before it. Other
/// characters before the cursor are passed over first, across lines too;
/// the word itself is not left for the line above.
pub open spec fn back_target(s: Seq<char>, c: int) -> int {
    if c <= 0 || c > s.len() {
        c
    } else if !alphanumeric(s[c - 1]) {
        let j = skip_back_while(s, c, 0, in_class(CharClass::Alnum, false));
        skip_back_while(s, j, line_start(s, j), in_class(CharClass::Alnum, true))
    } else {
        skip_back_while(s, c, 0, in_class(CharClass::Alnum, true))
    }
}

/// Where `end_of_word` takes the cursor: to the last character of the word
/// that the next character belongs to, or, where the next character is of
/// no word, to the last character of the next word on the line; to the end
/// of the line where no word follows.
pub open spec fn end_of_word_target(s: Seq<char>, c: int) -> int {
    if c < 0 || c + 1 >= s.len() || c >= end_of_line_at(s, c) {
        c
    } else if !alphanumeric(s[c + 1]) {
        let j = skip_while(s, c + 1, end_of_line_at(s, c), in_class(CharClass::Alnum, false));
        if alphanumeric(s[j]) {
            skip_while(s, j + 1, end_of_line_at(s, c) + 1, in_class(CharClass::Alnum, true)) - 1
        } else {
            j
        }
    } else {
        skip_while(s, c + 1, end_of_line_at(s, c) + 1, in_class(CharClass::Alnum, true)) - 1
    }
}

/// Where `find` takes the cursor: to the first `key` from the cursor to the
/// end of its line. Without such a character, or without a character for
/// a key, the cursor stays.
pub open spec fn find_target(s: Seq<char>, c: int, key: Option<char>) -> int {
    match key {
        Some(t) => if 0 <= c < s.len() && skip_while(s, c, end_of_line_at(s, c) + 1, is_not(t))
            <= end_of_line_at(s, c) {
            skip_while(s, c, end_of_line_at(s, c) + 1, is_not(t))
        } else {
            c
        },
        None => c,
    }
}

/// Where `find_until` takes the cursor: to the character before the first
/// `key` from the cursor to the end of its line, or nowhere where the
/// cursor stands on that `key`.
pub open spec fn find_until_target(s: Seq<char>, c: int, key: Option<char>) -> int {
    if find_target(s, c, key) > c {
        find_target(s, c, key) - 1
    } else {
        c
    }
}

/// Where `find_back` takes the cursor: to the last `key` from the start of
/// the cursor's line to the cursor.
pub open spec fn find_back_target(s: Seq<char>, c: int, key: Option<char>) -> int {
    match key {
        Some(t) => {
            let from = if c < s.len() {
                c + 1
            } else {
                c
            };
            if 0 <= c <= s.len() && skip_back_while(s, from, line_start(s, c), is_not(t))
                > line_start(s, c) {
                skip_back_while(s, from, line_start(s, c), is_not(t)) - 1
            } else {
                c
            }
        },
        None => c,
    }
}

/// Whether `c` is one of the six brackets.
pub open spec fn is_bracket(c: char) -> bool {
    c == '{' || c == '[' || c == '(' || c == ')' || c == ']' || c == '}'
}

/// Whether `c` is an opening bracket.
pub open spec fn opens(c: char) -> bool {
    c == '{' || c == '[' || c == '('
}

/// The bracket that closes or opens what `c` opens or closes.
pub open spec fn partner(c: char) -> char {
    if c == '{' {
        '}'
    } else if c == '[' {
        ']'
    } else if c == '(' {
        ')'
    } else if c == '}' {
        '{'
    } else if c == ']' {
        '['
    } else {
        '('
    }
}

/// The test "is no bracket".
pub open spec fn not_bracket() -> spec_fn(char) -> bool {
    |c: char| !is_bracket(c)
}

/// The offset of the `close` that matches an `open` before offset `i`,
/// where `depth` further `open`s have been met and not yet closed: the scan
/// goes forward from `i` to the end of the document.
pub open spec fn match_forward(s: Seq<char>, i: int, open: char, close: char, depth: nat) -> Option<
    int,
>
    decreases s.len() - i,
{
    if i < 0 || i >= s.len() {
        None
    } else if s[i] == open {
        match_forward(s, i + 1, open, close, depth + 1)
    } else if s[i] == close {
        if depth == 0 {
            Some(i)
        } else {
            match_forward(s, i + 1, open, close, (depth - 1) as nat)
        }
    } else {
        match_forward(s, i + 1, open, close, depth)
    }
}

/// The offset of the `open` that matches a `close` behind offset `i`: the
/// scan goes backward from `i` to the start of the document.
pub open spec fn match_backward(s: Seq<char>, i: int, close: char, open: char, depth: nat) -> Option<
    int,
>
    decreases i + 1,
{
    if i < 0 || i >= s.len() {
        None
    } else if s[i] == close {
        match_backward(s, i - 1, close, open, depth + 1)
    } else if s[i] == open {
        if depth == 0 {
            Some(i)
        } else {
            match_backward(s, i - 1, close, open, (depth - 1) as nat)
        }
    } else {
        match_backward(s, i - 1, close, open, depth)
    }
}

/// Where `next_corresponding_bracket` takes the cursor: to the bracket that
/// matches the first bracket from the cursor to the end of its line.
/// Without a bracket on the line, or without a match, the cursor stays.
pub open spec fn bracket_target(s: Seq<char>, c: int) -> int {
    if c < 0 || c >= s.len() {
        c
    } else {
        let b = skip_while(s, c, end_of_line_at(s, c), not_bracket());
        if !is_bracket(s[b]) {
            c
        } else {
            let found = if opens(s[b]) {
                match_forward(s, b + 1, s[b], partner(s[b]), 0)
            } else {
                match_backward(s, b - 1, s[b], partner(s[b]), 0)
            };
            match found {
                Some(j) => j,
                None => c,
            }
        }
    }
}

/// Where `next_row` takes the cursor: one line down, in its column or at
/// the end of a shorter line.
pub open spec fn next_row_target(s: Seq<char>, c: int) -> int {
    row_target(s, c, (line_of(s, c) + 1) as int)
}

/// Where `prev_row` takes the cursor: one line up, in its column or at the
/// end of a shorter line.
pub open spec fn prev_row_target(s: Seq<char>, c: int) -> int {
    if line_of(s, c) == 0 {
        c
    } else {
        row_target(s, c, line_of(s, c) - 1)
    }
}

/// The cursor after it went down, line by line, for as long as its line was
/// blank (`blank`) or not blank (`!blank`) and was not the last.
pub open spec fn walk_down(s: Seq<char>, c: int, blank: bool) -> int
    decreases line_count(s) - line_of(s, c),
{
    if c < 0 || c > s.len() || blank_line_at(s, line_start(s, c)) != blank || line_of(s, c) + 1
        >= line_count(s) {
        c
    } else {
        proof {
            lemma_row_target(s, c, (line_of(s, c) + 1) as int);
        }
        walk_down(s, next_row_target(s, c), blank)
    }
}

/// The cursor after it went up, line by line, for as long as its line was
/// blank (`blank`) or not blank (`!blank`) and was not the first.
pub open spec fn walk_up(s: Seq<char>, c: int, blank: bool) -> int
    decreases line_of(s, c),
{
    if c < 0 || c > s.len() || blank_line_at(s, line_start(s, c)) != blank || line_of(s, c)
        == 0 {
        c
    } else {
        proof {
            lemma_line_of_bound(s, c);
            lemma_row_target(s, c, line_of(s, c) - 1);
        }
        walk_up(s, prev_row_target(s, c), blank)
    }
}

/// Where `next_newline` takes the cursor: down over the blank lines it
/// stands on, then over the lines that are not blank, to the next blank
/// line or the last line.
pub open spec fn next_newline_target(s: Seq<char>, c: int) -> int {
    walk_down(s, walk_down(s, c, true), false)
}

/// Where `prev_newline` takes the cursor: up over the blank lines it stands
/// on, then over the lines that are not blank, to the blank line above or
/// the first line.
pub open spec fn prev_newline_target(s: Seq<char>, c: int) -> int {
    walk_up(s, walk_up(s, c, true), false)
}

/// The offset at which a scan from `from` over a run of characters of one
/// class stops.
pub fn scan_forward(buffer: &Buffer, from: usize, limit: usize, class: CharClass, want: bool) -> (r:
    usize)
    requires
        from <= limit <= buffer.text().len(),
    ensures
        r == skip_while(buffer.text(), from as int, limit as int, in_class(class, want)),
        from <= r <= limit,
        r < limit ==> of_class(buffer.text()[r as int], class) != want,
{
    let mut idx = from;
    proof {
        lemma_skip_while(buffer.text(), from as int, limit as int, in_class(class, want));
    }
    while idx < limit && char_of_class(buffer.rope.char(idx), class) == want
        invariant
            from <= idx <= limit <= buffer.text().len(),
            skip_while(buffer.text(), idx as int, limit as int, in_class(class, want))
                == skip_while(buffer.text(), from as int, limit as int, in_class(class, want)),
        decreases limit - idx,
    {
        idx += 1;
    }
    idx
}

/// The offset at which a backward scan from `from` over a run of characters
/// of one class stops.
pub fn scan_backward(buffer: &Buffer, from: usize, floor: usize, class: CharClass, want: bool) -> (r:
    usize)
    requires
        floor <= from <= buffer.text().len(),
    ensures
        r == skip_back_while(buffer.text(), from as int, floor as int, in_class(class, want)),
        floor <= r <= from,
{
    let mut idx = from;
    proof {
        lemma_skip_back_while(buffer.text(), from as int, floor as int, in_class(class, want));
    }
    while idx > floor && char_of_class(buffer.rope.char(idx - 1), class) == want
        invariant
            floor <= idx <= from <= buffer.text().len(),
            skip_back_while(buffer.text(), idx as int, floor as int, in_class(class, want))
                == skip_back_while(
                buffer.text(),
                from as int,
                floor as int,
                in_class(class, want),
            ),
        decreases idx,
    {
        idx -= 1;
    }
    idx
}

/// Whether `c` is of class `class`.
pub fn char_of_class(c: char, class: CharClass) -> (r: bool)
    ensures
        r == of_class(c, class),
{
    match class {
        CharClass::Alnum => c.is_alphanumeric(),
        CharClass::Space => c.is_whitespace(),
    }
}

/// Whether `c` is one of the six brackets.
pub fn char_is_bracket(c: char) -> (r: bool)
    ensures
        r == is_bracket(c),
{
    c == '{' || c == '[' || c == '(' || c == ')' || c == ']' || c == '}'
}

/// Moves the cursor one character back.
pub fn prev_char(buffer: &mut Buffer)
    requires
        old(buffer).cursor_ok(),
    ensures
        final(buffer).moved_from(*old(buffer)),
        final(buffer).cursor == if old(buffer).cursor > 0 {
            old(buffer).cursor - 1
        } else {
            0
        },
{
    buffer.prev_char();
}

/// Moves the cursor one character on.
pub fn next_char(buffer: &mut Buffer)
    requires
        old(buffer).cursor_ok(),
    ensures
        final(buffer).moved_from(*old(buffer)),
        final(buffer).cursor == if old(buffer).cursor < old(buffer).text().len() {
            old(buffer).cursor + 1
        } else {
            old(buffer).cursor as int
        },
{
    buffer.next_char();
}

/// Moves the cursor one line down, unless it stands on the last.
pub fn next_row(buffer: &mut Buffer)
    requires
        old(buffer).cursor_ok(),
    ensures
        final(buffer).moved_from(*old(buffer)),
        final(buffer).cursor == next_row_target(old(buffer).text(), old(buffer).cursor as int),
{
    if buffer.is_last_row() {
        return ;
    }
    buffer.next_line();
}

/// Moves the cursor one line up, unless it stands on the first.
pub fn prev_row(buffer: &mut Buffer)
    requires
        old(buffer).cursor_ok(),
    ensures
        final(buffer).moved_from(*old(buffer)),
        final(buffer).cursor == prev_row_target(old(buffer).text(), old(buffer).cursor as int),
{
    if buffer.get_row() == 0 {
        return ;
    }
    buffer.prev_line();
}

/// Moves the cursor to the start of the next word on its line.
pub fn word(buffer: &mut Buffer)
    requires
        old(buffer).cursor_ok(),
    ensures
        final(buffer).moved_from(*old(buffer)),
        final(buffer).cursor == word_target(old(buffer).text(), old(buffer).cursor as int),
{
    if buffer.cursor >= buffer.rope.len_chars() {
        return ;
    }
    proof {
        lemma_end_of_line(buffer.text(), buffer.cursor as int);
    }
    let last_legal_char = buffer.get_end_of_line();
    let at = buffer.cursor;
    if !buffer.get_curr_char().is_alphanumeric() {
        buffer.cursor = scan_forward(buffer, at, last_legal_char, CharClass::Alnum, false);
    } else {
        let end = scan_forward(buffer, at, last_legal_char, CharClass::Alnum, true);
        buffer.cursor = scan_forward(buffer, end, last_legal_char, CharClass::Space, true);
    }
}

/// Moves the cursor back to the start of the word before it.
pub fn back(buffer: &mut Buffer)
    requires
        old(buffer).cursor_ok(),
    ensures
        final(buffer).moved_from(*old(buffer)),
        final(buffer).cursor == back_target(old(buffer).text(), old(buffer).cursor as int),
{
    if buffer.cursor == 0 {
        return ;
    }
    let at = buffer.cursor;
    let prev_char = buffer.rope.char(at - 1);
    if !prev_char.is_alphanumeric() {
        let end = scan_backward(buffer, at, 0, CharClass::Alnum, false);
        let floor = buffer.get_start_of_char_line(end);
        buffer.cursor = scan_backward(buffer, end, floor, CharClass::Alnum, true);
    } else {
        buffer.cursor = scan_backward(buffer, at, 0, CharClass::Alnum, true);
    }
}

/// Moves the cursor to the last character of the word ahead.
pub fn end_of_word(buffer: &mut Buffer)
    requires
        old(buffer).cursor_ok(),
    ensures
        final(buffer).moved_from(*old(buffer)),
        final(buffer).cursor == end_of_word_target(
            old(buffer).text(),
            old(buffer).cursor as int,
        ),
{
    let len = buffer.rope.len_chars();
    let at = buffer.cursor;
    if at >= len || len - at <= 1 {
        return ;
    }
    let next_char = buffer.rope.char(at + 1);
    proof {
        lemma_end_of_line(buffer.text(), at as int);
    }
    let last_legal_char = buffer.get_end_of_line();
    if at >= last_legal_char {
        return ;
    }
    if !next_char.is_alphanumeric() {
        let start = scan_forward(buffer, at + 1, last_legal_char, CharClass::Alnum, false);
        if buffer.rope.char(start).is_alphanumeric() {
            buffer.cursor = scan_forward(
                buffer,
                start + 1,
                last_legal_char + 1,
                CharClass::Alnum,
                true,
            ) - 1;
        } else {
            buffer.cursor = start;
        }
    } else {
        buffer.cursor = scan_forward(buffer, at + 1, last_legal_char + 1, CharClass::Alnum, true)
            - 1;
    }
}

/// Moves the cursor to the end of its line.
pub fn end_of_line(buffer: &mut Buffer)
    requires
        old(buffer).cursor_ok(),
    ensures
        final(buffer).moved_from(*old(buffer)),
        final(buffer).cursor == end_of_line_at(old(buffer).text(), old(buffer).cursor as int),
{
    buffer.end_of_line();
}

/// Moves the cursor to the first character of its line that is not
/// whitespace.
pub fn beginning_of_line(buffer: &mut Buffer)
    requires
        old(buffer).cursor_ok(),
    ensures
        final(buffer).moved_from(*old(buffer)),
        final(buffer).cursor == first_non_whitespace(
            old(buffer).text(),
            old(buffer).cursor as int,
        ),
{
    let col = buffer.first_non_whitespace_col();
    buffer.set_col(col);
}

/// Moves the cursor forward to `key` on its line. `key` is the key that was
/// read next, where that key is a character.
pub fn find(buffer: &mut Buffer, key: Option<char>)
    requires
        old(buffer).cursor_ok(),
    ensures
        final(buffer).moved_from(*old(buffer)),
        final(buffer).cursor == find_target(old(buffer).text(), old(buffer).cursor as int, key),
        final(buffer).cursor >= old(buffer).cursor,
{
    if let Some(target) = key {
        if buffer.cursor >= buffer.rope.len_chars() {
            return ;
        }
        proof {
            lemma_end_of_line(buffer.text(), buffer.cursor as int);
            lemma_skip_while(
                buffer.text(),
                buffer.cursor as int,
                end_of_line_at(buffer.text(), buffer.cursor as int) + 1,
                is_not(target),
            );
        }
        let end = buffer.get_end_of_line();
        let len = buffer.rope.len_chars();
        let mut idx = buffer.cursor;
        while idx <= end && buffer.rope.char(idx) != target
            invariant
                buffer.cursor <= idx <= end + 1,
                end < buffer.text().len(),
                len == buffer.text().len(),
                skip_while(buffer.text(), idx as int, end + 1, is_not(target)) == skip_while(
                    buffer.text(),
                    buffer.cursor as int,
                    end + 1,
                    is_not(target),
                ),
            decreases end + 1 - idx,
        {
            idx += 1;
        }
        if idx <= end {
            buffer.cursor = idx;
        }
    }
}

/// Moves the cursor forward to the character before `key` on its line.
pub fn find_until(buffer: &mut Buffer, key: Option<char>)
    requires
        old(buffer).cursor_ok(),
    ensures
        final(buffer).moved_from(*old(buffer)),
        final(buffer).cursor == find_until_target(
            old(buffer).text(),
            old(buffer).cursor as int,
            key,
        ),
{
    let anchor = buffer.cursor;
    find(buffer, key);
    if buffer.cursor > anchor {
        buffer.cursor -= 1;
    }
}

/// Moves the cursor backward to `key` on its line.
pub fn find_back(buffer: &mut Buffer, key: Option<char>)
    requires
        old(buffer).cursor_ok(),
    ensures
        final(buffer).moved_from(*old(buffer)),
        final(buffer).cursor == find_back_target(
            old(buffer).text(),
            old(buffer).cursor as int,
            key,
        ),
{
    if let Some(target) = key {
        let floor = buffer.get_start_of_line();
        let from = if buffer.cursor < buffer.rope.len_chars() {
            buffer.cursor + 1
        } else {
            buffer.cursor
        };
        proof {
            lemma_skip_back_while(buffer.text(), from as int, floor as int, is_not(target));
        }
        let mut idx = from;
        while idx > floor && buffer.rope.char(idx - 1) != target
            invariant
                floor <= idx <= from <= buffer.text().len(),
                skip_back_while(buffer.text(), idx as int, floor as int, is_not(target))
                    == skip_back_while(
                    buffer.text(),
                    from as int,
                    floor as int,
                    is_not(target),
                ),
            decreases idx,
        {
            idx -= 1;
        }
        if idx > floor {
            buffer.cursor = idx - 1;
        }
    }
}

/// Moves the cursor to the bracket that matches the next bracket on its
/// line, the character under the cursor included.
pub fn next_corresponding_bracket(buffer: &mut Buffer)
    requires
        old(buffer).cursor_ok(),
    ensures
        final(buffer).moved_from(*old(buffer)),
        final(buffer).cursor == bracket_target(old(buffer).text(), old(buffer).cursor as int),
{
    let len = buffer.rope.len_chars();
    if buffer.cursor >= len {
        return ;
    }
    let ghost s = buffer.text();
    proof {
        lemma_end_of_line(s, buffer.cursor as int);
        lemma_skip_while(
            s,
            buffer.cursor as int,
            end_of_line_at(s, buffer.cursor as int),
            not_bracket(),
        );
    }
    let end_of_line = buffer.get_end_of_line();
    let mut at = buffer.cursor;
    while at < end_of_line && !char_is_bracket(buffer.rope.char(at))
        invariant
            buffer.cursor <= at <= end_of_line < len,
            len == s.len(),
            s == buffer.text(),
            skip_while(s, at as int, end_of_line as int, not_bracket()) == skip_while(
                s,
                buffer.cursor as int,
                end_of_line as int,
                not_bracket(),
            ),
        decreases end_of_line - at,
    {
        at += 1;
    }
    let start_character = buffer.rope.char(at);
    if !char_is_bracket(start_character) {
        return ;
    }
    let (search_character, forward): (char, bool) = if start_character == '{' {
        ('}', true)
    } else if start_character == '[' {
        (']', true)
    } else if start_character == '(' {
        (')', true)
    } else if start_character == '}' {
        ('{', false)
    } else if start_character == ']' {
        ('[', false)
    } else {
        ('(', false)
    };
    let mut count: usize = 0;
    let mut idx = at;
    let ghost target = if forward {
        match_forward(s, at + 1, start_character, search_character, 0)
    } else {
        match_backward(s, at - 1, start_character, search_character, 0)
    };
    assert(bracket_target(s, buffer.cursor as int) == match target {
        Some(j) => j,
        None => buffer.cursor as int,
    });
    if forward {
        while len - idx > 1
            invariant
                at <= idx < len,
                len == s.len(),
                s == buffer.text(),
                buffer.cursor == old(buffer).cursor,
                buffer.rope == old(buffer).rope,
                buffer.lines_for_updating == old(buffer).lines_for_updating,
                buffer.has_changed == old(buffer).has_changed,
                count <= idx - at,
                start_character != search_character,
                bracket_target(s, old(buffer).cursor as int) == match target {
                    Some(j) => j,
                    None => old(buffer).cursor as int,
                },
                target == match_forward(s, at + 1, start_character, search_character, 0),
                match_forward(s, at + 1, start_character, search_character, 0) == match_forward(
                    s,
                    idx + 1,
                    start_character,
                    search_character,
                    count as nat,
                ),
            decreases len - idx,
        {
            idx += 1;
            let c = buffer.rope.char(idx);
            if c == start_character {
                count += 1;
            } else if c == search_character {
                if count == 0 {
                    buffer.cursor = idx;
                    return ;
                }
                count -= 1;
            }
        }
    } else {
        while idx > 0
            invariant
                idx <= at < len,
                len == s.len(),
                s == buffer.text(),
                buffer.cursor == old(buffer).cursor,
                buffer.rope == old(buffer).rope,
                buffer.lines_for_updating == old(buffer).lines_for_updating,
                buffer.has_changed == old(buffer).has_changed,
                count <= at - idx,
                start_character != search_character,
                bracket_target(s, old(buffer).cursor as int) == match target {
                    Some(j) => j,
                    None => old(buffer).cursor as int,
                },
                target == match_backward(s, at - 1, start_character, search_character, 0),
                match_backward(s, at - 1, start_character, search_character, 0)
                    == match_backward(
                    s,
                    idx - 1,
                    start_character,
                    search_character,
                    count as nat,
                ),
            decreases idx,
        {
            idx -= 1;
            let c = buffer.rope.char(idx);
            if c == start_character {
                count += 1;
            } else if c == search_character {
                if count == 0 {
                    buffer.cursor = idx;
                    return ;
                }
                count -= 1;
            }
        }
    }
}

/// Moves the cursor down to the next blank line behind a line that is not
/// blank.
pub fn next_newline(buffer: &mut Buffer)
    requires
        old(buffer).cursor_ok(),
    ensures
        final(buffer).moved_from(*old(buffer)),
        final(buffer).cursor == next_newline_target(
            old(buffer).text(),
            old(buffer).cursor as int,
        ),
{
    walk_rows(buffer, true, true);
    walk_rows(buffer, true, false);
}

/// Moves the cursor up to the next blank line above a line that is not
/// blank.
pub fn prev_newline(buffer: &mut Buffer)
    requires
        old(buffer).cursor_ok(),
    ensures
        final(buffer).moved_from(*old(buffer)),
        final(buffer).cursor == prev_newline_target(
            old(buffer).text(),
            old(buffer).cursor as int,
        ),
{
    walk_rows(buffer, false, true);
    walk_rows(buffer, false, false);
}

/// Moves the cursor line by line, down or up, for as long as its line is
/// blank (`blank`) or not blank (`!blank`) and another line follows.
pub fn walk_rows(buffer: &mut Buffer, down: bool, blank: bool)
    requires
        old(buffer).cursor_ok(),
    ensures
        final(buffer).moved_from(*old(buffer)),
        final(buffer).cursor == if down {
            walk_down(old(buffer).text(), old(buffer).cursor as int, blank)
        } else {
            walk_up(old(buffer).text(), old(buffer).cursor as int, blank)
        },
{
    let ghost s = buffer.text();
    let ghost c0 = buffer.cursor as int;
    while buffer.is_empty_line() == blank
        invariant
            buffer.moved_from(*old(buffer)),
            s == buffer.text(),
            c0 == old(buffer).cursor,
            down ==> walk_down(s, c0, blank) == walk_down(s, buffer.cursor as int, blank),
            !down ==> walk_up(s, c0, blank) == walk_up(s, buffer.cursor as int, blank),
        decreases
            if down {
                line_count(s) - line_of(s, buffer.cursor as int)
            } else {
                line_of(s, buffer.cursor as int) as int
            },
    {
        proof {
            lemma_line_of_bound(s, buffer.cursor as int);
        }
        if down {
            if buffer.is_last_row() {
                return ;
            }
            proof {
                lemma_row_target(s, buffer.cursor as int, (line_of(s, buffer.cursor as int) + 1) as int);
            }
            next_row(buffer);
        } else {
            if buffer.is_first_row() {
                return ;
            }
            proof {
                lemma_row_target(s, buffer.cursor as int, line_of(s, buffer.cursor as int) - 1);
            }
            prev_row(buffer);
        }
    }
}

/// The rule by which a motion moves the cursor.
#[derive(Clone, Copy, Debug, PartialEq, Eq, Structural)]
pub enum MotionKind {
    PrevChar,
    NextRow,
    PrevRow,
    NextChar,
    Word,
    Back,
    EndOfWord,
    EndOfLine,
    BeginningOfLine,
    Find,
    FindBack,
    FindUntil,
    NextCorrespondingBracket,
    NextNewline,
    PrevNewline,
}

/// Whether a motion of this kind waits for one more key before it moves.
pub open spec fn needs_key(kind: MotionKind) -> bool {
    kind == MotionKind::Find || kind == MotionKind::FindBack || kind == MotionKind::FindUntil
}

/// Where a motion of kind `kind` takes the cursor from offset `c` of the
/// document `s`. `key` is the character that was read for a motion that
/// waits for one.
pub open spec fn motion_target(kind: MotionKind, s: Seq<char>, c: int, key: Option<char>) -> int {
    match kind {
        MotionKind::PrevChar => if c > 0 {
            c - 1
        } else {
            0
        },
        MotionKind::NextRow => next_row_target(s, c),
        MotionKind::PrevRow => prev_row_target(s, c),
        MotionKind::NextChar => if c < s.len() {
            c + 1
        } else {
            c
        },
        MotionKind::Word => word_target(s, c),
        MotionKind::Back => back_target(s, c),
        MotionKind::EndOfWord => end_of_word_target(s, c),
        MotionKind::EndOfLine => end_of_line_at(s, c),
        MotionKind::BeginningOfLine => first_non_whitespace(s, c),
        MotionKind::Find => find_target(s, c, key),
        MotionKind::FindBack => find_back_target(s, c, key),
        MotionKind::FindUntil => find_until_target(s, c, key),
        MotionKind::NextCorrespondingBracket => bracket_target(s, c),
        MotionKind::NextNewline => next_newline_target(s, c),
        MotionKind::PrevNewline => prev_newline_target(s, c),
    }
}

/// A named motion. An inclusive motion makes the character it lands on part
/// of the range that an operator works on; an exclusive one leaves it out.
pub struct Motion<'a> {
    pub name: &'a str,
    pub command: MotionKind,
    pub inclusive: bool,
}

impl<'a> Motion<'a> {
    /// A motion whose landing character is no part of an operated range.
    pub fn exclusive(name: &'a str, command: MotionKind) -> (m: Self)
        ensures
            m.name == name,
            m.command == command,
            !m.inclusive,
    {
        Self { name, command, inclusive: false }
    }

    /// A motion whose landing character is part of an operated range.
    pub fn inclusive(name: &'a str, command: MotionKind) -> (m: Self)
        ensures
            m.name == name,
            m.command == command,
            m.inclusive,
    {
        Self { name, command, inclusive: true }
    }

    /// Whether the motion waits for one more key before it moves.
    pub fn needs_key(&self) -> (r: bool)
        ensures
            r == needs_key(self.command),
    {
        match self.command {
            MotionKind::Find | MotionKind::FindBack | MotionKind::FindUntil => true,
            _ => false,
        }
    }

    /// Moves the cursor of `buffer` as the motion says.
    pub fn apply(&self, buffer: &mut Buffer, key: Option<char>)
        requires
            old(buffer).cursor_ok(),
        ensures
            final(buffer).moved_from(*old(buffer)),
            final(buffer).cursor == motion_target(
                self.command,
                old(buffer).text(),
                old(buffer).cursor as int,
                key,
            ),
    {
        match self.command {
            MotionKind::PrevChar => prev_char(buffer),
            MotionKind::NextRow => next_row(buffer),
            MotionKind::PrevRow => prev_row(buffer),
            MotionKind::NextChar => next_char(buffer),
            MotionKind::Word => word(buffer),
            MotionKind::Back => back(buffer),
            MotionKind::EndOfWord => end_of_word(buffer),
            MotionKind::EndOfLine => end_of_line(buffer),
            MotionKind::BeginningOfLine => beginning_of_line(buffer),
            MotionKind::Find => find(buffer, key),
            MotionKind::FindBack => find_back(buffer, key),
            MotionKind::FindUntil => find_until(buffer, key),
            MotionKind::NextCorrespondingBracket => next_corresponding_bracket(buffer),
            MotionKind::NextNewline => next_newline(buffer),
            MotionKind::PrevNewline => prev_newline(buffer),
        }
    }

    /// Where the motion would take the cursor of `buffer`, which it leaves
    /// as it is: the move is made on a copy that shares the document.
    pub fn evaluate(&self, buffer: &Buffer, key: Option<char>) -> (end: usize)
        requires
            buffer.cursor_ok(),
        ensures
            end == motion_target(self.command, buffer.text(), buffer.cursor as int, key),
            end <= buffer.text().len(),
    {
        let mut fake_buffer = buffer.clone();
        self.apply(&mut fake_buffer, key);
        fake_buffer.cursor
    }
}

impl<'a> Named for Motion<'a> {
    open spec fn name_view(&self) -> Seq<char> {
        self.name@
    }

    fn entry_name(&self) -> (name: &str) {
        self.name
    }
}

} // verus!
