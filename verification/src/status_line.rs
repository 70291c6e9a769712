//! The text of the status line at the foot of the screen.

use vstd::prelude::*;
use vstd::string::{StrSliceExecFns, StringExecFns};
use crate::mode::Mode;
use crate::status_bar::StatusBar;
use crate::text::repeat;

verus! {

/// The character of the decimal digit `d`.
pub open spec fn digit_char(d: nat) -> char {
    if d == 0 {
        '0'
    } else if d == 1 {
        '1'
    } else if d == 2 {
        '2'
    } else if d == 3 {
        '3'
    } else if d == 4 {
        '4'
    } else if d == 5 {
        '5'
    } else if d == 6 {
        '6'
    } else if d == 7 {
        '7'
    } else if d == 8 {
        '8'
    } else {
        '9'
    }
}

/// `n` written in base ten.
pub open spec fn decimal(n: nat) -> Seq<char>
    decreases n,
{
    if n < 10 {
        seq![digit_char(n)]
    } else {
        decimal(n / 10).push(digit_char(n % 10))
    }
}

/// The count as the status line shows it: nothing for a count of 1.
pub open spec fn count_text(count: nat) -> Seq<char> {
    if count == 1 {
        Seq::<char>::empty()
    } else {
        decimal(count)
    }
}

/// The register as the status line shows it: nothing for the register that
/// the double quote names.
pub open spec fn register_text(register: char) -> Seq<char> {
    if register == '"' {
        Seq::<char>::empty()
    } else {
        seq!['"', register]
    }
}

/// `o`, or the empty text where there is none.
pub open spec fn or_empty(o: Option<Seq<char>>) -> Seq<char> {
    match o {
        Some(s) => s,
        None => Seq::<char>::empty(),
    }
}

/// The status line of normal mode for a buffer with a file: the file's name
/// and size, the register, the count and the chord, and, at the right end
/// of a line of `width` columns, the revision.
pub open spec fn file_status(
    path: Seq<char>,
    file_size: nat,
    count: nat,
    register: char,
    chained: Seq<char>,
    git_hash: Seq<char>,
    width: nat,
) -> Seq<char> {
    let left = "Editing File: "@ + seq!['"'] + path + seq!['"', ' '] + decimal(file_size)
        + seq!['b', ' '] + register_text(register) + count_text(count) + seq![' '] + chained;
    let used = left.len() + git_hash.len();
    left + repeat(
        ' ',
        if used <= width {
            (width - used) as nat
        } else {
            0
        },
    ) + git_hash
}

/// The text of the status line.
pub open spec fn status_message(
    mode: Mode,
    bar: Seq<char>,
    path: Option<Seq<char>>,
    file_size: nat,
    count: nat,
    register: char,
    chained: Seq<char>,
    git_hash: Option<Seq<char>>,
    width: nat,
) -> Seq<char> {
    match mode {
        Mode::Meta => bar,
        Mode::Normal => match path {
            Some(p) => file_status(
                p,
                file_size,
                count,
                register,
                chained,
                or_empty(git_hash),
                width,
            ),
            None => "-- Unattached Buffer -- "@ + count_text(count) + register_text(register)
                + chained,
        },
        Mode::Insert => "-- INSERT --"@,
        Mode::Visual => "-- VISUAL --"@,
    }
}

/// The character of the decimal digit `d`.
fn digit(d: usize) -> (c: char)
    requires
        d <= 9,
    ensures
        c == digit_char(d as nat),
{
    if d == 0 {
        '0'
    } else if d == 1 {
        '1'
    } else if d == 2 {
        '2'
    } else if d == 3 {
        '3'
    } else if d == 4 {
        '4'
    } else if d == 5 {
        '5'
    } else if d == 6 {
        '6'
    } else if d == 7 {
        '7'
    } else if d == 8 {
        '8'
    } else {
        '9'
    }
}

/// Appends `n` in base ten to `out`.
pub fn push_decimal(out: &mut String, n: usize)
    ensures
        final(out)@ == old(out)@ + decimal(n as nat),
    decreases n,
{
    if n < 10 {
        out.push(digit(n));
        assert(out@ =~= old(out)@ + decimal(n as nat));
    } else {
        push_decimal(out, n / 10);
        out.push(digit(n % 10));
        assert(out@ =~= old(out)@ + decimal(n as nat));
    }
}

/// Appends the characters of `chars` to `out`.
pub fn push_chars(out: &mut String, chars: &[char])
    ensures
        final(out)@ == old(out)@ + chars@,
{
    let mut i: usize = 0;
    assert(out@ =~= old(out)@ + chars@.take(0));
    while i < chars.len()
        invariant
            i <= chars@.len(),
            out@ == old(out)@ + chars@.take(i as int),
        decreases chars@.len() - i,
    {
        out.push(chars[i]);
        i += 1;
        assert(out@ =~= old(out)@ + chars@.take(i as int));
    }
    assert(chars@.take(i as int) =~= chars@);
}

/// Appends `n` copies of `c` to `out`.
pub fn push_repeated(out: &mut String, c: char, n: usize)
    ensures
        final(out)@ == old(out)@ + repeat(c, n as nat),
{
    let mut i: usize = 0;
    assert(out@ =~= old(out)@ + repeat(c, 0));
    while i < n
        invariant
            i <= n,
            out@ == old(out)@ + repeat(c, i as nat),
        decreases n - i,
    {
        out.push(c);
        i += 1;
        assert(out@ =~= old(out)@ + repeat(c, i as nat));
    }
}

/// Appends the count and the register as the status line shows them, the
/// count first or the register first.
fn push_count_and_register(out: &mut String, count: u16, register: char, count_first: bool)
    ensures
        final(out)@ == old(out)@ + if count_first {
            count_text(count as nat) + register_text(register)
        } else {
            register_text(register) + count_text(count as nat)
        },
{
    if count_first && count != 1 {
        push_decimal(out, count as usize);
    }
    if register != '"' {
        out.push('"');
        out.push(register);
    }
    if !count_first && count != 1 {
        push_decimal(out, count as usize);
    }
    assert(out@ =~= old(out)@ + if count_first {
        count_text(count as nat) + register_text(register)
    } else {
        register_text(register) + count_text(count as nat)
    });
}

/// The text of the status line: the command line in meta mode, the name of
/// the mode in insert and visual mode, and in normal mode what is known of
/// the file and of the pending chord. `file_size` is the size of the file
/// in bytes, `width` the number of columns of the screen.
pub fn status_line(
    mode: Mode,
    status_bar: &StatusBar,
    path: Option<&str>,
    file_size: usize,
    count: u16,
    register: char,
    chained: &[char],
    git_hash: Option<&str>,
    width: u16,
) -> (line: String)
    ensures
        line@ == status_message(
            mode,
            status_bar@,
            match path {
                Some(p) => Some(p@),
                None => None,
            },
            file_size as nat,
            count as nat,
            register,
            chained@,
            match git_hash {
                Some(h) => Some(h@),
                None => None,
            },
            width as nat,
        ),
{
    match mode {
        Mode::Meta => status_bar.buffer(),
        Mode::Insert => String::from_str("-- INSERT --"),
        Mode::Visual => String::from_str("-- VISUAL --"),
        Mode::Normal => match path {
            None => {
                let mut line = String::from_str("-- Unattached Buffer -- ");
                push_count_and_register(&mut line, count, register, true);
                push_chars(&mut line, chained);
                assert(line@ =~= "-- Unattached Buffer -- "@ + count_text(count as nat)
                    + register_text(register) + chained@);
                line
            },
            Some(p) => {
                let hash = match git_hash {
                    Some(h) => h,
                    None => "",
                };
                proof {
                    reveal_strlit("");
                }
                let mut line = String::from_str("Editing File: ");
                line.push('"');
                line.append(p);
                line.push('"');
                line.push(' ');
                push_decimal(&mut line, file_size);
                line.push('b');
                line.push(' ');
                push_count_and_register(&mut line, count, register, false);
                line.push(' ');
                push_chars(&mut line, chained);
                let ghost left = line@;
                assert(left =~= "Editing File: "@ + seq!['"'] + p@ + seq!['"', ' '] + decimal(
                    file_size as nat,
                ) + seq!['b', ' '] + register_text(register) + count_text(count as nat) + seq![
                    ' ',
                ] + chained@);
                let used_left = line.as_str().unicode_len();
                let used_right = hash.unicode_len();
                let width = width as usize;
                let padding = if used_left <= width && used_right <= width - used_left {
                    width - used_left - used_right
                } else {
                    0
                };
                push_repeated(&mut line, ' ', padding);
                line.append(hash);
                line
            },
        },
    }
}

} // verus!
