//! The mathematical model of a document: a sequence of characters, cut into
//! lines by line feeds.

use vstd::prelude::*;

verus! {

/// The number of line feeds in `s`.
pub open spec fn count_lf(s: Seq<char>) -> nat
    decreases s.len(),
{
    if s.len() == 0 {
        0
    } else {
        count_lf(s.drop_last()) + if s.last() == '\n' { 1nat } else { 0nat }
    }
}

/// The number of lines of a document: one more than its line feeds, so an
/// empty document has one empty line.
pub open spec fn line_count(s: Seq<char>) -> nat {
    count_lf(s) + 1
}

/// The index of the line that holds offset `i`: the line feeds before `i`.
pub open spec fn line_of(s: Seq<char>, i: int) -> nat {
    count_lf(s.take(i))
}

/// Whether a line begins at offset `i`: at the start of the document, or
/// right behind a line feed.
pub open spec fn is_line_start(s: Seq<char>, i: int) -> bool {
    0 <= i <= s.len() && (i == 0 || s[i - 1] == '\n')
}

/// The offset at which line `n` begins.
pub open spec fn nth_line_start(s: Seq<char>, n: int) -> int {
    choose|i: int| is_line_start(s, i) && line_of(s, i) == n
}

/// The offset at which the line that holds offset `i` begins: the nearest
/// line start at or before `i`.
pub open spec fn line_start(s: Seq<char>, i: int) -> int
    decreases i,
{
    if i <= 0 {
        0
    } else if s[i - 1] == '\n' {
        i
    } else {
        line_start(s, i - 1)
    }
}

/// Where a line that is read from offset `i` ends: the first offset at or
/// after `i` that holds a line feed or is the last of the document. On an
/// empty last line this is `i` itself, the length of the document.
pub open spec fn line_stop(s: Seq<char>, i: int) -> int
    decreases s.len() - i,
{
    if i + 1 >= s.len() || s[i] == '\n' {
        i
    } else {
        line_stop(s, i + 1)
    }
}

/// The end of the line that holds offset `i`.
pub open spec fn end_of_line_at(s: Seq<char>, i: int) -> int {
    line_stop(s, line_start(s, i))
}

/// The first offset `j >= i` with `j >= limit` or a character at `j` that
/// fails `p`: where a forward scan over a run of `p` stops.
pub open spec fn skip_while(s: Seq<char>, i: int, limit: int, p: spec_fn(char) -> bool) -> int
    decreases limit - i,
{
    if i >= limit || !p(s[i]) {
        i
    } else {
        skip_while(s, i + 1, limit, p)
    }
}

/// The last offset `j <= i` with `j <= floor` or a character before `j` that
/// fails `p`: where a backward scan over a run of `p` stops.
pub open spec fn skip_back_while(s: Seq<char>, i: int, floor: int, p: spec_fn(char) -> bool) -> int
    decreases i - floor,
{
    if i <= floor || !p(s[i - 1]) {
        i
    } else {
        skip_back_while(s, i - 1, floor, p)
    }
}

/// The test "is not the character `c`".
pub open spec fn is_not(c: char) -> spec_fn(char) -> bool {
    |x: char| x != c
}

/// The offset of the line feed that ends the line read from offset `i`, or
/// the length of the document where none follows.
pub open spec fn line_end(s: Seq<char>, i: int) -> int {
    skip_while(s, i, s.len() as int, is_not('\n'))
}

/// One past the last character of the line read from offset `i`, its line
/// feed included.
pub open spec fn line_limit(s: Seq<char>, i: int) -> int {
    if line_end(s, i) < s.len() {
        line_end(s, i) + 1
    } else {
        s.len() as int
    }
}

/// The line that holds offset `i`, with its line feed if it has one.
pub open spec fn line_text(s: Seq<char>, i: int) -> Seq<char> {
    s.subrange(line_start(s, i), line_limit(s, line_start(s, i)))
}

/// `n` copies of `c`.
pub open spec fn repeat(c: char, n: nat) -> Seq<char> {
    Seq::new(n, |i: int| c)
}

/// `s` with `t` put in front of offset `i`.
pub open spec fn splice_in(s: Seq<char>, i: int, t: Seq<char>) -> Seq<char> {
    s.take(i) + t + s.skip(i)
}

/// `s` without the characters from offset `i` up to, not including, `j`.
pub open spec fn cut_out(s: Seq<char>, i: int, j: int) -> Seq<char> {
    s.take(i) + s.skip(j)
}

/// The line feeds of two texts joined are those of the one and of the
/// other.
pub proof fn lemma_count_lf_concat(a: Seq<char>, b: Seq<char>)
    ensures
        count_lf(a + b) == count_lf(a) + count_lf(b),
    decreases b.len(),
{
    if b.len() == 0 {
        assert(a + b =~= a);
    } else {
        assert((a + b).drop_last() =~= a + b.drop_last());
        assert((a + b).last() == b.last());
        lemma_count_lf_concat(a, b.drop_last());
    }
}

/// A text without a line feed counts none.
pub proof fn lemma_count_lf_none(s: Seq<char>)
    requires
        forall|k: int| 0 <= k < s.len() ==> s[k] != '\n',
    ensures
        count_lf(s) == 0,
    decreases s.len(),
{
    if s.len() > 0 {
        lemma_count_lf_none(s.drop_last());
    }
}

/// A line, cut out with its line feed, holds one line feed if it has one
/// and none otherwise.
pub proof fn lemma_line_limit(s: Seq<char>, i: int)
    requires
        0 <= i <= s.len(),
    ensures
        i <= line_end(s, i) <= line_limit(s, i) <= s.len(),
        forall|k: int| i <= k < line_end(s, i) ==> s[k] != '\n',
        line_end(s, i) < s.len() ==> s[line_end(s, i)] == '\n',
        count_lf(s.subrange(i, line_limit(s, i))) == if line_end(s, i) < s.len() {
            1nat
        } else {
            0nat
        },
{
    let e = line_end(s, i);
    lemma_skip_while(s, i, s.len() as int, is_not('\n'));
    lemma_count_lf_none(s.subrange(i, e));
    if e < s.len() {
        assert(s.subrange(i, e + 1) =~= s.subrange(i, e) + seq![s[e]]);
        lemma_count_lf_concat(s.subrange(i, e), seq![s[e]]);
        lemma_count_lf_single(s[e]);
    }
}

/// A single character counts one line feed if it is one.
pub proof fn lemma_count_lf_single(c: char)
    ensures
        count_lf(seq![c]) == if c == '\n' { 1nat } else { 0nat },
{
    reveal_with_fuel(count_lf, 2);
    assert(seq![c].drop_last() =~= Seq::<char>::empty());
}


/// Splitting a document at any offset splits its line feeds.
pub proof fn lemma_count_lf_split(s: Seq<char>, i: int)
    requires
        0 <= i <= s.len(),
    ensures
        count_lf(s) == count_lf(s.take(i)) + count_lf(s.skip(i)),
{
    assert(s =~= s.take(i) + s.skip(i));
    lemma_count_lf_concat(s.take(i), s.skip(i));
}

/// An inserted character adds one line feed if it is one.
pub proof fn lemma_count_lf_insert(s: Seq<char>, i: int, c: char)
    requires
        0 <= i <= s.len(),
    ensures
        count_lf(s.insert(i, c)) == count_lf(s) + if c == '\n' { 1nat } else { 0nat },
{
    assert(s.insert(i, c) =~= s.take(i) + seq![c] + s.skip(i));
    lemma_count_lf_concat(s.take(i) + seq![c], s.skip(i));
    lemma_count_lf_concat(s.take(i), seq![c]);
    lemma_count_lf_single(c);
    lemma_count_lf_split(s, i);
}

/// A removed character takes one line feed away if it is one.
pub proof fn lemma_count_lf_remove(s: Seq<char>, i: int)
    requires
        0 <= i < s.len(),
    ensures
        count_lf(s) == count_lf(s.remove(i)) + if s[i] == '\n' { 1nat } else { 0nat },
{
    assert(s.remove(i).insert(i, s[i]) =~= s);
    lemma_count_lf_insert(s.remove(i), i, s[i]);
}



/// A removed range takes its own line feeds away.
pub proof fn lemma_count_lf_cut(s: Seq<char>, i: int, j: int)
    requires
        0 <= i <= j <= s.len(),
    ensures
        count_lf(s) == count_lf(cut_out(s, i, j)) + count_lf(s.subrange(i, j)),
{
    assert(s =~= s.take(i) + s.subrange(i, j) + s.skip(j));
    lemma_count_lf_concat(s.take(i) + s.subrange(i, j), s.skip(j));
    lemma_count_lf_concat(s.take(i), s.subrange(i, j));
    lemma_count_lf_concat(s.take(i), s.skip(j));
}

/// The line index grows by one behind a line feed, and nowhere else.
pub proof fn lemma_line_of_step(s: Seq<char>, k: int)
    requires
        0 <= k < s.len(),
    ensures
        line_of(s, k + 1) == line_of(s, k) + if s[k] == '\n' { 1nat } else { 0nat },
{
    assert(s.take(k + 1).drop_last() =~= s.take(k));
}

/// A later offset lies on no earlier line.
pub proof fn lemma_line_of_mono(s: Seq<char>, i: int, j: int)
    requires
        0 <= i <= j <= s.len(),
    ensures
        line_of(s, i) <= line_of(s, j),
    decreases j - i,
{
    if i < j {
        lemma_line_of_step(s, j - 1);
        lemma_line_of_mono(s, i, j - 1);
    }
}

/// Every offset of a document lies on one of its lines.
pub proof fn lemma_line_of_bound(s: Seq<char>, i: int)
    requires
        0 <= i <= s.len(),
    ensures
        line_of(s, i) < line_count(s),
        line_of(s, s.len() as int) == count_lf(s),
        line_of(s, 0) == 0,
{
    assert(s.take(s.len() as int) =~= s);
    assert(s.take(0) =~= Seq::<char>::empty());
    lemma_line_of_mono(s, i, s.len() as int);
}

/// No two lines begin at offsets with the same line index.
pub proof fn lemma_line_start_unique(s: Seq<char>, a: int, b: int)
    requires
        is_line_start(s, a),
        is_line_start(s, b),
        line_of(s, a) == line_of(s, b),
    ensures
        a == b,
{
    if a < b {
        lemma_line_of_step(s, b - 1);
        lemma_line_of_mono(s, a, b - 1);
    } else if b < a {
        lemma_line_of_step(s, a - 1);
        lemma_line_of_mono(s, b, a - 1);
    }
}

/// The line that holds offset `i` begins at `line_start(s, i)`, and no line
/// feed lies between the two.
pub proof fn lemma_line_start(s: Seq<char>, i: int)
    requires
        0 <= i <= s.len(),
    ensures
        is_line_start(s, line_start(s, i)),
        line_start(s, i) <= i,
        line_of(s, line_start(s, i)) == line_of(s, i),
        forall|k: int| line_start(s, i) <= k < i ==> s[k] != '\n',
        nth_line_start(s, line_of(s, i) as int) == line_start(s, i),
    decreases i,
{
    if i > 0 && s[i - 1] != '\n' {
        lemma_line_start(s, i - 1);
        lemma_line_of_step(s, i - 1);
    }
    let r = line_start(s, i);
    let n = line_of(s, i) as int;
    let c = nth_line_start(s, n);
    assert(is_line_start(s, r) && line_of(s, r) == n);
    lemma_line_start_unique(s, r, c);
}

/// An offset that begins a line is the start of its own line.
pub proof fn lemma_nth_line_start(s: Seq<char>, n: int, r: int)
    requires
        is_line_start(s, r),
        line_of(s, r) == n,
    ensures
        nth_line_start(s, n) == r,
        line_start(s, r) == r,
{
    let c = nth_line_start(s, n);
    lemma_line_start_unique(s, r, c);
}

/// A line read from an offset of the document ends within the document,
/// with no line feed before its end.
pub proof fn lemma_line_stop(s: Seq<char>, i: int)
    requires
        0 <= i <= s.len(),
    ensures
        i <= line_stop(s, i) <= s.len(),
        line_stop(s, i) < s.len() || i == s.len(),
        forall|k: int| i <= k < line_stop(s, i) ==> s[k] != '\n',
        line_stop(s, i) + 1 >= s.len() || s[line_stop(s, i)] == '\n',
    decreases s.len() - i,
{
    if !(i + 1 >= s.len() || s[i] == '\n') {
        lemma_line_stop(s, i + 1);
    }
}

/// A scan for the end of a line passes over what is no line feed.
pub proof fn lemma_line_stop_from(s: Seq<char>, i: int, c: int)
    requires
        0 <= i <= c < s.len(),
        forall|k: int| i <= k < c ==> s[k] != '\n',
    ensures
        line_stop(s, i) == line_stop(s, c),
    decreases c - i,
{
    if i < c {
        lemma_line_stop_from(s, i + 1, c);
    }
}

/// The line of a character ends at or behind that character.
pub proof fn lemma_end_of_line(s: Seq<char>, c: int)
    requires
        0 <= c < s.len(),
    ensures
        c <= end_of_line_at(s, c) < s.len(),
        line_start(s, c) <= c,
        forall|k: int| line_start(s, c) <= k < end_of_line_at(s, c) ==> s[k] != '\n',
{
    lemma_line_start(s, c);
    lemma_line_stop_from(s, line_start(s, c), c);
    lemma_line_stop(s, c);
    lemma_line_stop(s, line_start(s, c));
}

/// Offsets with no line feed between them lie on one line.
pub proof fn lemma_same_line(s: Seq<char>, a: int, b: int)
    requires
        0 <= a <= b <= s.len(),
        forall|k: int| a <= k < b ==> s[k] != '\n',
    ensures
        line_of(s, a) == line_of(s, b),
    decreases b - a,
{
    if a < b {
        lemma_line_of_step(s, b - 1);
        lemma_same_line(s, a, b - 1);
    }
}

/// Every line of a document begins somewhere.
pub proof fn lemma_line_exists(s: Seq<char>, n: int)
    requires
        0 <= n < line_count(s),
    ensures
        is_line_start(s, nth_line_start(s, n)),
        line_of(s, nth_line_start(s, n)) == n,
    decreases n,
{
    if n == 0 {
        lemma_line_of_bound(s, 0);
        assert(is_line_start(s, 0) && line_of(s, 0) == 0);
    } else {
        lemma_line_exists(s, n - 1);
        let a = nth_line_start(s, n - 1);
        let e = line_end(s, a);
        lemma_line_limit(s, a);
        lemma_same_line(s, a, e);
        lemma_line_of_bound(s, e);
        if e < s.len() {
            lemma_line_of_step(s, e);
            assert(is_line_start(s, e + 1) && line_of(s, e + 1) == n);
        }
    }
}

/// A forward scan stops within its bounds, behind a run of `p` and before
/// a character that fails `p` or at its limit.
pub proof fn lemma_skip_while(s: Seq<char>, i: int, limit: int, p: spec_fn(char) -> bool)
    requires
        i <= limit,
    ensures
        i <= skip_while(s, i, limit, p) <= limit,
        forall|k: int| i <= k < skip_while(s, i, limit, p) ==> p(s[k]),
        skip_while(s, i, limit, p) == limit || !p(s[skip_while(s, i, limit, p)]),
    decreases limit - i,
{
    if !(i >= limit || !p(s[i])) {
        lemma_skip_while(s, i + 1, limit, p);
    }
}

/// A backward scan stops within its bounds, before a run of `p` and behind
/// a character that fails `p` or at its floor.
pub proof fn lemma_skip_back_while(s: Seq<char>, i: int, floor: int, p: spec_fn(char) -> bool)
    requires
        floor <= i,
    ensures
        floor <= skip_back_while(s, i, floor, p) <= i,
        forall|k: int| skip_back_while(s, i, floor, p) <= k < i ==> p(s[k]),
        skip_back_while(s, i, floor, p) == floor || !p(s[skip_back_while(s, i, floor, p) - 1]),
    decreases i - floor,
{
    if !(i <= floor || !p(s[i - 1])) {
        lemma_skip_back_while(s, i - 1, floor, p);
    }
}

} // verus!
