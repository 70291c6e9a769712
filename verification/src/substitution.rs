//! Why a substitution can be taken back: the offsets that a replacement
//! records lead the undo to the replacing texts.

use vstd::prelude::*;
use crate::buffer_edit::{occurrences, replace_at, replace_run, replaced_ends};
use crate::undo::{undone_text, ActionView};

verus! {

/// Whether the offsets `ends[from..]`, each moved by `delta`, are ends of
/// occurrences of `pat` in `s` that lie one behind the other, none of them
/// before offset `floor`.
pub open spec fn occur_in_order(
    s: Seq<char>,
    ends: Seq<usize>,
    from: int,
    pat: Seq<char>,
    delta: int,
    floor: int,
) -> bool
    decreases ends.len() - from,
{
    if from < 0 || from >= ends.len() {
        true
    } else {
        &&& floor + pat.len() <= ends[from] + delta <= s.len()
        &&& s.subrange(ends[from] + delta - pat.len(), ends[from] + delta) == pat
        &&& occur_in_order(s, ends, from + 1, pat, delta, ends[from] + delta)
    }
}

/// Occurrences behind a replacement move with the text behind it.
proof fn lemma_occur_after_replace(
    s: Seq<char>,
    ends: Seq<usize>,
    from: int,
    pat: Seq<char>,
    delta: int,
    floor: int,
    e: int,
    m: int,
    t: Seq<char>,
)
    requires
        0 <= from,
        0 <= m <= e <= floor,
        e <= s.len(),
        occur_in_order(s, ends, from, pat, delta, floor),
    ensures
        occur_in_order(
            replace_at(s, e, m, t),
            ends,
            from,
            pat,
            delta + t.len() - m,
            floor + t.len() - m,
        ),
    decreases ends.len() - from,
{
    if from < ends.len() {
        let s1 = replace_at(s, e, m, t);
        let e1 = ends[from] + delta;
        let p1 = e1 + t.len() - m;
        assert(s1.len() == s.len() + t.len() - m);
        assert(s1.subrange(p1 - pat.len(), p1) =~= s.subrange(e1 - pat.len(), e1));
        lemma_occur_after_replace(s, ends, from + 1, pat, delta, e1, e, m, t);
    }
}

/// A list of offsets read from index `from + 1` on is its tail read from
/// index `from` on.
proof fn lemma_occur_in_tail(
    s: Seq<char>,
    head: usize,
    tail: Seq<usize>,
    from: int,
    pat: Seq<char>,
    delta: int,
    floor: int,
)
    requires
        0 <= from,
    ensures
        occur_in_order(s, seq![head] + tail, from + 1, pat, delta, floor) == occur_in_order(
            s,
            tail,
            from,
            pat,
            delta,
            floor,
        ),
    decreases tail.len() - from,
{
    let all = seq![head] + tail;
    if from < tail.len() {
        assert(all[from + 1] == tail[from]);
        lemma_occur_in_tail(s, head, tail, from + 1, pat, delta, tail[from] + delta);
    }
}

/// Replacements at a list of offsets read from index `from + 1` on are those
/// at its tail read from index `from` on.
proof fn lemma_run_in_tail(
    s: Seq<char>,
    head: usize,
    tail: Seq<usize>,
    from: int,
    m: int,
    t: Seq<char>,
    delta: int,
)
    requires
        0 <= from,
    ensures
        replace_run(s, seq![head] + tail, from + 1, m, t, delta) == replace_run(
            s,
            tail,
            from,
            m,
            t,
            delta,
        ),
    decreases tail.len() - from,
{
    let all = seq![head] + tail;
    if from < tail.len() {
        assert(all[from + 1] == tail[from]);
        if m <= tail[from] + delta <= s.len() {
            lemma_run_in_tail(
                replace_at(s, tail[from] + delta, m, t),
                head,
                tail,
                from + 1,
                m,
                t,
                delta + t.len() - m,
            );
        } else {
            lemma_run_in_tail(s, head, tail, from + 1, m, t, delta);
        }
    }
}

/// Replacements of occurrences that lie behind offset `floor` leave the
/// document before `floor` as it is, and are replacements in what follows
/// `floor`.
proof fn lemma_run_behind_floor(
    s: Seq<char>,
    ends: Seq<usize>,
    from: int,
    pat: Seq<char>,
    t: Seq<char>,
    delta: int,
    floor: int,
)
    requires
        0 <= from,
        0 <= floor,
        occur_in_order(s, ends, from, pat, delta, floor),
    ensures
        floor <= s.len() ==> {
            &&& floor <= replace_run(s, ends, from, pat.len() as int, t, delta).len()
            &&& replace_run(s, ends, from, pat.len() as int, t, delta).take(floor) == s.take(
                floor,
            )
            &&& replace_run(s, ends, from, pat.len() as int, t, delta).skip(floor)
                == replace_run(s.skip(floor), ends, from, pat.len() as int, t, delta - floor)
        },
    decreases ends.len() - from,
{
    let m = pat.len() as int;
    if from < ends.len() && floor <= s.len() {
        let e = ends[from] + delta;
        let s1 = replace_at(s, e, m, t);
        let x = s.skip(floor);
        let x1 = replace_at(x, e - floor, m, t);
        assert(x1 =~= s1.skip(floor));
        assert(s1.take(floor) =~= s.take(floor));
        lemma_occur_after_replace(s, ends, from + 1, pat, delta, e, e, m, t);
        lemma_run_behind_floor(s1, ends, from + 1, pat, t, delta + t.len() - m, floor);
    }
}

/// Taking back the replacements of occurrences in order restores the
/// document: the recorded offsets are ends of the replacing texts, in
/// order, and replacing those by what they replaced gives the document as
/// it was.
proof fn lemma_replace_then_undo(
    s: Seq<char>,
    ends: Seq<usize>,
    from: int,
    pat: Seq<char>,
    t: Seq<char>,
    delta: int,
    floor: int,
)
    requires
        0 <= from,
        0 <= floor <= s.len(),
        occur_in_order(s, ends, from, pat, delta, floor),
        replace_run(s, ends, from, pat.len() as int, t, delta).len() <= usize::MAX,
    ensures
        occur_in_order(
            replace_run(s, ends, from, pat.len() as int, t, delta),
            replaced_ends(s, ends, from, pat.len() as int, t, delta),
            0,
            t,
            0,
            floor,
        ),
        replace_run(
            replace_run(s, ends, from, pat.len() as int, t, delta),
            replaced_ends(s, ends, from, pat.len() as int, t, delta),
            0,
            t.len() as int,
            pat,
            0,
        ) == s,
    decreases ends.len() - from,
{
    let m = pat.len() as int;
    let n = t.len() as int;
    if from < ends.len() {
        let e = ends[from] + delta;
        let s1 = replace_at(s, e, m, t);
        let delta1 = delta + n - m;
        let floor1 = e - m + n;
        lemma_occur_after_replace(s, ends, from + 1, pat, delta, e, e, m, t);
        lemma_replace_then_undo(s1, ends, from + 1, pat, t, delta1, floor1);
        let s2 = replace_run(s1, ends, from + 1, m, t, delta1);
        let d1 = replaced_ends(s1, ends, from + 1, m, t, delta1);
        let d = replaced_ends(s, ends, from, m, t, delta);
        assert(s2 == replace_run(s, ends, from, m, t, delta));
        assert(d == seq![floor1 as usize] + d1);
        // The first replacing text stands before everything that follows.
        lemma_run_behind_floor(s1, ends, from + 1, pat, t, delta1, floor1);
        assert(s1.subrange(floor1 - n, floor1) =~= t);
        assert(s2.subrange(floor1 - n, floor1) =~= s2.take(floor1).subrange(floor1 - n, floor1));
        assert(s1.subrange(floor1 - n, floor1) =~= s1.take(floor1).subrange(floor1 - n, floor1));
        lemma_occur_in_tail(s2, floor1 as usize, d1, 0, t, 0, floor1);
        assert(d[0] == floor1);
        assert(occur_in_order(s2, d, 0, t, 0, floor));
        // Taking the first replacement back, then the others.
        let u = replace_at(s2, floor1, n, pat);
        lemma_run_in_tail(u, floor1 as usize, d1, 0, n, pat, m - n);
        lemma_occur_after_replace(s2, d1, 0, t, 0, floor1, floor1, n, pat);
        lemma_run_behind_floor(u, d1, 0, t, pat, m - n, e);
        lemma_run_behind_floor(s2, d1, 0, t, pat, 0, floor1);
        let r = replace_run(u, d1, 0, n, pat, m - n);
        assert(u.skip(e) =~= s2.skip(floor1));
        assert(u.take(e) =~= s.take(e)) by {
            assert(s2.take(floor1) == s1.take(floor1));
            assert forall|k: int| 0 <= k < e - m implies u[k] == s[k] by {
                assert(s2.take(floor1)[k] == s1.take(floor1)[k]);
            }
            assert forall|k: int| e - m <= k < e implies u[k] == s[k] by {
                assert(s.subrange(e - m, e)[k - (e - m)] == pat[k - (e - m)]);
            }
        }
        assert(s1.skip(floor1) =~= s.skip(e));
        assert(r =~= r.take(e) + r.skip(e));
        assert(s =~= s.take(e) + s.skip(e));
        assert(replace_run(s2, d, 0, n, pat, 0) == replace_run(u, d, 1, n, pat, m - n));
    }
}

/// What a scan finds are occurrences in order.
proof fn lemma_occurrences_in_order(s: Seq<char>, pat: Seq<char>, i: int)
    requires
        0 <= i,
        s.len() <= usize::MAX,
    ensures
        occur_in_order(s, occurrences(s, pat, i), 0, pat, 0, i),
    decreases s.len() - i,
{
    if !(pat.len() == 0 || i + pat.len() > s.len()) {
        if s.subrange(i, i + pat.len()) == pat {
            let rest = occurrences(s, pat, i + pat.len());
            lemma_occurrences_in_order(s, pat, i + pat.len());
            lemma_occur_in_tail(s, (i + pat.len()) as usize, rest, 0, pat, 0, i + pat.len());
        } else {
            lemma_occurrences_in_order(s, pat, i + 1);
        }
    }
}

/// A substitution can be taken back: where every occurrence of `pat` in `s`
/// was replaced by `t`, replacing what stands at the recorded offsets by
/// `pat` gives `s` again, and that is what undoing the recorded action
/// does.
pub proof fn law_substitute_then_undo(s: Seq<char>, pat: Seq<char>, t: Seq<char>)
    requires
        s.len() <= usize::MAX,
        replace_run(s, occurrences(s, pat, 0), 0, pat.len() as int, t, 0).len() <= usize::MAX,
    ensures
        replace_run(
            replace_run(s, occurrences(s, pat, 0), 0, pat.len() as int, t, 0),
            replaced_ends(s, occurrences(s, pat, 0), 0, pat.len() as int, t, 0),
            0,
            t.len() as int,
            pat,
            0,
        ) == s,
        undone_text(
            ActionView::Replace {
                positions: replaced_ends(s, occurrences(s, pat, 0), 0, pat.len() as int, t, 0),
                original: pat,
                new: t,
            },
            replace_run(s, occurrences(s, pat, 0), 0, pat.len() as int, t, 0),
        ) == s,
{
    lemma_occurrences_in_order(s, pat, 0);
    lemma_replace_then_undo(s, occurrences(s, pat, 0), 0, pat, t, 0, 0);
}

} // verus!
