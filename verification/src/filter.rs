//! The observation filter: post-processes raw tool output into a bounded,
//! model-consumable text. Overlong output is truncated to `max_length`,
//! preferring a semantic boundary (end of line or sentence) over a hard
//! character cut, and consecutive duplicate lines are collapsed. The filter
//! never fails, so the loop always receives a bounded observation.

use vstd::prelude::*;
use crate::text::{join_lines, lemma_join_snoc, lemma_join_split, lemma_split_join,
    lemma_split_lines_basic, split_into_lines, split_lines};

verus! {

/// How many characters of an observation the loop feeds back into the next
/// reasoning call; the filter's bound caps prompt growth.
pub const OBSERVATION_MAX_LEN: usize = 2000;

/// A semantic boundary the truncation prefers to cut at: the cut keeps the
/// boundary character, so a kept prefix ends at a line or sentence end.
pub open spec fn is_boundary(c: char) -> bool {
    c == '\n' || c == '.'
}

/// The largest cut `i <= n` with a boundary character at `i - 1`, or `0`
/// when no boundary lies in the first `n` characters.
pub open spec fn boundary_cut(s: Seq<char>, n: nat) -> nat
    decreases n,
{
    if n == 0 {
        0
    } else if is_boundary(s[n - 1]) {
        n
    } else {
        boundary_cut(s, (n - 1) as nat)
    }
}

/// Truncation to `n` characters: a text already within the bound is kept
/// as it is; an overlong one is cut at the best boundary within the bound,
/// or hard at `n` when the first `n` characters hold no boundary.
pub open spec fn truncate_spec(s: Seq<char>, n: nat) -> Seq<char> {
    if s.len() <= n {
        s
    } else {
        let b = boundary_cut(s, n);
        if b > 0 {
            s.subrange(0, b as int)
        } else {
            s.subrange(0, n as int)
        }
    }
}

/// No two neighbouring lines are equal.
pub open spec fn adjacent_distinct(ls: Seq<Seq<char>>) -> bool {
    forall|i: int| #![trigger ls[i]] 0 <= i < ls.len() - 1 ==> ls[i] != ls[i + 1]
}

/// What the last kept line is after walking `ls` with `prev` kept before it.
pub open spec fn chain_last(prev: Seq<char>, ls: Seq<Seq<char>>) -> Seq<char> {
    if ls.len() == 0 {
        prev
    } else {
        ls.last()
    }
}

/// Collapses runs of equal lines, with `prev` the line kept just before.
pub open spec fn dedup_from(prev: Seq<char>, ls: Seq<Seq<char>>) -> Seq<Seq<char>>
    decreases ls.len(),
{
    if ls.len() == 0 {
        Seq::<Seq<char>>::empty()
    } else if ls[0] == prev {
        dedup_from(prev, ls.subrange(1, ls.len() as int))
    } else {
        seq![ls[0]] + dedup_from(ls[0], ls.subrange(1, ls.len() as int))
    }
}

/// Collapses each run of equal consecutive lines to its first line.
pub open spec fn dedup_lines(ls: Seq<Seq<char>>) -> Seq<Seq<char>> {
    if ls.len() == 0 {
        ls
    } else {
        seq![ls[0]] + dedup_from(ls[0], ls.subrange(1, ls.len() as int))
    }
}

/// What the filter returns: the input truncated to the bound, with
/// consecutive duplicate lines collapsed.
pub open spec fn filter_spec(x: Seq<char>, n: nat) -> Seq<char> {
    join_lines(dedup_lines(split_lines(truncate_spec(x, n))))
}

pub proof fn lemma_boundary_cut_le(s: Seq<char>, n: nat)
    ensures
        boundary_cut(s, n) <= n,
    decreases n,
{
    if n > 0 && !is_boundary(s[n - 1]) {
        lemma_boundary_cut_le(s, (n - 1) as nat);
    }
}

pub proof fn lemma_truncate_len(s: Seq<char>, n: nat)
    ensures
        truncate_spec(s, n).len() <= n,
        truncate_spec(s, n).len() <= s.len(),
{
    lemma_boundary_cut_le(s, n);
}

/// Appending one more line dedups to: dropped if it equals the last kept
/// line, else kept at the end.
proof fn lemma_dedup_from_snoc(prev: Seq<char>, ls: Seq<Seq<char>>, x: Seq<char>)
    ensures
        dedup_from(prev, ls.push(x)) == if x == chain_last(prev, ls) {
            dedup_from(prev, ls)
        } else {
            dedup_from(prev, ls).push(x)
        },
    decreases ls.len(),
{
    let p = ls.push(x);
    if ls.len() == 0 {
        assert(p[0] == x);
        assert(p.subrange(1, p.len() as int) =~= Seq::<Seq<char>>::empty());
        assert(dedup_from(prev, Seq::<Seq<char>>::empty()) == Seq::<Seq<char>>::empty());
        assert(dedup_from(x, Seq::<Seq<char>>::empty()) == Seq::<Seq<char>>::empty());
        if x == prev {
            assert(dedup_from(prev, p) =~= dedup_from(prev, ls));
        } else {
            assert(dedup_from(prev, p) =~= seq![x]);
            assert(dedup_from(prev, ls).push(x) =~= seq![x]);
        }
    } else {
        let tail = ls.subrange(1, ls.len() as int);
        assert(p[0] == ls[0]);
        assert(p.subrange(1, p.len() as int) =~= tail.push(x));
        assert(chain_last(prev, ls) == chain_last(ls[0], tail)) by {
            if tail.len() == 0 {
                assert(ls.last() == ls[0]);
            } else {
                assert(tail.last() == ls.last());
            }
        }
        if ls[0] == prev {
            lemma_dedup_from_snoc(prev, tail, x);
            assert(chain_last(prev, ls) == chain_last(prev, tail)) by {
                if tail.len() == 0 {
                    assert(ls.last() == ls[0]);
                } else {
                    assert(tail.last() == ls.last());
                }
            }
        } else {
            lemma_dedup_from_snoc(ls[0], tail, x);
            if x != chain_last(ls[0], tail) {
                assert(seq![ls[0]] + dedup_from(ls[0], tail).push(x) =~= (seq![ls[0]]
                    + dedup_from(ls[0], tail)).push(x));
            }
        }
    }
}

/// The same, for the full collapse.
pub proof fn lemma_dedup_snoc(ls: Seq<Seq<char>>, x: Seq<char>)
    requires
        ls.len() >= 1,
    ensures
        dedup_lines(ls.push(x)) == if x == ls.last() {
            dedup_lines(ls)
        } else {
            dedup_lines(ls).push(x)
        },
{
    let p = ls.push(x);
    let tail = ls.subrange(1, ls.len() as int);
    assert(p[0] == ls[0]);
    assert(p.subrange(1, p.len() as int) =~= tail.push(x));
    lemma_dedup_from_snoc(ls[0], tail, x);
    assert(chain_last(ls[0], tail) == ls.last()) by {
        if tail.len() == 0 {
            assert(ls.last() == ls[0]);
        } else {
            assert(tail.last() == ls.last());
        }
    }
    if x != ls.last() {
        assert(seq![ls[0]] + dedup_from(ls[0], tail).push(x) =~= (seq![ls[0]] + dedup_from(
            ls[0],
            tail,
        )).push(x));
    }
}

/// Every line the collapse keeps was a line of the input.
proof fn lemma_dedup_from_contains(prev: Seq<char>, ls: Seq<Seq<char>>)
    ensures
        forall|j: int|
            0 <= j < dedup_from(prev, ls).len() ==> ls.contains(#[trigger] dedup_from(prev, ls)[j]),
    decreases ls.len(),
{
    if ls.len() > 0 {
        let tail = ls.subrange(1, ls.len() as int);
        let d = dedup_from(prev, ls);
        if ls[0] == prev {
            lemma_dedup_from_contains(prev, tail);
            assert forall|j: int| 0 <= j < d.len() implies ls.contains(d[j]) by {
                assert(d[j] == dedup_from(prev, tail)[j]);
                assert(tail.contains(d[j]));
                let k = choose|k: int| 0 <= k < tail.len() && tail[k] == d[j];
                assert(ls[k + 1] == d[j]);
            }
        } else {
            lemma_dedup_from_contains(ls[0], tail);
            assert forall|j: int| 0 <= j < d.len() implies ls.contains(d[j]) by {
                if j == 0 {
                    assert(ls[0] == d[0]);
                } else {
                    assert(d[j] == dedup_from(ls[0], tail)[j - 1]);
                    assert(tail.contains(d[j]));
                    let k = choose|k: int| 0 <= k < tail.len() && tail[k] == d[j];
                    assert(ls[k + 1] == d[j]);
                }
            }
        }
    }
}

pub proof fn lemma_dedup_basic(ls: Seq<Seq<char>>)
    requires
        ls.len() >= 1,
    ensures
        dedup_lines(ls).len() >= 1,
        dedup_lines(ls)[0] == ls[0],
        forall|j: int|
            0 <= j < dedup_lines(ls).len() ==> ls.contains(#[trigger] dedup_lines(ls)[j]),
{
    let tail = ls.subrange(1, ls.len() as int);
    lemma_dedup_from_contains(ls[0], tail);
    let d = dedup_lines(ls);
    assert forall|j: int| 0 <= j < d.len() implies ls.contains(d[j]) by {
        if j == 0 {
            assert(ls[0] == d[0]);
        } else {
            assert(d[j] == dedup_from(ls[0], tail)[j - 1]);
            assert(tail.contains(d[j]));
            let k = choose|k: int| 0 <= k < tail.len() && tail[k] == d[j];
            assert(ls[k + 1] == d[j]);
        }
    }
}

/// The collapse leaves no equal neighbours.
proof fn lemma_dedup_from_adj(prev: Seq<char>, ls: Seq<Seq<char>>)
    ensures
        adjacent_distinct(seq![prev] + dedup_from(prev, ls)),
    decreases ls.len(),
{
    if ls.len() > 0 {
        let tail = ls.subrange(1, ls.len() as int);
        if ls[0] == prev {
            lemma_dedup_from_adj(prev, tail);
        } else {
            lemma_dedup_from_adj(ls[0], tail);
            let inner = seq![ls[0]] + dedup_from(ls[0], tail);
            let outer = seq![prev] + dedup_from(prev, ls);
            assert(outer =~= seq![prev] + inner);
            assert forall|i: int| #![trigger outer[i]] 0 <= i < outer.len() - 1 implies outer[i]
                != outer[i + 1] by {
                if i == 0 {
                    assert(outer[0] == prev && outer[1] == ls[0]);
                } else {
                    assert(outer[i] == inner[i - 1] && outer[i + 1] == inner[i]);
                    assert(adjacent_distinct(inner));
                }
            }
        }
    }
}

pub proof fn lemma_dedup_adj(ls: Seq<Seq<char>>)
    requires
        ls.len() >= 1,
    ensures
        adjacent_distinct(dedup_lines(ls)),
{
    let tail = ls.subrange(1, ls.len() as int);
    lemma_dedup_from_adj(ls[0], tail);
}

/// A text without equal neighbours is left as it is.
proof fn lemma_dedup_from_id(prev: Seq<char>, ls: Seq<Seq<char>>)
    requires
        adjacent_distinct(ls),
        ls.len() >= 1 ==> ls[0] != prev,
    ensures
        dedup_from(prev, ls) == ls,
    decreases ls.len(),
{
    if ls.len() == 0 {
        assert(dedup_from(prev, ls) =~= ls);
    } else {
        let tail = ls.subrange(1, ls.len() as int);
        assert forall|i: int| 0 <= i < tail.len() - 1 implies #[trigger] tail[i] != tail[i + 1] by {
            assert(tail[i] == ls[i + 1] && tail[i + 1] == ls[i + 2]);
        }
        assert(tail.len() >= 1 ==> tail[0] != ls[0]) by {
            if tail.len() >= 1 {
                assert(ls[0] != ls[1]);
            }
        }
        lemma_dedup_from_id(ls[0], tail);
        assert(seq![ls[0]] + tail =~= ls);
    }
}

pub proof fn lemma_dedup_id(ls: Seq<Seq<char>>)
    requires
        ls.len() >= 1,
        adjacent_distinct(ls),
    ensures
        dedup_lines(ls) == ls,
{
    let tail = ls.subrange(1, ls.len() as int);
    assert forall|i: int| 0 <= i < tail.len() - 1 implies #[trigger] tail[i] != tail[i + 1] by {
        assert(tail[i] == ls[i + 1] && tail[i + 1] == ls[i + 2]);
    }
    assert(tail.len() >= 1 ==> tail[0] != ls[0]) by {
        if tail.len() >= 1 {
            assert(ls[0] != ls[1]);
        }
    }
    lemma_dedup_from_id(ls[0], tail);
    assert(seq![ls[0]] + tail =~= ls);
}

/// Unfolds a join from the front.
proof fn lemma_join_cons(x: Seq<char>, xs: Seq<Seq<char>>)
    ensures
        join_lines(seq![x] + xs) == if xs.len() == 0 {
            x
        } else {
            x + seq!['\n'] + join_lines(xs)
        },
{
    let p = seq![x] + xs;
    assert(p[0] == x);
    if xs.len() == 0 {
        assert(p.len() == 1);
    } else {
        assert(p.subrange(1, p.len() as int) =~= xs);
    }
}

/// Collapsing lines never lengthens their join.
proof fn lemma_join_len_dedup_from(prev: Seq<char>, ls: Seq<Seq<char>>)
    ensures
        join_lines(dedup_from(prev, ls)).len() <= join_lines(ls).len(),
    decreases ls.len(),
{
    if ls.len() > 0 {
        let tail = ls.subrange(1, ls.len() as int);
        lemma_join_cons(ls[0], tail);
        assert(seq![ls[0]] + tail =~= ls);
        if ls[0] == prev {
            lemma_join_len_dedup_from(prev, tail);
        } else {
            lemma_join_len_dedup_from(ls[0], tail);
            let d = dedup_from(ls[0], tail);
            lemma_join_cons(ls[0], d);
            if d.len() > 0 {
                assert(tail.len() > 0);
            }
        }
    }
}

pub proof fn lemma_join_len_dedup(ls: Seq<Seq<char>>)
    requires
        ls.len() >= 1,
    ensures
        join_lines(dedup_lines(ls)).len() <= join_lines(ls).len(),
{
    let tail = ls.subrange(1, ls.len() as int);
    lemma_join_len_dedup_from(ls[0], tail);
    let d = dedup_from(ls[0], tail);
    lemma_join_cons(ls[0], d);
    lemma_join_cons(ls[0], tail);
    assert(seq![ls[0]] + tail =~= ls);
    if d.len() > 0 {
        assert(tail.len() > 0);
    }
}

/// The filter's output never exceeds the bound.
pub proof fn lemma_filter_bounded(x: Seq<char>, n: nat)
    ensures
        filter_spec(x, n).len() <= n,
{
    let t = truncate_spec(x, n);
    lemma_truncate_len(x, n);
    lemma_split_lines_basic(t);
    lemma_join_len_dedup(split_lines(t));
    lemma_join_split(t);
}

/// Filtering a second time with the same bound changes nothing.
pub proof fn lemma_filter_idempotent(x: Seq<char>, n: nat)
    ensures
        filter_spec(filter_spec(x, n), n) == filter_spec(x, n),
{
    let t = truncate_spec(x, n);
    let ls = split_lines(t);
    let d = dedup_lines(ls);
    let y = join_lines(d);
    lemma_filter_bounded(x, n);
    assert(truncate_spec(y, n) == y);
    lemma_split_lines_basic(t);
    lemma_dedup_basic(ls);
    assert forall|i: int, k: int| 0 <= i < d.len() && 0 <= k < d[i].len() implies d[i][k]
        != '\n' by {
        assert(ls.contains(d[i]));
        let w = choose|w: int| 0 <= w < ls.len() && ls[w] == d[i];
    }
    lemma_split_join(d);
    lemma_dedup_adj(ls);
    lemma_dedup_id(d);
}

fn is_boundary_char(c: char) -> (r: bool)
    ensures
        r == is_boundary(c),
{
    c == '\n' || c == '.'
}

/// Cuts `s` to at most `n` characters, at the latest boundary within the
/// bound when there is one.
fn truncate_at_boundary(s: &str, n: usize) -> (r: String)
    ensures
        r@ == truncate_spec(s@, n as nat),
{
    let len = s.unicode_len();
    if len <= n {
        return s.to_owned();
    }
    let mut b: usize = n;
    while b > 0
        invariant
            b <= n < s@.len(),
            boundary_cut(s@, n as nat) == boundary_cut(s@, b as nat),
        decreases b,
    {
        if is_boundary_char(s.get_char(b - 1)) {
            return s.substring_char(0, b).to_owned();
        }
        b -= 1;
    }
    s.substring_char(0, n).to_owned()
}

/// Collapses each run of equal consecutive lines to one line.
fn dedup_consecutive(lines: &Vec<String>) -> (r: Vec<String>)
    requires
        lines@.len() >= 1,
    ensures
        r.deep_view() == dedup_lines(lines.deep_view()),
        r@.len() >= 1,
{
    let ghost ldv = lines.deep_view();
    let mut out: Vec<String> = Vec::new();
    out.push(lines[0].clone());
    proof {
        assert(ldv.take(1) =~= seq![ldv[0]]);
        assert(ldv.take(1).subrange(1, 1) =~= Seq::<Seq<char>>::empty());
        assert(dedup_lines(ldv.take(1)) =~= seq![ldv[0]]);
        assert(out.deep_view() =~= seq![ldv[0]]);
    }
    let mut k: usize = 1;
    while k < lines.len()
        invariant
            1 <= k <= ldv.len(),
            ldv == lines.deep_view(),
            lines@.len() == ldv.len(),
            out.deep_view() == dedup_lines(ldv.take(k as int)),
            out@.len() >= 1,
        decreases ldv.len() - k,
    {
        let ghost prev_out = out.deep_view();
        let keep = lines[k] != lines[k - 1];
        if keep {
            out.push(lines[k].clone());
        }
        proof {
            let taken = ldv.take(k as int);
            assert(ldv.take(k as int + 1) =~= taken.push(ldv[k as int]));
            assert(taken.last() == ldv[k as int - 1]);
            lemma_dedup_snoc(taken, ldv[k as int]);
            if keep {
                assert(out.deep_view() =~= prev_out.push(ldv[k as int]));
            }
        }
        k += 1;
    }
    proof {
        assert(ldv.take(ldv.len() as int) =~= ldv);
    }
    out
}

/// Joins lines with a newline between each pair.
fn join_with_newlines(lines: &Vec<String>) -> (r: String)
    requires
        lines@.len() >= 1,
    ensures
        r@ == join_lines(lines.deep_view()),
{
    let ghost ldv = lines.deep_view();
    let mut r = lines[0].clone();
    proof {
        assert(ldv.take(1) =~= seq![ldv[0]]);
        assert(join_lines(seq![ldv[0]]) == ldv[0]);
    }
    let mut k: usize = 1;
    while k < lines.len()
        invariant
            1 <= k <= ldv.len(),
            ldv == lines.deep_view(),
            lines@.len() == ldv.len(),
            r@ == join_lines(ldv.take(k as int)),
        decreases ldv.len() - k,
    {
        r.append("\n");
        r.append(lines[k].as_str());
        proof {
            reveal_strlit("\n");
            assert("\n"@ =~= seq!['\n']);
            let taken = ldv.take(k as int);
            assert(ldv.take(k as int + 1) =~= taken.push(ldv[k as int]));
            lemma_join_snoc(taken, ldv[k as int]);
        }
        k += 1;
    }
    proof {
        assert(ldv.take(ldv.len() as int) =~= ldv);
    }
    r
}

/// Post-processes raw tool output into a bounded observation: truncates to
/// `max_length` at a semantic boundary where one lies within the bound, and
/// collapses consecutive duplicate lines. Never fails.
pub fn filter(raw_output: &str, max_length: usize) -> (r: String)
    ensures
        r@ == filter_spec(raw_output@, max_length as nat),
        r@.len() <= max_length,
{
    let truncated = truncate_at_boundary(raw_output, max_length);
    let lines = split_into_lines(truncated.as_str());
    let deduped = dedup_consecutive(&lines);
    let r = join_with_newlines(&deduped);
    proof {
        lemma_filter_bounded(raw_output@, max_length as nat);
    }
    r
}

} // verus!
