//! Text groundwork shared by the observation filter and the decision parser:
//! splitting a text into lines, joining lines back, locating a character,
//! and reading an unsigned decimal number.

use vstd::prelude::*;

verus! {

/// The index of the first occurrence of `c` in `s`, or `s.len()` if absent.
pub open spec fn first_pos(s: Seq<char>, c: char) -> nat
    decreases s.len(),
{
    if s.len() == 0 {
        0
    } else if s[0] == c {
        0
    } else {
        1 + first_pos(s.subrange(1, s.len() as int), c)
    }
}

pub proof fn lemma_first_pos(s: Seq<char>, c: char)
    ensures
        first_pos(s, c) <= s.len(),
        forall|k: int| 0 <= k < first_pos(s, c) ==> s[k] != c,
        first_pos(s, c) < s.len() ==> s[first_pos(s, c) as int] == c,
    decreases s.len(),
{
    if s.len() != 0 && s[0] != c {
        let t = s.subrange(1, s.len() as int);
        lemma_first_pos(t, c);
        assert forall|k: int| 0 <= k < first_pos(s, c) implies s[k] != c by {
            if k >= 1 {
                assert(t[k - 1] == s[k]);
            }
        }
        if first_pos(s, c) < s.len() {
            assert(t[first_pos(t, c) as int] == s[first_pos(s, c) as int]);
        }
    }
}

/// `first_pos` is the unique index with nothing equal to `c` before it and
/// `c` at it (or the length, when `c` is absent).
pub proof fn lemma_first_pos_is(s: Seq<char>, c: char, n: int)
    requires
        0 <= n <= s.len(),
        forall|k: int| 0 <= k < n ==> s[k] != c,
        n < s.len() ==> s[n] == c,
    ensures
        first_pos(s, c) == n,
    decreases s.len(),
{
    if s.len() == 0 {
    } else if s[0] == c {
        assert(n == 0);
    } else {
        let t = s.subrange(1, s.len() as int);
        assert(n >= 1);
        assert forall|k: int| 0 <= k < n - 1 implies t[k] != c by {
            assert(t[k] == s[k + 1]);
        }
        assert(n - 1 < t.len() ==> t[n - 1] == s[n]);
        lemma_first_pos_is(t, c, n - 1);
    }
}

/// The lines of a text: maximal `'\n'`-free runs; the separators are not
/// kept. A text with no `'\n'` is one line; every text has at least one.
pub open spec fn split_lines(s: Seq<char>) -> Seq<Seq<char>>
    decreases s.len(),
{
    let i = first_pos(s, '\n') as int;
    if i >= s.len() {
        seq![s]
    } else {
        seq![s.subrange(0, i)] + split_lines(s.subrange(i + 1, s.len() as int))
    }
}

/// The inverse of `split_lines`: the lines, with `'\n'` between them.
pub open spec fn join_lines(ls: Seq<Seq<char>>) -> Seq<char>
    decreases ls.len(),
{
    if ls.len() == 0 {
        Seq::<char>::empty()
    } else if ls.len() == 1 {
        ls[0]
    } else {
        ls[0] + seq!['\n'] + join_lines(ls.subrange(1, ls.len() as int))
    }
}

pub proof fn lemma_split_lines_basic(s: Seq<char>)
    ensures
        split_lines(s).len() >= 1,
        forall|i: int, k: int|
            0 <= i < split_lines(s).len() && 0 <= k < split_lines(s)[i].len() ==> split_lines(
                s,
            )[i][k] != '\n',
    decreases s.len(),
{
    lemma_first_pos(s, '\n');
    let p = first_pos(s, '\n') as int;
    if p < s.len() {
        let rest = s.subrange(p + 1, s.len() as int);
        lemma_split_lines_basic(rest);
        let ls = split_lines(s);
        assert forall|i: int, k: int|
            0 <= i < ls.len() && 0 <= k < ls[i].len() implies ls[i][k] != '\n' by {
            if i == 0 {
                assert(ls[0] == s.subrange(0, p));
                assert(s.subrange(0, p)[k] == s[k]);
            } else {
                assert(ls[i] == split_lines(rest)[i - 1]);
            }
        }
    }
}

pub proof fn lemma_join_split(s: Seq<char>)
    ensures
        join_lines(split_lines(s)) == s,
    decreases s.len(),
{
    lemma_first_pos(s, '\n');
    let p = first_pos(s, '\n') as int;
    if p < s.len() {
        let rest = s.subrange(p + 1, s.len() as int);
        lemma_join_split(rest);
        lemma_split_lines_basic(rest);
        let ls = split_lines(s);
        assert(ls.len() >= 2);
        assert(ls.subrange(1, ls.len() as int) =~= split_lines(rest));
        assert(join_lines(ls) == s.subrange(0, p) + seq!['\n'] + rest);
        assert(s.subrange(0, p) + seq!['\n'] + rest =~= s);
    }
}

/// Splitting undoes joining, as long as no line holds a `'\n'`.
pub proof fn lemma_split_join(ls: Seq<Seq<char>>)
    requires
        ls.len() >= 1,
        forall|i: int, k: int| 0 <= i < ls.len() && 0 <= k < ls[i].len() ==> ls[i][k] != '\n',
    ensures
        split_lines(join_lines(ls)) == ls,
    decreases ls.len(),
{
    let j = join_lines(ls);
    if ls.len() == 1 {
        lemma_first_pos_is(j, '\n', j.len() as int);
        assert(split_lines(j) =~= ls);
    } else {
        let tail = ls.subrange(1, ls.len() as int);
        let jt = join_lines(tail);
        assert(j == ls[0] + seq!['\n'] + jt);
        assert forall|k: int| 0 <= k < ls[0].len() implies j[k] != '\n' by {
            assert(j[k] == ls[0][k]);
        }
        assert(j[ls[0].len() as int] == '\n');
        lemma_first_pos_is(j, '\n', ls[0].len() as int);
        let p = ls[0].len() as int;
        assert forall|i: int, k: int|
            0 <= i < tail.len() && 0 <= k < tail[i].len() implies tail[i][k] != '\n' by {
            assert(tail[i] == ls[i + 1]);
        }
        lemma_split_join(tail);
        assert(j.subrange(0, p) =~= ls[0]);
        assert(j.subrange(p + 1, j.len() as int) =~= jt);
        assert(split_lines(j) == seq![ls[0]] + split_lines(jt));
        assert(seq![ls[0]] + tail =~= ls);
    }
}

/// Joining at most lengthens by one separator per line; in particular a
/// join of a sub-selection of lines never exceeds the join of all of them.
pub proof fn lemma_join_snoc(ls: Seq<Seq<char>>, x: Seq<char>)
    ensures
        join_lines(ls.push(x)) == if ls.len() == 0 {
            x
        } else {
            join_lines(ls) + seq!['\n'] + x
        },
    decreases ls.len(),
{
    let p = ls.push(x);
    if ls.len() == 0 {
        assert(p[0] == x);
    } else if ls.len() == 1 {
        assert(p.subrange(1, p.len() as int) =~= seq![x]);
        assert(join_lines(seq![x]) == x);
        assert(join_lines(p) == ls[0] + seq!['\n'] + x);
        assert(join_lines(ls) == ls[0]);
    } else {
        let tail = ls.subrange(1, ls.len() as int);
        assert(p.subrange(1, p.len() as int) =~= tail.push(x));
        lemma_join_snoc(tail, x);
        assert(join_lines(p) == p[0] + seq!['\n'] + join_lines(tail.push(x)));
        assert(join_lines(ls) + seq!['\n'] + x =~= p[0] + seq!['\n'] + (join_lines(tail)
            + seq!['\n'] + x));
    }
}

/// All characters are decimal digits.
pub open spec fn is_digits(s: Seq<char>) -> bool {
    forall|k: int| 0 <= k < s.len() ==> '0' <= #[trigger] s[k] <= '9'
}

/// The number the digits denote, most significant first.
pub open spec fn digits_val(s: Seq<char>) -> nat
    decreases s.len(),
{
    if s.len() == 0 {
        0
    } else {
        (digits_val(s.drop_last()) * 10 + (s.last() as int - '0' as int)) as nat
    }
}

pub open spec fn pow10(n: nat) -> nat
    decreases n,
{
    if n == 0 {
        1
    } else {
        10 * pow10((n - 1) as nat)
    }
}

pub proof fn lemma_digits_val_bound(s: Seq<char>)
    requires
        is_digits(s),
    ensures
        digits_val(s) < pow10(s.len()),
    decreases s.len(),
{
    if s.len() > 0 {
        lemma_digits_val_bound(s.drop_last());
    }
}

/// The index of the first `c` in `s`, or the character count if absent.
pub fn find_char(s: &str, c: char) -> (r: usize)
    ensures
        r == first_pos(s@, c),
        r <= s@.len(),
{
    let n = s.unicode_len();
    let mut i: usize = 0;
    while i < n
        invariant
            n == s@.len(),
            i <= n,
            forall|k: int| 0 <= k < i ==> s@[k] != c,
        decreases n - i,
    {
        if s.get_char(i) == c {
            proof {
                lemma_first_pos_is(s@, c, i as int);
            }
            return i;
        }
        i += 1;
    }
    proof {
        lemma_first_pos_is(s@, c, n as int);
    }
    n
}

/// The lines of `s`, as `split_lines` describes them.
pub fn split_into_lines(s: &str) -> (r: Vec<String>)
    ensures
        r.deep_view() == split_lines(s@),
        r@.len() >= 1,
{
    let n = s.unicode_len();
    let mut lines: Vec<String> = Vec::new();
    proof {
        assert(s@.subrange(0, n as int) =~= s@);
        assert(lines.deep_view() =~= Seq::<Seq<char>>::empty());
        assert(lines.deep_view() + split_lines(s@) =~= split_lines(s@));
    }
    let mut start: usize = 0;
    let mut i: usize = 0;
    while i < n
        invariant
            n == s@.len(),
            start <= i <= n,
            forall|k: int| start <= k < i ==> s@[k] != '\n',
            split_lines(s@) == lines.deep_view() + split_lines(
                s@.subrange(start as int, n as int),
            ),
        decreases n - i,
    {
        if s.get_char(i) == '\n' {
            let line = s.substring_char(start, i).to_owned();
            let ghost prev = lines.deep_view();
            proof {
                let suf = s@.subrange(start as int, n as int);
                assert forall|k: int| 0 <= k < i - start implies suf[k] != '\n' by {
                    assert(suf[k] == s@[start + k]);
                }
                assert(suf[i - start] == '\n');
                lemma_first_pos_is(suf, '\n', i - start);
                assert(suf.subrange(0, i - start) =~= s@.subrange(start as int, i as int));
                assert(suf.subrange(i - start + 1, suf.len() as int) =~= s@.subrange(
                    i + 1,
                    n as int,
                ));
                assert(split_lines(suf) == seq![s@.subrange(start as int, i as int)] + split_lines(
                    s@.subrange(i + 1, n as int),
                ));
            }
            lines.push(line);
            proof {
                assert(lines.deep_view() =~= prev.push(line@));
                assert(prev.push(line@) + split_lines(s@.subrange(i + 1, n as int)) =~= prev + (
                seq![line@] + split_lines(s@.subrange(i + 1, n as int))));
            }
            start = i + 1;
        }
        i += 1;
    }
    let line = s.substring_char(start, n).to_owned();
    let ghost prev = lines.deep_view();
    proof {
        let suf = s@.subrange(start as int, n as int);
        assert forall|k: int| 0 <= k < suf.len() implies suf[k] != '\n' by {
            assert(suf[k] == s@[start + k]);
        }
        lemma_first_pos_is(suf, '\n', suf.len() as int);
        assert(split_lines(suf) == seq![suf]);
        assert(line@ == suf);
    }
    lines.push(line);
    proof {
        assert(lines.deep_view() =~= prev.push(line@));
        assert(prev.push(line@) =~= prev + seq![line@]);
        assert(lines.deep_view() == split_lines(s@));
    }
    lines
}

/// Reads `s` as an unsigned decimal number of 1 to 18 digits.
pub fn parse_decimal(s: &str) -> (r: Option<u64>)
    ensures
        match r {
            Option::Some(v) => is_digits(s@) && 1 <= s@.len() <= 18 && v == digits_val(s@),
            Option::None => !(is_digits(s@) && 1 <= s@.len() <= 18),
        },
{
    let n = s.unicode_len();
    if n == 0 || n > 18 {
        return Option::None;
    }
    let mut acc: u64 = 0;
    let mut i: usize = 0;
    while i < n
        invariant
            n == s@.len(),
            1 <= n <= 18,
            i <= n,
            forall|k: int| 0 <= k < i ==> '0' <= #[trigger] s@[k] <= '9',
            acc == digits_val(s@.subrange(0, i as int)),
            acc < pow10(i as nat),
        decreases n - i,
    {
        let c = s.get_char(i);
        if c < '0' || c > '9' {
            return Option::None;
        }
        let d = (c as u32 - '0' as u32) as u64;
        proof {
            lemma_pow10_18_bound();
            lemma_pow10_increases((i + 1) as nat, 18);
            assert(pow10((i + 1) as nat) == 10 * pow10(i as nat));
            assert(acc <= pow10(i as nat) - 1);
            assert(acc * 10 <= (pow10(i as nat) - 1) * 10) by (nonlinear_arith)
                requires
                    acc <= pow10(i as nat) - 1,
            ;
            assert(acc * 10 + d < pow10((i + 1) as nat));
        }
        acc = acc * 10 + d;
        proof {
            let pre = s@.subrange(0, i as int);
            let now = s@.subrange(0, i + 1);
            assert(now.drop_last() =~= pre);
            assert(now.last() == s@[i as int]);
            assert(acc == digits_val(pre) * 10 + (s@[i as int] as nat - '0' as nat));
            assert(acc == digits_val(now));
        }
        i += 1;
    }
    proof {
        assert(s@.subrange(0, n as int) =~= s@);
    }
    Option::Some(acc)
}

pub proof fn lemma_pow10_18_bound()
    ensures
        pow10(18) == 1000000000000000000,
{
    reveal_with_fuel(pow10, 19);
}

pub proof fn lemma_pow10_increases(a: nat, b: nat)
    requires
        a <= b,
    ensures
        pow10(a) <= pow10(b),
    decreases b,
{
    if a < b {
        lemma_pow10_increases(a, (b - 1) as nat);
        assert(pow10(b) == 10 * pow10((b - 1) as nat));
    }
}

} // verus!
