//! Character-level helpers on strings: searching for a character from the
//! right and replacing every occurrence of a token.

use vstd::prelude::*;

verus! {

/// Position of the rightmost `c` in `s`, if any.
pub open spec fn last_index(s: Seq<char>, c: char) -> Option<int>
    decreases s.len(),
{
    if s.len() == 0 {
        None
    } else if s.last() == c {
        Some(s.len() - 1)
    } else {
        last_index(s.drop_last(), c)
    }
}

/// A found position is in range and holds `c`.
pub proof fn lemma_last_index_found(s: Seq<char>, c: char)
    ensures
        last_index(s, c) matches Some(i) ==> 0 <= i < s.len() && s[i] == c,
    decreases s.len(),
{
    if s.len() > 0 && s.last() != c {
        lemma_last_index_found(s.drop_last(), c);
    }
}

/// A `c` with no `c` after it is the rightmost one.
pub proof fn lemma_last_index_is(s: Seq<char>, c: char, i: int)
    requires
        0 <= i < s.len(),
        s[i] == c,
        forall|j: int| i < j < s.len() ==> s[j] != c,
    ensures
        last_index(s, c) == Some(i),
    decreases s.len(),
{
    if s.last() != c {
        lemma_last_index_is(s.drop_last(), c, i);
    }
}

/// Without any `c` there is no rightmost one.
pub proof fn lemma_last_index_none(s: Seq<char>, c: char)
    requires
        forall|j: int| 0 <= j < s.len() ==> s[j] != c,
    ensures
        last_index(s, c) is None,
    decreases s.len(),
{
    if s.len() > 0 {
        lemma_last_index_none(s.drop_last(), c);
    }
}

/// `pat` occurs in `s` starting at position `i`.
pub open spec fn occurs_at(s: Seq<char>, pat: Seq<char>, i: int) -> bool {
    0 <= i && i + pat.len() <= s.len() && s.subrange(i, i + pat.len()) == pat
}

/// `pat` occurs somewhere in `s`.
pub open spec fn occurs_in(s: Seq<char>, pat: Seq<char>) -> bool {
    exists|i: int| occurs_at(s, pat, i)
}

/// Every non-overlapping occurrence of `pat` in `s`, scanned from the left,
/// replaced by `rep`; the text in between is kept as it is.
pub open spec fn replace_all(s: Seq<char>, pat: Seq<char>, rep: Seq<char>) -> Seq<char>
    decreases s.len(),
{
    if pat.len() == 0 || s.len() < pat.len() {
        s
    } else if s.subrange(0, pat.len() as int) == pat {
        rep + replace_all(s.subrange(pat.len() as int, s.len() as int), pat, rep)
    } else {
        seq![s[0]] + replace_all(s.subrange(1, s.len() as int), pat, rep)
    }
}

/// `parts` with `sep` between each two neighbours.
pub open spec fn join_with(parts: Seq<Seq<char>>, sep: Seq<char>) -> Seq<char>
    decreases parts.len(),
{
    if parts.len() == 0 {
        Seq::empty()
    } else if parts.len() == 1 {
        parts[0]
    } else {
        parts[0] + sep + join_with(parts.drop_first(), sep)
    }
}

/// No proper prefix of `pat` is also a suffix of it, so two occurrences of
/// `pat` can never overlap.
pub open spec fn border_free(pat: Seq<char>) -> bool {
    forall|k: int|
        0 < k < pat.len() ==> #[trigger] pat.subrange(0, k) != pat.subrange(pat.len() - k, pat.len() as int)
}

/// Text in which no occurrence of `pat` starts comes out unchanged in front.
pub proof fn lemma_replace_skips_prefix(p: Seq<char>, rest: Seq<char>, pat: Seq<char>, rep: Seq<char>)
    requires
        pat.len() > 0,
        forall|i: int| 0 <= i < p.len() ==> !occurs_at(p + rest, pat, i),
    ensures
        replace_all(p + rest, pat, rep) == p + replace_all(rest, pat, rep),
    decreases p.len(),
{
    let s = p + rest;
    let m = pat.len() as int;
    if p.len() == 0 {
        assert(s =~= rest);
    } else if s.len() < m {
        assert(s =~= p + rest);
    } else {
        assert(!occurs_at(s, pat, 0));
        let p1 = p.drop_first();
        assert forall|i: int| 0 <= i < p1.len() implies !occurs_at(p1 + rest, pat, i) by {
            assert(!occurs_at(s, pat, i + 1));
            if i + m <= (p1 + rest).len() {
                assert((p1 + rest).subrange(i, i + m) =~= s.subrange(i + 1, i + 1 + m));
            }
        }
        lemma_replace_skips_prefix(p1, rest, pat, rep);
        assert(s.subrange(1, s.len() as int) =~= p1 + rest);
        assert(seq![s[0]] + (p1 + replace_all(rest, pat, rep)) =~= p + replace_all(rest, pat, rep));
    }
}

/// An occurrence of `pat` in front is replaced, and the scan goes on after it.
pub proof fn lemma_replace_head(rest: Seq<char>, pat: Seq<char>, rep: Seq<char>)
    requires
        pat.len() > 0,
    ensures
        replace_all(pat + rest, pat, rep) == rep + replace_all(rest, pat, rep),
{
    let s = pat + rest;
    assert(s.subrange(0, pat.len() as int) =~= pat);
    assert(s.subrange(pat.len() as int, s.len() as int) =~= rest);
}

/// Where `p` holds no `pat` and `pat` is border free, no occurrence of `pat`
/// starts inside `p` in `p + pat + rest`.
proof fn lemma_no_straddle(p: Seq<char>, pat: Seq<char>, rest: Seq<char>)
    requires
        pat.len() > 0,
        border_free(pat),
        !occurs_in(p, pat),
    ensures
        forall|i: int| 0 <= i < p.len() ==> !occurs_at(p + (pat + rest), pat, i),
{
    let s = p + (pat + rest);
    let m = pat.len() as int;
    let n = p.len() as int;
    assert forall|i: int| 0 <= i < n implies !occurs_at(s, pat, i) by {
        if occurs_at(s, pat, i) {
            if i + m <= n {
                assert(p.subrange(i, i + m) =~= s.subrange(i, i + m));
                assert(occurs_at(p, pat, i));
            } else {
                let k = i + m - n;
                assert(pat.subrange(0, k) =~= pat.subrange(m - k, m)) by {
                    assert forall|j: int| 0 <= j < k implies pat.subrange(0, k)[j] == pat.subrange(
                        m - k,
                        m,
                    )[j] by {
                        assert(s.subrange(i, i + m)[m - k + j] == s[n + j]);
                    }
                }
                assert(pat.subrange(0, k) != pat.subrange(m - k, m));
            }
        }
    }
}

/// Replacing `pat` in `parts` joined by `pat` gives `parts` joined by `rep`,
/// where no part holds `pat` and `pat` is border free.
pub proof fn lemma_replace_joined(parts: Seq<Seq<char>>, pat: Seq<char>, rep: Seq<char>)
    requires
        pat.len() > 0,
        border_free(pat),
        parts.len() >= 1,
        forall|i: int| 0 <= i < parts.len() ==> !occurs_in(#[trigger] parts[i], pat),
    ensures
        replace_all(join_with(parts, pat), pat, rep) == join_with(parts, rep),
    decreases parts.len(),
{
    let p0 = parts[0];
    if parts.len() == 1 {
        assert forall|i: int| 0 <= i < p0.len() implies !occurs_at(p0 + Seq::<char>::empty(), pat, i) by {
            assert(p0 + Seq::<char>::empty() =~= p0);
        }
        lemma_replace_skips_prefix(p0, Seq::empty(), pat, rep);
        assert(p0 + Seq::<char>::empty() =~= p0);
        assert(replace_all(Seq::<char>::empty(), pat, rep) =~= Seq::<char>::empty());
    } else {
        let tail = parts.drop_first();
        assert forall|i: int| 0 <= i < tail.len() implies !occurs_in(#[trigger] tail[i], pat) by {
            assert(tail[i] == parts[i + 1]);
        }
        lemma_replace_joined(tail, pat, rep);
        let rest = join_with(tail, pat);
        lemma_no_straddle(p0, pat, rest);
        lemma_replace_skips_prefix(p0, pat + rest, pat, rep);
        lemma_replace_head(rest, pat, rep);
        assert(join_with(parts, pat) =~= p0 + (pat + rest));
        assert(join_with(parts, rep) =~= p0 + (rep + join_with(tail, rep)));
    }
}

/// Finds the rightmost `c` in `s`.
pub fn last_index_of(s: &str, c: char) -> (r: Option<usize>)
    ensures
        match r {
            Some(i) => last_index(s@, c) == Some(i as int),
            None => last_index(s@, c) is None,
        },
{
    let n = s.unicode_len();
    let mut i: usize = n;
    assert(s@.subrange(0, n as int) =~= s@);
    while i > 0
        invariant
            i <= n,
            n == s@.len(),
            last_index(s@, c) == last_index(s@.subrange(0, i as int), c),
        decreases i,
    {
        let ch = s.get_char(i - 1);
        if ch == c {
            return Some(i - 1);
        }
        assert(s@.subrange(0, i - 1) =~= s@.subrange(0, i as int).drop_last());
        i = i - 1;
    }
    assert(s@.subrange(0, 0) =~= Seq::<char>::empty());
    None
}

/// Whether `pat` occurs in `s` at position `i`.
fn matches_at(s: &str, pat: &str, i: usize) -> (r: bool)
    requires
        i + pat@.len() <= s@.len() <= usize::MAX,
    ensures
        r == (s@.subrange(i as int, i + pat@.len()) == pat@),
{
    let m = pat.unicode_len();
    let mut j: usize = 0;
    while j < m
        invariant
            j <= m,
            m == pat@.len(),
            i + m <= s@.len() <= usize::MAX,
            forall|k: int| 0 <= k < j ==> s@[i + k] == pat@[k],
        decreases m - j,
    {
        if s.get_char(i + j) != pat.get_char(j) {
            assert(s@.subrange(i as int, i + m)[j as int] != pat@[j as int]);
            return false;
        }
        j = j + 1;
    }
    assert(s@.subrange(i as int, i + m) =~= pat@);
    true
}

/// Replaces every occurrence of `pat` in `s` by `rep`, left to right.
pub fn replace_token(s: &str, pat: &str, rep: &str) -> (r: String)
    requires
        pat@.len() > 0,
    ensures
        r@ == replace_all(s@, pat@, rep@),
{
    let n = s.unicode_len();
    let m = pat.unicode_len();
    let mut out = String::new();
    let mut i: usize = 0;
    assert(s@.subrange(0, n as int) =~= s@);
    assert(out@ =~= Seq::<char>::empty());
    while m <= n - i
        invariant
            i <= n,
            n == s@.len(),
            m == pat@.len(),
            m > 0,
            out@ + replace_all(s@.subrange(i as int, n as int), pat@, rep@) == replace_all(
                s@,
                pat@,
                rep@,
            ),
        decreases n - i,
    {
        let ghost t = s@.subrange(i as int, n as int);
        if matches_at(s, pat, i) {
            assert(t.subrange(0, m as int) =~= s@.subrange(i as int, i + m));
            assert(t.subrange(m as int, t.len() as int) =~= s@.subrange(i + m, n as int));
            out.append(rep);
            assert(out@ + replace_all(s@.subrange(i + m, n as int), pat@, rep@) =~= replace_all(
                s@,
                pat@,
                rep@,
            ));
            i = i + m;
        } else {
            assert(t.subrange(0, m as int) =~= s@.subrange(i as int, i + m));
            assert(t.subrange(1, t.len() as int) =~= s@.subrange(i + 1, n as int));
            let one = s.substring_char(i, i + 1);
            assert(one@ =~= seq![t[0]]);
            out.append(one);
            assert(out@ + replace_all(s@.subrange(i + 1, n as int), pat@, rep@) =~= replace_all(
                s@,
                pat@,
                rep@,
            ));
            i = i + 1;
        }
    }
    let rest = s.substring_char(i, n);
    out.append(rest);
    out
}

} // verus!
