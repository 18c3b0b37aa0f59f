//! Searching and replacing over character sequences.
//!
//! These are the string primitives the rest of the library is specified
//! with: substring search and literal, non-overlapping, left-to-right
//! replacement of every occurrence of a pattern.

use vstd::prelude::*;

verus! {

/// Whether `pat` occurs in `s` as a contiguous run.
pub open spec fn contains_seq(s: Seq<char>, pat: Seq<char>) -> bool {
    exists|i: int|
        0 <= i && i + pat.len() <= s.len() && #[trigger] s.subrange(i, i + pat.len()) == pat
}

/// The index of the first occurrence of `pat` in `s`, or `-1` when there is
/// none.
pub open spec fn find_at(s: Seq<char>, pat: Seq<char>) -> int
    decreases s.len(),
{
    if s.len() < pat.len() {
        -1
    } else if s.subrange(0, pat.len() as int) == pat {
        0
    } else if s.len() == 0 {
        -1
    } else {
        let r = find_at(s.drop_first(), pat);
        if r < 0 {
            -1
        } else {
            r + 1
        }
    }
}

/// `find_at` returns the first occurrence: a match where it points, no match
/// anywhere before it, and no match at all when it is negative.
pub proof fn lemma_find_at(s: Seq<char>, pat: Seq<char>)
    ensures
        find_at(s, pat) >= 0 ==> find_at(s, pat) + pat.len() <= s.len(),
        find_at(s, pat) >= 0 ==> s.subrange(find_at(s, pat), find_at(s, pat) + pat.len()) == pat,
        forall|j: int|
            0 <= j && j + pat.len() <= s.len() && j < find_at(s, pat) || find_at(s, pat) < 0 && 0
                <= j && j + pat.len() <= s.len() ==> #[trigger] s.subrange(j, j + pat.len()) != pat,
        (find_at(s, pat) >= 0) <==> contains_seq(s, pat),
    decreases s.len(),
{
    if s.len() < pat.len() {
    } else if s.subrange(0, pat.len() as int) == pat {
        lemma_contains_witness(s, pat, 0);
    } else if s.len() == 0 {
        assert(s.subrange(0, pat.len() as int) =~= pat);
    } else {
        let t = s.drop_first();
        lemma_find_at(t, pat);
        assert forall|j: int| 1 <= j && j + pat.len() <= s.len() implies #[trigger] s.subrange(
            j,
            j + pat.len(),
        ) == t.subrange(j - 1, j - 1 + pat.len()) by {
            assert(s.subrange(j, j + pat.len()) =~= t.subrange(j - 1, j - 1 + pat.len()));
        }
        let r = find_at(t, pat);
        if r >= 0 {
            assert(s.subrange(r + 1, r + 1 + pat.len()) == pat);
            lemma_contains_witness(s, pat, r + 1);
        } else {
            assert forall|j: int| 0 <= j && j + pat.len() <= s.len() implies #[trigger] s.subrange(
                j,
                j + pat.len(),
            ) != pat by {
                if j > 0 {
                    assert(t.subrange(j - 1, j - 1 + pat.len()) != pat);
                }
            }
        }
    }
}

/// A position where `pat` matches witnesses that `s` contains it.
pub proof fn lemma_contains_witness(s: Seq<char>, pat: Seq<char>, i: int)
    requires
        0 <= i,
        i + pat.len() <= s.len(),
        s.subrange(i, i + pat.len()) == pat,
    ensures
        contains_seq(s, pat),
{
}

/// Compares `pat` against the characters of `s` starting at `i`.
fn match_at(s: &str, pat: &str, i: usize) -> (r: bool)
    requires
        i + pat@.len() <= s@.len(),
    ensures
        r == (s@.subrange(i as int, i + pat@.len()) == pat@),
{
    let n = s.unicode_len();
    let m = pat.unicode_len();
    let mut j: usize = 0;
    while j < m
        invariant
            j <= m,
            n == s@.len(),
            m == pat@.len(),
            i + m <= n,
            forall|k: int| 0 <= k < j ==> s@[i + k] == pat@[k],
        decreases m - j,
    {
        if s.get_char(i + j) != pat.get_char(j) {
            assert(s@.subrange(i as int, i + pat@.len())[j as int] != pat@[j as int]);
            return false;
        }
        j += 1;
    }
    assert(s@.subrange(i as int, i + pat@.len()) =~= pat@);
    true
}

/// The index of the first occurrence of `pat` in `s`, if any.
pub fn find_str(s: &str, pat: &str) -> (r: Option<usize>)
    requires
        pat@.len() > 0,
    ensures
        match r {
            Some(i) => find_at(s@, pat@) == i,
            None => find_at(s@, pat@) == -1,
        },
{
    proof {
        lemma_find_at(s@, pat@);
    }
    let n = s.unicode_len();
    let m = pat.unicode_len();
    if m > n {
        return None;
    }
    let mut i: usize = 0;
    while i <= n - m
        invariant
            m <= n,
            n == s@.len(),
            m == pat@.len(),
            i <= n - m + 1,
            m > 0,
            forall|j: int| 0 <= j < i ==> #[trigger] s@.subrange(j, j + pat@.len()) != pat@,
        decreases n - i,
    {
        if match_at(s, pat, i) {
            proof {
                lemma_find_at(s@, pat@);
                let f = find_at(s@, pat@);
                lemma_contains_witness(s@, pat@, i as int);
                assert(f >= 0);
                if f < i {
                    assert(s@.subrange(f, f + pat@.len()) == pat@);
                    assert(s@.subrange(f, f + pat@.len()) != pat@);
                } else if f > i {
                    assert(s@.subrange(i as int, i + pat@.len()) != pat@);
                }
            }
            return Some(i);
        }
        i += 1;
    }
    proof {
        lemma_find_at(s@, pat@);
        let f = find_at(s@, pat@);
        if f >= 0 {
            assert(s@.subrange(f, f + pat@.len()) == pat@);
            assert(s@.subrange(f, f + pat@.len()) != pat@);
        }
    }
    None
}

/// Whether `pat` occurs anywhere in `s`.
pub fn contains_str(s: &str, pat: &str) -> (r: bool)
    requires
        pat@.len() > 0,
    ensures
        r == contains_seq(s@, pat@),
{
    proof {
        lemma_find_at(s@, pat@);
    }
    match find_str(s, pat) {
        Some(_) => true,
        None => false,
    }
}

/// `s` with every occurrence of `pat` replaced by `rep`: literal,
/// non-overlapping, scanning left to right. An empty pattern replaces
/// nothing.
pub open spec fn replace_all(s: Seq<char>, pat: Seq<char>, rep: Seq<char>) -> Seq<char>
    decreases s.len(),
{
    if pat.len() == 0 || s.len() < pat.len() {
        s
    } else if s.subrange(0, pat.len() as int) == pat {
        rep + replace_all(s.skip(pat.len() as int), pat, rep)
    } else {
        seq![s[0]] + replace_all(s.drop_first(), pat, rep)
    }
}

/// Unfolds `replace_all` one step at a position where the pattern does not
/// start.
proof fn lemma_replace_all_step_miss(s: Seq<char>, pat: Seq<char>, rep: Seq<char>)
    requires
        pat.len() > 0,
        s.len() > 0,
        s.len() < pat.len() || s.subrange(0, pat.len() as int) != pat,
    ensures
        replace_all(s, pat, rep) == seq![s[0]] + replace_all(s.drop_first(), pat, rep),
{
    if s.len() < pat.len() {
        assert(s.drop_first().len() < pat.len());
        assert(seq![s[0]] + s.drop_first() =~= s);
    }
}

/// A sequence with no occurrence of the pattern is passed through
/// replacement unchanged.
pub proof fn lemma_replace_all_absent(s: Seq<char>, pat: Seq<char>, rep: Seq<char>)
    requires
        pat.len() > 0,
        !contains_seq(s, pat),
    ensures
        replace_all(s, pat, rep) == s,
    decreases s.len(),
{
    if s.len() < pat.len() {
    } else {
        assert(s.subrange(0, pat.len() as int) != pat) by {
            if s.subrange(0, pat.len() as int) == pat {
                lemma_contains_witness(s, pat, 0);
            }
        }
        assert(!contains_seq(s.drop_first(), pat)) by {
            if contains_seq(s.drop_first(), pat) {
                let i = choose|i: int|
                    0 <= i && i + pat.len() <= s.drop_first().len() && #[trigger] s.drop_first()
                        .subrange(i, i + pat.len()) == pat;
                assert(s.subrange(i + 1, i + 1 + pat.len()) =~= s.drop_first().subrange(
                    i,
                    i + pat.len(),
                ));
                lemma_contains_witness(s, pat, i + 1);
            }
        }
        lemma_replace_all_absent(s.drop_first(), pat, rep);
        lemma_replace_all_step_miss(s, pat, rep);
        assert(seq![s[0]] + s.drop_first() =~= s);
    }
}

/// Replacement takes the text before the first occurrence of the pattern
/// over unchanged, substitutes that occurrence, and continues behind it:
/// applied repeatedly, every occurrence is replaced in turn.
pub proof fn lemma_replace_all_first_occurrence(s: Seq<char>, pat: Seq<char>, rep: Seq<char>)
    requires
        pat.len() > 0,
        contains_seq(s, pat),
    ensures
        find_at(s, pat) >= 0,
        replace_all(s, pat, rep) == s.take(find_at(s, pat)) + rep + replace_all(
            s.skip(find_at(s, pat) + pat.len()),
            pat,
            rep,
        ),
    decreases s.len(),
{
    lemma_find_at(s, pat);
    let f = find_at(s, pat);
    if f == 0 {
        assert(s.subrange(0, pat.len() as int) == pat);
        assert(s.take(0) + rep + replace_all(s.skip(pat.len() as int), pat, rep) =~= rep
            + replace_all(s.skip(pat.len() as int), pat, rep));
    } else {
        assert(s.subrange(0, pat.len() as int) != pat);
        lemma_replace_all_step_miss(s, pat, rep);
        let t = s.drop_first();
        lemma_find_at(t, pat);
        assert(t.subrange(f - 1, f - 1 + pat.len()) =~= s.subrange(f, f + pat.len()));
        lemma_contains_witness(t, pat, f - 1);
        let g = find_at(t, pat);
        if g < f - 1 {
            assert(s.subrange(g + 1, g + 1 + pat.len()) =~= t.subrange(g, g + pat.len()));
            assert(s.subrange(g + 1, g + 1 + pat.len()) != pat);
        }
        if g > f - 1 {
            assert(t.subrange(f - 1, f - 1 + pat.len()) != pat);
        }
        assert(g == f - 1);
        lemma_replace_all_first_occurrence(t, pat, rep);
        assert(t.skip(f - 1 + pat.len()) =~= s.skip(f + pat.len()));
        assert(seq![s[0]] + (t.take(f - 1) + rep + replace_all(t.skip(f - 1 + pat.len()), pat, rep))
            =~= s.take(f) + rep + replace_all(s.skip(f + pat.len()), pat, rep));
    }
}

/// Replaces every occurrence of `pat` in `s` by `rep`, scanning left to
/// right without overlap.
pub fn replace_all_str(s: &str, pat: &str, rep: &str) -> (r: String)
    requires
        pat@.len() > 0,
    ensures
        r@ == replace_all(s@, pat@, rep@),
{
    let n = s.unicode_len();
    let m = pat.unicode_len();
    let mut out = String::new();
    let mut seg_start: usize = 0;
    let mut i: usize = 0;
    proof {
        assert(s@.skip(0) =~= s@);
        assert(out@ + s@.subrange(0, 0) + replace_all(s@, pat@, rep@) =~= replace_all(
            s@,
            pat@,
            rep@,
        ));
    }
    while i < n
        invariant
            n == s@.len(),
            m == pat@.len(),
            m > 0,
            seg_start <= i <= n,
            replace_all(s@, pat@, rep@) == out@ + s@.subrange(seg_start as int, i as int)
                + replace_all(s@.skip(i as int), pat@, rep@),
        decreases n - i,
    {
        let ghost pre_out = out@;
        let ghost pre_i = i as int;
        let ghost pre_seg = seg_start as int;
        let ghost t = s@.skip(pre_i);
        if m <= n && i <= n - m && match_at(s, pat, i) {
            proof {
                assert(t.subrange(0, pat@.len() as int) =~= s@.subrange(pre_i, pre_i + m));
                assert(t.skip(pat@.len() as int) =~= s@.skip(pre_i + m));
                assert(replace_all(t, pat@, rep@) == rep@ + replace_all(
                    s@.skip(pre_i + m),
                    pat@,
                    rep@,
                ));
            }
            out.append(s.substring_char(seg_start, i));
            out.append(rep);
            i += m;
            seg_start = i;
            proof {
                assert(out@ == pre_out + s@.subrange(pre_seg, pre_i) + rep@);
                assert(s@.subrange(i as int, i as int) =~= Seq::<char>::empty());
                assert(out@ + s@.subrange(i as int, i as int) + replace_all(
                    s@.skip(i as int),
                    pat@,
                    rep@,
                ) =~= pre_out + s@.subrange(pre_seg, pre_i) + (rep@ + replace_all(
                    s@.skip(pre_i + m),
                    pat@,
                    rep@,
                )));
            }
        } else {
            proof {
                assert(t[0] == s@[pre_i]);
                if pre_i + m <= n {
                    assert(t.subrange(0, pat@.len() as int) =~= s@.subrange(pre_i, pre_i + m));
                    assert(t.subrange(0, pat@.len() as int) != pat@);
                } else {
                    assert(t.len() < pat@.len());
                }
                lemma_replace_all_step_miss(t, pat@, rep@);
                assert(t.drop_first() =~= s@.skip(pre_i + 1));
            }
            i += 1;
            proof {
                assert(out@ + s@.subrange(pre_seg, i as int) + replace_all(
                    s@.skip(i as int),
                    pat@,
                    rep@,
                ) =~= pre_out + s@.subrange(pre_seg, pre_i) + (seq![s@[pre_i]] + replace_all(
                    s@.skip(pre_i + 1),
                    pat@,
                    rep@,
                )));
            }
        }
    }
    out.append(s.substring_char(seg_start, n));
    proof {
        assert(s@.skip(n as int) =~= Seq::<char>::empty());
        assert(replace_all(s@.skip(n as int), pat@, rep@) == Seq::<char>::empty());
        assert(out@ =~= out@ + Seq::<char>::empty());
    }
    out
}

} // verus!
