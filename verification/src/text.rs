//! Character-sequence machinery: whitespace, pattern search, trimming and
//! splitting, each as a spec function with a verified executable counterpart.
//!
//! All executable functions work on `Vec<char>`, whose view is the same
//! `Seq<char>` that a `str`'s view is, so contracts over these spec functions
//! speak directly about the text handed in.

use vstd::prelude::*;

verus! {

/// The Unicode `White_Space` characters: exactly the set that `str::trim`
/// removes from both ends of a string.
pub open spec fn is_space(c: char) -> bool {
    let u = c as u32;
    ||| u == 0x09
    ||| u == 0x0A
    ||| u == 0x0B
    ||| u == 0x0C
    ||| u == 0x0D
    ||| u == 0x20
    ||| u == 0x85
    ||| u == 0xA0
    ||| u == 0x1680
    ||| (0x2000 <= u && u <= 0x200A)
    ||| u == 0x2028
    ||| u == 0x2029
    ||| u == 0x202F
    ||| u == 0x205F
    ||| u == 0x3000
}

/// Executable test for `is_space`.
pub fn is_space_char(c: char) -> (r: bool)
    ensures
        r == is_space(c),
{
    let u = c as u32;
    u == 0x09 || u == 0x0A || u == 0x0B || u == 0x0C || u == 0x0D || u == 0x20 || u == 0x85
        || u == 0xA0 || u == 0x1680 || (0x2000 <= u && u <= 0x200A) || u == 0x2028 || u == 0x2029
        || u == 0x202F || u == 0x205F || u == 0x3000
}

/// `pat` occurs in `s` starting at index `i`.
pub open spec fn matches_at(s: Seq<char>, pat: Seq<char>, i: int) -> bool {
    0 <= i && i + pat.len() <= s.len() && s.subrange(i, i + pat.len() as int) == pat
}

/// `pat` occurs somewhere in `s`.
pub open spec fn has_pattern(s: Seq<char>, pat: Seq<char>) -> bool {
    exists|i: int| matches_at(s, pat, i)
}

/// Whether `pat` stands at position `i` of `hay`.
pub fn window_matches(hay: &Vec<char>, pat: &Vec<char>, i: usize) -> (r: bool)
    requires
        i + pat@.len() <= hay@.len(),
    ensures
        r == matches_at(hay@, pat@, i as int),
{
    let n = hay.len();
    let m = pat.len();
    let mut j: usize = 0;
    while j < m
        invariant
            n == hay@.len(),
            m == pat@.len(),
            i + m <= n,
            j <= m,
            forall|k: int| 0 <= k < j ==> hay@[i + k] == pat@[k],
        decreases m - j,
    {
        if hay[i + j] != pat[j] {
            proof {
                assert(!matches_at(hay@, pat@, i as int)) by {
                    if matches_at(hay@, pat@, i as int) {
                        assert(hay@.subrange(i as int, i + pat@.len() as int)[j as int]
                            == hay@[i + j]);
                    }
                }
            }
            return false;
        }
        j += 1;
    }
    proof {
        assert(hay@.subrange(i as int, i + m as int) =~= pat@);
    }
    true
}

/// Whether `pat` occurs anywhere in `hay`; scans every window.
pub fn contains_pattern(hay: &Vec<char>, pat: &Vec<char>) -> (r: bool)
    requires
        pat@.len() >= 1,
    ensures
        r == has_pattern(hay@, pat@),
{
    let n = hay.len();
    let m = pat.len();
    if m > n {
        proof {
            assert(!has_pattern(hay@, pat@)) by {
                if has_pattern(hay@, pat@) {
                    let k = choose|k: int| matches_at(hay@, pat@, k);
                    assert(k + m <= n);
                }
            }
        }
        return false;
    }
    let mut i: usize = 0;
    while i <= n - m
        invariant
            1 <= m <= n,
            n == hay@.len(),
            m == pat@.len(),
            i <= n - m + 1,
            forall|k: int| 0 <= k < i ==> !matches_at(hay@, pat@, k),
        decreases n - i,
    {
        if window_matches(hay, pat, i) {
            proof {
                assert(has_pattern(hay@, pat@)) by {
                    assert(matches_at(hay@, pat@, i as int));
                }
            }
            return true;
        }
        i += 1;
    }
    proof {
        assert(!has_pattern(hay@, pat@)) by {
            if has_pattern(hay@, pat@) {
                let k = choose|k: int| matches_at(hay@, pat@, k);
                assert(0 <= k < i);
            }
        }
    }
    false
}

/// `s` without its leading whitespace.
pub open spec fn trim_left(s: Seq<char>) -> Seq<char>
    decreases s.len(),
{
    if s.len() > 0 && is_space(s[0]) {
        trim_left(s.skip(1))
    } else {
        s
    }
}

/// `s` without its trailing whitespace.
pub open spec fn trim_right(s: Seq<char>) -> Seq<char>
    decreases s.len(),
{
    if s.len() > 0 && is_space(s[s.len() - 1]) {
        trim_right(s.drop_last())
    } else {
        s
    }
}

/// `s` without leading and trailing whitespace: what `str::trim` returns.
pub open spec fn trim(s: Seq<char>) -> Seq<char> {
    trim_right(trim_left(s))
}

/// Every character of `s` is whitespace.
pub open spec fn all_space(s: Seq<char>) -> bool {
    forall|i: int| 0 <= i < s.len() ==> is_space(s[i])
}

/// Trimming a copy of `s`.
pub fn trim_chars(s: &Vec<char>) -> (r: Vec<char>)
    ensures
        r@ == trim(s@),
{
    let n = s.len();
    let mut lo: usize = 0;
    proof {
        assert(s@.skip(0) =~= s@);
    }
    while lo < n && is_space_char(s[lo])
        invariant
            n == s@.len(),
            lo <= n,
            trim_left(s@) == trim_left(s@.skip(lo as int)),
        decreases n - lo,
    {
        proof {
            assert(s@.skip(lo as int)[0] == s@[lo as int]);
            assert(s@.skip(lo as int).skip(1) =~= s@.skip(lo as int + 1));
        }
        lo += 1;
    }
    proof {
        if lo == n {
            assert(s@.skip(lo as int) =~= Seq::<char>::empty());
        }
        assert(trim_left(s@) == s@.skip(lo as int));
    }
    let mut hi: usize = n;
    proof {
        assert(s@.skip(lo as int).take(n - lo) =~= s@.skip(lo as int));
    }
    while hi > lo && is_space_char(s[hi - 1])
        invariant
            n == s@.len(),
            lo <= hi <= n,
            trim_left(s@) == s@.skip(lo as int),
            trim_right(s@.skip(lo as int)) == trim_right(s@.skip(lo as int).take(hi - lo)),
        decreases hi,
    {
        proof {
            let t = s@.skip(lo as int);
            let k = hi - lo;
            assert(t.take(k as int)[k - 1] == s@[hi - 1]);
            assert(t.take(k as int).drop_last() =~= t.take(k as int - 1));
        }
        hi -= 1;
    }
    proof {
        let t = s@.skip(lo as int);
        if hi == lo {
            assert(t.take(0) =~= Seq::<char>::empty());
        } else {
            assert(t.take((hi - lo) as int)[(hi - lo) as int - 1] == s@[hi - 1]);
        }
        assert(trim(s@) == t.take((hi - lo) as int));
        assert(t.take((hi - lo) as int) =~= s@.subrange(lo as int, hi as int));
    }
    let mut r: Vec<char> = Vec::new();
    let mut j: usize = lo;
    while j < hi
        invariant
            lo <= j <= hi <= n,
            n == s@.len(),
            r@ == s@.subrange(lo as int, j as int),
        decreases hi - j,
    {
        r.push(s[j]);
        proof {
            assert(s@.subrange(lo as int, j + 1) =~= s@.subrange(lo as int, j as int).push(
                s@[j as int],
            ));
        }
        j += 1;
    }
    r
}

/// `s` split on every occurrence of `pat`, leftmost first, occurrences not
/// overlapping: what `str::split` yields.  Always at least one segment; the
/// separators themselves appear in no segment.
pub open spec fn split_on(s: Seq<char>, pat: Seq<char>) -> Seq<Seq<char>>
    recommends
        pat.len() >= 1,
    decreases s.len(),
{
    if pat.len() == 0 || s.len() == 0 {
        seq![s]
    } else if s.len() >= pat.len() && s.subrange(0, pat.len() as int) == pat {
        seq![Seq::<char>::empty()] + split_on(s.skip(pat.len() as int), pat)
    } else {
        let rest = split_on(s.skip(1), pat);
        seq![seq![s[0]] + rest[0]] + rest.skip(1)
    }
}

/// The views of a vector of character vectors.
pub open spec fn views_of(vs: Seq<Vec<char>>) -> Seq<Seq<char>> {
    vs.map_values(|v: Vec<char>| v@)
}

/// `segs` with `p` glued onto the front of its first segment.
pub open spec fn prepend_first(p: Seq<char>, segs: Seq<Seq<char>>) -> Seq<Seq<char>>
    recommends
        segs.len() >= 1,
{
    seq![p + segs[0]] + segs.skip(1)
}

pub proof fn lemma_split_on_len(s: Seq<char>, pat: Seq<char>)
    ensures
        split_on(s, pat).len() >= 1,
{
    if pat.len() == 0 || s.len() == 0 {
    } else if s.len() >= pat.len() && s.subrange(0, pat.len() as int) == pat {
    } else {
    }
}

/// Unfolds `split_on` at a separator occurrence.
pub proof fn lemma_split_step_match(s: Seq<char>, pat: Seq<char>, i: int)
    requires
        pat.len() >= 1,
        matches_at(s, pat, i),
    ensures
        split_on(s.skip(i), pat) == seq![Seq::<char>::empty()] + split_on(
            s.skip(i + pat.len()),
            pat,
        ),
{
    let t = s.skip(i);
    assert(t.subrange(0, pat.len() as int) =~= s.subrange(i, i + pat.len() as int));
    assert(t.skip(pat.len() as int) =~= s.skip(i + pat.len()));
}

/// Unfolds `split_on` at a position where the separator does not occur.
pub proof fn lemma_split_step_char(s: Seq<char>, pat: Seq<char>, i: int)
    requires
        pat.len() >= 1,
        0 <= i < s.len(),
        !matches_at(s, pat, i),
    ensures
        ({
            let rest = split_on(s.skip(i + 1), pat);
            split_on(s.skip(i), pat) == seq![seq![s[i]] + rest[0]] + rest.skip(1)
        }),
{
    let t = s.skip(i);
    if t.len() >= pat.len() {
        assert(t.subrange(0, pat.len() as int) =~= s.subrange(i, i + pat.len() as int));
        assert(t.subrange(0, pat.len() as int) != pat) by {
            if t.subrange(0, pat.len() as int) == pat {
                assert(matches_at(s, pat, i));
            }
        }
    }
    assert(t.skip(1) =~= s.skip(i + 1));
    assert(t[0] == s[i]);
}

/// A separator-free text splits into the single segment that it is.
pub proof fn lemma_split_no_pattern(s: Seq<char>, pat: Seq<char>)
    requires
        pat.len() >= 1,
        !has_pattern(s, pat),
    ensures
        split_on(s, pat) == seq![s],
    decreases s.len(),
{
    if s.len() == 0 {
    } else {
        assert(!matches_at(s, pat, 0));
        if s.len() >= pat.len() {
            assert(s.subrange(0, pat.len() as int) != pat) by {
                if s.subrange(0, pat.len() as int) == pat {
                    assert(matches_at(s, pat, 0));
                }
            }
        }
        assert(!has_pattern(s.skip(1), pat)) by {
            if has_pattern(s.skip(1), pat) {
                let k = choose|k: int| matches_at(s.skip(1), pat, k);
                assert(s.subrange(k + 1, k + 1 + pat.len() as int) =~= s.skip(1).subrange(
                    k,
                    k + pat.len() as int,
                ));
                assert(matches_at(s, pat, k + 1));
            }
        }
        lemma_split_no_pattern(s.skip(1), pat);
        assert(seq![s[0]] + s.skip(1) =~= s);
        assert(seq![s.skip(1)].skip(1) =~= Seq::<Seq<char>>::empty());
        assert(split_on(s, pat) =~= seq![s]);
    }
}

/// If trimming the right empties a text, the text was whitespace throughout.
pub proof fn lemma_trim_right_empty_all_space(s: Seq<char>)
    requires
        trim_right(s).len() == 0,
    ensures
        all_space(s),
    decreases s.len(),
{
    if s.len() > 0 && is_space(s[s.len() - 1]) {
        lemma_trim_right_empty_all_space(s.drop_last());
        assert forall|i: int| 0 <= i < s.len() implies is_space(s[i]) by {
            if i < s.len() - 1 {
                assert(s.drop_last()[i] == s[i]);
            }
        }
    }
}

/// `trim_left` removes an all-whitespace prefix and keeps the rest.
pub proof fn lemma_trim_left_suffix(s: Seq<char>)
    ensures
        exists|k: int|
            0 <= k <= s.len() && trim_left(s) == s.skip(k) && all_space(#[trigger] s.take(k)),
    decreases s.len(),
{
    if s.len() > 0 && is_space(s[0]) {
        lemma_trim_left_suffix(s.skip(1));
        let k = choose|k: int|
            0 <= k <= s.skip(1).len() && trim_left(s.skip(1)) == s.skip(1).skip(k) && all_space(
                #[trigger] s.skip(1).take(k),
            );
        assert(s.skip(1).skip(k) =~= s.skip(k + 1));
        assert(all_space(s.take(k + 1))) by {
            assert forall|i: int| 0 <= i < k + 1 implies is_space(#[trigger] s.take(k + 1)[i]) by {
                if i > 0 {
                    assert(s.skip(1).take(k)[i - 1] == s[i]);
                }
            }
        }
        assert(trim_left(s) == s.skip(k + 1) && all_space(s.take(k + 1)));
    } else {
        assert(s.skip(0) =~= s);
        assert(all_space(s.take(0)));
        assert(trim_left(s) == s.skip(0) && all_space(s.take(0)));
    }
}

/// A text that trims to nothing is whitespace throughout.
pub proof fn lemma_trim_empty_all_space(s: Seq<char>)
    requires
        trim(s).len() == 0,
    ensures
        all_space(s),
{
    lemma_trim_right_empty_all_space(trim_left(s));
    lemma_trim_left_suffix(s);
    let k = choose|k: int|
        0 <= k <= s.len() && trim_left(s) == s.skip(k) && all_space(#[trigger] s.take(k));
    assert forall|i: int| 0 <= i < s.len() implies is_space(s[i]) by {
        if i < k {
            assert(s.take(k)[i] == s[i]);
        } else {
            assert(s.skip(k)[i - k] == s[i]);
        }
    }
}

/// Splitting `s` on `pat`, done iteratively.
pub fn split_pattern(s: &Vec<char>, pat: &Vec<char>) -> (r: Vec<Vec<char>>)
    requires
        pat@.len() >= 1,
    ensures
        views_of(r@) == split_on(s@, pat@),
{
    let n = s.len();
    let m = pat.len();
    let mut segs: Vec<Vec<char>> = Vec::new();
    let mut cur: Vec<char> = Vec::new();
    let mut i: usize = 0;
    proof {
        lemma_split_on_len(s@, pat@);
        assert(s@.skip(0) =~= s@);
        let x = split_on(s@, pat@);
        assert(prepend_first(cur@, x) =~~= x);
        assert(views_of(segs@) + prepend_first(cur@, x) =~~= x);
    }
    while i < n
        invariant
            n == s@.len(),
            m == pat@.len(),
            m >= 1,
            i <= n,
            split_on(s@, pat@) == views_of(segs@) + prepend_first(
                cur@,
                split_on(s@.skip(i as int), pat@),
            ),
        decreases n - i,
    {
        let is_match = if m <= n && i <= n - m {
            window_matches(s, pat, i)
        } else {
            proof {
                assert(!matches_at(s@, pat@, i as int));
            }
            false
        };
        if is_match {
            proof {
                lemma_split_step_match(s@, pat@, i as int);
                let x = split_on(s@.skip(i + m), pat@);
                lemma_split_on_len(s@.skip(i + m), pat@);
                assert(prepend_first(cur@, seq![Seq::<char>::empty()] + x) =~~= seq![cur@] + x)
                    by {
                    assert((seq![Seq::<char>::empty()] + x).skip(1) =~~= x);
                    assert(cur@ + Seq::<char>::empty() =~= cur@);
                }
                assert(views_of(segs@.push(cur)) =~~= views_of(segs@).push(cur@));
                assert(prepend_first(Seq::<char>::empty(), x) =~~= x);
                assert(views_of(segs@) + (seq![cur@] + x) =~~= views_of(segs@).push(cur@) + x);
            }
            segs.push(cur);
            cur = Vec::new();
            i += m;
        } else {
            proof {
                lemma_split_step_char(s@, pat@, i as int);
                let x = split_on(s@.skip(i + 1), pat@);
                lemma_split_on_len(s@.skip(i + 1), pat@);
                assert(prepend_first(cur@, seq![seq![s@[i as int]] + x[0]] + x.skip(1))
                    =~~= prepend_first(cur@.push(s@[i as int]), x)) by {
                    assert((seq![seq![s@[i as int]] + x[0]] + x.skip(1)).skip(1) =~~= x.skip(1));
                    assert(cur@ + (seq![s@[i as int]] + x[0]) =~= cur@.push(s@[i as int]) + x[0]);
                }
            }
            cur.push(s[i]);
            i += 1;
        }
    }
    proof {
        assert(s@.skip(n as int) =~= Seq::<char>::empty());
        assert(prepend_first(cur@, split_on(s@.skip(n as int), pat@)) =~~= seq![cur@]) by {
            assert(split_on(Seq::<char>::empty(), pat@) == seq![Seq::<char>::empty()]);
            assert(cur@ + Seq::<char>::empty() =~= cur@);
            assert(seq![Seq::<char>::empty()].skip(1) =~~= Seq::<Seq<char>>::empty());
        }
        assert(views_of(segs@.push(cur)) =~~= views_of(segs@).push(cur@));
        assert(views_of(segs@) + seq![cur@] =~~= views_of(segs@).push(cur@));
    }
    segs.push(cur);
    segs
}

} // verus!
