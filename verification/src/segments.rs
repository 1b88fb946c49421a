//! Texts cut at a separator character.
//!
//! A text with `n` separators has `n + 1` segments, some of them possibly
//! empty: `"a..b"` cut at `.` is `"a"`, `""`, `"b"`.

use vstd::prelude::*;

verus! {

/// `[i, j)` is a segment of `s`: a run that begins at the start of `s` or
/// right behind a separator, ends at the end of `s` or right before a
/// separator, and holds no separator.
pub open spec fn is_segment(s: Seq<char>, sep: char, i: int, j: int) -> bool {
    &&& 0 <= i <= j <= s.len()
    &&& (i == 0 || s[i - 1] == sep)
    &&& (j == s.len() || s[j] == sep)
    &&& forall|k: int| i <= k < j ==> s[k] != sep
}

/// How often `sep` occurs in `s`.
pub open spec fn count_sep(s: Seq<char>, sep: char) -> nat
    decreases s.len(),
{
    if s.len() == 0 {
        0
    } else {
        count_sep(s.drop_last(), sep) + if s.last() == sep {
            1nat
        } else {
            0nat
        }
    }
}

/// Reading one more character adds one to the count if it is a separator.
pub proof fn lemma_count_sep_step(s: Seq<char>, sep: char, k: int)
    requires
        0 <= k < s.len(),
    ensures
        count_sep(s.take(k + 1), sep) == count_sep(s.take(k), sep) + if s[k] == sep {
            1nat
        } else {
            0nat
        },
{
    assert(s.take(k + 1).drop_last() =~= s.take(k));
}

/// A stretch without separators leaves the count as it is.
pub proof fn lemma_count_sep_run(s: Seq<char>, sep: char, a: int, b: int)
    requires
        0 <= a <= b <= s.len(),
        forall|k: int| a <= k < b ==> s[k] != sep,
    ensures
        count_sep(s.take(b), sep) == count_sep(s.take(a), sep),
    decreases b - a,
{
    if a < b {
        lemma_count_sep_run(s, sep, a, b - 1);
        lemma_count_sep_step(s, sep, b - 1);
    }
}

/// Two segments that begin at the same place are the same segment.
pub proof fn lemma_segment_end_unique(s: Seq<char>, sep: char, i: int, j1: int, j2: int)
    requires
        is_segment(s, sep, i, j1),
        is_segment(s, sep, i, j2),
    ensures
        j1 == j2,
{
    if j1 < j2 {
        assert(s[j1] == sep);
    } else if j2 < j1 {
        assert(s[j2] == sep);
    }
}

/// A segment that begins inside another one, or at its end, is that one.
pub proof fn lemma_segment_start_unique(s: Seq<char>, sep: char, i1: int, j1: int, i2: int, j2: int)
    requires
        is_segment(s, sep, i1, j1),
        is_segment(s, sep, i2, j2),
        i1 <= i2 <= j1,
    ensures
        i1 == i2,
        j1 == j2,
{
    if i1 < i2 {
        assert(s[i2 - 1] == sep);
    }
    lemma_segment_end_unique(s, sep, i1, j1, j2);
}

/// Where the run without separators that ends at `p` begins.
pub proof fn lemma_run_begin(s: Seq<char>, sep: char, p: int) -> (i: int)
    requires
        0 <= p <= s.len(),
    ensures
        0 <= i <= p,
        i == 0 || s[i - 1] == sep,
        forall|k: int| i <= k < p ==> s[k] != sep,
    decreases p,
{
    if p == 0 || s[p - 1] == sep {
        p
    } else {
        lemma_run_begin(s, sep, p - 1)
    }
}

/// Where the run without separators that begins at `p` ends.
pub proof fn lemma_run_end(s: Seq<char>, sep: char, p: int) -> (j: int)
    requires
        0 <= p <= s.len(),
    ensures
        p <= j <= s.len(),
        j == s.len() || s[j] == sep,
        forall|k: int| p <= k < j ==> s[k] != sep,
    decreases s.len() - p,
{
    if p == s.len() || s[p] == sep {
        p
    } else {
        lemma_run_end(s, sep, p + 1)
    }
}

/// Every character that is no separator lies in a segment.
pub proof fn lemma_segment_around(s: Seq<char>, sep: char, p: int) -> (r: (int, int))
    requires
        0 <= p < s.len(),
        s[p] != sep,
    ensures
        is_segment(s, sep, r.0, r.1),
        r.0 <= p < r.1,
{
    let i = lemma_run_begin(s, sep, p);
    let j = lemma_run_end(s, sep, p + 1);
    (i, j)
}

/// Where the segment that begins at `from` ends.
pub fn segment_end(s: &[char], sep: char, from: usize) -> (end: usize)
    requires
        from <= s@.len(),
    ensures
        from <= end <= s@.len(),
        end == s@.len() || s@[end as int] == sep,
        forall|k: int| from <= k < end ==> s@[k] != sep,
{
    let n = s.len();
    let mut end = from;
    while end < n && s[end] != sep
        invariant
            n == s@.len(),
            from <= end <= n,
            forall|k: int| from <= k < end ==> s@[k] != sep,
        decreases n - end,
    {
        end += 1;
    }
    end
}

} // verus!
