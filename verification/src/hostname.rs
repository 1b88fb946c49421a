//! The host name grammar: labels of letters, digits and inner hyphens,
//! joined by dots.

use vstd::prelude::*;
use vstd::slice::slice_subrange;
use crate::chars::{check_alnum, is_alnum};
use crate::segments::{is_segment, lemma_segment_start_unique, segment_end};

verus! {

/// The longest label.
pub const MAX_LABEL_LEN: usize = 63;

/// A label is 1 to 63 letters, digits and hyphens; its first and its last
/// character are no hyphens.
pub open spec fn is_label(l: Seq<char>) -> bool {
    &&& 1 <= l.len() <= MAX_LABEL_LEN
    &&& is_alnum(l[0])
    &&& is_alnum(l[l.len() - 1])
    &&& forall|k: int| 0 <= k < l.len() ==> is_alnum(#[trigger] l[k]) || l[k] == '-'
}

/// A host name is one label or several joined by dots: every segment
/// between dots is a label. The empty text, a text with a dot at either
/// end and one with two dots in a row are no host names.
pub open spec fn is_hostname(d: Seq<char>) -> bool {
    forall|i: int, j: int| #[trigger] is_segment(d, '.', i, j) ==> is_label(d.subrange(i, j))
}

/// Whether `l` is a label.
pub fn check_label(l: &[char]) -> (b: bool)
    ensures
        b == is_label(l@),
{
    let n = l.len();
    if n < 1 || n > MAX_LABEL_LEN {
        return false;
    }
    if !check_alnum(l[0]) || !check_alnum(l[n - 1]) {
        return false;
    }
    let mut k: usize = 0;
    while k < n
        invariant
            n == l@.len(),
            k <= n,
            forall|m: int| 0 <= m < k ==> is_alnum(#[trigger] l@[m]) || l@[m] == '-',
        decreases n - k,
    {
        let c = l[k];
        if !(check_alnum(c) || c == '-') {
            return false;
        }
        k += 1;
    }
    true
}

/// Whether `d` is a host name.
pub fn check_hostname(d: &[char]) -> (b: bool)
    ensures
        b == is_hostname(d@),
{
    let n = d.len();
    let mut start: usize = 0;
    loop
        invariant
            n == d@.len(),
            start <= n,
            start == 0 || d@[start - 1] == '.',
            forall|i: int, j: int|
                #[trigger] is_segment(d@, '.', i, j) && i < start ==> is_label(d@.subrange(i, j)),
        decreases n - start,
    {
        let end = segment_end(d, '.', start);
        assert(is_segment(d@, '.', start as int, end as int));
        if !check_label(slice_subrange(d, start, end)) {
            return false;
        }
        assert forall|i: int, j: int| #[trigger]
            is_segment(d@, '.', i, j) && i <= end implies is_label(d@.subrange(i, j)) by {
            if i >= start {
                lemma_segment_start_unique(d@, '.', start as int, end as int, i, j);
            }
        }
        if end == n {
            return true;
        }
        start = end + 1;
    }
}

} // verus!
