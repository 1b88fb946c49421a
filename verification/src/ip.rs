//! Textual IPv4 and IPv6 addresses.
//!
//! An IPv4 address is four decimal octets joined by dots. An IPv6 address
//! is eight groups of hexadecimal digits joined by colons; one `::` may
//! stand for one or more groups of zeros, and a dotted quad may stand for
//! the last two groups.

use vstd::prelude::*;
use vstd::slice::slice_subrange;
use crate::chars::{check_digit, check_hex_digit, decimal_digit, digit_value, is_digit, is_hex_digit};
use crate::segments::{
    count_sep,
    is_segment,
    lemma_count_sep_run,
    lemma_count_sep_step,
    lemma_segment_start_unique,
    segment_end,
};
use crate::text::chars_of;

verus! {

/// The groups of 16 bits in an IPv6 address.
pub const IPV6_GROUPS: usize = 8;

/// The number that a text of decimal digits stands for.
pub open spec fn decimal_value(s: Seq<char>) -> nat
    decreases s.len(),
{
    if s.len() == 0 {
        0
    } else {
        decimal_value(s.drop_last()) * 10 + digit_value(s.last())
    }
}

/// An octet is one to three decimal digits that stand for a number up to
/// 255, with no zero in front of another digit.
pub open spec fn is_octet(s: Seq<char>) -> bool {
    &&& 1 <= s.len() <= 3
    &&& forall|k: int| 0 <= k < s.len() ==> is_digit(#[trigger] s[k])
    &&& (s.len() > 1 ==> s[0] != '0')
    &&& decimal_value(s) <= 255
}

/// An IPv4 address is four octets joined by three dots.
pub open spec fn is_ipv4(s: Seq<char>) -> bool {
    &&& count_sep(s, '.') == 3
    &&& forall|i: int, j: int| #[trigger] is_segment(s, '.', i, j) ==> is_octet(s.subrange(i, j))
}

/// A group is one to four hexadecimal digits.
pub open spec fn is_hex_group(g: Seq<char>) -> bool {
    &&& 1 <= g.len() <= 4
    &&& forall|k: int| 0 <= k < g.len() ==> is_hex_digit(#[trigger] g[k])
}

/// The last segment of `t` between colons is an IPv4 address.
pub open spec fn ends_in_ipv4(t: Seq<char>) -> bool {
    exists|i: int| #[trigger]
        is_segment(t, ':', i, t.len() as int) && is_ipv4(t.subrange(i, t.len() as int))
}

/// A run of groups is empty, or groups joined by colons. Where `quad` is
/// set, an IPv4 address may stand in the place of the last group.
pub open spec fn is_group_run(t: Seq<char>, quad: bool) -> bool {
    t.len() == 0 || forall|i: int, j: int| #[trigger]
        is_segment(t, ':', i, j) ==> is_hex_group(t.subrange(i, j)) || (quad && j == t.len()
            && is_ipv4(t.subrange(i, j)))
}

/// How many 16-bit groups a run of groups writes out: one for each group
/// of digits, two for an IPv4 address at its end.
pub open spec fn groups_in(t: Seq<char>, quad: bool) -> nat {
    if t.len() == 0 {
        0
    } else {
        count_sep(t, ':') + 1 + if quad && ends_in_ipv4(t) {
            1nat
        } else {
            0nat
        }
    }
}

/// Two colons in a row stand at `k`.
pub open spec fn has_elision_at(s: Seq<char>, k: int) -> bool {
    0 <= k && k + 1 < s.len() && s[k] == ':' && s[k + 1] == ':'
}

/// `s` is an IPv6 address written in full: a run of exactly eight groups.
pub open spec fn is_ipv6_full(s: Seq<char>) -> bool {
    is_group_run(s, true) && groups_in(s, true) == IPV6_GROUPS
}

/// `s` is an IPv6 address with `::` at `k`: a run of groups on either
/// side, with fewer than eight groups between them, and an IPv4 address
/// only at the very end.
pub open spec fn is_ipv6_elided(s: Seq<char>, k: int) -> bool {
    &&& has_elision_at(s, k)
    &&& is_group_run(s.subrange(0, k), false)
    &&& is_group_run(s.subrange(k + 2, s.len() as int), true)
    &&& groups_in(s.subrange(0, k), false) + groups_in(s.subrange(k + 2, s.len() as int), true)
        < IPV6_GROUPS
}

/// An IPv6 address, written in full or with one `::`.
pub open spec fn is_ipv6(s: Seq<char>) -> bool {
    is_ipv6_full(s) || exists|k: int| #[trigger] is_ipv6_elided(s, k)
}

/// An IP address of either family.
pub open spec fn is_ip(s: Seq<char>) -> bool {
    is_ipv4(s) || is_ipv6(s)
}

/// Whether `s` is an octet of an IPv4 address.
pub fn check_octet(s: &[char]) -> (b: bool)
    ensures
        b == is_octet(s@),
{
    let n = s.len();
    if n < 1 || n > 3 {
        return false;
    }
    let mut value: u32 = 0;
    let mut k: usize = 0;
    while k < n
        invariant
            n == s@.len(),
            k <= n <= 3,
            forall|m: int| 0 <= m < k ==> is_digit(#[trigger] s@[m]),
            value == decimal_value(s@.take(k as int)),
            k == 0 ==> value == 0,
            k <= 1 ==> value <= 9,
            k <= 2 ==> value <= 99,
            value <= 999,
        decreases n - k,
    {
        let c = s[k];
        if !check_digit(c) {
            return false;
        }
        proof {
            assert(s@.take(k + 1).drop_last() =~= s@.take(k as int));
        }
        value = value * 10 + decimal_digit(c);
        k += 1;
    }
    proof {
        assert(s@.take(n as int) =~= s@);
    }
    if n > 1 && s[0] == '0' {
        return false;
    }
    value <= 255
}

/// Whether `s` is an IPv4 address.
pub fn check_ipv4(s: &[char]) -> (b: bool)
    ensures
        b == is_ipv4(s@),
{
    let n = s.len();
    let mut start: usize = 0;
    let mut dots: usize = 0;
    loop
        invariant
            n == s@.len(),
            start <= n,
            start == 0 || s@[start - 1] == '.',
            dots == count_sep(s@.take(start as int), '.'),
            dots <= start,
            forall|i: int, j: int|
                #[trigger] is_segment(s@, '.', i, j) && i < start ==> is_octet(s@.subrange(i, j)),
        decreases n - start,
    {
        let end = segment_end(s, '.', start);
        assert(is_segment(s@, '.', start as int, end as int));
        if !check_octet(slice_subrange(s, start, end)) {
            return false;
        }
        proof {
            lemma_count_sep_run(s@, '.', start as int, end as int);
            assert forall|i: int, j: int| #[trigger]
                is_segment(s@, '.', i, j) && i <= end implies is_octet(s@.subrange(i, j)) by {
                if i >= start {
                    lemma_segment_start_unique(s@, '.', start as int, end as int, i, j);
                }
            }
        }
        if end == n {
            proof {
                assert(s@.take(n as int) =~= s@);
            }
            return dots == 3;
        }
        proof {
            lemma_count_sep_step(s@, '.', end as int);
        }
        dots += 1;
        start = end + 1;
    }
}

/// Whether `g` is a group of an IPv6 address.
pub fn check_hex_group(g: &[char]) -> (b: bool)
    ensures
        b == is_hex_group(g@),
{
    let n = g.len();
    if n < 1 || n > 4 {
        return false;
    }
    let mut k: usize = 0;
    while k < n
        invariant
            n == g@.len(),
            k <= n,
            forall|m: int| 0 <= m < k ==> is_hex_digit(#[trigger] g@[m]),
        decreases n - k,
    {
        if !check_hex_digit(g[k]) {
            return false;
        }
        k += 1;
    }
    true
}

/// Whether `t` is a run of groups, and how many groups it then writes out.
pub fn check_group_run(t: &[char], quad: bool) -> (r: Option<usize>)
    ensures
        r.is_some() == is_group_run(t@, quad),
        r matches Some(g) ==> g == groups_in(t@, quad),
{
    let n = t.len();
    if n == 0 {
        return Some(0);
    }
    let mut start: usize = 0;
    let mut colons: usize = 0;
    loop
        invariant
            n == t@.len(),
            n > 0,
            start <= n,
            start == 0 || t@[start - 1] == ':',
            colons == count_sep(t@.take(start as int), ':'),
            colons <= start,
            forall|i: int, j: int|
                #[trigger] is_segment(t@, ':', i, j) && i < start ==> is_hex_group(
                    t@.subrange(i, j),
                ),
        decreases n - start,
    {
        let end = segment_end(t, ':', start);
        let segment = slice_subrange(t, start, end);
        assert(is_segment(t@, ':', start as int, end as int));
        proof {
            lemma_count_sep_run(t@, ':', start as int, end as int);
        }
        if end == n {
            proof {
                assert(t@.take(n as int) =~= t@);
                assert forall|i: int, j: int| #[trigger] is_segment(t@, ':', i, j) && i >= start
                    implies i == start && j == n by {
                    lemma_segment_start_unique(t@, ':', start as int, end as int, i, j);
                }
                assert forall|i: int| #[trigger] is_segment(t@, ':', i, n as int) implies i
                    == start by {
                    if i < start {
                        lemma_segment_start_unique(t@, ':', i, n as int, start as int, n as int);
                    }
                }
            }
            if quad && check_ipv4(segment) {
                proof {
                    assert(segment@.len() >= 2) by {
                        reveal_with_fuel(count_sep, 3);
                    }
                }
                return Some(colons + 2);
            } else if check_hex_group(segment) {
                return Some(colons + 1);
            } else {
                return None;
            }
        }
        if !check_hex_group(segment) {
            return None;
        }
        proof {
            lemma_count_sep_step(t@, ':', end as int);
            assert forall|i: int, j: int| #[trigger]
                is_segment(t@, ':', i, j) && i <= end implies is_hex_group(t@.subrange(i, j)) by {
                if i >= start {
                    lemma_segment_start_unique(t@, ':', start as int, end as int, i, j);
                }
            }
        }
        colons += 1;
        start = end + 1;
    }
}

/// Where the first `::` of `s` stands.
pub fn find_elision(s: &[char]) -> (r: Option<usize>)
    ensures
        match r {
            Some(k) => has_elision_at(s@, k as int) && forall|m: int|
                0 <= m < k ==> !has_elision_at(s@, m),
            None => forall|m: int| !has_elision_at(s@, m),
        },
{
    let n = s.len();
    let mut k: usize = 0;
    while k < n && k + 1 < n
        invariant
            n == s@.len(),
            forall|m: int| 0 <= m < k ==> !has_elision_at(s@, m),
        decreases n - k,
    {
        if s[k] == ':' && s[k + 1] == ':' {
            return Some(k);
        }
        k += 1;
    }
    None
}

/// Whether `s` is an IPv6 address.
pub fn check_ipv6(s: &[char]) -> (b: bool)
    ensures
        b == is_ipv6(s@),
{
    let n = s.len();
    match find_elision(s) {
        None => {
            assert(forall|k: int| !#[trigger] is_ipv6_elided(s@, k));
            match check_group_run(s, true) {
                Some(g) => g == IPV6_GROUPS,
                None => false,
            }
        },
        Some(k) => {
            let head = check_group_run(slice_subrange(s, 0, k), false);
            let tail = check_group_run(slice_subrange(s, k + 2, n), true);
            proof {
                // the empty segment between the two colons is no group
                assert(is_segment(s@, ':', k + 1, k + 1));
                assert(!is_group_run(s@, true));
                assert forall|m: int| m != k implies !#[trigger] is_ipv6_elided(s@, m) by {
                    if has_elision_at(s@, m) {
                        let before = s@.subrange(0, m);
                        assert(is_segment(before, ':', k + 1, k + 1));
                    }
                }
            }
            let b = match (head, tail) {
                (Some(h), Some(t)) => h < IPV6_GROUPS && t < IPV6_GROUPS - h,
                _ => false,
            };
            assert(b == is_ipv6_elided(s@, k as int));
            b
        },
    }
}

/// Whether `s` is an IP address of either family.
pub fn check_ip(s: &[char]) -> (b: bool)
    ensures
        b == is_ip(s@),
{
    check_ipv4(s) || check_ipv6(s)
}

/// Whether `val` is an IPv4 or an IPv6 address in its textual form.
pub fn validate_ip(val: &str) -> (b: bool)
    ensures
        b == is_ip(val@),
{
    let v = chars_of(val);
    check_ip(v.as_slice())
}

} // verus!
