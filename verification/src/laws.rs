//! What holds of every text that is validated.

use vstd::prelude::*;
use crate::chars::{is_alnum, is_digit};
use crate::email::{
    ValidateEmail,
    domain_part,
    is_domain_part,
    is_hostname_after_conversion,
    is_ip_literal,
    is_last_at,
    is_local_part,
    is_valid_email,
    last_at,
    lemma_last_at_exists,
    lemma_last_at_unique,
    local_part,
    MAX_DOMAIN_LEN,
    MAX_LOCAL_LEN,
};
use crate::hostname::{is_hostname, is_label};
use crate::idn::ascii_form;
use crate::ip::{is_ipv4, is_octet};
use crate::segments::{is_segment, lemma_segment_around};

verus! {

/// A text without `@` is no address.
pub proof fn lemma_without_at_rejected(s: Seq<char>)
    requires
        !s.contains('@'),
    ensures
        !is_valid_email(s),
{
}

/// A text whose local part has more than 64 characters, or whose domain
/// part has more than 255, is no address, whatever the parts hold.
pub proof fn lemma_overlong_rejected(s: Seq<char>)
    requires
        local_part(s).len() > MAX_LOCAL_LEN || domain_part(s).len() > MAX_DOMAIN_LEN,
    ensures
        !is_valid_email(s),
{
}

/// The verdict is a function of the text: two values that hold the same
/// text get the same verdict, and so does one value validated twice.
pub proof fn lemma_same_text_same_verdict<A: ValidateEmail, B: ValidateEmail>(a: &A, b: &B)
    requires
        a.email_text() == b.email_text(),
    ensures
        is_valid_email(a.email_text()) == is_valid_email(b.email_text()),
{
}

/// A text is cut at its last `@`: where `domain` holds no `@`, the parts
/// of `local`, `@`, `domain` are `local` and `domain`, also where `local`
/// holds an `@` itself.
pub proof fn lemma_cut_at_last_at(local: Seq<char>, domain: Seq<char>)
    requires
        !domain.contains('@'),
    ensures
        (local + seq!['@'] + domain).contains('@'),
        local_part(local + seq!['@'] + domain) == local,
        domain_part(local + seq!['@'] + domain) == domain,
{
    let s = local + seq!['@'] + domain;
    let k = local.len() as int;
    assert(s[k] == '@');
    assert forall|j: int| k < j < s.len() implies s[j] != '@' by {
        assert(s[j] == domain[j - k - 1]);
    }
    assert(is_last_at(s, k));
    lemma_last_at_unique(s, k);
    assert(s.subrange(0, k) =~= local);
    assert(s.subrange(k + 1, s.len() as int) =~= domain);
}

/// Joined by an `@`, a local part of more than 64 characters or a domain
/// part of more than 255 is no address, whatever the two hold.
pub proof fn lemma_overlong_parts_rejected(local: Seq<char>, domain: Seq<char>)
    requires
        local.len() > MAX_LOCAL_LEN || domain.len() > MAX_DOMAIN_LEN,
    ensures
        !is_valid_email(local + seq!['@'] + domain),
{
    let s = local + seq!['@'] + domain;
    if domain.contains('@') {
        // the `@` of `domain` stands in the local part of `s`
        let j = choose|j: int| 0 <= j < domain.len() && domain[j] == '@';
        assert(s[local.len() + 1 + j] == '@');
        assert(s[local.len() as int] == '@');
        if is_valid_email(s) {
            lemma_address_has_one_at(s, local.len() + 1 + j);
            lemma_address_has_one_at(s, local.len() as int);
        }
    } else {
        lemma_cut_at_last_at(local, domain);
    }
}

/// An address holds one `@` and no more: an `@` before the last one would
/// stand in the local part, whose alphabet has none.
pub proof fn lemma_address_has_one_at(s: Seq<char>, j: int)
    requires
        is_valid_email(s),
        0 <= j < s.len(),
        s[j] == '@',
    ensures
        j == last_at(s),
{
    let k = last_at(s);
    lemma_last_at_exists(s);
    if j < k {
        assert(local_part(s)[j] == s[j]);
    }
}

/// One label alone is a host name.
pub proof fn lemma_label_is_hostname(l: Seq<char>)
    requires
        is_label(l),
    ensures
        is_hostname(l),
{
    assert forall|i: int, j: int| #[trigger] is_segment(l, '.', i, j) implies is_label(
        l.subrange(i, j),
    ) by {
        if i > 0 {
            assert(is_alnum(l[i - 1]) || l[i - 1] == '-');
        }
        if j < l.len() {
            assert(is_alnum(l[j]) || l[j] == '-');
        }
        assert(l.subrange(0, l.len() as int) =~= l);
    }
}

/// An IPv4 address without brackets is a host name, for each octet is a
/// label of digits.
pub proof fn lemma_ipv4_is_hostname(d: Seq<char>)
    requires
        is_ipv4(d),
    ensures
        is_hostname(d),
{
    assert forall|i: int, j: int| #[trigger] is_segment(d, '.', i, j) implies is_label(
        d.subrange(i, j),
    ) by {
        let octet = d.subrange(i, j);
        assert(is_octet(octet));
        assert(is_digit(octet[0]));
        assert(is_digit(octet[octet.len() - 1]));
    }
}

/// A text that begins or ends with a dot, or holds two dots in a row, is
/// no host name; nor is the empty text.
pub proof fn lemma_empty_label_rejected(d: Seq<char>, p: int)
    requires
        0 <= p <= d.len(),
        p == 0 || d[p - 1] == '.',
        p == d.len() || d[p] == '.',
    ensures
        !is_hostname(d),
{
    assert(is_segment(d, '.', p, p));
    assert(d.subrange(p, p).len() == 0);
}

/// A host name holds letters, digits, hyphens and dots, and nothing else.
pub proof fn lemma_hostname_alphabet(d: Seq<char>, p: int)
    requires
        is_hostname(d),
        0 <= p < d.len(),
    ensures
        is_alnum(d[p]) || d[p] == '-' || d[p] == '.',
{
    if d[p] != '.' {
        let (i, j) = lemma_segment_around(d, '.', p);
        let label = d.subrange(i, j);
        assert(is_label(label));
        assert(label[p - i] == d[p]);
    }
}

/// A domain part that is valid as it is written holds no character but
/// letters, digits, and `-`, `.`, `:`, `[`, `]`. So it holds no
/// underscore, no space and no line feed.
pub proof fn lemma_domain_alphabet(d: Seq<char>, p: int)
    requires
        is_domain_part(d),
        0 <= p < d.len(),
    ensures
        is_alnum(d[p]) || d[p] == '-' || d[p] == '.' || d[p] == ':' || d[p] == '[' || d[p] == ']',
{
    if is_hostname(d) {
        lemma_hostname_alphabet(d, p);
    } else {
        assert(is_ip_literal(d));
    }
}

/// A text with a line feed in it is not valid as it is written. It is an
/// address only if the line feed stands in the domain part and the
/// conversion to ASCII turns that part into a host name.
pub proof fn lemma_line_feed_needs_conversion(s: Seq<char>, p: int)
    requires
        0 <= p < s.len(),
        s[p] == '\n',
        is_valid_email(s),
    ensures
        p > last_at(s),
        !is_domain_part(domain_part(s)),
        is_hostname_after_conversion(ascii_form(domain_part(s))),
{
    let k = last_at(s);
    lemma_last_at_exists(s);
    if p < k {
        assert(local_part(s)[p] == s[p]);
        assert(is_local_part(local_part(s)));
    } else {
        let d = domain_part(s);
        assert(d[p - k - 1] == s[p]);
        if is_domain_part(d) {
            lemma_domain_alphabet(d, p - k - 1);
        }
    }
}

} // verus!
