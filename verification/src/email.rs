//! Validation of e-mail addresses after the HTML5 definition of a valid
//! e-mail address.
//!
//! An address is cut at its last `@` into a local part and a domain part.
//! The local part is at most 64 characters of a fixed ASCII alphabet. The
//! domain part is at most 255 characters and is a host name, an IP address
//! between square brackets, or an internationalised name whose ASCII form
//! is a host name. Lengths are counted in characters, not in bytes.

use std::borrow::Cow;
use vstd::prelude::*;
use vstd::slice::slice_subrange;
use vstd::string::StrSliceExecFns;
use crate::chars::{check_literal_char, check_local_char, is_literal_char, is_local_char};
use crate::hostname::{check_hostname, is_hostname};
use crate::idn::{ascii_form, domain_to_ascii};
use crate::ip::{check_ip, is_ip};
use crate::segments::lemma_run_begin;
use crate::text::chars_of;

verus! {

/// The longest local part, in characters.
pub const MAX_LOCAL_LEN: usize = 64;

/// The longest domain part, in characters.
pub const MAX_DOMAIN_LEN: usize = 255;

/// The last `@` of `s` stands at `k`.
pub open spec fn is_last_at(s: Seq<char>, k: int) -> bool {
    &&& 0 <= k < s.len()
    &&& s[k] == '@'
    &&& forall|j: int| k < j < s.len() ==> s[j] != '@'
}

/// Where the last `@` of `s` stands, if `s` holds one.
pub open spec fn last_at(s: Seq<char>) -> int
    recommends
        s.contains('@'),
{
    choose|k: int| is_last_at(s, k)
}

/// What stands before the last `@` of `s`.
pub open spec fn local_part(s: Seq<char>) -> Seq<char>
    recommends
        s.contains('@'),
{
    s.subrange(0, last_at(s))
}

/// What stands behind the last `@` of `s`.
pub open spec fn domain_part(s: Seq<char>) -> Seq<char>
    recommends
        s.contains('@'),
{
    s.subrange(last_at(s) + 1, s.len() as int)
}

/// The local part grammar: one or more characters of the local alphabet.
pub open spec fn is_local_part(l: Seq<char>) -> bool {
    &&& l.len() >= 1
    &&& forall|k: int| 0 <= k < l.len() ==> is_local_char(#[trigger] l[k])
}

/// An address literal: `[`, an IP address, `]`, and nothing else. Between
/// the brackets stand only hexadecimal digits, dots and colons.
pub open spec fn is_ip_literal(d: Seq<char>) -> bool {
    &&& d.len() >= 3
    &&& d[0] == '['
    &&& d[d.len() - 1] == ']'
    &&& forall|k: int| 1 <= k < d.len() - 1 ==> is_literal_char(#[trigger] d[k])
    &&& is_ip(d.subrange(1, d.len() - 1))
}

/// A domain part that is valid as it is written: a host name or an
/// address literal.
pub open spec fn is_domain_part(d: Seq<char>) -> bool {
    is_hostname(d) || is_ip_literal(d)
}

/// The ASCII form of a domain was found, and it is a host name.
pub open spec fn is_hostname_after_conversion(converted: Option<Seq<char>>) -> bool {
    match converted {
        Some(a) => is_hostname(a),
        None => false,
    }
}

/// A valid domain part: valid as it is written, or an internationalised
/// name whose ASCII form is a host name.
pub open spec fn is_valid_domain(d: Seq<char>) -> bool {
    is_domain_part(d) || is_hostname_after_conversion(ascii_form(d))
}

/// A valid e-mail address.
pub open spec fn is_valid_email(s: Seq<char>) -> bool {
    &&& s.contains('@')
    &&& local_part(s).len() <= MAX_LOCAL_LEN
    &&& domain_part(s).len() <= MAX_DOMAIN_LEN
    &&& is_local_part(local_part(s))
    &&& is_valid_domain(domain_part(s))
}

/// A text that holds an `@` has a last one.
pub proof fn lemma_last_at_exists(s: Seq<char>)
    requires
        s.contains('@'),
    ensures
        is_last_at(s, last_at(s)),
{
    let i = lemma_run_begin(s, '@', s.len() as int);
    if i == 0 {
        let j = choose|j: int| 0 <= j < s.len() && s[j] == '@';
        assert(s[j] != '@');
    } else {
        assert(is_last_at(s, i - 1));
    }
}

/// A text has one last `@` at most.
pub proof fn lemma_last_at_unique(s: Seq<char>, k: int)
    requires
        is_last_at(s, k),
    ensures
        s.contains('@'),
        last_at(s) == k,
{
    let c = last_at(s);
    assert(is_last_at(s, c));
    if c < k {
        assert(s[k] == '@');
    } else if k < c {
        assert(s[c] == '@');
    }
}

/// Where the last `@` of `s` stands.
pub fn find_last_at(s: &[char]) -> (r: Option<usize>)
    ensures
        match r {
            Some(k) => is_last_at(s@, k as int),
            None => !s@.contains('@'),
        },
{
    let mut k = s.len();
    while k > 0
        invariant
            k <= s@.len(),
            forall|j: int| k <= j < s@.len() ==> s@[j] != '@',
        decreases k,
    {
        k -= 1;
        if s[k] == '@' {
            return Some(k);
        }
    }
    None
}

/// Whether `l` meets the local part grammar.
pub fn check_local_part(l: &[char]) -> (b: bool)
    ensures
        b == is_local_part(l@),
{
    let n = l.len();
    if n < 1 {
        return false;
    }
    let mut k: usize = 0;
    while k < n
        invariant
            n == l@.len(),
            k <= n,
            forall|m: int| 0 <= m < k ==> is_local_char(#[trigger] l@[m]),
        decreases n - k,
    {
        if !check_local_char(l[k]) {
            return false;
        }
        k += 1;
    }
    true
}

/// Whether `d` is an IP address between square brackets.
pub fn check_ip_literal(d: &[char]) -> (b: bool)
    ensures
        b == is_ip_literal(d@),
{
    let n = d.len();
    if n < 3 || d[0] != '[' || d[n - 1] != ']' {
        return false;
    }
    let mut k: usize = 1;
    while k < n - 1
        invariant
            n == d@.len(),
            n >= 3,
            1 <= k <= n - 1,
            forall|m: int| 1 <= m < k ==> is_literal_char(#[trigger] d@[m]),
        decreases n - k,
    {
        if !check_literal_char(d[k]) {
            return false;
        }
        k += 1;
    }
    check_ip(slice_subrange(d, 1, n - 1))
}

/// Whether `d` is a host name or an address literal.
pub fn check_domain_part(d: &[char]) -> (b: bool)
    ensures
        b == is_domain_part(d@),
{
    check_hostname(d) || check_ip_literal(d)
}

/// Checks if the domain is a host name and if not, whether it is an IP
/// address between square brackets.
#[must_use]
pub fn validate_domain_part(domain_part: &str) -> (b: bool)
    ensures
        b == is_domain_part(domain_part@),
{
    let d = chars_of(domain_part);
    check_domain_part(d.as_slice())
}

/// The verdict on a domain part that is not valid as it is written, from
/// what its conversion to ASCII gave: it is valid if the conversion
/// succeeded and gave a host name.
#[must_use]
pub fn validate_converted_domain(converted: &Result<String, idna::Errors>) -> (b: bool)
    ensures
        b == (converted matches Ok(a) && is_hostname(a@)),
{
    match converted {
        Ok(a) => {
            let d = chars_of(a.as_str());
            check_hostname(d.as_slice())
        },
        Err(_) => false,
    }
}

/// The text that a borrowed or owned string holds.
fn cow_text<'a>(text: &'a Cow<'_, str>) -> (s: &'a str)
    ensures
        s@ == text@,
{
    match text {
        Cow::Borrowed(borrowed) => borrowed,
        Cow::Owned(owned) => owned.as_str(),
    }
}

/// Validates whether the given string is an e-mail address after the
/// HTML5 definition, which leaves out the forms of RFC 5322 that few
/// users know, such as quoted local parts.
#[must_use]
pub fn validate_email<T: ValidateEmail>(val: T) -> (b: bool)
    ensures
        b == is_valid_email(val.email_text()),
{
    val.validate_email()
}

/// A value that holds a text which may be an e-mail address.
pub trait ValidateEmail {
    /// The text that is validated.
    spec fn email_text(&self) -> Seq<char>;

    /// Whether the text is a valid e-mail address.
    fn validate_email(&self) -> (b: bool)
        ensures
            b == is_valid_email(self.email_text()),
    {
        let text = self.to_email_string();
        let val = cow_text(&text);
        let chars = chars_of(val);
        let s = chars.as_slice();
        let n = s.len();

        let at = match find_last_at(s) {
            Some(at) => at,
            None => {
                return false;
            },
        };
        proof {
            lemma_last_at_unique(s@, at as int);
        }
        let user_part = slice_subrange(s, 0, at);
        let domain_part = val.substring_char(at + 1, n);

        // the length of each part is checked before its grammar
        if user_part.len() > MAX_LOCAL_LEN || n - (at + 1) > MAX_DOMAIN_LEN {
            return false;
        }
        if !check_local_part(user_part) {
            return false;
        }
        if !validate_domain_part(domain_part) {
            // still the possibility of an internationalised domain name
            return validate_converted_domain(&domain_to_ascii(domain_part));
        }
        true
    }

    /// The text as a string, borrowed where that is possible.
    fn to_email_string<'a>(&'a self) -> (s: Cow<'a, str>)
        ensures
            s@ == self.email_text(),
    ;
}

impl ValidateEmail for &str {
    open spec fn email_text(&self) -> Seq<char> {
        self@
    }

    /// The text itself, borrowed.
    fn to_email_string<'a>(&'a self) -> (s: Cow<'a, str>)
        ensures
            s matches Cow::Borrowed(b) && b@ == self@,
    {
        Cow::Borrowed(*self)
    }
}

impl ValidateEmail for String {
    open spec fn email_text(&self) -> Seq<char> {
        self@
    }

    /// The text of the string, borrowed from it.
    fn to_email_string<'a>(&'a self) -> (s: Cow<'a, str>)
        ensures
            s matches Cow::Borrowed(b) && b@ == self@,
    {
        Cow::Borrowed(self.as_str())
    }
}

impl ValidateEmail for &String {
    open spec fn email_text(&self) -> Seq<char> {
        self@
    }

    /// The text of the string, borrowed from it.
    fn to_email_string<'a>(&'a self) -> (s: Cow<'a, str>)
        ensures
            s matches Cow::Borrowed(b) && b@ == self@,
    {
        Cow::Borrowed((*self).as_str())
    }
}

impl ValidateEmail for Cow<'_, str> {
    open spec fn email_text(&self) -> Seq<char> {
        self@
    }

    /// A copy of the value: a borrowed text stays borrowed, an owned one
    /// gives an owned copy.
    fn to_email_string<'a>(&'a self) -> (s: Cow<'a, str>)
        ensures
            (self matches Cow::Borrowed(_)) == (s matches Cow::Borrowed(_)),
    {
        match self {
            Cow::Borrowed(borrowed) => Cow::Borrowed(*borrowed),
            Cow::Owned(owned) => Cow::Owned(owned.clone()),
        }
    }
}

} // verus!
