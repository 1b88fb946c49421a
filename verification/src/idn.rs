//! Conversion of internationalised domain names to ASCII.
//!
//! The conversion itself is the work of the `idna` crate. Nothing in this
//! module is proved: it states what the rest of the library takes on
//! trust.

use vstd::prelude::*;

verus! {

/// The error of [`idna::domain_to_ascii`]. Its fields are private to the
/// `idna` crate; the library only tells it apart from success.
#[verifier::external_type_specification]
#[verifier::external_body]
pub struct ExErrors(idna::Errors);

/// What [`idna::domain_to_ascii`] makes of a domain: its ASCII form, or
/// `None` where the conversion fails. The conversion works from the text
/// and from tables compiled into the `idna` crate, so the same text
/// always has the same ASCII form. Nothing else is assumed about it.
pub uninterp spec fn ascii_form(domain: Seq<char>) -> Option<Seq<char>>;

/// The longest domain that is handed to the conversion, in characters.
pub const MAX_CONVERTED_LEN: usize = 255;

/// Calls [`idna::domain_to_ascii`], the UTS #46 "to ASCII" operation with
/// the settings of the WHATWG URL standard. The contract only gives the
/// outcome its name: success is the ASCII form of `domain`, failure is
/// its absence. The Punycode encoder of the `idna` crate counts in 32-bit
/// numbers, so the call is made on short domains only.
#[verifier::external_body]
pub(crate) fn domain_to_ascii(domain: &str) -> (r: Result<String, idna::Errors>)
    requires
        domain@.len() <= MAX_CONVERTED_LEN,
    ensures
        r is Ok <==> ascii_form(domain@) is Some,
        r matches Ok(a) ==> ascii_form(domain@) == Some(a@),
{
    idna::domain_to_ascii(domain)
}

} // verus!
