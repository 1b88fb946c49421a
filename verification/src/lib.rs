//! Syntactic validation of e-mail addresses, after the HTML5 definition of
//! a valid e-mail address.
//!
//! [`validate_email`] says whether a text is a plausible address. It looks
//! at the text alone: nothing is looked up, and nothing is said about
//! whether a mailbox exists.
//!
//! The grammar is stated as `spec` functions over sequences of
//! characters, and every matcher is proved to decide its part of it:
//!
//! - [`chars`]: the alphabets;
//! - [`segments`]: texts cut at a separator;
//! - [`hostname`]: host names;
//! - [`ip`]: IPv4 and IPv6 addresses;
//! - [`idn`]: the conversion of internationalised domains to ASCII, which
//!   is the work of the `idna` crate and is taken on trust;
//! - [`email`]: the address as a whole;
//! - [`laws`]: what follows for every text.

pub mod chars;
pub mod email;
pub mod hostname;
pub mod idn;
pub mod ip;
pub mod laws;
pub mod segments;
pub mod text;

pub use email::{validate_email, ValidateEmail};
pub use ip::validate_ip;
