//! Character classes of the address grammar.
//!
//! Every class is a set of ASCII characters: a character outside ASCII
//! belongs to none of them.

use vstd::prelude::*;

verus! {

/// ASCII letter, either case.
pub open spec fn is_alpha(c: char) -> bool {
    ('a' <= c && c <= 'z') || ('A' <= c && c <= 'Z')
}

/// ASCII decimal digit.
pub open spec fn is_digit(c: char) -> bool {
    '0' <= c && c <= '9'
}

/// ASCII letter or decimal digit.
pub open spec fn is_alnum(c: char) -> bool {
    is_alpha(c) || is_digit(c)
}

/// ASCII hexadecimal digit, either case.
pub open spec fn is_hex_digit(c: char) -> bool {
    is_digit(c) || ('a' <= c && c <= 'f') || ('A' <= c && c <= 'F')
}

/// A character that may stand in the local part of an address: a letter, a
/// digit, or one of ``. ! # $ % & ' * + / = ? ^ _ ` { | } ~ -``.
pub open spec fn is_local_char(c: char) -> bool {
    ||| is_alnum(c)
    ||| c == '.'
    ||| c == '!'
    ||| c == '#'
    ||| c == '$'
    ||| c == '%'
    ||| c == '&'
    ||| c == '\''
    ||| c == '*'
    ||| c == '+'
    ||| c == '/'
    ||| c == '='
    ||| c == '?'
    ||| c == '^'
    ||| c == '_'
    ||| c == '`'
    ||| c == '{'
    ||| c == '|'
    ||| c == '}'
    ||| c == '~'
    ||| c == '-'
}

/// A character that may stand between the brackets of an address literal:
/// a hexadecimal digit, a dot or a colon.
pub open spec fn is_literal_char(c: char) -> bool {
    is_hex_digit(c) || c == '.' || c == ':'
}

/// The number that a decimal digit stands for.
pub open spec fn digit_value(c: char) -> nat
    recommends
        is_digit(c),
{
    (c as u32 - '0' as u32) as nat
}

/// Whether `c` is a decimal digit.
pub fn check_digit(c: char) -> (b: bool)
    ensures
        b == is_digit(c),
{
    '0' <= c && c <= '9'
}

/// Whether `c` is a letter or a decimal digit.
pub fn check_alnum(c: char) -> (b: bool)
    ensures
        b == is_alnum(c),
{
    ('a' <= c && c <= 'z') || ('A' <= c && c <= 'Z') || ('0' <= c && c <= '9')
}

/// Whether `c` is a hexadecimal digit.
pub fn check_hex_digit(c: char) -> (b: bool)
    ensures
        b == is_hex_digit(c),
{
    ('0' <= c && c <= '9') || ('a' <= c && c <= 'f') || ('A' <= c && c <= 'F')
}

/// Whether `c` may stand in a local part.
pub fn check_local_char(c: char) -> (b: bool)
    ensures
        b == is_local_char(c),
{
    check_alnum(c) || c == '.' || c == '!' || c == '#' || c == '$' || c == '%' || c == '&'
        || c == '\'' || c == '*' || c == '+' || c == '/' || c == '=' || c == '?' || c == '^'
        || c == '_' || c == '`' || c == '{' || c == '|' || c == '}' || c == '~' || c == '-'
}

/// Whether `c` may stand between the brackets of an address literal.
pub fn check_literal_char(c: char) -> (b: bool)
    ensures
        b == is_literal_char(c),
{
    check_hex_digit(c) || c == '.' || c == ':'
}

/// The number that the decimal digit `c` stands for.
pub fn decimal_digit(c: char) -> (d: u32)
    requires
        is_digit(c),
    ensures
        d == digit_value(c),
        d <= 9,
{
    c as u32 - '0' as u32
}

} // verus!
