use vstd::prelude::*;

verus! {

/// An ASCII letter or an underscore: a character that may start an identifier.
pub open spec fn spec_is_alpha(c: char) -> bool {
    ('a' <= c && c <= 'z') || ('A' <= c && c <= 'Z') || c == '_'
}

/// An ASCII decimal digit.
pub open spec fn spec_is_digit(c: char) -> bool {
    '0' <= c && c <= '9'
}

/// A character that may continue an identifier.
pub open spec fn spec_is_alpha_numeric(c: char) -> bool {
    spec_is_digit(c) || spec_is_alpha(c)
}

pub fn is_alpha(c: char) -> (r: bool)
    ensures
        r == spec_is_alpha(c),
{
    (c >= 'a' && c <= 'z') || (c >= 'A' && c <= 'Z') || c == '_'
}

pub fn is_digit(val: char) -> (r: bool)
    ensures
        r == spec_is_digit(val),
{
    val >= '0' && val <= '9'
}

pub fn is_alpha_numeric(c: char) -> (r: bool)
    ensures
        r == spec_is_alpha_numeric(c),
{
    is_digit(c) || is_alpha(c)
}

} // verus!
