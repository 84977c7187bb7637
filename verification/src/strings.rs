//! String-slice operations of the standard library that the interpreter
//! relies on.

use vstd::prelude::*;

verus! {

/// `str::eq`: whether two string slices hold the same characters.
#[verifier::external_body]
pub(crate) fn str_eq(a: &str, b: &str) -> (same: bool)
    ensures
        same == (a@ == b@),
{
    a == b
}

/// `str::ends_with` for a single character: whether `s` is not empty and its
/// last character is `c`.
#[verifier::external_body]
pub(crate) fn str_ends_with(s: &str, c: char) -> (found: bool)
    ensures
        found == (s@.len() > 0 && s@.last() == c),
{
    s.ends_with(c)
}

/// `str::split_once` for a single character: `None` when `c` does not occur
/// in `s`; otherwise what stands before the first `c` and what stands after
/// it.
#[verifier::external_body]
pub(crate) fn str_split_once<'a>(s: &'a str, c: char) -> (parts: Option<(&'a str, &'a str)>)
    ensures
        match parts {
            None => !s@.contains(c),
            Some((head, tail)) => !head@.contains(c) && s@ == head@.push(c) + tail@,
        },
{
    s.split_once(c)
}

} // verus!
