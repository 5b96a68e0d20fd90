//! The shape of a tracker key.
use vstd::prelude::*;

use regex::Regex;

verus! {

/// Whether `key` contains a match of the regular expression `\w+-\d+`
/// (one or more word characters, a hyphen, one or more digits), as the
/// `regex` crate decides it.
pub uninterp spec fn key_pattern_matches(key: Seq<char>) -> bool;

/// Relies on `regex::Regex::new` and `Regex::is_match`: the pattern is a
/// valid literal, so compiling it does not fail, and the answer depends on
/// the text alone.
#[verifier::external_body]
fn find_key_pattern(key: &str) -> (r: bool)
    ensures
        r == key_pattern_matches(key@),
{
    Regex::new(r"\w+-\d+").unwrap().is_match(key)
}

/// Whether `key` is acceptable as a tracker key.
pub fn is_valid_key(key: &str) -> (r: bool)
    ensures
        r == key_pattern_matches(key@),
{
    find_key_pattern(key)
}

} // verus!
