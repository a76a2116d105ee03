//! The bounded-integer matcher: the candidate must encode an integer that
//! fits a `u16`, either as a JSON number or — in string mode — as a decimal
//! string.

use vstd::prelude::*;

use crate::error::JsonMatcherError;
use crate::json_matcher::{match_u16, JsonMatcher, Matcher};
use crate::semantics::MatcherModel;
use crate::value::JsonValue;

verus! {

/// Matches an integer in `u16` range, as a number or — with string mode
/// on — as a decimal string.
#[derive(Debug, PartialEq, Eq)]
pub struct U16Matcher {
    pub allow_strings: bool,
}

impl U16Matcher {
    /// A matcher for a number in `u16` range.
    pub fn new() -> (r: U16Matcher)
        ensures
            r.model() == (MatcherModel::U16 { allow_strings: false }),
    {
        U16Matcher { allow_strings: false }
    }

    /// A matcher for a decimal string in `u16` range.
    pub fn new_allow_strings() -> (r: U16Matcher)
        ensures
            r.model() == (MatcherModel::U16 { allow_strings: true }),
    {
        U16Matcher { allow_strings: true }
    }
}

impl Default for U16Matcher {
    fn default() -> (r: U16Matcher)
        ensures
            r.model() == (MatcherModel::U16 { allow_strings: false }),
    {
        U16Matcher::new()
    }
}

impl JsonMatcher for U16Matcher {
    open spec fn model(&self) -> MatcherModel {
        MatcherModel::U16 { allow_strings: self.allow_strings }
    }

    fn json_matches(&self, value: &JsonValue) -> (res: Vec<JsonMatcherError>) {
        match_u16(self.allow_strings, value)
    }

    fn into_matcher(self) -> (m: Matcher) {
        Matcher::U16(self)
    }
}

} // verus!
