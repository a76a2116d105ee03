//! The anything matcher: accepts every value, or every value but `null`.

use vstd::prelude::*;

use crate::error::JsonMatcherError;
use crate::json_matcher::{match_any, JsonMatcher, Matcher};
use crate::semantics::MatcherModel;
use crate::value::JsonValue;

verus! {

/// Matches any value; with `not_null` set, any value but `null`.
#[derive(Debug, PartialEq, Eq)]
pub struct AnyMatcher {
    pub not_null: bool,
}

impl AnyMatcher {
    /// A matcher accepting every value.
    pub fn new() -> (r: AnyMatcher)
        ensures
            r.model() == (MatcherModel::Any { not_null: false }),
    {
        AnyMatcher { not_null: false }
    }

    /// A matcher accepting every value but `null`.
    pub fn not_null() -> (r: AnyMatcher)
        ensures
            r.model() == (MatcherModel::Any { not_null: true }),
    {
        AnyMatcher { not_null: true }
    }
}

impl Default for AnyMatcher {
    fn default() -> (r: AnyMatcher)
        ensures
            r.model() == (MatcherModel::Any { not_null: false }),
    {
        AnyMatcher::new()
    }
}

impl JsonMatcher for AnyMatcher {
    open spec fn model(&self) -> MatcherModel {
        MatcherModel::Any { not_null: self.not_null }
    }

    fn json_matches(&self, value: &JsonValue) -> (res: Vec<JsonMatcherError>) {
        match_any(self.not_null, value)
    }

    fn into_matcher(self) -> (m: Matcher) {
        Matcher::Any(self)
    }
}

} // verus!
