//! The null matcher: the candidate must be exactly `null`.

use vstd::prelude::*;

use crate::error::JsonMatcherError;
use crate::json_matcher::{match_null, JsonMatcher, Matcher};
use crate::semantics::MatcherModel;
use crate::value::JsonValue;

verus! {

/// Matches exactly `null`.
#[derive(Debug, PartialEq, Eq)]
pub struct NullMatcher {}

impl NullMatcher {
    /// A matcher for `null`.
    pub fn new() -> (r: NullMatcher)
        ensures
            r.model() == MatcherModel::Null,
    {
        NullMatcher {  }
    }
}

impl Default for NullMatcher {
    fn default() -> (r: NullMatcher)
        ensures
            r.model() == MatcherModel::Null,
    {
        NullMatcher::new()
    }
}

impl JsonMatcher for NullMatcher {
    open spec fn model(&self) -> MatcherModel {
        MatcherModel::Null
    }

    fn json_matches(&self, value: &JsonValue) -> (res: Vec<JsonMatcherError>) {
        match_null(value)
    }

    fn into_matcher(self) -> (m: Matcher) {
        Matcher::Null(self)
    }
}

impl JsonMatcher for () {
    open spec fn model(&self) -> MatcherModel {
        MatcherModel::Null
    }

    fn json_matches(&self, value: &JsonValue) -> (res: Vec<JsonMatcherError>) {
        match_null(value)
    }

    fn into_matcher(self) -> (m: Matcher) {
        Matcher::Null(NullMatcher {  })
    }
}

} // verus!
