//! The UUID-shape matcher: the candidate must be a string of 36 bytes
//! holding exactly four hyphens — a syntactic approximation of the UUID
//! form, not full validation.

use vstd::prelude::*;

use crate::error::JsonMatcherError;
use crate::json_matcher::{match_uuid, JsonMatcher, Matcher};
use crate::semantics::MatcherModel;
use crate::value::JsonValue;

verus! {

/// Matches a UUID-shaped string.
#[derive(Debug, PartialEq, Eq)]
pub struct UuidMatcher;

impl UuidMatcher {
    /// A matcher for a UUID-shaped string.
    pub fn new() -> (r: UuidMatcher)
        ensures
            r.model() == MatcherModel::Uuid,
    {
        UuidMatcher
    }
}

impl Default for UuidMatcher {
    fn default() -> (r: UuidMatcher)
        ensures
            r.model() == MatcherModel::Uuid,
    {
        UuidMatcher::new()
    }
}

impl JsonMatcher for UuidMatcher {
    open spec fn model(&self) -> MatcherModel {
        MatcherModel::Uuid
    }

    fn json_matches(&self, value: &JsonValue) -> (res: Vec<JsonMatcherError>) {
        match_uuid(value)
    }

    fn into_matcher(self) -> (m: Matcher) {
        Matcher::Uuid(self)
    }
}

} // verus!
