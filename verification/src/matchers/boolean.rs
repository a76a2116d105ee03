//! The boolean matchers: an exact boolean, or any boolean at all.

use vstd::prelude::*;

use crate::error::JsonMatcherError;
use crate::json_matcher::{match_bool_any, match_bool_exact, JsonMatcher, Matcher};
use crate::semantics::MatcherModel;
use crate::value::JsonValue;

verus! {

/// Matches a boolean: either one exact value, or any boolean.
#[derive(Debug, PartialEq, Eq)]
pub enum BooleanMatcher {
    Exact(bool),
    Any,
}

impl BooleanMatcher {
    /// A matcher for one exact boolean.
    pub fn exact(value: bool) -> (r: BooleanMatcher)
        ensures
            r.model() == MatcherModel::BoolExact(value),
    {
        BooleanMatcher::Exact(value)
    }

    /// A matcher for any boolean.
    pub fn any() -> (r: BooleanMatcher)
        ensures
            r.model() == MatcherModel::BoolAny,
    {
        BooleanMatcher::Any
    }
}

impl JsonMatcher for BooleanMatcher {
    open spec fn model(&self) -> MatcherModel {
        match self {
            BooleanMatcher::Exact(b) => MatcherModel::BoolExact(*b),
            BooleanMatcher::Any => MatcherModel::BoolAny,
        }
    }

    fn json_matches(&self, value: &JsonValue) -> (res: Vec<JsonMatcherError>) {
        match self {
            BooleanMatcher::Exact(b) => match_bool_exact(*b, value),
            BooleanMatcher::Any => match_bool_any(value),
        }
    }

    fn into_matcher(self) -> (m: Matcher) {
        Matcher::Boolean(self)
    }
}

impl JsonMatcher for bool {
    open spec fn model(&self) -> MatcherModel {
        MatcherModel::BoolExact(*self)
    }

    fn json_matches(&self, value: &JsonValue) -> (res: Vec<JsonMatcherError>) {
        match_bool_exact(*self, value)
    }

    fn into_matcher(self) -> (m: Matcher) {
        Matcher::Boolean(BooleanMatcher::Exact(self))
    }
}

} // verus!
