//! The exact integer matcher, and the plain integer types acting as
//! matchers for themselves.

use vstd::prelude::*;

use crate::error::JsonMatcherError;
use crate::json_matcher::{match_integer, JsonMatcher, Matcher};
use crate::semantics::MatcherModel;
use crate::value::JsonValue;

verus! {

/// Matches a number holding exactly one integer.
#[derive(Debug, PartialEq, Eq)]
pub struct IntegerMatcher {
    pub value: i64,
}

impl IntegerMatcher {
    /// A matcher for one exact integer.
    pub fn new(value: i64) -> (r: IntegerMatcher)
        ensures
            r.model() == MatcherModel::Integer(value as int),
    {
        IntegerMatcher { value }
    }
}

impl JsonMatcher for IntegerMatcher {
    open spec fn model(&self) -> MatcherModel {
        MatcherModel::Integer(self.value as int)
    }

    fn json_matches(&self, value: &JsonValue) -> (res: Vec<JsonMatcherError>) {
        match_integer(self.value, value)
    }

    fn into_matcher(self) -> (m: Matcher) {
        Matcher::Integer(self)
    }
}

impl JsonMatcher for i8 {
    open spec fn model(&self) -> MatcherModel {
        MatcherModel::Integer(*self as int)
    }

    fn json_matches(&self, value: &JsonValue) -> (res: Vec<JsonMatcherError>) {
        match_integer(*self as i64, value)
    }

    fn into_matcher(self) -> (m: Matcher) {
        Matcher::Integer(IntegerMatcher { value: self as i64 })
    }
}

impl JsonMatcher for i16 {
    open spec fn model(&self) -> MatcherModel {
        MatcherModel::Integer(*self as int)
    }

    fn json_matches(&self, value: &JsonValue) -> (res: Vec<JsonMatcherError>) {
        match_integer(*self as i64, value)
    }

    fn into_matcher(self) -> (m: Matcher) {
        Matcher::Integer(IntegerMatcher { value: self as i64 })
    }
}

impl JsonMatcher for i32 {
    open spec fn model(&self) -> MatcherModel {
        MatcherModel::Integer(*self as int)
    }

    fn json_matches(&self, value: &JsonValue) -> (res: Vec<JsonMatcherError>) {
        match_integer(*self as i64, value)
    }

    fn into_matcher(self) -> (m: Matcher) {
        Matcher::Integer(IntegerMatcher { value: self as i64 })
    }
}

impl JsonMatcher for i64 {
    open spec fn model(&self) -> MatcherModel {
        MatcherModel::Integer(*self as int)
    }

    fn json_matches(&self, value: &JsonValue) -> (res: Vec<JsonMatcherError>) {
        match_integer(*self, value)
    }

    fn into_matcher(self) -> (m: Matcher) {
        Matcher::Integer(IntegerMatcher { value: self })
    }
}

impl JsonMatcher for u8 {
    open spec fn model(&self) -> MatcherModel {
        MatcherModel::Integer(*self as int)
    }

    fn json_matches(&self, value: &JsonValue) -> (res: Vec<JsonMatcherError>) {
        match_integer(*self as i64, value)
    }

    fn into_matcher(self) -> (m: Matcher) {
        Matcher::Integer(IntegerMatcher { value: self as i64 })
    }
}

impl JsonMatcher for u16 {
    open spec fn model(&self) -> MatcherModel {
        MatcherModel::Integer(*self as int)
    }

    fn json_matches(&self, value: &JsonValue) -> (res: Vec<JsonMatcherError>) {
        match_integer(*self as i64, value)
    }

    fn into_matcher(self) -> (m: Matcher) {
        Matcher::Integer(IntegerMatcher { value: self as i64 })
    }
}

impl JsonMatcher for u32 {
    open spec fn model(&self) -> MatcherModel {
        MatcherModel::Integer(*self as int)
    }

    fn json_matches(&self, value: &JsonValue) -> (res: Vec<JsonMatcherError>) {
        match_integer(*self as i64, value)
    }

    fn into_matcher(self) -> (m: Matcher) {
        Matcher::Integer(IntegerMatcher { value: self as i64 })
    }
}

} // verus!
