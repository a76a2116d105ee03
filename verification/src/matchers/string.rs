//! The exact string matchers: one borrowing its expected text, one owning
//! it, and the plain string types acting as matchers for themselves.

use vstd::prelude::*;
use vstd::string::StringExecFns;

use crate::error::JsonMatcherError;
use crate::json_matcher::{match_string_exact, JsonMatcher, Matcher};
use crate::semantics::MatcherModel;
use crate::value::JsonValue;

verus! {

/// Matches one exact string, borrowing the expected text.
#[derive(Debug, PartialEq, Eq)]
pub struct StrMatcher<'a> {
    pub value: &'a str,
}

impl<'a> StrMatcher<'a> {
    /// A matcher for one exact string.
    pub fn new(value: &'a str) -> (r: StrMatcher<'a>)
        ensures
            r.model() == MatcherModel::ExactStr(value@),
    {
        StrMatcher { value }
    }
}

impl<'a> JsonMatcher for StrMatcher<'a> {
    open spec fn model(&self) -> MatcherModel {
        MatcherModel::ExactStr(self.value@)
    }

    fn json_matches(&self, value: &JsonValue) -> (res: Vec<JsonMatcherError>) {
        match_string_exact(self.value, value)
    }

    fn into_matcher(self) -> (m: Matcher) {
        Matcher::ExactString(StringMatcher { value: self.value.to_owned() })
    }
}

/// Matches one exact string, owning the expected text.
#[derive(Debug, PartialEq, Eq)]
pub struct StringMatcher {
    pub value: String,
}

impl StringMatcher {
    /// A matcher for one exact string.
    pub fn new(value: &str) -> (r: StringMatcher)
        ensures
            r.model() == MatcherModel::ExactStr(value@),
    {
        StringMatcher { value: value.to_owned() }
    }
}

impl JsonMatcher for StringMatcher {
    open spec fn model(&self) -> MatcherModel {
        MatcherModel::ExactStr(self.value@)
    }

    fn json_matches(&self, value: &JsonValue) -> (res: Vec<JsonMatcherError>) {
        match_string_exact(self.value.as_str(), value)
    }

    fn into_matcher(self) -> (m: Matcher) {
        Matcher::ExactString(self)
    }
}

impl<'a> JsonMatcher for &'a str {
    open spec fn model(&self) -> MatcherModel {
        MatcherModel::ExactStr(self@)
    }

    fn json_matches(&self, value: &JsonValue) -> (res: Vec<JsonMatcherError>) {
        match_string_exact(self, value)
    }

    fn into_matcher(self) -> (m: Matcher) {
        Matcher::ExactString(StringMatcher { value: self.to_owned() })
    }
}

impl JsonMatcher for String {
    open spec fn model(&self) -> MatcherModel {
        MatcherModel::ExactStr(self@)
    }

    fn json_matches(&self, value: &JsonValue) -> (res: Vec<JsonMatcherError>) {
        match_string_exact(self.as_str(), value)
    }

    fn into_matcher(self) -> (m: Matcher) {
        Matcher::ExactString(StringMatcher { value: self })
    }
}

} // verus!
