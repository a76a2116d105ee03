//! The array matcher: an ordered run of child matchers matched positionally
//! against a candidate array.

use vstd::prelude::*;

use crate::error::JsonMatcherError;
use crate::json_matcher::{
    lemma_matchers_model, match_elements, matchers_model, JsonMatcher, Matcher,
};
use crate::matchers::number::IntegerMatcher;
use crate::semantics::MatcherModel;
use crate::value::JsonValue;

verus! {

/// Matches an array positionally: the expected length is the number of
/// child matchers, and each present element is matched by the child at its
/// index.
pub struct ArrayMatcher {
    pub elements: Vec<Matcher>,
}

impl ArrayMatcher {
    /// An array matcher with no elements yet.
    pub fn new() -> (r: ArrayMatcher)
        ensures
            r.model() == MatcherModel::Array(Seq::<MatcherModel>::empty()),
    {
        let r = ArrayMatcher { elements: Vec::new() };
        proof {
            assert(matchers_model(r.elements@) =~= Seq::<MatcherModel>::empty());
        }
        r
    }

    /// An array matcher over the given children, in order.
    pub fn of(elements: Vec<Matcher>) -> (r: ArrayMatcher)
        ensures
            r.model() == MatcherModel::Array(matchers_model(elements@)),
    {
        ArrayMatcher { elements }
    }

    /// Appends one child matcher.
    pub fn element<M: JsonMatcher>(self, value: M) -> (r: ArrayMatcher)
        ensures
            r.model() == MatcherModel::Array(
                matchers_model(self.elements@).push(value.model()),
            ),
    {
        let ghost pre = self.elements@;
        let ghost vm = value.model();
        let mut elements = self.elements;
        let m = value.into_matcher();
        let ghost m_snapshot = m;
        elements.push(m);
        proof {
            lemma_matchers_model(pre);
            lemma_matchers_model(elements@);
            assert(elements@ == pre.push(m_snapshot));
            assert(matchers_model(elements@) =~= matchers_model(pre).push(vm));
        }
        ArrayMatcher { elements }
    }
}

impl Default for ArrayMatcher {
    fn default() -> (r: ArrayMatcher)
        ensures
            r.model() == MatcherModel::Array(Seq::<MatcherModel>::empty()),
    {
        ArrayMatcher::new()
    }
}

impl JsonMatcher for ArrayMatcher {
    open spec fn model(&self) -> MatcherModel {
        MatcherModel::Array(matchers_model(self.elements@))
    }

    fn json_matches(&self, value: &JsonValue) -> (res: Vec<JsonMatcherError>) {
        match_elements(&self.elements, value)
    }

    fn into_matcher(self) -> (m: Matcher) {
        Matcher::Array(self)
    }
}

impl JsonMatcher for Vec<Matcher> {
    open spec fn model(&self) -> MatcherModel {
        MatcherModel::Array(matchers_model(self@))
    }

    fn json_matches(&self, value: &JsonValue) -> (res: Vec<JsonMatcherError>) {
        match_elements(self, value)
    }

    fn into_matcher(self) -> (m: Matcher) {
        Matcher::Array(ArrayMatcher { elements: self })
    }
}

/// Wraps a run of plain integers as exact integer matchers, in order.
fn i8_matchers(xs: &Vec<i8>) -> (r: Vec<Matcher>)
    ensures
        matchers_model(r@) == xs@.map_values(|x: i8| MatcherModel::Integer(x as int)),
{
    let ghost target = xs@.map_values(|x: i8| MatcherModel::Integer(x as int));
    let mut r: Vec<Matcher> = Vec::new();
    proof {
        lemma_matchers_model(r@);
        assert(matchers_model(r@) =~= target.take(0));
    }
    let mut i: usize = 0;
    while i < xs.len()
        invariant
            i <= xs.len(),
            target == xs@.map_values(|x: i8| MatcherModel::Integer(x as int)),
            matchers_model(r@) =~= target.take(i as int),
        decreases xs.len() - i,
    {
        let ghost pre = r@;
        r.push(Matcher::Integer(IntegerMatcher { value: xs[i] as i64 }));
        proof {
            lemma_matchers_model(pre);
            lemma_matchers_model(r@);
            assert(matchers_model(r@) =~= target.take(i + 1));
        }
        i = i + 1;
    }
    proof {
        assert(target.take(xs@.len() as int) =~= target);
    }
    r
}

impl JsonMatcher for Vec<i8> {
    open spec fn model(&self) -> MatcherModel {
        MatcherModel::Array(self@.map_values(|x: i8| MatcherModel::Integer(x as int)))
    }

    fn json_matches(&self, value: &JsonValue) -> (res: Vec<JsonMatcherError>) {
        let ms = i8_matchers(self);
        match_elements(&ms, value)
    }

    fn into_matcher(self) -> (m: Matcher) {
        let ms = i8_matchers(&self);
        Matcher::Array(ArrayMatcher { elements: ms })
    }
}

} // verus!
