//! The object matcher: named child matchers matched against a candidate
//! object by key, with a configurable tolerance for unexpected keys.
//!
//! Fields are kept sorted by key, one entry per key, so that field-order
//! processing is key-order processing.

use vstd::prelude::*;
use vstd::string::StringExecFns;

use crate::error::JsonMatcherError;
use crate::json_matcher::{
    lemma_matcher_fields_model, match_object_fields, matcher_fields_model, matcher_model,
    JsonMatcher, Matcher,
};
use crate::semantics::MatcherModel;
use crate::strutil::{chars_lt, str_lt};
use crate::value::{insert_sorted_field, object_model_of_pairs, JsonValue};

verus! {

/// Matches an object by key: expected keys must be present, unexpected keys
/// are an error unless allowed, and each commonly-present field is matched
/// by its child matcher.
pub struct ObjectMatcher {
    pub allow_unexpected_keys: bool,
    pub fields: Vec<(String, Matcher)>,
}

/// Dropping the front field drops the front of the model.
proof fn lemma_mfm_drop_first(s: Seq<(String, Matcher)>)
    requires
        s.len() > 0,
    ensures
        matcher_fields_model(s).drop_first() =~= matcher_fields_model(s.drop_first()),
{
    lemma_matcher_fields_model(s);
    lemma_matcher_fields_model(s.drop_first());
    assert forall|i: int| 0 <= i < s.len() - 1 implies matcher_fields_model(s).drop_first()[i]
        == matcher_fields_model(s.drop_first())[i] by {
        assert(matcher_fields_model(s).drop_first()[i] == matcher_fields_model(s)[i + 1]);
        assert(s.drop_first()[i] == s[i + 1]);
    }
}

/// Inserts one field into a key-sorted matcher field list.
fn insert_matcher_field(fields: Vec<(String, Matcher)>, key: String, val: Matcher) -> (r: Vec<
    (String, Matcher),
>)
    ensures
        matcher_fields_model(r@) == insert_sorted_field(
            matcher_fields_model(fields@),
            key@,
            matcher_model(&val),
        ),
    decreases fields@.len(),
{
    let mut fields = fields;
    let ghost pre = fields@;
    if fields.len() == 0 {
        let ghost key_snapshot = key;
        let ghost val_snapshot = val;
        let mut r: Vec<(String, Matcher)> = Vec::new();
        r.push((key, val));
        proof {
            assert(r@[0] == (key_snapshot, val_snapshot));
            lemma_matcher_fields_model(r@);
            assert(matcher_fields_model(pre) =~= Seq::<(Seq<char>, MatcherModel)>::empty());
            assert(insert_sorted_field(matcher_fields_model(pre), key_snapshot@, matcher_model(
                &val_snapshot,
            )) =~= seq![(key_snapshot@, matcher_model(&val_snapshot))]);
            assert(matcher_fields_model(r@) =~= insert_sorted_field(
                matcher_fields_model(pre),
                key_snapshot@,
                matcher_model(&val_snapshot),
            ));
        }
        r
    } else {
        let head_lt = str_lt(fields[0].0.as_str(), key.as_str());
        let key_lt = str_lt(key.as_str(), fields[0].0.as_str());
        proof {
            lemma_matcher_fields_model(pre);
            assert(matcher_fields_model(pre)[0] == (pre[0].0@, matcher_model(&pre[0].1)));
        }
        if head_lt {
            let ghost key_snapshot = key;
            let ghost val_snapshot = val;
            let head = fields.remove(0);
            let ghost head_snapshot = head;
            proof {
                assert(fields@ =~= pre.drop_first());
            }
            let mut r = insert_matcher_field(fields, key, val);
            let ghost r_pre = r@;
            r.insert(0, head);
            proof {
                assert(r@[0] == head_snapshot);
                assert(head_snapshot == pre[0]);
                assert(r@.drop_first() =~= r_pre);
                lemma_matcher_fields_model(r@);
                lemma_matcher_fields_model(r_pre);
                lemma_mfm_drop_first(pre);
                let target = insert_sorted_field(
                    matcher_fields_model(pre),
                    key_snapshot@,
                    matcher_model(&val_snapshot),
                );
                assert(chars_lt(matcher_fields_model(pre)[0].0, key_snapshot@));
                assert(target == seq![matcher_fields_model(pre)[0]] + insert_sorted_field(
                    matcher_fields_model(pre).drop_first(),
                    key_snapshot@,
                    matcher_model(&val_snapshot),
                ));
                assert(matcher_fields_model(pre).drop_first() == matcher_fields_model(
                    pre.drop_first(),
                ));
                lemma_mfm_drop_first(r@);
                assert(matcher_fields_model(r@) =~= target);
            }
            r
        } else if key_lt {
            let ghost key_snapshot = key;
            let ghost val_snapshot = val;
            fields.insert(0, (key, val));
            proof {
                assert(fields@[0] == (key_snapshot, val_snapshot));
                assert(fields@.drop_first() =~= pre);
                lemma_matcher_fields_model(fields@);
                lemma_matcher_fields_model(pre);
                lemma_mfm_drop_first(fields@);
                assert(matcher_fields_model(fields@) =~= seq![(key_snapshot@, matcher_model(
                    &val_snapshot,
                ))] + matcher_fields_model(pre));
                assert(matcher_fields_model(fields@) =~= insert_sorted_field(
                    matcher_fields_model(pre),
                    key_snapshot@,
                    matcher_model(&val_snapshot),
                ));
            }
            fields
        } else {
            let _replaced = fields.remove(0);
            let ghost key_snapshot = key;
            let ghost val_snapshot = val;
            fields.insert(0, (key, val));
            proof {
                assert(fields@[0] == (key_snapshot, val_snapshot));
                assert(fields@.drop_first() =~= pre.drop_first());
                lemma_matcher_fields_model(fields@);
                lemma_mfm_drop_first(fields@);
                lemma_mfm_drop_first(pre);
                assert(matcher_fields_model(fields@) =~= seq![(key_snapshot@, matcher_model(
                    &val_snapshot,
                ))] + matcher_fields_model(pre.drop_first()));
                assert(matcher_fields_model(fields@) =~= insert_sorted_field(
                    matcher_fields_model(pre),
                    key_snapshot@,
                    matcher_model(&val_snapshot),
                ));
            }
            fields
        }
    }
}

impl ObjectMatcher {
    /// An object matcher with no fields yet, refusing unexpected keys.
    pub fn new() -> (r: ObjectMatcher)
        ensures
            r.model() == (MatcherModel::Object {
                allow_unexpected: false,
                fields: Seq::<(Seq<char>, MatcherModel)>::empty(),
            }),
    {
        let r = ObjectMatcher { allow_unexpected_keys: false, fields: Vec::new() };
        proof {
            assert(matcher_fields_model(r.fields@) =~= Seq::<(Seq<char>, MatcherModel)>::empty());
        }
        r
    }

    /// An object matcher over the given fields, refusing unexpected keys.
    /// Fields land in key order; a later field replaces an earlier one with
    /// the same key.
    pub fn of(fields: Vec<(String, Matcher)>) -> (r: ObjectMatcher)
        ensures
            r.model() == (MatcherModel::Object {
                allow_unexpected: false,
                fields: object_model_of_pairs(matcher_fields_model(fields@)),
            }),
    {
        let ghost orig = fields@;
        let mut fields = fields;
        let n = fields.len();
        let mut acc: Vec<(String, Matcher)> = Vec::new();
        let mut i: usize = 0;
        proof {
            assert(orig.len() == n);
            assert(orig.skip(0) =~= orig);
            lemma_matcher_fields_model(orig);
            assert(matcher_fields_model(orig.take(0)) =~= Seq::<
                (Seq<char>, MatcherModel),
            >::empty());
            assert(matcher_fields_model(acc@) =~= Seq::<(Seq<char>, MatcherModel)>::empty());
        }
        while fields.len() > 0
            invariant
                i + fields@.len() == orig.len(),
                orig.len() <= usize::MAX,
                fields@ =~= orig.skip(i as int),
                matcher_fields_model(acc@) == object_model_of_pairs(
                    matcher_fields_model(orig.take(i as int)),
                ),
            decreases fields@.len(),
        {
            let (k, v) = fields.remove(0);
            proof {
                assert(fields@ =~= orig.skip(i + 1));
                assert((k, v) == orig[i as int]);
            }
            let ghost k_snapshot = k;
            let ghost v_snapshot = v;
            acc = insert_matcher_field(acc, k, v);
            proof {
                lemma_matcher_fields_model(orig.take(i + 1));
                lemma_matcher_fields_model(orig.take(i as int));
                lemma_matcher_fields_model(orig);
                assert(orig.take(i + 1).drop_last() =~= orig.take(i as int));
                assert(orig.take(i + 1).last() == orig[i as int]);
                assert(matcher_fields_model(orig.take(i + 1)).drop_last() =~= matcher_fields_model(
                    orig.take(i as int),
                ));
                assert(matcher_fields_model(orig.take(i + 1)).last() == (
                    k_snapshot@,
                    matcher_model(&v_snapshot),
                ));
                assert(matcher_fields_model(acc@) == object_model_of_pairs(
                    matcher_fields_model(orig.take(i + 1)),
                ));
            }
            i = i + 1;
        }
        proof {
            assert(orig.take(i as int) =~= orig);
        }
        ObjectMatcher { allow_unexpected_keys: false, fields: acc }
    }

    /// The same matcher, tolerating unexpected keys.
    pub fn allow_unexpected_keys(self) -> (r: ObjectMatcher)
        ensures
            r.model() == (MatcherModel::Object {
                allow_unexpected: true,
                fields: matcher_fields_model(self.fields@),
            }),
    {
        let ObjectMatcher { allow_unexpected_keys: _, fields } = self;
        ObjectMatcher { allow_unexpected_keys: true, fields }
    }

    /// Adds one named child matcher. The field lands in key order; with an
    /// already-present key the new child replaces the old one.
    pub fn field<M: JsonMatcher>(self, key: &str, value: M) -> (r: ObjectMatcher)
        ensures
            r.model() == (MatcherModel::Object {
                allow_unexpected: self.allow_unexpected_keys,
                fields: insert_sorted_field(
                    matcher_fields_model(self.fields@),
                    key@,
                    value.model(),
                ),
            }),
    {
        let ObjectMatcher { allow_unexpected_keys, fields } = self;
        let m = value.into_matcher();
        let new_fields = insert_matcher_field(fields, key.to_owned(), m);
        ObjectMatcher { allow_unexpected_keys, fields: new_fields }
    }
}

impl Default for ObjectMatcher {
    fn default() -> (r: ObjectMatcher)
        ensures
            r.model() == (MatcherModel::Object {
                allow_unexpected: false,
                fields: Seq::<(Seq<char>, MatcherModel)>::empty(),
            }),
    {
        ObjectMatcher::new()
    }
}

impl JsonMatcher for ObjectMatcher {
    open spec fn model(&self) -> MatcherModel {
        MatcherModel::Object {
            allow_unexpected: self.allow_unexpected_keys,
            fields: matcher_fields_model(self.fields@),
        }
    }

    fn json_matches(&self, value: &JsonValue) -> (res: Vec<JsonMatcherError>) {
        match_object_fields(self.allow_unexpected_keys, &self.fields, value)
    }

    fn into_matcher(self) -> (m: Matcher) {
        Matcher::Object(self)
    }
}

} // verus!
