//! The matching contract and the engine behind it.
//!
//! `JsonMatcher` is the one capability every matcher variant implements:
//! match yourself against a candidate value and return every mismatch,
//! path-qualified as if you were the whole document. `Matcher` is the closed
//! composition form: array and object matchers own their children through
//! it, and any `JsonMatcher` can be wrapped into it.

use vstd::prelude::*;
use vstd::string::{StrSliceExecFns, StringExecFns};

use crate::datetime::{datetime_model, match_datetime, DateTimeStringMatcher};
use crate::error::{
    reroot_all, root_error, ErrorModel, JsonMatcherError, JsonPath, JsonPathElement, PathSegModel,
    push_rerooted,
};
use crate::matchers::any::AnyMatcher;
use crate::matchers::array::ArrayMatcher;
use crate::matchers::boolean::BooleanMatcher;
use crate::matchers::null::NullMatcher;
use crate::matchers::number::IntegerMatcher;
use crate::matchers::object::ObjectMatcher;
use crate::matchers::string::StringMatcher;
use crate::semantics::{
    absent_keys, any_errors, array_element_errors, array_length_errors, boolean_any_errors,
    boolean_exact_errors, errors_of, field_value, float_errors, has_key, integer_errors,
    key_errors_from, keys_of, literal_array_errors, literal_element_errors, literal_errors,
    literal_field_errors, null_errors, object_field_errors, object_key_errors,
    string_errors, u16_errors, uuid_errors, MatcherModel,
};
use crate::strutil::{i64_to_string, join_strings, str_eq, usize_to_string};
use crate::u16_matcher::U16Matcher;
use crate::uuid_matcher::UuidMatcher;
use crate::value::{
    lemma_value_fields_model, lemma_values_model, value_fields_model, value_model, values_model,
    JsonNumber, JsonValue, ValueModel,
};
use crate::views::lemma_deep_push;

verus! {

broadcast use vstd::std_specs::vec::group_vec_axioms;

/// The closed form of a matcher, which composite matchers own their
/// children through.
pub enum Matcher {
    Null(NullMatcher),
    Boolean(BooleanMatcher),
    Integer(IntegerMatcher),
    ExactString(StringMatcher),
    Any(AnyMatcher),
    Uuid(UuidMatcher),
    U16(U16Matcher),
    Datetime(DateTimeStringMatcher),
    Array(ArrayMatcher),
    Object(ObjectMatcher),
    Literal(JsonValue),
}

/// The model of a matcher.
pub open spec fn matcher_model(m: &Matcher) -> MatcherModel
    decreases m,
{
    match m {
        Matcher::Null(_) => MatcherModel::Null,
        Matcher::Boolean(b) => match b {
            BooleanMatcher::Exact(x) => MatcherModel::BoolExact(*x),
            BooleanMatcher::Any => MatcherModel::BoolAny,
        },
        Matcher::Integer(x) => MatcherModel::Integer(x.value as int),
        Matcher::ExactString(sm) => MatcherModel::ExactStr(sm.value@),
        Matcher::Any(a) => MatcherModel::Any { not_null: a.not_null },
        Matcher::Uuid(_) => MatcherModel::Uuid,
        Matcher::U16(u) => MatcherModel::U16 { allow_strings: u.allow_strings },
        Matcher::Datetime(d) => datetime_model(d),
        Matcher::Array(am) => MatcherModel::Array(matchers_model(am.elements@)),
        Matcher::Object(om) => MatcherModel::Object {
            allow_unexpected: om.allow_unexpected_keys,
            fields: matcher_fields_model(om.fields@),
        },
        Matcher::Literal(v) => MatcherModel::Literal(value_model(v)),
    }
}

/// The models of a run of matchers, in order.
pub open spec fn matchers_model(s: Seq<Matcher>) -> Seq<MatcherModel>
    decreases s,
{
    if s.len() == 0 {
        Seq::empty()
    } else {
        seq![matcher_model(&s[0])] + matchers_model(s.drop_first())
    }
}

/// The models of a run of named matcher fields, in order.
pub open spec fn matcher_fields_model(s: Seq<(String, Matcher)>) -> Seq<
    (Seq<char>, MatcherModel),
>
    decreases s,
{
    if s.len() == 0 {
        Seq::empty()
    } else {
        seq![(s[0].0@, matcher_model(&s[0].1))] + matcher_fields_model(s.drop_first())
    }
}

/// `matchers_model` maps each matcher to its model, in place.
pub proof fn lemma_matchers_model(s: Seq<Matcher>)
    ensures
        matchers_model(s).len() == s.len(),
        forall|i: int| 0 <= i < s.len() ==> matchers_model(s)[i] == matcher_model(&s[i]),
    decreases s,
{
    if s.len() > 0 {
        lemma_matchers_model(s.drop_first());
    }
}

/// `matcher_fields_model` maps each field to its model, in place.
pub proof fn lemma_matcher_fields_model(s: Seq<(String, Matcher)>)
    ensures
        matcher_fields_model(s).len() == s.len(),
        forall|i: int|
            0 <= i < s.len() ==> matcher_fields_model(s)[i] == (
                s[i].0@,
                matcher_model(&s[i].1),
            ),
    decreases s,
{
    if s.len() > 0 {
        lemma_matcher_fields_model(s.drop_first());
    }
}

impl View for Matcher {
    type V = MatcherModel;

    open spec fn view(&self) -> MatcherModel {
        matcher_model(self)
    }
}

/// The matching contract: a matcher answers, for one candidate value, with
/// every mismatch it finds — the empty list meaning the candidate satisfies
/// it. Matching is a pure read of the matcher and the candidate.
pub trait JsonMatcher: Sized {
    /// The shape this matcher expects.
    spec fn model(&self) -> MatcherModel;

    /// Matches against a candidate value; the result is exactly what the
    /// matching semantics assign to this matcher's shape and the value.
    fn json_matches(&self, value: &JsonValue) -> (res: Vec<JsonMatcherError>)
        ensures
            res.deep_view() == errors_of(self.model(), value@),
    ;

    /// Wraps this matcher in the closed composition form, keeping its shape.
    fn into_matcher(self) -> (m: Matcher)
        ensures
            m@ == self.model(),
    ;
}

/// An empty result.
pub(crate) fn no_errors() -> (r: Vec<JsonMatcherError>)
    ensures
        r.deep_view() == Seq::<ErrorModel>::empty(),
{
    let r: Vec<JsonMatcherError> = Vec::new();
    proof {
        assert(r.deep_view() =~= Seq::<ErrorModel>::empty());
    }
    r
}

/// A result holding one mismatch.
pub(crate) fn one_error(e: JsonMatcherError) -> (r: Vec<JsonMatcherError>)
    ensures
        r.deep_view() == seq![e.deep_view()],
{
    let ghost em = e.deep_view();
    let mut r: Vec<JsonMatcherError> = Vec::new();
    r.push(e);
    proof {
        assert(r.deep_view() =~= seq![em]);
    }
    r
}

/// The null matcher's body.
pub(crate) fn match_null(value: &JsonValue) -> (res: Vec<JsonMatcherError>)
    ensures
        res.deep_view() == null_errors(value@),
{
    match value {
        JsonValue::Null => no_errors(),
        _ => one_error(JsonMatcherError::at_root("Value is not null")),
    }
}

/// The exact boolean matcher's body.
pub(crate) fn match_bool_exact(expected: bool, value: &JsonValue) -> (res: Vec<JsonMatcherError>)
    ensures
        res.deep_view() == boolean_exact_errors(expected, value@),
{
    match value {
        JsonValue::Bool(actual) => {
            if *actual == expected {
                no_errors()
            } else {
                let mut msg = String::from_str("Value is not ");
                if expected {
                    msg.append("true");
                } else {
                    msg.append("false");
                }
                one_error(JsonMatcherError { path: JsonPath::default(), message: msg })
            }
        },
        _ => one_error(JsonMatcherError::at_root("Value is not a boolean")),
    }
}

/// The any-boolean matcher's body.
pub(crate) fn match_bool_any(value: &JsonValue) -> (res: Vec<JsonMatcherError>)
    ensures
        res.deep_view() == boolean_any_errors(value@),
{
    match value {
        JsonValue::Bool(_) => no_errors(),
        _ => one_error(JsonMatcherError::at_root("Value is not a boolean")),
    }
}

/// The exact integer matcher's body.
pub(crate) fn match_integer(expected: i64, value: &JsonValue) -> (res: Vec<JsonMatcherError>)
    ensures
        res.deep_view() == integer_errors(expected as int, value@),
{
    match value {
        JsonValue::Number(n) => {
            match n.int_val {
                Option::Some(actual) => {
                    if actual == expected {
                        no_errors()
                    } else {
                        let mut msg = String::from_str("Expected integer ");
                        let e_txt = i64_to_string(expected);
                        msg.append(e_txt.as_str());
                        msg.append(" but got ");
                        let a_txt = i64_to_string(actual);
                        msg.append(a_txt.as_str());
                        one_error(JsonMatcherError { path: JsonPath::default(), message: msg })
                    }
                },
                Option::None => {
                    let mut msg = String::from_str("Expected integer ");
                    let e_txt = i64_to_string(expected);
                    msg.append(e_txt.as_str());
                    msg.append(" but got float ");
                    msg.append(n.text.as_str());
                    one_error(JsonMatcherError { path: JsonPath::default(), message: msg })
                },
            }
        },
        _ => one_error(JsonMatcherError::at_root("Value is not an integer")),
    }
}

/// The exact float literal's body: same bits, or one mismatch.
pub(crate) fn match_float_literal(expected: &JsonNumber, value: &JsonValue) -> (res: Vec<
    JsonMatcherError,
>)
    ensures
        res.deep_view() == float_errors(expected@, value@),
{
    match value {
        JsonValue::Number(actual) => {
            if actual.float_bits == expected.float_bits {
                no_errors()
            } else {
                let mut msg = String::from_str("Expected float ");
                msg.append(expected.float_text.as_str());
                msg.append(" but got ");
                msg.append(actual.float_text.as_str());
                one_error(JsonMatcherError { path: JsonPath::default(), message: msg })
            }
        },
        _ => one_error(JsonMatcherError::at_root("Value is not a float")),
    }
}

/// The exact string matcher's body.
pub(crate) fn match_string_exact(expected: &str, value: &JsonValue) -> (res: Vec<JsonMatcherError>)
    ensures
        res.deep_view() == string_errors(expected@, value@),
{
    match value {
        JsonValue::Str(actual) => {
            if str_eq(actual.as_str(), expected) {
                no_errors()
            } else {
                let mut msg = String::from_str("Expected string \"");
                msg.append(expected);
                msg.append("\" but got \"");
                msg.append(actual.as_str());
                msg.append("\"");
                one_error(JsonMatcherError { path: JsonPath::default(), message: msg })
            }
        },
        _ => one_error(JsonMatcherError::at_root("Value is not a string")),
    }
}

/// The anything matcher's body.
pub(crate) fn match_any(not_null: bool, value: &JsonValue) -> (res: Vec<JsonMatcherError>)
    ensures
        res.deep_view() == any_errors(not_null, value@),
{
    if not_null {
        match value {
            JsonValue::Null => one_error(JsonMatcherError::at_root("Expected non-null value")),
            _ => no_errors(),
        }
    } else {
        no_errors()
    }
}

/// The UUID-shape matcher's body.
pub(crate) fn match_uuid(value: &JsonValue) -> (res: Vec<JsonMatcherError>)
    ensures
        res.deep_view() == uuid_errors(value@),
{
    match value {
        JsonValue::Str(s) => {
            let bytes = s.as_str().as_bytes();
            proof {
                vstd::slice::axiom_spec_len(bytes);
            }
            let byte_len = bytes.len();
            let hyphens = crate::strutil::count_char_in_str(s.as_str(), '-');
            if byte_len == 36 && hyphens == 4 {
                no_errors()
            } else {
                one_error(JsonMatcherError::at_root("Expected valid UUID format"))
            }
        },
        _ => one_error(JsonMatcherError::at_root("Expected string for UUID")),
    }
}

/// The bounded-integer matcher's body.
pub(crate) fn match_u16(allow_strings: bool, value: &JsonValue) -> (res: Vec<JsonMatcherError>)
    ensures
        res.deep_view() == u16_errors(allow_strings, value@),
{
    if allow_strings {
        match value {
            JsonValue::Str(s) => {
                if crate::strutil::parses_as_u16(s.as_str()) {
                    no_errors()
                } else {
                    one_error(JsonMatcherError::at_root("Expected number fitting u16"))
                }
            },
            _ => one_error(JsonMatcherError::at_root("Expected string fitting u16")),
        }
    } else {
        match value {
            JsonValue::Number(n) => {
                match n.int_val {
                    Option::Some(a) => {
                        if 0 <= a && a <= 65535 {
                            no_errors()
                        } else {
                            one_error(JsonMatcherError::at_root("Integer out of bounds for u16"))
                        }
                    },
                    Option::None => one_error(
                        JsonMatcherError::at_root("Expected number fitting u16"),
                    ),
                }
            },
            _ => one_error(JsonMatcherError::at_root("Expected number fitting u16")),
        }
    }
}

/// Appends the aggregate array-length errors.
#[verifier::loop_isolation(false)]
fn push_length_errors(errors: &mut Vec<JsonMatcherError>, expected_len: usize, actual_len: usize)
    ensures
        final (errors).deep_view() =~= old(errors).deep_view() + array_length_errors(
            expected_len as int,
            actual_len as int,
        ),
{
    if actual_len < expected_len {
        let msg = if expected_len - actual_len == 1 {
            let mut m = String::from_str("Array is missing index ");
            let t = usize_to_string(actual_len);
            m.append(t.as_str());
            m
        } else {
            let mut m = String::from_str("Array is missing indexes: ");
            let t = usize_to_string(actual_len);
            m.append(t.as_str());
            m.append("..");
            let t2 = usize_to_string(expected_len - 1);
            m.append(t2.as_str());
            m
        };
        let e = JsonMatcherError { path: JsonPath::default(), message: msg };
        let ghost e_snapshot = e;
        let ghost pre = *errors;
        errors.push(e);
        proof {
            lemma_deep_push(pre, *errors, e_snapshot);
            assert(errors.deep_view() =~= old(errors).deep_view() + array_length_errors(
                expected_len as int,
                actual_len as int,
            ));
        }
    } else if actual_len > expected_len {
        let msg = if actual_len - expected_len == 1 {
            let mut m = String::from_str("Array has unexpected index ");
            let t = usize_to_string(expected_len);
            m.append(t.as_str());
            m
        } else {
            let mut m = String::from_str("Array has unexpected indexes: ");
            let t = usize_to_string(expected_len);
            m.append(t.as_str());
            m.append("..");
            let t2 = usize_to_string(actual_len - 1);
            m.append(t2.as_str());
            m
        };
        let e = JsonMatcherError { path: JsonPath::default(), message: msg };
        let ghost e_snapshot = e;
        let ghost pre = *errors;
        errors.push(e);
        proof {
            lemma_deep_push(pre, *errors, e_snapshot);
            assert(errors.deep_view() =~= old(errors).deep_view() + array_length_errors(
                expected_len as int,
                actual_len as int,
            ));
        }
    } else {
        proof {
            assert(errors.deep_view() =~= old(errors).deep_view() + array_length_errors(
                expected_len as int,
                actual_len as int,
            ));
        }
    }
}

/// Appends the object-level key-set errors assembled from the collected
/// missing and unexpected key lists.
fn push_key_errors(
    errors: &mut Vec<JsonMatcherError>,
    allow_unexpected: bool,
    missing: &Vec<String>,
    unexpected: &Vec<String>,
)
    ensures
        final (errors).deep_view() =~= old(errors).deep_view() + key_errors_from(
            allow_unexpected,
            missing.deep_view(),
            unexpected.deep_view(),
        ),
{
    if missing.len() > 0 {
        let mut msg = String::from_str("Object is missing keys: ");
        let joined = join_strings(missing, ", ");
        msg.append(joined.as_str());
        let e = JsonMatcherError { path: JsonPath::default(), message: msg };
        let ghost e_snapshot = e;
        let ghost pre = *errors;
        errors.push(e);
        proof {
            lemma_deep_push(pre, *errors, e_snapshot);
        }
    }
    if !allow_unexpected && unexpected.len() > 0 {
        let mut msg = String::from_str("Object has unexpected keys: ");
        let joined = join_strings(unexpected, ", ");
        msg.append(joined.as_str());
        let e = JsonMatcherError { path: JsonPath::default(), message: msg };
        let ghost e_snapshot = e;
        let ghost pre = *errors;
        errors.push(e);
        proof {
            lemma_deep_push(pre, *errors, e_snapshot);
        }
    }
    proof {
        assert(errors.deep_view() =~= old(errors).deep_view() + key_errors_from(
            allow_unexpected,
            missing.deep_view(),
            unexpected.deep_view(),
        ));
    }
}

/// Whether a value field list holds a key.
#[verifier::loop_isolation(false)]
fn has_value_key(fields: &Vec<(String, JsonValue)>, k: &String) -> (r: bool)
    ensures
        r == has_key(value_fields_model(fields@), k@),
{
    proof {
        lemma_value_fields_model(fields@);
    }
    let mut i: usize = 0;
    while i < fields.len()
        invariant
            i <= fields.len(),
            forall|j: int| 0 <= j < i ==> value_fields_model(fields@)[j].0 != k@,
        decreases fields.len() - i,
    {
        if str_eq(fields[i].0.as_str(), k.as_str()) {
            proof {
                assert(value_fields_model(fields@)[i as int].0 == k@);
            }
            return true;
        }
        i = i + 1;
    }
    proof {
        assert(!has_key(value_fields_model(fields@), k@));
    }
    false
}

/// Whether a matcher field list holds a key.
#[verifier::loop_isolation(false)]
fn has_matcher_key(fields: &Vec<(String, Matcher)>, k: &String) -> (r: bool)
    ensures
        r == has_key(matcher_fields_model(fields@), k@),
{
    proof {
        lemma_matcher_fields_model(fields@);
    }
    let mut i: usize = 0;
    while i < fields.len()
        invariant
            i <= fields.len(),
            forall|j: int| 0 <= j < i ==> matcher_fields_model(fields@)[j].0 != k@,
        decreases fields.len() - i,
    {
        if str_eq(fields[i].0.as_str(), k.as_str()) {
            proof {
                assert(matcher_fields_model(fields@)[i as int].0 == k@);
            }
            return true;
        }
        i = i + 1;
    }
    proof {
        assert(!has_key(matcher_fields_model(fields@), k@));
    }
    false
}

/// Finds the value under the first field with the given key.
#[verifier::loop_isolation(false)]
fn lookup_value<'a>(fields: &'a Vec<(String, JsonValue)>, k: &String) -> (r: Option<
    &'a JsonValue,
>)
    ensures
        match r {
            Option::Some(v) => has_key(value_fields_model(fields@), k@) && v@ == field_value(
                value_fields_model(fields@),
                k@,
            ),
            Option::None => !has_key(value_fields_model(fields@), k@),
        },
{
    proof {
        lemma_value_fields_model(fields@);
    }
    let mut i: usize = 0;
    while i < fields.len()
        invariant
            i <= fields.len(),
            forall|j: int| 0 <= j < i ==> value_fields_model(fields@)[j].0 != k@,
        decreases fields.len() - i,
    {
        if str_eq(fields[i].0.as_str(), k.as_str()) {
            proof {
                assert(value_fields_model(fields@)[i as int].0 == k@);
                crate::semantics::lemma_field_value_at(value_fields_model(fields@), k@, i as int);
            }
            return Option::Some(&fields[i].1);
        }
        i = i + 1;
    }
    proof {
        assert(!has_key(value_fields_model(fields@), k@));
    }
    Option::None
}

/// Matches a run of child matchers positionally against a candidate, as an
/// array matcher does: aggregate length errors, then each commonly-present
/// element's mismatches under its index.
#[verifier::loop_isolation(false)]
pub fn match_elements(elements: &Vec<Matcher>, value: &JsonValue) -> (res: Vec<JsonMatcherError>)
    ensures
        res.deep_view() == errors_of(
            MatcherModel::Array(matchers_model(elements@)),
            value@,
        ),
    decreases elements,
{
    let ghost ms = matchers_model(elements@);
    proof {
        lemma_matchers_model(elements@);
    }
    match value {
        JsonValue::Array(vs) => {
            let ghost vm = values_model(vs@);
            proof {
                lemma_values_model(vs@);
            }
            let mut errors: Vec<JsonMatcherError> = Vec::new();
            push_length_errors(&mut errors, elements.len(), vs.len());
            let common = if vs.len() < elements.len() {
                vs.len()
            } else {
                elements.len()
            };
            let ghost target = array_length_errors(ms.len() as int, vm.len() as int)
                + array_element_errors(ms, vm, 0);
            let mut i: usize = 0;
            while i < common
                invariant
                    i <= common,
                    errors.deep_view() + array_element_errors(ms, vm, i as int) =~= target,
                decreases common - i,
            {
                let child = match_matcher(&elements[i], &vs[i]);
                let ghost pre = errors.deep_view();
                push_rerooted(&mut errors, &JsonPathElement::Index(i), child);
                proof {
                    assert(child.deep_view() == errors_of(ms[i as int], vm[i as int]));
                    assert(array_element_errors(ms, vm, i as int) == reroot_all(
                        PathSegModel::Index(i as int),
                        errors_of(ms[i as int], vm[i as int]),
                    ) + array_element_errors(ms, vm, i as int + 1));
                    assert(errors.deep_view() + array_element_errors(ms, vm, i as int + 1)
                        =~= target);
                }
                i = i + 1;
            }
            proof {
                assert(array_element_errors(ms, vm, common as int) =~= Seq::<ErrorModel>::empty());
                assert(errors.deep_view() =~= target);
                assert(value@ == ValueModel::Array(vm));
            }
            errors
        },
        _ => {
            let res = one_error(JsonMatcherError::at_root("Value is not an array"));
            proof {
                assert(res.deep_view() =~= errors_of(MatcherModel::Array(ms), value@));
            }
            res
        },
    }
}

/// Matches named child matchers against a candidate, as an object matcher
/// does: the missing-key error, the unexpected-key error unless unexpected
/// keys are allowed, then each commonly-present field's mismatches under
/// its key, in stored field order.
#[verifier::loop_isolation(false)]
pub fn match_object_fields(
    allow_unexpected_keys: bool,
    fields: &Vec<(String, Matcher)>,
    value: &JsonValue,
) -> (res: Vec<JsonMatcherError>)
    ensures
        res.deep_view() == errors_of(
            MatcherModel::Object {
                allow_unexpected: allow_unexpected_keys,
                fields: matcher_fields_model(fields@),
            },
            value@,
        ),
    decreases fields,
{
    let ghost fm = matcher_fields_model(fields@);
    proof {
        lemma_matcher_fields_model(fields@);
    }
    match value {
        JsonValue::Object(actual) => {
            let ghost am = value_fields_model(actual@);
            proof {
                lemma_value_fields_model(actual@);
            }
            // Expected keys the candidate lacks, in field order.
            let mut missing: Vec<String> = Vec::new();
            let ghost mkeys = keys_of(fm);
            proof {
                assert(mkeys.skip(0) =~= mkeys);
                assert(missing.deep_view() =~= Seq::<Seq<char>>::empty());
            }
            let mut i: usize = 0;
            while i < fields.len()
                invariant
                    i <= fields.len(),
                    missing.deep_view() + absent_keys(mkeys.skip(i as int), am) =~= absent_keys(
                        mkeys,
                        am,
                    ),
                decreases fields.len() - i,
            {
                proof {
                    assert(mkeys.skip(i as int)[0] == mkeys[i as int]);
                    assert(mkeys[i as int] == fm[i as int].0);
                    assert(mkeys.skip(i as int).drop_first() =~= mkeys.skip(i as int + 1));
                }
                let present = has_value_key(actual, &fields[i].0);
                if !present {
                    let kcopy = fields[i].0.clone();
                    let ghost kc = kcopy;
                    let ghost pre = missing;
                    missing.push(kcopy);
                    proof {
                        lemma_deep_push(pre, missing, kc);
                        assert(missing.deep_view() + absent_keys(mkeys.skip(i as int + 1), am)
                            =~= absent_keys(mkeys, am));
                    }
                } else {
                    proof {
                        assert(missing.deep_view() + absent_keys(mkeys.skip(i as int + 1), am)
                            =~= absent_keys(mkeys, am));
                    }
                }
                i = i + 1;
            }
            proof {
                assert(mkeys.skip(fields@.len() as int).len() == 0);
                assert(missing.deep_view() =~= absent_keys(mkeys, am));
            }
            // Candidate keys no field expects, in document order.
            let mut unexpected: Vec<String> = Vec::new();
            let ghost akeys = keys_of(am);
            proof {
                assert(akeys.skip(0) =~= akeys);
                assert(unexpected.deep_view() =~= Seq::<Seq<char>>::empty());
            }
            let mut j: usize = 0;
            while j < actual.len()
                invariant
                    j <= actual.len(),
                    unexpected.deep_view() + absent_keys(akeys.skip(j as int), fm) =~= absent_keys(
                        akeys,
                        fm,
                    ),
                decreases actual.len() - j,
            {
                proof {
                    assert(akeys.skip(j as int)[0] == akeys[j as int]);
                    assert(akeys[j as int] == am[j as int].0);
                    assert(akeys.skip(j as int).drop_first() =~= akeys.skip(j as int + 1));
                }
                let expected_here = has_matcher_key(fields, &actual[j].0);
                if !expected_here {
                    let kcopy = actual[j].0.clone();
                    let ghost kc = kcopy;
                    let ghost pre = unexpected;
                    unexpected.push(kcopy);
                    proof {
                        lemma_deep_push(pre, unexpected, kc);
                        assert(unexpected.deep_view() + absent_keys(akeys.skip(j as int + 1), fm)
                            =~= absent_keys(akeys, fm));
                    }
                } else {
                    proof {
                        assert(unexpected.deep_view() + absent_keys(akeys.skip(j as int + 1), fm)
                            =~= absent_keys(akeys, fm));
                    }
                }
                j = j + 1;
            }
            proof {
                assert(akeys.skip(actual@.len() as int).len() == 0);
                assert(unexpected.deep_view() =~= absent_keys(akeys, fm));
            }
            let mut errors: Vec<JsonMatcherError> = Vec::new();
            push_key_errors(&mut errors, allow_unexpected_keys, &missing, &unexpected);
            let ghost key_errs = object_key_errors(allow_unexpected_keys, fm, am);
            proof {
                assert(errors.deep_view() =~= key_errs);
            }
            let ghost target = key_errs + object_field_errors(fm, am, 0);
            let mut f: usize = 0;
            while f < fields.len()
                invariant
                    f <= fields.len(),
                    errors.deep_view() + object_field_errors(fm, am, f as int) =~= target,
                decreases fields.len() - f,
            {
                proof {
                    assert(fm[f as int] == (fields@[f as int].0@, matcher_model(
                        &fields@[f as int].1,
                    )));
                }
                let found = lookup_value(actual, &fields[f].0);
                match found {
                    Option::Some(av) => {
                        let child = match_matcher(&fields[f].1, av);
                        push_rerooted(&mut errors, &JsonPathElement::Key(fields[f].0.clone()), child);
                        proof {
                            assert(object_field_errors(fm, am, f as int) == reroot_all(
                                PathSegModel::Key(fm[f as int].0),
                                errors_of(fm[f as int].1, field_value(am, fm[f as int].0)),
                            ) + object_field_errors(fm, am, f as int + 1));
                            assert(errors.deep_view() + object_field_errors(fm, am, f as int + 1)
                                =~= target);
                        }
                    },
                    Option::None => {
                        proof {
                            assert(object_field_errors(fm, am, f as int) == object_field_errors(
                                fm,
                                am,
                                f as int + 1,
                            ));
                        }
                    },
                }
                f = f + 1;
            }
            proof {
                assert(object_field_errors(fm, am, fields@.len() as int) =~= Seq::<
                    ErrorModel,
                >::empty());
                assert(errors.deep_view() =~= target);
                assert(value@ == ValueModel::Object(am));
            }
            errors
        },
        _ => {
            let res = one_error(JsonMatcherError::at_root("Value is not an object"));
            proof {
                assert(res.deep_view() =~= errors_of(
                    MatcherModel::Object { allow_unexpected: allow_unexpected_keys, fields: fm },
                    value@,
                ));
            }
            res
        },
    }
}

/// Matches one matcher of the closed form against a candidate value.
pub fn match_matcher(m: &Matcher, value: &JsonValue) -> (res: Vec<JsonMatcherError>)
    ensures
        res.deep_view() == errors_of(m@, value@),
    decreases m,
{
    match m {
        Matcher::Null(_) => match_null(value),
        Matcher::Boolean(b) => match b {
            BooleanMatcher::Exact(x) => match_bool_exact(*x, value),
            BooleanMatcher::Any => match_bool_any(value),
        },
        Matcher::Integer(x) => match_integer(x.value, value),
        Matcher::ExactString(sm) => match_string_exact(sm.value.as_str(), value),
        Matcher::Any(a) => match_any(a.not_null, value),
        Matcher::Uuid(_) => match_uuid(value),
        Matcher::U16(u) => match_u16(u.allow_strings, value),
        Matcher::Datetime(d) => match_datetime(d, value),
        Matcher::Array(am) => match_elements(&am.elements, value),
        Matcher::Object(om) => match_object_fields(om.allow_unexpected_keys, &om.fields, value),
        Matcher::Literal(ev) => match_literal(ev, value),
    }
}

/// Matches a literal value acting as its own exact matcher.
pub fn match_literal(expected: &JsonValue, value: &JsonValue) -> (res: Vec<JsonMatcherError>)
    ensures
        res.deep_view() == literal_errors(expected@, value@),
    decreases expected,
{
    match expected {
        JsonValue::Null => match_null(value),
        JsonValue::Bool(b) => match_bool_exact(*b, value),
        JsonValue::Number(n) => match n.int_val {
            Option::Some(i) => match_integer(i, value),
            Option::None => match_float_literal(n, value),
        },
        JsonValue::Str(s) => match_string_exact(s.as_str(), value),
        JsonValue::Array(evs) => match_literal_array(evs, value),
        JsonValue::Object(efields) => match_literal_object(efields, value),
    }
}

/// Matches a literal array positionally, each element again as a literal.
#[verifier::loop_isolation(false)]
fn match_literal_array(evs: &Vec<JsonValue>, value: &JsonValue) -> (res: Vec<JsonMatcherError>)
    ensures
        res.deep_view() == (match value@ {
            ValueModel::Array(vs) => literal_array_errors(values_model(evs@), vs),
            _ => seq![root_error("Value is not an array"@)],
        }),
    decreases evs,
{
    let ghost ms = values_model(evs@);
    proof {
        lemma_values_model(evs@);
    }
    match value {
        JsonValue::Array(vs) => {
            let ghost vm = values_model(vs@);
            proof {
                lemma_values_model(vs@);
            }
            let mut errors: Vec<JsonMatcherError> = Vec::new();
            push_length_errors(&mut errors, evs.len(), vs.len());
            let common = if vs.len() < evs.len() {
                vs.len()
            } else {
                evs.len()
            };
            let ghost target = array_length_errors(ms.len() as int, vm.len() as int)
                + literal_element_errors(ms, vm, 0);
            let mut i: usize = 0;
            while i < common
                invariant
                    i <= common,
                    errors.deep_view() + literal_element_errors(ms, vm, i as int) =~= target,
                decreases common - i,
            {
                let child = match_literal(&evs[i], &vs[i]);
                push_rerooted(&mut errors, &JsonPathElement::Index(i), child);
                proof {
                    assert(child.deep_view() == literal_errors(ms[i as int], vm[i as int]));
                    assert(literal_element_errors(ms, vm, i as int) == reroot_all(
                        PathSegModel::Index(i as int),
                        literal_errors(ms[i as int], vm[i as int]),
                    ) + literal_element_errors(ms, vm, i as int + 1));
                    assert(errors.deep_view() + literal_element_errors(ms, vm, i as int + 1)
                        =~= target);
                }
                i = i + 1;
            }
            proof {
                assert(literal_element_errors(ms, vm, common as int) =~= Seq::<
                    ErrorModel,
                >::empty());
                assert(errors.deep_view() =~= target);
                assert(value@ == ValueModel::Array(vm));
            }
            errors
        },
        _ => {
            let res = one_error(JsonMatcherError::at_root("Value is not an array"));
            res
        },
    }
}

/// Matches a literal object by key with no unexpected keys allowed, each
/// field's value again as a literal.
#[verifier::loop_isolation(false)]
fn match_literal_object(efields: &Vec<(String, JsonValue)>, value: &JsonValue) -> (res: Vec<
    JsonMatcherError,
>)
    ensures
        res.deep_view() == (match value@ {
            ValueModel::Object(actual) => object_key_errors(
                false,
                value_fields_model(efields@),
                actual,
            ) + literal_field_errors(value_fields_model(efields@), actual, 0),
            _ => seq![root_error("Value is not an object"@)],
        }),
    decreases efields,
{
    let ghost fm = value_fields_model(efields@);
    proof {
        lemma_value_fields_model(efields@);
    }
    match value {
        JsonValue::Object(actual) => {
            let ghost am = value_fields_model(actual@);
            proof {
                lemma_value_fields_model(actual@);
            }
            let mut missing: Vec<String> = Vec::new();
            let ghost mkeys = keys_of(fm);
            proof {
                assert(mkeys.skip(0) =~= mkeys);
                assert(missing.deep_view() =~= Seq::<Seq<char>>::empty());
            }
            let mut i: usize = 0;
            while i < efields.len()
                invariant
                    i <= efields.len(),
                    missing.deep_view() + absent_keys(mkeys.skip(i as int), am) =~= absent_keys(
                        mkeys,
                        am,
                    ),
                decreases efields.len() - i,
            {
                proof {
                    assert(mkeys.skip(i as int)[0] == mkeys[i as int]);
                    assert(mkeys[i as int] == fm[i as int].0);
                    assert(mkeys.skip(i as int).drop_first() =~= mkeys.skip(i as int + 1));
                }
                let present = has_value_key(actual, &efields[i].0);
                if !present {
                    let kcopy = efields[i].0.clone();
                    let ghost kc = kcopy;
                    let ghost pre = missing;
                    missing.push(kcopy);
                    proof {
                        lemma_deep_push(pre, missing, kc);
                        assert(missing.deep_view() + absent_keys(mkeys.skip(i as int + 1), am)
                            =~= absent_keys(mkeys, am));
                    }
                } else {
                    proof {
                        assert(missing.deep_view() + absent_keys(mkeys.skip(i as int + 1), am)
                            =~= absent_keys(mkeys, am));
                    }
                }
                i = i + 1;
            }
            proof {
                assert(mkeys.skip(efields@.len() as int).len() == 0);
                assert(missing.deep_view() =~= absent_keys(mkeys, am));
            }
            let mut unexpected: Vec<String> = Vec::new();
            let ghost akeys = keys_of(am);
            proof {
                assert(akeys.skip(0) =~= akeys);
                assert(unexpected.deep_view() =~= Seq::<Seq<char>>::empty());
            }
            let mut j: usize = 0;
            while j < actual.len()
                invariant
                    j <= actual.len(),
                    unexpected.deep_view() + absent_keys(akeys.skip(j as int), fm) =~= absent_keys(
                        akeys,
                        fm,
                    ),
                decreases actual.len() - j,
            {
                proof {
                    assert(akeys.skip(j as int)[0] == akeys[j as int]);
                    assert(akeys[j as int] == am[j as int].0);
                    assert(akeys.skip(j as int).drop_first() =~= akeys.skip(j as int + 1));
                }
                let expected_here = has_value_key(efields, &actual[j].0);
                if !expected_here {
                    let kcopy = actual[j].0.clone();
                    let ghost kc = kcopy;
                    let ghost pre = unexpected;
                    unexpected.push(kcopy);
                    proof {
                        lemma_deep_push(pre, unexpected, kc);
                        assert(unexpected.deep_view() + absent_keys(akeys.skip(j as int + 1), fm)
                            =~= absent_keys(akeys, fm));
                    }
                } else {
                    proof {
                        assert(unexpected.deep_view() + absent_keys(akeys.skip(j as int + 1), fm)
                            =~= absent_keys(akeys, fm));
                    }
                }
                j = j + 1;
            }
            proof {
                assert(akeys.skip(actual@.len() as int).len() == 0);
                assert(unexpected.deep_view() =~= absent_keys(akeys, fm));
            }
            let mut errors: Vec<JsonMatcherError> = Vec::new();
            push_key_errors(&mut errors, false, &missing, &unexpected);
            let ghost key_errs = object_key_errors(false, fm, am);
            proof {
                assert(errors.deep_view() =~= key_errs);
            }
            let ghost target = key_errs + literal_field_errors(fm, am, 0);
            let mut f: usize = 0;
            while f < efields.len()
                invariant
                    f <= efields.len(),
                    errors.deep_view() + literal_field_errors(fm, am, f as int) =~= target,
                decreases efields.len() - f,
            {
                proof {
                    assert(fm[f as int] == (efields@[f as int].0@, value_model(
                        &efields@[f as int].1,
                    )));
                }
                let found = lookup_value(actual, &efields[f].0);
                match found {
                    Option::Some(av) => {
                        let child = match_literal(&efields[f].1, av);
                        push_rerooted(
                            &mut errors,
                            &JsonPathElement::Key(efields[f].0.clone()),
                            child,
                        );
                        proof {
                            assert(literal_field_errors(fm, am, f as int) == reroot_all(
                                PathSegModel::Key(fm[f as int].0),
                                literal_errors(fm[f as int].1, field_value(am, fm[f as int].0)),
                            ) + literal_field_errors(fm, am, f as int + 1));
                            assert(errors.deep_view() + literal_field_errors(fm, am, f as int + 1)
                                =~= target);
                        }
                    },
                    Option::None => {
                        proof {
                            assert(literal_field_errors(fm, am, f as int) == literal_field_errors(
                                fm,
                                am,
                                f as int + 1,
                            ));
                        }
                    },
                }
                f = f + 1;
            }
            proof {
                assert(literal_field_errors(fm, am, efields@.len() as int) =~= Seq::<
                    ErrorModel,
                >::empty());
                assert(errors.deep_view() =~= target);
                assert(value@ == ValueModel::Object(am));
            }
            errors
        },
        _ => {
            let res = one_error(JsonMatcherError::at_root("Value is not an object"));
            res
        },
    }
}

impl JsonMatcher for Matcher {
    open spec fn model(&self) -> MatcherModel {
        matcher_model(self)
    }

    fn json_matches(&self, value: &JsonValue) -> (res: Vec<JsonMatcherError>) {
        match_matcher(self, value)
    }

    fn into_matcher(self) -> (m: Matcher) {
        self
    }
}

impl JsonMatcher for JsonValue {
    open spec fn model(&self) -> MatcherModel {
        MatcherModel::Literal(value_model(self))
    }

    fn json_matches(&self, value: &JsonValue) -> (res: Vec<JsonMatcherError>) {
        match_literal(self, value)
    }

    fn into_matcher(self) -> (m: Matcher) {
        Matcher::Literal(self)
    }
}

} // verus!
