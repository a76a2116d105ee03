//! The JSON value model the matching engine consumes: null, booleans,
//! numbers, strings, arrays, and objects.
//!
//! A number carries, as plain values, everything the engine ever reads of it:
//! its integer value when it has one, the bit pattern of its floating-point
//! approximation, and the two textual renderings that mismatch messages
//! embed. Object fields are kept sorted by key, with one entry per key, so
//! that key-order processing needs no sorting at match time.

use vstd::prelude::*;
use vstd::string::StringExecFns;

use crate::strutil::{chars_lt, dec_int, i64_to_string};

verus! {

/// A JSON number, reduced to the plain values the engine reads of it.
#[derive(Debug, Clone, PartialEq, Eq)]
pub struct JsonNumber {
    /// The exact value, when the number is an integer in `i64` range.
    pub int_val: Option<i64>,
    /// The bit pattern of the number's floating-point approximation.
    pub float_bits: u64,
    /// The number's canonical JSON rendering.
    pub text: String,
    /// The rendering of the floating-point approximation.
    pub float_text: String,
}

/// The mathematical form of a JSON number.
pub struct NumberModel {
    pub int_val: Option<int>,
    pub float_bits: u64,
    pub text: Seq<char>,
    pub float_text: Seq<char>,
}

/// A JSON value.
#[derive(Debug, PartialEq, Eq)]
pub enum JsonValue {
    Null,
    Bool(bool),
    Number(JsonNumber),
    Str(String),
    Array(Vec<JsonValue>),
    Object(Vec<(String, JsonValue)>),
}

/// The mathematical form of a JSON value.
pub enum ValueModel {
    Null,
    Bool(bool),
    Number(NumberModel),
    Str(Seq<char>),
    Array(Seq<ValueModel>),
    Object(Seq<(Seq<char>, ValueModel)>),
}

/// The model of a number.
pub open spec fn number_model(n: &JsonNumber) -> NumberModel {
    NumberModel {
        int_val: match n.int_val {
            Option::Some(v) => Option::Some(v as int),
            Option::None => Option::None,
        },
        float_bits: n.float_bits,
        text: n.text@,
        float_text: n.float_text@,
    }
}

/// The model of a value.
pub open spec fn value_model(v: &JsonValue) -> ValueModel
    decreases v,
{
    match v {
        JsonValue::Null => ValueModel::Null,
        JsonValue::Bool(b) => ValueModel::Bool(*b),
        JsonValue::Number(n) => ValueModel::Number(number_model(n)),
        JsonValue::Str(s) => ValueModel::Str(s@),
        JsonValue::Array(elems) => ValueModel::Array(values_model(elems@)),
        JsonValue::Object(fields) => ValueModel::Object(value_fields_model(fields@)),
    }
}

/// The models of a run of values, in order.
pub open spec fn values_model(s: Seq<JsonValue>) -> Seq<ValueModel>
    decreases s,
{
    if s.len() == 0 {
        Seq::empty()
    } else {
        seq![value_model(&s[0])] + values_model(s.drop_first())
    }
}

/// The models of a run of named fields, in order.
pub open spec fn value_fields_model(s: Seq<(String, JsonValue)>) -> Seq<(Seq<char>, ValueModel)>
    decreases s,
{
    if s.len() == 0 {
        Seq::empty()
    } else {
        seq![(s[0].0@, value_model(&s[0].1))] + value_fields_model(s.drop_first())
    }
}

/// `values_model` maps each element to its model, in place.
pub proof fn lemma_values_model(s: Seq<JsonValue>)
    ensures
        values_model(s).len() == s.len(),
        forall|i: int| 0 <= i < s.len() ==> values_model(s)[i] == value_model(&s[i]),
    decreases s,
{
    if s.len() > 0 {
        lemma_values_model(s.drop_first());
    }
}

/// `value_fields_model` maps each field to its model, in place.
pub proof fn lemma_value_fields_model(s: Seq<(String, JsonValue)>)
    ensures
        value_fields_model(s).len() == s.len(),
        forall|i: int|
            0 <= i < s.len() ==> value_fields_model(s)[i] == (s[i].0@, value_model(&s[i].1)),
    decreases s,
{
    if s.len() > 0 {
        lemma_value_fields_model(s.drop_first());
    }
}

/// Dropping the front field drops the front of the model.
pub proof fn lemma_vfm_drop_first(s: Seq<(String, JsonValue)>)
    requires
        s.len() > 0,
    ensures
        value_fields_model(s).drop_first() =~= value_fields_model(s.drop_first()),
{
    lemma_value_fields_model(s);
    lemma_value_fields_model(s.drop_first());
    assert forall|i: int| 0 <= i < s.len() - 1 implies value_fields_model(s).drop_first()[i]
        == value_fields_model(s.drop_first())[i] by {
        assert(value_fields_model(s).drop_first()[i] == value_fields_model(s)[i + 1]);
        assert(s.drop_first()[i] == s[i + 1]);
    }
}

impl View for JsonNumber {
    type V = NumberModel;

    open spec fn view(&self) -> NumberModel {
        number_model(self)
    }
}

impl View for JsonValue {
    type V = ValueModel;

    open spec fn view(&self) -> ValueModel {
        value_model(self)
    }
}

/// The model of a number built from an exact `i64`.
pub open spec fn int_number_model(i: int) -> NumberModel {
    NumberModel { int_val: Option::Some(i), float_bits: 0, text: dec_int(i), float_text: dec_int(i) }
}

impl JsonNumber {
    /// A number holding an exact integer.
    pub fn from_i64(n: i64) -> (r: JsonNumber)
        ensures
            r@ == int_number_model(n as int),
    {
        let text = i64_to_string(n);
        let float_text = text.clone();
        JsonNumber { int_val: Option::Some(n), float_bits: 0, text, float_text }
    }

    /// A number from its parts, as a converter at the document boundary
    /// computes them.
    pub fn from_parts(int_val: Option<i64>, float_bits: u64, text: String, float_text: String) -> (
        r: JsonNumber)
        ensures
            r@ == (NumberModel {
                int_val: match int_val {
                    Option::Some(v) => Option::Some(v as int),
                    Option::None => Option::None,
                },
                float_bits,
                text: text@,
                float_text: float_text@,
            }),
    {
        JsonNumber { int_val, float_bits, text, float_text }
    }
}

/// Insertion of a field into a key-sorted run of fields: it lands before the
/// first greater key, and replaces an entry whose key is equal.
pub open spec fn insert_sorted_field<M>(
    s: Seq<(Seq<char>, M)>,
    key: Seq<char>,
    val: M,
) -> Seq<(Seq<char>, M)>
    decreases s.len(),
{
    if s.len() == 0 {
        seq![(key, val)]
    } else if chars_lt(s[0].0, key) {
        seq![s[0]] + insert_sorted_field(s.drop_first(), key, val)
    } else if chars_lt(key, s[0].0) {
        seq![(key, val)] + s
    } else {
        seq![(key, val)] + s.drop_first()
    }
}

/// The object model built by inserting each pair in turn, so that a later
/// pair with the same key replaces an earlier one.
pub open spec fn object_model_of_pairs<M>(s: Seq<(Seq<char>, M)>) -> Seq<(Seq<char>, M)>
    decreases s.len(),
{
    if s.len() == 0 {
        Seq::empty()
    } else {
        insert_sorted_field(object_model_of_pairs(s.drop_last()), s.last().0, s.last().1)
    }
}

/// Inserts one field into a key-sorted field list.
pub fn insert_value_field(fields: Vec<(String, JsonValue)>, key: String, val: JsonValue) -> (r: Vec<
    (String, JsonValue),
>)
    ensures
        value_fields_model(r@) == insert_sorted_field(
            value_fields_model(fields@),
            key@,
            value_model(&val),
        ),
    decreases fields@.len(),
{
    let mut fields = fields;
    let ghost pre = fields@;
    if fields.len() == 0 {
        let ghost key_snapshot = key;
        let ghost val_snapshot = val;
        let mut r: Vec<(String, JsonValue)> = Vec::new();
        r.push((key, val));
        proof {
            assert(r@[0] == (key_snapshot, val_snapshot));
            lemma_value_fields_model(r@);
            assert(value_fields_model(pre) =~= Seq::<(Seq<char>, ValueModel)>::empty());
            assert(insert_sorted_field(value_fields_model(pre), key_snapshot@, value_model(
                &val_snapshot,
            )) =~= seq![(key_snapshot@, value_model(&val_snapshot))]);
            assert(value_fields_model(r@) =~= insert_sorted_field(
                value_fields_model(pre),
                key_snapshot@,
                value_model(&val_snapshot),
            ));
        }
        r
    } else {
        let head_lt = crate::strutil::str_lt(fields[0].0.as_str(), key.as_str());
        let key_lt = crate::strutil::str_lt(key.as_str(), fields[0].0.as_str());
        proof {
            lemma_value_fields_model(pre);
            assert(value_fields_model(pre)[0] == (pre[0].0@, value_model(&pre[0].1)));
        }
        if head_lt {
            let ghost key_snapshot = key;
            let ghost val_snapshot = val;
            let head = fields.remove(0);
            let ghost head_snapshot = head;
            proof {
                assert(fields@ =~= pre.drop_first());
            }
            let mut r = insert_value_field(fields, key, val);
            let ghost r_pre = r@;
            r.insert(0, head);
            proof {
                assert(r@[0] == head_snapshot);
                assert(head_snapshot == pre[0]);
                assert(r@.drop_first() =~= r_pre);
                lemma_value_fields_model(r@);
                lemma_value_fields_model(r_pre);
                lemma_vfm_drop_first(pre);
                let target = insert_sorted_field(
                    value_fields_model(pre),
                    key_snapshot@,
                    value_model(&val_snapshot),
                );
                assert(value_fields_model(pre)[0] == (pre[0].0@, value_model(&pre[0].1)));
                assert(chars_lt(value_fields_model(pre)[0].0, key_snapshot@));
                assert(target == seq![value_fields_model(pre)[0]] + insert_sorted_field(
                    value_fields_model(pre).drop_first(),
                    key_snapshot@,
                    value_model(&val_snapshot),
                ));
                assert(value_fields_model(pre).drop_first() == value_fields_model(
                    pre.drop_first(),
                ));
                assert(value_fields_model(r@) =~= target);
            }
            r
        } else if key_lt {
            let ghost key_snapshot = key;
            let ghost val_snapshot = val;
            fields.insert(0, (key, val));
            proof {
                assert(fields@[0] == (key_snapshot, val_snapshot));
                assert(fields@.drop_first() =~= pre);
                lemma_value_fields_model(fields@);
                lemma_value_fields_model(pre);
                lemma_vfm_drop_first(fields@);
                assert(value_fields_model(fields@) =~= seq![(key_snapshot@, value_model(
                    &val_snapshot,
                ))] + value_fields_model(pre));
                assert(value_fields_model(fields@) =~= insert_sorted_field(
                    value_fields_model(pre),
                    key_snapshot@,
                    value_model(&val_snapshot),
                ));
            }
            fields
        } else {
            let _replaced = fields.remove(0);
            let ghost key_snapshot = key;
            let ghost val_snapshot = val;
            fields.insert(0, (key, val));
            proof {
                assert(fields@[0] == (key_snapshot, val_snapshot));
                assert(fields@.drop_first() =~= pre.drop_first());
                lemma_value_fields_model(fields@);
                lemma_vfm_drop_first(fields@);
                lemma_vfm_drop_first(pre);
                assert(value_fields_model(fields@) =~= seq![(key_snapshot@, value_model(
                    &val_snapshot,
                ))] + value_fields_model(pre.drop_first()));
                assert(value_fields_model(fields@) =~= insert_sorted_field(
                    value_fields_model(pre),
                    key_snapshot@,
                    value_model(&val_snapshot),
                ));
            }
            fields
        }
    }
}

impl JsonValue {
    /// A number value holding an exact integer.
    pub fn integer(n: i64) -> (r: JsonValue)
        ensures
            r@ == ValueModel::Number(int_number_model(n as int)),
    {
        JsonValue::Number(JsonNumber::from_i64(n))
    }

    /// A string value.
    pub fn string(s: &str) -> (r: JsonValue)
        ensures
            r@ == ValueModel::Str(s@),
    {
        JsonValue::Str(s.to_owned())
    }

    /// An object value built from named fields: fields land in key order,
    /// and a later field replaces an earlier one with the same key.
    pub fn object(pairs: Vec<(String, JsonValue)>) -> (r: JsonValue)
        ensures
            r@ == ValueModel::Object(object_model_of_pairs(value_fields_model(pairs@))),
    {
        let ghost orig = pairs@;
        let mut pairs = pairs;
        let n = pairs.len();
        let mut acc: Vec<(String, JsonValue)> = Vec::new();
        let mut i: usize = 0;
        proof {
            assert(orig.len() == n);
            assert(orig.skip(0) =~= orig);
            lemma_value_fields_model(orig);
            assert(orig.take(0) =~= Seq::<(String, JsonValue)>::empty());
            assert(value_fields_model(orig.take(0)) =~= Seq::<(Seq<char>, ValueModel)>::empty());
            assert(value_fields_model(acc@) =~= Seq::<(Seq<char>, ValueModel)>::empty());
        }
        while pairs.len() > 0
            invariant
                i + pairs@.len() == orig.len(),
                orig.len() <= usize::MAX,
                pairs@ =~= orig.skip(i as int),
                value_fields_model(acc@) == object_model_of_pairs(
                    value_fields_model(orig.take(i as int)),
                ),
            decreases pairs@.len(),
        {
            let ghost pre_pairs = pairs@;
            let (k, v) = pairs.remove(0);
            proof {
                assert(pairs@ =~= orig.skip(i + 1));
                assert((k, v) == orig[i as int]);
            }
            let ghost k_snapshot = k;
            let ghost v_snapshot = v;
            acc = insert_value_field(acc, k, v);
            proof {
                lemma_value_fields_model(orig.take(i + 1));
                lemma_value_fields_model(orig.take(i as int));
                lemma_value_fields_model(orig);
                assert(orig.take(i + 1).drop_last() =~= orig.take(i as int));
                assert(orig.take(i + 1).last() == orig[i as int]);
                assert(value_fields_model(orig.take(i + 1)).drop_last() =~= value_fields_model(
                    orig.take(i as int),
                ));
                assert(value_fields_model(orig.take(i + 1)).last() == (k_snapshot@, value_model(
                    &v_snapshot,
                )));
                assert(value_fields_model(acc@) == object_model_of_pairs(
                    value_fields_model(orig.take(i + 1)),
                ));
            }
            i = i + 1;
        }
        proof {
            assert(orig.take(i as int) =~= orig);
        }
        let r = JsonValue::Object(acc);
        r
    }
}

} // verus!
