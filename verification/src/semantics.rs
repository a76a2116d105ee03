//! The meaning of matching: for every matcher shape and candidate value,
//! exactly which mismatches come back, in which order, with which paths and
//! messages. Every matcher's `json_matches` is proved equal to `errors_of`
//! over the models of its inputs.

use vstd::prelude::*;
use vstd::utf8::encode_utf8;

use crate::datetime::{rfc3339_parse, rfc3339_render};
use crate::error::{reroot_all, root_error, ErrorModel, PathSegModel};
use crate::strutil::{count_char, dec_int, is_u16_str, join_sep};
use crate::value::{NumberModel, ValueModel};

verus! {

/// The shape of a matcher: what it expects of a candidate value.
pub enum MatcherModel {
    /// Expects exactly `null`.
    Null,
    /// Expects a boolean equal to the given one.
    BoolExact(bool),
    /// Expects any boolean.
    BoolAny,
    /// Expects a number holding exactly this integer.
    Integer(int),
    /// Expects a string equal to the given one.
    ExactStr(Seq<char>),
    /// Expects anything; with `not_null` set, anything but `null`.
    Any { not_null: bool },
    /// Expects a string shaped like a UUID.
    Uuid,
    /// Expects a number (or, in string mode, a string) encoding a `u16`.
    U16 { allow_strings: bool },
    /// Expects a string holding a UTC timestamp within the given window.
    Datetime {
        lower: Option<int>,
        lower_inclusive: bool,
        upper: Option<int>,
        upper_inclusive: bool,
    },
    /// Expects an array matched positionally by these child matchers.
    Array(Seq<MatcherModel>),
    /// Expects an object matched field by field.
    Object { allow_unexpected: bool, fields: Seq<(Seq<char>, MatcherModel)> },
    /// A literal value standing for an exact structural match of itself.
    Literal(ValueModel),
}

/// The mismatches a null matcher reports.
pub open spec fn null_errors(v: ValueModel) -> Seq<ErrorModel> {
    match v {
        ValueModel::Null => Seq::empty(),
        _ => seq![root_error("Value is not null"@)],
    }
}

/// The text `true` or `false`.
pub open spec fn bool_text(b: bool) -> Seq<char> {
    if b {
        "true"@
    } else {
        "false"@
    }
}

/// The mismatches an exact boolean matcher reports.
pub open spec fn boolean_exact_errors(expected: bool, v: ValueModel) -> Seq<ErrorModel> {
    match v {
        ValueModel::Bool(actual) => if actual == expected {
            Seq::empty()
        } else {
            seq![root_error("Value is not "@ + bool_text(expected))]
        },
        _ => seq![root_error("Value is not a boolean"@)],
    }
}

/// The mismatches an any-boolean matcher reports.
pub open spec fn boolean_any_errors(v: ValueModel) -> Seq<ErrorModel> {
    match v {
        ValueModel::Bool(_) => Seq::empty(),
        _ => seq![root_error("Value is not a boolean"@)],
    }
}

/// The mismatches an exact integer matcher reports. A number with no exact
/// integer value is reported as a float near-miss, with its own rendering.
pub open spec fn integer_errors(expected: int, v: ValueModel) -> Seq<ErrorModel> {
    match v {
        ValueModel::Number(n) => match n.int_val {
            Option::Some(actual) => if actual == expected {
                Seq::empty()
            } else {
                seq![
                    root_error(
                        "Expected integer "@ + dec_int(expected) + " but got "@ + dec_int(actual),
                    ),
                ]
            },
            Option::None => seq![
                root_error("Expected integer "@ + dec_int(expected) + " but got float "@ + n.text),
            ],
        },
        _ => seq![root_error("Value is not an integer"@)],
    }
}

/// The mismatches an exact float literal reports: the candidate must be a
/// number whose floating-point approximation has the same bits.
pub open spec fn float_errors(expected: NumberModel, v: ValueModel) -> Seq<ErrorModel> {
    match v {
        ValueModel::Number(actual) => if actual.float_bits == expected.float_bits {
            Seq::empty()
        } else {
            seq![
                root_error(
                    "Expected float "@ + expected.float_text + " but got "@ + actual.float_text,
                ),
            ]
        },
        _ => seq![root_error("Value is not a float"@)],
    }
}

/// The mismatches an exact string matcher reports.
pub open spec fn string_errors(expected: Seq<char>, v: ValueModel) -> Seq<ErrorModel> {
    match v {
        ValueModel::Str(actual) => if actual == expected {
            Seq::empty()
        } else {
            seq![
                root_error(
                    "Expected string \""@ + expected + "\" but got \""@ + actual + "\""@,
                ),
            ]
        },
        _ => seq![root_error("Value is not a string"@)],
    }
}

/// The mismatches the anything matcher reports.
pub open spec fn any_errors(not_null: bool, v: ValueModel) -> Seq<ErrorModel> {
    if not_null && v is Null {
        seq![root_error("Expected non-null value"@)]
    } else {
        Seq::empty()
    }
}

/// A string is UUID-shaped when it is 36 bytes long and holds exactly four
/// hyphens — a syntactic approximation, not full validation.
pub open spec fn uuid_like(s: Seq<char>) -> bool {
    encode_utf8(s).len() == 36 && count_char(s, '-') == 4
}

/// The mismatches the UUID-shape matcher reports.
pub open spec fn uuid_errors(v: ValueModel) -> Seq<ErrorModel> {
    match v {
        ValueModel::Str(s) => if uuid_like(s) {
            Seq::empty()
        } else {
            seq![root_error("Expected valid UUID format"@)]
        },
        _ => seq![root_error("Expected string for UUID"@)],
    }
}

/// The mismatches the bounded-integer matcher reports. In number mode the
/// candidate must be an exact integer within `u16` range; in string mode it
/// must be a string that parses as one.
pub open spec fn u16_errors(allow_strings: bool, v: ValueModel) -> Seq<ErrorModel> {
    if allow_strings {
        match v {
            ValueModel::Str(s) => if is_u16_str(s) {
                Seq::empty()
            } else {
                seq![root_error("Expected number fitting u16"@)]
            },
            _ => seq![root_error("Expected string fitting u16"@)],
        }
    } else {
        match v {
            ValueModel::Number(n) => match n.int_val {
                Option::Some(a) => if 0 <= a <= 65535 {
                    Seq::empty()
                } else {
                    seq![root_error("Integer out of bounds for u16"@)]
                },
                Option::None => seq![root_error("Expected number fitting u16"@)],
            },
            _ => seq![root_error("Expected number fitting u16"@)],
        }
    }
}

/// The combined timestamp parse: first the string as given, then — where
/// that fails because the string carries no offset of its own — the string
/// with a `Z` appended; a failure keeps the first attempt's reason.
pub open spec fn datetime_parse(s: Seq<char>) -> Result<(int, int), Seq<char>> {
    match rfc3339_parse(s) {
        Result::Ok(p) => Result::Ok(p),
        Result::Err(e) => match rfc3339_parse(s + "Z"@) {
            Result::Ok(p) => Result::Ok(p),
            Result::Err(_) => Result::Err(
                "Value cannot be parsed as an RFC 3339 timestamp: "@ + e,
            ),
        },
    }
}

/// The rendering of a bound in a message: its RFC 3339 form where the
/// rendering exists, else its raw seconds.
pub open spec fn bound_text(t: int) -> Seq<char> {
    match rfc3339_render(t) {
        Option::Some(s) => s,
        Option::None => dec_int(t),
    }
}

/// Whether an instant falls past the upper bound.
pub open spec fn upper_violates(upper: Option<int>, upper_inclusive: bool, t: int) -> bool {
    match upper {
        Option::Some(u) => if upper_inclusive {
            t > u
        } else {
            t >= u
        },
        Option::None => false,
    }
}

/// Whether an instant falls before the lower bound.
pub open spec fn lower_violates(lower: Option<int>, lower_inclusive: bool, t: int) -> bool {
    match lower {
        Option::Some(l) => if lower_inclusive {
            t < l
        } else {
            t <= l
        },
        Option::None => false,
    }
}

/// The window checks for a parsed UTC instant: an upper-bound failure is
/// reported alone; otherwise a lower-bound failure; otherwise nothing. The
/// inclusive lower-bound message embeds the bound's rendering.
pub open spec fn window_errors(
    lower: Option<int>,
    lower_inclusive: bool,
    upper: Option<int>,
    upper_inclusive: bool,
    t: int,
) -> Seq<ErrorModel> {
    let upper_bad = upper_violates(upper, upper_inclusive, t);
    let lower_bad = lower_violates(lower, lower_inclusive, t);
    if upper_bad {
        if upper_inclusive {
            seq![root_error("Datetime is after upper bound"@)]
        } else {
            seq![root_error("Datetime is after or equal to upper bound"@)]
        }
    } else if lower_bad {
        if lower_inclusive {
            match lower {
                Option::Some(l) => seq![
                    root_error("Datetime is before lower bound of "@ + bound_text(l)),
                ],
                Option::None => Seq::empty(),
            }
        } else {
            seq![root_error("Datetime is before or equal to lower bound"@)]
        }
    } else {
        Seq::empty()
    }
}

/// The mismatches the timestamp matcher reports: the candidate must be a
/// string, parse as RFC 3339, carry a zero UTC offset, and sit within the
/// configured window; the first failed check alone is reported.
pub open spec fn datetime_errors(
    lower: Option<int>,
    lower_inclusive: bool,
    upper: Option<int>,
    upper_inclusive: bool,
    v: ValueModel,
) -> Seq<ErrorModel> {
    match v {
        ValueModel::Str(s) => match datetime_parse(s) {
            Result::Err(e) => seq![
                root_error("Could not parse string as rfc3339 datetime: "@ + e),
            ],
            Result::Ok((t, offset)) => if offset != 0 {
                seq![root_error("Datetime is not in UTC"@)]
            } else {
                window_errors(lower, lower_inclusive, upper, upper_inclusive, t)
            },
        },
        _ => seq![root_error("Datetime value needs to be a string"@)],
    }
}

/// The aggregate errors for an array length mismatch: one message naming the
/// missing index or range, one naming the unexpected index or range.
pub open spec fn array_length_errors(expected_len: int, actual_len: int) -> Seq<ErrorModel> {
    (if actual_len < expected_len {
        if expected_len - actual_len == 1 {
            seq![root_error("Array is missing index "@ + dec_int(actual_len))]
        } else {
            seq![
                root_error(
                    "Array is missing indexes: "@ + dec_int(actual_len) + ".."@ + dec_int(
                        expected_len - 1,
                    ),
                ),
            ]
        }
    } else {
        Seq::empty()
    }) + (if actual_len > expected_len {
        if actual_len - expected_len == 1 {
            seq![root_error("Array has unexpected index "@ + dec_int(expected_len))]
        } else {
            seq![
                root_error(
                    "Array has unexpected indexes: "@ + dec_int(expected_len) + ".."@ + dec_int(
                        actual_len - 1,
                    ),
                ),
            ]
        }
    } else {
        Seq::empty()
    })
}

/// The smaller of two lengths.
pub open spec fn min_len(a: int, b: int) -> int {
    if a < b {
        a
    } else {
        b
    }
}

/// The keys of a field list, in order.
pub open spec fn keys_of<M>(s: Seq<(Seq<char>, M)>) -> Seq<Seq<char>> {
    s.map_values(|p: (Seq<char>, M)| p.0)
}

/// Whether a field list holds a key.
pub open spec fn has_key<M>(s: Seq<(Seq<char>, M)>, k: Seq<char>) -> bool {
    exists|i: int| 0 <= i < s.len() && s[i].0 == k
}

/// The value under the first field with the given key.
pub open spec fn field_value<M>(s: Seq<(Seq<char>, M)>, k: Seq<char>) -> M
    decreases s.len(),
{
    if s.len() == 0 {
        arbitrary()
    } else if s[0].0 == k {
        s[0].1
    } else {
        field_value(s.drop_first(), k)
    }
}

/// Where the first field with key `k` stands at index `i`, the lookup
/// yields that field's value.
pub proof fn lemma_field_value_at<M>(s: Seq<(Seq<char>, M)>, k: Seq<char>, i: int)
    requires
        0 <= i < s.len(),
        s[i].0 == k,
        forall|j: int| 0 <= j < i ==> s[j].0 != k,
    ensures
        field_value(s, k) == s[i].1,
    decreases i,
{
    if i > 0 {
        assert(s[0].0 != k);
        assert(s.drop_first()[i - 1] == s[i]);
        assert forall|j: int| 0 <= j < i - 1 implies s.drop_first()[j].0 != k by {
            assert(s.drop_first()[j] == s[j + 1]);
        }
        lemma_field_value_at(s.drop_first(), k, i - 1);
    }
}

/// The keys among `keys` that the field list `other` lacks, in order.
pub open spec fn absent_keys<M>(keys: Seq<Seq<char>>, other: Seq<(Seq<char>, M)>) -> Seq<
    Seq<char>,
>
    decreases keys.len(),
{
    if keys.len() == 0 {
        Seq::empty()
    } else {
        let rest = absent_keys(keys.drop_first(), other);
        if has_key(other, keys[0]) {
            rest
        } else {
            seq![keys[0]] + rest
        }
    }
}

/// The object-level key-set errors: one message listing the missing keys,
/// then — unless unexpected keys are allowed — one listing the unexpected
/// keys, each comma-joined in field order.
pub open spec fn object_key_errors<ME, VE>(
    allow_unexpected: bool,
    fields: Seq<(Seq<char>, ME)>,
    actual: Seq<(Seq<char>, VE)>,
) -> Seq<ErrorModel> {
    key_errors_from(
        allow_unexpected,
        absent_keys(keys_of(fields), actual),
        absent_keys(keys_of(actual), fields),
    )
}

/// The key-set errors assembled from the two key lists.
pub open spec fn key_errors_from(
    allow_unexpected: bool,
    missing: Seq<Seq<char>>,
    unexpected: Seq<Seq<char>>,
) -> Seq<ErrorModel> {
    (if missing.len() > 0 {
        seq![root_error("Object is missing keys: "@ + join_sep(missing, ", "@))]
    } else {
        Seq::empty()
    }) + (if !allow_unexpected && unexpected.len() > 0 {
        seq![root_error("Object has unexpected keys: "@ + join_sep(unexpected, ", "@))]
    } else {
        Seq::empty()
    })
}

/// All mismatches a matcher reports against a candidate value, in order.
pub open spec fn errors_of(m: MatcherModel, v: ValueModel) -> Seq<ErrorModel>
    decreases m, 0int,
{
    match m {
        MatcherModel::Null => null_errors(v),
        MatcherModel::BoolExact(b) => boolean_exact_errors(b, v),
        MatcherModel::BoolAny => boolean_any_errors(v),
        MatcherModel::Integer(e) => integer_errors(e, v),
        MatcherModel::ExactStr(s) => string_errors(s, v),
        MatcherModel::Any { not_null } => any_errors(not_null, v),
        MatcherModel::Uuid => uuid_errors(v),
        MatcherModel::U16 { allow_strings } => u16_errors(allow_strings, v),
        MatcherModel::Datetime { lower, lower_inclusive, upper, upper_inclusive } => {
            datetime_errors(lower, lower_inclusive, upper, upper_inclusive, v)
        },
        MatcherModel::Array(ms) => match v {
            ValueModel::Array(vs) => array_errors(ms, vs),
            _ => seq![root_error("Value is not an array"@)],
        },
        MatcherModel::Object { allow_unexpected, fields } => match v {
            ValueModel::Object(actual) => object_key_errors(allow_unexpected, fields, actual)
                + object_field_errors(fields, actual, 0),
            _ => seq![root_error("Value is not an object"@)],
        },
        MatcherModel::Literal(ev) => literal_errors(ev, v),
    }
}

/// An array matcher's mismatches: the aggregate length errors, then each
/// commonly-present element's mismatches re-rooted under its index.
pub open spec fn array_errors(ms: Seq<MatcherModel>, vs: Seq<ValueModel>) -> Seq<ErrorModel>
    decreases ms, min_len(ms.len() as int, vs.len() as int) + 1,
{
    array_length_errors(ms.len() as int, vs.len() as int) + array_element_errors(ms, vs, 0)
}

/// The element-level mismatches of an array match, from index `i` on.
pub open spec fn array_element_errors(ms: Seq<MatcherModel>, vs: Seq<ValueModel>, i: int) -> Seq<
    ErrorModel,
>
    decreases ms, min_len(ms.len() as int, vs.len() as int) - i,
{
    if i < 0 || i >= min_len(ms.len() as int, vs.len() as int) {
        Seq::empty()
    } else {
        reroot_all(PathSegModel::Index(i), errors_of(ms[i], vs[i])) + array_element_errors(
            ms,
            vs,
            i + 1,
        )
    }
}

/// The field-level mismatches of an object match, from field `i` on: for
/// each expected field whose key the candidate has, the child's mismatches
/// re-rooted under that key. Fields whose key is absent contribute nothing
/// here; the key-set errors already name them.
pub open spec fn object_field_errors(
    fields: Seq<(Seq<char>, MatcherModel)>,
    actual: Seq<(Seq<char>, ValueModel)>,
    i: int,
) -> Seq<ErrorModel>
    decreases fields, fields.len() - i,
{
    if i < 0 || i >= fields.len() {
        Seq::empty()
    } else {
        let rest = object_field_errors(fields, actual, i + 1);
        if has_key(actual, fields[i].0) {
            reroot_all(
                PathSegModel::Key(fields[i].0),
                errors_of(fields[i].1, field_value(actual, fields[i].0)),
            ) + rest
        } else {
            rest
        }
    }
}

/// A literal value acting as its own exact matcher: scalars compare exactly,
/// arrays match positionally, objects match by key with no unexpected keys
/// allowed — each child again as a literal.
pub open spec fn literal_errors(expected: ValueModel, v: ValueModel) -> Seq<ErrorModel>
    decreases expected, 0int,
{
    match expected {
        ValueModel::Null => null_errors(v),
        ValueModel::Bool(b) => boolean_exact_errors(b, v),
        ValueModel::Number(n) => match n.int_val {
            Option::Some(i) => integer_errors(i, v),
            Option::None => float_errors(n, v),
        },
        ValueModel::Str(s) => string_errors(s, v),
        ValueModel::Array(evs) => match v {
            ValueModel::Array(vs) => literal_array_errors(evs, vs),
            _ => seq![root_error("Value is not an array"@)],
        },
        ValueModel::Object(efields) => match v {
            ValueModel::Object(actual) => object_key_errors(false, efields, actual)
                + literal_field_errors(efields, actual, 0),
            _ => seq![root_error("Value is not an object"@)],
        },
    }
}

/// A literal array's mismatches: length errors, then element literals.
pub open spec fn literal_array_errors(evs: Seq<ValueModel>, vs: Seq<ValueModel>) -> Seq<
    ErrorModel,
>
    decreases evs, min_len(evs.len() as int, vs.len() as int) + 1,
{
    array_length_errors(evs.len() as int, vs.len() as int) + literal_element_errors(evs, vs, 0)
}

/// The element-level mismatches of a literal array match, from index `i` on.
pub open spec fn literal_element_errors(evs: Seq<ValueModel>, vs: Seq<ValueModel>, i: int) -> Seq<
    ErrorModel,
>
    decreases evs, min_len(evs.len() as int, vs.len() as int) - i,
{
    if i < 0 || i >= min_len(evs.len() as int, vs.len() as int) {
        Seq::empty()
    } else {
        reroot_all(PathSegModel::Index(i), literal_errors(evs[i], vs[i])) + literal_element_errors(
            evs,
            vs,
            i + 1,
        )
    }
}

/// The field-level mismatches of a literal object match, from field `i` on.
pub open spec fn literal_field_errors(
    efields: Seq<(Seq<char>, ValueModel)>,
    actual: Seq<(Seq<char>, ValueModel)>,
    i: int,
) -> Seq<ErrorModel>
    decreases efields, efields.len() - i,
{
    if i < 0 || i >= efields.len() {
        Seq::empty()
    } else {
        let rest = literal_field_errors(efields, actual, i + 1);
        if has_key(actual, efields[i].0) {
            reroot_all(
                PathSegModel::Key(efields[i].0),
                literal_errors(efields[i].1, field_value(actual, efields[i].0)),
            ) + rest
        } else {
            rest
        }
    }
}

} // verus!
