//! Laws of the matching semantics, stated and proved for every matcher
//! shape, every candidate value, and every composition depth: a match
//! succeeds exactly on structurally satisfying values, matching is a pure
//! function of its two inputs, every reported path renders as a dotted path
//! from the document root, and a non-zero UTC offset alone decides the
//! timestamp matcher.

use vstd::prelude::*;

use crate::error::{render_path, render_seg, root_error, ErrorModel, PathSegModel};
use crate::semantics::{
    absent_keys, array_element_errors, array_length_errors, datetime_parse, errors_of,
    field_value, has_key, keys_of, literal_element_errors, literal_errors, literal_field_errors,
    lower_violates, min_len, object_field_errors, upper_violates, uuid_like, MatcherModel,
};
use crate::strutil::{is_u16_str, join_sep};
use crate::value::ValueModel;

verus! {

/// Structural satisfaction: what it means for a candidate value to meet a
/// matcher's expectation, stated directly, without mention of errors.
pub open spec fn satisfies(m: MatcherModel, v: ValueModel) -> bool
    decreases m, 0int,
{
    match m {
        MatcherModel::Null => v is Null,
        MatcherModel::BoolExact(b) => v matches ValueModel::Bool(a) && a == b,
        MatcherModel::BoolAny => v is Bool,
        MatcherModel::Integer(e) => v matches ValueModel::Number(n) && n.int_val
            == Option::Some(e),
        MatcherModel::ExactStr(s) => v matches ValueModel::Str(a) && a == s,
        MatcherModel::Any { not_null } => !not_null || !(v is Null),
        MatcherModel::Uuid => v matches ValueModel::Str(s) && uuid_like(s),
        MatcherModel::U16 { allow_strings } => if allow_strings {
            v matches ValueModel::Str(s) && is_u16_str(s)
        } else {
            v matches ValueModel::Number(n) && n.int_val matches Option::Some(a) && 0 <= a
                <= 65535
        },
        MatcherModel::Datetime { lower, lower_inclusive, upper, upper_inclusive } => {
            v matches ValueModel::Str(s) && datetime_parse(s) matches Result::Ok((t, offset))
                && offset == 0 && !upper_violates(upper, upper_inclusive, t) && !lower_violates(
                lower,
                lower_inclusive,
                t,
            )
        },
        MatcherModel::Array(ms) => v matches ValueModel::Array(vs) && vs.len() == ms.len()
            && satisfies_elements(ms, vs, 0),
        MatcherModel::Object { allow_unexpected, fields } => v matches ValueModel::Object(actual)
            && absent_keys(keys_of(fields), actual).len() == 0 && (allow_unexpected || absent_keys(
            keys_of(actual),
            fields,
        ).len() == 0) && satisfies_fields(fields, actual, 0),
        MatcherModel::Literal(ev) => satisfies_value(ev, v),
    }
}

/// Every commonly-present element from index `i` on satisfies its matcher.
pub open spec fn satisfies_elements(ms: Seq<MatcherModel>, vs: Seq<ValueModel>, i: int) -> bool
    decreases ms, min_len(ms.len() as int, vs.len() as int) - i,
{
    if i < 0 || i >= min_len(ms.len() as int, vs.len() as int) {
        true
    } else {
        satisfies(ms[i], vs[i]) && satisfies_elements(ms, vs, i + 1)
    }
}

/// Every commonly-present field from index `i` on satisfies its matcher.
pub open spec fn satisfies_fields(
    fields: Seq<(Seq<char>, MatcherModel)>,
    actual: Seq<(Seq<char>, ValueModel)>,
    i: int,
) -> bool
    decreases fields, fields.len() - i,
{
    if i < 0 || i >= fields.len() {
        true
    } else {
        (if has_key(actual, fields[i].0) {
            satisfies(fields[i].1, field_value(actual, fields[i].0))
        } else {
            true
        }) && satisfies_fields(fields, actual, i + 1)
    }
}

/// Structural satisfaction of a literal value acting as its own matcher.
pub open spec fn satisfies_value(ev: ValueModel, v: ValueModel) -> bool
    decreases ev, 0int,
{
    match ev {
        ValueModel::Null => v is Null,
        ValueModel::Bool(b) => v matches ValueModel::Bool(a) && a == b,
        ValueModel::Number(n) => match n.int_val {
            Option::Some(e) => v matches ValueModel::Number(a) && a.int_val == Option::Some(e),
            Option::None => v matches ValueModel::Number(a) && a.float_bits == n.float_bits,
        },
        ValueModel::Str(s) => v matches ValueModel::Str(a) && a == s,
        ValueModel::Array(evs) => v matches ValueModel::Array(vs) && vs.len() == evs.len()
            && satisfies_value_elements(evs, vs, 0),
        ValueModel::Object(efields) => v matches ValueModel::Object(actual) && absent_keys(
            keys_of(efields),
            actual,
        ).len() == 0 && absent_keys(keys_of(actual), efields).len() == 0
            && satisfies_value_fields(efields, actual, 0),
    }
}

/// Every commonly-present element from index `i` on equals its literal.
pub open spec fn satisfies_value_elements(evs: Seq<ValueModel>, vs: Seq<ValueModel>, i: int) -> bool
    decreases evs, min_len(evs.len() as int, vs.len() as int) - i,
{
    if i < 0 || i >= min_len(evs.len() as int, vs.len() as int) {
        true
    } else {
        satisfies_value(evs[i], vs[i]) && satisfies_value_elements(evs, vs, i + 1)
    }
}

/// Every commonly-present field from index `i` on equals its literal.
pub open spec fn satisfies_value_fields(
    efields: Seq<(Seq<char>, ValueModel)>,
    actual: Seq<(Seq<char>, ValueModel)>,
    i: int,
) -> bool
    decreases efields, efields.len() - i,
{
    if i < 0 || i >= efields.len() {
        true
    } else {
        (if has_key(actual, efields[i].0) {
            satisfies_value(efields[i].1, field_value(actual, efields[i].0))
        } else {
            true
        }) && satisfies_value_fields(efields, actual, i + 1)
    }
}

/// A match returns no mismatches exactly when the candidate structurally
/// satisfies the matcher — for every variant and every composition depth.
pub proof fn lemma_empty_iff_satisfies(m: MatcherModel, v: ValueModel)
    ensures
        errors_of(m, v).len() == 0 <==> satisfies(m, v),
    decreases m, 0int,
{
    match m {
        MatcherModel::Array(ms) => {
            match v {
                ValueModel::Array(vs) => {
                    lemma_empty_iff_satisfies_elements(ms, vs, 0);
                    if ms.len() != vs.len() {
                        assert(array_length_errors(ms.len() as int, vs.len() as int).len() > 0);
                    }
                },
                _ => {},
            }
        },
        MatcherModel::Object { allow_unexpected, fields } => {
            match v {
                ValueModel::Object(actual) => {
                    lemma_empty_iff_satisfies_fields(fields, actual, 0);
                },
                _ => {},
            }
        },
        MatcherModel::Literal(ev) => {
            lemma_empty_iff_satisfies_value(ev, v);
        },
        _ => {},
    }
}

proof fn lemma_empty_iff_satisfies_elements(ms: Seq<MatcherModel>, vs: Seq<ValueModel>, i: int)
    ensures
        array_element_errors(ms, vs, i).len() == 0 <==> satisfies_elements(ms, vs, i),
    decreases ms, min_len(ms.len() as int, vs.len() as int) - i,
{
    if 0 <= i < min_len(ms.len() as int, vs.len() as int) {
        lemma_empty_iff_satisfies(ms[i], vs[i]);
        lemma_empty_iff_satisfies_elements(ms, vs, i + 1);
    }
}

proof fn lemma_empty_iff_satisfies_fields(
    fields: Seq<(Seq<char>, MatcherModel)>,
    actual: Seq<(Seq<char>, ValueModel)>,
    i: int,
)
    ensures
        object_field_errors(fields, actual, i).len() == 0 <==> satisfies_fields(fields, actual, i),
    decreases fields, fields.len() - i,
{
    if 0 <= i < fields.len() {
        lemma_empty_iff_satisfies(fields[i].1, field_value(actual, fields[i].0));
        lemma_empty_iff_satisfies_fields(fields, actual, i + 1);
    }
}

proof fn lemma_empty_iff_satisfies_value(ev: ValueModel, v: ValueModel)
    ensures
        literal_errors(ev, v).len() == 0 <==> satisfies_value(ev, v),
    decreases ev, 0int,
{
    match ev {
        ValueModel::Array(evs) => {
            match v {
                ValueModel::Array(vs) => {
                    lemma_empty_iff_satisfies_value_elements(evs, vs, 0);
                    if evs.len() != vs.len() {
                        assert(array_length_errors(evs.len() as int, vs.len() as int).len() > 0);
                    }
                },
                _ => {},
            }
        },
        ValueModel::Object(efields) => {
            match v {
                ValueModel::Object(actual) => {
                    lemma_empty_iff_satisfies_value_fields(efields, actual, 0);
                },
                _ => {},
            }
        },
        _ => {},
    }
}

proof fn lemma_empty_iff_satisfies_value_elements(
    evs: Seq<ValueModel>,
    vs: Seq<ValueModel>,
    i: int,
)
    ensures
        literal_element_errors(evs, vs, i).len() == 0 <==> satisfies_value_elements(evs, vs, i),
    decreases evs, min_len(evs.len() as int, vs.len() as int) - i,
{
    if 0 <= i < min_len(evs.len() as int, vs.len() as int) {
        lemma_empty_iff_satisfies_value(evs[i], vs[i]);
        lemma_empty_iff_satisfies_value_elements(evs, vs, i + 1);
    }
}

proof fn lemma_empty_iff_satisfies_value_fields(
    efields: Seq<(Seq<char>, ValueModel)>,
    actual: Seq<(Seq<char>, ValueModel)>,
    i: int,
)
    ensures
        literal_field_errors(efields, actual, i).len() == 0 <==> satisfies_value_fields(
            efields,
            actual,
            i,
        ),
    decreases efields, efields.len() - i,
{
    if 0 <= i < efields.len() {
        lemma_empty_iff_satisfies_value(efields[i].1, field_value(actual, efields[i].0));
        lemma_empty_iff_satisfies_value_fields(efields, actual, i + 1);
    }
}

/// Matching is a pure function of the matcher and the candidate: two
/// results of matching the same matcher against the same value are the
/// same error sequence.
pub proof fn lemma_match_deterministic(
    m: MatcherModel,
    v: ValueModel,
    first: Seq<ErrorModel>,
    second: Seq<ErrorModel>,
)
    requires
        first == errors_of(m, v),
        second == errors_of(m, v),
    ensures
        first == second,
{
}

/// A path that starts at the document root and never repeats the root
/// marker.
pub open spec fn path_well_rooted(p: Seq<PathSegModel>) -> bool {
    p.len() >= 1 && p[0] == PathSegModel::Root && forall|j: int|
        1 <= j < p.len() ==> p[j] != PathSegModel::Root
}

/// The dotted rendering of the segments after the root: one `.`-prefixed
/// segment each.
pub open spec fn render_tail(segs: Seq<PathSegModel>) -> Seq<char>
    decreases segs.len(),
{
    if segs.len() == 0 {
        Seq::empty()
    } else {
        "."@ + render_seg(segs[0]) + render_tail(segs.drop_first())
    }
}

/// The bare root path is well rooted.
proof fn lemma_root_rooted()
    ensures
        path_well_rooted(seq![PathSegModel::Root]),
{
    assert(seq![PathSegModel::Root][0] == PathSegModel::Root);
}

/// Splitting a concatenation of well-rooted error runs.
proof fn lemma_concat_well_rooted(a: Seq<ErrorModel>, b: Seq<ErrorModel>)
    requires
        forall|k: int| 0 <= k < a.len() ==> #[trigger] path_well_rooted(a[k].path),
        forall|k: int| 0 <= k < b.len() ==> #[trigger] path_well_rooted(b[k].path),
    ensures
        forall|k: int| 0 <= k < (a + b).len() ==> #[trigger] path_well_rooted((a + b)[k].path),
{
    assert forall|k: int| 0 <= k < (a + b).len() implies #[trigger] path_well_rooted(
        (a + b)[k].path,
    ) by {
        if k < a.len() {
            assert((a + b)[k] == a[k]);
        } else {
            assert((a + b)[k] == b[k - a.len()]);
        }
    }
}

/// A run made of root errors alone is well rooted everywhere.
proof fn lemma_roots_well_rooted(errs: Seq<ErrorModel>)
    requires
        forall|k: int| 0 <= k < errs.len() ==> (#[trigger] errs[k].path) == seq![
            PathSegModel::Root,
        ],
    ensures
        forall|k: int| 0 <= k < errs.len() ==> #[trigger] path_well_rooted(errs[k].path),
{
    lemma_root_rooted();
}

/// Every error of every match carries a well-rooted path.
pub proof fn lemma_errors_well_rooted(m: MatcherModel, v: ValueModel)
    ensures
        forall|k: int|
            0 <= k < errors_of(m, v).len() ==> #[trigger] path_well_rooted(
                errors_of(m, v)[k].path,
            ),
    decreases m, 0int,
{
    lemma_root_rooted();
    match m {
        MatcherModel::Array(ms) => {
            match v {
                ValueModel::Array(vs) => {
                    lemma_elements_well_rooted(ms, vs, 0);
                    let lens = array_length_errors(ms.len() as int, vs.len() as int);
                    assert forall|k: int| 0 <= k < lens.len() implies (#[trigger] lens[k].path)
                        == seq![PathSegModel::Root] by {}
                    lemma_roots_well_rooted(lens);
                    lemma_concat_well_rooted(lens, array_element_errors(ms, vs, 0));
                    assert(errors_of(m, v) == lens + array_element_errors(ms, vs, 0));
                },
                _ => {
                    assert forall|k: int| 0 <= k < errors_of(m, v).len() implies (
                    #[trigger] errors_of(m, v)[k].path) == seq![PathSegModel::Root] by {}
                    lemma_roots_well_rooted(errors_of(m, v));
                },
            }
        },
        MatcherModel::Object { allow_unexpected, fields } => {
            match v {
                ValueModel::Object(actual) => {
                    lemma_fields_well_rooted(fields, actual, 0);
                    let keyerrs = crate::semantics::object_key_errors(
                        allow_unexpected,
                        fields,
                        actual,
                    );
                    assert forall|k: int| 0 <= k < keyerrs.len() implies (
                    #[trigger] keyerrs[k].path) == seq![PathSegModel::Root] by {}
                    lemma_roots_well_rooted(keyerrs);
                    lemma_concat_well_rooted(keyerrs, object_field_errors(fields, actual, 0));
                    assert(errors_of(m, v) == keyerrs + object_field_errors(fields, actual, 0));
                },
                _ => {
                    assert forall|k: int| 0 <= k < errors_of(m, v).len() implies (
                    #[trigger] errors_of(m, v)[k].path) == seq![PathSegModel::Root] by {}
                    lemma_roots_well_rooted(errors_of(m, v));
                },
            }
        },
        MatcherModel::Literal(ev) => {
            lemma_literal_well_rooted(ev, v);
        },
        _ => {
            assert forall|k: int| 0 <= k < errors_of(m, v).len() implies (
            #[trigger] errors_of(m, v)[k].path) == seq![PathSegModel::Root] by {}
            lemma_roots_well_rooted(errors_of(m, v));
        },
    }
}

/// Relocating well-rooted errors under a key or index keeps them well
/// rooted.
proof fn lemma_reroot_well_rooted(seg: PathSegModel, errs: Seq<ErrorModel>)
    requires
        seg != PathSegModel::Root,
        forall|k: int| 0 <= k < errs.len() ==> #[trigger] path_well_rooted(errs[k].path),
    ensures
        forall|k: int|
            0 <= k < crate::error::reroot_all(seg, errs).len() ==> #[trigger] path_well_rooted(
                crate::error::reroot_all(seg, errs)[k].path,
            ),
{
    let rerooted = crate::error::reroot_all(seg, errs);
    assert forall|k: int| 0 <= k < rerooted.len() implies #[trigger] path_well_rooted(
        rerooted[k].path,
    ) by {
        let child = errs[k].path;
        let p = rerooted[k].path;
        assert(path_well_rooted(child));
        assert(p =~= seq![PathSegModel::Root, seg] + child.drop_first());
        assert forall|j: int| 1 <= j < p.len() implies p[j] != PathSegModel::Root by {
            if j >= 2 {
                assert(p[j] == child.drop_first()[j - 2]);
                assert(child.drop_first()[j - 2] == child[j - 1]);
            }
        }
    }
}

proof fn lemma_elements_well_rooted(ms: Seq<MatcherModel>, vs: Seq<ValueModel>, i: int)
    ensures
        forall|k: int|
            0 <= k < array_element_errors(ms, vs, i).len() ==> #[trigger] path_well_rooted(
                array_element_errors(ms, vs, i)[k].path,
            ),
    decreases ms, min_len(ms.len() as int, vs.len() as int) - i,
{
    if 0 <= i < min_len(ms.len() as int, vs.len() as int) {
        lemma_errors_well_rooted(ms[i], vs[i]);
        lemma_reroot_well_rooted(PathSegModel::Index(i), errors_of(ms[i], vs[i]));
        lemma_elements_well_rooted(ms, vs, i + 1);
        lemma_concat_well_rooted(
            crate::error::reroot_all(PathSegModel::Index(i), errors_of(ms[i], vs[i])),
            array_element_errors(ms, vs, i + 1),
        );
    }
}

proof fn lemma_fields_well_rooted(
    fields: Seq<(Seq<char>, MatcherModel)>,
    actual: Seq<(Seq<char>, ValueModel)>,
    i: int,
)
    ensures
        forall|k: int|
            0 <= k < object_field_errors(fields, actual, i).len() ==> #[trigger] path_well_rooted(
                object_field_errors(fields, actual, i)[k].path,
            ),
    decreases fields, fields.len() - i,
{
    if 0 <= i < fields.len() {
        lemma_errors_well_rooted(fields[i].1, field_value(actual, fields[i].0));
        lemma_reroot_well_rooted(
            PathSegModel::Key(fields[i].0),
            errors_of(fields[i].1, field_value(actual, fields[i].0)),
        );
        lemma_fields_well_rooted(fields, actual, i + 1);
        lemma_concat_well_rooted(
            crate::error::reroot_all(
                PathSegModel::Key(fields[i].0),
                errors_of(fields[i].1, field_value(actual, fields[i].0)),
            ),
            object_field_errors(fields, actual, i + 1),
        );
    }
}

proof fn lemma_literal_well_rooted(ev: ValueModel, v: ValueModel)
    ensures
        forall|k: int|
            0 <= k < literal_errors(ev, v).len() ==> #[trigger] path_well_rooted(
                literal_errors(ev, v)[k].path,
            ),
    decreases ev, 0int,
{
    lemma_root_rooted();
    match ev {
        ValueModel::Array(evs) => {
            match v {
                ValueModel::Array(vs) => {
                    lemma_literal_elements_well_rooted(evs, vs, 0);
                    let lens = array_length_errors(evs.len() as int, vs.len() as int);
                    assert forall|k: int| 0 <= k < lens.len() implies (#[trigger] lens[k].path)
                        == seq![PathSegModel::Root] by {}
                    lemma_roots_well_rooted(lens);
                    lemma_concat_well_rooted(lens, literal_element_errors(evs, vs, 0));
                    assert(literal_errors(ev, v) == lens + literal_element_errors(evs, vs, 0));
                },
                _ => {
                    assert forall|k: int| 0 <= k < literal_errors(ev, v).len() implies (
                    #[trigger] literal_errors(ev, v)[k].path) == seq![PathSegModel::Root] by {}
                    lemma_roots_well_rooted(literal_errors(ev, v));
                },
            }
        },
        ValueModel::Object(efields) => {
            match v {
                ValueModel::Object(actual) => {
                    lemma_literal_fields_well_rooted(efields, actual, 0);
                    let keyerrs = crate::semantics::object_key_errors(false, efields, actual);
                    assert forall|k: int| 0 <= k < keyerrs.len() implies (
                    #[trigger] keyerrs[k].path) == seq![PathSegModel::Root] by {}
                    lemma_roots_well_rooted(keyerrs);
                    lemma_concat_well_rooted(keyerrs, literal_field_errors(efields, actual, 0));
                    assert(literal_errors(ev, v) == keyerrs + literal_field_errors(
                        efields,
                        actual,
                        0,
                    ));
                },
                _ => {
                    assert forall|k: int| 0 <= k < literal_errors(ev, v).len() implies (
                    #[trigger] literal_errors(ev, v)[k].path) == seq![PathSegModel::Root] by {}
                    lemma_roots_well_rooted(literal_errors(ev, v));
                },
            }
        },
        _ => {
            assert forall|k: int| 0 <= k < literal_errors(ev, v).len() implies (
            #[trigger] literal_errors(ev, v)[k].path) == seq![PathSegModel::Root] by {}
            lemma_roots_well_rooted(literal_errors(ev, v));
        },
    }
}

proof fn lemma_literal_elements_well_rooted(evs: Seq<ValueModel>, vs: Seq<ValueModel>, i: int)
    ensures
        forall|k: int|
            0 <= k < literal_element_errors(evs, vs, i).len() ==> #[trigger] path_well_rooted(
                literal_element_errors(evs, vs, i)[k].path,
            ),
    decreases evs, min_len(evs.len() as int, vs.len() as int) - i,
{
    if 0 <= i < min_len(evs.len() as int, vs.len() as int) {
        lemma_literal_well_rooted(evs[i], vs[i]);
        lemma_reroot_well_rooted(PathSegModel::Index(i), literal_errors(evs[i], vs[i]));
        lemma_literal_elements_well_rooted(evs, vs, i + 1);
        lemma_concat_well_rooted(
            crate::error::reroot_all(PathSegModel::Index(i), literal_errors(evs[i], vs[i])),
            literal_element_errors(evs, vs, i + 1),
        );
    }
}

proof fn lemma_literal_fields_well_rooted(
    efields: Seq<(Seq<char>, ValueModel)>,
    actual: Seq<(Seq<char>, ValueModel)>,
    i: int,
)
    ensures
        forall|k: int|
            0 <= k < literal_field_errors(efields, actual, i).len() ==> #[trigger] path_well_rooted(
                literal_field_errors(efields, actual, i)[k].path,
            ),
    decreases efields, efields.len() - i,
{
    if 0 <= i < efields.len() {
        lemma_literal_well_rooted(efields[i].1, field_value(actual, efields[i].0));
        lemma_reroot_well_rooted(
            PathSegModel::Key(efields[i].0),
            literal_errors(efields[i].1, field_value(actual, efields[i].0)),
        );
        lemma_literal_fields_well_rooted(efields, actual, i + 1);
        lemma_concat_well_rooted(
            crate::error::reroot_all(
                PathSegModel::Key(efields[i].0),
                literal_errors(efields[i].1, field_value(actual, efields[i].0)),
            ),
            literal_field_errors(efields, actual, i + 1),
        );
    }
}

/// A joined list is its head followed by the separator-prefixed rest.
proof fn lemma_join_head(parts: Seq<Seq<char>>, sep: Seq<char>)
    requires
        parts.len() >= 1,
    ensures
        join_sep(parts, sep) == parts[0] + joined_tail(parts.drop_first(), sep),
    decreases parts.len(),
{
    if parts.len() == 1 {
        assert(joined_tail(parts.drop_first(), sep) =~= Seq::<char>::empty());
        assert(join_sep(parts, sep) =~= parts[0] + joined_tail(parts.drop_first(), sep));
    } else {
        lemma_join_head(parts.drop_first(), sep);
        assert(join_sep(parts, sep) == parts[0] + sep + join_sep(parts.drop_first(), sep));
        assert(join_sep(parts.drop_first(), sep) == parts.drop_first()[0] + joined_tail(
            parts.drop_first().drop_first(),
            sep,
        ));
        assert(joined_tail(parts.drop_first(), sep) == sep + parts.drop_first()[0] + joined_tail(
            parts.drop_first().drop_first(),
            sep,
        ));
        assert(join_sep(parts, sep) =~= parts[0] + joined_tail(parts.drop_first(), sep));
    }
}

/// The separator-prefixed concatenation of a run of strings.
pub open spec fn joined_tail(parts: Seq<Seq<char>>, sep: Seq<char>) -> Seq<char>
    decreases parts.len(),
{
    if parts.len() == 0 {
        Seq::empty()
    } else {
        sep + parts[0] + joined_tail(parts.drop_first(), sep)
    }
}

proof fn lemma_joined_tail_is_render_tail(segs: Seq<PathSegModel>)
    ensures
        joined_tail(segs.map_values(|seg: PathSegModel| render_seg(seg)), "."@) == render_tail(
            segs,
        ),
    decreases segs.len(),
{
    if segs.len() > 0 {
        lemma_joined_tail_is_render_tail(segs.drop_first());
        assert(segs.map_values(|seg: PathSegModel| render_seg(seg)).drop_first()
            =~= segs.drop_first().map_values(|seg: PathSegModel| render_seg(seg)));
        assert(joined_tail(segs.map_values(|seg: PathSegModel| render_seg(seg)), "."@)
            =~= render_tail(segs));
    }
}

/// A well-rooted path renders as `$` followed by one `.`-prefixed segment
/// for each key or index, each in its own textual form.
pub proof fn lemma_render_well_rooted(p: Seq<PathSegModel>)
    requires
        path_well_rooted(p),
    ensures
        render_path(p) == "$"@ + render_tail(p.drop_first()),
{
    let mapped = p.map_values(|seg: PathSegModel| render_seg(seg));
    lemma_join_head(mapped, "."@);
    assert(mapped[0] == render_seg(p[0]));
    assert(mapped.drop_first() =~= p.drop_first().map_values(
        |seg: PathSegModel| render_seg(seg),
    ));
    lemma_joined_tail_is_render_tail(p.drop_first());
}

/// Path correctness: every mismatch of every match is reported under a path
/// that starts at the document root and renders in dotted form — `$`, then
/// one `.`-prefixed key or index per nesting step down to the mismatch.
pub proof fn lemma_path_rendering(m: MatcherModel, v: ValueModel, k: int)
    requires
        0 <= k < errors_of(m, v).len(),
    ensures
        path_well_rooted(errors_of(m, v)[k].path),
        render_path(errors_of(m, v)[k].path) == "$"@ + render_tail(
            errors_of(m, v)[k].path.drop_first(),
        ),
{
    lemma_errors_well_rooted(m, v);
    assert(path_well_rooted(errors_of(m, v)[k].path));
    lemma_render_well_rooted(errors_of(m, v)[k].path);
}

/// A timestamp with a non-zero UTC offset always fails with the one
/// not-in-UTC mismatch, whatever the window bounds say.
pub proof fn lemma_non_utc_rejected(
    lower: Option<int>,
    lower_inclusive: bool,
    upper: Option<int>,
    upper_inclusive: bool,
    s: Seq<char>,
    t: int,
    offset: int,
)
    requires
        datetime_parse(s) == Result::<(int, int), Seq<char>>::Ok((t, offset)),
        offset != 0,
    ensures
        errors_of(
            MatcherModel::Datetime { lower, lower_inclusive, upper, upper_inclusive },
            ValueModel::Str(s),
        ) == seq![root_error("Datetime is not in UTC"@)],
{
}

} // verus!
