//! The UTC-timestamp string matcher: the candidate must be a string, parse
//! as an RFC 3339 timestamp, carry a zero UTC offset, and sit within an
//! optional inclusive or exclusive window of epoch seconds.
//!
//! Parsing and rendering of timestamps are done by the `chrono` crate behind
//! trusted wrappers; everything a parse yields is reduced to plain values —
//! epoch seconds and the offset in seconds — on which the matching logic is
//! verified.

use vstd::prelude::*;
use vstd::string::{StrSliceExecFns, StringExecFns};

use crate::error::JsonMatcherError;
use crate::json_matcher::{JsonMatcher, Matcher};
use crate::semantics::{datetime_errors, datetime_parse, MatcherModel};
use crate::strutil::i64_to_string;
use crate::value::JsonValue;

verus! {

/// What `chrono`'s RFC 3339 parser yields for a string: on success the
/// timestamp's epoch seconds and its offset as seconds west of UTC; on
/// failure the parse error's text. The result depends on the string alone.
pub uninterp spec fn rfc3339_parse(s: Seq<char>) -> Result<(int, int), Seq<char>>;

/// What `chrono` renders for an epoch second in RFC 3339 form at offset
/// `+00:00`, where the instant is representable at all. The result depends
/// on the seconds alone.
pub uninterp spec fn rfc3339_render(t: int) -> Option<Seq<char>>;

/// The model of a parse wrapper's result.
pub open spec fn parse_result_model(r: &Result<(i64, i32), String>) -> Result<
    (int, int),
    Seq<char>,
> {
    match r {
        Result::Ok((t, o)) => Result::Ok((*t as int, *o as int)),
        Result::Err(e) => Result::Err(e@),
    }
}

/// Relies on chrono's `DateTime::parse_from_rfc3339`, reading the result
/// through `DateTime::timestamp` and `FixedOffset::utc_minus_local`, and on
/// the parse error's rendering; all three depend on the input string alone.
#[verifier::external_body]
fn parse_rfc3339_raw(s: &str) -> (r: Result<(i64, i32), String>)
    ensures
        parse_result_model(&r) == rfc3339_parse(s@),
{
    match chrono::DateTime::parse_from_rfc3339(s) {
        Ok(dt) => Ok((dt.timestamp(), dt.offset().utc_minus_local())),
        Err(e) => Err(format!("{}", e)),
    }
}

/// Relies on chrono's `DateTime::<Utc>::from_timestamp` — which yields
/// nothing only for an instant outside chrono's representable range — and
/// `DateTime::to_rfc3339`; both depend on the seconds alone.
#[verifier::external_body]
fn ts_to_rfc3339(secs: i64) -> (r: Option<String>)
    ensures
        (match r {
            Option::Some(s) => Option::Some(s@),
            Option::None => Option::None,
        }) == rfc3339_render(secs as int),
{
    match chrono::DateTime::<chrono::Utc>::from_timestamp(secs, 0) {
        Some(dt) => Some(dt.to_rfc3339()),
        None => None,
    }
}

/// Relies on chrono's `Utc::now` and `DateTime::timestamp`. The clock's
/// reading promises nothing.
#[verifier::external_body]
fn utc_now_secs() -> i64 {
    chrono::Utc::now().timestamp()
}

/// Parses a timestamp string: first as given; where that fails — commonly
/// because the string carries no offset of its own — once more with `Z`
/// appended, assuming UTC. A failure reports the first attempt's reason.
pub fn parse_datetime_from_string(s: &str) -> (r: Result<(i64, i32), String>)
    ensures
        parse_result_model(&r) == datetime_parse(s@),
{
    match parse_rfc3339_raw(s) {
        Result::Ok(p) => Result::Ok(p),
        Result::Err(e) => {
            let mut with_z = s.to_owned();
            with_z.append("Z");
            match parse_rfc3339_raw(with_z.as_str()) {
                Result::Ok(p) => Result::Ok(p),
                Result::Err(_) => {
                    let mut msg = String::from_str(
                        "Value cannot be parsed as an RFC 3339 timestamp: ",
                    );
                    msg.append(e.as_str());
                    Result::Err(msg)
                },
            }
        },
    }
}

/// Matches a string holding a UTC timestamp within an optional window of
/// epoch seconds.
#[derive(Debug, PartialEq, Eq)]
pub struct DateTimeStringMatcher {
    pub lower_bound: Option<i64>,
    pub lower_bound_inclusive: bool,
    pub upper_bound: Option<i64>,
    pub upper_bound_inclusive: bool,
}

/// The model of a timestamp matcher's window.
pub open spec fn datetime_model(m: &DateTimeStringMatcher) -> MatcherModel {
    MatcherModel::Datetime {
        lower: match m.lower_bound {
            Option::Some(l) => Option::Some(l as int),
            Option::None => Option::None,
        },
        lower_inclusive: m.lower_bound_inclusive,
        upper: match m.upper_bound {
            Option::Some(u) => Option::Some(u as int),
            Option::None => Option::None,
        },
        upper_inclusive: m.upper_bound_inclusive,
    }
}

impl DateTimeStringMatcher {
    /// A matcher for an inclusive window reaching from sixty seconds before
    /// the clock's present reading up to that reading.
    pub fn recent_utc() -> (r: DateTimeStringMatcher)
        ensures
            r.lower_bound_inclusive,
            r.upper_bound_inclusive,
            r.lower_bound matches Option::Some(l) && r.upper_bound matches Option::Some(u) && l
                <= u && u - l <= 60,
    {
        let now = utc_now_secs();
        let lower: i64 = if now >= i64::MIN + 60 {
            now - 60
        } else {
            now
        };
        DateTimeStringMatcher {
            lower_bound: Option::Some(lower),
            lower_bound_inclusive: true,
            upper_bound: Option::Some(now),
            upper_bound_inclusive: true,
        }
    }

    /// A matcher for an explicit window of epoch seconds.
    pub fn with_bounds(
        lower_bound: Option<i64>,
        lower_bound_inclusive: bool,
        upper_bound: Option<i64>,
        upper_bound_inclusive: bool,
    ) -> (r: DateTimeStringMatcher)
        ensures
            r == (DateTimeStringMatcher {
                lower_bound,
                lower_bound_inclusive,
                upper_bound,
                upper_bound_inclusive,
            }),
    {
        DateTimeStringMatcher { lower_bound, lower_bound_inclusive, upper_bound, upper_bound_inclusive }
    }
}

/// The timestamp matcher's matching body, shared by its trait impl.
pub(crate) fn match_datetime(m: &DateTimeStringMatcher, value: &JsonValue) -> (res: Vec<
    JsonMatcherError,
>)
    ensures
        res.deep_view() == datetime_errors(
            match m.lower_bound {
                Option::Some(l) => Option::Some(l as int),
                Option::None => Option::None,
            },
            m.lower_bound_inclusive,
            match m.upper_bound {
                Option::Some(u) => Option::Some(u as int),
                Option::None => Option::None,
            },
            m.upper_bound_inclusive,
            value@,
        ),
{
    let mut res: Vec<JsonMatcherError> = Vec::new();
    match value {
        JsonValue::Str(s) => {
            match parse_datetime_from_string(s.as_str()) {
                Result::Err(err) => {
                    let mut msg = String::from_str("Could not parse string as rfc3339 datetime: ");
                    msg.append(err.as_str());
                    res.push(JsonMatcherError {
                        path: crate::error::JsonPath::default(),
                        message: msg,
                    });
                },
                Result::Ok((t, offset)) => {
                    if offset != 0 {
                        res.push(JsonMatcherError::at_root("Datetime is not in UTC"));
                    } else {
                        let mut out_of_window = false;
                        match m.upper_bound {
                            Option::Some(u) => {
                                if m.upper_bound_inclusive {
                                    if t > u {
                                        res.push(
                                            JsonMatcherError::at_root(
                                                "Datetime is after upper bound",
                                            ),
                                        );
                                        out_of_window = true;
                                    }
                                } else {
                                    if t >= u {
                                        res.push(
                                            JsonMatcherError::at_root(
                                                "Datetime is after or equal to upper bound",
                                            ),
                                        );
                                        out_of_window = true;
                                    }
                                }
                            },
                            Option::None => {},
                        }
                        if !out_of_window {
                            match m.lower_bound {
                                Option::Some(l) => {
                                    if m.lower_bound_inclusive {
                                        if t < l {
                                            let mut msg = String::from_str(
                                                "Datetime is before lower bound of ",
                                            );
                                            match ts_to_rfc3339(l) {
                                                Option::Some(txt) => {
                                                    msg.append(txt.as_str());
                                                },
                                                Option::None => {
                                                    let raw = i64_to_string(l);
                                                    msg.append(raw.as_str());
                                                },
                                            }
                                            res.push(JsonMatcherError {
                                                path: crate::error::JsonPath::default(),
                                                message: msg,
                                            });
                                        }
                                    } else {
                                        if t <= l {
                                            res.push(
                                                JsonMatcherError::at_root(
                                                    "Datetime is before or equal to lower bound",
                                                ),
                                            );
                                        }
                                    }
                                },
                                Option::None => {},
                            }
                        }
                    }
                },
            }
        },
        _ => {
            res.push(JsonMatcherError::at_root("Datetime value needs to be a string"));
        },
    }
    proof {
        assert(res.deep_view() =~= datetime_errors(
            match m.lower_bound {
                Option::Some(l) => Option::Some(l as int),
                Option::None => Option::None,
            },
            m.lower_bound_inclusive,
            match m.upper_bound {
                Option::Some(u) => Option::Some(u as int),
                Option::None => Option::None,
            },
            m.upper_bound_inclusive,
            value@,
        ));
    }
    res
}

impl JsonMatcher for DateTimeStringMatcher {
    open spec fn model(&self) -> MatcherModel {
        datetime_model(self)
    }

    fn json_matches(&self, value: &JsonValue) -> (res: Vec<JsonMatcherError>) {
        match_datetime(self, value)
    }

    fn into_matcher(self) -> (m: Matcher) {
        Matcher::Datetime(self)
    }
}

} // verus!
