use json_matcher::error::failure_message;
use json_matcher::{
    DateTimeStringMatcher, JsonMatcher, JsonMatcherError, JsonNumber, JsonValue, U16Matcher,
};

/// Converts a parsed JSON document into the library's value model.
fn convert(v: &serde_json::Value) -> JsonValue {
    match v {
        serde_json::Value::Null => JsonValue::Null,
        serde_json::Value::Bool(b) => JsonValue::Bool(*b),
        serde_json::Value::Number(n) => {
            let f = n.as_f64().unwrap();
            JsonValue::Number(JsonNumber::from_parts(
                n.as_i64(),
                f.to_bits(),
                n.to_string(),
                format!("{}", f),
            ))
        }
        serde_json::Value::String(s) => JsonValue::Str(s.clone()),
        serde_json::Value::Array(a) => JsonValue::Array(a.iter().map(convert).collect()),
        serde_json::Value::Object(m) => {
            JsonValue::object(m.iter().map(|(k, x)| (k.clone(), convert(x))).collect())
        }
    }
}

/// Parses JSON text into the library's value model.
fn val(text: &str) -> JsonValue {
    convert(&serde_json::from_str::<serde_json::Value>(text).unwrap())
}

/// The failure report a mismatching assertion raises.
fn failure<M: JsonMatcher>(matcher: &M, text: &str) -> String {
    let errors = matcher.json_matches(&val(text));
    let rendering =
        serde_json::to_string_pretty(&serde_json::from_str::<serde_json::Value>(text).unwrap())
            .unwrap();
    failure_message(&errors, &rendering).unwrap()
}

#[test]
fn test_u16_matcher_valid_values() {
    let get_matcher = || U16Matcher::new();

    // Test valid u16 values
    assert_eq!(get_matcher().json_matches(&val("0")), vec![]);
    assert_eq!(get_matcher().json_matches(&val("1")), vec![]);
    assert_eq!(get_matcher().json_matches(&val("65535")), vec![]);
    assert_eq!(get_matcher().json_matches(&val("32768")), vec![]);
    assert_eq!(get_matcher().json_matches(&val("100")), vec![]);
}

#[test]
fn test_u16_matcher_out_of_bounds() {
    let get_matcher = || U16Matcher::new();

    // Test negative values
    assert_eq!(
        failure(&get_matcher(), "-1"),
        "\nJson matcher failed:\n  - $: Integer out of bounds for u16\n\nActual:\n-1"
    );
    // Test values above u16 max
    assert_eq!(
        failure(&get_matcher(), "65536"),
        "\nJson matcher failed:\n  - $: Integer out of bounds for u16\n\nActual:\n65536"
    );
    assert_eq!(
        failure(&get_matcher(), "100000"),
        "\nJson matcher failed:\n  - $: Integer out of bounds for u16\n\nActual:\n100000"
    );
}

#[test]
fn test_u16_matcher_non_numeric_values() {
    let get_matcher = || U16Matcher::new();

    assert_eq!(
        failure(&get_matcher(), "\"42\""),
        "\nJson matcher failed:\n  - $: Expected number fitting u16\n\nActual:\n\"42\""
    );
    assert_eq!(
        failure(&get_matcher(), "true"),
        "\nJson matcher failed:\n  - $: Expected number fitting u16\n\nActual:\ntrue"
    );
    assert_eq!(
        failure(&get_matcher(), "null"),
        "\nJson matcher failed:\n  - $: Expected number fitting u16\n\nActual:\nnull"
    );
    assert_eq!(
        failure(&get_matcher(), "[42]"),
        "\nJson matcher failed:\n  - $: Expected number fitting u16\n\nActual:\n[\n  42\n]"
    );
    assert_eq!(
        failure(&get_matcher(), "{}"),
        "\nJson matcher failed:\n  - $: Expected number fitting u16\n\nActual:\n{}"
    );
}

#[test]
fn test_u16_matcher_floating_point_numbers() {
    let get_matcher = || U16Matcher::new();

    assert_eq!(get_matcher().json_matches(&val("42")), vec![]);
    assert_eq!(
        failure(&get_matcher(), "42.5"),
        "\nJson matcher failed:\n  - $: Expected number fitting u16\n\nActual:\n42.5"
    );
    assert_eq!(
        failure(&get_matcher(), "0.0"),
        "\nJson matcher failed:\n  - $: Expected number fitting u16\n\nActual:\n0.0"
    );
}

#[test]
fn test_u16_matcher_edge_cases() {
    let get_matcher = || U16Matcher::new();

    assert_eq!(get_matcher().json_matches(&val("0")), vec![]);
    assert_eq!(get_matcher().json_matches(&val("65535")), vec![]);
    assert_eq!(
        failure(&get_matcher(), "-1"),
        "\nJson matcher failed:\n  - $: Integer out of bounds for u16\n\nActual:\n-1"
    );
    assert_eq!(
        failure(&get_matcher(), "65536"),
        "\nJson matcher failed:\n  - $: Integer out of bounds for u16\n\nActual:\n65536"
    );
}

#[test]
fn test_raw_json_matches_method() {
    let matcher = U16Matcher::new();

    // Test successful match
    assert_eq!(matcher.json_matches(&val("42")), vec![]);

    // Test out of bounds error
    let errors = matcher.json_matches(&val("-1"));
    assert_eq!(errors.len(), 1);
    assert_eq!(errors[0].render(), "$: Integer out of bounds for u16");

    // Test non-numeric error
    let errors = matcher.json_matches(&JsonValue::string("test"));
    assert_eq!(errors.len(), 1);
    assert_eq!(errors[0].render(), "$: Expected number fitting u16");
}

#[test]
fn test_u16_matcher_allow_strings_valid_values() {
    let get_matcher = || U16Matcher::new_allow_strings();

    // Test valid u16 string values
    assert_eq!(get_matcher().json_matches(&JsonValue::string("0")), vec![]);
    assert_eq!(get_matcher().json_matches(&JsonValue::string("1")), vec![]);
    assert_eq!(
        get_matcher().json_matches(&JsonValue::string("65535")),
        vec![]
    );
    assert_eq!(
        get_matcher().json_matches(&JsonValue::string("32768")),
        vec![]
    );
    assert_eq!(
        get_matcher().json_matches(&JsonValue::string("100")),
        vec![]
    );
    assert_eq!(get_matcher().json_matches(&JsonValue::string("42")), vec![]);
}

#[test]
fn test_u16_matcher_allow_strings_invalid_string_values() {
    let get_matcher = || U16Matcher::new_allow_strings();

    // Test negative string values
    assert_eq!(
        failure(&get_matcher(), "\"-1\""),
        "\nJson matcher failed:\n  - $: Expected number fitting u16\n\nActual:\n\"-1\""
    );
    // Test values above u16 max
    assert_eq!(
        failure(&get_matcher(), "\"65536\""),
        "\nJson matcher failed:\n  - $: Expected number fitting u16\n\nActual:\n\"65536\""
    );
    assert_eq!(
        failure(&get_matcher(), "\"100000\""),
        "\nJson matcher failed:\n  - $: Expected number fitting u16\n\nActual:\n\"100000\""
    );
    // Test non-numeric strings
    assert_eq!(
        failure(&get_matcher(), "\"hello\""),
        "\nJson matcher failed:\n  - $: Expected number fitting u16\n\nActual:\n\"hello\""
    );
    assert_eq!(
        failure(&get_matcher(), "\"\""),
        "\nJson matcher failed:\n  - $: Expected number fitting u16\n\nActual:\n\"\""
    );
    // Test decimal strings
    assert_eq!(
        failure(&get_matcher(), "\"42.5\""),
        "\nJson matcher failed:\n  - $: Expected number fitting u16\n\nActual:\n\"42.5\""
    );
    // Test strings with whitespace
    assert_eq!(
        failure(&get_matcher(), "\" 42 \""),
        "\nJson matcher failed:\n  - $: Expected number fitting u16\n\nActual:\n\" 42 \""
    );
    // Leading zeros parse as plain integers and are accepted
    assert_eq!(
        get_matcher().json_matches(&JsonValue::string("0042")),
        vec![]
    );
    assert_eq!(
        get_matcher().json_matches(&JsonValue::string("00000")),
        vec![]
    );
}

#[test]
fn test_u16_matcher_allow_strings_non_string_values() {
    let get_matcher = || U16Matcher::new_allow_strings();

    assert_eq!(
        failure(&get_matcher(), "42"),
        "\nJson matcher failed:\n  - $: Expected string fitting u16\n\nActual:\n42"
    );
    assert_eq!(
        failure(&get_matcher(), "true"),
        "\nJson matcher failed:\n  - $: Expected string fitting u16\n\nActual:\ntrue"
    );
    assert_eq!(
        failure(&get_matcher(), "null"),
        "\nJson matcher failed:\n  - $: Expected string fitting u16\n\nActual:\nnull"
    );
    assert_eq!(
        failure(&get_matcher(), "[\"42\"]"),
        "\nJson matcher failed:\n  - $: Expected string fitting u16\n\nActual:\n[\n  \"42\"\n]"
    );
    assert_eq!(
        failure(&get_matcher(), "{}"),
        "\nJson matcher failed:\n  - $: Expected string fitting u16\n\nActual:\n{}"
    );
}

#[test]
fn test_u16_matcher_allow_strings_edge_cases() {
    let get_matcher = || U16Matcher::new_allow_strings();

    assert_eq!(get_matcher().json_matches(&JsonValue::string("0")), vec![]);
    assert_eq!(
        get_matcher().json_matches(&JsonValue::string("65535")),
        vec![]
    );
    assert_eq!(
        failure(&get_matcher(), "\"-1\""),
        "\nJson matcher failed:\n  - $: Expected number fitting u16\n\nActual:\n\"-1\""
    );
    assert_eq!(
        failure(&get_matcher(), "\"65536\""),
        "\nJson matcher failed:\n  - $: Expected number fitting u16\n\nActual:\n\"65536\""
    );
}

#[test]
fn test_u16_matcher_allow_strings_raw_method() {
    let matcher = U16Matcher::new_allow_strings();

    assert_eq!(matcher.json_matches(&JsonValue::string("42")), vec![]);

    let errors = matcher.json_matches(&JsonValue::string("invalid"));
    assert_eq!(errors.len(), 1);
    assert_eq!(errors[0].render(), "$: Expected number fitting u16");

    let errors = matcher.json_matches(&val("42"));
    assert_eq!(errors.len(), 1);
    assert_eq!(errors[0].render(), "$: Expected string fitting u16");
}

#[test]
fn test_u16_matcher_modes_comparison() {
    let number_matcher = U16Matcher::new();
    let string_matcher = U16Matcher::new_allow_strings();

    // The number mode accepts numbers and rejects strings
    assert_eq!(number_matcher.json_matches(&val("42")), vec![]);
    assert_eq!(
        string_matcher.json_matches(&val("42")),
        vec![JsonMatcherError::at_root("Expected string fitting u16")]
    );
    // The string mode accepts strings and the number mode rejects them
    assert_eq!(
        string_matcher.json_matches(&JsonValue::string("42")),
        vec![]
    );
    assert_eq!(
        number_matcher.json_matches(&JsonValue::string("42")),
        vec![JsonMatcherError::at_root("Expected number fitting u16")]
    );
    // Neither mode accepts an invalid string
    assert_eq!(
        string_matcher.json_matches(&JsonValue::string("invalid")),
        vec![JsonMatcherError::at_root("Expected number fitting u16")]
    );
    assert_eq!(
        number_matcher.json_matches(&JsonValue::string("invalid")),
        vec![JsonMatcherError::at_root("Expected number fitting u16")]
    );
}

/// The epoch seconds of an RFC 3339 timestamp, for building windows.
fn secs(text: &str) -> i64 {
    chrono::DateTime::parse_from_rfc3339(text).unwrap().timestamp()
}

#[test]
fn test_date_time_string_matcher() {
    let matcher = DateTimeStringMatcher::with_bounds(
        Some(secs("2024-01-05T10:00:00Z")),
        true,
        Some(secs("2024-01-05T11:00:00Z")),
        true,
    );
    // success cases
    assert_eq!(
        matcher.json_matches(&JsonValue::string("2024-01-05T10:00:00Z")),
        vec![]
    );
    assert_eq!(
        matcher.json_matches(&JsonValue::string("2024-01-05T10:30:00Z")),
        vec![]
    );
    assert_eq!(
        matcher.json_matches(&JsonValue::string("2024-01-05T11:00:00Z")),
        vec![]
    );
    // failure cases
    assert_eq!(
        matcher.json_matches(&val("2")),
        vec![JsonMatcherError::at_root("Datetime value needs to be a string")]
    );
    assert_eq!(
        matcher.json_matches(&JsonValue::string("bloop")),
        vec![JsonMatcherError::at_root(
            "Could not parse string as rfc3339 datetime: Value cannot be parsed as an RFC 3339 timestamp: input contains invalid characters"
        )]
    );
    assert_eq!(
        matcher.json_matches(&JsonValue::string("2024-22-05T10:00:00Z")),
        vec![JsonMatcherError::at_root(
            "Could not parse string as rfc3339 datetime: Value cannot be parsed as an RFC 3339 timestamp: input is out of range"
        )]
    );
    assert_eq!(
        matcher.json_matches(&JsonValue::string("2024-01-05T09:59:59Z")),
        vec![JsonMatcherError::at_root(
            "Datetime is before lower bound of 2024-01-05T10:00:00+00:00"
        )]
    );
    assert_eq!(
        matcher.json_matches(&JsonValue::string("2024-01-05T11:00:01Z")),
        vec![JsonMatcherError::at_root("Datetime is after upper bound")]
    );
    assert_eq!(
        matcher.json_matches(&JsonValue::string("2024-01-05T11:00:01-08:00")),
        vec![JsonMatcherError::at_root("Datetime is not in UTC")]
    );
}

#[test]
fn test_date_time_missing_offset_assumes_utc() {
    let matcher = DateTimeStringMatcher::with_bounds(
        Some(secs("2024-01-05T10:00:00Z")),
        true,
        Some(secs("2024-01-05T11:00:00Z")),
        true,
    );
    // no offset of its own: parsed as UTC
    assert_eq!(
        matcher.json_matches(&JsonValue::string("2024-01-05T10:30:00")),
        vec![]
    );
}

#[test]
fn test_date_time_exclusive_bounds() {
    let matcher = DateTimeStringMatcher::with_bounds(
        Some(secs("2024-01-05T10:00:00Z")),
        false,
        Some(secs("2024-01-05T11:00:00Z")),
        false,
    );
    assert_eq!(
        matcher.json_matches(&JsonValue::string("2024-01-05T10:30:00Z")),
        vec![]
    );
    assert_eq!(
        matcher.json_matches(&JsonValue::string("2024-01-05T10:00:00Z")),
        vec![JsonMatcherError::at_root("Datetime is before or equal to lower bound")]
    );
    assert_eq!(
        matcher.json_matches(&JsonValue::string("2024-01-05T11:00:00Z")),
        vec![JsonMatcherError::at_root("Datetime is after or equal to upper bound")]
    );
}

#[test]
fn test_date_time_non_utc_fails_outside_any_window() {
    // the same non-UTC value fails the same way whatever the bounds are
    let windowless = DateTimeStringMatcher::with_bounds(None, true, None, true);
    let windowed = DateTimeStringMatcher::with_bounds(
        Some(secs("2000-01-01T00:00:00Z")),
        false,
        Some(secs("2100-01-01T00:00:00Z")),
        false,
    );
    for matcher in [&windowless, &windowed] {
        assert_eq!(
            matcher.json_matches(&JsonValue::string("2024-01-05T11:00:01-08:00")),
            vec![JsonMatcherError::at_root("Datetime is not in UTC")]
        );
    }
}

#[test]
fn test_recent_utc_accepts_the_present() {
    let matcher = DateTimeStringMatcher::recent_utc();
    let now = chrono::Utc::now().to_rfc3339();
    assert_eq!(matcher.json_matches(&JsonValue::string(&now)), vec![]);
}
