use json_matcher::error::failure_message;
use json_matcher::{
    AnyMatcher, ArrayMatcher, BooleanMatcher, IntegerMatcher, JsonMatcher, JsonMatcherError,
    JsonNumber, JsonValue, Matcher, NullMatcher, ObjectMatcher, StrMatcher, StringMatcher,
    UuidMatcher,
};

/// Converts a parsed JSON document into the library's value model.
fn to_value(v: &serde_json::Value) -> JsonValue {
    match v {
        serde_json::Value::Null => JsonValue::Null,
        serde_json::Value::Bool(b) => JsonValue::Bool(*b),
        serde_json::Value::Number(n) => {
            let f = n.as_f64().unwrap();
            JsonValue::Number(JsonNumber::from_parts(
                n.as_i64(),
                f.to_bits(),
                n.to_string(),
                format!("{}", f),
            ))
        }
        serde_json::Value::String(s) => JsonValue::Str(s.clone()),
        serde_json::Value::Array(a) => JsonValue::Array(a.iter().map(to_value).collect()),
        serde_json::Value::Object(m) => {
            JsonValue::object(m.iter().map(|(k, x)| (k.clone(), to_value(x))).collect())
        }
    }
}

/// Parses JSON text into the library's value model.
fn jv(text: &str) -> JsonValue {
    to_value(&serde_json::from_str::<serde_json::Value>(text).unwrap())
}

/// The pretty rendering of JSON text, as the assertion boundary shows it.
fn pretty(text: &str) -> String {
    serde_json::to_string_pretty(&serde_json::from_str::<serde_json::Value>(text).unwrap())
        .unwrap()
}

/// The failure report a mismatching assertion raises.
fn report<M: JsonMatcher>(matcher: &M, text: &str) -> String {
    let errors = matcher.json_matches(&jv(text));
    failure_message(&errors, &pretty(text)).unwrap()
}

/// All errors rendered as `<path>: <message>`, concatenated.
fn rendered<M: JsonMatcher>(matcher: &M, value: &JsonValue) -> String {
    matcher
        .json_matches(value)
        .iter()
        .map(|e| e.render())
        .collect::<String>()
}

#[test]
fn test_null_matcher() {
    let matcher = NullMatcher::new();
    assert_eq!(matcher.json_matches(&JsonValue::Null), vec![]);
    assert_eq!(
        report(&matcher, "\"world\""),
        r#"
Json matcher failed:
  - $: Value is not null

Actual:
"world""#
    );
}

#[test]
fn null_test_raw_implementations() {
    assert_eq!(().json_matches(&JsonValue::Null), vec![]);
    assert_eq!(
        rendered(&(), &JsonValue::Bool(true)),
        "$: Value is not null"
    );
}

#[test]
fn test_boolean_matcher() {
    let get_matcher = || BooleanMatcher::exact(true);
    assert_eq!(get_matcher().json_matches(&JsonValue::Bool(true)), vec![]);
    // not a boolean
    assert_eq!(
        report(&get_matcher(), "\"bloop\""),
        "\nJson matcher failed:\n  - $: Value is not a boolean\n\nActual:\n\"bloop\""
    );
    // is boolean, but not expected value
    assert_eq!(
        report(&get_matcher(), "false"),
        "\nJson matcher failed:\n  - $: Value is not true\n\nActual:\nfalse"
    );
}

#[test]
fn boolean_test_raw_implementations() {
    assert_eq!(true.json_matches(&JsonValue::Bool(true)), vec![]);
    assert_eq!(
        rendered(&true, &JsonValue::Bool(false)),
        "$: Value is not true"
    );
}

#[test]
fn test_string_matcher() {
    let get_matcher = || StringMatcher::new("hello");
    assert_eq!(
        get_matcher().json_matches(&JsonValue::string("hello")),
        vec![]
    );
    // not a string
    assert_eq!(
        report(&get_matcher(), "2"),
        r#"
Json matcher failed:
  - $: Value is not a string

Actual:
2"#
    );
    // is string, but not expected value
    assert_eq!(
        report(&get_matcher(), "\"world\""),
        r#"
Json matcher failed:
  - $: Expected string "hello" but got "world"

Actual:
"world""#
    );
}

#[test]
fn string_test_raw_implementations() {
    assert_eq!(
        "hello".json_matches(&JsonValue::string("hello")),
        vec![]
    );
    assert_eq!(
        rendered(&"hello", &JsonValue::string("world")),
        "$: Expected string \"hello\" but got \"world\""
    );
}

#[test]
fn test_str_matcher() {
    let matcher = StrMatcher::new("hello");
    assert_eq!(matcher.json_matches(&JsonValue::string("hello")), vec![]);
    assert_eq!(
        rendered(&matcher, &JsonValue::string("world")),
        "$: Expected string \"hello\" but got \"world\""
    );
}

#[test]
fn test_integer_matcher() {
    let get_matcher = || IntegerMatcher::new(4);
    assert_eq!(get_matcher().json_matches(&jv("4")), vec![]);
    // not a number
    assert_eq!(
        report(&get_matcher(), "\"bloop\""),
        r#"
Json matcher failed:
  - $: Value is not an integer

Actual:
"bloop""#
    );
    // is number, but not an integer
    assert_eq!(
        report(&get_matcher(), "2.2"),
        r#"
Json matcher failed:
  - $: Expected integer 4 but got float 2.2

Actual:
2.2"#
    );
    // is integer, but not expected value
    assert_eq!(
        report(&get_matcher(), "2"),
        r#"
Json matcher failed:
  - $: Expected integer 4 but got 2

Actual:
2"#
    );
}

#[test]
fn number_test_raw_implementations() {
    // i8
    assert_eq!(4i8.json_matches(&jv("4")), vec![]);
    assert_eq!(rendered(&4i8, &jv("5")), "$: Expected integer 4 but got 5");
    // i16
    assert_eq!(4i16.json_matches(&jv("4")), vec![]);
    assert_eq!(rendered(&4i16, &jv("5")), "$: Expected integer 4 but got 5");
    // i32
    assert_eq!(4i32.json_matches(&jv("4")), vec![]);
    assert_eq!(rendered(&4i32, &jv("5")), "$: Expected integer 4 but got 5");
    // i64
    assert_eq!(4i64.json_matches(&jv("4")), vec![]);
    assert_eq!(rendered(&4i64, &jv("5")), "$: Expected integer 4 but got 5");
    // u8
    assert_eq!(4u8.json_matches(&jv("4")), vec![]);
    assert_eq!(rendered(&4u8, &jv("5")), "$: Expected integer 4 but got 5");
    // u16
    assert_eq!(4u16.json_matches(&jv("4")), vec![]);
    assert_eq!(rendered(&4u16, &jv("5")), "$: Expected integer 4 but got 5");
    // u32
    assert_eq!(4u32.json_matches(&jv("4")), vec![]);
    assert_eq!(rendered(&4u32, &jv("5")), "$: Expected integer 4 but got 5");
}

#[test]
fn test_array_matcher() {
    let get_matcher = || {
        ArrayMatcher::new()
            .element(
                ArrayMatcher::new()
                    .element(StringMatcher::new("one"))
                    .element(StringMatcher::new("two")),
            )
            .element(StringMatcher::new("three"))
    };
    // successful match
    assert_eq!(
        get_matcher().json_matches(&jv(r#"[["one", "two"], "three"]"#)),
        vec![]
    );
    // problem in a matcher under the root array
    assert_eq!(
        report(&get_matcher(), r#"[["one", "two"], "four"]"#),
        r#"
Json matcher failed:
  - $.1: Expected string "three" but got "four"

Actual:
[
  [
    "one",
    "two"
  ],
  "four"
]"#
    );
    // problem in a matcher under a nested array
    assert_eq!(
        report(&get_matcher(), r#"[["one", "four"], "three"]"#),
        r#"
Json matcher failed:
  - $.0.1: Expected string "two" but got "four"

Actual:
[
  [
    "one",
    "four"
  ],
  "three"
]"#
    );
    // unexpected index in root
    assert_eq!(
        report(&get_matcher(), r#"[["one", "two"], "three", "four"]"#),
        r#"
Json matcher failed:
  - $: Array has unexpected index 2

Actual:
[
  [
    "one",
    "two"
  ],
  "three",
  "four"
]"#
    );
    // unexpected index in nested array
    assert_eq!(
        report(&get_matcher(), r#"[["one", "two", "four"], "three"]"#),
        r#"
Json matcher failed:
  - $.0: Array has unexpected index 2

Actual:
[
  [
    "one",
    "two",
    "four"
  ],
  "three"
]"#
    );
    // multiple issues
    assert_eq!(
        report(&get_matcher(), r#"[[2], "three", "four", "five"]"#),
        r#"
Json matcher failed:
  - $: Array has unexpected indexes: 2..3
  - $.0: Array is missing index 1
  - $.0.0: Value is not a string

Actual:
[
  [
    2
  ],
  "three",
  "four",
  "five"
]"#
    );
}

#[test]
fn array_test_raw_implementations() {
    let matcher: Vec<Matcher> = vec![1.into_matcher(), 2.into_matcher()];
    assert_eq!(matcher.json_matches(&jv("[1, 2]")), vec![]);
    assert_eq!(
        rendered(&matcher, &jv("[1, 2, 3]")),
        "$: Array has unexpected index 2"
    );
    let matcher: Vec<i8> = vec![1, 2];
    assert_eq!(matcher.json_matches(&jv("[1, 2]")), vec![]);
    assert_eq!(
        rendered(&matcher, &jv("[1, 2, 3]")),
        "$: Array has unexpected index 2"
    );
}

#[test]
fn test_object_matcher() {
    let get_matcher = || {
        ObjectMatcher::new()
            .field(
                "a",
                ObjectMatcher::new()
                    .field("aa", StringMatcher::new("one"))
                    .field("ab", StringMatcher::new("two")),
            )
            .field("b", StringMatcher::new("three"))
    };
    // successful match
    assert_eq!(
        get_matcher().json_matches(&jv(
            r#"{"a": {"aa": "one", "ab": "two"}, "b": "three"}"#
        )),
        vec![]
    );
    // problem in a matcher under the root object
    assert_eq!(
        report(
            &get_matcher(),
            r#"{"a": {"aa": "one", "ab": "two"}, "b": "four"}"#
        ),
        r#"
Json matcher failed:
  - $.b: Expected string "three" but got "four"

Actual:
{
  "a": {
    "aa": "one",
    "ab": "two"
  },
  "b": "four"
}"#
    );
    // problem in a matcher under a nested object
    assert_eq!(
        report(
            &get_matcher(),
            r#"{"a": {"aa": "one", "ab": "four"}, "b": "three"}"#
        ),
        r#"
Json matcher failed:
  - $.a.ab: Expected string "two" but got "four"

Actual:
{
  "a": {
    "aa": "one",
    "ab": "four"
  },
  "b": "three"
}"#
    );
    // unexpected key in root object
    assert_eq!(
        report(
            &get_matcher(),
            r#"{"a": {"aa": "one", "ab": "two"}, "b": "three", "c": "four"}"#
        ),
        r#"
Json matcher failed:
  - $: Object has unexpected keys: c

Actual:
{
  "a": {
    "aa": "one",
    "ab": "two"
  },
  "b": "three",
  "c": "four"
}"#
    );
    // unexpected key in nested object
    assert_eq!(
        report(
            &get_matcher(),
            r#"{"a": {"aa": "one", "ab": "two", "c": "four"}, "b": "three"}"#
        ),
        r#"
Json matcher failed:
  - $.a: Object has unexpected keys: c

Actual:
{
  "a": {
    "aa": "one",
    "ab": "two",
    "c": "four"
  },
  "b": "three"
}"#
    );
    // multiple issues
    assert_eq!(
        report(
            &get_matcher(),
            r#"{"a": {"aa": 2, "c": "four"}, "d": "five", "e": "six"}"#
        ),
        r#"
Json matcher failed:
  - $: Object is missing keys: b
  - $: Object has unexpected keys: d, e
  - $.a: Object is missing keys: ab
  - $.a: Object has unexpected keys: c
  - $.a.aa: Value is not a string

Actual:
{
  "a": {
    "aa": 2,
    "c": "four"
  },
  "d": "five",
  "e": "six"
}"#
    );
}

#[test]
fn test_object_matcher_permissive() {
    assert_eq!(
        ObjectMatcher::new()
            .allow_unexpected_keys()
            .field("a", 1)
            .json_matches(&jv(r#"{"a": 1, "b": 2}"#)),
        vec![]
    );
    // still fails if expected key is missing
    assert_eq!(
        report(
            &ObjectMatcher::new().allow_unexpected_keys().field("a", 1),
            r#"{"b": 2}"#
        ),
        r#"
Json matcher failed:
  - $: Object is missing keys: a

Actual:
{
  "b": 2
}"#
    );
}

#[test]
fn test_value_json_matcher_impl() {
    // null
    assert_eq!(
        JsonValue::Null.json_matches(&JsonValue::Null),
        NullMatcher::new().json_matches(&JsonValue::Null)
    );
    assert_eq!(
        JsonValue::Null.json_matches(&JsonValue::string("hello")),
        NullMatcher::new().json_matches(&JsonValue::string("hello"))
    );
    // bool
    assert_eq!(
        JsonValue::Bool(true).json_matches(&JsonValue::Bool(true)),
        BooleanMatcher::exact(true).json_matches(&JsonValue::Bool(true))
    );
    assert_eq!(
        JsonValue::Bool(true).json_matches(&JsonValue::Bool(false)),
        BooleanMatcher::exact(true).json_matches(&JsonValue::Bool(false))
    );
    // number
    assert_eq!(
        jv("1").json_matches(&jv("1")),
        IntegerMatcher::new(1).json_matches(&jv("1"))
    );
    assert_eq!(
        jv("1").json_matches(&jv("2")),
        IntegerMatcher::new(1).json_matches(&jv("2"))
    );
    // string
    assert_eq!(
        JsonValue::string("hello").json_matches(&JsonValue::string("hello")),
        StrMatcher::new("hello").json_matches(&JsonValue::string("hello"))
    );
    assert_eq!(
        JsonValue::string("hello").json_matches(&JsonValue::string("world")),
        StrMatcher::new("hello").json_matches(&JsonValue::string("world"))
    );
    // array
    assert_eq!(
        jv("[1, 2]").json_matches(&jv("[1, 2]")),
        ArrayMatcher::new()
            .element(1)
            .element(2)
            .json_matches(&jv("[1, 2]"))
    );
    assert_eq!(
        jv("[1, 2]").json_matches(&jv("[1, 3]")),
        ArrayMatcher::new()
            .element(1)
            .element(2)
            .json_matches(&jv("[1, 3]"))
    );
    // object
    assert_eq!(
        jv(r#"{"a": true}"#).json_matches(&jv(r#"{"a": true}"#)),
        ObjectMatcher::new()
            .field("a", true)
            .json_matches(&jv(r#"{"a": true}"#))
    );
    assert_eq!(
        jv(r#"{"a": true}"#).json_matches(&jv(r#"{"a": false}"#)),
        ObjectMatcher::new()
            .field("a", true)
            .json_matches(&jv(r#"{"a": false}"#))
    );
}

#[test]
fn test_any_matcher() {
    assert_eq!(AnyMatcher::new().json_matches(&JsonValue::Null), vec![]);
    assert_eq!(AnyMatcher::new().json_matches(&jv("42")), vec![]);
    assert_eq!(AnyMatcher::not_null().json_matches(&jv("42")), vec![]);
    assert_eq!(
        AnyMatcher::not_null().json_matches(&JsonValue::Null),
        vec![JsonMatcherError::at_root("Expected non-null value")]
    );
}

#[test]
fn test_uuid_matcher() {
    let matcher = UuidMatcher::new();
    assert_eq!(
        matcher.json_matches(&JsonValue::string("550e8400-e29b-41d4-a716-446655440000")),
        vec![]
    );
    assert_eq!(
        matcher.json_matches(&JsonValue::string("bloop")),
        vec![JsonMatcherError::at_root("Expected valid UUID format")]
    );
    assert_eq!(
        matcher.json_matches(&jv("42")),
        vec![JsonMatcherError::at_root("Expected string for UUID")]
    );
}
