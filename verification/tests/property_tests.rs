use json_matcher::error::failure_message;
use json_matcher::{
    AnyMatcher, ArrayMatcher, JsonMatcher, JsonMatcherError, JsonPath, JsonPathElement, JsonValue,
    Matcher, ObjectMatcher, StringMatcher, UuidMatcher,
};

/// An object value from named fields.
fn obj(fields: Vec<(&str, JsonValue)>) -> JsonValue {
    JsonValue::object(
        fields
            .into_iter()
            .map(|(k, v)| (k.to_string(), v))
            .collect(),
    )
}

#[test]
fn matching_twice_gives_identical_errors() {
    let matcher = ObjectMatcher::new()
        .field("a", StringMatcher::new("x"))
        .field("b", 1);
    let candidate = obj(vec![
        ("a", JsonValue::integer(2)),
        ("c", JsonValue::integer(1)),
    ]);
    let first = matcher.json_matches(&candidate);
    let second = matcher.json_matches(&candidate);
    assert_eq!(first, second);
    assert!(!first.is_empty());
    let ok = obj(vec![
        ("a", JsonValue::string("x")),
        ("b", JsonValue::integer(1)),
    ]);
    assert_eq!(matcher.json_matches(&ok), matcher.json_matches(&ok));
    assert_eq!(matcher.json_matches(&ok), vec![]);
}

#[test]
fn nested_mismatch_path_renders_dotted() {
    // a mismatch under key "outer", key "inner", index 1
    let matcher = ObjectMatcher::new().field(
        "outer",
        ObjectMatcher::new().field(
            "inner",
            ArrayMatcher::new()
                .element(StringMatcher::new("a"))
                .element(StringMatcher::new("b")),
        ),
    );
    let candidate = obj(vec![(
        "outer",
        obj(vec![(
            "inner",
            JsonValue::Array(vec![JsonValue::string("a"), JsonValue::string("wrong")]),
        )]),
    )]);
    let errors = matcher.json_matches(&candidate);
    assert_eq!(errors.len(), 1);
    assert_eq!(errors[0].path.render(), "$.outer.inner.1");
    assert_eq!(
        errors[0].render(),
        "$.outer.inner.1: Expected string \"b\" but got \"wrong\""
    );
}

#[test]
fn aggregation_reports_all_three_errors_in_order() {
    // needs "a" and "b", allows no extra, expects "a" to be a string
    let matcher = ObjectMatcher::new()
        .field("a", StringMatcher::new("x"))
        .field("b", 1);
    let candidate = obj(vec![
        ("a", JsonValue::integer(2)),
        ("c", JsonValue::integer(1)),
    ]);
    let errors = matcher.json_matches(&candidate);
    assert_eq!(errors.len(), 3);
    assert_eq!(errors[0].render(), "$: Object is missing keys: b");
    assert_eq!(errors[1].render(), "$: Object has unexpected keys: c");
    assert_eq!(errors[2].render(), "$.a: Value is not a string");
}

#[test]
fn array_cardinality_messages() {
    let matcher = || {
        ArrayMatcher::new()
            .element(AnyMatcher::new())
            .element(AnyMatcher::new())
    };
    let one = JsonValue::Array(vec![JsonValue::integer(1)]);
    let errors = matcher().json_matches(&one);
    assert_eq!(errors, vec![JsonMatcherError::at_root("Array is missing index 1")]);
    let three = JsonValue::Array(vec![
        JsonValue::integer(1),
        JsonValue::integer(2),
        JsonValue::integer(3),
    ]);
    let errors = matcher().json_matches(&three);
    assert_eq!(
        errors,
        vec![JsonMatcherError::at_root("Array has unexpected index 2")]
    );
    let five = JsonValue::Array(vec![
        JsonValue::integer(1),
        JsonValue::integer(2),
        JsonValue::integer(3),
        JsonValue::integer(4),
        JsonValue::integer(5),
    ]);
    let errors = matcher().json_matches(&five);
    assert_eq!(
        errors,
        vec![JsonMatcherError::at_root("Array has unexpected indexes: 2..4")]
    );
    let empty = JsonValue::Array(vec![]);
    let errors = matcher().json_matches(&empty);
    assert_eq!(
        errors,
        vec![JsonMatcherError::at_root("Array is missing indexes: 0..1")]
    );
}

#[test]
fn permissive_object_tolerates_extras_only() {
    let matcher = || ObjectMatcher::new().allow_unexpected_keys().field("a", 1);
    let both = obj(vec![
        ("a", JsonValue::integer(1)),
        ("b", JsonValue::integer(2)),
    ]);
    assert_eq!(matcher().json_matches(&both), vec![]);
    let only_b = obj(vec![("b", JsonValue::integer(2))]);
    let errors = matcher().json_matches(&only_b);
    assert_eq!(errors.len(), 1);
    assert_eq!(errors[0].render(), "$: Object is missing keys: a");
}

#[test]
fn empty_object_and_array_matchers() {
    assert_eq!(ObjectMatcher::new().json_matches(&obj(vec![])), vec![]);
    assert_eq!(
        ArrayMatcher::new().json_matches(&JsonValue::Array(vec![])),
        vec![]
    );
    let errors = ObjectMatcher::new().json_matches(&obj(vec![("x", JsonValue::Null)]));
    assert_eq!(errors.len(), 1);
    assert_eq!(errors[0].render(), "$: Object has unexpected keys: x");
}

#[test]
fn missing_and_unexpected_keys_are_listed_sorted() {
    let matcher = ObjectMatcher::new()
        .field("delta", 1)
        .field("alpha", 1)
        .field("charlie", 1);
    let candidate = obj(vec![
        ("zeta", JsonValue::integer(1)),
        ("beta", JsonValue::integer(1)),
    ]);
    let errors = matcher.json_matches(&candidate);
    assert_eq!(errors.len(), 2);
    assert_eq!(
        errors[0].render(),
        "$: Object is missing keys: alpha, charlie, delta"
    );
    assert_eq!(
        errors[1].render(),
        "$: Object has unexpected keys: beta, zeta"
    );
}

#[test]
fn later_field_replaces_earlier_one_with_same_key() {
    let matcher = ObjectMatcher::new()
        .field("a", StringMatcher::new("first"))
        .field("a", StringMatcher::new("second"));
    assert_eq!(
        matcher.json_matches(&obj(vec![("a", JsonValue::string("second"))])),
        vec![]
    );
    assert!(!matcher
        .json_matches(&obj(vec![("a", JsonValue::string("first"))]))
        .is_empty());
}

#[test]
fn literal_object_matches_itself_exactly() {
    let expected = obj(vec![
        ("name", JsonValue::string("John")),
        ("age", JsonValue::integer(30)),
    ]);
    let same = obj(vec![
        ("age", JsonValue::integer(30)),
        ("name", JsonValue::string("John")),
    ]);
    assert_eq!(expected.json_matches(&same), vec![]);
    let wrong_age = obj(vec![
        ("name", JsonValue::string("John")),
        ("age", JsonValue::integer(35)),
    ]);
    let errors = expected.json_matches(&wrong_age);
    assert_eq!(errors.len(), 1);
    assert_eq!(errors[0].render(), "$.age: Expected integer 30 but got 35");
}

#[test]
fn path_extend_drops_child_root_marker() {
    let parent = JsonPath::from_elements(vec![
        JsonPathElement::Root,
        JsonPathElement::Key("a".to_string()),
    ]);
    let child = JsonPath::from_elements(vec![
        JsonPathElement::Root,
        JsonPathElement::Index(3),
    ]);
    let joined = parent.extend(child);
    assert_eq!(joined.render(), "$.a.3");
    let parent = JsonPath::from_elements(vec![
        JsonPathElement::Root,
        JsonPathElement::Key("a".to_string()),
    ]);
    let rootless = JsonPath::from_elements(vec![JsonPathElement::Key("b".to_string())]);
    assert_eq!(parent.extend(rootless).render(), "$.a.b");
}

#[test]
fn default_path_is_the_root() {
    let path: JsonPath = Default::default();
    assert_eq!(path.render(), "$");
    assert_eq!(JsonMatcherError::at_root("boom").render(), "$: boom");
}

#[test]
fn failure_message_is_none_on_success() {
    let no_errors: Vec<JsonMatcherError> = vec![];
    assert_eq!(failure_message(&no_errors, "anything"), None);
    let errors = vec![JsonMatcherError::at_root("boom")];
    assert_eq!(
        failure_message(&errors, "7").unwrap(),
        "\nJson matcher failed:\n  - $: boom\n\nActual:\n7"
    );
}

#[test]
fn negative_integers_render_in_messages() {
    let errors = json_matcher::IntegerMatcher::new(-7).json_matches(&JsonValue::integer(-9));
    assert_eq!(errors.len(), 1);
    assert_eq!(errors[0].render(), "$: Expected integer -7 but got -9");
}

#[test]
fn of_constructors_take_prebuilt_children() {
    let array = ArrayMatcher::of(vec![
        StringMatcher::new("a").into_matcher(),
        1.into_matcher(),
    ]);
    assert_eq!(
        array.json_matches(&JsonValue::Array(vec![
            JsonValue::string("a"),
            JsonValue::integer(1),
        ])),
        vec![]
    );
    let object = ObjectMatcher::of(vec![
        ("b".to_string(), 2.into_matcher()),
        ("a".to_string(), 1.into_matcher()),
    ]);
    assert_eq!(
        object.json_matches(&obj(vec![
            ("a", JsonValue::integer(1)),
            ("b", JsonValue::integer(2)),
        ])),
        vec![]
    );
    // a later pair with the same key replaces the earlier one
    let replaced = ObjectMatcher::of(vec![
        ("a".to_string(), 1.into_matcher()),
        ("a".to_string(), 2.into_matcher()),
    ]);
    assert_eq!(
        replaced.json_matches(&obj(vec![("a", JsonValue::integer(2))])),
        vec![]
    );
}

#[test]
fn matcher_enum_matches_like_its_contents() {
    let wrapped: Matcher = StringMatcher::new("x").into_matcher();
    assert_eq!(
        wrapped.json_matches(&JsonValue::string("x")),
        StringMatcher::new("x").json_matches(&JsonValue::string("x"))
    );
    assert_eq!(
        wrapped.json_matches(&JsonValue::integer(3)),
        StringMatcher::new("x").json_matches(&JsonValue::integer(3))
    );
}

#[test]
fn mixed_matchers_nest_at_any_depth() {
    let matcher = ObjectMatcher::new()
        .field("id", UuidMatcher::new())
        .field("name", StringMatcher::new("John"))
        .field(
            "tags",
            ArrayMatcher::new()
                .element(StringMatcher::new("admin"))
                .element(AnyMatcher::not_null()),
        )
        .field(
            "metadata",
            ObjectMatcher::new()
                .allow_unexpected_keys()
                .field("created", AnyMatcher::not_null()),
        );
    let good = obj(vec![
        (
            "id",
            JsonValue::string("550e8400-e29b-41d4-a716-446655440000"),
        ),
        ("name", JsonValue::string("John")),
        (
            "tags",
            JsonValue::Array(vec![
                JsonValue::string("admin"),
                JsonValue::string("user"),
            ]),
        ),
        (
            "metadata",
            obj(vec![
                ("created", JsonValue::string("2023-01-01")),
                ("version", JsonValue::integer(2)),
            ]),
        ),
    ]);
    assert_eq!(matcher.json_matches(&good), vec![]);
    let bad = obj(vec![
        ("id", JsonValue::string("bloop")),
        ("name", JsonValue::string("John")),
        (
            "tags",
            JsonValue::Array(vec![JsonValue::string("admin"), JsonValue::Null]),
        ),
        (
            "metadata",
            obj(vec![("created", JsonValue::Null)]),
        ),
    ]);
    let errors = matcher.json_matches(&bad);
    let lines: Vec<String> = errors.iter().map(|e| e.render()).collect();
    assert_eq!(
        lines,
        vec![
            "$.id: Expected valid UUID format".to_string(),
            "$.metadata.created: Expected non-null value".to_string(),
            "$.tags.1: Expected non-null value".to_string(),
        ]
    );
}
