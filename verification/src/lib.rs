//! A declarative JSON-structure matching library for test assertions.
//!
//! A caller describes an expected JSON shape by composing matchers — exact
//! scalar values, permissive leaves, arrays of matchers, objects of named
//! matchers — and asks the root of that tree to match one candidate value.
//! The result is the full list of mismatches, each carrying the dotted path
//! from the document root to the place where it was found.

pub mod datetime;
pub mod error;
pub mod json_matcher;
pub mod laws;
pub mod matchers;
pub mod semantics;
pub mod strutil;
pub mod u16_matcher;
pub mod uuid_matcher;
pub mod value;
pub mod views;

pub use datetime::DateTimeStringMatcher;
pub use error::{JsonMatcherError, JsonPath, JsonPathElement};
pub use json_matcher::{JsonMatcher, Matcher};
pub use matchers::any::AnyMatcher;
pub use matchers::array::ArrayMatcher;
pub use matchers::boolean::BooleanMatcher;
pub use matchers::null::NullMatcher;
pub use matchers::number::IntegerMatcher;
pub use matchers::object::ObjectMatcher;
pub use matchers::string::{StrMatcher, StringMatcher};
pub use u16_matcher::U16Matcher;
pub use uuid_matcher::UuidMatcher;
pub use value::{JsonNumber, JsonValue};
