//! The concrete matcher variants: leaf comparisons against one JSON scalar,
//! positional array matching, keyed object matching, and literal values
//! acting as their own exact matchers.

pub mod any;
pub mod array;
pub mod boolean;
pub mod null;
pub mod number;
pub mod object;
pub mod string;
