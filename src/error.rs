//! Error values shared by the parsers and the string-or-struct engine.

use vstd::prelude::*;

verus! {

/// A value that does not match its grammar, or that breaks an invariant of
/// its type.
#[derive(Debug, PartialEq, Eq)]
pub struct InvalidValueError {
    /// What kind of value was expected, such as `"aliased name"`.
    pub category: String,
    /// The offending text.
    pub input: String,
}

impl InvalidValueError {
    /// Build an error for `input`, which is not a valid `category`.
    pub fn new(category: &str, input: &str) -> (r: InvalidValueError)
        ensures
            r.category@ == category@,
            r.input@ == input@,
    {
        InvalidValueError { category: category.to_owned(), input: input.to_owned() }
    }
}

/// Why a value could not be read from a tree of nodes.
#[derive(Debug, PartialEq, Eq)]
pub enum Error {
    /// A scalar that the target type's string rule rejects.
    InvalidValue(InvalidValueError),
    /// A node that is neither a string nor a mapping, where one of those
    /// two was required.
    ExpectedStringOrMapping,
    /// A mapping that lacks a required field.
    MissingField(String),
    /// A mapping with a field that the target type does not have.
    UnknownField(String),
    /// A mapping that gives one field twice.
    DuplicateField(String),
    /// A field whose value is not a string.
    ExpectedStringField(String),
}

} // verus!
