//! The generic tree of structured data that a file parses into.

use vstd::prelude::*;

verus! {

/// One node of a parsed document: a scalar, a mapping, a sequence, or
/// the explicit absence of a value.
#[derive(Debug, PartialEq, Eq)]
pub enum Node {
    /// An explicit null.
    Null,
    /// A scalar, as its text.
    Scalar(String),
    /// Keys and their values, in the order written.
    Mapping(Vec<(String, Node)>),
    /// Values in order.
    Sequence(Vec<Node>),
}

} // verus!
