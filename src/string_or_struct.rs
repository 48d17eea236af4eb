//! Fields that may be written either as a bare string or as a full mapping.
//!
//! A type takes part by giving two reading rules, one from a string and one
//! from a mapping, and one writing rule that prefers the string where no
//! information is lost. The functions here only dispatch on the shape of a
//! node; they know nothing of any particular type.

use vstd::prelude::*;

use crate::error::{Error, InvalidValueError};
use crate::node::Node;

verus! {

/// A type that can be read from a bare string.
pub trait FromScalar: View + Sized {
    /// The value that the text `s` stands for, or `None` where the text is
    /// rejected.
    spec fn scalar_value(s: Seq<char>) -> Option<Self::V>;

    /// Read a value from the text `s`.
    fn from_scalar(s: &str) -> (r: Result<Self, InvalidValueError>)
        ensures
            match r {
                Ok(v) => Self::scalar_value(s@) == Some(v@),
                Err(_) => Self::scalar_value(s@) is None,
            },
    ;
}

/// A type that can be read from a mapping of field names to nodes.
pub trait FromMapping: View + Sized {
    /// The value that the mapping `entries` stands for, or `None` where it
    /// is rejected.
    spec fn mapping_value(entries: Seq<(String, Node)>) -> Option<Self::V>;

    /// Read a value from the mapping `entries`.
    fn from_mapping(entries: &Vec<(String, Node)>) -> (r: Result<Self, Error>)
        ensures
            match r {
                Ok(v) => Self::mapping_value(entries@) == Some(v@),
                Err(_) => Self::mapping_value(entries@) is None,
            },
    ;
}

/// A type that is written as a string where it can be, and as a mapping
/// otherwise, and that reads back what it writes.
pub trait SerializeStringOrStruct: FromScalar + FromMapping {
    /// The string form of `v`, where `v` has one that loses nothing.
    spec fn scalar_form(v: Self::V) -> Option<Seq<char>>;

    /// `entries` is the mapping form of `v`.
    spec fn is_mapping_form(v: Self::V, entries: Seq<(String, Node)>) -> bool;

    /// The string form of this value, if it has one.
    fn to_scalar(&self) -> (r: Option<String>)
        ensures
            match r {
                Some(s) => Self::scalar_form(self@) == Some(s@),
                None => Self::scalar_form(self@) is None,
            },
    ;

    /// The mapping form of this value.
    fn to_mapping(&self) -> (r: Vec<(String, Node)>)
        ensures
            Self::is_mapping_form(self@, r@),
    ;

    /// The string form reads back as the same value.
    proof fn lemma_scalar_form_reads_back(v: Self::V)
        requires
            Self::scalar_form(v) is Some,
        ensures
            Self::scalar_value(Self::scalar_form(v)->0) == Some(v),
    ;

    /// The mapping form reads back as the same value.
    proof fn lemma_mapping_form_reads_back(v: Self::V, entries: Seq<(String, Node)>)
        requires
            Self::is_mapping_form(v, entries),
        ensures
            Self::mapping_value(entries) == Some(v),
    ;
}

/// The value that node `n` stands for: a string by the string rule, a
/// mapping by the mapping rule, and nothing for any other shape.
pub open spec fn node_value<T: FromScalar + FromMapping>(n: Node) -> Option<T::V> {
    match n {
        Node::Scalar(s) => T::scalar_value(s@),
        Node::Mapping(m) => T::mapping_value(m@),
        _ => None,
    }
}

/// Like `node_value`, where a null stands for no value.
pub open spec fn opt_node_value<T: FromScalar + FromMapping>(n: Node) -> Option<Option<T::V>> {
    match n {
        Node::Null => Some(None),
        _ => match node_value::<T>(n) {
            Some(v) => Some(Some(v)),
            None => None,
        },
    }
}

/// `n` is what `v` is written as: its string form where it has one, and
/// its mapping form otherwise.
pub open spec fn is_node_form<T: SerializeStringOrStruct>(v: T::V, n: Node) -> bool {
    match T::scalar_form(v) {
        Some(s) => n matches Node::Scalar(x) && x@ == s,
        None => n matches Node::Mapping(m) && T::is_mapping_form(v, m@),
    }
}

/// Like `is_node_form`, where no value is written as a null.
pub open spec fn is_opt_node_form<T: SerializeStringOrStruct>(v: Option<T::V>, n: Node) -> bool {
    match v {
        Some(x) => is_node_form::<T>(x, n),
        None => n is Null,
    }
}

/// Read a `T` from a node that is either a string or a mapping. Any other
/// shape is an error, never a default value.
pub fn deserialize_string_or_struct<T: FromScalar + FromMapping>(n: &Node) -> (r: Result<T, Error>)
    ensures
        r is Ok <==> node_value::<T>(*n) is Some,
        r matches Ok(v) ==> node_value::<T>(*n) == Some(v@),
        !(n is Scalar || n is Mapping) ==> r matches Err(Error::ExpectedStringOrMapping),
        n is Scalar ==> (r matches Err(e) ==> e is InvalidValue),
{
    match n {
        Node::Scalar(s) => match T::from_scalar(s.as_str()) {
            Ok(v) => Ok(v),
            Err(e) => Err(Error::InvalidValue(e)),
        },
        Node::Mapping(m) => T::from_mapping(m),
        _ => Err(Error::ExpectedStringOrMapping),
    }
}

/// Like `deserialize_string_or_struct`, where a null gives `None`.
pub fn deserialize_opt_string_or_struct<T: FromScalar + FromMapping>(n: &Node) -> (r: Result<
    Option<T>,
    Error,
>)
    ensures
        r is Ok <==> opt_node_value::<T>(*n) is Some,
        r matches Ok(None) <==> n is Null,
        r matches Ok(Some(v)) ==> opt_node_value::<T>(*n) == Some(Some(v@)),
        !(n is Null || n is Scalar || n is Mapping) ==> r matches Err(
            Error::ExpectedStringOrMapping,
        ),
{
    match n {
        Node::Null => Ok(None),
        _ => match deserialize_string_or_struct::<T>(n) {
            Ok(v) => Ok(Some(v)),
            Err(e) => Err(e),
        },
    }
}

/// Write `value` as a string where it has a string form, and as a mapping
/// otherwise.
pub fn serialize_string_or_struct<T: SerializeStringOrStruct>(value: &T) -> (r: Node)
    ensures
        is_node_form::<T>(value@, r),
{
    match value.to_scalar() {
        Some(s) => Node::Scalar(s),
        None => Node::Mapping(value.to_mapping()),
    }
}

/// Like `serialize_string_or_struct`, where no value is written as a null.
pub fn serialize_opt_string_or_struct<T: SerializeStringOrStruct>(value: &Option<T>) -> (r: Node)
    ensures
        is_opt_node_form::<T>(
            match value {
                Some(v) => Some(v@),
                None => None,
            },
            r,
        ),
{
    match value {
        None => Node::Null,
        Some(v) => serialize_string_or_struct(v),
    }
}

/// Reading back what was written gives the value that was written, in
/// whichever of the two forms it was written.
pub proof fn lemma_string_or_struct_round_trip<T: SerializeStringOrStruct>(v: T::V, n: Node)
    requires
        is_node_form::<T>(v, n),
    ensures
        node_value::<T>(n) == Some(v),
{
    match T::scalar_form(v) {
        Some(s) => {
            T::lemma_scalar_form_reads_back(v);
        },
        None => {
            let m = n->Mapping_0;
            T::lemma_mapping_form_reads_back(v, m@);
        },
    }
}

/// The round trip holds for optional values too: no value is read back as
/// no value.
pub proof fn lemma_opt_string_or_struct_round_trip<T: SerializeStringOrStruct>(
    v: Option<T::V>,
    n: Node,
)
    requires
        is_opt_node_form::<T>(v, n),
    ensures
        opt_node_value::<T>(n) == Some(v),
{
    match v {
        Some(x) => {
            lemma_string_or_struct_round_trip::<T>(x, n);
        },
        None => {},
    }
}

} // verus!
