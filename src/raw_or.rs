//! Values that are either already read, or kept as their original text
//! because they still hold a variable reference to be filled in later.

use vstd::prelude::*;

use crate::error::{Error, InvalidValueError};
use crate::node::Node;
use crate::string_or_struct::{
    deserialize_string_or_struct,
    is_node_form,
    node_value,
    serialize_string_or_struct,
    FromMapping,
    FromScalar,
    SerializeStringOrStruct,
};
use crate::text::contains_char;

verus! {

/// Text that refers to a variable (`$NAME` or `${NAME}`) cannot be read
/// until the variable is filled in, so it is kept as it stands.
pub open spec fn is_deferred_text(s: Seq<char>) -> bool {
    s.contains('$')
}

/// What a `RawOr` holds, in terms of the wrapped type's view.
pub enum RawOrView<V> {
    /// Text kept as written.
    Raw(Seq<char>),
    /// A value that was read.
    Value(V),
}

/// A value read from its text, or the text itself where reading must wait
/// until variables are filled in.
#[derive(Debug, PartialEq, Eq)]
pub enum RawOr<T> {
    /// The original text, with its variable references.
    Raw(String),
    /// A value that was read, or built directly.
    Value(T),
}

impl<T: View> View for RawOr<T> {
    type V = RawOrView<T::V>;

    open spec fn view(&self) -> RawOrView<T::V> {
        match self {
            RawOr::Raw(s) => RawOrView::Raw(s@),
            RawOr::Value(v) => RawOrView::Value(v@),
        }
    }
}

/// Wrap a value that is already known.
pub fn value<T: View>(v: T) -> (r: RawOr<T>)
    ensures
        r@ == RawOrView::Value(v@),
{
    RawOr::Value(v)
}

/// `true` when the text must be kept raw rather than read now.
pub fn is_deferred(s: &str) -> (r: bool)
    ensures
        r == is_deferred_text(s@),
{
    contains_char(s, '$')
}

/// What node `n` reads as: deferred text stays raw, any other string or
/// mapping is read by the wrapped type's rules.
pub open spec fn raw_or_node_value<T: FromScalar + FromMapping>(n: Node) -> Option<
    RawOrView<T::V>,
> {
    match n {
        Node::Scalar(s) => if is_deferred_text(s@) {
            Some(RawOrView::Raw(s@))
        } else {
            match T::scalar_value(s@) {
                Some(v) => Some(RawOrView::Value(v)),
                None => None,
            }
        },
        _ => match node_value::<T>(n) {
            Some(v) => Some(RawOrView::Value(v)),
            None => None,
        },
    }
}

/// `n` is what `v` is written as: raw text as it stands, a value by the
/// wrapped type's own rule.
pub open spec fn is_raw_or_node_form<T: SerializeStringOrStruct>(v: RawOrView<T::V>, n: Node) -> bool {
    match v {
        RawOrView::Raw(t) => n matches Node::Scalar(x) && x@ == t,
        RawOrView::Value(x) => is_node_form::<T>(x, n),
    }
}

impl<T: View> RawOr<T> {
    /// The value, or an error where it is still raw text.
    pub fn value_ref(&self) -> (r: Result<&T, InvalidValueError>)
        ensures
            match self {
                RawOr::Value(v) => r matches Ok(x) && x == v,
                RawOr::Raw(s) => r matches Err(e) && e.input@ == s@ && e.category@
                    == "resolved value"@,
            },
    {
        match self {
            RawOr::Value(v) => Ok(v),
            RawOr::Raw(s) => Err(InvalidValueError::new("resolved value", s.as_str())),
        }
    }
}

impl<T: SerializeStringOrStruct> RawOr<T> {
    /// The text of this value: the raw text as it stands, or the string
    /// form of the value where it has one.
    pub fn raw_text(&self) -> (r: Option<String>)
        ensures
            match self@ {
                RawOrView::Raw(t) => r matches Some(s) && s@ == t,
                RawOrView::Value(v) => match T::scalar_form(v) {
                    Some(t) => r matches Some(s) && s@ == t,
                    None => r is None,
                },
            },
    {
        match self {
            RawOr::Raw(s) => Some(s.clone()),
            RawOr::Value(v) => v.to_scalar(),
        }
    }
}

/// Read a `RawOr<T>` from a node: a string that refers to variables stays
/// raw; anything else is read as a `T`, from a string or a mapping.
pub fn deserialize_raw_or<T: FromScalar + FromMapping>(n: &Node) -> (r: Result<RawOr<T>, Error>)
    ensures
        r is Ok <==> raw_or_node_value::<T>(*n) is Some,
        r matches Ok(v) ==> raw_or_node_value::<T>(*n) == Some(v@),
        !(n is Scalar || n is Mapping) ==> r matches Err(Error::ExpectedStringOrMapping),
{
    if let Node::Scalar(s) = n {
        if is_deferred(s.as_str()) {
            return Ok(RawOr::Raw(s.clone()));
        }
    }
    match deserialize_string_or_struct::<T>(n) {
        Ok(v) => Ok(RawOr::Value(v)),
        Err(e) => Err(e),
    }
}

/// Write a `RawOr<T>`: raw text unchanged, a value by its own rule.
pub fn serialize_raw_or<T: SerializeStringOrStruct>(v: &RawOr<T>) -> (r: Node)
    ensures
        is_raw_or_node_form::<T>(v@, r),
{
    match v {
        RawOr::Raw(s) => Node::Scalar(s.clone()),
        RawOr::Value(x) => serialize_string_or_struct(x),
    }
}

/// Raw text that refers to variables reads back unchanged, and so does a
/// value whose string form refers to none.
pub proof fn lemma_raw_or_round_trip<T: SerializeStringOrStruct>(v: RawOrView<T::V>, n: Node)
    requires
        is_raw_or_node_form::<T>(v, n),
        v matches RawOrView::Raw(t) ==> is_deferred_text(t),
        v matches RawOrView::Value(x) ==> (T::scalar_form(x) matches Some(t) ==> !is_deferred_text(
            t,
        )),
    ensures
        raw_or_node_value::<T>(n) == Some(v),
{
    match v {
        RawOrView::Raw(t) => {},
        RawOrView::Value(x) => {
            crate::string_or_struct::lemma_string_or_struct_round_trip::<T>(x, n);
        },
    }
}

} // verus!
