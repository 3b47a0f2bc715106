//! Members of JSON objects, as plain values.

use crate::binary64::Binary64;
use serde_json::Value;
use vstd::prelude::*;

verus! {

/// A JSON value of any kind.
#[verifier::external_type_specification]
#[verifier::external_body]
pub struct ExValue(serde_json::Value);

/// The members of a JSON object.
#[verifier::external_type_specification]
#[verifier::external_body]
#[verifier::reject_recursive_types(K)]
#[verifier::reject_recursive_types(V)]
pub struct ExMap<K, V>(serde_json::Map<K, V>);

/// A member of a JSON object. Of an array or an object nothing is kept but that
/// it is one.
#[derive(Debug)]
pub enum Field {
    Null,
    Bool(bool),
    /// A number, where it can be given in the binary64 format.
    Number(Option<Binary64>),
    Text(String),
    Array,
    Object,
}

/// What a [`Field`] holds.
pub enum FieldView {
    Null,
    Bool(bool),
    Number(Option<Binary64>),
    Text(Seq<char>),
    Array,
    Object,
}

impl View for Field {
    type V = FieldView;

    open spec fn view(&self) -> FieldView {
        match *self {
            Field::Null => FieldView::Null,
            Field::Bool(b) => FieldView::Bool(b),
            Field::Number(n) => FieldView::Number(n),
            Field::Text(s) => FieldView::Text(s@),
            Field::Array => FieldView::Array,
            Field::Object => FieldView::Object,
        }
    }
}

/// What an optional [`Field`] holds.
pub open spec fn field_view(field: Option<Field>) -> Option<FieldView> {
    match field {
        Some(f) => Some(f@),
        None => None,
    }
}

/// The members that a JSON object holds, by their names.
pub uninterp spec fn members(object: serde_json::Map<String, Value>) -> Map<Seq<char>, FieldView>;

/// The members of a JSON value that is an object; nothing for any other value.
pub uninterp spec fn object_members(value: Value) -> Option<Map<Seq<char>, FieldView>>;

/// The member of that name, if there is one.
pub open spec fn member(members: Map<Seq<char>, FieldView>, name: Seq<char>) -> Option<FieldView> {
    if members.contains_key(name) {
        Some(members[name])
    } else {
        None
    }
}

/// Calls `serde_json::Value::as_object`, which gives the members of an object
/// and nothing for any other value. The contract claims that which of the two
/// it is, and what the members hold, follows from the value.
#[verifier::external_body]
pub(crate) fn as_object(value: &Value) -> (r: Option<&serde_json::Map<String, Value>>)
    ensures
        match r {
            Some(object) => object_members(*value) == Some(members(*object)),
            None => object_members(*value) is None,
        },
{
    value.as_object()
}

/// Calls `serde_json::Map::get`, which finds a member by its name, and turns
/// what it finds into a [`Field`]: each kind of value into the variant of the
/// same name, a number by `serde_json::Number::as_f64` and its bit pattern. The
/// contract claims that a member is found exactly where the object holds one of
/// that name, and that it is the one the object holds. What the members of a
/// given object are is left unsaid.
#[verifier::external_body]
pub(crate) fn get(object: &serde_json::Map<String, Value>, name: &str) -> (r: Option<Field>)
    ensures
        field_view(r) == member(members(*object), name@),
{
    match object.get(name) {
        None => None,
        Some(Value::Null) => Some(Field::Null),
        Some(Value::Bool(b)) => Some(Field::Bool(*b)),
        Some(Value::Number(n)) => Some(
            Field::Number(n.as_f64().map(|x| Binary64::from_bits(x.to_bits()))),
        ),
        Some(Value::String(s)) => Some(Field::Text(s.clone())),
        Some(Value::Array(_)) => Some(Field::Array),
        Some(Value::Object(_)) => Some(Field::Object),
    }
}

} // verus!
