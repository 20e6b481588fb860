//! Reading a decoded JSON object into an `ItemRecord`.

use vstd::prelude::*;
use crate::record::gather;
use crate::record::gathered;
use crate::record::ids_view;
use crate::record::slot_of;
use crate::record::text_view;
use crate::record::Field;
use crate::record::ItemRecord;
use crate::record::RecordView;

verus! {

/// `serde_json::Map`, the object of a JSON document; opaque here.
#[verifier::external_type_specification]
#[verifier::external_body]
#[verifier::reject_recursive_types(K)]
#[verifier::reject_recursive_types(V)]
pub struct ExJsonMap<K, V>(serde_json::Map<K, V>);

/// `serde_json::Value`, any value of a JSON document; opaque here.
#[verifier::external_type_specification]
#[verifier::external_body]
pub struct ExJsonValue(serde_json::Value);

/// What a JSON value holds, as far as the reader tells values apart.
pub ghost enum JsonShape {
    /// A number written without fraction or exponent, in the range of
    /// `i64`.
    Int(i64),
    /// A string.
    Text(Seq<char>),
    /// An array of values.
    Array(Seq<JsonShape>),
    /// Anything else: null, a boolean, another number, an object.
    Other,
}

/// What a JSON value holds.
pub uninterp spec fn json_shape(value: serde_json::Value) -> JsonShape;

/// What the members of a JSON object hold, by key.
pub uninterp spec fn json_members(object: serde_json::Map<String, serde_json::Value>) -> Map<Seq<char>, JsonShape>;

/// What each of a sequence of JSON values holds.
pub open spec fn json_shapes(values: Seq<serde_json::Value>) -> Seq<JsonShape> {
    Seq::new(values.len(), |i: int| json_shape(values[i]))
}

/// `serde_json::Map::get`: the value stored under `key`, or `None` where
/// the object has no such key.
#[verifier::external_body]
fn member<'a>(object: &'a serde_json::Map<String, serde_json::Value>, key: &str) -> (r: Option<&'a serde_json::Value>)
    ensures
        r is Some <==> json_members(*object).contains_key(key@),
        r matches Some(value) ==> json_shape(*value) == json_members(*object)[key@],
{
    object.get(key)
}

/// `serde_json::Value::as_i64`: the number where the value is an integer
/// in the range of `i64`, `None` for every other value.
pub assume_specification[ serde_json::Value::as_i64 ](value: &serde_json::Value) -> (r: Option<i64>)
    ensures
        r == match json_shape(*value) {
            JsonShape::Int(n) => Some(n),
            _ => None,
        },
;

/// `serde_json::Value::as_str`: the text where the value is a string,
/// `None` for every other value.
pub assume_specification<'a>[ serde_json::Value::as_str ](value: &'a serde_json::Value) -> (r: Option<&'a str>)
    ensures
        match json_shape(*value) {
            JsonShape::Text(text) => r matches Some(s) && s@ == text,
            _ => r is None,
        },
;

/// `serde_json::Value::as_array`: the elements where the value is an
/// array, `None` for every other value.
pub assume_specification<'a>[ serde_json::Value::as_array ](value: &'a serde_json::Value) -> (r: Option<&'a Vec<serde_json::Value>>)
    ensures
        match json_shape(*value) {
            JsonShape::Array(shapes) => r matches Some(elements) && json_shapes(elements@) == shapes,
            _ => r is None,
        },
;

/// The integer of a value, if it holds one.
pub open spec fn shape_int(shape: JsonShape) -> Option<i64> {
    match shape {
        JsonShape::Int(n) => Some(n),
        _ => None,
    }
}

/// The text of a value, if it holds one.
pub open spec fn shape_text(shape: JsonShape) -> Option<Seq<char>> {
    match shape {
        JsonShape::Text(text) => Some(text),
        _ => None,
    }
}

/// The integers of a value, if it holds an array of nothing but integers.
pub open spec fn shape_ints(shape: JsonShape) -> Option<Seq<i64>> {
    match shape {
        JsonShape::Array(shapes) => gathered(Seq::new(shapes.len(), |i: int| shape_int(shapes[i]))),
        _ => None,
    }
}

/// What a lookup of `key` in an object brings: nothing where the object
/// has no such key, else what `read` gets out of the value.
pub open spec fn lookup<T>(
    members: Map<Seq<char>, JsonShape>,
    key: Seq<char>,
    read: spec_fn(JsonShape) -> Option<T>,
) -> Option<Option<T>> {
    if members.contains_key(key) {
        Some(read(members[key]))
    } else {
        None
    }
}

/// The integer slot of an object under `key`.
pub open spec fn int_slot(members: Map<Seq<char>, JsonShape>, key: Seq<char>) -> Field<i64> {
    slot_of(lookup(members, key, |shape: JsonShape| shape_int(shape)))
}

/// The text slot of an object under `key`.
pub open spec fn text_slot(members: Map<Seq<char>, JsonShape>, key: Seq<char>) -> Field<
    Seq<char>,
> {
    slot_of(lookup(members, key, |shape: JsonShape| shape_text(shape)))
}

/// The slot of ids of an object under `key`.
pub open spec fn ids_slot(members: Map<Seq<char>, JsonShape>, key: Seq<char>) -> Field<Seq<i64>> {
    slot_of(lookup(members, key, |shape: JsonShape| shape_ints(shape)))
}

/// The record an object decodes to, key by key.
pub open spec fn record_of(members: Map<Seq<char>, JsonShape>) -> RecordView {
    RecordView {
        kind: text_slot(members, "type"@),
        title: text_slot(members, "title"@),
        score: int_slot(members, "score"@),
        author: text_slot(members, "by"@),
        descendants: int_slot(members, "descendants"@),
        url: text_slot(members, "url"@),
        text: text_slot(members, "text"@),
        kids: ids_slot(members, "kids"@),
    }
}

fn read_int_slot(object: &serde_json::Map<String, serde_json::Value>, key: &str) -> (r: Field<i64>)
    ensures
        r == int_slot(json_members(*object), key@),
{
    let read = match member(object, key) {
        Some(value) => Some(value.as_i64()),
        None => None,
    };
    Field::found(read)
}

fn read_text_slot(object: &serde_json::Map<String, serde_json::Value>, key: &str) -> (r: Field<
    String,
>)
    ensures
        text_view(r) == text_slot(json_members(*object), key@),
{
    let read = match member(object, key) {
        Some(value) => match value.as_str() {
            Some(text) => Some(Some(String::from_str(text))),
            None => Some(None),
        },
        None => None,
    };
    Field::found(read)
}

fn read_ints(value: &serde_json::Value) -> (r: Option<Vec<i64>>)
    ensures
        r is Some <==> shape_ints(json_shape(*value)) is Some,
        r matches Some(v) ==> shape_ints(json_shape(*value)) == Some(v@),
{
    match value.as_array() {
        Some(elements) => {
            let mut read: Vec<Option<i64>> = Vec::new();
            let mut i: usize = 0;
            while i < elements.len()
                invariant
                    i <= elements@.len(),
                    read@.len() == i,
                    forall|j: int|
                        0 <= j < i ==> (#[trigger] read@[j]) == shape_int(
                            json_shape(elements@[j]),
                        ),
                decreases elements@.len() - i,
            {
                read.push(elements[i].as_i64());
                i = i + 1;
            }
            assert(read@ =~= Seq::new(
                elements@.len(),
                |i: int| shape_int(json_shapes(elements@)[i]),
            ));
            gather(&read)
        },
        None => None,
    }
}

fn read_ids_slot(object: &serde_json::Map<String, serde_json::Value>, key: &str) -> (r: Field<
    Vec<i64>,
>)
    ensures
        ids_view(r) == ids_slot(json_members(*object), key@),
{
    let read = match member(object, key) {
        Some(value) => Some(read_ints(value)),
        None => None,
    };
    Field::found(read)
}

impl ItemRecord {
    /// Reads the keys the reader consumes out of a decoded JSON object.
    pub fn decode(object: &serde_json::Map<String, serde_json::Value>) -> (r: ItemRecord)
        ensures
            r@ == record_of(json_members(*object)),
    {
        ItemRecord {
            kind: read_text_slot(object, "type"),
            title: read_text_slot(object, "title"),
            score: read_int_slot(object, "score"),
            author: read_text_slot(object, "by"),
            descendants: read_int_slot(object, "descendants"),
            url: read_text_slot(object, "url"),
            text: read_text_slot(object, "text"),
            kids: read_ids_slot(object, "kids"),
        }
    }
}

} // verus!
