//! The JSON documents that an engine answers with, and the ways of looking into them.

use crate::text::{copied, same_text, text_of, texts};
use vstd::prelude::*;

verus! {

/// A JSON number, as far as whole numbers can hold it.
#[derive(Clone, Copy, Debug, PartialEq, Eq, Structural)]
pub enum JsonNumber {
    /// A number that is not negative.
    Unsigned(u64),
    /// A negative number.
    Negative(i64),
    /// A number with a fraction or an exponent.
    Fractional,
}

/// A JSON value. The members of an object stand in a list of names and values.
#[derive(Debug)]
pub enum JsonValue {
    Null,
    Bool(bool),
    Number(JsonNumber),
    Text(String),
    Array(Vec<JsonValue>),
    Object(Vec<(String, JsonValue)>),
}

/// The members of an object.
pub type Members = Vec<(String, JsonValue)>;

// ---------------------------------------------------------------------------------------------
// Models
// ---------------------------------------------------------------------------------------------

/// The value of the member called `key`.
pub open spec fn member(object: Seq<(String, JsonValue)>, key: Seq<char>) -> Option<JsonValue>
    decreases object.len(),
{
    if object.len() == 0 {
        None
    } else if object[0].0@ == key {
        Some(object[0].1)
    } else {
        member(object.skip(1), key)
    }
}

/// The characters of a value that is a text.
pub open spec fn text_value(value: Option<JsonValue>) -> Option<Seq<char>> {
    match value {
        Some(JsonValue::Text(s)) => Some(s@),
        _ => None,
    }
}

/// The truth of a value that is a boolean.
pub open spec fn bool_value(value: Option<JsonValue>) -> Option<bool> {
    match value {
        Some(JsonValue::Bool(b)) => Some(b),
        _ => None,
    }
}

/// The number of a value that is a whole number and fits in 64 bits with a sign.
pub open spec fn i64_value(value: Option<JsonValue>) -> Option<i64> {
    match value {
        Some(JsonValue::Number(JsonNumber::Unsigned(n))) => if n <= i64::MAX {
            Some(n as i64)
        } else {
            None
        },
        Some(JsonValue::Number(JsonNumber::Negative(n))) => Some(n),
        _ => None,
    }
}

/// The number of a value that is a whole number and not negative.
pub open spec fn u64_value(value: Option<JsonValue>) -> Option<u64> {
    match value {
        Some(JsonValue::Number(JsonNumber::Unsigned(n))) => Some(n),
        _ => None,
    }
}

/// The elements of a value that is an array; any other value has none.
pub open spec fn elements(value: Option<JsonValue>) -> Seq<JsonValue> {
    match value {
        Some(JsonValue::Array(values)) => values@,
        _ => Seq::empty(),
    }
}

/// The members of a value that is an object.
pub open spec fn members(value: Option<JsonValue>) -> Option<Seq<(String, JsonValue)>> {
    match value {
        Some(JsonValue::Object(object)) => Some(object@),
        _ => None,
    }
}

/// The texts among some values, in their order.
pub open spec fn texts_among(values: Seq<JsonValue>) -> Seq<Seq<char>>
    decreases values.len(),
{
    if values.len() == 0 {
        Seq::empty()
    } else {
        match values.last() {
            JsonValue::Text(s) => texts_among(values.drop_last()).push(s@),
            _ => texts_among(values.drop_last()),
        }
    }
}

/// The objects among some values, in their order.
pub open spec fn objects_among(values: Seq<JsonValue>) -> Seq<Members>
    decreases values.len(),
{
    if values.len() == 0 {
        Seq::empty()
    } else {
        match values.last() {
            JsonValue::Object(object) => objects_among(values.drop_last()).push(object),
            _ => objects_among(values.drop_last()),
        }
    }
}

/// The value that is found by going from object to object along the names of a path.
pub open spec fn at_path(object: Seq<(String, JsonValue)>, path: Seq<Seq<char>>) -> Option<
    JsonValue,
>
    decreases path.len(),
{
    if path.len() == 0 {
        None
    } else if path.len() == 1 {
        member(object, path[0])
    } else {
        match member(object, path[0]) {
            Some(JsonValue::Object(inner)) => at_path(inner@, path.skip(1)),
            _ => None,
        }
    }
}

/// The names of a path.
pub open spec fn names(path: Seq<&str>) -> Seq<Seq<char>> {
    path.map_values(|name: &str| name@)
}

// ---------------------------------------------------------------------------------------------
// Looking into a document
// ---------------------------------------------------------------------------------------------

/// A reference and the value that it refers to say the same.
pub open spec fn refers(found: Option<&JsonValue>, value: Option<JsonValue>) -> bool {
    match found {
        Some(v) => value == Some(*v),
        None => value is None,
    }
}

/// The value of the member called `key`.
pub fn get<'a>(object: &'a Members, key: &str) -> (found: Option<&'a JsonValue>)
    ensures
        refers(found, member(object@, key@)),
{
    let mut i: usize = 0;
    proof {
        assert(object@.skip(0) =~= object@);
    }
    while i < object.len()
        invariant
            i <= object@.len(),
            member(object@, key@) == member(object@.skip(i as int), key@),
        decreases object@.len() - i,
    {
        proof {
            assert(object@.skip(i as int).skip(1) =~= object@.skip(i + 1));
            assert(object@.skip(i as int)[0] == object@[i as int]);
        }
        if same_text(object[i].0.as_str(), key) {
            return Some(&object[i].1);
        }
        i += 1;
    }
    None
}

/// The text of a value.
pub fn as_text(value: Option<&JsonValue>) -> (text: Option<String>)
    ensures
        forall|v: Option<JsonValue>|
            refers(value, v) ==> text_of(text) == text_value(v),
{
    match value {
        Some(JsonValue::Text(s)) => Some(copied(s.as_str())),
        _ => None,
    }
}

/// The text of the member called `key`.
pub fn get_string(object: &Members, key: &str) -> (text: Option<String>)
    ensures
        text_of(text) == text_value(member(object@, key@)),
{
    as_text(get(object, key))
}

/// The text of the member called `key`, or `default` where there is none.
pub fn get_string_or(object: &Members, key: &str, default: &str) -> (text: String)
    ensures
        text@ == text_or(text_value(member(object@, key@)), default@),
{
    match get_string(object, key) {
        Some(text) => text,
        None => copied(default),
    }
}

/// A text, or another where there is none.
pub open spec fn text_or(text: Option<Seq<char>>, default: Seq<char>) -> Seq<char> {
    match text {
        Some(s) => s,
        None => default,
    }
}

/// The truth of the member called `key`.
pub fn get_bool(object: &Members, key: &str) -> (truth: Option<bool>)
    ensures
        truth == bool_value(member(object@, key@)),
{
    match get(object, key) {
        Some(JsonValue::Bool(b)) => Some(*b),
        _ => None,
    }
}

/// The whole number of a value.
pub fn as_i64(value: Option<&JsonValue>) -> (number: Option<i64>)
    ensures
        forall|v: Option<JsonValue>| refers(value, v) ==> number == i64_value(v),
{
    match value {
        Some(JsonValue::Number(JsonNumber::Unsigned(n))) => if *n <= i64::MAX as u64 {
            Some(*n as i64)
        } else {
            None
        },
        Some(JsonValue::Number(JsonNumber::Negative(n))) => Some(*n),
        _ => None,
    }
}

/// The whole number of the member called `key`.
pub fn get_i64(object: &Members, key: &str) -> (number: Option<i64>)
    ensures
        number == i64_value(member(object@, key@)),
{
    as_i64(get(object, key))
}

/// The natural number of the member called `key`.
pub fn get_u64(object: &Members, key: &str) -> (number: Option<u64>)
    ensures
        number == u64_value(member(object@, key@)),
{
    match get(object, key) {
        Some(JsonValue::Number(JsonNumber::Unsigned(n))) => Some(*n),
        _ => None,
    }
}

/// The members of the member called `key`.
pub fn get_object<'a>(object: &'a Members, key: &str) -> (inner: Option<&'a Members>)
    ensures
        match inner {
            Some(found) => members(member(object@, key@)) == Some(found@),
            None => members(member(object@, key@)) is None,
        },
{
    match get(object, key) {
        Some(JsonValue::Object(inner)) => Some(inner),
        _ => None,
    }
}

/// The texts among the elements of a value.
pub fn as_text_array(value: Option<&JsonValue>) -> (result: Vec<String>)
    ensures
        forall|v: Option<JsonValue>|
            refers(value, v) ==> texts(result@) == texts_among(elements(v)),
{
    let mut result: Vec<String> = Vec::new();
    match value {
        Some(JsonValue::Array(values)) => {
            let mut i: usize = 0;
            proof {
                assert(texts(result@) =~= texts_among(values@.take(0)));
            }
            while i < values.len()
                invariant
                    i <= values@.len(),
                    texts(result@) == texts_among(values@.take(i as int)),
                decreases values@.len() - i,
            {
                proof {
                    assert(values@.take(i + 1).drop_last() =~= values@.take(i as int));
                    assert(values@.take(i + 1).last() == values@[i as int]);
                }
                match &values[i] {
                    JsonValue::Text(s) => {
                        let ghost before = texts(result@);
                        result.push(copied(s.as_str()));
                        proof {
                            assert(texts(result@) =~= before.push(s@));
                        }
                    },
                    _ => {},
                }
                i += 1;
            }
            proof {
                assert(values@.take(i as int) =~= values@);
            }
        },
        _ => {
            proof {
                assert(texts(result@) =~= texts_among(Seq::empty()));
            }
        },
    }
    result
}

/// The objects among the elements of a value.
pub fn as_object_array<'a>(value: Option<&'a JsonValue>) -> (result: Vec<&'a Members>)
    ensures
        forall|v: Option<JsonValue>|
            refers(value, v) ==> result@.unref() == objects_among(elements(v)),
{
    match value {
        Some(JsonValue::Array(values)) => objects_of(values),
        _ => {
            let result: Vec<&'a Members> = Vec::new();
            proof {
                assert(result@.unref() =~= objects_among(Seq::empty()));
            }
            result
        },
    }
}

/// The objects among some values.
pub fn objects_of<'a>(values: &'a Vec<JsonValue>) -> (result: Vec<&'a Members>)
    ensures
        result@.unref() == objects_among(values@),
{
    let mut result: Vec<&'a Members> = Vec::new();
    let mut i: usize = 0;
    proof {
        assert(result@.unref() =~= objects_among(values@.take(0)));
    }
    while i < values.len()
        invariant
            i <= values@.len(),
            result@.unref() == objects_among(values@.take(i as int)),
        decreases values@.len() - i,
    {
        proof {
            assert(values@.take(i + 1).drop_last() =~= values@.take(i as int));
            assert(values@.take(i + 1).last() == values@[i as int]);
        }
        match &values[i] {
            JsonValue::Object(object) => {
                let ghost before = result@.unref();
                result.push(object);
                proof {
                    assert(result@.unref() =~= before.push(*object));
                }
            },
            _ => {},
        }
        i += 1;
    }
    proof {
        assert(values@.take(i as int) =~= values@);
    }
    result
}

/// The texts of the member called `key`.
pub fn get_string_array(object: &Members, key: &str) -> (result: Vec<String>)
    ensures
        texts(result@) == texts_among(elements(member(object@, key@))),
{
    as_text_array(get(object, key))
}

/// The value at the end of a path, of which the names before `from` are done.
fn get_path_from<'a>(object: &'a Members, path: &[&str], from: usize) -> (found: Option<
    &'a JsonValue,
>)
    requires
        from <= path@.len(),
    ensures
        refers(found, at_path(object@, names(path@).skip(from as int))),
    decreases path@.len() - from,
{
    let ghost rest = names(path@).skip(from as int);
    if from == path.len() {
        return None;
    }
    proof {
        assert(rest[0] == path@[from as int]@);
        assert(rest.skip(1) =~= names(path@).skip(from + 1));
    }
    let first = get(object, path[from]);
    if from + 1 == path.len() {
        return first;
    }
    match first {
        Some(JsonValue::Object(inner)) => get_path_from(inner, path, from + 1),
        _ => None,
    }
}

/// The value at the end of a path.
pub fn get_path_value<'a>(object: &'a Members, path: &[&str]) -> (found: Option<&'a JsonValue>)
    ensures
        refers(found, at_path(object@, names(path@))),
{
    proof {
        assert(names(path@).skip(0) =~= names(path@));
    }
    get_path_from(object, path, 0)
}

/// The text at the end of a path.
pub fn get_path_string(object: &Members, path: &[&str]) -> (text: Option<String>)
    ensures
        text_of(text) == text_value(at_path(object@, names(path@))),
{
    as_text(get_path_value(object, path))
}

/// The whole number at the end of a path.
pub fn get_path_i64(object: &Members, path: &[&str]) -> (number: Option<i64>)
    ensures
        number == i64_value(at_path(object@, names(path@))),
{
    as_i64(get_path_value(object, path))
}

/// The texts of the array at the end of a path.
pub fn get_path_array_strings(object: &Members, path: &[&str]) -> (result: Vec<String>)
    ensures
        texts(result@) == texts_among(elements(at_path(object@, names(path@)))),
{
    as_text_array(get_path_value(object, path))
}

/// The objects of the array at the end of a path.
pub fn get_path_array_objects<'a>(object: &'a Members, path: &[&str]) -> (result: Vec<&'a Members>)
    ensures
        result@.unref() == objects_among(elements(at_path(object@, names(path@)))),
{
    as_object_array(get_path_value(object, path))
}

/// The members of the object at the end of a path.
pub fn get_path_object<'a>(object: &'a Members, path: &[&str]) -> (inner: Option<&'a Members>)
    ensures
        match inner {
            Some(found) => members(at_path(object@, names(path@))) == Some(found@),
            None => members(at_path(object@, names(path@))) is None,
        },
{
    match get_path_value(object, path) {
        Some(JsonValue::Object(inner)) => Some(inner),
        _ => None,
    }
}

} // verus!
