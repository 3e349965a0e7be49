//! JSON values and their constructors and tests.
//!
//! A number keeps the representation JSON libraries give it: a non-negative
//! integer, a negative integer, or a finite floating point number (held by
//! the bits of its IEEE 754 double).
use vstd::prelude::*;
use crate::data::StringMap;

verus! {

/// A JSON number.
pub enum JsonNumber {
    /// A non-negative integer.
    PosInt(u64),
    /// A negative integer.
    NegInt(i64),
    /// A finite floating point number, by the bits of its `f64`.
    Float(u64),
}

/// A JSON value.
pub enum Json {
    Null,
    Bool(bool),
    Number(JsonNumber),
    String(String),
    Array(Vec<Json>),
    Object(Vec<(String, Json)>),
}

/// The JSON number of an `i64`: non-negative values are kept as such.
pub open spec fn number_of_i64(v: i64) -> JsonNumber {
    if v < 0 {
        JsonNumber::NegInt(v)
    } else {
        JsonNumber::PosInt(v as u64)
    }
}

/// `j` is the JSON string `s`.
pub open spec fn is_string_of(j: Json, s: Seq<char>) -> bool {
    match j {
        Json::String(t) => t@ == s,
        _ => false,
    }
}

/// `j` is the JSON object whose members are the entries of `map`, in
/// order, each value the JSON string of the entry's value.
pub open spec fn is_object_of_map(j: Json, map: StringMap) -> bool {
    match j {
        Json::Object(members) => {
            &&& members@.len() == map.entries@.len()
            &&& forall|i: int|
                0 <= i < members@.len() ==> #[trigger] members@[i].0@ == map.entries@[i].0@
                    && is_string_of(members@[i].1, map.entries@[i].1@)
        },
        _ => false,
    }
}

/// JSON `null`.
pub fn null() -> (r: Json)
    ensures
        r is Null,
{
    Json::Null
}

/// The JSON boolean `value`.
pub fn from_bool(value: bool) -> (r: Json)
    ensures
        r == Json::Bool(value),
{
    Json::Bool(value)
}

/// The JSON number `value`.
pub fn from_number_i64(value: i64) -> (r: Json)
    ensures
        r == Json::Number(number_of_i64(value)),
{
    if value < 0 {
        Json::Number(JsonNumber::NegInt(value))
    } else {
        Json::Number(JsonNumber::PosInt(value as u64))
    }
}

/// The JSON number `value`.
pub fn from_number_u64(value: u64) -> (r: Json)
    ensures
        r == Json::Number(JsonNumber::PosInt(value)),
{
    Json::Number(JsonNumber::PosInt(value))
}

/// The JSON string `value`.
pub fn from_string(value: String) -> (r: Json)
    ensures
        is_string_of(r, value@),
{
    Json::String(value)
}

/// The JSON object whose members are the entries of `map`, each value a
/// JSON string, in the order of the entries.
pub fn from_string_map(map: &StringMap) -> (r: Json)
    ensures
        is_object_of_map(r, *map),
{
    let mut members: Vec<(String, Json)> = Vec::new();
    let mut i: usize = 0;
    while i < map.entries.len()
        invariant
            i <= map.entries@.len(),
            members@.len() == i,
            forall|j: int|
                0 <= j < i ==> #[trigger] members@[j].0@ == map.entries@[j].0@
                    && is_string_of(members@[j].1, map.entries@[j].1@),
        decreases map.entries@.len() - i,
    {
        let key = map.entries[i].0.clone();
        let value = map.entries[i].1.clone();
        members.push((key, Json::String(value)));
        i = i + 1;
    }
    Json::Object(members)
}

/// The JSON boolean `value`, or `null` if there is none.
pub fn from_option_bool(value: Option<bool>) -> (r: Json)
    ensures
        match value {
            Some(b) => r == Json::Bool(b),
            None => r is Null,
        },
{
    match value {
        Some(b) => Json::Bool(b),
        None => Json::Null,
    }
}

/// The JSON number `value`, or `null` if there is none.
pub fn from_option_number_i64(value: Option<i64>) -> (r: Json)
    ensures
        match value {
            Some(v) => r == Json::Number(number_of_i64(v)),
            None => r is Null,
        },
{
    match value {
        Some(v) => from_number_i64(v),
        None => Json::Null,
    }
}

/// The JSON number `value`, or `null` if there is none.
pub fn from_option_number_u64(value: Option<u64>) -> (r: Json)
    ensures
        match value {
            Some(v) => r == Json::Number(JsonNumber::PosInt(v)),
            None => r is Null,
        },
{
    match value {
        Some(v) => Json::Number(JsonNumber::PosInt(v)),
        None => Json::Null,
    }
}

/// The JSON string `value`, or `null` if there is none.
pub fn from_option_string(value: Option<String>) -> (r: Json)
    ensures
        match value {
            Some(v) => is_string_of(r, v@),
            None => r is Null,
        },
{
    match value {
        Some(v) => Json::String(v),
        None => Json::Null,
    }
}

/// Whether `value` is `null`.
pub fn is_null(value: &Json) -> (r: bool)
    ensures
        r == (*value is Null),
{
    match value {
        Json::Null => true,
        _ => false,
    }
}

/// Whether `value` is a boolean.
pub fn is_bool(value: &Json) -> (r: bool)
    ensures
        r == (*value is Bool),
{
    match value {
        Json::Bool(_) => true,
        _ => false,
    }
}

/// Whether `value` is a string.
pub fn is_string(value: &Json) -> (r: bool)
    ensures
        r == (*value is String),
{
    match value {
        Json::String(_) => true,
        _ => false,
    }
}

/// Whether `value` is a number.
pub fn is_number(value: &Json) -> (r: bool)
    ensures
        r == (*value is Number),
{
    match value {
        Json::Number(_) => true,
        _ => false,
    }
}

/// Whether `value` is a number representable as `i64`.
pub fn is_i64(value: &Json) -> (r: bool)
    ensures
        r == match *value {
            Json::Number(JsonNumber::PosInt(v)) => v <= i64::MAX,
            Json::Number(JsonNumber::NegInt(_)) => true,
            _ => false,
        },
{
    match value {
        Json::Number(JsonNumber::PosInt(v)) => *v <= i64::MAX as u64,
        Json::Number(JsonNumber::NegInt(_)) => true,
        _ => false,
    }
}

/// Whether `value` is a number representable as `u64`.
pub fn is_u64(value: &Json) -> (r: bool)
    ensures
        r == (*value matches Json::Number(JsonNumber::PosInt(_))),
{
    match value {
        Json::Number(JsonNumber::PosInt(_)) => true,
        _ => false,
    }
}

/// Whether `value` is a floating point number.
pub fn is_f64(value: &Json) -> (r: bool)
    ensures
        r == (*value matches Json::Number(JsonNumber::Float(_))),
{
    match value {
        Json::Number(JsonNumber::Float(_)) => true,
        _ => false,
    }
}

/// Whether `value` is an array.
pub fn is_vec(value: &Json) -> (r: bool)
    ensures
        r == (*value is Array),
{
    match value {
        Json::Array(_) => true,
        _ => false,
    }
}

/// Whether `value` is an object.
pub fn is_object(value: &Json) -> (r: bool)
    ensures
        r == (*value is Object),
{
    match value {
        Json::Object(_) => true,
        _ => false,
    }
}

impl Json {
    /// The string of a JSON string, `None` for any other value.
    pub fn try_to_string(&self) -> (r: Option<String>)
        ensures
            match *self {
                Json::String(s) => r matches Some(t) && t@ == s@,
                _ => r is None,
            },
    {
        match self {
            Json::String(s) => Some(s.clone()),
            _ => None,
        }
    }

    /// The boolean of a JSON boolean, `None` for any other value.
    pub fn try_to_bool(&self) -> (r: Option<bool>)
        ensures
            r == match *self {
                Json::Bool(b) => Some(b),
                _ => None,
            },
    {
        match self {
            Json::Bool(b) => Some(*b),
            _ => None,
        }
    }

    /// The integer of a JSON number representable as `i64`, `None` for any
    /// other value.
    pub fn try_to_i64(&self) -> (r: Option<i64>)
        ensures
            r == match *self {
                Json::Number(JsonNumber::PosInt(v)) => if v <= i64::MAX {
                    Some(v as i64)
                } else {
                    None
                },
                Json::Number(JsonNumber::NegInt(v)) => Some(v),
                _ => None,
            },
    {
        match self {
            Json::Number(JsonNumber::PosInt(v)) => if *v <= i64::MAX as u64 {
                Some(*v as i64)
            } else {
                None
            },
            Json::Number(JsonNumber::NegInt(v)) => Some(*v),
            _ => None,
        }
    }

    /// The integer of a JSON number representable as `u64`, `None` for any
    /// other value.
    pub fn try_to_u64(&self) -> (r: Option<u64>)
        ensures
            r == match *self {
                Json::Number(JsonNumber::PosInt(v)) => Some(v),
                _ => None,
            },
    {
        match self {
            Json::Number(JsonNumber::PosInt(v)) => Some(*v),
            _ => None,
        }
    }
}

} // verus!
