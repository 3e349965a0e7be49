//! Stream forms of the JSON value functions.
use vstd::prelude::*;
use crate::data::StringMap;
use super::value::{self, Json, JsonNumber, is_object_of_map, is_string_of, number_of_i64};

verus! {

/// One JSON `null` for each tick received.
pub fn null(ticks: usize) -> (r: Vec<Json>)
    ensures
        r.len() == ticks,
        forall|i: int| #![trigger r[i]] 0 <= i < r.len() ==> r[i] is Null,
{
    let mut r: Vec<Json> = Vec::new();
    let mut i: usize = 0;
    while i < ticks
        invariant
            i <= ticks,
            r.len() == i,
            forall|j: int| #![trigger r[j]] 0 <= j < i ==> r[j] is Null,
        decreases ticks - i,
    {
        r.push(Json::Null);
        i = i + 1;
    }
    r
}

/// JSON booleans of a stream of booleans.
pub fn from_bool(values: &Vec<bool>) -> (r: Vec<Json>)
    ensures
        r.len() == values.len(),
        forall|i: int| #![trigger r[i]] 0 <= i < r.len() ==> r[i] == Json::Bool(values[i]),
{
    let mut r: Vec<Json> = Vec::new();
    let mut i: usize = 0;
    while i < values.len()
        invariant
            i <= values.len(),
            r.len() == i,
            forall|j: int| #![trigger r[j]] 0 <= j < i ==> r[j] == Json::Bool(values[j]),
        decreases values.len() - i,
    {
        r.push(value::from_bool(values[i]));
        i = i + 1;
    }
    r
}

/// JSON numbers of a stream of `i64`.
pub fn from_number_i64(values: &Vec<i64>) -> (r: Vec<Json>)
    ensures
        r.len() == values.len(),
        forall|i: int| #![trigger r[i]] 0 <= i < r.len() ==> r[i] == Json::Number(number_of_i64(values[i])),
{
    let mut r: Vec<Json> = Vec::new();
    let mut i: usize = 0;
    while i < values.len()
        invariant
            i <= values.len(),
            r.len() == i,
            forall|j: int| #![trigger r[j]] 0 <= j < i ==> r[j] == Json::Number(number_of_i64(values[j])),
        decreases values.len() - i,
    {
        r.push(value::from_number_i64(values[i]));
        i = i + 1;
    }
    r
}

/// JSON numbers of a stream of `u64`.
pub fn from_number_u64(values: &Vec<u64>) -> (r: Vec<Json>)
    ensures
        r.len() == values.len(),
        forall|i: int| #![trigger r[i]] 0 <= i < r.len() ==> r[i] == Json::Number(JsonNumber::PosInt(values[i])),
{
    let mut r: Vec<Json> = Vec::new();
    let mut i: usize = 0;
    while i < values.len()
        invariant
            i <= values.len(),
            r.len() == i,
            forall|j: int| #![trigger r[j]] 0 <= j < i ==> r[j] == Json::Number(JsonNumber::PosInt(values[j])),
        decreases values.len() - i,
    {
        r.push(value::from_number_u64(values[i]));
        i = i + 1;
    }
    r
}

/// JSON strings of a stream of strings.
pub fn from_string(values: &Vec<String>) -> (r: Vec<Json>)
    ensures
        r.len() == values.len(),
        forall|i: int| #![trigger r[i]] 0 <= i < r.len() ==> is_string_of(r[i], values[i]@),
{
    let mut r: Vec<Json> = Vec::new();
    let mut i: usize = 0;
    while i < values.len()
        invariant
            i <= values.len(),
            r.len() == i,
            forall|j: int| #![trigger r[j]] 0 <= j < i ==> is_string_of(r[j], values[j]@),
        decreases values.len() - i,
    {
        r.push(value::from_string(values[i].clone()));
        i = i + 1;
    }
    r
}

/// JSON objects of a stream of string maps, every member value a JSON string.
pub fn from_string_map(values: &Vec<StringMap>) -> (r: Vec<Json>)
    ensures
        r.len() == values.len(),
        forall|i: int| #![trigger r[i]] 0 <= i < r.len() ==> is_object_of_map(r[i], values[i]),
{
    let mut r: Vec<Json> = Vec::new();
    let mut i: usize = 0;
    while i < values.len()
        invariant
            i <= values.len(),
            r.len() == i,
            forall|j: int| #![trigger r[j]] 0 <= j < i ==> is_object_of_map(r[j], values[j]),
        decreases values.len() - i,
    {
        r.push(value::from_string_map(&values[i]));
        i = i + 1;
    }
    r
}

/// JSON booleans of a stream of optional booleans, `null` for each missing one.
pub fn from_option_bool(values: &Vec<Option<bool>>) -> (r: Vec<Json>)
    ensures
        r.len() == values.len(),
        forall|i: int| #![trigger r[i]] 0 <= i < r.len() ==> (match values[i] { Some(b) => r[i] == Json::Bool(b), None => r[i] is Null }),
{
    let mut r: Vec<Json> = Vec::new();
    let mut i: usize = 0;
    while i < values.len()
        invariant
            i <= values.len(),
            r.len() == i,
            forall|j: int| #![trigger r[j]] 0 <= j < i ==> (match values[j] { Some(b) => r[j] == Json::Bool(b), None => r[j] is Null }),
        decreases values.len() - i,
    {
        r.push(value::from_option_bool(values[i]));
        i = i + 1;
    }
    r
}

/// JSON numbers of a stream of optional `i64`, `null` for each missing one.
pub fn from_option_number_i64(values: &Vec<Option<i64>>) -> (r: Vec<Json>)
    ensures
        r.len() == values.len(),
        forall|i: int| #![trigger r[i]] 0 <= i < r.len() ==> (match values[i] { Some(v) => r[i] == Json::Number(number_of_i64(v)), None => r[i] is Null }),
{
    let mut r: Vec<Json> = Vec::new();
    let mut i: usize = 0;
    while i < values.len()
        invariant
            i <= values.len(),
            r.len() == i,
            forall|j: int| #![trigger r[j]] 0 <= j < i ==> (match values[j] { Some(v) => r[j] == Json::Number(number_of_i64(v)), None => r[j] is Null }),
        decreases values.len() - i,
    {
        r.push(value::from_option_number_i64(values[i]));
        i = i + 1;
    }
    r
}

/// JSON numbers of a stream of optional `u64`, `null` for each missing one.
pub fn from_option_number_u64(values: &Vec<Option<u64>>) -> (r: Vec<Json>)
    ensures
        r.len() == values.len(),
        forall|i: int| #![trigger r[i]] 0 <= i < r.len() ==> (match values[i] { Some(v) => r[i] == Json::Number(JsonNumber::PosInt(v)), None => r[i] is Null }),
{
    let mut r: Vec<Json> = Vec::new();
    let mut i: usize = 0;
    while i < values.len()
        invariant
            i <= values.len(),
            r.len() == i,
            forall|j: int| #![trigger r[j]] 0 <= j < i ==> (match values[j] { Some(v) => r[j] == Json::Number(JsonNumber::PosInt(v)), None => r[j] is Null }),
        decreases values.len() - i,
    {
        r.push(value::from_option_number_u64(values[i]));
        i = i + 1;
    }
    r
}

/// JSON strings of a stream of optional strings, `null` for each missing one.
pub fn from_option_string(values: &Vec<Option<String>>) -> (r: Vec<Json>)
    ensures
        r.len() == values.len(),
        forall|i: int| #![trigger r[i]] 0 <= i < r.len() ==> (match values[i] { Some(v) => is_string_of(r[i], v@), None => r[i] is Null }),
{
    let mut r: Vec<Json> = Vec::new();
    let mut i: usize = 0;
    while i < values.len()
        invariant
            i <= values.len(),
            r.len() == i,
            forall|j: int| #![trigger r[j]] 0 <= j < i ==> (match values[j] { Some(v) => is_string_of(r[j], v@), None => r[j] is Null }),
        decreases values.len() - i,
    {
        r.push(value::from_option_string(values[i].clone()));
        i = i + 1;
    }
    r
}

/// Whether each JSON value of a stream passes `is_null`.
pub fn is_null(values: &Vec<Json>) -> (r: Vec<bool>)
    ensures
        r.len() == values.len(),
        forall|i: int| #![trigger r[i]] 0 <= i < r.len() ==> r[i] == (values[i] is Null),
{
    let mut r: Vec<bool> = Vec::new();
    let mut i: usize = 0;
    while i < values.len()
        invariant
            i <= values.len(),
            r.len() == i,
            forall|j: int| #![trigger r[j]] 0 <= j < i ==> r[j] == (values[j] is Null),
        decreases values.len() - i,
    {
        r.push(value::is_null(&values[i]));
        i = i + 1;
    }
    r
}

/// Whether each JSON value of a stream passes `is_bool`.
pub fn is_bool(values: &Vec<Json>) -> (r: Vec<bool>)
    ensures
        r.len() == values.len(),
        forall|i: int| #![trigger r[i]] 0 <= i < r.len() ==> r[i] == (values[i] is Bool),
{
    let mut r: Vec<bool> = Vec::new();
    let mut i: usize = 0;
    while i < values.len()
        invariant
            i <= values.len(),
            r.len() == i,
            forall|j: int| #![trigger r[j]] 0 <= j < i ==> r[j] == (values[j] is Bool),
        decreases values.len() - i,
    {
        r.push(value::is_bool(&values[i]));
        i = i + 1;
    }
    r
}

/// Whether each JSON value of a stream passes `is_string`.
pub fn is_string(values: &Vec<Json>) -> (r: Vec<bool>)
    ensures
        r.len() == values.len(),
        forall|i: int| #![trigger r[i]] 0 <= i < r.len() ==> r[i] == (values[i] is String),
{
    let mut r: Vec<bool> = Vec::new();
    let mut i: usize = 0;
    while i < values.len()
        invariant
            i <= values.len(),
            r.len() == i,
            forall|j: int| #![trigger r[j]] 0 <= j < i ==> r[j] == (values[j] is String),
        decreases values.len() - i,
    {
        r.push(value::is_string(&values[i]));
        i = i + 1;
    }
    r
}

/// Whether each JSON value of a stream passes `is_number`.
pub fn is_number(values: &Vec<Json>) -> (r: Vec<bool>)
    ensures
        r.len() == values.len(),
        forall|i: int| #![trigger r[i]] 0 <= i < r.len() ==> r[i] == (values[i] is Number),
{
    let mut r: Vec<bool> = Vec::new();
    let mut i: usize = 0;
    while i < values.len()
        invariant
            i <= values.len(),
            r.len() == i,
            forall|j: int| #![trigger r[j]] 0 <= j < i ==> r[j] == (values[j] is Number),
        decreases values.len() - i,
    {
        r.push(value::is_number(&values[i]));
        i = i + 1;
    }
    r
}

/// Whether each JSON value of a stream passes `is_i64`.
pub fn is_i64(values: &Vec<Json>) -> (r: Vec<bool>)
    ensures
        r.len() == values.len(),
        forall|i: int| #![trigger r[i]] 0 <= i < r.len() ==> r[i] == ((match values[i] { Json::Number(JsonNumber::PosInt(v)) => v <= i64::MAX, Json::Number(JsonNumber::NegInt(_)) => true, _ => false })),
{
    let mut r: Vec<bool> = Vec::new();
    let mut i: usize = 0;
    while i < values.len()
        invariant
            i <= values.len(),
            r.len() == i,
            forall|j: int| #![trigger r[j]] 0 <= j < i ==> r[j] == ((match values[j] { Json::Number(JsonNumber::PosInt(v)) => v <= i64::MAX, Json::Number(JsonNumber::NegInt(_)) => true, _ => false })),
        decreases values.len() - i,
    {
        r.push(value::is_i64(&values[i]));
        i = i + 1;
    }
    r
}

/// Whether each JSON value of a stream passes `is_u64`.
pub fn is_u64(values: &Vec<Json>) -> (r: Vec<bool>)
    ensures
        r.len() == values.len(),
        forall|i: int| #![trigger r[i]] 0 <= i < r.len() ==> r[i] == ((values[i] matches Json::Number(JsonNumber::PosInt(_)))),
{
    let mut r: Vec<bool> = Vec::new();
    let mut i: usize = 0;
    while i < values.len()
        invariant
            i <= values.len(),
            r.len() == i,
            forall|j: int| #![trigger r[j]] 0 <= j < i ==> r[j] == ((values[j] matches Json::Number(JsonNumber::PosInt(_)))),
        decreases values.len() - i,
    {
        r.push(value::is_u64(&values[i]));
        i = i + 1;
    }
    r
}

/// Whether each JSON value of a stream passes `is_f64`.
pub fn is_f64(values: &Vec<Json>) -> (r: Vec<bool>)
    ensures
        r.len() == values.len(),
        forall|i: int| #![trigger r[i]] 0 <= i < r.len() ==> r[i] == ((values[i] matches Json::Number(JsonNumber::Float(_)))),
{
    let mut r: Vec<bool> = Vec::new();
    let mut i: usize = 0;
    while i < values.len()
        invariant
            i <= values.len(),
            r.len() == i,
            forall|j: int| #![trigger r[j]] 0 <= j < i ==> r[j] == ((values[j] matches Json::Number(JsonNumber::Float(_)))),
        decreases values.len() - i,
    {
        r.push(value::is_f64(&values[i]));
        i = i + 1;
    }
    r
}

/// Whether each JSON value of a stream passes `is_vec`.
pub fn is_vector(values: &Vec<Json>) -> (r: Vec<bool>)
    ensures
        r.len() == values.len(),
        forall|i: int| #![trigger r[i]] 0 <= i < r.len() ==> r[i] == (values[i] is Array),
{
    let mut r: Vec<bool> = Vec::new();
    let mut i: usize = 0;
    while i < values.len()
        invariant
            i <= values.len(),
            r.len() == i,
            forall|j: int| #![trigger r[j]] 0 <= j < i ==> r[j] == (values[j] is Array),
        decreases values.len() - i,
    {
        r.push(value::is_vec(&values[i]));
        i = i + 1;
    }
    r
}

/// Whether each JSON value of a stream passes `is_object`.
pub fn is_object(values: &Vec<Json>) -> (r: Vec<bool>)
    ensures
        r.len() == values.len(),
        forall|i: int| #![trigger r[i]] 0 <= i < r.len() ==> r[i] == (values[i] is Object),
{
    let mut r: Vec<bool> = Vec::new();
    let mut i: usize = 0;
    while i < values.len()
        invariant
            i <= values.len(),
            r.len() == i,
            forall|j: int| #![trigger r[j]] 0 <= j < i ==> r[j] == (values[j] is Object),
        decreases values.len() - i,
    {
        r.push(value::is_object(&values[i]));
        i = i + 1;
    }
    r
}

} // verus!
