//! JSON values as the media server sends them, and reading them.
//!
//! An object keeps its members in order, each key once. A number keeps
//! what can be read of it: its value when it is an integer that fits an
//! `i64`, its value when it is an integer that fits a `u64`, and the bit
//! pattern of its value as an `f64`.
use vstd::prelude::*;
use crate::text::str_eq;

verus! {

/// A JSON value.
pub enum JsonValue {
    Null,
    Bool(bool),
    Number { integer: Option<i64>, unsigned: Option<u64>, float_bits: u64 },
    Str(String),
    Array(Vec<JsonValue>),
    Object(Vec<(String, JsonValue)>),
}

/// The value of the first member named `key`, or null.
pub open spec fn member_in(members: Seq<(String, JsonValue)>, key: Seq<char>) -> JsonValue
    decreases members.len(),
{
    if members.len() == 0 {
        JsonValue::Null
    } else if members[0].0@ == key {
        members[0].1
    } else {
        member_in(members.drop_first(), key)
    }
}

/// `v` is an object with a member `key`.
pub open spec fn has_key(v: JsonValue, key: Seq<char>) -> bool {
    match v {
        JsonValue::Object(members) => exists|i: int|
            0 <= i < members@.len() && (#[trigger] members@[i]).0@ == key,
        _ => false,
    }
}

/// `v[key]`: the member `key` of an object; null for anything else.
pub open spec fn member(v: JsonValue, key: Seq<char>) -> JsonValue {
    match v {
        JsonValue::Object(members) => member_in(members@, key),
        _ => JsonValue::Null,
    }
}

/// The text of a string value.
pub open spec fn str_of(v: JsonValue) -> Option<Seq<char>> {
    match v {
        JsonValue::Str(s) => Some(s@),
        _ => None,
    }
}

/// The value of an integer that fits an `i64`.
pub open spec fn int_of(v: JsonValue) -> Option<i64> {
    match v {
        JsonValue::Number { integer, .. } => integer,
        _ => None,
    }
}

/// The value of an integer that fits a `u64`.
pub open spec fn unsigned_of(v: JsonValue) -> Option<u64> {
    match v {
        JsonValue::Number { unsigned, .. } => unsigned,
        _ => None,
    }
}

/// The `f64` bit pattern of a number.
pub open spec fn float_bits_of(v: JsonValue) -> Option<u64> {
    match v {
        JsonValue::Number { float_bits, .. } => Some(float_bits),
        _ => None,
    }
}

/// A boolean value.
pub open spec fn bool_of(v: JsonValue) -> Option<bool> {
    match v {
        JsonValue::Bool(b) => Some(b),
        _ => None,
    }
}

/// The elements of an array.
pub open spec fn array_of(v: JsonValue) -> Option<Seq<JsonValue>> {
    match v {
        JsonValue::Array(items) => Some(items@),
        _ => None,
    }
}

/// The members of an object.
pub open spec fn members_of(v: JsonValue) -> Option<Seq<(String, JsonValue)>> {
    match v {
        JsonValue::Object(members) => Some(members@),
        _ => None,
    }
}

/// The member `key` of `v`, when `v` is an object that has one.
pub fn get<'a>(v: &'a JsonValue, key: &str) -> (r: Option<&'a JsonValue>)
    ensures
        r is Some <==> has_key(*v, key@),
        match r {
            Some(x) => *x == member(*v, key@),
            None => member(*v, key@) == JsonValue::Null,
        },
{
    match v {
        JsonValue::Object(members) => {
            let mut i: usize = 0;
            assert(members@.skip(0) =~= members@);
            while i < members.len()
                invariant
                    i <= members@.len(),
                    member(*v, key@) == member_in(members@, key@),
                    *v == JsonValue::Object(*members),
                    forall|j: int| 0 <= j < i ==> (#[trigger] members@[j]).0@ != key@,
                    member_in(members@, key@) == member_in(members@.skip(i as int), key@),
                decreases members@.len() - i,
            {
                assert(members@.skip(i as int).drop_first() =~= members@.skip(i + 1));
                assert(members@.skip(i as int)[0] == members@[i as int]);
                let entry = &members[i];
                if str_eq(entry.0.as_str(), key) {
                    assert(members@[i as int].0@ == key@);
                    return Some(&entry.1);
                }
                i = i + 1;
            }
            assert(members@.skip(i as int).len() == 0);
            None
        },
        _ => None,
    }
}

/// The text of a string value.
pub fn as_str(v: &JsonValue) -> (r: Option<&str>)
    ensures
        match r {
            Some(s) => str_of(*v) == Some(s@),
            None => str_of(*v) is None,
        },
{
    match v {
        JsonValue::Str(s) => Some(s.as_str()),
        _ => None,
    }
}

/// The text of the string member `key` of `v`.
pub fn str_member<'a>(v: &'a JsonValue, key: &str) -> (r: Option<&'a str>)
    ensures
        match r {
            Some(s) => str_of(member(*v, key@)) == Some(s@),
            None => str_of(member(*v, key@)) is None,
        },
{
    match get(v, key) {
        Some(x) => as_str(x),
        None => None,
    }
}

/// A copy of the text of the string member `key` of `v`.
pub fn string_member(v: &JsonValue, key: &str) -> (r: Option<String>)
    ensures
        match r {
            Some(s) => str_of(member(*v, key@)) == Some(s@),
            None => str_of(member(*v, key@)) is None,
        },
{
    match str_member(v, key) {
        Some(s) => Some(s.to_string()),
        None => None,
    }
}

/// The integer member `key` of `v`.
pub fn int_member(v: &JsonValue, key: &str) -> (r: Option<i64>)
    ensures
        r == int_of(member(*v, key@)),
{
    match get(v, key) {
        Some(JsonValue::Number { integer, .. }) => *integer,
        _ => None,
    }
}

/// The unsigned integer member `key` of `v`.
pub fn unsigned_member(v: &JsonValue, key: &str) -> (r: Option<u64>)
    ensures
        r == unsigned_of(member(*v, key@)),
{
    match get(v, key) {
        Some(JsonValue::Number { unsigned, .. }) => *unsigned,
        _ => None,
    }
}

/// The `f64` bit pattern of the number member `key` of `v`.
pub fn float_bits_member(v: &JsonValue, key: &str) -> (r: Option<u64>)
    ensures
        r == float_bits_of(member(*v, key@)),
{
    match get(v, key) {
        Some(JsonValue::Number { float_bits, .. }) => Some(*float_bits),
        _ => None,
    }
}

/// The boolean member `key` of `v`.
pub fn bool_member(v: &JsonValue, key: &str) -> (r: Option<bool>)
    ensures
        r == bool_of(member(*v, key@)),
{
    match get(v, key) {
        Some(JsonValue::Bool(b)) => Some(*b),
        _ => None,
    }
}

/// The elements of the array member `key` of `v`.
pub fn array_member<'a>(v: &'a JsonValue, key: &str) -> (r: Option<&'a Vec<JsonValue>>)
    ensures
        match r {
            Some(items) => array_of(member(*v, key@)) == Some(items@),
            None => array_of(member(*v, key@)) is None,
        },
{
    match get(v, key) {
        Some(JsonValue::Array(items)) => Some(items),
        _ => None,
    }
}

/// The members of the object member `key` of `v`.
pub fn object_member<'a>(v: &'a JsonValue, key: &str) -> (r: Option<&'a Vec<(String, JsonValue)>>)
    ensures
        match r {
            Some(members) => members_of(member(*v, key@)) == Some(members@),
            None => members_of(member(*v, key@)) is None,
        },
{
    match get(v, key) {
        Some(JsonValue::Object(members)) => Some(members),
        _ => None,
    }
}

} // verus!
