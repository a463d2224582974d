//! The library's own model of a parsed JSON payload.
//!
//! Webhook payloads are kept as plain values the contracts can speak about:
//! object members in order, strings, booleans and 64-bit integers. A JSON
//! number that does not fit an `i64` (for example a float) is kept only
//! structurally, as [`JsonValue::NonInt`]; none of the extraction logic
//! reads such numbers.

use vstd::prelude::*;

verus! {

/// A parsed JSON document, as plain values.
pub enum JsonValue {
    Null,
    Bool(bool),
    Int(i64),
    /// A number outside the `i64` range (or not an integer at all).
    NonInt,
    Str(String),
    Arr(Vec<JsonValue>),
    Obj(Vec<(String, JsonValue)>),
}

/// The member of an object under `key` (first match), or `None` when the
/// value is not an object or has no such member.
pub open spec fn spec_get(v: JsonValue, key: Seq<char>) -> Option<JsonValue> {
    match v {
        JsonValue::Obj(members) => spec_get_in(members@, key),
        _ => None,
    }
}

/// The first member of `members` whose key is `key`.
pub open spec fn spec_get_in(members: Seq<(String, JsonValue)>, key: Seq<char>) -> Option<
    JsonValue,
>
    decreases members.len(),
{
    if members.len() == 0 {
        None
    } else if members[0].0@ == key {
        Some(members[0].1)
    } else {
        spec_get_in(members.skip(1), key)
    }
}

/// The string content of a string value.
pub open spec fn spec_as_str(v: JsonValue) -> Option<Seq<char>> {
    match v {
        JsonValue::Str(s) => Some(s@),
        _ => None,
    }
}

/// The integer content of an integer value.
pub open spec fn spec_as_i64(v: JsonValue) -> Option<i64> {
    match v {
        JsonValue::Int(i) => Some(i),
        _ => None,
    }
}

impl JsonValue {
    /// Looks up an object member by key; `None` for other value kinds or a
    /// missing key.
    pub fn get<'a>(&'a self, key: &str) -> (r: Option<&'a JsonValue>)
        ensures
            match r {
                Some(m) => spec_get(*self, key@) == Some(*m),
                None => spec_get(*self, key@) is None,
            },
    {
        match self {
            JsonValue::Obj(members) => {
                let n = members.len();
                assert(members@.skip(0) =~= members@);
                for i in 0..n
                    invariant
                        n == members@.len(),
                        spec_get(*self, key@) == spec_get_in(members@.skip(i as int), key@),
                {
                    assert(members@.skip(i as int)[0] == members@[i as int]);
                    if crate::strutil::str_eq(members[i].0.as_str(), key) {
                        assert(spec_get_in(members@.skip(i as int), key@) == Some(
                            members@[i as int].1,
                        ));
                        return Some(&members[i].1);
                    }
                    assert(members@.skip(i as int).skip(1) =~= members@.skip(i + 1));
                }
                assert(members@.skip(n as int).len() == 0);
                None
            },
            _ => None,
        }
    }

    /// The value's string content, if it is a string.
    pub fn as_str<'a>(&'a self) -> (r: Option<&'a str>)
        ensures
            match r {
                Some(s) => spec_as_str(*self) == Some(s@),
                None => spec_as_str(*self) is None,
            },
    {
        match self {
            JsonValue::Str(s) => Some(s.as_str()),
            _ => None,
        }
    }

    /// The value's integer content, if it is an integer.
    pub fn as_i64(&self) -> (r: Option<i64>)
        ensures
            r == spec_as_i64(*self),
    {
        match self {
            JsonValue::Int(i) => Some(*i),
            _ => None,
        }
    }

    /// The value's boolean content, if it is a boolean.
    pub fn as_bool(&self) -> (r: Option<bool>)
        ensures
            r == (match *self {
                JsonValue::Bool(b) => Some(b),
                _ => None::<bool>,
            }),
    {
        match self {
            JsonValue::Bool(b) => Some(*b),
            _ => None,
        }
    }

    /// The value's elements, if it is an array.
    pub fn as_array<'a>(&'a self) -> (r: Option<&'a Vec<JsonValue>>)
        ensures
            match r {
                Some(a) => *self == JsonValue::Arr(*a),
                None => !(*self is Arr),
            },
    {
        match self {
            JsonValue::Arr(items) => Some(items),
            _ => None,
        }
    }

    /// Whether the value is a JSON object.
    pub fn is_object(&self) -> (r: bool)
        ensures
            r == (*self is Obj),
    {
        match self {
            JsonValue::Obj(_) => true,
            _ => false,
        }
    }
}

} // verus!
