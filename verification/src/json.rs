//! The JSON documents the providers read, as plain values.
//!
//! The HTTP layer decodes an answer and hands it over as a [`Json`] tree;
//! the provider logic reads it through the accessors below, which behave
//! like `serde_json::Value::get`, `as_str`, `as_u64`, `as_i64`, `as_bool`
//! and `as_array`.
use vstd::prelude::*;
use crate::text::chars_of;

verus! {

/// A JSON number, as far as the providers read it.
#[derive(Debug, Clone, Copy, PartialEq, Eq)]
pub enum JsonNumber {
    /// A non-negative integer.
    PosInt(u64),
    /// A negative integer.
    NegInt(i64),
    /// A number with a fraction or exponent (its value is never read).
    Float,
}

/// A JSON value. An object lists each of its keys once.
#[derive(Debug)]
pub enum Json {
    Null,
    Bool(bool),
    Number(JsonNumber),
    Str(String),
    Array(Vec<Json>),
    Object(Vec<(String, Json)>),
}

/// Value of the first member named `key` among `members`.
pub open spec fn member(members: Seq<(String, Json)>, key: Seq<char>) -> Option<Json>
    decreases members.len(),
{
    if members.len() == 0 {
        None
    } else if members[0].0@ == key {
        Some(members[0].1)
    } else {
        member(members.drop_first(), key)
    }
}

/// `Value::get(key)` on an optional value: `None` unless it is an object
/// with such a member.
pub open spec fn field(v: Option<Json>, key: Seq<char>) -> Option<Json> {
    match v {
        Some(Json::Object(ms)) => member(ms@, key),
        _ => None,
    }
}

/// `Value::as_str`.
pub open spec fn as_str(v: Option<Json>) -> Option<Seq<char>> {
    match v {
        Some(Json::Str(s)) => Some(s@),
        _ => None,
    }
}

/// `Value::as_u64`.
pub open spec fn as_u64(v: Option<Json>) -> Option<u64> {
    match v {
        Some(Json::Number(JsonNumber::PosInt(n))) => Some(n),
        _ => None,
    }
}

/// `Value::as_i64`.
pub open spec fn as_i64(v: Option<Json>) -> Option<i64> {
    match v {
        Some(Json::Number(JsonNumber::PosInt(n))) => if n <= i64::MAX {
            Some(n as i64)
        } else {
            None
        },
        Some(Json::Number(JsonNumber::NegInt(n))) => Some(n),
        _ => None,
    }
}

/// `Value::as_bool`.
pub open spec fn as_bool(v: Option<Json>) -> Option<bool> {
    match v {
        Some(Json::Bool(b)) => Some(b),
        _ => None,
    }
}

/// `Value::as_array`.
pub open spec fn as_array(v: Option<Json>) -> Option<Seq<Json>> {
    match v {
        Some(Json::Array(a)) => Some(a@),
        _ => None,
    }
}

/// `Value::is_null` (an absent value is not null).
pub open spec fn is_null(v: Option<Json>) -> bool {
    v == Some(Json::Null)
}

/// Are the two string slices equal?
pub fn same_text(a: &str, b: &str) -> (r: bool)
    ensures
        r == (a@ == b@),
{
    let x = chars_of(a);
    let y = chars_of(b);
    if x.len() != y.len() {
        return false;
    }
    let mut i: usize = 0;
    while i < x.len()
        invariant
            x@.len() == y@.len(),
            x@ == a@,
            y@ == b@,
            i <= x@.len(),
            forall|j: int| 0 <= j < i ==> x@[j] == y@[j],
        decreases x@.len() - i,
    {
        if x[i] != y[i] {
            assert(x@[i as int] != y@[i as int]);
            return false;
        }
        i = i + 1;
    }
    assert(x@ =~= y@);
    true
}

impl Json {
    /// `Value::get(key)`.
    pub fn get(&self, key: &str) -> (r: Option<&Json>)
        ensures
            r is None <==> field(Some(*self), key@) is None,
            r matches Some(x) ==> field(Some(*self), key@) == Some(*x),
    {
        match self {
            Json::Object(ms) => {
                let mut i: usize = 0;
                assert(ms@.skip(0) =~= ms@);
                while i < ms.len()
                    invariant
                        i <= ms@.len(),
                        field(Some(*self), key@) == member(ms@, key@),
                        member(ms@, key@) == member(ms@.skip(i as int), key@),
                    decreases ms@.len() - i,
                {
                    assert(ms@.skip(i as int).drop_first() =~= ms@.skip(i + 1));
                    assert(ms@.skip(i as int)[0] == ms@[i as int]);
                    if same_text(ms[i].0.as_str(), key) {
                        return Some(&ms[i].1);
                    }
                    i = i + 1;
                }
                None
            },
            _ => None,
        }
    }

    /// `Value::as_str`.
    pub fn as_str(&self) -> (r: Option<&str>)
        ensures
            r is None <==> as_str(Some(*self)) is None,
            r matches Some(s) ==> as_str(Some(*self)) == Some(s@),
    {
        match self {
            Json::Str(s) => Some(s.as_str()),
            _ => None,
        }
    }

    /// `Value::as_u64`.
    pub fn as_u64(&self) -> (r: Option<u64>)
        ensures
            r == as_u64(Some(*self)),
    {
        match self {
            Json::Number(JsonNumber::PosInt(n)) => Some(*n),
            _ => None,
        }
    }

    /// `Value::as_i64`.
    pub fn as_i64(&self) -> (r: Option<i64>)
        ensures
            r == as_i64(Some(*self)),
    {
        match self {
            Json::Number(JsonNumber::PosInt(n)) => if *n <= 0x7fff_ffff_ffff_ffff {
                Some(*n as i64)
            } else {
                None
            },
            Json::Number(JsonNumber::NegInt(n)) => Some(*n),
            _ => None,
        }
    }

    /// `Value::as_bool`.
    pub fn as_bool(&self) -> (r: Option<bool>)
        ensures
            r == as_bool(Some(*self)),
    {
        match self {
            Json::Bool(b) => Some(*b),
            _ => None,
        }
    }

    /// `Value::as_array`.
    pub fn as_array(&self) -> (r: Option<&Vec<Json>>)
        ensures
            r is None <==> as_array(Some(*self)) is None,
            r matches Some(a) ==> as_array(Some(*self)) == Some(a@),
    {
        match self {
            Json::Array(a) => Some(a),
            _ => None,
        }
    }

    /// `Value::is_null`.
    pub fn is_null(&self) -> (r: bool)
        ensures
            r == is_null(Some(*self)),
    {
        match self {
            Json::Null => true,
            _ => false,
        }
    }
}

/// `Value::get` on an optional value (`and_then(|v| v.get(key))`).
pub fn get_in<'a>(v: Option<&'a Json>, key: &str) -> (r: Option<&'a Json>)
    ensures
        r is None <==> field(opt(v), key@) is None,
        r matches Some(x) ==> field(opt(v), key@) == Some(*x),
{
    match v {
        Some(j) => j.get(key),
        None => None,
    }
}

/// The value behind an optional reference.
pub open spec fn opt(v: Option<&Json>) -> Option<Json> {
    match v {
        Some(j) => Some(*j),
        None => None,
    }
}

/// `as_str` on an optional value.
pub fn str_in<'a>(v: Option<&'a Json>) -> (r: Option<&'a str>)
    ensures
        r is None <==> as_str(opt(v)) is None,
        r matches Some(s) ==> as_str(opt(v)) == Some(s@),
{
    match v {
        Some(j) => j.as_str(),
        None => None,
    }
}

/// `as_u64` on an optional value.
pub fn u64_in(v: Option<&Json>) -> (r: Option<u64>)
    ensures
        r == as_u64(opt(v)),
{
    match v {
        Some(j) => j.as_u64(),
        None => None,
    }
}

/// `as_i64` on an optional value.
pub fn i64_in(v: Option<&Json>) -> (r: Option<i64>)
    ensures
        r == as_i64(opt(v)),
{
    match v {
        Some(j) => j.as_i64(),
        None => None,
    }
}

/// `as_bool` on an optional value.
pub fn bool_in(v: Option<&Json>) -> (r: Option<bool>)
    ensures
        r == as_bool(opt(v)),
{
    match v {
        Some(j) => j.as_bool(),
        None => None,
    }
}

/// `as_array` on an optional value.
pub fn array_in<'a>(v: Option<&'a Json>) -> (r: Option<&'a Vec<Json>>)
    ensures
        r is None <==> as_array(opt(v)) is None,
        r matches Some(a) ==> as_array(opt(v)) == Some(a@),
{
    match v {
        Some(j) => j.as_array(),
        None => None,
    }
}

} // verus!
