//! The JSON values that the projector reads, and path access into them.

use vstd::prelude::*;
use crate::text::str_eq;

verus! {

#[verifier::external_type_specification]
#[verifier::external_body]
pub struct ExJsonValue(serde_json::Value);

#[verifier::external_type_specification]
#[verifier::external_body]
pub struct ExJsonError(serde_json::Error);

/// A JSON value. A number keeps the text that serde_json prints for it; an
/// object keeps its members in the order in which serde_json's map yields
/// them.
pub enum Json {
    Null,
    Bool(bool),
    Number(String),
    Str(String),
    Array(Vec<Json>),
    Object(Vec<(String, Json)>),
}

/// The value that serde_json reads from the text `s`, if `s` is one JSON
/// document.
pub uninterp spec fn json_of(s: Seq<char>) -> Option<Json>;

/// Moves a serde_json value into a `Json`, variant by variant.
#[verifier::external_body]
fn json_from_value(v: &serde_json::Value) -> Json {
    match v {
        serde_json::Value::Null => Json::Null,
        serde_json::Value::Bool(b) => Json::Bool(*b),
        serde_json::Value::Number(n) => Json::Number(n.to_string()),
        serde_json::Value::String(s) => Json::Str(s.clone()),
        serde_json::Value::Array(a) => Json::Array(a.iter().map(json_from_value).collect()),
        serde_json::Value::Object(o) => Json::Object(
            o.iter().map(|(k, x)| (k.clone(), json_from_value(x))).collect(),
        ),
    }
}

/// Relies on serde_json::from_str: it parses `s` as one JSON document, and
/// what it reads depends on the text alone.
#[verifier::external_body]
pub fn parse_json(s: &str) -> (r: Result<Json, serde_json::Error>)
    ensures
        match r {
            Ok(j) => json_of(s@) == Some(j),
            Err(_) => json_of(s@) is None,
        },
{
    match serde_json::from_str::<serde_json::Value>(s) {
        Ok(v) => Ok(json_from_value(&v)),
        Err(e) => Err(e),
    }
}

pub open spec fn deref_json(o: Option<&Json>) -> Option<Json> {
    match o {
        Some(x) => Some(*x),
        None => None,
    }
}

/// The value of the first member of `m` named `key`.
pub open spec fn lookup(m: Seq<(String, Json)>, key: Seq<char>) -> Option<Json>
    decreases m.len(),
{
    if m.len() == 0 {
        None
    } else if m[0].0@ == key {
        Some(m[0].1)
    } else {
        lookup(m.drop_first(), key)
    }
}

/// The member `key` of `j`, where `j` is an object.
pub open spec fn field(j: Option<Json>, key: Seq<char>) -> Option<Json> {
    match j {
        Some(Json::Object(m)) => lookup(m@, key),
        _ => None,
    }
}

/// The element `i` of `j`, where `j` is an array.
pub open spec fn element(j: Option<Json>, i: int) -> Option<Json> {
    match j {
        Some(Json::Array(a)) => if 0 <= i < a@.len() { Some(a@[i]) } else { None },
        _ => None,
    }
}

/// The elements of `j`, where `j` is an array.
pub open spec fn items(j: Option<Json>) -> Option<Seq<Json>> {
    match j {
        Some(Json::Array(a)) => Some(a@),
        _ => None,
    }
}

/// The members of `j`, where `j` is an object.
pub open spec fn members(j: Option<Json>) -> Option<Seq<(String, Json)>> {
    match j {
        Some(Json::Object(m)) => Some(m@),
        _ => None,
    }
}

/// The characters of `j`, where `j` is a string.
pub open spec fn text(j: Option<Json>) -> Option<Seq<char>> {
    match j {
        Some(Json::Str(s)) => Some(s@),
        _ => None,
    }
}

/// The printed number `j`, where `j` is a number.
pub open spec fn number(j: Option<Json>) -> Option<Seq<char>> {
    match j {
        Some(Json::Number(s)) => Some(s@),
        _ => None,
    }
}

pub open spec fn is_object(j: Option<Json>) -> bool {
    j matches Some(Json::Object(_))
}

/// The member `key` of `j`, where `j` is an object.
pub fn get<'a>(j: Option<&'a Json>, key: &str) -> (r: Option<&'a Json>)
    ensures
        deref_json(r) == field(deref_json(j), key@),
{
    match j {
        Some(Json::Object(m)) => {
            let mut i: usize = 0;
            assert(m@.subrange(0, m@.len() as int) =~= m@);
            while i < m.len()
                invariant
                    i <= m@.len(),
                    field(deref_json(j), key@) == lookup(m@, key@),
                    lookup(m@, key@) == lookup(m@.subrange(i as int, m@.len() as int), key@),
                decreases m@.len() - i,
            {
                assert(m@.subrange(i as int, m@.len() as int).drop_first() =~= m@.subrange(
                    i + 1,
                    m@.len() as int,
                ));
                assert(m@.subrange(i as int, m@.len() as int)[0] == m@[i as int]);
                let entry = &m[i];
                if str_eq(entry.0.as_str(), key) {
                    return Some(&entry.1);
                }
                i = i + 1;
            }
            None
        },
        _ => None,
    }
}

/// The element `i` of `j`, where `j` is an array.
pub fn at<'a>(j: Option<&'a Json>, i: usize) -> (r: Option<&'a Json>)
    ensures
        deref_json(r) == element(deref_json(j), i as int),
{
    match j {
        Some(Json::Array(a)) => {
            if i < a.len() {
                Some(&a[i])
            } else {
                None
            }
        },
        _ => None,
    }
}

/// The elements of `j`, where `j` is an array.
pub fn items_of<'a>(j: Option<&'a Json>) -> (r: Option<&'a Vec<Json>>)
    ensures
        match r {
            Some(v) => items(deref_json(j)) == Some(v@),
            None => items(deref_json(j)) is None,
        },
{
    match j {
        Some(Json::Array(a)) => Some(a),
        _ => None,
    }
}

/// The members of `j`, where `j` is an object.
pub fn members_of<'a>(j: Option<&'a Json>) -> (r: Option<&'a Vec<(String, Json)>>)
    ensures
        match r {
            Some(v) => members(deref_json(j)) == Some(v@),
            None => members(deref_json(j)) is None,
        },
{
    match j {
        Some(Json::Object(m)) => Some(m),
        _ => None,
    }
}

/// The string `j`.
pub fn text_of<'a>(j: Option<&'a Json>) -> (r: Option<&'a String>)
    ensures
        match r {
            Some(s) => text(deref_json(j)) == Some(s@),
            None => text(deref_json(j)) is None,
        },
{
    match j {
        Some(Json::Str(s)) => Some(s),
        _ => None,
    }
}

/// The printed number `j`.
pub fn number_of<'a>(j: Option<&'a Json>) -> (r: Option<&'a String>)
    ensures
        match r {
            Some(s) => number(deref_json(j)) == Some(s@),
            None => number(deref_json(j)) is None,
        },
{
    match j {
        Some(Json::Number(s)) => Some(s),
        _ => None,
    }
}

/// Whether `j` is an object.
pub fn is_object_json(j: Option<&Json>) -> (r: bool)
    ensures
        r == is_object(deref_json(j)),
{
    match j {
        Some(Json::Object(_)) => true,
        _ => false,
    }
}

} // verus!
