use vstd::prelude::*;
use crate::text::same_text;

verus! {

/// A JSON value as the library reads it. Numbers are integers, or kept as
/// text where they have a fraction or exponent.
#[derive(Debug)]
pub enum Json {
    Null,
    Bool(bool),
    Integer(i128),
    Real(String),
    Str(String),
    Array(Vec<Json>),
    Object(Vec<(String, Json)>),
}

/// `j` is the first member of `f` named `key`.
pub open spec fn key_at(f: Seq<(String, Json)>, key: Seq<char>, j: int) -> bool {
    &&& 0 <= j < f.len()
    &&& f[j].0@ == key
    &&& forall|p: int| 0 <= p < j ==> f[p].0@ != key
}

/// The value of the first member of `f` named `key`, if any.
pub open spec fn member(f: Seq<(String, Json)>, key: Seq<char>) -> Option<Json> {
    if exists|j: int| key_at(f, key, j) {
        Some(f[choose|j: int| key_at(f, key, j)].1)
    } else {
        None
    }
}

/// The elements of an array value; empty for any other value.
pub open spec fn elements(j: Json) -> Seq<Json> {
    match j {
        Json::Array(a) => a@,
        _ => Seq::empty(),
    }
}

/// The members of an object value; empty for any other value.
pub open spec fn members(j: Json) -> Seq<(String, Json)> {
    match j {
        Json::Object(f) => f@,
        _ => Seq::empty(),
    }
}

/// The text of member `key` of object `j`, where that member is a string.
pub open spec fn str_member(j: Json, key: Seq<char>) -> Option<Seq<char>> {
    match j {
        Json::Object(f) => match member(f@, key) {
            Some(Json::Str(s)) => Some(s@),
            _ => None,
        },
        _ => None,
    }
}

/// The value of member `key` of object `j`, where that member is an integer.
pub open spec fn int_member(j: Json, key: Seq<char>) -> Option<int> {
    match j {
        Json::Object(f) => match member(f@, key) {
            Some(Json::Integer(n)) => Some(n as int),
            _ => None,
        },
        _ => None,
    }
}

/// An optional text, as a sequence of characters.
pub open spec fn opt_text(r: Option<String>) -> Option<Seq<char>> {
    match r {
        Some(s) => Some(s@),
        None => None,
    }
}

/// The value of the first member of `fields` named `key`.
pub fn get_member<'a>(fields: &'a Vec<(String, Json)>, key: &str) -> (r: Option<&'a Json>)
    ensures
        match r {
            Some(v) => member(fields@, key@) == Some(*v),
            None => member(fields@, key@) is None,
        },
{
    let n = fields.len();
    let mut i: usize = 0;
    while i < n
        invariant
            n == fields@.len(),
            i <= n,
            forall|p: int| 0 <= p < i ==> fields@[p].0@ != key@,
        decreases n - i,
    {
        if same_text(fields[i].0.as_str(), key) {
            proof {
                assert(key_at(fields@, key@, i as int));
                assert forall|j: int| key_at(fields@, key@, j) implies j == i by {
                    if j > i {
                        assert(fields@[i as int].0@ != key@);
                    }
                }
            }
            return Some(&fields[i].1);
        }
        i = i + 1;
    }
    None
}

/// The text of member `key` of object `j`, where that member is a string.
pub fn get_str_member(j: &Json, key: &str) -> (r: Option<String>)
    ensures
        opt_text(r) == str_member(*j, key@),
{
    match j {
        Json::Object(f) => match get_member(f, key) {
            Some(Json::Str(s)) => Some(s.clone()),
            _ => None,
        },
        _ => None,
    }
}

/// The value of member `key` of object `j`, where that member is an integer.
pub fn get_int_member(j: &Json, key: &str) -> (r: Option<i128>)
    ensures
        match r {
            Some(n) => int_member(*j, key@) == Some(n as int),
            None => int_member(*j, key@) is None,
        },
{
    match j {
        Json::Object(f) => match get_member(f, key) {
            Some(Json::Integer(n)) => Some(*n),
            _ => None,
        },
        _ => None,
    }
}

} // verus!
