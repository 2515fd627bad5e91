//! JSON values as the library reads them, and the lookups it makes in them
//! (`value[key]`, `value[index]`, `value.as_str()`, where a missing member or a
//! value of another kind reads as `null`).
use vstd::prelude::*;

verus! {

/// A JSON value. Numbers keep their text; an object keeps its members in order,
/// each key once.
#[derive(Debug)]
pub enum Json {
    Null,
    Bool(bool),
    Number(String),
    Text(String),
    Array(Vec<Json>),
    Object(Vec<(String, Json)>),
}

/// The member `key` of the members, `null` when there is none.
pub open spec fn member(entries: Seq<(String, Json)>, key: Seq<char>) -> Json
    decreases entries.len(),
{
    if entries.len() == 0 {
        Json::Null
    } else if entries[0].0@ == key {
        entries[0].1
    } else {
        member(entries.drop_first(), key)
    }
}

/// `j[key]`: the member of an object, `null` otherwise.
pub open spec fn field(j: Json, key: Seq<char>) -> Json {
    match j {
        Json::Object(entries) => member(entries@, key),
        _ => Json::Null,
    }
}

/// `j[i]`: the element of an array, `null` otherwise.
pub open spec fn element(j: Json, i: int) -> Json {
    match j {
        Json::Array(items) => if 0 <= i < items.len() { items@[i] } else { Json::Null },
        _ => Json::Null,
    }
}

/// `j.as_str()`.
pub open spec fn as_text(j: Json) -> Option<Seq<char>> {
    match j {
        Json::Text(s) => Some(s@),
        _ => None,
    }
}

/// What an optional reference stands for: `null` when there is none.
pub open spec fn or_null(j: Option<&Json>) -> Json {
    match j {
        Some(v) => *v,
        None => Json::Null,
    }
}

/// `j[key]` (a missing member as `None`).
pub fn get_field<'a>(j: Option<&'a Json>, key: &str) -> (r: Option<&'a Json>)
    ensures
        or_null(r) == field(or_null(j), key@),
{
    match j {
        Some(Json::Object(entries)) => {
            let mut i: usize = 0;
            assert(entries@.skip(0) =~= entries@);
            assert(field(or_null(j), key@) == member(entries@, key@));
            while i < entries.len()
                invariant
                    i <= entries.len(),
                    field(or_null(j), key@) == member(entries@, key@),
                    member(entries@, key@) == member(entries@.skip(i as int), key@),
                decreases entries.len() - i,
            {
                assert(entries@.skip(i as int).drop_first() =~= entries@.skip(i + 1));
                if crate::text::str_eq(entries[i].0.as_str(), key) {
                    assert(entries@.skip(i as int)[0] == entries@[i as int]);
                    return Some(&entries[i].1);
                }
                i += 1;
            }
            assert(entries@.skip(i as int) =~= Seq::<(String, Json)>::empty());
            None
        },
        _ => None,
    }
}

/// `j[index]` (a missing element as `None`).
pub fn get_element<'a>(j: Option<&'a Json>, index: usize) -> (r: Option<&'a Json>)
    ensures
        or_null(r) == element(or_null(j), index as int),
{
    match j {
        Some(Json::Array(items)) => {
            if index < items.len() {
                Some(&items[index])
            } else {
                None
            }
        },
        _ => None,
    }
}

/// `j.as_str()`, as an owned string.
pub fn text_of(j: Option<&Json>) -> (r: Option<String>)
    ensures
        match as_text(or_null(j)) {
            Some(s) => r matches Some(x) && x@ == s,
            None => r is None,
        },
{
    match j {
        Some(Json::Text(s)) => Some(s.clone()),
        _ => None,
    }
}

} // verus!
