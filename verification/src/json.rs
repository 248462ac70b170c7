//! A plain-value model of a JSON document, as read by the audit and schema
//! logic (the network and file layers convert `serde_json::Value` into it).

use vstd::prelude::*;
use crate::text::{chars_eq, chars_of};

verus! {

/// A JSON value. Object members keep their document order; numbers keep
/// their textual form, since no logic of the crate computes with them.
#[derive(Debug)]
pub enum Json {
    Null,
    Bool(bool),
    Number(String),
    Str(String),
    Array(Vec<Json>),
    Object(Vec<(String, Json)>),
}

/// The value stored under `key` among object members (the first member with
/// that name).
pub open spec fn lookup(members: Seq<(String, Json)>, key: Seq<char>) -> Option<Json>
    decreases members.len(),
{
    if members.len() == 0 {
        None
    } else if members[0].0@ == key {
        Some(members[0].1)
    } else {
        lookup(members.drop_first(), key)
    }
}

/// `Value::get(key)`: the member `key` of an object; `None` for other values.
pub open spec fn get(j: Json, key: Seq<char>) -> Option<Json> {
    match j {
        Json::Object(members) => lookup(members@, key),
        _ => None,
    }
}

/// The number of members of an object; `None` for other values.
pub open spec fn member_count(j: Json) -> Option<nat> {
    match j {
        Json::Object(members) => Some(members@.len()),
        _ => None,
    }
}

/// `Value::as_str`.
pub open spec fn as_str(j: Json) -> Option<Seq<char>> {
    match j {
        Json::Str(s) => Some(s@),
        _ => None,
    }
}

/// `Value::as_array`.
pub open spec fn as_array(j: Json) -> Option<Seq<Json>> {
    match j {
        Json::Array(v) => Some(v@),
        _ => None,
    }
}

/// `value.get(key).and_then(|v| v.as_str())`.
pub open spec fn get_str(j: Json, key: Seq<char>) -> Option<Seq<char>> {
    match get(j, key) {
        Some(v) => as_str(v),
        None => None,
    }
}

/// `value.get(key).and_then(|v| v.as_array())`.
pub open spec fn get_array(j: Json, key: Seq<char>) -> Option<Seq<Json>> {
    match get(j, key) {
        Some(v) => as_array(v),
        None => None,
    }
}

/// The member `key` of an object.
pub fn json_get<'a>(j: &'a Json, key: &str) -> (r: Option<&'a Json>)
    ensures
        match r {
            Some(v) => get(*j, key@) == Some(*v),
            None => get(*j, key@) is None,
        },
{
    match j {
        Json::Object(members) => {
            let k = chars_of(key);
            let mut i: usize = 0;
            assert(members@.skip(0) =~= members@);
            while i < members.len()
                invariant
                    0 <= i <= members.len(),
                    k@ == key@,
                    get(*j, key@) == lookup(members@, key@),
                    lookup(members@, key@) == lookup(members@.skip(i as int), key@),
                decreases members.len() - i,
            {
                let name = chars_of(members[i].0.as_str());
                assert(members@.skip(i as int).drop_first() =~= members@.skip(i + 1));
                assert(members@.skip(i as int)[0] == members@[i as int]);
                if chars_eq(name.as_slice(), k.as_slice()) {
                    assert(members@.skip(i as int)[0].0@ == key@);
                    assert(lookup(members@.skip(i as int), key@) == Some(members@[i as int].1));
                    return Some(&members[i].1);
                }
                i = i + 1;
            }
            None
        },
        _ => None,
    }
}

/// The string held by a JSON string value.
pub fn json_as_str(j: &Json) -> (r: Option<&str>)
    ensures
        match r {
            Some(s) => as_str(*j) == Some(s@),
            None => as_str(*j) is None,
        },
{
    match j {
        Json::Str(s) => Some(s.as_str()),
        _ => None,
    }
}

/// The elements of a JSON array value.
pub fn json_as_array(j: &Json) -> (r: Option<&Vec<Json>>)
    ensures
        match r {
            Some(v) => as_array(*j) == Some(v@),
            None => as_array(*j) is None,
        },
{
    match j {
        Json::Array(v) => Some(v),
        _ => None,
    }
}

/// `value.get(key).and_then(|v| v.as_str())`.
pub fn json_get_str<'a>(j: &'a Json, key: &str) -> (r: Option<&'a str>)
    ensures
        match r {
            Some(s) => get_str(*j, key@) == Some(s@),
            None => get_str(*j, key@) is None,
        },
{
    match json_get(j, key) {
        Some(v) => json_as_str(v),
        None => None,
    }
}

/// `value.get(key).and_then(|v| v.as_array())`.
pub fn json_get_array<'a>(j: &'a Json, key: &str) -> (r: Option<&'a Vec<Json>>)
    ensures
        match r {
            Some(v) => get_array(*j, key@) == Some(v@),
            None => get_array(*j, key@) is None,
        },
{
    match json_get(j, key) {
        Some(v) => json_as_array(v),
        None => None,
    }
}


/// An object member: `key` and its value.
pub fn member(key: &str, value: Json) -> (r: (String, Json))
    ensures
        r.0@ == key@,
        r.1 == value,
{
    (String::from_str(key), value)
}

/// Keys of different lengths, or with different first characters, differ.
pub proof fn lemma_keys_differ(a: Seq<char>, b: Seq<char>)
    requires
        a.len() != b.len() || (a.len() > 0 && b.len() > 0 && a[0] != b[0]),
    ensures
        a != b,
{
}

/// Looking up the key of member `k`, which no earlier member has, finds
/// member `k`'s value.
pub proof fn lemma_lookup_at(members: Seq<(String, Json)>, key: Seq<char>, k: int)
    requires
        0 <= k < members.len(),
        members[k].0@ == key,
        forall|j: int| 0 <= j < k ==> (#[trigger] members[j]).0@ != key,
    ensures
        lookup(members, key) == Some(members[k].1),
    decreases k,
{
    if k > 0 {
        assert forall|j: int| 0 <= j < k - 1 implies (#[trigger] members.drop_first()[j]).0@ != key by {
            assert(members.drop_first()[j] == members[j + 1]);
        }
        lemma_lookup_at(members.drop_first(), key, k - 1);
    }
}

} // verus!
