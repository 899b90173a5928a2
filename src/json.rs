//! A plain model of the JSON documents that the upstream catalogue returns.

use vstd::prelude::*;
use vstd::string::*;

verus! {

/// A JSON value. A number is kept as its integral value when it has one that
/// fits in `i64`, and as `Number(None)` otherwise.
#[derive(Debug)]
pub enum Json {
    Null,
    Bool(bool),
    Number(Option<i64>),
    Str(String),
    Array(Vec<Json>),
    Object(Vec<(String, Json)>),
}

/// The value stored under `key` among `entries`; the first one counts.
pub open spec fn member(entries: Seq<(String, Json)>, key: Seq<char>) -> Option<Json>
    decreases entries.len(),
{
    if entries.len() == 0 {
        None
    } else if entries[0].0@ == key {
        Some(entries[0].1)
    } else {
        member(entries.drop_first(), key)
    }
}

/// The member `key` of an object; nothing for any other value.
pub open spec fn lookup(j: Json, key: Seq<char>) -> Option<Json> {
    match j {
        Json::Object(entries) => member(entries@, key),
        _ => None,
    }
}

/// The member `key` of an object, `Null` where there is none.
pub open spec fn index(j: Json, key: Seq<char>) -> Json {
    match lookup(j, key) {
        Some(v) => v,
        None => Json::Null,
    }
}

/// The characters of a string value.
pub open spec fn as_text(j: Json) -> Option<Seq<char>> {
    match j {
        Json::Str(s) => Some(s@),
        _ => None,
    }
}

/// The integral value of a number.
pub open spec fn as_int(j: Json) -> Option<i64> {
    match j {
        Json::Number(Some(v)) => Some(v),
        _ => None,
    }
}

/// The characters of a string value, empty for any other value.
pub open spec fn text_or_empty(j: Json) -> Seq<char> {
    match as_text(j) {
        Some(s) => s,
        None => Seq::empty(),
    }
}

/// The integral value of a number, zero for any other value.
pub open spec fn int_or_zero_of(j: Json) -> i64 {
    match as_int(j) {
        Some(v) => v,
        None => 0,
    }
}

impl Json {
    /// The member `key` of an object.
    pub fn get(&self, key: &str) -> (r: Option<&Json>)
        ensures
            r matches Some(v) ==> lookup(*self, key@) == Some(*v),
            r is None ==> lookup(*self, key@) is None,
    {
        match self {
            Json::Object(entries) => {
                let mut i: usize = 0;
                assert(entries@.skip(0) =~= entries@);
                while i < entries.len()
                    invariant
                        i <= entries@.len(),
                        lookup(*self, key@) == member(entries@, key@),
                        member(entries@, key@) == member(entries@.skip(i as int), key@),
                    decreases entries.len() - i,
                {
                    assert(entries@.skip(i as int).drop_first() =~= entries@.skip(i + 1));
                    assert(entries@.skip(i as int)[0] == entries@[i as int]);
                    let entry = &entries[i];
                    if crate::text::str_eq(entry.0.as_str(), key) {
                        assert(entries@.skip(i as int)[0].0@ == key@);
                        return Some(&entry.1);
                    }
                    i = i + 1;
                }
                None
            },
            _ => None,
        }
    }

    /// The characters of a string value.
    pub fn as_str(&self) -> (r: Option<&str>)
        ensures
            r matches Some(s) ==> as_text(*self) == Some(s@),
            r is None ==> as_text(*self) is None,
    {
        match self {
            Json::Str(s) => Some(s.as_str()),
            _ => None,
        }
    }

    /// The integral value of a number.
    pub fn as_i64(&self) -> (r: Option<i64>)
        ensures
            r == as_int(*self),
    {
        match self {
            Json::Number(v) => *v,
            _ => None,
        }
    }

    /// The member `key` as a string, empty where it is missing or no string.
    pub fn text_at(&self, key: &str) -> (r: &str)
        ensures
            r@ == text_or_empty(index(*self, key@)),
    {
        proof {
            reveal_strlit("");
        }
        match self.get(key) {
            Some(v) => match v.as_str() {
                Some(s) => s,
                None => "",
            },
            None => "",
        }
    }

    /// The member `inner` of the member `outer` as a string, empty where
    /// either is missing or the value is no string.
    pub fn text_at2(&self, outer: &str, inner: &str) -> (r: &str)
        ensures
            r@ == text_or_empty(index(index(*self, outer@), inner@)),
    {
        proof {
            reveal_strlit("");
        }
        match self.get(outer) {
            Some(o) => o.text_at(inner),
            None => "",
        }
    }

    /// The member `key` as an integer, zero where it is missing or no
    /// integral number.
    pub fn int_at(&self, key: &str) -> (r: i64)
        ensures
            r == int_or_zero_of(index(*self, key@)),
    {
        match self.get(key) {
            Some(v) => match v.as_i64() {
                Some(n) => n,
                None => 0,
            },
            None => 0,
        }
    }

    /// The member `inner` of the member `outer` as an integer, zero where
    /// either is missing or the value is no integral number.
    pub fn int_at2(&self, outer: &str, inner: &str) -> (r: i64)
        ensures
            r == int_or_zero_of(index(index(*self, outer@), inner@)),
    {
        match self.get(outer) {
            Some(o) => o.int_at(inner),
            None => 0,
        }
    }
}

} // verus!
