//! The library's model of a JSON document. Numbers are carried as text, so no
//! floating-point value is ever held or interpreted; provider request bodies
//! are built as values of this type and provider responses are read through
//! it.
use vstd::prelude::*;

use crate::textutil::str_eq;

verus! {

/// A JSON document.
#[derive(Debug)]
pub enum Json {
    Null,
    Bool(bool),
    /// A number, held as text: the text it was built from, or, for a parsed
    /// document, the decimal rendering the parser gives it (which need not be
    /// the input's spelling).
    Num(String),
    Str(String),
    Arr(Vec<Json>),
    Obj(Vec<(String, Json)>),
}

/// The first entry of `entries` whose key reads `key`, if any.
pub open spec fn entry_lookup(entries: Seq<(String, Json)>, key: Seq<char>) -> Option<Json>
    decreases entries.len(),
{
    if entries.len() == 0 {
        None
    } else if entries[0].0@ == key {
        Some(entries[0].1)
    } else {
        entry_lookup(entries.drop_first(), key)
    }
}

/// The member of object `j` named `key`: `None` where `j` is no object or
/// has no such member.
pub open spec fn spec_get(j: Json, key: Seq<char>) -> Option<Json> {
    match j {
        Json::Obj(entries) => entry_lookup(entries@, key),
        _ => None,
    }
}

/// Element `i` of array `j`: `None` where `j` is no array or is too short.
pub open spec fn spec_at(j: Json, i: int) -> Option<Json> {
    match j {
        Json::Arr(items) => if 0 <= i < items@.len() {
            Some(items@[i])
        } else {
            None
        },
        _ => None,
    }
}

/// The characters of `j` where `j` is a string, else `None`.
pub open spec fn spec_str(j: Json) -> Option<Seq<char>> {
    match j {
        Json::Str(s) => Some(s@),
        _ => None,
    }
}

/// `spec_get` carried through an optional document.
pub open spec fn opt_get(o: Option<Json>, key: Seq<char>) -> Option<Json> {
    match o {
        Some(j) => spec_get(j, key),
        None => None,
    }
}

/// `spec_at` carried through an optional document.
pub open spec fn opt_at(o: Option<Json>, i: int) -> Option<Json> {
    match o {
        Some(j) => spec_at(j, i),
        None => None,
    }
}

/// `spec_str` carried through an optional document.
pub open spec fn opt_str(o: Option<Json>) -> Option<Seq<char>> {
    match o {
        Some(j) => spec_str(j),
        None => None,
    }
}

impl Json {
    /// The member named `key`, where this document is an object that has one.
    pub fn get<'a>(&'a self, key: &str) -> (r: Option<&'a Json>)
        ensures
            match r {
                Some(v) => spec_get(*self, key@) == Some(*v),
                None => spec_get(*self, key@) is None,
            },
    {
        match self {
            Json::Obj(entries) => {
                let n = entries.len();
                let mut i: usize = 0;
                proof {
                    assert(entries@.skip(0) =~= entries@);
                }
                while i < n
                    invariant
                        *self == Json::Obj(*entries),
                        n == entries@.len(),
                        i <= n,
                        entry_lookup(entries@, key@) == entry_lookup(
                            entries@.skip(i as int),
                            key@,
                        ),
                    decreases n - i,
                {
                    if str_eq(entries[i].0.as_str(), key) {
                        proof {
                            assert(entries@.skip(i as int)[0] == entries@[i as int]);
                            assert(entry_lookup(entries@.skip(i as int), key@) == Some(
                                entries@[i as int].1,
                            ));
                            assert(spec_get(*self, key@) == entry_lookup(entries@, key@));
                        }
                        return Some(&entries[i].1);
                    }
                    proof {
                        assert(entries@.skip(i as int).drop_first() =~= entries@.skip(
                            i + 1 as int,
                        ));
                        assert(entries@.skip(i as int)[0] == entries@[i as int]);
                    }
                    i = i + 1;
                }
                proof {
                    assert(entries@.skip(n as int) =~= Seq::<(String, Json)>::empty());
                }
                None
            },
            _ => None,
        }
    }

    /// Element `i`, where this document is an array of more than `i` elements.
    pub fn at<'a>(&'a self, i: usize) -> (r: Option<&'a Json>)
        ensures
            match r {
                Some(v) => spec_at(*self, i as int) == Some(*v),
                None => spec_at(*self, i as int) is None,
            },
    {
        match self {
            Json::Arr(items) => {
                if i < items.len() {
                    Some(&items[i])
                } else {
                    None
                }
            },
            _ => None,
        }
    }

    /// The held string, where this document is a string.
    pub fn as_text<'a>(&'a self) -> (r: Option<&'a String>)
        ensures
            match r {
                Some(s) => spec_str(*self) == Some(s@),
                None => spec_str(*self) is None,
            },
    {
        match self {
            Json::Str(s) => Some(s),
            _ => None,
        }
    }
}

/// What `serde_json::from_str::<serde_json::Value>` yields on a given text,
/// carried over to this library's tree: `None` where the text is not valid
/// JSON, otherwise the parsed document, with each number rendered back to
/// decimal text and object keys in serde_json's (sorted, duplicate-free)
/// order.
pub uninterp spec fn parsed_json(s: Seq<char>) -> Option<Json>;

#[verifier::external_type_specification]
#[verifier::external_body]
pub struct ExSerdeValue(serde_json::Value);

impl Json {
    /// Relies on the shape of `serde_json::Value`: each of its six variants is
    /// carried to the corresponding variant here, one for one; a number is
    /// rendered to its decimal text. Only `parse_json` below calls this.
    #[verifier::external_body]
    fn of_value(v: serde_json::Value) -> Json {
        match v {
            serde_json::Value::Null => Json::Null,
            serde_json::Value::Bool(b) => Json::Bool(b),
            serde_json::Value::Number(n) => Json::Num(n.to_string()),
            serde_json::Value::String(s) => Json::Str(s),
            serde_json::Value::Array(a) => Json::Arr(a.into_iter().map(Json::of_value).collect()),
            serde_json::Value::Object(o) => Json::Obj(
                o.into_iter().map(|(k, x)| (k, Json::of_value(x))).collect(),
            ),
        }
    }
}

/// Relies on `serde_json::from_str`: parsing is a function of the text alone,
/// and a text that is not valid JSON is refused.
#[verifier::external_body]
pub fn parse_json(s: &str) -> (r: Option<Json>)
    ensures
        r == parsed_json(s@),
{
    match serde_json::from_str::<serde_json::Value>(s) {
        Ok(v) => Some(Json::of_value(v)),
        Err(_) => None,
    }
}

} // verus!
