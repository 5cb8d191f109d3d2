//! A JSON value as the news feed's answers hold it, and the reads the
//! service makes of it: a member of an object by key, text, and lists of
//! texts.
use vstd::prelude::*;

use crate::text::same_text;

verus! {

/// A JSON value. Numbers keep their text; object members keep their order.
#[derive(Debug, PartialEq)]
pub enum Json {
    Null,
    Bool(bool),
    Number(String),
    Str(String),
    Array(Vec<Json>),
    Object(Vec<(String, Json)>),
}

/// The value of the first member named `key`, if any.
pub open spec fn first_with_key(entries: Seq<(String, Json)>, key: Seq<char>) -> Option<Json>
    decreases entries.len(),
{
    if entries.len() == 0 {
        None
    } else if entries[0].0@ == key {
        Some(entries[0].1)
    } else {
        first_with_key(entries.drop_first(), key)
    }
}

/// The member `key` of an object; none for a missing member or a value that
/// is not an object (where indexing a JSON value gives `null`).
pub open spec fn field(j: Json, key: Seq<char>) -> Option<Json> {
    match j {
        Json::Object(entries) => first_with_key(entries@, key),
        _ => None,
    }
}

/// The text of a JSON string.
pub open spec fn json_text(j: Json) -> Option<Seq<char>> {
    match j {
        Json::Str(s) => Some(s@),
        _ => None,
    }
}

/// The text of member `key`, when it is a string.
pub open spec fn field_text(j: Json, key: Seq<char>) -> Option<Seq<char>> {
    match field(j, key) {
        Some(v) => json_text(v),
        None => None,
    }
}

/// The text of member `key`, or the empty text when it is not a string.
pub open spec fn text_or_empty(j: Json, key: Seq<char>) -> Seq<char> {
    match field_text(j, key) {
        Some(t) => t,
        None => Seq::empty(),
    }
}

/// Member `key` as a list of optional texts: for an array, the text of each
/// element that is a string and none for the others; the empty list when
/// the member is not an array.
pub open spec fn text_list(j: Json, key: Seq<char>) -> Seq<Option<Seq<char>>> {
    match field(j, key) {
        Some(Json::Array(items)) => items@.map_values(|x: Json| json_text(x)),
        _ => Seq::empty(),
    }
}

/// The texts of a list of optional strings.
pub open spec fn opt_strings_view(v: Seq<Option<String>>) -> Seq<Option<Seq<char>>> {
    v.map_values(
        |o: Option<String>|
            match o {
                Some(s) => Some(s@),
                None => None,
            },
    )
}

impl Json {
    /// The member `key` of an object.
    pub fn get(&self, key: &str) -> (r: Option<&Json>)
        ensures
            match r {
                Some(v) => field(*self, key@) == Some(*v),
                None => field(*self, key@) is None,
            },
    {
        match self {
            Json::Object(entries) => {
                let n = entries.len();
                let mut i: usize = 0;
                assert(entries@.skip(0) =~= entries@);
                while i < n
                    invariant
                        i <= n,
                        n == entries@.len(),
                        field(*self, key@) == first_with_key(entries@, key@),
                        first_with_key(entries@, key@) == first_with_key(
                            entries@.skip(i as int),
                            key@,
                        ),
                    decreases n - i,
                {
                    assert(entries@.skip(i as int).drop_first() =~= entries@.skip(i + 1));
                    assert(entries@.skip(i as int)[0] == entries@[i as int]);
                    if same_text(entries[i].0.as_str(), key) {
                        assert(first_with_key(entries@.skip(i as int), key@) == Some(
                            entries@[i as int].1,
                        ));
                        return Some(&entries[i].1);
                    }
                    i = i + 1;
                }
                None
            },
            _ => None,
        }
    }

    /// The member `key` of an object, taken out of the value.
    pub fn into_field(self, key: &str) -> (r: Option<Json>)
        ensures
            r == field(self, key@),
    {
        match self {
            Json::Object(mut entries) => {
                let ghost all = entries@;
                let n = entries.len();
                let mut i: usize = 0;
                assert(entries@.skip(0) =~= entries@);
                while i < n
                    invariant
                        i <= n,
                        n == entries@.len(),
                        entries@ == all,
                        field(self, key@) == first_with_key(all, key@),
                        first_with_key(all, key@) == first_with_key(all.skip(i as int), key@),
                    decreases n - i,
                {
                    assert(all.skip(i as int).drop_first() =~= all.skip(i + 1));
                    assert(all.skip(i as int)[0] == all[i as int]);
                    if same_text(entries[i].0.as_str(), key) {
                        assert(first_with_key(all.skip(i as int), key@) == Some(all[i as int].1));
                        let entry = entries.remove(i);
                        return Some(entry.1);
                    }
                    i = i + 1;
                }
                None
            },
            _ => None,
        }
    }

    /// The text, for a string.
    pub fn as_str(&self) -> (r: Option<&str>)
        ensures
            match r {
                Some(t) => json_text(*self) == Some(t@),
                None => json_text(*self) is None,
            },
    {
        match self {
            Json::Str(s) => Some(s.as_str()),
            _ => None,
        }
    }

    /// The elements, for an array.
    pub fn as_array(&self) -> (r: Option<&Vec<Json>>)
        ensures
            match r {
                Some(items) => *self == Json::Array(*items),
                None => !(*self is Array),
            },
    {
        match self {
            Json::Array(items) => Some(items),
            _ => None,
        }
    }
}

/// The text of member `key` when it is a string.
pub fn field_string(j: &Json, key: &str) -> (r: Option<String>)
    ensures
        match r {
            Some(s) => field_text(*j, key@) == Some(s@),
            None => field_text(*j, key@) is None,
        },
{
    match j.get(key) {
        Some(v) => match v.as_str() {
            Some(t) => Some(t.to_owned()),
            None => None,
        },
        None => None,
    }
}

/// The text of member `key`, or the empty text.
pub fn field_string_or_empty(j: &Json, key: &str) -> (r: String)
    ensures
        r@ == text_or_empty(*j, key@),
{
    match field_string(j, key) {
        Some(s) => s,
        None => String::new(),
    }
}

/// Member `key` as a list of optional texts.
pub fn field_text_list(j: &Json, key: &str) -> (r: Vec<Option<String>>)
    ensures
        opt_strings_view(r@) == text_list(*j, key@),
{
    let mut out: Vec<Option<String>> = Vec::new();
    match j.get(key) {
        Some(v) => match v.as_array() {
            Some(items) => {
                let n = items.len();
                let mut i: usize = 0;
                while i < n
                    invariant
                        i <= n,
                        n == items@.len(),
                        opt_strings_view(out@) == items@.take(i as int).map_values(
                            |x: Json| json_text(x),
                        ),
                    decreases n - i,
                {
                    let item: Option<String> = match items[i].as_str() {
                        Some(t) => Some(t.to_owned()),
                        None => None,
                    };
                    let ghost before = opt_strings_view(out@);
                    out.push(item);
                    proof {
                        assert(opt_strings_view(out@) =~= before.push(json_text(items@[i as int])));
                        assert(items@.take(i + 1).map_values(|x: Json| json_text(x))
                            =~= items@.take(i as int).map_values(|x: Json| json_text(x)).push(
                            json_text(items@[i as int]),
                        ));
                    }
                    i = i + 1;
                }
                assert(items@.take(n as int) =~= items@);
            },
            None => {
                assert(opt_strings_view(out@) =~= Seq::<Option<Seq<char>>>::empty());
            },
        },
        None => {
            assert(opt_strings_view(out@) =~= Seq::<Option<Seq<char>>>::empty());
        },
    }
    out
}

} // verus!
