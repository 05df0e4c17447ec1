//! The JSON data model that protocol messages are read into and written from.
//! Numbers keep their integer value where they have one; any other number
//! keeps its JSON text. Objects keep their members in order, and a lookup
//! finds the first member with the key.

use vstd::prelude::*;
use crate::text::{chars_eq, chars_of};

verus! {

/// A JSON value.
#[derive(Debug)]
pub enum JsonValue {
    Null,
    Bool(bool),
    /// A non-negative integer.
    Uint(u64),
    /// A negative integer.
    Int(i64),
    /// Any other number, in its JSON text.
    Float(String),
    Str(String),
    Array(Vec<JsonValue>),
    Object(Vec<(String, JsonValue)>),
}

/// The value of the first member of `entries` whose key is `key`.
pub open spec fn entries_get(entries: Seq<(String, JsonValue)>, key: Seq<char>) -> Option<
    JsonValue,
>
    decreases entries.len(),
{
    if entries.len() == 0 {
        None
    } else if entries[0].0@ == key {
        Some(entries[0].1)
    } else {
        entries_get(entries.drop_first(), key)
    }
}

/// Looking a key up after appending a member: an earlier member with the key
/// still wins; otherwise the appended member answers when its key matches.
pub broadcast proof fn lemma_entries_get_push(
    entries: Seq<(String, JsonValue)>,
    k: String,
    v: JsonValue,
    key: Seq<char>,
)
    ensures
        #[trigger] entries_get(entries.push((k, v)), key) == match entries_get(entries, key) {
            Some(x) => Some(x),
            None => if k@ == key {
                Some(v)
            } else {
                None
            },
        },
    decreases entries.len(),
{
    let pushed = entries.push((k, v));
    if entries.len() == 0 {
        assert(pushed.drop_first() =~= Seq::<(String, JsonValue)>::empty());
    } else {
        assert(pushed[0] == entries[0]);
        assert(pushed.drop_first() =~= entries.drop_first().push((k, v)));
        lemma_entries_get_push(entries.drop_first(), k, v, key);
    }
}

impl JsonValue {
    /// The member `key` of an object; `None` for a missing key or a non-object.
    pub open spec fn field(self, key: Seq<char>) -> Option<JsonValue> {
        match self {
            JsonValue::Object(entries) => entries_get(entries@, key),
            _ => None,
        }
    }

    /// The characters of a string value.
    pub open spec fn str_of(self) -> Option<Seq<char>> {
        match self {
            JsonValue::Str(s) => Some(s@),
            _ => None,
        }
    }

    /// The value of an integer that fits in `u64`.
    pub open spec fn u64_of(self) -> Option<u64> {
        match self {
            JsonValue::Uint(n) => Some(n),
            JsonValue::Int(i) => if i >= 0 {
                Some(i as u64)
            } else {
                None
            },
            _ => None,
        }
    }

    /// The value of an integer that fits in `i64`.
    pub open spec fn i64_of(self) -> Option<i64> {
        match self {
            JsonValue::Uint(n) => if n <= i64::MAX {
                Some(n as i64)
            } else {
                None
            },
            JsonValue::Int(i) => Some(i),
            _ => None,
        }
    }

    /// The value of a boolean.
    pub open spec fn bool_of(self) -> Option<bool> {
        match self {
            JsonValue::Bool(b) => Some(b),
            _ => None,
        }
    }

    /// The elements of an array.
    pub open spec fn array_of(self) -> Option<Seq<JsonValue>> {
        match self {
            JsonValue::Array(v) => Some(v@),
            _ => None,
        }
    }

    /// The member `key` of an object.
    pub fn get(&self, key: &str) -> (r: Option<&JsonValue>)
        ensures
            match r {
                Some(v) => self.field(key@) == Some(*v),
                None => self.field(key@) is None,
            },
    {
        match self {
            JsonValue::Object(entries) => {
                let k = chars_of(key);
                let mut i: usize = 0;
                assert(entries@.subrange(0, entries@.len() as int) =~= entries@);
                while i < entries.len()
                    invariant
                        i <= entries@.len(),
                        k@ == key@,
                        self.field(key@) == entries_get(entries@, key@),
                        entries_get(entries@, key@) == entries_get(
                            entries@.subrange(i as int, entries@.len() as int),
                            key@,
                        ),
                    decreases entries@.len() - i,
                {
                    let ghost rest = entries@.subrange(i as int, entries@.len() as int);
                    assert(rest.drop_first() =~= entries@.subrange(
                        i + 1,
                        entries@.len() as int,
                    ));
                    let name = chars_of(entries[i].0.as_str());
                    assert(rest[0] == entries@[i as int]);
                    if chars_eq(&name, &k) {
                        assert(entries_get(rest, key@) == Some(rest[0].1));
                        return Some(&entries[i].1);
                    }
                    i += 1;
                }
                None
            },
            _ => None,
        }
    }

    /// The characters of a string value.
    pub fn as_str(&self) -> (r: Option<&String>)
        ensures
            match r {
                Some(s) => self.str_of() == Some(s@),
                None => self.str_of() is None,
            },
    {
        match self {
            JsonValue::Str(s) => Some(s),
            _ => None,
        }
    }

    /// The value of an integer that fits in `u64`.
    pub fn as_u64(&self) -> (r: Option<u64>)
        ensures
            r == self.u64_of(),
    {
        match self {
            JsonValue::Uint(n) => Some(*n),
            JsonValue::Int(i) => if *i >= 0 {
                Some(*i as u64)
            } else {
                None
            },
            _ => None,
        }
    }

    /// The value of an integer that fits in `i64`.
    pub fn as_i64(&self) -> (r: Option<i64>)
        ensures
            r == self.i64_of(),
    {
        match self {
            JsonValue::Uint(n) => if *n <= i64::MAX as u64 {
                Some(*n as i64)
            } else {
                None
            },
            JsonValue::Int(i) => Some(*i),
            _ => None,
        }
    }

    /// The value of a boolean.
    pub fn as_bool(&self) -> (r: Option<bool>)
        ensures
            r == self.bool_of(),
    {
        match self {
            JsonValue::Bool(b) => Some(*b),
            _ => None,
        }
    }

    /// The elements of an array.
    pub fn as_array(&self) -> (r: Option<&Vec<JsonValue>>)
        ensures
            match r {
                Some(v) => self.array_of() == Some(v@),
                None => self.array_of() is None,
            },
    {
        match self {
            JsonValue::Array(v) => Some(v),
            _ => None,
        }
    }

    /// Whether this is `null`.
    pub fn is_null(&self) -> (r: bool)
        ensures
            r == (*self is Null),
    {
        match self {
            JsonValue::Null => true,
            _ => false,
        }
    }

    /// The member `key` of an object, moved out of it.
    pub fn take(self, key: &str) -> (r: Option<JsonValue>)
        ensures
            r == self.field(key@),
    {
        match self {
            JsonValue::Object(mut entries) => {
                let k = chars_of(key);
                let ghost all = entries@;
                let mut i: usize = 0;
                assert(entries@.subrange(0, entries@.len() as int) =~= entries@);
                while i < entries.len()
                    invariant
                        i <= entries@.len(),
                        k@ == key@,
                        entries@ == all,
                        self.field(key@) == entries_get(all, key@),
                        entries_get(all, key@) == entries_get(
                            entries@.subrange(i as int, entries@.len() as int),
                            key@,
                        ),
                    decreases entries@.len() - i,
                {
                    let ghost rest = entries@.subrange(i as int, entries@.len() as int);
                    assert(rest.drop_first() =~= entries@.subrange(
                        i + 1,
                        entries@.len() as int,
                    ));
                    let name = chars_of(entries[i].0.as_str());
                    assert(rest[0] == entries@[i as int]);
                    if chars_eq(&name, &k) {
                        assert(entries_get(rest, key@) == Some(rest[0].1));
                        let (_, v) = entries.swap_remove(i);
                        return Some(v);
                    }
                    i += 1;
                }
                None
            },
            _ => None,
        }
    }

    /// A string value holding the characters of `s`.
    pub fn from_str(s: &str) -> (r: JsonValue)
        ensures
            r.str_of() == Some(s@),
    {
        JsonValue::Str(String::from_str(s))
    }
}

/// An object member `key: value`.
pub fn member(key: &str, value: JsonValue) -> (r: (String, JsonValue))
    ensures
        r.0@ == key@,
        r.1 == value,
{
    (String::from_str(key), value)
}

} // verus!
