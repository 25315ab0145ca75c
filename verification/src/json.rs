use vstd::prelude::*;

use crate::text::str_eq;

verus! {

// ---------------------------------------------------------------------------
// A plain model of JSON values.  Documents arrive as trees of this type;
// an object is an ordered list of key/value pairs and a lookup takes the
// first pair with the key.  Numbers carry their unsigned 64-bit value
// when they have one, which is all the schema readers ask of a number.
// ---------------------------------------------------------------------------

#[derive(Debug)]
pub enum JsonValue {
    Null,
    Bool(bool),
    /// A number, with its value when it is an unsigned 64-bit integer.
    Number(Option<u64>),
    Text(String),
    Array(Vec<JsonValue>),
    Object(Vec<(String, JsonValue)>),
}

/// First value under `key`, searching the pairs in order.
pub open spec fn obj_get(entries: Seq<(String, JsonValue)>, key: Seq<char>) -> Option<JsonValue>
    decreases entries.len(),
{
    if entries.len() == 0 {
        None
    } else if entries[0].0@ == key {
        Some(entries[0].1)
    } else {
        obj_get(entries.drop_first(), key)
    }
}

/// Member lookup: the first value under `key` when `j` is an object.
pub open spec fn json_get(j: JsonValue, key: Seq<char>) -> Option<JsonValue> {
    match j {
        JsonValue::Object(es) => obj_get(es@, key),
        _ => None,
    }
}

pub open spec fn json_as_str(j: JsonValue) -> Option<Seq<char>> {
    match j {
        JsonValue::Text(s) => Some(s@),
        _ => None,
    }
}

pub open spec fn json_as_u64(j: JsonValue) -> Option<u64> {
    match j {
        JsonValue::Number(n) => n,
        _ => None,
    }
}

pub open spec fn json_as_bool(j: JsonValue) -> Option<bool> {
    match j {
        JsonValue::Bool(b) => Some(b),
        _ => None,
    }
}

/// The string under `key`, when present and a string.
pub open spec fn get_str(j: JsonValue, key: Seq<char>) -> Option<Seq<char>> {
    match json_get(j, key) {
        Some(v) => json_as_str(v),
        None => None,
    }
}

/// The unsigned value under `key`, when present and such a number.
pub open spec fn get_u64(j: JsonValue, key: Seq<char>) -> Option<u64> {
    match json_get(j, key) {
        Some(v) => json_as_u64(v),
        None => None,
    }
}

/// The boolean under `key`, when present and a boolean.
pub open spec fn get_bool(j: JsonValue, key: Seq<char>) -> Option<bool> {
    match json_get(j, key) {
        Some(v) => json_as_bool(v),
        None => None,
    }
}

impl JsonValue {
    /// Member lookup on an object; `None` on any other value.
    #[verifier::loop_isolation(false)]
    pub fn get<'a>(&'a self, key: &str) -> (r: Option<&'a JsonValue>)
        ensures
            match r {
                Some(v) => json_get(*self, key@) == Some(*v),
                None => json_get(*self, key@) is None,
            },
    {
        match self {
            JsonValue::Object(entries) => {
                let mut i: usize = 0;
                assert(entries@.skip(0) =~= entries@);
                while i < entries.len()
                    invariant
                        0 <= i <= entries@.len(),
                        obj_get(entries@, key@) == obj_get(entries@.skip(i as int), key@),
                    decreases entries@.len() - i,
                {
                    proof {
                        assert(entries@.skip(i as int)[0] == entries@[i as int]);
                        assert(entries@.skip(i as int).drop_first() =~= entries@.skip(
                            i as int + 1,
                        ));
                    }
                    if str_eq(entries[i].0.as_str(), key) {
                        return Some(&entries[i].1);
                    }
                    i += 1;
                }
                assert(entries@.skip(i as int).len() == 0);
                None
            },
            _ => None,
        }
    }

    pub fn as_str<'a>(&'a self) -> (r: Option<&'a str>)
        ensures
            match r {
                Some(s) => json_as_str(*self) == Some(s@),
                None => json_as_str(*self) is None,
            },
    {
        match self {
            JsonValue::Text(s) => Some(s.as_str()),
            _ => None,
        }
    }

    pub fn as_u64(&self) -> (r: Option<u64>)
        ensures
            r == json_as_u64(*self),
    {
        match self {
            JsonValue::Number(n) => *n,
            _ => None,
        }
    }

    pub fn as_bool(&self) -> (r: Option<bool>)
        ensures
            r == json_as_bool(*self),
    {
        match self {
            JsonValue::Bool(b) => Some(*b),
            _ => None,
        }
    }

    pub fn as_array<'a>(&'a self) -> (r: Option<&'a Vec<JsonValue>>)
        ensures
            match r {
                Some(v) => *self matches JsonValue::Array(a) && a == *v,
                None => !(*self is Array),
            },
    {
        match self {
            JsonValue::Array(items) => Some(items),
            _ => None,
        }
    }

    pub fn as_object<'a>(&'a self) -> (r: Option<&'a Vec<(String, JsonValue)>>)
        ensures
            match r {
                Some(v) => *self matches JsonValue::Object(es) && es == *v,
                None => !(*self is Object),
            },
    {
        match self {
            JsonValue::Object(entries) => Some(entries),
            _ => None,
        }
    }

    /// Convenience lookup of a string member.
    pub fn get_text<'a>(&'a self, key: &str) -> (r: Option<&'a str>)
        ensures
            match r {
                Some(s) => get_str(*self, key@) == Some(s@),
                None => get_str(*self, key@) is None,
            },
    {
        match self.get(key) {
            Some(v) => v.as_str(),
            None => None,
        }
    }

    /// Convenience lookup of an unsigned number member.
    pub fn get_number(&self, key: &str) -> (r: Option<u64>)
        ensures
            r == get_u64(*self, key@),
    {
        match self.get(key) {
            Some(v) => v.as_u64(),
            None => None,
        }
    }

    /// Convenience lookup of a boolean member.
    pub fn get_boolean(&self, key: &str) -> (r: Option<bool>)
        ensures
            r == get_bool(*self, key@),
    {
        match self.get(key) {
            Some(v) => v.as_bool(),
            None => None,
        }
    }
}

} // verus!
