//! JSON documents as plain data. The change-feed hands the relay block
//! summaries as JSON text; parsing the text is serde_json's work, reading
//! the parsed tree is this crate's, so the tree itself is a type of the
//! crate's own.

use vstd::prelude::*;

verus! {

/// A parsed JSON document. Numbers are unsigned integers: every number the
/// summary schema reads is one; any other number parses to `Null`, which no
/// decoder accepts where it reads a field.
#[derive(Debug)]
pub enum Json {
    Null,
    Bool(bool),
    UInt(u64),
    Str(String),
    Arr(Vec<Json>),
    Obj(Vec<(String, Json)>),
}

#[verifier::external_type_specification]
#[verifier::external_body]
pub struct ExValue(serde_json::Value);

/// What parsing a JSON text yields: the document as this crate's tree when
/// the text is well-formed JSON, nothing otherwise; a function of the text
/// alone (object keys come out in serde_json's deterministic map order).
pub uninterp spec fn json_of(s: Seq<char>) -> Option<Json>;

/// Reads a parsed serde_json tree as this crate's own, variant by variant:
/// unsigned-integer numbers keep their value, any other number becomes
/// `Null`.
#[verifier::external_body]
fn json_from_value(v: serde_json::Value) -> Json {
    match v {
        serde_json::Value::Null => Json::Null,
        serde_json::Value::Bool(b) => Json::Bool(b),
        serde_json::Value::Number(n) => match n.as_u64() {
            Some(u) => Json::UInt(u),
            None => Json::Null,
        },
        serde_json::Value::String(s) => Json::Str(s),
        serde_json::Value::Array(a) => Json::Arr(a.into_iter().map(json_from_value).collect()),
        serde_json::Value::Object(m) => Json::Obj(
            m.into_iter().map(|(k, x)| (k, json_from_value(x))).collect(),
        ),
    }
}

/// Relies on serde_json::from_str::<Value>: the parse depends on the text
/// alone, succeeds exactly on well-formed JSON, and the result is read back
/// as this crate's `Json` tree.
#[verifier::external_body]
pub(crate) fn parse_json(s: &str) -> (r: Option<Json>)
    ensures
        r == json_of(s@),
{
    match serde_json::from_str::<serde_json::Value>(s) {
        Ok(v) => Some(json_from_value(v)),
        Err(_) => None,
    }
}

/// The value under key `k` in an object's pairs: the first match (a parsed
/// object holds each key once).
pub open spec fn obj_lookup(pairs: Seq<(String, Json)>, k: Seq<char>) -> Option<Json>
    decreases pairs.len(),
{
    if pairs.len() == 0 {
        None
    } else if pairs[0].0@ == k {
        Some(pairs[0].1)
    } else {
        obj_lookup(pairs.subrange(1, pairs.len() as int), k)
    }
}

/// The value under key `k`, for an object; nothing for any other document.
pub open spec fn json_get(j: Json, k: Seq<char>) -> Option<Json> {
    match j {
        Json::Obj(pairs) => obj_lookup(pairs@, k),
        _ => None,
    }
}

impl Json {
    /// Looks a key up in an object document.
    pub fn get<'a>(&'a self, key: &str) -> (r: Option<&'a Json>)
        ensures
            (match r {
                Some(v) => json_get(*self, key@) == Some(*v),
                None => json_get(*self, key@) is None,
            }),
    {
        match self {
            Json::Obj(pairs) => {
                let k: String = key.to_owned();
                let n = pairs.len();
                let mut i: usize = 0;
                proof {
                    assert(pairs@.subrange(0, n as int) =~= pairs@);
                }
                while i < n
                    invariant
                        k@ == key@,
                        json_get(*self, key@) == obj_lookup(pairs@, key@),
                        n == pairs@.len(),
                        0 <= i <= n,
                        obj_lookup(pairs@, key@) == obj_lookup(
                            pairs@.subrange(i as int, n as int),
                            key@,
                        ),
                    decreases n - i,
                {
                    proof {
                        let sub = pairs@.subrange(i as int, n as int);
                        assert(sub.len() > 0);
                        assert(sub[0] == pairs@[i as int]);
                        assert(sub.subrange(1, sub.len() as int) =~= pairs@.subrange(
                            i + 1,
                            n as int,
                        ));
                        assert(obj_lookup(sub, key@) == (if sub[0].0@ == key@ {
                            Some(sub[0].1)
                        } else {
                            obj_lookup(pairs@.subrange(i + 1, n as int), key@)
                        }));
                    }
                    if pairs[i].0 == k {
                        assert(pairs@[i as int].0@ == key@);
                        assert(obj_lookup(pairs@, key@) == Some(pairs@[i as int].1));
                        return Some(&pairs[i].1);
                    }
                    i = i + 1;
                }
                proof {
                    assert(pairs@.subrange(n as int, n as int).len() == 0);
                }
                None
            },
            _ => None,
        }
    }

    pub fn as_str<'a>(&'a self) -> (r: Option<&'a String>)
        ensures
            (match r {
                Some(s) => *self matches Json::Str(v) && v == s,
                None => !(*self matches Json::Str(_)),
            }),
    {
        match self {
            Json::Str(s) => Some(s),
            _ => None,
        }
    }

    pub fn as_u64(&self) -> (r: Option<u64>)
        ensures
            (match r {
                Some(v) => *self matches Json::UInt(u) && u == v,
                None => !(*self matches Json::UInt(_)),
            }),
    {
        match self {
            Json::UInt(u) => Some(*u),
            _ => None,
        }
    }

    pub fn as_array<'a>(&'a self) -> (r: Option<&'a Vec<Json>>)
        ensures
            (match r {
                Some(a) => *self matches Json::Arr(v) && v == a,
                None => !(*self matches Json::Arr(_)),
            }),
    {
        match self {
            Json::Arr(a) => Some(a),
            _ => None,
        }
    }

    pub fn is_object(&self) -> (r: bool)
        ensures
            r == (*self matches Json::Obj(_)),
    {
        match self {
            Json::Obj(_) => true,
            _ => false,
        }
    }
}

} // verus!
