//! JSON values as niri reports them, and the few ways the daemon reads them.
use vstd::prelude::*;
use crate::seqs::{first_where, lemma_first_where_at, lemma_first_where_none};
use crate::text::str_eq;

verus! {

/// A JSON value. Numbers keep what the daemon reads of them: a non-negative integer
/// as a `u64`; a negative integer; or a number with a fraction or an exponent,
/// whose value is not kept.
#[derive(Debug, PartialEq)]
pub enum JsonValue {
    Null,
    Bool(bool),
    UInt(u64),
    NegInt(i64),
    Float,
    Str(String),
    Array(Vec<JsonValue>),
    /// Members in the order `serde_json`'s map keeps them (sorted by key); keys are
    /// distinct.
    Object(Vec<(String, JsonValue)>),
}

/// Members whose key is `key`.
pub open spec fn key_is(key: Seq<char>) -> spec_fn((String, JsonValue)) -> bool {
    |e: (String, JsonValue)| e.0@ == key
}

/// Member `key` of an object (`None` for anything else).
pub open spec fn json_get(v: JsonValue, key: Seq<char>) -> Option<JsonValue> {
    match v {
        JsonValue::Object(es) => match first_where(es@, key_is(key)) {
            Some(i) => Some(es@[i].1),
            None => None,
        },
        _ => None,
    }
}

/// Member `key` of an optional object.
pub open spec fn opt_get(v: Option<JsonValue>, key: Seq<char>) -> Option<JsonValue> {
    match v {
        Some(x) => json_get(x, key),
        None => None,
    }
}

/// Element `i` of an optional array.
pub open spec fn opt_at(v: Option<JsonValue>, i: int) -> Option<JsonValue> {
    match v {
        Some(JsonValue::Array(a)) => if 0 <= i < a@.len() {
            Some(a@[i])
        } else {
            None
        },
        _ => None,
    }
}

/// A non-negative integer, as `serde_json::Value::as_u64` reads one.
pub open spec fn opt_u64(v: Option<JsonValue>) -> Option<u64> {
    match v {
        Some(JsonValue::UInt(n)) => Some(n),
        _ => None,
    }
}

/// A string.
pub open spec fn opt_str(v: Option<JsonValue>) -> Option<Seq<char>> {
    match v {
        Some(JsonValue::Str(s)) => Some(s@),
        _ => None,
    }
}

/// A boolean.
pub open spec fn opt_bool(v: Option<JsonValue>) -> Option<bool> {
    match v {
        Some(JsonValue::Bool(b)) => Some(b),
        _ => None,
    }
}

/// The value behind an optional reference.
pub open spec fn deref_opt<T>(o: Option<&T>) -> Option<T> {
    match o {
        Some(r) => Some(*r),
        None => None,
    }
}

impl JsonValue {
    /// Member `key` of an object.
    pub fn get(&self, key: &str) -> (res: Option<&JsonValue>)
        ensures
            deref_opt(res) == json_get(*self, key@),
    {
        match self {
            JsonValue::Object(es) => {
                assert(*self == JsonValue::Object(*es));
                let mut i: usize = 0;
                while i < es.len()
                    invariant
                        *self == JsonValue::Object(*es),
                        i <= es@.len(),
                        forall|j: int| 0 <= j < i ==> !key_is(key@)(#[trigger] es@[j]),
                    decreases es@.len() - i,
                {
                    if str_eq(es[i].0.as_str(), key) {
                        proof {
                            assert(key_is(key@)(es@[i as int]));
                            lemma_first_where_at(es@, key_is(key@), i as int);
                        }
                        return Some(&es[i].1);
                    }
                    i = i + 1;
                }
                proof {
                    lemma_first_where_none(es@, key_is(key@));
                }
                None
            },
            _ => None,
        }
    }

    /// Element `i` of an array.
    pub fn at(&self, i: usize) -> (res: Option<&JsonValue>)
        ensures
            deref_opt(res) == opt_at(Some(*self), i as int),
    {
        match self {
            JsonValue::Array(a) => if i < a.len() {
                Some(&a[i])
            } else {
                None
            },
            _ => None,
        }
    }

    pub fn as_u64(&self) -> (res: Option<u64>)
        ensures
            res == opt_u64(Some(*self)),
    {
        match self {
            JsonValue::UInt(n) => Some(*n),
            _ => None,
        }
    }

    pub fn as_str(&self) -> (res: Option<&str>)
        ensures
            match res {
                Some(s) => opt_str(Some(*self)) == Some(s@),
                None => opt_str(Some(*self)) is None,
            },
    {
        match self {
            JsonValue::Str(s) => Some(s.as_str()),
            _ => None,
        }
    }

    pub fn as_bool(&self) -> (res: Option<bool>)
        ensures
            res == opt_bool(Some(*self)),
    {
        match self {
            JsonValue::Bool(b) => Some(*b),
            _ => None,
        }
    }
}

#[verifier::external_type_specification]
#[verifier::external_body]
pub struct ExSerdeJsonValue(serde_json::Value);

/// What `serde_json::from_str::<serde_json::Value>` reads from `text`, in the
/// library's terms (`None` when the text is not JSON).
pub uninterp spec fn serde_json_value(text: Seq<char>) -> Option<JsonValue>;

/// `serde_json::from_str::<serde_json::Value>` on `text`, the value converted to a
/// [`JsonValue`] and the error to its message. The contract ties the value to the
/// text through [`serde_json_value`]; it says nothing of the message.
#[verifier::external_body]
pub(crate) fn read_json(text: &str) -> (res: Result<JsonValue, String>)
    ensures
        match res {
            Ok(v) => serde_json_value(text@) == Some(v),
            Err(_) => serde_json_value(text@) is None,
        },
{
    match serde_json::from_str::<serde_json::Value>(text) {
        Ok(v) => Ok(from_serde(&v)),
        Err(e) => Err(e.to_string()),
    }
}

/// Converts a `serde_json::Value` variant by variant: numbers by
/// `Number::as_u64` and `Number::as_i64`, objects member by member in the map's order.
#[verifier::external_body]
fn from_serde(v: &serde_json::Value) -> JsonValue {
    match v {
        serde_json::Value::Null => JsonValue::Null,
        serde_json::Value::Bool(b) => JsonValue::Bool(*b),
        serde_json::Value::Number(n) => match (n.as_u64(), n.as_i64()) {
            (Some(u), _) => JsonValue::UInt(u),
            (None, Some(i)) => JsonValue::NegInt(i),
            (None, None) => JsonValue::Float,
        },
        serde_json::Value::String(s) => JsonValue::Str(s.clone()),
        serde_json::Value::Array(a) => JsonValue::Array(a.iter().map(from_serde).collect()),
        serde_json::Value::Object(m) => JsonValue::Object(m.iter().map(|(k, x)| (k.clone(), from_serde(x))).collect()),
    }
}

/// Reads a JSON text (see [`serde_json_value`]); `None` when it is not JSON.
pub fn parse_json(text: &str) -> (res: Option<JsonValue>)
    ensures
        res == serde_json_value(text@),
{
    match read_json(text) {
        Ok(v) => Some(v),
        Err(_) => None,
    }
}

} // verus!
