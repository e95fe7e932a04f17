//! A plain model of a parsed JSON document, filled in by `serde_json`, so
//! that the code reading a document is ordinary verified code over library
//! values.
use vstd::prelude::*;
use crate::text::{chars_of, eq_str};

verus! {

/// A JSON value. A number is held as the `u64` it denotes when it is a
/// non-negative integer in `u64` range, and as `None` otherwise (a negative
/// or fractional number). An object's members are in the order the parser
/// hands them out, each key at most once.
#[derive(Debug)]
pub enum JsonValue {
    Null,
    Bool(bool),
    Number(Option<u64>),
    Str(String),
    Array(Vec<JsonValue>),
    Object(Vec<(String, JsonValue)>),
}

/// `serde_json::Value`, carried opaquely through the conversion below.
#[verifier::external_type_specification]
#[verifier::external_body]
pub struct ExSerdeJsonValue(serde_json::Value);

/// The document that `serde_json::from_str::<serde_json::Value>` reads from
/// `text`, converted to [`JsonValue`]; `None` when `text` is not JSON.
pub uninterp spec fn spec_parse_json(text: Seq<char>) -> Option<JsonValue>;

/// Converts one `serde_json::Value` into a [`JsonValue`], variant by
/// variant (a number through `serde_json::Number::as_u64`).
#[verifier::external_body]
fn json_from_serde(v: serde_json::Value) -> JsonValue {
    match v {
        serde_json::Value::Null => JsonValue::Null,
        serde_json::Value::Bool(b) => JsonValue::Bool(b),
        serde_json::Value::Number(n) => JsonValue::Number(n.as_u64()),
        serde_json::Value::String(s) => JsonValue::Str(s),
        serde_json::Value::Array(a) => JsonValue::Array(a.into_iter().map(json_from_serde).collect()),
        serde_json::Value::Object(m) => JsonValue::Object(m.into_iter().map(|(k, x)| (k, json_from_serde(x))).collect()),
    }
}

/// Parses `text` with `serde_json::from_str::<serde_json::Value>`; the
/// contract claims that the same text always gives the same document
/// (`spec_parse_json`), and nothing about which document that is.
#[verifier::external_body]
pub fn parse_json(text: &str) -> (r: Option<JsonValue>)
    ensures
        r == spec_parse_json(text@),
{
    serde_json::from_str::<serde_json::Value>(text).ok().map(json_from_serde)
}

/// The value of the member named `key` of an object's member list.
pub open spec fn field(members: Seq<(String, JsonValue)>, key: Seq<char>) -> Option<JsonValue>
    decreases members.len(),
{
    if members.len() == 0 {
        None
    } else if members[0].0@ == key {
        Some(members[0].1)
    } else {
        field(members.drop_first(), key)
    }
}

proof fn lemma_field_at(members: Seq<(String, JsonValue)>, key: Seq<char>, k: int)
    requires
        0 <= k <= members.len(),
        forall|j: int| 0 <= j < k ==> members[j].0@ != key,
    ensures
        k < members.len() && members[k].0@ == key ==> field(members, key) == Some(members[k].1),
        k == members.len() ==> field(members, key) is None,
    decreases k,
{
    if k > 0 {
        let t = members.drop_first();
        assert forall|j: int| 0 <= j < k - 1 implies t[j].0@ != key by {
            assert(t[j] == members[j + 1]);
        }
        lemma_field_at(t, key, k - 1);
    }
}

/// The member named `key`, if the list has one.
pub fn get_field<'a>(members: &'a Vec<(String, JsonValue)>, key: &str) -> (r: Option<&'a JsonValue>)
    ensures
        r matches Some(v) ==> field(members@, key@) == Some(*v),
        r is None ==> field(members@, key@) is None,
{
    let n = members.len();
    let mut i: usize = 0;
    while i < n
        invariant
            n == members@.len(),
            i <= n,
            forall|j: int| 0 <= j < i ==> members@[j].0@ != key@,
        decreases n - i,
    {
        let name = chars_of(members[i].0.as_str());
        if eq_str(&name, key) {
            proof {
                lemma_field_at(members@, key@, i as int);
            }
            return Some(&members[i].1);
        }
        i += 1;
    }
    proof {
        lemma_field_at(members@, key@, n as int);
    }
    None
}

} // verus!
