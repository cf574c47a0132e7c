//! A JSON document as plain values, and reading one from text.
use vstd::prelude::*;

verus! {

/// A JSON value. A number keeps the text that writes it; an object keeps its
/// members as a list of key and value.
#[derive(Debug, PartialEq, Eq)]
pub enum JsonValue {
    Null,
    Bool(bool),
    Number(String),
    Text(String),
    Array(Vec<JsonValue>),
    Object(Vec<(String, JsonValue)>),
}

/// serde_json's parsed value, carried only into `from_serde`.
#[verifier::external_type_specification]
#[verifier::external_body]
pub struct ExSerdeValue(serde_json::Value);

/// The JSON value that a text holds, or `None` where it is not valid JSON.
pub uninterp spec fn json_of(text: Seq<char>) -> Option<JsonValue>;

/// Relies on serde_json::from_str into serde_json::Value: whether the text is
/// valid JSON, and its value, depend on the text alone.
#[verifier::external_body]
pub fn parse_json(text: &str) -> (r: Option<JsonValue>)
    ensures
        r == json_of(text@),
{
    match serde_json::from_str::<serde_json::Value>(text) {
        Ok(v) => Some(from_serde(v)),
        Err(_) => None,
    }
}

/// Relies on serde_json::Value's variants: turns a parsed value into a
/// `JsonValue`, variant for variant, a number by its `Display` text.
#[verifier::external_body]
fn from_serde(v: serde_json::Value) -> JsonValue {
    match v {
        serde_json::Value::Null => JsonValue::Null,
        serde_json::Value::Bool(b) => JsonValue::Bool(b),
        serde_json::Value::Number(n) => JsonValue::Number(n.to_string()),
        serde_json::Value::String(s) => JsonValue::Text(s),
        serde_json::Value::Array(a) => JsonValue::Array(a.into_iter().map(from_serde).collect()),
        serde_json::Value::Object(m) => JsonValue::Object(
            m.into_iter().map(|(k, v)| (k, from_serde(v))).collect(),
        ),
    }
}

/// The value of the first member named `key`.
pub open spec fn member(members: Seq<(String, JsonValue)>, key: Seq<char>) -> Option<JsonValue>
    decreases members.len(),
{
    if members.len() == 0 {
        None
    } else if members[0].0@ == key {
        Some(members[0].1)
    } else {
        member(members.drop_first(), key)
    }
}

/// A member that is found is one of the members.
pub proof fn lemma_member_is_listed(members: Seq<(String, JsonValue)>, key: Seq<char>)
    requires
        member(members, key) is Some,
    ensures
        exists|j: int| 0 <= j < members.len() && #[trigger] members[j].1 == member(members, key)->0,
    decreases members.len(),
{
    if members[0].0@ != key {
        lemma_member_is_listed(members.drop_first(), key);
        let j = choose|j: int|
            0 <= j < members.len() - 1 && #[trigger] members.drop_first()[j].1 == member(
                members.drop_first(),
                key,
            )->0;
        assert(members[j + 1].1 == member(members, key)->0);
    }
}

/// The value of the member named `key` of an object; `None` for a value that
/// is not an object or has no such member.
pub open spec fn field(v: JsonValue, key: Seq<char>) -> Option<JsonValue> {
    match v {
        JsonValue::Object(ms) => member(ms@, key),
        _ => None,
    }
}

/// Looks up the member named `key`.
pub fn find_member<'a>(members: &'a Vec<(String, JsonValue)>, key: &String) -> (r: Option<
    &'a JsonValue,
>)
    ensures
        match r {
            Some(v) => member(members@, key@) == Some(*v),
            None => member(members@, key@) is None,
        },
{
    let n = members.len();
    let mut i: usize = 0;
    assert(members@.skip(0) =~= members@);
    while i < n
        invariant
            n == members@.len(),
            i <= n,
            member(members@, key@) == member(members@.skip(i as int), key@),
        decreases n - i,
    {
        proof {
            let rest = members@.skip(i as int);
            assert(rest.drop_first() =~= members@.skip(i as int + 1));
            assert(rest[0] == members@[i as int]);
        }
        if members[i].0 == *key {
            return Some(&members[i].1);
        }
        i = i + 1;
    }
    proof {
        assert(members@.skip(n as int) =~= Seq::<(String, JsonValue)>::empty());
    }
    None
}

/// Looks up the member named `key` of an object.
pub fn get_field<'a>(v: &'a JsonValue, key: &String) -> (r: Option<&'a JsonValue>)
    ensures
        match r {
            Some(x) => field(*v, key@) == Some(*x),
            None => field(*v, key@) is None,
        },
{
    match v {
        JsonValue::Object(ms) => find_member(ms, key),
        _ => None,
    }
}

} // verus!
