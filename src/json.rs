use vstd::prelude::*;

verus! {

#[verifier::external_type_specification]
#[verifier::external_body]
pub struct ExSerdeJsonValue(serde_json::Value);

#[verifier::external_type_specification]
#[verifier::external_body]
pub struct ExSerdeJsonError(serde_json::Error);

/// A JSON value as the library reads it. A number is kept as the decimal text
/// that serde_json writes for it: digits alone for a non-negative integer, a
/// leading '-' for a negative one, and a '.' or an exponent for any other.
pub enum JsonValue {
    Null,
    Bool(bool),
    Number(String),
    Str(String),
    Array(Vec<JsonValue>),
    Object(Vec<(String, JsonValue)>),
}

/// The value that serde_json reads from a text, or `None` where it refuses
/// the text as JSON.
pub uninterp spec fn json_document(s: Seq<char>) -> Option<JsonValue>;

/// Relies on serde_json::from_str::<serde_json::Value>: it either fails or
/// returns the value that the text holds, which depends on the text alone.
#[verifier::external_body]
fn read_json(s: &str) -> (r: Result<JsonValue, serde_json::Error>)
    ensures
        r is Ok <==> json_document(s@) is Some,
        r matches Ok(v) ==> json_document(s@) == Some(v),
{
    serde_json::from_str::<serde_json::Value>(s).map(from_serde)
}

/// Relies on the variants of serde_json::Value: each becomes the variant of
/// the same meaning, a number its text as serde_json's `Display` writes it.
#[verifier::external_body]
fn from_serde(v: serde_json::Value) -> JsonValue {
    match v {
        serde_json::Value::Null => JsonValue::Null,
        serde_json::Value::Bool(b) => JsonValue::Bool(b),
        serde_json::Value::Number(n) => JsonValue::Number(n.to_string()),
        serde_json::Value::String(s) => JsonValue::Str(s),
        serde_json::Value::Array(a) => JsonValue::Array(a.into_iter().map(from_serde).collect()),
        serde_json::Value::Object(m) => JsonValue::Object(
            m.into_iter().map(|(k, x)| (k, from_serde(x))).collect(),
        ),
    }
}

/// Parses a JSON text; `None` exactly where serde_json refuses it.
pub fn parse_json(s: &str) -> (r: Option<JsonValue>)
    ensures
        r == json_document(s@),
{
    match read_json(s) {
        Ok(v) => Some(v),
        Err(_) => None,
    }
}

/// The value of the last member named `name` of an object's members.
pub open spec fn lookup(fields: Seq<(String, JsonValue)>, name: Seq<char>) -> Option<JsonValue>
    decreases fields.len(),
{
    if fields.len() == 0 {
        None
    } else if fields.last().0@ == name {
        Some(fields.last().1)
    } else {
        lookup(fields.drop_last(), name)
    }
}

/// The index of the last member named `name`, if there is one.
pub fn find_member(fields: &Vec<(String, JsonValue)>, name: &String) -> (r: Option<usize>)
    ensures
        r is None ==> forall|j: int| 0 <= j < fields@.len() ==> (#[trigger] fields@[j]).0@ != name@,
        r is None ==> lookup(fields@, name@) is None,
        r matches Some(k) ==> {
            &&& k < fields@.len()
            &&& fields@[k as int].0@ == name@
            &&& forall|j: int| k < j < fields@.len() ==> (#[trigger] fields@[j]).0@ != name@
            &&& lookup(fields@, name@) == Some(fields@[k as int].1)
        },
{
    let mut found: Option<usize> = None;
    let mut i: usize = 0;
    assert(fields@.take(0) =~= Seq::<(String, JsonValue)>::empty());
    while i < fields.len()
        invariant
            i <= fields@.len(),
            found is None ==> forall|j: int| 0 <= j < i ==> (#[trigger] fields@[j]).0@ != name@,
            found is None ==> lookup(fields@.take(i as int), name@) is None,
            found matches Some(k) ==> {
                &&& k < i
                &&& fields@[k as int].0@ == name@
                &&& forall|j: int| k < j < i ==> (#[trigger] fields@[j]).0@ != name@
                &&& lookup(fields@.take(i as int), name@) == Some(fields@[k as int].1)
            },
        decreases fields@.len() - i,
    {
        proof {
            assert(fields@.take(i + 1).drop_last() =~= fields@.take(i as int));
            assert(fields@.take(i + 1).last() == fields@[i as int]);
        }
        if fields[i].0 == *name {
            found = Some(i);
        }
        i = i + 1;
    }
    assert(fields@.take(fields@.len() as int) =~= fields@);
    found
}

} // verus!
