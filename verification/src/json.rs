//! The JSON documents that property lists and code-signing entitlements are read as.
use vstd::prelude::*;
use crate::text::{self, chars_of, chars_eq, owned};

verus! {

/// A JSON value. An object keeps its members in order; a lookup finds the first
/// member with the key.
pub enum JsonValue {
    Null,
    Bool(bool),
    /// A number, in its JSON spelling.
    Number(String),
    Str(String),
    Array(Vec<JsonValue>),
    Object(Vec<(String, JsonValue)>),
}

/// The value of the first member named `key`.
pub open spec fn member(entries: Seq<(String, JsonValue)>, key: Seq<char>) -> Option<JsonValue>
    decreases entries.len(),
{
    if entries.len() == 0 {
        None
    } else if entries[0].0@ == key {
        Some(entries[0].1)
    } else {
        member(entries.drop_first(), key)
    }
}

/// `Value::get` with a key: the member of an object, nothing for other values.
pub open spec fn json_get(v: JsonValue, key: Seq<char>) -> Option<JsonValue> {
    match v {
        JsonValue::Object(entries) => member(entries@, key),
        _ => None,
    }
}

impl JsonValue {
    /// The member named `key` of an object.
    pub fn get(&self, key: &str) -> (r: Option<&JsonValue>)
        ensures
            match r {
                Some(v) => json_get(*self, key@) == Some(*v),
                None => json_get(*self, key@) is None,
            },
    {
        match self {
            JsonValue::Object(entries) => {
                let k = chars_of(key);
                let mut i: usize = 0;
                assert(entries@.skip(0) =~= entries@);
                while i < entries.len()
                    invariant
                        i <= entries.len(),
                        k@ == key@,
                        json_get(*self, key@) == member(entries@, key@),
                        member(entries@, key@) == member(entries@.skip(i as int), key@),
                    decreases entries.len() - i,
                {
                    assert(entries@.skip(i as int)[0] == entries@[i as int]);
                    let name = chars_of(entries[i].0.as_str());
                    if chars_eq(&name, &k) {
                        assert(member(entries@.skip(i as int), key@) == Some(entries@[i as int].1));
                        return Some(&entries[i].1);
                    }
                    assert(entries@.skip(i as int).drop_first() =~= entries@.skip(i + 1));
                    i += 1;
                }
                None
            },
            _ => None,
        }
    }
}

#[verifier::external_type_specification]
#[verifier::external_body]
pub struct ExJson(serde_json::Value);

/// What `serde_json::from_slice` reads from the bytes, as the library's model of
/// the value, or the text of its error.
pub uninterp spec fn json_read(bytes: Seq<u8>) -> Result<JsonValue, Seq<char>>;

/// What `serde_json::to_string_pretty` writes for the value (objects with their
/// members in order of their keys, two spaces of indentation), or the text of its
/// error.
pub uninterp spec fn json_pretty(v: JsonValue) -> Result<Seq<char>, Seq<char>>;

/// Calls `serde_json::from_slice` on the bytes and hands the value over as the
/// library's model. The result depends on the bytes alone and is named
/// `json_read`; the JSON grammar itself is not stated.
#[verifier::external_body]
pub(crate) fn read_json(bytes: &[u8]) -> (r: Result<JsonValue, String>)
    ensures
        match r {
            Ok(v) => json_read(bytes@) == Ok::<JsonValue, Seq<char>>(v),
            Err(e) => json_read(bytes@) == Err::<JsonValue, Seq<char>>(e@),
        },
{
    match serde_json::from_slice::<serde_json::Value>(bytes) {
        Ok(value) => Ok(model_of(&value)),
        Err(err) => Err(err.to_string()),
    }
}

/// Calls `serde_json::to_string_pretty` on the value, handed over as a
/// `serde_json::Value`. The result depends on the value alone and is named
/// `json_pretty`; the layout itself is not stated.
#[verifier::external_body]
pub(crate) fn pretty_json(v: &JsonValue) -> (r: Result<String, String>)
    ensures
        match r {
            Ok(t) => json_pretty(*v) == Ok::<Seq<char>, Seq<char>>(t@),
            Err(e) => json_pretty(*v) == Err::<Seq<char>, Seq<char>>(e@),
        },
{
    serde_json::to_string_pretty(&value_of(v)).map_err(|err| err.to_string())
}

/// A `serde_json::Value` as the library's model, variant for variant (part of
/// `read_json`'s conversion).
#[verifier::external_body]
fn model_of(value: &serde_json::Value) -> JsonValue {
    match value {
        serde_json::Value::Null => JsonValue::Null,
        serde_json::Value::Bool(b) => JsonValue::Bool(*b),
        serde_json::Value::Number(n) => JsonValue::Number(n.to_string()),
        serde_json::Value::String(s) => JsonValue::Str(s.clone()),
        serde_json::Value::Array(items) => JsonValue::Array(items.iter().map(model_of).collect()),
        serde_json::Value::Object(m) => JsonValue::Object(
            m.iter().map(|(k, x)| (k.clone(), model_of(x))).collect(),
        ),
    }
}

/// The library's model as a `serde_json::Value`, variant for variant (part of
/// `pretty_json`'s conversion).
#[verifier::external_body]
fn value_of(v: &JsonValue) -> serde_json::Value {
    match v {
        JsonValue::Null => serde_json::Value::Null,
        JsonValue::Bool(b) => serde_json::Value::Bool(*b),
        JsonValue::Number(n) => n.parse().map(serde_json::Value::Number).unwrap_or(serde_json::Value::Null),
        JsonValue::Str(s) => serde_json::Value::String(s.clone()),
        JsonValue::Array(items) => serde_json::Value::Array(items.iter().map(value_of).collect()),
        JsonValue::Object(m) => serde_json::Value::Object(
            m.iter().map(|(k, x)| (k.clone(), value_of(x))).collect(),
        ),
    }
}

/// The property list that `plutil` converted an `Info.plist` to: the trimmed
/// error output when it failed, else the JSON it wrote, or why that could not be
/// read.
pub open spec fn info_plist_result(success: bool, stdout: Seq<u8>, stderr: Seq<char>) -> Result<
    JsonValue,
    Seq<char>,
> {
    if !success {
        Err(text::trim(stderr))
    } else {
        match json_read(stdout) {
            Ok(v) => Ok(v),
            Err(m) => Err("Could not parse Info.plist: "@ + m),
        }
    }
}

/// The property list that `plutil` converted property-list bytes to, described
/// as `description` in its errors.
pub open spec fn plist_result(
    success: bool,
    stdout: Seq<u8>,
    stderr: Seq<char>,
    description: Seq<char>,
) -> Result<JsonValue, Seq<char>> {
    if !success {
        if text::trim(stderr).len() == 0 {
            Err("Could not parse "@ + description + "."@)
        } else {
            Err("Could not parse "@ + description + ": "@ + text::trim(stderr))
        }
    } else {
        match json_read(stdout) {
            Ok(v) => Ok(v),
            Err(m) => Err("Could not parse "@ + description + ": "@ + m),
        }
    }
}

pub open spec fn same_result(r: Result<JsonValue, String>, s: Result<JsonValue, Seq<char>>) -> bool {
    match r {
        Ok(v) => s == Ok::<JsonValue, Seq<char>>(v),
        Err(e) => s == Err::<JsonValue, Seq<char>>(e@),
    }
}

/// Reads what `plutil -convert json` wrote for an `Info.plist`: `success` is
/// whether it exited successfully, `stdout` and `stderr` what it wrote.
pub fn info_plist_from_plutil(success: bool, stdout: &[u8], stderr: &str) -> (r: Result<
    JsonValue,
    String,
>)
    ensures
        same_result(r, info_plist_result(success, stdout@, stderr@)),
{
    if !success {
        return Err(text::trim_str(stderr));
    }
    match read_json(stdout) {
        Ok(v) => Ok(v),
        Err(m) => {
            let mut msg = owned("Could not parse Info.plist: ");
            msg.append(m.as_str());
            Err(msg)
        },
    }
}

/// Reads what `plutil -convert json` wrote for property-list bytes described as
/// `description`.
pub fn plist_from_plutil(success: bool, stdout: &[u8], stderr: &str, description: &str) -> (r:
    Result<JsonValue, String>)
    ensures
        same_result(r, plist_result(success, stdout@, stderr@, description@)),
{
    if !success {
        let detail = text::trim_str(stderr);
        let mut msg = owned("Could not parse ");
        msg.append(description);
        if chars_of(detail.as_str()).len() == 0 {
            msg.append(".");
        } else {
            msg.append(": ");
            msg.append(detail.as_str());
        }
        return Err(msg);
    }
    match read_json(stdout) {
        Ok(v) => Ok(v),
        Err(m) => {
            let mut msg = owned("Could not parse ");
            msg.append(description);
            msg.append(": ");
            msg.append(m.as_str());
            Err(msg)
        },
    }
}

/// Why `codesign` could not report the entitlements: its trimmed error output,
/// or the exit status when it wrote none.
pub fn codesign_failure(stderr: &str, status: &str) -> (r: String)
    ensures
        r@ == (if text::trim(stderr@).len() == 0 {
            "codesign exited with status "@ + status@
        } else {
            text::trim(stderr@)
        }),
{
    let detail = text::trim_str(stderr);
    if chars_of(detail.as_str()).len() == 0 {
        let mut msg = owned("codesign exited with status ");
        msg.append(status);
        msg
    } else {
        detail
    }
}

/// Why signing a generated wrapper failed, from `codesign`'s error output.
pub fn signing_failure(stderr: &str) -> (r: String)
    ensures
        r@ == "Could not sign generated app: "@ + text::trim(stderr@),
{
    let mut msg = owned("Could not sign generated app: ");
    let detail = text::trim_str(stderr);
    msg.append(detail.as_str());
    msg
}

} // verus!
