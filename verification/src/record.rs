//! The `config.json` file of a wrapper: its settings as a JSON object, written
//! out by `serde_json`'s pretty printer.
use vstd::prelude::*;
use crate::env::EnvVars;
use crate::generate::ShortcutRecord;
use crate::json::{self, JsonValue, pretty_json};
use crate::text;

verus! {

/// The value is the JSON string `s`.
pub open spec fn is_text(v: JsonValue, s: Seq<char>) -> bool {
    v matches JsonValue::Str(x) && x@ == s
}

/// The value is an array of the strings `a`, in order.
pub open spec fn is_texts(v: JsonValue, a: Seq<Seq<char>>) -> bool {
    v matches JsonValue::Array(items) && items@.len() == a.len() && forall|i: int|
        0 <= i < a.len() ==> is_text(#[trigger] items@[i], a[i])
}

/// The value is an object whose members are the names and values of `e`, in order.
pub open spec fn is_text_object(v: JsonValue, e: Seq<(Seq<char>, Seq<char>)>) -> bool {
    v matches JsonValue::Object(m) && m@.len() == e.len() && forall|i: int|
        0 <= i < e.len() ==> (#[trigger] m@[i]).0@ == e[i].0 && is_text(m@[i].1, e[i].1)
}

/// The value is a string path, or `null` for none.
pub open spec fn is_optional_text(v: JsonValue, p: Option<String>) -> bool {
    match p {
        Some(s) => is_text(v, s@),
        None => v == JsonValue::Null,
    }
}

/// The member at `i` has the key `key`.
pub open spec fn keyed(m: Seq<(String, JsonValue)>, i: int, key: Seq<char>) -> bool {
    m[i].0@ == key
}

/// The value is the JSON object of a wrapper's settings: `name`, `targetPath`,
/// `executablePath`, `bundleId`, `dataPath`, `shortcutType`, `launchMode`,
/// `dataStrategy`, `eraseOnClose`, `menuBarControl`, `dedicatedDockIcon`, the
/// `environment` as an object of its variables in order of their names, and the
/// `arguments` as an array of strings.
pub open spec fn describes(v: JsonValue, r: ShortcutRecord) -> bool {
    v matches JsonValue::Object(members) && {
        let m = members@;
        &&& m.len() == 13
        &&& keyed(m, 0, "name"@) && is_text(m[0].1, r.name@)
        &&& keyed(m, 1, "targetPath"@) && is_text(m[1].1, r.target_path@)
        &&& keyed(m, 2, "executablePath"@) && is_optional_text(m[2].1, r.executable_path)
        &&& keyed(m, 3, "bundleId"@) && is_text(m[3].1, r.bundle_id@)
        &&& keyed(m, 4, "dataPath"@) && is_text(m[4].1, r.data_path@)
        &&& keyed(m, 5, "shortcutType"@) && is_text(m[5].1, r.shortcut_type@)
        &&& keyed(m, 6, "launchMode"@) && is_text(m[6].1, r.launch_mode@)
        &&& keyed(m, 7, "dataStrategy"@) && is_text(m[7].1, r.data_strategy@)
        &&& keyed(m, 8, "eraseOnClose"@) && m[8].1 == JsonValue::Bool(r.erase_on_close)
        &&& keyed(m, 9, "menuBarControl"@) && m[9].1 == JsonValue::Bool(r.menu_bar_control)
        &&& keyed(m, 10, "dedicatedDockIcon"@) && m[10].1 == JsonValue::Bool(
            r.dedicated_dock_icon,
        )
        &&& keyed(m, 11, "environment"@) && is_text_object(m[11].1, r.environment@)
        &&& keyed(m, 12, "arguments"@) && is_texts(m[12].1, text::string_views(r.arguments@))
    }
}

/// The text of a wrapper's `config.json` (or why it could not be written): the
/// pretty-printed JSON of a value that describes the settings.
pub open spec fn config_file(r: ShortcutRecord, result: Result<Seq<char>, Seq<char>>) -> bool {
    exists|v: JsonValue| #[trigger] describes(v, r) && json::json_pretty(v) == result
}

fn text_value(s: &String) -> (v: JsonValue)
    ensures
        is_text(v, s@),
{
    JsonValue::Str(s.clone())
}

fn texts_value(a: &Vec<String>) -> (v: JsonValue)
    ensures
        is_texts(v, text::string_views(a@)),
{
    let mut items: Vec<JsonValue> = Vec::new();
    let mut i: usize = 0;
    while i < a.len()
        invariant
            i <= a.len(),
            items@.len() == i,
            forall|j: int| 0 <= j < i ==> is_text(#[trigger] items@[j], a@[j]@),
        decreases a.len() - i,
    {
        items.push(text_value(&a[i]));
        i += 1;
    }
    JsonValue::Array(items)
}

fn environment_value(e: &EnvVars) -> (v: JsonValue)
    ensures
        is_text_object(v, e@),
{
    let mut members: Vec<(String, JsonValue)> = Vec::new();
    let mut i: usize = 0;
    while i < e.len()
        invariant
            i <= e@.len(),
            members@.len() == i,
            forall|j: int|
                0 <= j < i ==> (#[trigger] members@[j]).0@ == e@[j].0 && is_text(
                    members@[j].1,
                    e@[j].1,
                ),
        decreases e@.len() - i,
    {
        let (key, value) = e.entry(i);
        members.push((key.clone(), text_value(value)));
        i += 1;
    }
    JsonValue::Object(members)
}

/// The JSON object of a wrapper's settings.
pub fn record_value(r: &ShortcutRecord) -> (v: JsonValue)
    ensures
        describes(v, *r),
{
    let executable = match &r.executable_path {
        Some(p) => text_value(p),
        None => JsonValue::Null,
    };
    let mut m: Vec<(String, JsonValue)> = Vec::new();
    m.push((text::owned("name"), text_value(&r.name)));
    m.push((text::owned("targetPath"), text_value(&r.target_path)));
    m.push((text::owned("executablePath"), executable));
    m.push((text::owned("bundleId"), text_value(&r.bundle_id)));
    m.push((text::owned("dataPath"), text_value(&r.data_path)));
    m.push((text::owned("shortcutType"), text_value(&r.shortcut_type)));
    m.push((text::owned("launchMode"), text_value(&r.launch_mode)));
    m.push((text::owned("dataStrategy"), text_value(&r.data_strategy)));
    m.push((text::owned("eraseOnClose"), JsonValue::Bool(r.erase_on_close)));
    m.push((text::owned("menuBarControl"), JsonValue::Bool(r.menu_bar_control)));
    m.push((text::owned("dedicatedDockIcon"), JsonValue::Bool(r.dedicated_dock_icon)));
    m.push((text::owned("environment"), environment_value(&r.environment)));
    m.push((text::owned("arguments"), texts_value(&r.arguments)));
    JsonValue::Object(m)
}

/// The text of a wrapper's `config.json`, or why it could not be written.
pub fn config_json(r: &ShortcutRecord) -> (t: Result<String, String>)
    ensures
        match t {
            Ok(s) => config_file(*r, Ok(s@)),
            Err(e) => config_file(*r, Err(e@)),
        },
{
    let v = record_value(r);
    let t = pretty_json(&v);
    assert(describes(v, *r));
    t
}

/// The settings object records the data path under `dataPath`: looking the key
/// up gives the data path as a JSON string.
pub proof fn settings_record_the_data_path(v: JsonValue, r: ShortcutRecord)
    requires
        describes(v, r),
    ensures
        json::json_get(v, "dataPath"@) matches Some(d) && is_text(d, r.data_path@),
{
    reveal_strlit("name");
    reveal_strlit("targetPath");
    reveal_strlit("executablePath");
    reveal_strlit("bundleId");
    reveal_strlit("dataPath");
    let m = v->Object_0@;
    assert(m[0].0@ != "dataPath"@) by {
        assert(m[0].0@.len() != "dataPath"@.len());
    }
    assert(m[1].0@ != "dataPath"@) by {
        assert(m[1].0@[0] != "dataPath"@[0]);
    }
    assert(m[2].0@ != "dataPath"@) by {
        assert(m[2].0@[0] != "dataPath"@[0]);
    }
    assert(m[3].0@ != "dataPath"@) by {
        assert(m[3].0@[0] != "dataPath"@[0]);
    }
    assert(m.drop_first()[0] == m[1]);
    assert(m.drop_first().drop_first()[0] == m[2]);
    assert(m.drop_first().drop_first().drop_first()[0] == m[3]);
    assert(m.drop_first().drop_first().drop_first().drop_first()[0] == m[4]);
    assert(json::member(m, "dataPath"@) == json::member(m.drop_first(), "dataPath"@));
    assert(json::member(m.drop_first(), "dataPath"@) == json::member(
        m.drop_first().drop_first(),
        "dataPath"@,
    ));
    assert(json::member(m.drop_first().drop_first(), "dataPath"@) == json::member(
        m.drop_first().drop_first().drop_first(),
        "dataPath"@,
    ));
    assert(json::member(m.drop_first().drop_first().drop_first(), "dataPath"@) == json::member(
        m.drop_first().drop_first().drop_first().drop_first(),
        "dataPath"@,
    ));
}

} // verus!
