//! The commitizen scopes declared in a project's `package.json`, under
//! `config.commitizen.scopes`.
use vstd::prelude::*;
use crate::text::strip_final_newline;

verus! {

/// A JSON document, as read from `package.json`. Numbers keep their text.
/// An object lists its members in order.
#[derive(Debug)]
pub enum JsonValue {
    Null,
    Bool(bool),
    Number(String),
    Str(String),
    Array(Vec<JsonValue>),
    Object(Vec<(String, JsonValue)>),
}

/// The value of the first member named `key`.
pub open spec fn member(entries: Seq<(String, JsonValue)>, key: Seq<char>) -> Option<JsonValue>
    decreases entries.len(),
{
    if entries.len() == 0 {
        None
    } else if entries[0].0@ == key {
        Some(entries[0].1)
    } else {
        member(entries.drop_first(), key)
    }
}

/// `value[key]` in the manner of `serde_json`: the member named `key` of an
/// object, and `null` for a missing member or for a value that is not an
/// object.
pub open spec fn index_key(value: JsonValue, key: Seq<char>) -> JsonValue {
    match value {
        JsonValue::Object(entries) => match member(entries@, key) {
            Some(v) => v,
            None => JsonValue::Null,
        },
        _ => JsonValue::Null,
    }
}

/// The text of a JSON string (empty for any other value).
pub open spec fn string_text(value: JsonValue) -> Seq<char> {
    match value {
        JsonValue::Str(s) => s@,
        _ => Seq::<char>::empty(),
    }
}

/// `config.commitizen.scopes` of a `package.json` document.
pub open spec fn scopes_entry(doc: JsonValue) -> JsonValue {
    index_key(index_key(index_key(doc, "config"@), "commitizen"@), "scopes"@)
}

/// The scopes a `package.json` declares: `config.commitizen.scopes` must be
/// an array of strings; `None` where it is missing or is anything else.
pub open spec fn commitizen_scopes_of(doc: JsonValue) -> Option<Seq<Seq<char>>> {
    match scopes_entry(doc) {
        JsonValue::Array(items) => if forall|i: int|
            0 <= i < items@.len() ==> #[trigger] items@[i] is Str {
            Some(Seq::new(items@.len(), |i: int| string_text(items@[i])))
        } else {
            None
        },
        _ => None,
    }
}

/// The scopes are exactly the strings of `config.commitizen.scopes`: where
/// that entry is an array of strings, there are as many scopes as items,
/// the `i`-th scope being the text of the `i`-th item; where it is missing,
/// is not an array, or holds anything but strings, there are none.
pub proof fn lemma_scopes_are_the_listed_strings(doc: JsonValue)
    ensures
        ({
            let entry = index_key(index_key(index_key(doc, "config"@), "commitizen"@), "scopes"@);
            match entry {
                JsonValue::Array(items) => {
                    if forall|i: int| 0 <= i < items@.len() ==> #[trigger] items@[i] is Str {
                        &&& commitizen_scopes_of(doc) is Some
                        &&& commitizen_scopes_of(doc)->0.len() == items@.len()
                        &&& forall|i: int|
                            0 <= i < items@.len() ==> (items@[i] matches JsonValue::Str(text)
                                && #[trigger] commitizen_scopes_of(doc)->0[i] == text@)
                    } else {
                        commitizen_scopes_of(doc) is None
                    }
                },
                _ => commitizen_scopes_of(doc) is None,
            }
        }),
{
}

impl JsonValue {
    /// The value of the member named `key`, for an object that has one
    /// (`serde_json::Value::get`).
    pub fn get(&self, key: &str) -> (res: Option<&JsonValue>)
        ensures
            match *self {
                JsonValue::Object(entries) => match res {
                    Some(v) => member(entries@, key@) == Some(*v),
                    None => member(entries@, key@) is None,
                },
                _ => res is None,
            },
    {
        match self {
            JsonValue::Object(entries) => {
                let wanted = String::from_str(key);
                let n = entries.len();
                let mut i: usize = 0;
                assert(entries@.skip(0) =~= entries@);
                while i < n
                    invariant
                        n == entries@.len(),
                        i <= n,
                        wanted@ == key@,
                        *self == JsonValue::Object(*entries),
                        member(entries@, key@) == member(entries@.skip(i as int), key@),
                    decreases n - i,
                {
                    let ghost rest = entries@.skip(i as int);
                    if entries[i].0 == wanted {
                        assert(rest[0] == entries@[i as int]);
                        assert(rest.len() > 0 && rest[0].0@ == key@);
                        assert(member(rest, key@) == Some(rest[0].1));
                        return Some(&entries[i].1);
                    }
                    assert(rest.drop_first() =~= entries@.skip(i + 1));
                    i = i + 1;
                }
                None
            },
            _ => None,
        }
    }

    /// The items of an array (`serde_json::Value::as_array`).
    pub fn as_array(&self) -> (res: Option<&Vec<JsonValue>>)
        ensures
            match *self {
                JsonValue::Array(items) => res == Some(&items),
                _ => res is None,
            },
    {
        match self {
            JsonValue::Array(items) => Some(items),
            _ => None,
        }
    }

    /// The text of a string (`serde_json::Value::as_str`).
    pub fn as_str(&self) -> (res: Option<&str>)
        ensures
            match *self {
                JsonValue::Str(s) => res matches Some(t) && t@ == s@,
                _ => res is None,
            },
    {
        match self {
            JsonValue::Str(s) => Some(s.as_str()),
            _ => None,
        }
    }
}

/// `value[key]`, with `None` standing for `null`.
fn index_or_null<'a>(value: Option<&'a JsonValue>, key: &str) -> (res: Option<&'a JsonValue>)
    ensures
        match res {
            Some(v) => *v == index_key(
                match value {
                    Some(x) => *x,
                    None => JsonValue::Null,
                },
                key@,
            ),
            None => index_key(
                match value {
                    Some(x) => *x,
                    None => JsonValue::Null,
                },
                key@,
            ) == JsonValue::Null,
        },
{
    match value {
        Some(v) => v.get(key),
        None => None,
    }
}

/// The scopes that `package.json` declares under
/// `config.commitizen.scopes`; `None` where that entry is missing, is not
/// an array, or holds something other than strings.
pub fn commitizen_scopes(doc: &JsonValue) -> (res: Option<Vec<String>>)
    ensures
        match res {
            Some(scopes) => commitizen_scopes_of(*doc) == Some(scopes@.map_values(|s: String| s@)),
            None => commitizen_scopes_of(*doc) is None,
        },
{
    let config = index_or_null(Some(doc), "config");
    let commitizen = index_or_null(config, "commitizen");
    let scopes = index_or_null(commitizen, "scopes");
    let items = match scopes {
        Some(v) => match v.as_array() {
            Some(items) => items,
            None => {
                return None;
            },
        },
        None => {
            return None;
        },
    };
    let ghost entry = scopes_entry(*doc);
    assert(entry == JsonValue::Array(*items));
    let mut out: Vec<String> = Vec::new();
    let n = items.len();
    let mut i: usize = 0;
    while i < n
        invariant
            n == items@.len(),
            i <= n,
            out@.len() == i,
            scopes_entry(*doc) == JsonValue::Array(*items),
            forall|j: int| 0 <= j < i ==> #[trigger] items@[j] is Str,
            forall|j: int| 0 <= j < i ==> #[trigger] out@[j]@ == string_text(items@[j]),
        decreases n - i,
    {
        match items[i].as_str() {
            Some(text) => {
                out.push(String::from_str(text));
            },
            None => {
                assert(!(items@[i as int] is Str));
                return None;
            },
        }
        i = i + 1;
    }
    assert(out@.map_values(|s: String| s@) =~= Seq::new(
        items@.len(),
        |k: int| string_text(items@[k]),
    ));
    Some(out)
}

/// Where `package.json` lies, from the output of
/// `git rev-parse --show-toplevel` (the repository root and a line break).
pub fn package_json_path(repo_root_output: &str) -> (res: String)
    requires
        repo_root_output@.len() > 0,
        repo_root_output@.last() == '\n',
    ensures
        res@ == repo_root_output@.drop_last() + "/package.json"@,
{
    let root = strip_final_newline(repo_root_output);
    let mut path = String::from_str(root);
    path.append("/package.json");
    path
}

} // verus!
