//! JSON documents, as far as the linter reads them.

use vstd::prelude::*;

use crate::text::same_text;

verus! {

/// A JSON document. A number is kept as the unsigned integer that it is, if it
/// is one. The keys of an object stand in it once each; should one stand in it
/// twice, the first counts.
pub enum Json {
    Null,
    Bool(bool),
    Number(Option<u64>),
    Str(String),
    Array(Vec<Json>),
    Object(Vec<(String, Json)>),
}

/// A JSON document with texts and lists as sequences.
pub enum JsonView {
    Null,
    Bool(bool),
    Number(Option<u64>),
    Str(Seq<char>),
    Array(Seq<JsonView>),
    Object(Seq<(Seq<char>, JsonView)>),
}

impl View for Json {
    type V = JsonView;

    open spec fn view(&self) -> JsonView {
        self.document()
    }
}

impl Json {
    /// The document with texts and lists as sequences.
    pub open spec fn document(self) -> JsonView
        decreases self,
    {
        match self {
            Json::Null => JsonView::Null,
            Json::Bool(flag) => JsonView::Bool(flag),
            Json::Number(number) => JsonView::Number(number),
            Json::Str(text) => JsonView::Str(text@),
            Json::Array(items) => JsonView::Array(
                Seq::new(
                    items@.len(),
                    |i: int|
                        if 0 <= i < items@.len() {
                            items@[i].document()
                        } else {
                            JsonView::Null
                        },
                ),
            ),
            Json::Object(entries) => JsonView::Object(
                Seq::new(
                    entries@.len(),
                    |i: int|
                        if 0 <= i < entries@.len() {
                            (entries@[i].0@, entries@[i].1.document())
                        } else {
                            (Seq::empty(), JsonView::Null)
                        },
                ),
            ),
        }
    }
}

/// The documents `items`, each by its view.
pub open spec fn item_views(items: Seq<Json>) -> Seq<JsonView> {
    items.map_values(|item: Json| item@)
}

/// The value of the first of `entries` from `from` on that has the key `key`.
pub open spec fn entry_from(
    entries: Seq<(Seq<char>, JsonView)>,
    key: Seq<char>,
    from: int,
) -> Option<JsonView>
    decreases entries.len() - from,
{
    if from < 0 || from >= entries.len() {
        None
    } else if entries[from].0 == key {
        Some(entries[from].1)
    } else {
        entry_from(entries, key, from + 1)
    }
}

impl JsonView {
    /// The value under `key`, where the document is an object that has it.
    pub open spec fn get(self, key: Seq<char>) -> Option<JsonView> {
        match self {
            JsonView::Object(entries) => entry_from(entries, key, 0),
            _ => None,
        }
    }

    /// The text under `key`, where there is one.
    pub open spec fn get_str(self, key: Seq<char>) -> Option<Seq<char>> {
        match self.get(key) {
            Some(JsonView::Str(text)) => Some(text),
            _ => None,
        }
    }

    /// The unsigned integer under `key`, where there is one.
    pub open spec fn get_u64(self, key: Seq<char>) -> Option<u64> {
        match self.get(key) {
            Some(JsonView::Number(number)) => number,
            _ => None,
        }
    }

    /// The truth value under `key`, where there is one.
    pub open spec fn get_bool(self, key: Seq<char>) -> Option<bool> {
        match self.get(key) {
            Some(JsonView::Bool(flag)) => Some(flag),
            _ => None,
        }
    }

    /// The list under `key`, where there is one.
    pub open spec fn get_array(self, key: Seq<char>) -> Option<Seq<JsonView>> {
        match self.get(key) {
            Some(JsonView::Array(items)) => Some(items),
            _ => None,
        }
    }
}

impl Json {
    /// The value under `key`, where the document is an object that has it.
    pub fn get(&self, key: &str) -> (found: Option<&Json>)
        ensures
            match found {
                Some(value) => self@.get(key@) == Some(value@),
                None => self@.get(key@) is None,
            },
    {
        match self {
            Json::Object(entries) => {
                let ghost views = self@->Object_0;
                for i in 0..entries.len()
                    invariant
                        self == Json::Object(*entries),
                        views == self@->Object_0,
                        self@.get(key@) == entry_from(views, key@, i as int),
                {
                    assert(views[i as int].0 == entries@[i as int].0@);
                    assert(views[i as int].1 == entries@[i as int].1@);
                    if same_text(entries[i].0.as_str(), key) {
                        return Some(&entries[i].1);
                    }
                }
                None
            },
            _ => None,
        }
    }

    /// The text under `key`, where there is one.
    pub fn get_str(&self, key: &str) -> (found: Option<&str>)
        ensures
            match found {
                Some(text) => self@.get_str(key@) == Some(text@),
                None => self@.get_str(key@) is None,
            },
    {
        match self.get(key) {
            Some(Json::Str(text)) => Some(text.as_str()),
            _ => None,
        }
    }

    /// The unsigned integer under `key`, where there is one.
    pub fn get_u64(&self, key: &str) -> (found: Option<u64>)
        ensures
            found == self@.get_u64(key@),
    {
        match self.get(key) {
            Some(Json::Number(number)) => *number,
            _ => None,
        }
    }

    /// The truth value under `key`, where there is one.
    pub fn get_bool(&self, key: &str) -> (found: Option<bool>)
        ensures
            found == self@.get_bool(key@),
    {
        match self.get(key) {
            Some(Json::Bool(flag)) => Some(*flag),
            _ => None,
        }
    }

    /// The list under `key`, where there is one.
    pub fn get_array(&self, key: &str) -> (found: Option<&Vec<Json>>)
        ensures
            match found {
                Some(items) => self@.get_array(key@) == Some(item_views(items@)),
                None => self@.get_array(key@) is None,
            },
    {
        match self.get(key) {
            Some(Json::Array(items)) => {
                assert(self@.get_array(key@)->0 =~= item_views(items@));
                Some(items)
            },
            _ => None,
        }
    }
}

/// `serde_json::Value`, the JSON document of `serde_json`.
#[verifier::external_type_specification]
#[verifier::external_body]
pub struct ExValue(serde_json::Value);

/// What a `serde_json` document holds.
pub uninterp spec fn contents(value: serde_json::Value) -> JsonView;

/// The document that `serde_json::from_str` reads from `text`, and `None` where
/// `text` is no JSON document.
pub uninterp spec fn parsed(text: Seq<char>) -> Option<JsonView>;

/// Calls `serde_json::from_str`, which reads the whole of `text` as one
/// document: what it returns depends on `text` alone.
#[verifier::external_body]
fn read_value(text: &str) -> (read: Option<serde_json::Value>)
    ensures
        match read {
            Some(value) => parsed(text@) == Some(contents(value)),
            None => parsed(text@) is None,
        },
{
    serde_json::from_str(text).ok()
}

/// Takes a `serde_json::Value` apart, variant by variant; of a number,
/// `serde_json::Number::as_u64` is kept. The result is what the value holds.
#[verifier::external_body]
fn json_of_value(value: serde_json::Value) -> (json: Json)
    ensures
        json@ == contents(value),
{
    match value {
        serde_json::Value::Null => Json::Null,
        serde_json::Value::Bool(flag) => Json::Bool(flag),
        serde_json::Value::Number(number) => Json::Number(number.as_u64()),
        serde_json::Value::String(text) => Json::Str(text),
        serde_json::Value::Array(items) => {
            Json::Array(items.into_iter().map(json_of_value).collect())
        },
        serde_json::Value::Object(entries) => {
            Json::Object(entries.into_iter().map(|(key, item)| (key, json_of_value(item))).collect())
        },
    }
}

/// Reads `text` as a JSON document.
pub fn parse(text: &str) -> (json: Option<Json>)
    ensures
        match json {
            Some(json) => parsed(text@) == Some(json@),
            None => parsed(text@) is None,
        },
{
    match read_value(text) {
        Some(value) => Some(json_of_value(value)),
        None => None,
    }
}

/// The value under a key is that of the first entry with the key; where no entry
/// has it, there is none. Only an object has values under keys.
pub proof fn values_are_found_by_their_keys(json: JsonView, key: Seq<char>)
    ensures
        match json {
            JsonView::Object(entries) => {
                &&& forall|k: int|
                    0 <= k < entries.len() && (#[trigger] entries[k]).0 == key && (forall|j: int|
                        0 <= j < k ==> (#[trigger] entries[j]).0 != key) ==> json.get(key) == Some(
                        entries[k].1,
                    )
                &&& (forall|k: int| 0 <= k < entries.len() ==> (#[trigger] entries[k]).0 != key)
                    ==> json.get(key) is None
            },
            _ => json.get(key) is None,
        },
{
    if let JsonView::Object(entries) = json {
        assert forall|k: int|
            0 <= k < entries.len() && (#[trigger] entries[k]).0 == key && (forall|j: int|
                0 <= j < k ==> (#[trigger] entries[j]).0 != key) implies json.get(key) == Some(
            entries[k].1,
        ) by {
            entry_is_first(entries, key, 0, k);
        }
        if forall|k: int| 0 <= k < entries.len() ==> (#[trigger] entries[k]).0 != key {
            entry_is_first(entries, key, 0, entries.len() as int);
        }
    }
}

proof fn entry_is_first(entries: Seq<(Seq<char>, JsonView)>, key: Seq<char>, from: int, k: int)
    requires
        0 <= from <= k <= entries.len(),
        forall|j: int| from <= j < k ==> (#[trigger] entries[j]).0 != key,
        k < entries.len() ==> entries[k].0 == key,
    ensures
        entry_from(entries, key, from) == if k < entries.len() {
            Some(entries[k].1)
        } else {
            None
        },
    decreases k - from,
{
    if from < k {
        assert(entries[from].0 != key);
        entry_is_first(entries, key, from + 1, k);
    }
}

/// A value is read as a text, an unsigned integer, a truth value or a list exactly
/// where it is one.
pub proof fn values_are_read_as_what_they_are(json: JsonView, key: Seq<char>)
    ensures
        json.get(key) is None ==> json.get_str(key) is None && json.get_u64(key) is None
            && json.get_bool(key) is None && json.get_array(key) is None,
        json.get(key) matches Some(value) ==> {
            &&& match value {
                JsonView::Str(text) => json.get_str(key) == Some(text),
                _ => json.get_str(key) is None,
            }
            &&& match value {
                JsonView::Number(Some(number)) => json.get_u64(key) == Some(number),
                _ => json.get_u64(key) is None,
            }
            &&& match value {
                JsonView::Bool(flag) => json.get_bool(key) == Some(flag),
                _ => json.get_bool(key) is None,
            }
            &&& match value {
                JsonView::Array(items) => json.get_array(key) == Some(items),
                _ => json.get_array(key) is None,
            }
        },
{
}

/// A document is known by its view in all that it holds: what it is, and each of
/// its items or entries in order.
pub proof fn documents_are_viewed_whole(json: Json, items: Seq<Json>, i: int)
    ensures
        match json {
            Json::Null => json@ == JsonView::Null,
            Json::Bool(flag) => json@ == JsonView::Bool(flag),
            Json::Number(number) => json@ == JsonView::Number(number),
            Json::Str(text) => json@ == JsonView::Str(text@),
            Json::Array(list) => {
                &&& json@ matches JsonView::Array(views)
                &&& views.len() == list@.len()
                &&& 0 <= i < list@.len() ==> views[i] == list@[i]@
            },
            Json::Object(entries) => {
                &&& json@ matches JsonView::Object(views)
                &&& views.len() == entries@.len()
                &&& 0 <= i < entries@.len() ==> views[i].0 == entries@[i].0@ && views[i].1
                    == entries@[i].1@
            },
        },
        item_views(items).len() == items.len(),
        0 <= i < items.len() ==> item_views(items)[i] == items[i]@,
{
}

} // verus!
