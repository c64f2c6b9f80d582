//! JSON values, from the `serde_json` crate.

use crate::text::{decimal, opt_view, views};
use serde_json::Value;
use vstd::prelude::*;

verus! {

/// A JSON value.
#[verifier::external_type_specification]
#[verifier::external_body]
pub struct ExValue(serde_json::Value);

/// What a JSON value says.
pub enum JsonView {
    Null,
    Bool(bool),
    /// A number, by its decimal notation.
    Number(Seq<char>),
    Text(Seq<char>),
    List(Seq<JsonView>),
    /// The members, in the order the value keeps them.
    Object(Seq<JsonEntryView>),
}

pub struct JsonEntryView {
    pub key: Seq<char>,
    pub value: JsonView,
}

/// A member of an object.
pub struct JsonEntry {
    pub key: String,
    pub value: Value,
}

impl View for JsonEntry {
    type V = JsonEntryView;

    open spec fn view(&self) -> JsonEntryView {
        JsonEntryView { key: self.key@, value: json_view(self.value) }
    }
}

/// What the values of a list say.
pub open spec fn json_views(v: Seq<Value>) -> Seq<JsonView> {
    v.map_values(|x: Value| json_view(x))
}

/// What a value holds.
pub uninterp spec fn json_view(v: serde_json::Value) -> JsonView;

/// The value that a text denotes; `None` where it is not JSON.
pub uninterp spec fn parsed_json(text: Seq<char>) -> Option<JsonView>;

/// The members of the object that `serde_json` makes of a list of entries, in the
/// order it keeps them.
pub uninterp spec fn object_members(entries: Seq<JsonEntryView>) -> Seq<JsonEntryView>;

/// A value written out with line breaks and indentation.
pub uninterp spec fn pretty_json(v: JsonView) -> Seq<char>;

/// A value written out without any white space.
pub uninterp spec fn compact_json(v: JsonView) -> Seq<char>;

/// `serde_json::from_str` reads a text as a value.
#[verifier::external_body]
pub(crate) fn parse_json(text: &str) -> (r: Option<Value>)
    ensures
        r is Some == parsed_json(text@) is Some,
        r matches Some(v) ==> parsed_json(text@) == Some(json_view(v)),
{
    serde_json::from_str(text).ok()
}

/// `Value::as_str` gives the text of a string, and nothing of any other value.
#[verifier::external_body]
pub(crate) fn json_text(v: &Value) -> (r: Option<String>)
    ensures
        r is Some == json_view(*v) is Text,
        r matches Some(s) ==> json_view(*v) == JsonView::Text(s@),
{
    v.as_str().map(|s| s.to_owned())
}

/// `Value::as_object` gives the members of an object, and nothing of any other
/// value; they are handed out in the order of the object.
#[verifier::external_body]
pub(crate) fn json_entries(v: &Value) -> (r: Option<Vec<JsonEntry>>)
    ensures
        r is Some == json_view(*v) is Object,
        r matches Some(es) ==> json_view(*v) == JsonView::Object(views(es@)),
{
    v.as_object().map(|o| o.iter().map(|(k, v)| JsonEntry { key: k.clone(), value: v.clone() }).collect())
}

/// `Value::Null`.
#[verifier::external_body]
pub(crate) fn null() -> (r: Value)
    ensures
        json_view(r) == JsonView::Null,
{
    Value::Null
}

/// `Value::Bool`.
#[verifier::external_body]
pub(crate) fn boolean(b: bool) -> (r: Value)
    ensures
        json_view(r) == JsonView::Bool(b),
{
    Value::Bool(b)
}

/// `Value::from` makes a number of an unsigned integer.
#[verifier::external_body]
pub(crate) fn number(n: u64) -> (r: Value)
    ensures
        json_view(r) == JsonView::Number(decimal(n as nat)),
{
    Value::from(n)
}

/// `Value::String`.
#[verifier::external_body]
pub(crate) fn string(s: &str) -> (r: Value)
    ensures
        json_view(r) == JsonView::Text(s@),
{
    Value::String(s.to_owned())
}

/// `Value::Array`.
#[verifier::external_body]
pub(crate) fn list(items: Vec<Value>) -> (r: Value)
    ensures
        json_view(r) == JsonView::List(json_views(items@)),
{
    Value::Array(items)
}

/// No two entries have the same key.
pub open spec fn distinct_keys(entries: Seq<JsonEntryView>) -> bool {
    forall|i: int, j: int| 0 <= i < j < entries.len() ==> (#[trigger] entries[i]).key != (#[trigger] entries[j]).key
}

/// `Value::Object`, of the map that the entries are collected into: every member is
/// one of the entries, and where no two of them share a key, each key has the value
/// it was given. Which of several entries with one key stays is left unsaid.
#[verifier::external_body]
pub(crate) fn object(entries: Vec<JsonEntry>) -> (r: Value)
    ensures
        json_view(r) == JsonView::Object(object_members(views(entries@))),
        json_view(r) matches JsonView::Object(ms) ==> forall|i: int|
            0 <= i < ms.len() ==> views(entries@).contains(#[trigger] ms[i]),
        distinct_keys(views(entries@)) ==> forall|key: Seq<char>| #[trigger]
            json_member(json_view(r), key) == json_member(JsonView::Object(views(entries@)), key),
{
    Value::Object(entries.into_iter().map(|e| (e.key, e.value)).collect())
}

/// An object whose members are texts and nulls.
pub open spec fn texts_only(v: JsonView) -> bool {
    v matches JsonView::Object(ms) && forall|i: int|
        0 <= i < ms.len() ==> (#[trigger] ms[i]).value is Text || ms[i].value is Null
}

/// `serde_json::to_string_pretty` writes a value out with indentation. A value
/// holds only string keys, so writing it cannot fail. An object of texts and nulls
/// is read back by `serde_json::from_str` as it was; of other values, whose numbers
/// may be rounded and whose nesting may be too deep to read, that is left unsaid.
#[verifier::external_body]
pub(crate) fn pretty(v: &Value) -> (r: String)
    ensures
        r@ == pretty_json(json_view(*v)),
        texts_only(json_view(*v)) ==> parsed_json(r@) == Some(json_view(*v)),
{
    serde_json::to_string_pretty(v).unwrap_or_default()
}

/// `serde_json::to_string` writes a value out without white space. A value holds
/// only string keys, so writing it cannot fail.
#[verifier::external_body]
pub(crate) fn compact(v: &Value) -> (r: String)
    ensures
        r@ == compact_json(json_view(*v)),
{
    serde_json::to_string(v).unwrap_or_default()
}

// --- building and reading, in verified code ------------------------------------------------
/// An optional text: the text, or null.
pub open spec fn text_or_null(o: Option<Seq<char>>) -> JsonView {
    match o {
        Some(s) => JsonView::Text(s),
        None => JsonView::Null,
    }
}

pub fn string_or_null(o: &Option<String>) -> (r: Value)
    ensures
        json_view(r) == text_or_null(opt_view(*o)),
{
    match o {
        Some(s) => string(s.as_str()),
        None => null(),
    }
}

/// A text, or null where it is empty.
pub open spec fn text_unless_empty(s: Seq<char>) -> JsonView {
    if s.len() == 0 {
        JsonView::Null
    } else {
        JsonView::Text(s)
    }
}

pub fn string_unless_empty(s: &str) -> (r: Value)
    ensures
        json_view(r) == text_unless_empty(s@),
{
    if s.is_empty() {
        null()
    } else {
        string(s)
    }
}

pub open spec fn item(key: Seq<char>, value: JsonView) -> JsonEntryView {
    JsonEntryView { key, value }
}

pub fn entry(key: &str, value: Value) -> (r: JsonEntry)
    ensures
        r@ == item(key@, json_view(value)),
{
    JsonEntry { key: key.to_owned(), value }
}

/// The member of an object with a key.
pub open spec fn json_member(v: JsonView, key: Seq<char>) -> Option<JsonView> {
    match v {
        JsonView::Object(es) => match crate::lists::first(es, |e: JsonEntryView| e.key == key) {
            Some(e) => Some(e.value),
            None => None,
        },
        _ => None,
    }
}

/// The text of the member of an object with a key.
pub open spec fn json_text_member(v: JsonView, key: Seq<char>) -> Option<Seq<char>> {
    match json_member(v, key) {
        Some(JsonView::Text(s)) => Some(s),
        _ => None,
    }
}

/// An entry whose key no other entry has is the member with that key.
pub proof fn entry_is_member(entries: Seq<JsonEntryView>, i: int)
    requires
        distinct_keys(entries),
        0 <= i < entries.len(),
    ensures
        json_member(JsonView::Object(entries), entries[i].key) == Some(entries[i].value),
{
    let p = |e: JsonEntryView| e.key == entries[i].key;
    crate::lists::first_found(entries, p);
    assert(p(entries[i]));
    let e = crate::lists::first(entries, p)->0;
    let j = entries.index_of(e);
    if j < i {
        assert(entries[j].key != entries[i].key);
    } else if i < j {
        assert(entries[i].key != entries[j].key);
    }
}

pub proof fn json_views_push(v: Seq<Value>, x: Value)
    ensures
        json_views(v.push(x)) == json_views(v).push(json_view(x)),
{
    assert(json_views(v.push(x)) =~= json_views(v).push(json_view(x)));
}

/// The text of the member of an object with a key.
pub fn text_member(v: &Value, key: &str) -> (r: Option<String>)
    ensures
        opt_view(r) == json_text_member(json_view(*v), key@),
{
    match json_entries(v) {
        Some(es) => {
            let is_it = |e: &JsonEntry| -> (r: bool)
                ensures
                    r == (e@.key == key@),
                {
                    crate::text::same(e.key.as_str(), key)
                };
            match crate::lists::find_first(&es, is_it, Ghost(|e: JsonEntryView| e.key == key@)) {
                Some(e) => json_text(&e.value),
                None => None,
            }
        },
        None => None,
    }
}

} // verus!
