//! JSON documents as the Slack API sends them, and reading fields out of them.
use serde_json::Value;
use vstd::prelude::*;
use vstd::string::*;

use crate::text::{same_text, str_opt};

verus! {

/// A JSON document. The fields of an object stand in the order in which they are
/// walked; of a number only its value as an `i64` is kept, where it has one.
pub enum Json {
    Null,
    Bool(bool),
    Number(Option<i64>),
    Text(String),
    Array(Vec<Json>),
    Object(Vec<(String, Json)>),
}

/// What a JSON document says.
pub enum JsonValue {
    Null,
    Bool(bool),
    Number(Option<i64>),
    Text(Seq<char>),
    Array(Seq<JsonValue>),
    Object(Seq<(Seq<char>, JsonValue)>),
}

impl Json {
    /// What this document says.
    pub open spec fn value(&self) -> JsonValue
        decreases self,
    {
        match self {
            Json::Null => JsonValue::Null,
            Json::Bool(b) => JsonValue::Bool(*b),
            Json::Number(n) => JsonValue::Number(*n),
            Json::Text(s) => JsonValue::Text(s@),
            Json::Array(items) => JsonValue::Array(
                Seq::new(
                    items@.len(),
                    |i: int|
                        if 0 <= i < items@.len() {
                            items@[i].value()
                        } else {
                            arbitrary()
                        },
                ),
            ),
            Json::Object(fields) => JsonValue::Object(
                Seq::new(
                    fields@.len(),
                    |i: int|
                        if 0 <= i < fields@.len() {
                            (fields@[i].0@, fields@[i].1.value())
                        } else {
                            arbitrary()
                        },
                ),
            ),
        }
    }
}

impl View for Json {
    type V = JsonValue;

    open spec fn view(&self) -> JsonValue {
        self.value()
    }
}

/// What the documents of a list say.
pub open spec fn values(items: Seq<Json>) -> Seq<JsonValue> {
    items.map_values(|j: Json| j@)
}

/// What an optional document says.
pub open spec fn value_opt(o: Option<&Json>) -> Option<JsonValue> {
    match o {
        Some(j) => Some(j@),
        None => None,
    }
}

/// The value of the first field named `key`.
pub open spec fn lookup(fields: Seq<(Seq<char>, JsonValue)>, key: Seq<char>) -> Option<JsonValue>
    decreases fields.len(),
{
    if fields.len() == 0 {
        None
    } else if fields[0].0 == key {
        Some(fields[0].1)
    } else {
        lookup(fields.drop_first(), key)
    }
}

impl JsonValue {
    /// The field named `key`, where this is an object that has one.
    pub open spec fn field(self, key: Seq<char>) -> Option<JsonValue> {
        match self {
            JsonValue::Object(fields) => lookup(fields, key),
            _ => None,
        }
    }

    /// The characters, where this is a string.
    pub open spec fn as_text(self) -> Option<Seq<char>> {
        match self {
            JsonValue::Text(s) => Some(s),
            _ => None,
        }
    }

    /// The items, where this is an array.
    pub open spec fn as_items(self) -> Option<Seq<JsonValue>> {
        match self {
            JsonValue::Array(items) => Some(items),
            _ => None,
        }
    }

    /// The number, where this is one that an `i64` holds.
    pub open spec fn as_int(self) -> Option<i64> {
        match self {
            JsonValue::Number(n) => n,
            _ => None,
        }
    }

    /// The string in the field named `key`.
    pub open spec fn text_field(self, key: Seq<char>) -> Option<Seq<char>> {
        match self.field(key) {
            Some(v) => v.as_text(),
            None => None,
        }
    }

    /// The string in the field named `key`, or `default`.
    pub open spec fn text_or(self, key: Seq<char>, default: Seq<char>) -> Seq<char> {
        match self.text_field(key) {
            Some(s) => s,
            None => default,
        }
    }

    /// The array in the field named `key`.
    pub open spec fn items_field(self, key: Seq<char>) -> Option<Seq<JsonValue>> {
        match self.field(key) {
            Some(v) => v.as_items(),
            None => None,
        }
    }

    /// The array in the field named `key`; empty where there is none.
    pub open spec fn items_or_empty(self, key: Seq<char>) -> Seq<JsonValue> {
        match self.items_field(key) {
            Some(items) => items,
            None => Seq::empty(),
        }
    }

    /// The number in the field named `key`, or `default`.
    pub open spec fn int_or(self, key: Seq<char>, default: i64) -> i64 {
        match self.field(key) {
            Some(v) => match v.as_int() {
                Some(n) => n,
                None => default,
            },
            None => default,
        }
    }

    /// Whether the field named `key` is the boolean `true`.
    pub open spec fn is_true(self, key: Seq<char>) -> bool {
        self.field(key) == Some(JsonValue::Bool(true))
    }
}

impl Json {
    /// The field named `key`, where this is an object that has one.
    pub fn get(&self, key: &str) -> (r: Option<&Json>)
        ensures
            value_opt(r) == self@.field(key@),
    {
        match self {
            Json::Object(fields) => {
                let ghost all = self@->Object_0;
                let mut i: usize = 0;
                assert(all.skip(0) =~= all);
                while i < fields.len()
                    invariant
                        i <= fields@.len(),
                        all.len() == fields@.len(),
                        forall|j: int|
                            0 <= j < all.len() ==> #[trigger] all[j] == (
                                fields@[j].0@,
                                fields@[j].1@,
                            ),
                        self@ == JsonValue::Object(all),
                        lookup(all.skip(i as int), key@) == lookup(all, key@),
                    decreases fields@.len() - i,
                {
                    let ghost rest = all.skip(i as int);
                    assert(rest[0] == all[i as int]);
                    if same_text(fields[i].0.as_str(), key) {
                        return Some(&fields[i].1);
                    }
                    assert(rest.drop_first() =~= all.skip(i + 1));
                    i += 1;
                }
                None
            },
            _ => None,
        }
    }

    /// The characters, where this is a string.
    pub fn as_str(&self) -> (r: Option<&str>)
        ensures
            str_opt(r) == self@.as_text(),
    {
        match self {
            Json::Text(s) => Some(s.as_str()),
            _ => None,
        }
    }

    /// The items, where this is an array.
    pub fn as_array(&self) -> (r: Option<&Vec<Json>>)
        ensures
            self@.as_items() == (match r {
                Some(items) => Some(values(items@)),
                None => None,
            }),
    {
        match self {
            Json::Array(items) => {
                assert(self@->Array_0 =~= values(items@));
                Some(items)
            },
            _ => None,
        }
    }

    /// The number, where this is one that an `i64` holds.
    pub fn as_i64(&self) -> (r: Option<i64>)
        ensures
            r == self@.as_int(),
    {
        match self {
            Json::Number(n) => *n,
            _ => None,
        }
    }

    /// The string in the field named `key`.
    pub fn text_at(&self, key: &str) -> (r: Option<&str>)
        ensures
            str_opt(r) == self@.text_field(key@),
    {
        match self.get(key) {
            Some(v) => v.as_str(),
            None => None,
        }
    }

    /// The string in the field named `key`, or `default`.
    pub fn text_at_or<'a>(&'a self, key: &str, default: &'a str) -> (r: &'a str)
        ensures
            r@ == self@.text_or(key@, default@),
    {
        match self.text_at(key) {
            Some(s) => s,
            None => default,
        }
    }

    /// The array in the field named `key`.
    pub fn items_at(&self, key: &str) -> (r: Option<&Vec<Json>>)
        ensures
            self@.items_field(key@) == (match r {
                Some(items) => Some(values(items@)),
                None => None,
            }),
    {
        match self.get(key) {
            Some(v) => v.as_array(),
            None => None,
        }
    }

    /// The number in the field named `key`, or `default`.
    pub fn int_at_or(&self, key: &str, default: i64) -> (r: i64)
        ensures
            r == self@.int_or(key@, default),
    {
        match self.get(key) {
            Some(v) => match v.as_i64() {
                Some(n) => n,
                None => default,
            },
            None => default,
        }
    }

    /// Whether the field named `key` is the boolean `true`.
    pub fn flag_at(&self, key: &str) -> (r: bool)
        ensures
            r == self@.is_true(key@),
    {
        match self.get(key) {
            Some(Json::Bool(b)) => *b,
            _ => false,
        }
    }
}

// ---------------------------------------------------------------------------
// Parsing.
// ---------------------------------------------------------------------------

/// `serde_json::Value`, a parsed document.
#[verifier::external_type_specification]
#[verifier::external_body]
pub struct ExValue(serde_json::Value);

/// What a `serde_json::Value` holds.
pub uninterp spec fn value_tree(v: serde_json::Value) -> JsonValue;

/// What `serde_json::from_str` reads from a text: a document, or none where the
/// text is not JSON.
pub uninterp spec fn parsed_text(text: Seq<char>) -> Option<JsonValue>;

/// What `serde_json::from_slice` reads from bytes: a document, or none where the
/// bytes are not JSON.
pub uninterp spec fn parsed_bytes(bytes: Seq<u8>) -> Option<JsonValue>;

/// Calls `serde_json::from_str`. Claims that what it reads, or that it reads
/// nothing, depends on the characters of the text alone.
#[verifier::external_body]
fn value_of_text(text: &str) -> (r: Option<Value>)
    ensures
        parsed_text(text@) == (match r {
            Some(v) => Some(value_tree(v)),
            None => None,
        }),
{
    serde_json::from_str::<Value>(text).ok()
}

/// Calls `serde_json::from_slice`. Claims that what it reads, or that it reads
/// nothing, depends on the bytes alone.
#[verifier::external_body]
fn value_of_bytes(bytes: &[u8]) -> (r: Option<Value>)
    ensures
        parsed_bytes(bytes@) == (match r {
            Some(v) => Some(value_tree(v)),
            None => None,
        }),
{
    serde_json::from_slice::<Value>(bytes).ok()
}

/// Takes a `serde_json::Value` apart, variant by variant; a number by
/// `serde_json::Number::as_i64`. Claims that the copy holds what the value held.
#[verifier::external_body]
fn tree_of(v: Value) -> (r: Json)
    ensures
        r@ == value_tree(v),
{
    match v {
        Value::Null => Json::Null,
        Value::Bool(b) => Json::Bool(b),
        Value::Number(n) => Json::Number(n.as_i64()),
        Value::String(s) => Json::Text(s),
        Value::Array(items) => Json::Array(items.into_iter().map(tree_of).collect()),
        Value::Object(m) => Json::Object(m.into_iter().map(|(k, v)| (k, tree_of(v))).collect()),
    }
}

/// Reads a JSON document from a text.
pub fn parse_json(text: &str) -> (r: Option<Json>)
    ensures
        parsed_text(text@) == (match r {
            Some(j) => Some(j@),
            None => None,
        }),
{
    match value_of_text(text) {
        Some(v) => Some(tree_of(v)),
        None => None,
    }
}

/// Reads a JSON document from the bytes of a response.
pub fn parse_json_bytes(bytes: &[u8]) -> (r: Option<Json>)
    ensures
        parsed_bytes(bytes@) == (match r {
            Some(j) => Some(j@),
            None => None,
        }),
{
    match value_of_bytes(bytes) {
        Some(v) => Some(tree_of(v)),
        None => None,
    }
}

// ---------------------------------------------------------------------------
// Laws.
// ---------------------------------------------------------------------------

/// An object gives the value of the first field of a name, whatever its other fields are,
/// and nothing where it has no field of that name.
pub proof fn law_fields_are_found_by_name(
    fields: Seq<(Seq<char>, JsonValue)>,
    key: Seq<char>,
    i: int,
)
    ensures
        0 <= i < fields.len() && fields[i].0 == key && (forall|j: int|
            0 <= j < i ==> (#[trigger] fields[j]).0 != key) ==> JsonValue::Object(fields).field(key)
            == Some(fields[i].1),
        (forall|j: int| 0 <= j < fields.len() ==> (#[trigger] fields[j]).0 != key)
            ==> JsonValue::Object(fields).field(key) is None,
    decreases fields.len(),
{
    if fields.len() > 0 {
        let rest = fields.drop_first();
        law_fields_are_found_by_name(rest, key, i - 1);
        if forall|j: int| 0 <= j < fields.len() ==> (#[trigger] fields[j]).0 != key {
            assert forall|j: int| 0 <= j < rest.len() implies (#[trigger] rest[j]).0 != key by {
                assert(rest[j] == fields[j + 1]);
            }
            assert(fields[0].0 != key);
        }
        if 0 < i < fields.len() && fields[i].0 == key && (forall|j: int|
            0 <= j < i ==> (#[trigger] fields[j]).0 != key) {
            assert(rest[i - 1] == fields[i]);
            assert forall|j: int| 0 <= j < i - 1 implies (#[trigger] rest[j]).0 != key by {
                assert(rest[j] == fields[j + 1]);
            }
            assert(fields[0].0 != key);
        }
    }
}

/// What is no object has no fields.
pub proof fn law_only_objects_have_fields(v: JsonValue, key: Seq<char>)
    requires
        !(v is Object),
    ensures
        v.field(key) is None,
{
}

/// A field is read as a string, a list, a number or a flag exactly where it is one.
pub proof fn law_fields_are_read_by_kind(
    v: JsonValue,
    key: Seq<char>,
    text: Seq<char>,
    default: Seq<char>,
    items: Seq<JsonValue>,
    n: i64,
    other: i64,
)
    ensures
        v.text_field(key) == Some(text) <==> v.field(key) == Some(JsonValue::Text(text)),
        v.field(key) == Some(JsonValue::Text(text)) ==> v.text_or(key, default) == text,
        !(v.field(key) matches Some(JsonValue::Text(s))) ==> v.text_field(key) is None && v.text_or(
            key,
            default,
        ) == default,
        v.items_field(key) == Some(items) <==> v.field(key) == Some(JsonValue::Array(items)),
        v.field(key) == Some(JsonValue::Array(items)) ==> v.items_or_empty(key) == items,
        !(v.field(key) matches Some(JsonValue::Array(l))) ==> v.items_or_empty(key).len() == 0,
        v.field(key) == Some(JsonValue::Number(Some(n))) ==> v.int_or(key, other) == n,
        !(v.field(key) matches Some(JsonValue::Number(Some(k)))) ==> v.int_or(key, other) == other,
        v.is_true(key) <==> v.field(key) == Some(JsonValue::Bool(true)),
{
}

} // verus!
