//! JSON texts: the data model, and the serde_json calls that build, print and read them.

use crate::table::{
    distinct_keys, lemma_lookup_absent, lemma_lookup_put, lemma_put_distinct, lemma_put_new, lookup,
    put,
};
use crate::text::{bool_string, bool_text, decimal, decimal_i64};
use vstd::prelude::*;

verus! {

/// What a JSON value is. Members of an object stand in the order in which they were added.
pub enum Json {
    Null,
    Bool(bool),
    Integer(int),
    /// A number that is not written as an integer, by its IEEE 754 bits.
    Real(u64),
    Text(Seq<char>),
    List(Seq<Json>),
    Object(Seq<(Seq<char>, Json)>),
}

/// The fields of a JSON object, in order.
pub type JsonFields = Seq<(Seq<char>, Json)>;

/// `serde_json::Value`: one JSON value of any kind.
#[verifier::external_type_specification]
#[verifier::external_body]
pub struct ExValue(serde_json::Value);

/// The JSON value that a `serde_json::Value` holds.
pub uninterp spec fn json_of(value: serde_json::Value) -> Json;

/// The compact text that serde_json prints for a JSON value.
pub uninterp spec fn json_text(json: Json) -> Seq<char>;

/// The JSON value that serde_json reads from a text, or nothing where the text is not JSON.
pub uninterp spec fn json_parsed(text: Seq<char>) -> Option<Json>;

/// The members of an object that is filled with `fields` one after the other: a key that comes
/// again replaces the earlier value and keeps the earlier place.
pub open spec fn merged(fields: JsonFields) -> JsonFields
    decreases fields.len(),
{
    if fields.len() == 0 {
        Seq::empty()
    } else {
        put(merged(fields.drop_last()), fields.last().0, fields.last().1)
    }
}

/// The JSON object with the given fields.
pub open spec fn object_of(fields: JsonFields) -> Json {
    Json::Object(merged(fields))
}

/// The JSON values of a list of `serde_json::Value`s.
pub open spec fn json_values(values: Seq<serde_json::Value>) -> Seq<Json> {
    values.map_values(|value: serde_json::Value| json_of(value))
}

/// The JSON fields of a list of keys and `serde_json::Value`s.
pub open spec fn json_fields(fields: Seq<(String, serde_json::Value)>) -> JsonFields {
    fields.map_values(|field: (String, serde_json::Value)| (field.0@, json_of(field.1)))
}

/// The value of an object's member; nothing for what is no object.
pub open spec fn json_member(json: Json, key: Seq<char>) -> Option<Json> {
    match json {
        Json::Object(members) => lookup(members, key),
        _ => None,
    }
}

/// Calls `serde_json::Value::from` on an integer: the value is that JSON number.
#[verifier::external_body]
pub(crate) fn json_i64(n: i64) -> (value: serde_json::Value)
    ensures
        json_of(value) == Json::Integer(n as int),
{
    serde_json::Value::from(n)
}

/// Calls `serde_json::Value::from` on an unsigned integer: the value is that JSON number.
#[verifier::external_body]
pub(crate) fn json_u64(n: u64) -> (value: serde_json::Value)
    ensures
        json_of(value) == Json::Integer(n as int),
{
    serde_json::Value::from(n)
}

/// Calls `serde_json::Value::from` on a truth value: the value is that JSON truth value.
#[verifier::external_body]
pub(crate) fn json_bool(b: bool) -> (value: serde_json::Value)
    ensures
        json_of(value) == Json::Bool(b),
{
    serde_json::Value::from(b)
}

/// Calls `serde_json::Value::from` on a text: the value is that JSON string.
#[verifier::external_body]
pub(crate) fn json_str(text: &str) -> (value: serde_json::Value)
    ensures
        json_of(value) == Json::Text(text@),
{
    serde_json::Value::from(text)
}

/// Makes a `serde_json::Value::Array`: the value is the JSON list of the items, in their order.
#[verifier::external_body]
pub(crate) fn json_list(items: Vec<serde_json::Value>) -> (value: serde_json::Value)
    ensures
        json_of(value) == Json::List(json_values(items@)),
{
    serde_json::Value::Array(items)
}

/// Collects the fields into a `serde_json::Map` and makes a `serde_json::Value::Object` of it. With
/// the crate's `preserve_order` feature the members stand in the order in which their keys first
/// came, and the last value of a key counts.
#[verifier::external_body]
pub(crate) fn json_object(fields: Vec<(String, serde_json::Value)>) -> (value: serde_json::Value)
    ensures
        json_of(value) == object_of(json_fields(fields@)),
{
    serde_json::Value::Object(fields.into_iter().collect())
}

/// Calls `to_string` of `serde_json::Value`: the text is the compact text of the value, and that of
/// the object without members is `{}`.
#[verifier::external_body]
pub(crate) fn json_print(value: &serde_json::Value) -> (text: String)
    ensures
        text@ == json_text(json_of(*value)),
        json_of(*value) == Json::Object(Seq::empty()) ==> text@ == "{}"@,
{
    value.to_string()
}

/// Calls `serde_json::from_str`: a value where the text is JSON, nothing where it is not.
#[verifier::external_body]
pub(crate) fn json_parse(text: &str) -> (value: Option<serde_json::Value>)
    ensures
        match value {
            Some(v) => json_parsed(text@) == Some(json_of(v)),
            None => json_parsed(text@) is None,
        },
{
    serde_json::from_str(text).ok()
}

/// Calls `serde_json::Value::get` with a text: the member of an object, if there is one.
#[verifier::external_body]
pub(crate) fn json_get<'a>(value: &'a serde_json::Value, key: &str) -> (member: Option<
    &'a serde_json::Value,
>)
    ensures
        match member {
            Some(m) => json_member(json_of(*value), key@) == Some(json_of(*m)),
            None => json_member(json_of(*value), key@) is None,
        },
{
    value.get(key)
}

/// Calls `serde_json::Value::as_array`: the items of a list, nothing for any other value.
#[verifier::external_body]
pub(crate) fn json_as_list(value: &serde_json::Value) -> (items: Option<&Vec<serde_json::Value>>)
    ensures
        match items {
            Some(list) => json_of(*value) == Json::List(json_values(list@)),
            None => !(json_of(*value) is List),
        },
{
    value.as_array()
}

/// Calls `serde_json::Value::as_str`: the text of a JSON string, nothing for any other value.
#[verifier::external_body]
pub(crate) fn json_as_str(value: &serde_json::Value) -> (text: Option<&str>)
    ensures
        match text {
            Some(t) => json_of(*value) == Json::Text(t@),
            None => !(json_of(*value) is Text),
        },
{
    value.as_str()
}

/// Calls `serde_json::Value::as_bool`: the JSON truth value, nothing for any other value.
#[verifier::external_body]
pub(crate) fn json_as_bool(value: &serde_json::Value) -> (b: Option<bool>)
    ensures
        match b {
            Some(x) => json_of(*value) == Json::Bool(x),
            None => !(json_of(*value) is Bool),
        },
{
    value.as_bool()
}

/// The number of a JSON integer that fits in an `i64`; nothing for any other value.
pub open spec fn integer_of(json: Json) -> Option<i64> {
    match json {
        Json::Integer(n) => if i64::MIN <= n <= i64::MAX {
            Some(n as i64)
        } else {
            None
        },
        _ => None,
    }
}

/// Calls `serde_json::Value::as_i64`: the number of an integer that fits, nothing for any other
/// value, a number with a fraction or an exponent among them.
#[verifier::external_body]
pub(crate) fn json_as_i64(value: &serde_json::Value) -> (n: Option<i64>)
    ensures
        n == integer_of(json_of(*value)),
{
    value.as_i64()
}

/// The fields of a JSON object that is being built.
pub struct Fields {
    items: Vec<(String, serde_json::Value)>,
}

impl View for Fields {
    type V = JsonFields;

    closed spec fn view(&self) -> JsonFields {
        json_fields(self.items@)
    }
}

impl Fields {
    pub fn new() -> (fields: Fields)
        ensures
            fields@ == JsonFields::empty(),
    {
        let fields = Fields { items: Vec::new() };
        assert(fields@ =~= JsonFields::empty());
        fields
    }

    /// Adds a field with a value that is at hand.
    pub fn value(self, key: &str, value: serde_json::Value) -> (fields: Fields)
        ensures
            fields@ == self@.push((key@, json_of(value))),
    {
        let mut items = self.items;
        items.push((key.to_owned(), value));
        let fields = Fields { items };
        assert(fields@ =~= self@.push((key@, json_of(value))));
        fields
    }

    /// Adds a field with a text.
    pub fn text(self, key: &str, text: &str) -> (fields: Fields)
        ensures
            fields@ == self@.push((key@, Json::Text(text@))),
    {
        self.value(key, json_str(text))
    }

    /// Adds a field with the decimal text of a number.
    pub fn decimal(self, key: &str, n: i64) -> (fields: Fields)
        ensures
            fields@ == self@.push((key@, Json::Text(decimal(n as int)))),
    {
        self.text(key, decimal_i64(n).as_str())
    }

    /// Adds a field with the text of a truth value.
    pub fn bool_text(self, key: &str, b: bool) -> (fields: Fields)
        ensures
            fields@ == self@.push((key@, Json::Text(bool_text(b)))),
    {
        self.text(key, bool_string(b).as_str())
    }

    /// Adds a field with an integer.
    pub fn integer(self, key: &str, n: i64) -> (fields: Fields)
        ensures
            fields@ == self@.push((key@, Json::Integer(n as int))),
    {
        self.value(key, json_i64(n))
    }

    /// Adds a field with an unsigned integer.
    pub fn unsigned(self, key: &str, n: u64) -> (fields: Fields)
        ensures
            fields@ == self@.push((key@, Json::Integer(n as int))),
    {
        self.value(key, json_u64(n))
    }

    /// Adds a field with a truth value.
    pub fn truth(self, key: &str, b: bool) -> (fields: Fields)
        ensures
            fields@ == self@.push((key@, Json::Bool(b))),
    {
        self.value(key, json_bool(b))
    }

    /// The JSON object with these fields.
    pub fn object(self) -> (value: serde_json::Value)
        ensures
            json_of(value) == object_of(self@),
    {
        json_object(self.items)
    }

    /// The text of the JSON object with these fields.
    pub fn print(self) -> (text: String)
        ensures
            text@ == json_text(object_of(self@)),
            self@.len() == 0 ==> text@ == "{}"@,
    {
        let value = self.object();
        json_print(&value)
    }
}

/// The text of the JSON list of the given values.
pub(crate) fn list_text(values: Vec<serde_json::Value>) -> (text: String)
    ensures
        text@ == json_text(Json::List(json_values(values@))),
{
    json_print(&json_list(values))
}

/// An object keeps fields with distinct keys as they are: none is lost, none is moved.
pub proof fn lemma_merged_distinct(fields: JsonFields)
    requires
        distinct_keys(fields),
    ensures
        merged(fields) == fields,
    decreases fields.len(),
{
    if fields.len() > 0 {
        let rest = fields.drop_last();
        lemma_merged_distinct(rest);
        lemma_lookup_absent(rest, fields.last().0);
        assert forall|i: int| 0 <= i < rest.len() implies (#[trigger] rest[i]).0
            != fields.last().0 by {
            assert(rest[i] == fields[i]);
        }
        lemma_put_new(rest, fields.last().0, fields.last().1);
        assert(merged(fields) =~= fields);
    } else {
        assert(merged(fields) =~= fields);
    }
}

/// An object has each key once, with the last value that came for it, and no other keys.
pub proof fn lemma_merged_lookup(fields: JsonFields, key: Seq<char>)
    ensures
        lookup(merged(fields), key) == lookup(fields, key),
        distinct_keys(merged(fields)),
    decreases fields.len(),
{
    if fields.len() > 0 {
        let rest = fields.drop_last();
        lemma_merged_lookup(rest, key);
        lemma_lookup_put(merged(rest), fields.last().0, fields.last().1, key);
        lemma_put_distinct(merged(rest), fields.last().0, fields.last().1);
    }
}

/// A member of an object is what stands under its key; nothing else has members.
pub proof fn lemma_json_member(json: Json, key: Seq<char>)
    ensures
        match json {
            Json::Object(members) => json_member(json, key) == lookup(members, key),
            _ => json_member(json, key) is None,
        },
{
}

/// An integer that fits in 64 bits with a sign is read as it is; any other value is not read.
pub proof fn lemma_integer_of(n: int, json: Json)
    ensures
        i64::MIN <= n <= i64::MAX ==> integer_of(Json::Integer(n)) == Some(n as i64),
        n < i64::MIN || n > i64::MAX ==> integer_of(Json::Integer(n)) is None,
        !(json is Integer) ==> integer_of(json) is None,
{
}

}
