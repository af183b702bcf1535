//! JSON documents: what a `serde_json::Value` holds, the calls that this crate makes on one, and
//! how the payload of a Zenoh sample is read as a document.

use vstd::prelude::*;
use vstd::utf8::{decode_utf8, valid_utf8};

verus! {

/// `serde_json::Value`, a JSON document. Its contents are `json`.
#[verifier::external_type_specification]
#[verifier::external_body]
pub struct ExValue(serde_json::Value);

/// `serde_json::Map`, the members of a JSON object. Its contents are `members`.
#[verifier::external_type_specification]
#[verifier::external_body]
#[verifier::reject_recursive_types(K)]
#[verifier::reject_recursive_types(V)]
pub struct ExMap<K, V>(serde_json::Map<K, V>);

/// What a JSON document says. The order of an object's members is no part of it.
pub ghost enum Json {
    Null,
    Bool(bool),
    /// A number that `serde_json` keeps as an integer.
    Integer(int),
    /// Any other number, by the text that `serde_json` prints for it.
    Decimal(Seq<char>),
    Text(Seq<char>),
    List(Seq<Json>),
    Object(Map<Seq<char>, Json>),
}

/// The contents of a `serde_json::Value`.
pub uninterp spec fn json(value: serde_json::Value) -> Json;

/// The contents of a `serde_json::Map`: the document under each key.
pub uninterp spec fn members(map: serde_json::Map<String, serde_json::Value>) -> Map<
    Seq<char>,
    Json,
>;

/// The document that `serde_json::from_str` reads from a text, or `None` where it refuses it.
pub uninterp spec fn parsed(text: Seq<char>) -> Option<Json>;

/// The text that `serde_json` prints for a value.
pub uninterp spec fn printed(value: serde_json::Value) -> Seq<char>;

/// The text that `String::from_utf8_lossy` makes of bytes that are not UTF-8.
pub uninterp spec fn lossy_text(bytes: Seq<u8>) -> Seq<char>;

/// The text that bytes stand for: what they encode where they are UTF-8, else the text with the
/// invalid sequences replaced.
pub open spec fn body_text(bytes: Seq<u8>) -> Seq<char> {
    if valid_utf8(bytes) {
        decode_utf8(bytes)
    } else {
        lossy_text(bytes)
    }
}

/// Whether `document` holds no decimal number and nests lists and objects at most `depth` deep.
pub open spec fn exact_to_depth(document: Json, depth: nat) -> bool
    decreases depth,
{
    match document {
        Json::Decimal(_) => false,
        Json::List(items) => depth > 0 && forall|i: int|
            0 <= i < items.len() ==> exact_to_depth(#[trigger] items[i], (depth - 1) as nat),
        Json::Object(fields) => depth > 0 && forall|key: Seq<char>|
            fields.contains_key(key) ==> exact_to_depth(#[trigger] fields[key], (depth - 1) as nat),
        _ => true,
    }
}

/// Whether `document` survives being printed and parsed again: decimal numbers may change in the
/// last place, and the parser refuses documents that are nested too deep.
pub open spec fn survives_text(document: Json) -> bool {
    exact_to_depth(document, 127)
}

/// `String::from_utf8_lossy`: the text that the bytes encode where they are UTF-8; else a text with
/// at least one replacement character, of which the rest is covered by the name alone.
#[verifier::external_body]
fn text_from_bytes(bytes: &[u8]) -> (result: String)
    ensures
        valid_utf8(bytes@) ==> result@ == decode_utf8(bytes@),
        !valid_utf8(bytes@) ==> result@ == lossy_text(bytes@) && result@.contains('\u{fffd}'),
{
    String::from_utf8_lossy(bytes).into_owned()
}

/// `serde_json::from_str` into a `Value`: the document that the text holds, or nothing where the
/// text is no JSON document.
#[verifier::external_body]
fn parse(text: &str) -> (result: Option<serde_json::Value>)
    ensures
        match result {
            Some(value) => parsed(text@) == Some(json(value)),
            None => parsed(text@) is None,
        },
{
    serde_json::from_str(text).ok()
}

/// `Value::to_string`: the compact text of the value. Parsing it gives the same document back, as
/// long as it survives being text.
#[verifier::external_body]
pub(crate) fn print(value: &serde_json::Value) -> (result: String)
    ensures
        result@ == printed(*value),
        survives_text(json(*value)) ==> parsed(result@) == Some(json(*value)),
{
    value.to_string()
}

/// `Value::get` with a string: the member of that name, where the value is an object with one.
#[verifier::external_body]
fn member<'a>(value: &'a serde_json::Value, name: &str) -> (result: Option<&'a serde_json::Value>)
    ensures
        match result {
            Some(found) => json(*value) matches Json::Object(fields) && fields.contains_key(name@)
                && fields[name@] == json(*found),
            None => json(*value) matches Json::Object(fields) ==> !fields.contains_key(name@),
        },
{
    value.get(name)
}

/// `Value::as_str`: the text of a string value.
#[verifier::external_body]
fn as_text(value: &serde_json::Value) -> (result: Option<&str>)
    ensures
        match result {
            Some(text) => json(*value) == Json::Text(text@),
            None => !(json(*value) is Text),
        },
{
    value.as_str()
}

/// `Value::clone`: a value with the same contents.
#[verifier::external_body]
fn copy(value: &serde_json::Value) -> (result: serde_json::Value)
    ensures
        json(result) == json(*value),
{
    value.clone()
}

/// `Value::from` on a string: the string value.
#[verifier::external_body]
fn text_value(text: String) -> (result: serde_json::Value)
    ensures
        json(result) == Json::Text(text@),
{
    serde_json::Value::from(text)
}

/// `Value::from` on a map: the object with those members.
#[verifier::external_body]
pub(crate) fn object(map: serde_json::Map<String, serde_json::Value>) -> (result: serde_json::Value)
    ensures
        json(result) == Json::Object(members(map)),
{
    serde_json::Value::from(map)
}

/// `Map::new`: a map without members.
#[verifier::external_body]
pub(crate) fn empty_map() -> (result: serde_json::Map<String, serde_json::Value>)
    ensures
        members(result) =~= Map::empty(),
{
    serde_json::Map::new()
}

/// `Map::insert`: puts the value under the key, in place of one that was there.
#[verifier::external_body]
pub(crate) fn insert(
    map: &mut serde_json::Map<String, serde_json::Value>,
    key: String,
    value: serde_json::Value,
)
    ensures
        members(*final(map)) == members(*old(map)).insert(key@, json(value)),
{
    map.insert(key, value);
}

/// `Map::get`: the value under the key.
#[verifier::external_body]
fn lookup<'a>(
    map: &'a serde_json::Map<String, serde_json::Value>,
    key: &str,
) -> (result: Option<&'a serde_json::Value>)
    ensures
        match result {
            Some(found) => members(*map).contains_key(key@) && members(*map)[key@] == json(*found),
            None => !members(*map).contains_key(key@),
        },
{
    map.get(key)
}

/// The document that stands for a body: what the body says where it is JSON, else an object that
/// holds the body as `raw_value`.
pub open spec fn document_or_raw_spec(document: Option<Json>, body: Seq<char>) -> Json {
    match document {
        Some(found) => found,
        None => Json::Object(map!["raw_value"@ => Json::Text(body)]),
    }
}

/// The document that stands for the payload of a sample.
pub open spec fn payload_document(payload: Seq<u8>) -> Json {
    document_or_raw_spec(parsed(body_text(payload)), body_text(payload))
}

/// The `data` member of an envelope, or the whole document where it has none.
pub open spec fn envelope_data_spec(document: Json) -> Json {
    match document {
        Json::Object(fields) => if fields.contains_key("data"@) {
            fields["data"@]
        } else {
            document
        },
        _ => document,
    }
}

/// The text under `name`, where the document is an object with a string there.
pub open spec fn text_member(document: Option<Json>, name: Seq<char>) -> Option<Seq<char>> {
    match document {
        Some(Json::Object(fields)) => if fields.contains_key(name) {
            match fields[name] {
                Json::Text(text) => Some(text),
                _ => None,
            }
        } else {
            None
        },
        _ => None,
    }
}

/// The document under `key`, or the object with all of `fields` where there is none.
pub open spec fn member_or_all_spec(fields: Map<Seq<char>, Json>, key: Seq<char>) -> Json {
    if fields.contains_key(key) {
        fields[key]
    } else {
        Json::Object(fields)
    }
}

/// The contents of a value that may be missing.
pub open spec fn optional_json(value: Option<serde_json::Value>) -> Option<Json> {
    match value {
        Some(found) => Some(json(found)),
        None => None,
    }
}

/// The view of a string that may be missing.
pub open spec fn optional_text(text: Option<String>) -> Option<Seq<char>> {
    match text {
        Some(found) => Some(found@),
        None => None,
    }
}

/// Reads a payload as a JSON document, where it is one.
pub fn parse_payload(payload: &[u8]) -> (result: Option<serde_json::Value>)
    ensures
        optional_json(result) == parsed(body_text(payload@)),
{
    let body = text_from_bytes(payload);
    parse(body.as_str())
}

/// Takes the document, or wraps the body where there is none.
pub fn document_or_raw(document: Option<serde_json::Value>, body: String) -> (result:
    serde_json::Value)
    ensures
        json(result) == document_or_raw_spec(optional_json(document), body@),
{
    match document {
        Some(found) => found,
        None => {
            let mut fields = empty_map();
            insert(&mut fields, "raw_value".to_owned(), text_value(body));
            object(fields)
        },
    }
}

/// Reads a payload as the document that stands for it.
pub fn read_payload(payload: &[u8]) -> (result: serde_json::Value)
    ensures
        json(result) == payload_document(payload@),
{
    let body = text_from_bytes(payload);
    let document = parse(body.as_str());
    document_or_raw(document, body)
}

/// Takes the `data` member out of an envelope, or the whole document where it has none.
pub fn envelope_data(document: serde_json::Value) -> (result: serde_json::Value)
    ensures
        json(result) == envelope_data_spec(json(document)),
{
    match member(&document, "data") {
        Some(data) => copy(data),
        None => document,
    }
}

/// Reads the text under `name`.
pub fn text_field(document: &Option<serde_json::Value>, name: &str) -> (result: Option<String>)
    ensures
        optional_text(result) == text_member(optional_json(*document), name@),
{
    match document {
        Some(value) => match member(value, name) {
            Some(found) => match as_text(found) {
                Some(text) => Some(text.to_owned()),
                None => None,
            },
            None => None,
        },
        None => None,
    }
}

/// Takes the value under `key`, or the whole object where there is none.
pub fn member_or_all(
    map: serde_json::Map<String, serde_json::Value>,
    key: &str,
) -> (result: serde_json::Value)
    ensures
        json(result) == member_or_all_spec(members(map), key@),
{
    match lookup(&map, key) {
        Some(found) => copy(found),
        None => object(map),
    }
}

}
