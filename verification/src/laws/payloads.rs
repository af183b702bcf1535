//! What payloads are read as, and what is taken out of a document.

use vstd::prelude::*;
use vstd::utf8::{encode_utf8, valid_utf8};

use crate::json;
use crate::json::Json;

verus! {

/// Bytes that encode a text stand for that text; other bytes for what the replacement of invalid
/// sequences makes of them.
pub proof fn law_bytes_stand_for_their_text(bytes: Seq<u8>, text: Seq<char>)
    ensures
        bytes == encode_utf8(text) ==> json::body_text(bytes) == text,
        !valid_utf8(bytes) ==> json::body_text(bytes) == json::lossy_text(bytes),
{
    vstd::utf8::encode_utf8_valid_utf8(text);
    vstd::utf8::encode_utf8_decode_utf8(text);
}

/// The value that stands for a payload, given the text of the payload: the data of an envelope, any
/// other document as a whole, and a text that is no document under `raw_value`.
pub open spec fn stands_for(value: Json, body: Seq<char>) -> bool {
    match json::parsed(body) {
        Some(document) => value == document,
        None => value matches Json::Object(fields) && fields.dom() == set!["raw_value"@]
            && fields["raw_value"@] == Json::Text(body),
    }
}

/// Whether `data` is what an envelope carries: the member `data` of an object that has one,
/// whatever else the object holds, and all of any other document.
pub open spec fn carried_by(data: Json, document: Json) -> bool {
    &&& document matches Json::Object(fields) ==> fields.contains_key("data"@) ==> data
        == fields["data"@]
    &&& document matches Json::Object(fields) ==> !fields.contains_key("data"@) ==> data == document
    &&& !(document is Object) ==> data == document
}

/// A payload that is JSON is read as the document that it holds, and one that is not as an object
/// with its text, and nothing but its text, under `raw_value`.
pub proof fn law_payload_is_read_as_json_or_raw(
    payload: &[u8],
    value: serde_json::Value,
    parsed: Option<serde_json::Value>,
    text: Seq<char>,
)
    requires
        call_ensures(json::read_payload, (payload,), value),
        call_ensures(json::parse_payload, (payload,), parsed),
        payload@ == encode_utf8(text),
    ensures
        stands_for(json::json(value), text),
        match parsed {
            Some(document) => json::parsed(text) == Some(json::json(document)),
            None => json::parsed(text) is None,
        },
{
    law_bytes_stand_for_their_text(payload@, text);
    lemma_payload(payload@);
}

/// Bytes that are not UTF-8 are read in the same way, by the text with the replacements.
pub proof fn law_invalid_bytes_are_read_with_replacements(
    payload: &[u8],
    value: serde_json::Value,
    parsed: Option<serde_json::Value>,
)
    requires
        call_ensures(json::read_payload, (payload,), value),
        call_ensures(json::parse_payload, (payload,), parsed),
        !valid_utf8(payload@),
    ensures
        stands_for(json::json(value), json::lossy_text(payload@)),
        match parsed {
            Some(document) => json::parsed(json::lossy_text(payload@)) == Some(
                json::json(document),
            ),
            None => json::parsed(json::lossy_text(payload@)) is None,
        },
{
    lemma_payload(payload@);
}

/// The document that stands for a payload is what its text is read as.
pub proof fn lemma_payload(payload: Seq<u8>)
    ensures
        stands_for(json::payload_document(payload), json::body_text(payload)),
{
    if json::parsed(json::body_text(payload)) is None {
        let fields = map!["raw_value"@ => Json::Text(json::body_text(payload))];
        assert(json::payload_document(payload) == Json::Object(fields));
        assert(fields.dom() =~= set!["raw_value"@]);
    }
}

/// Only one value stands for a body.
pub proof fn lemma_stands_for_once(left: Json, right: Json, body: Seq<char>)
    requires
        stands_for(left, body),
        stands_for(right, body),
    ensures
        left == right,
{
    if json::parsed(body) is None {
        if let (Json::Object(a), Json::Object(b)) = (left, right) {
            assert forall|key: Seq<char>| a.contains_key(key) implies a[key] == b[key] by {
                assert(set!["raw_value"@].contains(key));
            }
            assert(a =~= b);
        }
    }
}

/// A document is taken as it is; without one, the body stands alone under `raw_value`.
pub proof fn law_document_or_raw_body(
    document: Option<serde_json::Value>,
    body: String,
    value: serde_json::Value,
)
    requires
        call_ensures(json::document_or_raw, (document, body), value),
    ensures
        match document {
            Some(found) => json::json(value) == json::json(found),
            None => json::json(value) matches Json::Object(fields) && fields.dom()
                == set!["raw_value"@] && fields["raw_value"@] == Json::Text(body@),
        },
{
    if document is None {
        let fields = map!["raw_value"@ => Json::Text(body@)];
        assert(json::json(value) == Json::Object(fields));
        assert(fields.dom() =~= set!["raw_value"@]);
    }
}

/// An object with a member `data` stands for that member, whatever other members it has; an object
/// without one, and any document that is no object, stands for itself.
pub proof fn law_envelope_stands_for_its_data(
    document: serde_json::Value,
    data: serde_json::Value,
    fields: Map<Seq<char>, Json>,
)
    requires
        call_ensures(json::envelope_data, (document,), data),
    ensures
        json::json(document) == Json::Object(fields) && fields.contains_key("data"@)
            ==> json::json(data) == fields["data"@],
        json::json(document) == Json::Object(fields) && !fields.contains_key("data"@)
            ==> json::json(data) == json::json(document),
        !(json::json(document) is Object) ==> json::json(data) == json::json(document),
        carried_by(json::json(data), json::json(document)),
{
    lemma_carried(json::json(document));
}

/// What is taken out of a document is what it carries as an envelope.
pub proof fn lemma_carried(document: Json)
    ensures
        carried_by(json::envelope_data_spec(document), document),
{
}

/// The text under a name is the string member of that name, whatever other members there are; there
/// is none where the member is missing or no string, where the document is no object, and where
/// there is no document.
pub proof fn law_text_field_is_the_string_member(
    document: &Option<serde_json::Value>,
    name: &str,
    result: Option<String>,
    fields: Map<Seq<char>, Json>,
    text: Seq<char>,
)
    requires
        call_ensures(json::text_field, (document, name), result),
    ensures
        *document matches Some(value) ==> json::json(value) == Json::Object(fields)
            ==> fields.contains_key(name@) ==> fields[name@] == Json::Text(text) ==> (
        result matches Some(found) && found@ == text),
        *document matches Some(value) ==> json::json(value) == Json::Object(fields) ==> (
        !fields.contains_key(name@) || !(fields[name@] is Text)) ==> result is None,
        *document matches Some(value) ==> !(json::json(value) is Object) ==> result is None,
        *document is None ==> result is None,
{
}

/// The value under a key is taken where there is one, and else the object with all members.
pub proof fn law_member_or_the_whole_object(
    map: serde_json::Map<String, serde_json::Value>,
    key: &str,
    value: serde_json::Value,
)
    requires
        call_ensures(json::member_or_all, (map, key), value),
    ensures
        json::members(map).contains_key(key@) ==> json::json(value) == json::members(map)[key@],
        !json::members(map).contains_key(key@) ==> json::json(value) == Json::Object(
            json::members(map),
        ),
{
}

/// Which documents survive being text: everything that is no number with a fraction, and lists and
/// objects of such documents, up to a nesting of 127.
pub proof fn law_what_survives_being_text(
    document: Json,
    items: Seq<Json>,
    fields: Map<Seq<char>, Json>,
    depth: nat,
)
    ensures
        document is Null || document is Bool || document is Integer || document is Text
            ==> json::exact_to_depth(document, depth),
        (forall|i: int| 0 <= i < items.len() ==> json::exact_to_depth(#[trigger] items[i], depth))
            ==> json::exact_to_depth(Json::List(items), depth + 1),
        (forall|key: Seq<char>|
            fields.contains_key(key) ==> json::exact_to_depth(#[trigger] fields[key], depth))
            ==> json::exact_to_depth(Json::Object(fields), depth + 1),
        depth <= 127 && json::exact_to_depth(document, depth) ==> json::survives_text(document),
{
    if depth <= 127 && json::exact_to_depth(document, depth) {
        lemma_exact_deeper(document, depth, 127);
    }
}

/// What holds up to a nesting holds up to a deeper one.
proof fn lemma_exact_deeper(document: Json, depth: nat, deeper: nat)
    requires
        depth <= deeper,
        json::exact_to_depth(document, depth),
    ensures
        json::exact_to_depth(document, deeper),
    decreases depth,
{
    match document {
        Json::List(items) => {
            assert forall|i: int| 0 <= i < items.len() implies json::exact_to_depth(
                #[trigger] items[i],
                (deeper - 1) as nat,
            ) by {
                lemma_exact_deeper(items[i], (depth - 1) as nat, (deeper - 1) as nat);
            }
        },
        Json::Object(fields) => {
            assert forall|key: Seq<char>| fields.contains_key(key) implies json::exact_to_depth(
                #[trigger] fields[key],
                (deeper - 1) as nat,
            ) by {
                lemma_exact_deeper(fields[key], (depth - 1) as nat, (deeper - 1) as nat);
            }
        },
        _ => {},
    }
}

}
