//! JSON documents, and the bytes that they are sent as.

use vstd::prelude::*;

verus! {

/// What a JSON value says, as a mathematical value.
pub enum JsonDoc {
    /// A string.
    Text(Seq<char>),
    /// A non-negative integer.
    Number(nat),
    /// An object: its keys, each with its value.
    Object(JsonFields),
    /// Any other value, by its JSON text. This library builds none.
    Other(Seq<char>),
}

/// The keys of a JSON object, each with what it maps to.
pub type JsonFields = Map<Seq<char>, JsonDoc>;

/// The object type of `serde_json`.
#[verifier::external_type_specification]
#[verifier::external_body]
#[verifier::reject_recursive_types(K)]
#[verifier::reject_recursive_types(V)]
pub struct ExJsonMap<K, V>(serde_json::Map<K, V>);

/// The value type of `serde_json`.
#[verifier::external_type_specification]
#[verifier::external_body]
pub struct ExJsonValue(serde_json::Value);

/// The keys of an object under construction, each with what it maps to.
pub uninterp spec fn object_fields(
    object: serde_json::Map<String, serde_json::Value>,
) -> JsonFields;

/// The bytes that `serde_json::to_vec` writes for a document.
pub uninterp spec fn json_bytes(doc: JsonDoc) -> Seq<u8>;

/// A value to be stored under a key of an object.
pub enum JsonField {
    Text(String),
    Number(u64),
    Object(serde_json::Map<String, serde_json::Value>),
}

impl JsonField {
    /// The document that the field holds.
    pub open spec fn doc(self) -> JsonDoc {
        match self {
            JsonField::Text(text) => JsonDoc::Text(text@),
            JsonField::Number(number) => JsonDoc::Number(number as nat),
            JsonField::Object(object) => JsonDoc::Object(object_fields(object)),
        }
    }
}

/// Calls `serde_json::Map::new`, which makes an object without keys.
#[verifier::external_body]
pub(crate) fn new_object() -> (object: serde_json::Map<String, serde_json::Value>)
    ensures
        object_fields(object) == JsonFields::empty(),
{
    serde_json::Map::new()
}

/// Calls `serde_json::Map::insert`, which binds the key to the value, in place of what the key
/// was bound to before, and leaves the other keys alone.
#[verifier::external_body]
pub(crate) fn insert_field(
    object: &mut serde_json::Map<String, serde_json::Value>,
    key: &str,
    field: JsonField,
)
    ensures
        object_fields(*final(object)) == object_fields(*old(object)).insert(key@, field.doc()),
{
    let value = match field {
        JsonField::Text(text) => serde_json::Value::String(text),
        JsonField::Number(number) => serde_json::Value::from(number),
        JsonField::Object(object) => serde_json::Value::Object(object),
    };
    object.insert(key.to_string(), value);
}

/// Calls `serde_json::to_vec` on an object. The keys of an object are strings, so there is none
/// that it refuses. `serde_json` keeps the keys sorted, as its feature `preserve_order` is off, so
/// what it writes is fixed by the keys and their values.
#[verifier::external_body]
pub(crate) fn encode_object(object: serde_json::Map<String, serde_json::Value>) -> (bytes: Vec<u8>)
    ensures
        bytes@ == json_bytes(JsonDoc::Object(object_fields(object))),
{
    serde_json::to_vec(&serde_json::Value::Object(object)).unwrap()
}

/// The document `{"message": message}`.
pub open spec fn message_document(message: Seq<char>) -> JsonDoc {
    JsonDoc::Object(map!["message"@ => JsonDoc::Text(message)])
}

/// The document `{"error": {"message": message, "type": kind, "code": code}}`.
pub open spec fn error_document(message: Seq<char>, kind: Seq<char>, code: nat) -> JsonDoc {
    JsonDoc::Object(
        map![
            "error"@ => JsonDoc::Object(
                map![
                    "message"@ => JsonDoc::Text(message),
                    "type"@ => JsonDoc::Text(kind),
                    "code"@ => JsonDoc::Number(code),
                ],
            ),
        ],
    )
}

/// Encodes a message.
pub fn encode_message(message: String) -> (bytes: Vec<u8>)
    ensures
        bytes@ == json_bytes(message_document(message@)),
{
    let mut object = new_object();
    insert_field(&mut object, "message", JsonField::Text(message));
    encode_object(object)
}

/// Encodes an error.
pub fn encode_error(message: String, kind: String, code: u64) -> (bytes: Vec<u8>)
    ensures
        bytes@ == json_bytes(error_document(message@, kind@, code as nat)),
{
    let mut error = new_object();
    insert_field(&mut error, "message", JsonField::Text(message));
    insert_field(&mut error, "type", JsonField::Text(kind));
    insert_field(&mut error, "code", JsonField::Number(code));
    let mut object = new_object();
    insert_field(&mut object, "error", JsonField::Object(error));
    encode_object(object)
}

/// Whether a document is an object that says one thing: a message.
pub open spec fn is_message(doc: JsonDoc, message: Seq<char>) -> bool {
    &&& doc is Object
    &&& doc->Object_0.dom() == set!["message"@]
    &&& doc->Object_0["message"@] == JsonDoc::Text(message)
}

/// Whether a document is an object that holds one other under `error`, which says three things: a
/// message, a type and a code.
pub open spec fn is_error_report(
    doc: JsonDoc,
    message: Seq<char>,
    kind: Seq<char>,
    code: nat,
) -> bool {
    let inner = doc->Object_0["error"@];
    &&& doc is Object
    &&& doc->Object_0.dom() == set!["error"@]
    &&& inner is Object
    &&& inner->Object_0.dom() == set!["message"@, "type"@, "code"@]
    &&& inner->Object_0["message"@] == JsonDoc::Text(message)
    &&& inner->Object_0["type"@] == JsonDoc::Text(kind)
    &&& inner->Object_0["code"@] == JsonDoc::Number(code)
}

/// The keys of an error report are three different ones.
proof fn lemma_keys_differ()
    ensures
        "message"@ != "type"@,
        "message"@ != "code"@,
        "type"@ != "code"@,
{
    reveal_strlit("message");
    reveal_strlit("type");
    reveal_strlit("code");
    assert("message"@.len() == 7);
    assert("type"@.len() == 4);
    assert("type"@[0] != "code"@[0]);
}

/// The two kinds of documents are what they are taken for.
pub proof fn lemma_documents(message: Seq<char>, kind: Seq<char>, code: nat)
    ensures
        is_message(message_document(message), message),
        is_error_report(error_document(message, kind, code), message, kind, code),
{
    lemma_keys_differ();
    let message_doc = message_document(message);
    assert(message_doc->Object_0.dom() =~= set!["message"@]);
    let error_doc = error_document(message, kind, code);
    assert(error_doc->Object_0.dom() =~= set!["error"@]);
    let inner = error_doc->Object_0["error"@];
    assert(inner->Object_0.dom() =~= set!["message"@, "type"@, "code"@]);
}

/// What is encoded of a message is the message, and nothing else.
pub proof fn encoded_messages_say_the_message(message: String, bytes: Vec<u8>)
    requires
        call_ensures(encode_message, (message,), bytes),
    ensures
        exists|doc: JsonDoc| #[trigger] is_message(doc, message@) && bytes@ == json_bytes(doc),
{
    lemma_documents(message@, Seq::empty(), 0);
}

/// What is encoded of an error is its message, its type and its code, and nothing else.
pub proof fn encoded_errors_say_what_is_wrong(
    message: String,
    kind: String,
    code: u64,
    bytes: Vec<u8>,
)
    requires
        call_ensures(encode_error, (message, kind, code), bytes),
    ensures
        exists|doc: JsonDoc| #[trigger]
            is_error_report(doc, message@, kind@, code as nat) && bytes@ == json_bytes(doc),
{
    lemma_documents(message@, kind@, code as nat);
}

/// An error report can be told from a message, and two error reports from each other where they
/// differ in anything that they say.
pub proof fn reports_are_told_apart(
    doc: JsonDoc,
    message: Seq<char>,
    kind: Seq<char>,
    code: nat,
    other_message: Seq<char>,
    other_kind: Seq<char>,
    other_code: nat,
)
    requires
        is_error_report(doc, message, kind, code),
    ensures
        !is_message(doc, other_message),
        is_error_report(doc, other_message, other_kind, other_code) ==> message == other_message
            && kind == other_kind && code == other_code,
{
    reveal_strlit("message");
    reveal_strlit("error");
    if is_message(doc, other_message) {
        assert(doc->Object_0.dom().contains("error"@));
        assert("error"@ == "message"@);
        assert("error"@.len() == 5);
    }
}

} // verus!
