//! Replies that the gateway makes itself, rather than passing on those of a provider.

use vstd::prelude::*;

use crate::headers;
use crate::headers::{new_headers, set_header};
use crate::json;
use crate::json::{encode_error, encode_message};

verus! {

/// The status of a reply that grants what was asked for.
pub const OK: u16 = 200;

/// The status of a reply to a request that cannot be granted as it stands.
pub const BAD_REQUEST: u16 = 400;

/// The status of a reply to a client that may not ask.
pub const FORBIDDEN: u16 = 403;

/// The status of a reply to a request that failed for no fault of the client.
pub const INTERNAL_SERVER_ERROR: u16 = 500;

/// A reply to an HTTP request.
pub struct Reply {
    pub status: u16,
    pub headers: axum::http::HeaderMap,
    pub body: Vec<u8>,
}

impl Reply {
    /// Whether the reply has the given status, holds the given document as JSON, and says so in
    /// its one header field.
    pub open spec fn is_json(self, status: u16, doc: json::JsonDoc) -> bool {
        &&& self.status == status
        &&& headers::header_fields(self.headers) == json_header_fields()
        &&& self.body@ == json::json_bytes(doc)
    }

    /// Whether the reply reports an error: the status is also the code that the body gives.
    pub open spec fn is_error(self, status: u16, kind: Seq<char>, message: Seq<char>) -> bool {
        self.is_json(status, json::error_document(message, kind, status as nat))
    }
}

/// The header fields of a reply that holds JSON.
pub open spec fn json_header_fields() -> headers::HeaderFields {
    map!["content-type"@ => seq![vstd::utf8::encode_utf8("application/json"@)]]
}

/// A reply that holds JSON.
fn json_reply(status: u16, body: Vec<u8>) -> (reply: Reply)
    ensures
        reply.status == status,
        headers::header_fields(reply.headers) == json_header_fields(),
        reply.body == body,
{
    proof {
        reveal_strlit("content-type");
        reveal_strlit("application/json");
    }
    let mut headers = new_headers();
    set_header(&mut headers, "content-type", "application/json");
    Reply { status, headers, body }
}

/// Reports that a request was granted.
pub fn message_reply(message: &str) -> (reply: Reply)
    ensures
        reply.is_json(OK, json::message_document(message@)),
{
    json_reply(OK, encode_message(message.to_string()))
}

/// Reports an error.
pub fn error_reply(status: u16, kind: &str, message: &str) -> (reply: Reply)
    ensures
        reply.is_error(status, kind@, message@),
{
    json_reply(status, encode_error(message.to_string(), kind.to_string(), status as u64))
}

/// Whether a header map holds one field, which says that the body is JSON.
pub open spec fn says_json(headers: axum::http::HeaderMap) -> bool {
    let fields = headers::header_fields(headers);
    &&& fields.dom() == set!["content-type"@]
    &&& fields["content-type"@].len() == 1
    &&& fields["content-type"@][0] == vstd::utf8::encode_utf8("application/json"@)
}

/// The one header field of a reply that holds JSON says so.
pub proof fn lemma_json_headers(headers: axum::http::HeaderMap)
    requires
        headers::header_fields(headers) == json_header_fields(),
    ensures
        says_json(headers),
{
    assert(headers::header_fields(headers).dom() =~= set!["content-type"@]);
}

/// A request that was granted is answered with status 200 and the message, as JSON.
pub proof fn grants_say_the_message(message: &str, reply: Reply)
    requires
        call_ensures(message_reply, (message,), reply),
    ensures
        reply.status == 200,
        says_json(reply.headers),
        exists|doc: json::JsonDoc| #[trigger]
            json::is_message(doc, message@) && reply.body@ == json::json_bytes(doc),
{
    json::lemma_documents(message@, Seq::empty(), 0);
    lemma_json_headers(reply.headers);
}

/// An error is answered with its status, which the body repeats, its type and its message, as
/// JSON.
pub proof fn errors_say_what_is_wrong(status: u16, kind: &str, message: &str, reply: Reply)
    requires
        call_ensures(error_reply, (status, kind, message), reply),
    ensures
        reply.status == status,
        says_json(reply.headers),
        exists|doc: json::JsonDoc| #[trigger]
            json::is_error_report(doc, message@, kind@, status as nat) && reply.body@
                == json::json_bytes(doc),
{
    json::lemma_documents(message@, kind@, status as nat);
    lemma_json_headers(reply.headers);
}

} // verus!
