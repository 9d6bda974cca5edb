//! Header maps of HTTP messages.

use vstd::prelude::*;

verus! {

/// The header map of the `http` crate, by the name under which `axum` exports it.
#[verifier::external_type_specification]
#[verifier::external_body]
#[verifier::reject_recursive_types(T)]
pub struct ExHeaderMap<T>(axum::http::HeaderMap<T>);

/// The header value of the `http` crate.
#[verifier::external_type_specification]
#[verifier::external_body]
pub struct ExHeaderValue(axum::http::HeaderValue);

/// Header names, each with the values that it carries.
pub type HeaderFields = Map<Seq<char>, Seq<Seq<u8>>>;

/// The fields of a header map: each name, in lower case, with the values that it carries, in
/// the order in which they were added.
pub uninterp spec fn header_fields(headers: axum::http::HeaderMap) -> HeaderFields;

/// Whether a text can serve as a header name: one to 64 lower-case letters, digits and hyphens.
/// (There are further names that HTTP allows; this library uses none of them.)
pub open spec fn is_header_name(name: Seq<char>) -> bool {
    &&& 0 < name.len() <= 64
    &&& forall|i: int|
        0 <= i < name.len() ==> {
            ||| 'a' <= #[trigger] name[i] <= 'z'
            ||| '0' <= name[i] <= '9'
            ||| name[i] == '-'
        }
}

/// Whether a text can serve as a header value: printable ASCII only. (Further values that HTTP
/// allows are not used in this library.)
pub open spec fn is_header_text(text: Seq<char>) -> bool {
    forall|i: int| 0 <= i < text.len() ==> ' ' <= #[trigger] text[i] <= '~'
}

/// The number of distinct names up to which a header map certainly takes one more.
pub const MAX_FIELDS: usize = 6553;

/// Calls `HeaderMap::new`, which makes a map without fields.
#[verifier::external_body]
pub(crate) fn new_headers() -> (headers: axum::http::HeaderMap)
    ensures
        header_fields(headers) == HeaderFields::empty(),
{
    axum::http::HeaderMap::new()
}

/// Calls `HeaderMap::contains_key`, which says whether a name carries a value.
#[verifier::external_body]
pub(crate) fn has_header(headers: &axum::http::HeaderMap, name: &str) -> (found: bool)
    requires
        is_header_name(name@),
    ensures
        found == header_fields(*headers).contains_key(name@),
{
    headers.contains_key(name)
}

/// Calls `HeaderMap::try_insert` with the value that `HeaderValue::from_str` makes of the text, and
/// says whether the map took it: the name then carries this value alone, in place of what it
/// carried before, and the other names keep theirs. Else no name has gained or lost a value. A map
/// refuses only where its table cannot grow any more, which takes more names than `MAX_FIELDS`;
/// from how many names on it does depends on how their hashes fall, and is not said here.
/// `from_str` refuses control characters.
#[verifier::external_body]
pub(crate) fn set_header(
    headers: &mut axum::http::HeaderMap,
    name: &'static str,
    value: &str,
) -> (taken: bool)
    requires
        is_header_name(name@),
        is_header_text(value@),
    ensures
        header_fields(*old(headers)).len() <= MAX_FIELDS ==> taken,
        taken ==> header_fields(*final(headers)) == header_fields(*old(headers)).insert(
            name@,
            seq![vstd::utf8::encode_utf8(value@)],
        ),
        !taken ==> header_fields(*final(headers)) == header_fields(*old(headers)),
{
    headers.try_insert(name, axum::http::HeaderValue::from_str(value).unwrap()).is_ok()
}

} // verus!
