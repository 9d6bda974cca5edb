//! The identifiers by which a client and the logs refer to the same request.

use vstd::prelude::*;

use crate::headers;
use crate::headers::{has_header, set_header};
use crate::text;
use crate::text::hex_text;

verus! {

/// The name of the header field that carries the identifier of a request.
pub open spec fn request_id_header() -> Seq<char> {
    "x-request-id"@
}

/// The identifier that is made of a number.
pub open spec fn request_id_text(number: u64) -> Seq<char> {
    "oxllm-"@ + text::hex(number as nat, 16)
}

/// Whether a text is the identifier of some request.
pub open spec fn is_request_id(id: Seq<char>) -> bool {
    exists|number: u64| id == #[trigger] request_id_text(number)
}

/// The header fields of a response once it carries an identifier: those that it had, where it
/// carried one already, and else those with the given one.
pub open spec fn with_request_id(
    fields: headers::HeaderFields,
    id: Seq<char>,
) -> headers::HeaderFields {
    if fields.contains_key(request_id_header()) {
        fields
    } else {
        fields.insert(request_id_header(), seq![vstd::utf8::encode_utf8(id)])
    }
}

/// Calls `rand::random`, which draws a number. Nothing is said about which number it is.
#[verifier::external_body]
pub(crate) fn random_number() -> (number: u64) {
    rand::random::<u64>()
}

/// Whether a number has been drawn.
pub closed spec fn was_drawn(number: u64) -> bool {
    call_ensures(random_number, (), number)
}

/// Makes the identifier of a request out of a number.
pub fn request_id(number: u64) -> (id: String)
    ensures
        id@ == request_id_text(number),
        headers::is_header_text(id@),
{
    proof {
        request_ids_have_one_form(number);
    }
    let digits: String = hex_text(number);
    let mut id: String = "oxllm-".to_string();
    id.append(digits.as_str());
    id
}

/// Makes an identifier for a new request, out of a number that is drawn for it.
pub fn generate_request_id() -> (id: String)
    ensures
        is_request_id(id@),
        exists|number: u64| was_drawn(number) && id@ == #[trigger] request_id_text(number),
        headers::is_header_text(id@),
{
    request_id(random_number())
}

/// Whether an identifier can certainly be added: there is one already, or there is room for one.
pub open spec fn takes_request_id(fields: headers::HeaderFields) -> bool {
    fields.contains_key(request_id_header()) || fields.len() <= headers::MAX_FIELDS
}

/// Puts the identifier of a request into the header fields of the response to it, unless the
/// response carries one already, and says whether the response carries one now. It does, unless
/// the header fields are so many that they take no other; they then stay as they are.
pub fn add_request_id(headers: &mut axum::http::HeaderMap, id: &str) -> (carried: bool)
    requires
        headers::is_header_text(id@),
    ensures
        takes_request_id(headers::header_fields(*old(headers))) ==> carried,
        carried ==> headers::header_fields(*final(headers)) == with_request_id(
            headers::header_fields(*old(headers)),
            id@,
        ),
        !carried ==> headers::header_fields(*final(headers)) == headers::header_fields(
            *old(headers),
        ),
{
    proof {
        reveal_strlit("x-request-id");
    }
    if has_header(headers, "x-request-id") {
        true
    } else {
        set_header(headers, "x-request-id", id)
    }
}

/// The digits of a number are lower-case hexadecimal digits, as many as asked for.
proof fn lemma_hex_form(n: nat, width: nat)
    ensures
        text::hex(n, width).len() == width,
        forall|i: int|
            0 <= i < width ==> {
                ||| '0' <= #[trigger] text::hex(n, width)[i] <= '9'
                ||| 'a' <= text::hex(n, width)[i] <= 'f'
            },
    decreases width,
{
    if width > 0 {
        lemma_hex_form(n / 16, (width - 1) as nat);
        let start = text::hex(n / 16, (width - 1) as nat);
        assert forall|i: int| 0 <= i < width implies {
            ||| '0' <= #[trigger] text::hex(n, width)[i] <= '9'
            ||| 'a' <= text::hex(n, width)[i] <= 'f'
        } by {
            if i < width - 1 {
                assert(text::hex(n, width)[i] == start[i]);
            }
        }
    }
}

/// Every identifier consists of `oxllm-` and sixteen lower-case hexadecimal digits, and so can
/// stand in a header field.
pub proof fn request_ids_have_one_form(number: u64)
    ensures
        request_id_text(number).len() == 22,
        text::starts_with(request_id_text(number), "oxllm-"@),
        forall|i: int|
            6 <= i < 22 ==> {
                ||| '0' <= #[trigger] request_id_text(number)[i] <= '9'
                ||| 'a' <= request_id_text(number)[i] <= 'f'
            },
        headers::is_header_text(request_id_text(number)),
{
    reveal_strlit("oxllm-");
    lemma_hex_form(number as nat, 16);
    let id = request_id_text(number);
    let digits = text::hex(number as nat, 16);
    assert(id.take(6) == "oxllm-"@);
    assert forall|i: int| 6 <= i < 22 implies {
        ||| '0' <= #[trigger] id[i] <= '9'
        ||| 'a' <= id[i] <= 'f'
    } by {
        assert(id[i] == digits[i - 6]);
    }
}

/// How many numbers `width` hexadecimal digits can tell apart.
spec fn hex_range(width: nat) -> nat
    decreases width,
{
    if width == 0 {
        1
    } else {
        16 * hex_range((width - 1) as nat)
    }
}

/// Numbers within the range of their digits are the same where the digits are.
proof fn lemma_hex_injective(m: nat, n: nat, width: nat)
    requires
        text::hex(m, width) == text::hex(n, width),
        m < hex_range(width),
        n < hex_range(width),
    ensures
        m == n,
    decreases width,
{
    if width > 0 {
        let rest = (width - 1) as nat;
        assert(text::hex(m, width).drop_last() == text::hex(m / 16, rest));
        assert(text::hex(n, width).drop_last() == text::hex(n / 16, rest));
        assert(text::hex(m, width).last() == text::hex_char(m % 16));
        assert(text::hex(n, width).last() == text::hex_char(n % 16));
        lemma_hex_injective(m / 16, n / 16, rest);
    }
}

/// Different numbers give different identifiers.
pub proof fn request_ids_differ(m: u64, n: u64)
    requires
        m != n,
    ensures
        request_id_text(m) != request_id_text(n),
{
    if request_id_text(m) == request_id_text(n) {
        reveal_strlit("oxllm-");
        reveal_with_fuel(hex_range, 17);
        assert(text::hex(m as nat, 16) == request_id_text(m).skip(6));
        assert(text::hex(n as nat, 16) == request_id_text(n).skip(6));
        assert(hex_range(16) == 0x1_0000_0000_0000_0000);
        lemma_hex_injective(m as nat, n as nat, 16);
    }
}

/// A response that has gone through `add_request_id` carries an identifier: the one that it came
/// with, or else the given one. Its other header fields are as they were.
pub proof fn responses_carry_an_identifier(
    fields: headers::HeaderFields,
    id: Seq<char>,
    name: Seq<char>,
)
    ensures
        with_request_id(fields, id).contains_key(request_id_header()),
        fields.contains_key(request_id_header()) ==> with_request_id(
            fields,
            id,
        )[request_id_header()] == fields[request_id_header()],
        !fields.contains_key(request_id_header()) ==> with_request_id(
            fields,
            id,
        )[request_id_header()] == seq![vstd::utf8::encode_utf8(id)],
        name != request_id_header() ==> {
            &&& with_request_id(fields, id).contains_key(name) == fields.contains_key(name)
            &&& fields.contains_key(name) ==> with_request_id(fields, id)[name] == fields[name]
        },
{
}

/// Once a response carries an identifier, a second one changes nothing.
pub proof fn first_identifier_stays(fields: headers::HeaderFields, first: Seq<char>, second: Seq<char>)
    ensures
        with_request_id(with_request_id(fields, first), second) == with_request_id(fields, first),
{
}

/// Whether a text is the identifier of a request with a number: `oxllm-` and sixteen lower-case
/// hexadecimal digits that denote the number.
pub open spec fn identifies(id: Seq<char>, number: u64) -> bool {
    &&& text::starts_with(id, "oxllm-"@)
    &&& id.len() == 22
    &&& text::is_hex_digits(id.skip(6))
    &&& text::hex_value(id.skip(6)) == number
}

/// The identifier that is made of a number identifies it.
proof fn lemma_identifies(number: u64)
    ensures
        identifies(request_id_text(number), number),
{
    reveal_strlit("oxllm-");
    text::lemma_hex_digits_denote(number);
    let id = request_id_text(number);
    assert(id.take(6) == "oxllm-"@);
    assert(id.skip(6) == text::hex(number as nat, 16));
}

/// The number of a request is read back from its identifier.
pub proof fn identifiers_are_read_back(number: u64, id: String)
    requires
        call_ensures(request_id, (number,), id),
    ensures
        identifies(id@, number),
{
    lemma_identifies(number);
}

/// Every identifier that is generated is that of a number that was drawn, as it was drawn.
pub proof fn generated_identifiers_have_a_number(id: String)
    requires
        call_ensures(generate_request_id, (), id),
    ensures
        exists|number: u64| #[trigger] identifies(id@, number) && was_drawn(number),
{
    let number = choose|number: u64| was_drawn(number) && id@ == #[trigger] request_id_text(number);
    lemma_identifies(number);
}

/// What counts as drawn is what a call that draws a number has given.
pub(crate) proof fn drawn_numbers_come_from_a_draw(number: u64)
    ensures
        was_drawn(number) ==> call_ensures(random_number, (), number),
{
}

/// A response takes an identifier, unless it has more than 6553 header fields and none of them is
/// one.
pub proof fn ordinary_responses_take_an_identifier(fields: headers::HeaderFields)
    ensures
        fields.len() <= 6553 || fields.contains_key("x-request-id"@) ==> takes_request_id(fields),
{
}

/// A response carries exactly one more header field once it is marked, unless it was marked
/// before, and then nothing changes.
pub proof fn marking_adds_one_field(fields: headers::HeaderFields, id: Seq<char>)
    ensures
        with_request_id(fields, id).dom() == fields.dom().insert("x-request-id"@),
        fields.dom().contains("x-request-id"@) ==> with_request_id(fields, id) == fields,
        with_request_id(fields, id).remove("x-request-id"@) == fields.remove("x-request-id"@),
        !fields.dom().contains("x-request-id"@) ==> with_request_id(fields, id)["x-request-id"@]
            == seq![vstd::utf8::encode_utf8(id)],
{
    assert(with_request_id(fields, id).dom() =~= fields.dom().insert("x-request-id"@));
    assert(with_request_id(fields, id).remove("x-request-id"@) =~= fields.remove(
        "x-request-id"@,
    ));
}

/// A response that is marked keeps the identifier that it came with, or else gets the given one,
/// as its only value, and keeps all its other header fields. It is marked, unless it has more than
/// 6553 header fields and none of them is an identifier; where it is not, nothing changes.
pub proof fn responses_are_marked_once(
    headers: &mut axum::http::HeaderMap,
    id: &str,
    carried: bool,
)
    requires
        call_ensures(add_request_id, (headers, id), carried),
    ensures
        ({
            let before = headers::header_fields(*old(headers));
            let after = headers::header_fields(*final(headers));
            let name = "x-request-id"@;
            &&& before.len() <= 6553 || before.contains_key(name) ==> carried
            &&& carried ==> after.contains_key(name)
            &&& carried ==> after.remove(name) == before.remove(name)
            &&& before.contains_key(name) || !carried ==> after == before
            &&& carried && !before.contains_key(name) ==> after[name] == seq![
                vstd::utf8::encode_utf8(id@),
            ]
        }),
{
    let before = headers::header_fields(*old(headers));
    marking_adds_one_field(before, id@);
}

} // verus!
