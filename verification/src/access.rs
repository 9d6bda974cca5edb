//! Who may use the administrative routes.

use vstd::prelude::*;

use crate::json;
use crate::reply;
use crate::reply::{error_reply, Reply};

verus! {

/// The address that a request comes from.
pub enum Address {
    /// The four octets of an IPv4 address.
    V4([u8; 4]),
    /// The eight 16-bit segments of an IPv6 address.
    V6([u16; 8]),
}

impl Address {
    /// Whether this is an IPv6 address that stands for the given IPv4 address. A socket that
    /// serves both families presents IPv4 clients in this way.
    pub open spec fn is_mapped(self, octets: Seq<u8>) -> bool {
        match self {
            Address::V4(_) => false,
            Address::V6(segments) => {
                &&& octets.len() == 4
                &&& forall|i: int| 0 <= i < 5 ==> #[trigger] segments@[i] == 0
                &&& segments@[5] == 0xffff
                &&& segments@[6] == octets[0] * 256 + octets[1]
                &&& segments@[7] == octets[2] * 256 + octets[3]
            },
        }
    }

    /// Whether the address is a loopback address of its own family.
    pub open spec fn is_loopback(self) -> bool {
        match self {
            Address::V4(octets) => octets@[0] == 127,
            Address::V6(segments) => {
                &&& forall|i: int| 0 <= i < 7 ==> #[trigger] segments@[i] == 0
                &&& segments@[7] == 1
            },
        }
    }

    /// Whether a request from the address comes from this machine.
    pub open spec fn is_local(self) -> bool {
        ||| self.is_loopback()
        ||| exists|octets: Seq<u8>| #[trigger] self.is_mapped(octets) && octets[0] == 127
    }
}

/// The type that an error reply to a client elsewhere gives.
pub open spec fn forbidden_kind() -> Seq<char> {
    "forbidden"@
}

/// The message that an error reply to a client elsewhere gives.
pub open spec fn forbidden_message() -> Seq<char> {
    "Access denied: administrative routes are localhost-only"@
}

/// Says whether a request comes from this machine.
pub fn is_local(address: &Address) -> (local: bool)
    ensures
        local == address.is_local(),
{
    match address {
        Address::V4(octets) => octets[0] == 127,
        Address::V6(segments) => {
            let start_is_zero: bool = segments[0] == 0 && segments[1] == 0 && segments[2] == 0
                && segments[3] == 0 && segments[4] == 0;
            let loopback: bool = start_is_zero && segments[5] == 0 && segments[6] == 0
                && segments[7] == 1;
            let mapped: bool = start_is_zero && segments[5] == 0xffff && segments[6] / 256 == 127;
            proof {
                let octets = seq![
                    (segments@[6] / 256) as u8,
                    (segments@[6] % 256) as u8,
                    (segments@[7] / 256) as u8,
                    (segments@[7] % 256) as u8,
                ];
                if mapped {
                    assert(address.is_mapped(octets));
                }
                if exists|octets: Seq<u8>| #[trigger] address.is_mapped(octets) && octets[0] == 127 {
                    let found = choose|octets: Seq<u8>| #[trigger]
                        address.is_mapped(octets) && octets[0] == 127;
                    assert(segments@[6] == found[0] * 256 + found[1]);
                    assert(segments@[6] / 256 == 127);
                    assert(segments@[0] == 0 && segments@[1] == 0 && segments@[2] == 0
                        && segments@[3] == 0 && segments@[4] == 0);
                    assert(mapped);
                }
                if address.is_loopback() {
                    assert(segments@[0] == 0 && segments@[1] == 0 && segments@[2] == 0
                        && segments@[3] == 0 && segments@[4] == 0 && segments@[5] == 0
                        && segments@[6] == 0);
                }
            }
            loopback || mapped
        },
    }
}

/// Decides on a request to an administrative route: `None` lets it through, and anything else is
/// the reply to it.
pub fn localhost_only(address: &Address) -> (refusal: Option<Reply>)
    ensures
        refusal is None <==> address.is_local(),
        refusal matches Some(reply) ==> reply.is_error(
            reply::FORBIDDEN,
            forbidden_kind(),
            forbidden_message(),
        ),
{
    if is_local(address) {
        None
    } else {
        Some(
            error_reply(
                reply::FORBIDDEN,
                "forbidden",
                "Access denied: administrative routes are localhost-only",
            ),
        )
    }
}

/// An IPv4 client is let through in either presentation or in none: as itself, and as the IPv6
/// address that stands for it.
pub proof fn presentation_does_not_matter(octets: [u8; 4], mapped: Address)
    requires
        mapped.is_mapped(octets@),
    ensures
        mapped.is_local() == Address::V4(octets).is_local(),
{
    let plain = Address::V4(octets);
    assert(!(exists|o: Seq<u8>| #[trigger] plain.is_mapped(o) && o[0] == 127));
    if let Address::V6(segments) = mapped {
        assert(segments@[5] == 0xffff);
        assert(!mapped.is_loopback());
        if exists|o: Seq<u8>| #[trigger] mapped.is_mapped(o) && o[0] == 127 {
            let o = choose|o: Seq<u8>| #[trigger] mapped.is_mapped(o) && o[0] == 127;
            assert(segments@[6] == o[0] * 256 + o[1]);
            assert(segments@[6] == octets@[0] * 256 + octets@[1]);
        }
    }
}

/// A client is let through exactly where its address begins with 127, is `::1`, or is an IPv6
/// address that ends in such an IPv4 address behind `::ffff`. Any other is told that it may not
/// ask, with status 403.
pub proof fn only_this_machine_is_let_through(address: &Address, refusal: Option<Reply>)
    requires
        call_ensures(localhost_only, (address,), refusal),
    ensures
        refusal is None <==> match *address {
            Address::V4(octets) => octets@[0] == 127,
            Address::V6(segments) => {
                ||| segments@ == seq![0u16, 0, 0, 0, 0, 0, 0, 1]
                ||| segments@.take(6) == seq![0u16, 0, 0, 0, 0, 0xffff] && 127 * 256
                    <= segments@[6] < 128 * 256
            },
        },
        refusal matches Some(reply) ==> {
            &&& reply.status == 403
            &&& reply::says_json(reply.headers)
            &&& exists|doc: json::JsonDoc| #[trigger]
                json::is_error_report(
                    doc,
                    "Access denied: administrative routes are localhost-only"@,
                    "forbidden"@,
                    403,
                ) && reply.body@ == json::json_bytes(doc)
        },
{
    lemma_local(*address);
    json::lemma_documents(forbidden_message(), forbidden_kind(), 403);
    if let Some(reply) = refusal {
        reply::lemma_json_headers(reply.headers);
    }
}

/// Whether a request comes from this machine, as the function that tells it says.
pub proof fn local_addresses_are_told(address: &Address, local: bool)
    requires
        call_ensures(is_local, (address,), local),
    ensures
        local <==> match *address {
            Address::V4(octets) => octets@[0] == 127,
            Address::V6(segments) => {
                ||| segments@ == seq![0u16, 0, 0, 0, 0, 0, 0, 1]
                ||| segments@.take(6) == seq![0u16, 0, 0, 0, 0, 0xffff] && 127 * 256
                    <= segments@[6] < 128 * 256
            },
        },
{
    lemma_local(*address);
}

/// The addresses of this machine, by their parts.
proof fn lemma_local(address: Address)
    ensures
        address.is_local() <==> match address {
            Address::V4(octets) => octets@[0] == 127,
            Address::V6(segments) => {
                ||| segments@ == seq![0u16, 0, 0, 0, 0, 0, 0, 1]
                ||| segments@.take(6) == seq![0u16, 0, 0, 0, 0, 0xffff] && 127 * 256
                    <= segments@[6] < 128 * 256
            },
        },
{
    match address {
        Address::V4(octets) => {
            assert(!(exists|o: Seq<u8>| #[trigger] address.is_mapped(o) && o[0] == 127));
        },
        Address::V6(segments) => {
            let s = segments@;
            assert(s.len() == 8);
            let start = seq![0u16, 0, 0, 0, 0, 0xffff];
            if address.is_loopback() {
                assert(s == seq![0u16, 0, 0, 0, 0, 0, 0, 1]);
            }
            if s == seq![0u16, 0, 0, 0, 0, 0, 0, 1] {
                assert(address.is_loopback());
            }
            if exists|o: Seq<u8>| #[trigger] address.is_mapped(o) && o[0] == 127 {
                let o = choose|o: Seq<u8>| #[trigger] address.is_mapped(o) && o[0] == 127;
                assert(s[6] == o[0] * 256 + o[1]);
                assert(s.take(6) == start);
            }
            if s.take(6) == start && 127 * 256 <= s[6] < 128 * 256 {
                let o = seq![
                    (s[6] / 256) as u8,
                    (s[6] % 256) as u8,
                    (s[7] / 256) as u8,
                    (s[7] % 256) as u8,
                ];
                assert forall|i: int| 0 <= i < 5 implies #[trigger] s[i] == 0 by {
                    assert(s.take(6)[i] == start[i]);
                }
                assert(s.take(6)[5] == start[5]);
                assert(address.is_mapped(o));
                assert(o[0] == 127);
            }
        },
    }
}

} // verus!
