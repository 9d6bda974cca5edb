use oxllm::access::{is_local, localhost_only, Address};
use serde_json::Value;

fn mapped(octets: [u8; 4]) -> Address {
    Address::V6([
        0,
        0,
        0,
        0,
        0,
        0xffff,
        octets[0] as u16 * 256 + octets[1] as u16,
        octets[2] as u16 * 256 + octets[3] as u16,
    ])
}

#[test]
fn loopback_addresses_are_local() {
    assert!(is_local(&Address::V4([127, 0, 0, 1])));
    assert!(is_local(&Address::V4([127, 255, 255, 254])));
    assert!(is_local(&Address::V6([0, 0, 0, 0, 0, 0, 0, 1])));
    assert!(is_local(&mapped([127, 0, 0, 1])));
}

#[test]
fn other_addresses_are_not_local() {
    assert!(!is_local(&Address::V4([10, 0, 0, 1])));
    assert!(!is_local(&Address::V4([0, 0, 0, 0])));
    assert!(!is_local(&Address::V4([128, 0, 0, 1])));
    assert!(!is_local(&Address::V6([0, 0, 0, 0, 0, 0, 0, 0])));
    assert!(!is_local(&Address::V6([0, 0, 0, 0, 0, 0, 0x7f00, 1])));
    assert!(!is_local(&Address::V6([0xfe80, 0, 0, 0, 0, 0, 0, 1])));
    assert!(!is_local(&Address::V6([0, 0, 0, 0, 1, 0xffff, 0x7f00, 1])));
}

#[test]
fn the_presentation_of_an_ipv4_client_does_not_matter() {
    for first in 0..=255u8 {
        let octets = [first, 0, 2, 3];
        assert_eq!(is_local(&mapped(octets)), is_local(&Address::V4(octets)));
    }
}

#[test]
fn clients_elsewhere_are_refused() {
    let reply = localhost_only(&Address::V4([192, 168, 1, 7])).unwrap();
    assert_eq!(reply.status, 403);
    assert_eq!(reply.headers.len(), 1);
    assert_eq!(reply.headers.get("content-type").unwrap(), "application/json");
    let body: Value = serde_json::from_slice(&reply.body).unwrap();
    let error = body.get("error").unwrap();
    assert_eq!(
        error.get("message").unwrap().as_str().unwrap(),
        "Access denied: administrative routes are localhost-only"
    );
    assert_eq!(error.get("type").unwrap().as_str().unwrap(), "forbidden");
    assert_eq!(error.get("code").unwrap().as_u64().unwrap(), 403);
    assert_eq!(
        String::from_utf8(reply.body).unwrap(),
        "{\"error\":{\"code\":403,\"message\":\"Access denied: administrative routes are localhost-only\",\"type\":\"forbidden\"}}"
    );
}

#[test]
fn clients_on_this_machine_pass() {
    assert!(localhost_only(&Address::V4([127, 0, 0, 1])).is_none());
    assert!(localhost_only(&Address::V6([0, 0, 0, 0, 0, 0, 0, 1])).is_none());
    assert!(localhost_only(&mapped([127, 1, 2, 3])).is_none());
}
