use axum::http::{HeaderMap, HeaderName, HeaderValue};
use oxllm::request_id::{add_request_id, generate_request_id, request_id};

#[test]
fn identifiers_are_made_of_numbers() {
    assert_eq!(request_id(0), "oxllm-0000000000000000");
    assert_eq!(request_id(0x1f2e3d4c5b6a7988), "oxllm-1f2e3d4c5b6a7988");
    assert_eq!(request_id(u64::MAX), "oxllm-ffffffffffffffff");
    assert_ne!(request_id(1), request_id(1 << 63));
}

#[test]
fn generated_identifiers_have_the_form() {
    for _ in 0..100 {
        let id = generate_request_id();
        assert!(id.starts_with("oxllm-"));
        assert_eq!(id.len(), 22);
        assert!(id[6..].chars().all(|c| c.is_ascii_hexdigit() && !c.is_ascii_uppercase()));
    }
    assert_ne!(generate_request_id(), generate_request_id());
}

#[test]
fn a_response_without_identifier_gets_one() {
    let mut headers = HeaderMap::new();
    headers.insert("content-type", HeaderValue::from_static("application/json"));
    assert!(add_request_id(&mut headers, &request_id(7)));
    assert_eq!(headers.get("x-request-id").unwrap(), "oxllm-0000000000000007");
    assert_eq!(headers.get("content-type").unwrap(), "application/json");
    assert_eq!(headers.len(), 2);
}

#[test]
fn a_forwarded_identifier_is_kept() {
    let mut headers = HeaderMap::new();
    headers.append("x-request-id", HeaderValue::from_static("upstream-1"));
    headers.append("x-request-id", HeaderValue::from_static("upstream-2"));
    assert!(add_request_id(&mut headers, &request_id(7)));
    let values: Vec<&HeaderValue> = headers.get_all("x-request-id").iter().collect();
    assert_eq!(values, vec!["upstream-1", "upstream-2"]);
}

#[test]
fn the_first_identifier_stays() {
    let mut headers = HeaderMap::new();
    assert!(add_request_id(&mut headers, &request_id(1)));
    assert!(add_request_id(&mut headers, &request_id(2)));
    assert_eq!(headers.get("x-request-id").unwrap(), "oxllm-0000000000000001");
}

fn crowded(count: usize) -> HeaderMap {
    let mut headers = HeaderMap::new();
    for i in 0..count {
        let name = HeaderName::from_bytes(format!("x-field-{}", i).as_bytes()).unwrap();
        headers.insert(name, HeaderValue::from_static("v"));
    }
    headers
}

#[test]
fn crowded_headers_take_an_identifier_up_to_a_point() {
    for count in [6553, 6554, 24575] {
        let mut headers = crowded(count);
        assert!(add_request_id(&mut headers, &request_id(3)));
        assert_eq!(headers.get("x-request-id").unwrap(), "oxllm-0000000000000003");
        assert_eq!(headers.keys_len(), count + 1);
    }
    let mut headers = crowded(24576);
    assert!(!add_request_id(&mut headers, &request_id(3)));
    assert_eq!(headers.keys_len(), 24576);
    assert!(headers.get("x-request-id").is_none());
    assert_eq!(headers.get("x-field-24575").unwrap(), "v");
}

#[test]
fn crowded_headers_keep_their_identifier() {
    let mut headers = HeaderMap::new();
    headers.insert("x-request-id", HeaderValue::from_static("upstream"));
    for i in 0..24575 {
        let name = HeaderName::from_bytes(format!("x-field-{}", i).as_bytes()).unwrap();
        headers.insert(name, HeaderValue::from_static("v"));
    }
    assert!(add_request_id(&mut headers, &request_id(3)));
    assert_eq!(headers.get("x-request-id").unwrap(), "upstream");
    assert_eq!(headers.keys_len(), 24576);
}
