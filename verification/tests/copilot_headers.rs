use provider_failover::copilot_headers::{set_request_id, CopilotHeaderInjector};
use reqwest::header::{HeaderMap, HeaderValue};

#[test]
fn injects_unique_request_ids() {
    let inj = CopilotHeaderInjector;
    let mut h1 = HeaderMap::new();
    let mut h2 = HeaderMap::new();
    inj.inject(&mut h1);
    inj.inject(&mut h2);
    let a = h1.get("X-Request-Id").unwrap().to_str().unwrap();
    let b = h2.get("X-Request-Id").unwrap().to_str().unwrap();
    assert_ne!(a, b, "each request gets a fresh uuid v4");
    assert_eq!(a.len(), 36);
    assert_eq!(a.as_bytes()[14], b'4');
}

#[test]
fn only_the_request_id_is_replaced() {
    let mut headers = HeaderMap::new();
    headers.insert("accept", HeaderValue::from_static("text/plain"));
    headers.append("x-request-id", HeaderValue::from_static("one"));
    headers.append("x-request-id", HeaderValue::from_static("two"));
    assert!(set_request_id(&mut headers, "three"));
    assert_eq!(headers.get_all("x-request-id").iter().count(), 1);
    assert_eq!(headers["x-request-id"], "three");
    assert_eq!(headers["accept"], "text/plain");
    assert_eq!(headers.len(), 2);
}

#[test]
fn an_id_that_cannot_stand_in_a_header_is_not_set() {
    let mut headers = HeaderMap::new();
    assert!(!set_request_id(&mut headers, "a\nb"));
    assert!(!set_request_id(&mut headers, "\u{7f}"));
    assert!(headers.is_empty());
    assert!(set_request_id(&mut headers, "\té"));
    assert_eq!(headers["x-request-id"].as_bytes(), "\té".as_bytes());
}
