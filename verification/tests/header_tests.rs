//! Tests of header-value decisions and upstream outcome classification.

use solcast_proxy::headers::bearer_token;
use solcast_proxy::headers::requests_no_cache;
use solcast_proxy::proxy::UpstreamResult;
use solcast_proxy::proxy::classify_upstream_response;

#[test]
fn test_bearer_token_extraction() {
    assert_eq!(bearer_token("Bearer abc123"), Some("abc123".to_string()));
    assert_eq!(bearer_token("Bearer "), Some("".to_string()));
    assert_eq!(bearer_token("Basic abc123"), None);
    assert_eq!(bearer_token("bearer abc123"), None);
    assert_eq!(bearer_token("Bear"), None);
    assert_eq!(bearer_token(""), None);
}

#[test]
fn test_no_cache_directive_detection() {
    assert!(requests_no_cache("no-cache"));
    assert!(requests_no_cache("max-age=0, no-cache"));
    assert!(requests_no_cache("no-cache, no-store"));
    assert!(!requests_no_cache("no-store"));
    assert!(!requests_no_cache("no-cach"));
    assert!(!requests_no_cache(""));
    assert!(!requests_no_cache("NO-CACHE"));
}

#[test]
fn test_classify_upstream_response() {
    match classify_upstream_response(429, "ignored".into(), "text/plain".into()) {
        UpstreamResult::RateLimited => {},
        _ => panic!("a 429 is the upstream's own rate limit"),
    }
    match classify_upstream_response(200, "{\"ok\":1}".into(), "application/json".into()) {
        UpstreamResult::Success { body, content_type } => {
            assert_eq!(body, "{\"ok\":1}");
            assert_eq!(content_type, "application/json");
        },
        _ => panic!("a 200 is a success"),
    }
    match classify_upstream_response(204, "".into(), "application/json".into()) {
        UpstreamResult::Success { .. } => {},
        _ => panic!("any 2xx is a success"),
    }
    match classify_upstream_response(500, "boom".into(), "text/plain".into()) {
        UpstreamResult::Error { status, body } => {
            assert_eq!(status, 500);
            assert_eq!(body, "boom");
        },
        _ => panic!("a 500 is an upstream error"),
    }
    match classify_upstream_response(301, "moved".into(), "text/plain".into()) {
        UpstreamResult::Error { status, .. } => assert_eq!(status, 301),
        _ => panic!("a redirect left over is not a success"),
    }
}
