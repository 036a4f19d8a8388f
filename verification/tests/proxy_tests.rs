//! Tests of the request-decision engine, step by step with fixed clocks.

use solcast_proxy::cache::ProxyCache;
use solcast_proxy::proxy::CacheStatus;
use solcast_proxy::proxy::FetchContext;
use solcast_proxy::proxy::FallbackCredentials;
use solcast_proxy::proxy::ProxyConfig;
use solcast_proxy::proxy::ProxyRequest;
use solcast_proxy::proxy::Step;
use solcast_proxy::proxy::UpstreamResult;
use solcast_proxy::proxy::resume_request_at;
use solcast_proxy::proxy::start_request_at;

fn config() -> ProxyConfig {
    ProxyConfig { ttl_secs: 7200, rate_limit_secs: 9000 }
}

fn request(rooftop: &str, endpoint: &str) -> ProxyRequest {
    ProxyRequest {
        rooftop_id: rooftop.to_string(),
        endpoint: endpoint.to_string(),
        params: Vec::new(),
        force_refresh: false,
        api_key: "primary-key".to_string(),
        fallback: None,
    }
}

fn with_fallback(mut req: ProxyRequest) -> ProxyRequest {
    req.fallback = Some(FallbackCredentials {
        api_key: "fallback-key".to_string(),
        site_id: "fbsite".to_string(),
    });
    req
}

fn success(body: &str) -> UpstreamResult {
    UpstreamResult::Success {
        body: body.to_string(),
        content_type: "application/json".to_string(),
    }
}

fn respond(step: Step) -> solcast_proxy::proxy::ProxyResponse {
    match step {
        Step::Respond(resp) => resp,
        Step::Fetch { .. } => panic!("expected a response, got a fetch instruction"),
    }
}

#[test]
fn test_unknown_endpoint_not_found() {
    let mut cache = ProxyCache::new();
    let req = request("site1", "bogus");
    let resp = respond(start_request_at(&mut cache, &req, &config(), 1000));
    assert_eq!(resp.status, 404);
    assert_eq!(resp.body, "Unknown endpoint");
    assert_eq!(resp.cache_status, None);
}

#[test]
fn test_scenario_miss_then_hit() {
    let mut cache = ProxyCache::new();
    let req = request("site1", "forecasts");
    let cfg = config();

    // First request for a never-seen key: the engine asks for a primary fetch.
    let step = start_request_at(&mut cache, &req, &cfg, 1000);
    match &step {
        Step::Fetch { site_id, endpoint, api_key, context } => {
            assert_eq!(site_id, "site1");
            assert_eq!(endpoint, "forecasts");
            assert_eq!(api_key, "primary-key");
            assert_eq!(*context, FetchContext::Primary);
        },
        Step::Respond(_) => panic!("expected a fetch instruction"),
    }

    // Upstream succeeds: MISS, cache populated.
    let resp = respond(resume_request_at(
        &mut cache,
        &req,
        &cfg,
        FetchContext::Primary,
        success("{\"w\":1}"),
        1001,
    ));
    assert_eq!(resp.status, 200);
    assert_eq!(resp.cache_status, Some(CacheStatus::Miss));
    assert_eq!(resp.body, "{\"w\":1}");
    assert_eq!(resp.age, 0);

    // Second request within the TTL: HIT, age between 0 and the elapsed time.
    let resp = respond(start_request_at(&mut cache, &req, &cfg, 1031));
    assert_eq!(resp.status, 200);
    assert_eq!(resp.cache_status, Some(CacheStatus::Hit));
    assert_eq!(resp.body, "{\"w\":1}");
    assert!(resp.age >= 0 && resp.age <= 31);
}

#[test]
fn test_scenario_stale_on_denied_admission() {
    let mut cache = ProxyCache::new();
    let req = request("site1", "forecasts");
    let cfg = config();
    cache.set_at("site1", "forecasts", "{\"old\":1}".into(), "application/json".into(), 0);
    cache.mark_attempt_at("site1", "forecasts", 7000);

    // Entry is older than the TTL and the bucket was attempted recently.
    let resp = respond(start_request_at(&mut cache, &req, &cfg, 8000));
    assert_eq!(resp.status, 200);
    assert_eq!(resp.cache_status, Some(CacheStatus::Stale));
    assert_eq!(resp.body, "{\"old\":1}");
    assert_eq!(resp.age, 8000);
}

#[test]
fn test_scenario_rate_limited_without_data() {
    let mut cache = ProxyCache::new();
    let req = request("site1", "forecasts");
    let cfg = config();
    cache.mark_attempt_at("site1", "forecasts", 7000);

    let resp = respond(start_request_at(&mut cache, &req, &cfg, 8000));
    assert_eq!(resp.status, 429);
    assert_eq!(resp.body, "Rate limited and no cached data available");
    assert_eq!(resp.retry_after_secs, Some(9000));
    assert_eq!(resp.cache_status, None);
}

#[test]
fn test_scenario_fallback_after_upstream_exhaustion() {
    let mut cache = ProxyCache::new();
    let req = with_fallback(request("site1", "forecasts"));
    let cfg = config();

    let step = start_request_at(&mut cache, &req, &cfg, 1000);
    assert!(matches!(step, Step::Fetch { context: FetchContext::Primary, .. }));

    // Primary reports 429; fallback credentials are present and admitted.
    let step = resume_request_at(
        &mut cache,
        &req,
        &cfg,
        FetchContext::Primary,
        UpstreamResult::RateLimited,
        1001,
    );
    match &step {
        Step::Fetch { site_id, api_key, context, .. } => {
            assert_eq!(site_id, "fbsite");
            assert_eq!(api_key, "fallback-key");
            assert_eq!(*context, FetchContext::FallbackOnExhausted);
        },
        Step::Respond(_) => panic!("expected a fallback fetch instruction"),
    }

    // Fallback succeeds: FALLBACK, stored under the original key.
    let resp = respond(resume_request_at(
        &mut cache,
        &req,
        &cfg,
        FetchContext::FallbackOnExhausted,
        success("{\"fb\":1}"),
        1002,
    ));
    assert_eq!(resp.status, 200);
    assert_eq!(resp.cache_status, Some(CacheStatus::Fallback));
    assert_eq!(resp.body, "{\"fb\":1}");
    assert_eq!(resp.age, 0);

    // A later request with only primary credentials hits the same key.
    let plain = request("site1", "forecasts");
    let resp = respond(start_request_at(&mut cache, &plain, &cfg, 1100));
    assert_eq!(resp.cache_status, Some(CacheStatus::Hit));
    assert_eq!(resp.body, "{\"fb\":1}");
}

#[test]
fn test_scenario_stale_after_upstream_error_short_cooldown() {
    let mut cache = ProxyCache::new();
    let req = request("site1", "forecasts");
    let cfg = config();
    cache.set_at("site1", "forecasts", "{\"old\":1}".into(), "application/json".into(), 0);

    let step = start_request_at(&mut cache, &req, &cfg, 8000);
    assert!(matches!(step, Step::Fetch { context: FetchContext::Primary, .. }));

    // Upstream returns a 500: the stale entry is served unchanged.
    let resp = respond(resume_request_at(
        &mut cache,
        &req,
        &cfg,
        FetchContext::Primary,
        UpstreamResult::Error { status: 500, body: "boom".to_string() },
        8005,
    ));
    assert_eq!(resp.status, 200);
    assert_eq!(resp.cache_status, Some(CacheStatus::Stale));
    assert_eq!(resp.body, "{\"old\":1}");

    // The bucket's next eligible time reflects the short cool-down (60s
    // after the failure), not the long one.
    assert!(!cache.can_fetch_at("site1", "forecasts", 9000, 8064));
    assert!(cache.can_fetch_at("site1", "forecasts", 9000, 8065));
}

#[test]
fn test_upstream_exhausted_without_data() {
    let mut cache = ProxyCache::new();
    let req = request("site1", "forecasts");
    let cfg = config();

    let _ = start_request_at(&mut cache, &req, &cfg, 1000);
    let resp = respond(resume_request_at(
        &mut cache,
        &req,
        &cfg,
        FetchContext::Primary,
        UpstreamResult::RateLimited,
        1001,
    ));
    assert_eq!(resp.status, 429);
    assert_eq!(resp.body, "Upstream rate limited");
    assert_eq!(resp.retry_after_secs, None);

    // The long cool-down governs the next admission: 3600s after failure.
    assert!(!cache.can_fetch_at("site1", "forecasts", 9000, 4600));
    assert!(cache.can_fetch_at("site1", "forecasts", 9000, 4601));
}

#[test]
fn test_upstream_error_forwarded_without_data() {
    let mut cache = ProxyCache::new();
    let req = request("site1", "forecasts");
    let cfg = config();

    let _ = start_request_at(&mut cache, &req, &cfg, 1000);
    let resp = respond(resume_request_at(
        &mut cache,
        &req,
        &cfg,
        FetchContext::Primary,
        UpstreamResult::Error { status: 503, body: "unavailable".to_string() },
        1001,
    ));
    assert_eq!(resp.status, 503);
    assert_eq!(resp.body, "unavailable");
    assert_eq!(resp.cache_status, None);
}

#[test]
fn test_transport_error_becomes_gateway_failure() {
    let mut cache = ProxyCache::new();
    let req = request("site1", "forecasts");
    let cfg = config();

    let _ = start_request_at(&mut cache, &req, &cfg, 1000);
    let resp = respond(resume_request_at(
        &mut cache,
        &req,
        &cfg,
        FetchContext::Primary,
        UpstreamResult::TransportError,
        1001,
    ));
    assert_eq!(resp.status, 502);
    assert_eq!(resp.body, "Upstream fetch failed");
}

#[test]
fn test_fallback_on_denied_admission() {
    let mut cache = ProxyCache::new();
    let req = with_fallback(request("site1", "forecasts"));
    let cfg = config();
    cache.mark_attempt_at("site1", "forecasts", 7000);

    // Admission denied on the primary, but the fallback bucket admits.
    let step = start_request_at(&mut cache, &req, &cfg, 8000);
    match &step {
        Step::Fetch { site_id, context, .. } => {
            assert_eq!(site_id, "fbsite");
            assert_eq!(*context, FetchContext::FallbackOnDenied);
        },
        Step::Respond(_) => panic!("expected a fallback fetch instruction"),
    }

    let resp = respond(resume_request_at(
        &mut cache,
        &req,
        &cfg,
        FetchContext::FallbackOnDenied,
        success("{\"fb\":2}"),
        8001,
    ));
    assert_eq!(resp.cache_status, Some(CacheStatus::Fallback));

    // Stored under the original key.
    let (entry, _) = cache.get_at("site1", "forecasts", 8002).unwrap();
    assert_eq!(entry.body, "{\"fb\":2}");

    // The forced skip put the primary bucket on the long cool-down.
    assert!(!cache.can_fetch_at("site1", "forecasts", 9000, 11600));
    assert!(cache.can_fetch_at("site1", "forecasts", 9000, 11601));
}

#[test]
fn test_fallback_failure_falls_back_to_throttle() {
    let mut cache = ProxyCache::new();
    let req = with_fallback(request("site1", "forecasts"));
    let cfg = config();
    cache.mark_attempt_at("site1", "forecasts", 7000);

    let step = start_request_at(&mut cache, &req, &cfg, 8000);
    assert!(matches!(step, Step::Fetch { context: FetchContext::FallbackOnDenied, .. }));

    // The fallback account is itself exhausted and nothing is cached.
    let resp = respond(resume_request_at(
        &mut cache,
        &req,
        &cfg,
        FetchContext::FallbackOnDenied,
        UpstreamResult::RateLimited,
        8001,
    ));
    assert_eq!(resp.status, 429);
    assert_eq!(resp.retry_after_secs, Some(9000));

    // The fallback bucket got the long cool-down: 3600s from the failure.
    assert!(!cache.can_fetch_at("fallback:fbsite", "forecasts", 9000, 11600));
    assert!(cache.can_fetch_at("fallback:fbsite", "forecasts", 9000, 11601));
}

#[test]
fn test_force_refresh_skips_freshness_and_admission() {
    let mut cache = ProxyCache::new();
    let mut req = request("site1", "forecasts");
    let cfg = config();
    cache.set_at("site1", "forecasts", "{\"old\":1}".into(), "application/json".into(), 990);
    cache.mark_attempt_at("site1", "forecasts", 995);

    // Without the directive this would be a fresh HIT.
    let resp = respond(start_request_at(&mut cache, &req, &cfg, 1000));
    assert_eq!(resp.cache_status, Some(CacheStatus::Hit));

    // With it, the engine goes upstream despite freshness and the recent
    // attempt, and records the new attempt.
    req.force_refresh = true;
    let step = start_request_at(&mut cache, &req, &cfg, 1000);
    assert!(matches!(step, Step::Fetch { context: FetchContext::Primary, .. }));
    assert!(!cache.can_fetch_at("site1", "forecasts", 9000, 9999));
    assert!(cache.can_fetch_at("site1", "forecasts", 9000, 10000));
}

#[test]
fn test_query_parameter_order_distinguishes_keys() {
    let mut cache = ProxyCache::new();
    let cfg = config();
    let mut req = request("site1", "forecasts");
    req.params = vec![("hours".to_string(), "24".to_string()), ("format".to_string(), "json".to_string())];

    let step = start_request_at(&mut cache, &req, &cfg, 1000);
    assert!(matches!(step, Step::Fetch { context: FetchContext::Primary, .. }));
    let resp = respond(resume_request_at(&mut cache, &req, &cfg, FetchContext::Primary, success("{\"p\":1}"), 1001));
    assert_eq!(resp.cache_status, Some(CacheStatus::Miss));

    // Same parameters, same order: a hit.
    let resp = respond(start_request_at(&mut cache, &req, &cfg, 1002));
    assert_eq!(resp.cache_status, Some(CacheStatus::Hit));

    // Same parameters, other order: a different key, so a fresh fetch.
    let mut reordered = request("site1", "forecasts");
    reordered.params = vec![("format".to_string(), "json".to_string()), ("hours".to_string(), "24".to_string())];
    let step = start_request_at(&mut cache, &reordered, &cfg, 1003);
    assert!(matches!(step, Step::Fetch { context: FetchContext::Primary, .. }));

    // And a parameterless request for the same endpoint is yet another key.
    let plain = request("site1", "forecasts");
    let step = start_request_at(&mut cache, &plain, &cfg, 1004);
    assert!(matches!(step, Step::Fetch { context: FetchContext::Primary, .. }));
}
