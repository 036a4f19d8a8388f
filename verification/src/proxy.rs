//! Request orchestrator: the decision engine of the proxy.
//!
//! A request is handled as a little state machine. `start_request_at`
//! inspects the cache and the admission tracker and either answers at once
//! or asks the caller to perform one upstream fetch (primary or fallback
//! account). The caller performs the fetch — the only part of the flow that
//! leaves this crate — classifies the outcome, and hands it back to
//! `resume_request_at`, which may answer or ask for one more fetch (the
//! fallback after an exhausted primary). Every decision, including every
//! cache and tracker update, is fixed by the two transition functions
//! `start_transition` and `resume_transition`.

use crate::cache::CacheEntryView;
use crate::cache::CacheView;
use crate::cache::ProxyCache;
use crate::cache::DUR_BOUND;
use crate::cache::TIME_BOUND;
use crate::cache::admits_at;
use crate::cache::failed_stamp;
use crate::cache::fresh_at;
use crate::cache::spec_key;
use crate::clock::clamped_now;
use vstd::pervasive::unreached;
use vstd::prelude::*;
use vstd::string::StringExecFns;

verus! {

/// Cool-down applied to a bucket whose account reported exhaustion (its own
/// rate limit), and to a primary bucket that a fallback had to stand in for:
/// a long pause, to stop hammering an account that is known to be out of
/// calls.
pub const EXHAUSTED_COOLDOWN_SECS: u64 = 3600;

/// Cool-down applied after a generic upstream or transport failure: a short
/// pause, so that transient failures recover quickly.
pub const FAILURE_COOLDOWN_SECS: u64 = 60;

/// Identifier and credential of the fallback account, as supplied by the
/// client per request.
pub struct FallbackCredentials {
    pub api_key: String,
    pub site_id: String,
}

/// One inbound request, already reduced to plain values by the transport
/// layer.
pub struct ProxyRequest {
    pub rooftop_id: String,
    pub endpoint: String,
    pub params: Vec<(String, String)>,
    pub force_refresh: bool,
    pub api_key: String,
    pub fallback: Option<FallbackCredentials>,
}

/// Service configuration: entry TTL and the minimum interval between
/// admitted upstream calls per bucket, both in seconds.
pub struct ProxyConfig {
    pub ttl_secs: u64,
    pub rate_limit_secs: u64,
}

impl ProxyConfig {
    /// Both durations are within the bound that keeps timestamp arithmetic
    /// exact.
    pub open spec fn wf(&self) -> bool {
        &&& self.ttl_secs < DUR_BOUND
        &&& self.rate_limit_secs < DUR_BOUND
    }
}

/// Classified outcome of one upstream call, performed by the caller.
pub enum UpstreamResult {
    /// HTTP success; raw body and content type.
    Success { body: String, content_type: String },
    /// Upstream reported its own rate limit (HTTP 429).
    RateLimited,
    /// Any other non-success status, with the body received.
    Error { status: u16, body: String },
    /// Connection, timeout or protocol failure before any status arrived.
    TransportError,
}

/// Provenance of a served body, reported to the client.
#[derive(Clone, Copy, Debug, PartialEq, Eq, Structural)]
pub enum CacheStatus {
    Hit,
    Miss,
    Stale,
    Fallback,
}

/// Which fetch the caller was asked to perform.
#[derive(Clone, Copy, Debug, PartialEq, Eq, Structural)]
pub enum FetchContext {
    /// The ordinary fetch with the client's own credentials.
    Primary,
    /// A fallback fetch entered because the primary bucket denied admission.
    FallbackOnDenied,
    /// A fallback fetch entered because the primary upstream returned 429.
    FallbackOnExhausted,
}

/// The response handed back to the transport layer.
pub struct ProxyResponse {
    pub status: u16,
    pub body: String,
    pub content_type: String,
    pub cache_status: Option<CacheStatus>,
    pub age: i64,
    pub retry_after_secs: Option<u64>,
}

/// Mathematical image of a `ProxyResponse`.
pub ghost struct ResponseView {
    pub status: int,
    pub body: Seq<char>,
    pub content_type: Seq<char>,
    pub cache_status: Option<CacheStatus>,
    pub age: int,
    pub retry_after_secs: Option<int>,
}

impl View for ProxyResponse {
    type V = ResponseView;

    open spec fn view(&self) -> ResponseView {
        ResponseView {
            status: self.status as int,
            body: self.body@,
            content_type: self.content_type@,
            cache_status: self.cache_status,
            age: self.age as int,
            retry_after_secs: match self.retry_after_secs {
                Some(v) => Some(v as int),
                None => None,
            },
        }
    }
}

/// What the engine asks of its caller next.
pub enum Step {
    /// The request is decided; send this response.
    Respond(ProxyResponse),
    /// Perform one upstream call for `site_id`/`endpoint` with `api_key`
    /// (the request's query parameters travel verbatim), classify the
    /// outcome, and hand it to `resume_request_at` with the same `context`.
    Fetch { site_id: String, endpoint: String, api_key: String, context: FetchContext },
}

/// Mathematical image of a `Step`.
pub ghost enum StepView {
    Respond(ResponseView),
    Fetch { site_id: Seq<char>, endpoint: Seq<char>, api_key: Seq<char>, context: FetchContext },
}

impl View for Step {
    type V = StepView;

    open spec fn view(&self) -> StepView {
        match self {
            Step::Respond(resp) => StepView::Respond(resp@),
            Step::Fetch { site_id, endpoint, api_key, context } => StepView::Fetch {
                site_id: site_id@,
                endpoint: endpoint@,
                api_key: api_key@,
                context: *context,
            },
        }
    }
}

/// The two endpoint names the proxy serves; anything else is `NotFound`.
pub open spec fn valid_endpoint(endpoint: Seq<char>) -> bool {
    ||| endpoint == "forecasts"@
    ||| endpoint == "estimated_actuals"@
}

/// The query string `k1=v1&k2=v2&...`, in exactly the order the client
/// supplied the parameters (no normalization: differently ordered parameter
/// lists are distinct cache keys).
pub open spec fn spec_query(params: Seq<(String, String)>) -> Seq<char>
    decreases params.len(),
{
    if params.len() == 0 {
        Seq::empty()
    } else if params.len() == 1 {
        params[0].0@ + "="@ + params[0].1@
    } else {
        spec_query(params.drop_last()) + "&"@ + params.last().0@ + "="@ + params.last().1@
    }
}

/// The endpoint descriptor used in cache keys: the endpoint name, plus the
/// verbatim query string when parameters were supplied.
pub open spec fn spec_cache_endpoint(endpoint: Seq<char>, params: Seq<(String, String)>) -> Seq<
    char,
> {
    if params.len() == 0 {
        endpoint
    } else {
        endpoint + "?"@ + spec_query(params)
    }
}

/// The canonical cache key and primary rate-limit bucket of a request.
pub open spec fn primary_bucket(req: ProxyRequest) -> Seq<char> {
    spec_key(req.rooftop_id@, spec_cache_endpoint(req.endpoint@, req.params@))
}

/// The namespaced rate-limit bucket of the request's fallback account
/// (meaningful when fallback credentials are present).
pub open spec fn fallback_bucket(req: ProxyRequest) -> Seq<char> {
    spec_key(
        "fallback:"@ + req.fallback->0.site_id@,
        spec_cache_endpoint(req.endpoint@, req.params@),
    )
}

/// A body served from cache or upstream: status 200 with provenance and age
/// headers.
pub open spec fn cached_response_view(
    body: Seq<char>,
    content_type: Seq<char>,
    cache_status: CacheStatus,
    age: int,
) -> ResponseView {
    ResponseView {
        status: 200,
        body,
        content_type,
        cache_status: Some(cache_status),
        age,
        retry_after_secs: None,
    }
}

/// Unknown endpoint.
pub open spec fn not_found_view() -> ResponseView {
    ResponseView {
        status: 404,
        body: "Unknown endpoint"@,
        content_type: "text/plain"@,
        cache_status: None,
        age: 0,
        retry_after_secs: None,
    }
}

/// Admission denied, no data at all to serve: throttle the client, with a
/// retry hint.
pub open spec fn rate_limited_view(retry_after: int) -> ResponseView {
    ResponseView {
        status: 429,
        body: "Rate limited and no cached data available"@,
        content_type: "text/plain"@,
        cache_status: None,
        age: 0,
        retry_after_secs: Some(retry_after),
    }
}

/// Upstream itself reported exhaustion and nothing cached can stand in.
pub open spec fn upstream_limited_view() -> ResponseView {
    ResponseView {
        status: 429,
        body: "Upstream rate limited"@,
        content_type: "text/plain"@,
        cache_status: None,
        age: 0,
        retry_after_secs: None,
    }
}

/// An upstream non-success status forwarded verbatim.
pub open spec fn upstream_error_view(status: int, body: Seq<char>) -> ResponseView {
    ResponseView {
        status,
        body,
        content_type: "text/plain"@,
        cache_status: None,
        age: 0,
        retry_after_secs: None,
    }
}

/// A transport failure with nothing cached: a generic gateway failure.
pub open spec fn gateway_failure_view() -> ResponseView {
    ResponseView {
        status: 502,
        body: "Upstream fetch failed"@,
        content_type: "text/plain"@,
        cache_status: None,
        age: 0,
        retry_after_secs: None,
    }
}

/// Serve the stale entry under `key` when one exists, else answer
/// `otherwise`.
pub open spec fn stale_or_view(
    cv: CacheView,
    key: Seq<char>,
    otherwise: ResponseView,
    now: int,
) -> StepView {
    if cv.entries.contains_key(key) {
        let e = cv.entries[key];
        StepView::Respond(
            cached_response_view(e.body, e.content_type, CacheStatus::Stale, now - e.fetched_at),
        )
    } else {
        StepView::Respond(otherwise)
    }
}

/// The first decision of a request, against cache state `cv` at time `now`:
/// what to do next, and the cache state after the decision's own updates.
///
/// In order of precedence: unknown endpoints are refused; a fresh entry is
/// served (unless the client forced a refresh); a denied primary bucket
/// falls back to the fallback account when its credentials are present and
/// its own bucket admits, else to stale data, else to throttling; otherwise
/// the primary attempt is recorded and the fetch is requested. A forced
/// refresh skips the freshness and admission checks but still records the
/// attempt.
pub open spec fn start_transition(
    cv: CacheView,
    req: ProxyRequest,
    cfg: ProxyConfig,
    now: int,
) -> (StepView, CacheView) {
    let key = primary_bucket(req);
    if !valid_endpoint(req.endpoint@) {
        (StepView::Respond(not_found_view()), cv)
    } else if !req.force_refresh && fresh_at(cv, key, cfg.ttl_secs as int, now) {
        let e = cv.entries[key];
        (
            StepView::Respond(
                cached_response_view(e.body, e.content_type, CacheStatus::Hit, now - e.fetched_at),
            ),
            cv,
        )
    } else if !req.force_refresh && !admits_at(cv, key, cfg.rate_limit_secs as int, now) {
        if req.fallback is Some && admits_at(
            cv,
            fallback_bucket(req),
            cfg.rate_limit_secs as int,
            now,
        ) {
            (
                StepView::Fetch {
                    site_id: req.fallback->0.site_id@,
                    endpoint: req.endpoint@,
                    api_key: req.fallback->0.api_key@,
                    context: FetchContext::FallbackOnDenied,
                },
                CacheView {
                    entries: cv.entries,
                    attempts: cv.attempts.insert(fallback_bucket(req), now),
                },
            )
        } else {
            (stale_or_view(cv, key, rate_limited_view(cfg.rate_limit_secs as int), now), cv)
        }
    } else {
        (
            StepView::Fetch {
                site_id: req.rooftop_id@,
                endpoint: req.endpoint@,
                api_key: req.api_key@,
                context: FetchContext::Primary,
            },
            CacheView { entries: cv.entries, attempts: cv.attempts.insert(key, now) },
        )
    }
}

/// The decision after an upstream call has been performed and classified.
///
/// A success is stored under the canonical key (whichever account served
/// it) and answered as `MISS`, or `FALLBACK` when fallback credentials made
/// the call; a fallback success also puts the primary bucket on the long
/// cool-down. An exhausted primary retries through the fallback account
/// when possible; every failure applies its cool-down to the bucket just
/// used (long for exhaustion, short otherwise) and then degrades to stale
/// data when any exists, else to the matching error response.
pub open spec fn resume_transition(
    cv: CacheView,
    req: ProxyRequest,
    cfg: ProxyConfig,
    context: FetchContext,
    outcome: UpstreamResult,
    now: int,
) -> (StepView, CacheView) {
    let key = primary_bucket(req);
    let fb = fallback_bucket(req);
    let rate = cfg.rate_limit_secs as int;
    let long = EXHAUSTED_COOLDOWN_SECS as int;
    let short = FAILURE_COOLDOWN_SECS as int;
    match context {
        FetchContext::Primary => match outcome {
            UpstreamResult::Success { body, content_type } => (
                StepView::Respond(
                    cached_response_view(body@, content_type@, CacheStatus::Miss, 0),
                ),
                CacheView {
                    entries: cv.entries.insert(
                        key,
                        CacheEntryView {
                            body: body@,
                            content_type: content_type@,
                            fetched_at: now,
                        },
                    ),
                    attempts: cv.attempts,
                },
            ),
            UpstreamResult::RateLimited => {
                if req.fallback is Some && admits_at(cv, fb, rate, now) {
                    (
                        StepView::Fetch {
                            site_id: req.fallback->0.site_id@,
                            endpoint: req.endpoint@,
                            api_key: req.fallback->0.api_key@,
                            context: FetchContext::FallbackOnExhausted,
                        },
                        CacheView { entries: cv.entries, attempts: cv.attempts.insert(fb, now) },
                    )
                } else {
                    (
                        stale_or_view(cv, key, upstream_limited_view(), now),
                        CacheView {
                            entries: cv.entries,
                            attempts: cv.attempts.insert(key, failed_stamp(now, rate, long)),
                        },
                    )
                }
            },
            UpstreamResult::Error { status, body } => (
                stale_or_view(cv, key, upstream_error_view(status as int, body@), now),
                CacheView {
                    entries: cv.entries,
                    attempts: cv.attempts.insert(key, failed_stamp(now, rate, short)),
                },
            ),
            UpstreamResult::TransportError => (
                stale_or_view(cv, key, gateway_failure_view(), now),
                CacheView {
                    entries: cv.entries,
                    attempts: cv.attempts.insert(key, failed_stamp(now, rate, short)),
                },
            ),
        },
        FetchContext::FallbackOnDenied => match outcome {
            UpstreamResult::Success { body, content_type } => (
                StepView::Respond(
                    cached_response_view(body@, content_type@, CacheStatus::Fallback, 0),
                ),
                CacheView {
                    entries: cv.entries.insert(
                        key,
                        CacheEntryView {
                            body: body@,
                            content_type: content_type@,
                            fetched_at: now,
                        },
                    ),
                    attempts: cv.attempts.insert(key, failed_stamp(now, rate, long)),
                },
            ),
            UpstreamResult::RateLimited => (
                stale_or_view(cv, key, rate_limited_view(rate), now),
                CacheView {
                    entries: cv.entries,
                    attempts: cv.attempts.insert(fb, failed_stamp(now, rate, long)),
                },
            ),
            UpstreamResult::Error { status: _, body: _ } => (
                stale_or_view(cv, key, rate_limited_view(rate), now),
                CacheView {
                    entries: cv.entries,
                    attempts: cv.attempts.insert(fb, failed_stamp(now, rate, short)),
                },
            ),
            UpstreamResult::TransportError => (
                stale_or_view(cv, key, rate_limited_view(rate), now),
                CacheView {
                    entries: cv.entries,
                    attempts: cv.attempts.insert(fb, failed_stamp(now, rate, short)),
                },
            ),
        },
        FetchContext::FallbackOnExhausted => match outcome {
            UpstreamResult::Success { body, content_type } => (
                StepView::Respond(
                    cached_response_view(body@, content_type@, CacheStatus::Fallback, 0),
                ),
                CacheView {
                    entries: cv.entries.insert(
                        key,
                        CacheEntryView {
                            body: body@,
                            content_type: content_type@,
                            fetched_at: now,
                        },
                    ),
                    attempts: cv.attempts.insert(key, failed_stamp(now, rate, long)),
                },
            ),
            UpstreamResult::RateLimited => (
                stale_or_view(cv, key, upstream_limited_view(), now),
                CacheView {
                    entries: cv.entries,
                    attempts: cv.attempts.insert(fb, failed_stamp(now, rate, long)).insert(
                        key,
                        failed_stamp(now, rate, long),
                    ),
                },
            ),
            UpstreamResult::Error { status: _, body: _ } => (
                stale_or_view(cv, key, upstream_limited_view(), now),
                CacheView {
                    entries: cv.entries,
                    attempts: cv.attempts.insert(fb, failed_stamp(now, rate, short)).insert(
                        key,
                        failed_stamp(now, rate, long),
                    ),
                },
            ),
            UpstreamResult::TransportError => (
                stale_or_view(cv, key, upstream_limited_view(), now),
                CacheView {
                    entries: cv.entries,
                    attempts: cv.attempts.insert(fb, failed_stamp(now, rate, short)).insert(
                        key,
                        failed_stamp(now, rate, long),
                    ),
                },
            ),
        },
    }
}

/// Classify one upstream HTTP exchange by its status code: 429 is the
/// upstream's own rate limit, any other non-2xx status is an upstream
/// error forwarded with its body, and a 2xx response is a success carrying
/// its body and content type. (Transport failures never reach this point:
/// they are classified before any status exists.)
pub fn classify_upstream_response(status: u16, body: String, content_type: String) -> (r:
    UpstreamResult)
    ensures
        r == (if status == 429 {
            UpstreamResult::RateLimited
        } else if 200 <= status < 300 {
            UpstreamResult::Success { body, content_type }
        } else {
            UpstreamResult::Error { status, body }
        }),
{
    if status == 429 {
        UpstreamResult::RateLimited
    } else if 200 <= status && status < 300 {
        UpstreamResult::Success { body, content_type }
    } else {
        UpstreamResult::Error { status, body }
    }
}

/// Whether `endpoint` is one of the two served endpoint names.
fn is_valid_endpoint(endpoint: &String) -> (r: bool)
    ensures
        r == valid_endpoint(endpoint@),
{
    let forecasts = String::from_str("forecasts");
    let actuals = String::from_str("estimated_actuals");
    *endpoint == forecasts || *endpoint == actuals
}

/// Build the endpoint descriptor: the endpoint name, plus `?k=v&...` with
/// the parameters exactly as supplied.
#[verifier::loop_isolation(false)]
fn cache_endpoint_of(endpoint: &String, params: &Vec<(String, String)>) -> (r: String)
    ensures
        r@ == spec_cache_endpoint(endpoint@, params@),
{
    if params.len() == 0 {
        return endpoint.clone();
    }
    let mut s = endpoint.clone();
    s.append("?");
    let mut i: usize = 0;
    while i < params.len()
        invariant
            0 < params@.len(),
            i <= params@.len(),
            s@ == endpoint@ + "?"@ + spec_query(params@.take(i as int)),
        decreases params@.len() - i,
    {
        if i > 0 {
            s.append("&");
        }
        s.append(params[i].0.as_str());
        s.append("=");
        s.append(params[i].1.as_str());
        proof {
            let taken = params@.take(i + 1 as int);
            assert(taken.drop_last() =~= params@.take(i as int));
            assert(taken.last() == params@[i as int]);
            assert(s@ =~= endpoint@ + "?"@ + spec_query(taken));
        }
        i += 1;
    }
    proof {
        assert(params@.take(params@.len() as int) =~= params@);
    }
    s
}

/// The rate-limit namespace of a fallback site: `"fallback:<site_id>"`.
fn fallback_site_key(site_id: &String) -> (r: String)
    ensures
        r@ == "fallback:"@ + site_id@,
{
    let mut s = String::from_str("fallback:");
    s.append(site_id.as_str());
    s
}

/// Build a status-200 response carrying a body with its provenance and age.
fn cached_response(body: String, content_type: String, cache_status: CacheStatus, age: i64) -> (r:
    ProxyResponse)
    ensures
        r@ == cached_response_view(body@, content_type@, cache_status, age as int),
{
    ProxyResponse {
        status: 200,
        body,
        content_type,
        cache_status: Some(cache_status),
        age,
        retry_after_secs: None,
    }
}

/// Build a plain-text error response.
fn error_response(status: u16, body: String, retry_after_secs: Option<u64>) -> (r: ProxyResponse)
    ensures
        r@ == (ResponseView {
            status: status as int,
            body: body@,
            content_type: "text/plain"@,
            cache_status: None,
            age: 0,
            retry_after_secs: match retry_after_secs {
                Some(v) => Some(v as int),
                None => None,
            },
        }),
{
    ProxyResponse {
        status,
        body,
        content_type: String::from_str("text/plain"),
        cache_status: None,
        age: 0,
        retry_after_secs,
    }
}

/// Serve the stale entry when one exists, else the prepared error response.
fn stale_or(cache: &ProxyCache, rooftop_id: &str, cache_endpoint: &str, otherwise: ProxyResponse, now: i64) -> (r:
    Step)
    requires
        cache.wf(),
        0 <= now < TIME_BOUND,
    ensures
        r@ == stale_or_view(
            cache@,
            spec_key(rooftop_id@, cache_endpoint@),
            otherwise@,
            now as int,
        ),
{
    match cache.get_at(rooftop_id, cache_endpoint, now) {
        Some((entry, age)) => Step::Respond(
            cached_response(entry.body, entry.content_type, CacheStatus::Stale, age),
        ),
        None => Step::Respond(otherwise),
    }
}

/// First decision for a request at time `now`. See `start_transition` for
/// the decision it is guaranteed to take.
pub fn start_request_at(
    cache: &mut ProxyCache,
    req: &ProxyRequest,
    cfg: &ProxyConfig,
    now: i64,
) -> (r: Step)
    requires
        old(cache).wf(),
        cfg.wf(),
        0 <= now < TIME_BOUND,
    ensures
        final(cache).wf(),
        r@ == start_transition(old(cache)@, *req, *cfg, now as int).0,
        final(cache)@ == start_transition(old(cache)@, *req, *cfg, now as int).1,
{
    if !is_valid_endpoint(&req.endpoint) {
        return Step::Respond(
            error_response(404, String::from_str("Unknown endpoint"), None),
        );
    }
    let cache_ep = cache_endpoint_of(&req.endpoint, &req.params);

    // Fresh hit (skipped on a forced refresh).
    if !req.force_refresh && cache.is_fresh_at(
        req.rooftop_id.as_str(),
        cache_ep.as_str(),
        cfg.ttl_secs,
        now,
    ) {
        if let Some((entry, age)) = cache.get_at(req.rooftop_id.as_str(), cache_ep.as_str(), now) {
            return Step::Respond(
                cached_response(entry.body, entry.content_type, CacheStatus::Hit, age),
            );
        }
    }

    // Admission on the primary bucket (skipped on a forced refresh).
    if !req.force_refresh && !cache.can_fetch_at(
        req.rooftop_id.as_str(),
        cache_ep.as_str(),
        cfg.rate_limit_secs,
        now,
    ) {
        if let Some(fb) = &req.fallback {
            let fb_site = fallback_site_key(&fb.site_id);
            if cache.can_fetch_at(fb_site.as_str(), cache_ep.as_str(), cfg.rate_limit_secs, now) {
                cache.mark_attempt_at(fb_site.as_str(), cache_ep.as_str(), now);
                return Step::Fetch {
                    site_id: fb.site_id.clone(),
                    endpoint: req.endpoint.clone(),
                    api_key: fb.api_key.clone(),
                    context: FetchContext::FallbackOnDenied,
                };
            }
        }
        let denied = error_response(
            429,
            String::from_str("Rate limited and no cached data available"),
            Some(cfg.rate_limit_secs),
        );
        return stale_or(cache, req.rooftop_id.as_str(), cache_ep.as_str(), denied, now);
    }

    // Admitted (or forced): record the attempt and ask for the fetch.
    cache.mark_attempt_at(req.rooftop_id.as_str(), cache_ep.as_str(), now);
    Step::Fetch {
        site_id: req.rooftop_id.clone(),
        endpoint: req.endpoint.clone(),
        api_key: req.api_key.clone(),
        context: FetchContext::Primary,
    }
}

/// Decision after a fetch requested by `start_request_at` (or by an earlier
/// `resume_request_at`) came back. See `resume_transition` for the decision
/// it is guaranteed to take.
pub fn resume_request_at(
    cache: &mut ProxyCache,
    req: &ProxyRequest,
    cfg: &ProxyConfig,
    context: FetchContext,
    outcome: UpstreamResult,
    now: i64,
) -> (r: Step)
    requires
        old(cache).wf(),
        cfg.wf(),
        0 <= now < TIME_BOUND,
        !(context is Primary) ==> req.fallback is Some,
    ensures
        final(cache).wf(),
        r@ == resume_transition(old(cache)@, *req, *cfg, context, outcome, now as int).0,
        final(cache)@ == resume_transition(old(cache)@, *req, *cfg, context, outcome, now as int).1,
{
    let cache_ep = cache_endpoint_of(&req.endpoint, &req.params);
    match context {
        FetchContext::Primary => match outcome {
            UpstreamResult::Success { body, content_type } => {
                let resp_body = body.clone();
                let resp_ct = content_type.clone();
                cache.set_at(req.rooftop_id.as_str(), cache_ep.as_str(), body, content_type, now);
                Step::Respond(cached_response(resp_body, resp_ct, CacheStatus::Miss, 0))
            },
            UpstreamResult::RateLimited => {
                if let Some(fb) = &req.fallback {
                    let fb_site = fallback_site_key(&fb.site_id);
                    if cache.can_fetch_at(
                        fb_site.as_str(),
                        cache_ep.as_str(),
                        cfg.rate_limit_secs,
                        now,
                    ) {
                        cache.mark_attempt_at(fb_site.as_str(), cache_ep.as_str(), now);
                        return Step::Fetch {
                            site_id: fb.site_id.clone(),
                            endpoint: req.endpoint.clone(),
                            api_key: fb.api_key.clone(),
                            context: FetchContext::FallbackOnExhausted,
                        };
                    }
                }
                cache.mark_failed_attempt_at(
                    req.rooftop_id.as_str(),
                    cache_ep.as_str(),
                    cfg.rate_limit_secs,
                    EXHAUSTED_COOLDOWN_SECS,
                    now,
                );
                let denied = error_response(429, String::from_str("Upstream rate limited"), None);
                stale_or(cache, req.rooftop_id.as_str(), cache_ep.as_str(), denied, now)
            },
            UpstreamResult::Error { status, body } => {
                cache.mark_failed_attempt_at(
                    req.rooftop_id.as_str(),
                    cache_ep.as_str(),
                    cfg.rate_limit_secs,
                    FAILURE_COOLDOWN_SECS,
                    now,
                );
                let forwarded = error_response(status, body, None);
                stale_or(cache, req.rooftop_id.as_str(), cache_ep.as_str(), forwarded, now)
            },
            UpstreamResult::TransportError => {
                cache.mark_failed_attempt_at(
                    req.rooftop_id.as_str(),
                    cache_ep.as_str(),
                    cfg.rate_limit_secs,
                    FAILURE_COOLDOWN_SECS,
                    now,
                );
                let failed = error_response(502, String::from_str("Upstream fetch failed"), None);
                stale_or(cache, req.rooftop_id.as_str(), cache_ep.as_str(), failed, now)
            },
        },
        FetchContext::FallbackOnDenied | FetchContext::FallbackOnExhausted => match outcome {
            UpstreamResult::Success { body, content_type } => {
                let resp_body = body.clone();
                let resp_ct = content_type.clone();
                cache.set_at(req.rooftop_id.as_str(), cache_ep.as_str(), body, content_type, now);
                cache.mark_failed_attempt_at(
                    req.rooftop_id.as_str(),
                    cache_ep.as_str(),
                    cfg.rate_limit_secs,
                    EXHAUSTED_COOLDOWN_SECS,
                    now,
                );
                Step::Respond(cached_response(resp_body, resp_ct, CacheStatus::Fallback, 0))
            },
            UpstreamResult::RateLimited => {
                let fb = match &req.fallback {
                    Some(fb) => fb,
                    None => unreached(),
                };
                let fb_site = fallback_site_key(&fb.site_id);
                cache.mark_failed_attempt_at(
                    fb_site.as_str(),
                    cache_ep.as_str(),
                    cfg.rate_limit_secs,
                    EXHAUSTED_COOLDOWN_SECS,
                    now,
                );
                if matches!(context, FetchContext::FallbackOnExhausted) {
                    cache.mark_failed_attempt_at(
                        req.rooftop_id.as_str(),
                        cache_ep.as_str(),
                        cfg.rate_limit_secs,
                        EXHAUSTED_COOLDOWN_SECS,
                        now,
                    );
                    let denied = error_response(
                        429,
                        String::from_str("Upstream rate limited"),
                        None,
                    );
                    stale_or(cache, req.rooftop_id.as_str(), cache_ep.as_str(), denied, now)
                } else {
                    let denied = error_response(
                        429,
                        String::from_str("Rate limited and no cached data available"),
                        Some(cfg.rate_limit_secs),
                    );
                    stale_or(cache, req.rooftop_id.as_str(), cache_ep.as_str(), denied, now)
                }
            },
            UpstreamResult::Error { status: _, body: _ } | UpstreamResult::TransportError => {
                let fb = match &req.fallback {
                    Some(fb) => fb,
                    None => unreached(),
                };
                let fb_site = fallback_site_key(&fb.site_id);
                cache.mark_failed_attempt_at(
                    fb_site.as_str(),
                    cache_ep.as_str(),
                    cfg.rate_limit_secs,
                    FAILURE_COOLDOWN_SECS,
                    now,
                );
                if matches!(context, FetchContext::FallbackOnExhausted) {
                    cache.mark_failed_attempt_at(
                        req.rooftop_id.as_str(),
                        cache_ep.as_str(),
                        cfg.rate_limit_secs,
                        EXHAUSTED_COOLDOWN_SECS,
                        now,
                    );
                    let denied = error_response(
                        429,
                        String::from_str("Upstream rate limited"),
                        None,
                    );
                    stale_or(cache, req.rooftop_id.as_str(), cache_ep.as_str(), denied, now)
                } else {
                    let denied = error_response(
                        429,
                        String::from_str("Rate limited and no cached data available"),
                        Some(cfg.rate_limit_secs),
                    );
                    stale_or(cache, req.rooftop_id.as_str(), cache_ep.as_str(), denied, now)
                }
            },
        },
    }
}

/// First decision for a request, at the current wall-clock time: whatever
/// the clock reads, the decision is the one `start_transition` fixes for
/// that reading.
pub fn start_request(cache: &mut ProxyCache, req: &ProxyRequest, cfg: &ProxyConfig) -> (r: Step)
    requires
        old(cache).wf(),
        cfg.wf(),
    ensures
        final(cache).wf(),
        exists|now: int|
            0 <= now < TIME_BOUND && (r@, final(cache)@) == #[trigger] start_transition(
                old(cache)@,
                *req,
                *cfg,
                now,
            ),
{
    let now = clamped_now();
    start_request_at(cache, req, cfg, now)
}

/// Decision after a fetch came back, at the current wall-clock time:
/// whatever the clock reads, the decision is the one `resume_transition`
/// fixes for that reading.
pub fn resume_request(
    cache: &mut ProxyCache,
    req: &ProxyRequest,
    cfg: &ProxyConfig,
    context: FetchContext,
    outcome: UpstreamResult,
) -> (r: Step)
    requires
        old(cache).wf(),
        cfg.wf(),
        !(context is Primary) ==> req.fallback is Some,
    ensures
        final(cache).wf(),
        exists|now: int|
            0 <= now < TIME_BOUND && (r@, final(cache)@) == #[trigger] resume_transition(
                old(cache)@,
                *req,
                *cfg,
                context,
                outcome,
                now,
            ),
{
    let now = clamped_now();
    resume_request_at(cache, req, cfg, context, outcome, now)
}

} // verus!
