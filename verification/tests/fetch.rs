use rss_cli::cache::{CacheEntry, CacheMeta};
use rss_cli::config::CachePolicy;
use rss_cli::error::RssError;
use rss_cli::fetch::{
    after_response, covers_window, fall_back, is_fresh, is_origin_refusal, plan_fetch, retry_after,
    retry_after_duration, settle, FetchPlan, Reply, SendStep, RETRY_BASE_DELAY_MS,
    RETRY_MAX_DELAY_MS,
};
use rss_cli::ratelimit::HostGate;
use rss_cli::time::{Duration, Timestamp};

const URL: &str = "https://example.com/feed.xml";

fn longest() -> Duration {
    Duration { millis: RETRY_MAX_DELAY_MS }
}

fn now() -> Timestamp {
    Timestamp { secs: chrono::Utc::now().timestamp(), nanos: 0 }
}

fn entry(fetched_at: &str) -> CacheEntry {
    CacheEntry {
        meta: CacheMeta {
            feed_url: URL.to_string(),
            etag: Some("\"seeded\"".to_string()),
            last_modified: Some("Mon, 05 Jan 2026 10:00:00 GMT".to_string()),
            fetched_at: fetched_at.to_string(),
            content_type: Some("application/rss+xml".to_string()),
        },
        body: b"cached".to_vec(),
    }
}

fn reply(status: u16, body: &[u8]) -> Reply {
    Reply {
        status,
        final_url: "https://example.com/final".to_string(),
        content_type: Some("text/xml".to_string()),
        etag: Some("\"new\"".to_string()),
        last_modified: None,
        retry_after: None,
        body: body.to_vec(),
    }
}

fn throttled() -> RssError {
    RssError::Http { status: 429, url: URL.into(), retry_after: None, retry_after_hint: None }
}

#[test]
fn retry_after_parses_delta_seconds_and_caps_to_max() {
    assert_eq!(retry_after(Some("2"), longest()), Some(Duration::from_secs(2)));
    assert_eq!(
        retry_after(Some("30"), longest()),
        Some(longest()),
        "a value above the cap must clamp to RETRY_MAX_DELAY"
    );
    assert_eq!(retry_after(None, longest()), None);
}

#[test]
fn retry_after_duration_parses_delta_seconds_and_http_date() {
    assert_eq!(retry_after_duration(Some("45"), now()), Some(Duration::from_secs(45)));
    let future = retry_after_duration(Some("Wed, 21 Oct 2099 07:28:00 GMT"), now())
        .expect("a future HTTP-date should parse to a positive duration");
    assert!(future.millis > Duration::from_secs(0).millis);
    assert_eq!(retry_after_duration(Some("Wed, 21 Oct 2015 07:28:00 GMT"), now()), None);
    assert_eq!(retry_after_duration(Some("soon"), now()), None);
    assert_eq!(retry_after_duration(None, now()), None);
}

#[test]
fn covers_window_is_a_coverage_test_not_a_freshness_test() {
    let instant = chrono::Utc::now() - chrono::Duration::hours(24);
    let floor = Timestamp {
        secs: instant.timestamp(),
        nanos: instant.timestamp_subsec_nanos(),
    };
    let at = |d: chrono::Duration| (chrono::Utc::now() - d).to_rfc3339();

    assert!(covers_window(&at(chrono::Duration::days(3650)), None), "no window, any age");
    assert!(covers_window(&at(chrono::Duration::hours(1)), Some(floor)), "inside");
    assert!(!covers_window(&at(chrono::Duration::days(8)), Some(floor)), "before it opened");
    assert!(!covers_window("not a timestamp", Some(floor)));
    assert!(
        covers_window("not a timestamp", None),
        "with no window there is nothing to prove coverage of"
    );
}

#[test]
fn only_origin_refusals_may_be_papered_over_with_a_stale_copy() {
    assert!(is_origin_refusal(&RssError::Http {
        status: 429,
        url: "u".into(),
        retry_after: None,
        retry_after_hint: None
    }));
    assert!(is_origin_refusal(&RssError::RateLimited {
        url: "u".into(),
        retry_after: Duration::from_secs(1)
    }));
    assert!(is_origin_refusal(&RssError::Network("reset".into())));

    assert!(!is_origin_refusal(&RssError::Parse("bad xml".into())));
    assert!(!is_origin_refusal(&RssError::DeadlineExceeded { url: "u".into() }));
    assert!(!is_origin_refusal(&RssError::Cache("disk".into())));
    assert!(!is_origin_refusal(&RssError::Usage("nope".into())));
}

#[test]
fn a_date_is_waited_for_to_the_second() {
    let start = Timestamp { secs: 1_445_412_470, nanos: 500_000_000 };
    assert_eq!(
        retry_after_duration(Some("Wed, 21 Oct 2015 07:28:00 GMT"), start),
        Some(Duration::from_millis(9_500))
    );
}

#[test]
fn maxage_serves_cache_without_network() {
    let t = Timestamp { secs: 1_767_225_600, nanos: 0 };
    let policy = CachePolicy::MaxAge(Duration::from_secs(60));
    match plan_fetch(URL, policy, Some(entry("2025-12-31T23:59:30Z")), t) {
        FetchPlan::Serve(raw) => {
            assert_eq!(raw.body, b"cached");
            assert!(raw.from_cache && raw.not_modified);
            assert_eq!(raw.status, 200);
            assert_eq!(raw.content_type.as_deref(), Some("application/rss+xml"));
            assert_eq!(raw.cached_at.as_deref(), Some("2025-12-31T23:59:30Z"));
        }
        other => panic!("expected a cached body, got {other:?}"),
    }
    match plan_fetch(URL, policy, Some(entry("2025-12-31T23:59:00Z")), t) {
        FetchPlan::Request { etag, .. } => assert_eq!(etag.as_deref(), Some("\"seeded\"")),
        other => panic!("expected a request, got {other:?}"),
    }
}

#[test]
fn freshness_is_strict_and_needs_a_readable_stamp() {
    let t = Timestamp { secs: 1_767_225_600, nanos: 0 };
    assert!(is_fresh("2025-12-31T23:59:01Z", Duration::from_secs(60), t));
    assert!(!is_fresh("2025-12-31T23:59:00Z", Duration::from_secs(60), t));
    assert!(!is_fresh("yesterday", Duration::from_secs(60), t));
    assert!(is_fresh("1970-01-01T00:00:00Z", Duration::from_secs(u64::MAX), t));
}

#[test]
fn cache_first_serves_stale_cache_without_network() {
    let plan = plan_fetch(URL, CachePolicy::CacheFirst, Some(entry("1999-01-01T00:00:00Z")), now());
    assert!(matches!(plan, FetchPlan::Serve(raw) if raw.body == b"cached" && raw.final_url == URL
        && raw.from_cache && raw.not_modified));
}

#[test]
fn cache_first_fetches_on_miss() {
    let plan = plan_fetch(URL, CachePolicy::CacheFirst, None, now());
    assert!(matches!(plan, FetchPlan::Request { etag: None, last_modified: None }));
}

#[test]
fn bypassing_the_cache_sends_no_validators() {
    let plan = plan_fetch(URL, CachePolicy::NoCache, Some(entry("2026-01-01T00:00:00Z")), now());
    assert!(matches!(plan, FetchPlan::Request { etag: None, last_modified: None }));
    let s = settle(URL, CachePolicy::NoCache, None, reply(200, b"new"), None, "t".into());
    assert!(s.store.is_none());
    assert_eq!(s.result.unwrap().body, b"new");
}

#[test]
fn fetch_200_stores_body_and_validators() {
    let s = settle(URL, CachePolicy::Revalidate, None, reply(200, b"new"), None, "t".into());
    let raw = s.result.unwrap();
    assert_eq!(raw.body, b"new");
    assert_eq!(raw.final_url, "https://example.com/final");
    assert!(!raw.from_cache && !raw.not_modified);
    let m = s.store.unwrap();
    assert_eq!(m.feed_url, URL);
    assert_eq!(m.etag.as_deref(), Some("\"new\""));
    assert_eq!(m.fetched_at, "t");
    assert_eq!(m.content_type.as_deref(), Some("text/xml"));
}

#[test]
fn revalidate_304_reuses_cached_body() {
    let s = settle(
        URL,
        CachePolicy::Revalidate,
        Some(entry("2026-01-01T00:00:00Z")),
        reply(304, b""),
        None,
        "2026-01-02T00:00:00Z".into(),
    );
    let raw = s.result.unwrap();
    assert_eq!(raw.body, b"cached");
    assert_eq!(raw.status, 304);
    assert!(raw.from_cache && raw.not_modified);
    assert_eq!(raw.cached_at.as_deref(), Some("2026-01-01T00:00:00Z"));
    let m = s.store.unwrap();
    assert_eq!(m.etag.as_deref(), Some("\"seeded\""));
    assert_eq!(m.fetched_at, "2026-01-02T00:00:00Z");
}

#[test]
fn a_304_without_an_entry_is_a_network_error() {
    let s = settle(URL, CachePolicy::Revalidate, None, reply(304, b""), None, "t".into());
    assert_eq!(
        s.result.unwrap_err().message(),
        format!("network error: server returned 304 but no cache entry exists for {URL}")
    );
}

#[test]
fn persistent_403_surfaces_status_in_error() {
    let mut r = reply(403, b"");
    r.retry_after = Some("7".into());
    let s = settle(URL, CachePolicy::Revalidate, None, r, Some(Duration::from_secs(2)), "t".into());
    assert!(s.store.is_none());
    match s.result {
        Err(RssError::Http { status, url, retry_after, retry_after_hint }) => {
            assert_eq!(status, 403);
            assert_eq!(url, URL);
            assert_eq!(retry_after.as_deref(), Some("7"));
            assert_eq!(retry_after_hint, Some(Duration::from_secs(2)));
        }
        other => panic!("expected an http error, got {other:?}"),
    }
}

#[test]
fn retries_once_on_403_then_succeeds() {
    let mut g = HostGate::default();
    let t = Timestamp { secs: 1_000, nanos: 0 };
    let first = after_response(&mut g, URL, true, 403, None, t, 1_000_000);
    assert_eq!(first, SendStep::Retry(Duration { millis: RETRY_BASE_DELAY_MS }));
    assert_eq!(g.state("example.com:443").escalation_depth, 1);
    let second = after_response(&mut g, URL, false, 200, None, t, 1_000_500);
    assert_eq!(second, SendStep::Finish);
    assert_eq!(g.state("example.com:443").escalation_depth, 0);
}

#[test]
fn a_second_throttle_stands_and_climbs_the_ladder() {
    let mut g = HostGate::default();
    let t = Timestamp { secs: 1_000, nanos: 0 };
    let first = after_response(&mut g, URL, true, 429, Some("3"), t, 1_000_000);
    assert_eq!(first, SendStep::Retry(Duration::from_secs(3)));
    assert_eq!(after_response(&mut g, URL, false, 429, None, t, 1_003_000), SendStep::Finish);
    assert_eq!(g.cooldown_remaining(URL, 1_003_000), Some(Duration::from_secs(4)));
}

#[test]
fn stale_if_error_serves_the_cached_body_when_the_origin_refuses() {
    let e = entry("2020-01-01T00:00:00Z");
    let raw = fall_back(URL, CachePolicy::StaleIfError, throttled(), Some(e), None).unwrap();
    assert_eq!(raw.body, b"cached");
    assert_eq!(raw.cached_at.as_deref(), Some("2020-01-01T00:00:00Z"));
    assert!(raw.from_cache && !raw.not_modified);
    assert_eq!(raw.stale_reason.as_deref(), Some("HTTP status 429: https://example.com/feed.xml"));
}

#[test]
fn stale_if_error_declines_a_copy_that_cannot_cover_the_window() {
    let floor = Timestamp { secs: 1_767_225_600, nanos: 0 };
    let old = entry("2025-12-31T23:59:59Z");
    assert!(fall_back(URL, CachePolicy::StaleIfError, throttled(), Some(old), Some(floor)).is_err());
    let covering = entry("2026-01-01T00:00:00Z");
    assert!(fall_back(URL, CachePolicy::StaleIfError, throttled(), Some(covering), Some(floor)).is_ok());
}

#[test]
fn stale_if_error_still_fails_when_nothing_is_cached() {
    assert!(fall_back(URL, CachePolicy::StaleIfError, throttled(), None, None).is_err());
    let e = entry("2026-01-01T00:00:00Z");
    assert!(fall_back(URL, CachePolicy::Revalidate, throttled(), Some(e), None).is_err());
}
