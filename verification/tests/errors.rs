use rss_cli::cli::exit_code_of;
use rss_cli::error::RssError;
use rss_cli::exit;
use rss_cli::json::{get, Json};
use rss_cli::model::ErrorObj;
use rss_cli::time::Duration;

fn number(obj: &ErrorObj, name: &str) -> Option<u64> {
    match get(&obj.details, name) {
        Some(Json::UInt(n)) => Some(*n),
        _ => None,
    }
}

#[test]
fn http_error_surfaces_retry_after_when_present() {
    let e = RssError::Http {
        status: 503,
        url: "https://x".into(),
        retry_after: Some("2".into()),
        retry_after_hint: None,
    };
    let obj = e.to_error_obj(None);
    assert_eq!(obj.code, "FEED_FETCH_FAILED");
    assert_eq!(number(&obj, "http_status"), Some(503));
    assert!(matches!(get(&obj.details, "retry_after"), Some(Json::Str(s)) if s == "2"));
}

#[test]
fn a_429_is_paceable_and_every_other_status_is_a_plain_failure() {
    let throttled = RssError::Http {
        status: 429,
        url: "https://x/feed".into(),
        retry_after: None,
        retry_after_hint: Some(Duration::from_secs(48)),
    };
    let obj = throttled.to_error_obj(Some("https://x/feed"));
    assert_eq!(obj.code, "RATE_LIMITED");
    assert_eq!(number(&obj, "retry_after_seconds"), Some(48));
    assert_eq!(number(&obj, "retry_after_ms"), Some(48_000));
    assert!(obj.message.contains("429"), "message was {:?}", obj.message);

    for status in [403, 404, 500] {
        let e = RssError::Http {
            status,
            url: "https://x/feed".into(),
            retry_after: None,
            retry_after_hint: None,
        };
        assert_eq!(e.code(), "FEED_FETCH_FAILED", "status {status}");
        assert!(matches!(
            get(&e.to_error_obj(None).details, "retry_after_seconds"),
            Some(Json::Null)
        ));
    }
}

#[test]
fn rate_limited_surfaces_code_and_retry_after_details() {
    let e = RssError::RateLimited {
        url: "https://x/feed".into(),
        retry_after: Duration::from_secs(12),
    };
    let obj = e.to_error_obj(Some("https://x/feed"));
    assert_eq!(obj.code, "RATE_LIMITED");
    assert_eq!(obj.feed_url.as_deref(), Some("https://x/feed"));
    assert_eq!(number(&obj, "retry_after_seconds"), Some(12));
    assert_eq!(number(&obj, "retry_after_ms"), Some(12_000));
}

#[test]
fn every_error_has_its_code_message_and_exit_code() {
    let cases: Vec<(RssError, &str, &str, i32)> = vec![
        (RssError::Usage("u".into()), "USAGE_ERROR", "usage error: u", exit::USAGE),
        (RssError::InvalidUrl("x".into()), "INVALID_URL", "invalid URL: x", exit::USAGE),
        (RssError::Network("down".into()), "NETWORK_ERROR", "network error: down", exit::UNEXPECTED),
        (
            RssError::Http { status: 500, url: "h".into(), retry_after: None, retry_after_hint: None },
            "FEED_FETCH_FAILED",
            "HTTP status 500: h",
            exit::UNEXPECTED,
        ),
        (
            RssError::RateLimited { url: "h".into(), retry_after: Duration::from_secs(3) },
            "RATE_LIMITED",
            "rate limited: h (retry after ~3s)",
            exit::UNEXPECTED,
        ),
        (
            RssError::DeadlineExceeded { url: "h".into() },
            "BATCH_DEADLINE_EXCEEDED",
            "batch deadline passed before h was attempted",
            exit::UNEXPECTED,
        ),
        (RssError::Parse("p".into()), "FEED_PARSE_FAILED", "feed parse error: p", exit::UNEXPECTED),
        (RssError::NotFound("s".into()), "NOT_FOUND", "no feeds discovered at s", exit::UNEXPECTED),
        (RssError::Cache("c".into()), "CACHE_ERROR", "cache error: c", exit::UNEXPECTED),
        (
            RssError::ResponseTooLarge {
                estimated_tokens: 5,
                budget_tokens: 4,
                suggested_limit: 3,
                suggested_max_content_chars: 200,
            },
            "RESPONSE_TOO_LARGE",
            "response too large: ~5 tokens exceeds the 4-token budget; retry with limit=3 or max_content_chars=200",
            exit::UNEXPECTED,
        ),
        (RssError::Io("i".into()), "IO_ERROR", "i", exit::UNEXPECTED),
        (RssError::Other("o".into()), "INTERNAL_ERROR", "o", exit::UNEXPECTED),
    ];
    for (e, code, message, exit_code) in cases {
        assert_eq!(e.code(), code);
        assert_eq!(e.message(), message);
        assert_eq!(exit_code_of(&e), exit_code);
    }
}

#[test]
fn a_sub_second_wait_is_not_lost_in_milliseconds() {
    let e = RssError::RateLimited { url: "h".into(), retry_after: Duration::from_millis(1_500) };
    let obj = e.to_error_obj(None);
    assert_eq!(number(&obj, "retry_after_seconds"), Some(1));
    assert_eq!(number(&obj, "retry_after_ms"), Some(1_500));
    assert!(obj.feed_url.is_none());
}
