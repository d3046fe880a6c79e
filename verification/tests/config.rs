use rss_cli::config::{
    parse_cache_policy, parse_dedupe, parse_duration, parse_since, resolve_since, CachePolicy,
    DedupeMode, FetchParams, DEFAULT_USER_AGENT,
};
use rss_cli::error::RssError;
use rss_cli::model::ContentFormat;
use rss_cli::time::{midnight, Duration, Timestamp};

#[test]
fn parse_duration_handles_every_unit() {
    assert_eq!(parse_duration("30s").unwrap(), Duration::from_secs(30));
    assert_eq!(parse_duration("15m").unwrap(), Duration::from_secs(900));
    assert_eq!(parse_duration("2h").unwrap(), Duration::from_secs(7200));
    assert_eq!(parse_duration("7d").unwrap(), Duration::from_secs(604_800));
    assert_eq!(parse_duration("1w").unwrap(), Duration::from_secs(604_800));
    assert!(parse_duration("2y").is_err(), "unknown unit must error");
    assert!(parse_duration("abc").is_err());
}

#[test]
fn parse_cache_policy_covers_the_documented_grammar() {
    assert_eq!(parse_cache_policy("revalidate").unwrap(), CachePolicy::Revalidate);
    assert_eq!(parse_cache_policy("no-cache").unwrap(), CachePolicy::NoCache);
    assert_eq!(parse_cache_policy("cache-first").unwrap(), CachePolicy::CacheFirst);
    assert_eq!(
        parse_cache_policy("max-age:15m").unwrap(),
        CachePolicy::MaxAge(Duration::from_secs(900))
    );
    assert_eq!(parse_cache_policy("  No-Cache ").unwrap(), CachePolicy::NoCache);

    let err = parse_cache_policy("aggressive").unwrap_err().message();
    assert!(err.contains("no-cache"), "error should list valid forms: {err}");
    assert!(parse_cache_policy("max-age:").is_err());
    assert!(parse_cache_policy("max-age:2y").is_err());
}

/// The second of an instant written in RFC 3339.
fn second_of(s: &str) -> i64 {
    chrono::DateTime::parse_from_rfc3339(s).unwrap().timestamp()
}

#[test]
fn parse_since_accepts_duration_rfc3339_and_bare_date() {
    assert!(parse_since("2h").unwrap().secs < chrono::Utc::now().timestamp());
    let dt = parse_since("2026-06-01T12:00:00Z").unwrap();
    assert_eq!((dt.secs, dt.nanos), (second_of("2026-06-01T12:00:00Z"), 0));
    let d = parse_since("2026-06-01").unwrap();
    assert_eq!((d.secs, d.nanos), (second_of("2026-06-01T00:00:00Z"), 0));
    assert!(parse_since("not-a-date").is_err());
}

#[test]
fn a_lookback_counts_from_the_given_instant() {
    let now = Timestamp { secs: 1_000_000, nanos: 7 };
    assert_eq!(
        resolve_since("2h", now, "since").unwrap(),
        Timestamp { secs: 992_800, nanos: 7 }
    );
}

#[test]
fn a_since_value_that_is_none_names_its_argument() {
    let now = Timestamp { secs: 0, nanos: 0 };
    let err = resolve_since(" soon ", now, "--since").unwrap_err();
    assert_eq!(
        err.message(),
        "usage error: invalid --since value 'soon' (use e.g. '2h', '7d', or '2026-06-01')"
    );
}

#[test]
fn a_lookback_beyond_the_calendar_is_a_usage_error() {
    let now = Timestamp { secs: 0, nanos: 0 };
    assert!(matches!(
        resolve_since("9999999999999999s", now, "since"),
        Err(RssError::Usage(_))
    ));
    assert!(matches!(
        resolve_since("99999999999999999999s", now, "since"),
        Err(RssError::Usage(_))
    ));
}

#[test]
fn duration_errors_say_what_is_wrong() {
    assert_eq!(parse_duration("2y").unwrap_err().message(), "usage error: unknown duration unit 'y'");
    assert_eq!(parse_duration(" 12 ").unwrap_err().message(), "usage error: invalid duration '12'");
    assert_eq!(parse_duration("m").unwrap_err().message(), "usage error: invalid duration 'm'");
    assert!(parse_duration("18446744073709551615w").is_err());
    assert_eq!(parse_duration("0s").unwrap(), Duration::from_secs(0));
}

#[test]
fn dedupe_modes_are_read_without_case() {
    assert_eq!(parse_dedupe("").unwrap(), DedupeMode::Report);
    assert_eq!(parse_dedupe(" Report ").unwrap(), DedupeMode::Report);
    assert_eq!(parse_dedupe("OFF").unwrap(), DedupeMode::Off);
    assert_eq!(parse_dedupe("drop").unwrap(), DedupeMode::Drop);
    assert_eq!(
        parse_dedupe("maybe").unwrap_err().message(),
        "usage error: invalid dedupe 'maybe' (expected report | off | drop)"
    );
    for m in [DedupeMode::Report, DedupeMode::Off, DedupeMode::Drop] {
        assert_eq!(parse_dedupe(m.as_str()).unwrap(), m);
    }
}

#[test]
fn default_parameters_are_the_documented_ones() {
    let p = FetchParams::default();
    assert_eq!(p.content_format, ContentFormat::Markdown);
    assert_eq!(p.concurrency, 8);
    assert_eq!(p.timeout, Duration::from_secs(30));
    assert_eq!(p.user_agent, DEFAULT_USER_AGENT);
    assert_eq!(p.cache_policy, CachePolicy::Revalidate);
    assert!(p.limit.is_none() && p.since.is_none() && p.deadline.is_none());
}

#[test]
fn a_day_begins_at_midnight() {
    assert_eq!(midnight(719_163), Timestamp { secs: 0, nanos: 0 });
    assert_eq!(midnight(719_162), Timestamp { secs: -86_400, nanos: 0 });
    let now = Timestamp { secs: 1_800_000_000, nanos: 5 };
    assert_eq!(
        resolve_since("2026-06-01", now, "since").unwrap(),
        Timestamp { secs: 1_780_272_000, nanos: 0 }
    );
}

#[test]
fn a_leap_second_counts() {
    let read = |s: &str| {
        let d = chrono::DateTime::parse_from_rfc3339(s).unwrap();
        (Timestamp { secs: d.timestamp(), nanos: d.timestamp_subsec_nanos() }, d)
    };
    for (a, b) in [
        ("2016-06-30T12:00:60Z", "2016-06-30T13:00:00Z"),
        ("2016-06-30T13:00:00Z", "2016-06-30T12:00:60Z"),
        ("2016-12-31T23:59:60Z", "2017-01-01T00:00:10Z"),
        ("2016-12-31T23:59:60.5Z", "2016-12-31T23:59:60Z"),
        ("1960-01-01T00:00:60Z", "1959-12-31T23:00:00Z"),
        ("2020-01-01T00:00:00Z", "2020-01-01T00:01:30.25Z"),
    ] {
        let (x, dx) = read(a);
        let (y, dy) = read(b);
        let want = dy.signed_duration_since(dx).num_nanoseconds().unwrap() as i128;
        assert_eq!(y.nanos_after(&x), want, "{a} to {b}");
    }
}
