use rss_cli::answer::unknown_command;
use rss_cli::batch::{
    assemble_prefix_in_request_order, exit_code_for, fail_all, find_item, outcome, read_feed,
    Fetched,
};
use rss_cli::cache::{CacheEntry, CacheMeta};
use rss_cli::cli::{exit_code_of, ContentArg, FetchArgs, FormatArg, ShowArgs};
use rss_cli::config::{CachePolicy, FetchParams};
use rss_cli::error::RssError;
use rss_cli::exit;
use rss_cli::fetch::{
    after_response, fall_back, plan_fetch, settle, FetchPlan, RawFeed, Reply, SendStep,
};
use rss_cli::json::{get, to_pretty, Json};
use rss_cli::model::{FeedStatus, FetchOutput};
use rss_cli::output::{render_fetch, OutputFormat};
use rss_cli::page::truncation_marker;
use rss_cli::ratelimit::HostGate;
use rss_cli::time::{Duration, Timestamp};
use rss_cli::wire::error_value;
use serde_json::Value;

const FEED: &str = "https://t.example/r/x/.rss";
const BODY: &str = r#"<rss version="2.0"><channel><title>x</title>
        <item><title>Post</title>
              <link>https://t.example/r/x/comments/abc/post/</link>
              <guid>t3_abc</guid>
              <pubDate>Mon, 02 Jun 2026 00:00:00 GMT</pubDate>
              <description>full body here</description></item>
        </channel></rss>"#;
const RSS2: &str = r#"<?xml version="1.0"?>
<rss version="2.0"><channel>
  <title>Example</title>
  <link>https://example.com/</link>
  <item>
    <title>Relative Link Post</title>
    <link>/post/1</link>
    <pubDate>Mon, 05 Jan 2026 10:00:00 GMT</pubDate>
    <description>first</description>
  </item>
  <item>
    <title>Absolute Link Post</title>
    <link>https://example.com/post/2</link>
    <guid isPermaLink="false">post-2</guid>
    <pubDate>Sun, 04 Jan 2026 10:00:00 GMT</pubDate>
    <description>second</description>
  </item>
</channel></rss>"#;
const ATOM: &str = r#"<?xml version="1.0" encoding="utf-8"?>
<feed xmlns="http://www.w3.org/2005/Atom">
  <title>Atom</title>
  <id>urn:feed</id>
  <updated>2026-01-05T10:00:00Z</updated>
  <entry>
    <title>One</title>
    <id>urn:one</id>
    <link href="https://example.com/one"/>
    <updated>2026-01-05T10:00:00Z</updated>
    <summary>first</summary>
  </entry>
  <entry>
    <title>Two</title>
    <id>urn:two</id>
    <link href="https://example.com/two"/>
    <updated>2026-01-04T10:00:00Z</updated>
    <summary>second</summary>
  </entry>
</feed>"#;
const JSON_FEED: &str = r#"{
  "version": "https://jsonfeed.org/version/1.1",
  "title": "JSON",
  "items": [
    {"id": "1", "url": "https://example.com/1", "title": "One", "content_text": "first"},
    {"id": "2", "url": "https://example.com/2", "title": "Two", "content_html": "<p>second</p>"}
  ]
}"#;
const MALFORMED: &str = "this is not a feed at all";

fn now() -> Timestamp {
    at(chrono::Utc::now())
}

fn at(t: chrono::DateTime<chrono::Utc>) -> Timestamp {
    Timestamp { secs: t.timestamp(), nanos: t.timestamp_subsec_nanos() }
}

fn ago(d: chrono::Duration) -> chrono::DateTime<chrono::Utc> {
    chrono::Utc::now() - d
}

fn stored(url: &str, fetched_at: &str, body: &str) -> CacheEntry {
    CacheEntry {
        meta: CacheMeta {
            feed_url: url.to_string(),
            etag: Some("\"v1\"".to_string()),
            last_modified: None,
            fetched_at: fetched_at.to_string(),
            content_type: Some("application/rss+xml".to_string()),
        },
        body: body.as_bytes().to_vec(),
    }
}

fn reply(url: &str, status: u16, body: &str) -> Reply {
    Reply {
        status,
        final_url: url.to_string(),
        content_type: Some("application/rss+xml; charset=utf-8".to_string()),
        etag: Some("\"v1\"".to_string()),
        last_modified: None,
        retry_after: None,
        body: body.as_bytes().to_vec(),
    }
}

fn fresh(url: &str, body: &str) -> RawFeed {
    settle(url, CachePolicy::NoCache, None, reply(url, 200, body), None, "t".into())
        .result
        .expect("a plain fetch")
}

fn cached(url: &str, entry: CacheEntry) -> RawFeed {
    match plan_fetch(url, CachePolicy::CacheFirst, Some(entry), now()) {
        FetchPlan::Serve(raw) => raw,
        other => panic!("expected the cached body, got {other:?}"),
    }
}

fn read(raw: RawFeed, url: &str, params: &FetchParams) -> Result<Fetched, RssError> {
    Ok(read_feed(raw, url, params, now())?.expect("the token sum fits"))
}

fn batch(results: Vec<(&str, Result<Fetched, RssError>)>, params: &FetchParams) -> FetchOutput {
    let mut indexed = Vec::new();
    for (i, (url, r)) in results.into_iter().enumerate() {
        indexed.push(outcome(i, url, r));
    }
    let output = FetchOutput::new("2026-01-02T03:04:05Z".to_string());
    assemble_prefix_in_request_order(output, params, indexed)
}

fn printed(out: &FetchOutput) -> Value {
    serde_json::from_str(&render_fetch(out, OutputFormat::Json, false, false)).expect("valid JSON")
}

fn looks_iso8601(s: &str) -> bool {
    chrono::DateTime::parse_from_rfc3339(s).is_ok()
}

fn throttled(url: &str) -> RssError {
    RssError::Http { status: 429, url: url.into(), retry_after: None, retry_after_hint: None }
}

#[test]
fn fetch_json_produces_valid_structured_output() {
    let feed_url = "http://127.0.0.1:8080/rss2.xml";
    let params = FetchParams::default();
    let out = batch(vec![(feed_url, read(fresh(feed_url, RSS2), feed_url, &params))], &params);
    assert_eq!(exit_code_for(&out), exit::OK, "a single good feed should exit 0");

    let v = printed(&out);
    assert_eq!(v["schema_version"], "1");
    assert!(v["fetched_at"].as_str().is_some_and(looks_iso8601));

    let feeds = v["feeds"].as_array().expect("feeds is an array");
    assert_eq!(feeds.len(), 1, "exactly one feed requested");
    let feed = &feeds[0];
    assert_eq!(feed["feed_url"].as_str(), Some(feed_url));
    assert_eq!(feed["status"], "ok");

    let items = feed["items"].as_array().expect("items is an array");
    assert!(!items.is_empty(), "feeds[0].items should be non-empty");
    for item in items {
        let id = item["id"].as_str().unwrap_or_default();
        assert!(!id.is_empty(), "every item must have a non-empty stable id");
        if let Some(ts) = item["published"].as_str() {
            assert!(looks_iso8601(ts), "published `{ts}` should look ISO-8601");
        }
        if let Some(ts) = item["updated"].as_str() {
            assert!(looks_iso8601(ts), "updated `{ts}` should look ISO-8601");
        }
    }

    let rel = items
        .iter()
        .find(|it| it["title"] == "Relative Link Post")
        .expect("the relative-link item should be present");
    let url = rel["url"].as_str().expect("resolved item should carry a url");
    assert!(
        url.starts_with("http://") || url.starts_with("https://"),
        "relative link should resolve to an absolute URL, got `{url}`"
    );
    assert!(url.ends_with("/post/1"), "resolved URL should end with /post/1, got `{url}`");
    assert_ne!(url, "/post/1", "relative link must not be left unresolved");
}

#[test]
fn fetch_json_feed_parses_items() {
    let feed_url = "http://127.0.0.1:8080/feed.json";
    let params = FetchParams::default();
    let out = batch(vec![(feed_url, read(fresh(feed_url, JSON_FEED), feed_url, &params))], &params);
    assert_eq!(exit_code_for(&out), exit::OK, "a good JSON feed should exit 0");
    let v = printed(&out);
    let feed = &v["feeds"][0];
    assert_eq!(feed["status"], "ok");
    let items = feed["items"].as_array().expect("items array");
    assert!(!items.is_empty(), "JSON feed items should be non-empty");
    for item in items {
        assert!(
            item["id"].as_str().is_some_and(|s| !s.is_empty()),
            "every JSON feed item must have a non-empty stable id"
        );
    }
}

#[test]
fn item_ids_are_stable_across_runs_and_caches() {
    let feed_url = "http://127.0.0.1:8080/rss2.xml";
    let params = FetchParams::default();
    let ids = |raw: RawFeed| -> Vec<String> {
        let (feed, _, _) = read(raw, feed_url, &params).expect("a good feed");
        feed.items.into_iter().map(|i| i.id).collect()
    };
    let first = ids(fresh(feed_url, RSS2));
    let again = ids(cached(feed_url, stored(feed_url, "2026-01-01T00:00:00Z", RSS2)));
    let other = ids(fresh(feed_url, RSS2));
    assert!(!first.is_empty(), "expected at least one item id");
    assert_eq!(first, again, "item ids must be identical across runs into the same cache dir");
    assert_eq!(
        first, other,
        "item ids must be identical with a fresh cache dir (deterministic by construction)"
    );
}

#[test]
fn conditional_get_reports_not_modified_on_304() {
    let feed_url = "http://127.0.0.1:8080/feed.xml";
    let params = FetchParams::default();
    let first = settle(
        feed_url,
        CachePolicy::Revalidate,
        None,
        reply(feed_url, 200, RSS2),
        None,
        "2026-01-01T00:00:00Z".into(),
    );
    let entry = CacheEntry {
        meta: first.store.expect("the body is stored"),
        body: first.result.expect("a fetched body").body,
    };
    match plan_fetch(feed_url, CachePolicy::Revalidate, Some(entry.clone()), now()) {
        FetchPlan::Request { etag, .. } => assert_eq!(etag.as_deref(), Some("\"v1\"")),
        other => panic!("expected a conditional request, got {other:?}"),
    }
    let second = settle(
        feed_url,
        CachePolicy::Revalidate,
        Some(entry),
        reply(feed_url, 304, ""),
        None,
        "2026-01-02T00:00:00Z".into(),
    );
    let raw = second.result.expect("the cached body");
    let out = batch(vec![(feed_url, read(raw, feed_url, &params))], &params);
    let v = printed(&out);
    let feed = &v["feeds"][0];
    assert_eq!(
        feed["status"], "not_modified",
        "a 304 revalidation should report status=not_modified"
    );
    assert_eq!(
        feed["from_cache"].as_bool(),
        Some(true),
        "a 304 revalidation should be served from_cache"
    );
    assert_eq!(feed["cached_at"], "2026-01-01T00:00:00Z");
}

#[test]
fn fetch_ndjson_emits_one_json_object_per_line() {
    let feed_url = "http://127.0.0.1:8080/atom.xml";
    let params = FetchParams::default();
    let out = batch(vec![(feed_url, read(fresh(feed_url, ATOM), feed_url, &params))], &params);
    let text = render_fetch(&out, OutputFormat::Ndjson, false, false);
    let lines: Vec<&str> = text.lines().filter(|l| !l.trim().is_empty()).collect();
    assert_eq!(lines.len(), 2, "one line per item");
    for line in &lines {
        let v: Value = serde_json::from_str(line)
            .unwrap_or_else(|e| panic!("each ndjson line must be valid JSON ({e}): {line}"));
        assert!(
            v["id"].as_str().is_some_and(|s| !s.is_empty()),
            "each ndjson item line should carry a non-empty id"
        );
        assert!(v.get("feed_url").is_some(), "each ndjson item should carry its feed_url");
    }
}

#[test]
fn malformed_feed_alone_exits_all_failed() {
    let feed_url = "http://127.0.0.1:8080/bad.xml";
    let params = FetchParams::default();
    let out = batch(vec![(feed_url, read(fresh(feed_url, MALFORMED), feed_url, &params))], &params);
    assert_eq!(exit_code_for(&out), 4, "a single failing feed should exit 4 (all failed)");
    let v = printed(&out);
    let feed = &v["feeds"][0];
    assert_eq!(feed["status"], "error");
    assert!(feed["error"].is_object(), "a failed feed should carry a structured error object");
    assert_eq!(feed["error"]["code"], "FEED_PARSE_FAILED");
    assert!(
        v["errors"].as_array().is_some_and(|e| !e.is_empty()),
        "feed-level errors should be mirrored at the top level"
    );
}

#[test]
fn mixed_feeds_exit_partial() {
    let good = "http://127.0.0.1:8080/good.xml";
    let bad = "http://127.0.0.1:8080/bad.xml";
    let params = FetchParams::default();
    let out = batch(
        vec![
            (good, read(fresh(good, RSS2), good, &params)),
            (bad, read(fresh(bad, MALFORMED), bad, &params)),
        ],
        &params,
    );
    assert_eq!(exit_code_for(&out), 3, "one good + one bad feed should exit 3 (partial)");
    let v = printed(&out);
    let feeds = v["feeds"].as_array().expect("feeds array");
    assert_eq!(feeds.len(), 2);
    let by_url = |url: &str| {
        feeds
            .iter()
            .find(|f| f.get("feed_url").and_then(|v| v.as_str()) == Some(url))
            .unwrap_or_else(|| panic!("missing feed result for {url}"))
    };
    assert_eq!(by_url(good)["status"], "ok");
    assert_eq!(by_url(bad)["status"], "error");
}

#[test]
fn max_content_chars_truncates_and_marks() {
    let long_body = "Lorem ipsum dolor sit amet ".repeat(40);
    let feed = format!(
        r#"<?xml version="1.0"?>
<rss version="2.0"><channel>
  <title>Long Feed</title>
  <link>https://example.com/</link>
  <item>
    <title>Big Post</title>
    <link>https://example.com/big</link>
    <pubDate>Mon, 05 Jan 2026 10:00:00 GMT</pubDate>
    <description><![CDATA[<p>{long_body}</p>]]></description>
  </item>
</channel></rss>"#
    );
    let url = "http://127.0.0.1:8080/long.xml";
    let params = FetchParams { max_content_chars: Some(20), ..FetchParams::default() };
    let mut out = batch(vec![(url, read(fresh(url, &feed), url, &params))], &params);
    out.truncation = truncation_marker(&out, params.limit, None);
    assert_eq!(exit_code_for(&out), exit::OK, "a good feed should exit 0");

    let v = printed(&out);
    let item = &v["feeds"][0]["items"][0];
    assert_eq!(
        item["content_truncated"].as_bool(),
        Some(true),
        "a body longer than the cap should be flagged content_truncated"
    );
    let content = item["content"].as_str().expect("content string");
    assert!(
        content.chars().count() <= 20 + " …[truncated]".chars().count(),
        "content should be cut to roughly the cap plus the marker, got {} chars",
        content.chars().count()
    );
    let trunc = &v["truncation"];
    assert!(trunc.is_object(), "truncation marker should be present");
    assert_eq!(
        trunc["items_content_truncated"].as_u64(),
        Some(1),
        "exactly one item's content was truncated"
    );
}

#[test]
fn get_item_survives_rolled_window_and_accepts_guid_url() {
    let body = r#"<rss version="2.0"><channel><title>x</title>
        <item><title>Post</title>
              <link>https://ex.test/p/abc/</link>
              <guid>t3_abc</guid>
              <pubDate>Mon, 02 Jun 2026 00:00:00 GMT</pubDate>
              <description>full body here</description></item>
        </channel></rss>"#;
    let url = "http://127.0.0.1:8080/feed.xml";
    let fetched = read(fresh(url, body), url, &FetchParams::default()).expect("a good feed");
    let id = fetched.0.items[0].id.clone();
    assert_eq!(fetched.0.items[0].guid.as_deref(), Some("t3_abc"));

    for key in [id.as_str(), "t3_abc", "https://ex.test/p/abc/"] {
        let show = ShowArgs {
            feed_url: url.to_string(),
            id: key.to_string(),
            content: ContentArg::Markdown,
            max_content_chars: None,
            format: FormatArg::Json,
            refresh: false,
        };
        let params = show.to_params();
        let raw = match plan_fetch(
            url,
            params.cache_policy,
            Some(stored(url, "2020-01-01T00:00:00Z", body)),
            now(),
        ) {
            FetchPlan::Serve(raw) => raw,
            other => panic!("a lookup must not revalidate: {other:?}"),
        };
        let (feed, _, _) = read(raw, url, &params).expect("a good feed");
        let item = find_item(feed.items, &show.id).expect("the item is found");
        assert_eq!(item.content.as_deref(), Some("full body here"));
    }
}

#[test]
fn show_item_matches_by_guid_and_url_cache_first() {
    let params = FetchParams { cache_policy: CachePolicy::CacheFirst, ..Default::default() };
    let show = |key: &str| {
        let raw = cached(FEED, stored(FEED, "2020-01-01T00:00:00Z", BODY));
        let (feed, _, _) = read(raw, FEED, &params).expect("a good feed");
        find_item(feed.items, key)
    };
    let item = show("t3_abc").expect("guid lookup should resolve");
    assert_eq!(item.guid.as_deref(), Some("t3_abc"));
    let by_url = show("https://t.example/r/x/comments/abc/post/");
    assert_eq!(by_url.map(|i| i.id), Some(item.id.clone()));
    let by_id = show(&item.id);
    assert_eq!(by_id.map(|i| i.id), Some(item.id));
    assert!(show("nothing").is_none());
}

#[test]
fn fetch_one_reports_cache_age_for_a_cached_feed() {
    let params = FetchParams { cache_policy: CachePolicy::CacheFirst, ..Default::default() };
    let raw = cached(FEED, stored(FEED, "2020-01-01T00:00:00Z", BODY));
    let (fr, _, _) = read(raw, FEED, &params).unwrap();
    assert_eq!(fr.cached_at.as_deref(), Some("2020-01-01T00:00:00Z"));
    assert!(
        fr.cache_age_seconds.is_some_and(|s| s > 60),
        "a 2020 entry must report a large age, got {:?}",
        fr.cache_age_seconds
    );
    let raw = cached(FEED, stored(FEED, "2020-01-01T00:00:00Z", BODY));
    let t = Timestamp { secs: 1_577_836_890, nanos: 999_999_999 };
    let (fr, _, _) = read_feed(raw, FEED, &params, t).unwrap().unwrap();
    assert_eq!(fr.cache_age_seconds, Some(90));
}

#[test]
fn fetch_one_clamps_a_future_fetched_at_to_zero_age() {
    let future = ago(chrono::Duration::hours(-1)).to_rfc3339();
    let params = FetchParams { cache_policy: CachePolicy::CacheFirst, ..Default::default() };
    let raw = cached(FEED, stored(FEED, &future, BODY));
    let (fr, _, _) = read(raw, FEED, &params).unwrap();
    assert_eq!(fr.cached_at.as_deref(), Some(future.as_str()));
    assert_eq!(
        fr.cache_age_seconds,
        Some(0),
        "a future fetched_at must clamp to 0, not wrap to a huge u64"
    );
}

#[test]
fn expired_deadline_attempts_nothing_and_reports_every_feed() {
    let urls: Vec<String> = (0..4).map(|i| format!("http://127.0.0.1:1/f{i}.xml")).collect();
    let params = FetchParams {
        deadline: Some(Duration::from_secs(0)),
        cache_policy: CachePolicy::NoCache,
        ..Default::default()
    };
    let out = batch(
        urls.iter()
            .map(|u| (u.as_str(), Err(RssError::DeadlineExceeded { url: u.clone() })))
            .collect(),
        &params,
    );
    assert!(out.feeds.is_empty(), "an expired deadline attempts no feeds");
    assert!(
        out.errors.is_empty(),
        "an unattempted feed did not fail — it must not be reported as an error"
    );
    assert_eq!(
        out.truncation.as_ref().map(|t| t.feeds_omitted),
        Some(4),
        "unattempted feeds must be reported, not silently dropped"
    );
    assert!(
        out.truncation
            .as_ref()
            .and_then(|t| t.suggestion.as_deref())
            .is_some_and(|s| s.contains("deadline")),
        "the marker says what bounded the batch: {:?}",
        out.truncation
    );
}

#[test]
fn fetch_feeds_with_reports_since_removals_end_to_end() {
    let t = chrono::Utc::now();
    let body = format!(
        "<?xml version=\"1.0\"?><rss version=\"2.0\"><channel><title>f</title>\
         <item><title>Fresh</title><link>https://example.com/fresh</link>\
         <pubDate>{}</pubDate></item>\
         <item><title>Stale</title><link>https://example.com/stale</link>\
         <pubDate>{}</pubDate></item>\
         </channel></rss>",
        t.to_rfc2822(),
        (t - chrono::Duration::days(400)).to_rfc2822(),
    );
    let params = FetchParams {
        since: Some(at(t - chrono::Duration::hours(1))),
        cache_policy: CachePolicy::NoCache,
        ..Default::default()
    };
    let url = "http://127.0.0.1:8080/f.xml";
    let out = batch(vec![(url, read(fresh(url, &body), url, &params))], &params);
    assert_eq!(out.feeds[0].items.len(), 1, "only the fresh item survives since");
    let applied = out
        .applied_filters
        .expect("since was supplied, so applied_filters must be present");
    assert_eq!(applied.query, None);
    assert_eq!(
        applied.items_filtered_out, 1,
        "the stale item since dropped must be counted end-to-end, not left at 0"
    );
}

fn stale(url: &str, entry: CacheEntry, params: &FetchParams) -> FetchOutput {
    let raw = fall_back(url, params.cache_policy, throttled(url), Some(entry), None);
    batch(vec![(url, raw.and_then(|r| read(r, url, params)))], params)
}

#[test]
fn stale_if_error_reports_stale_without_an_error_and_scores_as_success() {
    let url = "http://127.0.0.1:8080/feed.xml";
    let params = FetchParams { cache_policy: CachePolicy::StaleIfError, ..Default::default() };
    let out = stale(url, stored(url, "2020-01-01T00:00:00Z", BODY), &params);
    let feed = &out.feeds[0];
    assert_eq!(feed.status, FeedStatus::Stale);
    assert!(feed.from_cache);
    assert!(
        !feed.items.is_empty(),
        "a stale feed carries real items — that is the entire point"
    );
    assert!(feed.error.is_none(), "error must stay null on a stale feed: {:?}", feed.error);
    assert!(
        feed.cache_age_seconds.is_some(),
        "the caller needs the age to enforce its own freshness floor"
    );
    let stale_warning = out
        .warnings
        .iter()
        .find(|w| w.code == "SERVED_STALE")
        .expect("the refused revalidation must be reported somewhere");
    assert_eq!(stale_warning.feed_url.as_deref(), Some(url));
    assert!(
        stale_warning.message.contains("429"),
        "the warning must name the upstream refusal: {}",
        stale_warning.message
    );
    assert_eq!(exit_code_for(&out), exit::OK);
    assert!(out.errors.is_empty());
}

#[test]
fn the_default_policy_still_fails_a_throttled_feed() {
    let url = "http://127.0.0.1:8080/feed.xml";
    let out = stale(url, stored(url, "2020-01-01T00:00:00Z", BODY), &FetchParams::default());
    assert_eq!(out.feeds[0].status, FeedStatus::Error);
    assert!(out.feeds[0].error.is_some());
    assert_eq!(exit_code_for(&out), exit::ALL_FAILED);
    assert!(
        !out.warnings.iter().any(|w| w.code == "SERVED_STALE"),
        "nothing was served stale under the default policy"
    );
}

#[test]
fn a_stale_body_older_than_the_since_window_flags_undated_items_unless_one_is_postdated() {
    let future = ago(chrono::Duration::days(-1)).to_rfc2822();
    let cases: [(&str, String, usize, bool); 3] = [
        (
            "dated",
            r#"<item><title>Old</title><guid>t3_a</guid>
                   <pubDate>Mon, 01 Jun 2026 00:00:00 GMT</pubDate></item>"#
                .to_string(),
            0,
            false,
        ),
        (
            "undated",
            r#"<item><title>Comment</title><guid>t1_b</guid></item>"#.to_string(),
            1,
            true,
        ),
        (
            "postdated+undated",
            format!(
                r#"<item><title>Postdated</title><guid>t3_p</guid>
                       <pubDate>{future}</pubDate></item>
                       <item><title>Undated</title><guid>t1_1</guid></item>"#
            ),
            2,
            false,
        ),
    ];
    for (label, items, expected_count, expect_undated_warning) in cases {
        let body =
            format!(r#"<rss version="2.0"><channel><title>t</title>{items}</channel></rss>"#);
        let url = "http://127.0.0.1:8080/feed.xml";
        let params = FetchParams {
            cache_policy: CachePolicy::StaleIfError,
            since: Some(at(ago(chrono::Duration::hours(24)))),
            ..Default::default()
        };
        let written = ago(chrono::Duration::days(8)).to_rfc3339();
        let out = stale(url, stored(url, &written, &body), &params);
        let feed = &out.feeds[0];
        let codes: Vec<&str> = out.warnings.iter().map(|w| w.code.as_str()).collect();
        assert_eq!(feed.status, FeedStatus::Stale, "{label}");
        assert_eq!(feed.item_count, expected_count, "{label}: {codes:?}");
        assert!(codes.contains(&"SERVED_STALE"), "{label}: {codes:?}");
        assert_eq!(
            codes.contains(&"UNDATED_ITEMS"),
            expect_undated_warning,
            "{label}: UNDATED_ITEMS is suppressed by any dated survivor, so it is not a \
             freshness signal: {codes:?}"
        );
        assert!(
            feed.cache_age_seconds.is_some_and(|s| s > 24 * 3600),
            "{label}: age must exceed the window: {:?}",
            feed.cache_age_seconds
        );
        assert_eq!(exit_code_for(&out), exit::OK, "{label}");
    }
}

#[test]
fn no_deadline_fetches_every_feed() {
    let body = "<?xml version=\"1.0\"?><rss version=\"2.0\"><channel><title>f</title>\
                <link>https://example.com/</link></channel></rss>";
    let urls: Vec<String> = (0..3).map(|i| format!("http://127.0.0.1:8080/f{i}.xml")).collect();
    let params = FetchParams { cache_policy: CachePolicy::NoCache, ..Default::default() };
    let out = batch(
        urls.iter().map(|u| (u.as_str(), read(fresh(u, body), u, &params))).collect(),
        &params,
    );
    assert_eq!(out.feeds.len(), 3);
    assert!(out.truncation.is_none(), "no deadline means no omission marker");
}

#[test]
fn revalidate_304_twice_reports_previous_revalidation_time() {
    let url = "http://127.0.0.1:8080/feed.xml";
    let again = |entry: CacheEntry, stamp: &str| {
        settle(
            url,
            CachePolicy::Revalidate,
            Some(entry),
            reply(url, 304, ""),
            None,
            stamp.to_string(),
        )
    };
    let first = again(stored(url, "2020-01-01T00:00:00Z", BODY), "2026-01-01T00:00:00Z");
    let raw = first.result.unwrap();
    assert_eq!(raw.cached_at.as_deref(), Some("2020-01-01T00:00:00Z"));
    let entry = CacheEntry { meta: first.store.unwrap(), body: raw.body };
    let second = again(entry, "2026-01-02T00:00:00Z");
    assert_eq!(
        second.result.unwrap().cached_at.as_deref(),
        Some("2026-01-01T00:00:00Z"),
        "a second successive 304 must report the previous revalidation's timestamp"
    );
}

#[test]
fn cache_hit_reports_when_the_body_was_fetched() {
    let url = "http://127.0.0.1:8080/feed.xml";
    let settled = settle(
        url,
        CachePolicy::Revalidate,
        None,
        reply(url, 200, BODY),
        None,
        "2026-01-01T00:00:00Z".into(),
    );
    let raw = settled.result.unwrap();
    assert!(raw.cached_at.is_none(), "a fresh body has no cache timestamp");
    let hit = cached(url, CacheEntry { meta: settled.store.unwrap(), body: raw.body });
    assert!(hit.from_cache);
    assert_eq!(hit.cached_at.as_deref(), Some("2026-01-01T00:00:00Z"));
}

#[test]
fn stale_if_error_still_serves_a_copy_that_covers_the_window() {
    let written = ago(chrono::Duration::hours(1)).to_rfc3339();
    let raw = fall_back(
        FEED,
        CachePolicy::StaleIfError,
        throttled(FEED),
        Some(stored(FEED, &written, BODY)),
        Some(at(ago(chrono::Duration::hours(24)))),
    )
    .expect("an hour-old copy covers a 24h window");
    assert!(raw.from_cache);
    assert!(raw.stale_reason.is_some());
}

#[test]
fn stale_if_error_without_a_window_serves_any_age() {
    let written = ago(chrono::Duration::days(8)).to_rfc3339();
    let raw = fall_back(
        FEED,
        CachePolicy::StaleIfError,
        throttled(FEED),
        Some(stored(FEED, &written, BODY)),
        None,
    )
    .expect("with no window stated, any cached copy is still the best available truth");
    assert!(raw.from_cache);
    assert!(raw.stale_reason.is_some());
}

#[test]
fn stale_if_error_is_a_plain_revalidate_when_the_origin_answers() {
    let settled = settle(
        FEED,
        CachePolicy::StaleIfError,
        Some(stored(FEED, "2020-01-01T00:00:00Z", "<rss>cached</rss>")),
        reply(FEED, 200, "<rss>fresh</rss>"),
        None,
        "2026-01-01T00:00:00Z".into(),
    );
    let raw = settled.result.expect("a 200 must behave exactly like Revalidate");
    assert_eq!(raw.body, b"<rss>fresh</rss>", "the fresh body wins");
    assert!(raw.stale_reason.is_none(), "nothing was refused, so nothing is stale");
    assert!(!raw.from_cache);
    assert!(settled.store.is_some());
}

#[test]
fn a_throttled_429_is_paceable_and_carries_the_gates_learned_window() {
    let mut gate = HostGate::default();
    let t = Timestamp { secs: 1_000, nanos: 0 };
    let first = after_response(&mut gate, FEED, true, 429, None, t, 1_000_000);
    assert!(matches!(first, SendStep::Retry(_)));
    assert_eq!(after_response(&mut gate, FEED, false, 429, None, t, 1_002_000), SendStep::Finish);
    let hint = gate.cooldown_remaining(FEED, 1_002_000);
    let err = settle(FEED, CachePolicy::Revalidate, None, reply(FEED, 429, ""), hint, "t".into())
        .result
        .unwrap_err();
    assert_eq!(err.code(), "RATE_LIMITED", "got {err:?}");
    match &err {
        RssError::Http { status, retry_after, retry_after_hint, .. } => {
            assert_eq!(*status, 429);
            assert_eq!(*retry_after, None, "this provider sends no header");
            assert!(retry_after_hint.is_some_and(|d| d.millis > 0));
        }
        other => panic!("expected Http, got {other:?}"),
    }
    let obj = err.to_error_obj(Some(FEED));
    assert!(
        matches!(get(&obj.details, "retry_after_seconds"), Some(Json::UInt(_))),
        "the wait must reach the wire as a number"
    );
}

fn bare_fetch() -> FetchArgs {
    FetchArgs {
        urls: vec![],
        opml: None,
        input: None,
        format: FormatArg::Json,
        ndjson_records: false,
        content: ContentArg::Markdown,
        limit: None,
        max_content_chars: None,
        since: None,
        concurrency: 8,
        timeout: 30,
        no_cache: false,
        max_age: None,
        refresh: false,
        user_agent: None,
    }
}

#[test]
fn fetch_without_urls_is_a_usage_error() {
    let err = bare_fetch().collect_urls("", None, None).unwrap_err();
    assert_eq!(exit_code_of(&err), 2, "missing feed URLs should exit 2 (usage error)");
    let text = to_pretty(&error_value(&err.to_error_obj(None)));
    let v: Value = serde_json::from_str(&text).expect("the error should be JSON");
    assert_eq!(v["code"], "USAGE_ERROR", "usage errors carry a stable code");
    assert!(
        v["message"].as_str().is_some_and(|m| !m.is_empty()),
        "error object should carry a human-readable message"
    );
}

#[test]
fn a_client_that_cannot_be_built_fails_every_feed_alike() {
    let urls = vec!["https://a/f".to_string(), "https://b/f".to_string()];
    let e = RssError::Network("no transport".into());
    let out = fail_all(&urls, &e, "2026-01-01T00:00:00Z".to_string());
    assert_eq!(out.feeds.len(), 2);
    assert_eq!(out.errors.len(), 2);
    assert_eq!(out.feeds[1].feed_url, "https://b/f");
    assert_eq!(out.errors[1].feed_url.as_deref(), Some("https://b/f"));
    assert_eq!(out.errors[0].message, "network error: no transport");
    assert_eq!(exit_code_for(&out), exit::ALL_FAILED);
}

#[test]
fn an_unknown_schema_is_a_usage_error() {
    let e = unknown_command("show");
    assert_eq!(e.code, "USAGE_ERROR");
    assert_eq!(e.message, "unknown command 'show' (expected 'fetch' or 'discover')");
    assert!(e.feed_url.is_none());
}
