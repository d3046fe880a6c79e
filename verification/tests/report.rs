use rss_cli::cache::CacheListItem;
use rss_cli::cli::{ContentArg, DiscoverArgs, FetchArgs, FormatArg, ShowArgs};
use rss_cli::error::RssError;
use rss_cli::exit;
use rss_cli::json::from_text;
use rss_cli::model::{
    ContentFormat, DiscoverOutput, DiscoveredFeed, ErrorObj, FeedResult, FeedStatus, FetchOutput,
    IdSource, Item,
};
use rss_cli::report::{
    report_cached, report_data, report_discovery, report_failure, report_fetch, report_item,
    wants_color, Report,
};
use rss_cli::totals::refresh_feed_counts;

fn item(cut: bool) -> Item {
    Item {
        id: "0011223344556677".to_string(),
        id_source: IdSource::Link,
        feed_url: "https://a/f".to_string(),
        title: Some("T".to_string()),
        url: None,
        authors: vec![],
        published: None,
        updated: None,
        summary: None,
        content: None,
        content_format: ContentFormat::Markdown,
        content_tokens_est: 0,
        content_truncated: cut,
        content_hash: None,
        categories: vec![],
        enclosures: vec![],
        guid: None,
    }
}

fn feed(url: &str, items: Vec<Item>, error: Option<ErrorObj>) -> FeedResult {
    FeedResult {
        feed_url: url.to_string(),
        status: if error.is_some() { FeedStatus::Error } else { FeedStatus::Fresh },
        from_cache: false,
        title: None,
        site_url: None,
        updated: None,
        item_count: 0,
        content_tokens_est_total: 0,
        items,
        error,
        cached_at: None,
        cache_age_seconds: None,
    }
}

fn fetched(cut: bool) -> FetchOutput {
    let failed = || ErrorObj::new("FEED_FETCH_FAILED", "gone").with_feed("https://b/f");
    let mut out = FetchOutput::new("2026-01-01T00:00:00Z".to_string());
    out.feeds = vec![
        feed("https://a/f", vec![item(cut)], None),
        feed("https://b/f", vec![], Some(failed())),
    ];
    out.errors = vec![failed()];
    refresh_feed_counts(&mut out);
    out
}

fn fetch_args(format: FormatArg, ndjson_records: bool) -> FetchArgs {
    FetchArgs {
        urls: vec![],
        opml: None,
        input: None,
        format,
        ndjson_records,
        content: ContentArg::Markdown,
        limit: None,
        max_content_chars: None,
        since: None,
        concurrency: 8,
        timeout: 30,
        no_cache: false,
        max_age: None,
        refresh: false,
        user_agent: None,
    }
}

fn text(r: &Report) -> &str {
    r.stdout.as_deref().expect("data on standard output")
}

#[test]
fn a_fetch_prints_its_output_and_says_how_the_feeds_fared() {
    let r = report_fetch(fetched(false), &fetch_args(FormatArg::Json, false), true);
    assert_eq!(r.code, exit::PARTIAL);
    assert!(r.stderr.is_empty());
    assert!(text(&r).contains("\"truncation\": null"));
    assert!(!text(&r).contains('\u{1b}'), "only text output uses color");
}

#[test]
fn cut_content_is_marked_on_the_output() {
    let r = report_fetch(fetched(true), &fetch_args(FormatArg::Json, false), false);
    assert!(text(&r).contains("\"items_content_truncated\": 1"));
    assert!(text(&r).contains("\"suggestion\": null"));
}

#[test]
fn bare_lines_leave_the_errors_to_standard_error() {
    let bare = report_fetch(fetched(false), &fetch_args(FormatArg::Ndjson, false), false);
    assert_eq!(text(&bare).lines().count(), 1);
    assert_eq!(bare.stderr.len(), 1);
    assert!(bare.stderr[0].contains("\"code\":\"FEED_FETCH_FAILED\""));
    assert!(from_text(&bare.stderr[0]).is_some());
    let tagged = report_fetch(fetched(false), &fetch_args(FormatArg::Ndjson, true), false);
    assert_eq!(text(&tagged).lines().count(), 3);
    assert!(tagged.stderr.is_empty());
}

#[test]
fn color_is_for_text_and_can_be_turned_off() {
    let args = fetch_args(FormatArg::Text, false);
    assert!(text(&report_fetch(fetched(false), &args, true)).contains("\u{1b}[1m"));
    assert!(!text(&report_fetch(fetched(false), &args, false)).contains('\u{1b}'));
    assert!(wants_color(false, false));
    assert!(!wants_color(true, false) && !wants_color(false, true));
}

#[test]
fn a_failure_prints_an_error_object_and_no_data() {
    let r = report_failure(&RssError::Usage("no feed URLs".to_string()));
    assert!(r.stdout.is_none());
    assert_eq!(
        r.stderr,
        ["{\"feed_url\":null,\"code\":\"USAGE_ERROR\",\"message\":\"usage error: no feed URLs\",\"details\":{}}"]
    );
    assert_eq!(r.code, exit::USAGE);
    assert_eq!(report_failure(&RssError::Network("x".to_string())).code, exit::UNEXPECTED);
}

#[test]
fn a_lookup_prints_the_item_or_fails() {
    let args = ShowArgs {
        feed_url: "https://a/f".to_string(),
        id: "7".to_string(),
        content: ContentArg::Markdown,
        max_content_chars: None,
        format: FormatArg::Json,
        refresh: false,
    };
    let found = report_item(&Some(item(false)), &args);
    assert_eq!(found.code, exit::OK);
    assert!(text(&found).starts_with("{\n  \"id\": \"0011223344556677\""));
    let missing = report_item(&None, &args);
    assert!(missing.stdout.is_none());
    assert!(missing.stderr[0].contains("item '7' not found in https://a/f"));
    assert_eq!(missing.code, exit::UNEXPECTED);
}

#[test]
fn a_discovery_and_the_cache_print_their_lists() {
    let args = DiscoverArgs {
        site_url: "https://a".to_string(),
        format: FormatArg::Ndjson,
        timeout: 30,
        user_agent: None,
    };
    let found = DiscoverOutput {
        schema_version: "1".to_string(),
        site_url: "https://a".to_string(),
        feeds: vec![DiscoveredFeed {
            url: "https://a/f".to_string(),
            feed_type: "rss".to_string(),
            title: None,
        }],
    };
    let r = report_discovery(&found, &args, false);
    assert_eq!(text(&r), "{\"url\":\"https://a/f\",\"feed_type\":\"rss\",\"title\":null}");
    let cached = report_cached(&vec![CacheListItem {
        feed_url: "https://a/f".to_string(),
        fetched_at: "2026-01-01T00:00:00Z".to_string(),
        etag: None,
        size_bytes: 3,
    }]);
    assert!(text(&cached).contains("\"size_bytes\": 3"));
    assert_eq!(text(&report_data("x".to_string())), "x");
}
