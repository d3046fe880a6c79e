use rss_cli::model::{
    ContentFormat, DiscoverOutput, DiscoveredFeed, ErrorObj, FeedResult, FeedStatus, FetchOutput,
    IdSource, Item,
};
use rss_cli::output::{render_discover, render_fetch, OutputFormat};
use serde_json::Value;

fn sample_item(id: &str, title: &str, url: &str) -> Item {
    Item {
        id: id.to_string(),
        id_source: IdSource::Link,
        feed_url: "https://example.com/feed.xml".to_string(),
        title: Some(title.to_string()),
        url: Some(url.to_string()),
        authors: vec!["Ada".to_string()],
        published: Some("2026-01-02T03:04:05Z".to_string()),
        updated: None,
        summary: Some("a summary".to_string()),
        content: Some("body".to_string()),
        content_format: ContentFormat::Markdown,
        content_tokens_est: 1,
        content_truncated: false,
        content_hash: Some("00112233aabbccdd".to_string()),
        categories: vec![],
        enclosures: vec![],
        guid: None,
    }
}

fn sample_output() -> FetchOutput {
    let mut out = FetchOutput::new("2026-06-01T00:00:00Z".to_string());
    let items = vec![
        sample_item("1", "First Post", "https://example.com/1"),
        sample_item("2", "Second Post", "https://example.com/2"),
    ];
    let content_tokens_est_total = items.iter().map(|i| u64::from(i.content_tokens_est)).sum();
    out.feeds.push(FeedResult {
        feed_url: "https://example.com/feed.xml".to_string(),
        status: FeedStatus::Fresh,
        from_cache: false,
        title: Some("Example Feed".to_string()),
        site_url: Some("https://example.com".to_string()),
        updated: None,
        item_count: items.len(),
        content_tokens_est_total,
        items,
        error: None,
        cached_at: None,
        cache_age_seconds: None,
    });
    out.total_items = out.feeds.iter().map(|f| f.items.len()).sum();
    out.total_content_tokens_est = out
        .feeds
        .iter()
        .flat_map(|f| &f.items)
        .map(|i| u64::from(i.content_tokens_est))
        .sum();
    out
}

#[test]
fn fetch_json_roundtrips() {
    let out = sample_output();
    let json = render_fetch(&out, OutputFormat::Json, false, false);
    let parsed: Value = serde_json::from_str(&json).expect("valid json roundtrip");
    assert_eq!(parsed["feeds"].as_array().unwrap().len(), 1);
    assert_eq!(parsed["feeds"][0]["items"].as_array().unwrap().len(), 2);
    assert_eq!(parsed["total_items"], 2);
}

#[test]
fn fetch_ndjson_one_line_per_item() {
    let out = sample_output();
    let ndjson = render_fetch(&out, OutputFormat::Ndjson, false, false);
    assert_eq!(ndjson.lines().count(), 2);
    for line in ndjson.lines() {
        let item: Value = serde_json::from_str(line).expect("each line is an Item");
        assert!(item["id"].is_string());
    }
}

#[test]
fn fetch_ndjson_records_are_tagged_and_self_contained() {
    let mut out = sample_output();
    out.errors
        .push(ErrorObj::new("FEED_FETCH_FAILED", "boom").with_feed("https://bad.example/x"));

    let ndjson = render_fetch(&out, OutputFormat::Ndjson, false, true);
    let records: Vec<Value> = ndjson
        .lines()
        .map(|l| serde_json::from_str(l).expect("each record line is JSON"))
        .collect();

    assert_eq!(records.len(), 4);
    assert_eq!(records[0]["type"], "item");
    assert_eq!(records[0]["id"], "1");
    assert_eq!(records[2]["type"], "error");
    assert_eq!(records[2]["code"], "FEED_FETCH_FAILED");
    let summary = records.last().unwrap();
    assert_eq!(summary["type"], "summary");
    assert_eq!(summary["total_items"], 2);
    assert_eq!(summary["errors"], 1);
}

#[test]
fn fetch_text_contains_titles() {
    let out = sample_output();
    let text = render_fetch(&out, OutputFormat::Text, false, false);
    assert!(text.contains("Example Feed"));
    assert!(text.contains("First Post"));
    assert!(text.contains("Second Post"));
    assert!(text.contains("2 item(s)"));
}

#[test]
fn fetch_text_color_wraps_but_preserves_titles() {
    let out = sample_output();
    let text = render_fetch(&out, OutputFormat::Text, true, false);
    assert!(text.contains("Example Feed"));
    assert!(text.contains("\x1b[1m"));
}

#[test]
fn fetch_text_renders_errors() {
    let mut out = FetchOutput::new("2026-06-01T00:00:00Z".to_string());
    let err = ErrorObj::new("FEED_FETCH_FAILED", "boom").with_feed("https://bad.example/x");
    out.feeds
        .push(FeedResult::error("https://bad.example/x", err.clone()));
    out.errors.push(err);

    let text = render_fetch(&out, OutputFormat::Text, false, false);
    assert!(text.contains("[error]"));
    assert!(text.contains("FEED_FETCH_FAILED"));
    assert!(text.contains("boom"));
    assert!(text.contains("1 error(s):"));
}

#[test]
fn discover_renders_all_formats() {
    let out = DiscoverOutput::new(
        "https://example.com",
        vec![
            DiscoveredFeed {
                url: "https://example.com/feed.rss".to_string(),
                feed_type: "rss".to_string(),
                title: Some("RSS".to_string()),
            },
            DiscoveredFeed {
                url: "https://example.com/atom.xml".to_string(),
                feed_type: "atom".to_string(),
                title: None,
            },
        ],
    );

    let json = render_discover(&out, OutputFormat::Json, false);
    let parsed: Value = serde_json::from_str(&json).expect("valid json roundtrip");
    assert_eq!(parsed["feeds"].as_array().unwrap().len(), 2);

    let ndjson = render_discover(&out, OutputFormat::Ndjson, false);
    assert_eq!(ndjson.lines().count(), 2);

    let text = render_discover(&out, OutputFormat::Text, false);
    assert!(text.contains("https://example.com/feed.rss"));
    assert!(text.contains("[atom]"));
}

#[test]
fn text_is_exactly_what_is_documented() {
    let mut out = sample_output();
    out.feeds[0].from_cache = true;
    out.feeds[0].status = FeedStatus::NotModified;
    out.feeds[0].items[1].published = None;
    assert_eq!(
        render_fetch(&out, OutputFormat::Text, false, false),
        "Example Feed  [not_modified] (cached)  2 item(s)\n  - 2026-01-02T03:04:05Z  First Post  https://example.com/1\n  - -  Second Post  https://example.com/2"
    );
}

#[test]
fn a_discovery_as_text_is_exactly_what_is_documented() {
    let out = DiscoverOutput::new(
        "https://example.com",
        vec![DiscoveredFeed {
            url: "https://example.com/a".to_string(),
            feed_type: "rss".to_string(),
            title: None,
        }],
    );
    assert_eq!(
        render_discover(&out, OutputFormat::Text, true),
        "\x1b[1mhttps://example.com\x1b[0m  1 feed(s)\n  https://example.com/a  [rss]  \x1b[2m-\x1b[0m"
    );
}

#[test]
fn optional_fields_print_as_null() {
    let out = FetchOutput::new("t".to_string());
    let v: Value = serde_json::from_str(&render_fetch(&out, OutputFormat::Json, false, false)).unwrap();
    assert!(v["truncation"].is_null());
    assert!(v["applied_filters"].is_null());
    assert_eq!(v["schema_version"], "1");
    let item: Value =
        serde_json::from_str(render_fetch(&sample_output(), OutputFormat::Ndjson, false, false).lines().next().unwrap())
            .unwrap();
    assert!(item.as_object().unwrap().contains_key("updated"));
    assert!(item["updated"].is_null());
    assert_eq!(item["content_format"], "markdown");
    assert_eq!(item["id_source"], "link");
}

#[test]
fn an_empty_output_renders_to_nothing_but_the_summary() {
    let out = FetchOutput::new("t".to_string());
    assert_eq!(render_fetch(&out, OutputFormat::Ndjson, false, false), "");
    assert_eq!(render_fetch(&out, OutputFormat::Text, false, false), "");
    assert_eq!(
        render_fetch(&out, OutputFormat::Ndjson, false, true),
        "{\"type\":\"summary\",\"schema_version\":\"1\",\"fetched_at\":\"t\",\"feeds\":0,\"errors\":0,\"total_items\":0,\"total_content_tokens_est\":0,\"warnings\":[],\"truncation\":null}"
    );
}
