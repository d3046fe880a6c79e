use rss_cli::config::FetchParams;
use rss_cli::error::RssError;
use rss_cli::identity::item_id;
use rss_cli::model::{ContentFormat, IdSource};
use rss_cli::parse::parse_feed;
use rss_cli::time::Timestamp;

fn at(s: &str) -> Timestamp {
    let d = chrono::DateTime::parse_from_rfc3339(s).unwrap();
    Timestamp { secs: d.timestamp(), nanos: 0 }
}

const FEED_URL: &str = "https://example.com/feed.xml";

fn params() -> FetchParams {
    FetchParams::default()
}

const RSS: &str = r#"<?xml version="1.0"?>
<rss version="2.0">
  <channel>
    <title>Example Blog</title>
    <link>https://example.com/</link>
    <item>
      <title>First Post</title>
      <link>/posts/first</link>
      <guid>tag:example.com,2026:1</guid>
      <pubDate>Mon, 05 Jan 2026 10:00:00 GMT</pubDate>
      <description><![CDATA[<p>Hello <b>world</b></p>]]></description>
      <enclosure url="https://example.com/audio.mp3" type="audio/mpeg" length="1234"/>
    </item>
    <item>
      <title>Second Post</title>
      <link>https://example.com/posts/second</link>
      <pubDate>Tue, 06 Jan 2026 10:00:00 GMT</pubDate>
    </item>
  </channel>
</rss>"#;

const ATOM: &str = r#"<?xml version="1.0" encoding="utf-8"?>
<feed xmlns="http://www.w3.org/2005/Atom">
  <title>Atom Example</title>
  <updated>2026-02-01T12:00:00Z</updated>
  <link rel="alternate" href="https://atom.example.com/"/>
  <entry>
    <title>Atom Entry</title>
    <id>urn:uuid:1225c695-cfb8-4ebb-aaaa-80da344efa6a</id>
    <link rel="alternate" href="/articles/atom"/>
    <updated>2026-02-01T12:00:00Z</updated>
    <published>2026-02-01T11:00:00Z</published>
    <content type="html">&lt;p&gt;Atom body&lt;/p&gt;</content>
  </entry>
</feed>"#;

#[test]
fn parses_rss_metadata_and_items() {
    let parsed = parse_feed(RSS.as_bytes(), FEED_URL, &params()).unwrap();
    assert_eq!(parsed.title.as_deref(), Some("Example Blog"));
    assert_eq!(parsed.site_url.as_deref(), Some("https://example.com/"));
    assert_eq!(parsed.items.len(), 2);
}

#[test]
fn rss_relative_link_resolved_to_absolute() {
    let parsed = parse_feed(RSS.as_bytes(), FEED_URL, &params()).unwrap();
    let first = parsed
        .items
        .iter()
        .find(|i| i.title.as_deref() == Some("First Post"))
        .unwrap();
    assert_eq!(
        first.url.as_deref(),
        Some("https://example.com/posts/first")
    );
}

#[test]
fn rss_items_sorted_newest_first() {
    let parsed = parse_feed(RSS.as_bytes(), FEED_URL, &params()).unwrap();
    assert_eq!(parsed.items[0].title.as_deref(), Some("Second Post"));
    assert_eq!(parsed.items[1].title.as_deref(), Some("First Post"));
}

const MEDIA_RSS: &str = r#"<?xml version="1.0"?>
<rss version="2.0" xmlns:media="http://search.yahoo.com/mrss/">
  <channel>
    <title>Media Feed</title>
    <item>
      <title>Podcast Episode</title>
      <link>https://example.com/ep1</link>
      <media:content url="https://cdn.example.com/ep1.mp3" type="audio/mpeg" fileSize="5000"/>
    </item>
  </channel>
</rss>"#;

#[test]
fn media_content_maps_to_enclosure() {
    let parsed = parse_feed(MEDIA_RSS.as_bytes(), FEED_URL, &params()).unwrap();
    let item = &parsed.items[0];
    assert_eq!(item.enclosures.len(), 1);
    let enc = &item.enclosures[0];
    assert_eq!(enc.url, "https://cdn.example.com/ep1.mp3");
    assert_eq!(enc.mime.as_deref(), Some("audio/mpeg"));
    assert_eq!(enc.length, Some(5000));
}

#[test]
fn rss_enclosure_and_stable_id_present() {
    let parsed = parse_feed(RSS.as_bytes(), FEED_URL, &params()).unwrap();
    let first = parsed
        .items
        .iter()
        .find(|i| i.title.as_deref() == Some("First Post"))
        .unwrap();

    assert_eq!(first.id.len(), 16);
    assert_eq!(first.id_source, IdSource::Link);

    assert_eq!(first.enclosures.len(), 1);
    assert_eq!(first.enclosures[0].url, "https://example.com/audio.mp3");
    assert_eq!(first.enclosures[0].mime.as_deref(), Some("audio/mpeg"));
    assert_eq!(first.enclosures[0].length, Some(1234));
}

#[test]
fn id_is_deterministic_across_parses() {
    let a = parse_feed(RSS.as_bytes(), FEED_URL, &params()).unwrap();
    let b = parse_feed(RSS.as_bytes(), FEED_URL, &params()).unwrap();
    assert_eq!(a.items[0].id, b.items[0].id);
    assert_eq!(a.items[1].id, b.items[1].id);
}

#[test]
fn parses_atom_and_resolves_relative_link() {
    let parsed = parse_feed(ATOM.as_bytes(), FEED_URL, &params()).unwrap();
    assert_eq!(parsed.title.as_deref(), Some("Atom Example"));
    assert_eq!(
        parsed.site_url.as_deref(),
        Some("https://atom.example.com/")
    );
    assert_eq!(parsed.updated.as_deref(), Some("2026-02-01T12:00:00Z"));
    assert_eq!(parsed.items.len(), 1);

    let entry = &parsed.items[0];
    assert_eq!(entry.title.as_deref(), Some("Atom Entry"));
    assert_eq!(
        entry.url.as_deref(),
        Some("https://example.com/articles/atom")
    );
    assert_eq!(entry.published.as_deref(), Some("2026-02-01T11:00:00Z"));
    assert!(entry.content.as_deref().unwrap().contains("Atom body"));
    assert!(entry.content_tokens_est > 0);
    assert_eq!(
        entry.guid.as_deref(),
        Some("urn:uuid:1225c695-cfb8-4ebb-aaaa-80da344efa6a")
    );
}

#[test]
fn since_drops_older_items() {
    let mut p = params();
    p.since = Some(at("2026-01-06T00:00:00Z"));
    let parsed = parse_feed(RSS.as_bytes(), FEED_URL, &p).unwrap();
    assert_eq!(parsed.items.len(), 1);
    assert_eq!(parsed.items[0].title.as_deref(), Some("Second Post"));
}

#[test]
fn limit_keeps_newest_n() {
    let mut p = params();
    p.limit = Some(1);
    let parsed = parse_feed(RSS.as_bytes(), FEED_URL, &p).unwrap();
    assert_eq!(parsed.items.len(), 1);
    assert_eq!(parsed.items[0].title.as_deref(), Some("Second Post"));
}

#[test]
fn content_none_leaves_content_null() {
    let mut p = params();
    p.content_format = ContentFormat::Omit;
    let parsed = parse_feed(ATOM.as_bytes(), FEED_URL, &p).unwrap();
    assert!(parsed.items[0].content.is_none());
    assert_eq!(parsed.items[0].content_tokens_est, 0);
}

#[test]
fn garbage_input_is_parse_error_not_panic() {
    let err = parse_feed(b"not a feed at all", FEED_URL, &params()).unwrap_err();
    assert!(matches!(err, RssError::Parse(_)));
}

#[test]
fn html_becomes_markdown_text_or_stays() {
    let mut p = params();
    let md = parse_feed(RSS.as_bytes(), FEED_URL, &p).unwrap();
    assert_eq!(md.items[1].content.as_deref().map(str::trim), Some("Hello **world**"));
    p.content_format = ContentFormat::Text;
    let text = parse_feed(RSS.as_bytes(), FEED_URL, &p).unwrap();
    assert!(!text.items[1].content.as_deref().unwrap().contains("<p>"));
    assert!(text.items[1].content.as_deref().unwrap().contains("Hello"));
    p.content_format = ContentFormat::Html;
    let html = parse_feed(RSS.as_bytes(), FEED_URL, &p).unwrap();
    assert_eq!(html.items[1].content.as_deref(), Some("<p>Hello <b>world</b></p>"));
}

#[test]
fn a_query_filters_before_the_limit_and_is_counted() {
    let mut p = params();
    p.query = Some("first".to_string());
    p.limit = Some(1);
    let parsed = parse_feed(RSS.as_bytes(), FEED_URL, &p).unwrap();
    assert_eq!(parsed.items.len(), 1);
    assert_eq!(parsed.items[0].title.as_deref(), Some("First Post"));
    assert_eq!(parsed.items_filtered_out, 1);
}

#[test]
fn a_query_sees_content_as_it_is_shown() {
    let found = |max: Option<usize>, format: ContentFormat| {
        let mut p = params();
        p.query = Some("body".to_string());
        p.max_content_chars = max;
        p.content_format = format;
        let parsed = parse_feed(ATOM.as_bytes(), FEED_URL, &p).unwrap();
        (parsed.items.len(), parsed.items_filtered_out)
    };
    assert_eq!(found(None, ContentFormat::Markdown), (1, 0));
    assert_eq!(found(Some(4), ContentFormat::Markdown), (0, 1));
    assert_eq!(found(None, ContentFormat::Omit), (0, 1));
}

#[test]
fn cutting_content_keeps_its_hash() {
    let whole = parse_feed(RSS.as_bytes(), FEED_URL, &params()).unwrap();
    let mut p = params();
    p.max_content_chars = Some(2);
    let cut = parse_feed(RSS.as_bytes(), FEED_URL, &p).unwrap();
    assert!(cut.items[1].content_truncated);
    assert!(!whole.items[1].content_truncated);
    assert_ne!(cut.items[1].content, whole.items[1].content);
    assert_eq!(cut.items[1].content_hash, whole.items[1].content_hash);
    assert_eq!(whole.items[1].content_hash.as_deref().map(str::len), Some(16));
}

#[test]
fn undated_items_keep_their_order_and_are_warned_of() {
    let undated = r#"<rss version="2.0"><channel><title>T</title>
      <item><title>A</title><link>https://e.com/a</link></item>
      <item><title>B</title><link>https://e.com/b</link></item>
    </channel></rss>"#;
    let parsed = parse_feed(undated.as_bytes(), FEED_URL, &params()).unwrap();
    assert_eq!(parsed.items[0].title.as_deref(), Some("A"));
    assert_eq!(parsed.items[1].title.as_deref(), Some("B"));
    assert_eq!(parsed.warnings.len(), 1);
    assert_eq!(parsed.warnings[0].code, "UNDATED_ITEMS");
    assert_eq!(parsed.warnings[0].feed_url.as_deref(), Some(FEED_URL));
}

#[test]
fn the_error_of_a_document_that_is_no_feed_says_so() {
    let err = parse_feed(b"<html></html>", FEED_URL, &params()).unwrap_err();
    assert_eq!(err.code(), "FEED_PARSE_FAILED");
    assert!(err.message().starts_with("feed parse error: "));
}

#[test]
fn an_item_keeps_its_id_and_hash_whatever_is_asked_of_it() {
    let read = |max: Option<usize>, limit: Option<usize>, format: ContentFormat| {
        let p = FetchParams { max_content_chars: max, limit, content_format: format, ..params() };
        parse_feed(RSS.as_bytes(), FEED_URL, &p).unwrap().items
    };
    let whole = read(None, None, ContentFormat::Text);
    let cut = read(Some(3), None, ContentFormat::Text);
    let few = read(None, Some(1), ContentFormat::Omit);
    for (a, b) in whole.iter().zip(&cut) {
        assert_eq!((&a.id, a.id_source, &a.content_hash), (&b.id, b.id_source, &b.content_hash));
    }
    assert_eq!(few[0].id, whole[0].id);
    let first = cut.iter().find(|i| i.title.as_deref() == Some("First Post")).unwrap();
    assert!(first.content_truncated);
    assert_eq!(first.content.as_deref(), Some("Hel \u{2026}[truncated]"));
    let second = cut.iter().find(|i| i.title.as_deref() == Some("Second Post")).unwrap();
    assert!(!second.content_truncated && second.content.is_none());
}

#[test]
fn an_entry_without_id_or_link_is_known_by_title_and_date() {
    let body = r#"<rss version="2.0"><channel><title>T</title>
        <item><title>Bare</title><pubDate>Mon, 06 Jul 2026 12:00:00 GMT</pubDate></item>
        <item><title>Kept</title><guid>own</guid><enclosure url="https://e.com/a.mp3" length="1" type="audio/mpeg"/></item>
        <item><title>Linked</title><link>https://e.com/p</link></item>
        </channel></rss>"#;
    let url = "https://example.com/feed.xml";
    let read = || parse_feed(body.as_bytes(), url, &FetchParams::default()).unwrap().items;
    let (a, b) = (read(), read());
    assert_eq!(a.len(), 3);
    for (x, y) in a.iter().zip(&b) {
        assert_eq!((&x.id, &x.guid), (&y.id, &y.guid));
    }
    let bare = a.iter().find(|i| i.title.as_deref() == Some("Bare")).unwrap();
    assert_eq!((bare.guid.clone(), bare.url.clone(), bare.id_source), (None, None, IdSource::Hash));
    let want = item_id(url, None, None, Some("Bare"), Some("2026-07-06T12:00:00Z")).0;
    assert_eq!(bare.id, want);
    let kept = a.iter().find(|i| i.title.as_deref() == Some("Kept")).unwrap();
    assert_eq!((kept.guid.as_deref(), kept.id_source), (Some("own"), IdSource::Guid));
    let linked = a.iter().find(|i| i.title.as_deref() == Some("Linked")).unwrap();
    let theirs = feed_rs::parser::parse(body.as_bytes()).unwrap();
    let entry = theirs.entries.iter().find(|e| e.links.len() == 1).unwrap();
    assert_eq!((linked.guid.as_deref(), linked.id_source), (Some(entry.id.as_str()), IdSource::Link));
}
