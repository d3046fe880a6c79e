use rss_cli::discover::{classify, discover, extract_feeds};

#[test]
fn extracts_rss_and_atom_links() {
    let html = r#"
        <html><head>
          <link rel="alternate" type="application/rss+xml" title="RSS Feed" href="/feed.rss">
          <link rel="alternate" type="application/atom+xml" title="Atom Feed" href="https://other.example/atom.xml">
        </head><body></body></html>
    "#;
    let feeds = extract_feeds(html, "https://example.com/blog/");

    assert_eq!(feeds.len(), 2);

    assert_eq!(feeds[0].feed_type, "rss");
    assert_eq!(feeds[0].title.as_deref(), Some("RSS Feed"));
    assert_eq!(feeds[0].url, "https://example.com/feed.rss");

    assert_eq!(feeds[1].feed_type, "atom");
    assert_eq!(feeds[1].url, "https://other.example/atom.xml");
}

#[test]
fn accepts_json_and_strips_charset() {
    let html = r#"<link rel="alternate" type="application/feed+json; charset=utf-8" href="/feed.json">"#;
    let feeds = extract_feeds(html, "https://example.com/");
    assert_eq!(feeds.len(), 1);
    assert_eq!(feeds[0].feed_type, "json");
    assert_eq!(feeds[0].url, "https://example.com/feed.json");
}

#[test]
fn rejects_non_feed_links() {
    let html = r#"
        <link rel="stylesheet" href="/style.css">
        <link rel="alternate" type="text/html" href="/index.html">
        <link rel="alternate" hreflang="fr" href="/fr/">
    "#;
    let feeds = extract_feeds(html, "https://example.com/");
    assert!(feeds.is_empty(), "expected no feeds, got {feeds:?}");
}

#[test]
fn extension_heuristic_when_type_missing() {
    let html = r#"<link rel="alternate" href="/posts.atom">"#;
    let feeds = extract_feeds(html, "https://example.com/");
    assert_eq!(feeds.len(), 1);
    assert_eq!(feeds[0].feed_type, "unknown");
}

#[test]
fn dedup_is_order_preserving() {
    let html = r#"
        <link rel="alternate" type="application/rss+xml" href="/feed.rss">
        <link rel="alternate" type="application/rss+xml" href="/feed.rss">
        <link rel="alternate" type="application/atom+xml" href="/feed.atom">
    "#;
    let feeds = extract_feeds(html, "https://example.com/");
    assert_eq!(feeds.len(), 2);
    assert_eq!(feeds[0].url, "https://example.com/feed.rss");
    assert_eq!(feeds[1].url, "https://example.com/feed.atom");
}

#[test]
fn a_page_is_resolved_against_the_address_it_came_from() {
    let page = b"<LINK REL='Alternate home' TYPE='Application/RSS+XML' href=' a.xml ' title=T>";
    let upper = discover("https://site.example", page, "https://www.site.example/x/");
    assert_eq!(upper.site_url, "https://site.example");
    assert!(upper.feeds.is_empty(), "attribute names are matched as written");
    let page = b"<LINK rel='Alternate home' type='Application/RSS+XML' href=' a.xml ' title=T>";
    let out = discover("https://site.example", page, "https://www.site.example/x/");
    assert_eq!(out.feeds.len(), 1);
    assert_eq!(out.feeds[0].url, "https://www.site.example/x/a.xml");
    assert_eq!(out.feeds[0].feed_type, "rss");
    assert_eq!(out.feeds[0].title.as_deref(), Some("T"));
    assert_eq!(out.schema_version, "1");
}

#[test]
fn a_page_that_is_not_utf8_is_still_read() {
    let page = b"\xff\xfe<link rel=\"alternate\" type=\"application/atom+xml\" href=\"/f\">";
    let out = discover("https://e.com", page, "https://e.com/");
    assert_eq!(out.feeds.len(), 1);
    assert_eq!(out.feeds[0].url, "https://e.com/f");
}

#[test]
fn without_a_base_a_link_stands_as_it_is() {
    let html = r#"<link rel="alternate" type="application/rss+xml" href=" /feed.rss ">"#;
    let feeds = extract_feeds(html, "not a url");
    assert_eq!(feeds.len(), 1);
    assert_eq!(feeds[0].url, "/feed.rss");
}

#[test]
fn links_are_classified_by_type_and_then_by_extension() {
    assert_eq!(classify(Some("application/rss+xml"), "x"), Some("rss"));
    assert_eq!(classify(Some(" Application/Atom+XML ; charset=x"), "x"), Some("atom"));
    assert_eq!(classify(Some("application/json"), "x"), Some("json"));
    assert_eq!(classify(Some("text/html"), "feed.rss"), None);
    assert_eq!(classify(None, "/feed.XML?page=2"), Some("unknown"));
    assert_eq!(classify(None, "/feed.rss#top"), Some("unknown"));
    assert_eq!(classify(None, "/feed.html?x=.rss"), None);
}
