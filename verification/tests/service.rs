use std::cell::{Cell, RefCell};
use std::rc::Rc;

use rss_cli::answer::{
    answer_item, finish_page, first_position_mismatch, item_params, PageAnswer,
};
use rss_cli::args::{resolve_urls, FetchFeedArgs, GetItemArgs, MCP_MAX_URLS};
use rss_cli::batch::{
    assemble_prefix_in_request_order, find_item, outcome, read_feed, Fetched, IndexedFetch,
};
use rss_cli::cache::{CacheEntry, CacheMeta};
use rss_cli::config::{CachePolicy, FetchParams};
use rss_cli::cursor::{Cursor, CURSOR_VERSION};
use rss_cli::discover::discover;
use rss_cli::error::RssError;
use rss_cli::fetch::{fall_back, plan_fetch, settle, FetchPlan, Reply};
use rss_cli::json::{from_text, to_pretty};
use rss_cli::marker::{
    cursor_headroom, merge_deadline_omissions, truncation_note, worst_case_marker,
    DROP_NOT_PAGEABLE_SUGGESTION, NO_CACHE_NOT_PAGEABLE_SUGGESTION, PAGINATION_SUGGESTION,
};
use rss_cli::mcp::{
    parse_batch_deadline, plan_page, MCP_BATCH_DEADLINE_SECS, MCP_DEFAULT_LIMIT,
};
use rss_cli::model::{
    DiscoverOutput, ErrorObj, FeedResult, FeedStatus, FetchOutput, Item, TruncationInfo,
};
use rss_cli::page::estimate_response_tokens;
use rss_cli::time::{Duration, Timestamp};
use rss_cli::wire::{error_value, output_value};

/// What a server answers on one path.
struct Route {
    path: String,
    status: u16,
    body: String,
    if_none_match: Option<String>,
    hits: Cell<usize>,
    expected: Option<usize>,
}

impl Route {
    fn with_status(mut self, status: u16) -> Route {
        self.status = status;
        self
    }

    fn with_body(mut self, body: impl Into<String>) -> Route {
        self.body = body.into();
        self
    }

    fn with_header(self, _name: &str, _value: &str) -> Route {
        self
    }

    fn match_header(mut self, _name: &str, value: &str) -> Route {
        self.if_none_match = Some(value.to_string());
        self
    }

    fn expected(mut self, n: usize) -> Route {
        self.expected = Some(n);
        self
    }
}

/// A route on its way into its server.
struct Draft<'a> {
    server: &'a Server,
    route: Route,
}

impl<'a> Draft<'a> {
    fn with_status(self, status: u16) -> Draft<'a> {
        Draft { server: self.server, route: self.route.with_status(status) }
    }

    fn with_body(self, body: impl Into<String>) -> Draft<'a> {
        Draft { server: self.server, route: self.route.with_body(body) }
    }

    fn with_header(self, name: &str, value: &str) -> Draft<'a> {
        Draft { server: self.server, route: self.route.with_header(name, value) }
    }

    fn match_header(self, name: &str, value: &str) -> Draft<'a> {
        Draft { server: self.server, route: self.route.match_header(name, value) }
    }

    fn expected(self, n: usize) -> Draft<'a> {
        Draft { server: self.server, route: self.route.expected(n) }
    }

    fn create(self) -> Live {
        let route = Rc::new(self.route);
        self.server.routes.borrow_mut().push(route.clone());
        Live { route }
    }
}

struct Live {
    route: Rc<Route>,
}

impl Live {
    fn assert_hits(&self) {
        if let Some(n) = self.route.expected {
            assert_eq!(self.route.hits.get(), n, "requests to {}", self.route.path);
        }
    }
}

/// An origin held in memory.
struct Server {
    routes: RefCell<Vec<Rc<Route>>>,
}

impl Server {
    fn new() -> Server {
        Server { routes: RefCell::new(Vec::new()) }
    }

    /// A server that answers every path alike.
    fn answering(body: &str) -> Server {
        let server = Server::new();
        server.mock("GET", "").with_status(200).with_body(body).create();
        server
    }

    fn url(&self) -> &'static str {
        "http://127.0.0.1:8080"
    }

    fn mock(&self, _method: &str, path: &str) -> Draft<'_> {
        Draft {
            server: self,
            route: Route {
                path: path.to_string(),
                status: 200,
                body: String::new(),
                if_none_match: None,
                hits: Cell::new(0),
                expected: None,
            },
        }
    }

    fn reset(&self) {
        self.routes.borrow_mut().clear();
    }

    fn get(&self, url: &str, etag: Option<&str>) -> Reply {
        for route in self.routes.borrow().iter().rev() {
            let wanted = route.if_none_match.as_deref();
            if url.ends_with(&route.path) && (wanted.is_none() || wanted == etag) {
                route.hits.set(route.hits.get() + 1);
                return reply(url, route.status, &route.body);
            }
        }
        reply(url, 501, "")
    }
}

fn reply(url: &str, status: u16, body: &str) -> Reply {
    Reply {
        status,
        final_url: url.to_string(),
        content_type: Some("application/rss+xml".to_string()),
        etag: None,
        last_modified: None,
        retry_after: None,
        body: body.as_bytes().to_vec(),
    }
}

/// A body cache held in memory.
struct Shelf {
    entries: RefCell<Vec<CacheEntry>>,
}

impl Shelf {
    fn new() -> Shelf {
        Shelf { entries: RefCell::new(Vec::new()) }
    }

    fn get(&self, url: &str) -> Option<CacheEntry> {
        self.entries.borrow().iter().find(|e| e.meta.feed_url == url).cloned()
    }

    fn put(&self, meta: &CacheMeta, body: &[u8]) -> Result<(), String> {
        self.entries.borrow_mut().retain(|e| e.meta.feed_url != meta.feed_url);
        self.entries
            .borrow_mut()
            .push(CacheEntry { meta: meta.clone(), body: body.to_vec() });
        Ok(())
    }

    fn clear(&self) -> Result<(), String> {
        self.entries.borrow_mut().clear();
        Ok(())
    }
}

fn now() -> Timestamp {
    Timestamp { secs: chrono::Utc::now().timestamp(), nanos: 0 }
}

fn fetch_one(
    http: &Server,
    cache: &Shelf,
    url: &str,
    params: &FetchParams,
) -> Result<Fetched, RssError> {
    let policy = params.cache_policy;
    let raw = match plan_fetch(url, policy, cache.get(url), now()) {
        FetchPlan::Serve(raw) => raw,
        FetchPlan::Request { etag, .. } => {
            let reply = http.get(url, etag.as_deref());
            let settled =
                settle(url, policy, cache.get(url), reply, None, "2026-01-02T03:04:05Z".into());
            match settled.result {
                Ok(raw) => {
                    if let Some(meta) = &settled.store {
                        cache.put(meta, &raw.body).expect("store");
                    }
                    raw
                }
                Err(e) => fall_back(url, policy, e, cache.get(url), None)?,
            }
        }
    };
    Ok(read_feed(raw, url, params, now())?.expect("the token sum fits"))
}

fn fetch_feeds(
    http: &Server,
    cache: &Shelf,
    urls: &[String],
    params: &FetchParams,
    reached: usize,
) -> FetchOutput {
    let mut results: Vec<IndexedFetch> = Vec::new();
    for (i, url) in urls.iter().enumerate() {
        results.push(if i < reached {
            outcome(i, url, fetch_one(http, cache, url, params))
        } else {
            (i, None)
        });
    }
    let output = FetchOutput::new("2026-01-02T03:04:05Z".to_string());
    assemble_prefix_in_request_order(output, params, results)
}

/// One call of the tool, of whose feeds the first `reached` are fetched before the deadline.
fn fetch_feed_with_deadline(
    http: &Server,
    cache: &Shelf,
    args: FetchFeedArgs,
    reached: usize,
) -> Result<PageAnswer, ErrorObj> {
    let plan = plan_page(&args, Duration::from_secs(25), now())?;
    let start = plan.resume.as_ref().map_or(0, |c| c.f);
    let out = fetch_feeds(http, cache, &plan.urls[start..], &plan.params, reached);
    finish_page(out, &plan)
}

fn fetch_feed_inner(
    http: &Server,
    cache: &Shelf,
    args: FetchFeedArgs,
) -> Result<PageAnswer, ErrorObj> {
    fetch_feed_with_deadline(http, cache, args, usize::MAX)
}

fn get_item_inner(
    http: &Server,
    cache: &Shelf,
    args: GetItemArgs,
) -> Result<(Item, String), ErrorObj> {
    let params = item_params(&args);
    let found = fetch_one(http, cache, &args.feed_url, &params)
        .map(|(feed, _, _)| find_item(feed.items, &args.id));
    answer_item(&args, found)
}

fn discover_at(http: &Server, site: &str) -> DiscoverOutput {
    let reply = http.get(site, None);
    discover(site, &reply.body, &reply.final_url)
}

trait Payload {
    fn payload(&self) -> serde_json::Value;
}

impl Payload for PageAnswer {
    fn payload(&self) -> serde_json::Value {
        serde_json::from_str(&to_pretty(&output_value(&self.output))).expect("valid JSON")
    }
}

impl Payload for (Item, String) {
    fn payload(&self) -> serde_json::Value {
        serde_json::Value::String(self.1.clone())
    }
}

fn decode<T: Payload>(result: &Result<T, ErrorObj>) -> (bool, serde_json::Value) {
    match result {
        Ok(page) => (false, page.payload()),
        Err(e) => {
            (true, serde_json::from_str(&to_pretty(&error_value(e))).expect("valid JSON"))
        }
    }
}

fn summary_text(result: &Result<PageAnswer, ErrorObj>) -> Option<String> {
    result.as_ref().ok().map(|p| p.summary.clone())
}

fn output_of(result: &Result<PageAnswer, ErrorObj>) -> FetchOutput {
    match result {
        Ok(p) => p.output.clone(),
        Err(e) => panic!("expected a successful page, got: {e:?}"),
    }
}

fn cursor_of(result: &Result<PageAnswer, ErrorObj>) -> Option<String> {
    output_of(result).truncation.and_then(|t| t.next_cursor)
}

fn full_response_tokens(http: &Server, cache: &Shelf, args: FetchFeedArgs) -> usize {
    estimate_response_tokens(&output_of(&fetch_feed_inner(http, cache, args)))
}

fn paging_fixture(server: &Server) -> (&Server, Shelf, Vec<String>, usize) {
    server.mock("GET", "/a.xml").with_status(200).with_body(feed_with_items(10)).create();
    server.mock("GET", "/b.xml").with_status(200).with_body(feed_with_items(10)).create();
    let cache = Shelf::new();
    let urls = vec![format!("{}/a.xml", server.url()), format!("{}/b.xml", server.url())];
    let full = full_response_tokens(server, &cache, batch_args(urls.clone()));
    (server, cache, urls, full)
}

fn overlapping_feeds(server: &Server, items: usize) -> (&Server, Shelf, Vec<String>) {
    for path in ["/a.xml", "/b.xml"] {
        server.mock("GET", path).with_status(200).with_body(feed_with_items(items)).create();
    }
    let urls = vec![format!("{}/a.xml", server.url()), format!("{}/b.xml", server.url())];
    (server, Shelf::new(), urls)
}

fn fetch_feed_args(raw: &str) -> Result<FetchFeedArgs, String> {
    FetchFeedArgs::from_json(&from_text(raw).expect("valid JSON"))
}

fn get_item_args(raw: &str) -> Result<GetItemArgs, String> {
    GetItemArgs::from_json(&from_text(raw).expect("valid JSON"))
}

fn long_feed(n: usize, tag: &str) -> String {
    let mut items = String::new();
    for i in 0..n {
        items.push_str(&format!(
            "<item><title>{tag} post {i}</title><link>https://example.com/{tag}/{i}</link>\
             <description>body {i} {}</description></item>",
            "filler ".repeat(40)
        ));
    }
    format!(
        "<?xml version=\"1.0\"?><rss version=\"2.0\"><channel><title>{tag}</title>\
         <link>https://example.com/</link>{items}</channel></rss>"
    )
}

fn ids(out: &FetchOutput) -> Vec<String> {
    out.feeds.iter().flat_map(|f| f.items.iter().map(|i| i.id.clone())).collect()
}

#[test]
fn paged_round_trip_covers_every_item_exactly_once() {
    let server = Server::new();
    let a = server.mock("GET", "/a.xml").with_status(200).with_body(long_feed(10, "a"));
    let a = a.expected(1).create();
    let b = server.mock("GET", "/b.xml").with_status(200).with_body(long_feed(10, "b"));
    let b = b.expected(1).create();
    let cache = Shelf::new();
    let urls = vec![format!("{}/a.xml", server.url()), format!("{}/b.xml", server.url())];

    let budget = 1500;
    let mut pages: Vec<FetchOutput> = Vec::new();
    let mut cursor: Option<String> = None;
    let mut exhausted = false;
    for _ in 0..10 {
        let mut args = batch_args(urls.clone());
        args.max_response_tokens = Some(budget);
        args.cursor = cursor;
        let page = output_of(&fetch_feed_inner(&server, &cache, args));
        assert!(page.total_items > 0, "every page must ship at least one item");
        let emitted = estimate_response_tokens(&page);
        assert!(
            emitted <= budget,
            "the emitted page (marker and cursor included) must fit the budget: {emitted} > {budget}"
        );
        cursor = page.truncation.as_ref().and_then(|t| t.next_cursor.clone());
        pages.push(page);
        if cursor.is_none() {
            exhausted = true;
            break;
        }
    }
    assert!(
        exhausted,
        "pagination must terminate: still handing back a cursor after {} pages",
        pages.len()
    );
    assert!(pages.len() >= 2, "a {budget}-token budget must not fit 20 items in one page");
    assert!(
        pages[0].truncation.as_ref().is_some_and(|t| t.items_omitted > 0),
        "page 1 must report the items it deferred: {:?}",
        pages[0].truncation
    );

    let params = FetchParams {
        limit: Some(MCP_DEFAULT_LIMIT),
        cache_policy: CachePolicy::CacheFirst,
        ..FetchParams::default()
    };
    let expected = ids(&fetch_feeds(&server, &cache, &urls, &params, usize::MAX));
    assert_eq!(expected.len(), 20, "fixture sanity: 2 feeds x 10 items");
    let got: Vec<String> = pages.iter().flat_map(ids).collect();
    assert_eq!(
        got, expected,
        "the paged id sequence must equal the unpaginated one exactly — no duplicates, no \
         skipped items, same order"
    );
    a.assert_hits();
    b.assert_hits();
}

fn feed_with_items(n: usize) -> String {
    let mut items = String::new();
    for i in 0..n {
        items.push_str(&format!(
            "<item><title>Post {i}</title><link>https://example.com/{i}</link>\
             <description>body number {i}</description></item>"
        ));
    }
    format!(
        "<?xml version=\"1.0\"?><rss version=\"2.0\"><channel><title>Feed</title>\
         <link>https://example.com/</link>{items}</channel></rss>"
    )
}

fn feed_with_dated_items(recent: usize, stale: usize) -> String {
    let now = chrono::Utc::now();
    let mut items = String::new();
    let mut push = |label: &str, i: usize, when: chrono::DateTime<chrono::Utc>| {
        items.push_str(&format!(
            "<item><title>{label} {i}</title>\
             <link>https://example.com/{label}/{i}</link>\
             <pubDate>{}</pubDate><description>body number {i}</description></item>",
            when.to_rfc2822()
        ));
    };
    for i in 0..recent {
        push("Fresh", i, now - chrono::Duration::minutes(i as i64 + 1));
    }
    for i in 0..stale {
        push("Stale", i, now - chrono::Duration::days(400 + i as i64));
    }
    format!(
        "<?xml version=\"1.0\"?><rss version=\"2.0\"><channel><title>Feed</title>\
         <link>https://example.com/</link>{items}</channel></rss>"
    )
}

fn titles(out: &FetchOutput) -> Vec<String> {
    out.feeds
        .iter()
        .flat_map(|f| &f.items)
        .filter_map(|i| i.title.clone())
        .collect()
}

fn batch_args(urls: Vec<String>) -> FetchFeedArgs {
    let mut args = fetch_args(String::new());
    args.url = None;
    args.urls = Some(urls);
    args
}

fn fetch_args(url: String) -> FetchFeedArgs {
    FetchFeedArgs {
        url: Some(url),
        urls: None,
        content_format: None,
        since: None,
        query: None,
        dedupe: None,
        limit: None,
        max_content_chars: None,
        max_response_tokens: None,
        cache_policy: None,
        cursor: None,
    }
}

#[test]
fn fetch_feed_applies_default_item_cap() {
    let server = Server::new();
    let _m = server
        .mock("GET", "/feed.xml")
        .with_status(200)
        .with_body(feed_with_items(30))
        .create();
    let cache = Shelf::new();

    let result = fetch_feed_inner(
        &server,
        &cache,
        fetch_args(format!("{}/feed.xml", server.url())),
    );
    let (is_error, payload) = decode(&result);

    assert!(!is_error, "a normal feed should succeed: {payload}");
    let items = payload["feeds"][0]["items"].as_array().expect("items");
    assert_eq!(
        items.len(),
        MCP_DEFAULT_LIMIT,
        "fetch_feed should cap to the default {MCP_DEFAULT_LIMIT} items when no limit is passed"
    );
    assert!(
        payload["truncation"].is_null(),
        "untruncated result → truncation null"
    );

}

#[test]
fn fetch_feed_fetches_a_batch_in_request_order() {
    let server = Server::new();
    let _a = server
        .mock("GET", "/a.xml")
        .with_status(200)
        .with_body(feed_with_items(2))
        .create();
    let _b = server
        .mock("GET", "/b.xml")
        .with_status(200)
        .with_body(feed_with_items(3))
        .create();
    let cache = Shelf::new();

    let mut args = fetch_args(String::new());
    args.url = None;
    args.urls = Some(vec![
        format!("{}/a.xml", server.url()),
        format!("{}/b.xml", server.url()),
    ]);

    let (is_error, payload) = decode(&fetch_feed_inner(&server, &cache, args));
    assert!(!is_error, "batch fetch should succeed: {payload}");
    let feeds = payload["feeds"].as_array().expect("feeds");
    assert_eq!(feeds.len(), 2);
    assert!(feeds[0]["feed_url"].as_str().unwrap().ends_with("/a.xml"));
    assert!(feeds[1]["feed_url"].as_str().unwrap().ends_with("/b.xml"));
    assert_eq!(payload["total_items"], 5);

}

#[test]
fn batch_keeps_good_feeds_when_one_fails() {
    let server = Server::new();
    let _a = server
        .mock("GET", "/a.xml")
        .with_status(200)
        .with_body(feed_with_items(2))
        .create();
    let _bad = server
        .mock("GET", "/bad.xml")
        .with_status(404)
        .create();
    let cache = Shelf::new();

    let mut args = fetch_args(String::new());
    args.url = None;
    args.urls = Some(vec![
        format!("{}/a.xml", server.url()),
        format!("{}/bad.xml", server.url()),
    ]);

    let (is_error, payload) = decode(&fetch_feed_inner(&server, &cache, args));
    assert!(
        !is_error,
        "one bad feed must not fail the whole call: {payload}"
    );
    assert_eq!(payload["feeds"][0]["status"], "ok");
    assert_eq!(payload["feeds"][1]["status"], "error");
    assert_eq!(payload["errors"].as_array().unwrap().len(), 1);

}

#[test]
fn get_item_and_discover_use_the_shared_client() {
    let server = Server::new();
    let _f = server
        .mock("GET", "/feed.xml")
        .with_status(200)
        .with_body(feed_with_items(3))
        .create();
    let _s = server
        .mock("GET", "/site")
        .with_status(200)
        .with_header("content-type", "text/html")
        .with_body(
            "<html><head><link rel=\"alternate\" type=\"application/rss+xml\" \
             href=\"/feed.xml\"></head></html>",
        )
        .create();
    let cache = Shelf::new();
    let http = &server;

    let args = GetItemArgs {
        feed_url: format!("{}/feed.xml", server.url()),
        id: "0000000000000000".to_string(),
        max_content_chars: None,
    };
    let (is_error, payload) = decode(&get_item_inner(&http, &cache, args));
    assert!(is_error);
    assert_eq!(payload["code"], "NOT_FOUND");

    let out = discover_at(&server, &format!("{}/site", server.url()));
    assert_eq!(out.feeds.len(), 1);

}

#[test]
fn fetch_feed_over_budget_returns_structured_response_too_large() {
    let server = Server::new();
    let _m = server
        .mock("GET", "/feed.xml")
        .with_status(200)
        .with_body(feed_with_items(10))
        .create();
    let cache = Shelf::new();

    let mut args = fetch_args(format!("{}/feed.xml", server.url()));
    args.max_response_tokens = Some(1);

    let result = fetch_feed_inner(&server, &cache, args);
    let (is_error, payload) = decode(&result);

    assert!(is_error, "an over-budget result must be an error");
    assert_eq!(payload["code"], "RESPONSE_TOO_LARGE");
    assert!(
        payload["details"]["suggested_max_content_chars"]
            .as_u64()
            .is_some_and(|n| n >= 200),
        "must suggest a max_content_chars to retry with: {payload}"
    );
    assert!(
        payload["details"]["suggested_limit"].as_u64().is_some(),
        "must suggest a limit to retry with: {payload}"
    );

}

#[test]
fn fetch_feed_content_cap_truncates_and_marks() {
    let long = "word ".repeat(200);
    let feed = format!(
        "<?xml version=\"1.0\"?><rss version=\"2.0\"><channel><title>Feed</title>\
         <link>https://example.com/</link><item><title>Big</title>\
         <link>https://example.com/big</link><description><![CDATA[<p>{long}</p>]]></description>\
         </item></channel></rss>"
    );
    let server = Server::new();
    let _m = server
        .mock("GET", "/feed.xml")
        .with_status(200)
        .with_body(feed)
        .create();
    let cache = Shelf::new();

    let mut args = fetch_args(format!("{}/feed.xml", server.url()));
    args.max_content_chars = Some(15);

    let (is_error, payload) = decode(&fetch_feed_inner(&server, &cache, args));
    assert!(
        !is_error,
        "truncated-but-fitting result should succeed: {payload}"
    );
    assert_eq!(payload["feeds"][0]["items"][0]["content_truncated"], true);
    assert_eq!(
        payload["truncation"]["items_content_truncated"].as_u64(),
        Some(1)
    );
    assert_eq!(
        payload["truncation"]["applied_limit"].as_u64(),
        Some(MCP_DEFAULT_LIMIT as u64)
    );

}

#[test]
fn fetch_feed_rejects_bad_content_format() {
    let cache = Shelf::new();
    let mut args = fetch_args("https://example.com/feed.xml".to_string());
    args.content_format = Some("yaml".to_string());

    let (is_error, payload) = decode(&fetch_feed_inner(&Server::new(), &cache, args));
    assert!(is_error);
    assert_eq!(payload["code"], "USAGE_ERROR");

}

#[test]
fn fetch_feed_rejects_bad_cache_policy() {
    let cache = Shelf::new();
    let mut args = fetch_args("https://example.com/feed.xml".to_string());
    args.cache_policy = Some("aggressive".to_string());

    let (is_error, payload) = decode(&fetch_feed_inner(&Server::new(), &cache, args));
    assert!(is_error);
    assert_eq!(payload["code"], "USAGE_ERROR");
    let message = payload["message"].as_str().unwrap_or_default();
    assert!(
        message.contains("no-cache"),
        "error should list valid forms: {message}"
    );

}

#[test]
fn fetch_feed_rejects_bad_since() {
    let cache = Shelf::new();
    let mut args = fetch_args("https://example.com/feed.xml".to_string());
    args.since = Some("not-a-date".to_string());

    let (is_error, payload) = decode(&fetch_feed_inner(&Server::new(), &cache, args));
    assert!(is_error);
    assert_eq!(payload["code"], "USAGE_ERROR");

}

fn feed_with_keyword_items() -> String {
    "<?xml version=\"1.0\"?><rss version=\"2.0\"><channel><title>Feed</title>\
     <link>https://example.com/</link>\
     <item><title>Rust news</title><link>https://example.com/1</link></item>\
     <item><title>Python news</title><link>https://example.com/2</link></item>\
     <item><title>More rust</title><link>https://example.com/3</link></item>\
     </channel></rss>"
        .to_string()
}

#[test]
fn fetch_feed_query_argument_filters_items_before_limit() {
    let server = Server::new();
    let _m = server
        .mock("GET", "/feed.xml")
        .with_status(200)
        .with_body(feed_with_keyword_items())
        .create();
    let cache = Shelf::new();

    let mut args = fetch_args(format!("{}/feed.xml", server.url()));
    args.query = Some("rust".to_string());
    args.limit = Some(2);
    let out = output_of(&fetch_feed_inner(&server, &cache, args));

    let titles: Vec<&str> = out.feeds[0]
        .items
        .iter()
        .filter_map(|i| i.title.as_deref())
        .collect();
    assert_eq!(
        titles.len(),
        2,
        "both rust items must ship, not 2 of the newest regardless of match: {titles:?}"
    );
    assert!(
        titles.iter().all(|t| t.to_lowercase().contains("rust")),
        "every shipped item must match the query: {titles:?}"
    );

}

#[test]
fn fetch_feed_reports_applied_filters_for_a_query() {
    let server = Server::new();
    let _m = server
        .mock("GET", "/feed.xml")
        .with_status(200)
        .with_body(feed_with_keyword_items())
        .create();
    let cache = Shelf::new();

    let mut args = fetch_args(format!("{}/feed.xml", server.url()));
    args.query = Some("rust".to_string());
    let out = output_of(&fetch_feed_inner(&server, &cache, args));

    let applied = out
        .applied_filters
        .expect("query was supplied, so applied_filters must be present");
    assert_eq!(applied.query.as_deref(), Some("rust"));
    assert!(applied.since.is_none());
    assert_eq!(
        applied.items_filtered_out, 1,
        "the one non-matching item must be counted"
    );

}

#[test]
fn cursor_from_a_different_query_is_rejected() {
    let server = Server::new();
    let (http, cache, urls, full) = paging_fixture(&server);

    let mut args = batch_args(urls.clone());
    args.max_response_tokens = Some(full / 2);
    args.query = Some("post".to_string());
    let cursor = cursor_of(&fetch_feed_inner(&http, &cache, args))
        .expect("page 1 must hand back a cursor");

    let mut args = batch_args(urls);
    args.max_response_tokens = Some(full / 2);
    args.query = Some("something else".to_string());
    args.cursor = Some(cursor);
    let (is_error, payload) = decode(&fetch_feed_inner(&http, &cache, args));

    assert!(is_error, "a mismatched cursor must not be honored");
    assert_eq!(payload["code"], "USAGE_ERROR");
    assert!(
        payload["message"]
            .as_str()
            .is_some_and(|m| m.contains("does not match")),
        "the error must say the cursor belongs to another request: {payload}"
    );

}

#[test]
fn fetch_feed_cache_first_avoids_network_on_warm_cache() {
    let server = Server::new();
    let cache = Shelf::new();
    let url = format!("{}/feed.xml", server.url());

    let meta = CacheMeta {
        feed_url: url.clone(),
        etag: Some("\"v1\"".to_string()),
        last_modified: None,
        fetched_at: "2020-01-01T00:00:00Z".to_string(),
        content_type: Some("application/rss+xml".to_string()),
    };
    cache
        .put(&meta, feed_with_items(1).as_bytes())
        .expect("seed cache");

    let mock = server
        .mock("GET", "/feed.xml")
        .match_header("if-none-match", "\"v1\"")
        .with_status(304)
        .expected(0)
        .create();

    let mut args = fetch_args(url);
    args.cache_policy = Some("  Cache-First ".to_string());

    let (is_error, payload) = decode(&fetch_feed_inner(&server, &cache, args));
    assert!(!is_error, "cache-first must not error: {payload}");
    mock.assert_hits();

}

#[test]
fn get_item_missing_id_is_structured_not_found() {
    let server = Server::new();
    let _m = server
        .mock("GET", "/feed.xml")
        .with_status(200)
        .with_body(feed_with_items(3))
        .create();
    let cache = Shelf::new();

    let args = GetItemArgs {
        feed_url: format!("{}/feed.xml", server.url()),
        id: "0000000000000000".to_string(),
        max_content_chars: None,
    };
    let (is_error, payload) = decode(&get_item_inner(&server, &cache, args));
    assert!(is_error);
    assert_eq!(payload["code"], "NOT_FOUND");

}

#[test]
fn fetch_args_coerce_stringified_integers() {
    let args = fetch_feed_args(
        r#"{"url":"https://e.com/f","limit":"25","max_content_chars":"500","max_response_tokens":"8000"}"#,
    )
    .expect("stringified integers should deserialize");
    assert_eq!(args.limit, Some(25));
    assert_eq!(args.max_content_chars, Some(500));
    assert_eq!(args.max_response_tokens, Some(8000));
}

#[test]
fn fetch_args_accept_native_integers() {
    let args = fetch_feed_args(r#"{"url":"https://e.com/f","limit":25,"max_content_chars":500}"#)
            .expect("native integers should still deserialize");
    assert_eq!(args.limit, Some(25));
    assert_eq!(args.max_content_chars, Some(500));
    assert_eq!(args.max_response_tokens, None);
}

#[test]
fn fetch_args_absent_null_and_empty_string_are_none() {
    let absent = fetch_feed_args(r#"{"url":"https://e.com/f"}"#).expect("absent fields ok");
    assert_eq!(absent.limit, None);
    assert_eq!(absent.max_content_chars, None);

    let null = fetch_feed_args(
        r#"{"url":"https://e.com/f","limit":null,"max_content_chars":null}"#,
    )
    .expect("explicit null ok");
    assert_eq!(null.limit, None);
    assert_eq!(null.max_content_chars, None);

    let empty = fetch_feed_args(r#"{"url":"https://e.com/f","limit":""}"#)
        .expect("empty string ok");
    assert_eq!(empty.limit, None);
}

#[test]
fn fetch_args_reject_non_numeric_and_negative() {
    assert!(
        fetch_feed_args(r#"{"url":"u","limit":"twenty"}"#).is_err(),
        "a non-numeric string must not silently parse"
    );
    assert!(
        fetch_feed_args(r#"{"url":"u","limit":-5}"#).is_err(),
        "a negative number is not a valid usize"
    );
    assert!(
        fetch_feed_args(r#"{"url":"u","limit":"-5"}"#).is_err(),
        "a negative numeric string is not a valid usize"
    );
}

#[test]
fn get_item_args_coerce_stringified_max_content_chars() {
    let args = get_item_args(
        r#"{"feed_url":"https://e.com/f","id":"abc","max_content_chars":"1000"}"#,
    )
    .expect("stringified max_content_chars should deserialize");
    assert_eq!(args.max_content_chars, Some(1000));
}

#[test]
fn urls_arg_accepts_every_stringified_form() {
    let cases = [
        r#"{"urls":["https://a/f","https://b/f"]}"#,
        r#"{"urls":"[\"https://a/f\", \"https://b/f\"]"}"#,
        r#"{"urls":"https://a/f\nhttps://b/f"}"#,
        r#"{"urls":"https://a/f, https://b/f"}"#,
    ];
    for raw in cases {
        let args = fetch_feed_args(raw).unwrap_or_else(|e| panic!("{raw} should parse: {e}"));
        assert_eq!(
            args.urls.as_deref(),
            Some(["https://a/f".to_string(), "https://b/f".to_string()].as_slice()),
            "failed for {raw}"
        );
    }

    let one = fetch_feed_args(r#"{"urls":"https://a/f"}"#).unwrap();
    assert_eq!(
        one.urls.as_deref(),
        Some(["https://a/f".to_string()].as_slice())
    );

    let commas_in_query = fetch_feed_args(r#"{"urls":"https://a/f?ids=1,2,3"}"#).unwrap();
    assert_eq!(
        commas_in_query.urls.as_deref(),
        Some(["https://a/f?ids=1,2,3".to_string()].as_slice()),
        "a comma inside a query string must not split the URL"
    );

    let mixed = fetch_feed_args(r#"{"urls":"https://a/f?ids=1,2\nhttps://b/f"}"#).unwrap();
    assert_eq!(
        mixed.urls.as_deref(),
        Some(["https://a/f?ids=1,2".to_string(), "https://b/f".to_string()].as_slice()),
        "newlines separate; the in-URL comma is preserved"
    );

    for raw in [
        r#"{"url":"u"}"#,
        r#"{"urls":null}"#,
        r#"{"urls":""}"#,
        r#"{"urls":[]}"#,
    ] {
        let args = fetch_feed_args(raw).unwrap();
        assert_eq!(args.urls, None, "failed for {raw}");
    }

    assert!(
        fetch_feed_args(r#"{"urls":[1,2]}"#).is_err(),
        "non-string array elements must be rejected"
    );
}

#[test]
fn drop_never_mints_a_cursor_it_could_not_redeem() {
    let server = Server::new();
    server
        .mock("GET", "/one.xml")
        .with_status(200)
        .with_body(feed_with_items(10))
        .create();
    let cache = Shelf::new();
    let http = &server;
    let url = format!("{}/one.xml", server.url());
    let full = full_response_tokens(&http, &cache, fetch_args(url.clone()));

    let mut args = fetch_args(url.clone());
    args.max_response_tokens = Some(full / 2);
    let (_, payload) = decode(&fetch_feed_inner(&http, &cache, args));
    assert!(
        payload["truncation"]["next_cursor"].is_string(),
        "the control must actually be over budget and pageable: {payload}"
    );

    let mut args = fetch_args(url);
    args.max_response_tokens = Some(full / 2);
    args.dedupe = Some("drop".to_string());
    let (is_error, payload) = decode(&fetch_feed_inner(&http, &cache, args));
    assert!(
        !is_error,
        "the page is fine; only the cursor is withheld: {payload}"
    );
    assert!(
        payload["truncation"]["next_cursor"].is_null(),
        "drop must not mint a token no later call could redeem: {payload}"
    );
    assert!(
        payload["truncation"]["suggestion"]
            .as_str()
            .unwrap_or_default()
            .contains("dedupe='report'"),
        "a truncated page with no cursor must name the way forward: {payload}"
    );

}

#[test]
fn a_content_truncated_drop_page_keeps_the_get_item_hint() {
    let server = Server::new();
    server
        .mock("GET", "/one.xml")
        .with_status(200)
        .with_body(feed_with_items(10))
        .create();
    let cache = Shelf::new();
    let http = &server;
    let url = format!("{}/one.xml", server.url());
    let full = full_response_tokens(&http, &cache, fetch_args(url.clone()));

    let mut args = fetch_args(url);
    args.max_response_tokens = Some(full / 2);
    args.max_content_chars = Some(4);
    args.dedupe = Some("drop".to_string());
    let (_, payload) = decode(&fetch_feed_inner(&http, &cache, args));

    assert!(
        payload["truncation"]["items_content_truncated"]
            .as_u64()
            .unwrap_or(0)
            > 0,
        "the fixture must actually content-truncate, or this proves nothing: {payload}"
    );
    let s = payload["truncation"]["suggestion"]
        .as_str()
        .unwrap_or_default();
    assert!(
        s.contains("get_item") && s.contains("dedupe='report'"),
        "both hints must survive: {s}"
    );

}

#[test]
fn the_cursorless_clauses_fit_inside_the_reserved_headroom() {
    for (name, clause) in [
        ("drop", DROP_NOT_PAGEABLE_SUGGESTION),
        ("no-cache", NO_CACHE_NOT_PAGEABLE_SUGGESTION),
    ] {
        assert!(
            clause.len() <= PAGINATION_SUGGESTION.len(),
            "the cursorless-{name} clause ({} chars) must not exceed the pagination clause \
             it replaces ({} chars), or the headroom reserve stops covering it",
            clause.len(),
            PAGINATION_SUGGESTION.len()
        );
    }
}

#[test]
fn no_cache_never_mints_a_cursor_it_could_not_honor() {
    let server = Server::new();
    server
        .mock("GET", "/one.xml")
        .with_status(200)
        .with_body(feed_with_items(10))
        .create();
    let cache = Shelf::new();
    let http = &server;
    let url = format!("{}/one.xml", server.url());
    let full = full_response_tokens(&http, &cache, fetch_args(url.clone()));

    let mut args = fetch_args(url.clone());
    args.max_response_tokens = Some(full / 2);
    let (_, payload) = decode(&fetch_feed_inner(&http, &cache, args));
    assert!(
        payload["truncation"]["next_cursor"].is_string(),
        "the control must actually be over budget and pageable: {payload}"
    );

    let mut args = fetch_args(url);
    args.max_response_tokens = Some(full / 2);
    args.cache_policy = Some("no-cache".to_string());
    let (is_error, payload) = decode(&fetch_feed_inner(&http, &cache, args));
    assert!(
        !is_error,
        "the page is fine; only the cursor is withheld: {payload}"
    );
    assert!(
        payload["truncation"]["next_cursor"].is_null(),
        "no-cache must not mint a cursor the next page cannot honor: {payload}"
    );
    assert!(
        payload["truncation"]["suggestion"]
            .as_str()
            .unwrap_or_default()
            .contains("no-cache"),
        "a bounded page with no cursor must name the way forward: {payload}"
    );

}

#[test]
fn cursor_headroom_covers_the_marker_it_reserves_for() {
    let mut out = FetchOutput::new("2026-01-01T00:00:00Z".to_string());
    let bare = estimate_response_tokens(&out);
    out.truncation = Some(worst_case_marker());
    let with_marker = estimate_response_tokens(&out);
    let note = truncation_note(&out);
    assert!(
        note.contains("Content truncated") && note.contains("next_cursor"),
        "the worst-case note must carry both clauses: {note}"
    );

    let actual = (with_marker - bare) + note.chars().count().div_ceil(4);
    let reserved = cursor_headroom();
    assert!(
        actual <= reserved,
        "the marker plus its summary note costs {actual} tokens but only {reserved} are \
         reserved"
    );
    assert!(
        reserved <= actual + 30,
        "reserve {reserved} is far above the real cost {actual}"
    );
}

#[test]
fn over_budget_batch_returns_a_page_plus_a_cursor() {
    let server = Server::new();
    let (http, cache, urls, full) = paging_fixture(&server);

    let budget = full / 2;
    let mut args = batch_args(urls);
    args.max_response_tokens = Some(budget);
    let result = fetch_feed_inner(&http, &cache, args);
    let page = output_of(&result);

    assert!(
        page.total_items > 0,
        "an over-budget batch must still ship the items that fit"
    );
    let t = page
        .truncation
        .as_ref()
        .expect("a bounded page must carry a truncation marker");
    assert!(
        t.next_cursor.is_some(),
        "a bounded page must hand back a cursor: {t:?}"
    );
    assert!(
        t.items_omitted > 0,
        "it must report what it deferred: {t:?}"
    );
    assert_eq!(t.applied_limit, Some(MCP_DEFAULT_LIMIT));
    assert!(
        t.suggestion
            .as_deref()
            .is_some_and(|s| s.contains("next_cursor")),
        "the suggestion must tell the agent how to page: {:?}",
        t.suggestion
    );
    let summary = summary_text(&result).expect("a text summary");
    let emitted = estimate_response_tokens(&page) + summary.chars().count().div_ceil(4);
    assert!(
        emitted <= budget,
        "the emitted result (payload + summary text) must fit the budget: {emitted} > {budget}"
    );
    assert!(
        summary.contains("next_cursor"),
        "the one-line summary must point at the cursor: {summary}"
    );

}

#[test]
fn a_page_that_is_both_truncated_and_paginated_keeps_both_hints() {
    let long = "word ".repeat(200);
    let items: String = (0..10)
        .map(|i| {
            format!(
                "<item><title>Big {i}</title><link>https://example.com/big/{i}</link>\
                 <description><![CDATA[<p>{long}</p>]]></description></item>"
            )
        })
        .collect();
    let feed = format!(
        "<?xml version=\"1.0\"?><rss version=\"2.0\"><channel><title>Feed</title>\
         <link>https://example.com/</link>{items}</channel></rss>"
    );
    let server = Server::new();
    let _m = server
        .mock("GET", "/feed.xml")
        .with_status(200)
        .with_body(feed)
        .create();
    let cache = Shelf::new();
    let http = &server;
    let url = format!("{}/feed.xml", server.url());

    let mut probe = fetch_args(url.clone());
    probe.max_content_chars = Some(120);
    let full = full_response_tokens(&http, &cache, probe);

    let budget = full / 2;
    let mut args = fetch_args(url);
    args.max_content_chars = Some(120);
    args.max_response_tokens = Some(budget);
    let result = fetch_feed_inner(&http, &cache, args);
    let page = output_of(&result);

    let summary = summary_text(&result).expect("a text summary");
    assert!(
        summary.contains("Content truncated") && summary.contains("next_cursor"),
        "the summary must carry both clauses: {summary}"
    );
    let emitted = estimate_response_tokens(&page) + summary.chars().count().div_ceil(4);
    assert!(
        emitted <= budget,
        "the widest emitted result must still fit the budget: {emitted} > {budget}"
    );

    let t = page
        .truncation
        .expect("a capped, bounded page carries a marker");
    assert!(
        t.items_content_truncated > 0,
        "content must be capped: {t:?}"
    );
    assert!(
        t.next_cursor.is_some(),
        "and the page must be bounded: {t:?}"
    );
    let suggestion = t.suggestion.unwrap_or_default();
    assert!(
        suggestion.contains("get_item") && suggestion.contains("next_cursor"),
        "both hints must survive: {suggestion}"
    );

}

#[test]
fn a_shed_error_feed_leaves_no_orphan_in_errors() {
    let server = Server::new();
    let _a = server
        .mock("GET", "/a.xml")
        .with_status(200)
        .with_body(feed_with_items(10))
        .create();
    let _bad = server
        .mock("GET", "/bad.xml")
        .with_status(404)
        .create();
    let cache = Shelf::new();
    let http = &server;
    let urls = vec![
        format!("{}/a.xml", server.url()),
        format!("{}/bad.xml", server.url()),
    ];

    let full = full_response_tokens(&http, &cache, batch_args(urls.clone()));
    let mut args = batch_args(urls.clone());
    args.max_response_tokens = Some(full / 2);
    let result = fetch_feed_inner(&http, &cache, args);
    let page1 = output_of(&result);

    assert_eq!(
        page1.feeds.len(),
        1,
        "the budget must have shed the trailing feed: {:?}",
        page1.feeds.iter().map(|f| &f.feed_url).collect::<Vec<_>>()
    );
    assert!(
        page1.errors.is_empty(),
        "an error whose feed was shed must not be reported without it: {:?}",
        page1.errors
    );
    let cursor = page1
        .truncation
        .and_then(|t| t.next_cursor)
        .expect("page 1 must hand back a cursor");

    let mut args = batch_args(urls);
    args.cursor = Some(cursor);
    let page2 = output_of(&fetch_feed_inner(&http, &cache, args));
    assert_eq!(
        page2.errors.len(),
        1,
        "the failed feed must surface on the page that reaches it: {page2:?}"
    );
    assert!(
        page2
            .feeds
            .iter()
            .any(|f| f.status == FeedStatus::Error),
        "and it must be present in feeds[] alongside its error"
    );

}

#[test]
fn cursor_from_a_different_request_is_rejected() {
    let server = Server::new();
    let (http, cache, urls, full) = paging_fixture(&server);

    let mut args = batch_args(urls.clone());
    args.max_response_tokens = Some(full / 2);
    let cursor = cursor_of(&fetch_feed_inner(&http, &cache, args))
        .expect("page 1 must hand back a cursor");

    let mut args = batch_args(urls);
    args.max_response_tokens = Some(full / 2);
    args.content_format = Some("text".to_string());
    args.cursor = Some(cursor);
    let (is_error, payload) = decode(&fetch_feed_inner(&http, &cache, args));

    assert!(is_error, "a mismatched cursor must not be honored");
    assert_eq!(payload["code"], "USAGE_ERROR");
    assert!(
        payload["message"]
            .as_str()
            .is_some_and(|m| m.contains("does not match")),
        "the error must say the cursor belongs to another request: {payload}"
    );

}

#[test]
fn cursor_past_the_end_of_the_url_list_is_rejected() {
    let server = Server::new();
    let (http, cache, urls, full) = paging_fixture(&server);

    let mut args = batch_args(urls.clone());
    args.max_response_tokens = Some(full / 2);
    let cursor = cursor_of(&fetch_feed_inner(&http, &cache, args))
        .expect("page 1 must hand back a cursor");

    let mut c = Cursor::decode(&cursor).expect("decode page 1 cursor");
    c.f = urls.len() + 5;

    let mut args = batch_args(urls);
    args.max_response_tokens = Some(full / 2);
    args.cursor = Some(c.encode());
    let (is_error, payload) = decode(&fetch_feed_inner(&http, &cache, args));

    assert!(is_error);
    assert_eq!(payload["code"], "USAGE_ERROR");
    assert!(
        payload["message"]
            .as_str()
            .is_some_and(|m| m.contains("past the end")),
        "the error must name the out-of-range position: {payload}"
    );

}

#[test]
fn a_failed_continuation_feed_is_not_reported_as_a_rolled_window() {
    let server = Server::new();
    let _m = server
        .mock("GET", "/feed.xml")
        .with_status(200)
        .with_body(feed_with_items(10))
        .create();
    let cache = Shelf::new();
    let http = &server;
    let url = format!("{}/feed.xml", server.url());

    let full = full_response_tokens(&http, &cache, fetch_args(url.clone()));
    let mut args = fetch_args(url.clone());
    args.max_response_tokens = Some(full / 2);
    let cursor = cursor_of(&fetch_feed_inner(&http, &cache, args))
        .expect("page 1 must hand back a cursor");

    cache.clear().expect("evict the cache");
    server.reset();

    let mut args = fetch_args(url);
    args.cursor = Some(cursor);
    let page2 = output_of(&fetch_feed_inner(&http, &cache, args));

    assert_eq!(page2.errors.len(), 1, "the failed refetch must be reported");
    assert!(
        !page2
            .warnings
            .iter()
            .any(|w| w.code == "CACHE_WINDOW_ROLLED"),
        "a fetch failure is not a rolled window: {:?}",
        page2.warnings
    );

}

#[test]
fn garbage_cursor_is_a_usage_error() {
    let cache = Shelf::new();
    let mut args = fetch_args("https://example.invalid/feed.xml".to_string());
    args.cursor = Some("not-a-real-cursor!!".to_string());

    let (is_error, payload) = decode(&fetch_feed_inner(&Server::new(), &cache, args));
    assert!(is_error);
    assert_eq!(payload["code"], "USAGE_ERROR");
    assert!(
        payload["message"]
            .as_str()
            .is_some_and(|m| m.contains("cursor")),
        "the error must name the cursor: {payload}"
    );

}

#[test]
fn continuation_that_cannot_fit_an_item_says_earlier_pages_shipped() {
    let server = Server::new();
    let (http, cache, urls, full) = paging_fixture(&server);

    let mut args = batch_args(urls.clone());
    args.max_response_tokens = Some(full / 2);
    let cursor = cursor_of(&fetch_feed_inner(&http, &cache, args))
        .expect("page 1 must hand back a cursor");

    let mut args = batch_args(urls);
    args.max_response_tokens = Some(1);
    args.cursor = Some(cursor);
    let (is_error, payload) = decode(&fetch_feed_inner(&http, &cache, args));

    assert!(is_error);
    assert_eq!(payload["code"], "RESPONSE_TOO_LARGE");
    assert_eq!(
        payload["details"]["continuation"], true,
        "the error must be machine-readably marked as a continuation: {payload}"
    );
    assert!(
        payload["message"]
            .as_str()
            .is_some_and(|m| m.contains("continuation")),
        "the message must say earlier pages already shipped: {payload}"
    );

}

#[test]
fn continuation_warns_when_the_cached_window_rolled() {
    let server = Server::new();
    let _m = server
        .mock("GET", "/feed.xml")
        .with_status(200)
        .with_body(feed_with_items(10))
        .create();
    let cache = Shelf::new();
    let http = &server;
    let url = format!("{}/feed.xml", server.url());

    let full = full_response_tokens(&http, &cache, fetch_args(url.clone()));
    let mut args = fetch_args(url.clone());
    args.max_response_tokens = Some(full / 2);
    let cursor = cursor_of(&fetch_feed_inner(&http, &cache, args))
        .expect("page 1 must hand back a cursor");
    let c = Cursor::decode(&cursor).expect("decode cursor");
    assert_eq!(c.f, 0, "a single-feed request resumes in feed 0");
    assert_eq!(
        c.n, 10,
        "the cursor records the window it was minted against"
    );

    let meta = CacheMeta {
        feed_url: url.clone(),
        etag: None,
        last_modified: None,
        fetched_at: "2020-01-01T00:00:00Z".to_string(),
        content_type: Some("application/rss+xml".to_string()),
    };
    cache
        .put(&meta, feed_with_items(8).as_bytes())
        .expect("overwrite the cached body");

    let mut args = fetch_args(url);
    args.cursor = Some(cursor);
    let page2 = output_of(&fetch_feed_inner(&http, &cache, args));

    assert!(
        page2
            .warnings
            .iter()
            .any(|w| w.code == "CACHE_WINDOW_ROLLED"),
        "a shifted window must be warned about: {:?}",
        page2.warnings
    );
    assert_eq!(
        page2.total_items,
        8usize.saturating_sub(c.i),
        "the continuation resumes at the recorded index in the new, shorter window"
    );

}

#[test]
fn a_cursor_resuming_at_index_zero_does_not_claim_the_window_rolled() {
    let server = Server::new();
    let _m = server
        .mock("GET", "/feed.xml")
        .with_status(200)
        .with_body(feed_with_items(10))
        .create();
    let cache = Shelf::new();
    let http = &server;
    let url = format!("{}/feed.xml", server.url());

    let full = full_response_tokens(&http, &cache, fetch_args(url.clone()));
    let mut args = fetch_args(url.clone());
    args.max_response_tokens = Some(full / 2);
    let cursor = cursor_of(&fetch_feed_inner(&http, &cache, args))
        .expect("page 1 must hand back a cursor");
    let mut c = Cursor::decode(&cursor).expect("decode cursor");
    c.i = 0;
    c.n = 0;

    let mut args = fetch_args(url);
    args.cursor = Some(c.encode());
    let page = output_of(&fetch_feed_inner(&http, &cache, args));

    assert!(
        !page
            .warnings
            .iter()
            .any(|w| w.code == "CACHE_WINDOW_ROLLED"),
        "resuming at index 0 skips nothing, so there is no roll to report: {:?}",
        page.warnings
    );
    assert_eq!(
        page.total_items, 10,
        "the whole feed still ships: {:?}",
        page.truncation
    );

}

#[test]
fn batch_deadline_override_parses_and_falls_back() {
    let default = Duration::from_secs(MCP_BATCH_DEADLINE_SECS);
    assert_eq!(
        parse_batch_deadline(Some("5")),
        Duration::from_secs(5)
    );
    assert_eq!(
        parse_batch_deadline(Some(" 7 ")),
        Duration::from_secs(7),
        "trimmed, like the rate-limit overrides"
    );
    assert_eq!(parse_batch_deadline(Some("0")), Duration::from_secs(0));
    assert_eq!(parse_batch_deadline(None), default, "absent falls back");
    assert_eq!(parse_batch_deadline(Some("")), default);
    assert_eq!(
        parse_batch_deadline(Some("soon")),
        default,
        "garbage falls back to the bound rather than removing it"
    );
}

fn marker_with(feeds_omitted: usize, suggestion: Option<&str>) -> TruncationInfo {
    TruncationInfo {
        applied_limit: None,
        items_content_truncated: 0,
        items_omitted: 0,
        feeds_omitted,
        next_cursor: None,
        estimated_tokens: None,
        suggestion: suggestion.map(str::to_string),
    }
}

#[test]
fn deadline_and_budget_feed_omissions_are_summed_not_overwritten() {
    let mut marker = Some(TruncationInfo {
        items_omitted: 12,
        ..marker_with(6, Some("budget advice"))
    });
    merge_deadline_omissions(&mut marker, Some(marker_with(40, Some("deadline advice"))));

    let m = marker.expect("the merged marker survives");
    assert_eq!(m.feeds_omitted, 46, "6 shed by the budget + 40 never tried");
    assert_eq!(
        m.items_omitted, 12,
        "the deadline omits whole feeds, never items"
    );
    assert_eq!(
        m.suggestion.as_deref(),
        Some("budget advice"),
        "the budget's advice already names the cursor that recovers both"
    );
}

#[test]
fn a_deadline_marker_survives_when_the_page_has_none() {
    let mut marker = None;
    merge_deadline_omissions(&mut marker, Some(marker_with(3, Some("deadline advice"))));
    let m = marker.expect("the deadline's marker becomes the page's marker");
    assert_eq!(m.feeds_omitted, 3);
    assert_eq!(m.suggestion.as_deref(), Some("deadline advice"));

    let mut marker = Some(marker_with(2, Some("budget advice")));
    merge_deadline_omissions(&mut marker, None);
    assert_eq!(marker.map(|m| m.feeds_omitted), Some(2));
}

fn site_with_alternate_link() -> String {
    "<html><head><link rel=\"alternate\" type=\"application/rss+xml\" \
     href=\"/feed.xml\"></head></html>"
        .to_string()
}

#[test]
fn an_expired_deadline_ships_nothing_and_cursors_the_whole_batch() {
    let cache = Shelf::new();
    let urls: Vec<String> = (0..3)
        .map(|i| format!("http://127.0.0.1:1/f{i}.xml"))
        .collect();

    let page = output_of(
        &fetch_feed_with_deadline(
            &Server::new(),
            &cache,
            batch_args(urls.clone()),
            0,
        ),
    );

    assert!(page.feeds.is_empty(), "nothing was attempted: {page:?}");
    assert!(
        page.errors.is_empty(),
        "an unattempted feed did not fail: {:?}",
        page.errors
    );
    let t = page
        .truncation
        .as_ref()
        .expect("every omitted feed must be reported");
    assert_eq!(t.feeds_omitted, urls.len());
    assert!(
        t.estimated_tokens.is_some(),
        "a shipped marker always reports its size"
    );
    let c = Cursor::decode(
        t.next_cursor
            .as_deref()
            .expect("the caller needs a cursor for the feeds it never got"),
    )
    .expect("decode the minted cursor");
    assert_eq!(
        (c.f, c.i, c.n),
        (0, 0, 0),
        "resume at the first feed, which is every feed: nothing was delivered"
    );

}

#[test]
fn a_page_bounded_by_both_the_deadline_and_the_budget_keeps_both_counts() {
    let server = Server::answering(&feed_with_items(5));
    let base = server.url();
    let urls: Vec<String> = (0..10).map(|i| format!("{base}/f{i}.xml")).collect();
    let cache = Shelf::new();
    let http = &server;

    let generous = output_of(
        &fetch_feed_with_deadline(&http, &cache, batch_args(urls.clone()), 4),
    );
    let delivered = generous.feeds.len();
    assert!(
        delivered > 1 && delivered < urls.len(),
        "need a multi-feed page that the deadline still trimmed; expected 2..{}, got \
         {delivered}",
        urls.len()
    );
    let full = estimate_response_tokens(&generous);

    let mut args = batch_args(urls.clone());
    args.max_response_tokens = Some(full / 2);
    let page =
        output_of(&fetch_feed_with_deadline(&http, &cache, args, 4));

    assert!(
        page.total_items > 0,
        "a doubly-bounded page still ships what fits: {page:?}"
    );
    let t = page
        .truncation
        .as_ref()
        .expect("a doubly-bounded page must carry a marker");
    assert_eq!(
        t.feeds_omitted,
        urls.len() - page.feeds.len(),
        "the two sets are disjoint — never tried plus fetched-but-dropped — so every \
         requested feed is either delivered or counted: {t:?}"
    );
    let c = Cursor::decode(
        t.next_cursor
            .as_deref()
            .expect("a trimmed page needs a cursor"),
    )
    .expect("decode the minted cursor");
    assert!(
        c.f < delivered,
        "the BUDGET minted this: its cursor points inside the fetched prefix, while the \
         deadline's would point just past it (feed {delivered})"
    );
    assert!(
        c.n > 0,
        "the budget measured the window it stopped in; the deadline's mint records n: 0"
    );
    assert!(
        t.suggestion
            .as_deref()
            .is_some_and(|s| s.contains("max_response_tokens")),
        "the budget's advice wins — it already names the cursor that recovers both: {:?}",
        t.suggestion
    );

}

#[test]
fn a_continuation_drained_by_a_roll_still_cursors_the_deadlines_feeds() {
    let server = Server::answering(&feed_with_items(0));
    let base = server.url();
    let urls: Vec<String> = (0..10).map(|i| format!("{base}/f{i}.xml")).collect();
    let cache = Shelf::new();
    let http = &server;

    let meta = CacheMeta {
        feed_url: urls[0].clone(),
        etag: None,
        last_modified: None,
        fetched_at: "2020-01-01T00:00:00Z".to_string(),
        content_type: Some("application/rss+xml".to_string()),
    };
    cache
        .put(&meta, feed_with_items(10).as_bytes())
        .expect("seed the resumed feed's window");

    let page1 = output_of(
        &fetch_feed_with_deadline(
            &http,
            &cache,
            batch_args(urls.clone()),
            0,
        ),
    );
    let mut c = Cursor::decode(
        page1
            .truncation
            .and_then(|t| t.next_cursor)
            .as_deref()
            .expect("the expired page hands back a cursor"),
    )
    .expect("decode cursor");
    c.i = 10;
    c.n = 10;

    let mut args = batch_args(urls.clone());
    args.cursor = Some(c.encode());
    let page = output_of(&fetch_feed_with_deadline(&http, &cache, args, 2));

    assert_eq!(
        page.total_items, 0,
        "the drained feed and the itemless ones behind it leave nothing to ship: {page:?}"
    );
    assert!(
        !page.feeds.is_empty() && page.feeds.len() < urls.len(),
        "the resumed feed WAS fetched and the deadline stopped later ones: {} feeds",
        page.feeds.len()
    );
    let t = page
        .truncation
        .as_ref()
        .expect("the feeds the deadline never tried must be reported");
    assert_eq!(
        t.feeds_omitted,
        urls.len() - page.feeds.len(),
        "every requested feed is either delivered or counted: {t:?}"
    );
    assert!(
        t.estimated_tokens.is_some(),
        "this page ships a marker like any other, so it reports its size too"
    );
    let next = Cursor::decode(
        t.next_cursor
            .as_deref()
            .expect("a roll the caller did not cause must not end the loop early"),
    )
    .expect("decode the minted cursor");
    assert_eq!(
        (next.f, next.i, next.n),
        (page.feeds.len(), 0, 0),
        "resume at the first feed the deadline never attempted — the end of the delivered \
         prefix — with no measurement of its window"
    );

}

fn placeholder_feed(url: &str) -> FeedResult {
    FeedResult::error(url, ErrorObj::new("X", "x"))
}

#[test]
fn a_short_feed_list_is_a_prefix_but_a_gap_or_an_overrun_is_not() {
    let urls: Vec<String> = (0..4)
        .map(|i| format!("https://e.example/{i}.xml"))
        .collect();

    assert_eq!(
        first_position_mismatch(&Vec::new(), &urls),
        None,
        "empty is a prefix"
    );
    let short = vec![placeholder_feed(&urls[0]), placeholder_feed(&urls[1])];
    assert_eq!(
        first_position_mismatch(&short, &urls),
        None,
        "the shape a deadline-bounded page has: shorter, but still a prefix"
    );
    let exact: Vec<_> = urls.iter().map(|u| placeholder_feed(u)).collect();
    assert_eq!(first_position_mismatch(&exact, &urls), None);

    let gapped = vec![
        placeholder_feed(&urls[0]),
        placeholder_feed(&urls[2]),
        placeholder_feed(&urls[3]),
    ];
    let (idx, got, want) =
        first_position_mismatch(&gapped, &urls).expect("a gap is not a prefix");
    assert_eq!(
        (idx, got.as_str(), want.as_str()),
        (1, urls[2].as_str(), urls[1].as_str()),
        "the report names the first mismatching index and BOTH urls, which the counts \
         cannot distinguish from a deadline trim"
    );

    let mut over = exact.clone();
    over.push(placeholder_feed(&urls[0]));
    let (idx, _, want) =
        first_position_mismatch(&over, &urls).expect("an overrun is not a prefix");
    assert_eq!(idx, urls.len());
    assert!(
        want.contains("no url requested"),
        "explains the overrun: {want}"
    );
}

#[test]
fn the_first_mismatch_counts_where_there_are_too_many_feeds() {
    let urls = vec!["https://a".to_string(), "https://b".to_string()];
    let feeds = vec![
        placeholder_feed("https://x"),
        placeholder_feed("https://b"),
        placeholder_feed("https://c"),
    ];
    assert_eq!(
        first_position_mismatch(&feeds, &urls),
        Some((0, "https://x".to_string(), "https://a".to_string()))
    );
}

#[test]
fn a_cursor_that_measured_a_window_but_resumes_at_zero_stays_quiet() {
    let server = Server::new();
    let _m = server
        .mock("GET", "/feed.xml")
        .with_status(200)
        .with_body(feed_with_items(10))
        .create();
    let cache = Shelf::new();
    let http = &server;
    let url = format!("{}/feed.xml", server.url());

    let full = full_response_tokens(&http, &cache, fetch_args(url.clone()));
    let mut args = fetch_args(url.clone());
    args.max_response_tokens = Some(full / 2);
    let cursor = cursor_of(&fetch_feed_inner(&http, &cache, args))
        .expect("page 1 must hand back a cursor");
    let mut c = Cursor::decode(&cursor).expect("decode cursor");
    c.i = 0;
    c.n = 10;

    let meta = CacheMeta {
        feed_url: url.clone(),
        etag: None,
        last_modified: None,
        fetched_at: "2020-01-01T00:00:00Z".to_string(),
        content_type: Some("application/rss+xml".to_string()),
    };
    cache
        .put(&meta, feed_with_items(8).as_bytes())
        .expect("shrink the cached body");

    let mut args = fetch_args(url);
    args.cursor = Some(c.encode());
    let page = output_of(&fetch_feed_inner(&http, &cache, args));

    assert!(
        !page
            .warnings
            .iter()
            .any(|w| w.code == "CACHE_WINDOW_ROLLED"),
        "a cursor that drained nothing cannot skip or repeat, so the roll is not reported \
         even though the window really did change: {:?}",
        page.warnings
    );
    assert_eq!(
        page.total_items, 8,
        "the whole (shorter) window still ships from its head: {:?}",
        page.truncation
    );

}

#[test]
fn a_continuation_whose_window_rolled_past_the_cursor_ends_cleanly() {
    let server = Server::new();
    let _m = server
        .mock("GET", "/feed.xml")
        .with_status(200)
        .with_body(feed_with_items(10))
        .create();
    let cache = Shelf::new();
    let http = &server;
    let url = format!("{}/feed.xml", server.url());

    let full = full_response_tokens(&http, &cache, fetch_args(url.clone()));
    let mut args = fetch_args(url.clone());
    args.max_response_tokens = Some(full / 2);
    let cursor = cursor_of(&fetch_feed_inner(&http, &cache, args))
        .expect("page 1 must hand back a cursor");
    let c = Cursor::decode(&cursor).expect("decode cursor");
    assert!(
        c.i > 0,
        "page 1 must have delivered items for the roll to swallow"
    );

    let meta = CacheMeta {
        feed_url: url.clone(),
        etag: None,
        last_modified: None,
        fetched_at: "2020-01-01T00:00:00Z".to_string(),
        content_type: Some("application/rss+xml".to_string()),
    };
    cache
        .put(&meta, feed_with_items(c.i).as_bytes())
        .expect("shrink the cached body");

    let mut args = fetch_args(url);
    args.cursor = Some(cursor);
    args.max_response_tokens = Some(1);
    let page = output_of(&fetch_feed_inner(&http, &cache, args));

    assert_eq!(
        page.total_items, 0,
        "the rolled window has nothing left to ship: {page:?}"
    );
    assert!(
        page.warnings
            .iter()
            .any(|w| w.code == "CACHE_WINDOW_ROLLED"),
        "the warning explaining the empty page must survive: {:?}",
        page.warnings
    );
    assert!(
        page.truncation
            .as_ref()
            .and_then(|t| t.next_cursor.as_ref())
            .is_none(),
        "a page that can never ship an item must not hand back another cursor: {:?}",
        page.truncation
    );

}

#[test]
fn a_cursor_survives_defaults_echoed_back_but_not_a_real_change() {
    let server = Server::new();
    let (http, cache, urls, full) = paging_fixture(&server);

    let mut args = batch_args(urls.clone());
    args.max_response_tokens = Some(full / 2);
    let cursor = cursor_of(&fetch_feed_inner(&http, &cache, args))
        .expect("page 1 must hand back a cursor");

    let mut args = batch_args(urls.clone());
    args.max_response_tokens = Some(full / 2);
    args.limit = Some(MCP_DEFAULT_LIMIT);
    args.content_format = Some("Markdown".to_string());
    args.cursor = Some(cursor.clone());
    let (is_error, payload) = decode(&fetch_feed_inner(&http, &cache, args));
    assert!(
        !is_error,
        "echoing the resolved defaults back must not invalidate the cursor: {payload}"
    );

    let mut args = batch_args(urls);
    args.max_response_tokens = Some(full / 2);
    args.limit = Some(3);
    args.cursor = Some(cursor);
    let (is_error, payload) = decode(&fetch_feed_inner(&http, &cache, args));
    assert!(
        is_error,
        "a different limit is a different request: {payload}"
    );
    assert_eq!(payload["code"], "USAGE_ERROR");

}

#[test]
fn continuation_reuses_the_page_one_since_cutoff() {
    let server = Server::new();
    for path in ["/a.xml", "/b.xml"] {
        server
            .mock("GET", path)
            .with_status(200)
            .with_body(feed_with_dated_items(8, 4))
            .create();
    }
    let cache = Shelf::new();
    let http = &server;
    let urls = vec![
        format!("{}/a.xml", server.url()),
        format!("{}/b.xml", server.url()),
    ];
    let args_for = |cursor: Option<String>, budget: Option<usize>| {
        let mut a = batch_args(urls.clone());
        a.since = Some("7d".to_string());
        a.cursor = cursor;
        a.max_response_tokens = budget;
        a
    };

    let whole = output_of(&fetch_feed_inner(&http, &cache, args_for(None, None)));
    assert_eq!(whole.total_items, 16, "8 fresh items from each of 2 feeds");
    assert!(
        titles(&whole).iter().all(|t| t.starts_with("Fresh")),
        "the 7d cutoff must drop the year-old items: {:?}",
        titles(&whole)
    );
    let full = estimate_response_tokens(&whole);

    let cursor =
        cursor_of(&fetch_feed_inner(&http, &cache, args_for(None, Some(full / 2))))
            .expect("page 1 must hand back a cursor");
    let c1 = Cursor::decode(&cursor).expect("decode cursor");
    let cutoff =
        c1.s.expect("a resolved `since` cutoff must ride in the cursor");
    let expected = (chrono::Utc::now() - chrono::Duration::days(7)).timestamp();
    assert!(
        (cutoff - expected).abs() < 60,
        "the cursor must carry the resolved cutoff ({cutoff} vs ~{expected})"
    );

    let rest = estimate_response_tokens(&output_of(
        &fetch_feed_inner(&http, &cache, args_for(Some(cursor.clone()), None)),
    ));
    let page2 = output_of(
        &fetch_feed_inner(
            &http,
            &cache,
            args_for(Some(cursor.clone()), Some(rest / 2)),
        ),
    );
    assert!(page2.total_items > 0, "the continuation must be accepted");
    assert!(
        titles(&page2).iter().all(|t| t.starts_with("Fresh")),
        "the continuation must apply the cutoff too: {:?}",
        titles(&page2)
    );
    let next = page2
        .truncation
        .and_then(|t| t.next_cursor)
        .expect("a page bounded to half the remainder must hand back a cursor");
    let c2 = Cursor::decode(&next).expect("decode page 2 cursor");
    assert_eq!(
        c2.s,
        Some(cutoff),
        "every page must carry page 1's cutoff, not a freshly resolved one"
    );

    let mut forged = c1;
    forged.s = Some((chrono::Utc::now() - chrono::Duration::days(500)).timestamp());
    let widened = output_of(
        &fetch_feed_inner(&http, &cache, args_for(Some(forged.encode()), None)),
    );
    assert!(
        titles(&widened).iter().any(|t| t.starts_with("Stale")),
        "the page must filter against the cursor's instant, not a freshly resolved one: {:?}",
        titles(&widened)
    );

}

#[test]
fn a_blank_cursor_is_a_page_one_request() {
    let server = Server::new();
    let _m = server
        .mock("GET", "/feed.xml")
        .with_status(200)
        .with_body(feed_with_items(3))
        .create();
    let cache = Shelf::new();
    let http = &server;
    let url = format!("{}/feed.xml", server.url());

    for blank in ["", "   "] {
        let mut args = fetch_args(url.clone());
        args.cursor = Some(blank.to_string());
        let (is_error, payload) = decode(&fetch_feed_inner(&http, &cache, args));
        assert!(
            !is_error,
            "a blank cursor ({blank:?}) must read as 'no cursor': {payload}"
        );
        assert_eq!(payload["total_items"], 3, "and return page 1 in full");
    }

}

#[test]
fn dedupe_reports_by_default_and_drops_on_request() {
    let server = Server::new();
    let (http, cache, urls) = overlapping_feeds(&server, 2);

    let (_, payload) = decode(&fetch_feed_inner(&http, &cache, batch_args(urls.clone())));
    assert_eq!(payload["total_items"], 4, "reporting must not remove items");
    assert_eq!(
        payload["duplicates"].as_array().map(|a| a.len()),
        Some(2),
        "both syndicated entries should be grouped: {payload}"
    );
    let kind = payload["duplicates"][0]["key_kind"].as_str().unwrap_or("");
    assert!(
        kind == "guid" || kind == "url",
        "identical entries at two URLs must group on guid or url, got {kind:?}: {payload}"
    );
    assert_eq!(
        payload["feeds"][1]["item_count"], 2,
        "report must leave per-feed counts untouched"
    );

    let mut args = batch_args(urls.clone());
    args.dedupe = Some("off".to_string());
    let (_, payload) = decode(&fetch_feed_inner(&http, &cache, args));
    assert_eq!(payload["total_items"], 4);
    assert_eq!(
        payload["duplicates"].as_array().map(|a| a.len()),
        Some(0),
        "off must skip detection: {payload}"
    );

    let mut args = batch_args(urls);
    args.dedupe = Some("drop".to_string());
    args.cursor = Some("  ".to_string());
    let (_, payload) = decode(&fetch_feed_inner(&http, &cache, args));
    assert_eq!(
        payload["total_items"], 2,
        "drop must remove the later copies"
    );
    assert_eq!(payload["feeds"][0]["item_count"], 2);
    assert_eq!(payload["feeds"][1]["item_count"], 0);
    assert_eq!(
        payload["duplicates"].as_array().map(|a| a.len()),
        Some(2),
        "the groups stay as the audit trail of what was removed: {payload}"
    );

}

#[test]
fn dedupe_rejects_an_unknown_mode() {
    let cache = Shelf::new();
    let mut args = fetch_args("https://example.com/f.xml".to_string());
    args.dedupe = Some("maybe".to_string());

    let (is_error, payload) = decode(&fetch_feed_inner(&Server::new(), &cache, args));
    assert!(is_error, "an unknown dedupe mode must fail: {payload}");
    assert_eq!(payload["code"], "USAGE_ERROR");
    let message = payload["message"].as_str().unwrap_or_default();
    for mode in ["report", "off", "drop"] {
        assert!(
            message.contains(mode),
            "the message must name '{mode}' so an agent can self-correct: {payload}"
        );
    }
    assert!(
        message.contains("maybe"),
        "the message must echo the rejected value: {payload}"
    );

}

#[test]
fn dedupe_drop_is_rejected_with_a_cursor() {
    let cache = Shelf::new();
    let token = Cursor {
        v: CURSOR_VERSION,
        fp: "0123456789abcdef".to_string(),
        f: 0,
        i: 1,
        n: 3,
        s: None,
    }
    .encode();

    let mut args = fetch_args("https://example.com/f.xml".to_string());
    args.dedupe = Some("drop".to_string());
    args.cursor = Some(token.clone());
    let (is_error, payload) = decode(&fetch_feed_inner(&Server::new(), &cache, args));
    assert!(is_error);
    assert_eq!(payload["code"], "USAGE_ERROR");
    let message = payload["message"].as_str().unwrap_or_default();
    assert!(
        message.contains("dedupe") && message.contains("cursor"),
        "the message must explain the interaction: {payload}"
    );

    let mut args = fetch_args("https://example.com/f.xml".to_string());
    args.cursor = Some(token);
    let (is_error, payload) = decode(&fetch_feed_inner(&Server::new(), &cache, args));
    assert!(is_error);
    assert!(
        !payload["message"]
            .as_str()
            .unwrap_or_default()
            .contains("cannot be combined"),
        "only the drop+cursor guard may report the drop/cursor interaction: {payload}"
    );

}

#[test]
fn a_cursor_is_bound_to_the_dedupe_mode_that_minted_it() {
    let server = Server::new();
    let (http, cache, urls, full) = paging_fixture(&server);

    let mut args = batch_args(urls.clone());
    args.max_response_tokens = Some(full / 2);
    let cursor = cursor_of(&fetch_feed_inner(&http, &cache, args))
        .expect("page 1 must hand back a cursor");

    let mut args = batch_args(urls.clone());
    args.max_response_tokens = Some(full / 2);
    args.dedupe = Some("report".to_string());
    args.cursor = Some(cursor.clone());
    let (is_error, payload) = decode(&fetch_feed_inner(&http, &cache, args));
    assert!(
        !is_error,
        "an explicit `report` is the default spelled out: {payload}"
    );

    let mut args = batch_args(urls);
    args.max_response_tokens = Some(full / 2);
    args.dedupe = Some("off".to_string());
    args.cursor = Some(cursor);
    let (is_error, payload) = decode(&fetch_feed_inner(&http, &cache, args));
    assert!(
        is_error,
        "a different dedupe mode must not resume: {payload}"
    );
    assert_eq!(payload["code"], "USAGE_ERROR");

}

#[test]
fn resolve_urls_requires_exactly_one_of_url_or_urls() {
    let mut args = fetch_args("https://a/f".to_string());
    assert_eq!(
        resolve_urls(&args).unwrap(),
        vec!["https://a/f".to_string()]
    );

    args.url = None;
    args.urls = Some(vec!["https://a/f".into(), "https://b/f".into()]);
    assert_eq!(resolve_urls(&args).unwrap().len(), 2);

    args.url = Some("https://a/f".into());
    assert!(
        resolve_urls(&args).is_err(),
        "both url and urls must be rejected"
    );

    args.url = None;
    args.urls = None;
    assert!(
        resolve_urls(&args).is_err(),
        "neither url nor urls must be rejected"
    );

    args.url = Some("   ".into());
    args.urls = None;
    assert!(
        resolve_urls(&args).is_err(),
        "a whitespace-only url must be rejected"
    );

    args.url = None;
    args.urls = Some(
        (0..MCP_MAX_URLS + 1)
            .map(|i| format!("https://a/{i}"))
            .collect(),
    );
    let err = resolve_urls(&args).unwrap_err();
    assert!(
        err.message().contains(&MCP_MAX_URLS.to_string()),
        "the error should name the cap: {err:?}"
    );
}
