use rss_cli::answer::{
    answer_item, discover_summary, drop_orphans, finish_page, no_cursor_reason, skip_delivered,
};
use rss_cli::args::{lenient_size, lenient_urls, FetchFeedArgs, GetItemArgs};
use rss_cli::batch::{exit_code_for, find_item};
use rss_cli::cache::{
    count_feeds, list_records, meta_text, read_meta, summaries_value, Cache, CacheMeta, FoundFile,
};
use rss_cli::cli::{
    collect_opml_urls, exit_code_of, log_level, parse_opml, ContentArg, DiscoverArgs, FeedOutline,
    FetchArgs, FormatArg, ShowArgs,
};
use rss_cli::config::{CachePolicy, DedupeMode, DEFAULT_USER_AGENT};
use rss_cli::content::{cap, estimate_tokens, extract, finish_extraction, strip_tags};
use rss_cli::cursor::{Cursor, CURSOR_VERSION};
use rss_cli::dedupe::{apply_dedupe, dedup_key, find_duplicates};
use rss_cli::discover::extract_feeds;
use rss_cli::error::RssError;
use rss_cli::exit;
use rss_cli::hash::{hash_prefix, hash_text};
use rss_cli::identity::item_id;
use rss_cli::json::{from_text, to_compact, to_pretty, Json};
use rss_cli::link::resolve;
use rss_cli::marker::{
    combined_suggestion, continuation, fetch_summary, join_suggestion, truncation_note,
    DROP_NOT_PAGEABLE_SUGGESTION, NO_CACHE_NOT_PAGEABLE_SUGGESTION, PAGINATION_SUGGESTION,
};
use rss_cli::mcp::{parse_content_format, plan_page, request_fingerprint, resume_from_cursor};
use rss_cli::model::{
    ContentFormat, DuplicateKeyKind, ErrorObj, FeedResult, FeedStatus, FetchOutput, IdSource, Item,
    TruncationInfo, Warning,
};
use rss_cli::output::{render_fetch, OutputFormat};
use rss_cli::page::{estimate_response_tokens, paginate};
use rss_cli::query::Query;
use rss_cli::time::{Duration, Timestamp};
use rss_cli::totals::{fits, item_count, populate_totals, refresh_feed_counts};
use rss_cli::wire::{item_value, output_value};

const NOW: Timestamp = Timestamp { secs: 1_767_225_600, nanos: 0 };

fn item(id: &str, guid: Option<&str>) -> Item {
    Item {
        id: id.to_string(),
        id_source: IdSource::Guid,
        feed_url: "https://f/x".to_string(),
        title: Some(format!("Title {id}")),
        url: None,
        authors: vec![],
        published: None,
        updated: None,
        summary: None,
        content: Some("body".to_string()),
        content_format: ContentFormat::Markdown,
        content_tokens_est: 1,
        content_truncated: false,
        content_hash: None,
        categories: vec![],
        enclosures: vec![],
        guid: guid.map(str::to_string),
    }
}

fn feed(url: &str, items: Vec<Item>) -> FeedResult {
    FeedResult {
        feed_url: url.to_string(),
        status: FeedStatus::Fresh,
        from_cache: false,
        title: Some("Feed".to_string()),
        site_url: None,
        updated: None,
        item_count: 0,
        content_tokens_est_total: 0,
        items,
        error: None,
        cached_at: None,
        cache_age_seconds: None,
    }
}

fn output(feeds: Vec<FeedResult>) -> FetchOutput {
    let mut out = FetchOutput::new("2026-01-01T00:00:00Z".to_string());
    out.feeds = feeds;
    assert!(fits(&out.feeds));
    refresh_feed_counts(&mut out);
    out
}

fn ids(out: &FetchOutput) -> Vec<String> {
    out.feeds.iter().flat_map(|f| f.items.iter().map(|i| i.id.clone())).collect()
}

fn fetch_feed(urls: &[&str]) -> FetchFeedArgs {
    FetchFeedArgs {
        url: None,
        urls: Some(urls.iter().map(|u| u.to_string()).collect()),
        content_format: None,
        since: None,
        query: None,
        dedupe: None,
        limit: None,
        max_content_chars: None,
        max_response_tokens: None,
        cache_policy: None,
        cursor: None,
    }
}

fn fetch_command(urls: &[&str]) -> FetchArgs {
    FetchArgs {
        urls: urls.iter().map(|u| u.to_string()).collect(),
        opml: None,
        input: None,
        format: FormatArg::Json,
        ndjson_records: false,
        content: ContentArg::Markdown,
        limit: None,
        max_content_chars: None,
        since: None,
        concurrency: 8,
        timeout: 30,
        no_cache: false,
        max_age: None,
        refresh: false,
        user_agent: None,
    }
}

#[test]
fn urls_of_all_sources_are_merged_once_each_and_in_order() {
    let args = fetch_command(&["https://a/f", "-", " https://b/f ", "https://a/f"]);
    let opml = r#"<opml version="2.0"><head><title>t</title></head><body>
        <outline text="group"><outline text="c" xmlUrl="https://c/f"/></outline>
        <outline text="a" xmlUrl="https://a/f"/>
        <outline text="d" xmlUrl="https://d/f"/></body></opml>"#;
    let urls = args
        .collect_urls(
            "# a comment\nhttps://s/f\n\n  https://b/f\n",
            Some("https://i/f\r\nhttps://s/f"),
            Some(opml),
        )
        .unwrap();
    assert_eq!(
        urls,
        ["https://a/f", "https://s/f", "https://b/f", "https://i/f", "https://c/f", "https://d/f"]
    );
}

#[test]
fn an_opml_file_that_is_none_is_a_usage_error() {
    let err = fetch_command(&["https://a/f"]).collect_urls("", None, Some("not xml")).unwrap_err();
    assert_eq!(err.code(), "USAGE_ERROR");
    assert!(err.message().contains("invalid OPML: "), "{}", err.message());
}

#[test]
fn outlines_are_walked_from_the_top_down() {
    let outlines = parse_opml(
        r#"<opml version="2.0"><body><outline text="g" xmlUrl="https://g/f">
        <outline text="h" xmlUrl="https://h/f"/></outline><outline text="none"/></body></opml>"#,
    )
    .unwrap();
    assert_eq!(outlines.len(), 2);
    assert_eq!(outlines[0].xml_url.as_deref(), Some("https://g/f"));
    assert_eq!(outlines[0].outlines[0].xml_url.as_deref(), Some("https://h/f"));
    assert!(outlines[1].xml_url.is_none());
    let mut urls = vec!["https://h/f".to_string()];
    collect_opml_urls(&outlines, &mut urls);
    assert_eq!(urls, ["https://h/f", "https://g/f"]);
    let mut none: Vec<String> = vec![];
    collect_opml_urls(&vec![FeedOutline { xml_url: None, outlines: vec![] }], &mut none);
    assert!(none.is_empty());
}

#[test]
fn fetch_arguments_become_parameters() {
    let mut args = fetch_command(&["https://a/f"]);
    args.content = ContentArg::Text;
    args.limit = Some(5);
    args.max_content_chars = Some(9);
    args.since = Some("2d".to_string());
    args.concurrency = 0;
    args.timeout = 7;
    args.user_agent = Some("me".to_string());
    let p = args.params_at(NOW).unwrap();
    assert_eq!(p.content_format, ContentFormat::Text);
    assert_eq!((p.limit, p.max_content_chars), (Some(5), Some(9)));
    assert_eq!(p.since, Some(Timestamp { secs: 1_767_052_800, nanos: 0 }));
    assert_eq!(p.concurrency, 1);
    assert_eq!(p.timeout, Duration::from_secs(7));
    assert_eq!(p.user_agent, "me");
    assert_eq!(p.cache_policy, CachePolicy::Revalidate);
    assert!(p.query.is_none() && p.deadline.is_none());

    args.since = Some("later".to_string());
    let err = args.params_at(NOW).unwrap_err();
    assert!(err.message().contains("--since"), "{}", err.message());
    assert!(args.to_params().is_err());
}

#[test]
fn cache_flags_choose_the_policy() {
    let mut args = fetch_command(&[]);
    args.max_age = Some("15m".to_string());
    assert_eq!(args.cache_policy().unwrap(), CachePolicy::MaxAge(Duration::from_secs(900)));
    args.refresh = true;
    assert_eq!(args.cache_policy().unwrap(), CachePolicy::Revalidate);
    args.no_cache = true;
    assert_eq!(args.cache_policy().unwrap(), CachePolicy::NoCache);
    args.no_cache = false;
    args.refresh = false;
    args.max_age = Some("soon".to_string());
    assert_eq!(args.cache_policy().unwrap_err().code(), "USAGE_ERROR");
}

#[test]
fn a_discovery_and_a_lookup_have_their_own_parameters() {
    let d = DiscoverArgs {
        site_url: "https://a/".to_string(),
        format: FormatArg::Json,
        timeout: 3,
        user_agent: None,
    };
    assert_eq!(d.to_params().timeout, Duration::from_secs(3));
    assert_eq!(d.to_params().user_agent, DEFAULT_USER_AGENT);
    let mut s = ShowArgs {
        feed_url: "https://a/f".to_string(),
        id: "x".to_string(),
        content: ContentArg::Omit,
        max_content_chars: Some(4),
        format: FormatArg::Text,
        refresh: false,
    };
    assert_eq!(s.to_params().cache_policy, CachePolicy::CacheFirst);
    assert_eq!(s.to_params().content_format, ContentFormat::Omit);
    assert!(matches!(s.not_found(), RssError::NotFound(m) if m == "item 'x' not found in https://a/f"));
    s.refresh = true;
    assert_eq!(s.to_params().cache_policy, CachePolicy::Revalidate);
    assert_eq!(OutputFormat::from(s.format), OutputFormat::Text);
    assert_eq!(FormatArg::default(), FormatArg::Json);
    assert_eq!(ContentFormat::from(ContentArg::default()), ContentFormat::Markdown);
}

#[test]
fn failures_and_verbosities_have_their_codes_and_levels() {
    assert_eq!(exit_code_of(&RssError::Usage("u".into())), exit::USAGE);
    assert_eq!(exit_code_of(&RssError::InvalidUrl("u".into())), exit::USAGE);
    assert_eq!(exit_code_of(&RssError::Other("o".into())), exit::UNEXPECTED);
    let levels: Vec<&str> = (0..5).map(log_level).collect();
    assert_eq!(levels, ["warn", "info", "debug", "trace", "trace"]);
}

fn size(raw: &str) -> Result<Option<usize>, String> {
    lenient_size(&from_text(raw).expect("valid JSON"))
}

#[test]
fn sizes_are_read_from_numbers_and_texts() {
    assert_eq!(size("25"), Ok(Some(25)));
    assert_eq!(size("25.0"), Ok(Some(25)));
    assert_eq!(size("2.5e1"), Ok(Some(25)));
    assert_eq!(size("-0.0"), Ok(Some(0)));
    assert_eq!(size("1e300"), Ok(Some(usize::MAX)));
    assert_eq!(size("9007199254740994.0"), Ok(Some(9_007_199_254_740_994)));
    assert_eq!(size("null"), Ok(None));
    assert_eq!(size("\" +25 \""), Ok(Some(25)));
    assert_eq!(size("\"  \""), Ok(None));
    assert_eq!(size("18446744073709551615"), Ok(Some(usize::MAX)));
}

#[test]
fn each_bad_size_says_why() {
    let non_negative = "expected a non-negative integer, got ";
    assert_eq!(size("-5"), Err(format!("{non_negative}-5")));
    assert_eq!(size("2.5"), Err(format!("{non_negative}2.5")));
    assert_eq!(size("1e-3"), Err(format!("{non_negative}0.001")));
    assert_eq!(
        size("\"a\\\"b\\n\""),
        Err("expected a non-negative integer (or its string form), got \"a\\\"b\\n\"".to_string())
    );
    assert_eq!(
        size("[1]"),
        Err("expected an integer or numeric string, got [1]".to_string())
    );
    assert_eq!(
        size("true"),
        Err("expected an integer or numeric string, got true".to_string())
    );
}

fn list(raw: &str) -> Result<Option<Vec<String>>, String> {
    lenient_urls(&from_text(raw).expect("valid JSON"))
}

#[test]
fn each_bad_url_list_says_why() {
    assert_eq!(
        list("[\"https://a\", 2]"),
        Err("expected a string URL in the list, got 2".to_string())
    );
    assert_eq!(
        list("7"),
        Err("expected an array of URLs or a delimited string, got 7".to_string())
    );
    assert_eq!(
        list("\"[1]\""),
        Err("expected a string URL in the list, got 1".to_string())
    );
    assert_eq!(list("\"[not json\""), Ok(Some(vec!["[not json".to_string()])));
    assert_eq!(
        list("\"HTTP://a, https://b\""),
        Ok(Some(vec!["HTTP://a".to_string(), "https://b".to_string()]))
    );
    assert_eq!(list("[\" \", \" https://a \"]"), Ok(Some(vec!["https://a".to_string()])));
}

#[test]
fn arguments_that_are_missing_or_of_another_type_are_refused() {
    let read = |raw: &str| GetItemArgs::from_json(&from_text(raw).expect("valid JSON"));
    assert!(read(r#"{"id":"x"}"#).is_err());
    assert!(read(r#"{"feed_url":"u","id":3}"#).is_err());
    assert!(read(r#"{"feed_url":"u","id":"x"}"#).is_ok());
    let read = |raw: &str| FetchFeedArgs::from_json(&from_text(raw).expect("valid JSON"));
    assert!(read(r#"{"url":1}"#).is_err());
    assert!(read("{}").is_ok());
}

#[test]
fn content_formats_are_read_without_case() {
    assert_eq!(parse_content_format(" Markdown "), Some(ContentFormat::Markdown));
    assert_eq!(parse_content_format("TEXT"), Some(ContentFormat::Text));
    assert_eq!(parse_content_format("html"), Some(ContentFormat::Html));
    assert_eq!(parse_content_format("none"), Some(ContentFormat::Omit));
    assert_eq!(parse_content_format("yaml"), None);
}

#[test]
fn a_request_is_planned_with_its_defaults() {
    let plan = plan_page(&fetch_feed(&["https://a/f"]), Duration::from_secs(25), NOW).unwrap();
    assert_eq!(plan.params.limit, Some(25));
    assert_eq!(plan.budget, 10_000);
    assert_eq!(plan.dedupe, DedupeMode::Report);
    assert_eq!(plan.params.deadline, Some(Duration::from_secs(25)));
    assert_eq!(plan.params.cache_policy, CachePolicy::Revalidate);
    assert!(plan.resume.is_none());
    assert_eq!(plan.fp.len(), 16);
    let again = request_fingerprint(
        &vec!["https://a/f".to_string()],
        ContentFormat::Markdown,
        &None,
        25,
        None,
        &None,
        DedupeMode::Report,
    );
    assert_eq!(plan.fp, again);
}

#[test]
fn a_refused_request_names_its_feed() {
    let mut args = fetch_feed(&["https://a/f"]);
    args.content_format = Some("yaml".to_string());
    let e = plan_page(&args, Duration::from_secs(25), NOW).unwrap_err();
    assert_eq!(e.message, "invalid content_format 'yaml' (expected markdown|text|html|none)");
    assert_eq!(e.feed_url.as_deref(), Some("https://a/f"));
    args.urls = None;
    let e = plan_page(&args, Duration::from_secs(25), NOW).unwrap_err();
    assert!(e.message.contains("missing required argument"), "{}", e.message);
    assert!(e.feed_url.is_none());
}

#[test]
fn a_cursor_is_accepted_by_its_own_request_alone() {
    let plan = plan_page(&fetch_feed(&["https://a/f"]), Duration::from_secs(25), NOW).unwrap();
    let token = Some(continuation(&plan.fp, &plan.params, 0, 3, 9));
    let mut params = plan.params.clone();
    let c = resume_from_cursor(&token, &plan.fp, 1, &mut params).unwrap().unwrap();
    assert_eq!((c.v, c.f, c.i, c.n, c.s), (CURSOR_VERSION, 0, 3, 9, None));
    assert_eq!(params.cache_policy, CachePolicy::CacheFirst);
    assert!(resume_from_cursor(&token, "0123456789abcdef", 1, &mut params).is_err());
    let past = Some(continuation(&plan.fp, &plan.params, 1, 0, 0));
    assert!(resume_from_cursor(&past, &plan.fp, 1, &mut params).is_err());
    assert!(resume_from_cursor(&None, &plan.fp, 1, &mut params).unwrap().is_none());
}

#[test]
fn a_cutoff_rides_in_the_cursor() {
    let mut args = fetch_feed(&["https://a/f"]);
    args.since = Some("7d".to_string());
    let plan = plan_page(&args, Duration::from_secs(25), NOW).unwrap();
    let token = continuation(&plan.fp, &plan.params, 0, 1, 2);
    assert_eq!(Cursor::decode(&token).unwrap().s, Some(1_766_620_800));
    args.cursor = Some(token);
    let later = Timestamp { secs: 1_767_229_200, nanos: 5 };
    let next = plan_page(&args, Duration::from_secs(25), later).unwrap();
    assert_eq!(next.params.since, Some(Timestamp { secs: 1_766_620_800, nanos: 0 }));
}

#[test]
fn advice_is_joined_and_never_lost() {
    assert_eq!(join_suggestion(None, "b"), "b");
    assert_eq!(join_suggestion(Some(""), "b"), "b");
    assert_eq!(join_suggestion(Some("a"), "b"), "a; b");
    assert_eq!(combined_suggestion(Some("a")), format!("a; {PAGINATION_SUGGESTION}"));
}

#[test]
fn two_kinds_of_requests_cannot_be_paged() {
    assert_eq!(
        no_cursor_reason(DedupeMode::Drop, CachePolicy::NoCache),
        Some(DROP_NOT_PAGEABLE_SUGGESTION)
    );
    assert_eq!(
        no_cursor_reason(DedupeMode::Report, CachePolicy::NoCache),
        Some(NO_CACHE_NOT_PAGEABLE_SUGGESTION)
    );
    assert_eq!(no_cursor_reason(DedupeMode::Off, CachePolicy::Revalidate), None);
}

#[test]
fn a_page_is_summed_up_in_a_line() {
    let url = "https://a/f";
    let empty = FetchOutput::new("t".to_string());
    assert_eq!(fetch_summary(&empty, url), "fetch_feed: no result for https://a/f.");
    let one = output(vec![feed(url, vec![item("1", None), item("2", None)])]);
    assert_eq!(
        fetch_summary(&one, url),
        "Fetched 2 item(s) (~2 content tokens) from \"Feed\". Full data in structuredContent."
    );
    let failed = output(vec![FeedResult::error(url, ErrorObj::new("X", "x"))]);
    assert_eq!(
        fetch_summary(&failed, url),
        "fetch_feed: https://a/f returned an error (X); see structuredContent."
    );
    let mut two = output(vec![feed(url, vec![item("1", None)]), failed.feeds[0].clone()]);
    two.errors.push(ErrorObj::new("X", "x"));
    assert_eq!(
        fetch_summary(&two, url),
        "Fetched 1 item(s) (~1 content tokens) from 2 feed(s); 1 feed(s) failed (see \
         structuredContent.errors). Full data in structuredContent."
    );
    assert_eq!(discover_summary(3, "https://a/"), "Discovered 3 feed(s) at https://a/.");
}

#[test]
fn an_item_is_answered_refused_or_not_found() {
    let args = GetItemArgs {
        feed_url: "https://a/f".to_string(),
        id: "7".to_string(),
        max_content_chars: None,
    };
    let (found, summary) = answer_item(&args, Ok(Some(item("7", None)))).unwrap();
    assert_eq!(found.id, "7");
    assert_eq!(summary, "Item 7: \"Title 7\".");
    let e = answer_item(&args, Ok(None)).unwrap_err();
    assert_eq!((e.code.as_str(), e.message.as_str()), (
        "NOT_FOUND",
        "item '7' not found in https://a/f"
    ));
    let mut big = item("7", None);
    big.content = Some("x".repeat(50_000));
    let e = answer_item(&args, Ok(Some(big))).unwrap_err();
    assert_eq!(e.code, "RESPONSE_TOO_LARGE");
    let v: serde_json::Value = serde_json::from_str(&to_pretty(&e.details)).unwrap();
    assert_eq!(v["suggested_max_content_chars"], 28_000);
    assert_eq!(v["suggested_limit"], 1);
    let e = answer_item(&args, Err(RssError::Network("down".into()))).unwrap_err();
    assert_eq!(e.feed_url.as_deref(), Some("https://a/f"));
}

#[test]
fn a_resumed_page_skips_what_was_delivered_and_warns_of_a_roll() {
    let mut out = output(vec![feed("https://a/f", vec![item("1", None), item("2", None)])]);
    let c = Cursor { v: CURSOR_VERSION, fp: "f".repeat(16), f: 0, i: 5, n: 9, s: None };
    assert_eq!(skip_delivered(&mut out, &c), 2);
    assert_eq!(out.total_items, 0);
    assert_eq!(
        out.warnings[0].message,
        "feed now has 2 item(s) but had 9 when the cursor was minted; resuming at index 5 may \
         skip or repeat items"
    );
}

#[test]
fn notes_about_feeds_that_a_page_lacks_are_left_out() {
    let mut out = output(vec![feed("https://a/f", vec![])]);
    let note = |u: Option<&str>| Warning {
        feed_url: u.map(str::to_string),
        code: "C".to_string(),
        message: "m".to_string(),
    };
    out.errors = vec![
        ErrorObj::new("X", "x").with_feed("https://b/f"),
        ErrorObj::new("Y", "y"),
        ErrorObj::new("Z", "z").with_feed("https://a/f"),
    ];
    out.warnings = vec![note(Some("https://b/f")), note(None), note(Some("https://a/f"))];
    drop_orphans(&mut out);
    let codes: Vec<&str> = out.errors.iter().map(|e| e.code.as_str()).collect();
    assert_eq!(codes, ["Y", "Z"]);
    assert_eq!(out.warnings.len(), 2);
}

#[test]
fn pages_cover_everything_once_and_move_forward() {
    let whole = || {
        output(vec![
            feed("https://a/f", (0..7).map(|k| item(&format!("a{k}"), None)).collect()),
            feed("https://b/f", (0..5).map(|k| item(&format!("b{k}"), None)).collect()),
        ])
    };
    let mut args = fetch_feed(&["https://a/f", "https://b/f"]);
    args.max_response_tokens = Some(estimate_response_tokens(&whole()) / 2 + 400);
    let mut got: Vec<String> = Vec::new();
    let mut at = (0, 0);
    loop {
        let plan = plan_page(&args, Duration::from_secs(25), NOW).unwrap();
        let mut out = whole();
        if let Some(c) = &plan.resume {
            assert!((c.f, c.i) > at, "a continuation moves forward");
            at = (c.f, c.i);
            out.feeds.drain(..c.f);
            refresh_feed_counts(&mut out);
        }
        let page = finish_page(out, &plan).expect("a page").output;
        assert!(page.total_items > 0);
        got.extend(ids(&page));
        match page.truncation.and_then(|t| t.next_cursor) {
            Some(token) => args.cursor = Some(token),
            None => break,
        }
    }
    assert!(at > (0, 0), "more than one page was needed");
    assert_eq!(got, ids(&whole()));
}

#[test]
fn a_page_and_its_rest_are_everything() {
    let items: Vec<Item> = (0..6).map(|k| item(&k.to_string(), None)).collect();
    let whole = output(vec![feed("https://a/f", items)]);
    let mut page = whole.clone();
    let budget = estimate_response_tokens(&whole) * 2 / 3;
    let stop = paginate(&mut page, budget).expect("a page").expect("a stop");
    assert!(stop.item_idx > 0 && stop.item_idx < 6);
    assert_eq!(stop.feed_item_count, 6);
    assert_eq!(page.total_items + stop.items_omitted, 6);
    let mut all = ids(&page);
    all.extend(whole.feeds[stop.feed_idx].items[stop.item_idx..].iter().map(|i| i.id.clone()));
    assert_eq!(all, ids(&whole));
}

#[test]
fn collapsing_duplicates_leaves_none() {
    let mut out = output(vec![
        feed("https://a/f", vec![item("1", Some("g")), item("2", Some("h"))]),
        feed("https://b/f", vec![item("3", Some("g")), item("4", Some("g"))]),
    ]);
    let groups = find_duplicates(&out);
    assert_eq!(groups.len(), 1);
    assert_eq!(groups[0].item_ids, ["1", "3", "4"]);
    assert_eq!(groups[0].feed_urls, ["https://a/f", "https://b/f", "https://b/f"]);
    apply_dedupe(&mut out, DedupeMode::Drop);
    assert_eq!(ids(&out), ["1", "2"]);
    assert!(find_duplicates(&out).is_empty());
    assert_eq!(out.duplicates.len(), 1);
    let (key, kind) = dedup_key(&item("1", Some("g"))).unwrap();
    assert_eq!((key.as_str(), kind), ("g", DuplicateKeyKind::Guid));
}

#[test]
fn every_item_is_found_by_each_of_its_keys() {
    let mut a = item("id-a", Some("guid-a"));
    a.url = Some("https://a/1".to_string());
    let items = vec![item("id-b", None), a];
    for key in ["id-a", "guid-a", "https://a/1"] {
        assert_eq!(find_item(items.clone(), key).map(|i| i.id).as_deref(), Some("id-a"));
    }
    assert!(find_item(items, "id-c").is_none());
}

#[test]
fn exit_codes_tell_the_runs_apart() {
    let good = feed("https://a/f", vec![]);
    let bad = FeedResult::error("https://b/f", ErrorObj::new("X", "x"));
    assert_eq!(exit_code_for(&output(vec![])), exit::OK);
    assert_eq!(exit_code_for(&output(vec![good.clone()])), exit::OK);
    assert_eq!(exit_code_for(&output(vec![good, bad.clone()])), exit::PARTIAL);
    assert_eq!(exit_code_for(&output(vec![bad])), exit::ALL_FAILED);
}

#[test]
fn every_item_has_a_line_of_its_own() {
    let mut broken = item("1", None);
    broken.title = Some("two\nlines\r\n".to_string());
    let mut out = output(vec![
        feed("https://a/f", vec![broken, item("2", None)]),
        feed("https://b/f", vec![item("3", None)]),
    ]);
    out.errors.push(ErrorObj::new("X", "first\nsecond"));
    let bare = render_fetch(&out, OutputFormat::Ndjson, false, false);
    assert_eq!(bare.split('\n').count(), 3);
    let records = render_fetch(&out, OutputFormat::Ndjson, false, true);
    assert_eq!(records.split('\n').count(), 5);
    assert!(records.split('\n').all(|line| from_text(line).is_some()));
    assert_eq!(render_fetch(&output(vec![]), OutputFormat::Ndjson, false, false), "");
}

#[test]
fn totals_describe_what_is_there() {
    let mut out = output(vec![feed("https://a/f", vec![item("1", None)])]);
    out.feeds.push(feed("https://b/f", vec![item("2", None), item("3", None)]));
    populate_totals(&mut out);
    assert_eq!((item_count(&out), out.total_items, out.total_content_tokens_est), (3, 3, 3));
    assert_eq!(out.feeds[1].item_count, 0, "the feed's own counts are refreshed separately");
    refresh_feed_counts(&mut out);
    assert_eq!(out.feeds[1].item_count, 2);
    assert_eq!(out.feeds[1].content_tokens_est_total, 2);
}

#[test]
fn no_discovered_address_repeats() {
    let page = r#"<link rel="alternate" type="application/rss+xml" href="/f">
        <link rel="alternate" type="application/atom+xml" href="https://a/f">"#;
    let feeds = extract_feeds(page, "https://a/");
    assert_eq!(feeds.len(), 1);
    assert_eq!((feeds[0].url.as_str(), feeds[0].feed_type.as_str()), ("https://a/f", "rss"));
}

#[test]
fn a_query_without_terms_accepts_everything() {
    let x = item("1", None);
    assert!(Query::parse("  ").matches_item(&x));
    assert!(Query::parse("title body").matches_item(&x));
    assert!(!Query::parse("title -body").matches_item(&x));
}

fn meta() -> CacheMeta {
    CacheMeta {
        feed_url: "https://example.com/feed.xml".to_string(),
        etag: Some("W/\"1\"\n".to_string()),
        last_modified: None,
        fetched_at: "2026-01-01T00:00:00Z".to_string(),
        content_type: Some("text/xml".to_string()),
    }
}

#[test]
fn stored_metadata_reads_back() {
    let text = meta_text(&meta());
    let m = read_meta(text.as_bytes()).expect("intact metadata");
    assert_eq!(m.feed_url, meta().feed_url);
    assert_eq!(m.etag, meta().etag);
    assert_eq!(m.last_modified, None);
    assert_eq!(m.fetched_at, meta().fetched_at);
    assert_eq!(m.content_type, meta().content_type);
    assert!(text.starts_with("{\n  \"feed_url\": \"https://example.com/feed.xml\",\n"));
}

#[test]
fn metadata_that_is_damaged_is_not_read() {
    assert!(read_meta(b"{").is_none());
    assert!(read_meta(b"{\"feed_url\":\"u\"}").is_none());
    assert!(read_meta(b"{\"feed_url\":\"u\",\"fetched_at\":3}").is_none());
    assert!(read_meta(b"{\"feed_url\":\"u\",\"fetched_at\":\"t\",\"etag\":1}").is_none());
    assert!(read_meta(b"{\"feed_url\":\"u\",\"fetched_at\":\"t\"}").is_some());
    assert!(read_meta(b"[\"u\",null,\"l\",\"t\",null]").is_some_and(|m| m.fetched_at == "t"));
    assert!(read_meta(b"[\"u\",null,\"l\",\"t\"]").is_none());
    assert!(read_meta(b"{\"feed_url\":\"u\",\"feed_url\":\"u\",\"fetched_at\":\"t\"}").is_none());
    assert!(read_meta(b"{\"feed_url\":\"u\",\"fetched_at\":\"t\",\"x\":1e999}").is_some());
}

#[test]
fn cache_files_are_named_after_the_hash_of_the_url() {
    let hash = "7a775db75c1d6d17181c9905dcb7bfdc05c44d0d733030eeddf0a24278180e6c";
    let url = "https://example.com/feed.xml";
    let cache = Cache { root: "/var/cache".to_string() };
    assert_eq!(cache.dir(), "/var/cache");
    assert_eq!(Cache::key(url), hash);
    assert_eq!(cache.meta_path(url), format!("/var/cache/{hash}.json"));
    assert_eq!(cache.body_path(url), format!("/var/cache/{hash}.body"));
    assert_eq!(Cache { root: "/c/".to_string() }.body_path(url), format!("/c/{hash}.body"));
}

#[test]
fn the_cache_lists_and_counts_its_feeds() {
    let found = |extension: Option<&str>, bytes: Option<&[u8]>, body_size: Option<u64>| FoundFile {
        extension: extension.map(str::to_string),
        bytes: bytes.map(|b| b.to_vec()),
        body_size,
    };
    let text = meta_text(&meta());
    let files = vec![
        found(Some("body"), None, None),
        found(Some("json"), Some(text.as_bytes()), Some(42)),
        found(Some("json"), Some(b"damaged"), Some(1)),
        found(Some("json"), None, None),
        found(None, Some(text.as_bytes()), None),
    ];
    let records = list_records(&files);
    assert_eq!(records.len(), 1);
    assert_eq!(records[0].feed_url, "https://example.com/feed.xml");
    assert_eq!(records[0].size_bytes, 42);
    assert_eq!(count_feeds(&files), 3);
    let v: serde_json::Value =
        serde_json::from_str(&to_pretty(&summaries_value(&records))).unwrap();
    assert_eq!(v[0]["size_bytes"], 42);
    assert_eq!(v[0]["etag"], "W/\"1\"\n");
}

#[test]
fn ids_are_sixteen_digits_of_the_hash_of_feed_and_key() {
    let (id, source) = item_id("https://f/x", Some("https://e/1"), Some("g-1"), None, None);
    assert_eq!((id.as_str(), source), ("925ec721b903bcef", IdSource::Link));
    let (id, source) = item_id("https://f/x", None, Some("g-1"), Some("T"), None);
    assert_eq!((id.as_str(), source), ("0e8915e5b801443b", IdSource::Guid));
    let (id, source) = item_id("https://f/x", None, None, Some("T"), Some("2026-01-01T00:00:00Z"));
    assert_eq!((id.as_str(), source), ("fdced49ea5e0124f", IdSource::Hash));
}

#[test]
fn an_id_with_a_link_depends_on_the_link_alone() {
    let a = item_id("https://f/x", Some("https://e/1"), Some("g-1"), Some("Old"), None);
    let b = item_id("https://f/x", Some("https://e/1"), Some("g-2"), Some("New"), Some("t"));
    assert_eq!(a, b);
}

#[test]
fn hashes_are_lowercase_hexadecimal() {
    assert_eq!(
        hash_text("abc"),
        "ba7816bf8f01cfea414140de5dae2223b00361a396177a9cb410ff61f20015ad"
    );
    assert_eq!(hash_prefix("abc"), "ba7816bf8f01cfea");
}

#[test]
fn content_is_extracted_in_the_format_asked_for() {
    let html = "<p>Hello <b>world</b> &amp; all</p>";
    assert_eq!(extract(html, ContentFormat::Html), html);
    assert_eq!(extract(html, ContentFormat::Omit), "");
    assert_eq!(extract(html, ContentFormat::Text), "Hello world & all");
    assert_eq!(extract(html, ContentFormat::Markdown), "Hello **world** & all");
    assert_eq!(strip_tags("a<b>c</b>d<e"), "acd");
    assert_eq!(finish_extraction("<p>x</p>", ContentFormat::Text, None), "x");
    assert_eq!(finish_extraction("<p>x</p>", ContentFormat::Text, Some(" y \n".into())), "y");
}

#[test]
fn bodies_are_cut_by_characters_and_marked() {
    assert_eq!(cap("äöü".to_string(), Some(2)), ("äö …[truncated]".to_string(), true));
    assert_eq!(cap("äöü".to_string(), Some(3)), ("äöü".to_string(), false));
    assert_eq!(cap("äöü".to_string(), None), ("äöü".to_string(), false));
    assert_eq!(estimate_tokens(""), 0);
    assert_eq!(estimate_tokens("äöüß"), 1);
    assert_eq!(estimate_tokens("äöüßx"), 2);
}

#[test]
fn links_are_resolved_or_stand_as_they_are() {
    assert_eq!(resolve("https://e.com/a/b", "../c?d#e"), "https://e.com/c?d#e");
    assert_eq!(resolve("https://e.com/a", "HTTPS://X.com"), "https://x.com/");
    assert_eq!(resolve("no base", "/c"), "/c");
}

#[test]
fn json_is_printed_in_order_and_read_back() {
    let j = Json::Obj(vec![
        ("b".to_string(), Json::Arr(vec![Json::UInt(1), Json::Null])),
        ("a".to_string(), Json::Str("x\"\n".to_string())),
    ]);
    assert_eq!(to_compact(&j), "{\"b\":[1,null],\"a\":\"x\\\"\\n\"}");
    assert_eq!(to_pretty(&j), "{\n  \"b\": [\n    1,\n    null\n  ],\n  \"a\": \"x\\\"\\n\"\n}");
    assert_eq!(to_compact(&from_text(&to_pretty(&j)).unwrap()), to_compact(&j));
    assert!(from_text("{").is_none());
    assert_eq!(to_compact(&from_text("[-1, 1.50, 18446744073709551616]").unwrap()),
        "[-1,1.5,1.8446744073709552e+19]");
}

#[test]
fn a_repeated_member_takes_the_place_of_the_first() {
    let j = Json::Obj(vec![
        ("a".to_string(), Json::UInt(1)),
        ("b".to_string(), Json::Null),
        ("a".to_string(), Json::Real("2.50".to_string(), 0)),
        ("c".to_string(), Json::Real("no number".to_string(), 0)),
    ]);
    assert_eq!(to_compact(&j), "{\"a\":2.5,\"b\":null,\"c\":null}");
}

/// How many characters the names and values of a record take up.
fn record_width(members: &[(&str, &str)]) -> usize {
    members.iter().map(|(name, value)| name.chars().count() + 2 + value.chars().count()).sum()
}

#[test]
fn a_record_is_as_wide_as_its_layout_makes_it() {
    let text = "q\" b\\ n\n t\t r\r f\u{c} b\u{8} c\u{1} d\u{7f} \u{e9}\u{1f600}";
    let printed = "\"q\\\" b\\\\ n\\n t\\t r\\r f\\f b\\b c\\u0001 d\u{7f} \u{e9}\u{1f600}\"";
    let record = || {
        Json::Obj(vec![
            ("text".to_string(), Json::Str(text.to_string())),
            ("low".to_string(), Json::Int(i64::MIN)),
            ("high".to_string(), Json::UInt(u64::MAX)),
            ("none".to_string(), Json::Null),
            ("yes".to_string(), Json::Bool(true)),
            ("no".to_string(), Json::Bool(false)),
        ])
    };
    let width = record_width(&[
        ("text", printed),
        ("low", "-9223372036854775808"),
        ("high", "18446744073709551615"),
        ("none", "null"),
        ("yes", "true"),
        ("no", "false"),
    ]);
    let long = |j: &Json| to_pretty(j).chars().count();
    assert_eq!(long(&record()), width + 6 * 6 + 2);
    assert_eq!(to_compact(&record()).chars().count(), width + 2 * 6 + 1);
    let holder = |v: Json| {
        Json::Obj(vec![
            ("list".to_string(), Json::Arr(vec![])),
            ("slot".to_string(), v),
            ("more".to_string(), Json::Arr(vec![Json::UInt(1), Json::Obj(vec![])])),
        ])
    };
    assert_eq!(
        long(&holder(record())) - long(&holder(Json::Null)),
        width + 6 * 6 + 2 + 2 * 7 - 4
    );
    let thin = |n: u64| {
        long(&Json::Obj(vec![("list".to_string(), Json::Arr((0..n).map(Json::UInt).collect()))]))
    };
    assert!((0..9).all(|n| thin(n) < thin(n + 1)));
}

#[test]
fn a_token_has_four_characters_for_three_bytes() {
    for n in [0usize, 9, 10, 1000] {
        let c = Cursor {
            v: CURSOR_VERSION,
            fp: "0123456789abcdef".to_string(),
            f: 1,
            i: n,
            n: 7,
            s: None,
        };
        let digits = n.to_string().len();
        let width = 19 + 1 + 18 + 1 + digits + 1 + 4;
        assert_eq!(c.encode().len(), (4 * (width + 13) + 2) / 3);
    }
}

#[test]
fn what_goes_out_keeps_within_its_budget() {
    let cut = |mut i: Item| {
        i.content_truncated = true;
        i
    };
    let whole = |late: usize| {
        let mut out = output(vec![
            feed("https://a/f", (0..9).map(|k| cut(item(&format!("a{k}"), None))).collect()),
            feed("https://b/f", (0..9).map(|k| item(&format!("b{k}"), None)).collect()),
        ]);
        for url in ["https://a/f", "https://b/f"] {
            out.warnings.push(Warning {
                feed_url: Some(url.to_string()),
                code: "W".to_string(),
                message: "m".to_string(),
            });
        }
        if late > 0 {
            out.truncation = Some(TruncationInfo {
                applied_limit: None,
                items_content_truncated: 0,
                items_omitted: 0,
                feeds_omitted: late,
                next_cursor: None,
                estimated_tokens: None,
                suggestion: Some(format!(
                    "{late} feed(s) were not fetched before the batch deadline; request them separately, or pass truncation.next_cursor back as `cursor` if one is present"
                )),
            });
        }
        out
    };
    let mut pages = 0;
    for (dedupe, policy) in [(None, None), (Some("drop"), None), (None, Some("no-cache"))] {
        for late in [0, 1] {
            for budget in (0..4000).step_by(37) {
                let mut args = fetch_feed(&["https://a/f", "https://b/f", "https://c/f"]);
                args.max_response_tokens = Some(budget);
                args.dedupe = dedupe.map(str::to_string);
                args.cache_policy = policy.map(str::to_string);
                let plan = plan_page(&args, Duration::from_secs(25), NOW).unwrap();
                if let Ok(ans) = finish_page(whole(late), &plan) {
                    pages += 1;
                    let notes = truncation_note(&ans.output).chars().count().div_ceil(4);
                    assert!(estimate_response_tokens(&ans.output) + notes <= budget);
                }
            }
        }
    }
    assert!(pages > 300, "most budgets allow a page: {pages}");
}

#[test]
fn what_an_item_lacks_is_null() {
    let names = |j: &Json| match j {
        Json::Obj(f) => f.iter().map(|m| m.0.clone()).collect::<Vec<String>>(),
        _ => vec![],
    };
    let full = item("a", Some("g"));
    let mut bare = item("b", None);
    bare.title = None;
    bare.content = None;
    assert_eq!(names(&item_value(&full)), names(&item_value(&bare)));
    let text = to_compact(&item_value(&bare));
    for name in ["title", "url", "published", "updated", "summary", "content", "content_hash", "guid"] {
        assert!(text.contains(&format!("\"{name}\":null")), "{name} must be null: {text}");
    }
    let empty = output(vec![]);
    let filled = output(vec![feed("https://a/f", vec![full])]);
    assert_eq!(names(&output_value(&empty)), names(&output_value(&filled)));
    assert!(to_compact(&output_value(&empty)).contains("\"truncation\":null"));
}
