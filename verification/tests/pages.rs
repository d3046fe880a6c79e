use rss_cli::batch::{assemble_prefix_in_request_order, IndexedFetch};
use rss_cli::config::{DedupeMode, FetchParams};
use rss_cli::dedupe::{apply_dedupe, drop_duplicates, find_duplicates};
use rss_cli::error::RssError;
use rss_cli::json::{get, to_pretty, Json};
use rss_cli::model::{
    AppliedFilters, ContentFormat, DuplicateGroup, DuplicateKeyKind, ErrorObj, FeedResult,
    FeedStatus, FetchOutput, IdSource, Item, Warning,
};
use rss_cli::page::{
    enforce_response_budget, estimate_response_tokens, paginate, truncation_marker,
};
use rss_cli::time::Timestamp;
use rss_cli::totals::{item_count, populate_totals, refresh_feed_counts};
use rss_cli::wire::output_value;

fn ok_feed(url: &str) -> (FeedResult, Vec<Warning>, usize) {
    let items = vec![item(false)];
    (
        FeedResult {
            feed_url: url.to_string(),
            status: FeedStatus::Fresh,
            from_cache: false,
            title: Some("f".to_string()),
            site_url: None,
            updated: None,
            item_count: items.len(),
            content_tokens_est_total: 1,
            items,
            error: None,
            cached_at: None,
            cache_age_seconds: None,
        },
        Vec::new(),
        0,
    )
}

#[test]
fn an_out_of_order_gap_discards_every_later_feed_and_its_errors() {
    let urls: Vec<String> = (0..4)
        .map(|i| format!("https://e.example/{i}.xml"))
        .collect();
    let failed = ErrorObj::new("FEED_FETCH_FAILED", "boom");
    let results: Vec<IndexedFetch> = vec![
        (0, Some(ok_feed(&urls[0]))),
        (1, None),
        (2, Some(ok_feed(&urls[2]))),
        (
            3,
            Some((FeedResult::error(&urls[3], failed), Vec::new(), 0)),
        ),
    ];

    let out = assemble_prefix_in_request_order(
        FetchOutput::new("2026-06-01T00:00:00Z".to_string()),
        &FetchParams::default(),
        results,
    );

    assert_eq!(
        out.feeds.len(),
        1,
        "only the prefix before the gap ships: {:?}",
        out.feeds.iter().map(|f| &f.feed_url).collect::<Vec<_>>()
    );
    assert_eq!(out.feeds[0].feed_url, urls[0]);
    assert_eq!(
        out.total_items, 1,
        "totals describe the shipped prefix only"
    );
    assert_eq!(
        out.truncation.as_ref().map(|t| t.feeds_omitted),
        Some(3),
        "the unattempted feed AND the two survivors discarded with it are all owed"
    );
    assert!(
        out.errors.is_empty(),
        "a discarded survivor takes its errors[] entry with it — an error whose feed is \
         absent breaks the feeds[]/errors[] mirror: {:?}",
        out.errors
    );
}

#[test]
fn results_arriving_out_of_order_are_restored_to_request_order() {
    let urls: Vec<String> = (0..3)
        .map(|i| format!("https://e.example/{i}.xml"))
        .collect();
    let results: Vec<IndexedFetch> = vec![
        (2, Some(ok_feed(&urls[2]))),
        (0, Some(ok_feed(&urls[0]))),
        (1, Some(ok_feed(&urls[1]))),
    ];

    let out = assemble_prefix_in_request_order(
        FetchOutput::new("2026-06-01T00:00:00Z".to_string()),
        &FetchParams::default(),
        results,
    );

    let ordered: Vec<&String> = out.feeds.iter().map(|f| &f.feed_url).collect();
    assert_eq!(ordered, urls.iter().collect::<Vec<_>>());
    assert!(
        out.truncation.is_none(),
        "nothing was omitted, so there is no marker to emit"
    );
}

#[test]
fn applied_filters_is_none_when_neither_since_nor_query_supplied() {
    let out = assemble_prefix_in_request_order(
        FetchOutput::new("2026-06-01T00:00:00Z".to_string()),
        &FetchParams::default(),
        vec![(0, Some(ok_feed("https://e.example/0.xml")))],
    );
    assert!(
        out.applied_filters.is_none(),
        "neither filter was supplied, so the marker must stay null: {:?}",
        out.applied_filters
    );
}

#[test]
fn applied_filters_gate_agrees_with_the_filter_on_queries_that_constrain_nothing() {
    for q in ["   ", "-", "\"\""] {
        let params = FetchParams {
            query: Some(q.to_string()),
            ..Default::default()
        };
        let out = assemble_prefix_in_request_order(
            FetchOutput::new("2026-06-01T00:00:00Z".to_string()),
            &params,
            vec![(0, Some(ok_feed("https://e.example/0.xml")))],
        );
        assert!(
            out.applied_filters.is_none(),
            "{q:?} parses to no terms, so no filter ran and the marker must stay null: {:?}",
            out.applied_filters
        );
    }
}

#[test]
fn applied_filters_reports_since_removals_even_without_a_query() {
    let params = FetchParams {
        since: Some(Timestamp { secs: chrono::Utc::now().timestamp(), nanos: 0 }),
        ..Default::default()
    };
    let mut fr = ok_feed("https://e.example/0.xml");
    fr.2 = 3;
    let out = assemble_prefix_in_request_order(
        FetchOutput::new("2026-06-01T00:00:00Z".to_string()),
        &params,
        vec![(0, Some(fr))],
    );
    let applied = out
        .applied_filters
        .expect("since was supplied, so the marker must be present");
    assert!(applied.since.is_some());
    assert!(applied.query.is_none());
    assert_eq!(
        applied.items_filtered_out, 3,
        "since's removals must be counted, not left at 0"
    );
}

#[test]
fn applied_filters_reports_the_query_as_supplied() {
    let params = FetchParams {
        query: Some("rust".to_string()),
        ..Default::default()
    };
    let mut fr = ok_feed("https://e.example/0.xml");
    fr.2 = 2;
    let out = assemble_prefix_in_request_order(
        FetchOutput::new("2026-06-01T00:00:00Z".to_string()),
        &params,
        vec![(0, Some(fr))],
    );
    let applied = out.applied_filters.expect("query was supplied");
    assert!(applied.since.is_none());
    assert_eq!(applied.query.as_deref(), Some("rust"));
    assert_eq!(applied.items_filtered_out, 2);
}

#[test]
fn applied_filters_sums_the_filtered_count_across_every_shipped_feed() {
    let params = FetchParams {
        query: Some("rust".to_string()),
        ..Default::default()
    };
    let mut a = ok_feed("https://e.example/a.xml");
    a.2 = 1;
    let mut b = ok_feed("https://e.example/b.xml");
    b.2 = 4;
    let out = assemble_prefix_in_request_order(
        FetchOutput::new("2026-06-01T00:00:00Z".to_string()),
        &params,
        vec![(0, Some(a)), (1, Some(b))],
    );
    assert_eq!(
        out.applied_filters
            .expect("query supplied")
            .items_filtered_out,
        5
    );
}

fn item(content_truncated: bool) -> Item {
    Item {
        id: "deadbeefdeadbeef".to_string(),
        id_source: IdSource::Link,
        feed_url: "https://example.com/feed.xml".to_string(),
        title: Some("Title".to_string()),
        url: Some("https://example.com/a".to_string()),
        authors: vec![],
        published: Some("2026-01-01T00:00:00Z".to_string()),
        updated: None,
        summary: None,
        content: Some("body".to_string()),
        content_format: ContentFormat::Markdown,
        content_tokens_est: 1,
        content_truncated,
        content_hash: Some("00112233aabbccdd".to_string()),
        categories: vec![],
        enclosures: vec![],
        guid: None,
    }
}

fn output_with(items: Vec<Item>) -> FetchOutput {
    let mut out = FetchOutput::new("2026-06-01T00:00:00Z".to_string());
    let item_count = items.len();
    let content_tokens_est_total = items.iter().map(|i| u64::from(i.content_tokens_est)).sum();
    out.feeds.push(FeedResult {
        feed_url: "https://example.com/feed.xml".to_string(),
        status: FeedStatus::Fresh,
        from_cache: false,
        title: Some("Feed".to_string()),
        site_url: None,
        updated: None,
        item_count,
        content_tokens_est_total,
        items,
        error: None,
        cached_at: None,
        cache_age_seconds: None,
    });
    populate_totals(&mut out);
    out
}

#[test]
fn budget_ok_under_limit() {
    let out = output_with(vec![item(false)]);
    let est = enforce_response_budget(&out, 100_000).expect("under budget");
    assert!(est > 0);
}

#[test]
fn budget_overflow_yields_actionable_error() {
    let out = output_with(vec![item(false), item(false), item(false)]);
    let err = enforce_response_budget(&out, 1).unwrap_err();
    match err {
        RssError::ResponseTooLarge {
            budget_tokens,
            suggested_limit,
            suggested_max_content_chars,
            estimated_tokens,
        } => {
            assert_eq!(budget_tokens, 1);
            assert!(estimated_tokens > 1);
            assert!(suggested_limit >= 1);
            assert!(suggested_max_content_chars >= 200);
        }
        other => panic!("expected ResponseTooLarge, got {other:?}"),
    }
}

#[test]
fn populate_totals_sums_items_and_tokens() {
    let out = output_with(vec![item(false), item(false), item(true)]);
    assert_eq!(out.total_items, 3);
    assert_eq!(out.total_content_tokens_est, 3);
    assert_eq!(out.feeds[0].item_count, 3);
    assert_eq!(out.feeds[0].content_tokens_est_total, 3);
}

#[test]
fn marker_none_when_nothing_bounded() {
    let out = output_with(vec![item(false)]);
    assert!(truncation_marker(&out, None, None).is_none());
    assert!(truncation_marker(&out, Some(25), None).is_none());
}

#[test]
fn marker_reports_applied_limit_and_truncated_count() {
    let out = output_with(vec![item(true), item(false)]);
    let m = truncation_marker(&out, Some(25), Some("hint".to_string())).expect("marker");
    assert_eq!(m.applied_limit, Some(25));
    assert_eq!(m.items_content_truncated, 1);
    assert_eq!(m.items_omitted, 0);
    assert_eq!(m.suggestion.as_deref(), Some("hint"));
}

fn with_second_feed(out: &mut FetchOutput) {
    let second = out.feeds[0].clone();
    out.feeds.push(FeedResult {
        feed_url: "https://example.com/two.xml".to_string(),
        ..second
    });
    populate_totals(out);
}

fn output_with_feeds(counts: &[usize]) -> FetchOutput {
    let mut out = FetchOutput::new("2026-06-01T00:00:00Z".to_string());
    for (i, &n) in counts.iter().enumerate() {
        out.feeds.push(FeedResult {
            feed_url: format!("https://example.com/feed{i}.xml"),
            status: FeedStatus::Fresh,
            from_cache: false,
            title: Some("Feed".to_string()),
            site_url: None,
            updated: None,
            item_count: 0,
            content_tokens_est_total: 0,
            items: (0..n).map(|_| item(false)).collect(),
            error: None,
            cached_at: None,
            cache_age_seconds: None,
        });
    }
    refresh_feed_counts(&mut out);
    out
}

#[test]
fn paginate_returns_everything_when_it_fits() {
    let mut out = output_with(vec![item(false), item(false)]);
    assert!(paginate(&mut out, 100_000).expect("fits").is_none());
    assert_eq!(out.feeds[0].items.len(), 2, "nothing should be shed");
}

#[test]
fn paginate_fills_to_budget_and_reports_where_to_resume() {
    let mut out = output_with(vec![item(false), item(false), item(false), item(false)]);
    let full = estimate_response_tokens(&out);
    let stop = paginate(&mut out, full / 2)
        .expect("not an error")
        .expect("should truncate");

    let kept = out.feeds[0].items.len();
    assert!(kept >= 1, "at least one item must ship");
    assert!(kept < 4, "some items must be shed");
    assert_eq!(stop.feed_idx, 0);
    assert_eq!(
        stop.item_idx, kept,
        "resume exactly after the last shipped item"
    );
    assert_eq!(
        stop.feed_item_count, 4,
        "record the pre-shed count for roll detection"
    );
    assert_eq!(stop.items_omitted, 4 - kept);
    assert!(
        estimate_response_tokens(&out) <= full / 2,
        "the shipped page must actually fit the budget"
    );
    assert_eq!(out.feeds[0].item_count, kept);
    assert_eq!(out.total_items, kept);
}

#[test]
fn paginate_errors_only_when_a_single_item_cannot_fit() {
    let mut out = output_with(vec![item(false)]);
    let err = paginate(&mut out, 1).unwrap_err();
    assert!(
        matches!(err, RssError::ResponseTooLarge { .. }),
        "one oversized item is the only case pagination cannot fix, got {err:?}"
    );
}

#[test]
fn paginate_ships_a_page_that_fits_even_when_a_later_feed_is_dropped() {
    let mut target = output_with_feeds(&[2, 2]);
    target.feeds.truncate(1);
    target.feeds[0].items.truncate(1);
    refresh_feed_counts(&mut target);
    let budget = estimate_response_tokens(&target);

    let mut out = output_with_feeds(&[2, 2]);
    assert!(
        estimate_response_tokens(&out) > budget,
        "the fixture must be over budget for pagination to engage"
    );

    let stop = paginate(&mut out, budget)
        .expect("a page that fits must not be rejected")
        .expect("truncates");
    assert!(item_count(&out) >= 1, "at least one item must ship");
    assert!(
        estimate_response_tokens(&out) <= budget,
        "the shipped page must actually fit the budget"
    );
    assert_eq!(out.feeds.len(), 1, "feed 1 is deferred whole");
    assert_eq!(out.feeds[0].items.len(), 1);
    assert_eq!(stop.feed_idx, 0, "resume inside feed 0");
    assert_eq!(stop.item_idx, 1);
    assert_eq!(stop.feed_item_count, 2);
    assert_eq!(stop.items_omitted, 3);
    assert_eq!(stop.feeds_omitted, 1);
}

#[test]
fn paginate_still_errors_below_the_first_feeds_envelope_and_item() {
    let mut envelope_only = output_with_feeds(&[2, 2]);
    envelope_only.feeds.truncate(1);
    envelope_only.feeds[0].items.clear();
    refresh_feed_counts(&mut envelope_only);
    let envelope_budget = estimate_response_tokens(&envelope_only);

    let mut landing = output_with_feeds(&[2, 2]);
    landing.feeds.truncate(1);
    landing.feeds[0].items.truncate(1);
    refresh_feed_counts(&mut landing);
    let landing_budget = estimate_response_tokens(&landing);

    for budget in [envelope_budget, landing_budget - 1] {
        let mut out = output_with_feeds(&[2, 2]);
        let err = paginate(&mut out, budget).unwrap_err();
        assert_eq!(
            err.code(),
            "RESPONSE_TOO_LARGE",
            "budget {budget} cannot ship a single item, got {err:?}"
        );
    }
}

#[test]
fn paginate_sheds_whole_trailing_feeds() {
    let mut out = output_with(vec![item(false)]);
    with_second_feed(&mut out);

    let mut one_feed_shipped = out.clone();
    one_feed_shipped.feeds.truncate(1);
    refresh_feed_counts(&mut one_feed_shipped);
    let one_feed_budget = estimate_response_tokens(&one_feed_shipped);

    let stop = paginate(&mut out, one_feed_budget)
        .expect("not an error")
        .expect("truncates");
    assert_eq!(out.feeds.len(), 1, "the trailing feed is dropped whole");
    assert_eq!(
        estimate_response_tokens(&out),
        one_feed_budget,
        "the page is exactly the state the budget was measured from"
    );
    assert_eq!(stop.feed_idx, 1, "resume at the dropped feed");
    assert_eq!(stop.item_idx, 0);
    assert_eq!(stop.feeds_omitted, 1);
    assert_eq!(
        stop.feed_item_count, 1,
        "the count describes the resumed feed"
    );
}

#[test]
fn paginate_resume_never_skips_a_feed_the_shed_loop_emptied() {
    let mut out = output_with(vec![item(false), item(false)]);
    with_second_feed(&mut out);

    let mut over_shipped = out.clone();
    over_shipped.feeds[1].items.truncate(1);
    refresh_feed_counts(&mut over_shipped);
    let budget = estimate_response_tokens(&over_shipped) - 1;

    let stop = paginate(&mut out, budget)
        .expect("not an error")
        .expect("truncates");
    assert_eq!(
        out.feeds.len(),
        1,
        "a trailing feed that ships nothing is dropped, not shipped as an empty husk"
    );
    assert_eq!(out.feeds[0].items.len(), 2, "feed 0 ships whole");
    assert_eq!(stop.feed_idx, 1, "resume in the emptied feed, not past it");
    assert_eq!(stop.item_idx, 0);
    assert_eq!(stop.feed_item_count, 2, "the count describes feed 1");
    assert_eq!(stop.items_omitted, 2, "both of feed 1's items are omitted");
    assert_eq!(stop.feeds_omitted, 1);
    assert!(
        estimate_response_tokens(&out) <= budget,
        "the page must fit"
    );
}

#[test]
fn paginate_errors_when_shedding_leaves_nothing_to_ship() {
    let one_item = estimate_response_tokens(&output_with(vec![item(false)]));
    let mut out = output_with(vec![item(false), item(false)]);
    let err = paginate(&mut out, one_item - 1).unwrap_err();
    assert!(
        matches!(err, RssError::ResponseTooLarge { .. }),
        "a page that ships nothing must be an error, got {err:?}"
    );
}

#[test]
fn paginate_errors_when_the_envelope_alone_is_over_budget() {
    let mut empty = FetchOutput::new("2026-06-01T00:00:00Z".to_string());
    let err = paginate(&mut empty, 1).unwrap_err();
    assert!(
        matches!(err, RssError::ResponseTooLarge { .. }),
        "an over-budget envelope is not paginable, got {err:?}"
    );
}

#[test]
fn paginate_errors_when_a_leading_empty_feed_ships_nothing_at_all() {
    let mut out = output_with_feeds(&[0, 1]);
    let err = paginate(&mut out, 1).unwrap_err();
    assert!(
        matches!(err, RssError::ResponseTooLarge { .. }),
        "a page that ships nothing must be an error, got {err:?}"
    );
}

#[test]
fn paginate_errors_when_a_leading_empty_feed_ships_only_its_envelope() {
    let mut envelope_only = output_with_feeds(&[0, 1]);
    envelope_only.feeds.truncate(1);
    refresh_feed_counts(&mut envelope_only);
    let budget = estimate_response_tokens(&envelope_only);

    let mut out = output_with_feeds(&[0, 1]);
    assert!(
        estimate_response_tokens(&out) > budget,
        "the fixture must be over budget for pagination to engage"
    );
    let err = paginate(&mut out, budget).unwrap_err();
    assert!(
        matches!(err, RssError::ResponseTooLarge { .. }),
        "shipping a feed envelope with no items is not progress, got {err:?}"
    );
}

#[test]
fn paginate_resumes_at_a_trailing_empty_feed_when_every_item_shipped() {
    let mut target = output_with_feeds(&[4, 0]);
    target.feeds.truncate(1);
    refresh_feed_counts(&mut target);
    let budget = estimate_response_tokens(&target);

    let mut out = output_with_feeds(&[4, 0]);
    assert!(
        estimate_response_tokens(&out) > budget,
        "the trailing envelope must be what overflows"
    );

    let stop = paginate(&mut out, budget)
        .expect("not an error")
        .expect("truncates");
    assert_eq!(out.feeds.len(), 1, "the trailing feed is dropped");
    assert_eq!(out.feeds[0].items.len(), 4, "every item of feed 0 ships");
    assert_eq!(stop.feed_idx, 1, "resume at the dropped feed");
    assert_eq!(stop.item_idx, 0);
    assert_eq!(
        stop.feed_item_count, 0,
        "that feed held no items when the page was minted"
    );
    assert_eq!(
        stop.items_omitted, 0,
        "only an envelope was deferred, no items"
    );
    assert_eq!(stop.feeds_omitted, 1);
    assert!(
        estimate_response_tokens(&out) <= budget,
        "the trimmed page must actually fit"
    );
}

#[test]
fn paginate_errors_when_only_empty_feed_envelopes_are_over_budget() {
    let mut out = output_with_feeds(&[0, 0]);
    let err = paginate(&mut out, 1).unwrap_err();
    assert!(
        matches!(err, RssError::ResponseTooLarge { .. }),
        "an envelope with no items to shed is not paginable, got {err:?}"
    );
}

#[test]
fn paginate_keeps_a_trailing_feed_that_never_had_items() {
    let mut over_shipped = output_with_feeds(&[2, 0, 2]);
    over_shipped.feeds[2].items.truncate(1);
    refresh_feed_counts(&mut over_shipped);
    let budget = estimate_response_tokens(&over_shipped) - 1;

    let mut out = output_with_feeds(&[2, 0, 2]);
    let stop = paginate(&mut out, budget)
        .expect("not an error")
        .expect("truncates");
    assert_eq!(
        out.feeds.len(),
        2,
        "feed 2 is popped as a husk, feed 1 is not"
    );
    assert_eq!(
        out.feeds[1].feed_url, "https://example.com/feed1.xml",
        "the feed that never had items is retained"
    );
    assert!(out.feeds[1].items.is_empty());
    assert_eq!(out.feeds[0].items.len(), 2, "feed 0 ships whole");
    assert_eq!(stop.feed_idx, 2, "resume in the emptied feed, not past it");
    assert_eq!(stop.item_idx, 0);
    assert_eq!(stop.feed_item_count, 2, "the count describes feed 2");
    assert_eq!(stop.items_omitted, 2);
    assert_eq!(stop.feeds_omitted, 1);
    assert!(
        estimate_response_tokens(&out) <= budget,
        "the page must fit"
    );
}

#[test]
fn paginate_accepts_an_output_exactly_at_budget() {
    let mut out = output_with(vec![item(false), item(false)]);
    let exact = estimate_response_tokens(&out);
    assert!(paginate(&mut out, exact).expect("fits").is_none());
    assert_eq!(out.feeds[0].items.len(), 2);
}

#[test]
fn paginate_charges_applied_filters_against_the_budget() {
    let mut bare = output_with(vec![item(false)]);
    let budget = estimate_response_tokens(&bare);

    bare.applied_filters = Some(AppliedFilters {
        since: None,
        query: Some("a ".repeat(200)),
        items_filtered_out: 3,
    });
    assert!(
        estimate_response_tokens(&bare) > budget,
        "attaching applied_filters must grow the measured payload"
    );

    let err = paginate(&mut bare, budget).unwrap_err();
    assert!(
        matches!(err, RssError::ResponseTooLarge { .. }),
        "the envelope (now including applied_filters) plus the one item must not fit, \
         got {err:?}"
    );
}

fn item_keyed(id: &str, guid: Option<&str>, url: Option<&str>) -> Item {
    Item {
        id: id.to_string(),
        guid: guid.map(|s| s.to_string()),
        url: url.map(|s| s.to_string()),
        ..item(false)
    }
}

fn item_keyless(id: &str) -> Item {
    Item {
        content_hash: None,
        ..item_keyed(id, None, None)
    }
}

fn two_feeds(a: Vec<Item>, b: Vec<Item>) -> FetchOutput {
    let mut out = output_with(a);
    let mut second = out.feeds[0].clone();
    second.feed_url = "https://example.com/two.xml".to_string();
    second.items = b;
    out.feeds.push(second);
    refresh_feed_counts(&mut out);
    out
}

fn n_feeds(item_lists: Vec<Vec<Item>>) -> FetchOutput {
    let mut out = FetchOutput::new("2026-06-01T00:00:00Z".to_string());
    for (i, items) in item_lists.into_iter().enumerate() {
        out.feeds.push(FeedResult {
            feed_url: format!("https://example.com/feed{i}.xml"),
            status: FeedStatus::Fresh,
            from_cache: false,
            title: Some("Feed".to_string()),
            site_url: None,
            updated: None,
            item_count: 0,
            content_tokens_est_total: 0,
            items,
            error: None,
            cached_at: None,
            cache_age_seconds: None,
        });
    }
    refresh_feed_counts(&mut out);
    out
}

#[test]
fn duplicates_match_on_guid_across_feeds() {
    let out = two_feeds(
        vec![item_keyed("aaaa", Some("t3_abc"), Some("https://x/1"))],
        vec![item_keyed("bbbb", Some("t3_abc"), Some("https://x/1"))],
    );
    let groups = find_duplicates(&out);
    assert_eq!(groups.len(), 1);
    assert_eq!(groups[0].key, "t3_abc");
    assert_eq!(groups[0].key_kind, DuplicateKeyKind::Guid);
    assert_eq!(
        groups[0].item_ids,
        vec!["aaaa".to_string(), "bbbb".to_string()]
    );
    assert_eq!(
        groups[0].feed_urls,
        vec![
            "https://example.com/feed.xml".to_string(),
            "https://example.com/two.xml".to_string(),
        ],
        "feed_urls must be the feed each id came from, not the item's own feed_url field"
    );
}

#[test]
fn duplicates_fall_back_to_url_then_content_hash() {
    let by_url = two_feeds(
        vec![item_keyed("aaaa", None, Some("https://x/1"))],
        vec![item_keyed("bbbb", None, Some("https://x/1"))],
    );
    assert_eq!(find_duplicates(&by_url)[0].key_kind, DuplicateKeyKind::Url);

    let by_hash = two_feeds(
        vec![item_keyed("aaaa", None, None)],
        vec![item_keyed("bbbb", None, None)],
    );
    assert_eq!(
        find_duplicates(&by_hash)[0].key_kind,
        DuplicateKeyKind::ContentHash
    );
}

#[test]
fn distinct_items_produce_no_groups() {
    let out = two_feeds(
        vec![item_keyed("aaaa", Some("g1"), Some("https://x/1"))],
        vec![item_keyed("bbbb", Some("g2"), Some("https://x/2"))],
    );
    assert!(find_duplicates(&out).is_empty());
}

#[test]
fn keyless_items_are_never_grouped() {
    let out = two_feeds(vec![item_keyless("aaaa")], vec![item_keyless("bbbb")]);
    assert!(find_duplicates(&out).is_empty());
}

#[test]
fn distinct_key_kinds_do_not_collide_on_equal_strings() {
    let out = two_feeds(
        vec![item_keyed("aaaa", Some("https://x/1"), None)],
        vec![item_keyed("bbbb", None, Some("https://x/1"))],
    );
    assert!(
        find_duplicates(&out).is_empty(),
        "a guid and a url that share the same string must not be treated as the same key"
    );
}

#[test]
fn intra_feed_duplicate_guid_forms_a_group() {
    let out = n_feeds(vec![vec![
        item_keyed("aaaa", Some("dup"), None),
        item_keyed("bbbb", Some("dup"), None),
    ]]);
    let groups = find_duplicates(&out);
    assert_eq!(groups.len(), 1);
    assert_eq!(
        groups[0].item_ids,
        vec!["aaaa".to_string(), "bbbb".to_string()]
    );
    assert_eq!(
        groups[0].feed_urls,
        vec![
            "https://example.com/feed0.xml".to_string(),
            "https://example.com/feed0.xml".to_string(),
        ]
    );
}

#[test]
fn duplicate_group_can_span_three_feeds() {
    let out = n_feeds(vec![
        vec![item_keyed("a1", Some("shared"), None)],
        vec![item_keyed("a2", Some("shared"), None)],
        vec![item_keyed("a3", Some("shared"), None)],
    ]);
    let groups = find_duplicates(&out);
    assert_eq!(groups.len(), 1);
    assert_eq!(
        groups[0].item_ids,
        vec!["a1".to_string(), "a2".to_string(), "a3".to_string()]
    );
    assert_eq!(
        groups[0].feed_urls,
        vec![
            "https://example.com/feed0.xml".to_string(),
            "https://example.com/feed1.xml".to_string(),
            "https://example.com/feed2.xml".to_string(),
        ]
    );
}

#[test]
fn groups_are_ordered_by_first_appearance_not_hash_iteration_order() {
    let out = n_feeds(vec![
        vec![
            item_keyed("a1", Some("gA"), None),
            item_keyed("b1", Some("gB"), None),
            item_keyed("c1", Some("gC"), None),
            item_keyed("d1", Some("gD"), None),
        ],
        vec![
            item_keyed("a2", Some("gA"), None),
            item_keyed("b2", Some("gB"), None),
            item_keyed("c2", Some("gC"), None),
            item_keyed("d2", Some("gD"), None),
        ],
    ]);
    let groups = find_duplicates(&out);
    let keys: Vec<&str> = groups.iter().map(|g| g.key.as_str()).collect();
    assert_eq!(keys, vec!["gA", "gB", "gC", "gD"]);
}

#[test]
fn find_duplicates_does_not_mutate_output() {
    let out = two_feeds(
        vec![item_keyed("aaaa", Some("t3_abc"), None)],
        vec![item_keyed("bbbb", Some("t3_abc"), None)],
    );
    let before = to_pretty(&output_value(&out));
    let _ = find_duplicates(&out);
    let after = to_pretty(&output_value(&out));
    assert_eq!(before, after, "find_duplicates must be read-only");
}

#[test]
fn drop_duplicates_keeps_the_first_and_fixes_counts() {
    let mut out = two_feeds(
        vec![item_keyed("aaaa", Some("t3_abc"), None)],
        vec![item_keyed("bbbb", Some("t3_abc"), None)],
    );
    let groups = find_duplicates(&out);
    drop_duplicates(&mut out, &groups);

    assert_eq!(
        out.feeds[0].items.len(),
        1,
        "the canonical first copy stays"
    );
    assert_eq!(out.feeds[1].items.len(), 0, "the later copy is removed");
    assert_eq!(out.feeds[1].item_count, 0, "per-feed counts must follow");
    assert_eq!(out.total_items, 1);
    assert_eq!(
        out.total_content_tokens_est,
        out.feeds
            .iter()
            .map(|f| f.content_tokens_est_total)
            .sum::<u64>(),
        "top-level and per-feed token totals must stay consistent"
    );
}

#[test]
fn drop_duplicates_with_empty_group_list_is_a_noop() {
    let mut out = two_feeds(
        vec![item_keyed("aaaa", Some("g1"), None)],
        vec![item_keyed("bbbb", Some("g2"), None)],
    );
    let before = to_pretty(&output_value(&out));
    drop_duplicates(&mut out, &vec![]);
    let after = to_pretty(&output_value(&out));
    assert_eq!(before, after, "an empty group list must change nothing");
}

#[test]
fn drop_duplicates_ignores_a_stale_group_without_panicking() {
    let mut out = two_feeds(
        vec![item_keyed("aaaa", Some("g1"), None)],
        vec![item_keyed("bbbb", Some("g2"), None)],
    );
    let stale_group = DuplicateGroup {
        key: "ghost".to_string(),
        key_kind: DuplicateKeyKind::Guid,
        item_ids: vec!["zzzz".to_string(), "yyyy".to_string()],
        feed_urls: vec![
            "https://example.com/gone1.xml".to_string(),
            "https://example.com/gone2.xml".to_string(),
        ],
    };
    drop_duplicates(&mut out, &vec![stale_group]);

    assert_eq!(
        out.total_items, 2,
        "nothing present should have been removed"
    );
    assert_eq!(out.feeds[0].items.len(), 1);
    assert_eq!(out.feeds[1].items.len(), 1);
}

#[test]
fn drop_duplicates_same_id_intra_feed_keeps_one_copy() {
    let out = n_feeds(vec![vec![
        item_keyed("same", Some("dup"), None),
        item_keyed("same", Some("dup"), None),
    ]]);
    let groups = find_duplicates(&out);
    assert_eq!(
        groups[0].item_ids,
        vec!["same".to_string(), "same".to_string()]
    );
    let mut out = out;
    drop_duplicates(&mut out, &groups);
    assert_eq!(out.feeds[0].items.len(), 1, "exactly one copy survives");
    assert_eq!(out.total_items, 1);
}

#[test]
fn drop_duplicates_three_same_id_copies_keeps_exactly_one() {
    let out = n_feeds(vec![vec![
        item_keyed("same", Some("dup"), None),
        item_keyed("same", Some("dup"), None),
        item_keyed("same", Some("dup"), None),
    ]]);
    let groups = find_duplicates(&out);
    assert_eq!(groups[0].item_ids.len(), 3);
    let mut out = out;
    drop_duplicates(&mut out, &groups);
    assert_eq!(out.feeds[0].items.len(), 1, "exactly one copy survives");
    assert_eq!(out.total_items, 1);
}

#[test]
fn drop_duplicates_removes_by_key_not_by_id_when_ids_collide() {
    let out = n_feeds(vec![
        vec![item_keyed("bbbb", Some("shared"), None)],
        vec![
            item_keyed("xxxx", Some("unrelated"), None),
            item_keyed("xxxx", Some("shared"), None),
        ],
    ]);
    let groups = find_duplicates(&out);
    assert_eq!(groups.len(), 1, "only the shared guid groups");
    assert_eq!(groups[0].key, "shared");

    let mut out = out;
    drop_duplicates(&mut out, &groups);
    assert_eq!(out.feeds[0].items.len(), 1, "the canonical copy stays");
    assert_eq!(
        out.feeds[1]
            .items
            .iter()
            .map(|i| i.guid.as_deref().unwrap_or(""))
            .collect::<Vec<_>>(),
        vec!["unrelated"],
        "the duplicate must go and the item no group named must stay — not the reverse"
    );
    assert_eq!(out.total_items, 2);
}

fn overlapping_feeds() -> FetchOutput {
    n_feeds(vec![
        vec![item_keyed("aaaa", Some("shared"), None)],
        vec![
            item_keyed("bbbb", Some("shared"), None),
            item_keyed("cccc", Some("only-here"), None),
        ],
    ])
}

#[test]
fn apply_dedupe_report_groups_without_removing_anything() {
    let mut out = overlapping_feeds();
    apply_dedupe(&mut out, DedupeMode::Report);
    assert_eq!(out.duplicates.len(), 1, "the shared guid groups");
    assert_eq!(out.duplicates[0].key, "shared");
    assert_eq!(out.total_items, 3, "reporting must not remove items");
    assert_eq!(out.feeds[0].item_count, 1);
    assert_eq!(out.feeds[1].item_count, 2, "per-feed counts stay untouched");
}

#[test]
fn apply_dedupe_off_skips_detection_entirely() {
    let mut out = overlapping_feeds();
    apply_dedupe(&mut out, DedupeMode::Off);
    assert!(
        out.duplicates.is_empty(),
        "off must not even report: {:?}",
        out.duplicates
    );
    assert_eq!(out.total_items, 3);

    apply_dedupe(&mut out, DedupeMode::Report);
    assert_eq!(out.duplicates.len(), 1);
    apply_dedupe(&mut out, DedupeMode::Off);
    assert!(
        out.duplicates.is_empty(),
        "off must clear a previous report's groups: {:?}",
        out.duplicates
    );
    assert_eq!(out.total_items, 3, "and still remove nothing");
}

#[test]
fn apply_dedupe_drop_removes_later_copies_and_keeps_the_audit_trail() {
    let mut out = overlapping_feeds();
    apply_dedupe(&mut out, DedupeMode::Drop);
    assert_eq!(out.total_items, 2, "the later copy goes");
    assert_eq!(out.feeds[0].item_count, 1, "the canonical copy stays");
    assert_eq!(
        out.feeds[1]
            .items
            .iter()
            .map(|i| i.id.as_str())
            .collect::<Vec<_>>(),
        vec!["cccc"],
        "only the duplicate is removed from the later feed"
    );
    assert_eq!(out.duplicates.len(), 1);
    assert_eq!(
        out.duplicates[0].item_ids,
        vec!["aaaa".to_string(), "bbbb".to_string()],
        "the group must still name the removed copy, not only the survivor"
    );
}

#[test]
fn apply_dedupe_drop_keeps_derived_counts_consistent() {
    let mut out = overlapping_feeds();
    apply_dedupe(&mut out, DedupeMode::Drop);
    let expected: usize = out.feeds.iter().map(|f| f.items.len()).sum();
    assert_eq!(out.total_items, expected);
    for feed in &out.feeds {
        assert_eq!(feed.item_count, feed.items.len());
        let tokens: u64 = feed
            .items
            .iter()
            .map(|i| u64::from(i.content_tokens_est))
            .sum();
        assert_eq!(feed.content_tokens_est_total, tokens);
    }
    assert_eq!(
        out.total_content_tokens_est,
        out.feeds
            .iter()
            .map(|f| f.content_tokens_est_total)
            .sum::<u64>(),
    );
}

#[test]
fn fresh_fetch_output_serializes_duplicates_as_empty_array_not_omitted() {
    let out = FetchOutput::new("2026-06-01T00:00:00Z".to_string());
    let v = output_value(&out);
    assert!(
        matches!(get(&v, "duplicates"), Some(Json::Arr(a)) if a.is_empty()),
        "duplicates must serialize as [] and never be omitted"
    );
}

#[test]
fn a_page_with_one_more_item_would_not_fit() {
    for budget in (200..2000).step_by(37) {
        let whole = output_with_feeds(&[3, 0, 2, 4]);
        if estimate_response_tokens(&whole) <= budget {
            continue;
        }
        let cut = |n: usize| {
            let mut out = whole.clone();
            let mut left = n;
            let mut feeds = 0;
            for f in out.feeds.iter_mut() {
                if left == 0 {
                    break;
                }
                feeds += 1;
                f.items.truncate(left);
                left -= f.items.len();
            }
            out.feeds.truncate(feeds);
            refresh_feed_counts(&mut out);
            estimate_response_tokens(&out)
        };
        let mut out = whole.clone();
        match paginate(&mut out, budget) {
            Ok(stop) => {
                assert!(estimate_response_tokens(&out) <= budget);
                assert!(stop.is_some_and(|s| s.items_omitted == 0) || cut(item_count(&out) + 1) > budget);
            }
            Err(_) => assert!(cut(1) > budget),
        }
    }
}

#[test]
fn dropping_again_changes_nothing() {
    let mut out = output_with_feeds(&[3, 2]);
    for f in out.feeds.iter_mut() {
        for (k, i) in f.items.iter_mut().enumerate() {
            i.guid = Some(format!("g{}", k % 2));
        }
    }
    let groups = find_duplicates(&out);
    let surplus: usize = groups.iter().map(|g| g.item_ids.len() - 1).sum();
    assert_eq!((groups.len(), surplus), (2, 3));
    drop_duplicates(&mut out, &groups);
    assert_eq!(item_count(&out), 2);
    assert!(find_duplicates(&out).is_empty());
    let once = format!("{out:?}");
    drop_duplicates(&mut out, &groups);
    assert_eq!(format!("{out:?}"), once);
}
