use rss_cli::model::{ContentFormat, IdSource, Item};
use rss_cli::query::{split_terms, Query};

fn haystack_matches(q: &str, text: &str) -> bool {
    Query::parse(q).matches_text(text)
}

fn make_item(title: Option<&str>, summary: Option<&str>, content: Option<&str>) -> Item {
    Item {
        id: "id".into(),
        id_source: IdSource::Hash,
        feed_url: "https://example.com/feed".into(),
        title: title.map(str::to_string),
        url: None,
        authors: Vec::new(),
        published: None,
        updated: None,
        summary: summary.map(str::to_string),
        content: content.map(str::to_string),
        content_format: ContentFormat::Markdown,
        content_tokens_est: 0,
        content_truncated: false,
        content_hash: None,
        categories: Vec::new(),
        enclosures: Vec::new(),
        guid: None,
    }
}

#[test]
fn terms_are_anded_and_case_insensitive() {
    assert!(haystack_matches("rust async", "Rust and ASYNC runtimes"));
    assert!(
        !haystack_matches("rust async", "Rust runtimes"),
        "a missing term fails the AND"
    );
    assert!(haystack_matches("RUST", "rust"));
}

#[test]
fn quoted_phrases_match_as_a_unit() {
    assert!(haystack_matches(
        "\"async runtime\"",
        "a new async runtime lands"
    ));
    assert!(
        !haystack_matches("\"async runtime\"", "async and runtime, separately"),
        "a phrase must match contiguously"
    );
}

#[test]
fn leading_dash_negates() {
    assert!(haystack_matches("rust -python", "rust is nice"));
    assert!(!haystack_matches("rust -python", "rust and python"));
    assert!(
        haystack_matches("-python", "rust only"),
        "negation alone is a valid query"
    );
}

#[test]
fn empty_query_matches_everything() {
    assert!(Query::parse("").is_empty());
    assert!(Query::parse("   ").is_empty());
    assert!(haystack_matches("", "anything at all"));
}

#[test]
fn dash_followed_by_space_is_not_negation() {
    assert!(
        haystack_matches("rust - python", "rust and python"),
        "the lone dash must be discarded, not treated as negating 'python'"
    );
}

#[test]
fn dash_alone_and_empty_phrase_produce_no_terms() {
    assert!(
        Query::parse("-").is_empty(),
        "a bare trailing dash contributes no term"
    );
    assert!(
        Query::parse("\"\"").is_empty(),
        "an empty quoted phrase contributes no term"
    );
}

#[test]
fn non_ascii_terms_are_case_folded_via_unicode_lowercasing() {
    assert!(haystack_matches("ÜBER", "the über cool feature"));
    assert!(haystack_matches("über", "ÜBER MODE"));
}

#[test]
fn punctuation_is_literal_not_a_word_boundary() {
    assert!(
        !haystack_matches("rust,", "rust and go"),
        "the comma is part of the term; it is not stripped"
    );
    assert!(haystack_matches("rust,", "the rust, we love"));
}

#[test]
fn mixed_required_excluded_and_phrase() {
    assert!(haystack_matches(
        "\"breaking news\" -sports",
        "breaking news: markets rally"
    ));
    assert!(!haystack_matches(
        "\"breaking news\" -sports",
        "breaking news: sports rally"
    ));
}

#[test]
fn matches_item_searches_title_summary_and_content() {
    let item = make_item(
        Some("Rust 2.0"),
        Some("a big async release"),
        Some("full changelog here"),
    );
    assert!(Query::parse("rust").matches_item(&item));
    assert!(Query::parse("async").matches_item(&item));
    assert!(Query::parse("changelog").matches_item(&item));
    assert!(!Query::parse("python").matches_item(&item));
}

#[test]
fn matches_item_does_not_let_a_phrase_span_a_field_boundary() {
    let item = make_item(Some("breaking"), Some("news today"), None);
    assert!(
        !Query::parse("\"breaking news\"").matches_item(&item),
        "title and summary are different fields; a phrase must not match across them"
    );
    assert!(
        Query::parse("breaking news").matches_item(&item),
        "an AND across fields is still fine"
    );
}

#[test]
fn empty_and_all_exclusion_queries_agree_on_the_item_path() {
    let item = make_item(Some("Rust 2.0"), Some("async release"), None);
    assert!(
        Query::parse("").matches_item(&item),
        "is_empty() skipping and matches_item matching must agree"
    );
    assert!(Query::parse("   ").matches_item(&item));
    assert!(
        !Query::parse("-async").is_empty(),
        "an all-exclusions query is not empty"
    );
    assert!(!Query::parse("-async").matches_item(&item));
    assert!(
        Query::parse("-python").matches_item(&item),
        "an item lacking every excluded term matches"
    );
}

#[test]
fn a_phrase_containing_a_newline_still_cannot_span_a_field_boundary() {
    let q = Query::parse("\"foo\nbar\"");
    assert!(
        !q.matches_item(&make_item(Some("foo"), Some("bar"), None)),
        "the newline is in the query, not in either field"
    );
    assert!(
        q.matches_item(&make_item(Some("unrelated"), None, Some("foo\nbar"))),
        "but it still matches when the newline is genuinely inside one field"
    );
}

#[test]
fn matches_item_searches_only_the_fields_that_are_present() {
    let item = make_item(Some("title only"), None, None);
    assert!(Query::parse("title").matches_item(&item));
    assert!(!Query::parse("missing").matches_item(&item));
}

#[test]
fn terms_keep_their_order_and_negation() {
    let terms = split_terms("rust -\"big news\" - \"\" go");
    assert_eq!(
        terms,
        vec![
            (false, "rust".to_string()),
            (true, "big news".to_string()),
            (false, "".to_string()),
            (false, "go".to_string()),
        ]
    );
}

#[test]
fn an_unclosed_phrase_runs_to_the_end() {
    assert!(haystack_matches("\"async run", "an async runtime"));
    assert!(!haystack_matches("\"async run", "run async"));
}

#[test]
fn a_required_term_that_is_also_excluded_matches_nothing() {
    assert!(!haystack_matches("rust -rust", "rust"));
    assert!(!haystack_matches("rust -rust", "go"));
}
