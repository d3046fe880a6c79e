//! What a batch promises: what each feed's result says, how results are put together, what errors say,
//! and how counts add up.

use vstd::prelude::*;

use crate::batch::{
    answers_to, constrains, exit_code, failed_count, failures, feeds_of, filtered_total, first_answer,
    gathered, is_assembled, is_batch, is_failed_feed, is_feed_result, is_filter_marker, outcome_at, prefix,
    Fetched, IndexedFetch,
};
use crate::cache::{feed_files, is_record, is_summary_of, meta_json, path_in, CacheListItem, CacheMeta, FoundFile};
use crate::config::FetchParams;
use crate::error::RssError;
use crate::exit;
use crate::fetch::RawFeed;
use crate::json::JsonView;
use crate::model::{AppliedFilters, FeedResult, FeedStatus, FetchOutput, Item, Warning};
use crate::parse::ParsedFeed;
use crate::query::{lowered_terms, raw_terms};
use crate::text::{decimal, lowered};
use crate::time::Timestamp;
use crate::totals::{item_total, token_total, tokens_sum};
use crate::wire_laws::{holds, opt_text};

verus! {

/// A feed's result is what was served and what it parsed to: its items in their order with their counts,
/// the feed's own title, link and time, and whether and when it came from the cache.
pub proof fn law_a_result_is_what_was_served(
    f: Fetched,
    raw: RawFeed,
    parsed: ParsedFeed,
    url: Seq<char>,
    now: Timestamp,
)
    requires
        is_feed_result(f, raw, parsed, url, now),
    ensures
        f.0.feed_url@ == url,
        f.0.items == parsed.items,
        f.0.item_count == parsed.items@.len(),
        f.0.content_tokens_est_total == tokens_sum(parsed.items@),
        f.0.title == parsed.title && f.0.site_url == parsed.site_url && f.0.updated == parsed.updated,
        f.0.from_cache == raw.from_cache && f.0.cached_at == raw.cached_at && f.0.error is None,
        f.2 == parsed.items_filtered_out,
        f.0.status == FeedStatus::Stale <==> raw.stale_reason is Some,
        f.0.status == FeedStatus::NotModified <==> raw.stale_reason is None && raw.not_modified,
        f.0.status == FeedStatus::Fresh <==> raw.stale_reason is None && !raw.not_modified,
{
}

/// A copy's age is the whole seconds since it was written, and none where it was not from the cache or
/// does not say when.
pub proof fn law_an_age_is_whole_seconds(
    f: Fetched,
    raw: RawFeed,
    parsed: ParsedFeed,
    url: Seq<char>,
    now: Timestamp,
)
    requires
        is_feed_result(f, raw, parsed, url, now),
        now.nanos < 1_000_000_000,
    ensures
        raw.cached_at is None ==> f.0.cache_age_seconds is None,
        raw.cached_at matches Some(c) ==> (crate::time::rfc3339_instant(c@) is None
            ==> f.0.cache_age_seconds is None),
        raw.cached_at matches Some(c) ==> (crate::time::rfc3339_instant(c@) matches Some(t) ==> (t.nanos
            < 1_000_000_000 ==> (f.0.cache_age_seconds matches Some(n) && ({
            let passed = (now.secs * 1_000_000_000 + now.nanos) - (t.secs * 1_000_000_000 + t.nanos);
            &&& passed < 0 ==> n == 0
            &&& passed >= 0 ==> n * 1_000_000_000 <= passed < (n + 1) * 1_000_000_000
        })))),
{
    if let Some(c) = raw.cached_at {
        if let Some(t) = crate::time::rfc3339_instant(c@) {
            if t.nanos < 1_000_000_000 {
                crate::content_laws::law_time_passes_in_nanoseconds(now, t);
            }
        }
    }
}

/// The warnings of a result are those of the parse and, where an old copy was served, one that says why.
pub proof fn law_a_stale_copy_is_owned_up_to(
    f: Fetched,
    raw: RawFeed,
    parsed: ParsedFeed,
    url: Seq<char>,
    now: Timestamp,
)
    requires
        is_feed_result(f, raw, parsed, url, now),
    ensures
        raw.stale_reason is None ==> f.1@.len() == parsed.warnings@.len(),
        raw.stale_reason is Some ==> f.1@.len() == parsed.warnings@.len() + 1,
        forall|k: int|
            0 <= k < parsed.warnings@.len() ==> crate::parse::warning_view(#[trigger] f.1@[k])
                == crate::parse::warning_view(parsed.warnings@[k]),
        raw.stale_reason matches Some(why) ==> ({
            let w = f.1@.last();
            &&& w.feed_url.deep_view() == Some(url)
            &&& w.code@ == "SERVED_STALE"@
            &&& crate::query_laws::has_within(w.message@, why@)
        }),
{
    let v = f.1@.map_values(|w: Warning| crate::parse::warning_view(w));
    let p = parsed.warnings@.map_values(|w: Warning| crate::parse::warning_view(w));
    let extra = crate::batch::stale_warnings(raw.stale_reason.deep_view(), url, f.0.cache_age_seconds);
    assert(v == p + extra);
    assert(v.len() == f.1@.len() && p.len() == parsed.warnings@.len());
    assert forall|k: int| 0 <= k < parsed.warnings@.len() implies crate::parse::warning_view(
        #[trigger] f.1@[k],
    ) == crate::parse::warning_view(parsed.warnings@[k]) by {
        assert(v[k] == p[k]);
    }
    if let Some(why) = raw.stale_reason {
        let w = f.1@.last();
        assert(v[v.len() - 1] == crate::parse::warning_view(w));
        assert(v[v.len() - 1] == extra[0]);
        let x = "origin refused revalidation ("@;
        let y = "); served the cached copy, "@ + crate::batch::age_text(f.0.cache_age_seconds) + " old"@;
        assert(w.message@ =~= x + why@ + y);
    }
}

/// A feed that failed has nothing but its address and its error, which says what happened, for which feed.
pub proof fn law_a_failed_feed_carries_its_error(f: FeedResult, e: RssError, url: Seq<char>)
    requires
        is_failed_feed(f, e, url),
    ensures
        f.feed_url@ == url,
        f.status == FeedStatus::Error,
        f.items@.len() == 0 && f.item_count == 0 && f.content_tokens_est_total == 0,
        !f.from_cache && f.title is None && f.site_url is None && f.updated is None && f.cached_at is None
            && f.cache_age_seconds is None,
        f.error matches Some(o) && o.feed_url.deep_view() == Some(url) && o.code@ == e.code_text()
            && o.message@ == e.message_text() && o.details@ == e.details(),
{
}

/// Counts and lists add up: those of feeds and others are those of the first and those of the others, and
/// those of one feed are its own.
pub proof fn law_counts_add_up(a: Seq<FeedResult>, b: Seq<FeedResult>, f: FeedResult)
    ensures
        item_total(a + b) == item_total(a) + item_total(b),
        token_total(a + b) == token_total(a) + token_total(b),
        failures(a + b) == failures(a) + failures(b),
        failed_count(a + b) == failed_count(a) + failed_count(b),
        item_total(seq![f]) == f.items@.len(),
        token_total(seq![f]) == tokens_sum(f.items@),
        f.error is None ==> failures(seq![f]).len() == 0,
        f.error matches Some(e) ==> failures(seq![f]) == seq![e],
        failed_count(seq![f]) == (if f.status == FeedStatus::Error {
            1nat
        } else {
            0nat
        }),
        item_total(Seq::empty()) == 0 && token_total(Seq::empty()) == 0 && failed_count(Seq::empty()) == 0,
    decreases b.len(),
{
    reveal_with_fuel(item_total, 2);
    reveal_with_fuel(token_total, 2);
    reveal_with_fuel(failures, 2);
    reveal_with_fuel(failed_count, 2);
    assert(seq![f].drop_last() =~= Seq::empty());
    assert(failures(seq![f]) =~= crate::batch::error_list(f.error));
    if b.len() == 0 {
        assert(a + b =~= a);
        assert(failures(a) + failures(b) =~= failures(a));
    } else {
        law_counts_add_up(a, b.drop_last(), f);
        assert((a + b).drop_last() =~= a + b.drop_last());
        assert((a + b).last() == b.last());
        assert(failures(a + b) =~= failures(a) + failures(b));
    }
}

/// Token estimates add up item by item.
pub proof fn law_estimates_add_up(a: Seq<Item>, b: Seq<Item>, i: Item)
    ensures
        tokens_sum(a + b) == tokens_sum(a) + tokens_sum(b),
        tokens_sum(seq![i]) == i.content_tokens_est,
        tokens_sum(Seq::empty()) == 0,
    decreases b.len(),
{
    reveal_with_fuel(tokens_sum, 2);
    assert(seq![i].drop_last() =~= Seq::empty());
    if b.len() == 0 {
        assert(a + b =~= a);
    } else {
        law_estimates_add_up(a, b.drop_last(), i);
        assert((a + b).drop_last() =~= a + b.drop_last());
    }
}

/// Warnings and filtered counts of outcomes add up, in order.
pub proof fn law_outcomes_add_up(a: Seq<Fetched>, b: Seq<Fetched>, f: Fetched)
    ensures
        gathered(a + b) == gathered(a) + gathered(b),
        filtered_total(a + b) == filtered_total(a) + filtered_total(b),
        gathered(seq![f]) == f.1@,
        filtered_total(seq![f]) == f.2,
    decreases b.len(),
{
    reveal_with_fuel(gathered, 2);
    reveal_with_fuel(filtered_total, 2);
    assert(seq![f].drop_last() =~= Seq::empty());
    assert(gathered(seq![f]) =~= f.1@);
    if b.len() == 0 {
        assert(a + b =~= a);
        assert(gathered(a) + gathered(b) =~= gathered(a));
    } else {
        law_outcomes_add_up(a, b.drop_last(), f);
        assert((a + b).drop_last() =~= a + b.drop_last());
        assert((a + b).last() == b.last());
        assert(gathered(a + b) =~= gathered(a) + gathered(b));
    }
}

/// A batch is put together from the outcomes up to the first feed that was not attempted, in the order of
/// the request: their feeds, their errors, their warnings, the totals of what is shipped, and how many
/// feeds were left out.
pub proof fn law_a_batch_is_put_together_in_order(
    r: FetchOutput,
    start: FetchOutput,
    params: FetchParams,
    results: Seq<IndexedFetch>,
    n: int,
)
    requires
        is_batch(results),
        is_assembled(r, start, params, results),
        start.feeds@.len() == 0 && start.errors@.len() == 0 && start.warnings@.len() == 0
            && start.truncation is None,
        0 <= n <= results.len(),
        forall|i: int| 0 <= i < n ==> (#[trigger] outcome_at(results, i)) is Some,
        n < results.len() ==> outcome_at(results, n) is None,
    ensures
        r.feeds@.len() == n,
        forall|i: int| 0 <= i < n ==> #[trigger] r.feeds@[i] == outcome_at(results, i)->Some_0.0,
        r.total_items == item_total(r.feeds@),
        r.total_content_tokens_est == token_total(r.feeds@),
        r.errors@.len() == failures(r.feeds@).len(),
        forall|k: int|
            0 <= k < r.errors@.len() ==> (#[trigger] r.errors@[k]).feed_url.deep_view() == failures(
                r.feeds@,
            )[k].feed_url.deep_view() && r.errors@[k].code@ == failures(r.feeds@)[k].code@
                && r.errors@[k].message@ == failures(r.feeds@)[k].message@ && r.errors@[k].details@
                == failures(r.feeds@)[k].details@,
        r.warnings@ == gathered(prefix(results, n)),
        r.fetched_at == start.fetched_at && r.schema_version == start.schema_version && r.duplicates
            == start.duplicates,
        n == results.len() ==> r.truncation is None,
        n < results.len() ==> (r.truncation matches Some(t) && t.feeds_omitted == results.len() - n
            && t.applied_limit == params.limit && t.items_omitted == 0 && t.items_content_truncated == 0
            && t.next_cursor is None && t.estimated_tokens is None && t.suggestion is Some
            && crate::query_laws::has_within(t.suggestion->Some_0@, decimal((results.len() - n) as nat))),
        is_filter_marker(r.applied_filters, params, filtered_total(prefix(results, n)) as int),
{
    lemma_attempted_is(results, 0, n);
    let shipped = prefix(results, n);
    assert(feeds_of(shipped).len() == n);
    assert(r.feeds@ =~= feeds_of(shipped));
    assert(start.errors@ + failures(feeds_of(shipped)) =~= failures(feeds_of(shipped)));
    assert(start.warnings@ + gathered(shipped) =~= gathered(shipped));
    if n < results.len() {
        let t = r.truncation->Some_0;
        let d = decimal((results.len() - n) as nat);
        let y =
            " feed(s) were not fetched before the batch deadline; request them separately, or pass truncation.next_cursor back as `cursor` if one is present"@;
        assert(t.suggestion->Some_0@ =~= Seq::<char>::empty() + d + y);
    }
}

proof fn lemma_attempted_is(results: Seq<IndexedFetch>, i: int, n: int)
    requires
        0 <= i <= n <= results.len(),
        forall|k: int| i <= k < n ==> (#[trigger] outcome_at(results, k)) is Some,
        n < results.len() ==> outcome_at(results, n) is None,
    ensures
        crate::batch::attempted_from(results, i) == n,
    decreases n - i,
{
    if i < n {
        assert(outcome_at(results, i) is Some);
        lemma_attempted_is(results, i + 1, n);
    }
}

/// The outcome of the URL at a position is the one that bears its number, in whatever order they came in.
pub proof fn law_outcomes_are_found_by_their_number(results: Seq<IndexedFetch>, k: int)
    requires
        is_batch(results),
        0 <= k < results.len(),
    ensures
        outcome_at(results, results[k].0 as int) == results[k].1,
{
    let i = results[k].0 as int;
    let j = choose|j: int| 0 <= j < results.len() && (#[trigger] results[j]).0 == i;
    if j < k {
        assert(results[j].0 != results[k].0);
    }
    if k < j {
        assert(results[k].0 != results[j].0);
    }
}

/// What filtering ran is reported exactly where there was any to run: a start of the window, or a query
/// that has a term.
pub proof fn law_filters_are_reported_where_they_ran(
    m: Option<AppliedFilters>,
    params: FetchParams,
    filtered: int,
)
    requires
        is_filter_marker(m, params, filtered),
    ensures
        m is Some <==> params.since is Some || (params.query matches Some(q) && exists|i: int|
            0 <= i < raw_terms(q@).len() && lowered((#[trigger] raw_terms(q@)[i]).1).len() > 0),
        m matches Some(f) ==> f.items_filtered_out == filtered && f.query.deep_view()
            == params.query.deep_view() && (params.since is None ==> f.since is None) && (params.since
            matches Some(t) ==> f.since.deep_view() == Some(crate::time::rfc3339_text(t))),
{
    if let Some(q) = params.query {
        let terms = raw_terms(q@);
        crate::query_laws::law_every_term_takes_part(terms);
        if constrains(params.query.deep_view()) {
            let n = lowered_terms(terms, true).len() > 0;
            assert(crate::query_laws::is_among(terms, n, lowered_terms(terms, n)[0]));
            lemma_filled(terms, n, 0);
        }
    }
}

proof fn lemma_filled(terms: Seq<(bool, Seq<char>)>, n: bool, k: int)
    requires
        0 <= k < lowered_terms(terms, n).len(),
    ensures
        exists|i: int| 0 <= i < terms.len() && lowered((#[trigger] terms[i]).1).len() > 0,
    decreases terms.len(),
{
    if terms.len() > 0 {
        let r = terms.drop_last();
        if lowered_terms(r, n).len() > 0 {
            lemma_filled(r, n, 0);
            let i = choose|i: int| 0 <= i < r.len() && lowered((#[trigger] r[i]).1).len() > 0;
            assert(terms[i] == r[i]);
        } else {
            assert(terms[terms.len() - 1] == terms.last());
        }
    }
}

/// An item is found by a key exactly when one has it for its id, its guid or its link, and it is the first
/// that has.
pub proof fn law_what_is_found_is_the_first_that_answers(items: Seq<Item>, key: Seq<char>)
    ensures
        first_answer(items, key) is None <==> forall|k: int|
            0 <= k < items.len() ==> (#[trigger] items[k]).id@ != key && items[k].guid.deep_view() != Some(key)
                && items[k].url.deep_view() != Some(key),
        first_answer(items, key) matches Some(x) ==> x.id@ == key || x.guid.deep_view() == Some(key)
            || x.url.deep_view() == Some(key),
        first_answer(items, key) matches Some(x) ==> exists|k: int|
            0 <= k < items.len() && #[trigger] items[k] == x && forall|j: int|
                0 <= j < k ==> (#[trigger] items[j]).id@ != key && items[j].guid.deep_view() != Some(key)
                    && items[j].url.deep_view() != Some(key),
    decreases items.len(),
{
    if items.len() > 0 {
        let r = items.skip(1);
        law_what_is_found_is_the_first_that_answers(r, key);
        if !answers_to(items[0], key) {
            assert(first_answer(items, key) == first_answer(r, key));
            if first_answer(r, key) is None {
                assert forall|k: int| 0 <= k < items.len() implies (#[trigger] items[k]).id@ != key
                    && items[k].guid.deep_view() != Some(key) && items[k].url.deep_view() != Some(key) by {
                    if k > 0 {
                        assert(r[k - 1] == items[k]);
                    }
                }
            } else {
                let x = first_answer(r, key)->Some_0;
                let k = choose|k: int|
                    0 <= k < r.len() && #[trigger] r[k] == x && forall|j: int|
                        0 <= j < k ==> (#[trigger] r[j]).id@ != key && r[j].guid.deep_view() != Some(key)
                            && r[j].url.deep_view() != Some(key);
                assert(items[k + 1] == x);
                assert forall|j: int| 0 <= j < k + 1 implies (#[trigger] items[j]).id@ != key
                    && items[j].guid.deep_view() != Some(key) && items[j].url.deep_view() != Some(key) by {
                    if j > 0 {
                        assert(r[j - 1] == items[j]);
                    }
                }
            }
        } else {
            assert(items[0] == first_answer(items, key)->Some_0);
        }
    }
}

/// A run ends with 0 where no feed failed, with 4 where all did, and with 3 where some did; 1 is for what
/// was not expected and 2 for wrong usage.
pub proof fn law_exit_codes(feeds: Seq<FeedResult>)
    ensures
        failed_count(feeds) == 0 ==> exit_code(feeds) == 0,
        failed_count(feeds) == feeds.len() && feeds.len() > 0 ==> exit_code(feeds) == 4,
        0 < failed_count(feeds) < feeds.len() ==> exit_code(feeds) == 3,
        exit::UNEXPECTED == 1,
        exit::USAGE == 2,
{
}

/// Each kind of error has its own code, but a response that throttles shares that of the host gate.
pub proof fn law_errors_have_their_codes(e: RssError)
    ensures
        e is Usage ==> e.code_text() == "USAGE_ERROR"@,
        e is InvalidUrl ==> e.code_text() == "INVALID_URL"@,
        e is Network ==> e.code_text() == "NETWORK_ERROR"@,
        e matches RssError::Http { status, .. } ==> e.code_text() == (if status == 429 {
            "RATE_LIMITED"@
        } else {
            "FEED_FETCH_FAILED"@
        }),
        e is RateLimited ==> e.code_text() == "RATE_LIMITED"@,
        e is DeadlineExceeded ==> e.code_text() == "BATCH_DEADLINE_EXCEEDED"@,
        e is Parse ==> e.code_text() == "FEED_PARSE_FAILED"@,
        e is NotFound ==> e.code_text() == "NOT_FOUND"@,
        e is Cache ==> e.code_text() == "CACHE_ERROR"@,
        e is ResponseTooLarge ==> e.code_text() == "RESPONSE_TOO_LARGE"@,
        e is Io ==> e.code_text() == "IO_ERROR"@,
        e is Other ==> e.code_text() == "INTERNAL_ERROR"@,
{
}

/// What an error says to a person tells what kind it is and holds all that it was given.
pub proof fn law_messages_hold_what_they_are_about(e: RssError)
    ensures
        e matches RssError::Usage(s) ==> e.message_text() == "usage error: "@ + s@,
        e matches RssError::InvalidUrl(s) ==> e.message_text() == "invalid URL: "@ + s@,
        e matches RssError::Network(s) ==> e.message_text() == "network error: "@ + s@,
        e matches RssError::Http { status, url, .. } ==> e.message_text() == "HTTP status "@ + decimal(
            status as nat,
        ) + ": "@ + url@,
        e matches RssError::RateLimited { url, retry_after } ==> e.message_text() == "rate limited: "@ + url@
            + " (retry after ~"@ + decimal(retry_after.secs()) + "s)"@,
        e matches RssError::DeadlineExceeded { url } ==> e.message_text() == "batch deadline passed before "@
            + url@ + " was attempted"@,
        e matches RssError::Parse(s) ==> e.message_text() == "feed parse error: "@ + s@,
        e matches RssError::NotFound(s) ==> e.message_text() == "no feeds discovered at "@ + s@,
        e matches RssError::Cache(s) ==> e.message_text() == "cache error: "@ + s@,
        e matches RssError::Io(s) ==> e.message_text() == s@,
        e matches RssError::Other(s) ==> e.message_text() == s@,
        e matches RssError::ResponseTooLarge {
            estimated_tokens: a,
            budget_tokens: b,
            suggested_limit: c,
            suggested_max_content_chars: d,
        } ==> e.message_text() == "response too large: ~"@ + decimal(a as nat) + " tokens exceeds the "@
            + decimal(b as nat) + "-token budget; retry with limit="@ + decimal(c as nat)
            + " or max_content_chars="@ + decimal(d as nat),
{
}

/// An error's details hold its numbers: the status and the waits of a refusal, and the estimate, the
/// budget and the advice where an answer was too large. Other errors have none.
pub proof fn law_details_hold_the_numbers(e: RssError)
    ensures
        e matches RssError::Http { status, retry_after, retry_after_hint, .. } ==> {
            &&& holds(e.details(), "http_status"@, JsonView::Int(status as int))
            &&& holds(e.details(), "retry_after"@, opt_text(retry_after))
            &&& retry_after_hint is None ==> holds(e.details(), "retry_after_seconds"@, JsonView::Null)
                && holds(e.details(), "retry_after_ms"@, JsonView::Null)
            &&& retry_after_hint matches Some(d) ==> holds(
                e.details(),
                "retry_after_seconds"@,
                JsonView::Int(d.secs() as int),
            ) && holds(e.details(), "retry_after_ms"@, JsonView::Int(d.capped_millis() as int))
        },
        e matches RssError::RateLimited { retry_after: d, .. } ==> holds(
            e.details(),
            "retry_after_seconds"@,
            JsonView::Int(d.secs() as int),
        ) && holds(e.details(), "retry_after_ms"@, JsonView::Int(d.capped_millis() as int)),
        e matches RssError::ResponseTooLarge {
            estimated_tokens: a,
            budget_tokens: b,
            suggested_limit: c,
            suggested_max_content_chars: d,
        } ==> {
            &&& holds(e.details(), "estimated_tokens"@, JsonView::Int(a as int))
            &&& holds(e.details(), "budget_tokens"@, JsonView::Int(b as int))
            &&& holds(e.details(), "suggested_limit"@, JsonView::Int(c as int))
            &&& holds(e.details(), "suggested_max_content_chars"@, JsonView::Int(d as int))
        },
        !(e is Http || e is RateLimited || e is ResponseTooLarge) ==> e.details() == JsonView::Obj(
            Seq::empty(),
        ),
{
    let m = e.details()->Obj_0;
    match e {
        RssError::Http { status, retry_after, retry_after_hint, .. } => {
            if let Some(d) = retry_after_hint {
                crate::content_laws::law_spans_are_counted_in_full(d);
            }
            assert(m[0] == ("http_status"@, JsonView::Int(status as int)));
            assert(m[1] == ("retry_after"@, opt_text(retry_after)));
            assert(m[2].0 == "retry_after_seconds"@ && m[3].0 == "retry_after_ms"@);
            assert(m[2] == ("retry_after_seconds"@, m[2].1) && m[3] == ("retry_after_ms"@, m[3].1));
        },
        RssError::RateLimited { retry_after, .. } => {
            assert(m[0] == ("retry_after_seconds"@, JsonView::Int(retry_after.secs() as int)));
            assert(m[1] == ("retry_after_ms"@, JsonView::Int(retry_after.capped_millis() as int)));
        },
        RssError::ResponseTooLarge {
            estimated_tokens,
            budget_tokens,
            suggested_limit,
            suggested_max_content_chars,
        } => {
            assert(m[0] == ("estimated_tokens"@, JsonView::Int(estimated_tokens as int)));
            assert(m[1] == ("budget_tokens"@, JsonView::Int(budget_tokens as int)));
            assert(m[2] == ("suggested_limit"@, JsonView::Int(suggested_limit as int)));
            assert(m[3] == (
                "suggested_max_content_chars"@,
                JsonView::Int(suggested_max_content_chars as int),
            ));
        },
        _ => {},
    }
}

/// Stored metadata has every field under its own name.
pub proof fn law_the_members_of_metadata(m: CacheMeta)
    ensures
        meta_json(m)->Obj_0.len() == 5,
        holds(meta_json(m), "feed_url"@, JsonView::Str(m.feed_url@)),
        holds(meta_json(m), "etag"@, opt_text(m.etag)),
        holds(meta_json(m), "last_modified"@, opt_text(m.last_modified)),
        holds(meta_json(m), "fetched_at"@, JsonView::Str(m.fetched_at@)),
        holds(meta_json(m), "content_type"@, opt_text(m.content_type)),
{
    let f = meta_json(m)->Obj_0;
    assert(f[0] == ("feed_url"@, JsonView::Str(m.feed_url@)));
    assert(f[1] == ("etag"@, opt_text(m.etag)));
    assert(f[2] == ("last_modified"@, opt_text(m.last_modified)));
    assert(f[3] == ("fetched_at"@, JsonView::Str(m.fetched_at@)));
    assert(f[4] == ("content_type"@, opt_text(m.content_type)));
}

/// A cache summary is printed field by field.
pub proof fn law_the_members_of_a_cache_summary(s: CacheListItem)
    ensures
        crate::cache::summary_json(s)->Obj_0.len() == 4,
        holds(crate::cache::summary_json(s), "feed_url"@, JsonView::Str(s.feed_url@)),
        holds(crate::cache::summary_json(s), "fetched_at"@, JsonView::Str(s.fetched_at@)),
        holds(crate::cache::summary_json(s), "size_bytes"@, JsonView::Int(s.size_bytes as int)),
        holds(crate::cache::summary_json(s), "etag"@, opt_text(s.etag)),
{
    let f = crate::cache::summary_json(s)->Obj_0;
    assert(f[0] == ("feed_url"@, JsonView::Str(s.feed_url@)));
    assert(f[1] == ("fetched_at"@, JsonView::Str(s.fetched_at@)));
    assert(f[2] == ("size_bytes"@, JsonView::Int(s.size_bytes as int)));
    assert(f[3] == ("etag"@, opt_text(s.etag)));
}

/// A file stands in its directory, with one separator between the two.
pub proof fn law_files_stand_in_their_directory(dir: Seq<char>, name: Seq<char>)
    ensures
        path_in(Seq::empty(), name) == name,
        path_in(dir.push('/'), name) == dir.push('/') + name,
        dir.len() > 0 && dir.last() != '/' ==> path_in(dir, name) == dir.push('/') + name,
{
    reveal_strlit("/");
    assert(dir + "/"@ =~= dir.push('/'));
}

/// Files of feeds are counted by their ending, one by one.
pub proof fn law_feed_files_add_up(a: Seq<FoundFile>, b: Seq<FoundFile>, f: FoundFile)
    ensures
        feed_files(a + b) == feed_files(a) + feed_files(b),
        f.extension.deep_view() == Some("json"@) ==> feed_files(seq![f]) == 1,
        f.extension.deep_view() != Some("json"@) ==> feed_files(seq![f]) == 0,
    decreases b.len(),
{
    reveal_with_fuel(feed_files, 2);
    assert(seq![f].drop_last() =~= Seq::empty());
    if b.len() == 0 {
        assert(a + b =~= a);
    } else {
        law_feed_files_add_up(a, b.drop_last(), f);
        assert((a + b).drop_last() =~= a + b.drop_last());
    }
}

/// A summary says of a stored record what the record says, and how large the body beside it is.
pub proof fn law_a_summary_says_what_the_record_says(s: CacheListItem, f: FoundFile, stored: CacheMeta)
    requires
        is_summary_of(s, f),
        f.bytes matches Some(b) && crate::record::record_in(b@, crate::cache::meta_names()) == Some(
            meta_json(stored),
        ),
        f.extension.deep_view() == Some("json"@),
    ensures
        is_record(f),
        s.feed_url@ == stored.feed_url@,
        s.fetched_at@ == stored.fetched_at@,
        s.etag.deep_view() == stored.etag.deep_view(),
        f.body_size matches Some(n) ==> s.size_bytes == n,
        f.body_size is None ==> s.size_bytes == 0,
{
    crate::cache::law_stored_metadata_reads_back(stored, f.bytes->Some_0@);
    let j = meta_json(stored);
    let m = CacheMeta {
        feed_url: s.feed_url,
        etag: s.etag,
        last_modified: stored.last_modified,
        fetched_at: s.fetched_at,
        content_type: stored.content_type,
    };
    assert(crate::cache::is_meta_of(stored, j)) by {
        crate::cache::lemma_meta_members(stored);
    }
    assert(crate::cache::is_meta_of(m, j));
}

} // verus!
