//! What the front-ends share: one feed's result, and a batch's results put together.

use vstd::prelude::*;
use vstd::string::*;

use crate::config::FetchParams;
use crate::error::RssError;
use crate::exit;
use crate::fetch::RawFeed;
use crate::model::{
    copy_opt, AppliedFilters, ErrorObj, FeedResult, FeedStatus, FetchOutput, Item, TruncationInfo,
    Warning,
};
use crate::parse::{instant, parse_feed, warning, ParsedFeed};
use crate::query::Query;
use crate::text::{number_text, same};
use crate::time::{parse_rfc3339, Timestamp};
use crate::totals::{populate_totals, sum_tokens, tokens_fit};

verus! {

/// One feed's result, its warnings, and how many of its items the filters removed.
pub type Fetched = (FeedResult, Vec<Warning>, usize);

/// The outcome of the URL at an index of the request. `None` means that the feed was not attempted
/// before the deadline.
pub type IndexedFetch = (usize, Option<Fetched>);

/// The whole seconds from `cached_at` to `now`, none where the stamp cannot be read.
pub open spec fn age_seconds(written: Option<Timestamp>, now: Timestamp) -> Option<int> {
    match written {
        None => None,
        Some(t) => Some(
            if now.nanos_since(t) < 0 {
                0
            } else if now.nanos_since(t) / 1_000_000_000 > u64::MAX {
                u64::MAX as int
            } else {
                now.nanos_since(t) / 1_000_000_000
            },
        ),
    }
}

/// The whole seconds since an instant, none before it.
pub fn seconds_since(written: Option<Timestamp>, now: Timestamp) -> (r: Option<u64>)
    ensures
        match r {
            Some(n) => age_seconds(written, now) == Some(n as int),
            None => age_seconds(written, now) is None,
        },
{
    match written {
        None => None,
        Some(t) => {
            let n: i128 = now.nanos_after(&t);
            if n < 0 {
                Some(0)
            } else if n / 1_000_000_000 > u64::MAX as i128 {
                Some(u64::MAX)
            } else {
                Some((n / 1_000_000_000) as u64)
            }
        },
    }
}

/// When the served copy was written.
pub open spec fn written_at(cached_at: Option<Seq<char>>) -> Option<Timestamp> {
    match cached_at {
        Some(s) => crate::time::rfc3339_instant(s),
        None => None,
    }
}

/// The status of a feed that was served and parsed.
pub open spec fn served_status(raw: RawFeed) -> FeedStatus {
    if raw.stale_reason is Some {
        FeedStatus::Stale
    } else if raw.not_modified {
        FeedStatus::NotModified
    } else {
        FeedStatus::Fresh
    }
}

/// How an age reads.
pub open spec fn age_text(age: Option<u64>) -> Seq<char> {
    match age {
        Some(n) => crate::text::decimal(n as nat) + "s"@,
        None => "unknown"@,
    }
}

/// The warning that a stale copy was served.
pub open spec fn stale_warnings(reason: Option<Seq<char>>, url: Seq<char>, age: Option<u64>) -> Seq<
    (Option<Seq<char>>, Seq<char>, Seq<char>),
> {
    match reason {
        None => Seq::empty(),
        Some(why) => seq![
            (
                Some(url),
                "SERVED_STALE"@,
                "origin refused revalidation ("@ + why + "); served the cached copy, "@ + age_text(
                    age,
                ) + " old"@,
            ),
        ],
    }
}

/// The result is that of a served and parsed feed.
pub open spec fn is_feed_result(
    f: Fetched,
    raw: RawFeed,
    parsed: ParsedFeed,
    url: Seq<char>,
    now: Timestamp,
) -> bool {
    &&& f.0.feed_url@ == url
    &&& f.0.status == served_status(raw)
    &&& f.0.from_cache == raw.from_cache
    &&& f.0.title == parsed.title
    &&& f.0.site_url == parsed.site_url
    &&& f.0.updated == parsed.updated
    &&& f.0.items == parsed.items
    &&& crate::totals::feed_counts_hold(f.0)
    &&& f.0.error is None
    &&& f.0.cached_at == raw.cached_at
    &&& match f.0.cache_age_seconds {
        Some(n) => age_seconds(written_at(raw.cached_at.deep_view()), now) == Some(n as int),
        None => age_seconds(written_at(raw.cached_at.deep_view()), now) is None,
    }
    &&& f.1@.map_values(|w: Warning| crate::parse::warning_view(w)) == parsed.warnings@.map_values(
        |w: Warning| crate::parse::warning_view(w),
    ) + stale_warnings(raw.stale_reason.deep_view(), url, f.0.cache_age_seconds)
    &&& f.2 == parsed.items_filtered_out
}

/// Puts one feed's result together from what was served and what it parsed to.
pub fn feed_result(raw: RawFeed, parsed: ParsedFeed, url: &str, now: Timestamp) -> (r: Fetched)
    requires
        crate::totals::tokens_sum(parsed.items@) <= u64::MAX,
    ensures
        is_feed_result(r, raw, parsed, url@, now),
{
    let status = if raw.stale_reason.is_some() {
        FeedStatus::Stale
    } else if raw.not_modified {
        FeedStatus::NotModified
    } else {
        FeedStatus::Fresh
    };
    let written = match &raw.cached_at {
        Some(s) => parse_rfc3339(s.as_str()),
        None => None,
    };
    let age: Option<u64> = seconds_since(written, now);
    let count: usize = parsed.items.len();
    let tokens: u64 = sum_tokens(&parsed.items);
    let mut warnings = parsed.warnings;
    let ghost before = warnings@.map_values(|w: Warning| crate::parse::warning_view(w));
    if let Some(why) = &raw.stale_reason {
        let old_text = match age {
            Some(n) => number_text(n).concat("s"),
            None => "unknown".to_owned(),
        };
        let message = "origin refused revalidation (".to_owned().concat(why.as_str()).concat(
            "); served the cached copy, ",
        ).concat(old_text.as_str()).concat(" old");
        warnings.push(warning(url, "SERVED_STALE", message));
    }
    proof {
        let after = warnings@.map_values(|w: Warning| crate::parse::warning_view(w));
        let extra = stale_warnings(raw.stale_reason.deep_view(), url@, age);
        assert(after =~= before + extra);
    }
    (
        FeedResult {
            feed_url: url.to_owned(),
            status,
            from_cache: raw.from_cache,
            title: parsed.title,
            site_url: parsed.site_url,
            updated: parsed.updated,
            item_count: count,
            content_tokens_est_total: tokens,
            items: parsed.items,
            error: None,
            cached_at: raw.cached_at,
            cache_age_seconds: age,
        },
        warnings,
        parsed.items_filtered_out,
    )
}

/// Parses what was served for a feed and puts its result together. `Ok(None)` means that the token
/// estimates of its items add up to more than a result can hold.
pub fn read_feed(raw: RawFeed, url: &str, params: &FetchParams, now: Timestamp) -> (r: Result<
    Option<Fetched>,
    RssError,
>)
    ensures
        match (r, crate::parse::document_value(raw.body@)) {
            (Ok(f), Ok(d)) => exists|p: ParsedFeed|
                {
                    &&& #[trigger] crate::parse::is_parsed(p, d, url@, *params)
                    &&& match f {
                        Some(x) => is_feed_result(x, raw, p, url@, now),
                        None => crate::totals::tokens_sum(p.items@) > u64::MAX,
                    }
                },
            (Err(RssError::Parse(m)), Err(t)) => m@ == t,
            _ => false,
        },
{
    match parse_feed(raw.body.as_slice(), url, params) {
        Ok(p) => if tokens_fit(&p.items) {
            Ok(Some(feed_result(raw, p, url, now)))
        } else {
            Ok(None)
        },
        Err(e) => Err(e),
    }
}

/// The error, as a failed feed reports it.
pub open spec fn is_error_of(obj: ErrorObj, e: RssError, url: Seq<char>) -> bool {
    &&& obj.feed_url.deep_view() == Some(url)
    &&& obj.code@ == e.code_text()
    &&& obj.message@ == e.message_text()
    &&& obj.details@ == e.details()
}

/// The feed failed with this error before it produced items.
pub open spec fn is_failed_feed(f: FeedResult, e: RssError, url: Seq<char>) -> bool {
    &&& f.feed_url@ == url
    &&& f.status == FeedStatus::Error
    &&& !f.from_cache
    &&& f.title is None
    &&& f.site_url is None
    &&& f.updated is None
    &&& f.item_count == 0
    &&& f.content_tokens_est_total == 0
    &&& f.items@.len() == 0
    &&& f.error matches Some(obj) && is_error_of(obj, e, url)
    &&& f.cached_at is None
    &&& f.cache_age_seconds is None
}

/// The outcome of one URL of a batch: a feed that the host gate refused to start before the deadline was
/// not attempted, and any other error is that feed's result.
pub fn outcome(idx: usize, url: &str, fetched: Result<Fetched, RssError>) -> (r: IndexedFetch)
    ensures
        r.0 == idx,
        match fetched {
            Ok(f) => r.1 == Some(f),
            Err(e) => if e is DeadlineExceeded {
                r.1 is None
            } else {
                r.1 matches Some(x) && is_failed_feed(x.0, e, url@) && x.1@.len() == 0 && x.2 == 0
            },
        },
{
    match fetched {
        Ok(f) => (idx, Some(f)),
        Err(RssError::DeadlineExceeded { .. }) => (idx, None),
        Err(e) => (
            idx,
            Some((FeedResult::error(url, e.to_error_obj(Some(url))), Vec::new(), 0)),
        ),
    }
}

/// The query leaves something to filter by.
pub open spec fn constrains(query: Option<Seq<char>>) -> bool {
    query matches Some(q) && (crate::query::lowered_terms(crate::query::raw_terms(q), false).len()
        > 0 || crate::query::lowered_terms(crate::query::raw_terms(q), true).len() > 0)
}

/// The marker of what filtering ran: present exactly where `since` or a query that constrains
/// anything was given.
pub open spec fn is_filter_marker(m: Option<AppliedFilters>, params: FetchParams, filtered: int) -> bool {
    if params.since is Some || constrains(params.query.deep_view()) {
        m matches Some(f) && f.since.deep_view() == crate::parse::instant_text(params.since)
            && f.query.deep_view() == params.query.deep_view() && f.items_filtered_out == filtered
    } else {
        m is None
    }
}

/// The marker of what filtering ran over a batch, or `None` where none did.
pub fn applied_filters_marker(params: &FetchParams, items_filtered_out: usize) -> (r: Option<
    AppliedFilters,
>)
    ensures
        is_filter_marker(r, *params, items_filtered_out as int),
{
    let query_constrains = match &params.query {
        Some(q) => !Query::parse(q.as_str()).is_empty(),
        None => false,
    };
    if params.since.is_none() && !query_constrains {
        return None;
    }
    Some(
        AppliedFilters {
            since: instant(params.since),
            query: copy_opt(&params.query),
            items_filtered_out,
        },
    )
}

/// There is one outcome for each URL of the request.
pub open spec fn is_batch(results: Seq<IndexedFetch>) -> bool {
    &&& forall|k: int| 0 <= k < results.len() ==> (#[trigger] results[k]).0 < results.len()
    &&& forall|j: int, k: int|
        0 <= j < k < results.len() ==> (#[trigger] results[j]).0 != (#[trigger] results[k]).0
    &&& forall|i: int| 0 <= i < results.len() ==> #[trigger] has_outcome(results, i)
}

/// Some outcome is that of the URL at an index.
pub open spec fn has_outcome(results: Seq<IndexedFetch>, i: int) -> bool {
    exists|k: int| 0 <= k < results.len() && (#[trigger] results[k]).0 == i
}

/// The outcome of the URL at an index.
pub open spec fn outcome_at(results: Seq<IndexedFetch>, i: int) -> Option<Fetched> {
    results[choose|k: int| 0 <= k < results.len() && (#[trigger] results[k]).0 == i].1
}

/// How many URLs from `i` on were attempted before the first that was not, counted from the start.
pub open spec fn attempted_from(results: Seq<IndexedFetch>, i: int) -> int
    decreases results.len() - i,
{
    if i < results.len() && outcome_at(results, i) is Some {
        attempted_from(results, i + 1)
    } else {
        i
    }
}

/// How many URLs precede the first that was not attempted.
pub open spec fn attempted(results: Seq<IndexedFetch>) -> int {
    attempted_from(results, 0)
}

/// The outcomes of the first `n` URLs, in request order.
pub open spec fn prefix(results: Seq<IndexedFetch>, n: int) -> Seq<Fetched> {
    Seq::new(n as nat, |i: int| outcome_at(results, i)->Some_0)
}

/// The feeds of some outcomes.
pub open spec fn feeds_of(v: Seq<Fetched>) -> Seq<FeedResult> {
    v.map_values(|f: Fetched| f.0)
}

/// The error of a feed, if it has one.
pub open spec fn error_list(e: Option<ErrorObj>) -> Seq<ErrorObj> {
    match e {
        Some(x) => seq![x],
        None => Seq::empty(),
    }
}

/// The errors of some feeds, in order.
pub open spec fn failures(feeds: Seq<FeedResult>) -> Seq<ErrorObj>
    decreases feeds.len(),
{
    if feeds.len() == 0 {
        Seq::empty()
    } else {
        failures(feeds.drop_last()) + error_list(feeds.last().error)
    }
}

/// The warnings of some outcomes, in order.
pub open spec fn gathered(v: Seq<Fetched>) -> Seq<Warning>
    decreases v.len(),
{
    if v.len() == 0 {
        Seq::empty()
    } else {
        gathered(v.drop_last()) + v.last().1@
    }
}

/// How many items the filters removed over some outcomes.
pub open spec fn filtered_total(v: Seq<Fetched>) -> nat
    decreases v.len(),
{
    if v.len() == 0 {
        0
    } else {
        filtered_total(v.drop_last()) + v.last().2 as nat
    }
}

/// The list of errors says, one for one, what the other says.
pub open spec fn same_errors(a: Seq<ErrorObj>, b: Seq<ErrorObj>) -> bool {
    &&& a.len() == b.len()
    &&& forall|k: int| 0 <= k < a.len() ==> (#[trigger] a[k]).same_as(b[k])
}

/// The advice on feeds that the deadline left out.
pub open spec fn omission_advice(omitted: int) -> Seq<char> {
    crate::text::decimal(omitted as nat)
        + " feed(s) were not fetched before the batch deadline; request them separately, or pass truncation.next_cursor back as `cursor` if one is present"@
}

/// The marker of a batch that the deadline cut short.
pub open spec fn is_deadline_marker(t: TruncationInfo, limit: Option<usize>, omitted: int) -> bool {
    &&& t.applied_limit == limit
    &&& t.items_content_truncated == 0
    &&& t.items_omitted == 0
    &&& t.feeds_omitted == omitted
    &&& t.estimated_tokens is None
    &&& t.next_cursor is None
    &&& t.suggestion.deep_view() == Some(omission_advice(omitted))
}

/// The output is `start` with the attempted prefix of a batch in it.
pub open spec fn is_assembled(
    r: FetchOutput,
    start: FetchOutput,
    params: FetchParams,
    results: Seq<IndexedFetch>,
) -> bool {
    let shipped = prefix(results, attempted(results));
    &&& r.schema_version == start.schema_version
    &&& r.fetched_at == start.fetched_at
    &&& r.duplicates == start.duplicates
    &&& r.feeds@ == start.feeds@ + feeds_of(shipped)
    &&& same_errors(r.errors@, start.errors@ + failures(feeds_of(shipped)))
    &&& r.warnings@ == start.warnings@ + gathered(shipped)
    &&& r.total_items == crate::totals::item_total(r.feeds@)
    &&& r.total_content_tokens_est == crate::totals::token_total(r.feeds@)
    &&& is_filter_marker(r.applied_filters, params, filtered_total(shipped) as int)
    &&& if attempted(results) < results.len() {
        r.truncation matches Some(t) && is_deadline_marker(
            t,
            params.limit,
            results.len() - attempted(results),
        )
    } else {
        r.truncation == start.truncation
    }
}

proof fn lemma_outcome_is_unique(results: Seq<IndexedFetch>, k: int)
    requires
        is_batch(results),
        0 <= k < results.len(),
    ensures
        outcome_at(results, results[k].0 as int) == results[k].1,
{
    let i = results[k].0 as int;
    let j = choose|j: int| 0 <= j < results.len() && (#[trigger] results[j]).0 == i;
    assert(results[j].0 == results[k].0);
    if j < k {
        assert(results[j].0 != results[k].0);
    }
    if k < j {
        assert(results[k].0 != results[j].0);
    }
}

/// The outcomes of a batch, in request order.
fn in_request_order(results: Vec<IndexedFetch>) -> (r: Vec<Option<Fetched>>)
    requires
        is_batch(results@),
    ensures
        r@.len() == results@.len(),
        forall|i: int| 0 <= i < r@.len() ==> #[trigger] r@[i] == outcome_at(results@, i),
{
    let n: usize = results.len();
    let ghost all = results@;
    let mut slots: Vec<Option<Fetched>> = Vec::new();
    let mut i: usize = 0;
    while i < n
        invariant
            slots@.len() == i,
            i <= n,
        decreases n - i,
    {
        slots.push(None);
        i = i + 1;
    }
    for x in it: results.into_iter()
        invariant
            it.seq() == all,
            is_batch(all),
            n == all.len(),
            slots@.len() == n,
            forall|k: int|
                0 <= k < it.index() ==> slots@[(#[trigger] all[k]).0 as int] == all[k].1,
    {
        let ghost before = slots@;
        assert(x == all[it.index()]);
        let (idx, slot) = x;
        slots.set(idx, slot);
        proof {
            assert forall|k: int| 0 <= k <= it.index() implies slots@[(
            #[trigger] all[k]).0 as int] == all[k].1 by {
                if k < it.index() {
                    assert(all[k].0 != all[it.index()].0);
                    assert(before[all[k].0 as int] == all[k].1);
                }
            }
        }
    }
    proof {
        assert forall|i: int| 0 <= i < n implies #[trigger] slots@[i] == outcome_at(all, i) by {
            assert(has_outcome(all, i));
            let k = choose|k: int| 0 <= k < all.len() && (#[trigger] all[k]).0 == i;
            lemma_outcome_is_unique(all, k);
        }
    }
    slots
}

proof fn lemma_attempted(results: Seq<IndexedFetch>, i: int)
    requires
        0 <= i <= results.len(),
    ensures
        i <= attempted_from(results, i) <= results.len(),
        forall|j: int| i <= j < attempted_from(results, i) ==> outcome_at(results, j) is Some,
    decreases results.len() - i,
{
    if i < results.len() && outcome_at(results, i) is Some {
        lemma_attempted(results, i + 1);
    }
}

proof fn lemma_filtered_grows(v: Seq<Fetched>, i: int)
    requires
        0 <= i <= v.len(),
    ensures
        filtered_total(v.take(i)) <= filtered_total(v),
    decreases v.len() - i,
{
    if i < v.len() {
        lemma_filtered_grows(v, i + 1);
        assert(v.take(i + 1).drop_last() =~= v.take(i));
    } else {
        assert(v.take(i) =~= v);
    }
}

/// Adds one outcome to an output.
fn add_outcome(output: &mut FetchOutput, f: Fetched)
    ensures
        final(output).schema_version == old(output).schema_version,
        final(output).fetched_at == old(output).fetched_at,
        final(output).duplicates == old(output).duplicates,
        final(output).truncation == old(output).truncation,
        final(output).feeds@ == old(output).feeds@.push(f.0),
        same_errors(
            final(output).errors@,
            old(output).errors@ + error_list(f.0.error),
        ),
        final(output).warnings@ == old(output).warnings@ + f.1@,
{
    let (fr, mut warnings, _) = f;
    let ghost errors_before = output.errors@;
    if let Some(e) = &fr.error {
        output.errors.push(e.copy());
    }
    proof {
        let want = errors_before + error_list(fr.error);
        assert forall|k: int| 0 <= k < want.len() implies (#[trigger] output.errors@[k]).same_as(
            want[k],
        ) by {}
    }
    output.warnings.append(&mut warnings);
    output.feeds.push(fr);
}

/// Puts a batch's outcomes together in request order. The feeds are those of the URLs before the
/// first that was not attempted, so that a feed's position is its URL's; anything past it is
/// discarded and counted as omitted.
pub fn assemble_prefix_in_request_order(
    output: FetchOutput,
    params: &FetchParams,
    results: Vec<IndexedFetch>,
) -> (r: FetchOutput)
    requires
        is_batch(results@),
        crate::totals::counts_fit(
            output.feeds@ + feeds_of(prefix(results@, attempted(results@))),
        ),
        filtered_total(prefix(results@, attempted(results@))) <= usize::MAX,
    ensures
        is_assembled(r, output, *params, results@),
        output.truncation is None ==> crate::room::is_batch_marker(
            crate::marker::marker_view(r.truncation),
        ),
{
    let requested: usize = results.len();
    let ghost all = results@;
    let ghost shipped = prefix(all, attempted(all));
    proof {
        lemma_attempted(all, 0);
    }
    let slots = in_request_order(results);
    let mut out = output;
    let mut done: usize = 0;
    let mut open = true;
    let mut filtered: usize = 0;
    proof {
        assert(shipped.take(0) =~= Seq::empty());
        assert(feeds_of(shipped.take(0)) =~= Seq::empty());
        assert(out.errors@ + failures(feeds_of(shipped.take(0))) =~= out.errors@);
    }
    for slot in it: slots.into_iter()
        invariant
            it.seq().len() == all.len(),
            forall|i: int|
                0 <= i < all.len() ==> #[trigger] it.seq()[i] == outcome_at(all, i),
            requested == all.len(),
            shipped == prefix(all, attempted(all)),
            0 <= attempted(all) <= all.len(),
            done <= it.index(),
            open ==> done == it.index(),
            !open ==> done == attempted(all),
            attempted(all) == attempted_from(all, done as int),
            done <= attempted(all),
            filtered == filtered_total(shipped.take(done as int)),
            filtered_total(shipped) <= usize::MAX,
            out.schema_version == output.schema_version,
            out.fetched_at == output.fetched_at,
            out.duplicates == output.duplicates,
            out.truncation == output.truncation,
            out.feeds@ == output.feeds@ + feeds_of(shipped.take(done as int)),
            same_errors(
                out.errors@,
                output.errors@ + failures(feeds_of(shipped.take(done as int))),
            ),
            out.warnings@ == output.warnings@ + gathered(shipped.take(done as int)),
    {
        assert(slot == outcome_at(all, it.index()));
        match slot {
            Some(f) => if open {
                proof {
                    let d = done as int;
                    lemma_attempted(all, d + 1);
                    assert(shipped[d] == f);
                    let now = shipped.take(d + 1);
                    assert(now.drop_last() =~= shipped.take(d));
                    assert(now.last() == f);
                    assert(feeds_of(now).drop_last() =~= feeds_of(shipped.take(d)));
                    assert(feeds_of(now) =~= feeds_of(shipped.take(d)).push(f.0));
                    lemma_filtered_grows(shipped, d + 1);
                }
                let ghost errors_before = out.errors@;
                filtered = filtered + f.2;
                add_outcome(&mut out, f);
                proof {
                    let d = done as int;
                    let before = output.errors@ + failures(feeds_of(shipped.take(d)));
                    let more = error_list(shipped[d].0.error);
                    let want = output.errors@ + failures(feeds_of(shipped.take(d + 1)));
                    assert(want =~= before + more);
                    assert forall|k: int| 0 <= k < want.len() implies (
                    #[trigger] out.errors@[k]).same_as(want[k]) by {
                        assert(out.errors@[k].same_as((errors_before + more)[k]));
                        if k < before.len() {
                            assert(errors_before[k].same_as(before[k]));
                        }
                    }
                    assert(out.warnings@ =~= output.warnings@ + gathered(shipped.take(d + 1)));
                    assert(out.feeds@ =~= output.feeds@ + feeds_of(shipped.take(d + 1)));
                }
                done = done + 1;
            },
            None => {
                open = false;
            },
        }
    }
    assert(done == attempted(all));
    assert(shipped.take(done as int) =~= shipped);
    populate_totals(&mut out);
    out.applied_filters = applied_filters_marker(params, filtered);
    let omitted: usize = requested - done;
    if omitted > 0 {
        out.truncation = Some(
            TruncationInfo {
                applied_limit: params.limit,
                items_content_truncated: 0,
                items_omitted: 0,
                feeds_omitted: omitted,
                next_cursor: None,
                estimated_tokens: None,
                suggestion: Some(
                    number_text(omitted as u64).concat(
                        " feed(s) were not fetched before the batch deadline; request them separately, or pass truncation.next_cursor back as `cursor` if one is present",
                    ),
                ),
            },
        );
    }
    out
}

/// A batch whose client could not be made: every feed fails with the same error.
pub fn fail_all(urls: &Vec<String>, e: &RssError, fetched_at: String) -> (r: FetchOutput)
    ensures
        r.schema_version@ == crate::model::SCHEMA_VERSION@,
        r.fetched_at == fetched_at,
        r.total_items == 0,
        r.total_content_tokens_est == 0,
        r.feeds@.len() == urls@.len(),
        forall|k: int|
            0 <= k < urls@.len() ==> is_failed_feed(#[trigger] r.feeds@[k], *e, urls@[k]@),
        r.errors@.len() == urls@.len(),
        forall|k: int|
            0 <= k < urls@.len() ==> is_error_of(#[trigger] r.errors@[k], *e, urls@[k]@),
        r.warnings@.len() == 0,
        r.truncation is None,
        r.applied_filters is None,
        r.duplicates@.len() == 0,
{
    let mut out = FetchOutput::new(fetched_at);
    let mut i: usize = 0;
    while i < urls.len()
        invariant
            i <= urls@.len(),
            out.schema_version@ == crate::model::SCHEMA_VERSION@,
            out.fetched_at == fetched_at,
            out.total_items == 0,
            out.total_content_tokens_est == 0,
            out.warnings@.len() == 0,
            out.truncation is None,
            out.applied_filters is None,
            out.duplicates@.len() == 0,
            out.feeds@.len() == i,
            out.errors@.len() == i,
            forall|k: int|
                0 <= k < i ==> is_failed_feed(#[trigger] out.feeds@[k], *e, urls@[k]@),
            forall|k: int|
                0 <= k < i ==> is_error_of(#[trigger] out.errors@[k], *e, urls@[k]@),
        decreases urls@.len() - i,
    {
        let url = urls[i].as_str();
        let obj = e.to_error_obj(Some(url));
        out.errors.push(obj.copy());
        out.feeds.push(FeedResult::error(url, obj));
        i = i + 1;
    }
    out
}

/// The item answers to the key: by its id, its guid or its url.
pub open spec fn answers_to(item: Item, key: Seq<char>) -> bool {
    item.id@ == key || item.guid.deep_view() == Some(key) || item.url.deep_view() == Some(key)
}

/// The first item that answers to a key.
pub open spec fn first_answer(items: Seq<Item>, key: Seq<char>) -> Option<Item>
    decreases items.len(),
{
    if items.len() == 0 {
        None
    } else if answers_to(items[0], key) {
        Some(items[0])
    } else {
        first_answer(items.skip(1), key)
    }
}

fn has_text(s: &Option<String>, key: &str) -> (r: bool)
    ensures
        r == (s.deep_view() == Some(key@)),
{
    match s {
        Some(t) => same(t.as_str(), key),
        None => false,
    }
}

/// The first item whose id, guid or url equals `key`.
pub fn find_item(items: Vec<Item>, key: &str) -> (r: Option<Item>)
    ensures
        r == first_answer(items@, key@),
{
    let ghost all = items@;
    let mut found: Option<Item> = None;
    assert(all.skip(0) =~= all);
    for x in it: items.into_iter()
        invariant
            it.seq() == all,
            match found {
                Some(f) => first_answer(all, key@) == Some(f),
                None => first_answer(all, key@) == first_answer(all.skip(it.index()), key@),
            },
    {
        assert(x == all[it.index()]);
        assert(all.skip(it.index())[0] == x);
        assert(all.skip(it.index()).skip(1) =~= all.skip(it.index() + 1));
        if found.is_none() && (same(x.id.as_str(), key) || has_text(&x.guid, key) || has_text(
            &x.url,
            key,
        )) {
            found = Some(x);
        }
    }
    found
}

/// Every item is found by its id, by its guid and by its url: what is found answers to the same key
/// and comes no later in the feed.
pub proof fn law_every_item_is_found_by_its_keys(items: Seq<Item>, k: int, key: Seq<char>)
    requires
        0 <= k < items.len(),
        answers_to(items[k], key),
    ensures
        exists|j: int|
            0 <= j <= k && first_answer(items, key) == Some(#[trigger] items[j]) && answers_to(
                items[j],
                key,
            ),
    decreases items.len(),
{
    if answers_to(items[0], key) {
        assert(first_answer(items, key) == Some(items[0]));
    } else {
        let rest = items.skip(1);
        assert(rest[k - 1] == items[k]);
        law_every_item_is_found_by_its_keys(rest, k - 1, key);
        let j = choose|j: int|
            0 <= j <= k - 1 && first_answer(rest, key) == Some(#[trigger] rest[j]) && answers_to(
                rest[j],
                key,
            );
        assert(rest[j] == items[j + 1]);
    }
}

/// How many of the feeds failed.
pub open spec fn failed_count(feeds: Seq<FeedResult>) -> nat
    decreases feeds.len(),
{
    if feeds.len() == 0 {
        0
    } else {
        failed_count(feeds.drop_last()) + (if feeds.last().status == FeedStatus::Error {
            1nat
        } else {
            0nat
        })
    }
}

/// The exit code of an output: whether none, some or all of its feeds failed.
pub open spec fn exit_code(feeds: Seq<FeedResult>) -> i32 {
    if failed_count(feeds) == 0 {
        exit::OK
    } else if failed_count(feeds) == feeds.len() {
        exit::ALL_FAILED
    } else {
        exit::PARTIAL
    }
}

/// The process exit code for an output.
pub fn exit_code_for(output: &FetchOutput) -> (r: i32)
    ensures
        r == exit_code(output.feeds@),
{
    let mut failed: usize = 0;
    let mut i: usize = 0;
    let ghost feeds = output.feeds@;
    assert(feeds.take(0) =~= Seq::empty());
    while i < output.feeds.len()
        invariant
            feeds == output.feeds@,
            i <= feeds.len(),
            failed <= i,
            failed == failed_count(feeds.take(i as int)),
        decreases feeds.len() - i,
    {
        proof {
            assert(feeds.take(i + 1).drop_last() =~= feeds.take(i as int));
            assert(feeds.take(i + 1).last() == feeds[i as int]);
        }
        if output.feeds[i].status == FeedStatus::Error {
            failed = failed + 1;
        }
        i = i + 1;
    }
    assert(feeds.take(i as int) =~= feeds);
    if failed == 0 {
        exit::OK
    } else if failed == output.feeds.len() {
        exit::ALL_FAILED
    } else {
        exit::PARTIAL
    }
}

/// A batch's feeds and those reported as omitted are together all that were asked for, and each
/// feed stands at its URL's position.
pub proof fn law_batch_is_a_prefix_of_the_request(
    r: FetchOutput,
    start: FetchOutput,
    params: FetchParams,
    results: Seq<IndexedFetch>,
)
    requires
        is_batch(results),
        is_assembled(r, start, params, results),
        start.feeds@.len() == 0,
        start.truncation is None,
    ensures
        r.feeds@.len() + (match r.truncation {
            Some(t) => t.feeds_omitted as int,
            None => 0,
        }) == results.len(),
        forall|i: int|
            #![trigger r.feeds@[i]]
            0 <= i < r.feeds@.len() ==> (outcome_at(results, i) matches Some(f) && r.feeds@[i]
                == f.0),
        r.feeds@.len() < results.len() ==> outcome_at(results, r.feeds@.len() as int) is None,
{
    lemma_attempted(results, 0);
    let n = attempted(results);
    assert(feeds_of(prefix(results, n)).len() == n);
    assert(r.feeds@ =~= feeds_of(prefix(results, n)));
    lemma_prefix_ends_at_a_gap(results, 0);
}

proof fn lemma_prefix_ends_at_a_gap(results: Seq<IndexedFetch>, i: int)
    requires
        0 <= i <= results.len(),
    ensures
        attempted_from(results, i) < results.len() ==> outcome_at(
            results,
            attempted_from(results, i),
        ) is None,
    decreases results.len() - i,
{
    if i < results.len() && outcome_at(results, i) is Some {
        lemma_prefix_ends_at_a_gap(results, i + 1);
    }
}

/// The exit code tells the three ways in which a run can end apart.
pub proof fn law_exit_codes_tell_apart(feeds: Seq<FeedResult>)
    ensures
        exit_code(feeds) == exit::OK <==> forall|k: int|
            0 <= k < feeds.len() ==> (#[trigger] feeds[k]).status != FeedStatus::Error,
        exit_code(feeds) == exit::ALL_FAILED <==> feeds.len() > 0 && forall|k: int|
            0 <= k < feeds.len() ==> (#[trigger] feeds[k]).status == FeedStatus::Error,
    decreases feeds.len(),
{
    if feeds.len() > 0 {
        let rest = feeds.drop_last();
        law_exit_codes_tell_apart(rest);
        lemma_failed_at_most_all(rest);
        assert forall|k: int| 0 <= k < rest.len() implies #[trigger] rest[k] == feeds[k] by {}
        assert(feeds.last() == feeds[feeds.len() - 1]);
        if forall|k: int| 0 <= k < feeds.len() ==> (#[trigger] feeds[k]).status
            != FeedStatus::Error {
            assert(forall|k: int|
                0 <= k < rest.len() ==> (#[trigger] rest[k]).status != FeedStatus::Error);
        }
        if forall|k: int| 0 <= k < feeds.len() ==> (#[trigger] feeds[k]).status
            == FeedStatus::Error {
            assert(forall|k: int|
                0 <= k < rest.len() ==> (#[trigger] rest[k]).status == FeedStatus::Error);
        }
        if failed_count(rest) == 0 {
            assert(forall|k: int|
                0 <= k < rest.len() ==> (#[trigger] feeds[k]).status != FeedStatus::Error) by {
                assert forall|k: int| 0 <= k < rest.len() implies (#[trigger] feeds[k]).status
                    != FeedStatus::Error by {
                    assert(rest[k].status != FeedStatus::Error);
                }
            }
        }
        if failed_count(rest) == rest.len() && rest.len() > 0 {
            assert forall|k: int| 0 <= k < rest.len() implies (#[trigger] feeds[k]).status
                == FeedStatus::Error by {
                assert(rest[k].status == FeedStatus::Error);
            }
        }
    }
}

proof fn lemma_failed_at_most_all(feeds: Seq<FeedResult>)
    ensures
        failed_count(feeds) <= feeds.len(),
    decreases feeds.len(),
{
    if feeds.len() > 0 {
        lemma_failed_at_most_all(feeds.drop_last());
    }
}

} // verus!
