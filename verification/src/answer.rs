//! What a tool call is answered with: a `fetch_feed` page made of what was fetched, and a
//! `get_item` item.

use vstd::prelude::*;
use vstd::string::*;

use crate::args::{FetchFeedArgs, GetItemArgs};
use crate::config::{CachePolicy, DedupeMode, FetchParams};
use crate::cursor::{Cursor, CursorView};
use crate::dedupe::apply_dedupe;
use crate::error::RssError;
use crate::json::{lemma_obj_members, put, Json};
use crate::marker::{
    advise, continuation, cursor_headroom, fetch_summary, mark_stop, merge_deadline_omissions,
    offer_continuation, stamp_estimated_tokens, MarkerView, CONTENT_TRUNCATION_SUGGESTION,
    DROP_NOT_PAGEABLE_SUGGESTION, NO_CACHE_NOT_PAGEABLE_SUGGESTION,
};
use crate::mcp::{PagePlan, MCP_DEFAULT_MAX_RESPONSE_TOKENS};
use crate::model::{ErrorObj, FeedResult, FetchOutput, Item, TruncationInfo, Warning};
use crate::page::{measure, paginate, truncation_marker, PageStop};
use crate::parse::warning;
use crate::text::{number_text, same};
use crate::time::{Duration, Timestamp};
use crate::totals::{item_count, refresh_feed_counts};
use crate::wire::item_value;

verus! {

/// The first position from `k` on at which the feeds are not those requested: another one was
/// requested there, or none.
pub open spec fn gap_from(feeds: Seq<FeedResult>, requested: Seq<Seq<char>>, k: int) -> Option<int>
    decreases feeds.len() - k,
{
    if k >= feeds.len() {
        None
    } else if k >= requested.len() || feeds[k].feed_url@ != requested[k] {
        Some(k)
    } else {
        gap_from(feeds, requested, k + 1)
    }
}

/// The first position at which the feeds are no prefix of those requested.
pub open spec fn gap(feeds: Seq<FeedResult>, requested: Seq<Seq<char>>) -> Option<int> {
    gap_from(feeds, requested, 0)
}

/// The texts of a slice.
pub open spec fn text_views(v: Seq<String>) -> Seq<Seq<char>> {
    v.map_values(|s: String| s@)
}

/// The first position at which the feeds are no prefix of those requested, with the feed that is
/// there and the one that was requested.
pub fn first_position_mismatch(feeds: &Vec<FeedResult>, requested: &[String]) -> (r: Option<
    (usize, String, String),
>)
    ensures
        match (r, gap(feeds@, text_views(requested@))) {
            (Some((k, a, b)), Some(g)) => {
                &&& k == g
                &&& a@ == feeds@[g].feed_url@
                &&& b@ == (if g < requested@.len() {
                    requested@[g]@
                } else {
                    "<no url requested at this position>"@
                })
            },
            (None, None) => true,
            _ => false,
        },
{
    let mut k: usize = 0;
    while k < feeds.len()
        invariant
            k <= feeds@.len(),
            gap_from(feeds@, text_views(requested@), 0) == gap_from(
                feeds@,
                text_views(requested@),
                k as int,
            ),
        decreases feeds@.len() - k,
    {
        if k >= requested.len() {
            return Some(
                (k, feeds[k].feed_url.clone(), "<no url requested at this position>".to_owned()),
            );
        }
        assert(text_views(requested@)[k as int] == requested@[k as int]@);
        if !same(feeds[k].feed_url.as_str(), requested[k].as_str()) {
            return Some((k, feeds[k].feed_url.clone(), requested[k].clone()));
        }
        k = k + 1;
    }
    None
}

/// The window of the resumed feed moved since the cursor was made, as far as that can matter: the
/// feed was fetched, some of it was delivered, and it holds another number of items.
pub open spec fn rolled(o: FetchOutput, c: CursorView) -> bool {
    o.feeds@[0].error is None && c.i > 0 && crate::page::full(o, 0) != c.n
}

/// The warning that the window moved.
pub open spec fn rolled_warning(o: FetchOutput, c: CursorView) -> (
    Option<Seq<char>>,
    Seq<char>,
    Seq<char>,
) {
    (
        Some(o.feeds@[0].feed_url@),
        "CACHE_WINDOW_ROLLED"@,
        "feed now has "@ + crate::text::decimal(o.feeds@[0].items@.len()) + " item(s) but had "@
            + crate::text::decimal(c.n as nat)
            + " when the cursor was minted; resuming at index "@ + crate::text::decimal(c.i as nat)
            + " may skip or repeat items"@,
    )
}

/// How many items of the resumed feed were delivered before.
pub open spec fn delivered(o: FetchOutput, c: CursorView) -> int {
    if o.feeds@.len() == 0 {
        0
    } else if c.i < crate::page::full(o, 0) {
        c.i
    } else {
        crate::page::full(o, 0)
    }
}

/// The output is `o` without the items that were delivered before.
pub open spec fn is_resumed(a: FetchOutput, o: FetchOutput, c: CursorView) -> bool {
    if o.feeds@.len() == 0 {
        a == o
    } else {
        &&& a.schema_version == o.schema_version
        &&& a.fetched_at == o.fetched_at
        &&& a.errors == o.errors
        &&& a.truncation == o.truncation
        &&& a.applied_filters == o.applied_filters
        &&& a.duplicates == o.duplicates
        &&& a.warnings@.map_values(|w: Warning| crate::parse::warning_view(w))
            == o.warnings@.map_values(|w: Warning| crate::parse::warning_view(w)) + (if rolled(
            o,
            c,
        ) {
            seq![rolled_warning(o, c)]
        } else {
            Seq::empty()
        })
        &&& crate::totals::counts_hold(a)
        &&& a.feeds@.len() == o.feeds@.len()
        &&& forall|k: int|
            #![trigger a.feeds@[k]]
            0 <= k < a.feeds@.len() ==> {
                &&& crate::totals::same_shell(a.feeds@[k], o.feeds@[k])
                &&& a.feeds@[k].items@ == (if k == 0 {
                    o.feeds@[0].items@.skip(delivered(o, c))
                } else {
                    o.feeds@[k].items@
                })
            }
    }
}

/// Fewer items in each feed make for smaller totals.
proof fn lemma_totals_shrink(a: Seq<FeedResult>, b: Seq<FeedResult>)
    requires
        a.len() == b.len(),
        forall|k: int|
            #![trigger a[k]]
            0 <= k < a.len() ==> a[k].items@.len() <= b[k].items@.len()
                && crate::totals::tokens_sum(a[k].items@) <= crate::totals::tokens_sum(
                b[k].items@,
            ),
    ensures
        crate::totals::item_total(a) <= crate::totals::item_total(b),
        crate::totals::token_total(a) <= crate::totals::token_total(b),
    decreases a.len(),
{
    if a.len() > 0 {
        assert forall|k: int|
            #![trigger a.drop_last()[k]]
            0 <= k < a.drop_last().len() implies a.drop_last()[k].items@.len()
            <= b.drop_last()[k].items@.len() && crate::totals::tokens_sum(a.drop_last()[k].items@)
            <= crate::totals::tokens_sum(b.drop_last()[k].items@) by {
            assert(a.drop_last()[k] == a[k]);
        }
        lemma_totals_shrink(a.drop_last(), b.drop_last());
        assert(a.last() == a[a.len() - 1]);
    }
}

proof fn lemma_tokens_split(items: Seq<Item>, k: int)
    requires
        0 <= k <= items.len(),
    ensures
        crate::totals::tokens_sum(items) == crate::totals::tokens_sum(items.take(k))
            + crate::totals::tokens_sum(items.skip(k)),
    decreases items.len(),
{
    if k == items.len() {
        assert(items.take(k) =~= items);
        assert(items.skip(k) =~= Seq::empty());
    } else {
        lemma_tokens_split(items.drop_last(), k);
        assert(items.drop_last().take(k) =~= items.take(k));
        assert(items.skip(k).drop_last() =~= items.drop_last().skip(k));
        assert(items.skip(k).last() == items.last());
    }
}

/// Takes the items that were delivered before out of the resumed feed, which is the first, with a
/// warning where its window moved. Gives their number.
pub fn skip_delivered(out: &mut FetchOutput, c: &Cursor) -> (r: usize)
    requires
        crate::totals::counts_fit(old(out).feeds@),
    ensures
        is_resumed(*final(out), *old(out), c@),
        r == delivered(*old(out), c@),
        crate::totals::counts_fit(final(out).feeds@),
{
    let ghost o = *out;
    if out.feeds.len() == 0 {
        return 0;
    }
    let count: usize = out.feeds[0].items.len();
    if out.feeds[0].error.is_none() && c.i > 0 && count != c.n {
        let message = "feed now has ".to_owned().concat(number_text(count as u64).as_str()).concat(
            " item(s) but had ",
        ).concat(number_text(c.n as u64).as_str()).concat(
            " when the cursor was minted; resuming at index ",
        ).concat(number_text(c.i as u64).as_str()).concat(" may skip or repeat items");
        let w = warning(out.feeds[0].feed_url.as_str(), "CACHE_WINDOW_ROLLED", message);
        out.warnings.push(w);
    }
    proof {
        let before = o.warnings@.map_values(|w: Warning| crate::parse::warning_view(w));
        let after = out.warnings@.map_values(|w: Warning| crate::parse::warning_view(w));
        let extra = if rolled(o, c@) {
            seq![rolled_warning(o, c@)]
        } else {
            Seq::empty()
        };
        assert(after =~= before + extra);
    }
    let skipped: usize = if c.i < count {
        c.i
    } else {
        count
    };
    let mut items: Vec<Item> = Vec::new();
    std::mem::swap(&mut items, &mut out.feeds[0].items);
    let rest = items.split_off(skipped);
    out.feeds[0].items = rest;
    let ghost shorter = out.feeds@;
    proof {
        lemma_tokens_split(o.feeds@[0].items@, skipped as int);
        assert(shorter[0].items@ =~= o.feeds@[0].items@.skip(skipped as int));
        assert forall|k: int| #![trigger shorter[k]] 0 <= k < shorter.len() implies shorter[k].items@.len()
            <= o.feeds@[k].items@.len() && crate::totals::tokens_sum(shorter[k].items@)
            <= crate::totals::tokens_sum(o.feeds@[k].items@) by {}
        lemma_totals_shrink(shorter, o.feeds@);
    }
    refresh_feed_counts(out);
    proof {
        assert forall|k: int| #![trigger out.feeds@[k]] 0 <= k < out.feeds@.len() implies {
            &&& crate::totals::same_shell(out.feeds@[k], o.feeds@[k])
            &&& out.feeds@[k].items@ == (if k == 0 {
                o.feeds@[0].items@.skip(delivered(o, c@))
            } else {
                o.feeds@[k].items@
            })
        } by {
            assert(crate::totals::same_shell(out.feeds@[k], shorter[k]));
        }
    }
    skipped
}

/// Why a request cannot be paged, if it cannot.
pub open spec fn unpageable(dedupe: DedupeMode, policy: CachePolicy) -> Option<Seq<char>> {
    if dedupe == DedupeMode::Drop {
        Some(DROP_NOT_PAGEABLE_SUGGESTION@)
    } else if policy == CachePolicy::NoCache {
        Some(NO_CACHE_NOT_PAGEABLE_SUGGESTION@)
    } else {
        None
    }
}

/// Why a request cannot be paged, if it cannot.
pub fn no_cursor_reason(dedupe: DedupeMode, policy: CachePolicy) -> (r: Option<&'static str>)
    ensures
        crate::identity::chars(r) == unpageable(dedupe, policy),
{
    if dedupe == DedupeMode::Drop {
        return Some(DROP_NOT_PAGEABLE_SUGGESTION);
    }
    match policy {
        CachePolicy::NoCache => Some(NO_CACHE_NOT_PAGEABLE_SUGGESTION),
        _ => None,
    }
}

/// The page carries what is said: of no feed, or of one that it has.
pub open spec fn is_carried(feeds: Seq<FeedResult>, url: Option<Seq<char>>) -> bool {
    url matches Some(u) ==> exists|k: int| 0 <= k < feeds.len() && (#[trigger] feeds[k]).feed_url@ == u
}

/// The errors of feeds that the page carries.
pub open spec fn carried_errors(errors: Seq<ErrorObj>, feeds: Seq<FeedResult>) -> Seq<ErrorObj>
    decreases errors.len(),
{
    if errors.len() == 0 {
        Seq::empty()
    } else {
        let rest = carried_errors(errors.drop_last(), feeds);
        if is_carried(feeds, errors.last().feed_url.deep_view()) {
            rest.push(errors.last())
        } else {
            rest
        }
    }
}

/// The warnings on feeds that the page carries.
pub open spec fn carried_warnings(warnings: Seq<Warning>, feeds: Seq<FeedResult>) -> Seq<Warning>
    decreases warnings.len(),
{
    if warnings.len() == 0 {
        Seq::empty()
    } else {
        let rest = carried_warnings(warnings.drop_last(), feeds);
        if is_carried(feeds, warnings.last().feed_url.deep_view()) {
            rest.push(warnings.last())
        } else {
            rest
        }
    }
}

fn carries(feeds: &Vec<FeedResult>, url: &Option<String>) -> (r: bool)
    ensures
        r == is_carried(feeds@, url.deep_view()),
{
    let u = match url {
        Some(u) => u,
        None => {
            return true;
        },
    };
    let mut k: usize = 0;
    while k < feeds.len()
        invariant
            k <= feeds@.len(),
            url.deep_view() == Some(u@),
            forall|j: int| 0 <= j < k ==> (#[trigger] feeds@[j]).feed_url@ != u@,
        decreases feeds@.len() - k,
    {
        if same(feeds[k].feed_url.as_str(), u.as_str()) {
            assert(feeds@[k as int].feed_url@ == u@);
            return true;
        }
        k = k + 1;
    }
    false
}

fn keep_errors(errors: Vec<ErrorObj>, feeds: &Vec<FeedResult>) -> (r: Vec<ErrorObj>)
    ensures
        r@ == carried_errors(errors@, feeds@),
{
    let ghost all = errors@;
    let mut out: Vec<ErrorObj> = Vec::new();
    assert(all.take(0) =~= Seq::empty());
    for e in it: errors.into_iter()
        invariant
            it.seq() == all,
            out@ == carried_errors(all.take(it.index()), feeds@),
    {
        proof {
            assert(e == all[it.index()]);
            assert(all.take(it.index() + 1).drop_last() =~= all.take(it.index()));
            assert(all.take(it.index() + 1).last() == e);
        }
        if carries(feeds, &e.feed_url) {
            out.push(e);
        }
    }
    assert(all.take(all.len() as int) =~= all);
    out
}

fn keep_warnings(warnings: Vec<Warning>, feeds: &Vec<FeedResult>) -> (r: Vec<Warning>)
    ensures
        r@ == carried_warnings(warnings@, feeds@),
{
    let ghost all = warnings@;
    let mut out: Vec<Warning> = Vec::new();
    assert(all.take(0) =~= Seq::empty());
    for w in it: warnings.into_iter()
        invariant
            it.seq() == all,
            out@ == carried_warnings(all.take(it.index()), feeds@),
    {
        proof {
            assert(w == all[it.index()]);
            assert(all.take(it.index() + 1).drop_last() =~= all.take(it.index()));
            assert(all.take(it.index() + 1).last() == w);
        }
        if carries(feeds, &w.feed_url) {
            out.push(w);
        }
    }
    assert(all.take(all.len() as int) =~= all);
    out
}

/// Drops the errors of, and the warnings on, feeds that a page does not carry.
pub fn drop_orphans(out: &mut FetchOutput)
    ensures
        final(out).errors@ == carried_errors(old(out).errors@, old(out).feeds@),
        final(out).warnings@ == carried_warnings(old(out).warnings@, old(out).feeds@),
        final(out).schema_version == old(out).schema_version,
        final(out).fetched_at == old(out).fetched_at,
        final(out).total_items == old(out).total_items,
        final(out).total_content_tokens_est == old(out).total_content_tokens_est,
        final(out).feeds == old(out).feeds,
        final(out).truncation == old(out).truncation,
        final(out).applied_filters == old(out).applied_filters,
        final(out).duplicates == old(out).duplicates,
{
    let mut errors: Vec<ErrorObj> = Vec::new();
    let mut warnings: Vec<Warning> = Vec::new();
    std::mem::swap(&mut errors, &mut out.errors);
    std::mem::swap(&mut warnings, &mut out.warnings);
    let e = keep_errors(errors, &out.feeds);
    let w = keep_warnings(warnings, &out.feeds);
    out.errors = e;
    out.warnings = w;
}

/// What the calls of one page have in common: where in the request it starts, how much of the first
/// feed was delivered before, and whether it may have a continuation.
#[derive(Debug, Clone, Copy)]
pub struct PageStart {
    pub feed: usize,
    pub skipped: usize,
    pub may_mint: bool,
}

/// Where a page stops: the feed and item that it resumes at, how many items that feed has, and how
/// much is left.
pub struct StopView {
    pub feed_idx: int,
    pub item_idx: int,
    pub feed_item_count: int,
    pub items_omitted: int,
    pub feeds_omitted: int,
}

/// The stop of the page of the first `nf` feeds, the last with `m` items.
pub open spec fn stop_of(o: FetchOutput, nf: int, m: int) -> StopView {
    let (rf, ri) = crate::page::resume_at(o, nf, m);
    StopView {
        feed_idx: rf,
        item_idx: ri,
        feed_item_count: crate::page::full(o, rf),
        items_omitted: crate::totals::item_total(o.feeds@) - crate::page::page_items(o, nf, m),
        feeds_omitted: o.feeds@.len() - nf,
    }
}

/// How much of the feed that a page stops in was delivered before the page.
pub open spec fn already_delivered(start: PageStart, stop: StopView) -> int {
    if stop.feed_idx == 0 {
        start.skipped as int
    } else {
        0
    }
}

/// Where in the whole request the page after a stop resumes: the feed, and the item of it.
pub open spec fn position_after(start: PageStart, stop: StopView) -> (int, int) {
    (start.feed + stop.feed_idx, already_delivered(start, stop) + stop.item_idx)
}

/// The cursor of a plan's request that resumes at item `i` of feed `f`, which held `n` items.
pub open spec fn cursor_at(plan: PagePlan, f: int, i: int, n: int) -> CursorView {
    CursorView {
        v: crate::cursor::CURSOR_VERSION as int,
        fp: plan.fp@,
        f,
        i,
        n,
        s: crate::marker::window_secs(plan.params),
    }
}

/// The cursor of the page after a page of this many feeds: at its stop, or at the first of the feeds
/// that the deadline left out.
pub open spec fn cursor_after(
    plan: PagePlan,
    start: PageStart,
    feeds: int,
    stop: Option<StopView>,
) -> CursorView {
    match stop {
        Some(s) => {
            let (f, i) = position_after(start, s);
            cursor_at(plan, f, i, already_delivered(start, s) + s.feed_item_count)
        },
        None => cursor_at(plan, start.feed + feeds, 0, 0),
    }
}

/// The token of a page's continuation: its stop, with positions in the whole request and in the whole
/// feed.
pub open spec fn stop_token(plan: PagePlan, start: PageStart, stop: StopView) -> Seq<char> {
    crate::marker::continuation_text(
        plan.fp@,
        plan.params,
        position_after(start, stop).0,
        position_after(start, stop).1,
        already_delivered(start, stop) + stop.feed_item_count,
    )
}

/// The marker of items whose content was cut short.
pub open spec fn content_marker(limit: Option<usize>, cut: nat) -> Option<MarkerView> {
    if cut == 0 {
        None
    } else {
        Some(
            MarkerView {
                applied_limit: limit,
                items_content_truncated: cut as int,
                items_omitted: 0,
                feeds_omitted: 0,
                next_cursor: None,
                estimated_tokens: None,
                suggestion: Some(CONTENT_TRUNCATION_SUGGESTION@),
            },
        )
    }
}

/// The marker of a page, as its own stop makes it.
pub open spec fn budget_marker(
    plan: PagePlan,
    start: PageStart,
    cut: nat,
    stop: Option<StopView>,
) -> Option<MarkerView> {
    let base = content_marker(plan.params.limit, cut);
    match stop {
        None => base,
        Some(s) => {
            let m = crate::marker::stopped(base, plan.params.limit, s.items_omitted, s.feeds_omitted);
            Some(
                if start.may_mint {
                    crate::marker::with_continuation(m, stop_token(plan, start, s))
                } else {
                    match unpageable(plan.dedupe, plan.params.cache_policy) {
                        Some(reason) => crate::marker::with_advice(m, reason),
                        None => m,
                    }
                },
            )
        },
    }
}

/// The marker of a page that did not stop: where the deadline left feeds out, it resumes at the
/// first of them, or says why it cannot.
pub open spec fn deadline_marker(
    plan: PagePlan,
    start: PageStart,
    feeds: int,
    m: Option<MarkerView>,
) -> Option<MarkerView> {
    match m {
        Some(x) => if x.feeds_omitted > 0 {
            let y = if start.may_mint {
                MarkerView {
                    next_cursor: Some(
                        crate::marker::continuation_text(
                            plan.fp@,
                            plan.params,
                            start.feed + feeds,
                            0,
                            0,
                        ),
                    ),
                    ..x
                }
            } else {
                x
            };
            match unpageable(plan.dedupe, plan.params.cache_policy) {
                Some(reason) => Some(crate::marker::with_advice(y, reason)),
                None => Some(y),
            }
        } else {
            m
        },
        None => None,
    }
}

/// The marker of a page: that of its own stop, with what the deadline left out.
pub open spec fn page_marker(
    plan: PagePlan,
    start: PageStart,
    feeds: int,
    cut: nat,
    stop: Option<StopView>,
    deadline: Option<MarkerView>,
) -> Option<MarkerView> {
    let m = crate::marker::merged(budget_marker(plan, start, cut, stop), deadline);
    if stop is None {
        deadline_marker(plan, start, feeds, m)
    } else {
        m
    }
}

/// The request accepts a token that is sent back with it: the token reads as a cursor that nothing is
/// wrong with.
pub open spec fn is_accepted(token: Seq<char>, plan: PagePlan) -> bool {
    crate::cursor::token_value(token) matches Ok(c) && crate::mcp::resume_value(
        Some(token),
        crate::cursor::token_value(token),
        plan.fp@,
        plan.urls@.len() as int,
    ) == Ok::<Option<CursorView>, Seq<char>>(Some(c))
}

/// The continuation of an answer that was made of `o`, if it has one, reads back as a cursor.
pub open spec fn reads_back(ans: FetchOutput, o: FetchOutput, c: CursorView) -> bool {
    (o.truncation matches Some(d) ==> d.next_cursor is None) ==> (ans.truncation matches Some(t) ==> (
    t.next_cursor matches Some(token) ==> crate::cursor::token_value(token@) == Ok::<
        CursorView,
        Seq<char>,
    >(c)))
}

/// The plan's window opens at an instant that can be held.
pub open spec fn has_valid_window(plan: PagePlan) -> bool {
    plan.params.since matches Some(t) ==> crate::time::instant_value(t.secs as int) is Some
}

/// Where a page stops, or what the deadline left out after it, is within the request.
pub open spec fn is_within_request(
    plan: PagePlan,
    start: PageStart,
    feeds: int,
    stop: Option<StopView>,
    omitted: int,
) -> bool {
    match stop {
        Some(s) => start.feed + s.feed_idx < plan.urls@.len(),
        None => start.feed + feeds + omitted <= plan.urls@.len(),
    }
}

/// Marks a page that is cut short.
fn mark_page(
    plan: &PagePlan,
    start: PageStart,
    out: &FetchOutput,
    stop: Option<PageStop>,
    deadline: Option<TruncationInfo>,
    Ghost(whole): Ghost<Option<StopView>>,
) -> (r: Option<TruncationInfo>)
    requires
        crate::totals::item_total(out.feeds@) <= usize::MAX,
        start.feed + out.feeds@.len() <= usize::MAX,
        match (stop, whole) {
            (Some(s), Some(w)) => {
                &&& s.feed_idx == w.feed_idx
                &&& s.item_idx == w.item_idx
                &&& s.feed_item_count == w.feed_item_count
                &&& s.items_omitted == w.items_omitted
                &&& s.feeds_omitted == w.feeds_omitted
                &&& start.may_mint ==> start.feed + s.feed_idx <= usize::MAX
                &&& s.feed_idx == 0 ==> start.skipped + s.item_idx <= usize::MAX && start.skipped
                    + s.feed_item_count <= usize::MAX
                &&& s.feeds_omitted + crate::marker::omitted_by(deadline) <= usize::MAX
            },
            (None, None) => true,
            _ => false,
        },
        crate::marker::omitted_by(deadline) <= usize::MAX,
        start.may_mint ==> unpageable(plan.dedupe, plan.params.cache_policy) is None,
    ensures
        crate::marker::marker_view(r) == page_marker(
            *plan,
            start,
            out.feeds@.len() as int,
            crate::page::cut_total(out.feeds@),
            whole,
            crate::marker::marker_view(deadline),
        ),
        crate::hash::is_short_hash(plan.fp@) && crate::room::is_batch_marker(
            crate::marker::marker_view(deadline),
        ) ==> (r matches Some(t) ==> crate::room::has_narrow_token(t@.next_cursor)),
        (deadline matches Some(d) ==> d.next_cursor is None) ==> (r matches Some(t) ==> (
        t.next_cursor matches Some(token) ==> crate::cursor::token_value(token@) == Ok::<
            CursorView,
            Seq<char>,
        >(cursor_after(*plan, start, out.feeds@.len() as int, whole)))),
        has_valid_window(*plan) && is_within_request(
            *plan,
            start,
            out.feeds@.len() as int,
            whole,
            crate::marker::omitted_by(deadline),
        ) && (deadline matches Some(d) ==> d.next_cursor is None) ==> (r matches Some(t) ==> (
        t.next_cursor matches Some(token) ==> is_accepted(token@, *plan))),
{
    let reason = no_cursor_reason(plan.dedupe, plan.params.cache_policy);
    let base = truncation_marker(
        out,
        plan.params.limit,
        Some(CONTENT_TRUNCATION_SUGGESTION.to_owned()),
    );
    let stopped = stop.is_some();
    let mut marker = match stop {
        Some(s) => {
            let m = mark_stop(base, plan.params.limit, &s);
            Some(
                if start.may_mint {
                    let already: usize = if s.feed_idx == 0 {
                        start.skipped
                    } else {
                        0
                    };
                    let token = continuation(
                        plan.fp.as_str(),
                        &plan.params,
                        start.feed + s.feed_idx,
                        already + s.item_idx,
                        already + s.feed_item_count,
                    );
                    offer_continuation(m, token)
                } else {
                    match reason {
                        Some(why) => advise(m, why),
                        None => m,
                    }
                },
            )
        },
        None => base,
    };
    merge_deadline_omissions(&mut marker, deadline);
    if stopped {
        return marker;
    }
    match marker {
        Some(m) => if m.feeds_omitted > 0 {
            let with_cursor = if start.may_mint {
                let token = continuation(
                    plan.fp.as_str(),
                    &plan.params,
                    start.feed + out.feeds.len(),
                    0,
                    0,
                );
                TruncationInfo { next_cursor: Some(token), ..m }
            } else {
                m
            };
            match reason {
                Some(why) => Some(advise(with_cursor, why)),
                None => Some(with_cursor),
            }
        } else {
            Some(m)
        },
        None => None,
    }
}

/// A page and the line that sums it up.
#[derive(Debug)]
pub struct PageAnswer {
    pub output: FetchOutput,
    pub summary: String,
}

/// The answer is a page with this marker, and the errors and warnings that belong to it.
pub open spec fn is_answer(
    ans: PageAnswer,
    page: FetchOutput,
    marker: Option<MarkerView>,
    url: Seq<char>,
) -> bool {
    &&& ans.output.schema_version == page.schema_version
    &&& ans.output.fetched_at == page.fetched_at
    &&& ans.output.total_items == page.total_items
    &&& ans.output.total_content_tokens_est == page.total_content_tokens_est
    &&& ans.output.feeds == page.feeds
    &&& ans.output.errors@ == carried_errors(page.errors@, page.feeds@)
    &&& ans.output.warnings@ == carried_warnings(page.warnings@, page.feeds@)
    &&& ans.output.applied_filters == page.applied_filters
    &&& ans.output.duplicates == page.duplicates
    &&& is_sized_marker(ans.output, marker)
    &&& ans.summary@ == crate::marker::summary_text(ans.output, url)
}

/// The output's marker is the one wanted, with the size of the response written on it.
pub open spec fn is_sized_marker(o: FetchOutput, marker: Option<MarkerView>) -> bool {
    match marker {
        None => o.truncation is None,
        Some(m) => exists|unsized_output: FetchOutput|
            crate::marker::marker_view(unsized_output.truncation) == Some(m)
                && #[trigger] crate::marker::is_stamped(o, unsized_output),
    }
}

/// The URL that a page is reported under.
pub open spec fn primary(plan: PagePlan) -> Seq<char> {
    plan.urls@[0]@
}

/// The output without its marker.
pub open spec fn unmarked(o: FetchOutput) -> FetchOutput {
    FetchOutput { truncation: None, ..o }
}

/// The token budget of a page before its marker.
pub open spec fn page_budget(plan: PagePlan) -> int {
    if plan.budget < crate::marker::headroom() {
        0
    } else {
        plan.budget - crate::marker::headroom()
    }
}

/// What a page that can ship no item is answered with. On a continuation it says that the pages
/// before it stand.
pub open spec fn is_overflow(e: ErrorObj, o: FetchOutput, plan: PagePlan) -> bool {
    exists|err: RssError|
        {
            &&& #[trigger] crate::page::is_too_large(
                err,
                crate::page::response_tokens(o) as int,
                page_budget(plan),
                crate::totals::item_total(o.feeds@) as int,
            )
            &&& e.code@ == err.code_text()
            &&& e.feed_url.deep_view() == Some(primary(plan))
            &&& e.message@ == (if plan.resume is Some {
                err.message_text()
                    + " (this is a continuation page: the pages you already received are still valid \u{2014} retry this same cursor with a larger max_response_tokens or a smaller max_content_chars)"@
            } else {
                err.message_text()
            })
            &&& e.details@ == (if plan.resume is Some {
                crate::json::JsonView::Obj(
                    err.details()->Obj_0.push(
                        ("continuation"@, crate::json::JsonView::Bool(true)),
                    ),
                )
            } else {
                err.details()
            })
    }
}

fn overflow_error(err: &RssError, plan: &PagePlan) -> (r: ErrorObj)
    requires
        plan.urls@.len() > 0,
        err is ResponseTooLarge,
    ensures
        r.code@ == err.code_text(),
        r.feed_url.deep_view() == Some(primary(*plan)),
        r.message@ == (if plan.resume is Some {
            err.message_text()
                + " (this is a continuation page: the pages you already received are still valid \u{2014} retry this same cursor with a larger max_response_tokens or a smaller max_content_chars)"@
        } else {
            err.message_text()
        }),
        r.details@ == (if plan.resume is Some {
            crate::json::JsonView::Obj(
                err.details()->Obj_0.push(("continuation"@, crate::json::JsonView::Bool(true))),
            )
        } else {
            err.details()
        }),
{
    broadcast use lemma_obj_members;

    let obj = err.to_error_obj(Some(plan.urls[0].as_str()));
    if plan.resume.is_none() {
        return obj;
    }
    let message = obj.message.concat(
        " (this is a continuation page: the pages you already received are still valid \u{2014} retry this same cursor with a larger max_response_tokens or a smaller max_content_chars)",
    );
    let details = match obj.details {
        Json::Obj(f) => {
            let ghost before = crate::json::members(f@);
            let mut g = f;
            put(&mut g, "continuation", Json::Bool(true));
            assert(crate::json::members(g@) =~= before.push(
                ("continuation"@, crate::json::JsonView::Bool(true)),
            ));
            Json::Obj(g)
        },
        other => other,
    };
    ErrorObj { feed_url: obj.feed_url, code: obj.code, message, details }
}

/// The answer to a page of `o`: all of it where it fits, as much as fits where it does not, and an
/// error where nothing does.
pub open spec fn is_bounded(
    r: Result<PageAnswer, ErrorObj>,
    o: FetchOutput,
    plan: PagePlan,
    start: PageStart,
) -> bool {
    let all = unmarked(o);
    let deadline = crate::marker::marker_view(o.truncation);
    if crate::page::response_tokens(all) <= page_budget(plan) {
        r matches Ok(ans) && is_answer(
            ans,
            all,
            page_marker(
                plan,
                start,
                all.feeds@.len() as int,
                crate::page::cut_total(all.feeds@),
                None,
                deadline,
            ),
            primary(plan),
        ) && reads_back(ans.output, o, cursor_after(plan, start, all.feeds@.len() as int, None))
    } else {
        match crate::page::page_end(all, page_budget(plan)) {
            None => r matches Err(e) && is_overflow(e, all, plan),
            Some((nf, m)) => r matches Ok(ans) && reads_back(
                ans.output,
                o,
                cursor_after(plan, start, nf, Some(stop_of(all, nf, m))),
            ) && exists|page: FetchOutput|
                #[trigger] crate::page::is_page(page, all, nf, m) && is_answer(
                    ans,
                    page,
                    page_marker(
                        plan,
                        start,
                        nf,
                        crate::page::cut_total(page.feeds@),
                        Some(stop_of(all, nf, m)),
                        deadline,
                    ),
                    primary(plan),
                ),
        }
    }
}

/// The plan has a request's fingerprint, and the output a batch's marker, if it has one.
pub open spec fn is_batch_request(plan: PagePlan, o: FetchOutput) -> bool {
    &&& crate::hash::is_short_hash(plan.fp@)
    &&& crate::room::is_batch_marker(crate::marker::marker_view(o.truncation))
}

/// What was fetched, with what the deadline left out, is no more than the request asks for from a feed
/// on.
pub open spec fn is_part_of_request(plan: PagePlan, feed: int, o: FetchOutput) -> bool {
    &&& has_valid_window(plan)
    &&& feed + o.feeds@.len() + crate::marker::omitted_by(o.truncation) <= plan.urls@.len()
    &&& o.truncation matches Some(d) ==> d.next_cursor is None
}

/// The continuation of a page, if it has one, is accepted by the page's own request.
pub open spec fn has_accepted_cursor(o: FetchOutput, plan: PagePlan) -> bool {
    o.truncation matches Some(t) ==> (t.next_cursor matches Some(token) ==> is_accepted(
        token@,
        plan,
    ))
}

/// Fills a page up to its budget, which what goes out keeps within, marker and notes included.
pub fn bound_page(out: FetchOutput, plan: &PagePlan, start: PageStart) -> (r: Result<
    PageAnswer,
    ErrorObj,
>)
    requires
        crate::totals::counts_fit(out.feeds@),
        plan.urls@.len() > 0,
        start.feed + out.feeds@.len() <= usize::MAX,
        out.feeds@.len() > 0 ==> start.skipped + out.feeds@[0].items@.len() <= usize::MAX,
        out.feeds@.len() + crate::marker::omitted_by(out.truncation) <= usize::MAX,
        start.may_mint ==> unpageable(plan.dedupe, plan.params.cache_policy) is None,
    ensures
        is_bounded(r, out, *plan, start),
        is_batch_request(*plan, out) ==> (r matches Ok(ans) ==> crate::room::emitted_tokens(
            ans.output,
        ) <= plan.budget),
        is_part_of_request(*plan, start.feed as int, out) ==> (r matches Ok(ans)
            ==> has_accepted_cursor(ans.output, *plan)),
{
    let mut page = out;
    let mut deadline: Option<TruncationInfo> = None;
    std::mem::swap(&mut deadline, &mut page.truncation);
    let ghost all = page;
    assert(all == unmarked(out));
    let held: usize = cursor_headroom();
    let budget: usize = if plan.budget < held {
        0
    } else {
        plan.budget - held
    };
    let stop = match paginate(&mut page, budget) {
        Ok(s) => s,
        Err(e) => {
            assert(crate::page::is_too_large(
                e,
                crate::page::response_tokens(all) as int,
                page_budget(*plan),
                crate::totals::item_total(all.feeds@) as int,
            ));
            return Err(overflow_error(&e, plan));
        },
    };
    let ghost cut_page = page;
    let ghost whole = match stop {
        None => None,
        Some(_) => {
            let (nf, m) = crate::page::page_end(all, budget as int)->Some_0;
            Some(stop_of(all, nf, m))
        },
    };
    proof {
        if stop is Some {
            let (nf, m) = crate::page::page_end(all, budget as int)->Some_0;
            crate::page::law_page_makes_progress(all, budget as int);
        }
    }
    drop_orphans(&mut page);
    let ghost bare = page;
    let ghost late = crate::marker::marker_view(deadline);
    let marker = mark_page(plan, start, &page, stop, deadline, Ghost(whole));
    page.truncation = marker;
    let ghost unsized_output = page;
    stamp_estimated_tokens(&mut page);
    let summary = fetch_summary(&page, plan.urls[0].as_str());
    let ans = PageAnswer { output: page, summary };
    proof {
        assert(crate::marker::is_stamped(page, unsized_output));
        assert(is_sized_marker(page, crate::marker::marker_view(marker)));
        assert(is_answer(ans, cut_page, crate::marker::marker_view(marker), primary(*plan)));
        if is_batch_request(*plan, out) {
            crate::room::law_no_marker_is_wider(
                *plan,
                start,
                bare.feeds@.len() as int,
                crate::page::cut_total(bare.feeds@),
                whole,
                late,
                page.truncation->Some_0.estimated_tokens,
            );
            crate::room::lemma_marked_page_fits(
                cut_page,
                bare,
                unsized_output,
                page,
                plan.budget as int,
            );
        }
    }
    Ok(ans)
}

/// The answer to a continuation that has nothing left to deliver: the empty page, which resumes at
/// the feeds that the deadline left out, if it left out any.
pub open spec fn is_drained(ans: PageAnswer, o: FetchOutput, plan: PagePlan, start: PageStart) -> bool {
    &&& ans.summary@ == crate::marker::summary_text(ans.output, primary(plan))
    &&& reads_back(ans.output, o, cursor_after(plan, start, o.feeds@.len() as int, None))
    &&& exists|last: FetchOutput|
        {
            &&& #[trigger] crate::marker::is_stamped(ans.output, last)
            &&& crate::totals::same_envelope(
                FetchOutput { truncation: last.truncation, ..o },
                last,
            )
            &&& last.feeds == o.feeds
            &&& last.total_items == o.total_items
            &&& last.total_content_tokens_est == o.total_content_tokens_est
            &&& crate::marker::marker_view(last.truncation) == drained_marker(
                crate::marker::marker_view(o.truncation),
                plan,
                start,
                o.feeds@.len() as int,
            )
        }
}

/// The marker of a continuation that has nothing left to deliver.
pub open spec fn drained_marker(
    m: Option<MarkerView>,
    plan: PagePlan,
    start: PageStart,
    feeds: int,
) -> Option<MarkerView> {
    match m {
        Some(x) => if start.may_mint && feeds > 0 && x.feeds_omitted > 0 {
            Some(
                MarkerView {
                    next_cursor: Some(
                        crate::marker::continuation_text(
                            plan.fp@,
                            plan.params,
                            start.feed + feeds,
                            0,
                            0,
                        ),
                    ),
                    ..x
                },
            )
        } else {
            m
        },
        None => None,
    }
}

/// Answers a continuation that has nothing left to deliver.
pub fn finish_drained(out: FetchOutput, plan: &PagePlan, start: PageStart) -> (r: PageAnswer)
    requires
        plan.urls@.len() > 0,
        start.feed + out.feeds@.len() <= usize::MAX,
    ensures
        is_drained(r, out, *plan, start),
        is_part_of_request(*plan, start.feed as int, out) ==> has_accepted_cursor(r.output, *plan),
{
    let mut page = out;
    let mut marker: Option<TruncationInfo> = None;
    std::mem::swap(&mut marker, &mut page.truncation);
    page.truncation = match marker {
        Some(m) => if start.may_mint && page.feeds.len() > 0 && m.feeds_omitted > 0 {
            let token = continuation(
                plan.fp.as_str(),
                &plan.params,
                start.feed + page.feeds.len(),
                0,
                0,
            );
            Some(TruncationInfo { next_cursor: Some(token), ..m })
        } else {
            Some(m)
        },
        None => None,
    };
    let ghost last = page;
    stamp_estimated_tokens(&mut page);
    let summary = fetch_summary(&page, plan.urls[0].as_str());
    assert(crate::marker::is_stamped(page, last));
    PageAnswer { output: page, summary }
}

/// The output is `a` once a dedupe mode was applied.
pub open spec fn is_deduped(b: FetchOutput, a: FetchOutput, mode: DedupeMode) -> bool {
    &&& crate::totals::same_envelope(b, (FetchOutput { duplicates: b.duplicates, ..a }))
    &&& if mode == DedupeMode::Off {
        b.duplicates@.len() == 0
    } else {
        crate::dedupe::are_groups(b.duplicates@, a.feeds@)
    }
    &&& if mode == DedupeMode::Drop && b.duplicates@.len() > 0 {
        &&& crate::dedupe::are_collapsed(b.feeds@, a.feeds@, b.duplicates@)
        &&& crate::totals::counts_hold(b)
    } else {
        &&& b.feeds == a.feeds
        &&& b.total_items == a.total_items
        &&& b.total_content_tokens_est == a.total_content_tokens_est
    }
}

/// The output is `o` without what earlier pages delivered, if this page continues others.
pub open spec fn is_continued(a: FetchOutput, o: FetchOutput, resume: Option<Cursor>) -> bool {
    match resume {
        Some(c) => is_resumed(a, o, c@),
        None => a == o,
    }
}

/// Where a page of `o` starts: at the cursor's feed, past what was delivered of it. It may have a
/// continuation where the fetched feeds are a prefix of those asked for and the request can be paged.
pub open spec fn start_of(plan: PagePlan, o: FetchOutput) -> PageStart {
    let feed = match plan.resume {
        Some(c) => c.f,
        None => 0,
    };
    PageStart {
        feed,
        skipped: match plan.resume {
            Some(c) => delivered(o, c@) as usize,
            None => 0,
        },
        may_mint: gap(o.feeds@, text_views(plan.urls@.skip(feed as int))) is None && unpageable(
            plan.dedupe,
            plan.params.cache_policy,
        ) is None,
    }
}

/// The answer to a call whose request `plan` is and for which `o` was fetched.
pub open spec fn is_page_answer(r: Result<PageAnswer, ErrorObj>, o: FetchOutput, plan: PagePlan) -> bool {
    exists|a: FetchOutput, b: FetchOutput|
        {
            &&& #[trigger] is_continued(a, o, plan.resume)
            &&& #[trigger] is_deduped(b, a, plan.dedupe)
            &&& if plan.resume is Some && crate::totals::item_total(b.feeds@) == 0 {
                r matches Ok(ans) && is_drained(ans, b, plan, start_of(plan, o))
            } else {
                is_bounded(r, b, plan, start_of(plan, o))
            }
        }
}

/// Makes the page of a call out of what was fetched for it: without what earlier pages delivered, with
/// its duplicates grouped, and bounded to its budget. What goes out keeps within the budget, marker and
/// notes included, but for a continuation that has nothing left to deliver; and its cursor, if it has
/// one, is accepted with the same request.
pub fn finish_page(out: FetchOutput, plan: &PagePlan) -> (r: Result<PageAnswer, ErrorObj>)
    requires
        crate::totals::counts_fit(out.feeds@),
        plan.urls@.len() > 0,
        plan.resume matches Some(c) ==> c.f < plan.urls@.len(),
        out.feeds@.len() + plan.urls@.len() <= usize::MAX,
        out.feeds@.len() + crate::marker::omitted_by(out.truncation) <= usize::MAX,
    ensures
        is_page_answer(r, out, *plan),
        is_batch_request(*plan, out) ==> (r matches Ok(ans) ==> (plan.resume is None
            || crate::totals::item_total(ans.output.feeds@) > 0 ==> crate::room::emitted_tokens(
            ans.output,
        ) <= plan.budget)),
        is_part_of_request(*plan, start_of(*plan, out).feed as int, out) ==> (r matches Ok(ans)
            ==> has_accepted_cursor(ans.output, *plan)),
{
    let ghost o = out;
    let feed: usize = match &plan.resume {
        Some(c) => c.f,
        None => 0,
    };
    let requested = vstd::slice::slice_subrange(plan.urls.as_slice(), feed, plan.urls.len());
    assert(requested@ =~= plan.urls@.skip(feed as int));
    let lined_up = first_position_mismatch(&out.feeds, requested).is_none();
    let pageable = no_cursor_reason(plan.dedupe, plan.params.cache_policy).is_none();
    let mut page = out;
    let skipped: usize = match &plan.resume {
        Some(c) => skip_delivered(&mut page, c),
        None => 0,
    };
    let ghost a = page;
    let start = PageStart { feed, skipped, may_mint: lined_up && pageable };
    assert(start == start_of(*plan, o));
    apply_dedupe(&mut page, plan.dedupe);
    let ghost b = page;
    proof {
        assert(is_continued(a, o, plan.resume));
        assert(is_deduped(b, a, plan.dedupe));
        lemma_dedupe_keeps_room(b, a, plan.dedupe);
        if o.feeds@.len() > 0 {
            assert(a.feeds@[0].items@.len() + skipped <= o.feeds@[0].items@.len());
            assert(o.feeds@[0].items.len() <= usize::MAX);
        }
    }
    if plan.resume.is_some() && item_count(&page) == 0 {
        return Ok(finish_drained(page, plan, start));
    }
    bound_page(page, plan, start)
}

proof fn lemma_dedupe_keeps_room(b: FetchOutput, a: FetchOutput, mode: DedupeMode)
    requires
        is_deduped(b, a, mode),
        crate::totals::counts_fit(a.feeds@),
    ensures
        crate::totals::counts_fit(b.feeds@),
        b.feeds@.len() == a.feeds@.len(),
        forall|k: int|
            0 <= k < a.feeds@.len() ==> (#[trigger] b.feeds@[k]).items@.len()
                <= a.feeds@[k].items@.len(),
{
    assert forall|k: int| 0 <= k < a.feeds@.len() implies (#[trigger] b.feeds@[k]).items@.len()
        <= a.feeds@[k].items@.len() by {
        if mode == DedupeMode::Drop && b.duplicates@.len() > 0 {
            assert(crate::totals::same_shell(b.feeds@[k], a.feeds@[k]));
            crate::dedupe::lemma_surviving_is_smaller(
                a.feeds@[k].items@,
                crate::dedupe::occurrences(a.feeds@),
                crate::totals::item_total(a.feeds@.take(k)) as int,
                b.duplicates@,
            );
        }
    }
}

/// The parameters of a `get_item` call: cache-first, so that an item seen before survives a feed
/// whose window moved on.
pub fn item_params(args: &GetItemArgs) -> (r: FetchParams)
    ensures
        r.max_content_chars == args.max_content_chars,
        r.cache_policy == CachePolicy::CacheFirst,
        r.content_format == crate::model::ContentFormat::Markdown,
        r.limit is None,
        r.since is None,
        r.query is None,
        r.concurrency == 8,
        r.timeout.millis == 30_000,
        r.user_agent@ == crate::config::DEFAULT_USER_AGENT@,
        r.deadline is None,
{
    let mut p = FetchParams::default();
    p.max_content_chars = args.max_content_chars;
    p.cache_policy = CachePolicy::CacheFirst;
    p
}

/// The error of a single item that is over the budget on its own.
pub open spec fn item_too_large(tokens: nat) -> RssError {
    RssError::ResponseTooLarge {
        estimated_tokens: tokens as usize,
        budget_tokens: MCP_DEFAULT_MAX_RESPONSE_TOKENS,
        suggested_limit: 1,
        suggested_max_content_chars: 28_000,
    }
}

/// The line that sums an item up.
pub open spec fn item_summary(i: Item) -> Seq<char> {
    "Item "@ + i.id@ + ": \""@ + (match i.title {
        Some(t) => t@,
        None => "(untitled)"@,
    }) + "\"."@
}

/// Answers a `get_item` call with what the lookup found: the item and the line that sums it up, or an
/// error where there is no such item, where it is over the budget, or where the feed failed.
pub fn answer_item(args: &GetItemArgs, found: Result<Option<Item>, RssError>) -> (r: Result<
    (Item, String),
    ErrorObj,
>)
    ensures
        match found {
            Ok(Some(i)) => {
                let tokens = crate::page::json_tokens(crate::wire::item_json(i));
                if tokens > MCP_DEFAULT_MAX_RESPONSE_TOKENS {
                    r matches Err(e) && crate::batch::is_error_of(
                        e,
                        item_too_large(tokens),
                        args.feed_url@,
                    ) && tokens <= usize::MAX
                } else {
                    r matches Ok(p) && p.0 == i && p.1@ == item_summary(i)
                }
            },
            Ok(None) => r matches Err(e) && e.code@ == "NOT_FOUND"@ && e.message@ == "item '"@
                + args.id@ + "' not found in "@ + args.feed_url@ && e.feed_url.deep_view() == Some(
                args.feed_url@,
            ) && e.details@ == crate::json::JsonView::Obj(Seq::empty()),
            Err(err) => r matches Err(e) && crate::batch::is_error_of(e, err, args.feed_url@),
        },
{
    let url = args.feed_url.as_str();
    match found {
        Ok(Some(i)) => {
            let tokens: usize = measure(&item_value(&i));
            if tokens > MCP_DEFAULT_MAX_RESPONSE_TOKENS {
                let e = RssError::ResponseTooLarge {
                    estimated_tokens: tokens,
                    budget_tokens: MCP_DEFAULT_MAX_RESPONSE_TOKENS,
                    suggested_limit: 1,
                    suggested_max_content_chars: 28_000,
                };
                return Err(e.to_error_obj(Some(url)));
            }
            let title = match &i.title {
                Some(t) => t.as_str(),
                None => "(untitled)",
            };
            let summary = "Item ".to_owned().concat(i.id.as_str()).concat(": \"").concat(
                title,
            ).concat("\".");
            Ok((i, summary))
        },
        Ok(None) => Err(
            ErrorObj::new(
                "NOT_FOUND",
                "item '".to_owned().concat(args.id.as_str()).concat("' not found in ").concat(
                    url,
                ).as_str(),
            ).with_feed(url),
        ),
        Err(e) => Err(e.to_error_obj(Some(url))),
    }
}

/// The line that sums a discovery up.
pub fn discover_summary(feeds: usize, site_url: &str) -> (r: String)
    ensures
        r@ == "Discovered "@ + crate::text::decimal(feeds as nat) + " feed(s) at "@ + site_url@
            + "."@,
{
    "Discovered ".to_owned().concat(number_text(feeds as u64).as_str()).concat(
        " feed(s) at ",
    ).concat(site_url).concat(".")
}

/// The error of a schema request for a command that has none.
pub fn unknown_command(command: &str) -> (r: ErrorObj)
    ensures
        r.code@ == "USAGE_ERROR"@,
        r.message@ == "unknown command '"@ + command@ + "' (expected 'fetch' or 'discover')"@,
        r.feed_url is None,
        r.details@ == crate::json::JsonView::Obj(Seq::empty()),
{
    ErrorObj::new(
        "USAGE_ERROR",
        "unknown command '".to_owned().concat(command).concat(
            "' (expected 'fetch' or 'discover')",
        ).as_str(),
    )
}

/// A page's continuation lies past the page's own start: in a later feed, or further on in the same.
/// It names a feed that was fetched.
pub proof fn law_continuation_moves_forward(o: FetchOutput, start: PageStart, budget: int)
    requires
        crate::page::page_end(o, budget) is Some,
    ensures
        ({
            let (nf, m) = crate::page::page_end(o, budget)->Some_0;
            let s = stop_of(o, nf, m);
            &&& start.feed + s.feed_idx > start.feed || (s.feed_idx == 0 && start.skipped + s.item_idx
                > start.skipped)
            &&& 0 <= s.feed_idx < o.feeds@.len()
            &&& 0 <= s.item_idx <= s.feed_item_count
        }),
{
    crate::page::law_page_makes_progress(o, budget);
}

/// A continuation that finds the feeds as they were delivers exactly what the page before it left.
pub proof fn law_continuation_delivers_the_rest(
    a: FetchOutput,
    fetched: FetchOutput,
    c: CursorView,
    o: FetchOutput,
    rf: int,
    ri: int,
)
    requires
        is_resumed(a, fetched, c),
        0 <= rf < o.feeds@.len(),
        0 <= ri <= crate::page::full(o, rf),
        crate::page::item_lists(fetched) == crate::page::item_lists(o).skip(rf),
        c.i == ri,
    ensures
        crate::page::item_lists(a) == crate::page::left_from(o, rf, ri),
{
    let lists = crate::page::item_lists(o);
    let seen = crate::page::item_lists(fetched);
    assert(seen.len() == fetched.feeds@.len());
    assert(lists.skip(rf).len() == o.feeds@.len() - rf);
    assert(seen[0] == fetched.feeds@[0].items@);
    assert(seen[0] == lists[rf]);
    assert(lists[rf] == o.feeds@[rf].items@);
    assert forall|k: int| 0 <= k < a.feeds@.len() implies #[trigger] crate::page::item_lists(a)[k]
        == crate::page::left_from(o, rf, ri)[k] by {
        assert(crate::page::item_lists(a)[k] == a.feeds@[k].items@);
        assert(seen[k] == fetched.feeds@[k].items@);
        assert(crate::totals::same_shell(a.feeds@[k], fetched.feeds@[k]));
    }
    assert(crate::page::item_lists(a) =~= crate::page::left_from(o, rf, ri));
}

/// Pages that each continue the one before, until one delivers all that is left, deliver together
/// every item exactly once and in order. `outputs[k]` is what page `k` has to deliver, `pages[k]`
/// what it does deliver, cut at `cuts[k]`; the last output is delivered whole.
pub proof fn law_pages_cover_everything(
    outputs: Seq<FetchOutput>,
    pages: Seq<FetchOutput>,
    cuts: Seq<(int, int)>,
)
    requires
        outputs.len() == pages.len() + 1,
        cuts.len() == pages.len(),
        forall|k: int|
            #![trigger pages[k]]
            0 <= k < pages.len() ==> {
                &&& crate::page::is_page(pages[k], outputs[k], cuts[k].0, cuts[k].1)
                &&& crate::page::leaves_something(outputs[k], cuts[k].0, cuts[k].1)
                &&& crate::page::item_lists(outputs[k + 1]) == crate::page::left_from(
                    outputs[k],
                    crate::page::resume_at(outputs[k], cuts[k].0, cuts[k].1).0,
                    crate::page::resume_at(outputs[k], cuts[k].0, cuts[k].1).1,
                )
            },
    ensures
        delivered_by(pages) + crate::page::joined(crate::page::item_lists(outputs.last()))
            == crate::page::joined(crate::page::item_lists(outputs[0])),
    decreases pages.len(),
{
    if pages.len() == 0 {
        assert(delivered_by(pages) + crate::page::joined(crate::page::item_lists(outputs.last()))
            =~= crate::page::joined(crate::page::item_lists(outputs[0])));
    } else {
        let n = pages.len() - 1;
        let before = outputs.drop_last();
        assert forall|k: int| #![trigger pages.drop_last()[k]] 0 <= k < pages.drop_last().len() implies {
            &&& crate::page::is_page(
                pages.drop_last()[k],
                before[k],
                cuts.drop_last()[k].0,
                cuts.drop_last()[k].1,
            )
            &&& crate::page::leaves_something(
                before[k],
                cuts.drop_last()[k].0,
                cuts.drop_last()[k].1,
            )
            &&& crate::page::item_lists(before[k + 1]) == crate::page::left_from(
                before[k],
                crate::page::resume_at(
                    before[k],
                    cuts.drop_last()[k].0,
                    cuts.drop_last()[k].1,
                ).0,
                crate::page::resume_at(
                    before[k],
                    cuts.drop_last()[k].0,
                    cuts.drop_last()[k].1,
                ).1,
            )
        } by {
            assert(pages.drop_last()[k] == pages[k]);
        }
        law_pages_cover_everything(before, pages.drop_last(), cuts.drop_last());
        assert(pages[n] == pages.last());
        crate::page::law_page_and_rest_are_everything(
            pages[n],
            outputs[n],
            cuts[n].0,
            cuts[n].1,
        );
        let left = crate::page::joined(crate::page::item_lists(outputs[n + 1]));
        assert(before.last() == outputs[n]);
        assert(outputs.last() == outputs[n + 1]);
        assert(delivered_by(pages) + left =~= delivered_by(pages.drop_last()) + (
        crate::page::joined(crate::page::item_lists(pages.last())) + left));
    }
}

/// What is left after a page that itself starts part of the way through a request is what is left of
/// the whole request from the position that the page's continuation names.
pub proof fn law_positions_add_up(
    whole: FetchOutput,
    o: FetchOutput,
    start: PageStart,
    nf: int,
    m: int,
)
    requires
        start.feed < whole.feeds@.len(),
        start.skipped <= crate::page::full(whole, start.feed as int),
        crate::page::item_lists(o) == crate::page::left_from(
            whole,
            start.feed as int,
            start.skipped as int,
        ),
        0 <= nf <= o.feeds@.len(),
        0 <= m <= crate::page::full_before(o, nf),
        crate::page::leaves_something(o, nf, m),
    ensures
        ({
            let (rf, ri) = crate::page::resume_at(o, nf, m);
            let (f, i) = position_after(start, stop_of(o, nf, m));
            &&& 0 <= f < whole.feeds@.len()
            &&& 0 <= i <= crate::page::full(whole, f)
            &&& crate::page::left_from(o, rf, ri) == crate::page::left_from(whole, f, i)
        }),
{
    let (rf, ri) = crate::page::resume_at(o, nf, m);
    let (f, i) = position_after(start, stop_of(o, nf, m));
    let all = crate::page::item_lists(whole);
    let here = crate::page::item_lists(o);
    let rest = all.skip(start.feed as int);
    assert(here.len() == o.feeds@.len());
    assert(rest.len() == whole.feeds@.len() - start.feed);
    assert(here[rf] == o.feeds@[rf].items@);
    assert(all[f] == whole.feeds@[f].items@);
    assert(all[start.feed as int] == whole.feeds@[start.feed as int].items@);
    assert(rest[rf] == all[f]);
    let a = crate::page::left_from(o, rf, ri);
    let b = crate::page::left_from(whole, f, i);
    assert(a[0] =~= b[0]);
    assert forall|k: int| 0 < k < a.len() implies a[k] == b[k] by {
        assert(a[k] == here[rf + k]);
        assert(b[k] == all[f + k]);
    }
    assert(a =~= b);
}

/// A session of pages over feeds that stay as they are. `whole` is all that the request is for; page `k`
/// starts at `starts[k]`, has `outputs[k]` to deliver and delivers `pages[k]`, cut at `cuts[k]`; each
/// start is the position that the continuation of the page before names; the last output is delivered
/// whole.
pub open spec fn is_session(
    whole: FetchOutput,
    starts: Seq<PageStart>,
    outputs: Seq<FetchOutput>,
    pages: Seq<FetchOutput>,
    cuts: Seq<(int, int)>,
) -> bool {
    &&& whole.feeds@.len() > 0
    &&& outputs.len() == pages.len() + 1
    &&& starts.len() == outputs.len()
    &&& cuts.len() == pages.len()
    &&& starts[0].feed == 0
    &&& starts[0].skipped == 0
    &&& forall|k: int|
        #![trigger outputs[k]]
        0 <= k < outputs.len() ==> crate::page::item_lists(outputs[k]) == crate::page::left_from(
            whole,
            starts[k].feed as int,
            starts[k].skipped as int,
        )
    &&& forall|k: int|
        #![trigger pages[k]]
        0 <= k < pages.len() ==> {
            let stop = stop_of(outputs[k], cuts[k].0, cuts[k].1);
            &&& crate::page::is_page(pages[k], outputs[k], cuts[k].0, cuts[k].1)
            &&& crate::page::leaves_something(outputs[k], cuts[k].0, cuts[k].1)
            &&& starts[k + 1].feed == position_after(starts[k], stop).0
            &&& starts[k + 1].skipped == position_after(starts[k], stop).1
        }
}

/// Paging by cursor delivers every item of a request exactly once and in order, where the feeds stay as
/// they are.
pub proof fn law_paging_by_cursor_covers_everything(
    whole: FetchOutput,
    starts: Seq<PageStart>,
    outputs: Seq<FetchOutput>,
    pages: Seq<FetchOutput>,
    cuts: Seq<(int, int)>,
)
    requires
        is_session(whole, starts, outputs, pages, cuts),
    ensures
        delivered_by(pages) + crate::page::joined(crate::page::item_lists(outputs.last()))
            == crate::page::joined(crate::page::item_lists(whole)),
{
    let all = crate::page::item_lists(whole);
    assert(all[0].skip(0) =~= all[0]);
    assert(crate::page::left_from(whole, 0, 0) =~= all);
    assert(crate::page::item_lists(outputs[0]) == all);
    assert forall|k: int| #![trigger pages[k]] 0 <= k < pages.len() implies {
        &&& crate::page::is_page(pages[k], outputs[k], cuts[k].0, cuts[k].1)
        &&& crate::page::leaves_something(outputs[k], cuts[k].0, cuts[k].1)
        &&& crate::page::item_lists(outputs[k + 1]) == crate::page::left_from(
            outputs[k],
            crate::page::resume_at(outputs[k], cuts[k].0, cuts[k].1).0,
            crate::page::resume_at(outputs[k], cuts[k].0, cuts[k].1).1,
        )
    } by {
        assert(crate::page::is_page(pages[k], outputs[k], cuts[k].0, cuts[k].1));
        lemma_starts_hold(whole, starts, outputs, pages, cuts, k);
        law_positions_add_up(whole, outputs[k], starts[k], cuts[k].0, cuts[k].1);
        assert(crate::page::item_lists(outputs[k + 1]) == crate::page::left_from(
            whole,
            starts[k + 1].feed as int,
            starts[k + 1].skipped as int,
        ));
    }
    law_pages_cover_everything(outputs, pages, cuts);
}

/// Every page of a session starts within the request.
proof fn lemma_starts_hold(
    whole: FetchOutput,
    starts: Seq<PageStart>,
    outputs: Seq<FetchOutput>,
    pages: Seq<FetchOutput>,
    cuts: Seq<(int, int)>,
    k: int,
)
    requires
        is_session(whole, starts, outputs, pages, cuts),
        0 <= k < outputs.len(),
    ensures
        starts[k].feed < whole.feeds@.len(),
        starts[k].skipped <= crate::page::full(whole, starts[k].feed as int),
    decreases k,
{
    if k > 0 {
        lemma_starts_hold(whole, starts, outputs, pages, cuts, k - 1);
        assert(crate::page::is_page(pages[k - 1], outputs[k - 1], cuts[k - 1].0, cuts[k - 1].1));
        assert(crate::page::item_lists(outputs[k - 1]) == crate::page::left_from(
            whole,
            starts[k - 1].feed as int,
            starts[k - 1].skipped as int,
        ));
        law_positions_add_up(
            whole,
            outputs[k - 1],
            starts[k - 1],
            cuts[k - 1].0,
            cuts[k - 1].1,
        );
    }
}

/// The items that some pages deliver, in order.
pub open spec fn delivered_by(pages: Seq<FetchOutput>) -> Seq<Item>
    decreases pages.len(),
{
    if pages.len() == 0 {
        Seq::empty()
    } else {
        delivered_by(pages.drop_last()) + crate::page::joined(
            crate::page::item_lists(pages.last()),
        )
    }
}

/// A page of a request that cannot be paged has no continuation.
pub proof fn law_unpageable_requests_have_no_cursor(
    plan: PagePlan,
    o: FetchOutput,
    feeds: int,
    cut: nat,
    stop: Option<StopView>,
    deadline: Option<MarkerView>,
)
    requires
        unpageable(plan.dedupe, plan.params.cache_policy) is Some,
        deadline matches Some(d) ==> d.next_cursor is None,
    ensures
        page_marker(plan, start_of(plan, o), feeds, cut, stop, deadline) matches Some(m)
            ==> m.next_cursor is None,
{
}

/// A request that is sent again with a cursor that it accepts is not refused: it resumes where the
/// cursor says, and has the fingerprint that it had.
pub proof fn law_a_cursor_continues_its_request(
    args: FetchFeedArgs,
    again: FetchFeedArgs,
    plan: PagePlan,
    deadline: Duration,
    now: Timestamp,
    later: Timestamp,
    token: String,
)
    requires
        args.refusal(now) is None,
        args.asks_for(plan, deadline, now),
        plan.dedupe != DedupeMode::Drop,
        is_accepted(token@, plan),
        again == (FetchFeedArgs { cursor: Some(token), ..args }),
        crate::mcp::asked_window(args.since.deep_view(), later) is Ok,
    ensures
        again.refusal(later) is None,
        again.continues() == Ok::<Option<CursorView>, Seq<char>>(
            Some(crate::cursor::token_value(token@)->Ok_0),
        ),
        again.print() == args.print(),
{
}

/// A cursor at a feed of a request is accepted with the same request, and with no request that has
/// another fingerprint.
pub proof fn law_a_cursor_is_bound_to_its_request(
    plan: PagePlan,
    f: int,
    i: int,
    n: int,
    other: Seq<char>,
)
    requires
        0 <= f < plan.urls@.len(),
        has_valid_window(plan),
    ensures
        ({
            let c = cursor_at(plan, f, i, n);
            &&& crate::mcp::cursor_fault(c, plan.fp@, plan.urls@.len() as int) is None
            &&& other != plan.fp@ ==> crate::mcp::cursor_fault(c, other, plan.urls@.len() as int)
                is Some
        }),
{
}

/// No error and no warning of a page is about a feed that the page does not carry.
pub proof fn law_a_page_has_no_orphans(errors: Seq<ErrorObj>, warnings: Seq<Warning>, feeds: Seq<FeedResult>)
    ensures
        forall|k: int|
            0 <= k < carried_errors(errors, feeds).len() ==> is_carried(
                feeds,
                (#[trigger] carried_errors(errors, feeds)[k]).feed_url.deep_view(),
            ),
        forall|k: int|
            0 <= k < carried_warnings(warnings, feeds).len() ==> is_carried(
                feeds,
                (#[trigger] carried_warnings(warnings, feeds)[k]).feed_url.deep_view(),
            ),
    decreases errors.len() + warnings.len(),
{
    if errors.len() > 0 {
        law_a_page_has_no_orphans(errors.drop_last(), Seq::empty(), feeds);
    }
    if warnings.len() > 0 {
        law_a_page_has_no_orphans(Seq::empty(), warnings.drop_last(), feeds);
    }
}

} // verus!
