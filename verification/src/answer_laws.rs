//! Answers to calls: the laws of continuations, markers and what a page goes out with.

use vstd::prelude::*;
use vstd::string::*;

use crate::answer::{
    carried_errors, carried_warnings, cursor_after, delivered, drained_marker, gap, gap_from,
    is_bounded, is_continued, is_deduped, is_drained, is_overflow, is_resumed, is_sized_marker,
    item_summary, item_too_large, page_budget, page_marker, primary, rolled, start_of, text_views,
    unpageable, PageAnswer, PageStart, StopView,
};
use crate::config::{CachePolicy, DedupeMode};
use crate::cursor::CursorView;
use crate::error::RssError;
use crate::json::{member, JsonView};
use crate::marker::{joined_advice, marker_view, MarkerView};
use crate::mcp::PagePlan;
use crate::model::{ErrorObj, FeedResult, FetchOutput, Item, Warning};
use crate::page::{is_page, page_end, response_tokens};
use crate::text::decimal;
use crate::totals::item_total;

verus! {

/// The feeds are those that were asked for, as far as they go.
pub open spec fn is_beginning_of(feeds: Seq<FeedResult>, asked: Seq<Seq<char>>) -> bool {
    feeds.len() <= asked.len() && forall|k: int|
        0 <= k < feeds.len() ==> (#[trigger] feeds[k]).feed_url@ == asked[k]
}

/// There is no gap exactly where the feeds are a beginning of those that were asked for; where there is
/// one, everything before it is as it was asked for and the feed in it is not.
pub proof fn law_a_gap_is_where_a_feed_is_missing(feeds: Seq<FeedResult>, asked: Seq<Seq<char>>)
    ensures
        gap(feeds, asked) is None <==> is_beginning_of(feeds, asked),
        gap(feeds, asked) matches Some(g) ==> {
            &&& 0 <= g < feeds.len()
            &&& g < asked.len() ==> feeds[g].feed_url@ != asked[g]
            &&& g <= asked.len()
            &&& is_beginning_of(feeds.take(g), asked)
        },
{
    lemma_gap_from(feeds, asked, 0);
    if let Some(g) = gap(feeds, asked) {
        assert forall|k: int| 0 <= k < g implies (#[trigger] feeds.take(g)[k]).feed_url@ == asked[k] by {
            assert(feeds.take(g)[k] == feeds[k]);
        }
        if is_beginning_of(feeds, asked) {
            assert(feeds[g].feed_url@ == asked[g]);
        }
    }
}

proof fn lemma_gap_from(feeds: Seq<FeedResult>, asked: Seq<Seq<char>>, k: int)
    requires
        0 <= k <= feeds.len(),
        k <= asked.len(),
    ensures
        gap_from(feeds, asked, k) is None ==> feeds.len() <= asked.len() && forall|j: int|
            k <= j < feeds.len() ==> (#[trigger] feeds[j]).feed_url@ == asked[j],
        gap_from(feeds, asked, k) matches Some(g) ==> {
            &&& k <= g < feeds.len()
            &&& g <= asked.len()
            &&& g < asked.len() ==> feeds[g].feed_url@ != asked[g]
            &&& forall|j: int| k <= j < g ==> (#[trigger] feeds[j]).feed_url@ == asked[j]
        },
    decreases feeds.len() - k,
{
    if k < feeds.len() && k < asked.len() && feeds[k].feed_url@ == asked[k] {
        lemma_gap_from(feeds, asked, k + 1);
    }
}

/// A continuation leaves out the items that were delivered, of its first feed and of no other; every
/// other item is as it was, in its place.
pub proof fn law_a_continuation_leaves_out_what_was_delivered(
    a: FetchOutput,
    o: FetchOutput,
    c: CursorView,
    k: int,
)
    requires
        is_resumed(a, o, c),
        0 <= k < o.feeds@.len(),
        0 <= c.i,
    ensures
        a.feeds@.len() == o.feeds@.len(),
        a.feeds@[k].feed_url == o.feeds@[k].feed_url,
        a.feeds@[k].title == o.feeds@[k].title,
        a.feeds@[k].error == o.feeds@[k].error,
        k > 0 ==> a.feeds@[k].items@ == o.feeds@[k].items@,
        c.i <= o.feeds@[0].items@.len() ==> o.feeds@[0].items@.take(c.i) + a.feeds@[0].items@
            == o.feeds@[0].items@,
        c.i > o.feeds@[0].items@.len() ==> a.feeds@[0].items@.len() == 0,
        a.total_items == item_total(a.feeds@),
        a.feeds@[k].item_count == a.feeds@[k].items@.len(),
        a.errors == o.errors,
        a.truncation == o.truncation,
        a.duplicates == o.duplicates,
        a.applied_filters == o.applied_filters,
{
    assert(crate::totals::same_shell(a.feeds@[k], o.feeds@[k]));
    assert(crate::totals::same_shell(a.feeds@[0], o.feeds@[0]));
    assert(crate::totals::feed_counts_hold(a.feeds@[k]));
    let all = o.feeds@[0].items@;
    if c.i <= all.len() {
        assert(all.take(c.i) + all.skip(c.i) =~= all);
    }
}

/// A continuation warns exactly where its first feed came, some of it was delivered before and it now
/// has another number of items; the warning names the feed and both numbers, and comes last.
pub proof fn law_a_moved_window_is_warned_of(a: FetchOutput, o: FetchOutput, c: CursorView)
    requires
        is_resumed(a, o, c),
        o.feeds@.len() > 0,
    ensures
        ({
            let moved = o.feeds@[0].error is None && c.i > 0 && o.feeds@[0].items@.len() != c.n;
            &&& a.warnings@.len() == o.warnings@.len() + (if moved {
                1int
            } else {
                0int
            })
            &&& moved ==> a.warnings@.last().code@ == "CACHE_WINDOW_ROLLED"@
            &&& moved ==> a.warnings@.last().feed_url.deep_view() == Some(o.feeds@[0].feed_url@)
            &&& moved ==> a.warnings@.last().message@ == "feed now has "@ + decimal(
                o.feeds@[0].items@.len(),
            ) + " item(s) but had "@ + decimal(c.n as nat)
                + " when the cursor was minted; resuming at index "@ + decimal(c.i as nat)
                + " may skip or repeat items"@
        }),
{
    let va = a.warnings@.map_values(|w: Warning| crate::parse::warning_view(w));
    let vo = o.warnings@.map_values(|w: Warning| crate::parse::warning_view(w));
    assert(va.len() == a.warnings@.len());
    if rolled(o, c) {
        assert(va.last() == crate::parse::warning_view(a.warnings@.last()));
        assert(va.last() == crate::answer::rolled_warning(o, c));
    }
}

/// Requests that drop duplicates, and those that keep nothing, cannot be paged; all others can.
pub proof fn law_what_cannot_be_paged(dedupe: DedupeMode, policy: CachePolicy)
    ensures
        unpageable(dedupe, policy) is Some <==> dedupe == DedupeMode::Drop || policy
            == CachePolicy::NoCache,
        dedupe == DedupeMode::Drop ==> unpageable(dedupe, policy) == Some(
            crate::marker::DROP_NOT_PAGEABLE_SUGGESTION@,
        ),
        dedupe != DedupeMode::Drop && policy == CachePolicy::NoCache ==> unpageable(dedupe, policy)
            == Some(crate::marker::NO_CACHE_NOT_PAGEABLE_SUGGESTION@),
{
}

/// Errors and warnings go out one by one: those of no feed and those of a feed that the page has, in
/// order, and no others.
pub proof fn law_a_page_carries_what_is_said_of_its_feeds(
    a: Seq<ErrorObj>,
    b: Seq<ErrorObj>,
    e: ErrorObj,
    v: Seq<Warning>,
    w: Seq<Warning>,
    x: Warning,
    feeds: Seq<FeedResult>,
)
    ensures
        carried_errors(a + b, feeds) == carried_errors(a, feeds) + carried_errors(b, feeds),
        carried_warnings(v + w, feeds) == carried_warnings(v, feeds) + carried_warnings(w, feeds),
        e.feed_url is None ==> carried_errors(seq![e], feeds) == seq![e],
        x.feed_url is None ==> carried_warnings(seq![x], feeds) == seq![x],
        forall|k: int|
            0 <= k < feeds.len() && e.feed_url is Some && (#[trigger] feeds[k]).feed_url@
                == e.feed_url->Some_0@ ==> carried_errors(seq![e], feeds) == seq![e],
        forall|k: int|
            0 <= k < feeds.len() && x.feed_url is Some && (#[trigger] feeds[k]).feed_url@
                == x.feed_url->Some_0@ ==> carried_warnings(seq![x], feeds) == seq![x],
        (e.feed_url is Some && forall|k: int|
            0 <= k < feeds.len() ==> (#[trigger] feeds[k]).feed_url@ != e.feed_url->Some_0@)
            ==> carried_errors(seq![e], feeds).len() == 0,
        (x.feed_url is Some && forall|k: int|
            0 <= k < feeds.len() ==> (#[trigger] feeds[k]).feed_url@ != x.feed_url->Some_0@)
            ==> carried_warnings(seq![x], feeds).len() == 0,
    decreases b.len() + w.len(),
{
    reveal_with_fuel(carried_errors, 2);
    reveal_with_fuel(carried_warnings, 2);
    assert(seq![e].drop_last() =~= Seq::<ErrorObj>::empty());
    assert(seq![e].last() == e);
    assert(Seq::<ErrorObj>::empty().push(e) =~= seq![e]);
    assert(seq![x].drop_last() =~= Seq::<Warning>::empty());
    assert(seq![x].last() == x);
    assert(Seq::<Warning>::empty().push(x) =~= seq![x]);
    if b.len() == 0 {
        assert(a + b =~= a);
        assert(carried_errors(a, feeds) + carried_errors(b, feeds) =~= carried_errors(a, feeds));
    } else {
        law_a_page_carries_what_is_said_of_its_feeds(a, b.drop_last(), e, v, Seq::empty(), x, feeds);
        assert((a + b).drop_last() =~= a + b.drop_last());
        assert((a + b).last() == b.last());
        let p = carried_errors(a, feeds);
        let q = carried_errors(b.drop_last(), feeds);
        assert((p + q).push(b.last()) =~= p + q.push(b.last()));
    }
    if w.len() == 0 {
        assert(v + w =~= v);
        assert(carried_warnings(v, feeds) + carried_warnings(w, feeds) =~= carried_warnings(
            v,
            feeds,
        ));
    } else {
        law_a_page_carries_what_is_said_of_its_feeds(
            a,
            Seq::empty(),
            e,
            v,
            w.drop_last(),
            x,
            feeds,
        );
        assert((v + w).drop_last() =~= v + w.drop_last());
        assert((v + w).last() == w.last());
        let p = carried_warnings(v, feeds);
        let q = carried_warnings(w.drop_last(), feeds);
        assert((p + q).push(w.last()) =~= p + q.push(w.last()));
    }
}

/// The cursor after a page is of the page's request and window, in this version's form. It points at
/// the page's stop, counted from the beginning of the request and of the feed; without a stop, at the
/// feed after the last.
pub proof fn law_a_cursor_records_where_a_page_stopped(
    plan: PagePlan,
    start: PageStart,
    feeds: int,
    s: StopView,
)
    ensures
        ({
            let c = cursor_after(plan, start, feeds, Some(s));
            &&& c.v == 1
            &&& c.fp == plan.fp@
            &&& c.f == start.feed + s.feed_idx
            &&& s.feed_idx == 0 ==> c.i == start.skipped + s.item_idx
            &&& s.feed_idx == 0 ==> c.n == start.skipped + s.feed_item_count
            &&& s.feed_idx != 0 ==> c.i == s.item_idx
            &&& s.feed_idx != 0 ==> c.n == s.feed_item_count
            &&& plan.params.since is None ==> c.s is None
            &&& plan.params.since matches Some(t) ==> c.s == Some(t.secs as int)
        }),
        ({
            let c = cursor_after(plan, start, feeds, None);
            &&& c.v == 1
            &&& c.fp == plan.fp@
            &&& c.f == start.feed + feeds
            &&& c.i == 0
            &&& c.n == 0
            &&& plan.params.since is None ==> c.s is None
            &&& plan.params.since matches Some(t) ==> c.s == Some(t.secs as int)
        }),
{
}

/// A page that ships all, with nothing left out by the deadline, has a marker exactly where content was
/// cut short. It counts the items that were cut, and says how to get them whole.
pub proof fn law_a_whole_page_is_marked_for_cut_content(
    plan: PagePlan,
    start: PageStart,
    feeds: int,
    cut: nat,
)
    ensures
        ({
            let p = page_marker(plan, start, feeds, cut, None, None);
            &&& p is None <==> cut == 0
            &&& p matches Some(m) ==> m.items_content_truncated == cut && m.applied_limit
                == plan.params.limit && m.items_omitted == 0 && m.feeds_omitted == 0
                && m.next_cursor is None && m.suggestion == Some(
                crate::marker::CONTENT_TRUNCATION_SUGGESTION@,
            )
        }),
{
}

/// A page that stopped is marked with what it left out, the deadline's feeds added. It has a
/// continuation exactly where it may have one; where its request cannot be paged, it says why.
pub proof fn law_a_page_that_stopped_is_marked(
    plan: PagePlan,
    start: PageStart,
    feeds: int,
    cut: nat,
    s: StopView,
    deadline: Option<MarkerView>,
)
    ensures
        ({
            let p = page_marker(plan, start, feeds, cut, Some(s), deadline);
            let cut_advice = if cut > 0 {
                Some(crate::marker::CONTENT_TRUNCATION_SUGGESTION@)
            } else {
                None
            };
            let left = match deadline {
                Some(d) => d.feeds_omitted,
                None => 0,
            };
            &&& p is Some
            &&& p matches Some(m) ==> {
                &&& m.items_omitted == s.items_omitted
                &&& m.feeds_omitted == s.feeds_omitted + left
                &&& m.items_content_truncated == cut
                &&& m.applied_limit == plan.params.limit
                &&& m.next_cursor is Some <==> start.may_mint
                &&& start.may_mint ==> m.next_cursor == Some(
                    crate::marker::cursor_text(cursor_after(plan, start, feeds, Some(s))),
                )
                &&& start.may_mint ==> m.suggestion == Some(
                    joined_advice(cut_advice, crate::marker::PAGINATION_SUGGESTION@),
                )
                &&& !start.may_mint && plan.dedupe == DedupeMode::Drop ==> m.suggestion == Some(
                    joined_advice(cut_advice, crate::marker::DROP_NOT_PAGEABLE_SUGGESTION@),
                )
                &&& !start.may_mint && plan.dedupe != DedupeMode::Drop && plan.params.cache_policy
                    == CachePolicy::NoCache ==> m.suggestion == Some(
                    joined_advice(cut_advice, crate::marker::NO_CACHE_NOT_PAGEABLE_SUGGESTION@),
                )
            }
        }),
{
}

/// A page that ships all, but not the feeds that the deadline left out, is marked with their number and
/// resumes at the first of them, where it may have a continuation.
pub proof fn law_what_the_deadline_left_out_can_be_resumed(
    plan: PagePlan,
    start: PageStart,
    feeds: int,
    cut: nat,
    d: MarkerView,
)
    requires
        d.feeds_omitted > 0,
        d.next_cursor is None,
    ensures
        page_marker(plan, start, feeds, cut, None, Some(d)) matches Some(m) && {
            &&& m.feeds_omitted == d.feeds_omitted
            &&& m.items_content_truncated == (if cut > 0 {
                cut as int
            } else {
                d.items_content_truncated
            })
            &&& start.may_mint ==> m.next_cursor == Some(
                crate::marker::cursor_text(cursor_after(plan, start, feeds, None)),
            )
            &&& !start.may_mint ==> m.next_cursor is None
        },
        drained_marker(Some(d), plan, start, feeds) matches Some(m) && {
            &&& m.feeds_omitted == d.feeds_omitted
            &&& m.suggestion == d.suggestion
            &&& start.may_mint && feeds > 0 ==> m.next_cursor == Some(
                crate::marker::cursor_text(cursor_after(plan, start, feeds, None)),
            )
            &&& !(start.may_mint && feeds > 0) ==> m.next_cursor is None
        },
{
}

/// A continuation that has nothing left and whose deadline left nothing out has no continuation of its
/// own.
pub proof fn law_a_drained_page_ends(d: MarkerView, plan: PagePlan, start: PageStart, feeds: int)
    ensures
        drained_marker(None, plan, start, feeds) is None,
        d.feeds_omitted == 0 ==> drained_marker(Some(d), plan, start, feeds) == Some(d),
{
}

/// A page that continues none is of all that was fetched; one that continues others is of what they left.
pub proof fn law_a_first_page_is_of_everything(a: FetchOutput, o: FetchOutput, c: crate::cursor::Cursor)
    ensures
        is_continued(a, o, None) <==> a == o,
        is_continued(a, o, Some(c)) <==> is_resumed(a, o, c@),
        o.feeds@.len() == 0 ==> (is_continued(a, o, Some(c)) <==> a == o),
{
}

/// A page starts where its cursor points, past what was delivered of that feed; without a cursor, at
/// the beginning. It may have a continuation exactly where the feeds that came are a beginning of those
/// that were asked for from there on and the request can be paged.
pub proof fn law_a_page_starts_at_its_cursor(plan: PagePlan, o: FetchOutput)
    requires
        plan.resume matches Some(c) ==> c.f <= plan.urls@.len(),
    ensures
        plan.resume is None ==> start_of(plan, o).feed == 0 && start_of(plan, o).skipped == 0,
        plan.resume matches Some(c) ==> start_of(plan, o).feed == c.f,
        plan.resume matches Some(c) ==> o.feeds@.len() > 0 && c.i <= o.feeds@[0].items@.len()
            ==> start_of(plan, o).skipped == c.i,
        plan.resume matches Some(c) ==> o.feeds@.len() > 0 && c.i > o.feeds@[0].items@.len()
            && o.feeds@[0].items@.len() <= usize::MAX ==> start_of(plan, o).skipped
            == o.feeds@[0].items@.len(),
        o.feeds@.len() == 0 ==> start_of(plan, o).skipped == 0,
        start_of(plan, o).may_mint <==> is_beginning_of(
            o.feeds@,
            Seq::new(
                (plan.urls@.len() - start_of(plan, o).feed) as nat,
                |k: int| plan.urls@[start_of(plan, o).feed + k]@,
            ),
        ) && plan.dedupe != DedupeMode::Drop && plan.params.cache_policy != CachePolicy::NoCache,
{
    let f = start_of(plan, o).feed as int;
    let asked = text_views(plan.urls@.skip(f));
    assert(asked =~= Seq::new((plan.urls@.len() - f) as nat, |k: int| plan.urls@[f + k]@));
    law_a_gap_is_where_a_feed_is_missing(o.feeds@, asked);
}

/// A page is bounded by what its budget leaves once room for the widest marker is held back.
pub proof fn law_room_is_held_back_for_a_marker(plan: PagePlan)
    ensures
        page_budget(plan) >= 0,
        plan.budget >= crate::marker::headroom() ==> page_budget(plan) + crate::marker::headroom()
            == plan.budget,
        plan.budget < crate::marker::headroom() ==> page_budget(plan) == 0,
{
}

/// An output that fits is answered whole; one that does not, with a page of it; and with an error only
/// where not even one item fits, or there is none.
pub proof fn law_a_call_is_answered_with_as_much_as_fits(
    r: Result<PageAnswer, ErrorObj>,
    o: FetchOutput,
    plan: PagePlan,
    start: PageStart,
)
    requires
        is_bounded(r, o, plan, start),
    ensures
        ({
            let all = FetchOutput { truncation: None, ..o };
            &&& response_tokens(all) <= page_budget(plan) ==> r is Ok && r->Ok_0.output.feeds == o.feeds
                && r->Ok_0.output.duplicates == o.duplicates && r->Ok_0.output.applied_filters
                == o.applied_filters && r->Ok_0.output.total_items == o.total_items
                && r->Ok_0.output.errors@ == carried_errors(o.errors@, o.feeds@)
                && r->Ok_0.output.warnings@ == carried_warnings(o.warnings@, o.feeds@)
                && r->Ok_0.output.fetched_at == o.fetched_at
            &&& response_tokens(all) > page_budget(plan) ==> (r is Err <==> page_end(
                all,
                page_budget(plan),
            ) is None)
            &&& response_tokens(all) > page_budget(plan) && r is Ok ==> exists|page: FetchOutput|
                {
                    &&& #[trigger] is_page(
                        page,
                        all,
                        page_end(all, page_budget(plan))->Some_0.0,
                        page_end(all, page_budget(plan))->Some_0.1,
                    )
                    &&& r->Ok_0.output.feeds == page.feeds
                    &&& r->Ok_0.output.total_items == page.total_items
                    &&& r->Ok_0.output.duplicates == o.duplicates
                    &&& r->Ok_0.output.errors@ == carried_errors(o.errors@, page.feeds@)
                    &&& r->Ok_0.output.warnings@ == carried_warnings(o.warnings@, page.feeds@)
                }
        }),
{
}

/// What a page that can ship nothing is refused with has the code of a response that is too large and
/// names the first URL; on a continuation it also says that it is one.
pub proof fn law_a_page_that_can_ship_nothing_is_refused(e: ErrorObj, o: FetchOutput, plan: PagePlan)
    requires
        is_overflow(e, o, plan),
    ensures
        e.code@ == "RESPONSE_TOO_LARGE"@,
        e.feed_url is Some && e.feed_url->Some_0@ == plan.urls@[0]@,
        e.details@ is Obj,
        plan.resume is Some ==> member(e.details@, "continuation"@) == Some(JsonView::Bool(true)),
        plan.resume is None ==> member(e.details@, "continuation"@) is None,
        ({
            let tokens = response_tokens(o);
            let budget = page_budget(plan);
            let items = item_total(o.feeds@) as int;
            let said = "response too large: ~"@ + decimal(tokens) + " tokens exceeds the "@ + decimal(
                budget as nat,
            ) + "-token budget; retry with limit="@ + decimal(
                crate::page::suggested_limit(tokens as int, budget, items) as nat,
            ) + " or max_content_chars="@ + decimal(
                crate::page::suggested_content_chars(budget, items) as nat,
            );
            &&& plan.resume is None ==> e.message@ == said
            &&& plan.resume is Some ==> e.message@ == said
                + " (this is a continuation page: the pages you already received are still valid \u{2014} retry this same cursor with a larger max_response_tokens or a smaller max_content_chars)"@
        }),
{
    let err = choose|err: RssError|
        {
            &&& #[trigger] crate::page::is_too_large(
                err,
                response_tokens(o) as int,
                page_budget(plan),
                item_total(o.feeds@) as int,
            )
            &&& e.code@ == err.code_text()
            &&& e.feed_url.deep_view() == Some(primary(plan))
            &&& e.message@ == (if plan.resume is Some {
                err.message_text()
                    + " (this is a continuation page: the pages you already received are still valid \u{2014} retry this same cursor with a larger max_response_tokens or a smaller max_content_chars)"@
            } else {
                err.message_text()
            })
            &&& e.details@ == (if plan.resume is Some {
                JsonView::Obj(
                    err.details()->Obj_0.push(("continuation"@, JsonView::Bool(true))),
                )
            } else {
                err.details()
            })
        };
    let f = err.details()->Obj_0;
    reveal_strlit("continuation");
    reveal_strlit("estimated_tokens");
    reveal_strlit("budget_tokens");
    reveal_strlit("suggested_limit");
    reveal_strlit("suggested_max_content_chars");
    assert forall|k: int| 0 <= k < f.len() implies (#[trigger] f[k]).0 != "continuation"@ by {
        assert(f[k].0.len() != "continuation"@.len());
    }
    lemma_not_there(f, "continuation"@);
    lemma_put_last(f, "continuation"@, JsonView::Bool(true));
}

proof fn lemma_not_there(f: Seq<(Seq<char>, JsonView)>, name: Seq<char>)
    requires
        forall|k: int| 0 <= k < f.len() ==> (#[trigger] f[k]).0 != name,
    ensures
        crate::json::member_in(f, name) is None,
    decreases f.len(),
{
    if f.len() > 0 {
        assert(f[0].0 != name);
        let g = f.skip(1);
        assert forall|k: int| 0 <= k < g.len() implies (#[trigger] g[k]).0 != name by {
            assert(g[k] == f[k + 1]);
        }
        lemma_not_there(g, name);
    }
}

proof fn lemma_put_last(f: Seq<(Seq<char>, JsonView)>, name: Seq<char>, v: JsonView)
    requires
        forall|k: int| 0 <= k < f.len() ==> (#[trigger] f[k]).0 != name,
    ensures
        crate::json::member_in(f.push((name, v)), name) == Some(v),
    decreases f.len(),
{
    if f.len() > 0 {
        assert(f[0].0 != name);
        let g = f.skip(1);
        assert forall|k: int| 0 <= k < g.len() implies (#[trigger] g[k]).0 != name by {
            assert(g[k] == f[k + 1]);
        }
        lemma_put_last(g, name, v);
        assert(f.push((name, v)).skip(1) =~= g.push((name, v)));
        assert(f.push((name, v))[0] == f[0]);
    }
}

/// What a continuation that has nothing left is answered with carries the feeds as they came.
pub proof fn law_a_drained_page_carries_its_feeds(
    ans: PageAnswer,
    o: FetchOutput,
    plan: PagePlan,
    start: PageStart,
)
    requires
        is_drained(ans, o, plan, start),
    ensures
        ans.output.feeds == o.feeds,
        ans.output.errors == o.errors,
        ans.output.warnings == o.warnings,
        ans.output.total_items == o.total_items,
        ans.output.truncation is None <==> o.truncation is None,
        o.truncation matches Some(d) ==> ans.output.truncation->Some_0.feeds_omitted == d.feeds_omitted,
        ans.summary@ == crate::marker::summary_text(ans.output, plan.urls@[0]@),
{
    let last = choose|last: FetchOutput|
        {
            &&& #[trigger] crate::marker::is_stamped(ans.output, last)
            &&& crate::totals::same_envelope(
                FetchOutput { truncation: last.truncation, ..o },
                last,
            )
            &&& last.feeds == o.feeds
            &&& last.total_items == o.total_items
            &&& last.total_content_tokens_est == o.total_content_tokens_est
            &&& marker_view(last.truncation) == drained_marker(
                marker_view(o.truncation),
                plan,
                start,
                o.feeds@.len() as int,
            )
        };
    if let Some(d) = o.truncation {
        assert(marker_view(last.truncation)->Some_0.feeds_omitted == d@.feeds_omitted);
        crate::page_laws::law_a_marker_says_how_large_the_response_is(ans.output, last);
    }
}

/// The marker that goes out is the page's, with the size of what it goes out on.
pub proof fn law_the_marker_of_an_answer(o: FetchOutput, m: MarkerView)
    requires
        is_sized_marker(o, Some(m)),
    ensures
        o.truncation matches Some(t) && {
            &&& t.items_content_truncated == m.items_content_truncated
            &&& t.items_omitted == m.items_omitted
            &&& t.feeds_omitted == m.feeds_omitted
            &&& t.applied_limit == m.applied_limit
            &&& t.next_cursor.deep_view() == m.next_cursor
            &&& t.suggestion.deep_view() == m.suggestion
            &&& t.estimated_tokens is Some
        },
{
    let before = choose|before: FetchOutput|
        marker_view(before.truncation) == Some(m) && #[trigger] crate::marker::is_stamped(o, before);
    crate::page_laws::law_a_marker_says_how_large_the_response_is(o, before);
}

/// Duplicates are looked for unless that is off; only where they are dropped do the feeds change.
pub proof fn law_duplicates_are_reported_or_dropped(b: FetchOutput, a: FetchOutput, mode: DedupeMode)
    requires
        is_deduped(b, a, mode),
    ensures
        mode == DedupeMode::Off ==> b.duplicates@.len() == 0 && b.feeds == a.feeds,
        mode == DedupeMode::Report ==> b.feeds == a.feeds && crate::dedupe::are_groups(
            b.duplicates@,
            a.feeds@,
        ),
        mode == DedupeMode::Drop ==> crate::dedupe::are_groups(b.duplicates@, a.feeds@),
        mode == DedupeMode::Drop && b.duplicates@.len() > 0 ==> crate::dedupe::are_collapsed(
            b.feeds@,
            a.feeds@,
            b.duplicates@,
        ) && b.total_items == item_total(b.feeds@),
        b.errors == a.errors,
        b.warnings == a.warnings,
        b.truncation == a.truncation,
        b.applied_filters == a.applied_filters,
        b.fetched_at == a.fetched_at,
{
}

/// An item is summed up by its id and its title.
pub proof fn law_an_item_is_summed_up(i: Item)
    ensures
        i.title matches Some(t) ==> item_summary(i) == "Item "@ + i.id@ + ": \""@ + t@ + "\"."@,
        i.title is None ==> item_summary(i) == "Item "@ + i.id@ + ": \"(untitled)\"."@,
{
    if i.title is None {
        reveal_strlit(": \"");
        reveal_strlit("(untitled)");
        reveal_strlit("\".");
        reveal_strlit(": \"(untitled)\".");
        assert(": \""@ + "(untitled)"@ + "\"."@ =~= ": \"(untitled)\"."@);
        assert("Item "@ + i.id@ + ": \""@ + "(untitled)"@ + "\"."@ =~= "Item "@ + i.id@ + (": \""@
            + "(untitled)"@ + "\"."@));
    }
}

/// An item that is too large on its own is measured against ten thousand tokens; a cap of seven tenths
/// of that, at four characters a token, is suggested.
pub proof fn law_an_item_has_a_budget_of_its_own(tokens: nat)
    requires
        tokens <= usize::MAX,
    ensures
        item_too_large(tokens) == (RssError::ResponseTooLarge {
            estimated_tokens: tokens as usize,
            budget_tokens: 10_000,
            suggested_limit: 1,
            suggested_max_content_chars: 28_000,
        }),
        crate::page::suggested_content_chars(10_000, 1) == 28_000,
{
}

} // verus!
