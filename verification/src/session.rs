//! Paging a request by its cursors, from the first page to the last.

use vstd::prelude::*;

use crate::answer::PageAnswer;
use crate::config::DedupeMode;
use crate::cursor::CursorView;
use crate::mcp::PagePlan;
use crate::model::{FetchOutput, Item};

verus! {

/// The continuation that an answer gives, if it gives one.
pub open spec fn continuation_of(ans: PageAnswer) -> Option<Seq<char>> {
    match ans.output.truncation {
        Some(t) => t.next_cursor.deep_view(),
        None => None,
    }
}

/// Where a plan starts: the feed of the request, and the item of it.
pub open spec fn place_of(plan: PagePlan) -> (int, int) {
    match plan.resume {
        Some(c) => (c.f as int, c.i as int),
        None => (0, 0),
    }
}

/// There is an item at a place of a request.
pub open spec fn has_item_at(whole: FetchOutput, f: int, i: int) -> bool {
    0 <= f < whole.feeds@.len() && 0 <= i < crate::page::full(whole, f)
}

/// The answer is that to a call of a request that can be paged, over feeds that are as they were when
/// `whole` was fetched and all of which were fetched in time.
#[verifier::opaque]
pub open spec fn is_call(
    whole: FetchOutput,
    plan: PagePlan,
    fetched: FetchOutput,
    ans: PageAnswer,
) -> bool {
    let f = place_of(plan).0;
    &&& crate::answer::unpageable(plan.dedupe, plan.params.cache_policy) is None
    &&& plan.dedupe != DedupeMode::Drop
    &&& fetched.truncation is None
    &&& crate::page::item_lists(fetched) == crate::page::item_lists(whole).skip(f)
    &&& crate::answer::gap(fetched.feeds@, crate::answer::text_views(plan.urls@.skip(f))) is None
    &&& crate::answer::is_page_answer(Ok(ans), fetched, plan)
}

/// The answers are those to the calls of a request, each made with the cursor that the answer before
/// it gave. Every feed of the request has items.
pub open spec fn are_calls(
    whole: FetchOutput,
    plans: Seq<PagePlan>,
    fetched: Seq<FetchOutput>,
    answers: Seq<PageAnswer>,
) -> bool {
    &&& whole.feeds@.len() > 0
    &&& forall|f: int| 0 <= f < whole.feeds@.len() ==> (#[trigger] whole.feeds@[f]).items@.len() > 0
    &&& answers.len() > 0
    &&& plans.len() == answers.len()
    &&& fetched.len() == answers.len()
    &&& plans[0].resume is None
    &&& forall|k: int|
        #![trigger answers[k]]
        0 <= k < answers.len() ==> is_call(whole, plans[k], fetched[k], answers[k])
    &&& forall|k: int|
        #![trigger answers[k]]
        0 <= k < answers.len() - 1 ==> {
            &&& continuation_of(answers[k]) matches Some(token)
            &&& plans[k + 1].resume matches Some(c)
            &&& crate::cursor::token_value(token) == Ok::<CursorView, Seq<char>>(c@)
        }
}

/// The items that the first `n` answers ship, in order.
pub open spec fn shipped_by(answers: Seq<PageAnswer>, n: int) -> Seq<Item>
    decreases n,
{
    if n <= 0 {
        Seq::empty()
    } else {
        shipped_by(answers, n - 1) + crate::page::joined(
            crate::page::item_lists(answers[n - 1].output),
        )
    }
}

/// What is left of a request at a place.
spec fn left_at(whole: FetchOutput, f: int, i: int) -> Seq<Item> {
    crate::page::joined(crate::page::left_from(whole, f, i))
}

/// A call ships an item, and together with what is left where it says to go on, or on its own where
/// it says nothing, all that was left where it started.
proof fn lemma_call(whole: FetchOutput, plan: PagePlan, fetched: FetchOutput, ans: PageAnswer)
    requires
        is_call(whole, plan, fetched, ans),
        has_item_at(whole, place_of(plan).0, place_of(plan).1),
        forall|f: int| 0 <= f < whole.feeds@.len() ==> (#[trigger] whole.feeds@[f]).items@.len() > 0,
    ensures
        crate::totals::item_total(ans.output.feeds@) > 0,
        ({
            let (f, i) = place_of(plan);
            let page = crate::page::joined(crate::page::item_lists(ans.output));
            match continuation_of(ans) {
                None => page == left_at(whole, f, i),
                Some(token) => crate::cursor::token_value(token) matches Ok(c) && has_item_at(
                    whole,
                    c.f,
                    c.i,
                ) && page + left_at(whole, c.f, c.i) == left_at(whole, f, i),
            }
        }),
{
    reveal(is_call);
    let (f, i) = place_of(plan);
    let start = crate::answer::start_of(plan, fetched);
    let (a, b) = choose|a: FetchOutput, b: FetchOutput|
        {
            &&& #[trigger] crate::answer::is_continued(a, fetched, plan.resume)
            &&& #[trigger] crate::answer::is_deduped(b, a, plan.dedupe)
            &&& if plan.resume is Some && crate::totals::item_total(b.feeds@) == 0 {
                crate::answer::is_drained(ans, b, plan, start)
            } else {
                crate::answer::is_bounded(Ok(ans), b, plan, start)
            }
        };
    let lists = crate::page::item_lists(whole);
    let seen = crate::page::item_lists(fetched);
    let left = crate::page::left_from(whole, f, i);
    assert(seen.len() == fetched.feeds@.len());
    assert(seen[0] == lists[f]);
    assert(seen[0] == fetched.feeds@[0].items@);
    assert(lists[f] == whole.feeds@[f].items@);
    match plan.resume {
        Some(c) => {
            crate::answer::law_continuation_delivers_the_rest(a, fetched, c@, whole, f, i);
        },
        None => {
            assert(lists.skip(0) =~= lists);
            assert(lists[0].skip(0) =~= lists[0]);
            assert(left =~= lists);
        },
    }
    assert(crate::page::item_lists(a) == left);
    let all = crate::answer::unmarked(b);
    assert(b.feeds == a.feeds);
    assert(crate::page::item_lists(all) == left);
    assert(b.truncation is None);
    assert(left[0].len() == crate::page::full(whole, f) - i);
    crate::page::lemma_joined_count(all.feeds@);
    assert(crate::page::joined(left) =~= left[0] + crate::page::joined(left.skip(1)));
    assert(crate::totals::item_total(all.feeds@) > 0);
    assert(crate::answer::is_bounded(Ok(ans), b, plan, start));
    assert(start.feed == f && start.skipped == i && start.may_mint);
    if crate::page::response_tokens(all) <= crate::answer::page_budget(plan) {
        assert(ans.output.feeds == all.feeds);
        assert(crate::page::item_lists(ans.output) == left);
    } else {
        let (nf, m) = crate::page::page_end(all, crate::answer::page_budget(plan))->Some_0;
        let stop = crate::answer::stop_of(all, nf, m);
        let page = choose|page: FetchOutput| #[trigger]
            crate::page::is_page(page, all, nf, m) && crate::answer::is_answer(
                ans,
                page,
                crate::answer::page_marker(
                    plan,
                    start,
                    nf,
                    crate::page::cut_total(page.feeds@),
                    Some(stop),
                    crate::marker::marker_view(b.truncation),
                ),
                crate::answer::primary(plan),
            );
        assert(crate::page::is_page(page, all, nf, m));
        crate::page::law_page_makes_progress(all, crate::answer::page_budget(plan));
        crate::page::lemma_page_ships(page, all, nf, m);
        crate::page::law_page_and_rest_are_everything(page, all, nf, m);
        crate::answer::law_positions_add_up(whole, all, start, nf, m);
        assert(ans.output.feeds == page.feeds);
        assert(crate::page::item_lists(ans.output) == crate::page::item_lists(page));
        let (rf, ri) = crate::page::resume_at(all, nf, m);
        let (nextf, nexti) = crate::answer::position_after(start, stop);
        let there = crate::page::left_from(all, rf, ri);
        assert(crate::page::item_lists(all)[rf] == all.feeds@[rf].items@);
        assert(there[0].len() == crate::page::full(all, rf) - ri);
        if rf > 0 {
            assert(left[rf] == lists[f + rf]);
            assert(lists[f + rf] == whole.feeds@[f + rf].items@);
        }
        assert(there[0].len() > 0);
        assert(lists[nextf] == whole.feeds@[nextf].items@);
        assert(crate::page::left_from(whole, nextf, nexti)[0].len() == crate::page::full(
            whole,
            nextf,
        ) - nexti);
        assert(continuation_of(ans) is Some);
    }
}

proof fn lemma_calls_so_far(
    whole: FetchOutput,
    plans: Seq<PagePlan>,
    fetched: Seq<FetchOutput>,
    answers: Seq<PageAnswer>,
    n: int,
)
    requires
        are_calls(whole, plans, fetched, answers),
        0 <= n < answers.len(),
    ensures
        has_item_at(whole, place_of(plans[n]).0, place_of(plans[n]).1),
        shipped_by(answers, n) + left_at(whole, place_of(plans[n]).0, place_of(plans[n]).1)
            == crate::page::joined(crate::page::item_lists(whole)),
        shipped_by(answers, n).len() >= n,
    decreases n,
{
    if n == 0 {
        let lists = crate::page::item_lists(whole);
        assert(whole.feeds@[0].items@.len() > 0);
        assert(lists.skip(0) =~= lists);
        assert(lists[0].skip(0) =~= lists[0]);
        assert(crate::page::left_from(whole, 0, 0) =~= lists);
        assert(shipped_by(answers, 0) + crate::page::joined(lists) =~= crate::page::joined(lists));
    } else {
        lemma_calls_so_far(whole, plans, fetched, answers, n - 1);
        assert(is_call(whole, plans[n - 1], fetched[n - 1], answers[n - 1]));
        lemma_call(whole, plans[n - 1], fetched[n - 1], answers[n - 1]);
        let page = crate::page::joined(crate::page::item_lists(answers[n - 1].output));
        crate::page::lemma_joined_count(answers[n - 1].output.feeds@);
        let rest = left_at(whole, place_of(plans[n]).0, place_of(plans[n]).1);
        assert(shipped_by(answers, n) + rest =~= shipped_by(answers, n - 1) + (page + rest));
    }
}

/// Paging a request by its cursors, over feeds that stay as they are, ships an item on every page, ends
/// after no more pages than there are items, and then has shipped every item exactly once and in order.
pub proof fn law_paging_ends_and_covers_everything(
    whole: FetchOutput,
    plans: Seq<PagePlan>,
    fetched: Seq<FetchOutput>,
    answers: Seq<PageAnswer>,
)
    requires
        are_calls(whole, plans, fetched, answers),
    ensures
        forall|k: int|
            0 <= k < answers.len() ==> crate::totals::item_total(
                (#[trigger] answers[k]).output.feeds@,
            ) > 0,
        answers.len() <= crate::totals::item_total(whole.feeds@),
        answers.len() == crate::totals::item_total(whole.feeds@) ==> continuation_of(answers.last())
            is None,
        continuation_of(answers.last()) is None ==> shipped_by(answers, answers.len() as int)
            == crate::page::joined(crate::page::item_lists(whole)),
{
    let n = answers.len() - 1;
    assert forall|k: int| 0 <= k < answers.len() implies crate::totals::item_total(
        (#[trigger] answers[k]).output.feeds@,
    ) > 0 by {
        lemma_calls_so_far(whole, plans, fetched, answers, k);
        lemma_call(whole, plans[k], fetched[k], answers[k]);
    }
    lemma_calls_so_far(whole, plans, fetched, answers, n);
    assert(is_call(whole, plans[n], fetched[n], answers[n]));
    lemma_call(whole, plans[n], fetched[n], answers[n]);
    crate::page::lemma_joined_count(answers[n].output.feeds@);
    crate::page::lemma_joined_count(whole.feeds@);
    let (f, i) = place_of(plans[n]);
    let page = crate::page::joined(crate::page::item_lists(answers[n].output));
    assert(shipped_by(answers, n + 1) == shipped_by(answers, n) + page);
    match continuation_of(answers[n]) {
        Some(token) => {
            let c = crate::cursor::token_value(token)->Ok_0;
            let rest = crate::page::left_from(whole, c.f, c.i);
            assert(crate::page::item_lists(whole)[c.f] == whole.feeds@[c.f].items@);
            assert(rest[0].len() > 0);
            assert(crate::page::joined(rest) =~= rest[0] + crate::page::joined(rest.skip(1)));
            assert((page + left_at(whole, c.f, c.i)).len() == left_at(whole, f, i).len());
        },
        None => {},
    }
}

} // verus!
