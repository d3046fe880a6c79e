//! Pages and their markers: the laws of what a page holds, where it stops and what is said of it.

use vstd::prelude::*;
use vstd::string::*;

use crate::error::RssError;
use crate::fill::{first_feed_with_items, page_with_one_more};
use crate::marker::{
    cursor_text, is_stamped, joined_advice, merged, note_text, stopped, summary_text, widest,
    widest_cursor, with_advice, with_continuation, MarkerView,
};
use crate::model::{FeedResult, FetchOutput, Item};
use crate::page::{
    cut_count, cut_total, full, is_page, is_stop, is_too_large, is_within, json_width, page_end,
    page_items, resume_at, response_tokens, suggested_content_chars, suggested_limit, PageStop,
};
use crate::text::decimal;
use crate::totals::{item_total, token_total, tokens_sum};

verus! {

/// A response counts as the least number of tokens that hold its indented JSON at four characters each.
pub proof fn law_a_response_is_measured_in_fours(o: FetchOutput)
    ensures
        json_width(crate::wire::output_json(o)) <= 4 * response_tokens(o) < json_width(
            crate::wire::output_json(o),
        ) + 4,
{
    crate::page::lemma_object_has_width(crate::wire::output_json(o)->Obj_0);
}

/// The limit that is suggested scales the items down to nine tenths of what the budget has room for,
/// and is never less than one.
pub proof fn law_the_suggested_limit_fits_the_budget(estimated: int, budget: int, items: int)
    requires
        0 <= budget < estimated,
        items >= 1,
    ensures
        1 <= suggested_limit(estimated, budget, items) <= items,
        suggested_limit(estimated, budget, items) > 1 ==> suggested_limit(estimated, budget, items)
            * (estimated * 10) <= items * budget * 9,
        items * budget * 9 < (suggested_limit(estimated, budget, items) + 1) * (estimated * 10),
        suggested_limit(estimated, budget, 0) == 1,
{
    let e = estimated * 10;
    let x = items * budget * 9;
    let q = x / e;
    vstd::arithmetic::div_mod::lemma_fundamental_div_mod(x, e);
    vstd::arithmetic::div_mod::lemma_mod_bound(x, e);
    assert(q * e <= x < (q + 1) * e) by (nonlinear_arith)
        requires
            x == e * q + x % e,
            0 <= x % e < e,
    ;
    assert(x >= 0) by (nonlinear_arith)
        requires
            x == items * budget * 9,
            items >= 1,
            budget >= 0,
    ;
    assert(x < items * e) by (nonlinear_arith)
        requires
            x == items * budget * 9,
            items >= 1,
            0 <= budget < estimated,
            e == estimated * 10,
    ;
    assert(0 <= q <= items) by (nonlinear_arith)
        requires
            q * e <= x < (q + 1) * e,
            0 <= x < items * e,
            e > 0,
    ;
    if q < 1 {
        assert(x < 2 * e) by (nonlinear_arith)
            requires
                x < (q + 1) * e,
                q < 1,
                e > 0,
        ;
    }
    let y = 1 * budget * 9;
    vstd::arithmetic::div_mod::lemma_fundamental_div_mod(y, e);
    vstd::arithmetic::div_mod::lemma_mod_bound(y, e);
    let p = y / e;
    assert(p < 1) by (nonlinear_arith)
        requires
            y == e * p + y % e,
            0 <= y % e,
            y < e,
            e > 0,
    ;
}

/// The cap that is suggested spreads seven tenths of the budget, at four characters a token, over the
/// items, and is never less than two hundred.
pub proof fn law_the_suggested_cap_fits_the_budget(budget: int, items: int)
    requires
        budget >= 0,
        items >= 1,
        (budget * 7 / 10) * 4 <= usize::MAX,
    ensures
        suggested_content_chars(budget, items) >= 200,
        suggested_content_chars(budget, items) > 200 ==> suggested_content_chars(budget, items) * items
            <= (budget * 7 / 10) * 4,
        (budget * 7 / 10) * 4 < (suggested_content_chars(budget, items) + 1) * items,
        suggested_content_chars(budget, 0) == suggested_content_chars(budget, 1),
{
    let x = (budget * 7 / 10) * 4;
    let q = x / items;
    let s = suggested_content_chars(budget, items);
    vstd::arithmetic::div_mod::lemma_fundamental_div_mod(x, items);
    vstd::arithmetic::div_mod::lemma_mod_bound(x, items);
    assert(q * items <= x < (q + 1) * items) by (nonlinear_arith)
        requires
            x == items * q + x % items,
            0 <= x % items < items,
    ;
    assert(x < (s + 1) * items) by (nonlinear_arith)
        requires
            x < (q + 1) * items,
            q <= s,
            items >= 1,
    ;
}

/// What a payload over budget is refused with says how large it is, what the budget was, and what to
/// retry with.
pub proof fn law_a_refusal_says_what_to_retry_with(
    estimated: usize,
    budget: usize,
    limit: usize,
    chars: usize,
    e: int,
    b: int,
    items: int,
)
    requires
        is_too_large(
            RssError::ResponseTooLarge {
                estimated_tokens: estimated,
                budget_tokens: budget,
                suggested_limit: limit,
                suggested_max_content_chars: chars,
            },
            e,
            b,
            items,
        ),
    ensures
        estimated == e,
        budget == b,
        limit == suggested_limit(e, b, items),
        chars == suggested_content_chars(b, items),
{
}

/// A page is a beginning of what it is of: the first feeds as they are, all of them whole but the last,
/// of which it has the first items. Nothing else changes but the counts, which are those of the page.
pub proof fn law_a_page_is_a_beginning(out: FetchOutput, o: FetchOutput, nf: int, m: int, k: int, i: int)
    requires
        is_page(out, o, nf, m),
        0 <= k < out.feeds@.len(),
    ensures
        ({
            let a = out.feeds@[k];
            let b = o.feeds@[k];
            &&& a.feed_url == b.feed_url
            &&& a.status == b.status
            &&& a.from_cache == b.from_cache
            &&& a.title == b.title
            &&& a.site_url == b.site_url
            &&& a.updated == b.updated
            &&& a.error == b.error
            &&& a.cached_at == b.cached_at
            &&& a.cache_age_seconds == b.cache_age_seconds
            &&& a.items@.len() <= b.items@.len()
            &&& k < out.feeds@.len() - 1 ==> a.items@.len() == b.items@.len()
            &&& k == out.feeds@.len() - 1 ==> a.items@.len() == m
            &&& 0 <= i < a.items@.len() ==> a.items@[i] == b.items@[i]
            &&& a.item_count == a.items@.len()
            &&& a.content_tokens_est_total == tokens_sum(a.items@)
        }),
        out.feeds@.len() == nf <= o.feeds@.len(),
        out.total_items == item_total(out.feeds@),
        out.total_content_tokens_est == token_total(out.feeds@),
        out.schema_version == o.schema_version,
        out.fetched_at == o.fetched_at,
        out.errors == o.errors,
        out.warnings == o.warnings,
        out.truncation == o.truncation,
        out.applied_filters == o.applied_filters,
        out.duplicates == o.duplicates,
{
    assert(crate::totals::same_shell(out.feeds@[k], o.feeds@[k]));
    assert(crate::totals::feed_counts_hold(out.feeds@[k]));
}

/// What a page ships and what its stop counts as left are together everything, and the stop points at
/// the first item that was not shipped, or at the first feed.
pub proof fn law_a_stop_counts_what_is_left(
    out: FetchOutput,
    o: FetchOutput,
    nf: int,
    m: int,
    s: PageStop,
)
    requires
        is_page(out, o, nf, m),
        is_stop(s, o, nf, m),
        crate::page::leaves_something(o, nf, m),
    ensures
        item_total(out.feeds@) + s.items_omitted == item_total(o.feeds@),
        out.feeds@.len() + s.feeds_omitted == o.feeds@.len(),
        s.feed_idx < o.feeds@.len(),
        s.feed_item_count == o.feeds@[s.feed_idx as int].items@.len(),
        s.feed_idx < out.feeds@.len() ==> s.feed_idx == out.feeds@.len() - 1 && s.item_idx
            == out.feeds@[s.feed_idx as int].items@.len() && s.item_idx < s.feed_item_count,
        s.feed_idx >= out.feeds@.len() ==> s.feed_idx == out.feeds@.len() && s.item_idx == 0,
{
    crate::page::lemma_page_ships(out, o, nf, m);
    if nf > 0 {
        assert(crate::totals::same_shell(out.feeds@[nf - 1], o.feeds@[nf - 1]));
    }
}

proof fn lemma_empty_feeds_between(o: FetchOutput, k: int)
    requires
        0 <= k <= first_feed_with_items(o, k) < o.feeds@.len(),
    ensures
        item_total(o.feeds@.take(first_feed_with_items(o, k))) == item_total(o.feeds@.take(k)),
    decreases o.feeds@.len() - k,
{
    if full(o, k) == 0 {
        lemma_later_feed(o, k + 1);
        lemma_empty_feeds_between(o, k + 1);
        crate::totals::lemma_feed_in_totals(o.feeds@, k);
    }
}

proof fn lemma_later_feed(o: FetchOutput, k: int)
    ensures
        k <= first_feed_with_items(o, k),
    decreases o.feeds@.len() - k,
{
    if k < o.feeds@.len() && full(o, k) == 0 {
        lemma_later_feed(o, k + 1);
    }
}

proof fn lemma_total_grows(o: FetchOutput, a: int, b: int)
    requires
        0 <= a <= b <= o.feeds@.len(),
    ensures
        item_total(o.feeds@.take(a)) <= item_total(o.feeds@.take(b)),
{
    crate::totals::lemma_totals_grow(o.feeds@.take(b), a);
    assert(o.feeds@.take(b).take(a) =~= o.feeds@.take(a));
}

proof fn lemma_items_up_to(o: FetchOutput, nf: int, m: int)
    requires
        0 <= nf <= o.feeds@.len(),
        0 <= m <= crate::page::full_before(o, nf),
    ensures
        page_items(o, nf, m) <= item_total(o.feeds@.take(nf)),
        page_items(o, nf, m) <= item_total(o.feeds@),
        nf > 0 ==> item_total(o.feeds@.take(nf - 1)) <= page_items(o, nf, m),
{
    if nf > 0 {
        crate::totals::lemma_feed_in_totals(o.feeds@, nf - 1);
    }
}

/// Of all the pages of an output, the one that it is trimmed to is the longest that fits: it fits, and
/// every page with more items does not. Where there is none, no page with an item fits.
pub proof fn law_no_longer_page_fits(
    o: FetchOutput,
    budget: int,
    longer: FetchOutput,
    nf2: int,
    m2: int,
    out: FetchOutput,
    nf: int,
    m: int,
)
    requires
        crate::totals::counts_hold(o),
        response_tokens(o) > budget,
        is_page(longer, o, nf2, m2),
    ensures
        page_end(o, budget) is None && item_total(longer.feeds@) > 0 ==> response_tokens(longer)
            > budget,
        page_end(o, budget) == Some((nf, m)) && is_page(out, o, nf, m) ==> response_tokens(out)
            <= budget,
        page_end(o, budget) == Some((nf, m)) && is_page(out, o, nf, m) && item_total(longer.feeds@)
            > item_total(out.feeds@) ==> response_tokens(longer) > budget,
{
    crate::fill::law_pages_are_as_long_as_fits(o, budget);
    crate::page::lemma_page_json(longer, o, nf2, m2);
    crate::page::lemma_page_ships(longer, o, nf2, m2);
    lemma_items_up_to(o, nf2, m2);
    assert(o.feeds@.take(0) =~= Seq::empty());
    if page_end(o, budget) is None && item_total(longer.feeds@) > 0 {
        crate::fill::lemma_next_item(o, 0);
        let f = first_feed_with_items(o, 0);
        lemma_empty_feeds_between(o, 0);
        if nf2 < f + 1 {
            lemma_total_grows(o, nf2, f);
        }
        assert(is_within(f + 1, 1, nf2, m2));
        crate::fill::lemma_longer_page_is_wider(o, f + 1, 1, nf2, m2);
    }
    if page_end(o, budget) == Some((nf, m)) && is_page(out, o, nf, m) {
        crate::page::lemma_page_json(out, o, nf, m);
        crate::page::lemma_page_ships(out, o, nf, m);
        lemma_items_up_to(o, nf, m);
        if item_total(longer.feeds@) > item_total(out.feeds@) {
            crate::page::law_page_makes_progress(o, budget);
            let (a, b) = page_with_one_more(o, nf, m);
            let (rf, ri) = resume_at(o, nf, m);
            if ri > 0 {
                if nf2 < nf {
                    lemma_total_grows(o, nf2, nf - 1);
                }
            } else {
                crate::fill::lemma_next_item(o, rf);
                lemma_empty_feeds_between(o, rf);
                let f = first_feed_with_items(o, rf);
                if nf2 < f + 1 {
                    lemma_total_grows(o, nf2, f);
                }
            }
            assert(is_within(a, b, nf2, m2));
            crate::fill::lemma_longer_page_is_wider(o, a, b, nf2, m2);
        }
    }
}

/// Items that were cut short are counted one by one.
pub proof fn law_cut_items_are_counted(a: Seq<Item>, b: Seq<Item>, x: Item)
    ensures
        cut_count(Seq::<Item>::empty()) == 0,
        cut_count(a + b) == cut_count(a) + cut_count(b),
        cut_count(seq![x]) == (if x.content_truncated {
            1nat
        } else {
            0nat
        }),
    decreases b.len(),
{
    reveal_with_fuel(cut_count, 2);
    assert(seq![x].drop_last() =~= Seq::<Item>::empty());
    assert(seq![x].last() == x);
    if b.len() == 0 {
        assert(a + b =~= a);
    } else {
        law_cut_items_are_counted(a, b.drop_last(), x);
        assert((a + b).drop_last() =~= a + b.drop_last());
        assert((a + b).last() == b.last());
    }
}

/// They are counted feed by feed.
pub proof fn law_cut_items_are_counted_by_feed(a: Seq<FeedResult>, b: Seq<FeedResult>, x: FeedResult)
    ensures
        cut_total(Seq::<FeedResult>::empty()) == 0,
        cut_total(a + b) == cut_total(a) + cut_total(b),
        cut_total(seq![x]) == cut_count(x.items@),
    decreases b.len(),
{
    reveal_with_fuel(cut_total, 2);
    assert(seq![x].drop_last() =~= Seq::<FeedResult>::empty());
    assert(seq![x].last() == x);
    if b.len() == 0 {
        assert(a + b =~= a);
    } else {
        law_cut_items_are_counted_by_feed(a, b.drop_last(), x);
        assert((a + b).drop_last() =~= a + b.drop_last());
        assert((a + b).last() == b.last());
    }
}

/// Advice comes after what was there, behind a semicolon; none of it is lost, and a blank or missing
/// one leaves no mark.
pub proof fn law_advice_is_added_at_the_end(a: Seq<char>, b: Seq<char>)
    ensures
        joined_advice(None, b) == b,
        a.len() == 0 ==> joined_advice(Some(a), b) == b,
        a.len() > 0 ==> joined_advice(Some(a), b) == a + seq![';', ' '] + b,
{
    reveal_strlit("; ");
    assert("; "@ =~= seq![';', ' ']);
}

/// A marker with a continuation is the marker, but for the token and the advice on paging; one with
/// advice is the marker, but for the advice.
pub proof fn law_a_marker_keeps_what_it_says(m: MarkerView, t: Seq<char>)
    ensures
        ({
            let c = with_continuation(m, t);
            &&& c.next_cursor == Some(t)
            &&& c.suggestion == Some(joined_advice(m.suggestion, crate::marker::PAGINATION_SUGGESTION@))
            &&& c.applied_limit == m.applied_limit
            &&& c.items_content_truncated == m.items_content_truncated
            &&& c.items_omitted == m.items_omitted
            &&& c.feeds_omitted == m.feeds_omitted
            &&& c.estimated_tokens == m.estimated_tokens
        }),
        ({
            let c = with_advice(m, t);
            &&& c.next_cursor == m.next_cursor
            &&& c.suggestion == Some(joined_advice(m.suggestion, t))
            &&& c.applied_limit == m.applied_limit
            &&& c.items_content_truncated == m.items_content_truncated
            &&& c.items_omitted == m.items_omitted
            &&& c.feeds_omitted == m.feeds_omitted
            &&& c.estimated_tokens == m.estimated_tokens
        }),
{
}

/// The marker of a page that stopped has the counts of the stop; of a marker that was there it keeps
/// the rest, and without one it has the limit and nothing more.
pub proof fn law_a_stop_is_marked(x: MarkerView, limit: Option<usize>, items: int, feeds: int)
    ensures
        ({
            let m = stopped(Some(x), limit, items, feeds);
            &&& m.items_omitted == items
            &&& m.feeds_omitted == feeds
            &&& m.applied_limit == x.applied_limit
            &&& m.items_content_truncated == x.items_content_truncated
            &&& m.next_cursor == x.next_cursor
            &&& m.estimated_tokens == x.estimated_tokens
            &&& m.suggestion == x.suggestion
        }),
        ({
            let m = stopped(None, limit, items, feeds);
            &&& m.items_omitted == items
            &&& m.feeds_omitted == feeds
            &&& m.applied_limit == limit
            &&& m.items_content_truncated == 0
            &&& m.next_cursor is None
            &&& m.estimated_tokens is None
            &&& m.suggestion is None
        }),
{
}

/// What the deadline left out adds to what the page left out; the page's own advice comes first, and
/// nothing else of its marker changes.
pub proof fn law_omissions_add_up(x: MarkerView, d: MarkerView)
    ensures
        merged(None, None) is None,
        merged(Some(x), None) == Some(x),
        merged(None, Some(d)) == Some(d),
        merged(Some(x), Some(d)) matches Some(m) && m.feeds_omitted == x.feeds_omitted
            + d.feeds_omitted && m.items_omitted == x.items_omitted && m.applied_limit
            == x.applied_limit && m.items_content_truncated == x.items_content_truncated
            && m.next_cursor == x.next_cursor && m.estimated_tokens == x.estimated_tokens
            && m.suggestion == (if x.suggestion is Some {
            x.suggestion
        } else {
            d.suggestion
        }),
{
}

/// What is held back for a marker is held back for one that has every number at its largest, a
/// continuation and both pieces of advice.
pub proof fn law_the_widest_marker_has_everything()
    ensures
        widest().applied_limit == Some(usize::MAX),
        widest().estimated_tokens == Some(usize::MAX),
        widest().items_content_truncated == usize::MAX,
        widest().items_omitted == usize::MAX,
        widest().feeds_omitted == usize::MAX,
        widest().next_cursor == Some(cursor_text(widest_cursor())),
        widest().suggestion == Some(
            crate::marker::CONTENT_TRUNCATION_SUGGESTION@ + seq![';', ' ']
                + crate::marker::PAGINATION_SUGGESTION@,
        ),
        widest_cursor().v == 255,
        widest_cursor().fp.len() == 16,
        widest_cursor().f == usize::MAX,
        widest_cursor().i == usize::MAX,
        widest_cursor().n == usize::MAX,
        widest_cursor().s == Some(i64::MIN as int),
{
    reveal_strlit("ffffffffffffffff");
    reveal_strlit("content was truncated; call get_item for the full body of a specific item");
    law_advice_is_added_at_the_end(
        crate::marker::CONTENT_TRUNCATION_SUGGESTION@,
        crate::marker::PAGINATION_SUGGESTION@,
    );
}

/// What is held back for a marker is its size, eight tokens for its place on the page, and both notes.
pub proof fn law_what_is_held_back()
    ensures
        crate::marker::headroom() == crate::page::json_tokens(crate::marker::marker_json(widest())) + 8
            + crate::content::tokens(
            " Content truncated (see structuredContent.truncation)."@.len()
                + " More items or feeds remain: pass truncation.next_cursor back as `cursor` for the next page."@.len(),
        ),
{
}

/// A summary notes that content was cut, and that there is more, each exactly where it is so, and in
/// this order.
pub proof fn law_notes_say_what_is_missing(o: FetchOutput)
    ensures
        ({
            let cut = " Content truncated (see structuredContent.truncation)."@;
            let more =
                " More items or feeds remain: pass truncation.next_cursor back as `cursor` for the next page."@;
            match o.truncation {
                None => note_text(o.truncation).len() == 0,
                Some(m) => {
                    &&& m.items_content_truncated == 0 && m.next_cursor is None ==> note_text(
                        o.truncation,
                    ).len() == 0
                    &&& m.items_content_truncated > 0 && m.next_cursor is None ==> note_text(
                        o.truncation,
                    ) == cut
                    &&& m.items_content_truncated == 0 && m.next_cursor is Some ==> note_text(
                        o.truncation,
                    ) == more
                    &&& m.items_content_truncated > 0 && m.next_cursor is Some ==> note_text(
                        o.truncation,
                    ) == cut + more
                },
            }
        }),
{
    let cut = " Content truncated (see structuredContent.truncation)."@;
    let more =
        " More items or feeds remain: pass truncation.next_cursor back as `cursor` for the next page."@;
    assert(cut + Seq::<char>::empty() =~= cut);
    assert(Seq::<char>::empty() + more =~= more);
    assert((Seq::<char>::empty() + Seq::<char>::empty()).len() == 0);
}

/// The summary of a page names the URL where nothing came, the error where the one feed failed, and
/// otherwise how many items with how many tokens came from the one feed, by its title, or from how many
/// feeds, of which how many failed.
pub proof fn law_a_summary_says_what_came(o: FetchOutput, url: Seq<char>)
    ensures
        ({
            let s = summary_text(o, url);
            let counts = "Fetched "@ + decimal(o.total_items as nat) + " item(s) (~"@ + decimal(
                o.total_content_tokens_est as nat,
            ) + " content tokens) from "@;
            let end = note_text(o.truncation) + " Full data in structuredContent."@;
            let n = o.feeds@.len();
            &&& n == 0 ==> s == "fetch_feed: no result for "@ + url + "."@
            &&& n == 1 && o.feeds@[0].error is Some ==> s == "fetch_feed: "@ + url
                + " returned an error ("@ + o.feeds@[0].error->Some_0.code@
                + "); see structuredContent."@
            &&& n == 1 && o.feeds@[0].error is None && o.feeds@[0].title is Some ==> s == counts + (
            "\""@ + o.feeds@[0].title->Some_0@ + "\"."@) + end
            &&& n == 1 && o.feeds@[0].error is None && o.feeds@[0].title is None ==> s == counts + (
            "\""@ + url + "\"."@) + end
            &&& n > 1 && o.errors@.len() == 0 ==> s == counts + (decimal(n) + " feed(s)"@ + "."@) + end
            &&& n > 1 && o.errors@.len() > 0 ==> s == counts + (decimal(n) + " feed(s)"@ + ("; "@
                + decimal(o.errors@.len()) + " feed(s) failed (see structuredContent.errors)"@)
                + "."@) + end
        }),
{
    reveal_strlit("");
    let s = summary_text(o, url);
    let counts = "Fetched "@ + decimal(o.total_items as nat) + " item(s) (~"@ + decimal(
        o.total_content_tokens_est as nat,
    ) + " content tokens) from "@;
    let end = note_text(o.truncation) + " Full data in structuredContent."@;
    let n = o.feeds@.len();
    if n == 1 && o.feeds@[0].error is None {
        let t = match o.feeds@[0].title {
            Some(t) => t@,
            None => url,
        };
        assert(s =~= counts + ("\""@ + t + "\"."@) + end);
    }
    if n > 1 {
        let failed = if o.errors@.len() > 0 {
            "; "@ + decimal(o.errors@.len()) + " feed(s) failed (see structuredContent.errors)"@
        } else {
            ""@
        };
        assert(s =~= counts + (decimal(n) + " feed(s)"@ + failed + "."@) + end);
        if o.errors@.len() == 0 {
            assert(decimal(n) + " feed(s)"@ + failed + "."@ =~= decimal(n) + " feed(s)"@ + "."@);
        }
    }
}

/// The size of a response is written on its marker; nothing else changes.
pub proof fn law_a_marker_says_how_large_the_response_is(after: FetchOutput, before: FetchOutput)
    requires
        is_stamped(after, before),
    ensures
        before.truncation is None <==> after.truncation is None,
        after.truncation matches Some(t) ==> {
            let m = before.truncation->Some_0;
            &&& t.estimated_tokens matches Some(n) && n == response_tokens(before)
            &&& t.applied_limit == m.applied_limit
            &&& t.items_content_truncated == m.items_content_truncated
            &&& t.items_omitted == m.items_omitted
            &&& t.feeds_omitted == m.feeds_omitted
            &&& t.next_cursor.deep_view() == m.next_cursor.deep_view()
            &&& t.suggestion.deep_view() == m.suggestion.deep_view()
        },
        after.feeds == before.feeds,
        after.errors == before.errors,
        after.warnings == before.warnings,
        after.duplicates == before.duplicates,
        after.applied_filters == before.applied_filters,
        after.total_items == before.total_items,
        after.total_content_tokens_est == before.total_content_tokens_est,
        after.fetched_at == before.fetched_at,
        after.schema_version == before.schema_version,
{
    if before.truncation is Some {
        let t = after.truncation->Some_0;
        let m = before.truncation->Some_0;
        assert(t@.applied_limit == m@.applied_limit);
        assert(t@.items_content_truncated == m@.items_content_truncated);
        assert(t@.items_omitted == m@.items_omitted);
        assert(t@.feeds_omitted == m@.feeds_omitted);
        assert(t@.next_cursor == m@.next_cursor);
        assert(t@.suggestion == m@.suggestion);
        assert(t@.estimated_tokens == Some(response_tokens(before) as usize));
    }
}

} // verus!
