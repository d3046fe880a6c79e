//! That a page is as long as fits: the sum that admission goes by is at most the size of the page, so
//! no page that fits is passed over.

use vstd::prelude::*;
use vstd::string::*;

use crate::model::{FeedResult, FetchOutput, Item};

verus! {

/// The names of a feed's members are different.
proof fn lemma_feed_names(f: FeedResult, items: Seq<Item>, n: int, t: int)
    ensures
        crate::json::distinct_names(crate::wire::feed_json_with(f, items, n, t)->Obj_0),
        crate::wire::feed_json_with(f, items, n, t)->Obj_0.len() == 12,
{
    reveal_strlit("feed_url");
    reveal_strlit("status");
    reveal_strlit("from_cache");
    reveal_strlit("title");
    reveal_strlit("site_url");
    reveal_strlit("updated");
    reveal_strlit("item_count");
    reveal_strlit("content_tokens_est_total");
    reveal_strlit("items");
    reveal_strlit("error");
    reveal_strlit("cached_at");
    reveal_strlit("cache_age_seconds");
    let m = crate::wire::feed_json_with(f, items, n, t)->Obj_0;
    assert("feed_url"@[0] == 'f' && "site_url"@[0] == 's' && "from_cache"@[0] == 'f'
        && "item_count"@[0] == 'i' && "title"@[0] == 't' && "items"@[0] == 'i' && "error"@[0] == 'e');
    assert forall|a: int, b: int| 0 <= a < b < m.len() implies (#[trigger] m[a]).0 != (
    #[trigger] m[b]).0 by {
        assert(m[a].0.len() != m[b].0.len() || m[a].0[0] != m[b].0[0]);
    }
}

/// The names of an item's members are different.
proof fn lemma_item_names(i: Item)
    ensures
        crate::json::distinct_names(crate::wire::item_members(i)),
        crate::wire::item_members(i).len() == 17,
{
    reveal_strlit("id");
    reveal_strlit("id_source");
    reveal_strlit("feed_url");
    reveal_strlit("title");
    reveal_strlit("url");
    reveal_strlit("authors");
    reveal_strlit("published");
    reveal_strlit("updated");
    reveal_strlit("summary");
    reveal_strlit("content");
    reveal_strlit("content_format");
    reveal_strlit("content_tokens_est");
    reveal_strlit("content_truncated");
    reveal_strlit("content_hash");
    reveal_strlit("categories");
    reveal_strlit("enclosures");
    reveal_strlit("guid");
    let m = crate::wire::item_members(i);
    assert("id_source"@[0] == 'i' && "published"@[0] == 'p' && "authors"@[0] == 'a' && "updated"@[0]
        == 'u' && "summary"@[0] == 's' && "content"@[0] == 'c' && "categories"@[0] == 'c'
        && "enclosures"@[0] == 'e');
    assert forall|a: int, b: int| 0 <= a < b < m.len() implies (#[trigger] m[a]).0 != (
    #[trigger] m[b]).0 by {
        assert(m[a].0.len() != m[b].0.len() || m[a].0[0] != m[b].0[0]);
    }
}

/// An item inside a page is wider than on its own.
proof fn lemma_nested_item(i: Item)
    ensures
        crate::json::layout_width(crate::json::kept(crate::wire::item_json(i)), 4) >= crate::page::json_width(
            crate::wire::item_json(i),
        ) + 144,
        crate::page::json_width(crate::wire::item_json(i)) >= 2,
{
    lemma_item_names(i);
    crate::page::lemma_object_has_width(crate::wire::item_members(i));
    crate::json::lemma_kept_object(crate::wire::item_members(i));
    let g = crate::json::kept(crate::wire::item_json(i))->Obj_0;
    crate::json::lemma_fields_deeper(g, 1, 5, 17);
}

/// How many characters some items take up inside a page.
spec fn nested_items(items: Seq<Item>) -> int
    decreases items.len(),
{
    if items.len() == 0 {
        0
    } else {
        nested_items(items.drop_last()) + crate::json::layout_width(
            crate::json::kept(crate::wire::item_json(items.last())),
            4,
        )
    }
}

/// The values of a feed's items, as a tree holds them.
spec fn kept_items(items: Seq<Item>) -> Seq<crate::json::JsonView> {
    items.map_values(|i: Item| crate::json::kept(crate::wire::item_json(i)))
}

proof fn lemma_items_width(items: Seq<Item>)
    ensures
        crate::json::elements_width(kept_items(items), 4, items.len() as int) == nested_items(items),
        nested_items(items) >= 0,
    decreases items.len(),
{
    if items.len() > 0 {
        let x = kept_items(items);
        crate::json::lemma_last_element(x, 4);
        assert(x.drop_last() =~= kept_items(items.drop_last()));
        lemma_items_width(items.drop_last());
        lemma_nested_item(items.last());
    }
}

/// How many characters a feed takes up inside a page, with its first `m` items.
spec fn nested_feed(f: FeedResult, m: int) -> int {
    crate::json::layout_width(crate::json::kept(crate::page::page_feed_json(f, m)), 2)
}

/// The members of a feed's tree.
proof fn lemma_feed_tree(f: FeedResult, items: Seq<Item>, n: int, t: int)
    ensures
        ({
            let j = crate::wire::feed_json_with(f, items, n, t);
            let g = crate::json::kept(j)->Obj_0;
            &&& crate::json::kept(j) is Obj
            &&& g.len() == 12
            &&& forall|i: int|
                0 <= i < 12 ==> #[trigger] g[i] == (
                    j->Obj_0[i].0,
                    crate::json::kept(j->Obj_0[i].1),
                )
            &&& g[6].1 == crate::json::JsonView::Int(n)
            &&& g[7].1 == crate::json::JsonView::Int(t)
            &&& g[8].1 == crate::json::JsonView::Arr(kept_items(items))
        }),
{
    let j = crate::wire::feed_json_with(f, items, n, t);
    lemma_feed_names(f, items, n, t);
    crate::json::lemma_kept_object(j->Obj_0);
    let x = items.map_values(|i: Item| crate::wire::item_json(i));
    crate::json::lemma_kept_list(x);
    assert(x.map_values(|e: crate::json::JsonView| crate::json::kept(e)) =~= kept_items(items));
    let g = crate::json::kept(j)->Obj_0;
    assert(j->Obj_0[8].1 == crate::json::JsonView::Arr(x));
}

proof fn lemma_count_width(a: int, b: int)
    requires
        0 <= a <= b,
    ensures
        crate::json::layout_width(crate::json::JsonView::Int(a), 0) <= crate::json::layout_width(
            crate::json::JsonView::Int(b),
            0,
        ),
        forall|n: int, d: int, e: int| #[trigger]
            crate::json::layout_width(crate::json::JsonView::Int(n), d)
                == #[trigger] crate::json::layout_width(crate::json::JsonView::Int(n), e),
{
    crate::room::lemma_decimal_grows(a as nat, b as nat);
}

/// A feed inside a page is wider than its items inside it and its metadata on its own.
proof fn lemma_nested_feed(f: FeedResult, m: int)
    requires
        0 < m <= f.items@.len(),
    ensures
        nested_feed(f, m) >= crate::page::json_width(crate::wire::feed_json_with(f, Seq::empty(), 0, 0))
            + nested_items(f.items@.take(m)) + 10 * m + 58,
{
    let items = f.items@.take(m);
    let t = crate::totals::tokens_sum(items) as int;
    let a = crate::wire::feed_json_with(f, Seq::empty(), 0, 0);
    let b = crate::page::page_feed_json(f, m);
    lemma_feed_tree(f, Seq::empty(), 0, 0);
    lemma_feed_tree(f, items, m, t);
    let ga = crate::json::kept(a)->Obj_0;
    let gb = crate::json::kept(b)->Obj_0;
    lemma_items_width(items);
    lemma_count_width(0, m);
    lemma_count_width(0, t);
    let more = nested_items(items) + 10 * m + 6;
    assert(kept_items(Seq::empty()) =~= Seq::empty());
    assert(kept_items(items).len() == m);
    assert(m * (2 * 3 + 4) == 10 * m) by (nonlinear_arith);
    assert forall|i: int| 0 <= i < 12 implies (#[trigger] ga[i]).0 == gb[i].0
        && crate::json::layout_width(ga[i].1, 1) + (if i == 8 {
        more
    } else {
        0
    }) <= crate::json::layout_width(gb[i].1, 3) by {
        assert(gb[i] == (b->Obj_0[i].0, crate::json::kept(b->Obj_0[i].1)));
        if i == 8 {
        } else if i == 6 || i == 7 {
        } else {
            assert(a->Obj_0[i] == b->Obj_0[i]);
            crate::json::lemma_deeper(ga[i].1, 1, 3);
        }
    }
    crate::json::lemma_wider_fields(ga, 1, gb, 3, 12, 8, more);
}

/// What admitting the first `m` items of a feed costs.
spec fn feed_cost(f: FeedResult, m: int) -> int
    decreases m,
{
    if m <= 0 {
        0
    } else {
        feed_cost(f, m - 1) + crate::page::admission_cost(f, m - 1)
    }
}

/// What a fourth of a number, rounded up, is at most.
proof fn lemma_tokens_bound(n: int)
    requires
        0 <= n,
    ensures
        4 * crate::content::tokens(n as nat) <= n + 3,
        4 * crate::content::tokens(n as nat) >= n,
{
}

proof fn lemma_feed_cost(f: FeedResult, m: int)
    requires
        0 < m <= f.items@.len(),
    ensures
        4 * feed_cost(f, m) <= crate::page::json_width(crate::wire::feed_json_with(f, Seq::empty(), 0, 0)) + 11
            + nested_items(f.items@.take(m)),
    decreases m,
{
    let items = f.items@.take(m);
    let i = f.items@[m - 1];
    assert(items.drop_last() =~= f.items@.take(m - 1));
    assert(items.last() == i);
    lemma_nested_item(i);
    lemma_tokens_bound(crate::page::json_width(crate::wire::item_json(i)));
    if m > 1 {
        lemma_feed_cost(f, m - 1);
    } else {
        let shell = crate::wire::feed_json_with(f, Seq::empty(), 0, 0);
        crate::page::lemma_object_has_width(shell->Obj_0);
        lemma_tokens_bound(crate::page::json_width(shell));
        assert(f.items@.take(0) =~= Seq::empty());
        assert(nested_items(f.items@.take(0)) == 0);
        assert(feed_cost(f, 0) == 0);
    }
}

/// How many characters the feeds of a page take up inside it.
spec fn nested_feeds(o: FetchOutput, nf: int, m: int, k: int) -> int
    decreases k,
{
    if k <= 0 {
        0
    } else {
        nested_feeds(o, nf, m, k - 1) + nested_feed(o.feeds@[k - 1], crate::page::shipped(o, nf, m, k - 1))
    }
}

/// The values of a page's feeds, as a tree holds them.
spec fn kept_feeds(o: FetchOutput, nf: int, m: int) -> Seq<crate::json::JsonView> {
    Seq::new(
        nf as nat,
        |k: int| crate::json::kept(crate::page::page_feed_json(o.feeds@[k], crate::page::shipped(o, nf, m, k))),
    )
}

proof fn lemma_feeds_width(o: FetchOutput, nf: int, m: int, k: int)
    requires
        0 <= k <= nf,
    ensures
        crate::json::elements_width(kept_feeds(o, nf, m), 2, k) == nested_feeds(o, nf, m, k),
        nested_feeds(o, nf, m, k) >= 0,
    decreases k,
{
    if k > 0 {
        lemma_feeds_width(o, nf, m, k - 1);
        crate::json::lemma_deeper(kept_feeds(o, nf, m)[k - 1], 2, 2);
    }
}

/// The members of a page's tree.
proof fn lemma_page_tree(o: FetchOutput, nf: int, m: int)
    requires
        0 <= nf,
    ensures
        ({
            let j = crate::page::page_json(o, nf, m);
            let g = crate::json::kept(j)->Obj_0;
            &&& crate::json::kept(j) is Obj
            &&& g.len() == 10
            &&& forall|i: int|
                0 <= i < 10 ==> #[trigger] g[i] == (
                    j->Obj_0[i].0,
                    crate::json::kept(j->Obj_0[i].1),
                )
            &&& g[2].1 == crate::json::JsonView::Int(crate::page::page_items(o, nf, m))
            &&& g[3].1 == crate::json::JsonView::Int(crate::page::page_content_tokens(o, nf, m))
            &&& g[4].1 == crate::json::JsonView::Arr(kept_feeds(o, nf, m))
        }),
{
    let j = crate::page::page_json(o, nf, m);
    let x = Seq::new(nf as nat, |k: int| crate::page::page_feed_json(o.feeds@[k], crate::page::shipped(o, nf, m, k)));
    crate::page::lemma_output_names(j, o, x, crate::page::page_items(o, nf, m), crate::page::page_content_tokens(o, nf, m));
    crate::json::lemma_kept_object(j->Obj_0);
    crate::json::lemma_kept_list(x);
    assert(x.map_values(|e: crate::json::JsonView| crate::json::kept(e)) =~= kept_feeds(o, nf, m));
}

/// How many characters the list of a page's feeds takes up.
spec fn feed_list_width(o: FetchOutput, nf: int, m: int) -> int {
    if nf <= 0 {
        2
    } else {
        nested_feeds(o, nf, m, nf) + 6 * nf + 4
    }
}

/// A page whose counts and feeds are no narrower than another's is no narrower, and where its feeds
/// are wider, by as much.
proof fn lemma_page_growth(o: FetchOutput, nf: int, m: int, nf2: int, m2: int)
    requires
        0 <= nf,
        0 <= nf2,
        0 <= crate::page::page_items(o, nf, m) <= crate::page::page_items(o, nf2, m2),
        0 <= crate::page::page_content_tokens(o, nf, m) <= crate::page::page_content_tokens(o, nf2, m2),
    ensures
        crate::page::json_width(crate::page::page_json(o, nf2, m2)) >= crate::page::json_width(crate::page::page_json(o, nf, m)) + feed_list_width(
            o,
            nf2,
            m2,
        ) - feed_list_width(o, nf, m),
{
    let a = crate::page::page_json(o, nf, m);
    let b = crate::page::page_json(o, nf2, m2);
    lemma_page_tree(o, nf, m);
    lemma_page_tree(o, nf2, m2);
    let ga = crate::json::kept(a)->Obj_0;
    let gb = crate::json::kept(b)->Obj_0;
    lemma_feeds_width(o, nf, m, nf);
    lemma_feeds_width(o, nf2, m2, nf2);
    lemma_count_width(crate::page::page_items(o, nf, m), crate::page::page_items(o, nf2, m2));
    lemma_count_width(crate::page::page_content_tokens(o, nf, m), crate::page::page_content_tokens(o, nf2, m2));
    assert(nf * (2 * 1 + 4) == 6 * nf) by (nonlinear_arith);
    assert(nf2 * (2 * 1 + 4) == 6 * nf2) by (nonlinear_arith);
    assert(kept_feeds(o, nf, m).len() == nf && kept_feeds(o, nf2, m2).len() == nf2);
    let more = feed_list_width(o, nf2, m2) - feed_list_width(o, nf, m);
    assert forall|i: int| 0 <= i < 10 implies (#[trigger] ga[i]).0 == gb[i].0
        && crate::json::layout_width(ga[i].1, 1) + (if i == 4 {
        more
    } else {
        0
    }) <= crate::json::layout_width(gb[i].1, 1) by {
        assert(gb[i] == (b->Obj_0[i].0, crate::json::kept(b->Obj_0[i].1)));
        if i != 2 && i != 3 && i != 4 {
            assert(a->Obj_0[i] == b->Obj_0[i]);
        }
    }
    crate::json::lemma_wider_fields(ga, 1, gb, 1, 10, 4, more);
}

/// What admitting the items of a page costs, with the response's own metadata.
spec fn greedy_cost(o: FetchOutput, nf: int, m: int, k: int) -> int
    decreases k,
{
    if k <= 0 {
        crate::page::json_tokens(crate::page::page_json(o, 0, 0)) as int
    } else {
        greedy_cost(o, nf, m, k - 1) + feed_cost(o.feeds@[k - 1], crate::page::shipped(o, nf, m, k - 1))
    }
}

proof fn lemma_greedy_is_below(o: FetchOutput, nf: int, m: int, k: int)
    requires
        0 <= k <= nf <= o.feeds@.len(),
        0 <= m <= crate::page::full_before(o, nf),
    ensures
        4 * greedy_cost(o, nf, m, k) <= crate::page::json_width(crate::page::page_json(o, 0, 0)) + 3 + nested_feeds(
            o,
            nf,
            m,
            k,
        ),
    decreases k,
{
    if k > 0 {
        lemma_greedy_is_below(o, nf, m, k - 1);
        let f = o.feeds@[k - 1];
        let n = crate::page::shipped(o, nf, m, k - 1);
        if n > 0 {
            lemma_feed_cost(f, n);
            lemma_nested_feed(f, n);
        } else {
            crate::json::lemma_deeper(crate::json::kept(crate::page::page_feed_json(f, n)), 2, 2);
        }
    } else {
        crate::page::lemma_object_has_width(crate::page::page_json(o, 0, 0)->Obj_0);
        lemma_tokens_bound(crate::page::json_width(crate::page::page_json(o, 0, 0)));
    }
}

proof fn lemma_page_counts(o: FetchOutput, nf: int, m: int)
    requires
        0 <= nf <= o.feeds@.len(),
        0 <= m <= crate::page::full_before(o, nf),
    ensures
        crate::page::page_items(o, nf, m) >= 0,
        crate::page::page_content_tokens(o, nf, m) >= 0,
        m < crate::page::full_before(o, nf) ==> crate::page::page_items(o, nf, m) <= crate::page::page_items(o, nf, m + 1)
            && crate::page::page_content_tokens(o, nf, m) <= crate::page::page_content_tokens(o, nf, m + 1),
        nf < o.feeds@.len() && m == crate::page::full_before(o, nf) ==> crate::page::page_items(o, nf, m) == crate::page::page_items(
            o,
            nf + 1,
            0,
        ) && crate::page::page_content_tokens(o, nf, m) == crate::page::page_content_tokens(o, nf + 1, 0),
{
    if nf > 0 {
        let items = o.feeds@[nf - 1].items@;
        if m < crate::page::full_before(o, nf) {
            assert(items.take(m + 1).drop_last() =~= items.take(m));
        } else {
            assert(items.take(m) =~= items);
            crate::totals::lemma_feed_in_totals(o.feeds@, nf - 1);
        }
    } else {
        assert(o.feeds@.take(0) =~= Seq::empty());
    }
    if nf < o.feeds@.len() {
        assert(o.feeds@[nf].items@.take(0) =~= Seq::empty());
    }
}

/// The sum that admission goes by is at most the size of the page.
proof fn lemma_greedy_is_a_lower_bound(o: FetchOutput, nf: int, m: int)
    requires
        0 <= nf <= o.feeds@.len(),
        0 <= m <= crate::page::full_before(o, nf),
    ensures
        greedy_cost(o, nf, m, nf) <= crate::page::json_tokens(crate::page::page_json(o, nf, m)),
{
    lemma_greedy_is_below(o, nf, m, nf);
    lemma_page_counts(o, nf, m);
    lemma_feeds_width(o, nf, m, nf);
    lemma_page_growth(o, 0, 0, nf, m);
    crate::page::lemma_object_has_width(crate::page::page_json(o, nf, m)->Obj_0);
    lemma_tokens_bound(crate::page::json_width(crate::page::page_json(o, nf, m)));
}

proof fn lemma_greedy_prefix(o: FetchOutput, nf: int, m: int, m2: int, k: int)
    requires
        k < nf,
    ensures
        greedy_cost(o, nf, m, k) == greedy_cost(o, nf, m2, k),
        greedy_cost(o, nf, m, k) == greedy_cost(o, nf + 1, m2, k),
    decreases k,
{
    if k > 0 {
        lemma_greedy_prefix(o, nf, m, m2, k - 1);
    }
}

/// Where admission stops, the page with the item that was not admitted is over the budget.
proof fn lemma_rejection_is_real(o: FetchOutput, fi: int, ii: int, running: int, budget: int)
    requires
        0 <= fi < o.feeds@.len() ==> 0 <= ii <= crate::page::full(o, fi) && running == greedy_cost(
            o,
            fi + 1,
            ii,
            fi + 1,
        ),
        0 <= fi,
    ensures
        crate::page::first_over(o.feeds@, fi, ii, running, budget) matches Some((a, b)) ==> crate::page::json_tokens(
            crate::page::page_json(o, a + 1, b + 1),
        ) > budget,
    decreases o.feeds@.len() - fi, o.feeds@[fi].items@.len() - ii,
{
    if fi < o.feeds@.len() {
        let f = o.feeds@[fi];
        if ii >= f.items@.len() {
            if fi + 1 < o.feeds@.len() {
                lemma_greedy_prefix(o, fi + 1, ii, 0, fi);
                assert(crate::page::shipped(o, fi + 2, 0, fi) == crate::page::full(o, fi));
                assert(greedy_cost(o, fi + 2, 0, fi + 2) == greedy_cost(o, fi + 2, 0, fi + 1)
                    + feed_cost(o.feeds@[fi + 1], 0));
                assert(greedy_cost(o, fi + 2, 0, fi + 1) == greedy_cost(o, fi + 2, 0, fi)
                    + feed_cost(f, crate::page::full(o, fi)));
            }
            lemma_rejection_is_real(o, fi + 1, 0, running, budget);
        } else {
            let next = running + crate::page::admission_cost(f, ii);
            lemma_greedy_prefix(o, fi + 1, ii, ii + 1, fi);
            assert(greedy_cost(o, fi + 1, ii + 1, fi + 1) == greedy_cost(o, fi + 1, ii + 1, fi)
                + feed_cost(f, ii + 1));
            assert(greedy_cost(o, fi + 1, ii, fi + 1) == greedy_cost(o, fi + 1, ii, fi)
                + feed_cost(f, ii));
            assert(feed_cost(f, ii + 1) == feed_cost(f, ii) + crate::page::admission_cost(f, ii));
            if next > budget {
                lemma_greedy_is_a_lower_bound(o, fi + 1, ii + 1);
            } else {
                lemma_rejection_is_real(o, fi, ii + 1, next, budget);
            }
        }
    }
}

proof fn lemma_nested_prefix(o: FetchOutput, nf: int, m: int, m2: int, k: int)
    requires
        k < nf,
    ensures
        nested_feeds(o, nf, m, k) == nested_feeds(o, nf, m2, k),
    decreases k,
{
    if k > 0 {
        lemma_nested_prefix(o, nf, m, m2, k - 1);
    }
}

/// A feed with one more item is no narrower.
proof fn lemma_feed_grows(f: FeedResult, m: int)
    requires
        0 <= m < f.items@.len(),
    ensures
        nested_feed(f, m) <= nested_feed(f, m + 1),
{
    let (x, y) = (f.items@.take(m), f.items@.take(m + 1));
    let (s, t) = (crate::totals::tokens_sum(x) as int, crate::totals::tokens_sum(y) as int);
    assert(y.drop_last() =~= x);
    lemma_feed_tree(f, x, m, s);
    lemma_feed_tree(f, y, m + 1, t);
    lemma_items_width(x);
    lemma_items_width(y);
    lemma_nested_item(y.last());
    lemma_count_width(m, m + 1);
    lemma_count_width(s, t);
    let a = crate::page::page_feed_json(f, m);
    let b = crate::page::page_feed_json(f, m + 1);
    let ga = crate::json::kept(a)->Obj_0;
    let gb = crate::json::kept(b)->Obj_0;
    assert(kept_items(x).len() == m && kept_items(y).len() == m + 1);
    assert(m * (2 * 3 + 4) == 10 * m) by (nonlinear_arith);
    assert((m + 1) * (2 * 3 + 4) == 10 * m + 10) by (nonlinear_arith);
    assert forall|i: int| 0 <= i < 12 implies (#[trigger] ga[i]).0 == gb[i].0
        && crate::json::layout_width(ga[i].1, 3) <= crate::json::layout_width(gb[i].1, 3) by {
        assert(gb[i] == (b->Obj_0[i].0, crate::json::kept(b->Obj_0[i].1)));
        if i != 6 && i != 7 && i != 8 {
            assert(a->Obj_0[i] == b->Obj_0[i]);
        }
    }
    crate::json::lemma_no_narrower_fields(ga, 3, gb, 3);
}

/// A page with one more item of its last feed is no narrower.
proof fn lemma_item_is_wider(o: FetchOutput, nf: int, m: int)
    requires
        0 < nf <= o.feeds@.len(),
        0 <= m < crate::page::full(o, nf - 1),
    ensures
        crate::page::json_width(crate::page::page_json(o, nf, m)) <= crate::page::json_width(crate::page::page_json(o, nf, m + 1)),
{
    lemma_page_counts(o, nf, m);
    lemma_nested_prefix(o, nf, m, m + 1, nf - 1);
    lemma_feed_grows(o.feeds@[nf - 1], m);
    lemma_page_growth(o, nf, m, nf, m + 1);
}

/// A page that ends later is no smaller.
pub(crate) proof fn lemma_longer_page_is_wider(o: FetchOutput, nf: int, m: int, nf2: int, m2: int)
    requires
        0 <= nf,
        0 <= m <= crate::page::full_before(o, nf),
        nf2 <= o.feeds@.len(),
        0 <= m2 <= crate::page::full_before(o, nf2),
        crate::page::is_within(nf, m, nf2, m2),
    ensures
        crate::page::json_width(crate::page::page_json(o, nf, m)) <= crate::page::json_width(crate::page::page_json(o, nf2, m2)),
        crate::page::json_tokens(crate::page::page_json(o, nf, m)) <= crate::page::json_tokens(crate::page::page_json(o, nf2, m2)),
    decreases nf2, m2,
{
    if nf == nf2 && m == m2 {
    } else if m2 > 0 {
        lemma_longer_page_is_wider(o, nf, m, nf2, m2 - 1);
        lemma_item_is_wider(o, nf2, m2 - 1);
    } else {
        lemma_longer_page_is_wider(o, nf, m, nf2 - 1, crate::page::full_before(o, nf2 - 1));
        crate::page::lemma_husk_is_wider(o, nf2);
    }
    crate::page::lemma_object_has_width(crate::page::page_json(o, nf, m)->Obj_0);
}

/// The first item from feed `k` on, if there is one: the feed that it is the first item of.
pub open spec fn first_feed_with_items(o: FetchOutput, k: int) -> int
    decreases o.feeds@.len() - k,
{
    if k >= o.feeds@.len() || crate::page::full(o, k) > 0 {
        k
    } else {
        first_feed_with_items(o, k + 1)
    }
}

/// The page that ends with the first item that a page does not ship.
pub open spec fn page_with_one_more(o: FetchOutput, nf: int, m: int) -> (int, int) {
    let (rf, ri) = crate::page::resume_at(o, nf, m);
    if ri > 0 {
        (rf + 1, ri + 1)
    } else {
        (first_feed_with_items(o, rf) + 1, 1)
    }
}

pub(crate) proof fn lemma_next_item(o: FetchOutput, k: int)
    requires
        0 <= k <= o.feeds@.len(),
        crate::totals::item_total(o.feeds@.take(k)) < crate::totals::item_total(o.feeds@),
    ensures
        k <= first_feed_with_items(o, k) < o.feeds@.len(),
        crate::page::full(o, first_feed_with_items(o, k)) > 0,
    decreases o.feeds@.len() - k,
{
    if k >= o.feeds@.len() {
        assert(o.feeds@.take(k) =~= o.feeds@);
    } else if crate::page::full(o, k) == 0 {
        crate::totals::lemma_feed_in_totals(o.feeds@, k);
        lemma_next_item(o, k + 1);
    }
}

/// Where shedding ends short of where it began, the page with one thing more was over the budget.
proof fn lemma_shed_was_over(o: FetchOutput, nf: int, m: int, budget: int)
    requires
        0 <= nf <= o.feeds@.len(),
        0 <= m <= crate::page::full_before(o, nf),
    ensures
        ({
            let (a, b) = crate::page::shed(o, nf, m, budget);
            &&& a > 0 ==> crate::page::json_tokens(crate::page::page_json(o, a, b)) <= budget
            &&& (a, b) != (nf, m) ==> {
                ||| a > 0 && b < crate::page::full(o, a - 1) && crate::page::json_tokens(crate::page::page_json(o, a, b + 1)) > budget
                ||| b == crate::page::full_before(o, a) && a < nf && crate::page::json_tokens(crate::page::page_json(o, a + 1, 0)) > budget
            }
        }),
    decreases nf, m,
{
    if nf <= 0 || crate::page::json_tokens(crate::page::page_json(o, nf, m)) <= budget {
    } else if m > 0 {
        lemma_shed_was_over(o, nf, m - 1, budget);
    } else {
        lemma_shed_was_over(o, nf - 1, crate::page::full_before(o, nf - 1), budget);
    }
}

/// An output whose counts hold is its own last page.
proof fn lemma_whole_page(o: FetchOutput)
    requires
        crate::totals::counts_hold(o),
        o.feeds@.len() > 0,
    ensures
        crate::wire::output_json(o) == crate::page::page_json(
            o,
            o.feeds@.len() as int,
            crate::page::full(o, o.feeds@.len() - 1),
        ),
{
    let n = o.feeds@.len() as int;
    let m = crate::page::full(o, n - 1);
    assert forall|k: int| 0 <= k < n implies crate::totals::same_shell(
        #[trigger] o.feeds@[k],
        o.feeds@[k],
    ) && o.feeds@[k].items@ == o.feeds@[k].items@.take(crate::page::shipped(o, n, m, k)) by {
        assert(o.feeds@[k].items@.take(crate::page::full(o, k)) =~= o.feeds@[k].items@);
    }
    crate::page::lemma_page_json(o, o, n, m);
}

/// How many items come before where a page resumes.
proof fn lemma_resumes_after(o: FetchOutput, nf: int, m: int)
    requires
        0 <= nf <= o.feeds@.len(),
        0 <= m <= crate::page::full_before(o, nf),
    ensures
        ({
            let (rf, ri) = crate::page::resume_at(o, nf, m);
            &&& 0 <= rf <= o.feeds@.len()
            &&& crate::totals::item_total(o.feeds@.take(rf)) + ri == crate::page::page_items(o, nf, m)
        }),
{
    if nf > 0 {
        crate::totals::lemma_feed_in_totals(o.feeds@, nf - 1);
    } else {
        assert(o.feeds@.take(0) =~= Seq::empty());
    }
}

/// What holds of the page that shedding leaves: it fits, and the page with one more item does not.
proof fn lemma_best_page(o: FetchOutput, budget: int, nf1: int, m1: int)
    requires
        crate::totals::counts_hold(o),
        crate::page::response_tokens(o) > budget,
        crate::totals::item_total(o.feeds@) > 0,
        o.feeds@.len() > 0,
        crate::page::admission_stop(o, budget) != (0int, 0int),
        ({
            let (sf, si) = crate::page::admission_stop(o, budget);
            let (nf0, m0) = crate::page::page_before(o, sf, si);
            (nf1, m1) == crate::page::shed(o, nf0, m0, budget)
        }),
    ensures
        ({
            let (nf, m) = crate::page::without_husk(o, nf1, m1);
            let (x, y) = page_with_one_more(o, nf, m);
            &&& 0 <= nf <= o.feeds@.len()
            &&& 0 <= m <= crate::page::full_before(o, nf)
            &&& nf > 0 ==> crate::page::json_tokens(crate::page::page_json(o, nf, m)) <= budget
            &&& crate::page::page_items(o, nf, m) < crate::totals::item_total(o.feeds@) ==> crate::page::json_tokens(
                crate::page::page_json(o, x, y),
            ) > budget
            &&& crate::page::page_items(o, nf, m) == 0 ==> (x, y) == (first_feed_with_items(o, 0) + 1, 1int)
        }),
{
    let n = o.feeds@.len() as int;
    let base = crate::page::json_tokens(crate::page::page_json(o, 0, 0)) as int;
    crate::page::lemma_first_over_bounds(o.feeds@, 0, 0, base, budget);
    assert(feed_cost(o.feeds@[0], 0) == 0);
    assert(greedy_cost(o, 1, 0, 0) == base);
    assert(greedy_cost(o, 1, 0, 1) == base + feed_cost(o.feeds@[0], crate::page::shipped(o, 1, 0, 0)));
    lemma_rejection_is_real(o, 0, 0, base, budget);
    lemma_whole_page(o);
    let (sf, si) = crate::page::admission_stop(o, budget);
    let (nf0, m0) = crate::page::page_before(o, sf, si);
    crate::page::lemma_shed_within(o, nf0, m0, budget);
    lemma_shed_was_over(o, nf0, m0, budget);
    let (nf, m) = crate::page::without_husk(o, nf1, m1);
    if nf1 > 0 && (nf, m) != (nf1, m1) {
        lemma_longer_page_is_wider(o, nf, m, nf1, m1);
    }
    lemma_resumes_after(o, nf, m);
    let (rf, ri) = crate::page::resume_at(o, nf, m);
    let (x, y) = page_with_one_more(o, nf, m);
    if crate::page::page_items(o, nf, m) < crate::totals::item_total(o.feeds@) {
        if ri == 0 {
            lemma_next_item(o, rf);
        }
        if (nf1, m1) != (nf0, m0) {
            if nf1 > 0 && m1 < crate::page::full(o, nf1 - 1) && crate::page::json_tokens(crate::page::page_json(o, nf1, m1 + 1)) > budget {
                assert((x, y) == (nf1, m1 + 1));
            } else {
                lemma_longer_page_is_wider(o, nf1 + 1, 0, x, y);
            }
        } else if crate::page::first_over(o.feeds@, 0, 0, base, budget) is Some {
            assert((x, y) == (sf + 1, si + 1));
        } else {
            if crate::page::full(o, n - 1) == 0 {
                crate::totals::lemma_feed_in_totals(o.feeds@, n - 1);
                assert(o.feeds@.take(n) =~= o.feeds@);
            }
            assert((x, y) == (n, crate::page::full(o, n - 1)));
        }
    }
    if crate::page::page_items(o, nf, m) == 0 {
        lemma_skipped_are_empty(o, 0, rf);
    }
}

/// The first item from a feed on is the first from a later one on, where nothing lies between.
proof fn lemma_skipped_are_empty(o: FetchOutput, k: int, j: int)
    requires
        0 <= k <= j <= o.feeds@.len(),
        crate::totals::item_total(o.feeds@.take(j)) == 0,
    ensures
        first_feed_with_items(o, k) == first_feed_with_items(o, j),
    decreases j - k,
{
    if k < j {
        lemma_empty_before(o, k, j);
        lemma_skipped_are_empty(o, k + 1, j);
    }
}

proof fn lemma_empty_before(o: FetchOutput, k: int, j: int)
    requires
        0 <= k < j <= o.feeds@.len(),
        crate::totals::item_total(o.feeds@.take(j)) == 0,
    ensures
        crate::page::full(o, k) == 0,
    decreases j,
{
    crate::totals::lemma_feed_in_totals(o.feeds@, j - 1);
    if k < j - 1 {
        lemma_empty_before(o, k, j - 1);
    }
}

/// A page that ships an item ends no earlier than with the first one.
proof fn lemma_any_item_is_past_the_first(o: FetchOutput, nf: int, m: int)
    requires
        0 <= nf <= o.feeds@.len(),
        0 <= m <= crate::page::full_before(o, nf),
        crate::page::page_items(o, nf, m) > 0,
    ensures
        crate::page::is_within(first_feed_with_items(o, 0) + 1, 1, nf, m),
        crate::page::full(o, first_feed_with_items(o, 0)) > 0,
        0 <= first_feed_with_items(o, 0) < o.feeds@.len(),
{
    assert(o.feeds@.take(0) =~= Seq::empty());
    crate::totals::lemma_feed_in_totals(o.feeds@, nf - 1);
    lemma_total_of_some(o, nf - 1);
    if crate::totals::item_total(o.feeds@.take(nf - 1)) > 0 {
        lemma_first_is_before(o, 0, nf - 1);
    } else {
        lemma_skipped_are_empty(o, 0, nf - 1);
    }
}

proof fn lemma_total_of_some(o: FetchOutput, k: int)
    requires
        0 <= k <= o.feeds@.len(),
    ensures
        crate::totals::item_total(o.feeds@.take(k)) <= crate::totals::item_total(o.feeds@),
    decreases o.feeds@.len() - k,
{
    if k < o.feeds@.len() {
        crate::totals::lemma_feed_in_totals(o.feeds@, k);
        lemma_total_of_some(o, k + 1);
    } else {
        assert(o.feeds@.take(k) =~= o.feeds@);
    }
}

proof fn lemma_first_is_before(o: FetchOutput, k: int, j: int)
    requires
        0 <= k <= j <= o.feeds@.len(),
        crate::totals::item_total(o.feeds@.take(k)) < crate::totals::item_total(o.feeds@.take(j)),
    ensures
        k <= first_feed_with_items(o, k) < j,
        crate::page::full(o, first_feed_with_items(o, k)) > 0,
    decreases j - k,
{
    if crate::page::full(o, k) == 0 {
        crate::totals::lemma_feed_in_totals(o.feeds@, k);
        lemma_first_is_before(o, k + 1, j);
    }
}

/// No page that fits is passed over. The page that an output over budget is trimmed to fits, and the
/// page with one more item would not; where there is no such page, the output has no items or not even
/// the page that ends with its first item fits.
pub proof fn law_pages_are_as_long_as_fits(o: FetchOutput, budget: int)
    requires
        crate::totals::counts_hold(o),
        crate::page::response_tokens(o) > budget,
    ensures
        crate::page::page_end(o, budget) is None <==> crate::totals::item_total(o.feeds@) == 0 || crate::page::json_tokens(
            crate::page::page_json(o, first_feed_with_items(o, 0) + 1, 1),
        ) > budget,
        crate::page::page_end(o, budget) matches Some((nf, m)) ==> {
            &&& crate::page::json_tokens(crate::page::page_json(o, nf, m)) <= budget
            &&& crate::page::page_items(o, nf, m) < crate::totals::item_total(o.feeds@) ==> crate::page::json_tokens(
                crate::page::page_json(o, page_with_one_more(o, nf, m).0, page_with_one_more(o, nf, m).1),
            ) > budget
        },
{
    let total = crate::totals::item_total(o.feeds@);
    if total > 0 {
        let n = o.feeds@.len() as int;
        if n == 0 {
            assert(total == 0);
        }
        crate::page::lemma_page_end(o, budget);
        lemma_whole_page(o);
        assert(o.feeds@.take(0) =~= Seq::empty());
        lemma_next_item(o, 0);
        let base = crate::page::json_tokens(crate::page::page_json(o, 0, 0)) as int;
        assert(feed_cost(o.feeds@[0], 0) == 0);
        assert(greedy_cost(o, 1, 0, 0) == base);
        assert(greedy_cost(o, 1, 0, 1) == base + feed_cost(o.feeds@[0], crate::page::shipped(o, 1, 0, 0)));
        lemma_rejection_is_real(o, 0, 0, base, budget);
        crate::page::lemma_first_over_bounds(o.feeds@, 0, 0, base, budget);
        let (sf, si) = crate::page::admission_stop(o, budget);
        let first = first_feed_with_items(o, 0);
        if sf == 0 && si == 0 {
            if crate::page::first_over(o.feeds@, 0, 0, base, budget) is None {
                crate::totals::lemma_feed_in_totals(o.feeds@, 0);
                assert(o.feeds@.take(1) =~= o.feeds@);
            }
        } else {
            let (nf0, m0) = crate::page::page_before(o, sf, si);
            crate::page::lemma_shed_within(o, nf0, m0, budget);
            lemma_shed_was_over(o, nf0, m0, budget);
            let (nf1, m1) = crate::page::shed(o, nf0, m0, budget);
            let (nf, m) = crate::page::without_husk(o, nf1, m1);
            lemma_best_page(o, budget, nf1, m1);
            if crate::page::page_items(o, nf, m) > 0 {
                lemma_any_item_is_past_the_first(o, nf, m);
                lemma_longer_page_is_wider(o, first + 1, 1, nf, m);
            }
        }
    }
}

} // verus!
