//! Bounding a fetch output to a token budget, page by page.

use vstd::prelude::*;
use vstd::string::*;

use crate::error::RssError;
use crate::json::{to_pretty, Json};
use crate::model::{FeedResult, FetchOutput, Item, TruncationInfo};
use crate::text::chars_of;
use crate::totals::{item_count, refresh_feed_counts};
use crate::wire::{feed_value_with, item_value, output_value, output_value_with};

verus! {

/// How many characters a value's indented JSON has.
pub open spec fn json_width(j: crate::json::JsonView) -> int {
    crate::json::layout_width(crate::json::kept(j), 0)
}

/// The token estimate of a value's indented JSON.
pub open spec fn json_tokens(j: crate::json::JsonView) -> nat {
    crate::content::tokens(json_width(j) as nat)
}

/// The token estimate of a whole response.
pub open spec fn response_tokens(o: FetchOutput) -> nat {
    json_tokens(crate::wire::output_json(o))
}

/// No object takes up nothing.
pub proof fn lemma_object_has_width(f: Seq<(Seq<char>, crate::json::JsonView)>)
    ensures
        json_width(crate::json::JsonView::Obj(f)) >= 2,
        json_tokens(crate::json::JsonView::Obj(f)) > 0,
{
    let g = crate::json::kept(crate::json::JsonView::Obj(f))->Obj_0;
    crate::json::lemma_fields_deeper(g, 1, 1, g.len() as int);
}

/// The token estimate of a value's indented JSON.
pub(crate) fn measure(j: &Json) -> (r: usize)
    ensures
        r == json_tokens(j@),
        r <= usize::MAX / 4 + 1,
{
    let n: usize = chars_of(to_pretty(j).as_str()).len();
    if n % 4 == 0 {
        n / 4
    } else {
        n / 4 + 1
    }
}

/// A rough token estimate of the serialized output: a fourth of the characters of its indented
/// JSON, rounded up.
pub fn estimate_response_tokens(output: &FetchOutput) -> (r: usize)
    ensures
        r == response_tokens(*output),
        r <= usize::MAX / 4 + 1,
{
    measure(&output_value(output))
}

/// The larger of two numbers.
pub open spec fn at_least(n: int, floor: int) -> int {
    if n < floor {
        floor
    } else {
        n
    }
}

/// The item limit suggested for a payload over budget: the items scaled down by how far it is
/// over, less a tenth, and at least one.
pub open spec fn suggested_limit(estimated: int, budget: int, items: int) -> int {
    at_least(at_least(items, 1) * budget * 9 / (estimated * 10), 1)
}

/// The content cap suggested for a payload over budget: seven tenths of the budget, at four
/// characters a token, spread over the items, and at least two hundred.
pub open spec fn suggested_content_chars(budget: int, items: int) -> int {
    let chars = (budget * 7 / 10) * 4;
    let capped = if chars > usize::MAX {
        usize::MAX as int
    } else {
        chars
    };
    at_least(capped / at_least(items, 1), 200)
}

/// The error for a payload over budget.
pub open spec fn is_too_large(e: RssError, estimated: int, budget: int, items: int) -> bool {
    e matches RssError::ResponseTooLarge {
        estimated_tokens,
        budget_tokens,
        suggested_limit: limit,
        suggested_max_content_chars: chars,
    } && estimated_tokens == estimated && budget_tokens == budget && limit == suggested_limit(
        estimated,
        budget,
        items,
    ) && chars == suggested_content_chars(budget, items)
}

/// The error for a payload of `estimated` tokens and `items` items over budget, with suggestions
/// to retry by.
pub fn too_large_error(estimated: usize, budget_tokens: usize, items: usize) -> (r: RssError)
    requires
        budget_tokens < estimated,
    ensures
        is_too_large(r, estimated as int, budget_tokens as int, items as int),
{
    let n: usize = if items < 1 { 1 } else { items };
    let e10: u128 = estimated as u128 * 10;
    assert(n as u128 * budget_tokens as u128 <= u128::MAX) by (nonlinear_arith)
        requires
            n <= u64::MAX,
            budget_tokens <= u64::MAX,
    ;
    let x: u128 = n as u128 * budget_tokens as u128;
    let q: u128 = x / e10;
    let rest: u128 = x % e10;
    proof {
        let (ni, b, e) = (n as int, budget_tokens as int, estimated as int);
        vstd::arithmetic::div_mod::lemma_fundamental_div_mod(x as int, e10 as int);
        assert(x * 9 == e10 * (9 * q) + rest * 9) by (nonlinear_arith)
            requires
                x == e10 * q + rest,
        ;
        vstd::arithmetic::div_mod::lemma_div_multiples_vanish_fancy(
            9 * (q as int),
            rest as int * 9 % e10 as int,
            e10 as int,
        );
        vstd::arithmetic::div_mod::lemma_fundamental_div_mod(rest as int * 9, e10 as int);
        assert((x * 9) / (e10 as int) == 9 * q + (rest * 9) / (e10 as int)) by {
            let r9 = rest as int * 9;
            let w = r9 / (e10 as int);
            let z = r9 % (e10 as int);
            assert(x * 9 == e10 * (9 * q + w) + z) by (nonlinear_arith)
                requires
                    x * 9 == e10 * (9 * q) + r9,
                    r9 == e10 * w + z,
            ;
            vstd::arithmetic::div_mod::lemma_fundamental_div_mod_converse(
                x * 9,
                e10 as int,
                9 * q + w,
                z,
            );
        }
        assert(ni * b * 9 == x * 9);
        assert(x * 9 <= ni * e10) by (nonlinear_arith)
            requires
                x == n * budget_tokens,
                budget_tokens < estimated,
                e10 == estimated * 10,
                ni == n,
        ;
        vstd::arithmetic::div_mod::lemma_div_is_ordered(x * 9, ni * e10, e10 as int);
        vstd::arithmetic::div_mod::lemma_div_multiples_vanish(ni, e10 as int);
        assert(ni * e10 == e10 * ni) by (nonlinear_arith);
        assert(9 * q + (rest * 9) / (e10 as int) <= ni);
    }
    let scaled: u128 = 9 * q + rest * 9 / e10;
    let suggested_limit: usize = if scaled < 1 { 1 } else { scaled as usize };
    let chars: u128 = (budget_tokens as u128 * 7 / 10) * 4;
    let capped: usize = if chars > usize::MAX as u128 { usize::MAX } else { chars as usize };
    let each: usize = capped / n;
    RssError::ResponseTooLarge {
        estimated_tokens: estimated,
        budget_tokens,
        suggested_limit,
        suggested_max_content_chars: if each < 200 { 200 } else { each },
    }
}

/// Checks an output against a budget: its estimate where it fits, an error with suggestions where
/// it does not.
pub fn enforce_response_budget(output: &FetchOutput, budget_tokens: usize) -> (r: Result<
    usize,
    RssError,
>)
    requires
        crate::totals::item_total(output.feeds@) <= usize::MAX,
    ensures
        match r {
            Ok(n) => n == response_tokens(*output) && n <= budget_tokens,
            Err(e) => response_tokens(*output) > budget_tokens && is_too_large(
                e,
                response_tokens(*output) as int,
                budget_tokens as int,
                crate::totals::item_total(output.feeds@) as int,
            ),
        },
{
    let estimated: usize = estimate_response_tokens(output);
    if estimated <= budget_tokens {
        return Ok(estimated);
    }
    Err(too_large_error(estimated, budget_tokens, item_count(output)))
}

/// Where a bounded page stopped.
#[derive(Debug, Clone, PartialEq, Eq, Structural)]
pub struct PageStop {
    /// Index into the feeds before the trim where the next page resumes.
    pub feed_idx: usize,
    /// Index into that feed's items before the trim.
    pub item_idx: usize,
    /// How many items that feed held before the trim.
    pub feed_item_count: usize,
    /// How many items the page left behind.
    pub items_omitted: usize,
    /// How many feeds the page dropped whole.
    pub feeds_omitted: usize,
}

/// How many items a feed holds.
pub open spec fn full(o: FetchOutput, k: int) -> int {
    o.feeds@[k].items@.len() as int
}

/// How many items the last of the first `nf` feeds holds.
pub open spec fn full_before(o: FetchOutput, nf: int) -> int {
    if nf > 0 {
        full(o, nf - 1)
    } else {
        0
    }
}

/// How many items feed `k` ships on the page of the first `nf` feeds, the last of them with `m`
/// items.
pub open spec fn shipped(o: FetchOutput, nf: int, m: int, k: int) -> int {
    if k == nf - 1 {
        m
    } else {
        full(o, k)
    }
}

/// The JSON of a feed on a page, with its first `m` items.
pub open spec fn page_feed_json(f: FeedResult, m: int) -> crate::json::JsonView {
    crate::wire::feed_json_with(
        f,
        f.items@.take(m),
        m,
        crate::totals::tokens_sum(f.items@.take(m)) as int,
    )
}

/// How many items the page ships.
pub open spec fn page_items(o: FetchOutput, nf: int, m: int) -> int {
    if nf > 0 {
        crate::totals::item_total(o.feeds@.take(nf - 1)) + m
    } else {
        0
    }
}

/// The token estimates of the items that the page ships, added up.
pub open spec fn page_content_tokens(o: FetchOutput, nf: int, m: int) -> int {
    if nf > 0 {
        (crate::totals::token_total(o.feeds@.take(nf - 1)) + crate::totals::tokens_sum(
            o.feeds@[nf - 1].items@.take(m),
        )) as int
    } else {
        0
    }
}

/// The JSON of a page.
pub open spec fn page_json(o: FetchOutput, nf: int, m: int) -> crate::json::JsonView {
    crate::wire::output_json_with(
        o,
        Seq::new(nf as nat, |k: int| page_feed_json(o.feeds@[k], shipped(o, nf, m, k))),
        page_items(o, nf, m),
        page_content_tokens(o, nf, m),
    )
}

/// The output is the page of the first `nf` feeds of `o`, the last of them with its first `m`
/// items, all counts refreshed.
pub open spec fn is_page(out: FetchOutput, o: FetchOutput, nf: int, m: int) -> bool {
    &&& 0 <= nf <= o.feeds@.len()
    &&& 0 <= m <= full_before(o, nf)
    &&& crate::totals::same_envelope(out, o)
    &&& crate::totals::counts_hold(out)
    &&& out.feeds@.len() == nf
    &&& forall|k: int|
        0 <= k < nf ==> crate::totals::same_shell(#[trigger] out.feeds@[k], o.feeds@[k])
            && out.feeds@[k].items@ == o.feeds@[k].items@.take(shipped(o, nf, m, k))
}

/// What a feed's own metadata costs, without items.
pub open spec fn shell_cost(f: FeedResult) -> int {
    json_tokens(crate::wire::feed_json_with(f, Seq::empty(), 0, 0)) as int + 2
}

/// What an item costs.
pub open spec fn item_cost(i: Item) -> int {
    json_tokens(crate::wire::item_json(i)) as int + 2
}

/// What admitting an item costs: the item, and its feed's metadata where it is the first.
pub open spec fn admission_cost(f: FeedResult, ii: int) -> int {
    item_cost(f.items@[ii]) + (if ii == 0 {
        shell_cost(f)
    } else {
        0
    })
}

/// The first item, from item `ii` of feed `fi` on, whose admission would exceed the budget.
pub open spec fn first_over(feeds: Seq<FeedResult>, fi: int, ii: int, running: int, budget: int) -> Option<
    (int, int),
>
    decreases feeds.len() - fi, feeds[fi].items@.len() - ii,
{
    if fi < 0 || ii < 0 || fi >= feeds.len() {
        None
    } else if ii >= feeds[fi].items@.len() {
        first_over(feeds, fi + 1, 0, running, budget)
    } else if running + admission_cost(feeds[fi], ii) > budget {
        Some((fi, ii))
    } else {
        first_over(feeds, fi, ii + 1, running + admission_cost(feeds[fi], ii), budget)
    }
}

/// Where admission in order stops: at the first item that would exceed the budget or, where none
/// would, at the last.
pub open spec fn admission_stop(o: FetchOutput, budget: int) -> (int, int) {
    match first_over(o.feeds@, 0, 0, json_tokens(page_json(o, 0, 0)) as int, budget) {
        Some(p) => p,
        None => {
            let last = o.feeds@.len() - 1;
            (last, if full(o, last) > 0 {
                full(o, last) - 1
            } else {
                0
            })
        },
    }
}

/// The page that ends before item `si` of feed `sf`, without that feed where it would ship nothing.
pub open spec fn page_before(o: FetchOutput, sf: int, si: int) -> (int, int) {
    if si > 0 {
        (sf + 1, si)
    } else {
        (sf, full_before(o, sf))
    }
}

/// The page with items, and feeds that have none left, taken off its end until it fits.
pub open spec fn shed(o: FetchOutput, nf: int, m: int, budget: int) -> (int, int)
    decreases nf, m,
{
    if nf <= 0 || json_tokens(page_json(o, nf, m)) <= budget {
        (nf, m)
    } else if m > 0 {
        shed(o, nf, m - 1, budget)
    } else {
        shed(o, nf - 1, full_before(o, nf - 1), budget)
    }
}

/// The page without a last feed that lost all its items.
pub open spec fn without_husk(o: FetchOutput, nf: int, m: int) -> (int, int) {
    if nf > 0 && m == 0 && full(o, nf - 1) > 0 {
        (nf - 1, full_before(o, nf - 1))
    } else {
        (nf, m)
    }
}

/// The page that an output over budget is trimmed to, if it ships an item.
pub open spec fn page_end(o: FetchOutput, budget: int) -> Option<(int, int)> {
    if crate::totals::item_total(o.feeds@) == 0 {
        None
    } else {
        let (sf, si) = admission_stop(o, budget);
        if sf == 0 && si == 0 {
            None
        } else {
            let (nf0, m0) = page_before(o, sf, si);
            let (nf1, m1) = shed(o, nf0, m0, budget);
            let (nf, m) = without_husk(o, nf1, m1);
            if page_items(o, nf, m) == 0 {
                None
            } else {
                Some((nf, m))
            }
        }
    }
}

/// Where the page after this one resumes: at the first feed that this one does not carry in full.
pub open spec fn resume_at(o: FetchOutput, nf: int, m: int) -> (int, int) {
    if nf > 0 && m < full(o, nf - 1) {
        (nf - 1, m)
    } else {
        (nf, 0)
    }
}

/// The stop of a page.
pub open spec fn is_stop(s: PageStop, o: FetchOutput, nf: int, m: int) -> bool {
    let (rf, ri) = resume_at(o, nf, m);
    &&& s.feed_idx == rf
    &&& s.item_idx == ri
    &&& s.feed_item_count == full(o, rf)
    &&& s.items_omitted == crate::totals::item_total(o.feeds@) - page_items(o, nf, m)
    &&& s.feeds_omitted == o.feeds@.len() - nf
}

/// The token cost of one part of a response.
fn pretty_tokens(j: &Json) -> (r: usize)
    ensures
        r == json_tokens(j@) + 2,
        r <= usize::MAX / 4 + 3,
{
    measure(j) + 2
}

fn find_stop(output: &FetchOutput, base: usize, budget: usize) -> (r: Option<(usize, usize)>)
    requires
        base <= usize::MAX / 4 + 1,
        budget <= usize::MAX / 4 + 1,
    ensures
        match r {
            Some((fi, ii)) => {
                &&& first_over(output.feeds@, 0, 0, base as int, budget as int) == Some(
                    (fi as int, ii as int),
                )
                &&& fi < output.feeds@.len()
                &&& ii < output.feeds@[fi as int].items@.len()
            },
            None => first_over(output.feeds@, 0, 0, base as int, budget as int) is None,
        },
{
    let ghost feeds = output.feeds@;
    let ghost goal = first_over(feeds, 0, 0, base as int, budget as int);
    let mut running: usize = base;
    let mut fi: usize = 0;
    while fi < output.feeds.len()
        invariant
            fi <= feeds.len(),
            feeds == output.feeds@,
            running <= usize::MAX / 4 + 1,
            budget <= usize::MAX / 4 + 1,
            goal == first_over(feeds, 0, 0, base as int, budget as int),
            goal == first_over(feeds, fi as int, 0, running as int, budget as int),
        decreases feeds.len() - fi,
    {
        let feed = &output.feeds[fi];
        let none: Vec<Item> = Vec::new();
        let shell: usize = pretty_tokens(&feed_value_with(feed, &none, 0, 0));
        assert(none@ =~= Seq::empty());
        let mut ii: usize = 0;
        while ii < feed.items.len()
            invariant
                fi < feeds.len(),
                feeds == output.feeds@,
                *feed == feeds[fi as int],
                ii <= feed.items@.len(),
                running <= usize::MAX / 4 + 1,
                budget <= usize::MAX / 4 + 1,
                shell == shell_cost(*feed),
                shell <= usize::MAX / 4 + 3,
                goal == first_over(feeds, 0, 0, base as int, budget as int),
                goal == first_over(feeds, fi as int, ii as int, running as int, budget as int),
            decreases feed.items@.len() - ii,
        {
            let cost: usize = pretty_tokens(&item_value(&feed.items[ii])) + (if ii == 0 {
                shell
            } else {
                0
            });
            if running + cost > budget {
                return Some((fi, ii));
            }
            running = running + cost;
            ii = ii + 1;
        }
        fi = fi + 1;
    }
    None
}

/// A list of feeds is that of a page.
spec fn is_page_list(feeds: Seq<FeedResult>, o: FetchOutput, nf: int, m: int) -> bool {
    &&& 0 <= nf <= o.feeds@.len()
    &&& 0 <= m <= full_before(o, nf)
    &&& feeds.len() == nf
    &&& forall|k: int|
        0 <= k < nf ==> crate::totals::same_shell(#[trigger] feeds[k], o.feeds@[k])
            && feeds[k].items@ == o.feeds@[k].items@.take(shipped(o, nf, m, k))
}

proof fn lemma_full_prefix(feeds: Seq<FeedResult>, o: FetchOutput, n: int)
    requires
        0 <= n <= feeds.len(),
        n <= o.feeds@.len(),
        forall|k: int| 0 <= k < n ==> (#[trigger] feeds[k]).items@ == o.feeds@[k].items@,
    ensures
        crate::totals::item_total(feeds.take(n)) == crate::totals::item_total(o.feeds@.take(n)),
        crate::totals::token_total(feeds.take(n)) == crate::totals::token_total(o.feeds@.take(n)),
    decreases n,
{
    if n > 0 {
        lemma_full_prefix(feeds, o, n - 1);
        crate::totals::lemma_feed_in_totals(feeds, n - 1);
        crate::totals::lemma_feed_in_totals(o.feeds@, n - 1);
    } else {
        assert(feeds.take(0) =~= Seq::empty());
        assert(o.feeds@.take(0) =~= Seq::empty());
    }
}

proof fn lemma_page_totals(feeds: Seq<FeedResult>, o: FetchOutput, nf: int, m: int)
    requires
        is_page_list(feeds, o, nf, m),
    ensures
        crate::totals::item_total(feeds) == page_items(o, nf, m),
        crate::totals::token_total(feeds) == page_content_tokens(o, nf, m),
        crate::totals::item_total(feeds) <= crate::totals::item_total(o.feeds@),
        crate::totals::token_total(feeds) <= crate::totals::token_total(o.feeds@),
{
    if nf > 0 {
        assert forall|k: int| 0 <= k < nf - 1 implies (#[trigger] feeds[k]).items@
            == o.feeds@[k].items@ by {
            assert(crate::totals::same_shell(feeds[k], o.feeds@[k]));
            assert(o.feeds@[k].items@.take(full(o, k)) =~= o.feeds@[k].items@);
        }
        assert(crate::totals::same_shell(feeds[nf - 1], o.feeds@[nf - 1]));
        lemma_full_prefix(feeds, o, nf - 1);
        crate::totals::lemma_feed_in_totals(feeds, nf - 1);
        assert(feeds.take(nf) =~= feeds);
        crate::totals::lemma_feed_in_totals(o.feeds@, nf - 1);
        crate::totals::lemma_tokens_grow(o.feeds@[nf - 1].items@, m);
    } else {
        assert(feeds =~= Seq::empty());
    }
}

/// The JSON of a page is what its end makes it.
pub proof fn lemma_page_json(out: FetchOutput, o: FetchOutput, nf: int, m: int)
    requires
        is_page(out, o, nf, m),
    ensures
        crate::wire::output_json(out) == page_json(o, nf, m),
{
    lemma_page_totals(out.feeds@, o, nf, m);
    let a = out.feeds@.map_values(|f: FeedResult| crate::wire::feed_json(f));
    let b = Seq::new(nf as nat, |k: int| page_feed_json(o.feeds@[k], shipped(o, nf, m, k)));
    assert forall|k: int| 0 <= k < nf implies a[k] == b[k] by {
        let f = out.feeds@[k];
        assert(crate::totals::same_shell(f, o.feeds@[k]));
        assert(crate::totals::feed_counts_hold(f));
        if k < nf - 1 {
            assert(shipped(o, nf, m, k) == full(o, k));
        }
        assert(crate::wire::feed_json(f)->Obj_0 =~= page_feed_json(
            o.feeds@[k],
            shipped(o, nf, m, k),
        )->Obj_0);
    }
    assert(a =~= b);
    assert(crate::wire::output_json(out)->Obj_0 =~= page_json(o, nf, m)->Obj_0);
}

/// The names of an output's members are different.
pub proof fn lemma_output_names(j: crate::json::JsonView, o: FetchOutput, feeds: Seq<crate::json::JsonView>, n: int, t: int)
    requires
        j == crate::wire::output_json_with(o, feeds, n, t),
    ensures
        crate::json::distinct_names(j->Obj_0),
        j->Obj_0.len() == 10,
        j->Obj_0[4] == ("feeds"@, crate::json::JsonView::Arr(feeds)),
{
    reveal_strlit("schema_version");
    reveal_strlit("fetched_at");
    reveal_strlit("total_items");
    reveal_strlit("total_content_tokens_est");
    reveal_strlit("feeds");
    reveal_strlit("errors");
    reveal_strlit("warnings");
    reveal_strlit("truncation");
    reveal_strlit("applied_filters");
    reveal_strlit("duplicates");
    let f = j->Obj_0;
    assert("fetched_at"@[0] == 'f' && "truncation"@[0] == 't' && "duplicates"@[0] == 'd');
    assert forall|a: int, b: int| 0 <= a < b < f.len() implies (#[trigger] f[a]).0 != (
    #[trigger] f[b]).0 by {
        assert(f[a].0.len() != f[b].0.len() || f[a].0[0] != f[b].0[0]);
    }
}

/// A page without its last feed, where that ships no item, is the page with an element of a list
/// left out.
proof fn lemma_husk_thins(o: FetchOutput, nf: int)
    requires
        0 < nf <= o.feeds@.len(),
    ensures
        crate::json::thins(
            crate::json::kept(page_json(o, nf, 0)),
            crate::json::kept(page_json(o, nf - 1, full_before(o, nf - 1))),
        ),
{
    let m = full_before(o, nf - 1);
    let a = page_json(o, nf, 0);
    let b = page_json(o, nf - 1, m);
    let xa = Seq::new(nf as nat, |k: int| page_feed_json(o.feeds@[k], shipped(o, nf, 0, k)));
    let xb = Seq::new((nf - 1) as nat, |k: int| page_feed_json(o.feeds@[k], shipped(o, nf - 1, m, k)));
    assert(xa.drop_last() =~= xb);
    lemma_output_names(a, o, xa, page_items(o, nf, 0), page_content_tokens(o, nf, 0));
    lemma_output_names(b, o, xb, page_items(o, nf - 1, m), page_content_tokens(o, nf - 1, m));
    assert(o.feeds@[nf - 1].items@.take(0) =~= Seq::empty());
    if nf > 1 {
        crate::totals::lemma_feed_in_totals(o.feeds@, nf - 2);
        assert(o.feeds@[nf - 2].items@.take(m) =~= o.feeds@[nf - 2].items@);
    } else {
        assert(o.feeds@.take(0) =~= Seq::empty());
    }
    assert(page_items(o, nf, 0) == page_items(o, nf - 1, m));
    assert(page_content_tokens(o, nf, 0) == page_content_tokens(o, nf - 1, m));
    let keep = |e: crate::json::JsonView| crate::json::kept(e);
    let fa = a->Obj_0;
    let fb = b->Obj_0;
    crate::json::lemma_kept_object(fa);
    crate::json::lemma_kept_object(fb);
    crate::json::lemma_kept_list(xa);
    crate::json::lemma_kept_list(xb);
    let ka = crate::json::kept(a)->Obj_0;
    let kb = crate::json::kept(b)->Obj_0;
    assert(xa.map_values(keep).drop_last() =~= xb.map_values(keep));
    crate::json::lemma_part_of_itself(xb.map_values(keep));
    assert forall|i: int| 0 <= i < 10 implies (#[trigger] ka[i]).0 == kb[i].0
        && crate::json::is_thinner_value(ka[i].1, kb[i].1) by {
        if i != 4 {
            assert(fa[i] == fb[i]);
        }
    }
}

/// A page with a last feed that ships no item is no narrower than without that feed.
pub proof fn lemma_husk_is_wider(o: FetchOutput, nf: int)
    requires
        0 < nf <= o.feeds@.len(),
    ensures
        0 <= json_width(page_json(o, nf - 1, full_before(o, nf - 1))) <= json_width(
            page_json(o, nf, 0),
        ),
{
    lemma_husk_thins(o, nf);
    lemma_object_has_width(page_json(o, nf - 1, full_before(o, nf - 1))->Obj_0);
    crate::json::lemma_thinner_is_narrower(
        crate::json::kept(page_json(o, nf, 0)),
        crate::json::kept(page_json(o, nf - 1, full_before(o, nf - 1))),
    );
}

/// Trims an output to the page before item `si` of feed `sf`.
fn trim_to(output: &mut FetchOutput, sf: usize, si: usize)
    requires
        crate::totals::counts_fit(old(output).feeds@),
        sf < old(output).feeds.len(),
        si <= full(*old(output), sf as int),
        sf > 0 || si > 0,
    ensures
        is_page(
            *final(output),
            *old(output),
            page_before(*old(output), sf as int, si as int).0,
            page_before(*old(output), sf as int, si as int).1,
        ),
{
    let ghost o = *output;
    let nf: usize = if si > 0 { sf + 1 } else { sf };
    output.feeds[sf].items.truncate(si);
    output.feeds.truncate(nf);
    let ghost m = page_before(o, sf as int, si as int).1;
    proof {
        assert forall|k: int| 0 <= k < nf implies crate::totals::same_shell(
            #[trigger] output.feeds@[k],
            o.feeds@[k],
        ) && output.feeds@[k].items@ == o.feeds@[k].items@.take(shipped(o, nf as int, m, k)) by {
            if k < sf {
                assert(o.feeds@[k].items@.take(full(o, k)) =~= o.feeds@[k].items@);
            }
        }
        lemma_page_totals(output.feeds@, o, nf as int, m);
    }
    let ghost trimmed = output.feeds@;
    refresh_feed_counts(output);
    proof {
        lemma_refreshed(trimmed, output.feeds@, o, nf as int, m);
    }
}

proof fn lemma_refreshed(
    before: Seq<FeedResult>,
    after: Seq<FeedResult>,
    o: FetchOutput,
    nf: int,
    m: int,
)
    requires
        is_page_list(before, o, nf, m),
        crate::totals::same_feeds(after, before),
    ensures
        is_page_list(after, o, nf, m),
{
    assert forall|k: int| 0 <= k < nf implies crate::totals::same_shell(
        #[trigger] after[k],
        o.feeds@[k],
    ) && after[k].items@ == o.feeds@[k].items@.take(shipped(o, nf, m, k)) by {
        assert(crate::totals::same_shell(after[k], before[k]));
        assert(crate::totals::same_shell(before[k], o.feeds@[k]));
    }
}

/// Takes the last item off a page.
fn pop_item(output: &mut FetchOutput, Ghost(o): Ghost<FetchOutput>, Ghost(m): Ghost<int>)
    requires
        crate::totals::counts_fit(o.feeds@),
        is_page(*old(output), o, old(output).feeds@.len() as int, m),
        old(output).feeds@.len() > 0,
        m > 0,
    ensures
        is_page(*final(output), o, old(output).feeds@.len() as int, m - 1),
{
    let ghost nf = output.feeds@.len() as int;
    let last: usize = output.feeds.len() - 1;
    let ghost before = output.feeds@;
    let _ = output.feeds[last].items.pop();
    proof {
        assert forall|k: int| 0 <= k < nf implies crate::totals::same_shell(
            #[trigger] output.feeds@[k],
            o.feeds@[k],
        ) && output.feeds@[k].items@ == o.feeds@[k].items@.take(shipped(o, nf, m - 1, k)) by {
            assert(crate::totals::same_shell(before[k], o.feeds@[k]));
            if k == last {
                assert(o.feeds@[k].items@.take(m).drop_last() =~= o.feeds@[k].items@.take(m - 1));
            }
        }
        lemma_page_totals(output.feeds@, o, nf, m - 1);
    }
    let ghost trimmed = output.feeds@;
    refresh_feed_counts(output);
    proof {
        lemma_refreshed(trimmed, output.feeds@, o, nf, m - 1);
    }
}

/// Takes a last feed without items off a page.
fn pop_feed(output: &mut FetchOutput, Ghost(o): Ghost<FetchOutput>)
    requires
        crate::totals::counts_fit(o.feeds@),
        is_page(*old(output), o, old(output).feeds@.len() as int, 0),
        old(output).feeds@.len() > 0,
    ensures
        is_page(
            *final(output),
            o,
            old(output).feeds@.len() - 1,
            full_before(o, old(output).feeds@.len() - 1),
        ),
{
    let ghost nf = output.feeds@.len() - 1;
    let ghost m = full_before(o, nf);
    let ghost before = output.feeds@;
    let _ = output.feeds.pop();
    proof {
        assert forall|k: int| 0 <= k < nf implies crate::totals::same_shell(
            #[trigger] output.feeds@[k],
            o.feeds@[k],
        ) && output.feeds@[k].items@ == o.feeds@[k].items@.take(shipped(o, nf, m, k)) by {
            assert(crate::totals::same_shell(before[k], o.feeds@[k]));
        }
        lemma_page_totals(output.feeds@, o, nf, m);
    }
    let ghost trimmed = output.feeds@;
    refresh_feed_counts(output);
    proof {
        lemma_refreshed(trimmed, output.feeds@, o, nf, m);
    }
}

/// Takes items, and feeds that have none left, off a page's end until it fits.
fn shed_to_fit(
    output: &mut FetchOutput,
    budget: usize,
    Ghost(o): Ghost<FetchOutput>,
    Ghost(m0): Ghost<int>,
) -> (r: Ghost<int>)
    requires
        crate::totals::counts_fit(o.feeds@),
        is_page(*old(output), o, old(output).feeds@.len() as int, m0),
    ensures
        is_page(*final(output), o, final(output).feeds@.len() as int, r@),
        shed(o, old(output).feeds@.len() as int, m0, budget as int) == (
            final(output).feeds@.len() as int,
            r@,
        ),
        final(output).feeds@.len() > 0 ==> json_tokens(
            page_json(o, final(output).feeds@.len() as int, r@),
        ) <= budget,
{
    let ghost mut m = m0;
    loop
        invariant
            crate::totals::counts_fit(o.feeds@),
            is_page(*output, o, output.feeds@.len() as int, m),
            shed(o, old(output).feeds@.len() as int, m0, budget as int) == shed(
                o,
                output.feeds@.len() as int,
                m,
                budget as int,
            ),
        ensures
            is_page(*output, o, output.feeds@.len() as int, m),
            shed(o, old(output).feeds@.len() as int, m0, budget as int) == (
                output.feeds@.len() as int,
                m,
            ),
            output.feeds@.len() > 0 ==> json_tokens(
                page_json(o, output.feeds@.len() as int, m),
            ) <= budget,
        decreases output.feeds@.len(), m,
    {
        if output.feeds.len() == 0 {
            break;
        }
        proof {
            lemma_page_json(*output, o, output.feeds@.len() as int, m);
        }
        if measure(&output_value(output)) <= budget {
            break;
        }
        let last: usize = output.feeds.len() - 1;
        assert(crate::totals::same_shell(output.feeds@[last as int], o.feeds@[last as int]));
        if output.feeds[last].items.len() > 0 {
            pop_item(output, Ghost(o), Ghost(m));
            proof {
                m = m - 1;
            }
        } else {
            pop_feed(output, Ghost(o));
            proof {
                m = full_before(o, output.feeds@.len() as int);
            }
        }
    }
    Ghost(m)
}

/// Takes the last feed off a page where it lost all its items. `counts` holds how many items each feed
/// had.
fn drop_husk(
    output: &mut FetchOutput,
    counts: &Vec<usize>,
    Ghost(o): Ghost<FetchOutput>,
    Ghost(m): Ghost<int>,
    Ghost(budget): Ghost<int>,
) -> (r: Ghost<int>)
    requires
        crate::totals::counts_fit(o.feeds@),
        is_page(*old(output), o, old(output).feeds@.len() as int, m),
        counts@.len() == o.feeds@.len(),
        forall|j: int| 0 <= j < counts@.len() ==> #[trigger] counts@[j] == full(o, j),
        old(output).feeds@.len() > 0 ==> json_tokens(
            page_json(o, old(output).feeds@.len() as int, m),
        ) <= budget,
    ensures
        is_page(*final(output), o, final(output).feeds@.len() as int, r@),
        without_husk(o, old(output).feeds@.len() as int, m) == (
            final(output).feeds@.len() as int,
            r@,
        ),
        final(output).feeds@.len() > 0 ==> response_tokens(*final(output)) <= budget,
{
    let ghost nf = output.feeds@.len() as int;
    if output.feeds.len() == 0 {
        return Ghost(m);
    }
    let last: usize = output.feeds.len() - 1;
    assert(crate::totals::same_shell(output.feeds@[last as int], o.feeds@[last as int]));
    if output.feeds[last].items.len() > 0 || counts[last] == 0 {
        proof {
            lemma_page_json(*output, o, nf, m);
        }
        return Ghost(m);
    }
    pop_feed(output, Ghost(o));
    proof {
        lemma_page_json(*output, o, nf - 1, full_before(o, nf - 1));
        lemma_husk_is_wider(o, nf);
    }
    Ghost(full_before(o, nf - 1))
}

/// An item that admission stops at is there.
pub proof fn lemma_first_over_bounds(feeds: Seq<FeedResult>, fi: int, ii: int, running: int, budget: int)
    ensures
        first_over(feeds, fi, ii, running, budget) matches Some((a, b)) ==> 0 <= a < feeds.len()
            && 0 <= b < feeds[a].items@.len(),
    decreases feeds.len() - fi, feeds[fi].items@.len() - ii,
{
    if fi < 0 || ii < 0 || fi >= feeds.len() {
    } else if ii >= feeds[fi].items@.len() {
        lemma_first_over_bounds(feeds, fi + 1, 0, running, budget);
    } else if running + admission_cost(feeds[fi], ii) > budget {
    } else {
        lemma_first_over_bounds(feeds, fi, ii + 1, running + admission_cost(feeds[fi], ii), budget);
    }
}

/// A page ends before another: it has fewer feeds, or as many and fewer items of the last.
pub open spec fn is_within(nf: int, m: int, nf0: int, m0: int) -> bool {
    nf < nf0 || (nf == nf0 && m <= m0)
}

/// Shedding ends no later than where it began.
pub proof fn lemma_shed_within(o: FetchOutput, nf: int, m: int, budget: int)
    requires
        0 <= nf <= o.feeds@.len(),
        0 <= m <= full_before(o, nf),
    ensures
        ({
            let (a, b) = shed(o, nf, m, budget);
            is_within(a, b, nf, m) && 0 <= a && 0 <= b <= full_before(o, a)
        }),
    decreases nf, m,
{
    if nf <= 0 || json_tokens(page_json(o, nf, m)) <= budget {
    } else if m > 0 {
        lemma_shed_within(o, nf, m - 1, budget);
    } else {
        lemma_shed_within(o, nf - 1, full_before(o, nf - 1), budget);
    }
}

/// A page leaves something behind: a whole feed, or the rest of its last.
pub open spec fn leaves_something(o: FetchOutput, nf: int, m: int) -> bool {
    nf < o.feeds@.len() || (nf == o.feeds@.len() && m < full_before(o, nf))
}

/// The page that an output is trimmed to ships items, and leaves something behind.
pub proof fn lemma_page_end(o: FetchOutput, budget: int)
    requires
        crate::totals::item_total(o.feeds@) > 0,
    ensures
        page_end(o, budget) matches Some((nf, m)) ==> {
            &&& 0 < nf <= o.feeds@.len()
            &&& 0 <= m <= full(o, nf - 1)
            &&& m == 0 ==> full(o, nf - 1) == 0
            &&& leaves_something(o, nf, m)
            &&& page_items(o, nf, m) > 0
        },
{
    let (sf, si) = admission_stop(o, budget);
    lemma_first_over_bounds(o.feeds@, 0, 0, json_tokens(page_json(o, 0, 0)) as int, budget);
    if o.feeds@.len() == 0 {
        assert(crate::totals::item_total(o.feeds@) == 0);
    }
    if !(sf == 0 && si == 0) {
        let (nf0, m0) = page_before(o, sf, si);
        lemma_shed_within(o, nf0, m0, budget);
        let (nf1, m1) = shed(o, nf0, m0, budget);
        let (nf, m) = without_husk(o, nf1, m1);
    }
}

/// Trims an output to a budget, and says where the next page resumes: `Ok(None)` where everything
/// fits. An error means that no item could be shipped, not even the first; the output may then be
/// trimmed already.
pub fn paginate(output: &mut FetchOutput, budget_tokens: usize) -> (r: Result<
    Option<PageStop>,
    RssError,
>)
    requires
        crate::totals::counts_fit(old(output).feeds@),
    ensures
        response_tokens(*old(output)) <= budget_tokens ==> r == Ok::<Option<PageStop>, RssError>(None)
            && *final(output) == *old(output),
        response_tokens(*old(output)) > budget_tokens ==> match page_end(
            *old(output),
            budget_tokens as int,
        ) {
            Some((nf, m)) => {
                &&& r matches Ok(Some(stop)) && is_stop(stop, *old(output), nf, m)
                &&& is_page(*final(output), *old(output), nf, m)
                &&& response_tokens(*final(output)) <= budget_tokens
            },
            None => r matches Err(e) && is_too_large(
                e,
                response_tokens(*old(output)) as int,
                budget_tokens as int,
                crate::totals::item_total(old(output).feeds@) as int,
            ),
        },
        r is Ok ==> budget_tokens > 0 && response_tokens(*final(output)) <= budget_tokens,
        crate::totals::counts_hold(*old(output)) && response_tokens(*old(output)) > budget_tokens ==> (
        r is Err <==> crate::totals::item_total(old(output).feeds@) == 0 || json_tokens(
            page_json(*old(output), crate::fill::first_feed_with_items(*old(output), 0) + 1, 1),
        ) > budget_tokens),
{
    let ghost o = *output;
    proof {
        lemma_object_has_width(crate::wire::output_json(o)->Obj_0);
        if crate::totals::counts_hold(o) && response_tokens(o) > budget_tokens {
            crate::fill::law_pages_are_as_long_as_fits(o, budget_tokens as int);
        }
    }
    let estimated: usize = estimate_response_tokens(output);
    if estimated <= budget_tokens {
        return Ok(None);
    }
    let mut original_counts: Vec<usize> = Vec::new();
    let mut k: usize = 0;
    while k < output.feeds.len()
        invariant
            k <= output.feeds@.len(),
            *output == o,
            original_counts@.len() == k,
            forall|j: int| 0 <= j < k ==> #[trigger] original_counts@[j] == full(o, j),
        decreases output.feeds@.len() - k,
    {
        original_counts.push(output.feeds[k].items.len());
        k = k + 1;
    }
    let original_items: usize = item_count(output);
    if original_items == 0 {
        return Err(too_large_error(estimated, budget_tokens, original_items));
    }
    let none: Vec<Json> = Vec::new();
    assert(crate::json::elements(none@) =~= Seq::new(
        0,
        |k: int| page_feed_json(o.feeds@[k], shipped(o, 0, 0, k)),
    ));
    let base: usize = measure(&output_value_with(output, none, 0, 0));
    let found = find_stop(output, base, budget_tokens);
    proof {
        lemma_page_end(o, budget_tokens as int);
        assert(o.feeds@.len() > 0);
    }
    let (sf, si) = match found {
        Some(p) => p,
        None => {
            let last: usize = output.feeds.len() - 1;
            let n: usize = output.feeds[last].items.len();
            (last, if n > 0 { n - 1 } else { 0 })
        },
    };
    if sf == 0 && si == 0 {
        return Err(too_large_error(estimated, budget_tokens, original_items));
    }
    trim_to(output, sf, si);
    let ghost m0 = page_before(o, sf as int, si as int).1;
    let Ghost(m1) = shed_to_fit(output, budget_tokens, Ghost(o), Ghost(m0));
    proof {
        lemma_shed_within(o, page_before(o, sf as int, si as int).0, m0, budget_tokens as int);
    }
    let Ghost(m) = drop_husk(output, &original_counts, Ghost(o), Ghost(m1), Ghost(budget_tokens as int));
    proof {
        lemma_page_totals(output.feeds@, o, output.feeds@.len() as int, m);
    }
    let shipped_items: usize = item_count(output);
    if shipped_items == 0 {
        return Err(too_large_error(estimated, budget_tokens, original_items));
    }
    let nf: usize = output.feeds.len();
    proof {
        lemma_object_has_width(crate::wire::output_json(*output)->Obj_0);
    }
    assert(crate::totals::same_shell(output.feeds@[nf - 1], o.feeds@[nf - 1]));
    let in_last: usize = output.feeds[nf - 1].items.len();
    let (feed_idx, item_idx) = if in_last < original_counts[nf - 1] {
        (nf - 1, in_last)
    } else {
        (nf, 0)
    };
    Ok(
        Some(
            PageStop {
                feed_idx,
                item_idx,
                feed_item_count: original_counts[feed_idx],
                items_omitted: original_items - shipped_items,
                feeds_omitted: original_counts.len() - nf,
            },
        ),
    )
}

/// Lists of items, one after the other.
pub open spec fn joined(lists: Seq<Seq<Item>>) -> Seq<Item>
    decreases lists.len(),
{
    if lists.len() == 0 {
        Seq::empty()
    } else {
        lists[0] + joined(lists.skip(1))
    }
}

/// The items of each feed.
pub open spec fn item_lists(o: FetchOutput) -> Seq<Seq<Item>> {
    o.feeds@.map_values(|f: FeedResult| f.items@)
}

/// What a continuation that resumes at item `ri` of feed `rf` has left to deliver.
pub open spec fn left_from(o: FetchOutput, rf: int, ri: int) -> Seq<Seq<Item>> {
    let rest = item_lists(o).skip(rf);
    rest.update(0, rest[0].skip(ri))
}

proof fn lemma_joined_split(lists: Seq<Seq<Item>>, k: int)
    requires
        0 <= k <= lists.len(),
    ensures
        joined(lists) == joined(lists.take(k)) + joined(lists.skip(k)),
    decreases k,
{
    if k == 0 {
        assert(lists.take(0) =~= Seq::empty());
        assert(lists.skip(0) =~= lists);
        assert(joined(lists) =~= Seq::<Item>::empty() + joined(lists));
    } else {
        lemma_joined_split(lists.skip(1), k - 1);
        assert(lists.take(k).skip(1) =~= lists.skip(1).take(k - 1));
        assert(lists.skip(1).skip(k - 1) =~= lists.skip(k));
        assert(lists.take(k)[0] == lists[0]);
        assert(lists[0] + (joined(lists.take(k).skip(1)) + joined(lists.skip(k))) =~= (lists[0]
            + joined(lists.take(k).skip(1))) + joined(lists.skip(k)));
    }
}

/// Lists one after the other hold as many items as the feeds that they are of.
pub proof fn lemma_joined_count(feeds: Seq<FeedResult>)
    ensures
        joined(feeds.map_values(|f: FeedResult| f.items@)).len() == crate::totals::item_total(feeds),
    decreases feeds.len(),
{
    let lists = feeds.map_values(|f: FeedResult| f.items@);
    if feeds.len() > 0 {
        let n = feeds.len() - 1;
        lemma_joined_count(feeds.drop_last());
        lemma_joined_split(lists, n);
        assert(lists.take(n) =~= feeds.drop_last().map_values(|f: FeedResult| f.items@));
        let tail = lists.skip(n);
        assert(tail[0] == feeds.last().items@);
        assert(tail.skip(1) =~= Seq::empty());
        assert(joined(tail.skip(1)) =~= Seq::empty());
        assert(joined(tail) =~= tail[0]);
    }
}

/// A page ships as many items as its end says.
pub proof fn lemma_page_ships(out: FetchOutput, o: FetchOutput, nf: int, m: int)
    requires
        is_page(out, o, nf, m),
    ensures
        crate::totals::item_total(out.feeds@) == page_items(o, nf, m),
{
    lemma_page_totals(out.feeds@, o, nf, m);
}

/// A page and what a continuation from its stop has left deliver together every item exactly once
/// and in order: nothing is skipped and nothing repeated.
pub proof fn law_page_and_rest_are_everything(out: FetchOutput, o: FetchOutput, nf: int, m: int)
    requires
        is_page(out, o, nf, m),
        leaves_something(o, nf, m),
    ensures
        joined(item_lists(out)) + joined(left_from(o, resume_at(o, nf, m).0, resume_at(o, nf, m).1))
            == joined(item_lists(o)),
{
    let all = item_lists(o);
    let (rf, ri) = resume_at(o, nf, m);
    let page = item_lists(out);
    let rest = all.skip(rf);
    let left = left_from(o, rf, ri);
    lemma_joined_split(all, rf);
    assert(left.skip(1) =~= rest.skip(1));
    assert forall|k: int| 0 <= k < nf implies #[trigger] page[k] == o.feeds@[k].items@.take(
        shipped(o, nf, m, k),
    ) by {
        assert(crate::totals::same_shell(out.feeds@[k], o.feeds@[k]));
    }
    assert forall|k: int| 0 <= k < nf - 1 implies page[k] == all[k] by {
        assert(all[k].take(full(o, k)) =~= all[k]);
    }
    if ri > 0 || rf == nf - 1 {
        lemma_joined_split(page, nf - 1);
        assert(page.take(nf - 1) =~= all.take(nf - 1));
        assert(page.skip(nf - 1)[0] == page[nf - 1]);
        assert(page.skip(nf - 1).skip(1) =~= Seq::empty());
        assert(joined(page.skip(nf - 1).skip(1)) =~= Seq::empty());
        assert(page[nf - 1] == all[rf].take(m));
        assert(joined(page.skip(nf - 1)) =~= all[rf].take(m));
        assert(rest[0] == all[rf]);
        assert(all[rf] =~= all[rf].take(m) + all[rf].skip(m));
        assert(joined(page) + joined(left) =~= joined(all));
    } else {
        if nf > 0 {
            assert(all[nf - 1].take(full(o, nf - 1)) =~= all[nf - 1]);
        }
        assert(page =~= all.take(nf));
        assert(rest[0].skip(0) =~= rest[0]);
        assert(left =~= rest);
    }
}

/// A page that an output over budget is trimmed to ships at least one item, resumes past its own
/// start, and leaves behind exactly what it did not ship.
pub proof fn law_page_makes_progress(o: FetchOutput, budget: int)
    requires
        page_end(o, budget) is Some,
    ensures
        ({
            let (nf, m) = page_end(o, budget)->Some_0;
            let (rf, ri) = resume_at(o, nf, m);
            &&& page_items(o, nf, m) > 0
            &&& rf > 0 || ri > 0
            &&& 0 <= rf < o.feeds@.len()
            &&& 0 <= ri <= full(o, rf)
            &&& leaves_something(o, nf, m)
            &&& crate::totals::item_total(o.feeds@.take(rf)) + ri == page_items(o, nf, m)
        }),
{
    lemma_page_end(o, budget);
    let (nf, m) = page_end(o, budget)->Some_0;
    crate::totals::lemma_feed_in_totals(o.feeds@, nf - 1);
}

/// Builds the truncation marker of an output, where the content of an item was cut short.
pub fn truncation_marker(
    output: &FetchOutput,
    applied_limit: Option<usize>,
    suggestion: Option<String>,
) -> (r: Option<TruncationInfo>)
    requires
        crate::totals::item_total(output.feeds@) <= usize::MAX,
    ensures
        cut_total(output.feeds@) == 0 ==> r is None,
        cut_total(output.feeds@) > 0 ==> (r matches Some(t) && t.applied_limit == applied_limit
            && t.items_content_truncated == cut_total(output.feeds@) && t.items_omitted == 0
            && t.feeds_omitted == 0 && t.next_cursor is None && t.estimated_tokens is None
            && t.suggestion == suggestion),
{
    let ghost feeds = output.feeds@;
    let mut n: usize = 0;
    let mut fi: usize = 0;
    assert(feeds.take(0) =~= Seq::empty());
    while fi < output.feeds.len()
        invariant
            fi <= feeds.len(),
            feeds == output.feeds@,
            crate::totals::item_total(feeds) <= usize::MAX,
            n == cut_total(feeds.take(fi as int)),
            n <= crate::totals::item_total(feeds.take(fi as int)),
        decreases feeds.len() - fi,
    {
        let items = &output.feeds[fi].items;
        let ghost start = n as nat;
        proof {
            crate::totals::lemma_feed_in_totals(feeds, fi as int);
            assert(feeds.take(fi + 1).drop_last() =~= feeds.take(fi as int));
            assert(feeds.take(fi + 1).last() == feeds[fi as int]);
            assert(items@.take(0) =~= Seq::empty());
        }
        let mut ii: usize = 0;
        while ii < items.len()
            invariant
                ii <= items@.len(),
                n == start + cut_count(items@.take(ii as int)),
                n <= start + ii,
                start + items@.len() <= usize::MAX,
            decreases items@.len() - ii,
        {
            proof {
                assert(items@.take(ii + 1).drop_last() =~= items@.take(ii as int));
                assert(items@.take(ii + 1).last() == items@[ii as int]);
            }
            if items[ii].content_truncated {
                n = n + 1;
            }
            ii = ii + 1;
        }
        assert(items@.take(ii as int) =~= items@);
        fi = fi + 1;
    }
    assert(feeds.take(fi as int) =~= feeds);
    if n == 0 {
        return None;
    }
    Some(
        TruncationInfo {
            applied_limit,
            items_content_truncated: n,
            items_omitted: 0,
            feeds_omitted: 0,
            next_cursor: None,
            estimated_tokens: None,
            suggestion,
        },
    )
}

/// How many of some items had their content cut short.
pub open spec fn cut_count(items: Seq<Item>) -> nat
    decreases items.len(),
{
    if items.len() == 0 {
        0
    } else {
        cut_count(items.drop_last()) + (if items.last().content_truncated {
            1nat
        } else {
            0nat
        })
    }
}

/// How many items of some feeds had their content cut short.
pub open spec fn cut_total(feeds: Seq<FeedResult>) -> nat
    decreases feeds.len(),
{
    if feeds.len() == 0 {
        0
    } else {
        cut_total(feeds.drop_last()) + cut_count(feeds.last().items@)
    }
}

} // verus!
