//! How wide a page's marker can get, and that a page with its marker keeps within its budget.

use vstd::prelude::*;
use vstd::string::*;
use vstd::utf8::*;

use crate::cursor::CursorView;
use crate::marker::{
    MarkerView, CONTENT_TRUNCATION_SUGGESTION, DROP_NOT_PAGEABLE_SUGGESTION,
    NO_CACHE_NOT_PAGEABLE_SUGGESTION, PAGINATION_SUGGESTION,
};
use crate::model::{ErrorObj, FeedResult, FetchOutput, Warning};

verus! {

/// Every one of the first `n` characters is one character wide in a JSON text.
pub open spec fn is_plain(s: Seq<char>, n: int) -> bool
    decreases n,
{
    n <= 0 || (crate::json::char_width(s[n - 1]) == 1 && is_plain(s, n - 1))
}

proof fn lemma_plain_width(s: Seq<char>, n: int)
    requires
        is_plain(s, n),
    ensures
        crate::json::chars_width(s, n) == (if n <= 0 {
            0
        } else {
            n
        }),
    decreases n,
{
    if n > 0 {
        lemma_plain_width(s, n - 1);
    }
}

proof fn lemma_each_plain(s: Seq<char>, n: int)
    requires
        forall|k: int| 0 <= k < n ==> crate::json::char_width(#[trigger] s[k]) == 1,
    ensures
        is_plain(s, n),
    decreases n,
{
    if n > 0 {
        lemma_each_plain(s, n - 1);
    }
}

proof fn lemma_width_at_least(s: Seq<char>, n: int)
    ensures
        crate::json::chars_width(s, n) >= n,
    decreases n,
{
    if n > 0 {
        lemma_width_at_least(s, n - 1);
    }
}

proof fn lemma_width_of_first(a: Seq<char>, b: Seq<char>, n: int)
    requires
        0 <= n <= a.len(),
    ensures
        crate::json::chars_width(a + b, n) == crate::json::chars_width(a, n),
    decreases n,
{
    if n > 0 {
        lemma_width_of_first(a, b, n - 1);
        assert((a + b)[n - 1] == a[n - 1]);
    }
}

proof fn lemma_width_of_both(a: Seq<char>, b: Seq<char>, n: int)
    requires
        0 <= n <= b.len(),
    ensures
        crate::json::chars_width(a + b, a.len() + n) == crate::json::chars_width(a, a.len() as int)
            + crate::json::chars_width(b, n),
    decreases n,
{
    if n > 0 {
        lemma_width_of_both(a, b, n - 1);
        assert((a + b)[a.len() + n - 1] == b[n - 1]);
    } else {
        lemma_width_of_first(a, b, a.len() as int);
    }
}

/// A longer number is no narrower.
pub proof fn lemma_decimal_grows(a: nat, b: nat)
    requires
        a <= b,
    ensures
        1 <= crate::text::decimal(a).len() <= crate::text::decimal(b).len(),
    decreases b,
{
    if b >= 10 && a >= 10 {
        lemma_decimal_grows(a / 10, b / 10);
    } else if b >= 10 {
        lemma_decimal_grows(0, b / 10);
    }
}

proof fn lemma_decimal_digits(n: nat, k: int)
    requires
        0 <= k < crate::text::decimal(n).len(),
    ensures
        crate::text::is_digit(crate::text::decimal(n)[k]),
    decreases n,
{
    if n >= 10 && k < crate::text::decimal(n).len() - 1 {
        lemma_decimal_digits(n / 10, k);
    }
}

proof fn lemma_own_advice()
    ensures
        crate::json::text_width(CONTENT_TRUNCATION_SUGGESTION@) == 75,
        crate::json::text_width(PAGINATION_SUGGESTION@) >= 243,
{
    reveal_strlit("content was truncated; call get_item for the full body of a specific item");
    assert(is_plain(CONTENT_TRUNCATION_SUGGESTION@, 73)) by {
        reveal_with_fuel(is_plain, 74);
    }
    lemma_plain_width(CONTENT_TRUNCATION_SUGGESTION@, 73);
    reveal_strlit(
        "response was bounded by max_response_tokens; pass truncation.next_cursor back as `cursor` with the same arguments for the next page -- a feed already fetched costs nothing, but a feed the batch deadline never reached still needs a live fetch",
    );
    lemma_width_at_least(PAGINATION_SUGGESTION@, 241);
}

proof fn lemma_drop_advice()
    ensures
        crate::json::text_width(DROP_NOT_PAGEABLE_SUGGESTION@) == 190,
{
    reveal_strlit(
        "dedupe='drop' cannot be paged, so this over-budget page has no cursor; re-run with dedupe='report' and page from there (collapsing duplicates yourself), or keep 'drop' and shrink the batch",
    );
    let s = DROP_NOT_PAGEABLE_SUGGESTION@;
    assert(is_plain(s, 63)) by {
        reveal_with_fuel(is_plain, 64);
    }
    assert(is_plain(s, 125)) by {
        reveal_with_fuel(is_plain, 64);
    }
    assert(is_plain(s, 188)) by {
        reveal_with_fuel(is_plain, 64);
    }
    lemma_plain_width(s, 188);
}

proof fn lemma_no_cache_advice()
    ensures
        crate::json::text_width(NO_CACHE_NOT_PAGEABLE_SUGGESTION@) == 225,
{
    reveal_strlit(
        "cache_policy='no-cache' cannot be paged (paging reads the body cache, which no-cache does not write), so this bounded page has no cursor; re-run with the default revalidate, which refetches and persists, or shrink the batch",
    );
    let s = NO_CACHE_NOT_PAGEABLE_SUGGESTION@;
    assert(is_plain(s, 74)) by {
        reveal_with_fuel(is_plain, 76);
    }
    assert(is_plain(s, 149)) by {
        reveal_with_fuel(is_plain, 76);
    }
    assert(is_plain(s, 223)) by {
        reveal_with_fuel(is_plain, 76);
    }
    lemma_plain_width(s, 223);
}

proof fn lemma_omission_advice(omitted: int)
    requires
        0 <= omitted <= usize::MAX,
    ensures
        crate::json::text_width(crate::batch::omission_advice(omitted)) <= 165,
        crate::batch::omission_advice(omitted).len() > 0,
{
    reveal_strlit(
        " feed(s) were not fetched before the batch deadline; request them separately, or pass truncation.next_cursor back as `cursor` if one is present",
    );
    let s = " feed(s) were not fetched before the batch deadline; request them separately, or pass truncation.next_cursor back as `cursor` if one is present"@;
    assert(is_plain(s, 72)) by {
        reveal_with_fuel(is_plain, 73);
    }
    assert(is_plain(s, 143)) by {
        reveal_with_fuel(is_plain, 73);
    }
    lemma_plain_width(s, 143);
    let d = crate::text::decimal(omitted as nat);
    assert forall|k: int| 0 <= k < d.len() implies crate::json::char_width(#[trigger] d[k]) == 1 by {
        lemma_decimal_digits(omitted as nat, k);
    }
    lemma_each_plain(d, d.len() as int);
    lemma_plain_width(d, d.len() as int);
    lemma_decimal_grows(omitted as nat, u64::MAX as nat);
    assert(crate::text::decimal(u64::MAX as nat).len() == 20) by {
        reveal_with_fuel(crate::text::decimal, 20);
    }
    lemma_width_of_both(d, s, 143);
}

/// Advice and more advice are as wide as the two of them.
proof fn lemma_joined_width(a: Seq<char>, b: Seq<char>)
    requires
        a.len() > 0,
    ensures
        crate::json::text_width(crate::marker::joined_advice(Some(a), b))
            == crate::json::text_width(a) + crate::json::text_width(b),
{
    reveal_strlit("; ");
    assert("; "@[0] == ';' && "; "@[1] == ' ');
    reveal_with_fuel(crate::json::chars_width, 3);
    let c = a + "; "@;
    lemma_width_of_both(a, "; "@, 2);
    lemma_width_of_both(c, b, b.len() as int);
}

proof fn lemma_number_width(n: int)
    requires
        0 <= n <= usize::MAX,
    ensures
        crate::json::number_width(n) <= crate::json::number_width(usize::MAX as int),
        crate::json::number_width(usize::MAX as int) >= 4,
{
    lemma_decimal_grows(n as nat, usize::MAX as nat);
    lemma_decimal_grows(1000, usize::MAX as nat);
    assert(crate::text::decimal(1000).len() == 4) by {
        reveal_with_fuel(crate::text::decimal, 4);
    }
}

proof fn lemma_window_width(s: Option<int>)
    requires
        s matches Some(k) ==> i64::MIN <= k <= i64::MAX,
    ensures
        crate::json::value_width(
            match s {
                Some(k) => crate::json::JsonView::Int(k),
                None => crate::json::JsonView::Null,
            },
        ) <= crate::json::number_width(i64::MIN as int),
        crate::json::number_width(i64::MIN as int) >= 5,
{
    let most = (-(i64::MIN as int)) as nat;
    lemma_decimal_grows(1000, most);
    assert(crate::text::decimal(1000).len() == 4) by {
        reveal_with_fuel(crate::text::decimal, 4);
    }
    match s {
        Some(k) => {
            if k < 0 {
                lemma_decimal_grows((-k) as nat, most);
            } else {
                lemma_decimal_grows(k as nat, most);
            }
        },
        None => {},
    }
}

/// A fingerprint is ASCII, and as wide as any other.
proof fn lemma_fingerprint_width(fp: Seq<char>)
    requires
        crate::hash::is_short_hash(fp),
    ensures
        is_ascii_chars(fp),
        crate::json::text_width(fp) == 18,
{
    assert forall|k: int| 0 <= k < fp.len() implies crate::json::char_width(#[trigger] fp[k]) == 1 by {}
    lemma_each_plain(fp, 16);
    lemma_plain_width(fp, 16);
}

/// No cursor of a request has a wider token than the widest.
pub proof fn lemma_token_width(c: CursorView)
    requires
        crate::hash::is_short_hash(c.fp),
        0 <= c.v <= 255,
        0 <= c.f <= usize::MAX,
        0 <= c.i <= usize::MAX,
        0 <= c.n <= usize::MAX,
        c.s matches Some(k) ==> i64::MIN <= k <= i64::MAX,
    ensures
        is_ascii_chars(c.fp),
        crate::cursor::token_width(c) <= crate::cursor::token_width(crate::marker::widest_cursor()),
{
    let w = crate::marker::widest_cursor();
    lemma_widest_fingerprint();
    lemma_fingerprint_width(c.fp);
    lemma_fingerprint_width(w.fp);
    lemma_decimal_grows(c.v as nat, 255);
    lemma_number_width(c.f);
    lemma_number_width(c.i);
    lemma_number_width(c.n);
    lemma_window_width(c.s);
    reveal_with_fuel(crate::json::members_width, 7);
}

/// The fingerprint of the widest cursor has the form of one.
pub proof fn lemma_widest_fingerprint()
    ensures
        crate::hash::is_short_hash(crate::marker::widest_cursor().fp),
        is_ascii_chars(crate::marker::widest_cursor().fp),
{
    reveal_strlit("ffffffffffffffff");
    let fp = crate::marker::widest_cursor().fp;
    assert forall|k: int| 0 <= k < fp.len() implies #[trigger] fp[k] == 'f' by {
        assert(k == 0 || k == 1 || k == 2 || k == 3 || k == 4 || k == 5 || k == 6 || k == 7 || k == 8
            || k == 9 || k == 10 || k == 11 || k == 12 || k == 13 || k == 14 || k == 15);
    }
}

proof fn lemma_widest_token()
    ensures
        crate::cursor::token_width(crate::marker::widest_cursor()) >= 90,
{
    let w = crate::marker::widest_cursor();
    lemma_widest_fingerprint();
    lemma_fingerprint_width(w.fp);
    lemma_decimal_grows(1, 255);
    lemma_number_width(w.f);
    lemma_window_width(w.s);
    reveal_strlit("v");
    reveal_strlit("fp");
    reveal_strlit("f");
    reveal_strlit("i");
    reveal_strlit("n");
    reveal_strlit("s");
    lemma_width_at_least("v"@, 1);
    lemma_width_at_least("fp"@, 2);
    lemma_width_at_least("f"@, 1);
    lemma_width_at_least("i"@, 1);
    lemma_width_at_least("n"@, 1);
    lemma_width_at_least("s"@, 1);
    reveal_with_fuel(crate::json::members_width, 7);
}

/// The length of a marker's indented JSON.
pub open spec fn marker_width(m: MarkerView) -> nat {
    crate::json::pretty_width(crate::marker::marker_json(m)->Obj_0)
}

/// How many characters an optional text takes up.
pub open spec fn optional_width(t: Option<Seq<char>>) -> nat {
    crate::json::value_width(crate::json::text_or_null(t))
}

/// A marker whose numbers a machine can hold.
pub open spec fn is_countable(m: MarkerView) -> bool {
    &&& 0 <= m.items_content_truncated <= usize::MAX
    &&& 0 <= m.items_omitted <= usize::MAX
    &&& 0 <= m.feeds_omitted <= usize::MAX
}

/// A marker's JSON is a flat record.
pub proof fn lemma_marker_is_flat(m: MarkerView)
    requires
        is_countable(m),
    ensures
        crate::json::is_slot(crate::marker::marker_json(m)),
{
    reveal_strlit("applied_limit");
    reveal_strlit("items_content_truncated");
    reveal_strlit("items_omitted");
    reveal_strlit("feeds_omitted");
    reveal_strlit("next_cursor");
    reveal_strlit("estimated_tokens");
    reveal_strlit("suggestion");
    let f = crate::marker::marker_json(m)->Obj_0;
    assert("applied_limit"@[0] == 'a' && "items_omitted"@[0] == 'i' && "feeds_omitted"@[0] == 'f');
    assert forall|a: int, b: int| 0 <= a < b < f.len() implies (#[trigger] f[a]).0 != (
    #[trigger] f[b]).0 by {
        assert(f[a].0.len() != f[b].0.len() || f[a].0[0] != f[b].0[0]);
    }
}

/// A marker whose cursor and advice take up no more than those of the widest is no wider.
proof fn lemma_no_wider(m: MarkerView)
    requires
        is_countable(m),
        optional_width(m.next_cursor) + optional_width(m.suggestion) <= optional_width(
            crate::marker::widest().next_cursor,
        ) + optional_width(crate::marker::widest().suggestion),
    ensures
        marker_width(m) <= marker_width(crate::marker::widest()),
{
    lemma_number_width(m.items_content_truncated);
    lemma_number_width(m.items_omitted);
    lemma_number_width(m.feeds_omitted);
    match m.applied_limit {
        Some(n) => lemma_number_width(n as int),
        None => {},
    }
    match m.estimated_tokens {
        Some(n) => lemma_number_width(n as int),
        None => {},
    }
    reveal_with_fuel(crate::json::members_width, 8);
}

/// The marker of a batch: none, or that of feeds that the deadline left out.
pub open spec fn is_batch_marker(d: Option<MarkerView>) -> bool {
    d matches Some(m) ==> {
        &&& m.next_cursor is None
        &&& 0 <= m.feeds_omitted <= usize::MAX
        &&& m.suggestion == Some(crate::batch::omission_advice(m.feeds_omitted))
    }
}

/// A cursor's token, where there is one, takes up no more than the widest.
pub open spec fn has_narrow_token(t: Option<Seq<char>>) -> bool {
    t is Some ==> optional_width(t) <= crate::cursor::token_width(crate::marker::widest_cursor()) + 2
}

/// A token over the URL-safe alphabet is as wide as it is long, with its quotes.
pub proof fn lemma_url_safe_width(t: Seq<char>)
    requires
        forall|k: int| 0 <= k < t.len() ==> crate::cursor::is_url_safe(#[trigger] t[k]),
    ensures
        optional_width(Some(t)) == t.len() + 2,
{
    assert forall|k: int| 0 <= k < t.len() implies crate::json::char_width(#[trigger] t[k]) == 1 by {
        assert(crate::cursor::is_url_safe(t[k]));
    }
    lemma_each_plain(t, t.len() as int);
    lemma_plain_width(t, t.len() as int);
}

/// The room that is kept is enough for the widest marker, its place on the page, and both notes of the
/// summary.
pub open spec fn is_room_enough() -> bool {
    &&& crate::marker::headroom() >= crate::content::tokens(
        marker_width(crate::marker::widest()),
    ) + 8 + crate::content::tokens(
        crate::marker::CONTENT_TRUNCATED_NOTE@.len() + crate::marker::MORE_ITEMS_NOTE@.len(),
    )
    &&& optional_width(crate::marker::widest().next_cursor) == crate::cursor::token_width(
        crate::marker::widest_cursor(),
    ) + 2
}

/// No page's marker is wider than the one that room is kept for, whatever size is written on it.
pub proof fn law_no_marker_is_wider(
    plan: crate::mcp::PagePlan,
    start: crate::answer::PageStart,
    feeds: int,
    cut: nat,
    stop: Option<crate::answer::StopView>,
    deadline: Option<MarkerView>,
    size: Option<usize>,
)
    requires
        start.may_mint ==> crate::answer::unpageable(plan.dedupe, plan.params.cache_policy) is None,
        is_batch_marker(deadline),
        optional_width(crate::marker::widest().next_cursor) == crate::cursor::token_width(
            crate::marker::widest_cursor(),
        ) + 2,
    ensures
        crate::answer::page_marker(plan, start, feeds, cut, stop, deadline) matches Some(m) ==> (
        is_countable(m) && has_narrow_token(m.next_cursor) ==> marker_width(
            MarkerView { estimated_tokens: size, ..m },
        ) <= marker_width(crate::marker::widest())),
{
    match crate::answer::page_marker(plan, start, feeds, cut, stop, deadline) {
        Some(m) => {
            if is_countable(m) && has_narrow_token(m.next_cursor) {
                let own = CONTENT_TRUNCATION_SUGGESTION@;
                lemma_own_advice();
                lemma_drop_advice();
                lemma_no_cache_advice();
                lemma_widest_token();
                assert(own.len() > 0) by {
                    reveal_strlit(
                        "content was truncated; call get_item for the full body of a specific item",
                    );
                }
                lemma_joined_width(own, PAGINATION_SUGGESTION@);
                lemma_joined_width(own, DROP_NOT_PAGEABLE_SUGGESTION@);
                lemma_joined_width(own, NO_CACHE_NOT_PAGEABLE_SUGGESTION@);
                match deadline {
                    Some(d) => {
                        let late = crate::batch::omission_advice(d.feeds_omitted);
                        lemma_omission_advice(d.feeds_omitted);
                        lemma_joined_width(late, DROP_NOT_PAGEABLE_SUGGESTION@);
                        lemma_joined_width(late, NO_CACHE_NOT_PAGEABLE_SUGGESTION@);
                    },
                    None => {},
                }
                lemma_no_wider(MarkerView { estimated_tokens: size, ..m });
            }
        },
        None => {},
    }
}

proof fn lemma_errors_are_part(
    errors: Seq<ErrorObj>,
    feeds: Seq<FeedResult>,
    f: spec_fn(ErrorObj) -> crate::json::JsonView,
)
    ensures
        crate::json::is_part(
            crate::answer::carried_errors(errors, feeds).map_values(f),
            errors.map_values(f),
        ),
    decreases errors.len(),
{
    if errors.len() > 0 {
        let rest = crate::answer::carried_errors(errors.drop_last(), feeds);
        lemma_errors_are_part(errors.drop_last(), feeds, f);
        assert(errors.map_values(f).drop_last() =~= errors.drop_last().map_values(f));
        assert(errors.map_values(f).last() == f(errors.last()));
        assert(rest.push(errors.last()).map_values(f).drop_last() =~= rest.map_values(f));
    }
}

proof fn lemma_warnings_are_part(
    warnings: Seq<Warning>,
    feeds: Seq<FeedResult>,
    f: spec_fn(Warning) -> crate::json::JsonView,
)
    ensures
        crate::json::is_part(
            crate::answer::carried_warnings(warnings, feeds).map_values(f),
            warnings.map_values(f),
        ),
    decreases warnings.len(),
{
    if warnings.len() > 0 {
        let rest = crate::answer::carried_warnings(warnings.drop_last(), feeds);
        lemma_warnings_are_part(warnings.drop_last(), feeds, f);
        assert(warnings.map_values(f).drop_last() =~= warnings.drop_last().map_values(f));
        assert(warnings.map_values(f).last() == f(warnings.last()));
        assert(rest.push(warnings.last()).map_values(f).drop_last() =~= rest.map_values(f));
    }
}

/// The output is the page without the errors and warnings that do not belong to it.
pub open spec fn is_without_orphans(a: FetchOutput, page: FetchOutput) -> bool {
    &&& a.errors@ == crate::answer::carried_errors(page.errors@, page.feeds@)
    &&& a.warnings@ == crate::answer::carried_warnings(page.warnings@, page.feeds@)
    &&& a.schema_version == page.schema_version
    &&& a.fetched_at == page.fetched_at
    &&& a.total_items == page.total_items
    &&& a.total_content_tokens_est == page.total_content_tokens_est
    &&& a.feeds == page.feeds
    &&& a.truncation == page.truncation
    &&& a.applied_filters == page.applied_filters
    &&& a.duplicates == page.duplicates
}

/// The members of an output's tree.
proof fn lemma_output_tree(o: FetchOutput)
    ensures
        ({
            let f = crate::wire::output_json(o)->Obj_0;
            let t = crate::json::kept(crate::wire::output_json(o));
            &&& f.len() == 10
            &&& t is Obj
            &&& t->Obj_0.len() == 10
            &&& forall|i: int|
                0 <= i < 10 ==> #[trigger] t->Obj_0[i] == (f[i].0, crate::json::kept(f[i].1))
        }),
{
    let feeds = o.feeds@.map_values(|f: FeedResult| crate::wire::feed_json(f));
    crate::page::lemma_output_names(
        crate::wire::output_json(o),
        o,
        feeds,
        o.total_items as int,
        o.total_content_tokens_est as int,
    );
    crate::json::lemma_kept_object(crate::wire::output_json(o)->Obj_0);
}

/// A page without what does not belong to it is the page with elements of its lists left out.
proof fn lemma_orphans_thin(a: FetchOutput, page: FetchOutput)
    requires
        is_without_orphans(a, page),
    ensures
        crate::json::thins(
            crate::json::kept(crate::wire::output_json(page)),
            crate::json::kept(crate::wire::output_json(a)),
        ),
{
    lemma_output_tree(a);
    lemma_output_tree(page);
    let fp = crate::wire::output_json(page)->Obj_0;
    let fa = crate::wire::output_json(a)->Obj_0;
    let kp = crate::json::kept(crate::wire::output_json(page))->Obj_0;
    let ka = crate::json::kept(crate::wire::output_json(a))->Obj_0;
    let keep = |e: crate::json::JsonView| crate::json::kept(e);
    let ej = |e: ErrorObj| crate::wire::error_json(e);
    let wj = |w: Warning| crate::wire::warning_json(w);
    let ek = |e: ErrorObj| crate::json::kept(crate::wire::error_json(e));
    let wk = |w: Warning| crate::json::kept(crate::wire::warning_json(w));
    crate::json::lemma_kept_list(page.errors@.map_values(ej));
    crate::json::lemma_kept_list(a.errors@.map_values(ej));
    crate::json::lemma_kept_list(page.warnings@.map_values(wj));
    crate::json::lemma_kept_list(a.warnings@.map_values(wj));
    assert(page.errors@.map_values(ej).map_values(keep) =~= page.errors@.map_values(ek));
    assert(a.errors@.map_values(ej).map_values(keep) =~= a.errors@.map_values(ek));
    assert(page.warnings@.map_values(wj).map_values(keep) =~= page.warnings@.map_values(wk));
    assert(a.warnings@.map_values(wj).map_values(keep) =~= a.warnings@.map_values(wk));
    lemma_errors_are_part(page.errors@, page.feeds@, ek);
    lemma_warnings_are_part(page.warnings@, page.feeds@, wk);
    assert(fp[5].1 == crate::json::JsonView::Arr(page.errors@.map_values(ej)));
    assert(fa[5].1 == crate::json::JsonView::Arr(a.errors@.map_values(ej)));
    assert(fp[6].1 == crate::json::JsonView::Arr(page.warnings@.map_values(wj)));
    assert(fa[6].1 == crate::json::JsonView::Arr(a.warnings@.map_values(wj)));
    assert forall|i: int| 0 <= i < 10 implies (#[trigger] kp[i]).0 == ka[i].0
        && crate::json::is_thinner_value(kp[i].1, ka[i].1) by {
        assert(ka[i] == (fa[i].0, crate::json::kept(fa[i].1)));
        if i != 5 && i != 6 {
            assert(fp[i] == fa[i]);
        }
    }
}

/// The tree of an output with another marker is its tree with another value in one member.
proof fn lemma_marker_is_a_member(a: FetchOutput, b: FetchOutput)
    requires
        b == (FetchOutput { truncation: b.truncation, ..a }),
        b.truncation matches Some(t) ==> is_countable(t@),
    ensures
        ({
            let v = match b.truncation {
                Some(t) => crate::marker::marker_json(t@),
                None => crate::json::JsonView::Null,
            };
            &&& crate::json::kept(crate::wire::output_json(b)) == crate::json::with_value(
                crate::json::kept(crate::wire::output_json(a)),
                7,
                v,
            )
            &&& crate::json::kept(crate::wire::output_json(b))->Obj_0[7].1 == v
            &&& crate::json::is_slot(v)
        }),
{
    lemma_output_tree(a);
    lemma_output_tree(b);
    let v = match b.truncation {
        Some(t) => crate::marker::marker_json(t@),
        None => crate::json::JsonView::Null,
    };
    let fa = crate::wire::output_json(a)->Obj_0;
    let fb = crate::wire::output_json(b)->Obj_0;
    let ka = crate::json::kept(crate::wire::output_json(a))->Obj_0;
    let kb = crate::json::kept(crate::wire::output_json(b))->Obj_0;
    match b.truncation {
        Some(t) => {
            lemma_marker_is_flat(t@);
            crate::json::lemma_flat_is_kept(crate::marker::marker_json(t@));
            assert(crate::wire::truncation_json(t)->Obj_0 =~= crate::marker::marker_json(
                t@,
            )->Obj_0);
        },
        None => {},
    }
    assert(fb[7] == ("truncation"@, v));
    assert forall|i: int| 0 <= i < 10 implies kb[i] == #[trigger] ka.update(7, (ka[7].0, v))[i] by {
        assert(kb[i] == (fb[i].0, crate::json::kept(fb[i].1)));
        assert(ka[i] == (fa[i].0, crate::json::kept(fa[i].1)));
        assert(fa[i].0 == fb[i].0);
        if i != 7 {
            assert(fa[i] == fb[i]);
        }
    }
    assert(kb =~= ka.update(7, (ka[7].0, v)));
}

/// An output as it goes out: its indented JSON and the summary's notes on how it was bounded, in
/// tokens.
pub open spec fn emitted_tokens(o: FetchOutput) -> nat {
    crate::page::response_tokens(o) + crate::content::tokens(
        crate::marker::note_text(o.truncation).len(),
    )
}

/// A page that fits without its marker, with room kept for one that is no wider than the widest,
/// fits with it.
pub proof fn lemma_marked_page_fits(
    page: FetchOutput,
    bare: FetchOutput,
    marked: FetchOutput,
    last: FetchOutput,
    budget: int,
)
    requires
        crate::page::response_tokens(page) <= budget - crate::marker::headroom(),
        page.truncation is None,
        is_without_orphans(bare, page),
        marked == (FetchOutput { truncation: marked.truncation, ..bare }),
        crate::marker::is_stamped(last, marked),
        is_room_enough(),
        last.truncation matches Some(t) ==> marker_width(t@) <= marker_width(crate::marker::widest()),
    ensures
        emitted_tokens(last) <= budget,
{
    lemma_orphans_thin(bare, page);
    let small = crate::json::kept(crate::wire::output_json(bare));
    crate::json::lemma_deeper(small, 0, 0);
    crate::json::lemma_thinner_is_narrower(
        crate::json::kept(crate::wire::output_json(page)),
        small,
    );
    match (marked.truncation, last.truncation) {
        (Some(m), Some(t)) => {
            let tree = crate::json::kept(crate::wire::output_json(marked));
            lemma_marker_is_a_member(marked, marked);
            lemma_marker_is_a_member(marked, bare);
            lemma_marker_is_a_member(marked, last);
            lemma_output_tree(marked);
            let gone = crate::json::with_value(tree, 7, crate::json::JsonView::Null);
            let grown = crate::json::with_value(tree, 7, crate::marker::marker_json(t@));
            assert(gone == small);
            crate::json::lemma_value_changes_width(tree, 7, crate::json::JsonView::Null);
            crate::json::lemma_value_changes_width(tree, 7, crate::marker::marker_json(t@));
            assert(grown == crate::json::kept(crate::wire::output_json(last)));
        },
        _ => {
            assert(last == bare);
        },
    }
}

} // verus!
