//! The truncation marker of a page, and the line that sums a page up.

use vstd::prelude::*;
use vstd::string::*;
use vstd::utf8::*;

use crate::config::FetchParams;
use crate::cursor::{Cursor, CursorView, CURSOR_VERSION};
use crate::model::{FetchOutput, TruncationInfo};
use crate::page::{estimate_response_tokens, measure, PageStop};
use crate::text::{chars_of, number_text};
use crate::wire::truncation_value;

verus! {

/// Advice on a page that was bounded and has a continuation.
pub const PAGINATION_SUGGESTION: &'static str = "response was bounded by max_response_tokens; pass truncation.next_cursor back as `cursor` with the same arguments for the next page -- a feed already fetched costs nothing, but a feed the batch deadline never reached still needs a live fetch";

/// Advice on a page with items whose content was cut short.
pub const CONTENT_TRUNCATION_SUGGESTION: &'static str = "content was truncated; call get_item for the full body of a specific item";

/// The summary's note on a page with items whose content was cut short.
pub const CONTENT_TRUNCATED_NOTE: &'static str = " Content truncated (see structuredContent.truncation).";

/// The summary's note on a page with a continuation.
pub const MORE_ITEMS_NOTE: &'static str = " More items or feeds remain: pass truncation.next_cursor back as `cursor` for the next page.";

/// Advice on a bounded page that has no continuation because dropped duplicates cannot be paged.
pub const DROP_NOT_PAGEABLE_SUGGESTION: &'static str = "dedupe='drop' cannot be paged, so this over-budget page has no cursor; re-run with dedupe='report' and page from there (collapsing duplicates yourself), or keep 'drop' and shrink the batch";

/// Advice on a bounded page that has no continuation because it bypasses the cache.
pub const NO_CACHE_NOT_PAGEABLE_SUGGESTION: &'static str = "cache_policy='no-cache' cannot be paged (paging reads the body cache, which no-cache does not write), so this bounded page has no cursor; re-run with the default revalidate, which refetches and persists, or shrink the batch";

/// A truncation marker, as mathematics.
pub struct MarkerView {
    pub applied_limit: Option<usize>,
    pub items_content_truncated: int,
    pub items_omitted: int,
    pub feeds_omitted: int,
    pub next_cursor: Option<Seq<char>>,
    pub estimated_tokens: Option<usize>,
    pub suggestion: Option<Seq<char>>,
}

impl View for TruncationInfo {
    type V = MarkerView;

    open spec fn view(&self) -> MarkerView {
        MarkerView {
            applied_limit: self.applied_limit,
            items_content_truncated: self.items_content_truncated as int,
            items_omitted: self.items_omitted as int,
            feeds_omitted: self.feeds_omitted as int,
            next_cursor: self.next_cursor.deep_view(),
            estimated_tokens: self.estimated_tokens,
            suggestion: self.suggestion.deep_view(),
        }
    }
}

/// A marker, if there is one.
pub open spec fn marker_view(t: Option<TruncationInfo>) -> Option<MarkerView> {
    match t {
        Some(m) => Some(m@),
        None => None,
    }
}

/// Advice added to what is there already.
pub open spec fn joined_advice(existing: Option<Seq<char>>, addition: Seq<char>) -> Seq<char> {
    match existing {
        Some(s) => if s.len() > 0 {
            s + "; "@ + addition
        } else {
            addition
        },
        None => addition,
    }
}

/// Adds advice to what is there already.
pub fn join_suggestion(existing: Option<&str>, addition: &str) -> (r: String)
    ensures
        r@ == joined_advice(crate::identity::chars(existing), addition@),
{
    match existing {
        Some(s) => if s.is_empty() {
            addition.to_owned()
        } else {
            s.to_owned().concat("; ").concat(addition)
        },
        None => addition.to_owned(),
    }
}

/// Adds the advice on paging to what is there already.
pub fn combined_suggestion(existing: Option<&str>) -> (r: String)
    ensures
        r@ == joined_advice(crate::identity::chars(existing), PAGINATION_SUGGESTION@),
{
    join_suggestion(existing, PAGINATION_SUGGESTION)
}

/// The token of a cursor.
pub open spec fn cursor_text(c: CursorView) -> Seq<char> {
    crate::cursor::base64_text(
        encode_utf8(
            crate::json::compact_text(crate::json::kept(crate::cursor::payload(c))),
        ),
    )
}

/// The cursor with the widest token.
pub open spec fn widest_cursor() -> CursorView {
    CursorView {
        v: 255,
        fp: "ffffffffffffffff"@,
        f: usize::MAX as int,
        i: usize::MAX as int,
        n: usize::MAX as int,
        s: Some(i64::MIN as int),
    }
}

/// The widest marker that a page can carry.
pub open spec fn widest() -> MarkerView {
    MarkerView {
        applied_limit: Some(usize::MAX),
        items_content_truncated: usize::MAX as int,
        items_omitted: usize::MAX as int,
        feeds_omitted: usize::MAX as int,
        next_cursor: Some(cursor_text(widest_cursor())),
        estimated_tokens: Some(usize::MAX),
        suggestion: Some(
            joined_advice(Some(CONTENT_TRUNCATION_SUGGESTION@), PAGINATION_SUGGESTION@),
        ),
    }
}

/// The widest marker that a page can carry: every number at its largest, a full-length cursor, and
/// both pieces of advice.
pub fn worst_case_marker() -> (r: TruncationInfo)
    ensures
        r@ == widest(),
        crate::room::optional_width(widest().next_cursor) == crate::cursor::token_width(
            widest_cursor(),
        ) + 2,
{
    let c = Cursor {
        v: 255,
        fp: "ffffffffffffffff".to_owned(),
        f: usize::MAX,
        i: usize::MAX,
        n: usize::MAX,
        s: Some(i64::MIN),
    };
    let token = c.encode();
    proof {
        crate::room::lemma_widest_fingerprint();
        crate::room::lemma_url_safe_width(token@);
    }
    TruncationInfo {
        applied_limit: Some(usize::MAX),
        items_content_truncated: usize::MAX,
        items_omitted: usize::MAX,
        feeds_omitted: usize::MAX,
        next_cursor: Some(token),
        estimated_tokens: Some(usize::MAX),
        suggestion: Some(combined_suggestion(Some(CONTENT_TRUNCATION_SUGGESTION))),
    }
}

/// A marker's JSON.
pub open spec fn marker_json(m: MarkerView) -> crate::json::JsonView {
    crate::json::JsonView::Obj(
        seq![
            ("applied_limit"@, crate::json::size_or_null(m.applied_limit)),
            crate::wire::number_member("items_content_truncated"@, m.items_content_truncated),
            crate::wire::number_member("items_omitted"@, m.items_omitted),
            crate::wire::number_member("feeds_omitted"@, m.feeds_omitted),
            ("next_cursor"@, crate::json::text_or_null(m.next_cursor)),
            ("estimated_tokens"@, crate::json::size_or_null(m.estimated_tokens)),
            ("suggestion"@, crate::json::text_or_null(m.suggestion)),
        ],
    )
}

/// What is held back from a page's budget for its marker and the summary's notes, in tokens: the
/// widest marker, a little for its indentation, and both notes.
pub open spec fn headroom() -> nat {
    crate::page::json_tokens(marker_json(widest())) + 8 + crate::content::tokens(
        CONTENT_TRUNCATED_NOTE@.len() + MORE_ITEMS_NOTE@.len(),
    )
}

/// What is held back from a page's budget for what is attached to it afterwards, in tokens.
pub fn cursor_headroom() -> (r: usize)
    ensures
        r == headroom(),
        crate::room::is_room_enough(),
{
    let t = worst_case_marker();
    proof {
        assert(crate::wire::truncation_json(t)->Obj_0 =~= marker_json(t@)->Obj_0);
        reveal_strlit(" Content truncated (see structuredContent.truncation).");
        reveal_strlit(
            " More items or feeds remain: pass truncation.next_cursor back as `cursor` for the next page.",
        );
    }
    let marker: usize = measure(&truncation_value(&t));
    proof {
        crate::room::lemma_marker_is_flat(t@);
        crate::json::lemma_flat_is_kept(marker_json(t@));
        crate::json::lemma_flat_layout(marker_json(t@)->Obj_0);
    }
    let notes: usize = chars_of(CONTENT_TRUNCATED_NOTE).len() + chars_of(MORE_ITEMS_NOTE).len();
    let note: usize = if notes % 4 == 0 {
        notes / 4
    } else {
        notes / 4 + 1
    };
    marker + 8 + note
}

/// The marker with the deadline's omissions folded in. The two counts are of different feeds, so
/// they add; the marker's own advice wins.
pub open spec fn merged(m: Option<MarkerView>, deadline: Option<MarkerView>) -> Option<MarkerView> {
    match (m, deadline) {
        (_, None) => m,
        (None, Some(d)) => Some(d),
        (Some(x), Some(d)) => Some(
            MarkerView {
                feeds_omitted: x.feeds_omitted + d.feeds_omitted,
                suggestion: if x.suggestion is None {
                    d.suggestion
                } else {
                    x.suggestion
                },
                ..x
            },
        ),
    }
}

/// How many feeds a marker says are omitted.
pub open spec fn omitted_by(t: Option<TruncationInfo>) -> int {
    match t {
        Some(m) => m.feeds_omitted as int,
        None => 0,
    }
}

/// Folds the deadline's omissions into a page's marker.
pub fn merge_deadline_omissions(marker: &mut Option<TruncationInfo>, deadline: Option<TruncationInfo>)
    requires
        omitted_by(*old(marker)) + omitted_by(deadline) <= usize::MAX,
    ensures
        marker_view(*final(marker)) == merged(marker_view(*old(marker)), marker_view(deadline)),
{
    let d = match deadline {
        Some(d) => d,
        None => {
            return;
        },
    };
    let mut own: Option<TruncationInfo> = None;
    std::mem::swap(marker, &mut own);
    match own {
        Some(m) => {
            let suggestion = match m.suggestion {
                Some(s) => Some(s),
                None => d.suggestion,
            };
            *marker = Some(
                TruncationInfo {
                    applied_limit: m.applied_limit,
                    items_content_truncated: m.items_content_truncated,
                    items_omitted: m.items_omitted,
                    feeds_omitted: m.feeds_omitted + d.feeds_omitted,
                    next_cursor: m.next_cursor,
                    estimated_tokens: m.estimated_tokens,
                    suggestion,
                },
            );
        },
        None => {
            *marker = Some(d);
        },
    }
}

/// The whole second at which a window opens.
pub open spec fn window_secs(params: FetchParams) -> Option<int> {
    match params.since {
        Some(t) => Some(t.secs as int),
        None => None,
    }
}

/// The token that resumes a request at item `i` of feed `f`, which held `n` items.
pub open spec fn continuation_text(fp: Seq<char>, params: FetchParams, f: int, i: int, n: int) -> Seq<char> {
    cursor_text(CursorView { v: CURSOR_VERSION as int, fp, f, i, n, s: window_secs(params) })
}

/// The token that resumes a request at item `i` of feed `f`, which held `n` items. Reading it gives
/// these back.
pub fn continuation(fp: &str, params: &FetchParams, f: usize, i: usize, n: usize) -> (r: String)
    ensures
        r@ == continuation_text(fp@, *params, f as int, i as int, n as int),
        crate::cursor::token_value(r@) == Ok::<CursorView, Seq<char>>(
            (CursorView {
                v: CURSOR_VERSION as int,
                fp: fp@,
                f: f as int,
                i: i as int,
                n: n as int,
                s: window_secs(*params),
            }),
        ),
        crate::text::trimmed(r@).len() > 0,
        crate::hash::is_short_hash(fp@) ==> crate::room::has_narrow_token(Some(r@)),
{
    let c = Cursor {
        v: CURSOR_VERSION,
        fp: fp.to_owned(),
        f,
        i,
        n,
        s: match params.since {
            Some(t) => Some(t.secs),
            None => None,
        },
    };
    let token = c.encode();
    proof {
        if crate::hash::is_short_hash(fp@) {
            crate::room::lemma_token_width(c@);
            crate::room::lemma_url_safe_width(token@);
        }
    }
    token
}

/// The notes on how a response was bounded.
pub open spec fn note_text(t: Option<TruncationInfo>) -> Seq<char> {
    match t {
        None => Seq::empty(),
        Some(m) => (if m.items_content_truncated > 0 {
            CONTENT_TRUNCATED_NOTE@
        } else {
            Seq::empty()
        }) + (if m.next_cursor is Some {
            MORE_ITEMS_NOTE@
        } else {
            Seq::empty()
        }),
    }
}

/// Notes on how a response was bounded.
pub fn truncation_note(out: &FetchOutput) -> (r: String)
    ensures
        r@ == note_text(out.truncation),
{
    let mut s = String::new();
    assert(s@ =~= Seq::empty());
    if let Some(m) = &out.truncation {
        if m.items_content_truncated > 0 {
            s = s.concat(CONTENT_TRUNCATED_NOTE);
        }
        if m.next_cursor.is_some() {
            s = s.concat(MORE_ITEMS_NOTE);
        }
        assert(s@ =~= note_text(out.truncation));
    }
    s
}

/// The line that sums a page up.
pub open spec fn summary_text(o: FetchOutput, url: Seq<char>) -> Seq<char> {
    let counts = "Fetched "@ + crate::text::decimal(o.total_items as nat) + " item(s) (~"@
        + crate::text::decimal(o.total_content_tokens_est as nat) + " content tokens) from "@;
    if o.feeds@.len() == 0 {
        "fetch_feed: no result for "@ + url + "."@
    } else if o.feeds@.len() == 1 {
        match o.feeds@[0].error {
            Some(e) => "fetch_feed: "@ + url + " returned an error ("@ + e.code@
                + "); see structuredContent."@,
            None => counts + "\""@ + (match o.feeds@[0].title {
                Some(t) => t@,
                None => url,
            }) + "\"."@ + note_text(o.truncation) + " Full data in structuredContent."@,
        }
    } else {
        counts + crate::text::decimal(o.feeds@.len()) + " feed(s)"@ + (if o.errors@.len() > 0 {
            "; "@ + crate::text::decimal(o.errors@.len())
                + " feed(s) failed (see structuredContent.errors)"@
        } else {
            ""@
        }) + "."@ + note_text(o.truncation) + " Full data in structuredContent."@
    }
}

/// The line that sums a page up.
pub fn fetch_summary(out: &FetchOutput, url: &str) -> (r: String)
    ensures
        r@ == summary_text(*out, url@),
{
    if out.feeds.len() == 0 {
        return "fetch_feed: no result for ".to_owned().concat(url).concat(".");
    }
    let counts = "Fetched ".to_owned().concat(number_text(out.total_items as u64).as_str()).concat(
        " item(s) (~",
    ).concat(number_text(out.total_content_tokens_est).as_str()).concat(" content tokens) from ");
    if out.feeds.len() == 1 {
        if let Some(e) = &out.feeds[0].error {
            return "fetch_feed: ".to_owned().concat(url).concat(" returned an error (").concat(
                e.code.as_str(),
            ).concat("); see structuredContent.");
        }
        let title = match &out.feeds[0].title {
            Some(t) => t.as_str(),
            None => url,
        };
        return counts.concat("\"").concat(title).concat("\".").concat(
            truncation_note(out).as_str(),
        ).concat(" Full data in structuredContent.");
    }
    let failed = if out.errors.len() > 0 {
        "; ".to_owned().concat(number_text(out.errors.len() as u64).as_str()).concat(
            " feed(s) failed (see structuredContent.errors)",
        )
    } else {
        "".to_owned()
    };
    counts.concat(number_text(out.feeds.len() as u64).as_str()).concat(" feed(s)").concat(
        failed.as_str(),
    ).concat(".").concat(truncation_note(out).as_str()).concat(" Full data in structuredContent.")
}

/// The output is `before` with its size written on its marker, if it has one.
pub open spec fn is_stamped(after: FetchOutput, before: FetchOutput) -> bool {
    &&& after.schema_version == before.schema_version
    &&& after.fetched_at == before.fetched_at
    &&& after.total_items == before.total_items
    &&& after.total_content_tokens_est == before.total_content_tokens_est
    &&& after.feeds == before.feeds
    &&& after.errors == before.errors
    &&& after.warnings == before.warnings
    &&& after.applied_filters == before.applied_filters
    &&& after.duplicates == before.duplicates
    &&& match before.truncation {
        None => after.truncation is None,
        Some(m) => after.truncation matches Some(t) && t@ == (MarkerView {
            estimated_tokens: Some(crate::page::response_tokens(before) as usize),
            ..m@
        }) && crate::page::response_tokens(before) <= usize::MAX,
    }
}

/// Writes a response's size on its marker, if it has one.
pub fn stamp_estimated_tokens(out: &mut FetchOutput)
    ensures
        is_stamped(*final(out), *old(out)),
{
    if out.truncation.is_some() {
        let estimated: usize = estimate_response_tokens(out);
        let mut own: Option<TruncationInfo> = None;
        std::mem::swap(&mut out.truncation, &mut own);
        if let Some(m) = own {
            out.truncation = Some(TruncationInfo { estimated_tokens: Some(estimated), ..m });
        }
    }
}

/// The marker of a page that stopped, as its stop counts it.
pub open spec fn stopped(m: Option<MarkerView>, limit: Option<usize>, items: int, feeds: int) -> MarkerView {
    match m {
        Some(x) => MarkerView { items_omitted: items, feeds_omitted: feeds, ..x },
        None => MarkerView {
            applied_limit: limit,
            items_content_truncated: 0,
            items_omitted: items,
            feeds_omitted: feeds,
            next_cursor: None,
            estimated_tokens: None,
            suggestion: None,
        },
    }
}

/// A marker with a continuation and the advice on paging.
pub open spec fn with_continuation(m: MarkerView, token: Seq<char>) -> MarkerView {
    MarkerView {
        next_cursor: Some(token),
        suggestion: Some(joined_advice(m.suggestion, PAGINATION_SUGGESTION@)),
        ..m
    }
}

/// A marker with advice added.
pub open spec fn with_advice(m: MarkerView, advice: Seq<char>) -> MarkerView {
    MarkerView { suggestion: Some(joined_advice(m.suggestion, advice)), ..m }
}

fn advice_of(m: &TruncationInfo) -> (r: Option<&str>)
    ensures
        crate::identity::chars(r) == m.suggestion.deep_view(),
{
    match &m.suggestion {
        Some(s) => Some(s.as_str()),
        None => None,
    }
}

/// The marker of a page that stopped, as its stop counts it.
pub fn mark_stop(m: Option<TruncationInfo>, limit: Option<usize>, stop: &PageStop) -> (r: TruncationInfo)
    ensures
        r@ == stopped(
            marker_view(m),
            limit,
            stop.items_omitted as int,
            stop.feeds_omitted as int,
        ),
{
    match m {
        Some(x) => TruncationInfo {
            items_omitted: stop.items_omitted,
            feeds_omitted: stop.feeds_omitted,
            ..x
        },
        None => TruncationInfo {
            applied_limit: limit,
            items_content_truncated: 0,
            items_omitted: stop.items_omitted,
            feeds_omitted: stop.feeds_omitted,
            next_cursor: None,
            estimated_tokens: None,
            suggestion: None,
        },
    }
}

/// Gives a marker a continuation and the advice on paging.
pub fn offer_continuation(m: TruncationInfo, token: String) -> (r: TruncationInfo)
    ensures
        r@ == with_continuation(m@, token@),
{
    let advice = combined_suggestion(advice_of(&m));
    TruncationInfo { next_cursor: Some(token), suggestion: Some(advice), ..m }
}

/// Adds advice to a marker.
pub fn advise(m: TruncationInfo, advice: &str) -> (r: TruncationInfo)
    ensures
        r@ == with_advice(m@, advice@),
{
    let joined = join_suggestion(advice_of(&m), advice);
    TruncationInfo { suggestion: Some(joined), ..m }
}

} // verus!
