//! What parsing a feed promises of its items, over the entries of the feed.

use vstd::prelude::*;

use crate::config::FetchParams;
use crate::model::{ContentFormat, Enclosure, IdSource, Item};
use crate::parse::{
    document_in, document_value, enclosure_view, enclosures_of, id_from_link, is_item_of, is_order,
    is_parsed, kept, limited, link_enclosures, main_link, media_enclosures, precedes, warning_view,
    warnings_for, with_url, DocumentView, EntryView, LinkView, MediaView, ParsedFeed,
};
use crate::time::Timestamp;

verus! {

/// The first instant is the second or a later one.
pub open spec fn no_earlier(a: Timestamp, b: Timestamp) -> bool {
    a.secs > b.secs || a.secs == b.secs && a.nanos >= b.nanos
}

/// An entry is at least as new as another: by when each was published, or updated where it does not say
/// when it was published. One without a date is no newer than any.
pub open spec fn is_as_new(a: EntryView, b: EntryView) -> bool {
    match (a.published, a.updated, b.published, b.updated) {
        (Some(x), _, Some(y), _) => no_earlier(x, y),
        (Some(x), _, None, Some(y)) => no_earlier(x, y),
        (None, Some(x), Some(y), _) => no_earlier(x, y),
        (None, Some(x), None, Some(y)) => no_earlier(x, y),
        (None, None, Some(_), _) => false,
        (None, None, None, Some(_)) => false,
        (_, _, None, None) => true,
    }
}

/// The entry is dated before the instant: published before it, or, where it does not say when it was
/// published, updated before it.
pub open spec fn is_dated_before(e: EntryView, t: Timestamp) -> bool {
    ||| e.published matches Some(x) && !no_earlier(x, t)
    ||| e.published is None && (e.updated matches Some(x) && !no_earlier(x, t))
}

/// The query accepts the item.
pub open spec fn passes(item: Item, query: Option<String>) -> bool {
    query matches Some(q) ==> crate::query::accepts(
        crate::query::lowered_terms(crate::query::raw_terms(q@), false),
        crate::query::lowered_terms(crate::query::raw_terms(q@), true),
        crate::query::searched_fields(item),
    )
}

/// The order of a parsed feed, as the positions of the entries that its items come from, and the
/// positions of all entries that the filters keep.
proof fn lemma_positions(p: ParsedFeed, d: DocumentView, feed_url: Seq<char>, params: FetchParams) -> (order:
    Seq<int>)
    requires
        is_parsed(p, d, feed_url, params),
    ensures
        is_order(order, d.entries, params, d.entries.len() as int),
        p.items@.len() == limited(order.len(), params.limit),
        p.items@.len() <= order.len(),
        forall|k: int|
            0 <= k < p.items@.len() ==> is_item_of(
                #[trigger] p.items@[k],
                d.entries[order[k]],
                feed_url,
                params,
            ),
        p.items_filtered_out == d.entries.len() - order.len(),
        p.warnings@.map_values(|w: crate::model::Warning| warning_view(w)) == warnings_for(
            d.entries,
            order.take(p.items@.len() as int),
            feed_url,
            params,
        ),
{
    let n = d.entries.len() as int;
    let order = choose|order: Seq<int>|
        #![trigger is_order(order, d.entries, params, n)]
        {
            let shown = order.take(limited(order.len(), params.limit) as int);
            &&& is_order(order, d.entries, params, n)
            &&& p.items@.len() == shown.len()
            &&& forall|k: int|
                0 <= k < shown.len() ==> is_item_of(
                    #[trigger] p.items@[k],
                    d.entries[shown[k]],
                    feed_url,
                    params,
                )
            &&& p.items_filtered_out == d.entries.len() - order.len()
            &&& p.warnings@.map_values(|w: crate::model::Warning| warning_view(w)) == warnings_for(
                d.entries,
                shown,
                feed_url,
                params,
            )
        };
    let shown = order.take(limited(order.len(), params.limit) as int);
    assert forall|k: int| 0 <= k < p.items@.len() implies is_item_of(
        #[trigger] p.items@[k],
        d.entries[order[k]],
        feed_url,
        params,
    ) by {
        assert(shown[k] == order[k]);
    }
    order
}

/// Items come newest first. Each comes from an entry of its own, at the position that is returned for it.
/// Of two items the first was published no earlier than the second, where both were published; where one
/// was not, the date of its update stands in; an item without a date comes after all that have one; and
/// where dates are the same, the order of the feed is kept. Nothing comes back that is dated before
/// `since`, that the query does not accept, or that exceeds the limit.
pub proof fn law_items_come_newest_first(
    p: ParsedFeed,
    d: DocumentView,
    feed_url: Seq<char>,
    params: FetchParams,
) -> (at: Seq<int>)
    requires
        is_parsed(p, d, feed_url, params),
    ensures
        at.len() == p.items@.len(),
        forall|k: int| 0 <= k < at.len() ==> 0 <= #[trigger] at[k] < d.entries.len(),
        forall|i: int, j: int| 0 <= i < j < at.len() ==> #[trigger] at[i] != #[trigger] at[j],
        forall|k: int|
            0 <= k < at.len() ==> is_item_of(
                #[trigger] p.items@[k],
                d.entries[at[k]],
                feed_url,
                params,
            ),
        forall|i: int, j: int|
            0 <= i < j < at.len() ==> {
                (d.entries[#[trigger] at[i]].published matches Some(x) && d.entries[#[trigger] at[j]].published
                    matches Some(y)) ==> no_earlier(
                    d.entries[at[i]].published->Some_0,
                    d.entries[at[j]].published->Some_0,
                )
            },
        forall|i: int, j: int|
            0 <= i < j < at.len() ==> is_as_new(
                d.entries[#[trigger] at[i]],
                d.entries[#[trigger] at[j]],
            ),
        forall|i: int, j: int|
            0 <= i < j < at.len() && is_as_new(
                d.entries[#[trigger] at[j]],
                d.entries[#[trigger] at[i]],
            ) ==> at[i] < at[j],
        forall|k: int|
            0 <= k < at.len() && params.since is Some ==> !is_dated_before(
                d.entries[#[trigger] at[k]],
                params.since->Some_0,
            ),
        forall|k: int| 0 <= k < at.len() ==> passes(#[trigger] p.items@[k], params.query),
        params.limit matches Some(l) ==> at.len() <= l,
{
    let order = lemma_positions(p, d, feed_url, params);
    let at = order.take(p.items@.len() as int);
    assert forall|k: int| 0 <= k < at.len() implies 0 <= #[trigger] at[k] < d.entries.len() && kept(
        d.entries[at[k]],
        params,
    ) by {
        assert(at[k] == order[k]);
    }
    assert forall|i: int, j: int| 0 <= i < j < at.len() implies precedes(
        d.entries,
        #[trigger] at[i],
        #[trigger] at[j],
    ) by {
        assert(at[i] == order[i] && at[j] == order[j]);
    }
    assert forall|k: int| 0 <= k < at.len() implies passes(#[trigger] p.items@[k], params.query) by {
        let e = d.entries[at[k]];
        assert(is_item_of(p.items@[k], e, feed_url, params));
        assert(crate::query::searched_fields(p.items@[k]) == crate::parse::searched(e, params));
    }
    at
}

/// A text that is there, in lower case.
pub open spec fn said(s: Option<Seq<char>>) -> Seq<Seq<char>> {
    match s {
        Some(t) => seq![crate::text::lowered(t)],
        None => Seq::empty(),
    }
}

/// The query accepts the entry's title, summary and shown content.
pub open spec fn would_pass(e: EntryView, params: FetchParams) -> bool {
    params.query matches Some(q) ==> crate::query::accepts(
        crate::query::lowered_terms(crate::query::raw_terms(q@), false),
        crate::query::lowered_terms(crate::query::raw_terms(q@), true),
        said(e.title) + said(e.summary) + said(crate::parse::shown_content(e, params)),
    )
}

/// No entry is left out without a reason. One that no item comes from is dated before `since`, or would
/// not be accepted by the query, or the limit is reached by entries that are all at least as new. Those
/// left out for the first two reasons are counted.
pub proof fn law_no_entry_is_left_out_without_a_reason(
    p: ParsedFeed,
    d: DocumentView,
    feed_url: Seq<char>,
    params: FetchParams,
) -> (at: Seq<int>)
    requires
        is_parsed(p, d, feed_url, params),
    ensures
        at.len() == p.items@.len(),
        forall|k: int| 0 <= k < at.len() ==> 0 <= #[trigger] at[k] < d.entries.len(),
        forall|k: int|
            0 <= k < at.len() ==> is_item_of(
                #[trigger] p.items@[k],
                d.entries[at[k]],
                feed_url,
                params,
            ),
        forall|x: int|
            0 <= x < d.entries.len() && !(#[trigger] at.contains(x)) && would_pass(
                d.entries[x],
                params,
            ) && (params.since is Some ==> !is_dated_before(d.entries[x], params.since->Some_0))
                ==> params.limit == Some(p.items@.len() as usize) && (forall|k: int|
                0 <= k < at.len() ==> is_as_new(d.entries[#[trigger] at[k]], d.entries[x])),
        params.limit is None ==> p.items@.len() + p.items_filtered_out == d.entries.len(),
        params.limit matches Some(l) ==> (p.items@.len() < l ==> p.items@.len() + p.items_filtered_out
            == d.entries.len()),
        p.items@.len() + p.items_filtered_out <= d.entries.len(),
{
    let order = lemma_positions(p, d, feed_url, params);
    let at = order.take(p.items@.len() as int);
    assert forall|k: int| 0 <= k < at.len() implies 0 <= #[trigger] at[k] < d.entries.len() by {
        assert(at[k] == order[k]);
    }
    assert forall|x: int|
        0 <= x < d.entries.len() && !(#[trigger] at.contains(x)) && would_pass(
            d.entries[x],
            params,
        ) && (params.since is Some ==> !is_dated_before(d.entries[x], params.since->Some_0)) implies params.limit
        == Some(p.items@.len() as usize) && (forall|k: int|
        0 <= k < at.len() ==> is_as_new(d.entries[#[trigger] at[k]], d.entries[x])) by {
        let e = d.entries[x];
        assert(kept(e, params));
        assert(order.contains(x));
        let m = choose|m: int| 0 <= m < order.len() && order[m] == x;
        if m < p.items@.len() {
            assert(at[m] == x);
        }
        assert forall|k: int| 0 <= k < at.len() implies is_as_new(d.entries[#[trigger] at[k]], e) by {
            assert(at[k] == order[k]);
            assert(precedes(d.entries, order[k], order[m]));
        }
    }
    at
}

/// The text holds something other than white space.
pub open spec fn holds_something(s: Option<Seq<char>>) -> bool {
    s matches Some(t) && exists|k: int| 0 <= k < t.len() && !crate::text::is_white(#[trigger] t[k])
}

proof fn lemma_holds_something(s: Option<Seq<char>>)
    ensures
        holds_something(s) <==> crate::parse::non_blank(s) is Some,
        crate::parse::non_blank(s) is Some ==> crate::parse::non_blank(s) == s,
{
    if let Some(t) = s {
        crate::text_laws::law_blank_texts_trim_to_nothing(t);
    }
}

/// An item's body is its entry's content, in the format that was asked for, whatever the summary; the
/// summary stands in only where the entry has no content or a blank one. The hash is that of the whole
/// body, and what is shown is the body, or its first characters and a mark where it is longer than the
/// cap. The estimate counts four characters of what is shown a token, rounded up.
pub proof fn law_content_comes_before_the_summary(
    item: Item,
    e: EntryView,
    feed_url: Seq<char>,
    params: FetchParams,
)
    requires
        is_item_of(item, e, feed_url, params),
    ensures
        params.content_format != ContentFormat::Omit && holds_something(e.content) ==> shows(
            item,
            crate::content::extracted(e.content->Some_0, params.content_format),
            params.max_content_chars,
        ),
        params.content_format != ContentFormat::Omit && !holds_something(e.content) && holds_something(
            e.summary,
        ) ==> shows(
            item,
            crate::content::extracted(e.summary->Some_0, params.content_format),
            params.max_content_chars,
        ),
        params.content_format == ContentFormat::Omit || (!holds_something(e.content)
            && !holds_something(e.summary)) ==> item.content is None && item.content_hash is None
            && item.content_tokens_est == 0 && !item.content_truncated,
        item.content_format == params.content_format,
{
    lemma_holds_something(e.content);
    lemma_holds_something(e.summary);
    reveal_strlit(" \u{2026}[truncated]");
}

/// The item carries this body, cut to a cap.
pub open spec fn shows(item: Item, body: Seq<char>, cap: Option<usize>) -> bool {
    &&& item.content_hash.deep_view() == Some(crate::hash::short_hash(body))
    &&& cap is None ==> item.content.deep_view() == Some(body) && !item.content_truncated
    &&& cap matches Some(m) ==> {
        &&& body.len() <= m ==> item.content.deep_view() == Some(body) && !item.content_truncated
        &&& body.len() > m ==> item.content.deep_view() == Some(
            body.subrange(0, m as int) + " \u{2026}[truncated]"@,
        ) && item.content_truncated
    }
    &&& item.content matches Some(c) && {
        &&& c@.len() < 4_000_000_000 ==> 4 * item.content_tokens_est >= c@.len() && 4
            * item.content_tokens_est < c@.len() + 4
    }
}

/// Two entries with the same content give items with the same body, whatever their summaries.
pub proof fn law_a_summary_does_not_touch_the_content(
    a: Item,
    b: Item,
    e: EntryView,
    f: EntryView,
    feed_url: Seq<char>,
    params: FetchParams,
)
    requires
        is_item_of(a, e, feed_url, params),
        is_item_of(b, f, feed_url, params),
        e.content == f.content,
        holds_something(e.content),
    ensures
        a.content.deep_view() == b.content.deep_view(),
        a.content_hash.deep_view() == b.content_hash.deep_view(),
        a.content_truncated == b.content_truncated,
        a.content_tokens_est == b.content_tokens_est,
{
    lemma_holds_something(e.content);
}

/// An item says what its entry says: its title, authors, categories and summary are the entry's, its
/// times are those of the entry in RFC 3339, its guid is the entry's id where it has one, and it names
/// the feed that it came from.
pub proof fn law_an_item_says_what_its_entry_says(
    item: Item,
    e: EntryView,
    feed_url: Seq<char>,
    params: FetchParams,
)
    requires
        is_item_of(item, e, feed_url, params),
    ensures
        item.feed_url@ == feed_url,
        item.title is Some <==> e.title is Some,
        e.title matches Some(t) ==> item.title->Some_0@ == t,
        item.authors@.len() == e.authors.len(),
        forall|k: int| 0 <= k < e.authors.len() ==> (#[trigger] item.authors@[k])@ == e.authors[k],
        item.categories@.len() == e.categories.len(),
        forall|k: int| 0 <= k < e.categories.len() ==> (#[trigger] item.categories@[k])@ == e.categories[k],
        item.summary is Some <==> e.summary is Some,
        e.summary matches Some(t) ==> item.summary->Some_0@ == t,
        item.published is Some <==> e.published is Some,
        e.published matches Some(t) ==> item.published->Some_0@ == crate::time::rfc3339_text(t),
        item.updated is Some <==> e.updated is Some,
        e.updated matches Some(t) ==> item.updated->Some_0@ == crate::time::rfc3339_text(t),
        item.guid is Some <==> e.id.len() > 0,
        e.id.len() > 0 ==> item.guid->Some_0@ == e.id,
{
    assert(item.authors@.len() == item.authors.deep_view().len());
    assert(item.categories@.len() == item.categories.deep_view().len());
    assert forall|k: int| 0 <= k < e.authors.len() implies (#[trigger] item.authors@[k])@ == e.authors[k] by {
        assert(item.authors.deep_view()[k] == item.authors@[k]@);
    }
    assert forall|k: int| 0 <= k < e.categories.len() implies (#[trigger] item.categories@[k])@
        == e.categories[k] by {
        assert(item.categories.deep_view()[k] == item.categories@[k]@);
    }
}

proof fn lemma_first_alternate(links: Seq<LinkView>, k: int)
    requires
        0 <= k <= links.len(),
        forall|j: int| 0 <= j < k ==> (#[trigger] links[j]).rel != Some("alternate"@),
    ensures
        k < links.len() && links[k].rel == Some("alternate"@) ==> crate::parse::first_alternate(links)
            == Some(links[k].href),
        k == links.len() ==> crate::parse::first_alternate(links) is None,
    decreases k,
{
    if k > 0 {
        let rest = links.skip(1);
        assert(links[0].rel != Some("alternate"@));
        assert forall|j: int| 0 <= j < k - 1 implies (#[trigger] rest[j]).rel != Some("alternate"@) by {
            assert(rest[j] == links[j + 1]);
        }
        lemma_first_alternate(rest, k - 1);
        if k < links.len() {
            assert(rest[k - 1] == links[k]);
        }
    }
}

/// The link of an item or a feed is the first that is an alternate; where none is, the first of all; and
/// where there are none, there is none.
pub proof fn law_the_first_alternate_is_the_link(links: Seq<LinkView>, k: int)
    requires
        0 <= k <= links.len(),
        forall|j: int| 0 <= j < k ==> (#[trigger] links[j]).rel != Some("alternate"@),
    ensures
        k < links.len() && links[k].rel == Some("alternate"@) ==> main_link(links) == Some(links[k].href),
        k == links.len() && k > 0 ==> main_link(links) == Some(links[0].href),
        links.len() == 0 ==> main_link(links) is None,
{
    lemma_first_alternate(links, k);
}

/// An item's link is its entry's, made absolute against the feed's address where that can be done and as
/// it stands where not. A feed's own link stands as it is.
pub proof fn law_links_are_resolved_against_the_feed(
    item: Item,
    e: EntryView,
    p: ParsedFeed,
    d: DocumentView,
    feed_url: Seq<char>,
    params: FetchParams,
)
    requires
        is_item_of(item, e, feed_url, params),
        is_parsed(p, d, feed_url, params),
    ensures
        item.url is Some <==> e.links.len() > 0,
        main_link(e.links) matches Some(h) ==> item.url->Some_0@ == (match crate::link::joined_url(
            feed_url,
            h,
        ) {
            Some(u) => u,
            None => h,
        }),
        p.site_url is Some <==> d.links.len() > 0,
        main_link(d.links) matches Some(h) ==> p.site_url->Some_0@ == h,
        p.title is Some <==> d.title is Some,
        d.title matches Some(t) ==> p.title->Some_0@ == t,
        p.updated is Some <==> d.updated is Some,
        d.updated matches Some(t) ==> p.updated->Some_0@ == crate::time::rfc3339_text(t),
{
    if e.links.len() == 0 {
        law_the_first_alternate_is_the_link(e.links, 0);
    }
    if d.links.len() == 0 {
        law_the_first_alternate_is_the_link(d.links, 0);
    }
}

/// An item's id is a hash of the feed's address and of its link; where it has none, of its guid; where it
/// has neither, of its title and the time of its publication; and where it has none of these, of the
/// feed's address alone. It says which it was.
pub proof fn law_an_id_is_a_hash_of_link_guid_or_title(
    item: Item,
    e: EntryView,
    feed_url: Seq<char>,
    params: FetchParams,
)
    requires
        is_item_of(item, e, feed_url, params),
    ensures
        item.url matches Some(u) ==> item.id@ == crate::hash::short_hash(feed_url + "\n"@ + u@)
            && item.id_source == IdSource::Link,
        item.url is None && item.guid is Some ==> item.id@ == crate::hash::short_hash(
            feed_url + "\n"@ + item.guid->Some_0@,
        ) && item.id_source == IdSource::Guid,
        item.url is None && item.guid is None ==> item.id_source == IdSource::Hash,
        item.url is None && item.guid is None && item.title is Some && item.published is Some ==> item.id@
            == crate::hash::short_hash(
            feed_url + "\n"@ + (item.title->Some_0@ + "|"@ + item.published->Some_0@),
        ),
        item.url is None && item.guid is None && item.title is Some && item.published is None ==> item.id@
            == crate::hash::short_hash(feed_url + "\n"@ + (item.title->Some_0@ + "|"@)),
        item.url is None && item.guid is None && item.title is None && item.published is Some ==> item.id@
            == crate::hash::short_hash(feed_url + "\n"@ + ("|"@ + item.published->Some_0@)),
        item.url is None && item.guid is None && item.title is None && item.published is None ==> item.id@
            == crate::hash::short_hash(feed_url),
{
    if let Some(t) = e.title {
        assert(t + "|"@ + Seq::<char>::empty() =~= t + "|"@);
    }
    assert(Seq::<char>::empty() + "|"@ =~= "|"@);
}

/// An entry keeps the id that the feed gives it. One without an id gets that of its first link and its
/// title, if it has a link. Nothing else of what was read is changed.
pub proof fn law_entries_are_as_the_feed_has_them(body: Seq<u8>, k: int)
    requires
        document_value(body) is Ok,
        0 <= k < document_value(body)->Ok_0.entries.len(),
    ensures
        document_in(body) matches Ok(raw) && {
            let d = document_value(body)->Ok_0;
            let (e, r) = (d.entries[k], raw.entries[k]);
            &&& d.title == raw.title && d.updated == raw.updated && d.links == raw.links
            &&& d.entries.len() == raw.entries.len()
            &&& e.title == r.title && e.published == r.published && e.updated == r.updated
            &&& e.authors == r.authors && e.categories == r.categories
            &&& e.summary == r.summary && e.content == r.content
            &&& e.links == r.links && e.media == r.media
            &&& r.id.len() > 0 ==> e.id == r.id
            &&& r.id.len() == 0 && r.links.len() == 0 ==> e.id.len() == 0
            &&& r.id.len() == 0 && r.links.len() > 0 ==> e.id == id_from_link(r.links[0].href, r.title)
        },
{
}

/// What is no feed is refused with the reader's own words, unless it was kept from the reader.
pub proof fn law_what_is_no_feed_is_refused(body: Seq<u8>)
    ensures
        crate::markup::is_readable(crate::discover::lossy_text(body)) ==> (document_value(body) is Ok
            <==> document_in(body) is Ok),
        crate::markup::is_readable(crate::discover::lossy_text(body)) && document_in(body) is Err
            ==> document_value(body)->Err_0 == document_in(body)->Err_0,
        !crate::markup::is_readable(crate::discover::lossy_text(body)) ==> document_value(body) is Err,
{
}

proof fn lemma_filter_contains<T>(s: Seq<T>, keep: spec_fn(T) -> bool, x: T)
    ensures
        s.filter(keep).contains(x) <==> s.contains(x) && keep(x),
    decreases s.len(),
{
    reveal(Seq::filter);
    if s.len() > 0 {
        let r = s.drop_last();
        lemma_filter_contains(r, keep, x);
        let f = r.filter(keep);
        if s.contains(x) {
            let k = choose|k: int| 0 <= k < s.len() && s[k] == x;
            if k < s.len() - 1 {
                assert(r[k] == x);
            }
        }
        if r.contains(x) {
            let k = choose|k: int| 0 <= k < r.len() && r[k] == x;
            assert(s[k] == x);
        }
        assert(s[s.len() - 1] == s.last());
        if keep(s.last()) {
            assert(s.filter(keep) == f.push(s.last()));
            assert(f.push(s.last())[f.len() as int] == s.last());
            if f.contains(x) {
                let k = choose|k: int| 0 <= k < f.len() && f[k] == x;
                assert(f.push(s.last())[k] == x);
            }
            if f.push(s.last()).contains(x) {
                let k = choose|k: int| 0 <= k < f.len() + 1 && f.push(s.last())[k] == x;
                if k < f.len() {
                    assert(f[k] == x);
                }
            }
        }
    } else {
        assert(s.filter(keep) =~= Seq::empty());
    }
}

proof fn lemma_media_contains(groups: Seq<Seq<MediaView>>, m: MediaView)
    ensures
        media_enclosures(groups).contains(m) <==> (m.url is Some && exists|g: int|
            0 <= g < groups.len() && (#[trigger] groups[g]).contains(m)),
    decreases groups.len(),
{
    if groups.len() > 0 {
        let r = groups.drop_last();
        lemma_media_contains(r, m);
        let a = media_enclosures(r);
        let b = with_url(groups.last());
        lemma_filter_contains(groups.last(), |m: MediaView| m.url is Some, m);
        if (a + b).contains(m) {
            let k = choose|k: int| 0 <= k < (a + b).len() && (a + b)[k] == m;
            if k < a.len() {
                assert(a[k] == m);
                let g = choose|g: int| 0 <= g < r.len() && (#[trigger] r[g]).contains(m);
                assert(groups[g].contains(m));
            } else {
                assert(b[k - a.len()] == m);
                assert(groups[groups.len() - 1].contains(m));
            }
        }
        if m.url is Some && exists|g: int| 0 <= g < groups.len() && (#[trigger] groups[g]).contains(m) {
            let g = choose|g: int| 0 <= g < groups.len() && (#[trigger] groups[g]).contains(m);
            if g < r.len() {
                assert(r[g].contains(m));
                let k = choose|k: int| 0 <= k < a.len() && a[k] == m;
                assert((a + b)[k] == m);
            } else {
                let k = choose|k: int| 0 <= k < b.len() && b[k] == m;
                assert((a + b)[a.len() + k] == m);
            }
        }
    }
}

proof fn lemma_link_contains(links: Seq<LinkView>, m: MediaView)
    ensures
        link_enclosures(links).contains(m) <==> exists|k: int|
            0 <= k < links.len() && (#[trigger] links[k]).rel == Some("enclosure"@) && links[k].href.len()
                > 0 && m == (MediaView {
                url: Some(links[k].href),
                mime: links[k].media_type,
                length: links[k].length,
            }),
{
    let keep = |l: LinkView| crate::parse::is_enclosure(l);
    let f = links.filter(keep);
    let made = |l: LinkView| crate::parse::link_media(l);
    if link_enclosures(links).contains(m) {
        let k = choose|k: int| 0 <= k < f.len() && f.map_values(made)[k] == m;
        lemma_filter_contains(links, keep, f[k]);
        assert(f.contains(f[k]));
        let j = choose|j: int| 0 <= j < links.len() && links[j] == f[k];
        assert(links[j].rel == Some("enclosure"@));
    }
    if exists|k: int|
        0 <= k < links.len() && (#[trigger] links[k]).rel == Some("enclosure"@) && links[k].href.len() > 0 && m
            == (MediaView { url: Some(links[k].href), mime: links[k].media_type, length: links[k].length }) {
        let k = choose|k: int|
            0 <= k < links.len() && (#[trigger] links[k]).rel == Some("enclosure"@) && links[k].href.len()
                > 0 && m == (MediaView {
                url: Some(links[k].href),
                mime: links[k].media_type,
                length: links[k].length,
            });
        lemma_filter_contains(links, keep, links[k]);
        assert(links.contains(links[k]));
        let j = choose|j: int| 0 <= j < f.len() && f[j] == links[k];
        assert(f.map_values(made)[j] == m);
    }
}

/// An item's enclosures are the media files of its entry that have an address, and its links that are
/// enclosures: nothing else, and none is left out.
pub proof fn law_every_attachment_is_carried(
    item: Item,
    e: EntryView,
    feed_url: Seq<char>,
    params: FetchParams,
    m: MediaView,
)
    requires
        is_item_of(item, e, feed_url, params),
    ensures
        (exists|k: int| 0 <= k < item.enclosures@.len() && enclosure_view(#[trigger] item.enclosures@[k]) == m)
            <==> ((m.url is Some && exists|g: int| 0 <= g < e.media.len() && (#[trigger] e.media[g]).contains(m))
            || exists|k: int|
            0 <= k < e.links.len() && (#[trigger] e.links[k]).rel == Some("enclosure"@) && e.links[k].href.len()
                > 0 && m == (MediaView {
                url: Some(e.links[k].href),
                mime: e.links[k].media_type,
                length: e.links[k].length,
            })),
{
    lemma_media_contains(e.media, m);
    lemma_link_contains(e.links, m);
    let a = media_enclosures(e.media);
    let b = link_enclosures(e.links);
    let all = item.enclosures@.map_values(|x: Enclosure| enclosure_view(x));
    assert(all == a + b);
    if exists|k: int| 0 <= k < item.enclosures@.len() && enclosure_view(#[trigger] item.enclosures@[k]) == m {
        let k = choose|k: int|
            0 <= k < item.enclosures@.len() && enclosure_view(#[trigger] item.enclosures@[k]) == m;
        assert(all[k] == m);
        if k < a.len() {
            assert(a[k] == m);
        } else {
            assert(b[k - a.len()] == m);
        }
    }
    if a.contains(m) {
        let k = choose|k: int| 0 <= k < a.len() && a[k] == m;
        assert(all[k] == m);
        assert(enclosure_view(item.enclosures@[k]) == m);
    }
    if b.contains(m) {
        let k = choose|k: int| 0 <= k < b.len() && b[k] == m;
        assert(all[a.len() + k] == m);
        assert(enclosure_view(item.enclosures@[a.len() + k]) == m);
    }
}

proof fn lemma_media_adds_up(a: Seq<Seq<MediaView>>, b: Seq<Seq<MediaView>>)
    ensures
        media_enclosures(a + b) == media_enclosures(a) + media_enclosures(b),
    decreases b.len(),
{
    if b.len() == 0 {
        assert(a + b =~= a);
        assert(media_enclosures(a) + media_enclosures(b) =~= media_enclosures(a));
    } else {
        lemma_media_adds_up(a, b.drop_last());
        assert((a + b).drop_last() =~= a + b.drop_last());
        assert(media_enclosures(a + b) =~= media_enclosures(a) + media_enclosures(b));
    }
}

/// Attachments come in order and as often as they are there: those of an entry whose media are some and
/// then others are those of the first, then those of the others, and its links come after. One media file
/// with an address is one attachment, and one without is none.
pub proof fn law_attachments_come_in_order(
    e: EntryView,
    a: Seq<Seq<MediaView>>,
    b: Seq<Seq<MediaView>>,
    m: MediaView,
)
    requires
        e.media == a + b,
    ensures
        enclosures_of(e) == media_enclosures(a) + media_enclosures(b) + link_enclosures(e.links),
        m.url is Some ==> media_enclosures(seq![seq![m]]) == seq![m],
        m.url is None ==> media_enclosures(seq![seq![m]]) == Seq::<MediaView>::empty(),
{
    lemma_media_adds_up(a, b);
    reveal(Seq::filter);
    reveal_with_fuel(media_enclosures, 2);
    reveal_with_fuel(Seq::filter, 2);
    let one = seq![seq![m]];
    assert(one.drop_last() =~= Seq::empty());
    assert(seq![m].drop_last() =~= Seq::empty());
    assert(with_url(seq![m]) =~= (if m.url is Some {
        seq![m]
    } else {
        Seq::empty()
    }));
    assert(media_enclosures(one) =~= with_url(seq![m]));
}

/// A feed whose items all lack a date says so, and only then; and where bodies had to have their tags cut
/// out, it says so, and only then. Each warning names the feed.
pub proof fn law_warnings_say_what_happened(
    p: ParsedFeed,
    d: DocumentView,
    feed_url: Seq<char>,
    params: FetchParams,
) -> (at: Seq<int>)
    requires
        is_parsed(p, d, feed_url, params),
    ensures
        at.len() == p.items@.len(),
        forall|k: int|
            0 <= k < at.len() ==> is_item_of(
                #[trigger] p.items@[k],
                d.entries[at[k]],
                feed_url,
                params,
            ),
        (exists|w: int| 0 <= w < p.warnings@.len() && (#[trigger] p.warnings@[w]).code@ == "UNDATED_ITEMS"@)
            <==> at.len() > 0 && forall|k: int|
            0 <= k < at.len() ==> d.entries[#[trigger] at[k]].published is None
                && d.entries[at[k]].updated is None,
        (exists|w: int|
            0 <= w < p.warnings@.len() && (#[trigger] p.warnings@[w]).code@
                == "CONTENT_EXTRACTION_FALLBACK"@) <==> params.content_format != ContentFormat::Omit
            && exists|k: int|
            0 <= k < at.len() && crate::parse::content_fell_back(
                d.entries[#[trigger] at[k]],
                params.content_format,
            ),
        forall|w: int|
            0 <= w < p.warnings@.len() ==> (#[trigger] p.warnings@[w]).feed_url.deep_view() == Some(feed_url),
{
    let order = lemma_positions(p, d, feed_url, params);
    let at = order.take(p.items@.len() as int);
    let v = p.warnings@.map_values(|w: crate::model::Warning| warning_view(w));
    let want = warnings_for(d.entries, at, feed_url, params);
    lemma_fallbacks(d.entries, at, params);
    assert(v == want);
    assert(v.len() == p.warnings@.len());
    reveal_strlit("UNDATED_ITEMS");
    reveal_strlit("CONTENT_EXTRACTION_FALLBACK");
    assert forall|w: int| 0 <= w < p.warnings@.len() implies (#[trigger] p.warnings@[w]).feed_url.deep_view()
        == Some(feed_url) && p.warnings@[w].code@ == want[w].1 by {
        assert(v[w] == warning_view(p.warnings@[w]));
    }
    let undated = at.len() > 0 && forall|k: int|
        0 <= k < at.len() ==> crate::parse::is_undated(d.entries[#[trigger] at[k]]);
    let n = crate::parse::fallbacks(d.entries, at, params);
    if undated {
        let w = if n > 0 {
            1int
        } else {
            0int
        };
        assert(want[w].1 == "UNDATED_ITEMS"@);
        assert(p.warnings@[w].code@ == "UNDATED_ITEMS"@);
    }
    if n > 0 {
        assert(p.warnings@[0].code@ == "CONTENT_EXTRACTION_FALLBACK"@);
    }
    at
}

proof fn lemma_fallbacks(entries: Seq<EntryView>, at: Seq<int>, params: FetchParams)
    ensures
        crate::parse::fallbacks(entries, at, params) > 0 <==> params.content_format != ContentFormat::Omit
            && exists|k: int|
            0 <= k < at.len() && crate::parse::content_fell_back(
                entries[#[trigger] at[k]],
                params.content_format,
            ),
    decreases at.len(),
{
    if at.len() > 0 {
        let r = at.drop_last();
        lemma_fallbacks(entries, r, params);
        let fell = |x: int| crate::parse::content_fell_back(entries[x], params.content_format);
        if exists|k: int| 0 <= k < r.len() && fell(#[trigger] r[k]) {
            let k = choose|k: int| 0 <= k < r.len() && fell(#[trigger] r[k]);
            assert(at[k] == r[k]);
        }
        if exists|k: int| 0 <= k < at.len() && fell(#[trigger] at[k]) {
            let k = choose|k: int| 0 <= k < at.len() && fell(#[trigger] at[k]);
            if k < r.len() {
                assert(r[k] == at[k]);
                assert(fell(r[k]));
            }
        }
        assert(at[at.len() - 1] == at.last());
    }
}

} // verus!
