//! The JSON shape of the output types.

use vstd::prelude::*;
use vstd::string::*;

use crate::json::{
    json_opt_number, json_opt_size, json_opt_text, json_text_list, lemma_arr_elements,
    lemma_obj_members, put, Json,
};
use crate::model::{
    AppliedFilters, ContentFormat, DiscoverOutput, DiscoveredFeed, DuplicateGroup, DuplicateKeyKind,
    Enclosure, ErrorObj, FeedResult, FeedStatus, FetchOutput, IdSource, Item, TruncationInfo,
    Warning,
};

verus! {

/// A status's spelling.
pub open spec fn status_text(s: FeedStatus) -> Seq<char> {
    match s {
        FeedStatus::Fresh => "ok"@,
        FeedStatus::NotModified => "not_modified"@,
        FeedStatus::Stale => "stale"@,
        FeedStatus::Error => "error"@,
    }
}

/// A status's spelling.
pub fn status_name(s: FeedStatus) -> (r: &'static str)
    ensures
        r@ == status_text(s),
{
    match s {
        FeedStatus::Fresh => "ok",
        FeedStatus::NotModified => "not_modified",
        FeedStatus::Stale => "stale",
        FeedStatus::Error => "error",
    }
}

/// A content format's spelling.
pub open spec fn format_text(f: ContentFormat) -> Seq<char> {
    match f {
        ContentFormat::Markdown => "markdown"@,
        ContentFormat::Text => "text"@,
        ContentFormat::Html => "html"@,
        ContentFormat::Omit => "none"@,
    }
}

/// A content format's spelling.
pub fn format_name(f: ContentFormat) -> (r: &'static str)
    ensures
        r@ == format_text(f),
{
    match f {
        ContentFormat::Markdown => "markdown",
        ContentFormat::Text => "text",
        ContentFormat::Html => "html",
        ContentFormat::Omit => "none",
    }
}

/// An id source's spelling.
pub open spec fn source_text(s: IdSource) -> Seq<char> {
    match s {
        IdSource::Link => "link"@,
        IdSource::Guid => "guid"@,
        IdSource::Hash => "hash"@,
    }
}

fn source_name(s: IdSource) -> (r: &'static str)
    ensures
        r@ == source_text(s),
{
    match s {
        IdSource::Link => "link",
        IdSource::Guid => "guid",
        IdSource::Hash => "hash",
    }
}

/// A duplicate key kind's spelling.
pub open spec fn kind_text(k: DuplicateKeyKind) -> Seq<char> {
    match k {
        DuplicateKeyKind::Guid => "guid"@,
        DuplicateKeyKind::Url => "url"@,
        DuplicateKeyKind::ContentHash => "content_hash"@,
    }
}

fn kind_name(k: DuplicateKeyKind) -> (r: &'static str)
    ensures
        r@ == kind_text(k),
{
    match k {
        DuplicateKeyKind::Guid => "guid",
        DuplicateKeyKind::Url => "url",
        DuplicateKeyKind::ContentHash => "content_hash",
    }
}

/// A member that holds a text.
pub open spec fn text_member(name: Seq<char>, s: Seq<char>) -> (Seq<char>, crate::json::JsonView) {
    (name, crate::json::JsonView::Str(s))
}

/// A member that holds a text or `null`.
pub open spec fn opt_member(name: Seq<char>, s: Option<String>) -> (
    Seq<char>,
    crate::json::JsonView,
) {
    (name, crate::json::text_or_null(s.deep_view()))
}

/// A member that holds a number.
pub open spec fn number_member(name: Seq<char>, n: int) -> (Seq<char>, crate::json::JsonView) {
    (name, crate::json::JsonView::Int(n))
}

/// A member that holds a truth value.
pub open spec fn flag_member(name: Seq<char>, b: bool) -> (Seq<char>, crate::json::JsonView) {
    (name, crate::json::JsonView::Bool(b))
}

/// A list of values.
pub open spec fn list<T>(v: Seq<T>, f: spec_fn(T) -> crate::json::JsonView) -> crate::json::JsonView {
    crate::json::JsonView::Arr(v.map_values(f))
}

/// An enclosure's JSON.
pub open spec fn enclosure_json(e: Enclosure) -> crate::json::JsonView {
    crate::json::JsonView::Obj(
        seq![
            text_member("url"@, e.url@),
            opt_member("mime"@, e.mime),
            ("length"@, crate::json::number_or_null(e.length)),
        ],
    )
}

/// An item's members.
pub open spec fn item_members(i: Item) -> Seq<(Seq<char>, crate::json::JsonView)> {
    seq![
        text_member("id"@, i.id@),
        text_member("id_source"@, source_text(i.id_source)),
        text_member("feed_url"@, i.feed_url@),
        opt_member("title"@, i.title),
        opt_member("url"@, i.url),
        ("authors"@, crate::json::text_list(i.authors.deep_view())),
        opt_member("published"@, i.published),
        opt_member("updated"@, i.updated),
        opt_member("summary"@, i.summary),
        opt_member("content"@, i.content),
        text_member("content_format"@, format_text(i.content_format)),
        number_member("content_tokens_est"@, i.content_tokens_est as int),
        flag_member("content_truncated"@, i.content_truncated),
        opt_member("content_hash"@, i.content_hash),
        ("categories"@, crate::json::text_list(i.categories.deep_view())),
        ("enclosures"@, list(i.enclosures@, |e: Enclosure| enclosure_json(e))),
        opt_member("guid"@, i.guid),
    ]
}

/// An item's JSON.
pub open spec fn item_json(i: Item) -> crate::json::JsonView {
    crate::json::JsonView::Obj(item_members(i))
}

/// An error's members.
pub open spec fn error_members(e: ErrorObj) -> Seq<(Seq<char>, crate::json::JsonView)> {
    seq![
        opt_member("feed_url"@, e.feed_url),
        text_member("code"@, e.code@),
        text_member("message"@, e.message@),
        ("details"@, e.details@),
    ]
}

/// An error's JSON.
pub open spec fn error_json(e: ErrorObj) -> crate::json::JsonView {
    crate::json::JsonView::Obj(error_members(e))
}

/// A warning's JSON.
pub open spec fn warning_json(w: Warning) -> crate::json::JsonView {
    crate::json::JsonView::Obj(
        seq![
            opt_member("feed_url"@, w.feed_url),
            text_member("code"@, w.code@),
            text_member("message"@, w.message@),
        ],
    )
}

/// A truncation marker's JSON.
pub open spec fn truncation_json(t: TruncationInfo) -> crate::json::JsonView {
    crate::json::JsonView::Obj(
        seq![
            ("applied_limit"@, crate::json::size_or_null(t.applied_limit)),
            number_member("items_content_truncated"@, t.items_content_truncated as int),
            number_member("items_omitted"@, t.items_omitted as int),
            number_member("feeds_omitted"@, t.feeds_omitted as int),
            opt_member("next_cursor"@, t.next_cursor),
            ("estimated_tokens"@, crate::json::size_or_null(t.estimated_tokens)),
            opt_member("suggestion"@, t.suggestion),
        ],
    )
}

/// A filter report's JSON.
pub open spec fn filters_json(f: AppliedFilters) -> crate::json::JsonView {
    crate::json::JsonView::Obj(
        seq![
            opt_member("since"@, f.since),
            opt_member("query"@, f.query),
            number_member("items_filtered_out"@, f.items_filtered_out as int),
        ],
    )
}

/// A duplicate group's JSON.
pub open spec fn group_json(g: DuplicateGroup) -> crate::json::JsonView {
    crate::json::JsonView::Obj(
        seq![
            text_member("key"@, g.key@),
            text_member("key_kind"@, kind_text(g.key_kind)),
            ("item_ids"@, crate::json::text_list(g.item_ids.deep_view())),
            ("feed_urls"@, crate::json::text_list(g.feed_urls.deep_view())),
        ],
    )
}

/// The JSON of a feed result, were these its items and counts.
pub open spec fn feed_json_with(f: FeedResult, items: Seq<Item>, count: int, tokens: int) -> crate::json::JsonView {
    crate::json::JsonView::Obj(
        seq![
            text_member("feed_url"@, f.feed_url@),
            text_member("status"@, status_text(f.status)),
            flag_member("from_cache"@, f.from_cache),
            opt_member("title"@, f.title),
            opt_member("site_url"@, f.site_url),
            opt_member("updated"@, f.updated),
            number_member("item_count"@, count),
            number_member("content_tokens_est_total"@, tokens),
            ("items"@, list(items, |i: Item| item_json(i))),
            (
                "error"@,
                match f.error {
                    Some(e) => error_json(e),
                    None => crate::json::JsonView::Null,
                },
            ),
            opt_member("cached_at"@, f.cached_at),
            ("cache_age_seconds"@, crate::json::number_or_null(f.cache_age_seconds)),
        ],
    )
}

/// A feed result's JSON.
pub open spec fn feed_json(f: FeedResult) -> crate::json::JsonView {
    feed_json_with(f, f.items@, f.item_count as int, f.content_tokens_est_total as int)
}

/// The JSON of a truncation marker, or `null`.
pub fn truncation_or_null(t: &Option<TruncationInfo>) -> (r: Json)
    ensures
        r@ == (match *t {
            Some(x) => truncation_json(x),
            None => crate::json::JsonView::Null,
        }),
{
    match t {
        Some(x) => truncation_value(x),
        None => Json::Null,
    }
}

/// The JSON of a fetch output, were these its feeds and totals.
pub open spec fn output_json_with(
    o: FetchOutput,
    feeds: Seq<crate::json::JsonView>,
    total_items: int,
    total_tokens: int,
) -> crate::json::JsonView {
    crate::json::JsonView::Obj(
        seq![
            text_member("schema_version"@, o.schema_version@),
            text_member("fetched_at"@, o.fetched_at@),
            number_member("total_items"@, total_items),
            number_member("total_content_tokens_est"@, total_tokens),
            ("feeds"@, crate::json::JsonView::Arr(feeds)),
            ("errors"@, list(o.errors@, |e: ErrorObj| error_json(e))),
            ("warnings"@, list(o.warnings@, |w: Warning| warning_json(w))),
            (
                "truncation"@,
                match o.truncation {
                    Some(t) => truncation_json(t),
                    None => crate::json::JsonView::Null,
                },
            ),
            (
                "applied_filters"@,
                match o.applied_filters {
                    Some(f) => filters_json(f),
                    None => crate::json::JsonView::Null,
                },
            ),
            ("duplicates"@, list(o.duplicates@, |g: DuplicateGroup| group_json(g))),
        ],
    )
}

/// A fetch output's JSON.
pub open spec fn output_json(o: FetchOutput) -> crate::json::JsonView {
    output_json_with(
        o,
        o.feeds@.map_values(|f: FeedResult| feed_json(f)),
        o.total_items as int,
        o.total_content_tokens_est as int,
    )
}

/// A discovered feed's JSON.
pub open spec fn discovered_json(f: DiscoveredFeed) -> crate::json::JsonView {
    crate::json::JsonView::Obj(
        seq![
            text_member("url"@, f.url@),
            text_member("feed_type"@, f.feed_type@),
            opt_member("title"@, f.title),
        ],
    )
}

/// A discovery's JSON.
pub open spec fn discovery_json(d: DiscoverOutput) -> crate::json::JsonView {
    crate::json::JsonView::Obj(
        seq![
            text_member("schema_version"@, d.schema_version@),
            text_member("site_url"@, d.site_url@),
            ("feeds"@, list(d.feeds@, |f: DiscoveredFeed| discovered_json(f))),
        ],
    )
}

fn new_members() -> (r: Vec<(String, Json)>)
    ensures
        crate::json::members(r@) == Seq::<(Seq<char>, crate::json::JsonView)>::empty(),
{
    let r: Vec<(String, Json)> = Vec::new();
    assert(crate::json::members(r@) =~= Seq::empty());
    r
}

fn text(s: &str) -> (r: Json)
    ensures
        r@ == crate::json::JsonView::Str(s@),
{
    Json::Str(s.to_owned())
}

/// An enclosure's JSON.
pub fn enclosure_value(e: &Enclosure) -> (r: Json)
    ensures
        r@ == enclosure_json(*e),
{
    broadcast use lemma_obj_members;

    let mut m = new_members();
    put(&mut m, "url", text(e.url.as_str()));
    put(&mut m, "mime", json_opt_text(&e.mime));
    put(&mut m, "length", json_opt_number(e.length));
    assert(crate::json::members(m@) =~= enclosure_json(*e)->Obj_0);
    Json::Obj(m)
}

fn enclosure_values(v: &Vec<Enclosure>) -> (r: Json)
    ensures
        r@ == list(v@, |e: Enclosure| enclosure_json(e)),
{
    broadcast use lemma_arr_elements;

    let mut out: Vec<Json> = Vec::new();
    let mut i: usize = 0;
    while i < v.len()
        invariant
            i <= v@.len(),
            out@.len() == i,
            forall|k: int| 0 <= k < i ==> #[trigger] out@[k]@ == enclosure_json(v@[k]),
        decreases v@.len() - i,
    {
        out.push(enclosure_value(&v[i]));
        i = i + 1;
    }
    assert(crate::json::elements(out@) =~= v@.map_values(|e: Enclosure| enclosure_json(e)));
    Json::Arr(out)
}

/// An item's members.
pub fn item_fields(i: &Item) -> (r: Vec<(String, Json)>)
    ensures
        crate::json::members(r@) == item_members(*i),
{
    let mut m = new_members();
    put(&mut m, "id", text(i.id.as_str()));
    put(&mut m, "id_source", text(source_name(i.id_source)));
    put(&mut m, "feed_url", text(i.feed_url.as_str()));
    put(&mut m, "title", json_opt_text(&i.title));
    put(&mut m, "url", json_opt_text(&i.url));
    put(&mut m, "authors", json_text_list(&i.authors));
    put(&mut m, "published", json_opt_text(&i.published));
    put(&mut m, "updated", json_opt_text(&i.updated));
    put(&mut m, "summary", json_opt_text(&i.summary));
    put(&mut m, "content", json_opt_text(&i.content));
    put(&mut m, "content_format", text(format_name(i.content_format)));
    put(&mut m, "content_tokens_est", Json::UInt(i.content_tokens_est as u64));
    put(&mut m, "content_truncated", Json::Bool(i.content_truncated));
    put(&mut m, "content_hash", json_opt_text(&i.content_hash));
    put(&mut m, "categories", json_text_list(&i.categories));
    put(&mut m, "enclosures", enclosure_values(&i.enclosures));
    put(&mut m, "guid", json_opt_text(&i.guid));
    assert(crate::json::members(m@) =~= item_members(*i));
    m
}

/// An item's JSON.
pub fn item_value(i: &Item) -> (r: Json)
    ensures
        r@ == item_json(*i),
{
    broadcast use lemma_obj_members;

    Json::Obj(item_fields(i))
}

fn item_values(v: &Vec<Item>) -> (r: Json)
    ensures
        r@ == list(v@, |i: Item| item_json(i)),
{
    broadcast use lemma_arr_elements;

    let mut out: Vec<Json> = Vec::new();
    let mut i: usize = 0;
    while i < v.len()
        invariant
            i <= v@.len(),
            out@.len() == i,
            forall|k: int| 0 <= k < i ==> #[trigger] out@[k]@ == item_json(v@[k]),
        decreases v@.len() - i,
    {
        out.push(item_value(&v[i]));
        i = i + 1;
    }
    assert(crate::json::elements(out@) =~= v@.map_values(|i: Item| item_json(i)));
    Json::Arr(out)
}

/// An error's members.
pub fn error_fields(e: &ErrorObj) -> (r: Vec<(String, Json)>)
    ensures
        crate::json::members(r@) == error_members(*e),
{
    let mut m = new_members();
    put(&mut m, "feed_url", json_opt_text(&e.feed_url));
    put(&mut m, "code", text(e.code.as_str()));
    put(&mut m, "message", text(e.message.as_str()));
    put(&mut m, "details", e.details.copy());
    assert(crate::json::members(m@) =~= error_members(*e));
    m
}

/// An error's JSON.
pub fn error_value(e: &ErrorObj) -> (r: Json)
    ensures
        r@ == error_json(*e),
{
    broadcast use lemma_obj_members;

    Json::Obj(error_fields(e))
}

fn error_values(v: &Vec<ErrorObj>) -> (r: Json)
    ensures
        r@ == list(v@, |e: ErrorObj| error_json(e)),
{
    broadcast use lemma_arr_elements;

    let mut out: Vec<Json> = Vec::new();
    let mut i: usize = 0;
    while i < v.len()
        invariant
            i <= v@.len(),
            out@.len() == i,
            forall|k: int| 0 <= k < i ==> #[trigger] out@[k]@ == error_json(v@[k]),
        decreases v@.len() - i,
    {
        out.push(error_value(&v[i]));
        i = i + 1;
    }
    assert(crate::json::elements(out@) =~= v@.map_values(|e: ErrorObj| error_json(e)));
    Json::Arr(out)
}

/// A warning's JSON.
pub fn warning_value(w: &Warning) -> (r: Json)
    ensures
        r@ == warning_json(*w),
{
    broadcast use lemma_obj_members;

    let mut m = new_members();
    put(&mut m, "feed_url", json_opt_text(&w.feed_url));
    put(&mut m, "code", text(w.code.as_str()));
    put(&mut m, "message", text(w.message.as_str()));
    assert(crate::json::members(m@) =~= warning_json(*w)->Obj_0);
    Json::Obj(m)
}

/// Warnings' JSON.
pub fn warning_values(v: &Vec<Warning>) -> (r: Json)
    ensures
        r@ == list(v@, |w: Warning| warning_json(w)),
{
    broadcast use lemma_arr_elements;

    let mut out: Vec<Json> = Vec::new();
    let mut i: usize = 0;
    while i < v.len()
        invariant
            i <= v@.len(),
            out@.len() == i,
            forall|k: int| 0 <= k < i ==> #[trigger] out@[k]@ == warning_json(v@[k]),
        decreases v@.len() - i,
    {
        out.push(warning_value(&v[i]));
        i = i + 1;
    }
    assert(crate::json::elements(out@) =~= v@.map_values(|w: Warning| warning_json(w)));
    Json::Arr(out)
}

/// A truncation marker's JSON.
pub fn truncation_value(t: &TruncationInfo) -> (r: Json)
    ensures
        r@ == truncation_json(*t),
{
    broadcast use lemma_obj_members;

    let mut m = new_members();
    put(&mut m, "applied_limit", json_opt_size(t.applied_limit));
    put(&mut m, "items_content_truncated", Json::UInt(t.items_content_truncated as u64));
    put(&mut m, "items_omitted", Json::UInt(t.items_omitted as u64));
    put(&mut m, "feeds_omitted", Json::UInt(t.feeds_omitted as u64));
    put(&mut m, "next_cursor", json_opt_text(&t.next_cursor));
    put(&mut m, "estimated_tokens", json_opt_size(t.estimated_tokens));
    put(&mut m, "suggestion", json_opt_text(&t.suggestion));
    assert(crate::json::members(m@) =~= truncation_json(*t)->Obj_0);
    Json::Obj(m)
}

/// A filter report's JSON.
pub fn filters_value(f: &AppliedFilters) -> (r: Json)
    ensures
        r@ == filters_json(*f),
{
    broadcast use lemma_obj_members;

    let mut m = new_members();
    put(&mut m, "since", json_opt_text(&f.since));
    put(&mut m, "query", json_opt_text(&f.query));
    put(&mut m, "items_filtered_out", Json::UInt(f.items_filtered_out as u64));
    assert(crate::json::members(m@) =~= filters_json(*f)->Obj_0);
    Json::Obj(m)
}

fn group_value(g: &DuplicateGroup) -> (r: Json)
    ensures
        r@ == group_json(*g),
{
    broadcast use lemma_obj_members;

    let mut m = new_members();
    put(&mut m, "key", text(g.key.as_str()));
    put(&mut m, "key_kind", text(kind_name(g.key_kind)));
    put(&mut m, "item_ids", json_text_list(&g.item_ids));
    put(&mut m, "feed_urls", json_text_list(&g.feed_urls));
    assert(crate::json::members(m@) =~= group_json(*g)->Obj_0);
    Json::Obj(m)
}

/// Duplicate groups' JSON.
pub fn group_values(v: &Vec<DuplicateGroup>) -> (r: Json)
    ensures
        r@ == list(v@, |g: DuplicateGroup| group_json(g)),
{
    broadcast use lemma_arr_elements;

    let mut out: Vec<Json> = Vec::new();
    let mut i: usize = 0;
    while i < v.len()
        invariant
            i <= v@.len(),
            out@.len() == i,
            forall|k: int| 0 <= k < i ==> #[trigger] out@[k]@ == group_json(v@[k]),
        decreases v@.len() - i,
    {
        out.push(group_value(&v[i]));
        i = i + 1;
    }
    assert(crate::json::elements(out@) =~= v@.map_values(|g: DuplicateGroup| group_json(g)));
    Json::Arr(out)
}

/// The JSON of a feed result, were these its items and counts.
pub fn feed_value_with(f: &FeedResult, items: &Vec<Item>, count: usize, tokens: u64) -> (r: Json)
    ensures
        r@ == feed_json_with(*f, items@, count as int, tokens as int),
{
    broadcast use lemma_obj_members;

    let mut m = new_members();
    put(&mut m, "feed_url", text(f.feed_url.as_str()));
    put(&mut m, "status", text(status_name(f.status)));
    put(&mut m, "from_cache", Json::Bool(f.from_cache));
    put(&mut m, "title", json_opt_text(&f.title));
    put(&mut m, "site_url", json_opt_text(&f.site_url));
    put(&mut m, "updated", json_opt_text(&f.updated));
    put(&mut m, "item_count", Json::UInt(count as u64));
    put(&mut m, "content_tokens_est_total", Json::UInt(tokens));
    put(&mut m, "items", item_values(items));
    put(
        &mut m,
        "error",
        match &f.error {
            Some(e) => error_value(e),
            None => Json::Null,
        },
    );
    put(&mut m, "cached_at", json_opt_text(&f.cached_at));
    put(&mut m, "cache_age_seconds", json_opt_number(f.cache_age_seconds));
    assert(crate::json::members(m@) =~= feed_json_with(*f, items@, count as int, tokens as int)->Obj_0);
    Json::Obj(m)
}

/// A feed result's JSON.
pub fn feed_value(f: &FeedResult) -> (r: Json)
    ensures
        r@ == feed_json(*f),
{
    feed_value_with(f, &f.items, f.item_count, f.content_tokens_est_total)
}

/// The JSON of a fetch output, were these its feeds and totals.
pub fn output_value_with(o: &FetchOutput, feeds: Vec<Json>, total_items: usize, total_tokens: u64) -> (r:
    Json)
    ensures
        r@ == output_json_with(
            *o,
            crate::json::elements(feeds@),
            total_items as int,
            total_tokens as int,
        ),
{
    broadcast use {lemma_obj_members, lemma_arr_elements};

    let mut m = new_members();
    let ghost feed_views = crate::json::elements(feeds@);
    put(&mut m, "schema_version", text(o.schema_version.as_str()));
    put(&mut m, "fetched_at", text(o.fetched_at.as_str()));
    put(&mut m, "total_items", Json::UInt(total_items as u64));
    put(&mut m, "total_content_tokens_est", Json::UInt(total_tokens));
    put(&mut m, "feeds", Json::Arr(feeds));
    put(&mut m, "errors", error_values(&o.errors));
    put(&mut m, "warnings", warning_values(&o.warnings));
    put(
        &mut m,
        "truncation",
        truncation_or_null(&o.truncation),
    );
    put(
        &mut m,
        "applied_filters",
        match &o.applied_filters {
            Some(f) => filters_value(f),
            None => Json::Null,
        },
    );
    put(&mut m, "duplicates", group_values(&o.duplicates));
    assert(crate::json::members(m@) =~= output_json_with(
        *o,
        feed_views,
        total_items as int,
        total_tokens as int,
    )->Obj_0);
    Json::Obj(m)
}

/// A fetch output's JSON.
pub fn output_value(o: &FetchOutput) -> (r: Json)
    ensures
        r@ == output_json(*o),
{
    let mut feeds: Vec<Json> = Vec::new();
    let mut i: usize = 0;
    while i < o.feeds.len()
        invariant
            i <= o.feeds@.len(),
            feeds@.len() == i,
            forall|k: int| 0 <= k < i ==> #[trigger] feeds@[k]@ == feed_json(o.feeds@[k]),
        decreases o.feeds@.len() - i,
    {
        feeds.push(feed_value(&o.feeds[i]));
        i = i + 1;
    }
    assert(crate::json::elements(feeds@) =~= o.feeds@.map_values(|f: FeedResult| feed_json(f)));
    output_value_with(o, feeds, o.total_items, o.total_content_tokens_est)
}

/// A discovered feed's JSON.
pub fn discovered_value(f: &DiscoveredFeed) -> (r: Json)
    ensures
        r@ == discovered_json(*f),
{
    broadcast use lemma_obj_members;

    let mut m = new_members();
    put(&mut m, "url", text(f.url.as_str()));
    put(&mut m, "feed_type", text(f.feed_type.as_str()));
    put(&mut m, "title", json_opt_text(&f.title));
    assert(crate::json::members(m@) =~= discovered_json(*f)->Obj_0);
    Json::Obj(m)
}

/// A discovery's JSON.
pub fn discovery_value(d: &DiscoverOutput) -> (r: Json)
    ensures
        r@ == discovery_json(*d),
{
    broadcast use {lemma_obj_members, lemma_arr_elements};

    let mut feeds: Vec<Json> = Vec::new();
    let mut i: usize = 0;
    while i < d.feeds.len()
        invariant
            i <= d.feeds@.len(),
            feeds@.len() == i,
            forall|k: int| 0 <= k < i ==> #[trigger] feeds@[k]@ == discovered_json(d.feeds@[k]),
        decreases d.feeds@.len() - i,
    {
        feeds.push(discovered_value(&d.feeds[i]));
        i = i + 1;
    }
    assert(crate::json::elements(feeds@) =~= d.feeds@.map_values(|f: DiscoveredFeed| discovered_json(f)));
    let mut m = new_members();
    put(&mut m, "schema_version", text(d.schema_version.as_str()));
    put(&mut m, "site_url", text(d.site_url.as_str()));
    put(&mut m, "feeds", Json::Arr(feeds));
    assert(crate::json::members(m@) =~= discovery_json(*d)->Obj_0);
    Json::Obj(m)
}

/// The names of an object's members, in order.
pub open spec fn names(j: crate::json::JsonView) -> Seq<Seq<char>> {
    j->Obj_0.map_values(|m: (Seq<char>, crate::json::JsonView)| m.0)
}

/// The shape of the output is fixed: every item, feed and document has the same members in the same
/// order. What an item lacks is `null`, not left out.
pub proof fn law_the_shape_of_the_output_is_fixed(
    a: Item,
    b: Item,
    f: FeedResult,
    g: FeedResult,
    o: FetchOutput,
    p: FetchOutput,
)
    ensures
        names(item_json(a)) == names(item_json(b)),
        names(feed_json(f)) == names(feed_json(g)),
        names(output_json(o)) == names(output_json(p)),
        a.title is None ==> item_members(a)[3] == ("title"@, crate::json::JsonView::Null),
        a.url is None ==> item_members(a)[4] == ("url"@, crate::json::JsonView::Null),
        a.published is None ==> item_members(a)[6] == ("published"@, crate::json::JsonView::Null),
        a.content is None ==> item_members(a)[9] == ("content"@, crate::json::JsonView::Null),
        o.truncation is None ==> output_json(o)->Obj_0[7] == (
            "truncation"@,
            crate::json::JsonView::Null,
        ),
{
    assert(names(item_json(a)) =~= names(item_json(b)));
    assert(names(feed_json(f)) =~= names(feed_json(g)));
    assert(names(output_json(o)) =~= names(output_json(p)));
}

} // verus!
