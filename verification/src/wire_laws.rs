//! What the printed JSON promises: every field is there under its own name, and can be read back.

use vstd::prelude::*;

use crate::json::JsonView;
use crate::model::{
    AppliedFilters, ContentFormat, DiscoverOutput, DiscoveredFeed, DuplicateGroup, DuplicateKeyKind,
    Enclosure, ErrorObj, FeedResult, FeedStatus, FetchOutput, IdSource, Item, TruncationInfo, Warning,
};
use crate::wire::{
    discovered_json, discovery_json, enclosure_json, error_json, feed_json, filters_json, group_json,
    item_json, output_json, truncation_json, warning_json,
};

verus! {

/// The object has a member with this name and this value.
pub open spec fn holds(j: JsonView, name: Seq<char>, value: JsonView) -> bool {
    j is Obj && exists|k: int| 0 <= k < j->Obj_0.len() && #[trigger] j->Obj_0[k] == (name, value)
}

/// A text, or `null` where there is none.
pub open spec fn opt_text(s: Option<String>) -> JsonView {
    match s {
        Some(t) => JsonView::Str(t@),
        None => JsonView::Null,
    }
}

/// Texts, in order.
pub open spec fn texts(v: Vec<String>) -> JsonView {
    JsonView::Arr(v@.map_values(|s: String| JsonView::Str(s@)))
}

proof fn lemma_texts(v: Vec<String>)
    ensures
        crate::json::text_list(v.deep_view()) == texts(v),
{
    assert(crate::json::text_list(v.deep_view())->Arr_0 =~= texts(v)->Arr_0);
}

/// An enclosure is printed field by field, each under its own name.
pub proof fn law_the_members_of_an_enclosure(e: Enclosure)
    ensures
        enclosure_json(e)->Obj_0.len() == 3,
        holds(
            enclosure_json(e),
            "url"@,
            JsonView::Str(e.url@),
        ),
        holds(
            enclosure_json(e),
            "mime"@,
            opt_text(e.mime),
        ),
        holds(
            enclosure_json(e),
            "length"@,
            (match e.length {
                Some(n) => JsonView::Int(n as int),
                None => JsonView::Null,
            }),
        ),
{
    let m = enclosure_json(e)->Obj_0;
    assert(m[0] == ("url"@, JsonView::Str(e.url@)));
    assert(m[1] == ("mime"@, opt_text(e.mime)));
    assert(m[2] == ("length"@, (match e.length {
                Some(n) => JsonView::Int(n as int),
                None => JsonView::Null,
            })));
}

/// An item is printed field by field, each under its own name.
pub proof fn law_the_members_of_an_item(i: Item)
    ensures
        item_json(i)->Obj_0.len() == 17,
        holds(
            item_json(i),
            "id"@,
            JsonView::Str(i.id@),
        ),
        holds(
            item_json(i),
            "id_source"@,
            JsonView::Str(match i.id_source {
                IdSource::Link => "link"@,
                IdSource::Guid => "guid"@,
                IdSource::Hash => "hash"@,
            }),
        ),
        holds(
            item_json(i),
            "feed_url"@,
            JsonView::Str(i.feed_url@),
        ),
        holds(
            item_json(i),
            "title"@,
            opt_text(i.title),
        ),
        holds(
            item_json(i),
            "url"@,
            opt_text(i.url),
        ),
        holds(
            item_json(i),
            "authors"@,
            texts(i.authors),
        ),
        holds(
            item_json(i),
            "published"@,
            opt_text(i.published),
        ),
        holds(
            item_json(i),
            "updated"@,
            opt_text(i.updated),
        ),
        holds(
            item_json(i),
            "summary"@,
            opt_text(i.summary),
        ),
        holds(
            item_json(i),
            "content"@,
            opt_text(i.content),
        ),
        holds(
            item_json(i),
            "content_format"@,
            JsonView::Str(match i.content_format {
                ContentFormat::Markdown => "markdown"@,
                ContentFormat::Text => "text"@,
                ContentFormat::Html => "html"@,
                ContentFormat::Omit => "none"@,
            }),
        ),
        holds(
            item_json(i),
            "content_tokens_est"@,
            JsonView::Int(i.content_tokens_est as int),
        ),
        holds(
            item_json(i),
            "content_truncated"@,
            JsonView::Bool(i.content_truncated),
        ),
        holds(
            item_json(i),
            "content_hash"@,
            opt_text(i.content_hash),
        ),
        holds(
            item_json(i),
            "categories"@,
            texts(i.categories),
        ),
        holds(
            item_json(i),
            "enclosures"@,
            JsonView::Arr(i.enclosures@.map_values(|e: Enclosure| enclosure_json(e))),
        ),
        holds(
            item_json(i),
            "guid"@,
            opt_text(i.guid),
        ),
{
    lemma_texts(i.authors);
    lemma_texts(i.categories);
    let m = item_json(i)->Obj_0;
    assert(m[0] == ("id"@, JsonView::Str(i.id@)));
    assert(m[1] == ("id_source"@, JsonView::Str(match i.id_source {
                IdSource::Link => "link"@,
                IdSource::Guid => "guid"@,
                IdSource::Hash => "hash"@,
            })));
    assert(m[2] == ("feed_url"@, JsonView::Str(i.feed_url@)));
    assert(m[3] == ("title"@, opt_text(i.title)));
    assert(m[4] == ("url"@, opt_text(i.url)));
    assert(m[5] == ("authors"@, texts(i.authors)));
    assert(m[6] == ("published"@, opt_text(i.published)));
    assert(m[7] == ("updated"@, opt_text(i.updated)));
    assert(m[8] == ("summary"@, opt_text(i.summary)));
    assert(m[9] == ("content"@, opt_text(i.content)));
    assert(m[10] == ("content_format"@, JsonView::Str(match i.content_format {
                ContentFormat::Markdown => "markdown"@,
                ContentFormat::Text => "text"@,
                ContentFormat::Html => "html"@,
                ContentFormat::Omit => "none"@,
            })));
    assert(m[11] == ("content_tokens_est"@, JsonView::Int(i.content_tokens_est as int)));
    assert(m[12] == ("content_truncated"@, JsonView::Bool(i.content_truncated)));
    assert(m[13] == ("content_hash"@, opt_text(i.content_hash)));
    assert(m[14] == ("categories"@, texts(i.categories)));
    assert(m[15] == ("enclosures"@, JsonView::Arr(i.enclosures@.map_values(|e: Enclosure| enclosure_json(e)))));
    assert(m[16] == ("guid"@, opt_text(i.guid)));
}

/// An error is printed field by field, each under its own name.
pub proof fn law_the_members_of_an_error(e: ErrorObj)
    ensures
        error_json(e)->Obj_0.len() == 4,
        holds(
            error_json(e),
            "feed_url"@,
            opt_text(e.feed_url),
        ),
        holds(
            error_json(e),
            "code"@,
            JsonView::Str(e.code@),
        ),
        holds(
            error_json(e),
            "message"@,
            JsonView::Str(e.message@),
        ),
        holds(
            error_json(e),
            "details"@,
            e.details@,
        ),
{
    let m = error_json(e)->Obj_0;
    assert(m[0] == ("feed_url"@, opt_text(e.feed_url)));
    assert(m[1] == ("code"@, JsonView::Str(e.code@)));
    assert(m[2] == ("message"@, JsonView::Str(e.message@)));
    assert(m[3] == ("details"@, e.details@));
}

/// A warning is printed field by field, each under its own name.
pub proof fn law_the_members_of_a_warning(w: Warning)
    ensures
        warning_json(w)->Obj_0.len() == 3,
        holds(
            warning_json(w),
            "feed_url"@,
            opt_text(w.feed_url),
        ),
        holds(
            warning_json(w),
            "code"@,
            JsonView::Str(w.code@),
        ),
        holds(
            warning_json(w),
            "message"@,
            JsonView::Str(w.message@),
        ),
{
    let m = warning_json(w)->Obj_0;
    assert(m[0] == ("feed_url"@, opt_text(w.feed_url)));
    assert(m[1] == ("code"@, JsonView::Str(w.code@)));
    assert(m[2] == ("message"@, JsonView::Str(w.message@)));
}

/// A truncation marker is printed field by field, each under its own name.
pub proof fn law_the_members_of_a_truncation_marker(t: TruncationInfo)
    ensures
        truncation_json(t)->Obj_0.len() == 7,
        holds(
            truncation_json(t),
            "applied_limit"@,
            (match t.applied_limit {
                Some(n) => JsonView::Int(n as int),
                None => JsonView::Null,
            }),
        ),
        holds(
            truncation_json(t),
            "items_content_truncated"@,
            JsonView::Int(t.items_content_truncated as int),
        ),
        holds(
            truncation_json(t),
            "items_omitted"@,
            JsonView::Int(t.items_omitted as int),
        ),
        holds(
            truncation_json(t),
            "feeds_omitted"@,
            JsonView::Int(t.feeds_omitted as int),
        ),
        holds(
            truncation_json(t),
            "next_cursor"@,
            opt_text(t.next_cursor),
        ),
        holds(
            truncation_json(t),
            "estimated_tokens"@,
            (match t.estimated_tokens {
                Some(n) => JsonView::Int(n as int),
                None => JsonView::Null,
            }),
        ),
        holds(
            truncation_json(t),
            "suggestion"@,
            opt_text(t.suggestion),
        ),
{
    let m = truncation_json(t)->Obj_0;
    assert(m[0] == ("applied_limit"@, (match t.applied_limit {
                Some(n) => JsonView::Int(n as int),
                None => JsonView::Null,
            })));
    assert(m[1] == ("items_content_truncated"@, JsonView::Int(t.items_content_truncated as int)));
    assert(m[2] == ("items_omitted"@, JsonView::Int(t.items_omitted as int)));
    assert(m[3] == ("feeds_omitted"@, JsonView::Int(t.feeds_omitted as int)));
    assert(m[4] == ("next_cursor"@, opt_text(t.next_cursor)));
    assert(m[5] == ("estimated_tokens"@, (match t.estimated_tokens {
                Some(n) => JsonView::Int(n as int),
                None => JsonView::Null,
            })));
    assert(m[6] == ("suggestion"@, opt_text(t.suggestion)));
}

/// A filter report is printed field by field, each under its own name.
pub proof fn law_the_members_of_a_filter_report(f: AppliedFilters)
    ensures
        filters_json(f)->Obj_0.len() == 3,
        holds(
            filters_json(f),
            "since"@,
            opt_text(f.since),
        ),
        holds(
            filters_json(f),
            "query"@,
            opt_text(f.query),
        ),
        holds(
            filters_json(f),
            "items_filtered_out"@,
            JsonView::Int(f.items_filtered_out as int),
        ),
{
    let m = filters_json(f)->Obj_0;
    assert(m[0] == ("since"@, opt_text(f.since)));
    assert(m[1] == ("query"@, opt_text(f.query)));
    assert(m[2] == ("items_filtered_out"@, JsonView::Int(f.items_filtered_out as int)));
}

/// A duplicate group is printed field by field, each under its own name.
pub proof fn law_the_members_of_a_duplicate_group(g: DuplicateGroup)
    ensures
        group_json(g)->Obj_0.len() == 4,
        holds(
            group_json(g),
            "key"@,
            JsonView::Str(g.key@),
        ),
        holds(
            group_json(g),
            "key_kind"@,
            JsonView::Str(match g.key_kind {
                DuplicateKeyKind::Guid => "guid"@,
                DuplicateKeyKind::Url => "url"@,
                DuplicateKeyKind::ContentHash => "content_hash"@,
            }),
        ),
        holds(
            group_json(g),
            "item_ids"@,
            texts(g.item_ids),
        ),
        holds(
            group_json(g),
            "feed_urls"@,
            texts(g.feed_urls),
        ),
{
    lemma_texts(g.item_ids);
    lemma_texts(g.feed_urls);
    let m = group_json(g)->Obj_0;
    assert(m[0] == ("key"@, JsonView::Str(g.key@)));
    assert(m[1] == ("key_kind"@, JsonView::Str(match g.key_kind {
                DuplicateKeyKind::Guid => "guid"@,
                DuplicateKeyKind::Url => "url"@,
                DuplicateKeyKind::ContentHash => "content_hash"@,
            })));
    assert(m[2] == ("item_ids"@, texts(g.item_ids)));
    assert(m[3] == ("feed_urls"@, texts(g.feed_urls)));
}

/// A feed result is printed field by field, each under its own name.
pub proof fn law_the_members_of_a_feed_result(f: FeedResult)
    ensures
        feed_json(f)->Obj_0.len() == 12,
        holds(
            feed_json(f),
            "feed_url"@,
            JsonView::Str(f.feed_url@),
        ),
        holds(
            feed_json(f),
            "status"@,
            JsonView::Str(match f.status {
                FeedStatus::Fresh => "ok"@,
                FeedStatus::NotModified => "not_modified"@,
                FeedStatus::Stale => "stale"@,
                FeedStatus::Error => "error"@,
            }),
        ),
        holds(
            feed_json(f),
            "from_cache"@,
            JsonView::Bool(f.from_cache),
        ),
        holds(
            feed_json(f),
            "title"@,
            opt_text(f.title),
        ),
        holds(
            feed_json(f),
            "site_url"@,
            opt_text(f.site_url),
        ),
        holds(
            feed_json(f),
            "updated"@,
            opt_text(f.updated),
        ),
        holds(
            feed_json(f),
            "item_count"@,
            JsonView::Int(f.item_count as int),
        ),
        holds(
            feed_json(f),
            "content_tokens_est_total"@,
            JsonView::Int(f.content_tokens_est_total as int),
        ),
        holds(
            feed_json(f),
            "items"@,
            JsonView::Arr(f.items@.map_values(|i: Item| item_json(i))),
        ),
        holds(
            feed_json(f),
            "error"@,
            (match f.error {
                Some(e) => error_json(e),
                None => JsonView::Null,
            }),
        ),
        holds(
            feed_json(f),
            "cached_at"@,
            opt_text(f.cached_at),
        ),
        holds(
            feed_json(f),
            "cache_age_seconds"@,
            (match f.cache_age_seconds {
                Some(n) => JsonView::Int(n as int),
                None => JsonView::Null,
            }),
        ),
{
    let m = feed_json(f)->Obj_0;
    assert(m[0] == ("feed_url"@, JsonView::Str(f.feed_url@)));
    assert(m[1] == ("status"@, JsonView::Str(match f.status {
                FeedStatus::Fresh => "ok"@,
                FeedStatus::NotModified => "not_modified"@,
                FeedStatus::Stale => "stale"@,
                FeedStatus::Error => "error"@,
            })));
    assert(m[2] == ("from_cache"@, JsonView::Bool(f.from_cache)));
    assert(m[3] == ("title"@, opt_text(f.title)));
    assert(m[4] == ("site_url"@, opt_text(f.site_url)));
    assert(m[5] == ("updated"@, opt_text(f.updated)));
    assert(m[6] == ("item_count"@, JsonView::Int(f.item_count as int)));
    assert(m[7] == ("content_tokens_est_total"@, JsonView::Int(f.content_tokens_est_total as int)));
    assert(m[8] == ("items"@, JsonView::Arr(f.items@.map_values(|i: Item| item_json(i)))));
    assert(m[9] == ("error"@, (match f.error {
                Some(e) => error_json(e),
                None => JsonView::Null,
            })));
    assert(m[10] == ("cached_at"@, opt_text(f.cached_at)));
    assert(m[11] == ("cache_age_seconds"@, (match f.cache_age_seconds {
                Some(n) => JsonView::Int(n as int),
                None => JsonView::Null,
            })));
}

/// A fetch output is printed field by field, each under its own name.
pub proof fn law_the_members_of_a_fetch_output(o: FetchOutput)
    ensures
        output_json(o)->Obj_0.len() == 10,
        holds(
            output_json(o),
            "schema_version"@,
            JsonView::Str(o.schema_version@),
        ),
        holds(
            output_json(o),
            "fetched_at"@,
            JsonView::Str(o.fetched_at@),
        ),
        holds(
            output_json(o),
            "total_items"@,
            JsonView::Int(o.total_items as int),
        ),
        holds(
            output_json(o),
            "total_content_tokens_est"@,
            JsonView::Int(o.total_content_tokens_est as int),
        ),
        holds(
            output_json(o),
            "feeds"@,
            JsonView::Arr(o.feeds@.map_values(|f: FeedResult| feed_json(f))),
        ),
        holds(
            output_json(o),
            "errors"@,
            JsonView::Arr(o.errors@.map_values(|e: ErrorObj| error_json(e))),
        ),
        holds(
            output_json(o),
            "warnings"@,
            JsonView::Arr(o.warnings@.map_values(|w: Warning| warning_json(w))),
        ),
        holds(
            output_json(o),
            "truncation"@,
            (match o.truncation {
                Some(t) => truncation_json(t),
                None => JsonView::Null,
            }),
        ),
        holds(
            output_json(o),
            "applied_filters"@,
            (match o.applied_filters {
                Some(f) => filters_json(f),
                None => JsonView::Null,
            }),
        ),
        holds(
            output_json(o),
            "duplicates"@,
            JsonView::Arr(o.duplicates@.map_values(|g: DuplicateGroup| group_json(g))),
        ),
{
    let m = output_json(o)->Obj_0;
    assert(m[0] == ("schema_version"@, JsonView::Str(o.schema_version@)));
    assert(m[1] == ("fetched_at"@, JsonView::Str(o.fetched_at@)));
    assert(m[2] == ("total_items"@, JsonView::Int(o.total_items as int)));
    assert(m[3] == ("total_content_tokens_est"@, JsonView::Int(o.total_content_tokens_est as int)));
    assert(m[4] == ("feeds"@, JsonView::Arr(o.feeds@.map_values(|f: FeedResult| feed_json(f)))));
    assert(m[5] == ("errors"@, JsonView::Arr(o.errors@.map_values(|e: ErrorObj| error_json(e)))));
    assert(m[6] == ("warnings"@, JsonView::Arr(o.warnings@.map_values(|w: Warning| warning_json(w)))));
    assert(m[7] == ("truncation"@, (match o.truncation {
                Some(t) => truncation_json(t),
                None => JsonView::Null,
            })));
    assert(m[8] == ("applied_filters"@, (match o.applied_filters {
                Some(f) => filters_json(f),
                None => JsonView::Null,
            })));
    assert(m[9] == ("duplicates"@, JsonView::Arr(o.duplicates@.map_values(|g: DuplicateGroup| group_json(g)))));
}

/// A discovered feed is printed field by field, each under its own name.
pub proof fn law_the_members_of_a_discovered_feed(f: DiscoveredFeed)
    ensures
        discovered_json(f)->Obj_0.len() == 3,
        holds(
            discovered_json(f),
            "url"@,
            JsonView::Str(f.url@),
        ),
        holds(
            discovered_json(f),
            "feed_type"@,
            JsonView::Str(f.feed_type@),
        ),
        holds(
            discovered_json(f),
            "title"@,
            opt_text(f.title),
        ),
{
    let m = discovered_json(f)->Obj_0;
    assert(m[0] == ("url"@, JsonView::Str(f.url@)));
    assert(m[1] == ("feed_type"@, JsonView::Str(f.feed_type@)));
    assert(m[2] == ("title"@, opt_text(f.title)));
}

/// A discovery is printed field by field, each under its own name.
pub proof fn law_the_members_of_a_discovery(d: DiscoverOutput)
    ensures
        discovery_json(d)->Obj_0.len() == 3,
        holds(
            discovery_json(d),
            "schema_version"@,
            JsonView::Str(d.schema_version@),
        ),
        holds(
            discovery_json(d),
            "site_url"@,
            JsonView::Str(d.site_url@),
        ),
        holds(
            discovery_json(d),
            "feeds"@,
            JsonView::Arr(d.feeds@.map_values(|f: DiscoveredFeed| discovered_json(f))),
        ),
{
    let m = discovery_json(d)->Obj_0;
    assert(m[0] == ("schema_version"@, JsonView::Str(d.schema_version@)));
    assert(m[1] == ("site_url"@, JsonView::Str(d.site_url@)));
    assert(m[2] == ("feeds"@, JsonView::Arr(d.feeds@.map_values(|f: DiscoveredFeed| discovered_json(f)))));
}

proof fn lemma_same_texts(a: Vec<String>, b: Vec<String>)
    requires
        texts(a) == texts(b),
    ensures
        a.deep_view() == b.deep_view(),
{
    let x = texts(a)->Arr_0;
    let y = texts(b)->Arr_0;
    assert(a@.len() == x.len() && b@.len() == y.len());
    assert forall|k: int| 0 <= k < a@.len() implies a.deep_view()[k] == b.deep_view()[k] by {
        assert(x[k] == JsonView::Str(a@[k]@));
        assert(y[k] == JsonView::Str(b@[k]@));
    }
    assert(a.deep_view() =~= b.deep_view());
}

proof fn lemma_same_enclosure(a: Enclosure, b: Enclosure)
    requires
        enclosure_json(a) == enclosure_json(b),
    ensures
        a.url@ == b.url@,
        a.mime.deep_view() == b.mime.deep_view(),
        a.length == b.length,
{
    let x = enclosure_json(a)->Obj_0;
    let y = enclosure_json(b)->Obj_0;
    assert(x[0] == y[0] && x[1] == y[1] && x[2] == y[2]);
}

/// The printed item determines the item: two items that print alike are alike in every field.
pub proof fn law_a_printed_item_determines_the_item(a: Item, b: Item)
    requires
        item_json(a) == item_json(b),
    ensures
        a.id@ == b.id@,
        a.id_source == b.id_source,
        a.feed_url@ == b.feed_url@,
        a.title.deep_view() == b.title.deep_view(),
        a.url.deep_view() == b.url.deep_view(),
        a.authors.deep_view() == b.authors.deep_view(),
        a.published.deep_view() == b.published.deep_view(),
        a.updated.deep_view() == b.updated.deep_view(),
        a.summary.deep_view() == b.summary.deep_view(),
        a.content.deep_view() == b.content.deep_view(),
        a.content_format == b.content_format,
        a.content_tokens_est == b.content_tokens_est,
        a.content_truncated == b.content_truncated,
        a.content_hash.deep_view() == b.content_hash.deep_view(),
        a.categories.deep_view() == b.categories.deep_view(),
        a.enclosures@.len() == b.enclosures@.len(),
        forall|k: int|
            0 <= k < a.enclosures@.len() ==> (#[trigger] a.enclosures@[k]).url@ == b.enclosures@[k].url@
                && a.enclosures@[k].mime.deep_view() == b.enclosures@[k].mime.deep_view()
                && a.enclosures@[k].length == b.enclosures@[k].length,
        a.guid.deep_view() == b.guid.deep_view(),
{
    let x = item_json(a)->Obj_0;
    let y = item_json(b)->Obj_0;
    assert(x =~= y);
    assert(x[0] == y[0] && x[1] == y[1] && x[2] == y[2] && x[3] == y[3] && x[4] == y[4] && x[5] == y[5]);
    assert(x[6] == y[6] && x[7] == y[7] && x[8] == y[8] && x[9] == y[9] && x[10] == y[10] && x[11]
        == y[11]);
    assert(x[12] == y[12] && x[13] == y[13] && x[14] == y[14] && x[15] == y[15] && x[16] == y[16]);
    lemma_texts(a.authors);
    lemma_texts(b.authors);
    lemma_same_texts(a.authors, b.authors);
    lemma_texts(a.categories);
    lemma_texts(b.categories);
    lemma_same_texts(a.categories, b.categories);
    reveal_strlit("link");
    reveal_strlit("guid");
    reveal_strlit("hash");
    assert("link"@[0] == 'l' && "guid"@[0] == 'g' && "hash"@[0] == 'h');
    reveal_strlit("markdown");
    reveal_strlit("text");
    reveal_strlit("html");
    reveal_strlit("none");
    assert("markdown"@[0] == 'm' && "text"@[0] == 't' && "html"@[0] == 'h' && "none"@[0] == 'n');
    let u = x[15].1->Arr_0;
    let v = y[15].1->Arr_0;
    assert(u.len() == a.enclosures@.len() && v.len() == b.enclosures@.len());
    assert forall|k: int| 0 <= k < a.enclosures@.len() implies (#[trigger] a.enclosures@[k]).url@
        == b.enclosures@[k].url@ && a.enclosures@[k].mime.deep_view() == b.enclosures@[k].mime.deep_view()
        && a.enclosures@[k].length == b.enclosures@[k].length by {
        assert(u[k] == enclosure_json(a.enclosures@[k]));
        assert(v[k] == enclosure_json(b.enclosures@[k]));
        lemma_same_enclosure(a.enclosures@[k], b.enclosures@[k]);
    }
}

} // verus!
