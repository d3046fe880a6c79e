//! Feed documents, as `feed_rs` reads them, turned into items.

use vstd::prelude::*;
use vstd::string::*;

use crate::config::FetchParams;
use crate::content::{cap, estimate_tokens, extract_noting_fallback};
use crate::discover::decode_lossy;
use crate::error::RssError;
use crate::hash::hash_prefix;
use crate::identity::item_id;
use crate::link::resolve;
use crate::markup::can_be_read;
use crate::model::{copy_opt, copy_texts, ContentFormat, Enclosure, Item, Warning};
use crate::query::Query;
use crate::text::{chars_of, number_text, same, trim};
use crate::time::{format_rfc3339, Timestamp};

verus! {

/// A link of a feed or an entry.
#[derive(Debug)]
pub struct RawLink {
    pub href: String,
    pub rel: Option<String>,
    pub media_type: Option<String>,
    pub length: Option<u64>,
}

/// A link, as mathematics.
pub struct LinkView {
    pub href: Seq<char>,
    pub rel: Option<Seq<char>>,
    pub media_type: Option<Seq<char>>,
    pub length: Option<u64>,
}

impl RawLink {
    pub open spec fn view(&self) -> LinkView {
        LinkView {
            href: self.href@,
            rel: self.rel.deep_view(),
            media_type: self.media_type.deep_view(),
            length: self.length,
        }
    }
}

/// A media file of an entry.
#[derive(Debug)]
pub struct RawMedia {
    pub url: Option<String>,
    pub mime: Option<String>,
    pub length: Option<u64>,
}

/// A media file, as mathematics.
pub struct MediaView {
    pub url: Option<Seq<char>>,
    pub mime: Option<Seq<char>>,
    pub length: Option<u64>,
}

impl RawMedia {
    pub open spec fn view(&self) -> MediaView {
        MediaView { url: self.url.deep_view(), mime: self.mime.deep_view(), length: self.length }
    }
}

/// The head of a feed document.
#[derive(Debug)]
pub struct RawHead {
    pub title: Option<String>,
    pub updated: Option<Timestamp>,
    pub links: Vec<RawLink>,
}

/// The texts of an entry.
#[derive(Debug)]
pub struct RawFields {
    pub id: String,
    pub title: Option<String>,
    pub authors: Vec<String>,
    pub categories: Vec<String>,
    pub summary: Option<String>,
    pub content: Option<String>,
}

/// An entry of a feed document.
#[derive(Debug)]
pub struct RawEntry {
    pub fields: RawFields,
    pub published: Option<Timestamp>,
    pub updated: Option<Timestamp>,
    pub links: Vec<RawLink>,
    /// Media files, in groups.
    pub media: Vec<Vec<RawMedia>>,
}

/// A feed document.
#[derive(Debug)]
pub struct RawDocument {
    pub head: RawHead,
    pub entries: Vec<RawEntry>,
}

/// An entry, as mathematics.
pub struct EntryView {
    pub id: Seq<char>,
    pub title: Option<Seq<char>>,
    pub published: Option<Timestamp>,
    pub updated: Option<Timestamp>,
    pub authors: Seq<Seq<char>>,
    pub categories: Seq<Seq<char>>,
    pub summary: Option<Seq<char>>,
    pub content: Option<Seq<char>>,
    pub links: Seq<LinkView>,
    pub media: Seq<Seq<MediaView>>,
}

/// A feed document, as mathematics.
pub struct DocumentView {
    pub title: Option<Seq<char>>,
    pub updated: Option<Timestamp>,
    pub links: Seq<LinkView>,
    pub entries: Seq<EntryView>,
}

/// Links, as mathematics.
pub open spec fn link_views(v: Seq<RawLink>) -> Seq<LinkView> {
    v.map_values(|l: RawLink| l@)
}

/// A group of media files, as mathematics.
pub open spec fn group_view(v: Seq<RawMedia>) -> Seq<MediaView> {
    v.map_values(|m: RawMedia| m@)
}

/// Groups of media files, as mathematics.
pub open spec fn media_views(v: Seq<Vec<RawMedia>>) -> Seq<Seq<MediaView>> {
    v.map_values(|g: Vec<RawMedia>| group_view(g@))
}

impl RawEntry {
    pub open spec fn view(&self) -> EntryView {
        EntryView {
            id: self.fields.id@,
            title: self.fields.title.deep_view(),
            published: self.published,
            updated: self.updated,
            authors: self.fields.authors.deep_view(),
            categories: self.fields.categories.deep_view(),
            summary: self.fields.summary.deep_view(),
            content: self.fields.content.deep_view(),
            links: link_views(self.links@),
            media: media_views(self.media@),
        }
    }
}

impl RawDocument {
    pub open spec fn view(&self) -> DocumentView {
        DocumentView {
            title: self.head.title.deep_view(),
            updated: self.head.updated,
            links: link_views(self.head.links@),
            entries: self.entries@.map_values(|e: RawEntry| e@),
        }
    }
}

/// A document as `feed_rs` holds it.
#[verifier::external_type_specification]
#[verifier::external_body]
pub struct ExFeed(feed_rs::model::Feed);

/// What a `feed_rs` document holds of what is read here.
pub uninterp spec fn document_contents(f: feed_rs::model::Feed) -> DocumentView;

/// What `feed_rs` reads in some bytes when it makes no ids up, or what it says where they are no feed.
pub uninterp spec fn document_in(body: Seq<u8>) -> Result<DocumentView, Seq<char>>;

/// The id that `feed_rs` derives from a link and a title.
pub uninterp spec fn id_from_link(href: Seq<char>, title: Option<Seq<char>>) -> Seq<char>;

/// An entry with an id: the feed's, else one derived from its first link and its title. An entry with
/// neither an id nor a link has none.
pub open spec fn identified(e: EntryView) -> EntryView {
    if e.id.len() == 0 && e.links.len() > 0 {
        EntryView { id: id_from_link(e.links[0].href, e.title), ..e }
    } else {
        e
    }
}

/// What is said of a document that is kept from `feed_rs`.
pub const UNREADABLE: &'static str = "its markup nests too deeply, or a time in it cannot be read";

/// The document in some bytes, or why there is none.
pub open spec fn document_value(body: Seq<u8>) -> Result<DocumentView, Seq<char>> {
    if crate::markup::is_readable(crate::discover::lossy_text(body)) {
        match document_in(body) {
            Ok(d) => Ok(
                DocumentView { entries: d.entries.map_values(|e: EntryView| identified(e)), ..d },
            ),
            Err(t) => Err(t),
        }
    } else {
        Err(UNREADABLE@)
    }
}

/// `feed_rs::parser::Parser::parse`, with an id generator that gives an empty text: the document in
/// the bytes, in which an entry without an id keeps an empty one, or why they are no feed. It panics
/// on some times of the iTunes and media extensions, those with too many digits or with digits that
/// are not ASCII, and recurses with the elements of these extensions; its callers keep such documents
/// from it.
#[verifier::external_body]
fn read_document(body: &[u8]) -> (r: Result<feed_rs::model::Feed, String>)
    requires
        crate::markup::is_readable(crate::discover::lossy_text(body@)),
    ensures
        match (r, document_in(body@)) {
            (Ok(f), Ok(d)) => document_contents(f) == d,
            (Err(m), Err(t)) => m@ == t,
            _ => false,
        },
{
    let parser = feed_rs::parser::Builder::new().id_generator(|_, _, _| String::new()).build();
    parser.parse(body).map_err(|e| e.to_string())
}

/// `feed_rs::parser::generate_id_from_link_and_title` on an entry's first link and its title: a hash of
/// the link's address and the title's text.
#[verifier::external_body]
fn derive_id(f: &feed_rs::model::Feed, i: usize) -> (r: String)
    requires
        i < document_contents(*f).entries.len(),
        document_contents(*f).entries[i as int].links.len() > 0,
    ensures
        r@ == id_from_link(
            document_contents(*f).entries[i as int].links[0].href,
            document_contents(*f).entries[i as int].title,
        ),
{
    feed_rs::parser::generate_id_from_link_and_title(&f.entries[i].links[0], &f.entries[i].title)
}

/// The fields of `feed_rs::model::Feed` that describe the feed itself.
#[verifier::external_body]
fn head_of(f: &feed_rs::model::Feed) -> (r: RawHead)
    ensures
        r.title.deep_view() == document_contents(*f).title,
        r.updated == document_contents(*f).updated,
        link_views(r.links@) == document_contents(*f).links,
{
    RawHead {
        title: f.title.as_ref().map(|t| t.content.clone()),
        updated: f.updated.map(|d| Timestamp {
            secs: d.timestamp(),
            nanos: d.timestamp_subsec_nanos(),
        }),
        links: f.links.iter().map(|l| RawLink {
            href: l.href.clone(),
            rel: l.rel.clone(),
            media_type: l.media_type.clone(),
            length: l.length,
        }).collect(),
    }
}

/// How many entries a `feed_rs::model::Feed` has.
#[verifier::external_body]
fn entry_count(f: &feed_rs::model::Feed) -> (r: usize)
    ensures
        r == document_contents(*f).entries.len(),
{
    f.entries.len()
}

/// The fields of a `feed_rs::model::Entry` that are texts.
#[verifier::external_body]
fn fields_of(f: &feed_rs::model::Feed, i: usize) -> (r: RawFields)
    requires
        i < document_contents(*f).entries.len(),
    ensures
        r.id@ == document_contents(*f).entries[i as int].id,
        r.title.deep_view() == document_contents(*f).entries[i as int].title,
        r.authors.deep_view() == document_contents(*f).entries[i as int].authors,
        r.categories.deep_view() == document_contents(*f).entries[i as int].categories,
        r.summary.deep_view() == document_contents(*f).entries[i as int].summary,
        r.content.deep_view() == document_contents(*f).entries[i as int].content,
{
    let e = &f.entries[i];
    RawFields {
        id: e.id.clone(),
        title: e.title.as_ref().map(|t| t.content.clone()),
        authors: e.authors.iter().map(|p| p.name.clone()).collect(),
        categories: e.categories.iter().map(|c| c.term.clone()).collect(),
        summary: e.summary.as_ref().map(|t| t.content.clone()),
        content: e.content.as_ref().and_then(|c| c.body.clone()),
    }
}

/// The fields `published` and `updated` of a `feed_rs::model::Entry`.
#[verifier::external_body]
fn times_of(f: &feed_rs::model::Feed, i: usize) -> (r: (Option<Timestamp>, Option<Timestamp>))
    requires
        i < document_contents(*f).entries.len(),
    ensures
        r.0 == document_contents(*f).entries[i as int].published,
        r.1 == document_contents(*f).entries[i as int].updated,
{
    let e = &f.entries[i];
    let stamp = |d: chrono::DateTime<chrono::Utc>| Timestamp {
        secs: d.timestamp(),
        nanos: d.timestamp_subsec_nanos(),
    };
    (e.published.map(stamp), e.updated.map(stamp))
}

/// The links of a `feed_rs::model::Entry`.
#[verifier::external_body]
fn links_of(f: &feed_rs::model::Feed, i: usize) -> (r: Vec<RawLink>)
    requires
        i < document_contents(*f).entries.len(),
    ensures
        link_views(r@) == document_contents(*f).entries[i as int].links,
{
    f.entries[i].links.iter().map(|l| RawLink {
        href: l.href.clone(),
        rel: l.rel.clone(),
        media_type: l.media_type.clone(),
        length: l.length,
    }).collect()
}

/// The media files of a `feed_rs::model::Entry`, in its groups.
#[verifier::external_body]
fn media_of(f: &feed_rs::model::Feed, i: usize) -> (r: Vec<Vec<RawMedia>>)
    requires
        i < document_contents(*f).entries.len(),
    ensures
        media_views(r@) == document_contents(*f).entries[i as int].media,
{
    f.entries[i].media.iter().map(|m| m.content.iter().map(|c| RawMedia {
        url: c.url.as_ref().map(|u| u.to_string()),
        mime: c.content_type.as_ref().map(|t| t.to_string()),
        length: c.size,
    }).collect()).collect()
}

/// An entry of a `feed_rs` document, with its id.
fn entry_of(f: &feed_rs::model::Feed, i: usize) -> (r: RawEntry)
    requires
        i < document_contents(*f).entries.len(),
    ensures
        r@ == identified(document_contents(*f).entries[i as int]),
{
    let (published, updated) = times_of(f, i);
    let links = links_of(f, i);
    let mut fields = fields_of(f, i);
    if chars_of(fields.id.as_str()).len() == 0 && links.len() > 0 {
        fields.id = derive_id(f, i);
    }
    RawEntry { fields, published, updated, links, media: media_of(f, i) }
}

/// The document in the bytes, or why there is none.
pub fn parse_document(body: &[u8]) -> (r: Result<RawDocument, String>)
    ensures
        match (r, document_value(body@)) {
            (Ok(d), Ok(want)) => d@ == want,
            (Err(m), Err(t)) => m@ == t,
            _ => false,
        },
{
    if !can_be_read(decode_lossy(body).as_str()) {
        return Err(UNREADABLE.to_owned());
    }
    let f = match read_document(body) {
        Ok(f) => f,
        Err(m) => {
            return Err(m);
        },
    };
    let n: usize = entry_count(&f);
    let mut entries: Vec<RawEntry> = Vec::new();
    let mut i: usize = 0;
    while i < n
        invariant
            i <= n,
            n == document_contents(f).entries.len(),
            entries@.len() == i,
            forall|k: int| 0 <= k < i ==> #[trigger] entries@[k]@ == identified(
                document_contents(f).entries[k],
            ),
        decreases n - i,
    {
        entries.push(entry_of(&f, i));
        i = i + 1;
    }
    let d = RawDocument { head: head_of(&f), entries };
    assert(d@.entries =~= document_contents(f).entries.map_values(
        |e: EntryView| identified(e),
    ));
    Ok(d)
}

/// A parsed feed: its metadata and its items.
#[derive(Debug, Clone)]
pub struct ParsedFeed {
    pub title: Option<String>,
    pub site_url: Option<String>,
    /// When the feed was last updated, RFC-3339 UTC.
    pub updated: Option<String>,
    pub items: Vec<Item>,
    pub warnings: Vec<Warning>,
    /// How many items `since` and the query removed.
    pub items_filtered_out: usize,
}

/// The first link that is an alternate.
pub open spec fn first_alternate(links: Seq<LinkView>) -> Option<Seq<char>>
    decreases links.len(),
{
    if links.len() == 0 {
        None
    } else if links[0].rel == Some("alternate"@) {
        Some(links[0].href)
    } else {
        first_alternate(links.skip(1))
    }
}

/// The link that stands for a feed or an entry: the first alternate, else the first.
pub open spec fn main_link(links: Seq<LinkView>) -> Option<Seq<char>> {
    match first_alternate(links) {
        Some(h) => Some(h),
        None => if links.len() > 0 {
            Some(links[0].href)
        } else {
            None
        },
    }
}

/// An enclosure, as mathematics.
pub open spec fn enclosure_view(e: Enclosure) -> MediaView {
    MediaView { url: Some(e.url@), mime: e.mime.deep_view(), length: e.length }
}

/// The media files that have a URL.
pub open spec fn with_url(media: Seq<MediaView>) -> Seq<MediaView> {
    media.filter(|m: MediaView| m.url is Some)
}

/// The enclosures of media groups.
pub open spec fn media_enclosures(groups: Seq<Seq<MediaView>>) -> Seq<MediaView>
    decreases groups.len(),
{
    if groups.len() == 0 {
        Seq::empty()
    } else {
        media_enclosures(groups.drop_last()) + with_url(groups.last())
    }
}

/// A link is an enclosure.
pub open spec fn is_enclosure(l: LinkView) -> bool {
    l.rel == Some("enclosure"@) && l.href.len() > 0
}

/// What an enclosure link says of its media file.
pub open spec fn link_media(l: LinkView) -> MediaView {
    MediaView { url: Some(l.href), mime: l.media_type, length: l.length }
}

/// The enclosures among links.
pub open spec fn link_enclosures(links: Seq<LinkView>) -> Seq<MediaView> {
    links.filter(|l: LinkView| is_enclosure(l)).map_values(|l: LinkView| link_media(l))
}

/// An entry's enclosures: its media files, then its enclosure links.
pub open spec fn enclosures_of(e: EntryView) -> Seq<MediaView> {
    media_enclosures(e.media) + link_enclosures(e.links)
}

/// An instant's text, if there is one.
pub open spec fn instant_text(t: Option<Timestamp>) -> Option<Seq<char>> {
    match t {
        Some(x) => Some(crate::time::rfc3339_text(x)),
        None => None,
    }
}

/// The text where it holds more than white space.
pub open spec fn non_blank(s: Option<Seq<char>>) -> Option<Seq<char>> {
    match s {
        Some(t) => if crate::text::trimmed(t).len() > 0 {
            Some(t)
        } else {
            None
        },
        None => None,
    }
}

/// The page that an entry's content is extracted from: its content, else its summary.
pub open spec fn source_html(e: EntryView) -> Option<Seq<char>> {
    match non_blank(e.content) {
        Some(c) => Some(c),
        None => non_blank(e.summary),
    }
}

/// An entry's whole content in a format.
pub open spec fn whole_content(e: EntryView, format: ContentFormat) -> Option<Seq<char>> {
    if format == ContentFormat::Omit {
        None
    } else {
        match source_html(e) {
            Some(h) => Some(crate::content::extracted(h, format)),
            None => None,
        }
    }
}

/// Whether an entry's content is what is left of a page without its tags.
pub open spec fn content_fell_back(e: EntryView, format: ContentFormat) -> bool {
    source_html(e) matches Some(h) && crate::content::fell_back(h, format)
}

/// An entry's content as an item carries it.
pub open spec fn shown_content(e: EntryView, params: FetchParams) -> Option<Seq<char>> {
    match whole_content(e, params.content_format) {
        Some(c) => Some(crate::content::capped(c, params.max_content_chars)),
        None => None,
    }
}

/// An entry's resolved permalink.
pub open spec fn permalink(e: EntryView, feed_url: Seq<char>) -> Option<Seq<char>> {
    match main_link(e.links) {
        Some(h) => Some(crate::link::resolved(feed_url, h)),
        None => None,
    }
}

/// An entry's guid, if it has one.
pub open spec fn entry_guid(e: EntryView) -> Option<Seq<char>> {
    if e.id.len() == 0 {
        None
    } else {
        Some(e.id)
    }
}

/// The token estimate of an optional text.
pub open spec fn tokens_of(s: Option<Seq<char>>) -> nat {
    match s {
        Some(t) => {
            let n = crate::content::tokens(t.len());
            if n > u32::MAX {
                u32::MAX as nat
            } else {
                n
            }
        },
        None => 0,
    }
}

/// The item is what an entry becomes.
pub open spec fn is_item_of(item: Item, e: EntryView, feed_url: Seq<char>, params: FetchParams) -> bool {
    let key = crate::identity::item_key(
        permalink(e, feed_url),
        entry_guid(e),
        e.title,
        instant_text(e.published),
    );
    let whole = whole_content(e, params.content_format);
    &&& item.id@ == crate::identity::keyed_id(feed_url, key.0)
    &&& item.id_source == key.1
    &&& item.feed_url@ == feed_url
    &&& item.title.deep_view() == e.title
    &&& item.url.deep_view() == permalink(e, feed_url)
    &&& item.authors.deep_view() == e.authors
    &&& item.published.deep_view() == instant_text(e.published)
    &&& item.updated.deep_view() == instant_text(e.updated)
    &&& item.summary.deep_view() == e.summary
    &&& item.content.deep_view() == shown_content(e, params)
    &&& item.content_format == params.content_format
    &&& item.content_tokens_est == tokens_of(shown_content(e, params))
    &&& item.content_truncated == (whole matches Some(c) && crate::content::is_over(
        c,
        params.max_content_chars,
    ))
    &&& item.content_hash.deep_view() == (match whole {
        Some(c) => Some(crate::hash::short_hash(c)),
        None => None,
    })
    &&& item.categories.deep_view() == e.categories
    &&& item.enclosures@.map_values(|x: Enclosure| enclosure_view(x)) == enclosures_of(e)
    &&& item.guid.deep_view() == entry_guid(e)
}

fn text_is(s: &Option<String>, t: &str) -> (r: bool)
    ensures
        r == (s.deep_view() == Some(t@)),
{
    match s {
        Some(x) => same(x.as_str(), t),
        None => false,
    }
}

/// The link that stands for a feed or an entry: the first alternate, else the first.
pub fn pick_link_href(links: &Vec<RawLink>) -> (r: Option<String>)
    ensures
        r.deep_view() == main_link(link_views(links@)),
{
    let mut i: usize = 0;
    let ghost all = link_views(links@);
    assert(all.skip(0) =~= all);
    while i < links.len()
        invariant
            i <= links@.len(),
            all == link_views(links@),
            first_alternate(all) == first_alternate(all.skip(i as int)),
        decreases links@.len() - i,
    {
        assert(all.skip(i as int)[0] == links@[i as int]@);
        if text_is(&links[i].rel, "alternate") {
            return Some(links[i].href.clone());
        }
        assert(all.skip(i as int).skip(1) =~= all.skip(i + 1));
        i = i + 1;
    }
    if links.len() > 0 {
        Some(links[0].href.clone())
    } else {
        None
    }
}

proof fn lemma_filter_step<T>(s: Seq<T>, keep: spec_fn(T) -> bool, i: int)
    requires
        0 <= i < s.len(),
    ensures
        s.take(i + 1).filter(keep) == (if keep(s[i]) {
            s.take(i).filter(keep).push(s[i])
        } else {
            s.take(i).filter(keep)
        }),
{
    reveal(Seq::filter);
    assert(s.take(i + 1).drop_last() =~= s.take(i));
    assert(s.take(i + 1).last() == s[i]);
}

fn push_group(out: &mut Vec<Enclosure>, group: &Vec<RawMedia>)
    ensures
        final(out)@.map_values(|x: Enclosure| enclosure_view(x)) == old(out)@.map_values(
            |x: Enclosure| enclosure_view(x),
        ) + with_url(group_view(group@)),
{
    let ghost key = |x: Enclosure| enclosure_view(x);
    let ghost keep = |m: MediaView| m.url is Some;
    let ghost all = group_view(group@);
    let ghost start = out@.map_values(key);
    let mut i: usize = 0;
    proof {
        reveal(Seq::filter);
        assert(all.take(0).filter(keep) =~= Seq::empty());
        assert(start + Seq::<MediaView>::empty() =~= start);
    }
    while i < group.len()
        invariant
            i <= group@.len(),
            key == |x: Enclosure| enclosure_view(x),
            keep == |m: MediaView| m.url is Some,
            all == group_view(group@),
            out@.map_values(key) == start + all.take(i as int).filter(keep),
        decreases group@.len() - i,
    {
        let ghost before = out@;
        proof {
            lemma_filter_step(all, keep, i as int);
            assert(all[i as int] == group@[i as int]@);
        }
        if let Some(url) = &group[i].url {
            let e = Enclosure {
                url: url.clone(),
                mime: copy_opt(&group[i].mime),
                length: group[i].length,
            };
            out.push(e);
            assert(out@.map_values(key) =~= before.map_values(key).push(enclosure_view(e)));
            assert(out@.map_values(key) =~= start + all.take(i + 1).filter(keep));
        }
        i = i + 1;
    }
    assert(all.take(i as int) =~= all);
}

/// An entry's enclosures: its media files that have a URL, then its enclosure links.
pub fn collect_enclosures(entry: &RawEntry) -> (r: Vec<Enclosure>)
    ensures
        r@.map_values(|x: Enclosure| enclosure_view(x)) == enclosures_of(entry@),
{
    let ghost key = |x: Enclosure| enclosure_view(x);
    let mut out: Vec<Enclosure> = Vec::new();
    let ghost groups = media_views(entry.media@);
    let mut g: usize = 0;
    assert(groups.take(0) =~= Seq::empty());
    assert(out@.map_values(key) =~= Seq::empty());
    while g < entry.media.len()
        invariant
            g <= entry.media@.len(),
            key == |x: Enclosure| enclosure_view(x),
            groups == media_views(entry.media@),
            out@.map_values(key) == media_enclosures(groups.take(g as int)),
        decreases entry.media@.len() - g,
    {
        push_group(&mut out, &entry.media[g]);
        assert(groups.take(g + 1).drop_last() =~= groups.take(g as int));
        g = g + 1;
    }
    assert(groups.take(g as int) =~= groups);
    let ghost start = out@.map_values(key);
    let ghost all = link_views(entry.links@);
    let ghost keep = |l: LinkView| is_enclosure(l);
    let ghost made = |l: LinkView| link_media(l);
    let mut i: usize = 0;
    proof {
        reveal(Seq::filter);
        assert(all.take(0).filter(keep).map_values(made) =~= Seq::empty());
        assert(start + Seq::<MediaView>::empty() =~= start);
    }
    while i < entry.links.len()
        invariant
            i <= entry.links@.len(),
            key == |x: Enclosure| enclosure_view(x),
            all == link_views(entry.links@),
            keep == |l: LinkView| is_enclosure(l),
            made == |l: LinkView| link_media(l),
            out@.map_values(key) == start + all.take(i as int).filter(keep).map_values(made),
        decreases entry.links@.len() - i,
    {
        let l = &entry.links[i];
        let ghost before = out@;
        proof {
            lemma_filter_step(all, keep, i as int);
            assert(all[i as int] == l@);
        }
        if text_is(&l.rel, "enclosure") && !l.href.as_str().is_empty() {
            let e = Enclosure {
                url: l.href.clone(),
                mime: copy_opt(&l.media_type),
                length: l.length,
            };
            out.push(e);
            proof {
                let was = all.take(i as int).filter(keep);
                assert(out@.map_values(key) =~= before.map_values(key).push(enclosure_view(e)));
                assert(was.push(l@).map_values(made) =~= was.map_values(made).push(made(l@)));
                assert(out@.map_values(key) =~= start + all.take(i + 1).filter(keep).map_values(made));
            }
        }
        i = i + 1;
    }
    assert(all.take(i as int) =~= all);
    out
}

/// An instant as RFC 3339 text.
pub fn instant(t: Option<Timestamp>) -> (r: Option<String>)
    ensures
        r.deep_view() == instant_text(t),
{
    match t {
        Some(x) => Some(format_rfc3339(x)),
        None => None,
    }
}

fn as_text(s: &Option<String>) -> (r: Option<&str>)
    ensures
        crate::identity::chars(r) == s.deep_view(),
{
    match s {
        Some(t) => Some(t.as_str()),
        None => None,
    }
}

fn filled(s: &Option<String>) -> (r: Option<&str>)
    ensures
        crate::identity::chars(r) == non_blank(s.deep_view()),
{
    match s {
        Some(t) => if trim(t.as_str()).as_str().is_empty() {
            None
        } else {
            Some(t.as_str())
        },
        None => None,
    }
}

/// Turns an entry into an item; says whether its content is what is left of a page without its
/// tags.
pub fn entry_to_item(entry: &RawEntry, feed_url: &str, params: &FetchParams) -> (r: (Item, bool))
    ensures
        is_item_of(r.0, entry@, feed_url@, *params),
        r.1 == (params.content_format != ContentFormat::Omit && content_fell_back(
            entry@,
            params.content_format,
        )),
{
    let enclosures = collect_enclosures(entry);
    let url = match pick_link_href(&entry.links) {
        Some(h) => Some(resolve(feed_url, h.as_str())),
        None => None,
    };
    let fields = &entry.fields;
    let guid = if fields.id.as_str().is_empty() {
        None
    } else {
        Some(fields.id.clone())
    };
    let published = instant(entry.published);
    let updated = instant(entry.updated);
    let format = params.content_format;
    let omit = match format {
        ContentFormat::Omit => true,
        _ => false,
    };
    let source = match filled(&fields.content) {
        Some(h) => Some(h),
        None => filled(&fields.summary),
    };
    let mut content: Option<String> = None;
    let mut content_hash: Option<String> = None;
    let mut content_truncated = false;
    let mut content_tokens_est: u32 = 0;
    let mut fallback = false;
    if let Some(html) = source {
        if !omit {
            let (whole, fell) = extract_noting_fallback(html, format);
            content_hash = Some(hash_prefix(whole.as_str()));
            let (shown, cut) = cap(whole, params.max_content_chars);
            content_tokens_est = estimate_tokens(shown.as_str());
            content_truncated = cut;
            content = Some(shown);
            fallback = fell;
        }
    }
    let (id, id_source) = item_id(
        feed_url,
        as_text(&url),
        as_text(&guid),
        as_text(&fields.title),
        as_text(&published),
    );
    let item = Item {
        id,
        id_source,
        feed_url: feed_url.to_owned(),
        title: copy_opt(&fields.title),
        url,
        authors: copy_texts(&fields.authors),
        published,
        updated,
        summary: copy_opt(&fields.summary),
        content,
        content_format: format,
        content_tokens_est,
        content_truncated,
        content_hash,
        categories: copy_texts(&fields.categories),
        enclosures,
        guid,
    };
    (item, fallback)
}

/// The instant by which an entry is filtered and ordered: when it was published, else updated.
pub open spec fn sort_key(e: EntryView) -> Option<Timestamp> {
    match e.published {
        Some(t) => Some(t),
        None => e.updated,
    }
}

/// The lowercased texts of an entry's item that a query is matched against.
pub open spec fn searched(e: EntryView, params: FetchParams) -> Seq<Seq<char>> {
    lowered(e.title) + lowered(e.summary) + lowered(shown_content(e, params))
}

/// An optional text, lowercased, if it is present.
pub open spec fn lowered(s: Option<Seq<char>>) -> Seq<Seq<char>> {
    match s {
        Some(t) => seq![crate::text::lowered(t)],
        None => Seq::empty(),
    }
}

/// The entry is not known to be older than the cutoff.
pub open spec fn in_window(e: EntryView, since: Option<Timestamp>) -> bool {
    match (since, sort_key(e)) {
        (Some(s), Some(t)) => !t.before(s),
        _ => true,
    }
}

/// The entry's item satisfies the query.
pub open spec fn satisfies(e: EntryView, params: FetchParams) -> bool {
    match params.query {
        Some(q) => crate::query::accepts(
            crate::query::lowered_terms(crate::query::raw_terms(q@), false),
            crate::query::lowered_terms(crate::query::raw_terms(q@), true),
            searched(e, params),
        ),
        None => true,
    }
}

/// The filters keep the entry.
pub open spec fn kept(e: EntryView, params: FetchParams) -> bool {
    in_window(e, params.since) && satisfies(e, params)
}

/// The first instant is newer: later, or known where the second is not.
pub open spec fn newer(a: Option<Timestamp>, b: Option<Timestamp>) -> bool {
    match (a, b) {
        (Some(x), Some(y)) => y.before(x),
        (Some(_), None) => true,
        _ => false,
    }
}

/// Entry `i` comes before entry `j`: it is newer, or neither is newer and it stands first in the
/// feed.
pub open spec fn precedes(entries: Seq<EntryView>, i: int, j: int) -> bool {
    let a = sort_key(entries[i]);
    let b = sort_key(entries[j]);
    newer(a, b) || (!newer(b, a) && i < j)
}

/// The positions of the entries among the first `n` that the filters keep, newest first.
pub open spec fn is_order(
    order: Seq<int>,
    entries: Seq<EntryView>,
    params: FetchParams,
    n: int,
) -> bool {
    &&& forall|a: int|
        0 <= a < order.len() ==> 0 <= #[trigger] order[a] < n && kept(entries[order[a]], params)
    &&& forall|i: int| 0 <= i < n && kept(entries[i], params) ==> #[trigger] order.contains(i)
    &&& forall|a: int, b: int|
        0 <= a < b < order.len() ==> precedes(entries, #[trigger] order[a], #[trigger] order[b])
}

/// How many of some entries a limit lets through.
pub open spec fn limited(n: nat, limit: Option<usize>) -> nat {
    match limit {
        Some(l) => if n > l {
            l as nat
        } else {
            n
        },
        None => n,
    }
}

/// An entry has no date.
pub open spec fn is_undated(e: EntryView) -> bool {
    e.published is None && e.updated is None
}

/// How many of the entries at these positions had their tags cut out.
pub open spec fn fallbacks(entries: Seq<EntryView>, order: Seq<int>, params: FetchParams) -> nat
    decreases order.len(),
{
    if order.len() == 0 {
        0
    } else {
        fallbacks(entries, order.drop_last(), params) + (if params.content_format
            != ContentFormat::Omit && content_fell_back(
            entries[order.last()],
            params.content_format,
        ) {
            1nat
        } else {
            0nat
        })
    }
}

/// A warning, as mathematics: its feed, code and message.
pub open spec fn warning_view(w: Warning) -> (Option<Seq<char>>, Seq<char>, Seq<char>) {
    (w.feed_url.deep_view(), w.code@, w.message@)
}

/// The warnings that the returned entries give rise to.
pub open spec fn warnings_for(
    entries: Seq<EntryView>,
    order: Seq<int>,
    feed_url: Seq<char>,
    params: FetchParams,
) -> Seq<(Option<Seq<char>>, Seq<char>, Seq<char>)> {
    let n = fallbacks(entries, order, params);
    (if n > 0 {
        seq![
            (
                Some(feed_url),
                "CONTENT_EXTRACTION_FALLBACK"@,
                "HTML conversion failed for "@ + crate::text::decimal(n)
                    + " item(s); their content is the page without its tags"@,
            ),
        ]
    } else {
        Seq::empty()
    }) + (if order.len() > 0 && forall|k: int|
        0 <= k < order.len() ==> is_undated(entries[#[trigger] order[k]]) {
        seq![
            (
                Some(feed_url),
                "UNDATED_ITEMS"@,
                "every returned item lacks a date, so newest-first ordering is best-effort"@,
            ),
        ]
    } else {
        Seq::empty()
    })
}

/// The parsed feed is what the document becomes: of its entries those that the filters keep,
/// newest first, as many as the limit lets through, each turned into an item.
pub open spec fn is_parsed(
    p: ParsedFeed,
    d: DocumentView,
    feed_url: Seq<char>,
    params: FetchParams,
) -> bool {
    &&& p.title.deep_view() == d.title
    &&& p.site_url.deep_view() == main_link(d.links)
    &&& p.updated.deep_view() == instant_text(d.updated)
    &&& exists|order: Seq<int>|
        #![trigger is_order(order, d.entries, params, d.entries.len() as int)]
        {
            let shown = order.take(limited(order.len(), params.limit) as int);
            &&& is_order(order, d.entries, params, d.entries.len() as int)
            &&& p.items@.len() == shown.len()
            &&& forall|k: int|
                0 <= k < shown.len() ==> is_item_of(
                    #[trigger] p.items@[k],
                    d.entries[shown[k]],
                    feed_url,
                    params,
                )
            &&& p.items_filtered_out == d.entries.len() - order.len()
            &&& p.warnings@.map_values(|w: Warning| warning_view(w)) == warnings_for(
                d.entries,
                shown,
                feed_url,
                params,
            )
        }
}

/// There is but one newest-first order: two lists of positions that both are one are the same.
pub proof fn law_order_is_unique(
    a: Seq<int>,
    b: Seq<int>,
    entries: Seq<EntryView>,
    params: FetchParams,
    n: int,
)
    requires
        is_order(a, entries, params, n),
        is_order(b, entries, params, n),
    ensures
        a == b,
    decreases a.len(),
{
    if a.len() == 0 {
        if b.len() > 0 {
            assert(kept(entries[b[0]], params));
            assert(a.contains(b[0]));
        }
        assert(a =~= b);
    } else {
        assert(b.contains(a[0]));
        let j = choose|j: int| 0 <= j < b.len() && b[j] == a[0];
        assert(a.contains(b[0]));
        let i = choose|i: int| 0 <= i < a.len() && a[i] == b[0];
        if j > 0 {
            assert(precedes(entries, b[0], b[j]));
            assert(i > 0);
            assert(precedes(entries, a[0], a[i]));
            assert(false);
        }
        lemma_common_heads(a, b, entries, params, n, 1);
    }
}

proof fn lemma_common_heads(
    a: Seq<int>,
    b: Seq<int>,
    entries: Seq<EntryView>,
    params: FetchParams,
    n: int,
    k: int,
)
    requires
        is_order(a, entries, params, n),
        is_order(b, entries, params, n),
        0 <= k <= a.len(),
        k <= b.len(),
        forall|i: int| 0 <= i < k ==> a[i] == b[i],
    ensures
        a == b,
    decreases a.len() - k,
{
    if k == a.len() {
        if b.len() > k {
            assert(kept(entries[b[k]], params));
            assert(a.contains(b[k]));
            let i = choose|i: int| 0 <= i < a.len() && a[i] == b[k];
            assert(precedes(entries, b[i], b[k]));
            assert(false);
        }
        assert(a =~= b);
    } else {
        assert(kept(entries[a[k]], params));
        assert(b.contains(a[k]));
        let j = choose|j: int| 0 <= j < b.len() && b[j] == a[k];
        if j < k {
            assert(precedes(entries, a[j], a[k]));
            assert(false);
        }
        assert(kept(entries[b[k]], params));
        assert(a.contains(b[k]));
        let i = choose|i: int| 0 <= i < a.len() && a[i] == b[k];
        if i < k {
            assert(precedes(entries, b[i], b[k]));
            assert(false);
        }
        if j > k {
            assert(precedes(entries, b[k], b[j]));
            if i > k {
                assert(precedes(entries, a[k], a[i]));
                assert(false);
            }
        }
        lemma_common_heads(a, b, entries, params, n, k + 1);
    }
}

/// A row under construction: an item, its sort key, and whether its tags were cut out.
struct Row {
    item: Item,
    key: Option<Timestamp>,
    fallback: bool,
}

fn is_newer(a: Option<Timestamp>, b: Option<Timestamp>) -> (r: bool)
    ensures
        r == newer(a, b),
{
    match (a, b) {
        (Some(x), Some(y)) => y.is_before(&x),
        (Some(_), None) => true,
        _ => false,
    }
}

spec fn row_ok(
    row: Row,
    e: EntryView,
    feed_url: Seq<char>,
    params: FetchParams,
) -> bool {
    &&& is_item_of(row.item, e, feed_url, params)
    &&& row.key == sort_key(e)
    &&& row.fallback == (params.content_format != ContentFormat::Omit && content_fell_back(
        e,
        params.content_format,
    ))
}

proof fn lemma_searched(item: Item, e: EntryView, feed_url: Seq<char>, params: FetchParams)
    requires
        is_item_of(item, e, feed_url, params),
    ensures
        crate::query::searched_fields(item) == searched(e, params),
{
}

/// Where a row with this key belongs: after every row that is not older.
fn place(rows: &Vec<Row>, key: Option<Timestamp>) -> (r: usize)
    ensures
        r <= rows@.len(),
        forall|k: int| 0 <= k < r ==> !newer(key, (#[trigger] rows@[k]).key),
        r < rows@.len() ==> newer(key, rows@[r as int].key),
{
    let mut p: usize = 0;
    while p < rows.len() && !is_newer(key, rows[p].key)
        invariant
            p <= rows@.len(),
            forall|k: int| 0 <= k < p ==> !newer(key, (#[trigger] rows@[k]).key),
        decreases rows@.len() - p,
    {
        p = p + 1;
    }
    p
}

proof fn lemma_order_insert(
    order: Seq<int>,
    entries: Seq<EntryView>,
    params: FetchParams,
    n: int,
    p: int,
)
    requires
        is_order(order, entries, params, n),
        0 <= n < entries.len(),
        kept(entries[n], params),
        0 <= p <= order.len(),
        forall|k: int| 0 <= k < p ==> !newer(sort_key(entries[n]), sort_key(entries[#[trigger] order[k]])),
        p < order.len() ==> newer(sort_key(entries[n]), sort_key(entries[order[p]])),
    ensures
        is_order(order.insert(p, n), entries, params, n + 1),
{
    let o = order.insert(p, n);
    assert forall|i: int| 0 <= i < n + 1 && kept(entries[i], params) implies #[trigger] o.contains(i) by {
        if i == n {
            assert(o[p] == n);
        } else {
            assert(order.contains(i));
            let k = choose|k: int| 0 <= k < order.len() && order[k] == i;
            assert(o[if k < p { k } else { k + 1 }] == i);
        }
    }
    assert forall|a: int, b: int| 0 <= a < b < o.len() implies precedes(
        entries,
        #[trigger] o[a],
        #[trigger] o[b],
    ) by {
        let a0 = if a < p { a } else { a - 1 };
        let b0 = if b < p { b } else { b - 1 };
        if a == p {
            assert(o[b] == order[b0]);
            if b0 > p {
                assert(precedes(entries, order[p], order[b0]));
            }
        } else if b == p {
            assert(o[a] == order[a]);
        } else {
            assert(o[a] == order[a0] && o[b] == order[b0]);
        }
    }
}

proof fn lemma_order_skip(order: Seq<int>, entries: Seq<EntryView>, params: FetchParams, n: int)
    requires
        is_order(order, entries, params, n),
        0 <= n < entries.len(),
        !kept(entries[n], params),
    ensures
        is_order(order, entries, params, n + 1),
{
}

proof fn lemma_order_len(order: Seq<int>, entries: Seq<EntryView>, params: FetchParams, n: int)
    requires
        is_order(order, entries, params, n),
        0 <= n <= entries.len(),
    ensures
        order.len() <= n,
{
    assert forall|i: int, j: int|
        0 <= i < order.len() && 0 <= j < order.len() && i != j implies order[i] != order[j] by {
        if i < j {
            assert(precedes(entries, order[i], order[j]));
        } else {
            assert(precedes(entries, order[j], order[i]));
        }
    }
    let range = Set::<int>::range(0, n);
    order.unique_seq_to_set();
    assert(order.no_duplicates());
    vstd::set_lib::lemma_int_range(0, n);
    assert(order.to_set().subset_of(range));
    vstd::set_lib::lemma_len_subset(order.to_set(), range);
}

/// A warning about a feed.
pub fn warning(feed_url: &str, code: &str, message: String) -> (r: Warning)
    ensures
        warning_view(r) == (Some(feed_url@), code@, message@),
{
    Warning { feed_url: Some(feed_url.to_owned()), code: code.to_owned(), message }
}

spec fn rows_ok(
    rows: Seq<Row>,
    order: Seq<int>,
    entries: Seq<EntryView>,
    feed_url: Seq<char>,
    params: FetchParams,
) -> bool {
    &&& rows.len() == order.len()
    &&& forall|k: int|
        0 <= k < rows.len() ==> row_ok(#[trigger] rows[k], entries[order[k]], feed_url, params)
}

fn order_rows(doc: &RawDocument, feed_url: &str, params: &FetchParams) -> (r: (Vec<Row>, Ghost<Seq<int>>))
    ensures
        is_order(r.1@, doc@.entries, *params, doc@.entries.len() as int),
        rows_ok(r.0@, r.1@, doc@.entries, feed_url@, *params),
{
    let query = match &params.query {
        Some(q) => Some(Query::parse(q.as_str())),
        None => None,
    };
    let ghost entries = doc@.entries;
    let ghost mut order: Seq<int> = Seq::empty();
    let mut rows: Vec<Row> = Vec::new();
    let mut i: usize = 0;
    while i < doc.entries.len()
        invariant
            i <= doc.entries@.len(),
            entries == doc@.entries,
            entries.len() == doc.entries@.len(),
            is_order(order, entries, *params, i as int),
            rows_ok(rows@, order, entries, feed_url@, *params),
            query is Some == params.query is Some,
            query matches Some(p) ==> p.required() == crate::query::lowered_terms(
                crate::query::raw_terms(params.query->Some_0@),
                false,
            ) && p.excluded() == crate::query::lowered_terms(
                crate::query::raw_terms(params.query->Some_0@),
                true,
            ),
        decreases doc.entries@.len() - i,
    {
        let entry = &doc.entries[i];
        assert(entries[i as int] == entry@);
        let key = match entry.published {
            Some(t) => Some(t),
            None => entry.updated,
        };
        let (item, fallback) = entry_to_item(entry, feed_url, params);
        proof {
            lemma_searched(item, entry@, feed_url@, *params);
        }
        let in_time = match (params.since, key) {
            (Some(s), Some(t)) => !t.is_before(&s),
            _ => true,
        };
        let matched = match &query {
            Some(q) => q.matches_item(&item),
            None => true,
        };
        if in_time && matched {
            let p: usize = place(&rows, key);
            proof {
                assert forall|k: int| 0 <= k < p implies !newer(
                    sort_key(entries[i as int]),
                    sort_key(entries[#[trigger] order[k]]),
                ) by {
                    assert(row_ok(rows@[k], entries[order[k]], feed_url@, *params));
                }
                if p < order.len() {
                    assert(row_ok(rows@[p as int], entries[order[p as int]], feed_url@, *params));
                }
                lemma_order_insert(order, entries, *params, i as int, p as int);
            }
            let ghost before = rows@;
            rows.insert(p, Row { item, key, fallback });
            proof {
                let o = order.insert(p as int, i as int);
                assert forall|k: int| 0 <= k < rows@.len() implies row_ok(
                    #[trigger] rows@[k],
                    entries[o[k]],
                    feed_url@,
                    *params,
                ) by {
                    if k < p {
                        assert(rows@[k] == before[k]);
                    } else if k > p {
                        assert(rows@[k] == before[k - 1]);
                    }
                }
                order = o;
            }
        } else {
            proof {
                lemma_order_skip(order, entries, *params, i as int);
            }
        }
        i = i + 1;
    }
    (rows, Ghost(order))
}

/// Turns a document into a parsed feed: filters its entries by `since` and the query, orders them
/// newest first, and keeps as many as the limit lets through.
pub fn build_feed(doc: &RawDocument, feed_url: &str, params: &FetchParams) -> (r: ParsedFeed)
    ensures
        is_parsed(r, doc@, feed_url@, *params),
{
    let (mut rows, Ghost(order)) = order_rows(doc, feed_url, params);
    let ghost entries = doc@.entries;
    proof {
        lemma_order_len(order, entries, *params, entries.len() as int);
    }
    let items_filtered_out: usize = doc.entries.len() - rows.len();
    if let Some(limit) = params.limit {
        rows.truncate(limit);
    }
    let ghost shown = order.take(limited(order.len(), params.limit) as int);
    assert(rows_ok(rows@, shown, entries, feed_url@, *params));
    let mut fallback_count: u64 = 0;
    let mut all_undated = rows.len() > 0;
    let mut k: usize = 0;
    assert(shown.take(0) =~= Seq::empty());
    while k < rows.len()
        invariant
            k <= rows@.len(),
            rows_ok(rows@, shown, entries, feed_url@, *params),
            fallback_count == fallbacks(entries, shown.take(k as int), *params),
            fallback_count <= k,
            all_undated == (rows@.len() > 0 && forall|j: int|
                0 <= j < k ==> is_undated(entries[#[trigger] shown[j]])),
        decreases rows@.len() - k,
    {
        let row = &rows[k];
        assert(row_ok(rows@[k as int], entries[shown[k as int]], feed_url@, *params));
        if row.fallback {
            fallback_count = fallback_count + 1;
        }
        if row.item.published.is_some() || row.item.updated.is_some() {
            all_undated = false;
        }
        proof {
            assert(shown.take(k + 1).drop_last() =~= shown.take(k as int));
            assert(shown.take(k + 1).last() == shown[k as int]);
        }
        k = k + 1;
    }
    assert(shown.take(k as int) =~= shown);
    let mut warnings: Vec<Warning> = Vec::new();
    if fallback_count > 0 {
        warnings.push(
            warning(
                feed_url,
                "CONTENT_EXTRACTION_FALLBACK",
                "HTML conversion failed for ".to_owned().concat(&number_text(fallback_count)).concat(
                    " item(s); their content is the page without its tags",
                ),
            ),
        );
    }
    if all_undated {
        warnings.push(
            warning(
                feed_url,
                "UNDATED_ITEMS",
                "every returned item lacks a date, so newest-first ordering is best-effort".to_owned(),
            ),
        );
    }
    assert(warnings@.map_values(|w: Warning| warning_view(w)) =~= warnings_for(
        entries,
        shown,
        feed_url@,
        *params,
    ));
    let mut items: Vec<Item> = Vec::new();
    let ghost all_rows = rows@;
    for row in it: rows.into_iter()
        invariant
            it.seq() == all_rows,
            items@.len() == it.index(),
            forall|j: int| 0 <= j < items@.len() ==> #[trigger] items@[j] == all_rows[j].item,
    {
        items.push(row.item);
    }
    let parsed = ParsedFeed {
        title: copy_opt(&doc.head.title),
        site_url: pick_link_href(&doc.head.links),
        updated: instant(doc.head.updated),
        items,
        warnings,
        items_filtered_out,
    };
    proof {
        assert(is_order(order, entries, *params, entries.len() as int));
        assert forall|j: int| 0 <= j < shown.len() implies is_item_of(
            #[trigger] parsed.items@[j],
            entries[shown[j]],
            feed_url@,
            *params,
        ) by {
            assert(row_ok(all_rows[j], entries[shown[j]], feed_url@, *params));
        }
    }
    parsed
}

/// Parses raw feed bytes. `feed_url` is the URL the bytes came from: relative links are resolved
/// against it, and it is the namespace of the item ids.
pub fn parse_feed(body: &[u8], feed_url: &str, params: &FetchParams) -> (r: Result<
    ParsedFeed,
    RssError,
>)
    ensures
        match (r, document_value(body@)) {
            (Ok(p), Ok(d)) => is_parsed(p, d, feed_url@, *params),
            (Err(RssError::Parse(m)), Err(t)) => m@ == t,
            _ => false,
        },
{
    match parse_document(body) {
        Ok(doc) => Ok(build_feed(&doc, feed_url, params)),
        Err(m) => Err(RssError::Parse(m)),
    }
}

/// The same bytes give the same items on every run and machine: as many, in the same order, with the
/// same ids, the same fields that the ids come from and the same guids.
pub proof fn law_ids_are_the_same_on_every_run(
    body: Seq<u8>,
    a: ParsedFeed,
    b: ParsedFeed,
    feed_url: Seq<char>,
    params: FetchParams,
)
    requires
        document_value(body) matches Ok(d) && is_parsed(a, d, feed_url, params) && is_parsed(
            b,
            d,
            feed_url,
            params,
        ),
    ensures
        a.items@.len() == b.items@.len(),
        forall|k: int|
            0 <= k < a.items@.len() ==> {
                &&& (#[trigger] a.items@[k]).id@ == b.items@[k].id@
                &&& a.items@[k].id_source == b.items@[k].id_source
                &&& a.items@[k].guid.deep_view() == b.items@[k].guid.deep_view()
                &&& a.items@[k].url.deep_view() == b.items@[k].url.deep_view()
            },
{
    let d = document_value(body)->Ok_0;
    let n = d.entries.len() as int;
    let x = choose|order: Seq<int>|
        #![trigger is_order(order, d.entries, params, n)]
        {
            let shown = order.take(limited(order.len(), params.limit) as int);
            &&& is_order(order, d.entries, params, n)
            &&& a.items@.len() == shown.len()
            &&& forall|k: int|
                0 <= k < shown.len() ==> is_item_of(
                    #[trigger] a.items@[k],
                    d.entries[shown[k]],
                    feed_url,
                    params,
                )
        };
    let y = choose|order: Seq<int>|
        #![trigger is_order(order, d.entries, params, n)]
        {
            let shown = order.take(limited(order.len(), params.limit) as int);
            &&& is_order(order, d.entries, params, n)
            &&& b.items@.len() == shown.len()
            &&& forall|k: int|
                0 <= k < shown.len() ==> is_item_of(
                    #[trigger] b.items@[k],
                    d.entries[shown[k]],
                    feed_url,
                    params,
                )
        };
    law_order_is_unique(x, y, d.entries, params, n);
    assert forall|k: int| 0 <= k < a.items@.len() implies {
        &&& (#[trigger] a.items@[k]).id@ == b.items@[k].id@
        &&& a.items@[k].id_source == b.items@[k].id_source
        &&& a.items@[k].guid.deep_view() == b.items@[k].guid.deep_view()
        &&& a.items@[k].url.deep_view() == b.items@[k].url.deep_view()
    } by {
        let e = d.entries[x.take(limited(x.len(), params.limit) as int)[k]];
        assert(is_item_of(a.items@[k], e, feed_url, params));
        assert(is_item_of(b.items@[k], e, feed_url, params));
    }
}

/// An entry with neither a link nor an id of the feed's own is known by its title and its date.
pub proof fn law_a_bare_entry_is_known_by_title_and_date(
    item: Item,
    e: EntryView,
    feed_url: Seq<char>,
    params: FetchParams,
)
    requires
        e.id.len() == 0,
        e.links.len() == 0,
        is_item_of(item, identified(e), feed_url, params),
    ensures
        item.guid is None,
        item.url is None,
        item.id@ == crate::identity::keyed_id(
            feed_url,
            crate::identity::item_key(None, None, e.title, instant_text(e.published)).0,
        ),
        item.id_source == crate::model::IdSource::Hash,
{
}

/// An entry's item is known by the same id, and has the same hash of its content, whatever a request
/// cuts its content to: neither depends on the cap, the filters or the limit, and the id not on the
/// format either.
pub proof fn law_an_item_is_the_same_in_every_request(
    a: Item,
    b: Item,
    e: EntryView,
    feed_url: Seq<char>,
    p: FetchParams,
    q: FetchParams,
)
    requires
        is_item_of(a, e, feed_url, p),
        is_item_of(b, e, feed_url, q),
    ensures
        a.id@ == b.id@,
        a.id_source == b.id_source,
        a.url.deep_view() == b.url.deep_view(),
        a.guid.deep_view() == b.guid.deep_view(),
        p.content_format == q.content_format ==> a.content_hash.deep_view()
            == b.content_hash.deep_view(),
{
}

/// A cap cuts content to its first characters and the mark of a cut, and says so; it leaves shorter
/// content as it is.
pub proof fn law_capped_content_is_marked(item: Item, e: EntryView, feed_url: Seq<char>, params: FetchParams)
    requires
        is_item_of(item, e, feed_url, params),
    ensures
        params.max_content_chars matches Some(m) ==> (item.content matches Some(c) ==> c@.len() <= m
            + crate::content::TRUNCATION_MARK@.len()),
        item.content_truncated ==> (item.content matches Some(c)
            && crate::content::TRUNCATION_MARK@.is_suffix_of(c@)),
        !item.content_truncated ==> item.content.deep_view() == whole_content(
            e,
            params.content_format,
        ),
{
    match whole_content(e, params.content_format) {
        Some(c) => {
            if crate::content::is_over(c, params.max_content_chars) {
                let m = params.max_content_chars->Some_0 as int;
                let mark = crate::content::TRUNCATION_MARK@;
                let shown = c.take(m) + mark;
                assert(shown.subrange(shown.len() - mark.len(), shown.len() as int) =~= mark);
            }
        },
        None => {},
    }
}

} // verus!
