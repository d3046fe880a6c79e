//! Feed autodiscovery: the feeds that a page's `<link>` tags advertise.

use vstd::prelude::*;
use vstd::string::*;

use crate::link::{join, parses_as_url};
use crate::model::{copy_opt, DiscoverOutput, DiscoveredFeed};
use crate::text::{chars_of, contains, is_at, same, text_of, to_ascii_lowercase, trim};

verus! {

/// A tag of a page: its name and the attributes that are read here.
#[derive(Debug)]
pub struct RawTag {
    pub name: String,
    pub rel: Option<String>,
    pub href: Option<String>,
    /// The `type` attribute.
    pub mime: Option<String>,
    pub title: Option<String>,
}

/// A tag, as mathematics.
pub struct TagView {
    pub name: Seq<char>,
    pub rel: Option<Seq<char>>,
    pub href: Option<Seq<char>>,
    pub mime: Option<Seq<char>>,
    pub title: Option<Seq<char>>,
}

impl View for RawTag {
    type V = TagView;

    open spec fn view(&self) -> TagView {
        TagView {
            name: self.name@,
            rel: self.rel.deep_view(),
            href: self.href.deep_view(),
            mime: self.mime.deep_view(),
            title: self.title.deep_view(),
        }
    }
}

/// A node of a page: a tag, or nothing where it is text or a comment.
pub open spec fn node_view(n: Option<RawTag>) -> Option<TagView> {
    match n {
        Some(t) => Some(t@),
        None => None,
    }
}

/// The nodes that `tl::parse` reads in a page, in the order of the page; nothing where the page is
/// too long for it.
pub uninterp spec fn nodes_in(html: Seq<char>) -> Option<Seq<Option<TagView>>>;

/// `tl::parse` with its default options, and `tl::VDom::nodes` of what it gives: each node as a tag,
/// with the values of its `rel`, `href`, `type` and `title` attributes, or as nothing.
#[verifier::external_body]
fn read_nodes(html: &str) -> (r: Option<Vec<Option<RawTag>>>)
    ensures
        match r {
            Some(v) => nodes_in(html@) == Some(v@.map_values(|n: Option<RawTag>| node_view(n))),
            None => nodes_in(html@) is None,
        },
{
    let dom = tl::parse(html, tl::ParserOptions::default()).ok()?;
    let value = |t: &tl::HTMLTag<'_>, key: &'static str| -> Option<String> {
        t.attributes().get(key).flatten().map(|b| b.as_utf8_str().into_owned())
    };
    let convert = |t: &tl::HTMLTag<'_>| RawTag {
        name: t.name().as_utf8_str().into_owned(),
        rel: value(t, "rel"),
        href: value(t, "href"),
        mime: value(t, "type"),
        title: value(t, "title"),
    };
    Some(dom.nodes().iter().map(|n| n.as_tag().map(convert)).collect())
}

/// The text that `String::from_utf8_lossy` reads in some bytes.
pub uninterp spec fn lossy_text(bytes: Seq<u8>) -> Seq<char>;

/// `String::from_utf8_lossy`: the bytes as text, with replacement characters for what is no UTF-8.
#[verifier::external_body]
pub(crate) fn decode_lossy(bytes: &[u8]) -> (r: String)
    ensures
        r@ == lossy_text(bytes@),
{
    String::from_utf8_lossy(bytes).into_owned()
}

/// How many characters come before the first that is `a` or `b`.
pub open spec fn run_before(s: Seq<char>, a: char, b: char) -> nat
    decreases s.len(),
{
    if s.len() == 0 || s[0] == a || s[0] == b {
        0
    } else {
        1 + run_before(s.skip(1), a, b)
    }
}

/// The text before the first character that is `a` or `b`.
pub open spec fn before(s: Seq<char>, a: char, b: char) -> Seq<char> {
    s.take(run_before(s, a, b) as int)
}

fn text_before(s: &str, a: char, b: char) -> (r: String)
    ensures
        r@ == before(s@, a, b),
{
    let v = chars_of(s);
    let mut i: usize = 0;
    assert(v@.skip(0) =~= v@);
    while i < v.len() && v[i] != a && v[i] != b
        invariant
            v@ == s@,
            i <= v@.len(),
            run_before(s@, a, b) == i + run_before(s@.skip(i as int), a, b),
        decreases v@.len() - i,
    {
        assert(s@.skip(i as int)[0] == v@[i as int]);
        assert(s@.skip(i as int).skip(1) =~= s@.skip(i + 1));
        i = i + 1;
    }
    assert(i < v@.len() ==> s@.skip(i as int)[0] == v@[i as int]);
    assert(v@.subrange(0, i as int) =~= s@.take(i as int));
    text_of(&v, 0, i)
}

/// The text ends with the suffix.
pub open spec fn has_suffix(s: Seq<char>, suffix: Seq<char>) -> bool {
    suffix.len() <= s.len() && s.skip(s.len() - suffix.len()) == suffix
}

pub(crate) fn ends_with(s: &str, suffix: &str) -> (r: bool)
    ensures
        r == has_suffix(s@, suffix@),
{
    let v = chars_of(s);
    let w = chars_of(suffix);
    if w.len() > v.len() {
        return false;
    }
    let i: usize = v.len() - w.len();
    let r = is_at(&v, &w, i);
    assert(v@.subrange(i as int, i + w@.len()) =~= s@.skip(i as int));
    r
}

/// The feed type that a media type stands for.
pub open spec fn type_of_mime(mime: Seq<char>) -> Option<Seq<char>> {
    if mime == "application/rss+xml"@ {
        Some("rss"@)
    } else if mime == "application/atom+xml"@ {
        Some("atom"@)
    } else if mime == "application/json"@ || mime == "application/feed+json"@ {
        Some("json"@)
    } else {
        None
    }
}

/// The feed type of a link: by its media type, without parameters and case, or, where it has none,
/// by the extension of its address.
pub open spec fn feed_type(mime: Option<Seq<char>>, href: Seq<char>) -> Option<Seq<char>> {
    match mime {
        Some(t) => type_of_mime(
            crate::text::ascii_lowercase(crate::text::trimmed(before(t, ';', ';'))),
        ),
        None => {
            let path = crate::text::ascii_lowercase(before(href, '?', '#'));
            if has_suffix(path, ".rss"@) || has_suffix(path, ".atom"@) || has_suffix(
                path,
                ".xml"@,
            ) {
                Some("unknown"@)
            } else {
                None
            }
        },
    }
}

/// The feed type of a link, or `None` where it is no feed.
pub fn classify(mime: Option<&str>, href: &str) -> (r: Option<&'static str>)
    ensures
        crate::identity::chars(r) == feed_type(crate::identity::chars(mime), href@),
{
    if let Some(t) = mime {
        let m = to_ascii_lowercase(trim(text_before(t, ';', ';').as_str()).as_str());
        return if same(m.as_str(), "application/rss+xml") {
            Some("rss")
        } else if same(m.as_str(), "application/atom+xml") {
            Some("atom")
        } else if same(m.as_str(), "application/json") || same(
            m.as_str(),
            "application/feed+json",
        ) {
            Some("json")
        } else {
            None
        };
    }
    let path = to_ascii_lowercase(text_before(href, '?', '#').as_str());
    if ends_with(path.as_str(), ".rss") || ends_with(path.as_str(), ".atom") || ends_with(
        path.as_str(),
        ".xml",
    ) {
        Some("unknown")
    } else {
        None
    }
}

/// A discovered feed, as mathematics: its address, type and title.
pub open spec fn feed_view(f: DiscoveredFeed) -> (Seq<char>, Seq<char>, Option<Seq<char>>) {
    (f.url@, f.feed_type@, f.title.deep_view())
}

/// The absolute address of a link; nothing where it cannot be joined to the base. Where the base is
/// no URL, the link stands as it is.
pub open spec fn address(base: Seq<char>, href: Seq<char>) -> Option<Seq<char>> {
    if crate::link::is_absolute_url(base) {
        crate::link::joined_url(base, crate::text::trimmed(href))
    } else {
        Some(crate::text::trimmed(href))
    }
}

/// The feed that a tag advertises, if it does: a `<link>` whose `rel` speaks of an alternate, with an
/// address and the type of a feed.
pub open spec fn advertised(tag: TagView, base: Seq<char>) -> Option<
    (Seq<char>, Seq<char>, Option<Seq<char>>),
> {
    match (tag.rel, tag.href) {
        (Some(rel), Some(href)) => if crate::text::ascii_lowercase(tag.name) == "link"@
            && crate::text::occurs(crate::text::ascii_lowercase(rel), "alternate"@)
            && crate::text::trimmed(href).len() > 0 {
            match (feed_type(tag.mime, href), address(base, href)) {
                (Some(t), Some(a)) => Some((a, t, tag.title)),
                _ => None,
            }
        } else {
            None
        },
        _ => None,
    }
}

/// The address is that of one of the feeds.
pub open spec fn is_listed(
    feeds: Seq<(Seq<char>, Seq<char>, Option<Seq<char>>)>,
    url: Seq<char>,
) -> bool {
    exists|k: int| 0 <= k < feeds.len() && (#[trigger] feeds[k]).0 == url
}

/// The feeds that some nodes advertise, in order, each address once.
pub open spec fn advertised_by(nodes: Seq<Option<TagView>>, base: Seq<char>) -> Seq<
    (Seq<char>, Seq<char>, Option<Seq<char>>),
>
    decreases nodes.len(),
{
    if nodes.len() == 0 {
        Seq::empty()
    } else {
        let earlier = advertised_by(nodes.drop_last(), base);
        match nodes.last() {
            Some(tag) => match advertised(tag, base) {
                Some(f) => if is_listed(earlier, f.0) {
                    earlier
                } else {
                    earlier.push(f)
                },
                None => earlier,
            },
            None => earlier,
        }
    }
}

/// The feed that a tag advertises, if it does.
fn advertised_feed(tag: &RawTag, base: &str) -> (r: Option<DiscoveredFeed>)
    ensures
        match r {
            Some(f) => advertised(tag@, base@) == Some(feed_view(f)),
            None => advertised(tag@, base@) is None,
        },
{
    if !same(to_ascii_lowercase(tag.name.as_str()).as_str(), "link") {
        return None;
    }
    let href = match (&tag.rel, &tag.href) {
        (Some(rel), Some(href)) => if contains(
            to_ascii_lowercase(rel.as_str()).as_str(),
            "alternate",
        ) {
            href.as_str()
        } else {
            return None;
        },
        _ => {
            return None;
        },
    };
    let target = trim(href);
    if chars_of(target.as_str()).len() == 0 {
        return None;
    }
    let mime = match &tag.mime {
        Some(t) => Some(t.as_str()),
        None => None,
    };
    let kind = match classify(mime, href) {
        Some(t) => t,
        None => {
            return None;
        },
    };
    let url = if parses_as_url(base) {
        match join(base, target.as_str()) {
            Some(u) => u,
            None => {
                return None;
            },
        }
    } else {
        target
    };
    Some(DiscoveredFeed { url, feed_type: kind.to_owned(), title: copy_opt(&tag.title) })
}

/// The feeds, as mathematics.
pub open spec fn feed_views(feeds: Seq<DiscoveredFeed>) -> Seq<
    (Seq<char>, Seq<char>, Option<Seq<char>>),
> {
    feeds.map_values(|f: DiscoveredFeed| feed_view(f))
}

fn is_known(feeds: &Vec<DiscoveredFeed>, url: &str) -> (r: bool)
    ensures
        r == is_listed(feed_views(feeds@), url@),
{
    let mut i: usize = 0;
    while i < feeds.len()
        invariant
            i <= feeds@.len(),
            forall|k: int| 0 <= k < i ==> (#[trigger] feed_views(feeds@)[k]).0 != url@,
        decreases feeds@.len() - i,
    {
        assert(feed_views(feeds@)[i as int].0 == feeds@[i as int].url@);
        if same(feeds[i].url.as_str(), url) {
            return true;
        }
        i = i + 1;
    }
    false
}

/// The feeds that a page's nodes advertise, in the order of the page, each address once.
pub fn feeds_from(nodes: &Vec<Option<RawTag>>, base_url: &str) -> (r: Vec<DiscoveredFeed>)
    ensures
        feed_views(r@) == advertised_by(
            nodes@.map_values(|n: Option<RawTag>| node_view(n)),
            base_url@,
        ),
{
    let ghost all = nodes@.map_values(|n: Option<RawTag>| node_view(n));
    let mut out: Vec<DiscoveredFeed> = Vec::new();
    let mut i: usize = 0;
    assert(all.take(0) =~= Seq::empty());
    assert(feed_views(out@) =~= advertised_by(all.take(0), base_url@));
    while i < nodes.len()
        invariant
            all == nodes@.map_values(|n: Option<RawTag>| node_view(n)),
            i <= nodes@.len(),
            feed_views(out@) == advertised_by(all.take(i as int), base_url@),
        decreases nodes@.len() - i,
    {
        proof {
            assert(all.take(i + 1).drop_last() =~= all.take(i as int));
            assert(all.take(i + 1).last() == node_view(nodes@[i as int]));
        }
        if let Some(tag) = &nodes[i] {
            if let Some(f) = advertised_feed(tag, base_url) {
                if !is_known(&out, f.url.as_str()) {
                    let ghost earlier = feed_views(out@);
                    let ghost v = feed_view(f);
                    out.push(f);
                    assert(feed_views(out@) =~= earlier.push(v));
                }
            }
        }
        i = i + 1;
    }
    assert(all.take(i as int) =~= all);
    out
}

/// The feeds that a page advertises; none where the page cannot be read.
pub open spec fn feeds_on(nodes: Option<Seq<Option<TagView>>>, base: Seq<char>) -> Seq<
    (Seq<char>, Seq<char>, Option<Seq<char>>),
> {
    match nodes {
        Some(n) => advertised_by(n, base),
        None => Seq::empty(),
    }
}

/// The feeds that a page advertises, their addresses resolved against `base_url`.
pub fn extract_feeds(html: &str, base_url: &str) -> (r: Vec<DiscoveredFeed>)
    ensures
        feed_views(r@) == feeds_on(nodes_in(html@), base_url@),
{
    match read_nodes(html) {
        Some(nodes) => feeds_from(&nodes, base_url),
        None => {
            let none: Vec<DiscoveredFeed> = Vec::new();
            assert(feed_views(none@) =~= Seq::empty());
            none
        },
    }
}

/// What a site's page advertises. `final_url` is the address that the page came from.
pub fn discover(site_url: &str, page: &[u8], final_url: &str) -> (r: DiscoverOutput)
    ensures
        r.schema_version@ == crate::model::SCHEMA_VERSION@,
        r.site_url@ == site_url@,
        feed_views(r.feeds@) == feeds_on(nodes_in(lossy_text(page@)), final_url@),
{
    let html = decode_lossy(page);
    DiscoverOutput::new(site_url, extract_feeds(html.as_str(), final_url))
}

/// No two discovered feeds have the same address.
pub proof fn law_discovered_addresses_are_distinct(
    nodes: Seq<Option<TagView>>,
    base: Seq<char>,
    i: int,
    j: int,
)
    requires
        0 <= i < j < advertised_by(nodes, base).len(),
    ensures
        advertised_by(nodes, base)[i].0 != advertised_by(nodes, base)[j].0,
    decreases nodes.len(),
{
    let all = advertised_by(nodes, base);
    let earlier = advertised_by(nodes.drop_last(), base);
    if j < earlier.len() {
        law_discovered_addresses_are_distinct(nodes.drop_last(), base, i, j);
    } else {
        assert(all[i] == earlier[i]);
        assert(!is_listed(earlier, all[j].0));
    }
}

} // verus!
