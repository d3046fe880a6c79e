//! What feed discovery promises, over the tags of a page.

use vstd::prelude::*;

use crate::discover::{
    address, advertised, advertised_by, before, feed_type, feeds_on, has_suffix, is_listed, run_before,
    TagView,
};
use crate::query_laws::has_within;
use crate::text::{ascii_lowercase, is_white, occurs, trimmed};

verus! {

/// Nothing that a page advertises is lost, and nothing is found that it does not advertise. Every feed
/// found is what some tag advertises, the first that gives its address, whose position is returned for it;
/// feeds come in the order of the page; and every tag that advertises a feed has its address found.
pub proof fn law_nothing_advertised_is_lost(nodes: Seq<Option<TagView>>, base: Seq<char>) -> (at: Seq<int>)
    ensures
        at.len() == advertised_by(nodes, base).len(),
        forall|k: int| 0 <= k < at.len() ==> 0 <= #[trigger] at[k] < nodes.len(),
        forall|k: int|
            0 <= k < at.len() ==> nodes[#[trigger] at[k]] is Some && advertised(
                nodes[at[k]]->Some_0,
                base,
            ) == Some(advertised_by(nodes, base)[k]),
        forall|i: int, j: int| 0 <= i < j < at.len() ==> #[trigger] at[i] < #[trigger] at[j],
        forall|i: int|
            0 <= i < nodes.len() && (#[trigger] nodes[i]) is Some && advertised(nodes[i]->Some_0, base) is Some
                ==> exists|k: int|
                0 <= k < at.len() && at[k] <= i && (#[trigger] advertised_by(nodes, base)[k]).0 == advertised(
                    nodes[i]->Some_0,
                    base,
                )->Some_0.0,
    decreases nodes.len(),
{
    let all = advertised_by(nodes, base);
    if nodes.len() == 0 {
        Seq::empty()
    } else {
        let r = nodes.drop_last();
        let earlier = advertised_by(r, base);
        let p = law_nothing_advertised_is_lost(r, base);
        let n = nodes.len() - 1;
        let at = if all.len() > earlier.len() {
            p.push(n)
        } else {
            p
        };
        assert forall|k: int| 0 <= k < at.len() implies 0 <= #[trigger] at[k] < nodes.len()
            && nodes[at[k]] is Some && advertised(nodes[at[k]]->Some_0, base) == Some(all[k]) by {
            if k < p.len() {
                assert(at[k] == p[k]);
                assert(r[p[k]] == nodes[p[k]]);
                assert(all[k] == earlier[k]);
            } else {
                assert(nodes[n] == nodes.last());
            }
        }
        assert forall|i: int|
            0 <= i < nodes.len() && (#[trigger] nodes[i]) is Some && advertised(nodes[i]->Some_0, base)
                is Some implies exists|k: int|
            0 <= k < at.len() && at[k] <= i && (#[trigger] all[k]).0 == advertised(
                nodes[i]->Some_0,
                base,
            )->Some_0.0 by {
            if i < n {
                assert(r[i] == nodes[i]);
                let k = choose|k: int|
                    0 <= k < p.len() && p[k] <= i && (#[trigger] earlier[k]).0 == advertised(
                        r[i]->Some_0,
                        base,
                    )->Some_0.0;
                assert(at[k] == p[k]);
                assert(all[k] == earlier[k]);
            } else {
                let f = advertised(nodes.last()->Some_0, base)->Some_0;
                if is_listed(earlier, f.0) {
                    let k = choose|k: int| 0 <= k < earlier.len() && (#[trigger] earlier[k]).0 == f.0;
                    assert(at[k] == p[k]);
                    assert(all[k].0 == f.0);
                } else {
                    assert(all[earlier.len() as int].0 == f.0);
                    assert(at[earlier.len() as int] == n);
                }
            }
        }
        at
    }
}

/// A tag advertises a feed exactly when it is a `<link>` whose `rel` speaks of an alternate, whatever the
/// case, with an address that is not blank and can be made absolute, and the type of a feed. What it
/// advertises is that address, that type and its title.
pub proof fn law_what_a_tag_advertises(tag: TagView, base: Seq<char>)
    ensures
        advertised(tag, base) is Some <==> ascii_lowercase(tag.name) == "link"@ && (tag.rel matches Some(
            rel,
        ) && has_within(ascii_lowercase(rel), "alternate"@)) && (tag.href matches Some(h) && !(forall|k: int|
            0 <= k < h.len() ==> is_white(#[trigger] h[k]))) && feed_type(tag.mime, tag.href->Some_0) is Some
            && address(base, tag.href->Some_0) is Some,
        advertised(tag, base) matches Some(f) ==> Some(f.0) == address(base, tag.href->Some_0) && Some(f.1)
            == feed_type(tag.mime, tag.href->Some_0) && f.2 == tag.title,
{
    if let Some(rel) = tag.rel {
        crate::text_laws::law_what_stands_in_a_text_has_a_before_and_an_after(
            ascii_lowercase(rel),
            "alternate"@,
        );
        assert(has_within(ascii_lowercase(rel), "alternate"@) == occurs(
            ascii_lowercase(rel),
            "alternate"@,
        ));
    }
    if let Some(h) = tag.href {
        crate::text_laws::law_blank_texts_trim_to_nothing(h);
    }
}

/// An address is made absolute against that of the page, without the white space around it. Where the
/// page's own is no address, it stands as it is.
pub proof fn law_addresses_are_resolved_against_the_page(base: Seq<char>, href: Seq<char>)
    ensures
        crate::link::is_absolute_url(base) ==> address(base, href) == crate::link::joined_url(
            base,
            trimmed(href),
        ),
        !crate::link::is_absolute_url(base) ==> address(base, href) == Some(trimmed(href)),
{
}

proof fn lemma_run(s: Seq<char>, rest: Seq<char>, a: char, b: char)
    requires
        !s.contains(a),
        !s.contains(b),
        rest.len() > 0 ==> rest[0] == a || rest[0] == b,
    ensures
        run_before(s + rest, a, b) == s.len(),
        before(s + rest, a, b) == s,
    decreases s.len(),
{
    if s.len() > 0 {
        assert(s.contains(s[0]));
        let t = s.skip(1);
        assert(!t.contains(a) && !t.contains(b)) by {
            assert forall|k: int| 0 <= k < t.len() implies s.contains(#[trigger] t[k]) by {
                assert(t[k] == s[k + 1]);
            }
        }
        lemma_run(t, rest, a, b);
        assert((s + rest).skip(1) =~= t + rest);
        assert((s + rest)[0] == s[0]);
    } else {
        assert(s + rest =~= rest);
    }
    assert((s + rest).take(s.len() as int) =~= s);
}

/// A media type counts without its parameters, the white space around it and its case. RSS, Atom and JSON
/// feeds are known by it, and nothing else is a feed, whatever its address.
pub proof fn law_media_types_tell_feeds(mime: Seq<char>, parameters: Seq<char>, href: Seq<char>)
    requires
        !mime.contains(';'),
    ensures
        feed_type(Some(mime + seq![';'] + parameters), href) == feed_type(Some(mime), href),
        ascii_lowercase(trimmed(mime)) == "application/rss+xml"@ ==> feed_type(Some(mime), href) == Some(
            "rss"@,
        ),
        ascii_lowercase(trimmed(mime)) == "application/atom+xml"@ ==> feed_type(Some(mime), href) == Some(
            "atom"@,
        ),
        ascii_lowercase(trimmed(mime)) == "application/json"@ || ascii_lowercase(trimmed(mime))
            == "application/feed+json"@ ==> feed_type(Some(mime), href) == Some("json"@),
        feed_type(Some(mime), href) is Some ==> ascii_lowercase(trimmed(mime)) == "application/rss+xml"@
            || ascii_lowercase(trimmed(mime)) == "application/atom+xml"@ || ascii_lowercase(trimmed(mime))
            == "application/json"@ || ascii_lowercase(trimmed(mime)) == "application/feed+json"@,
{
    lemma_run(mime, seq![';'] + parameters, ';', ';');
    lemma_run(mime, Seq::empty(), ';', ';');
    assert(mime + Seq::<char>::empty() =~= mime);
    assert(mime + (seq![';'] + parameters) =~= mime + seq![';'] + parameters);
    reveal_strlit("application/rss+xml");
    reveal_strlit("application/atom+xml");
    reveal_strlit("application/json");
    reveal_strlit("application/feed+json");
    assert("application/rss+xml"@.len() == 19);
    assert("application/atom+xml"@.len() == 20);
    assert("application/json"@.len() == 16);
    assert("application/feed+json"@.len() == 21);
}

/// A link without a media type is taken for a feed by the ending of its path, whatever its case and
/// whatever query or fragment follows.
pub proof fn law_endings_tell_feeds(path: Seq<char>, rest: Seq<char>)
    requires
        !path.contains('?'),
        !path.contains('#'),
        rest.len() > 0 ==> rest[0] == '?' || rest[0] == '#',
    ensures
        feed_type(None, path + rest) == (if ends_in(path, ".rss"@) || ends_in(path, ".atom"@) || ends_in(
            path,
            ".xml"@,
        ) {
            Some("unknown"@)
        } else {
            None
        }),
{
    lemma_run(path, rest, '?', '#');
    let low = ascii_lowercase(path);
    lemma_suffix(low, ".rss"@);
    lemma_suffix(low, ".atom"@);
    lemma_suffix(low, ".xml"@);
}

/// The text is something and then the ending, in lower case.
pub open spec fn ends_in(s: Seq<char>, ending: Seq<char>) -> bool {
    exists|x: Seq<char>| ascii_lowercase(s) == #[trigger] (x + ending)
}

proof fn lemma_suffix(s: Seq<char>, t: Seq<char>)
    ensures
        has_suffix(s, t) <==> exists|x: Seq<char>| s == #[trigger] (x + t),
{
    if has_suffix(s, t) {
        let x = s.take(s.len() - t.len());
        assert(s =~= x + t);
    }
    if exists|x: Seq<char>| s == #[trigger] (x + t) {
        let x = choose|x: Seq<char>| s == #[trigger] (x + t);
        assert(s.skip(s.len() - t.len()) =~= t);
    }
}

/// A page that cannot be read advertises nothing, and one that can, what its tags do.
pub proof fn law_an_unreadable_page_advertises_nothing(nodes: Seq<Option<TagView>>, base: Seq<char>)
    ensures
        feeds_on(None, base).len() == 0,
        feeds_on(Some(nodes), base) == advertised_by(nodes, base),
{
}

} // verus!
