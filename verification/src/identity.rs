//! Stable item ids: a hash of what the feed says of an item, the same on every run and machine.

use vstd::prelude::*;
use vstd::string::*;

use crate::hash::hash_prefix;
use crate::model::IdSource;

verus! {

/// An optional text's characters.
pub open spec fn chars(s: Option<&str>) -> Option<Seq<char>> {
    match s {
        Some(t) => Some(t@),
        None => None,
    }
}

/// An optional text, empty where it is absent.
pub open spec fn or_empty(s: Option<Seq<char>>) -> Seq<char> {
    match s {
        Some(t) => t,
        None => Seq::empty(),
    }
}

/// What an item is known by within its feed, if by anything, and which field that is: its link,
/// else its guid, else its title and publication time.
pub open spec fn item_key(
    link: Option<Seq<char>>,
    guid: Option<Seq<char>>,
    title: Option<Seq<char>>,
    published: Option<Seq<char>>,
) -> (Option<Seq<char>>, IdSource) {
    if link is Some {
        (link, IdSource::Link)
    } else if guid is Some {
        (guid, IdSource::Guid)
    } else if title is Some || published is Some {
        (Some(or_empty(title) + "|"@ + or_empty(published)), IdSource::Hash)
    } else {
        (None, IdSource::Hash)
    }
}

/// The id of the item of a feed that is known by `key`: sixteen hexadecimal digits.
pub open spec fn keyed_id(feed_url: Seq<char>, key: Option<Seq<char>>) -> Seq<char> {
    match key {
        Some(k) => crate::hash::short_hash(feed_url + "\n"@ + k),
        None => crate::hash::short_hash(feed_url),
    }
}

/// The stable id of an item, and the field that it was derived from.
pub fn item_id(
    feed_url: &str,
    link: Option<&str>,
    guid: Option<&str>,
    title: Option<&str>,
    published: Option<&str>,
) -> (r: (String, IdSource))
    ensures
        r.1 == item_key(chars(link), chars(guid), chars(title), chars(published)).1,
        r.0@ == keyed_id(
            feed_url@,
            item_key(chars(link), chars(guid), chars(title), chars(published)).0,
        ),
        r.0@.len() == 16,
{
    let prefix = feed_url.to_owned().concat("\n");
    if let Some(l) = link {
        return (hash_prefix(prefix.concat(l).as_str()), IdSource::Link);
    }
    if let Some(g) = guid {
        return (hash_prefix(prefix.concat(g).as_str()), IdSource::Guid);
    }
    if title.is_none() && published.is_none() {
        return (hash_prefix(feed_url), IdSource::Hash);
    }
    let t = match title {
        Some(t) => t,
        None => "",
    };
    let p = match published {
        Some(p) => p,
        None => "",
    };
    proof {
        reveal_strlit("");
        assert(""@ =~= Seq::empty());
        assert(feed_url@ + "\n"@ + t@ + "|"@ + p@ =~= feed_url@ + "\n"@ + (t@ + "|"@ + p@));
    }
    (hash_prefix(prefix.concat(t).concat("|").concat(p).as_str()), IdSource::Hash)
}

/// Where an item has a link, its id depends on the feed and the link alone: a feed that makes up
/// new guids, or changes a title or a date, does not change the id.
pub proof fn law_linked_id_depends_on_link_alone(
    feed_url: Seq<char>,
    link: Seq<char>,
    guid1: Option<Seq<char>>,
    title1: Option<Seq<char>>,
    published1: Option<Seq<char>>,
    guid2: Option<Seq<char>>,
    title2: Option<Seq<char>>,
    published2: Option<Seq<char>>,
)
    ensures
        keyed_id(feed_url, item_key(Some(link), guid1, title1, published1).0) == keyed_id(
            feed_url,
            item_key(Some(link), guid2, title2, published2).0,
        ),
        item_key(Some(link), guid1, title1, published1).1 == IdSource::Link,
{
}

} // verus!
