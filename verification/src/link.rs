//! URL resolution by the `url` crate.

use vstd::prelude::*;
use vstd::string::*;

verus! {

/// Whether `url::Url::parse` accepts a text as an absolute URL.
pub uninterp spec fn is_absolute_url(s: Seq<char>) -> bool;

/// `url::Url::parse`: whether the text is an absolute URL.
#[verifier::external_body]
pub(crate) fn parses_as_url(s: &str) -> (r: bool)
    ensures
        r == is_absolute_url(s@),
{
    url::Url::parse(s).is_ok()
}

/// What `url::Url::join` makes of a reference against a base, if both can be read.
pub uninterp spec fn joined_url(base: Seq<char>, href: Seq<char>) -> Option<Seq<char>>;

/// `url::Url::join`: the absolute URL of a reference against a base URL; nothing where the base is
/// no URL or the reference cannot be joined to it.
#[verifier::external_body]
pub(crate) fn join(base: &str, href: &str) -> (r: Option<String>)
    ensures
        r.deep_view() == joined_url(base@, href@),
        !is_absolute_url(base@) ==> r is None,
{
    Some(url::Url::parse(base).ok()?.join(href).ok()?.to_string())
}

/// A reference resolved against a base, or as it stands where that cannot be done.
pub open spec fn resolved(base: Seq<char>, href: Seq<char>) -> Seq<char> {
    or_as_is(joined_url(base, href), href)
}

/// What was joined, or the reference as it stands.
pub open spec fn or_as_is(joined: Option<Seq<char>>, href: Seq<char>) -> Seq<char> {
    match joined {
        Some(u) => u,
        None => href,
    }
}

/// Resolves a reference against a base; keeps it as it stands where that cannot be done.
pub fn resolve(base: &str, href: &str) -> (r: String)
    ensures
        r@ == resolved(base@, href@),
{
    match join(base, href) {
        Some(u) => u,
        None => href.to_owned(),
    }
}

/// What `url::Url::host_str` gives of a URL: its host, if it has one.
pub uninterp spec fn host_in(s: Seq<char>) -> Option<Seq<char>>;

/// What `url::Url::port_or_known_default` gives of a URL: its port, or that of its scheme, if there
/// is either.
pub uninterp spec fn port_in(s: Seq<char>) -> Option<u16>;

/// `url::Url::host_str` and `url::Url::port_or_known_default` of a URL; nothing where the text is no
/// URL.
#[verifier::external_body]
pub(crate) fn address_of(s: &str) -> (r: Option<(Option<String>, Option<u16>)>)
    ensures
        match r {
            Some((host, port)) => is_absolute_url(s@) && host.deep_view() == host_in(s@) && port
                == port_in(s@),
            None => !is_absolute_url(s@),
        },
{
    let u = url::Url::parse(s).ok()?;
    Some((u.host_str().map(|h| h.to_owned()), u.port_or_known_default()))
}

} // verus!
