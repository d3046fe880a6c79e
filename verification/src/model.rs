//! Output types: what agents read. Field names are a stable contract, and optional fields print
//! as `null`, never left out.

use vstd::prelude::*;
use vstd::string::*;

use crate::json::Json;

verus! {

/// Output schema version.
pub const SCHEMA_VERSION: &'static str = "1";

/// Top-level result of a fetch.
#[derive(Debug, Clone)]
pub struct FetchOutput {
    pub schema_version: String,
    /// RFC-3339 UTC instant at which this invocation ran.
    pub fetched_at: String,
    /// Number of items across every feed.
    pub total_items: usize,
    /// Sum of every item's `content_tokens_est`.
    pub total_content_tokens_est: u64,
    pub feeds: Vec<FeedResult>,
    /// Feed-level errors, mirrored from the feeds for quick scanning.
    pub errors: Vec<ErrorObj>,
    /// Notes on the data that are no failures.
    pub warnings: Vec<Warning>,
    /// How this result was bounded, if it was.
    pub truncation: Option<TruncationInfo>,
    /// What filtering ran and what it removed, if any ran.
    pub applied_filters: Option<AppliedFilters>,
    /// Groups of items that resolve to the same underlying entry.
    pub duplicates: Vec<DuplicateGroup>,
}

/// Which field matched when grouping duplicate items.
#[derive(Debug, Clone, Copy, PartialEq, Eq, Hash, Structural)]
pub enum DuplicateKeyKind {
    Guid,
    Url,
    /// The hash of the body text alone, used where an item has neither a guid nor a url.
    ContentHash,
}

/// A group of items that share a key. `item_ids[i]` came from `feed_urls[i]`.
#[derive(Debug, Clone)]
pub struct DuplicateGroup {
    pub key: String,
    pub key_kind: DuplicateKeyKind,
    /// The first is canonical: the copy that `drop_duplicates` keeps.
    pub item_ids: Vec<String>,
    pub feed_urls: Vec<String>,
}

/// What filtering was applied to a fetch and what it removed.
#[derive(Debug, Clone)]
pub struct AppliedFilters {
    pub since: Option<String>,
    pub query: Option<String>,
    pub items_filtered_out: usize,
}

/// A note about a feed that still parsed and produced items.
#[derive(Debug, Clone)]
pub struct Warning {
    pub feed_url: Option<String>,
    pub code: String,
    pub message: String,
}

/// How a `FetchOutput` was bounded.
#[derive(Debug, Clone)]
pub struct TruncationInfo {
    /// The item cap applied, if one was.
    pub applied_limit: Option<usize>,
    /// Number of items whose `content` was cut short.
    pub items_content_truncated: usize,
    /// Number of items left out of this page.
    pub items_omitted: usize,
    /// Number of whole feeds left out of this page.
    pub feeds_omitted: usize,
    /// Token for the next page; `None` where this response is complete.
    pub next_cursor: Option<String>,
    pub estimated_tokens: Option<usize>,
    pub suggestion: Option<String>,
}

/// Outcome of fetching a single feed.
#[derive(Debug, Clone, Copy, PartialEq, Eq, Structural)]
pub enum FeedStatus {
    /// Fetched and parsed fresh content.
    Fresh,
    /// The server answered `304 Not Modified`; served from cache.
    NotModified,
    /// The origin refused or failed the revalidation; an older cached copy was served.
    Stale,
    /// The feed failed to fetch or parse; see `error`.
    Error,
}

/// Per-feed result.
#[derive(Debug, Clone)]
pub struct FeedResult {
    pub feed_url: String,
    pub status: FeedStatus,
    pub from_cache: bool,
    pub title: Option<String>,
    pub site_url: Option<String>,
    pub updated: Option<String>,
    /// Number of items; equals `items.len()`.
    pub item_count: usize,
    /// Sum of the items' `content_tokens_est`.
    pub content_tokens_est_total: u64,
    pub items: Vec<Item>,
    pub error: Option<ErrorObj>,
    /// When the served cache entry was last written.
    pub cached_at: Option<String>,
    /// Seconds since `cached_at`.
    pub cache_age_seconds: Option<u64>,
}

/// Which feed field the stable item id was derived from.
#[derive(Debug, Clone, Copy, PartialEq, Eq, Structural)]
pub enum IdSource {
    Link,
    Guid,
    Hash,
}

/// The format of an item's content.
#[derive(Debug, Clone, Copy, PartialEq, Eq, Structural)]
pub enum ContentFormat {
    Markdown,
    Text,
    Html,
    /// Content extraction disabled.
    Omit,
}

impl Default for ContentFormat {
    fn default() -> (r: Self)
        ensures
            r == ContentFormat::Markdown,
    {
        ContentFormat::Markdown
    }
}

/// A single feed item.
#[derive(Debug, Clone)]
pub struct Item {
    /// Stable, deterministic identifier.
    pub id: String,
    pub id_source: IdSource,
    pub feed_url: String,
    pub title: Option<String>,
    /// Resolved, absolute permalink.
    pub url: Option<String>,
    pub authors: Vec<String>,
    pub published: Option<String>,
    pub updated: Option<String>,
    pub summary: Option<String>,
    /// Item body in `content_format`.
    pub content: Option<String>,
    pub content_format: ContentFormat,
    /// Rough token estimate for `content` as it stands.
    pub content_tokens_est: u32,
    /// Whether `content` was cut short.
    pub content_truncated: bool,
    /// Hash of the whole extracted content, before any cut.
    pub content_hash: Option<String>,
    pub categories: Vec<String>,
    pub enclosures: Vec<Enclosure>,
    /// The guid as the feed gave it.
    pub guid: Option<String>,
}

/// A media attachment.
#[derive(Debug, Clone)]
pub struct Enclosure {
    pub url: String,
    pub mime: Option<String>,
    pub length: Option<u64>,
}

/// A structured, machine-readable error.
#[derive(Debug, Clone)]
pub struct ErrorObj {
    pub feed_url: Option<String>,
    pub code: String,
    pub message: String,
    pub details: Json,
}

/// Top-level result of a discovery.
#[derive(Debug, Clone)]
pub struct DiscoverOutput {
    pub schema_version: String,
    pub site_url: String,
    pub feeds: Vec<DiscoveredFeed>,
}

/// A feed discovered on a website.
#[derive(Debug, Clone)]
pub struct DiscoveredFeed {
    pub url: String,
    /// `rss`, `atom`, `json` or `unknown`.
    pub feed_type: String,
    pub title: Option<String>,
}

/// An optional text, copied.
pub fn copy_opt(s: &Option<String>) -> (r: Option<String>)
    ensures
        r.deep_view() == s.deep_view(),
{
    match s {
        Some(t) => Some(t.clone()),
        None => None,
    }
}

/// A list of texts, copied.
pub fn copy_texts(v: &Vec<String>) -> (r: Vec<String>)
    ensures
        r.deep_view() == v.deep_view(),
{
    let mut out: Vec<String> = Vec::new();
    let mut i: usize = 0;
    while i < v.len()
        invariant
            i <= v@.len(),
            out@.len() == i,
            forall|k: int| 0 <= k < i ==> #[trigger] out@[k]@ == v@[k]@,
        decreases v@.len() - i,
    {
        out.push(v[i].clone());
        i = i + 1;
    }
    assert(out.deep_view() =~= v.deep_view());
    out
}

impl FetchOutput {
    /// A result with nothing in it yet.
    pub fn new(fetched_at: String) -> (r: FetchOutput)
        ensures
            r.schema_version@ == SCHEMA_VERSION@,
            r.fetched_at == fetched_at,
            r.total_items == 0,
            r.total_content_tokens_est == 0,
            r.feeds@.len() == 0,
            r.errors@.len() == 0,
            r.warnings@.len() == 0,
            r.truncation is None,
            r.applied_filters is None,
            r.duplicates@.len() == 0,
    {
        FetchOutput {
            schema_version: SCHEMA_VERSION.to_owned(),
            fetched_at,
            total_items: 0,
            total_content_tokens_est: 0,
            feeds: Vec::new(),
            errors: Vec::new(),
            warnings: Vec::new(),
            truncation: None,
            applied_filters: None,
            duplicates: Vec::new(),
        }
    }
}

impl FeedResult {
    /// The result of a feed that failed before producing items.
    pub fn error(feed_url: &str, error: ErrorObj) -> (r: FeedResult)
        ensures
            r.feed_url@ == feed_url@,
            r.status == FeedStatus::Error,
            !r.from_cache,
            r.title is None,
            r.site_url is None,
            r.updated is None,
            r.item_count == 0,
            r.content_tokens_est_total == 0,
            r.items@.len() == 0,
            r.error == Some(error),
            r.cached_at is None,
            r.cache_age_seconds is None,
    {
        FeedResult {
            feed_url: feed_url.to_owned(),
            status: FeedStatus::Error,
            from_cache: false,
            title: None,
            site_url: None,
            updated: None,
            item_count: 0,
            content_tokens_est_total: 0,
            items: Vec::new(),
            error: Some(error),
            cached_at: None,
            cache_age_seconds: None,
        }
    }
}

impl ErrorObj {
    /// An error with no feed and no details.
    pub fn new(code: &str, message: &str) -> (r: ErrorObj)
        ensures
            r.feed_url is None,
            r.code@ == code@,
            r.message@ == message@,
            r.details@ == crate::json::JsonView::Obj(Seq::empty()),
    {
        let fields: Vec<(String, Json)> = Vec::new();
        proof {
            crate::json::lemma_obj_members(fields);
            assert(crate::json::members(fields@) =~= Seq::empty());
        }
        ErrorObj {
            feed_url: None,
            code: code.to_owned(),
            message: message.to_owned(),
            details: Json::Obj(fields),
        }
    }

    /// The same error, pertaining to `feed_url`.
    pub fn with_feed(self, feed_url: &str) -> (r: ErrorObj)
        ensures
            r.feed_url.deep_view() == Some(feed_url@),
            r.code == self.code,
            r.message == self.message,
            r.details == self.details,
    {
        ErrorObj { feed_url: Some(feed_url.to_owned()), ..self }
    }

    /// The same error with these details.
    pub fn with_details(self, details: Json) -> (r: ErrorObj)
        ensures
            r.feed_url == self.feed_url,
            r.code == self.code,
            r.message == self.message,
            r.details == details,
    {
        ErrorObj { details, ..self }
    }

    /// Both say the same.
    pub open spec fn same_as(self, other: ErrorObj) -> bool {
        &&& self.feed_url.deep_view() == other.feed_url.deep_view()
        &&& self.code@ == other.code@
        &&& self.message@ == other.message@
        &&& self.details@ == other.details@
    }

    /// An error that says the same.
    pub fn copy(&self) -> (r: ErrorObj)
        ensures
            r.same_as(*self),
    {
        ErrorObj {
            feed_url: copy_opt(&self.feed_url),
            code: self.code.clone(),
            message: self.message.clone(),
            details: self.details.copy(),
        }
    }
}

impl DiscoverOutput {
    /// The feeds found on `site_url`.
    pub fn new(site_url: &str, feeds: Vec<DiscoveredFeed>) -> (r: DiscoverOutput)
        ensures
            r.schema_version@ == SCHEMA_VERSION@,
            r.site_url@ == site_url@,
            r.feeds == feeds,
    {
        DiscoverOutput {
            schema_version: SCHEMA_VERSION.to_owned(),
            site_url: site_url.to_owned(),
            feeds,
        }
    }
}

} // verus!
