//! Conditional GET: what to request, and what a response or a refusal becomes.

use vstd::prelude::*;
use vstd::string::*;

use crate::cache::{CacheEntry, CacheMeta};
use crate::config::CachePolicy;
use crate::error::RssError;
use crate::model::copy_opt;
use crate::ratelimit::HostGate;
use crate::text::{parse_u64, trim};
use crate::time::{parse_rfc2822, parse_rfc3339, Duration, Timestamp};

verus! {

/// Raw bytes of a fetched or cached feed, and what parsing needs to know of them.
#[derive(Debug, Clone)]
pub struct RawFeed {
    pub body: Vec<u8>,
    /// URL after redirects.
    pub final_url: String,
    pub content_type: Option<String>,
    pub status: u16,
    /// Whether the body was served from cache as current.
    pub not_modified: bool,
    /// Whether the body came from the cache.
    pub from_cache: bool,
    /// When the served body was written to the cache, where it came from there.
    pub cached_at: Option<String>,
    /// Why the body is stale, where the origin refused the revalidation.
    pub stale_reason: Option<String>,
}

/// A response, as far as it is read here.
#[derive(Debug)]
pub struct Reply {
    pub status: u16,
    pub final_url: String,
    pub content_type: Option<String>,
    pub etag: Option<String>,
    pub last_modified: Option<String>,
    pub retry_after: Option<String>,
    /// The body, empty where it was not read.
    pub body: Vec<u8>,
}

/// What a fetch does first.
#[derive(Debug)]
pub enum FetchPlan {
    /// Serve this, without a request.
    Serve(RawFeed),
    /// Send a request with these validators.
    Request { etag: Option<String>, last_modified: Option<String> },
}

/// What a reply comes to.
#[derive(Debug)]
pub struct Settled {
    pub result: Result<RawFeed, RssError>,
    /// The metadata to write to the cache with the result's body, where there is any to write.
    pub store: Option<CacheMeta>,
}

/// Longest wait before the single retry, in milliseconds.
pub const RETRY_MAX_DELAY_MS: u128 = 5_000;

/// Wait before the single retry where the server names none, in milliseconds.
pub const RETRY_BASE_DELAY_MS: u128 = 500;

/// The status is a success.
pub open spec fn is_success(status: u16) -> bool {
    200 <= status < 300
}

/// Whether the status is a success.
pub fn succeeded(status: u16) -> (r: bool)
    ensures
        r == is_success(status),
{
    200 <= status && status < 300
}

/// Statuses that are retried once: throttles.
pub open spec fn retryable(status: u16) -> bool {
    status == 403 || status == 429
}

/// Whether the status is retried once.
pub fn is_retryable(status: u16) -> (r: bool)
    ensures
        r == retryable(status),
{
    status == 403 || status == 429
}

/// Whether an entry written at this instant is younger than a span.
pub open spec fn fresh_at(written: Option<Timestamp>, max_age: Duration, now: Timestamp) -> bool {
    match written {
        None => false,
        Some(t) => max_age.secs() > crate::config::MAX_LOOKBACK_SECS || now.nanos_since(t)
            < max_age.millis * 1_000_000,
    }
}

/// Whether an entry written at this instant is younger than a span.
pub fn is_fresh_at(written: Option<Timestamp>, max_age: Duration, now: Timestamp) -> (r: bool)
    ensures
        r == fresh_at(written, max_age, now),
{
    match written {
        None => false,
        Some(t) => if max_age.as_secs() > crate::config::MAX_LOOKBACK_SECS {
            true
        } else {
            now.nanos_after(&t) < max_age.millis as i128 * 1_000_000
        },
    }
}

/// Whether a cache entry with this stamp is younger than a span. One whose stamp cannot be read is
/// not.
pub fn is_fresh(fetched_at: &str, max_age: Duration, now: Timestamp) -> (r: bool)
    ensures
        r == fresh_at(crate::time::rfc3339_instant(fetched_at@), max_age, now),
{
    is_fresh_at(parse_rfc3339(fetched_at), max_age, now)
}

/// Whether a copy written at this instant can cover a window that opens at `floor`: it was written
/// no earlier, or no window is asked for.
pub open spec fn covers(written: Option<Timestamp>, floor: Option<Timestamp>) -> bool {
    match floor {
        None => true,
        Some(f) => written matches Some(t) && !t.before(f),
    }
}

/// Whether a copy with this stamp can cover a window that opens at `floor`. One whose stamp cannot
/// be read cannot.
pub fn covers_window(fetched_at: &str, floor: Option<Timestamp>) -> (r: bool)
    ensures
        r == covers(crate::time::rfc3339_instant(fetched_at@), floor),
{
    match floor {
        None => true,
        Some(f) => match parse_rfc3339(fetched_at) {
            Some(t) => !t.is_before(&f),
            None => false,
        },
    }
}

/// The error means that the origin refused or failed to answer.
pub open spec fn refusal(e: RssError) -> bool {
    e is Http || e is RateLimited || e is Network
}

/// Whether an error means that the origin refused or failed to answer: the only kind that an old
/// copy may stand in for.
pub fn is_origin_refusal(e: &RssError) -> (r: bool)
    ensures
        r == refusal(*e),
{
    match e {
        RssError::Http { .. } => true,
        RssError::RateLimited { .. } => true,
        RssError::Network(_) => true,
        _ => false,
    }
}

/// What a `Retry-After` in seconds asks for, at most `max` milliseconds.
pub open spec fn short_wait(raw: Option<Seq<char>>, max: int) -> Option<int> {
    match raw {
        None => None,
        Some(s) => match crate::text::unsigned_value(crate::text::trimmed(s), u64::MAX as nat) {
            Some(n) => Some(if n * 1000 < max {
                (n * 1000) as int
            } else {
                max
            }),
            None => None,
        },
    }
}

/// The wait that a `Retry-After` in seconds asks for, at most `max`.
pub fn retry_after(raw: Option<&str>, max: Duration) -> (r: Option<Duration>)
    ensures
        match r {
            Some(d) => short_wait(crate::identity::chars(raw), max.millis as int) == Some(
                d.millis as int,
            ),
            None => short_wait(crate::identity::chars(raw), max.millis as int) is None,
        },
{
    match raw {
        None => None,
        Some(s) => match parse_u64(trim(s).as_str()) {
            Some(n) => {
                let d = Duration::from_secs(n);
                if d.millis < max.millis {
                    Some(d)
                } else {
                    Some(max)
                }
            },
            None => None,
        },
    }
}

/// What a `Retry-After` asks for, in milliseconds from `now`: its seconds, or the time until its
/// date where that has not passed.
pub open spec fn asked_wait(raw: Option<Seq<char>>, now: Timestamp) -> Option<int> {
    match raw {
        None => None,
        Some(s) => {
            let t = crate::text::trimmed(s);
            match crate::text::unsigned_value(t, u64::MAX as nat) {
                Some(n) => Some((n * 1000) as int),
                None => until(crate::time::rfc2822_instant(t), now),
            }
        },
    }
}

/// The milliseconds until an instant that has not passed.
pub open spec fn until(when: Option<Timestamp>, now: Timestamp) -> Option<int> {
    match when {
        Some(t) => if t.nanos_since(now) >= 0 {
            Some(t.nanos_since(now) / 1_000_000)
        } else {
            None
        },
        None => None,
    }
}

/// The milliseconds until an instant that has not passed.
pub fn time_until(when: Option<Timestamp>, now: Timestamp) -> (r: Option<Duration>)
    ensures
        match r {
            Some(d) => until(when, now) == Some(d.millis as int),
            None => until(when, now) is None,
        },
{
    match when {
        Some(t) => {
            let n: i128 = t.nanos_after(&now);
            if n >= 0 {
                Some(Duration { millis: (n / 1_000_000) as u128 })
            } else {
                None
            }
        },
        None => None,
    }
}

/// The wait from `now` that a `Retry-After` asks for, in seconds or as a date.
pub fn retry_after_duration(raw: Option<&str>, now: Timestamp) -> (r: Option<Duration>)
    ensures
        match r {
            Some(d) => asked_wait(crate::identity::chars(raw), now) == Some(d.millis as int),
            None => asked_wait(crate::identity::chars(raw), now) is None,
        },
{
    match raw {
        None => None,
        Some(s) => {
            let t = trim(s);
            match parse_u64(t.as_str()) {
                Some(n) => Some(Duration::from_secs(n)),
                None => time_until(parse_rfc2822(t.as_str()), now),
            }
        },
    }
}

/// What follows a response.
#[derive(Debug, Clone, Copy, PartialEq, Eq, Structural)]
pub enum SendStep {
    /// The response stands.
    Finish,
    /// Wait this long and send once more.
    Retry(Duration),
}

/// The step after the first or the second response.
pub open spec fn step_after(first: bool, status: u16, raw: Option<Seq<char>>) -> SendStep {
    if first && retryable(status) {
        SendStep::Retry(
            Duration {
                millis: (match short_wait(raw, RETRY_MAX_DELAY_MS as int) {
                    Some(n) => n,
                    None => RETRY_BASE_DELAY_MS as int,
                }) as u128,
            },
        )
    } else {
        SendStep::Finish
    }
}

/// Tells the host gate of a response, and says what follows it: a throttle is retried once, after a short
/// wait; any other response, and the second, stands.
pub fn after_response(
    gate: &mut HostGate,
    url: &str,
    first: bool,
    status: u16,
    raw_retry_after: Option<&str>,
    now: Timestamp,
    now_ms: i64,
) -> (r: SendStep)
    ensures
        r == step_after(first, status, crate::identity::chars(raw_retry_after)),
        crate::ratelimit::only_changed(
            *final(gate),
            *old(gate),
            crate::ratelimit::authority(url@),
            if retryable(status) {
                crate::ratelimit::throttled(
                    *old(gate),
                    old(gate).state_of(crate::ratelimit::authority(url@)),
                    match asked_wait(crate::identity::chars(raw_retry_after), now) {
                        Some(n) => Some(Duration { millis: n as u128 }),
                        None => None,
                    },
                    now_ms,
                )
            } else {
                crate::ratelimit::eased(old(gate).state_of(crate::ratelimit::authority(url@)))
            },
        ),
{
    if !is_retryable(status) {
        gate.note_success(url);
        return SendStep::Finish;
    }
    gate.note_throttled(url, retry_after_duration(raw_retry_after, now), now_ms);
    if !first {
        return SendStep::Finish;
    }
    let wait = match retry_after(raw_retry_after, Duration { millis: RETRY_MAX_DELAY_MS }) {
        Some(d) => d,
        None => Duration { millis: RETRY_BASE_DELAY_MS },
    };
    SendStep::Retry(wait)
}

/// The feed is a cached body, served as current without a request.
pub open spec fn is_served(raw: RawFeed, e: CacheEntry, url: Seq<char>) -> bool {
    &&& raw.body == e.body
    &&& raw.final_url@ == url
    &&& raw.content_type == e.meta.content_type
    &&& raw.status == 200
    &&& raw.not_modified
    &&& raw.from_cache
    &&& raw.cached_at.deep_view() == Some(e.meta.fetched_at@)
    &&& raw.stale_reason is None
}

/// The cached entry is served without a request.
pub open spec fn serves_cached(policy: CachePolicy, cached: Option<CacheEntry>, now: Timestamp) -> bool {
    cached matches Some(e) && match policy {
        CachePolicy::MaxAge(d) => fresh_at(
            crate::time::rfc3339_instant(e.meta.fetched_at@),
            d,
            now,
        ),
        CachePolicy::CacheFirst => true,
        _ => false,
    }
}

/// Decides what a fetch does first: under `MaxAge` a fresh entry, and under `CacheFirst` any entry,
/// is served without a request; otherwise a request goes out, with the entry's validators unless the
/// cache is not to be read.
pub fn plan_fetch(url: &str, policy: CachePolicy, cached: Option<CacheEntry>, now: Timestamp) -> (r:
    FetchPlan)
    ensures
        serves_cached(policy, cached, now) ==> (r matches FetchPlan::Serve(raw) && is_served(
            raw,
            cached->Some_0,
            url@,
        )),
        !serves_cached(policy, cached, now) ==> (r matches FetchPlan::Request {
            etag,
            last_modified,
        } && (if policy != CachePolicy::NoCache && cached is Some {
            &&& etag == cached->Some_0.meta.etag
            &&& last_modified == cached->Some_0.meta.last_modified
        } else {
            &&& etag is None
            &&& last_modified is None
        })),
{
    let e = match cached {
        Some(e) => e,
        None => {
            return FetchPlan::Request { etag: None, last_modified: None };
        },
    };
    let serve = match policy {
        CachePolicy::MaxAge(d) => is_fresh(e.meta.fetched_at.as_str(), d, now),
        CachePolicy::CacheFirst => true,
        CachePolicy::NoCache => {
            return FetchPlan::Request { etag: None, last_modified: None };
        },
        _ => false,
    };
    if serve {
        FetchPlan::Serve(
            RawFeed {
                body: e.body,
                final_url: url.to_owned(),
                content_type: e.meta.content_type,
                status: 200,
                not_modified: true,
                from_cache: true,
                cached_at: Some(e.meta.fetched_at),
                stale_reason: None,
            },
        )
    } else {
        FetchPlan::Request { etag: e.meta.etag, last_modified: e.meta.last_modified }
    }
}

/// The error is that of a response that is no success.
pub open spec fn is_http_error(e: RssError, url: Seq<char>, reply: Reply, hint: Option<Duration>) -> bool {
    e matches RssError::Http { status, url: u, retry_after, retry_after_hint } && status
        == reply.status && u@ == url && retry_after == reply.retry_after && retry_after_hint == hint
}

/// The feed is a fresh body.
pub open spec fn is_fetched(raw: RawFeed, reply: Reply) -> bool {
    &&& raw.body == reply.body
    &&& raw.final_url == reply.final_url
    &&& raw.content_type.deep_view() == reply.content_type.deep_view()
    &&& raw.status == reply.status
    &&& !raw.not_modified
    &&& !raw.from_cache
    &&& raw.cached_at is None
    &&& raw.stale_reason is None
}

/// What a response to a request outside the cache comes to.
pub fn settle_plain(url: &str, reply: Reply, hint: Option<Duration>) -> (r: Result<RawFeed, RssError>)
    ensures
        is_success(reply.status) ==> (r matches Ok(raw) && is_fetched(raw, reply)),
        !is_success(reply.status) ==> (r matches Err(e) && is_http_error(e, url@, reply, hint)),
{
    if !succeeded(reply.status) {
        return Err(
            RssError::Http {
                status: reply.status,
                url: url.to_owned(),
                retry_after: reply.retry_after,
                retry_after_hint: hint,
            },
        );
    }
    Ok(
        RawFeed {
            body: reply.body,
            final_url: reply.final_url,
            content_type: reply.content_type,
            status: reply.status,
            not_modified: false,
            from_cache: false,
            cached_at: None,
            stale_reason: None,
        },
    )
}

/// What a revalidation comes to: a `304` serves the cached body and restamps it, a success is stored
/// and served, anything else is an error.
pub open spec fn is_revalidated(
    s: Settled,
    url: Seq<char>,
    cached: Option<CacheEntry>,
    reply: Reply,
    hint: Option<Duration>,
    now: Seq<char>,
) -> bool {
    if reply.status == 304 {
        match cached {
            Some(e) => {
                &&& s.result matches Ok(raw) && raw.body == e.body && raw.final_url
                    == reply.final_url && raw.content_type.deep_view()
                    == e.meta.content_type.deep_view() && raw.status == 304 && raw.not_modified
                    && raw.from_cache && raw.cached_at.deep_view() == Some(e.meta.fetched_at@)
                    && raw.stale_reason is None
                &&& s.store matches Some(m) && m.feed_url@ == url && m.etag == e.meta.etag
                    && m.last_modified == e.meta.last_modified && m.fetched_at@ == now
                    && m.content_type.deep_view() == e.meta.content_type.deep_view()
            },
            None => {
                &&& s.result matches Err(RssError::Network(t)) && t@
                    == "server returned 304 but no cache entry exists for "@ + url
                &&& s.store is None
            },
        }
    } else if !is_success(reply.status) {
        &&& s.result matches Err(e) && is_http_error(e, url, reply, hint)
        &&& s.store is None
    } else {
        &&& s.result matches Ok(raw) && is_fetched(raw, reply)
        &&& s.store matches Some(m) && m.feed_url@ == url && m.etag == reply.etag
            && m.last_modified == reply.last_modified && m.fetched_at@ == now
            && m.content_type.deep_view() == reply.content_type.deep_view()
    }
}

/// Settles the response to a conditional GET. `now` is the stamp that the cache entry gets.
pub fn revalidate(
    url: &str,
    cached: Option<CacheEntry>,
    reply: Reply,
    hint: Option<Duration>,
    now: String,
) -> (r: Settled)
    ensures
        is_revalidated(r, url@, cached, reply, hint, now@),
{
    if reply.status == 304 {
        let e = match cached {
            Some(e) => e,
            None => {
                return Settled {
                    result: Err(
                        RssError::Network(
                            "server returned 304 but no cache entry exists for ".to_owned().concat(
                                url,
                            ),
                        ),
                    ),
                    store: None,
                };
            },
        };
        let content_type = copy_opt(&e.meta.content_type);
        let meta = CacheMeta {
            feed_url: url.to_owned(),
            etag: e.meta.etag,
            last_modified: e.meta.last_modified,
            fetched_at: now,
            content_type: e.meta.content_type,
        };
        return Settled {
            result: Ok(
                RawFeed {
                    body: e.body,
                    final_url: reply.final_url,
                    content_type,
                    status: 304,
                    not_modified: true,
                    from_cache: true,
                    cached_at: Some(e.meta.fetched_at),
                    stale_reason: None,
                },
            ),
            store: Some(meta),
        };
    }
    if !succeeded(reply.status) {
        return Settled { result: settle_plain(url, reply, hint), store: None };
    }
    let meta = CacheMeta {
        feed_url: url.to_owned(),
        etag: reply.etag,
        last_modified: reply.last_modified,
        fetched_at: now,
        content_type: copy_opt(&reply.content_type),
    };
    Settled {
        result: Ok(
            RawFeed {
                body: reply.body,
                final_url: reply.final_url,
                content_type: reply.content_type,
                status: reply.status,
                not_modified: false,
                from_cache: false,
                cached_at: None,
                stale_reason: None,
            },
        ),
        store: Some(meta),
    }
}

/// What a response comes to under a policy.
pub open spec fn is_settled(
    s: Settled,
    url: Seq<char>,
    policy: CachePolicy,
    cached: Option<CacheEntry>,
    reply: Reply,
    hint: Option<Duration>,
    now: Seq<char>,
) -> bool {
    if policy == CachePolicy::NoCache {
        &&& s.store is None
        &&& if is_success(reply.status) {
            s.result matches Ok(raw) && is_fetched(raw, reply)
        } else {
            s.result matches Err(e) && is_http_error(e, url, reply, hint)
        }
    } else {
        is_revalidated(s, url, cached, reply, hint, now)
    }
}

/// What a response comes to under a policy.
pub fn settle(
    url: &str,
    policy: CachePolicy,
    cached: Option<CacheEntry>,
    reply: Reply,
    hint: Option<Duration>,
    now: String,
) -> (r: Settled)
    ensures
        is_settled(r, url@, policy, cached, reply, hint, now@),
{
    match policy {
        CachePolicy::NoCache => Settled { result: settle_plain(url, reply, hint), store: None },
        _ => revalidate(url, cached, reply, hint, now),
    }
}

/// An old copy stands in for an error.
pub open spec fn stands_in(
    policy: CachePolicy,
    e: RssError,
    cached: Option<CacheEntry>,
    floor: Option<Timestamp>,
) -> bool {
    &&& policy == CachePolicy::StaleIfError
    &&& refusal(e)
    &&& cached matches Some(c) && covers(crate::time::rfc3339_instant(c.meta.fetched_at@), floor)
}

/// What a failed fetch comes to: under `StaleIfError`, where the origin refused and a cached copy can
/// cover the window, that copy, marked stale; otherwise the error.
pub fn fall_back(
    url: &str,
    policy: CachePolicy,
    e: RssError,
    cached: Option<CacheEntry>,
    floor: Option<Timestamp>,
) -> (r: Result<RawFeed, RssError>)
    ensures
        !stands_in(policy, e, cached, floor) ==> r == Err::<RawFeed, RssError>(e),
        stands_in(policy, e, cached, floor) ==> (r matches Ok(raw) && raw.body
            == cached->Some_0.body && raw.final_url@ == url@ && raw.content_type
            == cached->Some_0.meta.content_type && raw.status == 200 && !raw.not_modified
            && raw.from_cache && raw.cached_at.deep_view() == Some(
            cached->Some_0.meta.fetched_at@,
        ) && raw.stale_reason.deep_view() == Some(e.message_text())),
{
    match policy {
        CachePolicy::StaleIfError => {},
        _ => {
            return Err(e);
        },
    }
    if !is_origin_refusal(&e) {
        return Err(e);
    }
    let c = match cached {
        Some(c) => c,
        None => {
            return Err(e);
        },
    };
    if !covers_window(c.meta.fetched_at.as_str(), floor) {
        return Err(e);
    }
    Ok(
        RawFeed {
            body: c.body,
            final_url: url.to_owned(),
            content_type: c.meta.content_type,
            status: 200,
            not_modified: false,
            from_cache: true,
            cached_at: Some(c.meta.fetched_at),
            stale_reason: Some(e.message()),
        },
    )
}

/// Only a refusal by the origin is ever papered over with an old copy, and only where that is asked
/// for and the copy can cover the window.
pub proof fn law_only_refusals_are_papered_over(
    policy: CachePolicy,
    e: RssError,
    cached: Option<CacheEntry>,
    floor: Option<Timestamp>,
)
    requires
        stands_in(policy, e, cached, floor),
    ensures
        policy == CachePolicy::StaleIfError,
        e is Http || e is RateLimited || e is Network,
        cached is Some,
        floor matches Some(f) ==> (crate::time::rfc3339_instant(cached->Some_0.meta.fetched_at@)
            matches Some(t) && !t.before(f)),
{
}

/// `CacheFirst` serves any cached entry without a request, however old.
pub proof fn law_cache_first_never_asks_for_a_cached_feed(e: CacheEntry, now: Timestamp)
    ensures
        serves_cached(CachePolicy::CacheFirst, Some(e), now),
{
}

/// A body that was fetched and stored is what a later fetch serves: under `CacheFirst` without a
/// request, and where the origin confirms it, with the validators that came with it kept.
pub proof fn law_a_stored_body_is_served_until_it_changes(
    first: Settled,
    url: Seq<char>,
    cached: Option<CacheEntry>,
    reply: Reply,
    hint: Option<Duration>,
    stamp: Seq<char>,
    entry: CacheEntry,
    later: Timestamp,
    second: Settled,
    confirmation: Reply,
    second_hint: Option<Duration>,
    second_stamp: Seq<char>,
)
    requires
        is_revalidated(first, url, cached, reply, hint, stamp),
        is_success(reply.status),
        first.store == Some(entry.meta),
        first.result matches Ok(raw) && entry.body == raw.body,
        confirmation.status == 304,
        is_revalidated(second, url, Some(entry), confirmation, second_hint, second_stamp),
    ensures
        entry.body == reply.body,
        entry.meta.etag == reply.etag,
        entry.meta.last_modified == reply.last_modified,
        serves_cached(CachePolicy::CacheFirst, Some(entry), later),
        forall|raw: RawFeed| #[trigger]
            is_served(raw, entry, url) ==> raw.body == reply.body && raw.cached_at.deep_view()
                == Some(stamp),
        second.result matches Ok(raw) && raw.body == reply.body && raw.from_cache
            && raw.not_modified && raw.cached_at.deep_view() == Some(stamp),
        second.store matches Some(m) && m.etag == reply.etag && m.last_modified
            == reply.last_modified && m.fetched_at@ == second_stamp,
{
}

/// `NoCache` neither serves from the cache nor writes to it, and does not depend on what the cache
/// holds.
pub proof fn law_no_cache_leaves_the_cache_alone(
    s: Settled,
    url: Seq<char>,
    cached: Option<CacheEntry>,
    other: Option<CacheEntry>,
    reply: Reply,
    hint: Option<Duration>,
    stamp: Seq<char>,
    now: Timestamp,
)
    requires
        is_settled(s, url, CachePolicy::NoCache, cached, reply, hint, stamp),
    ensures
        !serves_cached(CachePolicy::NoCache, cached, now),
        s.store is None,
        is_settled(s, url, CachePolicy::NoCache, other, reply, hint, stamp),
        s.result matches Ok(raw) ==> !raw.from_cache,
{
}

/// The default policy always asks the origin.
pub proof fn law_revalidation_always_asks(cached: Option<CacheEntry>, now: Timestamp)
    ensures
        !serves_cached(CachePolicy::Revalidate, cached, now),
        !serves_cached(CachePolicy::StaleIfError, cached, now),
{
}

/// A throttle is retried once, after no more than the longest wait, and nothing else is retried.
pub proof fn law_a_throttle_is_retried_once(status: u16, raw: Option<Seq<char>>)
    ensures
        step_after(true, status, raw) is Retry <==> retryable(status),
        step_after(false, status, raw) == SendStep::Finish,
        step_after(true, status, raw) matches SendStep::Retry(d) ==> d.millis <= RETRY_MAX_DELAY_MS,
{
}

} // verus!
