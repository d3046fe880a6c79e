//! What fetching promises: which statuses mean what, how long is waited, when a copy is served, and what
//! a response comes to.

use vstd::prelude::*;

use crate::cache::CacheEntry;
use crate::config::CachePolicy;
use crate::error::RssError;
use crate::fetch::{
    asked_wait, covers, fresh_at, is_served, is_settled, is_success, retryable, serves_cached, short_wait,
    stands_in, step_after, RawFeed, Reply, SendStep, Settled,
};
use crate::text::{trimmed, unsigned_value};
use crate::time::{rfc2822_instant, Duration, Timestamp};

verus! {

/// The second hundred are the successes, and 403 and 429 are the throttles, which are sent once more: half
/// a second later, or after the seconds that the server names, but five seconds at most.
pub proof fn law_throttles_are_sent_once_more_after_a_short_wait(status: u16, raw: Option<Seq<char>>)
    ensures
        is_success(status) <==> status / 100 == 2,
        retryable(status) <==> status == 403 || status == 429,
        status == 403 || status == 429 ==> step_after(true, status, raw) == SendStep::Retry(
            Duration {
                millis: (match raw {
                    Some(s) => match unsigned_value(trimmed(s), u64::MAX as nat) {
                        Some(n) => if n < 5 {
                            1000 * n
                        } else {
                            5000
                        },
                        None => 500,
                    },
                    None => 500,
                }) as u128,
            },
        ),
        status != 403 && status != 429 ==> step_after(true, status, raw) == SendStep::Finish,
        step_after(false, status, raw) == SendStep::Finish,
{
}

/// A `Retry-After` in seconds asks for that many; one that is a date asks for the time until it, where it
/// has not passed; anything else asks for nothing.
pub proof fn law_a_wait_is_seconds_or_until_a_date(s: Seq<char>, now: Timestamp, max: int)
    ensures
        asked_wait(None, now) is None,
        short_wait(None, max) is None,
        unsigned_value(trimmed(s), u64::MAX as nat) matches Some(n) ==> asked_wait(Some(s), now) == Some(
            (n * 1000) as int,
        ) && (n * 1000 <= max ==> short_wait(Some(s), max) == Some((n * 1000) as int)) && (n * 1000 >= max
            ==> short_wait(Some(s), max) == Some(max)),
        unsigned_value(trimmed(s), u64::MAX as nat) is None ==> short_wait(Some(s), max) is None,
        unsigned_value(trimmed(s), u64::MAX as nat) is None && rfc2822_instant(trimmed(s)) is None
            ==> asked_wait(Some(s), now) is None,
        unsigned_value(trimmed(s), u64::MAX as nat) is None && (rfc2822_instant(trimmed(s)) matches Some(t)
            && t.nanos < 1_000_000_000 && now.nanos < 1_000_000_000) ==> {
            let t = rfc2822_instant(trimmed(s))->Some_0;
            let left = (t.secs * 1_000_000_000 + t.nanos) - (now.secs * 1_000_000_000 + now.nanos);
            &&& left < 0 ==> asked_wait(Some(s), now) is None
            &&& left >= 0 ==> (asked_wait(Some(s), now) matches Some(ms) && ms * 1_000_000 <= left < (ms + 1)
                * 1_000_000)
        },
{
    if let Some(t) = rfc2822_instant(trimmed(s)) {
        if t.nanos < 1_000_000_000 && now.nanos < 1_000_000_000 {
            crate::content_laws::law_time_passes_in_nanoseconds(t, now);
        }
    }
}

/// A copy is fresh while less time than the span has passed since it was written, and not once it has; a
/// copy that does not say when it was written never is. A span of more seconds than milliseconds can be
/// counted in 63 bits never ends.
pub proof fn law_a_copy_is_fresh_for_its_span(written: Timestamp, span: Duration, now: Timestamp)
    requires
        written.nanos < 1_000_000_000,
        now.nanos < 1_000_000_000,
    ensures
        span.millis >= 9_223_372_036_854_776_000 ==> fresh_at(Some(written), span, now),
        span.millis < 9_223_372_036_854_776_000 ==> (fresh_at(Some(written), span, now) <==> (now.secs * 1_000_000_000 + now.nanos) - (written.secs
            * 1_000_000_000 + written.nanos) < span.millis * 1_000_000),
        !fresh_at(None, span, now),
{
    crate::content_laws::law_time_passes_in_nanoseconds(now, written);
}

/// A copy covers a window exactly when it was written when the window opens or later; where no window is
/// asked for, any copy does.
pub proof fn law_a_copy_covers_what_opened_before_it(written: Option<Timestamp>, floor: Timestamp)
    ensures
        covers(written, None),
        covers(written, Some(floor)) <==> (written matches Some(t) && (t.secs > floor.secs || t.secs
            == floor.secs && t.nanos >= floor.nanos)),
{
}

/// A cached copy is served without asking only under two policies: under `CacheFirst` always, and under
/// `MaxAge` while it is fresh. Without a copy the origin is always asked.
pub proof fn law_when_the_origin_is_not_asked(e: CacheEntry, now: Timestamp, d: Duration)
    ensures
        serves_cached(CachePolicy::CacheFirst, Some(e), now),
        serves_cached(CachePolicy::MaxAge(d), Some(e), now) <==> fresh_at(
            crate::time::rfc3339_instant(e.meta.fetched_at@),
            d,
            now,
        ),
        !serves_cached(CachePolicy::NoCache, Some(e), now),
        !serves_cached(CachePolicy::Revalidate, Some(e), now),
        !serves_cached(CachePolicy::StaleIfError, Some(e), now),
        forall|p: CachePolicy| !(#[trigger] serves_cached(p, None, now)),
{
}

/// A copy that is served without asking is what the cache holds: its body and type, at the address that
/// was asked for, with the time at which it was written.
pub proof fn law_a_served_copy_is_what_the_cache_holds(raw: RawFeed, e: CacheEntry, url: Seq<char>)
    requires
        is_served(raw, e, url),
    ensures
        raw.body == e.body,
        raw.final_url@ == url,
        raw.content_type == e.meta.content_type,
        raw.cached_at matches Some(t) && t@ == e.meta.fetched_at@,
        raw.from_cache && raw.not_modified && raw.status == 200 && raw.stale_reason is None,
{
}

/// An answer that confirms the copy serves it and keeps its validators under a new stamp.
pub proof fn law_a_confirmed_copy_is_served_and_restamped(
    s: Settled,
    url: Seq<char>,
    policy: CachePolicy,
    e: CacheEntry,
    reply: Reply,
    hint: Option<Duration>,
    now: Seq<char>,
)
    requires
        is_settled(s, url, policy, Some(e), reply, hint, now),
        policy != CachePolicy::NoCache,
        reply.status == 304,
    ensures
        s.result matches Ok(raw) && raw.body == e.body && raw.final_url == reply.final_url
            && raw.content_type.deep_view() == e.meta.content_type.deep_view() && raw.status == 304
            && raw.not_modified && raw.from_cache && raw.cached_at.deep_view() == Some(e.meta.fetched_at@)
            && raw.stale_reason is None,
        s.store matches Some(m) && m.feed_url@ == url && m.etag == e.meta.etag && m.last_modified
            == e.meta.last_modified && m.fetched_at@ == now && m.content_type.deep_view()
            == e.meta.content_type.deep_view(),
{
}

/// A success is served as it came and, unless the cache is left alone, stored with its own validators.
pub proof fn law_a_success_is_served_and_stored(
    s: Settled,
    url: Seq<char>,
    policy: CachePolicy,
    cached: Option<CacheEntry>,
    reply: Reply,
    hint: Option<Duration>,
    now: Seq<char>,
)
    requires
        is_settled(s, url, policy, cached, reply, hint, now),
        200 <= reply.status < 300,
    ensures
        s.result matches Ok(raw) && raw.body == reply.body && raw.final_url == reply.final_url
            && raw.content_type.deep_view() == reply.content_type.deep_view() && raw.status == reply.status
            && !raw.not_modified && !raw.from_cache && raw.cached_at is None && raw.stale_reason is None,
        policy == CachePolicy::NoCache ==> s.store is None,
        policy != CachePolicy::NoCache ==> (s.store matches Some(m) && m.feed_url@ == url && m.etag
            == reply.etag && m.last_modified == reply.last_modified && m.fetched_at@ == now
            && m.content_type.deep_view() == reply.content_type.deep_view()),
{
}

/// Anything else is an error that names the status and the address that was asked for, and passes on how
/// long to wait. Nothing is stored. A confirmation of a copy that is not there is an error too.
pub proof fn law_a_refusal_is_an_error(
    s: Settled,
    url: Seq<char>,
    policy: CachePolicy,
    cached: Option<CacheEntry>,
    reply: Reply,
    hint: Option<Duration>,
    now: Seq<char>,
)
    requires
        is_settled(s, url, policy, cached, reply, hint, now),
        reply.status < 200 || reply.status >= 300,
        reply.status == 304 ==> cached is None || policy == CachePolicy::NoCache,
    ensures
        s.store is None,
        s.result is Err,
        reply.status != 304 || policy == CachePolicy::NoCache ==> (s.result matches Err(RssError::Http {
            status,
            url: u,
            retry_after,
            retry_after_hint,
        }) && status == reply.status && u@ == url && retry_after == reply.retry_after && retry_after_hint
            == hint),
        reply.status == 304 && policy != CachePolicy::NoCache ==> s.result->Err_0 is Network,
{
}

/// An old copy stands in for an error exactly where that is asked for, the origin refused or could not be
/// reached, and there is a copy that covers the window.
pub proof fn law_when_an_old_copy_stands_in(
    policy: CachePolicy,
    e: RssError,
    cached: Option<CacheEntry>,
    floor: Option<Timestamp>,
)
    ensures
        stands_in(policy, e, cached, floor) <==> policy == CachePolicy::StaleIfError && (e is Http
            || e is RateLimited || e is Network) && (cached matches Some(c) && covers(
            crate::time::rfc3339_instant(c.meta.fetched_at@),
            floor,
        )),
{
}

} // verus!
