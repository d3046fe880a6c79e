//! What a call of `fetch_feed` asks for: the laws of its deadline, its plan and its cursor.

use vstd::prelude::*;
use vstd::string::*;

use crate::args::{list_view, requested, FetchFeedArgs};
use crate::config::{CachePolicy, DedupeMode, FetchParams};
use crate::cursor::{request_text, CursorView};
use crate::mcp::{
    asked_format, asked_policy, asked_window, cursor_fault, deadline_secs, fingerprinted,
    format_value, is_refusal, no_cursor, or_blank, page_window, resume_value, same_but_window,
    PagePlan,
};
use crate::model::{ContentFormat, ErrorObj};
use crate::text::{ascii_lowercase, decimal, trimmed};
use crate::time::{Duration, Timestamp};

verus! {

/// A deadline is the number of seconds that is written, with or without white space around it;
/// without one, or with anything else, it is twenty-five seconds.
pub proof fn law_deadlines_are_in_seconds(n: nat, s: Seq<char>)
    requires
        n <= u64::MAX,
    ensures
        deadline_secs(None) == 25,
        trimmed(s) == decimal(n) ==> deadline_secs(Some(s)) == n,
        trimmed(s).len() == 0 ==> deadline_secs(Some(s)) == 25,
        crate::text::unsigned_value(trimmed(s), u64::MAX as nat) is None ==> deadline_secs(Some(s))
            == 25,
{
    crate::text::lemma_decimal_value(n);
    if trimmed(s).len() == 0 {
        crate::text_laws::law_unsigned_numbers(trimmed(s), u64::MAX as nat);
    }
}

/// Formats are known by their names, whatever the letter case, and by nothing else.
pub proof fn law_formats_are_known_by_name(s: Seq<char>)
    ensures
        ({
            let t = ascii_lowercase(trimmed(s));
            &&& format_value(s) == Some(ContentFormat::Markdown) <==> t == "markdown"@
            &&& format_value(s) == Some(ContentFormat::Text) <==> t == "text"@
            &&& format_value(s) == Some(ContentFormat::Html) <==> t == "html"@
            &&& format_value(s) == Some(ContentFormat::Omit) <==> t == "none"@
        }),
        asked_format(None) == Ok::<ContentFormat, Seq<char>>(ContentFormat::Markdown),
        forall|f: ContentFormat|
            asked_format(Some(s)) == Ok::<ContentFormat, Seq<char>>(f) <==> format_value(s)
                == #[trigger] same_format(f),
        format_value(s) is None ==> asked_format(Some(s)) == Err::<ContentFormat, Seq<char>>(
            "invalid content_format '"@ + s + "' (expected markdown|text|html|none)"@,
        ),
{
    reveal_strlit("markdown");
    reveal_strlit("text");
    reveal_strlit("html");
    reveal_strlit("none");
    assert("markdown"@.len() == 8);
    assert("text"@[0] == 't');
    assert("html"@[0] == 'h');
    assert("none"@[0] == 'n');
    assert("text"@.len() == 4 && "html"@.len() == 4 && "none"@.len() == 4);
}

/// A format, found.
pub open spec fn same_format(f: ContentFormat) -> Option<ContentFormat> {
    Some(f)
}

/// Two requests are fingerprinted alike only where they agree on the format, the window, the limit,
/// the cap, the query and the handling of duplicates. A text that is not sent is as a blank one.
pub proof fn law_all_that_decides_the_items_is_fingerprinted(
    f: ContentFormat,
    since: Option<Seq<char>>,
    limit: usize,
    cap: Option<usize>,
    query: Option<Seq<char>>,
    dedupe: DedupeMode,
    f2: ContentFormat,
    since2: Option<Seq<char>>,
    limit2: usize,
    cap2: Option<usize>,
    query2: Option<Seq<char>>,
    dedupe2: DedupeMode,
)
    requires
        fingerprinted(f, since, limit, cap, query, dedupe) == fingerprinted(
            f2,
            since2,
            limit2,
            cap2,
            query2,
            dedupe2,
        ),
    ensures
        f == f2,
        limit == limit2,
        cap == cap2,
        dedupe == dedupe2,
        since is Some && since2 is Some ==> since == since2,
        since is None ==> (since2 matches Some(t) ==> t.len() == 0),
        query is Some && query2 is Some ==> query == query2,
        query is None ==> (query2 matches Some(t) ==> t.len() == 0),
{
    reveal_strlit("markdown");
    reveal_strlit("text");
    reveal_strlit("html");
    reveal_strlit("none");
    reveal_strlit("off");
    reveal_strlit("report");
    reveal_strlit("drop");
    reveal_strlit("");
    let a = fingerprinted(f, since, limit, cap, query, dedupe);
    let b = fingerprinted(f2, since2, limit2, cap2, query2, dedupe2);
    assert(a[0] == b[0] && a[1] == b[1] && a[2] == b[2] && a[3] == b[3] && a[4] == b[4] && a[5]
        == b[5]);
    assert("markdown"@.len() == 8);
    assert("text"@[0] == 't' && "html"@[0] == 'h' && "none"@[0] == 'n');
    assert("text"@.len() == 4 && "html"@.len() == 4 && "none"@.len() == 4);
    assert("off"@.len() == 3 && "report"@.len() == 6 && "drop"@.len() == 4);
    crate::text::lemma_decimal_value(limit as nat);
    crate::text::lemma_decimal_value(limit2 as nat);
    if let Some(k) = cap {
        crate::text::lemma_decimal_value(k as nat);
    }
    if let Some(k) = cap2 {
        crate::text::lemma_decimal_value(k as nat);
    }
}

/// A cursor is taken exactly where it was made for the same request, points at one of its feeds and
/// records no window or a window that is an instant.
pub proof fn law_a_cursor_is_taken_where_it_fits(c: CursorView, fp: Seq<char>, feeds: int)
    ensures
        cursor_fault(c, fp, feeds) is None <==> c.fp == fp && c.f < feeds && (c.s matches Some(k)
            ==> crate::time::instant_value(k) is Some),
{
}

/// A request with no cursor, or a blank one, resumes nowhere; one with a cursor resumes where that
/// says, or is refused.
pub proof fn law_a_request_resumes_where_its_cursor_says(
    token: Seq<char>,
    read: Result<CursorView, Seq<char>>,
    fp: Seq<char>,
    feeds: int,
)
    ensures
        resume_value(None, read, fp, feeds) == Ok::<Option<CursorView>, Seq<char>>(None),
        trimmed(token).len() == 0 ==> resume_value(Some(token), read, fp, feeds) == Ok::<
            Option<CursorView>,
            Seq<char>,
        >(None),
        trimmed(token).len() > 0 ==> {
            &&& read matches Err(m) ==> resume_value(Some(token), read, fp, feeds) == Err::<
                Option<CursorView>,
                Seq<char>,
            >("usage error: "@ + m)
            &&& read matches Ok(c) ==> {
                &&& cursor_fault(c, fp, feeds) is None ==> resume_value(Some(token), read, fp, feeds)
                    == Ok::<Option<CursorView>, Seq<char>>(Some(c))
                &&& cursor_fault(c, fp, feeds) is Some ==> resume_value(Some(token), read, fp, feeds)
                    is Err
            }
        },
{
}

/// A continued page has the window that its cursor records, whatever it asks for itself; any other
/// page has its own.
pub proof fn law_the_first_page_sets_the_window(c: CursorView, own: Option<Timestamp>, t: Timestamp)
    ensures
        page_window(None, own) == own,
        c.s is None ==> page_window(Some(c), own) == own,
        c.s matches Some(k) && crate::time::instant_value(k) == Some(t) ==> page_window(Some(c), own)
            == Some(t),
{
}

/// What a cursor brings along changes the window and the cache policy of a request, and nothing else.
pub proof fn law_a_cursor_changes_window_and_cache_alone(a: FetchParams, b: FetchParams)
    requires
        same_but_window(a, b),
    ensures
        a.content_format == b.content_format,
        a.limit == b.limit,
        a.max_content_chars == b.max_content_chars,
        a.query == b.query,
        a.concurrency == b.concurrency,
        a.timeout == b.timeout,
        a.user_agent == b.user_agent,
        a.deadline == b.deadline,
        same_but_window(a, a),
{
}

/// What a plan holds is what its request says, item by item: the limit, the cap, the query, the
/// budget, the deadline, and where they are not given the defaults.
pub proof fn law_a_plan_is_what_its_request_says(
    a: FetchFeedArgs,
    p: PagePlan,
    deadline: Duration,
    now: Timestamp,
)
    requires
        a.refusal(now) is None,
        a.asks_for(p, deadline, now),
    ensures
        p.params.limit == (match a.limit {
            Some(n) => Some(n),
            None => Some(25),
        }),
        p.params.max_content_chars == a.max_content_chars,
        p.params.query.deep_view() == a.query.deep_view(),
        p.params.deadline == Some(deadline),
        p.budget == (match a.max_response_tokens {
            Some(n) => n as int,
            None => 10_000,
        }),
        a.content_format is None ==> p.params.content_format == ContentFormat::Markdown,
        a.content_format matches Some(f) ==> format_value(f@) == Some(p.params.content_format),
        a.dedupe is None ==> crate::config::dedupe_value(Seq::empty()) == Ok::<
            DedupeMode,
            Seq<char>,
        >(p.dedupe),
        a.dedupe matches Some(d) ==> crate::config::dedupe_value(d@) == Ok::<DedupeMode, Seq<char>>(
            p.dedupe,
        ),
        p.resume is None ==> p.params.cache_policy == (match a.cache_policy {
            Some(x) => crate::config::cache_policy_value(x@)->Ok_0,
            None => CachePolicy::Revalidate,
        }),
        p.resume is Some ==> p.params.cache_policy == CachePolicy::CacheFirst,
        p.resume is None && a.since is None ==> p.params.since is None,
        p.resume is None && a.since is Some ==> p.params.since is Some && crate::config::since_value(
            a.since->Some_0@,
            now,
            "since"@,
        ) == Ok::<Timestamp, Seq<char>>(p.params.since->Some_0),
        a.url matches Some(u) ==> p.urls.deep_view() == seq![trimmed(u@)],
        a.urls matches Some(v) ==> p.urls.deep_view() == v.deep_view(),
        p.params.concurrency == 8,
        p.params.timeout.millis == 30_000,
{
    reveal_strlit("");
    assert(""@ =~= Seq::<char>::empty());
}

/// The fingerprint of a plan is the hash of the whole request: of its URLs in order, and of the
/// arguments that decide the items.
pub proof fn law_a_plan_is_bound_to_its_request(
    a: FetchFeedArgs,
    p: PagePlan,
    deadline: Duration,
    now: Timestamp,
)
    requires
        a.refusal(now) is None,
        a.asks_for(p, deadline, now),
    ensures
        p.fp@ == crate::hash::short_hash(
            request_text(
                p.urls.deep_view(),
                fingerprinted(
                    p.params.content_format,
                    a.since.deep_view(),
                    p.params.limit->Some_0,
                    p.params.max_content_chars,
                    p.params.query.deep_view(),
                    p.dedupe,
                ),
            ),
        ),
        p.resume matches Some(c) ==> c@.fp == p.fp@ && 0 <= c.f < p.urls@.len() && !no_cursor(
            a.cursor.deep_view(),
        ) && crate::cursor::token_value(a.cursor->Some_0@) == Ok::<CursorView, Seq<char>>(c@),
        no_cursor(a.cursor.deep_view()) <==> p.resume is None,
        p.dedupe == DedupeMode::Drop ==> p.resume is None,
{
}

/// A request is refused exactly where one of its arguments is no such argument, or where it continues
/// a request whose duplicates were dropped.
pub proof fn law_a_request_is_refused_for_a_reason(a: FetchFeedArgs, now: Timestamp)
    ensures
        a.refusal(now) is Some <==> requested(a.url.deep_view(), list_view(a.urls)) is Err
            || asked_format(a.content_format.deep_view()) is Err || asked_window(
            a.since.deep_view(),
            now,
        ) is Err || asked_policy(a.cache_policy.deep_view()) is Err || crate::config::dedupe_value(
            or_blank(a.dedupe.deep_view()),
        ) is Err || (crate::config::dedupe_value(or_blank(a.dedupe.deep_view())) == Ok::<
            DedupeMode,
            Seq<char>,
        >(DedupeMode::Drop) && !no_cursor(a.cursor.deep_view())) || a.continues() is Err,
        requested(a.url.deep_view(), list_view(a.urls)) matches Err(m) ==> a.refusal(now) == Some(
            "usage error: "@ + m,
        ) && a.blamed() is None,
        requested(a.url.deep_view(), list_view(a.urls)) matches Ok(v) ==> a.blamed() == Some(v[0]),
{
}

/// A request is refused for the first thing that is wrong with it, and told what that is: its URLs, its
/// format, its window, its cache policy, its handling of duplicates, its cursor, in this order.
pub proof fn law_the_first_reason_is_told(a: FetchFeedArgs, now: Timestamp, m: Seq<char>, s: Seq<char>)
    requires
        requested(a.url.deep_view(), list_view(a.urls)) is Ok,
    ensures
        ({
            let format = asked_format(a.content_format.deep_view());
            let window = asked_window(a.since.deep_view(), now);
            let policy = asked_policy(a.cache_policy.deep_view());
            let dedupe = crate::config::dedupe_value(or_blank(a.dedupe.deep_view()));
            &&& format == Err::<ContentFormat, Seq<char>>(m) ==> a.refusal(now) == Some(m)
            &&& format is Ok && window == Err::<Option<Timestamp>, Seq<char>>(m) ==> a.refusal(now)
                == Some("usage error: "@ + m)
            &&& format is Ok && window is Ok && policy == Err::<CachePolicy, Seq<char>>(m)
                ==> a.refusal(now) == Some("usage error: "@ + m)
            &&& format is Ok && window is Ok && policy is Ok && dedupe == Err::<DedupeMode, Seq<char>>(m)
                ==> a.refusal(now) == Some("usage error: "@ + m)
            &&& format is Ok && window is Ok && policy is Ok && dedupe is Ok && dedupe->Ok_0
                != DedupeMode::Drop && a.continues() == Err::<Option<CursorView>, Seq<char>>(m)
                ==> a.refusal(now) == Some(m)
        }),
        asked_window(None, now) == Ok::<Option<Timestamp>, Seq<char>>(None),
        crate::config::since_value(s, now, "since"@) matches Err(m) ==> asked_window(Some(s), now) == Err::<
            Option<Timestamp>,
            Seq<char>,
        >(m),
        crate::config::since_value(s, now, "since"@) matches Ok(t) ==> asked_window(Some(s), now) == Ok::<
            Option<Timestamp>,
            Seq<char>,
        >(Some(t)),
        asked_policy(None) == Ok::<CachePolicy, Seq<char>>(CachePolicy::Revalidate),
        asked_policy(Some(s)) == crate::config::cache_policy_value(s),
{
}

/// A refusal is a usage error with the message, on the feed it is blamed on.
pub proof fn law_a_refusal_is_a_usage_error(e: ErrorObj, message: Seq<char>, feed: Seq<char>)
    ensures
        is_refusal(e, message, Some(feed)) ==> e.code@ == "USAGE_ERROR"@ && e.message@ == message
            && e.feed_url is Some && e.feed_url->Some_0@ == feed,
        is_refusal(e, message, None) ==> e.code@ == "USAGE_ERROR"@ && e.message@ == message
            && e.feed_url is None,
{
}

} // verus!
