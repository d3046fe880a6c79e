//! The tool server's decisions: what a `fetch_feed` call asks for, what its page holds, and what
//! `get_item` answers.

use vstd::prelude::*;
use vstd::string::*;

use crate::args::{resolve_urls, FetchFeedArgs};
use crate::config::{
    parse_cache_policy, parse_dedupe, resolve_since, CachePolicy, DedupeMode, FetchParams,
};
use crate::cursor::{fingerprint, Cursor, CursorView};
use crate::model::{ContentFormat, ErrorObj};
use crate::text::{number_text, parse_u64, same, to_ascii_lowercase, trim};
use crate::time::{instant_at, Duration, Timestamp};
use crate::wire::format_name;

verus! {

/// Item cap of a `fetch_feed` call without a `limit`.
pub const MCP_DEFAULT_LIMIT: usize = 25;

/// Response budget of a call without `max_response_tokens`, in estimated tokens.
pub const MCP_DEFAULT_MAX_RESPONSE_TOKENS: usize = 10_000;

/// Wall-clock budget of one batch, in seconds.
pub const MCP_BATCH_DEADLINE_SECS: u64 = 25;

/// The batch deadline, in seconds: an override that is a whole number, or the default.
pub open spec fn deadline_secs(raw: Option<Seq<char>>) -> nat {
    match raw {
        Some(s) => match crate::text::unsigned_value(crate::text::trimmed(s), u64::MAX as nat) {
            Some(n) => n,
            None => MCP_BATCH_DEADLINE_SECS as nat,
        },
        None => MCP_BATCH_DEADLINE_SECS as nat,
    }
}

/// The batch deadline: an override that is a whole number of seconds, or the default. Zero has
/// passed already.
pub fn parse_batch_deadline(raw: Option<&str>) -> (r: Duration)
    ensures
        r.millis == deadline_secs(crate::identity::chars(raw)) * 1000,
{
    match raw {
        Some(s) => match parse_u64(trim(s).as_str()) {
            Some(n) => Duration::from_secs(n),
            None => Duration::from_secs(MCP_BATCH_DEADLINE_SECS),
        },
        None => Duration::from_secs(MCP_BATCH_DEADLINE_SECS),
    }
}

/// The content format that a text names, without regard to letter case and outer white space.
pub open spec fn format_value(s: Seq<char>) -> Option<ContentFormat> {
    let t = crate::text::ascii_lowercase(crate::text::trimmed(s));
    if t == "markdown"@ {
        Some(ContentFormat::Markdown)
    } else if t == "text"@ {
        Some(ContentFormat::Text)
    } else if t == "html"@ {
        Some(ContentFormat::Html)
    } else if t == "none"@ {
        Some(ContentFormat::Omit)
    } else {
        None
    }
}

/// Parses a content format.
pub fn parse_content_format(s: &str) -> (r: Option<ContentFormat>)
    ensures
        r == format_value(s@),
{
    let low = to_ascii_lowercase(trim(s).as_str());
    let t = low.as_str();
    if same(t, "markdown") {
        Some(ContentFormat::Markdown)
    } else if same(t, "text") {
        Some(ContentFormat::Text)
    } else if same(t, "html") {
        Some(ContentFormat::Html)
    } else if same(t, "none") {
        Some(ContentFormat::Omit)
    } else {
        None
    }
}

/// What a `fetch_feed` call is to do.
#[derive(Debug)]
pub struct PagePlan {
    /// The URLs of the whole request.
    pub urls: Vec<String>,
    pub params: FetchParams,
    pub dedupe: DedupeMode,
    /// Fingerprint of the request.
    pub fp: String,
    /// Where the page resumes, if it continues another.
    pub resume: Option<Cursor>,
    /// Response budget, in estimated tokens.
    pub budget: usize,
}

/// A text, or an empty one.
pub open spec fn or_blank(s: Option<Seq<char>>) -> Seq<char> {
    match s {
        Some(t) => t,
        None => ""@,
    }
}

/// A number's digits, or an empty text.
pub open spec fn digits_or_blank(n: Option<usize>) -> Seq<char> {
    match n {
        Some(k) => crate::text::decimal(k as nat),
        None => ""@,
    }
}

/// The arguments that decide which items a continuation walks, each in one spelling; `since` as the
/// client sent it.
pub open spec fn fingerprinted(
    format: ContentFormat,
    since: Option<Seq<char>>,
    limit: usize,
    max_content_chars: Option<usize>,
    query: Option<Seq<char>>,
    dedupe: DedupeMode,
) -> Seq<Seq<char>> {
    seq![
        crate::wire::format_text(format),
        or_blank(since),
        crate::text::decimal(limit as nat),
        digits_or_blank(max_content_chars),
        or_blank(query),
        dedupe.spelling(),
    ]
}

fn text_or_blank(s: &Option<String>) -> (r: String)
    ensures
        r@ == or_blank(s.deep_view()),
{
    match s {
        Some(t) => t.clone(),
        None => "".to_owned(),
    }
}

/// The fingerprint of a request.
pub fn request_fingerprint(
    urls: &Vec<String>,
    format: ContentFormat,
    since: &Option<String>,
    limit: usize,
    max_content_chars: Option<usize>,
    query: &Option<String>,
    dedupe: DedupeMode,
) -> (r: String)
    ensures
        r@ == crate::hash::short_hash(
            crate::cursor::request_text(
                urls.deep_view(),
                fingerprinted(
                    format,
                    since.deep_view(),
                    limit,
                    max_content_chars,
                    query.deep_view(),
                    dedupe,
                ),
            ),
        ),
        crate::hash::is_short_hash(r@),
{
    let mut parts: Vec<String> = Vec::new();
    parts.push(format_name(format).to_owned());
    parts.push(text_or_blank(since));
    parts.push(number_text(limit as u64));
    parts.push(
        match max_content_chars {
            Some(k) => number_text(k as u64),
            None => "".to_owned(),
        },
    );
    parts.push(text_or_blank(query));
    parts.push(dedupe.as_str().to_owned());
    assert(parts.deep_view() =~= fingerprinted(
        format,
        since.deep_view(),
        limit,
        max_content_chars,
        query.deep_view(),
        dedupe,
    ));
    fingerprint(urls, &parts)
}

/// What is wrong with a cursor that was read for a request, if anything is.
pub open spec fn cursor_fault(c: CursorView, fp: Seq<char>, url_count: int) -> Option<Seq<char>> {
    if c.fp != fp {
        Some(
            "cursor does not match this request; pass the cursor back with the same urls/content_format/since/limit/max_content_chars/query/dedupe, or drop it to start over"@,
        )
    } else if c.f >= url_count {
        Some("cursor points past the end of this request's feed list"@)
    } else {
        match c.s {
            Some(k) => if crate::time::instant_value(k) is None {
                Some("invalid cursor: the recorded `since` cutoff is not a valid instant"@)
            } else {
                None
            },
            None => None,
        }
    }
}

/// There is no cursor: none was sent, or a blank one.
pub open spec fn no_cursor(token: Option<Seq<char>>) -> bool {
    token is None || crate::text::trimmed(token->Some_0).len() == 0
}

/// Where a request resumes, or what is wrong with its cursor. `read` is what the token says.
pub open spec fn resume_value(
    token: Option<Seq<char>>,
    read: Result<CursorView, Seq<char>>,
    fp: Seq<char>,
    url_count: int,
) -> Result<Option<CursorView>, Seq<char>> {
    if no_cursor(token) {
        Ok(None)
    } else {
        match read {
            Err(m) => Err("usage error: "@ + m),
            Ok(c) => match cursor_fault(c, fp, url_count) {
                Some(m) => Err(m),
                None => Ok(Some(c)),
            },
        }
    }
}

/// A cursor, if there is one.
pub open spec fn cursor_view(c: Option<Cursor>) -> Option<CursorView> {
    match c {
        Some(x) => Some(x@),
        None => None,
    }
}

/// The window of a page: that of the page that its cursor continues, or its own.
pub open spec fn page_window(resume: Option<CursorView>, own: Option<Timestamp>) -> Option<Timestamp> {
    match resume {
        Some(c) => match c.s {
            Some(k) => crate::time::instant_value(k),
            None => own,
        },
        None => own,
    }
}

/// Both are the same but for the window and the cache policy.
pub open spec fn same_but_window(a: FetchParams, b: FetchParams) -> bool {
    &&& a.content_format == b.content_format
    &&& a.limit == b.limit
    &&& a.max_content_chars == b.max_content_chars
    &&& a.query == b.query
    &&& a.concurrency == b.concurrency
    &&& a.timeout == b.timeout
    &&& a.user_agent == b.user_agent
    &&& a.deadline == b.deadline
}

/// Holds a cursor that was read against a request, and applies what it records to the parameters:
/// the first page's window, and the cache as the store that pages are read from.
pub fn resume_at_cursor(c: Cursor, fp: &str, url_count: usize, params: &mut FetchParams) -> (r: Result<
    Cursor,
    String,
>)
    ensures
        match (r, cursor_fault(c@, fp@, url_count as int)) {
            (Ok(x), None) => {
                &&& x == c
                &&& same_but_window(*final(params), *old(params))
                &&& final(params).since == page_window(Some(c@), old(params).since)
                &&& final(params).cache_policy == CachePolicy::CacheFirst
            },
            (Err(m), Some(t)) => m@ == t && *final(params) == *old(params),
            _ => false,
        },
{
    if !same(c.fp.as_str(), fp) {
        return Err(
            "cursor does not match this request; pass the cursor back with the same urls/content_format/since/limit/max_content_chars/query/dedupe, or drop it to start over".to_owned(),
        );
    }
    if c.f >= url_count {
        return Err("cursor points past the end of this request's feed list".to_owned());
    }
    if let Some(secs) = c.s {
        match instant_at(secs) {
            Some(t) => {
                params.since = Some(t);
            },
            None => {
                return Err(
                    "invalid cursor: the recorded `since` cutoff is not a valid instant".to_owned(),
                );
            },
        }
    }
    params.cache_policy = CachePolicy::CacheFirst;
    Ok(c)
}

/// Reads a request's cursor, and applies what it records to the parameters. A blank cursor is none.
pub fn resume_from_cursor(
    token: &Option<String>,
    fp: &str,
    url_count: usize,
    params: &mut FetchParams,
) -> (r: Result<Option<Cursor>, String>)
    ensures
        match (
            r,
            resume_value(
                token.deep_view(),
                crate::cursor::token_value(token.deep_view()->Some_0),
                fp@,
                url_count as int,
            ),
        ) {
            (Ok(x), Ok(want)) => {
                &&& cursor_view(x) == want
                &&& same_but_window(*final(params), *old(params))
                &&& final(params).since == page_window(want, old(params).since)
                &&& final(params).cache_policy == (if want is Some {
                    CachePolicy::CacheFirst
                } else {
                    old(params).cache_policy
                })
            },
            (Err(m), Err(t)) => m@ == t && *final(params) == *old(params),
            _ => false,
        },
{
    let t = match token {
        Some(t) => t,
        None => {
            return Ok(None);
        },
    };
    if trim(t.as_str()).as_str().is_empty() {
        return Ok(None);
    }
    let c = match Cursor::decode(t.as_str()) {
        Ok(c) => c,
        Err(e) => {
            return Err(e.message());
        },
    };
    match resume_at_cursor(c, fp, url_count, params) {
        Ok(c) => Ok(Some(c)),
        Err(m) => Err(m),
    }
}

/// The window that a request asks for.
pub open spec fn asked_window(since: Option<Seq<char>>, now: Timestamp) -> Result<
    Option<Timestamp>,
    Seq<char>,
> {
    match since {
        None => Ok(None),
        Some(s) => match crate::config::since_value(s, now, "since"@) {
            Ok(t) => Ok(Some(t)),
            Err(m) => Err(m),
        },
    }
}

/// The content format that a request asks for.
pub open spec fn asked_format(f: Option<Seq<char>>) -> Result<ContentFormat, Seq<char>> {
    match f {
        None => Ok(ContentFormat::Markdown),
        Some(s) => match format_value(s) {
            Some(x) => Ok(x),
            None => Err(
                "invalid content_format '"@ + s + "' (expected markdown|text|html|none)"@,
            ),
        },
    }
}

/// The cache policy that a request asks for.
pub open spec fn asked_policy(p: Option<Seq<char>>) -> Result<CachePolicy, Seq<char>> {
    match p {
        None => Ok(CachePolicy::Revalidate),
        Some(s) => crate::config::cache_policy_value(s),
    }
}

/// The item cap that a request asks for.
pub open spec fn asked_limit(limit: Option<usize>) -> usize {
    match limit {
        Some(n) => n,
        None => MCP_DEFAULT_LIMIT,
    }
}

impl FetchFeedArgs {
    /// The fingerprint of the request.
    pub open spec fn print(self) -> Seq<char> {
        crate::hash::short_hash(
            crate::cursor::request_text(
                crate::args::requested(
                    self.url.deep_view(),
                    crate::args::list_view(self.urls),
                )->Ok_0,
                fingerprinted(
                    asked_format(self.content_format.deep_view())->Ok_0,
                    self.since.deep_view(),
                    asked_limit(self.limit),
                    self.max_content_chars,
                    self.query.deep_view(),
                    crate::config::dedupe_value(or_blank(self.dedupe.deep_view()))->Ok_0,
                ),
            ),
        )
    }

    /// Where the request resumes, or what is wrong with its cursor.
    pub open spec fn continues(self) -> Result<Option<CursorView>, Seq<char>> {
        resume_value(
            self.cursor.deep_view(),
            crate::cursor::token_value(self.cursor.deep_view()->Some_0),
            self.print(),
            crate::args::requested(
                self.url.deep_view(),
                crate::args::list_view(self.urls),
            )->Ok_0.len() as int,
        )
    }

    /// What is wrong with the request, if anything is: the first fault's message, in the order in
    /// which the arguments are read.
    pub open spec fn refusal(self, now: Timestamp) -> Option<Seq<char>> {
        let urls = crate::args::requested(self.url.deep_view(), crate::args::list_view(self.urls));
        let format = asked_format(self.content_format.deep_view());
        let window = asked_window(self.since.deep_view(), now);
        let policy = asked_policy(self.cache_policy.deep_view());
        let dedupe = crate::config::dedupe_value(or_blank(self.dedupe.deep_view()));
        if urls is Err {
            Some("usage error: "@ + urls->Err_0)
        } else if format is Err {
            Some(format->Err_0)
        } else if window is Err {
            Some("usage error: "@ + window->Err_0)
        } else if policy is Err {
            Some("usage error: "@ + policy->Err_0)
        } else if dedupe is Err {
            Some("usage error: "@ + dedupe->Err_0)
        } else if dedupe->Ok_0 == DedupeMode::Drop && !no_cursor(self.cursor.deep_view()) {
            Some(
                "dedupe='drop' cannot be combined with a cursor: a continuation page cannot see canonical copies from earlier pages, so the same item could ship twice. Use dedupe='report' (the default) when paging and drop duplicates on your side."@,
            )
        } else if self.continues() is Err {
            Some(self.continues()->Err_0)
        } else {
            None
        }
    }

    /// The plan is what the request asks for.
    pub open spec fn asks_for(self, p: PagePlan, deadline: Duration, now: Timestamp) -> bool {
        let resume = self.continues()->Ok_0;
        &&& crate::args::requested(
            self.url.deep_view(),
            crate::args::list_view(self.urls),
        ) == Ok::<Seq<Seq<char>>, Seq<char>>(p.urls.deep_view())
        &&& p.params.content_format == asked_format(self.content_format.deep_view())->Ok_0
        &&& p.params.limit == Some(asked_limit(self.limit))
        &&& p.params.max_content_chars == self.max_content_chars
        &&& p.params.since == page_window(
            resume,
            asked_window(self.since.deep_view(), now)->Ok_0,
        )
        &&& p.params.query.deep_view() == self.query.deep_view()
        &&& p.params.concurrency == 8
        &&& p.params.timeout.millis == 30_000
        &&& p.params.user_agent@ == crate::config::DEFAULT_USER_AGENT@
        &&& p.params.cache_policy == (if resume is Some {
            CachePolicy::CacheFirst
        } else {
            asked_policy(self.cache_policy.deep_view())->Ok_0
        })
        &&& p.params.deadline == Some(deadline)
        &&& p.dedupe == crate::config::dedupe_value(or_blank(self.dedupe.deep_view()))->Ok_0
        &&& p.fp@ == self.print()
        &&& cursor_view(p.resume) == resume
        &&& p.resume matches Some(c) ==> c.f < p.urls@.len()
        &&& p.budget == (match self.max_response_tokens {
            Some(n) => n,
            None => MCP_DEFAULT_MAX_RESPONSE_TOKENS,
        })
    }

    /// The feed that a fault of the request is reported on: the first, once there is one.
    pub open spec fn blamed(self) -> Option<Seq<char>> {
        match crate::args::requested(self.url.deep_view(), crate::args::list_view(self.urls)) {
            Ok(urls) => Some(urls[0]),
            Err(_) => None,
        }
    }
}

/// The error is a usage error with this message, on this feed.
pub open spec fn is_refusal(e: ErrorObj, message: Seq<char>, feed: Option<Seq<char>>) -> bool {
    &&& e.code@ == "USAGE_ERROR"@
    &&& e.message@ == message
    &&& e.feed_url.deep_view() == feed
    &&& e.details@ == crate::json::JsonView::Obj(Seq::empty())
}

fn refuse(message: &str, feed: Option<&str>) -> (r: ErrorObj)
    ensures
        is_refusal(r, message@, crate::identity::chars(feed)),
{
    let e = ErrorObj::new("USAGE_ERROR", message);
    match feed {
        Some(u) => e.with_feed(u),
        None => e,
    }
}

/// Reads a `fetch_feed` request at the instant `now`: what it is to do, or the error that it is
/// answered with before anything is fetched.
pub fn plan_page(args: &FetchFeedArgs, deadline: Duration, now: Timestamp) -> (r: Result<
    PagePlan,
    ErrorObj,
>)
    ensures
        match (r, args.refusal(now)) {
            (Ok(p), None) => args.asks_for(p, deadline, now),
            (Err(e), Some(m)) => is_refusal(e, m, args.blamed()),
            _ => false,
        },
        r matches Ok(p) ==> crate::hash::is_short_hash(p.fp@),
{
    let urls = match resolve_urls(args) {
        Ok(u) => u,
        Err(e) => {
            return Err(refuse(e.message().as_str(), None));
        },
    };
    let primary = urls[0].clone();
    assert(primary@ == urls.deep_view()[0]);
    let mut params = FetchParams::default();
    if let Some(cf) = &args.content_format {
        match parse_content_format(cf.as_str()) {
            Some(f) => {
                params.content_format = f;
            },
            None => {
                return Err(
                    refuse(
                        "invalid content_format '".to_owned().concat(cf.as_str()).concat(
                            "' (expected markdown|text|html|none)",
                        ).as_str(),
                        Some(primary.as_str()),
                    ),
                );
            },
        }
    }
    if let Some(raw) = &args.since {
        match resolve_since(raw.as_str(), now, "since") {
            Ok(t) => {
                params.since = Some(t);
            },
            Err(e) => {
                return Err(refuse(e.message().as_str(), Some(primary.as_str())));
            },
        }
    }
    if let Some(raw) = &args.cache_policy {
        match parse_cache_policy(raw.as_str()) {
            Ok(p) => {
                params.cache_policy = p;
            },
            Err(e) => {
                return Err(refuse(e.message().as_str(), Some(primary.as_str())));
            },
        }
    }
    let dedupe = match parse_dedupe(text_or_blank(&args.dedupe).as_str()) {
        Ok(d) => d,
        Err(e) => {
            return Err(refuse(e.message().as_str(), Some(primary.as_str())));
        },
    };
    let has_cursor = match &args.cursor {
        Some(c) => !trim(c.as_str()).as_str().is_empty(),
        None => false,
    };
    if dedupe == DedupeMode::Drop && has_cursor {
        return Err(
            refuse(
                "dedupe='drop' cannot be combined with a cursor: a continuation page cannot see canonical copies from earlier pages, so the same item could ship twice. Use dedupe='report' (the default) when paging and drop duplicates on your side.",
                Some(primary.as_str()),
            ),
        );
    }
    let limit: usize = match args.limit {
        Some(n) => n,
        None => MCP_DEFAULT_LIMIT,
    };
    params.limit = Some(limit);
    params.max_content_chars = args.max_content_chars;
    params.query = crate::model::copy_opt(&args.query);
    params.deadline = Some(deadline);
    let fp = request_fingerprint(
        &urls,
        params.content_format,
        &args.since,
        limit,
        args.max_content_chars,
        &args.query,
        dedupe,
    );
    let resume = match resume_from_cursor(&args.cursor, fp.as_str(), urls.len(), &mut params) {
        Ok(c) => c,
        Err(m) => {
            return Err(refuse(m.as_str(), Some(primary.as_str())));
        },
    };
    let budget: usize = match args.max_response_tokens {
        Some(n) => n,
        None => MCP_DEFAULT_MAX_RESPONSE_TOKENS,
    };
    Ok(PagePlan { urls, params, dedupe, fp, resume, budget })
}

} // verus!
