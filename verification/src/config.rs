//! Runtime parameters and policies.

use vstd::prelude::*;
use vstd::string::*;

use crate::error::RssError;
use crate::model::ContentFormat;
use crate::text::{
    chars_of, parse_u64, same, strip_prefix, text_of, to_ascii_lowercase, trim,
};
use crate::time::{midnight, now_utc, parse_date, parse_rfc3339, Duration, Timestamp};

verus! {

/// Default User-Agent.
pub const DEFAULT_USER_AGENT: &'static str = "rss-cli/0.1.0 (+https://github.com/AnderEnder/rss-cli)";

/// How the cache should be consulted for a fetch.
#[derive(Debug, Clone, Copy, PartialEq, Eq, Structural)]
pub enum CachePolicy {
    /// Always revalidate with a conditional GET; a `304` serves the cached body.
    Revalidate,
    /// Serve the cached entry without a request while it is younger than this.
    MaxAge(Duration),
    /// Serve any cached entry without a request, whatever its age.
    CacheFirst,
    /// Neither read nor write the cache.
    NoCache,
    /// Revalidate, and serve the cached body where the origin refuses.
    StaleIfError,
}

impl Default for CachePolicy {
    fn default() -> (r: Self)
        ensures
            r == CachePolicy::Revalidate,
    {
        CachePolicy::Revalidate
    }
}

/// What to do with items that several feeds of a batch carry.
#[derive(Debug, Clone, Copy, PartialEq, Eq, Structural)]
pub enum DedupeMode {
    /// Skip detection.
    Off,
    /// Group the copies and remove nothing.
    Report,
    /// Group the copies and remove all but the first.
    Drop,
}

impl DedupeMode {
    /// The mode's spelling.
    pub open spec fn spelling(self) -> Seq<char> {
        match self {
            DedupeMode::Off => "off"@,
            DedupeMode::Report => "report"@,
            DedupeMode::Drop => "drop"@,
        }
    }

    /// The mode's spelling.
    pub fn as_str(&self) -> (r: &'static str)
        ensures
            r@ == self.spelling(),
    {
        match self {
            DedupeMode::Off => "off",
            DedupeMode::Report => "report",
            DedupeMode::Drop => "drop",
        }
    }
}

/// Parameters of a fetch.
#[derive(Debug, Clone)]
pub struct FetchParams {
    pub content_format: ContentFormat,
    /// Maximum items per feed, newest first.
    pub limit: Option<usize>,
    /// Maximum characters of extracted content per item.
    pub max_content_chars: Option<usize>,
    /// Only items published at or after this instant.
    pub since: Option<Timestamp>,
    /// Only items that satisfy this keyword query.
    pub query: Option<String>,
    /// Maximum number of feeds fetched at once.
    pub concurrency: usize,
    pub timeout: Duration,
    pub user_agent: String,
    pub cache_policy: CachePolicy,
    /// Wall-clock budget for a whole batch: a fetch that has not started by then is left out.
    pub deadline: Option<Duration>,
}

impl Default for FetchParams {
    fn default() -> (r: Self)
        ensures
            r.content_format == ContentFormat::Markdown,
            r.limit is None,
            r.max_content_chars is None,
            r.since is None,
            r.query is None,
            r.concurrency == 8,
            r.timeout.millis == 30_000,
            r.user_agent@ == DEFAULT_USER_AGENT@,
            r.cache_policy == CachePolicy::Revalidate,
            r.deadline is None,
    {
        FetchParams {
            content_format: ContentFormat::Markdown,
            limit: None,
            max_content_chars: None,
            since: None,
            query: None,
            concurrency: 8,
            timeout: Duration::from_secs(30),
            user_agent: DEFAULT_USER_AGENT.to_owned(),
            cache_policy: CachePolicy::Revalidate,
            deadline: None,
        }
    }
}

/// The result is the value wanted, or a usage error with the message wanted.
pub open spec fn agrees<T>(r: Result<T, RssError>, want: Result<T, Seq<char>>) -> bool {
    match (r, want) {
        (Ok(a), Ok(b)) => a == b,
        (Err(RssError::Usage(m)), Err(t)) => m@ == t,
        _ => false,
    }
}

/// The seconds that a duration unit stands for.
pub open spec fn unit_secs(unit: Seq<char>) -> Option<nat> {
    if unit == "s"@ {
        Some(1)
    } else if unit == "m"@ {
        Some(60)
    } else if unit == "h"@ {
        Some(3600)
    } else if unit == "d"@ {
        Some(86400)
    } else if unit == "w"@ {
        Some(604800)
    } else {
        None
    }
}

/// What a duration such as `30s`, `15m`, `2h`, `7d` or `1w` denotes, or why it is none. A number
/// of seconds beyond 64 bits is no duration.
pub open spec fn duration_value(s: Seq<char>) -> Result<Duration, Seq<char>> {
    let t = crate::text::trimmed(s);
    let n = crate::text::digit_run(t) as int;
    let value = crate::text::digits_value(t.take(n));
    if n == t.len() || n == 0 || value > u64::MAX {
        Err("invalid duration '"@ + t + "'"@)
    } else {
        match unit_secs(t.skip(n)) {
            None => Err("unknown duration unit '"@ + t.skip(n) + "'"@),
            Some(k) => if value * k > u64::MAX {
                Err("invalid duration '"@ + t + "'"@)
            } else {
                Ok(Duration { millis: (value * k * 1000) as u128 })
            },
        }
    }
}

fn quoted(before: &str, s: &str, after: &str) -> (r: String)
    ensures
        r@ == before@ + s@ + after@,
{
    before.to_owned().concat(s).concat(after)
}

proof fn lemma_digit_run(t: Seq<char>)
    ensures
        crate::text::digit_run(t) <= t.len(),
        crate::text::all_digits(t.take(crate::text::digit_run(t) as int)),
    decreases t.len(),
{
    if t.len() > 0 && crate::text::is_digit(t[0]) {
        lemma_digit_run(t.skip(1));
        let n = crate::text::digit_run(t) as int;
        assert forall|i: int| 0 <= i < n implies crate::text::is_digit(#[trigger] t.take(n)[i]) by {
            if i > 0 {
                assert(t.take(n)[i] == t.skip(1).take(n - 1)[i - 1]);
            }
        }
    }
}

/// Parses a duration such as `30s`, `15m`, `2h`, `7d` or `1w`.
pub fn parse_duration(s: &str) -> (r: Result<Duration, RssError>)
    ensures
        agrees(r, duration_value(s@)),
{
    let t = trim(s);
    let v = chars_of(t.as_str());
    let mut n: usize = 0;
    assert(v@.skip(0) =~= v@);
    while n < v.len() && '0' <= v[n] && v[n] <= '9'
        invariant
            n <= v@.len(),
            crate::text::digit_run(v@) == n + crate::text::digit_run(v@.skip(n as int)),
        decreases v@.len() - n,
    {
        assert(v@.skip(n as int)[0] == v@[n as int]);
        assert(v@.skip(n as int).skip(1) =~= v@.skip(n + 1));
        n = n + 1;
    }
    proof {
        lemma_digit_run(v@);
        if n < v@.len() {
            assert(v@.skip(n as int)[0] == v@[n as int]);
        }
    }
    if n == v.len() {
        return Err(RssError::Usage(quoted("invalid duration '", t.as_str(), "'")));
    }
    let num = text_of(&v, 0, n);
    let unit = text_of(&v, n, v.len());
    proof {
        assert(num@ =~= v@.take(n as int));
        assert(unit@ =~= v@.skip(n as int));
        if n > 0 {
            assert(crate::text::is_digit(num@[0]));
        }
    }
    let value: u64 = match parse_u64(num.as_str()) {
        Some(k) => k,
        None => {
            return Err(RssError::Usage(quoted("invalid duration '", t.as_str(), "'")));
        },
    };
    let u = unit.as_str();
    let k: u64 = if same(u, "s") {
        1
    } else if same(u, "m") {
        60
    } else if same(u, "h") {
        3600
    } else if same(u, "d") {
        86400
    } else if same(u, "w") {
        604800
    } else {
        return Err(RssError::Usage(quoted("unknown duration unit '", u, "'")));
    };
    match value.checked_mul(k) {
        Some(secs) => Ok(Duration::from_secs(secs)),
        None => Err(RssError::Usage(quoted("invalid duration '", t.as_str(), "'"))),
    }
}

/// What a `cache_policy` argument denotes, or why it is none.
pub open spec fn cache_policy_value(s: Seq<char>) -> Result<CachePolicy, Seq<char>> {
    let t = crate::text::ascii_lowercase(crate::text::trimmed(s));
    let dur = t.skip("max-age:"@.len() as int);
    if t == ""@ || t == "revalidate"@ {
        Ok(CachePolicy::Revalidate)
    } else if t == "no-cache"@ {
        Ok(CachePolicy::NoCache)
    } else if t == "cache-first"@ {
        Ok(CachePolicy::CacheFirst)
    } else if crate::text::has_prefix(t, "max-age:"@) && crate::text::trimmed(dur).len() > 0 {
        match duration_value(dur) {
            Ok(d) => Ok(CachePolicy::MaxAge(d)),
            Err(m) => Err(m),
        }
    } else {
        Err(
            "invalid cache_policy '"@ + t
                + "' (expected revalidate | no-cache | cache-first | max-age:<duration>, e.g. max-age:15m)"@,
        )
    }
}

/// Parses a `cache_policy` argument; letter case and surrounding white space do not count.
pub fn parse_cache_policy(s: &str) -> (r: Result<CachePolicy, RssError>)
    ensures
        agrees(r, cache_policy_value(s@)),
{
    let low = to_ascii_lowercase(trim(s).as_str());
    let t = low.as_str();
    if same(t, "") || same(t, "revalidate") {
        return Ok(CachePolicy::Revalidate);
    }
    if same(t, "no-cache") {
        return Ok(CachePolicy::NoCache);
    }
    if same(t, "cache-first") {
        return Ok(CachePolicy::CacheFirst);
    }
    if let Some(dur) = strip_prefix(t, "max-age:") {
        if !trim(dur.as_str()).as_str().is_empty() {
            return match parse_duration(dur.as_str()) {
                Ok(d) => Ok(CachePolicy::MaxAge(d)),
                Err(e) => Err(e),
            };
        }
    }
    Err(
        RssError::Usage(
            quoted(
                "invalid cache_policy '",
                t,
                "' (expected revalidate | no-cache | cache-first | max-age:<duration>, e.g. max-age:15m)",
            ),
        ),
    )
}

/// What a `dedupe` argument denotes, or why it is none.
pub open spec fn dedupe_value(s: Seq<char>) -> Result<DedupeMode, Seq<char>> {
    let t = crate::text::ascii_lowercase(crate::text::trimmed(s));
    if t == ""@ || t == "report"@ {
        Ok(DedupeMode::Report)
    } else if t == "off"@ {
        Ok(DedupeMode::Off)
    } else if t == "drop"@ {
        Ok(DedupeMode::Drop)
    } else {
        Err("invalid dedupe '"@ + t + "' (expected report | off | drop)"@)
    }
}

/// Parses a `dedupe` argument; letter case and surrounding white space do not count.
pub fn parse_dedupe(s: &str) -> (r: Result<DedupeMode, RssError>)
    ensures
        agrees(r, dedupe_value(s@)),
{
    let low = to_ascii_lowercase(trim(s).as_str());
    let t = low.as_str();
    if same(t, "") || same(t, "report") {
        Ok(DedupeMode::Report)
    } else if same(t, "off") {
        Ok(DedupeMode::Off)
    } else if same(t, "drop") {
        Ok(DedupeMode::Drop)
    } else {
        Err(RssError::Usage(quoted("invalid dedupe '", t, "' (expected report | off | drop)")))
    }
}

/// The longest duration that reaches back from now, in seconds.
pub const MAX_LOOKBACK_SECS: u64 = 9_223_372_036_854_775;

/// What a `since` value denotes at the instant `now`, or why it denotes none.
pub open spec fn since_value(s: Seq<char>, now: Timestamp, label: Seq<char>) -> Result<
    Timestamp,
    Seq<char>,
> {
    let t = crate::text::trimmed(s);
    match duration_value(t) {
        Ok(d) => {
            let secs = d.millis as int / 1000;
            if secs > MAX_LOOKBACK_SECS || now.secs - secs < crate::time::EARLIEST_SECS {
                Err(
                    "duration too large: Source duration value is out of range for the target type"@,
                )
            } else {
                Ok(Timestamp { secs: (now.secs - secs) as i64, nanos: now.nanos })
            }
        },
        Err(_) => match crate::time::rfc3339_instant(t) {
            Some(i) => Ok(i),
            None => match crate::time::date_day(t, "%Y-%m-%d"@) {
                Some(day) => Ok(crate::time::midnight_of(day)),
                None => Err(
                    "invalid "@ + label + " value '"@ + t
                        + "' (use e.g. '2h', '7d', or '2026-06-01')"@,
                ),
            },
        },
    }
}

/// Resolves a `since` value at the instant `now`: a duration reaches back from it, an instant
/// or a date stands for itself.
pub fn resolve_since(s: &str, now: Timestamp, label: &str) -> (r: Result<Timestamp, RssError>)
    ensures
        agrees(r, since_value(s@, now, label@)),
{
    let t = trim(s);
    match parse_duration(t.as_str()) {
        Ok(d) => {
            let secs: u64 = d.as_secs();
            let out_of_reach = secs > MAX_LOOKBACK_SECS || now.secs < crate::time::EARLIEST_SECS + secs as i64;
            if out_of_reach {
                Err(
                    RssError::Usage(
                        "duration too large: Source duration value is out of range for the target type".to_owned(),
                    ),
                )
            } else {
                Ok(Timestamp { secs: now.secs - secs as i64, nanos: now.nanos })
            }
        },
        Err(_) => match parse_rfc3339(t.as_str()) {
            Some(i) => Ok(i),
            None => match parse_date(t.as_str(), "%Y-%m-%d") {
                Some(day) => Ok(midnight(day)),
                None => Err(
                    RssError::Usage(
                        quoted("invalid ", label, " value '").concat(t.as_str()).concat(
                            "' (use e.g. '2h', '7d', or '2026-06-01')",
                        ),
                    ),
                ),
            },
        },
    }
}

/// Parses a `since` value: a duration (`2h`, `7d`) that reaches back from now, an RFC-3339
/// instant, or a date.
pub fn parse_since(s: &str) -> (r: Result<Timestamp, RssError>)
    ensures
        exists|now: Timestamp| agrees(r, since_value(s@, now, "since"@)),
{
    let now = now_utc();
    resolve_since(s, now, "since")
}

} // verus!
