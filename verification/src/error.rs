//! Errors, their stable codes, and process exit codes.

use vstd::prelude::*;
use vstd::string::*;

use crate::json::{
    json_opt_number, json_opt_text, lemma_obj_members, put, Json,
};
use crate::model::ErrorObj;
use crate::text::number_text;
use crate::time::Duration;

verus! {

/// What went wrong.
#[derive(Debug)]
#[allow(inconsistent_fields)]
pub enum RssError {
    Usage(String),
    InvalidUrl(String),
    Network(String),
    Http {
        status: u16,
        url: String,
        /// The `Retry-After` header as the server sent it.
        retry_after: Option<String>,
        /// The per-host gate's learned cooldown, where one is active.
        retry_after_hint: Option<Duration>,
    },
    RateLimited {
        url: String,
        /// How long to wait before retrying.
        retry_after: Duration,
    },
    /// The batch deadline passed before this fetch could start.
    DeadlineExceeded { url: String },
    Parse(String),
    NotFound(String),
    Cache(String),
    ResponseTooLarge {
        estimated_tokens: usize,
        budget_tokens: usize,
        suggested_limit: usize,
        suggested_max_content_chars: usize,
    },
    Io(String),
    Other(String),
}

/// The milliseconds of a hint.
pub open spec fn hint_millis(d: Option<Duration>) -> Option<u64> {
    match d {
        Some(x) => Some(x.capped_millis() as u64),
        None => None,
    }
}

/// The whole seconds of a hint.
pub open spec fn hint_secs(d: Option<Duration>) -> Option<u64> {
    match d {
        Some(x) => Some(x.secs() as u64),
        None => None,
    }
}

impl RssError {
    /// The error's stable code.
    pub open spec fn code_text(self) -> Seq<char> {
        match self {
            RssError::Usage(_) => "USAGE_ERROR"@,
            RssError::InvalidUrl(_) => "INVALID_URL"@,
            RssError::Network(_) => "NETWORK_ERROR"@,
            RssError::Http { status, .. } => if status == 429 {
                "RATE_LIMITED"@
            } else {
                "FEED_FETCH_FAILED"@
            },
            RssError::RateLimited { .. } => "RATE_LIMITED"@,
            RssError::DeadlineExceeded { .. } => "BATCH_DEADLINE_EXCEEDED"@,
            RssError::Parse(_) => "FEED_PARSE_FAILED"@,
            RssError::NotFound(_) => "NOT_FOUND"@,
            RssError::Cache(_) => "CACHE_ERROR"@,
            RssError::ResponseTooLarge { .. } => "RESPONSE_TOO_LARGE"@,
            RssError::Io(_) => "IO_ERROR"@,
            RssError::Other(_) => "INTERNAL_ERROR"@,
        }
    }

    /// The error's stable code. A `429` shares the host gate's code: it is a wait, not a dead feed.
    pub fn code(&self) -> (r: &'static str)
        ensures
            r@ == self.code_text(),
    {
        match self {
            RssError::Usage(_) => "USAGE_ERROR",
            RssError::InvalidUrl(_) => "INVALID_URL",
            RssError::Network(_) => "NETWORK_ERROR",
            RssError::Http { status, .. } => if *status == 429 {
                "RATE_LIMITED"
            } else {
                "FEED_FETCH_FAILED"
            },
            RssError::RateLimited { .. } => "RATE_LIMITED",
            RssError::DeadlineExceeded { .. } => "BATCH_DEADLINE_EXCEEDED",
            RssError::Parse(_) => "FEED_PARSE_FAILED",
            RssError::NotFound(_) => "NOT_FOUND",
            RssError::Cache(_) => "CACHE_ERROR",
            RssError::ResponseTooLarge { .. } => "RESPONSE_TOO_LARGE",
            RssError::Io(_) => "IO_ERROR",
            RssError::Other(_) => "INTERNAL_ERROR",
        }
    }

    /// What the error says to a person.
    pub open spec fn message_text(self) -> Seq<char> {
        match self {
            RssError::Usage(s) => "usage error: "@ + s@,
            RssError::InvalidUrl(s) => "invalid URL: "@ + s@,
            RssError::Network(s) => "network error: "@ + s@,
            RssError::Http { status, url, .. } => "HTTP status "@ + crate::text::decimal(
                status as nat,
            ) + ": "@ + url@,
            RssError::RateLimited { url, retry_after } => "rate limited: "@ + url@
                + " (retry after ~"@ + crate::text::decimal(retry_after.secs()) + "s)"@,
            RssError::DeadlineExceeded { url } => "batch deadline passed before "@ + url@
                + " was attempted"@,
            RssError::Parse(s) => "feed parse error: "@ + s@,
            RssError::NotFound(s) => "no feeds discovered at "@ + s@,
            RssError::Cache(s) => "cache error: "@ + s@,
            RssError::ResponseTooLarge {
                estimated_tokens,
                budget_tokens,
                suggested_limit,
                suggested_max_content_chars,
            } => "response too large: ~"@ + crate::text::decimal(estimated_tokens as nat)
                + " tokens exceeds the "@ + crate::text::decimal(budget_tokens as nat)
                + "-token budget; retry with limit="@ + crate::text::decimal(suggested_limit as nat)
                + " or max_content_chars="@ + crate::text::decimal(
                suggested_max_content_chars as nat,
            ),
            RssError::Io(s) => s@,
            RssError::Other(s) => s@,
        }
    }

    /// What the error says to a person.
    pub fn message(&self) -> (r: String)
        ensures
            r@ == self.message_text(),
    {
        match self {
            RssError::Usage(s) => "usage error: ".to_owned().concat(s),
            RssError::InvalidUrl(s) => "invalid URL: ".to_owned().concat(s),
            RssError::Network(s) => "network error: ".to_owned().concat(s),
            RssError::Http { status, url, .. } => "HTTP status ".to_owned().concat(
                &number_text(*status as u64),
            ).concat(": ").concat(url),
            RssError::RateLimited { url, retry_after } => "rate limited: ".to_owned().concat(
                url,
            ).concat(" (retry after ~").concat(&number_text(retry_after.as_secs())).concat("s)"),
            RssError::DeadlineExceeded { url } => "batch deadline passed before ".to_owned().concat(
                url,
            ).concat(" was attempted"),
            RssError::Parse(s) => "feed parse error: ".to_owned().concat(s),
            RssError::NotFound(s) => "no feeds discovered at ".to_owned().concat(s),
            RssError::Cache(s) => "cache error: ".to_owned().concat(s),
            RssError::ResponseTooLarge {
                estimated_tokens,
                budget_tokens,
                suggested_limit,
                suggested_max_content_chars,
            } => "response too large: ~".to_owned().concat(
                &number_text(*estimated_tokens as u64),
            ).concat(" tokens exceeds the ").concat(&number_text(*budget_tokens as u64)).concat(
                "-token budget; retry with limit=",
            ).concat(&number_text(*suggested_limit as u64)).concat(" or max_content_chars=").concat(
                &number_text(*suggested_max_content_chars as u64),
            ),
            RssError::Io(s) => s.clone(),
            RssError::Other(s) => s.clone(),
        }
    }

    /// The error's structured details.
    pub open spec fn details(self) -> crate::json::JsonView {
        match self {
            RssError::Http { status, retry_after, retry_after_hint, .. } => crate::json::JsonView::Obj(
                seq![
                    ("http_status"@, crate::json::JsonView::Int(status as int)),
                    ("retry_after"@, crate::json::text_or_null(retry_after.deep_view())),
                    ("retry_after_seconds"@, crate::json::number_or_null(hint_secs(retry_after_hint))),
                    ("retry_after_ms"@, crate::json::number_or_null(hint_millis(retry_after_hint))),
                ],
            ),
            RssError::RateLimited { retry_after, .. } => crate::json::JsonView::Obj(
                seq![
                    ("retry_after_seconds"@, crate::json::JsonView::Int(retry_after.secs() as int)),
                    ("retry_after_ms"@, crate::json::JsonView::Int(retry_after.capped_millis() as int)),
                ],
            ),
            RssError::ResponseTooLarge {
                estimated_tokens,
                budget_tokens,
                suggested_limit,
                suggested_max_content_chars,
            } => crate::json::JsonView::Obj(
                seq![
                    ("estimated_tokens"@, crate::json::JsonView::Int(estimated_tokens as int)),
                    ("budget_tokens"@, crate::json::JsonView::Int(budget_tokens as int)),
                    ("suggested_limit"@, crate::json::JsonView::Int(suggested_limit as int)),
                    (
                        "suggested_max_content_chars"@,
                        crate::json::JsonView::Int(suggested_max_content_chars as int),
                    ),
                ],
            ),
            _ => crate::json::JsonView::Obj(Seq::empty()),
        }
    }

    /// The error as output, with its details, pertaining to `feed_url`.
    pub fn to_error_obj(&self, feed_url: Option<&str>) -> (r: ErrorObj)
        ensures
            r.code@ == self.code_text(),
            r.message@ == self.message_text(),
            r.feed_url.deep_view() == (match feed_url {
                Some(u) => Some(u@),
                None => None,
            }),
            r.details@ == self.details(),
    {
        broadcast use lemma_obj_members;

        let mut obj = ErrorObj::new(self.code(), &self.message());
        if let Some(u) = feed_url {
            obj.feed_url = Some(u.to_owned());
        }
        let mut f: Vec<(String, Json)> = Vec::new();
        assert(crate::json::members(f@) =~= Seq::empty());
        match self {
            RssError::Http { status, retry_after, retry_after_hint, .. } => {
                let (secs, millis) = match retry_after_hint {
                    Some(d) => (Some(d.as_secs()), Some(d.as_millis())),
                    None => (None, None),
                };
                put(&mut f, "http_status", Json::UInt(*status as u64));
                put(&mut f, "retry_after", json_opt_text(retry_after));
                put(&mut f, "retry_after_seconds", json_opt_number(secs));
                put(&mut f, "retry_after_ms", json_opt_number(millis));
                assert(crate::json::members(f@) =~= self.details()->Obj_0);
                obj.details = Json::Obj(f);
            },
            RssError::RateLimited { retry_after, .. } => {
                put(&mut f, "retry_after_seconds", Json::UInt(retry_after.as_secs()));
                put(&mut f, "retry_after_ms", Json::UInt(retry_after.as_millis()));
                assert(crate::json::members(f@) =~= self.details()->Obj_0);
                obj.details = Json::Obj(f);
            },
            RssError::ResponseTooLarge {
                estimated_tokens,
                budget_tokens,
                suggested_limit,
                suggested_max_content_chars,
            } => {
                put(&mut f, "estimated_tokens", Json::UInt(*estimated_tokens as u64));
                put(&mut f, "budget_tokens", Json::UInt(*budget_tokens as u64));
                put(&mut f, "suggested_limit", Json::UInt(*suggested_limit as u64));
                put(
                    &mut f,
                    "suggested_max_content_chars",
                    Json::UInt(*suggested_max_content_chars as u64),
                );
                assert(crate::json::members(f@) =~= self.details()->Obj_0);
                obj.details = Json::Obj(f);
            },
            _ => {},
        }
        obj
    }
}

} // verus!
