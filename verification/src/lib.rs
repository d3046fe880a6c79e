//! A feed reader's logic: fetch planning, parsing, filtering, deduplication, paging and
//! rendering of RSS, Atom and JSON feeds for agents.

pub mod answer;
pub mod answer_laws;
pub mod args;
pub mod args_laws;
pub mod batch;
pub mod batch_laws;
pub mod cache;
pub mod cli;
pub mod cli_laws;
pub mod config;
pub mod content;
pub mod content_laws;
pub mod cursor;
pub mod cursor_laws;
pub mod dedupe;
pub mod dedupe_laws;
pub mod discover;
pub mod discover_laws;
pub mod error;
pub mod exit;
pub mod fetch;
pub mod fetch_laws;
pub mod fill;
pub mod hash;
pub mod identity;
pub mod joiner;
pub mod json;
pub mod layout;
pub mod link;
pub mod marker;
pub mod markup;
pub mod markup_laws;
pub mod mcp;
pub mod mcp_laws;
pub mod model;
pub mod output;
pub mod output_laws;
pub mod page;
pub mod page_laws;
pub mod parse;
pub mod parse_laws;
pub mod query;
pub mod query_laws;
pub mod ratelimit;
pub mod ratelimit_laws;
pub mod record;
pub mod record_laws;
pub mod report;
pub mod room;
pub mod session;
pub mod text;
pub mod text_laws;
pub mod time;
pub mod totals;
pub mod wire;
pub mod wire_laws;

