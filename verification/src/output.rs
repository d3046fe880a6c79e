//! Rendering of results as JSON, newline-delimited JSON and text.

use vstd::prelude::*;
use vstd::string::*;

use crate::json::{lemma_obj_members, put, to_compact, to_pretty, Json};
use crate::model::{DiscoverOutput, DiscoveredFeed, ErrorObj, FeedResult, FetchOutput, Item};
use crate::text::number_text;
use crate::wire::{
    discovered_value, discovery_value, error_fields, item_fields, item_value, output_value,
    status_name, truncation_or_null, warning_values,
};

verus! {

/// Output format of a command.
#[derive(Debug, Clone, Copy, PartialEq, Eq, Structural)]
pub enum OutputFormat {
    /// One pretty-printed JSON object.
    Json,
    /// Newline-delimited JSON.
    Ndjson,
    /// Human-readable text, the only format that may use color.
    Text,
}

impl Default for OutputFormat {
    fn default() -> (r: Self)
        ensures
            r == OutputFormat::Json,
    {
        OutputFormat::Json
    }
}

/// A text between an escape sequence and its reset, where color is wanted.
pub open spec fn styled(style: Seq<char>, s: Seq<char>, color: bool) -> Seq<char> {
    if color {
        style + s + "\x1b[0m"@
    } else {
        s
    }
}

/// A text in bold.
pub open spec fn bold_text(s: Seq<char>, color: bool) -> Seq<char> {
    styled("\x1b[1m"@, s, color)
}

/// A dimmed text.
pub open spec fn dim_text(s: Seq<char>, color: bool) -> Seq<char> {
    styled("\x1b[2m"@, s, color)
}

/// A text in bold, where color is wanted.
pub fn bold(s: &str, color: bool) -> (r: String)
    ensures
        r@ == bold_text(s@, color),
{
    if color {
        "\x1b[1m".to_owned().concat(s).concat("\x1b[0m")
    } else {
        s.to_owned()
    }
}

/// A dimmed text, where color is wanted.
pub fn dim(s: &str, color: bool) -> (r: String)
    ensures
        r@ == dim_text(s@, color),
{
    if color {
        "\x1b[2m".to_owned().concat(s).concat("\x1b[0m")
    } else {
        s.to_owned()
    }
}

/// Some lines as one text, with a line feed between each two.
pub open spec fn joined_lines(lines: Seq<Seq<char>>) -> Seq<char>
    decreases lines.len(),
{
    if lines.len() == 0 {
        Seq::empty()
    } else if lines.len() == 1 {
        lines[0]
    } else {
        joined_lines(lines.drop_last()) + "\n"@ + lines.last()
    }
}

/// Joins lines with line feeds.
pub fn join_lines(lines: &Vec<String>) -> (r: String)
    ensures
        r@ == joined_lines(lines.deep_view()),
{
    let ghost all = lines.deep_view();
    let mut out = String::new();
    let mut i: usize = 0;
    assert(out@ =~= joined_lines(all.take(0)));
    while i < lines.len()
        invariant
            all == lines.deep_view(),
            i <= lines@.len(),
            out@ == joined_lines(all.take(i as int)),
        decreases lines@.len() - i,
    {
        proof {
            let t = all.take(i + 1);
            assert(t.drop_last() =~= all.take(i as int));
            assert(t.last() == lines@[i as int]@);
            assert(i == 0 ==> out@ + lines@[0]@ =~= lines@[0]@);
        }
        if i > 0 {
            out = out.concat("\n");
        }
        out = out.concat(lines[i].as_str());
        i = i + 1;
    }
    assert(all.take(i as int) =~= all);
    out
}

/// The lines of a text: what stands between its line feeds.
pub open spec fn lines_of(s: Seq<char>) -> Seq<Seq<char>>
    decreases s.len(),
{
    if s.len() == 0 {
        seq![Seq::empty()]
    } else {
        let before = lines_of(s.drop_last());
        if s.last() == '\n' {
            before.push(Seq::empty())
        } else {
            before.update(before.len() - 1, before.last().push(s.last()))
        }
    }
}

/// None of the texts has a line feed in it.
pub open spec fn are_one_line(lines: Seq<Seq<char>>) -> bool {
    forall|k: int| 0 <= k < lines.len() ==> crate::json::is_one_line(#[trigger] lines[k])
}

proof fn lemma_last_line(s: Seq<char>, line: Seq<char>)
    requires
        crate::json::is_one_line(line),
    ensures
        lines_of(s).len() > 0,
        lines_of(s + line) == lines_of(s).update(
            lines_of(s).len() - 1,
            lines_of(s).last() + line,
        ),
    decreases s.len() + line.len(),
{
    if line.len() == 0 {
        if s.len() > 0 {
            lemma_last_line(s.drop_last(), Seq::empty());
        }
        assert(s + line =~= s);
        assert(lines_of(s).last() + line =~= lines_of(s).last());
        assert(lines_of(s) =~= lines_of(s).update(lines_of(s).len() - 1, lines_of(s).last()));
    } else {
        let shorter = line.drop_last();
        assert forall|k: int| 0 <= k < shorter.len() implies #[trigger] shorter[k] != '\n' by {
            assert(line[k] != '\n');
        }
        lemma_last_line(s, shorter);
        assert(line[line.len() - 1] != '\n');
        assert((s + line).drop_last() =~= s + shorter);
        assert((lines_of(s).last() + shorter).push(line.last()) =~= lines_of(s).last() + line);
        assert(lines_of(s + line) =~= lines_of(s).update(
            lines_of(s).len() - 1,
            lines_of(s).last() + line,
        ));
    }
}

/// Joined lines come apart again: the lines of the text are those that were joined.
pub proof fn law_joined_lines_come_apart(lines: Seq<Seq<char>>)
    requires
        lines.len() > 0,
        are_one_line(lines),
    ensures
        lines_of(joined_lines(lines)) == lines,
    decreases lines.len(),
{
    let last = lines.last();
    assert(crate::json::is_one_line(lines[lines.len() - 1]));
    if lines.len() == 1 {
        lemma_last_line(Seq::empty(), last);
        assert(Seq::<char>::empty() + last =~= last);
        assert(lines_of(last) =~= lines);
    } else {
        let before = lines.drop_last();
        assert forall|k: int| 0 <= k < before.len() implies crate::json::is_one_line(
            #[trigger] before[k],
        ) by {
            assert(crate::json::is_one_line(lines[k]));
        }
        law_joined_lines_come_apart(before);
        let s = joined_lines(before) + "\n"@;
        reveal_strlit("\n");
        assert(s.drop_last() =~= joined_lines(before));
        assert(s.last() == '\n');
        lemma_last_line(s, last);
        assert(Seq::<char>::empty() + last =~= last);
        assert(lines_of(s + last) =~= lines);
    }
}

/// A text, or a dash where there is none.
pub open spec fn or_dash(s: Option<Seq<char>>) -> Seq<char> {
    match s {
        Some(t) => t,
        None => "-"@,
    }
}

fn dashed(s: &Option<String>) -> (r: &str)
    ensures
        r@ == or_dash(s.deep_view()),
{
    match s {
        Some(t) => t.as_str(),
        None => "-",
    }
}

/// The line of a feed: its title or address, its status, whether it was cached, its item count.
pub open spec fn feed_line(f: FeedResult, color: bool) -> Seq<char> {
    bold_text(
        match f.title {
            Some(t) => t@,
            None => f.feed_url@,
        },
        color,
    ) + "  ["@ + crate::wire::status_text(f.status) + "]"@ + (if f.from_cache {
        " (cached)"@
    } else {
        ""@
    }) + "  "@ + crate::text::decimal(f.items@.len()) + " item(s)"@
}

/// The line of an item: its date, title and address.
pub open spec fn item_line(i: Item, color: bool) -> Seq<char> {
    "  - "@ + dim_text(or_dash(i.published.deep_view()), color) + "  "@ + or_dash(
        i.title.deep_view(),
    ) + "  "@ + dim_text(or_dash(i.url.deep_view()), color)
}

/// The line of a feed's error.
pub open spec fn feed_error_lines(e: Option<ErrorObj>) -> Seq<Seq<char>> {
    match e {
        Some(x) => seq!["  ! "@ + x.code@ + ": "@ + x.message@],
        None => Seq::empty(),
    }
}

/// The lines of a feed.
pub open spec fn feed_lines(f: FeedResult, color: bool) -> Seq<Seq<char>> {
    seq![feed_line(f, color)] + f.items@.map_values(|i: Item| item_line(i, color))
        + feed_error_lines(f.error)
}

/// The lines of some feeds.
pub open spec fn feeds_lines(feeds: Seq<FeedResult>, color: bool) -> Seq<Seq<char>>
    decreases feeds.len(),
{
    if feeds.len() == 0 {
        Seq::empty()
    } else {
        feeds_lines(feeds.drop_last(), color) + feed_lines(feeds.last(), color)
    }
}

/// The line of an error in the closing list.
pub open spec fn error_line(e: ErrorObj) -> Seq<char> {
    match e.feed_url {
        Some(u) => "  ! ["@ + e.code@ + "] "@ + u@ + ": "@ + e.message@,
        None => "  ! ["@ + e.code@ + "] "@ + e.message@,
    }
}

/// The closing list of errors, where there are any.
pub open spec fn error_lines(errors: Seq<ErrorObj>, color: bool) -> Seq<Seq<char>> {
    if errors.len() == 0 {
        Seq::empty()
    } else {
        seq![bold_text(crate::text::decimal(errors.len()) + " error(s):"@, color)]
            + errors.map_values(|e: ErrorObj| error_line(e))
    }
}

/// An output as text.
pub open spec fn fetch_text(o: FetchOutput, color: bool) -> Seq<char> {
    joined_lines(feeds_lines(o.feeds@, color) + error_lines(o.errors@, color))
}

fn feed_heading(f: &FeedResult, color: bool) -> (r: String)
    ensures
        r@ == feed_line(*f, color),
{
    let head = match &f.title {
        Some(t) => t.as_str(),
        None => f.feed_url.as_str(),
    };
    let cache = if f.from_cache {
        " (cached)"
    } else {
        ""
    };
    bold(head, color).concat("  [").concat(status_name(f.status)).concat("]").concat(cache).concat(
        "  ",
    ).concat(number_text(f.items.len() as u64).as_str()).concat(" item(s)")
}

fn item_text(i: &Item, color: bool) -> (r: String)
    ensures
        r@ == item_line(*i, color),
{
    "  - ".to_owned().concat(dim(dashed(&i.published), color).as_str()).concat("  ").concat(
        dashed(&i.title),
    ).concat("  ").concat(dim(dashed(&i.url), color).as_str())
}

fn push_feed(lines: &mut Vec<String>, f: &FeedResult, color: bool)
    ensures
        final(lines).deep_view() == old(lines).deep_view() + feed_lines(*f, color),
{
    let ghost start = lines.deep_view();
    lines.push(feed_heading(f, color));
    assert(lines.deep_view() =~= start.push(feed_line(*f, color)));
    let ghost items = f.items@.map_values(|i: Item| item_line(i, color));
    let mut k: usize = 0;
    assert(lines.deep_view() =~= start.push(feed_line(*f, color)) + items.take(0));
    while k < f.items.len()
        invariant
            items == f.items@.map_values(|i: Item| item_line(i, color)),
            k <= f.items@.len(),
            lines.deep_view() == start.push(feed_line(*f, color)) + items.take(k as int),
        decreases f.items@.len() - k,
    {
        let ghost so_far = lines.deep_view();
        lines.push(item_text(&f.items[k], color));
        proof {
            assert(lines.deep_view() =~= so_far.push(items[k as int]));
            assert(items.take(k + 1) =~= items.take(k as int).push(items[k as int]));
        }
        k = k + 1;
    }
    assert(items.take(k as int) =~= items);
    let ghost so_far = lines.deep_view();
    if let Some(e) = &f.error {
        lines.push(
            "  ! ".to_owned().concat(e.code.as_str()).concat(": ").concat(e.message.as_str()),
        );
    }
    assert(lines.deep_view() =~= so_far + feed_error_lines(f.error));
    assert(lines.deep_view() =~= start + feed_lines(*f, color));
}

fn error_text(e: &ErrorObj) -> (r: String)
    ensures
        r@ == error_line(*e),
{
    let start = "  ! [".to_owned().concat(e.code.as_str()).concat("] ");
    match &e.feed_url {
        Some(u) => start.concat(u.as_str()).concat(": ").concat(e.message.as_str()),
        None => start.concat(e.message.as_str()),
    }
}

fn push_errors(lines: &mut Vec<String>, errors: &Vec<ErrorObj>, color: bool)
    ensures
        final(lines).deep_view() == old(lines).deep_view() + error_lines(errors@, color),
{
    let ghost start = lines.deep_view();
    if errors.len() == 0 {
        assert(start + error_lines(errors@, color) =~= start);
        return;
    }
    lines.push(bold(number_text(errors.len() as u64).concat(" error(s):").as_str(), color));
    let ghost all = errors@.map_values(|e: ErrorObj| error_line(e));
    let ghost head = bold_text(crate::text::decimal(errors@.len()) + " error(s):"@, color);
    let mut k: usize = 0;
    assert(lines.deep_view() =~= start.push(head) + all.take(0));
    while k < errors.len()
        invariant
            all == errors@.map_values(|e: ErrorObj| error_line(e)),
            k <= errors@.len(),
            lines.deep_view() == start.push(head) + all.take(k as int),
        decreases errors@.len() - k,
    {
        let ghost so_far = lines.deep_view();
        lines.push(error_text(&errors[k]));
        proof {
            assert(lines.deep_view() =~= so_far.push(all[k as int]));
            assert(all.take(k + 1) =~= all.take(k as int).push(all[k as int]));
        }
        k = k + 1;
    }
    assert(all.take(k as int) =~= all);
    assert(lines.deep_view() =~= start + error_lines(errors@, color));
}

/// An output as text: a heading for each feed, a line for each item, and the errors.
pub fn render_fetch_text(out: &FetchOutput, color: bool) -> (r: String)
    ensures
        r@ == fetch_text(*out, color),
{
    let ghost feeds = out.feeds@;
    let mut lines: Vec<String> = Vec::new();
    let mut i: usize = 0;
    assert(feeds.take(0) =~= Seq::empty());
    assert(lines.deep_view() =~= feeds_lines(feeds.take(0), color));
    while i < out.feeds.len()
        invariant
            feeds == out.feeds@,
            i <= feeds.len(),
            lines.deep_view() == feeds_lines(feeds.take(i as int), color),
        decreases feeds.len() - i,
    {
        proof {
            assert(feeds.take(i + 1).drop_last() =~= feeds.take(i as int));
            assert(feeds.take(i + 1).last() == feeds[i as int]);
        }
        push_feed(&mut lines, &out.feeds[i], color);
        i = i + 1;
    }
    assert(feeds.take(i as int) =~= feeds);
    push_errors(&mut lines, &out.errors, color);
    join_lines(&lines)
}

/// All items of some feeds, in order.
pub open spec fn all_items(feeds: Seq<FeedResult>) -> Seq<Item>
    decreases feeds.len(),
{
    if feeds.len() == 0 {
        Seq::empty()
    } else {
        all_items(feeds.drop_last()) + feeds.last().items@
    }
}

/// A value's JSON on one line.
pub open spec fn json_line(j: crate::json::JsonView) -> Seq<char> {
    crate::json::compact_text(crate::json::kept(j))
}

/// Members with a `type` member behind them, on one line.
pub open spec fn tagged_line(
    members: Seq<(Seq<char>, crate::json::JsonView)>,
    kind: Seq<char>,
) -> Seq<char> {
    json_line(
        crate::json::JsonView::Obj(members.push(("type"@, crate::json::JsonView::Str(kind)))),
    )
}

/// The JSON line of an item: bare, or as a tagged record.
pub open spec fn item_record(i: Item, records: bool) -> Seq<char> {
    if records {
        tagged_line(crate::wire::item_members(i), "item"@)
    } else {
        json_line(crate::wire::item_json(i))
    }
}

/// The closing record: totals and how the result was bounded.
pub open spec fn summary_json(o: FetchOutput) -> crate::json::JsonView {
    crate::json::JsonView::Obj(
        seq![
            crate::wire::text_member("type"@, "summary"@),
            crate::wire::text_member("schema_version"@, o.schema_version@),
            crate::wire::text_member("fetched_at"@, o.fetched_at@),
            crate::wire::number_member("feeds"@, o.feeds@.len() as int),
            crate::wire::number_member("errors"@, o.errors@.len() as int),
            crate::wire::number_member("total_items"@, o.total_items as int),
            crate::wire::number_member(
                "total_content_tokens_est"@,
                o.total_content_tokens_est as int,
            ),
            (
                "warnings"@,
                crate::wire::list(
                    o.warnings@,
                    |w: crate::model::Warning| crate::wire::warning_json(w),
                ),
            ),
            (
                "truncation"@,
                match o.truncation {
                    Some(t) => crate::wire::truncation_json(t),
                    None => crate::json::JsonView::Null,
                },
            ),
        ],
    )
}

/// The lines of newline-delimited JSON: one for each item and, of tagged records, one for each error
/// and a summary.
pub open spec fn ndjson_lines(o: FetchOutput, records: bool) -> Seq<Seq<char>> {
    let items = all_items(o.feeds@).map_values(|i: Item| item_record(i, records));
    if records {
        items + o.errors@.map_values(
            |e: ErrorObj| tagged_line(crate::wire::error_members(e), "error"@),
        ) + seq![json_line(summary_json(o))]
    } else {
        items
    }
}

fn tagged(fields: Vec<(String, Json)>, kind: &str) -> (r: String)
    ensures
        r@ == tagged_line(crate::json::members(fields@), kind@),
        crate::json::is_one_line(r@),
{
    broadcast use lemma_obj_members;

    let ghost before = crate::json::members(fields@);
    let mut m = fields;
    put(&mut m, "type", Json::Str(kind.to_owned()));
    assert(crate::json::members(m@) =~= before.push(
        ("type"@, crate::json::JsonView::Str(kind@)),
    ));
    to_compact(&Json::Obj(m))
}

fn item_json_line(i: &Item, records: bool) -> (r: String)
    ensures
        r@ == item_record(*i, records),
        crate::json::is_one_line(r@),
{
    if records {
        tagged(item_fields(i), "item")
    } else {
        to_compact(&item_value(i))
    }
}

fn push_items(lines: &mut Vec<String>, items: &Vec<Item>, records: bool)
    ensures
        final(lines).deep_view() == old(lines).deep_view() + items@.map_values(
            |i: Item| item_record(i, records),
        ),
        are_one_line(old(lines).deep_view()) ==> are_one_line(final(lines).deep_view()),
{
    let ghost start = lines.deep_view();
    let ghost all = items@.map_values(|i: Item| item_record(i, records));
    let mut k: usize = 0;
    assert(start + all.take(0) =~= start);
    while k < items.len()
        invariant
            all == items@.map_values(|i: Item| item_record(i, records)),
            k <= items@.len(),
            lines.deep_view() == start + all.take(k as int),
            are_one_line(start) ==> are_one_line(lines.deep_view()),
        decreases items@.len() - k,
    {
        let ghost so_far = lines.deep_view();
        lines.push(item_json_line(&items[k], records));
        proof {
            assert(lines.deep_view() =~= so_far.push(all[k as int]));
            assert(all.take(k + 1) =~= all.take(k as int).push(all[k as int]));
        }
        k = k + 1;
    }
    assert(all.take(k as int) =~= all);
}

fn push_error_records(lines: &mut Vec<String>, errors: &Vec<ErrorObj>)
    ensures
        final(lines).deep_view() == old(lines).deep_view() + errors@.map_values(
            |e: ErrorObj| tagged_line(crate::wire::error_members(e), "error"@),
        ),
        are_one_line(old(lines).deep_view()) ==> are_one_line(final(lines).deep_view()),
{
    let ghost start = lines.deep_view();
    let ghost all = errors@.map_values(
        |e: ErrorObj| tagged_line(crate::wire::error_members(e), "error"@),
    );
    let mut k: usize = 0;
    assert(start + all.take(0) =~= start);
    while k < errors.len()
        invariant
            all == errors@.map_values(
                |e: ErrorObj| tagged_line(crate::wire::error_members(e), "error"@),
            ),
            k <= errors@.len(),
            lines.deep_view() == start + all.take(k as int),
            are_one_line(start) ==> are_one_line(lines.deep_view()),
        decreases errors@.len() - k,
    {
        let ghost so_far = lines.deep_view();
        lines.push(tagged(error_fields(&errors[k]), "error"));
        proof {
            assert(lines.deep_view() =~= so_far.push(all[k as int]));
            assert(all.take(k + 1) =~= all.take(k as int).push(all[k as int]));
        }
        k = k + 1;
    }
    assert(all.take(k as int) =~= all);
}

fn summary_value(o: &FetchOutput) -> (r: Json)
    ensures
        r@ == summary_json(*o),
{
    broadcast use lemma_obj_members;

    let mut m: Vec<(String, Json)> = Vec::new();
    assert(crate::json::members(m@) =~= Seq::empty());
    put(&mut m, "type", Json::Str("summary".to_owned()));
    put(&mut m, "schema_version", Json::Str(o.schema_version.clone()));
    put(&mut m, "fetched_at", Json::Str(o.fetched_at.clone()));
    put(&mut m, "feeds", Json::UInt(o.feeds.len() as u64));
    put(&mut m, "errors", Json::UInt(o.errors.len() as u64));
    put(&mut m, "total_items", Json::UInt(o.total_items as u64));
    put(&mut m, "total_content_tokens_est", Json::UInt(o.total_content_tokens_est));
    put(&mut m, "warnings", warning_values(&o.warnings));
    put(&mut m, "truncation", truncation_or_null(&o.truncation));
    assert(crate::json::members(m@) =~= summary_json(*o)->Obj_0);
    Json::Obj(m)
}

/// An output as newline-delimited JSON: bare items, or tagged records that keep the errors and
/// totals in the stream. Each record is a line of its own.
pub fn render_fetch_ndjson(out: &FetchOutput, records: bool) -> (r: String)
    ensures
        r@ == joined_lines(ndjson_lines(*out, records)),
        ndjson_lines(*out, records).len() > 0 ==> lines_of(r@) == ndjson_lines(*out, records),
{
    let ghost feeds = out.feeds@;
    let mut lines: Vec<String> = Vec::new();
    let mut i: usize = 0;
    proof {
        assert(feeds.take(0) =~= Seq::empty());
        assert(lines.deep_view() =~= all_items(feeds.take(0)).map_values(
            |i: Item| item_record(i, records),
        ));
    }
    while i < out.feeds.len()
        invariant
            feeds == out.feeds@,
            i <= feeds.len(),
            lines.deep_view() == all_items(feeds.take(i as int)).map_values(
                |i: Item| item_record(i, records),
            ),
            are_one_line(lines.deep_view()),
        decreases feeds.len() - i,
    {
        push_items(&mut lines, &out.feeds[i].items, records);
        proof {
            assert(feeds.take(i + 1).drop_last() =~= feeds.take(i as int));
            assert(feeds.take(i + 1).last() == feeds[i as int]);
            assert(lines.deep_view() =~= all_items(feeds.take(i + 1)).map_values(
                |i: Item| item_record(i, records),
            ));
        }
        i = i + 1;
    }
    assert(feeds.take(i as int) =~= feeds);
    if records {
        push_error_records(&mut lines, &out.errors);
        let ghost so_far = lines.deep_view();
        lines.push(to_compact(&summary_value(out)));
        assert(lines.deep_view() =~= so_far.push(json_line(summary_json(*out))));
    }
    assert(lines.deep_view() =~= ndjson_lines(*out, records));
    proof {
        if lines@.len() > 0 {
            law_joined_lines_come_apart(lines.deep_view());
        }
    }
    join_lines(&lines)
}

/// A value's JSON, indented.
pub open spec fn indented(j: crate::json::JsonView) -> Seq<char> {
    crate::json::pretty_text(crate::json::kept(j))
}

/// An output in a format.
pub open spec fn fetch_rendering(
    o: FetchOutput,
    format: OutputFormat,
    color: bool,
    records: bool,
) -> Seq<char> {
    match format {
        OutputFormat::Json => indented(crate::wire::output_json(o)),
        OutputFormat::Ndjson => joined_lines(ndjson_lines(o, records)),
        OutputFormat::Text => fetch_text(o, color),
    }
}

/// Renders an output. `ndjson_records` asks for tagged records in newline-delimited JSON.
pub fn render_fetch(
    out: &FetchOutput,
    format: OutputFormat,
    color: bool,
    ndjson_records: bool,
) -> (r: String)
    ensures
        r@ == fetch_rendering(*out, format, color, ndjson_records),
        format == OutputFormat::Ndjson && ndjson_lines(*out, ndjson_records).len() > 0 ==> lines_of(
            r@,
        ) == ndjson_lines(*out, ndjson_records),
{
    match format {
        OutputFormat::Json => to_pretty(&output_value(out)),
        OutputFormat::Ndjson => render_fetch_ndjson(out, ndjson_records),
        OutputFormat::Text => render_fetch_text(out, color),
    }
}

/// The line of a discovered feed.
pub open spec fn discovered_line(f: DiscoveredFeed, color: bool) -> Seq<char> {
    "  "@ + f.url@ + "  ["@ + f.feed_type@ + "]  "@ + dim_text(or_dash(f.title.deep_view()), color)
}

/// A discovery as text.
pub open spec fn discover_text(d: DiscoverOutput, color: bool) -> Seq<char> {
    joined_lines(
        seq![
            bold_text(d.site_url@, color) + "  "@ + crate::text::decimal(d.feeds@.len())
                + " feed(s)"@,
        ] + d.feeds@.map_values(|f: DiscoveredFeed| discovered_line(f, color)),
    )
}

/// A discovery as text: the site, and a line for each feed.
pub fn render_discover_text(out: &DiscoverOutput, color: bool) -> (r: String)
    ensures
        r@ == discover_text(*out, color),
{
    let mut lines: Vec<String> = Vec::new();
    lines.push(
        bold(out.site_url.as_str(), color).concat("  ").concat(
            number_text(out.feeds.len() as u64).as_str(),
        ).concat(" feed(s)"),
    );
    let ghost head = lines.deep_view();
    let ghost all = out.feeds@.map_values(|f: DiscoveredFeed| discovered_line(f, color));
    let mut k: usize = 0;
    assert(head + all.take(0) =~= head);
    while k < out.feeds.len()
        invariant
            all == out.feeds@.map_values(|f: DiscoveredFeed| discovered_line(f, color)),
            k <= out.feeds@.len(),
            lines.deep_view() == head + all.take(k as int),
        decreases out.feeds@.len() - k,
    {
        let ghost so_far = lines.deep_view();
        let f = &out.feeds[k];
        lines.push(
            "  ".to_owned().concat(f.url.as_str()).concat("  [").concat(
                f.feed_type.as_str(),
            ).concat("]  ").concat(dim(dashed(&f.title), color).as_str()),
        );
        proof {
            assert(lines.deep_view() =~= so_far.push(all[k as int]));
            assert(all.take(k + 1) =~= all.take(k as int).push(all[k as int]));
        }
        k = k + 1;
    }
    assert(all.take(k as int) =~= all);
    assert(head =~= seq![
        bold_text(out.site_url@, color) + "  "@ + crate::text::decimal(out.feeds@.len())
            + " feed(s)"@,
    ]);
    join_lines(&lines)
}

/// A discovery in a format.
pub open spec fn discover_rendering(d: DiscoverOutput, format: OutputFormat, color: bool) -> Seq<char> {
    match format {
        OutputFormat::Json => indented(crate::wire::discovery_json(d)),
        OutputFormat::Ndjson => joined_lines(
            d.feeds@.map_values(
                |f: DiscoveredFeed| json_line(crate::wire::discovered_json(f)),
            ),
        ),
        OutputFormat::Text => discover_text(d, color),
    }
}

fn render_discover_ndjson(out: &DiscoverOutput) -> (r: String)
    ensures
        r@ == joined_lines(
            out.feeds@.map_values(
                |f: DiscoveredFeed| json_line(crate::wire::discovered_json(f)),
            ),
        ),
        out.feeds@.len() > 0 ==> lines_of(r@) == out.feeds@.map_values(
            |f: DiscoveredFeed| json_line(crate::wire::discovered_json(f)),
        ),
{
    let ghost all = out.feeds@.map_values(
        |f: DiscoveredFeed| json_line(crate::wire::discovered_json(f)),
    );
    let mut lines: Vec<String> = Vec::new();
    let mut k: usize = 0;
    assert(lines.deep_view() =~= all.take(0));
    while k < out.feeds.len()
        invariant
            all == out.feeds@.map_values(
                |f: DiscoveredFeed| json_line(crate::wire::discovered_json(f)),
            ),
            k <= out.feeds@.len(),
            lines.deep_view() == all.take(k as int),
            are_one_line(lines.deep_view()),
        decreases out.feeds@.len() - k,
    {
        let ghost so_far = lines.deep_view();
        lines.push(to_compact(&discovered_value(&out.feeds[k])));
        proof {
            assert(lines.deep_view() =~= so_far.push(all[k as int]));
            assert(all.take(k + 1) =~= all.take(k as int).push(all[k as int]));
        }
        k = k + 1;
    }
    assert(all.take(k as int) =~= all);
    proof {
        if lines@.len() > 0 {
            law_joined_lines_come_apart(lines.deep_view());
        }
    }
    join_lines(&lines)
}

/// Renders a discovery.
pub fn render_discover(out: &DiscoverOutput, format: OutputFormat, color: bool) -> (r: String)
    ensures
        r@ == discover_rendering(*out, format, color),
        format == OutputFormat::Ndjson && out.feeds@.len() > 0 ==> lines_of(r@).len()
            == out.feeds@.len(),
{
    match format {
        OutputFormat::Json => to_pretty(&discovery_value(out)),
        OutputFormat::Ndjson => render_discover_ndjson(out),
        OutputFormat::Text => render_discover_text(out, color),
    }
}

/// Newline-delimited JSON has one line for each item; tagged records add one for each error and the
/// summary.
pub proof fn law_ndjson_loses_no_item(o: FetchOutput)
    ensures
        ndjson_lines(o, false).len() == crate::totals::item_total(o.feeds@),
        ndjson_lines(o, true).len() == crate::totals::item_total(o.feeds@) + o.errors@.len() + 1,
{
    lemma_all_items_len(o.feeds@);
}

proof fn lemma_all_items_len(feeds: Seq<FeedResult>)
    ensures
        all_items(feeds).len() == crate::totals::item_total(feeds),
    decreases feeds.len(),
{
    if feeds.len() > 0 {
        lemma_all_items_len(feeds.drop_last());
    }
}

} // verus!
