//! What rendered output and reports promise.

use vstd::prelude::*;

use crate::cli::{selected_content, selected_format, ContentArg, FetchArgs, FormatArg};
use crate::error::RssError;
use crate::json::{compact_text, kept, pretty_text, JsonView};
use crate::model::{
    ContentFormat, DiscoverOutput, DiscoveredFeed, ErrorObj, FeedResult, FeedStatus, FetchOutput, Item,
};
use crate::output::{
    all_items, bold_text, dim_text, discover_rendering, discover_text, discovered_line, error_line,
    error_lines, feed_line, feed_lines, feeds_lines, fetch_rendering, fetch_text, item_line, joined_lines,
    json_line, ndjson_lines, summary_json, OutputFormat,
};
use crate::report::{is_data, is_failure, is_fetch_report, is_marked, Report};
use crate::text::decimal;
use crate::wire::{discovered_json, discovery_json, error_json, item_json, output_json, truncation_json};
use crate::wire_laws::holds;

verus! {

/// Bold and dim text stands between its escape sequence and the reset where color is wanted, and as it is
/// where not.
pub proof fn law_color_only_where_it_is_wanted(s: Seq<char>)
    ensures
        bold_text(s, false) == s,
        dim_text(s, false) == s,
        bold_text(s, true) == "\x1b[1m"@ + s + "\x1b[0m"@,
        dim_text(s, true) == "\x1b[2m"@ + s + "\x1b[0m"@,
{
}

/// A text is joined of its lines with a line feed between each two.
pub proof fn law_lines_are_joined_by_line_feeds(lines: Seq<Seq<char>>, last: Seq<char>)
    ensures
        joined_lines(Seq::empty()).len() == 0,
        joined_lines(seq![last]) == last,
        lines.len() > 0 ==> joined_lines(lines.push(last)) == joined_lines(lines).push('\n') + last,
{
    reveal_strlit("\n");
    assert(lines.push(last).drop_last() =~= lines);
    assert(joined_lines(lines) + "\n"@ =~= joined_lines(lines).push('\n'));
}

/// An item's line shows its title, its link and when it was published, each or a dash, in this order.
pub proof fn law_an_item_line_shows_the_item(i: Item)
    ensures
        item_line(i, false) == "  - "@ + (match i.published {
            Some(t) => t@,
            None => "-"@,
        }) + "  "@ + (match i.title {
            Some(t) => t@,
            None => "-"@,
        }) + "  "@ + (match i.url {
            Some(t) => t@,
            None => "-"@,
        }),
{
}

/// A feed's heading shows its title, or its address where it has none, its status, whether it was cached,
/// and how many items it has.
pub proof fn law_a_heading_shows_the_feed(f: FeedResult)
    ensures
        feed_line(f, false) == (match f.title {
            Some(t) => t@,
            None => f.feed_url@,
        }) + "  ["@ + (match f.status {
            FeedStatus::Fresh => "ok"@,
            FeedStatus::NotModified => "not_modified"@,
            FeedStatus::Stale => "stale"@,
            FeedStatus::Error => "error"@,
        }) + "]"@ + (if f.from_cache {
            " (cached)"@
        } else {
            ""@
        }) + "  "@ + decimal(f.items@.len()) + " item(s)"@,
{
}

/// The text of an output has for each feed its heading, a line for each of its items in order, and one for
/// its error; after all feeds it lists the errors, each with its code, its feed and its message.
pub proof fn law_the_text_shows_every_item_and_error(
    a: Seq<FeedResult>,
    b: Seq<FeedResult>,
    f: FeedResult,
    o: FetchOutput,
    color: bool,
)
    ensures
        feeds_lines(a + b, color) == feeds_lines(a, color) + feeds_lines(b, color),
        feeds_lines(seq![f], color).len() == 1 + f.items@.len() + (if f.error is Some {
            1int
        } else {
            0
        }),
        feeds_lines(seq![f], color)[0] == feed_line(f, color),
        forall|k: int|
            0 <= k < f.items@.len() ==> #[trigger] feeds_lines(seq![f], color)[1 + k] == item_line(
                f.items@[k],
                color,
            ),
        f.error matches Some(e) ==> feeds_lines(seq![f], color).last() == "  ! "@ + e.code@ + ": "@
            + e.message@,
        fetch_text(o, color) == joined_lines(feeds_lines(o.feeds@, color) + error_lines(o.errors@, color)),
        o.errors@.len() == 0 ==> error_lines(o.errors@, color).len() == 0,
        o.errors@.len() > 0 ==> error_lines(o.errors@, color).len() == o.errors@.len() + 1,
        forall|k: int|
            0 <= k < o.errors@.len() ==> #[trigger] error_lines(o.errors@, color)[1 + k] == error_line(
                o.errors@[k],
            ),
    decreases b.len(),
{
    reveal_with_fuel(feeds_lines, 2);
    assert(seq![f].drop_last() =~= Seq::empty());
    assert(feeds_lines(seq![f], color) =~= feed_lines(f, color));
    assert forall|k: int| 0 <= k < f.items@.len() implies #[trigger] feeds_lines(seq![f], color)[1 + k]
        == item_line(f.items@[k], color) by {
        assert(feed_lines(f, color)[1 + k] == f.items@.map_values(|i: Item| item_line(i, color))[k]);
    }
    if b.len() == 0 {
        assert(a + b =~= a);
        assert(feeds_lines(a, color) + feeds_lines(b, color) =~= feeds_lines(a, color));
    } else {
        law_the_text_shows_every_item_and_error(a, b.drop_last(), f, o, color);
        assert((a + b).drop_last() =~= a + b.drop_last());
        assert((a + b).last() == b.last());
        assert(feeds_lines(a + b, color) =~= feeds_lines(a, color) + feeds_lines(b, color));
    }
}

/// An error's line shows its code, its feed where it has one, and its message.
pub proof fn law_an_error_line_shows_the_error(e: ErrorObj)
    ensures
        e.feed_url matches Some(u) ==> error_line(e) == "  ! ["@ + e.code@ + "] "@ + u@ + ": "@ + e.message@,
        e.feed_url is None ==> error_line(e) == "  ! ["@ + e.code@ + "] "@ + e.message@,
{
}

/// The items of an output are those of its feeds, in order.
pub proof fn law_items_come_feed_by_feed(a: Seq<FeedResult>, b: Seq<FeedResult>, f: FeedResult)
    ensures
        all_items(a + b) == all_items(a) + all_items(b),
        all_items(seq![f]) == f.items@,
        all_items(Seq::empty()).len() == 0,
    decreases b.len(),
{
    reveal_with_fuel(all_items, 2);
    assert(seq![f].drop_last() =~= Seq::empty());
    assert(all_items(seq![f]) =~= f.items@);
    if b.len() == 0 {
        assert(a + b =~= a);
        assert(all_items(a) + all_items(b) =~= all_items(a));
    } else {
        law_items_come_feed_by_feed(a, b.drop_last(), f);
        assert((a + b).drop_last() =~= a + b.drop_last());
        assert((a + b).last() == b.last());
        assert(all_items(a + b) =~= all_items(a) + all_items(b));
    }
}

/// Newline-delimited JSON has each item on a line of its own, in order, as it is. Tagged records have each
/// item with its members and the type `item`, then each error with its members and the type `error`, then
/// the summary.
pub proof fn law_each_item_has_its_line(o: FetchOutput, k: int)
    ensures
        0 <= k < all_items(o.feeds@).len() ==> ndjson_lines(o, false)[k] == compact_text(
            kept(item_json(all_items(o.feeds@)[k])),
        ),
        ndjson_lines(o, false).len() == all_items(o.feeds@).len(),
        0 <= k < all_items(o.feeds@).len() ==> ndjson_lines(o, true)[k] == compact_text(
            kept(JsonView::Obj(item_json(all_items(o.feeds@)[k])->Obj_0.push(("type"@, JsonView::Str("item"@))))),
        ),
        0 <= k < o.errors@.len() ==> ndjson_lines(o, true)[all_items(o.feeds@).len() + k] == compact_text(
            kept(JsonView::Obj(error_json(o.errors@[k])->Obj_0.push(("type"@, JsonView::Str("error"@))))),
        ),
        ndjson_lines(o, true).len() == all_items(o.feeds@).len() + o.errors@.len() + 1,
        ndjson_lines(o, true).last() == compact_text(kept(summary_json(o))),
{
}

/// The summary has the totals and says how the result was bounded.
pub proof fn law_the_members_of_a_summary(o: FetchOutput)
    ensures
        holds(summary_json(o), "type"@, JsonView::Str("summary"@)),
        holds(summary_json(o), "schema_version"@, JsonView::Str(o.schema_version@)),
        holds(summary_json(o), "fetched_at"@, JsonView::Str(o.fetched_at@)),
        holds(summary_json(o), "feeds"@, JsonView::Int(o.feeds@.len() as int)),
        holds(summary_json(o), "errors"@, JsonView::Int(o.errors@.len() as int)),
        holds(summary_json(o), "total_items"@, JsonView::Int(o.total_items as int)),
        holds(
            summary_json(o),
            "total_content_tokens_est"@,
            JsonView::Int(o.total_content_tokens_est as int),
        ),
        holds(
            summary_json(o),
            "warnings"@,
            JsonView::Arr(o.warnings@.map_values(|w: crate::model::Warning| crate::wire::warning_json(w))),
        ),
        o.truncation is None ==> holds(summary_json(o), "truncation"@, JsonView::Null),
        o.truncation matches Some(t) ==> holds(summary_json(o), "truncation"@, truncation_json(t)),
        summary_json(o)->Obj_0.len() == 9,
{
    let m = summary_json(o)->Obj_0;
    assert(m[0] == ("type"@, JsonView::Str("summary"@)));
    assert(m[1] == ("schema_version"@, JsonView::Str(o.schema_version@)));
    assert(m[2] == ("fetched_at"@, JsonView::Str(o.fetched_at@)));
    assert(m[3] == ("feeds"@, JsonView::Int(o.feeds@.len() as int)));
    assert(m[4] == ("errors"@, JsonView::Int(o.errors@.len() as int)));
    assert(m[5] == ("total_items"@, JsonView::Int(o.total_items as int)));
    assert(m[6] == ("total_content_tokens_est"@, JsonView::Int(o.total_content_tokens_est as int)));
    assert(m[7] == (
        "warnings"@,
        JsonView::Arr(o.warnings@.map_values(|w: crate::model::Warning| crate::wire::warning_json(w))),
    ));
    assert(m[8] == (
        "truncation"@,
        match o.truncation {
            Some(t) => truncation_json(t),
            None => JsonView::Null,
        },
    ));
}

/// Each format is rendered its own way: JSON as one indented document, newline-delimited JSON line by
/// line, and text as text.
pub proof fn law_each_format_is_rendered_its_own_way(
    o: FetchOutput,
    d: DiscoverOutput,
    color: bool,
    records: bool,
)
    ensures
        fetch_rendering(o, OutputFormat::Json, color, records) == pretty_text(kept(output_json(o))),
        fetch_rendering(o, OutputFormat::Ndjson, color, records) == joined_lines(ndjson_lines(o, records)),
        fetch_rendering(o, OutputFormat::Text, color, records) == fetch_text(o, color),
        discover_rendering(d, OutputFormat::Json, color) == pretty_text(kept(discovery_json(d))),
        discover_rendering(d, OutputFormat::Ndjson, color) == joined_lines(
            d.feeds@.map_values(|f: DiscoveredFeed| compact_text(kept(discovered_json(f)))),
        ),
        discover_rendering(d, OutputFormat::Text, color) == discover_text(d, color),
{
    assert(d.feeds@.map_values(|f: DiscoveredFeed| compact_text(kept(discovered_json(f))))
        =~= d.feeds@.map_values(|f: DiscoveredFeed| json_line(discovered_json(f))));
}

/// A discovery as text is the site with the number of its feeds, and then a line for each feed with its
/// address, its type and its title.
pub proof fn law_the_text_of_a_discovery(d: DiscoverOutput, k: int)
    requires
        0 <= k < d.feeds@.len(),
    ensures
        discover_text(d, false) == joined_lines(
            seq![d.site_url@ + "  "@ + decimal(d.feeds@.len()) + " feed(s)"@] + d.feeds@.map_values(
                |f: DiscoveredFeed| discovered_line(f, false),
            ),
        ),
        discovered_line(d.feeds@[k], false) == "  "@ + d.feeds@[k].url@ + "  ["@ + d.feeds@[k].feed_type@
            + "]  "@ + (match d.feeds@[k].title {
            Some(t) => t@,
            None => "-"@,
        }),
{
}

/// The formats that a command line names are those that are meant.
pub proof fn law_formats_are_what_they_are_called()
    ensures
        selected_format(FormatArg::Json) == OutputFormat::Json,
        selected_format(FormatArg::Ndjson) == OutputFormat::Ndjson,
        selected_format(FormatArg::Text) == OutputFormat::Text,
        selected_content(ContentArg::Markdown) == ContentFormat::Markdown,
        selected_content(ContentArg::Text) == ContentFormat::Text,
        selected_content(ContentArg::Html) == ContentFormat::Html,
        selected_content(ContentArg::Omit) == ContentFormat::Omit,
{
}

/// A fetch writes its output to standard output in the format that was asked for; the errors go to
/// standard error, each on a line, where newline-delimited JSON has no place for them; and the exit code
/// says how the feeds fared.
pub proof fn law_where_a_fetch_is_written(r: Report, out: FetchOutput, args: FetchArgs, color: bool) -> (shown:
    FetchOutput)
    requires
        is_fetch_report(r, out, args, color),
    ensures
        shown == (FetchOutput { truncation: shown.truncation, ..out }),
        shown.truncation is None <==> crate::page::cut_total(out.feeds@) == 0,
        shown.truncation matches Some(t) ==> t.items_content_truncated == crate::page::cut_total(out.feeds@)
            && t.items_omitted == 0 && t.feeds_omitted == 0 && t.applied_limit is None && t.next_cursor is None
            && t.estimated_tokens is None && t.suggestion is None,
        r.stdout matches Some(text) && text@ == (match args.format {
            FormatArg::Json => pretty_text(kept(output_json(shown))),
            FormatArg::Ndjson => joined_lines(ndjson_lines(shown, args.ndjson_records)),
            FormatArg::Text => fetch_text(shown, color),
        }),
        args.format == FormatArg::Ndjson && !args.ndjson_records ==> r.stderr@.len() == out.errors@.len()
            && forall|k: int|
            0 <= k < out.errors@.len() ==> (#[trigger] r.stderr@[k])@ == compact_text(
                kept(error_json(out.errors@[k])),
            ),
        args.format != FormatArg::Ndjson || args.ndjson_records ==> r.stderr@.len() == 0,
        r.code == crate::batch::exit_code(out.feeds@),
{
    let shown = choose|shown: FetchOutput|
        #[trigger] is_marked(shown, out) && r.stdout.deep_view() == Some(
            fetch_rendering(shown, selected_format(args.format), color, args.ndjson_records),
        );
    assert(r.stderr@.len() == r.stderr.deep_view().len());
    assert(crate::marker::marker_view(shown.truncation) == crate::report::cut_marker(
        crate::page::cut_total(out.feeds@),
    ));
    if args.format == FormatArg::Ndjson && !args.ndjson_records {
        assert forall|k: int| 0 <= k < out.errors@.len() implies (#[trigger] r.stderr@[k])@ == compact_text(
            kept(error_json(out.errors@[k])),
        ) by {
            assert(r.stderr.deep_view()[k] == r.stderr@[k]@);
        }
    }
    shown
}

/// A failed command writes one line of JSON to standard error, with the code, the message and the details
/// of the error, and exits with 2 where it was used wrongly and with 1 else.
pub proof fn law_what_a_failure_writes(r: Report, e: RssError)
    requires
        is_failure(r, e),
    ensures
        r.stdout is None,
        r.stderr@.len() == 1,
        r.stderr@[0]@ == compact_text(kept(crate::report::failure_json(e))),
        holds(crate::report::failure_json(e), "feed_url"@, JsonView::Null),
        holds(crate::report::failure_json(e), "code"@, JsonView::Str(e.code_text())),
        holds(crate::report::failure_json(e), "message"@, JsonView::Str(e.message_text())),
        holds(crate::report::failure_json(e), "details"@, e.details()),
        e is Usage || e is InvalidUrl ==> r.code == 2,
        !(e is Usage || e is InvalidUrl) ==> r.code == 1,
{
    assert(r.stderr@.len() == r.stderr.deep_view().len());
    assert(r.stderr.deep_view()[0] == r.stderr@[0]@);
    let m = crate::report::failure_json(e)->Obj_0;
    assert(m[0] == ("feed_url"@, JsonView::Null));
    assert(m[1] == ("code"@, JsonView::Str(e.code_text())));
    assert(m[2] == ("message"@, JsonView::Str(e.message_text())));
    assert(m[3] == ("details"@, e.details()));
}

/// A command that has data writes the data, and nothing else, and succeeds.
pub proof fn law_data_goes_to_standard_output(r: Report, text: Seq<char>)
    requires
        is_data(r, text),
    ensures
        r.stdout matches Some(t) && t@ == text,
        r.stderr@.len() == 0,
        r.code == 0,
{
}

} // verus!
