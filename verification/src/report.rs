//! What a command writes, and where: data to standard output, diagnostics to standard error.

use vstd::prelude::*;
use vstd::string::*;

use crate::batch::exit_code_for;
use crate::cache::{summaries_value, CacheListItem};
use crate::cli::{exit_code_of, DiscoverArgs, FetchArgs, ShowArgs};
use crate::error::RssError;
use crate::exit;
use crate::json::{to_compact, to_pretty};
use crate::marker::MarkerView;
use crate::model::{DiscoverOutput, ErrorObj, FetchOutput, Item};
use crate::output::{render_discover, render_fetch, OutputFormat};
use crate::page::truncation_marker;
use crate::wire::{error_value, item_value};

verus! {

/// What a command writes, and the code that it exits with.
#[derive(Debug)]
pub struct Report {
    /// What goes to standard output, if anything does.
    pub stdout: Option<String>,
    /// The lines that go to standard error.
    pub stderr: Vec<String>,
    pub code: i32,
}

/// Whether text output uses color: unless a flag or the environment says no.
pub fn wants_color(no_color: bool, no_color_set: bool) -> (r: bool)
    ensures
        r == (!no_color && !no_color_set),
{
    !no_color && !no_color_set
}

/// The JSON line of an error.
pub open spec fn diagnostic(e: ErrorObj) -> Seq<char> {
    crate::output::json_line(crate::wire::error_json(e))
}

/// The JSON of an error that concerns no feed in particular.
pub open spec fn failure_json(e: RssError) -> crate::json::JsonView {
    crate::json::JsonView::Obj(
        seq![
            ("feed_url"@, crate::json::JsonView::Null),
            crate::wire::text_member("code"@, e.code_text()),
            crate::wire::text_member("message"@, e.message_text()),
            ("details"@, e.details()),
        ],
    )
}

/// The report of a command that failed: the error on standard error, and nothing else.
pub open spec fn is_failure(r: Report, e: RssError) -> bool {
    &&& r.stdout is None
    &&& r.stderr.deep_view() == seq![crate::output::json_line(failure_json(e))]
    &&& r.code == crate::cli::failure_code(e)
}

/// The report of a command that only has data to give.
pub open spec fn is_data(r: Report, text: Seq<char>) -> bool {
    &&& r.stdout.deep_view() == Some(text)
    &&& r.stderr@.len() == 0
    &&& r.code == exit::OK
}

/// Reports an error.
pub fn report_failure(e: &RssError) -> (r: Report)
    ensures
        is_failure(r, *e),
{
    let obj = e.to_error_obj(None);
    assert(crate::wire::error_json(obj)->Obj_0 =~= failure_json(*e)->Obj_0);
    let mut stderr: Vec<String> = Vec::new();
    stderr.push(to_compact(&error_value(&obj)));
    assert(stderr.deep_view() =~= seq![crate::output::json_line(failure_json(*e))]);
    Report { stdout: None, stderr, code: exit_code_of(e) }
}

/// Reports data.
pub fn report_data(text: String) -> (r: Report)
    ensures
        is_data(r, text@),
{
    Report { stdout: Some(text), stderr: Vec::new(), code: exit::OK }
}

/// The marker of content that was cut short on the command line.
pub open spec fn cut_marker(cut: nat) -> Option<MarkerView> {
    if cut == 0 {
        None
    } else {
        Some(
            MarkerView {
                applied_limit: None,
                items_content_truncated: cut as int,
                items_omitted: 0,
                feeds_omitted: 0,
                next_cursor: None,
                estimated_tokens: None,
                suggestion: None,
            },
        )
    }
}

/// The output is the other, marked where content of its items was cut short.
pub open spec fn is_marked(shown: FetchOutput, out: FetchOutput) -> bool {
    &&& shown == (FetchOutput { truncation: shown.truncation, ..out })
    &&& crate::marker::marker_view(shown.truncation) == cut_marker(
        crate::page::cut_total(out.feeds@),
    )
}

/// The report of a fetch: the rendered output, the errors on standard error where the output has no
/// place for them, and a code that says how the feeds fared.
pub open spec fn is_fetch_report(r: Report, out: FetchOutput, args: FetchArgs, color: bool) -> bool {
    let format = crate::cli::selected_format(args.format);
    &&& exists|shown: FetchOutput|
        #[trigger] is_marked(shown, out) && r.stdout.deep_view() == Some(
            crate::output::fetch_rendering(shown, format, color, args.ndjson_records),
        )
    &&& r.stderr.deep_view() == (if format == OutputFormat::Ndjson && !args.ndjson_records {
        out.errors@.map_values(|e: ErrorObj| diagnostic(e))
    } else {
        Seq::empty()
    })
    &&& r.code == crate::batch::exit_code(out.feeds@)
}

fn diagnostics(errors: &Vec<ErrorObj>) -> (r: Vec<String>)
    ensures
        r.deep_view() == errors@.map_values(|e: ErrorObj| diagnostic(e)),
{
    let mut out: Vec<String> = Vec::new();
    let mut k: usize = 0;
    while k < errors.len()
        invariant
            k <= errors@.len(),
            out@.len() == k,
            forall|j: int| 0 <= j < k ==> #[trigger] out@[j]@ == diagnostic(errors@[j]),
        decreases errors@.len() - k,
    {
        out.push(to_compact(&error_value(&errors[k])));
        k = k + 1;
    }
    assert(out.deep_view() =~= errors@.map_values(|e: ErrorObj| diagnostic(e)));
    out
}

/// Reports a fetch.
pub fn report_fetch(out: FetchOutput, args: &FetchArgs, color: bool) -> (r: Report)
    requires
        crate::totals::item_total(out.feeds@) <= usize::MAX,
    ensures
        is_fetch_report(r, out, *args, color),
{
    let ghost given = out;
    let mut shown = out;
    let marker = truncation_marker(&shown, None, None);
    shown.truncation = marker;
    assert(is_marked(shown, given));
    let format = OutputFormat::from(args.format);
    let bare = match format {
        OutputFormat::Ndjson => !args.ndjson_records,
        _ => false,
    };
    let stderr: Vec<String> = if bare {
        diagnostics(&shown.errors)
    } else {
        Vec::new()
    };
    assert(!bare ==> stderr.deep_view() =~= Seq::empty());
    Report {
        stdout: Some(render_fetch(&shown, format, color, args.ndjson_records)),
        stderr,
        code: exit_code_for(&shown),
    }
}

/// Reports a discovery.
pub fn report_discovery(out: &DiscoverOutput, args: &DiscoverArgs, color: bool) -> (r: Report)
    ensures
        is_data(
            r,
            crate::output::discover_rendering(
                *out,
                crate::cli::selected_format(args.format),
                color,
            ),
        ),
{
    report_data(render_discover(out, OutputFormat::from(args.format), color))
}

/// Reports a lookup: the item, or an error where there is none.
pub fn report_item(found: &Option<Item>, args: &ShowArgs) -> (r: Report)
    ensures
        match *found {
            Some(i) => is_data(r, crate::output::indented(crate::wire::item_json(i))),
            None => exists|e: RssError|
                #[trigger] is_failure(r, e) && (e matches RssError::NotFound(m) && m@ == "item '"@
                    + args.id@ + "' not found in "@ + args.feed_url@),
        },
{
    match found {
        Some(i) => report_data(to_pretty(&item_value(i))),
        None => {
            let e = args.not_found();
            report_failure(&e)
        },
    }
}

/// Reports the feeds in the cache.
pub fn report_cached(items: &Vec<CacheListItem>) -> (r: Report)
    ensures
        is_data(
            r,
            crate::output::indented(
                crate::json::JsonView::Arr(
                    items@.map_values(|s: CacheListItem| crate::cache::summary_json(s)),
                ),
            ),
        ),
{
    report_data(to_pretty(&summaries_value(items)))
}

/// A command that fails writes nothing to standard output and one line to standard error, and does not
/// exit as one that succeeded; a usage error has a code of its own.
pub proof fn law_a_failure_leaves_standard_output_clean(r: Report, e: RssError)
    requires
        is_failure(r, e),
    ensures
        r.stdout is None,
        r.stderr.deep_view().len() == 1,
        r.code != exit::OK,
        e is Usage ==> r.code == exit::USAGE,
{
}

/// No error of a fetch is lost: where the rendering leaves errors out, each has a line on standard
/// error.
pub proof fn law_no_error_is_lost(r: Report, out: FetchOutput, args: FetchArgs, color: bool)
    requires
        is_fetch_report(r, out, args, color),
    ensures
        r.stdout is Some,
        crate::cli::selected_format(args.format) == OutputFormat::Ndjson && !args.ndjson_records
            ==> r.stderr.deep_view().len() == out.errors@.len(),
        crate::cli::selected_format(args.format) != OutputFormat::Ndjson || args.ndjson_records
            ==> r.stderr.deep_view().len() == 0,
        r.code == exit::OK || r.code == exit::PARTIAL || r.code == exit::ALL_FAILED,
{
}

} // verus!
