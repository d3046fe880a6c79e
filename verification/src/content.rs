//! Content extraction from HTML, its bounds, and token estimates.

use vstd::prelude::*;
use vstd::string::*;

use crate::joiner::{holds_stand_ins, mask_page, unmask_text};
use crate::layout::can_be_rendered;
use crate::model::ContentFormat;
use crate::text::{chars_of, same, text_of, trim};

verus! {

/// What `html2text` renders for a page at a width, with Markdown-like decoration; nothing where it
/// cannot.
pub uninterp spec fn rendered_markdown(html: Seq<char>, width: nat) -> Option<Seq<char>>;

/// `html2text::config::plain().string_from_read`: the page as decorated text of that width. Its callers
/// keep from it pages on which it may stop or not end: those with cells that span rows or very many
/// columns, lists whose numbers go on past 64 bits, very many elements, which it takes apart recursively,
/// characters whose width together is not the sum of their widths, or blank preformatted blocks. It
/// gives a quote, a list or a cell the columns that what it shows needs, or fails; but a block that
/// shows nothing may be left with no column at all, and there it looks for a tab stop without end.
#[verifier::external_body]
fn render_markdown(html: &str, width: usize) -> (r: Option<String>)
    requires
        crate::layout::is_renderable(html@),
        0 < width <= WRAP_WIDTH,
    ensures
        r.deep_view() == rendered_markdown(html@, width as nat),
{
    html2text::config::plain().string_from_read(html.as_bytes(), width).ok()
}

/// What `html2text` renders for a page at a width, without decoration; nothing where it cannot.
pub uninterp spec fn rendered_text(html: Seq<char>, width: nat) -> Option<Seq<char>>;

/// `html2text::config::plain_no_decorate().string_from_read`: the page as plain text of that
/// width. Its callers keep the same pages from it.
#[verifier::external_body]
fn render_text(html: &str, width: usize) -> (r: Option<String>)
    requires
        crate::layout::is_renderable(html@),
        0 < width <= WRAP_WIDTH,
    ensures
        r.deep_view() == rendered_text(html@, width as nat),
{
    html2text::config::plain_no_decorate().string_from_read(html.as_bytes(), width).ok()
}

/// The width in columns that extracted text is wrapped to.
pub const WRAP_WIDTH: usize = 100;

/// A page without its tags: what stands outside `<` and `>`.
pub open spec fn without_tags(html: Seq<char>, in_tag: bool) -> Seq<char>
    decreases html.len(),
{
    if html.len() == 0 {
        Seq::empty()
    } else if in_tag {
        without_tags(html.skip(1), html[0] != '>')
    } else if html[0] == '<' {
        without_tags(html.skip(1), true)
    } else {
        seq![html[0]] + without_tags(html.skip(1), false)
    }
}

/// A page without its tags.
pub fn strip_tags(html: &str) -> (r: String)
    ensures
        r@ == without_tags(html@, false),
{
    let v = chars_of(html);
    let mut out = String::new();
    let mut in_tag = false;
    let mut i: usize = 0;
    assert(v@.skip(0) =~= html@);
    assert(out@ + without_tags(html@, false) =~= without_tags(html@, false));
    while i < v.len()
        invariant
            i <= v@.len(),
            out@ + without_tags(v@.skip(i as int), in_tag) == without_tags(html@, false),
        decreases v@.len() - i,
    {
        let c = v[i];
        let ghost before = out@;
        proof {
            assert(v@.skip(i as int)[0] == c);
            assert(v@.skip(i as int).skip(1) =~= v@.skip(i + 1));
        }
        if in_tag {
            in_tag = c != '>';
        } else if c == '<' {
            in_tag = true;
        } else {
            out.push(c);
            assert(before + (seq![c] + without_tags(v@.skip(i + 1), false)) =~= out@ + without_tags(
                v@.skip(i + 1),
                false,
            ));
        }
        i = i + 1;
    }
    assert(v@.skip(i as int) =~= Seq::empty());
    assert(out@ + Seq::<char>::empty() =~= out@);
    out
}

/// What a page gives in a format, once `html2text` has answered: its rendering, or the page
/// without its tags where there is none.
pub open spec fn extracted_from(html: Seq<char>, format: ContentFormat, rendered: Option<Seq<char>>) -> Seq<
    char,
> {
    match format {
        ContentFormat::Html => html,
        ContentFormat::Omit => Seq::empty(),
        _ => match rendered {
            Some(t) => crate::text::trimmed(t),
            None => crate::text::trimmed(without_tags(html, false)),
        },
    }
}

/// What `html2text` answers for a page in a format; nothing where the page is kept from it.
pub open spec fn laid_out(page: Seq<char>, format: ContentFormat) -> Option<Seq<char>> {
    match format {
        _ if !crate::layout::is_renderable(page) => None,
        ContentFormat::Markdown => rendered_markdown(page, WRAP_WIDTH as nat),
        ContentFormat::Text => rendered_text(page, WRAP_WIDTH as nat),
        _ => None,
    }
}

/// The rendering of a page in a format, if it has one. Where characters of the page join, others stand
/// in for them while it is laid out, and lines break by the width of those.
pub open spec fn rendering(html: Seq<char>, format: ContentFormat) -> Option<Seq<char>> {
    let page = crate::joiner::masked(html, 0);
    if page == html {
        laid_out(html, format)
    } else if crate::joiner::has_stand_ins(html) {
        None
    } else {
        match laid_out(page, format) {
            Some(t) => Some(crate::joiner::unmasked(t)),
            None => None,
        }
    }
}

/// What a page gives in a format.
pub open spec fn extracted(html: Seq<char>, format: ContentFormat) -> Seq<char> {
    extracted_from(html, format, rendering(html, format))
}

/// Whether the page could not be rendered and its tags were cut out instead.
pub open spec fn fell_back(html: Seq<char>, format: ContentFormat) -> bool {
    (format == ContentFormat::Markdown || format == ContentFormat::Text) && rendering(html, format)
        is None
}

/// The content of a page in a format, given its rendering.
pub fn finish_extraction(html: &str, format: ContentFormat, rendered: Option<String>) -> (r: String)
    ensures
        r@ == extracted_from(html@, format, rendered.deep_view()),
{
    match format {
        ContentFormat::Html => html.to_owned(),
        ContentFormat::Omit => String::new(),
        _ => match rendered {
            Some(t) => trim(t.as_str()),
            None => trim(strip_tags(html).as_str()),
        },
    }
}

fn lay_out(page: &str, format: ContentFormat) -> (r: Option<String>)
    ensures
        r.deep_view() == laid_out(page@, format),
{
    match format {
        _ if !can_be_rendered(page) => None,
        ContentFormat::Markdown => render_markdown(page, WRAP_WIDTH),
        ContentFormat::Text => render_text(page, WRAP_WIDTH),
        _ => None,
    }
}

fn render(html: &str, format: ContentFormat) -> (r: Option<String>)
    ensures
        r.deep_view() == rendering(html@, format),
{
    let page = mask_page(html);
    if same(page.as_str(), html) {
        return lay_out(html, format);
    }
    if holds_stand_ins(html) {
        return None;
    }
    match lay_out(page.as_str(), format) {
        Some(t) => Some(unmask_text(t.as_str())),
        None => None,
    }
}

/// The content of a page in a format, and whether its tags were cut out for want of a rendering.
pub fn extract_noting_fallback(html: &str, format: ContentFormat) -> (r: (String, bool))
    ensures
        r.0@ == extracted(html@, format),
        r.1 == fell_back(html@, format),
{
    let rendered = match format {
        ContentFormat::Markdown => render(html, format),
        ContentFormat::Text => render(html, format),
        _ => None,
    };
    let fallback = match format {
        ContentFormat::Markdown => rendered.is_none(),
        ContentFormat::Text => rendered.is_none(),
        _ => false,
    };
    (finish_extraction(html, format, rendered), fallback)
}

/// The content of a page in a format.
pub fn extract(html: &str, format: ContentFormat) -> (r: String)
    ensures
        r@ == extracted(html@, format),
{
    extract_noting_fallback(html, format).0
}

/// A fourth of the characters, rounded up.
pub open spec fn tokens(chars: nat) -> nat {
    ((chars + 3) / 4) as nat
}

/// A rough token estimate for a text: a fourth of its characters, rounded up.
pub fn estimate_tokens(text: &str) -> (r: u32)
    ensures
        r == (if tokens(text@.len()) > u32::MAX {
            u32::MAX as nat
        } else {
            tokens(text@.len())
        }),
{
    let n: usize = chars_of(text).len();
    let t: usize = if n % 4 == 0 { n / 4 } else { n / 4 + 1 };
    if t > u32::MAX as usize {
        u32::MAX
    } else {
        t as u32
    }
}

/// What marks a body that was cut short.
pub const TRUNCATION_MARK: &'static str = " \u{2026}[truncated]";

/// A body cut to at most `max` characters and marked, where it is longer.
pub open spec fn capped(body: Seq<char>, max: Option<usize>) -> Seq<char> {
    match max {
        Some(m) => if body.len() > m {
            body.take(m as int) + TRUNCATION_MARK@
        } else {
            body
        },
        None => body,
    }
}

/// Whether a body is longer than the cap.
pub open spec fn is_over(body: Seq<char>, max: Option<usize>) -> bool {
    max matches Some(m) && body.len() > m
}

/// Cuts a body to at most `max` characters and marks it, where it is longer; says whether it was.
pub fn cap(body: String, max: Option<usize>) -> (r: (String, bool))
    ensures
        r.0@ == capped(body@, max),
        r.1 == is_over(body@, max),
{
    match max {
        Some(m) => {
            let v = chars_of(body.as_str());
            if v.len() > m {
                assert(v@.subrange(0, m as int) =~= body@.take(m as int));
                (text_of(&v, 0, m).concat(TRUNCATION_MARK), true)
            } else {
                (body, false)
            }
        },
        None => (body, false),
    }
}

} // verus!
