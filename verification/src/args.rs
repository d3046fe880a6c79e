//! Tool arguments. Clients send numbers and lists as text as often as not, so both are read
//! leniently.

use vstd::prelude::*;
use vstd::string::*;
use vstd::utf8::*;

use crate::error::RssError;
use crate::json::{from_text, get, to_compact, Json};
use crate::ratelimit::power_of_two;
use crate::text::{
    number_text, parse_u64, split_on, starts_with, to_ascii_lowercase, trim,
};

verus! {

/// Maximum URLs of one request.
pub const MCP_MAX_URLS: usize = 50;

/// Arguments of the `fetch_feed` tool.
#[derive(Debug, Clone)]
pub struct FetchFeedArgs {
    /// A single feed URL; excludes `urls`.
    pub url: Option<String>,
    /// Feed URLs to fetch in one call.
    pub urls: Option<Vec<String>>,
    pub content_format: Option<String>,
    /// Only items published at or after this time.
    pub since: Option<String>,
    /// Keyword filter.
    pub query: Option<String>,
    /// Duplicate handling.
    pub dedupe: Option<String>,
    /// Maximum number of items per feed.
    pub limit: Option<usize>,
    /// Maximum characters of an item's content.
    pub max_content_chars: Option<usize>,
    /// Soft cap on the response's size in estimated tokens.
    pub max_response_tokens: Option<usize>,
    pub cache_policy: Option<String>,
    /// Continuation token of a prior response.
    pub cursor: Option<String>,
}

/// Arguments of the `discover_feeds` tool.
#[derive(Debug, Clone)]
pub struct DiscoverFeedsArgs {
    pub site_url: String,
}

/// Arguments of the `get_item` tool.
#[derive(Debug, Clone)]
pub struct GetItemArgs {
    pub feed_url: String,
    /// The item's id, guid or url.
    pub id: String,
    /// Maximum characters of the item's content.
    pub max_content_chars: Option<usize>,
}

/// Arguments of the `get_schema` tool.
#[derive(Debug, Clone)]
pub struct GetSchemaArgs {
    pub command: String,
}

/// A text between quotes, with its special characters escaped, as `Debug` writes it.
pub uninterp spec fn debug_text(s: Seq<char>) -> Seq<char>;

/// The `Debug` of `str`.
#[verifier::external_body]
fn quote(s: &str) -> (r: String)
    ensures
        r@ == debug_text(s@),
{
    format!("{s:?}")
}

/// The whole number that the bits of an IEEE 754 double stand for, if it is one: finite, not negative
/// and without a fraction. The sign of a zero does not matter.
pub open spec fn whole_number(bits: u64) -> Option<nat> {
    let sign = bits as int / 0x8000_0000_0000_0000;
    let exponent = bits as int / 0x10_0000_0000_0000 % 2048;
    let fraction = bits as int % 0x10_0000_0000_0000;
    let scaled = (0x10_0000_0000_0000 + fraction) as nat;
    if exponent == 0 && fraction == 0 {
        Some(0)
    } else if sign == 1 || exponent == 2047 || exponent < 1023 {
        None
    } else if exponent >= 1075 {
        Some(scaled * power_of_two((exponent - 1075) as nat))
    } else {
        let unit = power_of_two((1075 - exponent) as nat) as int;
        if scaled as int % unit == 0 {
            Some((scaled as int / unit) as nat)
        } else {
            None
        }
    }
}

/// A number, or the largest that fits.
pub open spec fn capped(n: nat) -> nat {
    if n <= usize::MAX {
        n
    } else {
        usize::MAX as nat
    }
}

/// What a value says as an optional size, or why it says nothing. A number and its text are equally
/// good; `null` and a blank text are none.
pub open spec fn size_value(j: crate::json::JsonView) -> Result<Option<nat>, Seq<char>> {
    match j {
        crate::json::JsonView::Null => Ok(None),
        crate::json::JsonView::Int(n) => if n < 0 {
            Err(
                "expected a non-negative integer, got "@ + crate::json::compact_text(
                    crate::json::kept(j),
                ),
            )
        } else if n <= usize::MAX {
            Ok(Some(n as nat))
        } else {
            Err("integer "@ + crate::text::decimal(n as nat) + " is out of range"@)
        },
        crate::json::JsonView::Real(text, bits) => match whole_number(bits) {
            Some(n) => Ok(Some(capped(n))),
            None => Err("expected a non-negative integer, got "@ + text),
        },
        crate::json::JsonView::Str(s) => {
            let t = crate::text::trimmed(s);
            if t.len() == 0 {
                Ok(None)
            } else {
                match crate::text::unsigned_value(t, usize::MAX as nat) {
                    Some(n) => Ok(Some(n)),
                    None => Err(
                        "expected a non-negative integer (or its string form), got "@ + debug_text(
                            s,
                        ),
                    ),
                }
            }
        },
        _ => Err(
            "expected an integer or numeric string, got "@ + crate::json::compact_text(
                crate::json::kept(j),
            ),
        ),
    }
}

/// The result is the size wanted, or the message wanted.
pub open spec fn gives_size(r: Result<Option<usize>, String>, want: Result<Option<nat>, Seq<char>>) -> bool {
    match (r, want) {
        (Ok(Some(n)), Ok(Some(k))) => n == k,
        (Ok(None), Ok(None)) => true,
        (Err(m), Err(t)) => m@ == t,
        _ => false,
    }
}

proof fn lemma_powers(k: nat)
    ensures
        power_of_two(k) >= 1,
        k >= 12 ==> power_of_two(k) >= 4096,
    decreases k,
{
    if k == 12 {
        reveal_with_fuel(power_of_two, 13);
    }
    if k > 0 {
        lemma_powers((k - 1) as nat);
    }
}

/// Two to the power of `k`.
fn two_to(k: u64) -> (r: u128)
    requires
        k <= 60,
    ensures
        r == power_of_two(k as nat),
        r <= 0x1000_0000_0000_0000,
{
    let mut r: u128 = 1;
    let mut i: u64 = 0;
    assert(power_of_two(60) == 0x1000_0000_0000_0000) by {
        reveal_with_fuel(power_of_two, 61);
    }
    while i < k
        invariant
            i <= k <= 60,
            r == power_of_two(i as nat),
            r <= 0x1000_0000_0000_0000,
            r * power_of_two((60 - i) as nat) == 0x1000_0000_0000_0000,
        decreases k - i,
    {
        proof {
            let a = r as nat;
            let b = power_of_two((59 - i) as nat);
            lemma_powers((59 - i) as nat);
            assert(power_of_two((60 - i) as nat) == 2 * b);
            assert(a * (2 * b) == (2 * a) * b) by (nonlinear_arith);
            assert((2 * a) <= 0x1000_0000_0000_0000) by (nonlinear_arith)
                requires
                    (2 * a) * b == 0x1000_0000_0000_0000,
                    b >= 1,
                    a >= 0,
            ;
        }
        r = r * 2;
        i = i + 1;
    }
    r
}

/// The whole number that the bits of a double stand for, or the largest size where it is larger.
fn whole_size(bits: u64) -> (r: Option<usize>)
    ensures
        match (r, whole_number(bits)) {
            (Some(n), Some(k)) => n == capped(k),
            (None, None) => true,
            _ => false,
        },
{
    let sign: u64 = bits / 0x8000_0000_0000_0000;
    let exponent: u64 = bits / 0x10_0000_0000_0000 % 2048;
    let fraction: u64 = bits % 0x10_0000_0000_0000;
    if exponent == 0 && fraction == 0 {
        return Some(0);
    }
    if sign == 1 || exponent == 2047 || exponent < 1023 {
        return None;
    }
    let scaled: u64 = 0x10_0000_0000_0000 + fraction;
    if exponent >= 1075 {
        let k: u64 = exponent - 1075;
        if k >= 12 {
            proof {
                let p = power_of_two(k as nat);
                lemma_powers(k as nat);
                assert(scaled * p > u64::MAX) by (nonlinear_arith)
                    requires
                        scaled >= 0x10_0000_0000_0000,
                        p >= 4096,
                ;
            }
            return Some(usize::MAX);
        }
        let p: u128 = two_to(k);
        assert(scaled * p <= 0x20_0000_0000_0000 * 0x1000_0000_0000_0000) by (nonlinear_arith)
            requires
                scaled < 0x20_0000_0000_0000,
                p <= 0x1000_0000_0000_0000,
        ;
        let n: u128 = scaled as u128 * p;
        assert(n == scaled as nat * power_of_two(k as nat));
        if n <= usize::MAX as u128 {
            Some(n as usize)
        } else {
            Some(usize::MAX)
        }
    } else {
        let unit: u128 = two_to(1075 - exponent);
        proof {
            lemma_powers((1075 - exponent) as nat);
        }
        if scaled as u128 % unit != 0 {
            return None;
        }
        let n: u128 = scaled as u128 / unit;
        if n <= usize::MAX as u128 {
            Some(n as usize)
        } else {
            Some(usize::MAX)
        }
    }
}

/// Reads an optional size.
pub fn lenient_size(j: &Json) -> (r: Result<Option<usize>, String>)
    ensures
        gives_size(r, size_value(j@)),
{
    match j {
        Json::Null => Ok(None),
        Json::UInt(n) => if *n <= usize::MAX as u64 {
            Ok(Some(*n as usize))
        } else {
            Err("integer ".to_owned().concat(number_text(*n).as_str()).concat(" is out of range"))
        },
        Json::Int(n) => if *n < 0 {
            Err(
                "expected a non-negative integer, got ".to_owned().concat(to_compact(j).as_str()),
            )
        } else if *n as u64 <= usize::MAX as u64 {
            Ok(Some(*n as usize))
        } else {
            Err(
                "integer ".to_owned().concat(number_text(*n as u64).as_str()).concat(
                    " is out of range",
                ),
            )
        },
        Json::Real(text, bits) => match whole_size(*bits) {
            Some(n) => Ok(Some(n)),
            None => Err("expected a non-negative integer, got ".to_owned().concat(text.as_str())),
        },
        Json::Str(s) => {
            let t = trim(s.as_str());
            if t.as_str().is_empty() {
                return Ok(None);
            }
            match parse_u64(t.as_str()) {
                Some(n) => if n <= usize::MAX as u64 {
                    return Ok(Some(n as usize));
                },
                None => {},
            }
            Err(
                "expected a non-negative integer (or its string form), got ".to_owned().concat(
                    quote(s.as_str()).as_str(),
                ),
            )
        },
        _ => Err(
            "expected an integer or numeric string, got ".to_owned().concat(to_compact(j).as_str()),
        ),
    }
}

/// A size says the same as a number and as its text.
pub proof fn law_a_size_and_its_text_say_the_same(n: nat)
    requires
        n <= usize::MAX,
    ensures
        size_value(crate::json::JsonView::Int(n as int)) == Ok::<Option<nat>, Seq<char>>(Some(n)),
        size_value(crate::json::JsonView::Str(crate::text::decimal(n))) == Ok::<
            Option<nat>,
            Seq<char>,
        >(Some(n)),
{
    crate::text::lemma_decimal_value(n);
}

/// The texts without their outer white space, and without those that are blank.
pub open spec fn cleaned(v: Seq<Seq<char>>) -> Seq<Seq<char>>
    decreases v.len(),
{
    if v.len() == 0 {
        Seq::empty()
    } else {
        let t = crate::text::trimmed(v.last());
        if t.len() > 0 {
            cleaned(v.drop_last()).push(t)
        } else {
            cleaned(v.drop_last())
        }
    }
}

/// A list, or none where it is empty.
pub open spec fn some_list(v: Seq<Seq<char>>) -> Option<Seq<Seq<char>>> {
    if v.len() > 0 {
        Some(v)
    } else {
        None
    }
}

/// The texts of a list of texts, or its first element that is none.
pub open spec fn texts_of(a: Seq<crate::json::JsonView>) -> Result<
    Seq<Seq<char>>,
    crate::json::JsonView,
>
    decreases a.len(),
{
    if a.len() == 0 {
        Ok(Seq::empty())
    } else {
        match (texts_of(a.drop_last()), a.last()) {
            (Err(e), _) => Err(e),
            (Ok(v), crate::json::JsonView::Str(s)) => Ok(v.push(s)),
            (Ok(_), other) => Err(other),
        }
    }
}

/// The lines, each split at its commas.
pub open spec fn comma_pieces(lines: Seq<Seq<char>>) -> Seq<Seq<char>>
    decreases lines.len(),
{
    if lines.len() == 0 {
        Seq::empty()
    } else {
        comma_pieces(lines.drop_last()) + crate::text::pieces(lines.last(), ',')
    }
}

/// An absolute `http` or `https` URL, by its look.
pub open spec fn is_web_url(s: Seq<char>) -> bool {
    let low = crate::text::ascii_lowercase(s);
    crate::text::has_prefix(low, "http://"@) || crate::text::has_prefix(low, "https://"@)
}

/// The URLs of a delimited text: a line feed always separates, a comma only where every piece is
/// then an absolute URL, since a comma may also be part of one.
pub open spec fn delimited(t: Seq<char>) -> Seq<Seq<char>> {
    let lines = crate::text::pieces(t, '\n');
    let parts = cleaned(comma_pieces(lines));
    if parts.len() > 0 && forall|k: int| 0 <= k < parts.len() ==> is_web_url(#[trigger] parts[k]) {
        cleaned(parts)
    } else {
        cleaned(lines)
    }
}

/// What a list of values says as URLs, or why it says nothing.
pub open spec fn array_value(a: Seq<crate::json::JsonView>) -> Result<
    Option<Seq<Seq<char>>>,
    Seq<char>,
> {
    match texts_of(a) {
        Ok(v) => Ok(some_list(cleaned(v))),
        Err(e) => Err(
            "expected a string URL in the list, got "@ + crate::json::compact_text(
                crate::json::kept(e),
            ),
        ),
    }
}

/// What a value says as an optional list of URLs, or why it says nothing: a list, the text of one,
/// or a delimited text. `written` is what its text holds as JSON, if it is a text.
pub open spec fn urls_value(j: crate::json::JsonView, written: Option<crate::json::JsonView>) -> Result<
    Option<Seq<Seq<char>>>,
    Seq<char>,
> {
    match j {
        crate::json::JsonView::Null => Ok(None),
        crate::json::JsonView::Arr(a) => array_value(a),
        crate::json::JsonView::Str(s) => {
            let t = crate::text::trimmed(s);
            if t.len() == 0 {
                Ok(None)
            } else {
                match (t[0] == '[', written) {
                    (true, Some(crate::json::JsonView::Arr(a))) => array_value(a),
                    _ => Ok(some_list(delimited(t))),
                }
            }
        },
        _ => Err(
            "expected an array of URLs or a delimited string, got "@ + crate::json::compact_text(
                crate::json::kept(j),
            ),
        ),
    }
}

/// What a value's text holds as JSON, if it is a text.
pub open spec fn written_in(j: crate::json::JsonView) -> Option<crate::json::JsonView> {
    match j {
        crate::json::JsonView::Str(s) => crate::json::read_json(
            encode_utf8(crate::text::trimmed(s)),
        ),
        _ => None,
    }
}

/// The result is the list wanted, or the message wanted.
pub open spec fn gives_list(
    r: Result<Option<Vec<String>>, String>,
    want: Result<Option<Seq<Seq<char>>>, Seq<char>>,
) -> bool {
    match (r, want) {
        (Ok(Some(v)), Ok(Some(w))) => v.deep_view() == w,
        (Ok(None), Ok(None)) => true,
        (Err(m), Err(t)) => m@ == t,
        _ => false,
    }
}

fn clean(v: &Vec<String>) -> (r: Vec<String>)
    ensures
        r.deep_view() == cleaned(v.deep_view()),
{
    let ghost all = v.deep_view();
    let mut out: Vec<String> = Vec::new();
    let mut i: usize = 0;
    assert(all.take(0) =~= Seq::empty());
    assert(out.deep_view() =~= cleaned(all.take(0)));
    while i < v.len()
        invariant
            all == v.deep_view(),
            i <= v@.len(),
            out.deep_view() == cleaned(all.take(i as int)),
        decreases v@.len() - i,
    {
        let ghost before = out.deep_view();
        proof {
            assert(all.take(i + 1).drop_last() =~= all.take(i as int));
            assert(all.take(i + 1).last() == v@[i as int]@);
        }
        let t = trim(v[i].as_str());
        if !t.as_str().is_empty() {
            let ghost seen = t@;
            out.push(t);
            assert(out.deep_view() =~= before.push(seen));
        }
        i = i + 1;
    }
    assert(all.take(i as int) =~= all);
    out
}

fn list_or_none(v: Vec<String>) -> (r: Option<Vec<String>>)
    ensures
        match r {
            Some(w) => some_list(v.deep_view()) == Some(w.deep_view()),
            None => some_list(v.deep_view()) is None,
        },
{
    if v.len() > 0 {
        Some(v)
    } else {
        None
    }
}

/// Reads a list of values as URLs.
pub fn url_array(a: &Vec<Json>) -> (r: Result<Option<Vec<String>>, String>)
    ensures
        gives_list(r, array_value(crate::json::elements(a@))),
{
    let ghost all = crate::json::elements(a@);
    let mut texts: Vec<String> = Vec::new();
    let mut i: usize = 0;
    assert(all.take(0) =~= Seq::empty());
    assert(texts.deep_view() =~= Seq::<Seq<char>>::empty());
    while i < a.len()
        invariant
            all == crate::json::elements(a@),
            i <= a@.len(),
            texts_of(all.take(i as int)) == Ok::<Seq<Seq<char>>, crate::json::JsonView>(
                texts.deep_view(),
            ),
        decreases a@.len() - i,
    {
        let ghost before = texts.deep_view();
        proof {
            assert(all.take(i + 1).drop_last() =~= all.take(i as int));
            assert(all.take(i + 1).last() == a@[i as int]@);
        }
        match &a[i] {
            Json::Str(s) => {
                texts.push(s.clone());
                assert(texts.deep_view() =~= before.push(s@));
            },
            other => {
                proof {
                    lemma_first_fault(all, i as int);
                }
                return Err(
                    "expected a string URL in the list, got ".to_owned().concat(
                        to_compact(other).as_str(),
                    ),
                );
            },
        }
        i = i + 1;
    }
    assert(all.take(i as int) =~= all);
    Ok(list_or_none(clean(&texts)))
}

proof fn lemma_first_fault(a: Seq<crate::json::JsonView>, i: int)
    requires
        0 <= i < a.len(),
        texts_of(a.take(i + 1)) is Err,
    ensures
        texts_of(a) == texts_of(a.take(i + 1)),
    decreases a.len() - i,
{
    if i + 1 == a.len() {
        assert(a.take(i + 1) =~= a);
    } else {
        assert(a.take(i + 2).drop_last() =~= a.take(i + 1));
        lemma_first_fault(a, i + 1);
    }
}

fn split_commas(lines: &Vec<String>) -> (r: Vec<String>)
    ensures
        r.deep_view() == comma_pieces(lines.deep_view()),
{
    let ghost all = lines.deep_view();
    let mut out: Vec<String> = Vec::new();
    let mut i: usize = 0;
    assert(all.take(0) =~= Seq::empty());
    assert(out.deep_view() =~= comma_pieces(all.take(0)));
    while i < lines.len()
        invariant
            all == lines.deep_view(),
            i <= lines@.len(),
            out.deep_view() == comma_pieces(all.take(i as int)),
        decreases lines@.len() - i,
    {
        let ghost before = out.deep_view();
        let mut parts = split_on(lines[i].as_str(), ',');
        let ghost more = parts.deep_view();
        out.append(&mut parts);
        proof {
            assert(all.take(i + 1).drop_last() =~= all.take(i as int));
            assert(all.take(i + 1).last() == lines@[i as int]@);
            assert(out.deep_view() =~= before + more);
        }
        i = i + 1;
    }
    assert(all.take(i as int) =~= all);
    out
}

fn all_web_urls(v: &Vec<String>) -> (r: bool)
    ensures
        r == (forall|k: int| 0 <= k < v@.len() ==> is_web_url(#[trigger] v.deep_view()[k])),
{
    let mut i: usize = 0;
    while i < v.len()
        invariant
            i <= v@.len(),
            forall|k: int| 0 <= k < i ==> is_web_url(#[trigger] v.deep_view()[k]),
        decreases v@.len() - i,
    {
        let low = to_ascii_lowercase(v[i].as_str());
        assert(v.deep_view()[i as int] == v@[i as int]@);
        if !starts_with(low.as_str(), "http://") && !starts_with(low.as_str(), "https://") {
            return false;
        }
        i = i + 1;
    }
    true
}

fn split_urls(t: &str) -> (r: Vec<String>)
    ensures
        r.deep_view() == delimited(t@),
{
    let lines = split_on(t, '\n');
    let parts = clean(&split_commas(&lines));
    if parts.len() > 0 && all_web_urls(&parts) {
        clean(&parts)
    } else {
        clean(&lines)
    }
}

/// Reads an optional list of URLs. `written` is what its text holds as JSON, if it is a text.
pub fn urls_from(j: &Json, written: Option<Json>) -> (r: Result<Option<Vec<String>>, String>)
    ensures
        gives_list(
            r,
            urls_value(
                j@,
                match written {
                    Some(w) => Some(w@),
                    None => None,
                },
            ),
        ),
{
    broadcast use crate::json::lemma_arr_elements;

    match j {
        Json::Null => Ok(None),
        Json::Arr(a) => url_array(a),
        Json::Str(s) => {
            let t = trim(s.as_str());
            if t.as_str().is_empty() {
                return Ok(None);
            }
            if crate::text::chars_of(t.as_str())[0] == '[' {
                if let Some(Json::Arr(a)) = &written {
                    return url_array(a);
                }
            }
            Ok(list_or_none(split_urls(t.as_str())))
        },
        _ => Err(
            "expected an array of URLs or a delimited string, got ".to_owned().concat(
                to_compact(j).as_str(),
            ),
        ),
    }
}

/// Reads an optional list of URLs.
pub fn lenient_urls(j: &Json) -> (r: Result<Option<Vec<String>>, String>)
    ensures
        gives_list(r, urls_value(j@, written_in(j@))),
{
    let written = match j {
        Json::Str(s) => from_text(trim(s.as_str()).as_str()),
        _ => None,
    };
    urls_from(j, written)
}

/// What an optional text argument says, or why it says nothing.
pub open spec fn text_value(j: Option<crate::json::JsonView>, name: Seq<char>) -> Result<
    Option<Seq<char>>,
    Seq<char>,
> {
    match j {
        None => Ok(None),
        Some(crate::json::JsonView::Null) => Ok(None),
        Some(crate::json::JsonView::Str(s)) => Ok(Some(s)),
        _ => Err("expected a string for `"@ + name + "`"@),
    }
}

/// What a required text argument says, or why it says nothing.
pub open spec fn needed_text(j: Option<crate::json::JsonView>, name: Seq<char>) -> Result<
    Seq<char>,
    Seq<char>,
> {
    match j {
        None => Err("missing field `"@ + name + "`"@),
        Some(crate::json::JsonView::Str(s)) => Ok(s),
        _ => Err("expected a string for `"@ + name + "`"@),
    }
}

/// The size of an argument that may be left out.
pub open spec fn size_in(j: Option<crate::json::JsonView>) -> Result<Option<nat>, Seq<char>> {
    match j {
        None => Ok(None),
        Some(v) => size_value(v),
    }
}

/// The URLs of an argument that may be left out.
pub open spec fn urls_in(j: Option<crate::json::JsonView>) -> Result<
    Option<Seq<Seq<char>>>,
    Seq<char>,
> {
    match j {
        None => Ok(None),
        Some(v) => urls_value(v, written_in(v)),
    }
}

fn opt_text(j: &Json, name: &str) -> (r: Result<Option<String>, String>)
    ensures
        match (r, text_value(crate::json::member(j@, name@), name@)) {
            (Ok(s), Ok(w)) => s.deep_view() == w,
            (Err(m), Err(t)) => m@ == t,
            _ => false,
        },
{
    match get(j, name) {
        None => Ok(None),
        Some(Json::Null) => Ok(None),
        Some(Json::Str(s)) => Ok(Some(s.clone())),
        Some(_) => Err("expected a string for `".to_owned().concat(name).concat("`")),
    }
}

fn text_needed(j: &Json, name: &str) -> (r: Result<String, String>)
    ensures
        match (r, needed_text(crate::json::member(j@, name@), name@)) {
            (Ok(s), Ok(w)) => s@ == w,
            (Err(m), Err(t)) => m@ == t,
            _ => false,
        },
{
    match get(j, name) {
        None => Err("missing field `".to_owned().concat(name).concat("`")),
        Some(Json::Str(s)) => Ok(s.clone()),
        Some(_) => Err("expected a string for `".to_owned().concat(name).concat("`")),
    }
}

fn opt_size(j: &Json, name: &str) -> (r: Result<Option<usize>, String>)
    ensures
        gives_size(r, size_in(crate::json::member(j@, name@))),
{
    match get(j, name) {
        None => Ok(None),
        Some(v) => lenient_size(v),
    }
}

fn opt_urls(j: &Json, name: &str) -> (r: Result<Option<Vec<String>>, String>)
    ensures
        gives_list(r, urls_in(crate::json::member(j@, name@))),
{
    match get(j, name) {
        None => Ok(None),
        Some(v) => lenient_urls(v),
    }
}

/// A list of texts, if there is one.
pub open spec fn list_view(v: Option<Vec<String>>) -> Option<Seq<Seq<char>>> {
    match v {
        Some(x) => Some(x.deep_view()),
        None => None,
    }
}

/// A size, if there is one.
pub open spec fn size_view(n: Option<usize>) -> Option<nat> {
    match n {
        Some(x) => Some(x as nat),
        None => None,
    }
}

/// Why a reading gave nothing, if it did.
pub open spec fn wrong<T>(r: Result<T, Seq<char>>) -> Option<Seq<char>> {
    match r {
        Ok(_) => None,
        Err(m) => Some(m),
    }
}

impl FetchFeedArgs {
    /// The arguments are what the value's members say.
    pub open spec fn says(self, j: crate::json::JsonView) -> bool {
        &&& text_value(crate::json::member(j, "url"@), "url"@) == Ok::<Option<Seq<char>>, Seq<char>>(
            self.url.deep_view(),
        )
        &&& urls_in(crate::json::member(j, "urls"@)) == Ok::<Option<Seq<Seq<char>>>, Seq<char>>(
            list_view(self.urls),
        )
        &&& text_value(crate::json::member(j, "content_format"@), "content_format"@) == Ok::<
            Option<Seq<char>>,
            Seq<char>,
        >(self.content_format.deep_view())
        &&& text_value(crate::json::member(j, "since"@), "since"@) == Ok::<
            Option<Seq<char>>,
            Seq<char>,
        >(self.since.deep_view())
        &&& text_value(crate::json::member(j, "query"@), "query"@) == Ok::<
            Option<Seq<char>>,
            Seq<char>,
        >(self.query.deep_view())
        &&& text_value(crate::json::member(j, "dedupe"@), "dedupe"@) == Ok::<
            Option<Seq<char>>,
            Seq<char>,
        >(self.dedupe.deep_view())
        &&& size_in(crate::json::member(j, "limit"@)) == Ok::<Option<nat>, Seq<char>>(
            size_view(self.limit),
        )
        &&& size_in(crate::json::member(j, "max_content_chars"@)) == Ok::<Option<nat>, Seq<char>>(
            size_view(self.max_content_chars),
        )
        &&& size_in(crate::json::member(j, "max_response_tokens"@)) == Ok::<Option<nat>, Seq<char>>(
            size_view(self.max_response_tokens),
        )
        &&& text_value(crate::json::member(j, "cache_policy"@), "cache_policy"@) == Ok::<
            Option<Seq<char>>,
            Seq<char>,
        >(self.cache_policy.deep_view())
        &&& text_value(crate::json::member(j, "cursor"@), "cursor"@) == Ok::<
            Option<Seq<char>>,
            Seq<char>,
        >(self.cursor.deep_view())
    }

    /// What is wrong with the first member that is no such argument, if there is one.
    pub open spec fn fault(j: crate::json::JsonView) -> Option<Seq<char>> {
        if j !is Obj {
            Some("expected an object of arguments"@)
        } else if wrong(text_value(crate::json::member(j, "url"@), "url"@)) is Some {
            wrong(text_value(crate::json::member(j, "url"@), "url"@))
        } else if wrong(urls_in(crate::json::member(j, "urls"@))) is Some {
            wrong(urls_in(crate::json::member(j, "urls"@)))
        } else if wrong(text_value(crate::json::member(j, "content_format"@), "content_format"@)) is Some {
            wrong(text_value(crate::json::member(j, "content_format"@), "content_format"@))
        } else if wrong(text_value(crate::json::member(j, "since"@), "since"@)) is Some {
            wrong(text_value(crate::json::member(j, "since"@), "since"@))
        } else if wrong(text_value(crate::json::member(j, "query"@), "query"@)) is Some {
            wrong(text_value(crate::json::member(j, "query"@), "query"@))
        } else if wrong(text_value(crate::json::member(j, "dedupe"@), "dedupe"@)) is Some {
            wrong(text_value(crate::json::member(j, "dedupe"@), "dedupe"@))
        } else if wrong(size_in(crate::json::member(j, "limit"@))) is Some {
            wrong(size_in(crate::json::member(j, "limit"@)))
        } else if wrong(size_in(crate::json::member(j, "max_content_chars"@))) is Some {
            wrong(size_in(crate::json::member(j, "max_content_chars"@)))
        } else if wrong(size_in(crate::json::member(j, "max_response_tokens"@))) is Some {
            wrong(size_in(crate::json::member(j, "max_response_tokens"@)))
        } else if wrong(text_value(crate::json::member(j, "cache_policy"@), "cache_policy"@)) is Some {
            wrong(text_value(crate::json::member(j, "cache_policy"@), "cache_policy"@))
        } else if wrong(text_value(crate::json::member(j, "cursor"@), "cursor"@)) is Some {
            wrong(text_value(crate::json::member(j, "cursor"@), "cursor"@))
        } else {
            None
        }
    }

    /// Reads the arguments.
    pub fn from_json(j: &Json) -> (r: Result<FetchFeedArgs, String>)
        ensures
            match (r, FetchFeedArgs::fault(j@)) {
                (Ok(a), None) => a.says(j@),
                (Err(m), Some(t)) => m@ == t,
                _ => false,
            },
    {
        if let Json::Obj(_) = j {
        } else {
            return Err("expected an object of arguments".to_owned());
        }
        Ok(
            FetchFeedArgs {
                url: opt_text(j, "url")?,
                urls: opt_urls(j, "urls")?,
                content_format: opt_text(j, "content_format")?,
                since: opt_text(j, "since")?,
                query: opt_text(j, "query")?,
                dedupe: opt_text(j, "dedupe")?,
                limit: opt_size(j, "limit")?,
                max_content_chars: opt_size(j, "max_content_chars")?,
                max_response_tokens: opt_size(j, "max_response_tokens")?,
                cache_policy: opt_text(j, "cache_policy")?,
                cursor: opt_text(j, "cursor")?,
            },
        )
    }
}

impl GetItemArgs {
    /// What is wrong with the first member that is no such argument, if there is one.
    pub open spec fn fault(j: crate::json::JsonView) -> Option<Seq<char>> {
        if j !is Obj {
            Some("expected an object of arguments"@)
        } else if wrong(needed_text(crate::json::member(j, "feed_url"@), "feed_url"@)) is Some {
            wrong(needed_text(crate::json::member(j, "feed_url"@), "feed_url"@))
        } else if wrong(needed_text(crate::json::member(j, "id"@), "id"@)) is Some {
            wrong(needed_text(crate::json::member(j, "id"@), "id"@))
        } else if wrong(size_in(crate::json::member(j, "max_content_chars"@))) is Some {
            wrong(size_in(crate::json::member(j, "max_content_chars"@)))
        } else {
            None
        }
    }

    /// Reads the arguments.
    pub fn from_json(j: &Json) -> (r: Result<GetItemArgs, String>)
        ensures
            match (r, GetItemArgs::fault(j@)) {
                (Ok(a), None) => {
                    &&& needed_text(crate::json::member(j@, "feed_url"@), "feed_url"@) == Ok::<
                        Seq<char>,
                        Seq<char>,
                    >(a.feed_url@)
                    &&& needed_text(crate::json::member(j@, "id"@), "id"@) == Ok::<
                        Seq<char>,
                        Seq<char>,
                    >(a.id@)
                    &&& size_in(crate::json::member(j@, "max_content_chars"@)) == Ok::<
                        Option<nat>,
                        Seq<char>,
                    >(size_view(a.max_content_chars))
                },
                (Err(m), Some(t)) => m@ == t,
                _ => false,
            },
    {
        if let Json::Obj(_) = j {
        } else {
            return Err("expected an object of arguments".to_owned());
        }
        Ok(
            GetItemArgs {
                feed_url: text_needed(j, "feed_url")?,
                id: text_needed(j, "id")?,
                max_content_chars: opt_size(j, "max_content_chars")?,
            },
        )
    }
}

/// The URLs that a request is for, or what is wrong with it.
pub open spec fn requested(url: Option<Seq<char>>, urls: Option<Seq<Seq<char>>>) -> Result<
    Seq<Seq<char>>,
    Seq<char>,
> {
    let missing = Err::<Seq<Seq<char>>, Seq<char>>(
        "missing required argument: pass 'url' (one feed) or 'urls' (many)"@,
    );
    match (url, urls) {
        (Some(_), Some(_)) => Err("pass either 'url' (one feed) or 'urls' (many), not both"@),
        (Some(u), None) => if crate::text::trimmed(u).len() == 0 {
            missing
        } else {
            Ok(seq![crate::text::trimmed(u)])
        },
        (None, Some(v)) => if v.len() == 0 {
            missing
        } else if v.len() > MCP_MAX_URLS {
            Err(
                "too many feeds: "@ + crate::text::decimal(v.len())
                    + " exceeds the per-call cap of 50; split the request"@,
            )
        } else {
            Ok(v)
        },
        (None, None) => missing,
    }
}

/// The URLs that a request is for: those of `url` or `urls`, of which exactly one is given.
pub fn resolve_urls(args: &FetchFeedArgs) -> (r: Result<Vec<String>, RssError>)
    ensures
        crate::cli::gives_urls(r, requested(args.url.deep_view(), list_view(args.urls))),
{
    match (&args.url, &args.urls) {
        (Some(_), Some(_)) => Err(
            RssError::Usage("pass either 'url' (one feed) or 'urls' (many), not both".to_owned()),
        ),
        (Some(u), None) => {
            let t = trim(u.as_str());
            if t.as_str().is_empty() {
                return Err(missing_urls());
            }
            let ghost only = t@;
            let mut list: Vec<String> = Vec::new();
            list.push(t);
            assert(list.deep_view() =~= seq![only]);
            Ok(list)
        },
        (None, Some(v)) => {
            if v.len() == 0 {
                return Err(missing_urls());
            }
            if v.len() > MCP_MAX_URLS {
                return Err(
                    RssError::Usage(
                        "too many feeds: ".to_owned().concat(
                            number_text(v.len() as u64).as_str(),
                        ).concat(" exceeds the per-call cap of 50; split the request"),
                    ),
                );
            }
            Ok(crate::model::copy_texts(v))
        },
        (None, None) => Err(missing_urls()),
    }
}

fn missing_urls() -> (r: RssError)
    ensures
        r matches RssError::Usage(m) && m@
            == "missing required argument: pass 'url' (one feed) or 'urls' (many)"@,
{
    RssError::Usage("missing required argument: pass 'url' (one feed) or 'urls' (many)".to_owned())
}

} // verus!
