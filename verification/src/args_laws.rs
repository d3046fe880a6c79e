//! What tool arguments say: the laws of sizes, lists of URLs and requests.

use vstd::prelude::*;
use vstd::string::*;

use crate::args::{
    array_value, cleaned, comma_pieces, delimited, is_web_url, list_view, needed_text, requested,
    size_in, size_value, text_value, texts_of, urls_in, urls_value, whole_number, FetchFeedArgs,
    GetItemArgs,
};
use crate::json::{member, JsonView};
use crate::ratelimit::power_of_two;
use crate::text::{decimal, pieces, trimmed, unsigned_value};

verus! {

proof fn lemma_large_powers(k: nat)
    ensures
        power_of_two(k) >= 1,
        k >= 53 ==> power_of_two(k) >= 0x20_0000_0000_0000,
    decreases k,
{
    if k == 53 {
        reveal_with_fuel(power_of_two, 54);
    }
    if k > 0 {
        lemma_large_powers((k - 1) as nat);
    }
}

/// A double without a sign bit, of a biased exponent and a fraction, is the fraction with a leading
/// one, times two to the power of the exponent less 1075. It is a whole number exactly where that is
/// one.
pub proof fn law_a_double_is_whole_where_its_value_is(bits: u64, exponent: int, fraction: int, n: nat)
    requires
        bits == exponent * 0x10_0000_0000_0000 + fraction,
        0 < exponent < 2047,
        0 <= fraction < 0x10_0000_0000_0000,
    ensures
        exponent >= 1075 ==> whole_number(bits) == Some(
            ((0x10_0000_0000_0000 + fraction) * power_of_two((exponent - 1075) as nat)) as nat,
        ),
        exponent < 1075 ==> (whole_number(bits) == Some(n) <==> n * power_of_two(
            (1075 - exponent) as nat,
        ) == 0x10_0000_0000_0000 + fraction),
{
    assert(bits as int / 0x10_0000_0000_0000 == exponent);
    assert(bits as int % 0x10_0000_0000_0000 == fraction);
    assert(exponent % 2048 == exponent);
    assert(bits as int / 0x8000_0000_0000_0000 == 0);
    let scaled = 0x10_0000_0000_0000 + fraction;
    if exponent < 1075 {
        let k = (1075 - exponent) as nat;
        let unit = power_of_two(k) as int;
        lemma_large_powers(k);
        if n * unit == scaled {
            if exponent < 1023 {
                assert(false) by (nonlinear_arith)
                    requires
                        n * unit == scaled,
                        n >= 0,
                        0x10_0000_0000_0000 <= scaled < 0x20_0000_0000_0000,
                        unit >= 0x20_0000_0000_0000,
                ;
            }
            vstd::arithmetic::div_mod::lemma_fundamental_div_mod_converse(
                scaled,
                unit,
                n as int,
                0,
            );
        }
        if whole_number(bits) == Some(n) {
            vstd::arithmetic::div_mod::lemma_fundamental_div_mod(scaled, unit);
            assert(unit * (scaled / unit) == (scaled / unit) * unit) by (nonlinear_arith);
        }
    }
}

/// A double that is negative, or no number, is no whole number; both zeros are zero.
pub proof fn law_no_other_double_is_whole(bits: u64)
    ensures
        bits > 0x8000_0000_0000_0000 ==> whole_number(bits) is None,
        bits / 0x10_0000_0000_0000 == 2047 ==> whole_number(bits) is None,
        0 < bits < 0x10_0000_0000_0000 ==> whole_number(bits) is None,
        bits == 0 || bits == 0x8000_0000_0000_0000 ==> whole_number(bits) == Some(0nat),
{
    if bits > 0x8000_0000_0000_0000 {
        assert(bits as int / 0x8000_0000_0000_0000 == 1);
        assert(!(bits as int / 0x10_0000_0000_0000 % 2048 == 0 && bits as int % 0x10_0000_0000_0000
            == 0));
    }
}

/// A size is a number, the text of one with or without white space around it, or nothing.
pub proof fn law_sizes_are_read_from_numbers_and_texts(n: int, s: Seq<char>, text: Seq<char>, bits: u64)
    ensures
        size_value(JsonView::Null) == Ok::<Option<nat>, Seq<char>>(None),
        0 <= n <= usize::MAX ==> size_value(JsonView::Int(n)) == Ok::<Option<nat>, Seq<char>>(
            Some(n as nat),
        ),
        n < 0 || n > usize::MAX ==> size_value(JsonView::Int(n)) is Err,
        n > usize::MAX ==> size_value(JsonView::Int(n)) == Err::<Option<nat>, Seq<char>>(
            "integer "@ + decimal(n as nat) + " is out of range"@,
        ),
        trimmed(s).len() == 0 ==> size_value(JsonView::Str(s)) == Ok::<Option<nat>, Seq<char>>(None),
        forall|k: nat|
            trimmed(s).len() > 0 ==> ((size_value(JsonView::Str(s)) == Ok::<Option<nat>, Seq<char>>(
                Some(k),
            )) <==> #[trigger] is_its_number(trimmed(s), k)),
        trimmed(s).len() > 0 ==> size_value(JsonView::Str(s)) != Ok::<Option<nat>, Seq<char>>(None),
        whole_number(bits) is None ==> size_value(JsonView::Real(text, bits)) == Err::<
            Option<nat>,
            Seq<char>,
        >("expected a non-negative integer, got "@ + text),
        forall|k: nat|
            whole_number(bits) == Some(k) && k <= usize::MAX ==> #[trigger] size_value(
                JsonView::Real(text, bits),
            ) == Ok::<Option<nat>, Seq<char>>(#[trigger] same_size(k)),
        whole_number(bits) matches Some(k) ==> k > usize::MAX ==> size_value(
            JsonView::Real(text, bits),
        ) == Ok::<Option<nat>, Seq<char>>(Some(usize::MAX as nat)),
{
    assert forall|k: nat| trimmed(s).len() > 0 implies ((size_value(JsonView::Str(s)) == Ok::<
        Option<nat>,
        Seq<char>,
    >(Some(k))) <==> #[trigger] is_its_number(trimmed(s), k)) by {}
}

/// The text is that of the number, which is a size.
pub open spec fn is_its_number(t: Seq<char>, k: nat) -> bool {
    k <= usize::MAX && unsigned_value(t, usize::MAX as nat) == Some(k)
}

/// A size.
pub open spec fn same_size(k: nat) -> Option<nat> {
    Some(k)
}

/// What is read of a value is what it says, and where it says nothing the reason is given.
pub proof fn law_sizes_and_lists_are_given_or_refused(
    r: Result<Option<usize>, String>,
    size: Result<Option<nat>, Seq<char>>,
    l: Result<Option<Vec<String>>, String>,
    list: Result<Option<Seq<Seq<char>>>, Seq<char>>,
)
    ensures
        crate::args::gives_size(r, size) ==> {
            &&& size is Err ==> r is Err && r->Err_0@ == size->Err_0
            &&& size is Ok ==> r is Ok && (size->Ok_0 is None <==> r->Ok_0 is None) && (size->Ok_0 is Some
                ==> r->Ok_0->Some_0 == size->Ok_0->Some_0)
        },
        crate::args::gives_list(l, list) ==> {
            &&& list is Err ==> l is Err && l->Err_0@ == list->Err_0
            &&& list is Ok ==> l is Ok && (list->Ok_0 is None <==> l->Ok_0 is None) && (list->Ok_0 is Some
                ==> l->Ok_0->Some_0.deep_view() == list->Ok_0->Some_0)
        },
{
}

/// Values of no other kind are sizes, and the message shows what was sent.
pub proof fn law_other_values_are_no_sizes(b: bool, a: Seq<JsonView>, m: Seq<(Seq<char>, JsonView)>)
    ensures
        size_value(JsonView::Bool(b)) is Err,
        size_value(JsonView::Arr(a)) is Err,
        size_value(JsonView::Obj(m)) is Err,
{
}

/// The texts of a list are taken one by one: each without its outer white space, and a blank one not
/// at all.
pub proof fn law_lists_are_cleaned_text_by_text(a: Seq<Seq<char>>, b: Seq<Seq<char>>, s: Seq<char>)
    ensures
        cleaned(Seq::<Seq<char>>::empty()) == Seq::<Seq<char>>::empty(),
        cleaned(a + b) == cleaned(a) + cleaned(b),
        cleaned(seq![s]) == (if trimmed(s).len() > 0 {
            seq![trimmed(s)]
        } else {
            Seq::empty()
        }),
    decreases b.len(),
{
    assert(seq![s].drop_last() =~= Seq::<Seq<char>>::empty());
    assert(seq![s].last() == s);
    assert(cleaned(seq![s].drop_last()) =~= Seq::<Seq<char>>::empty());
    assert(Seq::<Seq<char>>::empty().push(trimmed(s)) =~= seq![trimmed(s)]);
    if b.len() == 0 {
        assert(a + b =~= a);
        assert(cleaned(a) + cleaned(b) =~= cleaned(a));
    } else {
        law_lists_are_cleaned_text_by_text(a, b.drop_last(), s);
        assert((a + b).drop_last() =~= a + b.drop_last());
        assert((a + b).last() == b.last());
        let t = trimmed(b.last());
        assert((cleaned(a) + cleaned(b.drop_last())).push(t) =~= cleaned(a) + cleaned(
            b.drop_last(),
        ).push(t));
    }
}

/// A text is as it is without outer white space, and is not blank.
pub open spec fn is_tidy(s: Seq<char>) -> bool {
    s.len() > 0 && trimmed(s) == s
}

proof fn lemma_tidy_lists_stay(v: Seq<Seq<char>>)
    requires
        forall|k: int| 0 <= k < v.len() ==> is_tidy(#[trigger] v[k]),
    ensures
        cleaned(v) == v,
    decreases v.len(),
{
    if v.len() > 0 {
        let w = v.drop_last();
        assert forall|k: int| 0 <= k < w.len() implies is_tidy(#[trigger] w[k]) by {
            assert(w[k] == v[k]);
        }
        lemma_tidy_lists_stay(w);
        assert(is_tidy(v[v.len() - 1]));
        assert(w.push(v.last()) =~= v);
    } else {
        assert(v =~= Seq::empty());
    }
}

/// A list of texts that hold something is that list; one with anything that is no text is refused.
pub proof fn law_a_list_of_urls_is_that_list(v: Seq<Seq<char>>, a: Seq<JsonView>)
    requires
        a.len() == v.len(),
        forall|k: int| 0 <= k < v.len() ==> is_tidy(#[trigger] v[k]),
        forall|k: int| 0 <= k < v.len() ==> #[trigger] a[k] == JsonView::Str(v[k]),
    ensures
        v.len() > 0 ==> array_value(a) == Ok::<Option<Seq<Seq<char>>>, Seq<char>>(Some(v)),
        v.len() == 0 ==> array_value(a) == Ok::<Option<Seq<Seq<char>>>, Seq<char>>(None),
{
    lemma_texts(v, a);
    lemma_tidy_lists_stay(v);
}

proof fn lemma_texts(v: Seq<Seq<char>>, a: Seq<JsonView>)
    requires
        a.len() == v.len(),
        forall|k: int| 0 <= k < v.len() ==> #[trigger] a[k] == JsonView::Str(v[k]),
    ensures
        texts_of(a) == Ok::<Seq<Seq<char>>, JsonView>(v),
    decreases a.len(),
{
    if a.len() > 0 {
        lemma_texts(v.drop_last(), a.drop_last());
        assert(a.last() == JsonView::Str(v.last()));
        assert(v.drop_last().push(v.last()) =~= v);
    } else {
        assert(v =~= Seq::empty());
    }
}

/// One element that is no text spoils a list.
pub proof fn law_one_other_value_spoils_a_list(a: Seq<JsonView>, k: int)
    requires
        0 <= k < a.len(),
        a[k] !is Str,
    ensures
        array_value(a) is Err,
{
    lemma_spoilt(a, k);
}

proof fn lemma_spoilt(a: Seq<JsonView>, k: int)
    requires
        0 <= k < a.len(),
        a[k] !is Str,
    ensures
        texts_of(a) is Err,
    decreases a.len(),
{
    if k < a.len() - 1 {
        lemma_spoilt(a.drop_last(), k);
    }
}

/// The texts, with a separator between any two.
pub open spec fn separated(v: Seq<Seq<char>>, sep: char) -> Seq<char>
    decreases v.len(),
{
    if v.len() == 0 {
        Seq::empty()
    } else if v.len() == 1 {
        v[0]
    } else {
        separated(v.drop_last(), sep).push(sep) + v.last()
    }
}

proof fn lemma_separated_pieces(v: Seq<Seq<char>>, sep: char)
    requires
        v.len() > 0,
        forall|k: int| 0 <= k < v.len() ==> !(#[trigger] v[k]).contains(sep),
    ensures
        pieces(separated(v, sep), sep) == v,
    decreases v.len(),
{
    assert(!v[v.len() - 1].contains(sep));
    if v.len() == 1 {
        crate::text_laws::law_separators_part_a_text(v[0], Seq::empty(), sep);
        assert(seq![v[0]] =~= v);
    } else {
        let w = v.drop_last();
        assert forall|k: int| 0 <= k < w.len() implies !(#[trigger] w[k]).contains(sep) by {
            assert(w[k] == v[k]);
        }
        lemma_separated_pieces(w, sep);
        crate::text_laws::law_separators_part_a_text(separated(w, sep), v.last(), sep);
        crate::text_laws::law_separators_part_a_text(v.last(), Seq::empty(), sep);
        assert(w + seq![v.last()] =~= v);
    }
}

proof fn lemma_separated_holds_no_other(v: Seq<Seq<char>>, sep: char, c: char)
    requires
        c != sep,
        forall|k: int| 0 <= k < v.len() ==> !(#[trigger] v[k]).contains(c),
    ensures
        !separated(v, sep).contains(c),
    decreases v.len(),
{
    if v.len() == 1 {
        assert(!v[0].contains(c));
    } else if v.len() > 1 {
        let w = v.drop_last();
        assert forall|k: int| 0 <= k < w.len() implies !(#[trigger] w[k]).contains(c) by {
            assert(w[k] == v[k]);
        }
        lemma_separated_holds_no_other(w, sep, c);
        assert(!v[v.len() - 1].contains(c));
        let s = separated(v, sep);
        let head = separated(w, sep);
        if s.contains(c) {
            let k = choose|k: int| 0 <= k < s.len() && s[k] == c;
            if k < head.len() {
                assert(head[k] == c);
            } else if k > head.len() {
                assert(v.last()[k - head.len() - 1] == c);
            }
        }
    }
}

proof fn lemma_no_commas_no_pieces(lines: Seq<Seq<char>>)
    requires
        forall|k: int| 0 <= k < lines.len() ==> !(#[trigger] lines[k]).contains(','),
    ensures
        comma_pieces(lines) == lines,
    decreases lines.len(),
{
    if lines.len() > 0 {
        let w = lines.drop_last();
        assert forall|k: int| 0 <= k < w.len() implies !(#[trigger] w[k]).contains(',') by {
            assert(w[k] == lines[k]);
        }
        lemma_no_commas_no_pieces(w);
        assert(!lines[lines.len() - 1].contains(','));
        crate::text_laws::law_separators_part_a_text(lines.last(), Seq::empty(), ',');
        assert(w + seq![lines.last()] =~= lines);
    } else {
        assert(lines =~= Seq::empty());
    }
}

/// Texts on lines of their own are read back one by one, whatever they are, as long as none holds a
/// comma.
pub proof fn law_lines_are_read_back(v: Seq<Seq<char>>)
    requires
        v.len() > 0,
        forall|k: int|
            0 <= k < v.len() ==> is_tidy(#[trigger] v[k]) && !v[k].contains('\n') && !v[k].contains(
                ',',
            ),
    ensures
        delimited(separated(v, '\n')) == v,
{
    lemma_separated_pieces(v, '\n');
    lemma_no_commas_no_pieces(v);
    lemma_tidy_lists_stay(v);
}

/// URLs with commas between them are read back one by one.
pub proof fn law_urls_between_commas_are_read_back(v: Seq<Seq<char>>)
    requires
        v.len() > 0,
        forall|k: int|
            0 <= k < v.len() ==> is_tidy(#[trigger] v[k]) && is_web_url(v[k]) && !v[k].contains('\n')
                && !v[k].contains(','),
    ensures
        delimited(separated(v, ',')) == v,
{
    let t = separated(v, ',');
    lemma_separated_holds_no_other(v, ',', '\n');
    crate::text_laws::law_separators_part_a_text(t, Seq::empty(), '\n');
    lemma_separated_pieces(v, ',');
    let lines = seq![t];
    assert(lines.drop_last() =~= Seq::<Seq<char>>::empty());
    assert(lines.last() == t);
    assert(comma_pieces(lines.drop_last()) =~= Seq::<Seq<char>>::empty());
    assert(comma_pieces(lines) =~= v);
    lemma_tidy_lists_stay(v);
}

/// A line whose commas do not part URLs is one text.
pub proof fn law_a_comma_may_be_part_of_a_url(a: Seq<char>, b: Seq<char>)
    requires
        is_tidy(a.push(',') + b),
        !a.contains('\n') && !a.contains(','),
        !b.contains('\n') && !b.contains(','),
        is_tidy(b),
        !is_web_url(b),
    ensures
        delimited(a.push(',') + b) == seq![a.push(',') + b],
{
    let t = a.push(',') + b;
    assert(!t.contains('\n')) by {
        if t.contains('\n') {
            let k = choose|k: int| 0 <= k < t.len() && t[k] == '\n';
            if k < a.len() {
                assert(a[k] == '\n');
            } else {
                assert(k > a.len());
                assert(b[k - a.len() - 1] == '\n');
            }
        }
    }
    crate::text_laws::law_separators_part_a_text(t, Seq::empty(), '\n');
    crate::text_laws::law_separators_part_a_text(a, b, ',');
    crate::text_laws::law_separators_part_a_text(a, Seq::empty(), ',');
    crate::text_laws::law_separators_part_a_text(b, Seq::empty(), ',');
    let lines = seq![t];
    assert(lines.drop_last() =~= Seq::<Seq<char>>::empty());
    assert(lines.last() == t);
    assert(comma_pieces(lines.drop_last()) =~= Seq::<Seq<char>>::empty());
    assert(comma_pieces(lines) =~= seq![a] + seq![b]);
    law_lists_are_cleaned_text_by_text(seq![a], seq![b], b);
    let parts = cleaned(comma_pieces(lines));
    assert(parts[parts.len() - 1] == b);
    assert(!is_web_url(parts[parts.len() - 1]));
    law_lists_are_cleaned_text_by_text(Seq::empty(), lines, t);
}

proof fn lemma_only_commas(t: Seq<char>)
    requires
        forall|k: int| 0 <= k < t.len() ==> #[trigger] t[k] == ',',
    ensures
        cleaned(pieces(t, ',')).len() == 0,
    decreases t.len(),
{
    let e = Seq::<char>::empty();
    crate::text_laws::law_separators_part_a_text(e, e, ',');
    law_lists_are_cleaned_text_by_text(Seq::empty(), Seq::empty(), e);
    assert(trimmed(e).len() == 0) by {
        crate::text_laws::law_blank_texts_trim_to_nothing(e);
    }
    if t.len() == 0 {
        assert(t =~= e);
    } else {
        let d = t.drop_last();
        lemma_only_commas(d);
        crate::text_laws::law_separators_part_a_text(d, e, ',');
        assert(d.push(',') + e =~= t) by {
            assert(t[t.len() - 1] == ',');
        }
        law_lists_are_cleaned_text_by_text(pieces(d, ','), seq![e], e);
    }
}

/// Commas with nothing between them part nothing: they stay one text.
pub proof fn law_commas_alone_part_nothing(t: Seq<char>)
    requires
        is_tidy(t),
        forall|k: int| 0 <= k < t.len() ==> #[trigger] t[k] == ',',
    ensures
        delimited(t) == seq![t],
{
    assert(!t.contains('\n'));
    crate::text_laws::law_separators_part_a_text(t, Seq::empty(), '\n');
    let lines = seq![t];
    assert(lines.drop_last() =~= Seq::<Seq<char>>::empty());
    assert(lines.last() == t);
    assert(comma_pieces(lines.drop_last()) =~= Seq::<Seq<char>>::empty());
    assert(comma_pieces(lines) =~= pieces(t, ','));
    lemma_only_commas(t);
    law_lists_are_cleaned_text_by_text(Seq::empty(), lines, t);
}

/// A web URL starts with the scheme and two slashes, in small or capital letters.
pub proof fn law_web_urls_start_with_their_scheme(rest: Seq<char>, s: Seq<char>)
    ensures
        is_web_url("http://"@ + rest),
        is_web_url("https://"@ + rest),
        is_web_url("HTTP://"@ + rest),
        s.len() < 7 ==> !is_web_url(s),
        s.len() >= 7 && s[0] != 'h' && s[0] != 'H' ==> !is_web_url(s),
        s.len() >= 7 && !s.contains(':') ==> !is_web_url(s),
{
    reveal_strlit("http://");
    reveal_strlit("https://");
    reveal_strlit("HTTP://");
    broadcast use vstd::utf8::char_u32_cast;

    let low = crate::text::ascii_lowercase(s);
    assert(low.len() == s.len());
    let a = crate::text::ascii_lowercase("http://"@ + rest);
    let b = crate::text::ascii_lowercase("https://"@ + rest);
    let c = crate::text::ascii_lowercase("HTTP://"@ + rest);
    assert(a.take(7) =~= "http://"@);
    assert(b.take(8) =~= "https://"@);
    assert(c.take(7) =~= "http://"@);
    if s.len() >= 7 && is_web_url(s) {
        assert("http://"@[0] == 'h' && "https://"@[0] == 'h');
        assert("http://"@[4] == ':' && "https://"@[5] == ':');
        if crate::text::has_prefix(low, "http://"@) {
            assert(low.take(7)[0] == 'h');
            assert(low.take(7)[4] == ':');
            assert(s[4] == ':');
        } else {
            assert(low.take(8)[0] == 'h');
            assert(low.take(8)[5] == ':');
            assert(s[5] == ':');
        }
    }
}

/// Of a value for URLs: a list is read as one; so is the text of one; other texts are delimited; and
/// a blank text, like no value, asks for nothing.
pub proof fn law_urls_are_read_from_lists_and_texts(
    a: Seq<JsonView>,
    s: Seq<char>,
    written: Option<JsonView>,
)
    ensures
        urls_value(JsonView::Null, written) == Ok::<Option<Seq<Seq<char>>>, Seq<char>>(None),
        urls_value(JsonView::Arr(a), written) == array_value(a),
        trimmed(s).len() == 0 ==> urls_value(JsonView::Str(s), written) == Ok::<
            Option<Seq<Seq<char>>>,
            Seq<char>,
        >(None),
        trimmed(s).len() > 0 && trimmed(s)[0] == '[' ==> urls_value(
            JsonView::Str(s),
            Some(JsonView::Arr(a)),
        ) == array_value(a),
        trimmed(s).len() > 0 && trimmed(s)[0] != '[' && delimited(trimmed(s)).len() > 0
            ==> urls_value(JsonView::Str(s), written) == Ok::<Option<Seq<Seq<char>>>, Seq<char>>(
            Some(delimited(trimmed(s))),
        ),
        trimmed(s).len() > 0 && delimited(trimmed(s)).len() > 0 ==> urls_value(
            JsonView::Str(s),
            None,
        ) == Ok::<Option<Seq<Seq<char>>>, Seq<char>>(Some(delimited(trimmed(s)))),
{
}

/// Values of no other kind are lists of URLs.
pub proof fn law_other_values_are_no_urls(
    b: bool,
    n: int,
    text: Seq<char>,
    bits: u64,
    m: Seq<(Seq<char>, JsonView)>,
    written: Option<JsonView>,
)
    ensures
        urls_value(JsonView::Bool(b), written) is Err,
        urls_value(JsonView::Int(n), written) is Err,
        urls_value(JsonView::Real(text, bits), written) is Err,
        urls_value(JsonView::Obj(m), written) is Err,
{
}

/// Every argument of a request to fetch is that of its own name, and one that is not there is none.
pub proof fn law_every_argument_has_its_name(a: FetchFeedArgs, j: JsonView, s: Seq<char>, n: int)
    requires
        a.says(j),
        0 <= n <= usize::MAX,
    ensures
        member(j, "url"@) == Some(JsonView::Str(s)) ==> a.url.deep_view() == Some(s),
        member(j, "url"@) is None ==> a.url is None,
        member(j, "content_format"@) == Some(JsonView::Str(s)) ==> a.content_format.deep_view()
            == Some(s),
        member(j, "content_format"@) is None ==> a.content_format is None,
        member(j, "since"@) == Some(JsonView::Str(s)) ==> a.since.deep_view() == Some(s),
        member(j, "since"@) is None ==> a.since is None,
        member(j, "query"@) == Some(JsonView::Str(s)) ==> a.query.deep_view() == Some(s),
        member(j, "query"@) is None ==> a.query is None,
        member(j, "dedupe"@) == Some(JsonView::Str(s)) ==> a.dedupe.deep_view() == Some(s),
        member(j, "dedupe"@) is None ==> a.dedupe is None,
        member(j, "cache_policy"@) == Some(JsonView::Str(s)) ==> a.cache_policy.deep_view() == Some(
            s,
        ),
        member(j, "cache_policy"@) is None ==> a.cache_policy is None,
        member(j, "cursor"@) == Some(JsonView::Str(s)) ==> a.cursor.deep_view() == Some(s),
        member(j, "cursor"@) is None ==> a.cursor is None,
        member(j, "limit"@) == Some(JsonView::Int(n)) ==> a.limit == Some(n as usize),
        member(j, "limit"@) is None ==> a.limit is None,
        member(j, "max_content_chars"@) == Some(JsonView::Int(n)) ==> a.max_content_chars == Some(
            n as usize,
        ),
        member(j, "max_content_chars"@) is None ==> a.max_content_chars is None,
        member(j, "max_response_tokens"@) == Some(JsonView::Int(n)) ==> a.max_response_tokens == Some(
            n as usize,
        ),
        member(j, "max_response_tokens"@) is None ==> a.max_response_tokens is None,
        member(j, "urls"@) is None ==> a.urls is None,
        forall|v: Seq<JsonView>|
            member(j, "urls"@) == Some(JsonView::Arr(v)) ==> #[trigger] array_value(v) == Ok::<
                Option<Seq<Seq<char>>>,
                Seq<char>,
            >(list_view(a.urls)),
{
}

/// A text argument may be a text, `null` or left out; nothing else.
pub proof fn law_text_arguments_are_texts(j: JsonView, name: Seq<char>)
    ensures
        text_value(Some(j), name) is Ok <==> j is Str || j is Null,
        text_value(None, name) == Ok::<Option<Seq<char>>, Seq<char>>(None),
        j matches JsonView::Str(s) ==> text_value(Some(j), name) == Ok::<Option<Seq<char>>, Seq<char>>(
            Some(s),
        ),
        j is Null ==> text_value(Some(j), name) == Ok::<Option<Seq<char>>, Seq<char>>(None),
        needed_text(Some(j), name) is Ok <==> j is Str,
        needed_text(None, name) is Err,
        j matches JsonView::Str(s) ==> needed_text(Some(j), name) == Ok::<Seq<char>, Seq<char>>(s),
{
}

/// A request to fetch is read exactly where it is an object, each of its text arguments a text, each
/// of its sizes one and its URLs a list of them.
pub proof fn law_one_wrong_argument_spoils_a_request(j: JsonView)
    ensures
        FetchFeedArgs::fault(j) is None <==> j is Obj && text_value(member(j, "url"@), "url"@) is Ok
            && urls_in(member(j, "urls"@)) is Ok && text_value(
            member(j, "content_format"@),
            "content_format"@,
        ) is Ok && text_value(member(j, "since"@), "since"@) is Ok && text_value(
            member(j, "query"@),
            "query"@,
        ) is Ok && text_value(member(j, "dedupe"@), "dedupe"@) is Ok && size_in(
            member(j, "limit"@),
        ) is Ok && size_in(member(j, "max_content_chars"@)) is Ok && size_in(
            member(j, "max_response_tokens"@),
        ) is Ok && text_value(member(j, "cache_policy"@), "cache_policy"@) is Ok && text_value(
            member(j, "cursor"@),
            "cursor"@,
        ) is Ok,
        GetItemArgs::fault(j) is None <==> j is Obj && needed_text(
            member(j, "feed_url"@),
            "feed_url"@,
        ) is Ok && needed_text(member(j, "id"@), "id"@) is Ok && size_in(
            member(j, "max_content_chars"@),
        ) is Ok,
{
}

/// A request is refused for the first of its arguments that is at fault, in the order in which they are
/// described, and with what is wrong with that one.
pub proof fn law_the_first_fault_is_told(j: JsonView, m: Seq<char>)
    requires
        j is Obj,
    ensures
        needed_text(member(j, "feed_url"@), "feed_url"@) == Err::<Seq<char>, Seq<char>>(m)
            ==> GetItemArgs::fault(j) == Some(m),
        needed_text(member(j, "feed_url"@), "feed_url"@) is Ok && needed_text(member(j, "id"@), "id"@)
            == Err::<Seq<char>, Seq<char>>(m) ==> GetItemArgs::fault(j) == Some(m),
        needed_text(member(j, "feed_url"@), "feed_url"@) is Ok && needed_text(member(j, "id"@), "id"@)
            is Ok && size_in(member(j, "max_content_chars"@)) == Err::<Option<nat>, Seq<char>>(m)
            ==> GetItemArgs::fault(j) == Some(m),
        text_value(member(j, "url"@), "url"@) == Err::<Option<Seq<char>>, Seq<char>>(m)
            ==> FetchFeedArgs::fault(j) == Some(m),
        ({
            &&& text_value(member(j, "url"@), "url"@) is Ok
            &&& urls_in(member(j, "urls"@)) == Err::<Option<Seq<Seq<char>>>, Seq<char>>(m)
        }) ==> FetchFeedArgs::fault(j) == Some(m),
        ({
            &&& text_value(member(j, "url"@), "url"@) is Ok
            &&& urls_in(member(j, "urls"@)) is Ok
            &&& text_value(member(j, "content_format"@), "content_format"@) is Ok
            &&& text_value(member(j, "since"@), "since"@) is Ok
            &&& text_value(member(j, "query"@), "query"@) is Ok
            &&& text_value(member(j, "dedupe"@), "dedupe"@) is Ok
        }) ==> {
            &&& size_in(member(j, "limit"@)) == Err::<Option<nat>, Seq<char>>(m)
                ==> FetchFeedArgs::fault(j) == Some(m)
            &&& size_in(member(j, "limit"@)) is Ok && size_in(member(j, "max_content_chars"@)) == Err::<
                Option<nat>,
                Seq<char>,
            >(m) ==> FetchFeedArgs::fault(j) == Some(m)
            &&& size_in(member(j, "limit"@)) is Ok && size_in(member(j, "max_content_chars"@)) is Ok
                && size_in(member(j, "max_response_tokens"@)) == Err::<Option<nat>, Seq<char>>(m)
                ==> FetchFeedArgs::fault(j) == Some(m)
        },
{
}

/// An argument that is no text, or that is missing, is named.
pub proof fn law_a_fault_names_its_argument(j: JsonView, name: Seq<char>)
    requires
        j !is Str,
    ensures
        j !is Null ==> text_value(Some(j), name) == Err::<Option<Seq<char>>, Seq<char>>(
            "expected a string for `"@ + name + "`"@,
        ),
        needed_text(Some(j), name) == Err::<Seq<char>, Seq<char>>("expected a string for `"@ + name + "`"@),
        needed_text(None, name) == Err::<Seq<char>, Seq<char>>("missing field `"@ + name + "`"@),
{
}

/// A request is for its one URL without outer white space, or for its list, of which there are at
/// most fifty; with both, with neither or with blank ones it is refused.
pub proof fn law_a_request_is_for_one_url_or_many(u: Seq<char>, v: Seq<Seq<char>>)
    ensures
        requested(Some(u), Some(v)) is Err,
        requested(None, None) is Err,
        trimmed(u).len() == 0 ==> requested(Some(u), None) is Err,
        trimmed(u).len() > 0 ==> requested(Some(u), None) == Ok::<Seq<Seq<char>>, Seq<char>>(
            seq![trimmed(u)],
        ),
        1 <= v.len() <= 50 ==> requested(None, Some(v)) == Ok::<Seq<Seq<char>>, Seq<char>>(v),
        v.len() == 0 || v.len() > 50 ==> requested(None, Some(v)) is Err,
{
}

} // verus!
