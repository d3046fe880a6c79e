//! A look at a page before it is laid out as text.

use vstd::prelude::*;

use crate::joiner::{joins, read_reference};
use crate::markup::{skip_white, stands_at};
use crate::text::{chars_of, to_ascii_lowercase};

verus! {

/// How many tags of a page may open elements. A page nests little deeper than it opens elements, and
/// taking it apart needs a stack as deep as it nests.
pub const MAX_TAGS: usize = 2500;

/// How many digits the number that a list starts with may have, so that counting on from it stays
/// within 64 bits.
pub const MAX_START_DIGITS: usize = 18;

/// A tag that opens an element begins here.
pub open spec fn opens_element(s: Seq<char>, i: int) -> bool {
    s[i] == '<' && i + 1 < s.len() && 'a' <= s[i + 1] <= 'z'
}

/// How many tags before `n` open elements.
pub open spec fn opened(s: Seq<char>, n: int) -> nat
    decreases n,
{
    if n <= 0 {
        0
    } else {
        opened(s, n - 1) + (if opens_element(s, n - 1) {
            1nat
        } else {
            0nat
        })
    }
}

/// What stands from `i` on up to the end of a tag.
pub open spec fn rest_of_tag(s: Seq<char>, i: int) -> Seq<char> {
    s.subrange(i, i + crate::discover::run_before(s.skip(i), '>', '>') as int)
}

/// The number that a list starts with, where one is given here, is small and written out.
pub open spec fn starts_small(s: Seq<char>, i: int) -> bool {
    let a = crate::markup::white_end(s, i + 5);
    crate::text::occurs_at(s, "start"@, i) && a < s.len() && s[a] == '=' ==> {
        &&& crate::markup::digit_count(rest_of_tag(s, a)) <= MAX_START_DIGITS
        &&& !rest_of_tag(s, a).contains('&')
    }
}

/// A number of one or two digits other than zero is given here, in quotes or without.
pub open spec fn gives_few(s: Seq<char>, i: int) -> bool {
    let quoted = i < s.len() && (s[i] == '"' || s[i] == '\'');
    let a = if quoted {
        i + 1
    } else {
        i
    };
    let e = if a + 1 < s.len() && crate::text::is_digit(s[a + 1]) {
        a + 2
    } else {
        a + 1
    };
    &&& e < s.len()
    &&& '1' <= s[a] <= '9'
    &&& if quoted {
        s[e] == s[i]
    } else {
        s[e] == '>' || crate::markup::is_space(s[e])
    }
}

/// A cell that is said here to span rows or columns spans one row, or a few columns.
pub open spec fn spans_few(s: Seq<char>, i: int) -> bool {
    let a = crate::markup::white_end(s, i + 7);
    a < s.len() && s[a] == '=' ==> {
        &&& crate::text::occurs_at(s, "rowspan"@, i) ==> crate::text::occurs_at(s, "\"1\""@, a + 1)
        &&& crate::text::occurs_at(s, "colspan"@, i) ==> gives_few(s, a + 1)
    }
}

/// What stands here is as wide beside other characters as alone, written out or as a reference.
pub open spec fn stands_alone(s: Seq<char>, i: int) -> bool {
    &&& crate::joiner::stand_in(s[i] as u32) is None
    &&& crate::joiner::reference(s, i) matches Some((code, _)) ==> crate::joiner::stand_in(
        code,
    ) is None
    &&& !crate::text::occurs_at(s, "&zwj"@, i)
}

/// The character may end the name of an attribute.
pub open spec fn is_name_char(c: char) -> bool {
    'a' <= c <= 'z' || '0' <= c <= '9' || c == '-' || c == '_' || c == ':'
}

/// Just past the tag, from within it, where its attributes are written plainly: a name, `=` and a quoted
/// value without `<` or `>`. Nothing where they are not.
pub open spec fn plain_end(s: Seq<char>, k: int, quote: Option<char>) -> Option<int>
    decreases s.len() - k,
{
    if k >= s.len() {
        None
    } else {
        match quote {
            Some(q) => if s[k] == q {
                plain_end(s, k + 1, None)
            } else if s[k] == '<' || s[k] == '>' {
                None
            } else {
                plain_end(s, k + 1, quote)
            },
            None => if s[k] == '>' {
                Some(k + 1)
            } else if s[k] == '=' {
                if k >= 1 && is_name_char(s[k - 1]) && k + 1 < s.len() && (s[k + 1] == '"' || s[k
                    + 1] == '\'') {
                    plain_end(s, k + 2, Some(s[k + 1]))
                } else {
                    None
                }
            } else if s[k] == '<' || s[k] == '"' || s[k] == '\'' {
                None
            } else {
                plain_end(s, k + 1, None)
            },
        }
    }
}

/// A tag that begins like this stands here, and its name ends there.
pub open spec fn tag_stands(s: Seq<char>, tag: Seq<char>, i: int) -> bool {
    let e = i + tag.len();
    crate::text::occurs_at(s, tag, i) && e < s.len() && (s[e] == '>' || crate::markup::is_space(s[e]))
}

/// Just past a plain tag that stands here and that leaves a text within the block around it.
pub open spec fn inline_end(s: Seq<char>, i: int) -> Option<int> {
    if tag_stands(s, "<span"@, i) || tag_stands(s, "<code"@, i) {
        plain_end(s, i + 5, None)
    } else if tag_stands(s, "</span"@, i) {
        plain_end(s, i + 6, None)
    } else {
        None
    }
}

/// A reference to a character that is seen stands here.
pub open spec fn shows_reference(s: Seq<char>, i: int) -> bool {
    ||| crate::text::occurs_at(s, "&lt;"@, i)
    ||| crate::text::occurs_at(s, "&gt;"@, i)
    ||| crate::text::occurs_at(s, "&amp;"@, i)
    ||| crate::text::occurs_at(s, "&quot;"@, i)
}

/// The preformatted block whose inside goes on at `k` shows something, or holds nothing but spaces and
/// line ends. `other` says that it has already held something else that may not be seen.
pub open spec fn block_shows(s: Seq<char>, k: int, other: bool) -> bool
    decreases s.len() - k,
{
    if k >= s.len() {
        false
    } else if s[k] == ' ' || s[k] == '\n' || s[k] == '\r' {
        block_shows(s, k + 1, other)
    } else if s[k] == '<' {
        if tag_stands(s, "</pre"@, k) {
            !other
        } else {
            proof {
                lemma_plain_end(s, k + 5, None);
                lemma_plain_end(s, k + 6, None);
            }
            match inline_end(s, k) {
                Some(e) => block_shows(s, e, other),
                None => false,
            }
        }
    } else if s[k] == '&' {
        shows_reference(s, k)
    } else if '!' <= s[k] <= '~' {
        true
    } else {
        block_shows(s, k + 1, true)
    }
}

/// The preformatted block that opens here, if one does, is not blank.
pub open spec fn opens_shown(s: Seq<char>, i: int) -> bool {
    crate::text::occurs_at(s, "<pre"@, i) ==> {
        ||| i + 4 < s.len() && is_name_char(s[i + 4])
        ||| tag_stands(s, "<pre"@, i) && (plain_end(s, i + 4, None) matches Some(e) && block_shows(
            s,
            e,
            false,
        ))
    }
}

/// What stands at `i` keeps the page from nothing.
pub open spec fn is_harmless(s: Seq<char>, i: int) -> bool {
    &&& starts_small(s, i)
    &&& spans_few(s, i)
    &&& stands_alone(s, i)
    &&& opens_shown(s, i)
}

/// The page can be rendered: it has no cell that spans rows or very many columns, no list that starts
/// with a huge number, no characters that join, no preformatted block that is blank, and not too many tags.
pub open spec fn is_renderable(html: Seq<char>) -> bool {
    let low = crate::text::ascii_lowercase(html);
    &&& forall|i: int| 0 <= i < low.len() ==> #[trigger] is_harmless(low, i)
    &&& opened(low, low.len() as int) <= MAX_TAGS
}

/// What comes past a plain tag lies further on, within the text.
pub proof fn lemma_plain_end(s: Seq<char>, k: int, quote: Option<char>)
    ensures
        plain_end(s, k, quote) matches Some(e) ==> k < e <= s.len(),
    decreases s.len() - k,
{
    if k < s.len() {
        lemma_plain_end(s, k + 1, None);
        lemma_plain_end(s, k + 1, quote);
        if k + 1 < s.len() {
            lemma_plain_end(s, k + 2, Some(s[k + 1]));
        }
    }
}

fn start_is_small(v: &Vec<char>, i: usize) -> (r: bool)
    ensures
        r == starts_small(v@, i as int),
{
    if !stands_at(v, "start", i) {
        return true;
    }
    proof {
        reveal_strlit("start");
        assert(i + 5 <= v.len());
    }
    let a = skip_white(v, i + 5);
    if a >= v.len() || v[a] != '=' {
        return true;
    }
    let mut e: usize = a;
    let mut digits: usize = 0;
    let mut plain = true;
    let ghost rest = v@.skip(a as int);
    assert(v@.subrange(a as int, a as int) =~= Seq::empty());
    assert(rest.skip(0) =~= rest);
    while e < v.len() && v[e] != '>'
        invariant
            a <= e <= v@.len(),
            rest == v@.skip(a as int),
            digits <= e - a,
            digits == crate::markup::digit_count(v@.subrange(a as int, e as int)),
            plain == !v@.subrange(a as int, e as int).contains('&'),
            crate::discover::run_before(rest, '>', '>') == (e - a) + crate::discover::run_before(
                rest.skip(e - a),
                '>',
                '>',
            ),
        decreases v@.len() - e,
    {
        let c = v[e];
        let ghost seen = v@.subrange(a as int, e as int);
        let ghost next = v@.subrange(a as int, e + 1);
        proof {
            assert(next.drop_last() =~= seen);
            assert(next =~= seen.push(c));
            assert(rest.skip(e - a)[0] == c);
            assert(rest.skip(e - a).skip(1) =~= rest.skip(e + 1 - a));
            if next.contains('&') {
                let k = choose|k: int| 0 <= k < next.len() && next[k] == '&';
                if k < seen.len() {
                    assert(seen[k] == '&');
                }
            }
            if seen.contains('&') {
                let k = choose|k: int| 0 <= k < seen.len() && seen[k] == '&';
                assert(next[k] == '&');
            }
            if c == '&' {
                assert(next[e - a] == '&');
            }
        }
        if '0' <= c && c <= '9' {
            digits = digits + 1;
        }
        if c == '&' {
            plain = false;
        }
        e = e + 1;
    }
    assert(e < v@.len() ==> rest.skip(e - a)[0] == v@[e as int]);
    digits <= MAX_START_DIGITS && plain
}

fn few_are_given(v: &Vec<char>, i: usize) -> (r: bool)
    requires
        i <= v@.len(),
    ensures
        r == gives_few(v@, i as int),
{
    let n: usize = v.len();
    let quoted = i < n && (v[i] == '"' || v[i] == '\'');
    let a: usize = if quoted {
        i + 1
    } else {
        i
    };
    if a >= n || n - a < 2 || v[a] < '1' || v[a] > '9' {
        return false;
    }
    let e: usize = if '0' <= v[a + 1] && v[a + 1] <= '9' {
        a + 2
    } else {
        a + 1
    };
    if e >= n {
        return false;
    }
    if quoted {
        v[e] == v[i]
    } else {
        v[e] == '>' || v[e] == ' ' || v[e] == '\t' || v[e] == '\n' || v[e] == '\r'
    }
}

fn few_are_spanned(v: &Vec<char>, i: usize) -> (r: bool)
    ensures
        r == spans_few(v@, i as int),
{
    let rows = stands_at(v, "rowspan", i);
    let columns = stands_at(v, "colspan", i);
    if !rows && !columns {
        return true;
    }
    proof {
        reveal_strlit("rowspan");
        reveal_strlit("colspan");
        assert(i + 7 <= v.len());
    }
    let a = skip_white(v, i + 7);
    if a >= v.len() || v[a] != '=' {
        return true;
    }
    (!rows || stands_at(v, "\"1\"", a + 1)) && (!columns || few_are_given(v, a + 1))
}

fn is_alone(v: &Vec<char>, i: usize) -> (r: bool)
    requires
        i < v@.len(),
    ensures
        r == stands_alone(v@, i as int),
{
    let named = match read_reference(v, i) {
        Some((code, _)) => joins(code),
        None => false,
    };
    !named && !joins(v[i] as u32) && !stands_at(v, "&zwj", i)
}

fn can_end_name(c: char) -> (r: bool)
    ensures
        r == is_name_char(c),
{
    ('a' <= c && c <= 'z') || ('0' <= c && c <= '9') || c == '-' || c == '_' || c == ':'
}

fn find_plain_end(v: &Vec<char>, from: usize) -> (r: Option<usize>)
    ensures
        match r {
            Some(e) => plain_end(v@, from as int, None) == Some(e as int),
            None => plain_end(v@, from as int, None) is None,
        },
{
    let mut quote: Option<char> = None;
    let mut k: usize = from;
    while k < v.len()
        invariant
            plain_end(v@, k as int, quote) == plain_end(v@, from as int, None),
        decreases v@.len() - k,
    {
        let c = v[k];
        match quote {
            Some(q) => {
                if c == q {
                    quote = None;
                } else if c == '<' || c == '>' {
                    return None;
                }
                k = k + 1;
            },
            None => if c == '>' {
                return Some(k + 1);
            } else if c == '=' {
                if k >= 1 && can_end_name(v[k - 1]) && k + 1 < v.len() && (v[k + 1] == '"' || v[k + 1]
                    == '\'') {
                    quote = Some(v[k + 1]);
                    k = k + 2;
                } else {
                    return None;
                }
            } else if c == '<' || c == '"' || c == '\'' {
                return None;
            } else {
                k = k + 1;
            },
        }
    }
    None
}

fn is_tag(v: &Vec<char>, tag: &str, i: usize) -> (r: bool)
    ensures
        r == tag_stands(v@, tag@, i as int),
{
    let n: usize = chars_of(tag).len();
    if !stands_at(v, tag, i) {
        return false;
    }
    assert(i + n <= v.len());
    let e: usize = i + n;
    e < v.len() && (v[e] == '>' || v[e] == ' ' || v[e] == '\t' || v[e] == '\n' || v[e] == '\r')
}

fn find_inline_end(v: &Vec<char>, i: usize) -> (r: Option<usize>)
    ensures
        match r {
            Some(e) => inline_end(v@, i as int) == Some(e as int),
            None => inline_end(v@, i as int) is None,
        },
{
    proof {
        reveal_strlit("<span");
        reveal_strlit("<code");
        reveal_strlit("</span");
    }
    if is_tag(v, "<span", i) || is_tag(v, "<code", i) {
        assert(i + 5 <= v.len());
        find_plain_end(v, i + 5)
    } else if is_tag(v, "</span", i) {
        assert(i + 6 <= v.len());
        find_plain_end(v, i + 6)
    } else {
        None
    }
}

fn block_is_shown(v: &Vec<char>, from: usize) -> (r: bool)
    ensures
        r == block_shows(v@, from as int, false),
{
    let mut other = false;
    let mut k: usize = from;
    while k < v.len()
        invariant
            block_shows(v@, k as int, other) == block_shows(v@, from as int, false),
        decreases v@.len() - k,
    {
        let c = v[k];
        if c == ' ' || c == '\n' || c == '\r' {
            k = k + 1;
        } else if c == '<' {
            if is_tag(v, "</pre", k) {
                return !other;
            }
            proof {
                lemma_plain_end(v@, k + 5, None);
                lemma_plain_end(v@, k + 6, None);
            }
            match find_inline_end(v, k) {
                Some(e) => {
                    k = e;
                },
                None => {
                    return false;
                },
            }
        } else if c == '&' {
            return stands_at(v, "&lt;", k) || stands_at(v, "&gt;", k)
                || stands_at(v, "&amp;", k) || stands_at(
                v,
                "&quot;",
                k,
            );
        } else if '!' <= c && c <= '~' {
            return true;
        } else {
            other = true;
            k = k + 1;
        }
    }
    false
}

fn is_shown(v: &Vec<char>, i: usize) -> (r: bool)
    ensures
        r == opens_shown(v@, i as int),
{
    if !stands_at(v, "<pre", i) {
        return true;
    }
    proof {
        reveal_strlit("<pre");
        assert(i + 4 <= v.len());
    }
    if i + 4 < v.len() && can_end_name(v[i + 4]) {
        return true;
    }
    if !is_tag(v, "<pre", i) {
        return false;
    }
    match find_plain_end(v, i + 4) {
        Some(e) => block_is_shown(v, e),
        None => false,
    }
}

/// Whether the page can be rendered.
pub fn can_be_rendered(html: &str) -> (r: bool)
    ensures
        r == is_renderable(html@),
{
    let low = to_ascii_lowercase(html);
    let v = chars_of(low.as_str());
    let mut tags: usize = 0;
    let mut i: usize = 0;
    while i < v.len()
        invariant
            v@ == crate::text::ascii_lowercase(html@),
            i <= v@.len(),
            tags <= i,
            tags == opened(v@, i as int),
            forall|k: int| 0 <= k < i ==> #[trigger] is_harmless(v@, k),
        decreases v@.len() - i,
    {
        if !start_is_small(&v, i) || !few_are_spanned(&v, i) || !is_alone(&v, i) || !is_shown(&v, i) {
            assert(!is_harmless(v@, i as int));
            return false;
        }
        if v[i] == '<' && v.len() - i > 1 && 'a' <= v[i + 1] && v[i + 1] <= 'z' {
            tags = tags + 1;
        }
        i = i + 1;
    }
    tags <= MAX_TAGS
}

} // verus!
