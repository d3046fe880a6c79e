//! A look at a document's markup before it is read: how deep its elements nest, and what its times
//! hold.

use vstd::prelude::*;

use crate::discover::ends_with;
use crate::text::{chars_of, contains, is_at, same, text_of, to_ascii_lowercase};

verus! {

/// How deep elements may nest that are read by recursion.
pub const MAX_NESTING: usize = 128;

/// How deep elements may nest at all. Their depth is counted in 16 bits.
pub const MAX_OPEN: usize = 10000;

/// How many digits a number of a time may have. Its hours in seconds then fit 64 bits.
pub const MAX_TIME_DIGITS: usize = 15;

/// What `char::is_numeric` says of a character.
pub uninterp spec fn is_numeric_char(c: char) -> bool;

/// `char::is_numeric`: whether the character has one of Unicode's general categories for numbers.
pub assume_specification[ char::is_numeric ](c: char) -> (r: bool)
    ensures
        r == is_numeric_char(c),
;

/// Just past the first `mark` at or after `i`, or the end of the text where there is none.
pub open spec fn past(s: Seq<char>, mark: Seq<char>, i: int) -> int
    decreases s.len() - i,
{
    if i >= s.len() {
        s.len() as int
    } else if crate::text::occurs_at(s, mark, i) {
        i + mark.len()
    } else {
        past(s, mark, i + 1)
    }
}

/// Just past the `>` that ends a tag, from within it: the first outside quotes.
pub open spec fn tag_end(s: Seq<char>, i: int, quote: Option<char>) -> int
    decreases s.len() - i,
{
    if i >= s.len() {
        s.len() as int
    } else {
        match quote {
            Some(q) => tag_end(
                s,
                i + 1,
                if s[i] == q {
                    None
                } else {
                    quote
                },
            ),
            None => if s[i] == '>' {
                i + 1
            } else if s[i] == '"' || s[i] == '\'' {
                tag_end(s, i + 1, Some(s[i]))
            } else {
                tag_end(s, i + 1, None)
            },
        }
    }
}

/// Where in a document type declaration a position is.
#[derive(Debug, Clone, Copy, PartialEq, Eq, Structural)]
pub enum DoctypePart {
    Head,
    Subset,
    Tail,
}

/// A declaration that may hold quoted text stands here.
pub open spec fn declares(s: Seq<char>, i: int) -> bool {
    ||| crate::text::occurs_at(s, "<!ENTITY"@, i)
    ||| crate::text::occurs_at(s, "<!ATTLIST"@, i)
    ||| crate::text::occurs_at(s, "<!NOTATION"@, i)
}

/// Just past a document type declaration, from within it. Nothing where it has an internal subset that
/// may not be there (`subset`), that holds anything but declarations, instructions, comments and
/// references, or that has a comment with `->` within.
pub open spec fn doctype_end(s: Seq<char>, i: int, part: DoctypePart, subset: bool) -> Option<int>
    decreases s.len() - i,
{
    if i >= s.len() {
        Some(s.len() as int)
    } else {
        proof {
            lemma_past(s, seq![s[i]], i + 1);
            lemma_past(s, "-->"@, i + 4);
            lemma_past(s, "?>"@, i + 2);
            lemma_past(s, ">"@, i + 1);
            lemma_tag_end(s, i + 1, None);
        }
        match part {
            DoctypePart::Head => if s[i] == '>' {
                Some(i + 1)
            } else if s[i] == '[' {
                if subset {
                    doctype_end(s, i + 1, DoctypePart::Subset, subset)
                } else {
                    None
                }
            } else if s[i] == '"' || s[i] == '\'' {
                doctype_end(s, past(s, seq![s[i]], i + 1), DoctypePart::Head, subset)
            } else {
                doctype_end(s, i + 1, DoctypePart::Head, subset)
            },
            DoctypePart::Subset => if s[i] == ']' {
                doctype_end(s, i + 1, DoctypePart::Tail, subset)
            } else if declares(s, i) {
                doctype_end(s, tag_end(s, i + 1, None), DoctypePart::Subset, subset)
            } else if crate::text::occurs_at(s, "<!ELEMENT"@, i) {
                doctype_end(s, past(s, ">"@, i + 1), DoctypePart::Subset, subset)
            } else if crate::text::occurs_at(s, "<?"@, i) {
                doctype_end(s, past(s, "?>"@, i + 2), DoctypePart::Subset, subset)
            } else if crate::text::occurs_at(s, "<!--"@, i) {
                if past(s, "->"@, i + 4) == past(s, "-->"@, i + 4) {
                    doctype_end(s, past(s, "-->"@, i + 4), DoctypePart::Subset, subset)
                } else {
                    None
                }
            } else if s[i] == '<' {
                None
            } else {
                doctype_end(s, i + 1, DoctypePart::Subset, subset)
            },
            DoctypePart::Tail => if s[i] == '>' {
                Some(i + 1)
            } else if crate::text::is_white(s[i]) {
                doctype_end(s, i + 1, DoctypePart::Tail, subset)
            } else {
                None
            },
        }
    }
}

/// White space, as markup has it.
pub open spec fn is_space(c: char) -> bool {
    c == ' ' || c == '\t' || c == '\n' || c == '\r'
}

/// The end of the name that stands at `i`, in a tag whose inside ends at `stop`: the first space.
pub open spec fn name_end(s: Seq<char>, i: int, stop: int) -> int
    decreases stop - i,
{
    if i >= stop || is_space(s[i]) {
        i
    } else {
        name_end(s, i + 1, stop)
    }
}

/// The name that stands at `i`, in a tag whose inside ends at `stop`.
pub open spec fn name_from(s: Seq<char>, i: int, stop: int) -> Seq<char> {
    s.subrange(i, name_end(s, i, stop))
}

/// The tag that ends just before `e` closes itself.
pub open spec fn closes_itself(s: Seq<char>, e: int) -> bool {
    e >= 2 && s[e - 2] == '/'
}

/// The name of the tag that opens at `i` and ends just before `e`.
pub open spec fn tag_name(s: Seq<char>, i: int, e: int) -> Seq<char> {
    name_from(
        s,
        i + 1,
        if closes_itself(s, e) {
            e - 2
        } else {
            e - 1
        },
    )
}

/// Where the quoted value begins that is given to the attribute whose name ends at `i`: at its quote.
pub open spec fn value_at(s: Seq<char>, i: int) -> Option<int> {
    let a = white_end(s, i);
    let b = white_end(s, a + 1);
    if a < s.len() && s[a] == '=' && b < s.len() && (s[b] == '"' || s[b] == '\'') {
        Some(b)
    } else {
        None
    }
}

/// Where the quoted value begins of the attribute that holds a time and whose name ends in what stands
/// at `k`.
pub open spec fn time_at(s: Seq<char>, k: int) -> Option<int> {
    if crate::text::occurs_at(s, "start"@, k) {
        value_at(s, k + 5)
    } else if crate::text::occurs_at(s, "end"@, k) {
        value_at(s, k + 3)
    } else if crate::text::occurs_at(s, "time"@, k) {
        value_at(s, k + 4)
    } else {
        None
    }
}

/// The first `c` at or after `i`, or the end of the text where there is none.
pub open spec fn next_of(s: Seq<char>, c: char, i: int) -> int
    decreases s.len() - i,
{
    if i >= s.len() {
        s.len() as int
    } else if s[i] == c {
        i
    } else {
        next_of(s, c, i + 1)
    }
}

/// How many ASCII digits the text has.
pub open spec fn digit_count(v: Seq<char>) -> nat
    decreases v.len(),
{
    if v.len() == 0 {
        0
    } else {
        digit_count(v.drop_last()) + (if crate::text::is_digit(v.last()) {
            1nat
        } else {
            0nat
        })
    }
}

/// The character is no digit but an ASCII one, whatever the document's encoding. `foreign` says that
/// the encoding is not known to be UTF-8.
pub open spec fn is_plain_char(c: char, foreign: bool) -> bool {
    ||| c < '\u{80}'
    ||| !foreign && c < '\u{10000}' && c != '\u{fffd}' && !is_numeric_char(c)
}

/// How many ASCII digits stand in a row just before `i`.
pub open spec fn digit_run(v: Seq<char>, i: int) -> nat
    decreases i,
{
    if i <= 0 || !crate::text::is_digit(v[i - 1]) {
        0
    } else {
        digit_run(v, i - 1) + 1
    }
}

/// The numbers in the text have few digits: those that stand in a row, or all of them where markup may
/// stand between digits of one number.
pub open spec fn has_short_numbers(v: Seq<char>) -> bool {
    ||| digit_count(v) <= MAX_TIME_DIGITS
    ||| !v.contains('<') && forall|i: int|
        0 <= i <= v.len() ==> #[trigger] digit_run(v, i) <= MAX_TIME_DIGITS
}

/// A time that can be read: with short numbers, of ASCII digits that stand for themselves.
pub open spec fn is_plain_time(v: Seq<char>, foreign: bool) -> bool {
    &&& has_short_numbers(v)
    &&& !crate::text::occurs(v, "&#"@)
    &&& forall|k: int| 0 <= k < v.len() ==> is_plain_char(#[trigger] v[k], foreign)
}

/// The time in the attribute whose name ends in what stands at `k`, if it is one that holds a time,
/// can be read.
pub open spec fn is_plain_attribute(s: Seq<char>, k: int, foreign: bool) -> bool {
    time_at(s, k) matches Some(b) ==> is_plain_time(
        s.subrange(b + 1, next_of(s, s[b], b + 1)),
        foreign,
    )
}

/// What to look at besides the nesting: nothing, or the times, in a document whose encoding is
/// foreign or not.
#[derive(Debug, Clone, Copy, PartialEq, Eq, Structural)]
pub enum Times {
    Unread,
    Read { foreign: bool },
}

/// The text of an element that holds a time, where one stands open from `open` to `i`, can be read.
pub open spec fn closes_plainly(s: Seq<char>, open: Option<int>, i: int, times: Times) -> bool {
    match (open, times) {
        (Some(a), Times::Read { foreign }) => is_plain_time(s.subrange(a, i), foreign),
        _ => true,
    }
}

/// The tag that opens at `i` and ends just before `e` has times that can be read, where they are read.
pub open spec fn opens_plainly(s: Seq<char>, i: int, e: int, times: Times) -> bool {
    match times {
        Times::Unread => true,
        Times::Read { foreign } => {
            crate::discover::has_suffix(tag_name(s, i, e), "text"@) || crate::discover::has_suffix(
                tag_name(s, i, e),
                "thumbnail"@,
            ) ==> forall|k: int| i <= k < e ==> #[trigger] is_plain_attribute(s, k, foreign)
        },
    }
}

/// Where the text of an element that holds a time begins, if the tag from `i` to `e` opens one.
pub open spec fn time_opened(s: Seq<char>, i: int, e: int, times: Times) -> Option<int> {
    if times is Read && crate::discover::has_suffix(tag_name(s, i, e), "duration"@) {
        Some(e)
    } else {
        None
    }
}

/// An element of that name is read by recursion: any where times are not looked at, else those whose
/// like may stand within them in a feed.
pub open spec fn is_recursive(name: Seq<char>, times: Times) -> bool {
    ||| times is Unread
    ||| crate::discover::has_suffix(name, "content"@)
    ||| crate::discover::has_suffix(name, "category"@)
}

/// How many of the open elements are read by recursion.
pub open spec fn nesting(names: Seq<Seq<char>>, times: Times) -> nat
    decreases names.len(),
{
    if names.len() == 0 {
        0
    } else {
        nesting(names.drop_last(), times) + (if is_recursive(names.last(), times) {
            1nat
        } else {
            0nat
        })
    }
}

/// The elements that are open after an end tag. Where times are not looked at, it must close the
/// innermost one.
pub open spec fn after_end(names: Seq<Seq<char>>, name: Seq<char>, times: Times) -> Option<Seq<Seq<char>>> {
    if names.len() > 0 && (times is Read || names.last() == name) {
        Some(names.drop_last())
    } else if times is Read {
        Some(names)
    } else {
        None
    }
}

/// The document can be read from `i` on: its elements do not nest too deeply, and its times, where they
/// are looked at, can be read. `names` are those of the open elements, outermost first, and `open` is
/// where the text of an element that holds a time began, if one stands open. Comments, instructions and
/// unparsed sections hold no elements.
pub open spec fn is_tame_from(
    s: Seq<char>,
    i: int,
    names: Seq<Seq<char>>,
    open: Option<int>,
    times: Times,
) -> bool
    decreases s.len() - i,
{
    if i >= s.len() {
        closes_plainly(s, open, s.len() as int, times)
    } else {
        proof {
            lemma_past(s, "-->"@, i + 4);
            lemma_past(s, "]]>"@, i + 3);
            lemma_past(s, "?>"@, i + 1);
            lemma_tag_end(s, i + 1, None);
            lemma_doctype_end(s, i + 2, DoctypePart::Head, times is Read);
        }
        if s[i] != '<' {
            is_tame_from(s, i + 1, names, open, times)
        } else if crate::text::occurs_at(s, "<!-"@, i) {
            is_tame_from(s, past(s, "-->"@, i + 4), names, open, times)
        } else if crate::text::occurs_at(s, "<!["@, i) {
            is_tame_from(s, past(s, "]]>"@, i + 3), names, open, times)
        } else if crate::text::occurs_at(s, "<?"@, i) {
            is_tame_from(s, past(s, "?>"@, i + 1), names, open, times)
        } else if crate::text::occurs_at(s, "<!D"@, i) || crate::text::occurs_at(s, "<!d"@, i) {
            match doctype_end(s, i + 2, DoctypePart::Head, times is Read) {
                Some(e) => is_tame_from(s, e, names, open, times),
                None => false,
            }
        } else if crate::text::occurs_at(s, "<!"@, i) {
            false
        } else {
            let e = tag_end(s, i + 1, None);
            closes_plainly(s, open, i, times) && if crate::text::occurs_at(s, "</"@, i) {
                match after_end(names, name_from(s, i + 2, e - 1), times) {
                    Some(left) => is_tame_from(s, e, left, None, times),
                    None => false,
                }
            } else {
                opens_plainly(s, i, e, times) && if closes_itself(s, e) {
                    is_tame_from(s, e, names, None, times)
                } else {
                    let within = names.push(tag_name(s, i, e));
                    within.len() <= MAX_OPEN && nesting(within, times) <= MAX_NESTING
                        && is_tame_from(s, e, within, time_opened(s, i, e, times), times)
                }
            }
        }
    }
}

/// What comes past a mark lies further on, within the text.
pub proof fn lemma_past(s: Seq<char>, mark: Seq<char>, i: int)
    ensures
        past(s, mark, i) <= s.len(),
        past(s, mark, i) >= i || past(s, mark, i) == s.len(),
    decreases s.len() - i,
{
    if i < s.len() && !crate::text::occurs_at(s, mark, i) {
        lemma_past(s, mark, i + 1);
    }
}

/// What comes past a tag lies further on, within the text.
pub proof fn lemma_tag_end(s: Seq<char>, i: int, quote: Option<char>)
    ensures
        tag_end(s, i, quote) <= s.len(),
        tag_end(s, i, quote) > i || tag_end(s, i, quote) == s.len(),
    decreases s.len() - i,
{
    if i < s.len() {
        let next = match quote {
            Some(q) => if s[i] == q {
                None
            } else {
                quote
            },
            None => if s[i] == '"' || s[i] == '\'' {
                Some(s[i])
            } else {
                None
            },
        };
        lemma_tag_end(s, i + 1, next);
    }
}

/// What comes past a document type declaration lies further on, within the text.
pub proof fn lemma_doctype_end(s: Seq<char>, i: int, part: DoctypePart, subset: bool)
    ensures
        doctype_end(s, i, part, subset) matches Some(e) ==> e <= s.len() && (e > i || e == s.len()),
    decreases s.len() - i,
{
    if i < s.len() {
        lemma_past(s, seq![s[i]], i + 1);
        lemma_past(s, "-->"@, i + 4);
        lemma_past(s, "?>"@, i + 2);
        lemma_past(s, ">"@, i + 1);
        lemma_tag_end(s, i + 1, None);
        lemma_doctype_end(s, i + 1, DoctypePart::Head, subset);
        lemma_doctype_end(s, i + 1, DoctypePart::Subset, subset);
        lemma_doctype_end(s, i + 1, DoctypePart::Tail, subset);
        lemma_doctype_end(s, past(s, seq![s[i]], i + 1), DoctypePart::Head, subset);
        lemma_doctype_end(s, tag_end(s, i + 1, None), DoctypePart::Subset, subset);
        lemma_doctype_end(s, past(s, ">"@, i + 1), DoctypePart::Subset, subset);
        lemma_doctype_end(s, past(s, "?>"@, i + 2), DoctypePart::Subset, subset);
        lemma_doctype_end(s, past(s, "-->"@, i + 4), DoctypePart::Subset, subset);
    }
}

fn find_past(v: &Vec<char>, mark: &str, from: usize) -> (r: usize)
    ensures
        r == past(v@, mark@, from as int),
{
    let w = chars_of(mark);
    let mut i: usize = from;
    while i < v.len()
        invariant
            w@ == mark@,
            past(v@, mark@, i as int) == past(v@, mark@, from as int),
        decreases v@.len() - i,
    {
        if is_at(v, &w, i) {
            return i + w.len();
        }
        i = i + 1;
    }
    v.len()
}

fn find_tag_end(v: &Vec<char>, from: usize) -> (r: usize)
    ensures
        r == tag_end(v@, from as int, None),
{
    let mut quote: Option<char> = None;
    let mut i: usize = from;
    while i < v.len()
        invariant
            tag_end(v@, i as int, quote) == tag_end(v@, from as int, None),
        decreases v@.len() - i,
    {
        let c = v[i];
        match quote {
            Some(q) => if c == q {
                quote = None;
            },
            None => if c == '>' {
                return i + 1;
            } else if c == '"' || c == '\'' {
                quote = Some(c);
            },
        }
        i = i + 1;
    }
    v.len()
}

/// Whether a mark stands at `i`.
pub(crate) fn stands_at(v: &Vec<char>, mark: &str, i: usize) -> (r: bool)
    ensures
        r == crate::text::occurs_at(v@, mark@, i as int),
{
    is_at(v, &chars_of(mark), i)
}

fn find_doctype_end(v: &Vec<char>, from: usize, subset: bool) -> (r: Option<usize>)
    ensures
        match r {
            Some(e) => doctype_end(v@, from as int, DoctypePart::Head, subset) == Some(e as int),
            None => doctype_end(v@, from as int, DoctypePart::Head, subset) is None,
        },
{
    let mut part = DoctypePart::Head;
    let mut i: usize = from;
    while i < v.len()
        invariant
            doctype_end(v@, i as int, part, subset) == doctype_end(
                v@,
                from as int,
                DoctypePart::Head,
                subset,
            ),
        decreases v@.len() - i,
    {
        let c = v[i];
        proof {
            lemma_past(v@, seq![c], i + 1);
            lemma_past(v@, "-->"@, i + 4);
            lemma_past(v@, "?>"@, i + 2);
            lemma_past(v@, ">"@, i + 1);
            lemma_tag_end(v@, i + 1, None);
            reveal_strlit("\"");
            reveal_strlit("'");
            assert("\""@ =~= seq!['"']);
            assert("'"@ =~= seq!['\'']);
        }
        match part {
            DoctypePart::Head => if c == '>' {
                return Some(i + 1);
            } else if c == '[' {
                if !subset {
                    return None;
                }
                part = DoctypePart::Subset;
                i = i + 1;
            } else if c == '"' {
                i = find_past(v, "\"", i + 1);
            } else if c == '\'' {
                i = find_past(v, "'", i + 1);
            } else {
                i = i + 1;
            },
            DoctypePart::Subset => if c == ']' {
                part = DoctypePart::Tail;
                i = i + 1;
            } else if stands_at(v, "<!ENTITY", i) || stands_at(v, "<!ATTLIST", i) || stands_at(
                v,
                "<!NOTATION",
                i,
            ) {
                i = find_tag_end(v, i + 1);
            } else if stands_at(v, "<!ELEMENT", i) {
                i = find_past(v, ">", i + 1);
            } else if stands_at(v, "<?", i) {
                i = past_or_end(v, "?>", i, 2);
            } else if stands_at(v, "<!--", i) {
                let e = past_or_end(v, "-->", i, 4);
                if past_or_end(v, "->", i, 4) != e {
                    return None;
                }
                i = e;
            } else if c == '<' {
                return None;
            } else {
                i = i + 1;
            },
            DoctypePart::Tail => if c == '>' {
                return Some(i + 1);
            } else if c.is_whitespace() {
                i = i + 1;
            } else {
                return None;
            },
        }
    }
    Some(v.len())
}

fn name_between(v: &Vec<char>, from: usize, stop: usize) -> (r: String)
    requires
        from <= v@.len(),
        stop <= v@.len(),
    ensures
        r@ == name_from(v@, from as int, stop as int),
{
    let mut e: usize = from;
    while e < stop && !(v[e] == ' ' || v[e] == '\t' || v[e] == '\n' || v[e] == '\r')
        invariant
            from <= e <= v@.len(),
            stop <= v@.len(),
            name_end(v@, e as int, stop as int) == name_end(v@, from as int, stop as int),
        decreases stop - e,
    {
        e = e + 1;
    }
    text_of(v, from, e)
}

fn is_closed(v: &Vec<char>, e: usize) -> (r: bool)
    requires
        e <= v@.len(),
    ensures
        r == closes_itself(v@, e as int),
{
    e >= 2 && v[e - 2] == '/'
}

fn name_at(v: &Vec<char>, i: usize, e: usize) -> (r: String)
    requires
        i < e <= v@.len(),
    ensures
        r@ == tag_name(v@, i as int, e as int),
{
    name_between(
        v,
        i + 1,
        if is_closed(v, e) {
            e - 2
        } else {
            e - 1
        },
    )
}

/// Where the quoted value begins that is given to the attribute whose name ends at `i`.
fn find_value(v: &Vec<char>, i: usize) -> (r: Option<usize>)
    requires
        i <= v@.len(),
    ensures
        match r {
            Some(b) => b < v@.len() && value_at(v@, i as int) == Some(b as int),
            None => value_at(v@, i as int) is None,
        },
{
    let a = skip_white(v, i);
    if a >= v.len() || v[a] != '=' {
        return None;
    }
    let b = skip_white(v, a + 1);
    if b >= v.len() || !(v[b] == '"' || v[b] == '\'') {
        return None;
    }
    Some(b)
}

fn find_time(v: &Vec<char>, k: usize) -> (r: Option<usize>)
    ensures
        match r {
            Some(b) => b < v@.len() && time_at(v@, k as int) == Some(b as int),
            None => time_at(v@, k as int) is None,
        },
{
    proof {
        reveal_strlit("start");
        reveal_strlit("end");
        reveal_strlit("time");
    }
    if stands_at(v, "start", k) {
        assert(k + 5 <= v.len());
        find_value(v, k + 5)
    } else if stands_at(v, "end", k) {
        assert(k + 3 <= v.len());
        find_value(v, k + 3)
    } else if stands_at(v, "time", k) {
        assert(k + 4 <= v.len());
        find_value(v, k + 4)
    } else {
        None
    }
}

fn is_time(t: &str, foreign: bool) -> (r: bool)
    ensures
        r == is_plain_time(t@, foreign),
{
    let v = chars_of(t);
    let mut digits: usize = 0;
    let mut run: usize = 0;
    let mut short = true;
    let mut i: usize = 0;
    assert(v@.take(0) =~= Seq::empty());
    while i < v.len()
        invariant
            v@ == t@,
            i <= v@.len(),
            digits <= i,
            run <= i,
            digits == digit_count(v@.take(i as int)),
            run == digit_run(v@, i as int),
            short == (forall|k: int| 0 <= k <= i ==> #[trigger] digit_run(v@, k) <= MAX_TIME_DIGITS),
            forall|k: int| 0 <= k < i ==> is_plain_char(#[trigger] v@[k], foreign),
        decreases v@.len() - i,
    {
        let c = v[i];
        proof {
            assert(v@.take(i + 1).drop_last() =~= v@.take(i as int));
            assert(v@.take(i + 1).last() == c);
        }
        let plain = c < '\u{80}' || (!foreign && c < '\u{10000}' && c != '\u{fffd}' && !c.is_numeric());
        if !plain {
            assert(!is_plain_char(v@[i as int], foreign));
            return false;
        }
        if '0' <= c && c <= '9' {
            digits = digits + 1;
            run = run + 1;
        } else {
            run = 0;
        }
        assert(digit_run(v@, i + 1) == run);
        proof {
            if !short {
                let k = choose|k: int| 0 <= k <= i && digit_run(v@, k) > MAX_TIME_DIGITS;
                assert(digit_run(v@, k) > MAX_TIME_DIGITS);
            }
        }
        if run > MAX_TIME_DIGITS {
            short = false;
        }
        i = i + 1;
    }
    assert(v@.take(i as int) =~= v@);
    (digits <= MAX_TIME_DIGITS || (short && !has_char(&v, '<'))) && !contains(t, "&#")
}

fn find_char(v: &Vec<char>, c: char, from: usize) -> (r: usize)
    requires
        from <= v@.len(),
    ensures
        from <= r <= v@.len(),
        r == next_of(v@, c, from as int),
{
    let mut i: usize = from;
    while i < v.len() && v[i] != c
        invariant
            from <= i <= v@.len(),
            next_of(v@, c, i as int) == next_of(v@, c, from as int),
        decreases v@.len() - i,
    {
        i = i + 1;
    }
    i
}

fn attribute_is_plain(v: &Vec<char>, k: usize, foreign: bool) -> (r: bool)
    ensures
        r == is_plain_attribute(v@, k as int, foreign),
{
    match find_time(v, k) {
        Some(b) => {
            assert(b < v.len());
            let e = find_char(v, v[b], b + 1);
            is_time(text_of(v, b + 1, e).as_str(), foreign)
        },
        None => true,
    }
}

fn time_is_plain(v: &Vec<char>, open: Option<usize>, i: usize, times: Times) -> (r: bool)
    requires
        i <= v@.len(),
        open matches Some(a) ==> a <= i,
    ensures
        r == closes_plainly(
            v@,
            match open {
                Some(a) => Some(a as int),
                None => None,
            },
            i as int,
            times,
        ),
{
    match (open, times) {
        (Some(a), Times::Read { foreign }) => is_time(text_of(v, a, i).as_str(), foreign),
        _ => true,
    }
}

fn attributes_are_plain(v: &Vec<char>, i: usize, e: usize, foreign: bool) -> (r: bool)
    requires
        i <= e <= v@.len(),
    ensures
        r == (forall|k: int| i <= k < e ==> #[trigger] is_plain_attribute(v@, k, foreign)),
{
    let mut k: usize = i;
    while k < e
        invariant
            i <= k <= e,
            forall|j: int| i <= j < k ==> #[trigger] is_plain_attribute(v@, j, foreign),
        decreases e - k,
    {
        if !attribute_is_plain(v, k, foreign) {
            return false;
        }
        k = k + 1;
    }
    true
}

fn tag_is_plain(v: &Vec<char>, i: usize, e: usize, times: Times) -> (r: bool)
    requires
        i < e <= v@.len(),
    ensures
        r == opens_plainly(v@, i as int, e as int, times),
{
    match times {
        Times::Unread => true,
        Times::Read { foreign } => {
            let name = name_at(v, i, e);
            if ends_with(name.as_str(), "text") || ends_with(name.as_str(), "thumbnail") {
                attributes_are_plain(v, i, e, foreign)
            } else {
                true
            }
        },
    }
}

fn time_opens(v: &Vec<char>, i: usize, e: usize, times: Times) -> (r: Option<usize>)
    requires
        i < e <= v@.len(),
    ensures
        time_opened(v@, i as int, e as int, times) == (match r {
            Some(a) => Some(a as int),
            None => None,
        }),
        r matches Some(a) ==> a == e,
{
    match times {
        Times::Unread => None,
        Times::Read { foreign: _ } => if ends_with(name_at(v, i, e).as_str(), "duration") {
            Some(e)
        } else {
            None
        },
    }
}

fn nests(name: &str, times: Times) -> (r: bool)
    ensures
        r == is_recursive(name@, times),
{
    match times {
        Times::Unread => true,
        Times::Read { foreign: _ } => ends_with(name, "content") || ends_with(name, "category"),
    }
}

/// Takes an end tag's element off the open ones, and says whether the tag may stand there.
fn close(names: &mut Vec<String>, depth: usize, name: &str, times: Times) -> (r: Option<usize>)
    requires
        depth == nesting(old(names).deep_view(), times),
    ensures
        match r {
            Some(d) => {
                &&& after_end(old(names).deep_view(), name@, times) == Some(final(names).deep_view())
                &&& d == nesting(final(names).deep_view(), times)
                &&& d <= depth
            },
            None => after_end(old(names).deep_view(), name@, times) is None,
        },
        final(names)@.len() <= old(names)@.len(),
{
    let ghost before = names.deep_view();
    match names.pop() {
        Some(last) => {
            assert(names.deep_view() =~= before.drop_last());
            assert(before.last() == last@);
            let closes = match times {
                Times::Unread => same(last.as_str(), name),
                Times::Read { foreign: _ } => true,
            };
            if !closes {
                return None;
            }
            Some(
                if nests(last.as_str(), times) {
                    depth - 1
                } else {
                    depth
                },
            )
        },
        None => {
            assert(names.deep_view() =~= before);
            match times {
                Times::Unread => None,
                Times::Read { foreign: _ } => Some(depth),
            }
        },
    }
}

/// Whether the document can be read: its elements do not nest too deeply, and its times, where they
/// are looked at, can be read.
pub fn is_tame(v: &Vec<char>, times: Times) -> (r: bool)
    ensures
        r == is_tame_from(v@, 0, Seq::empty(), None, times),
{
    let mut names: Vec<String> = Vec::new();
    let mut depth: usize = 0;
    let mut open: Option<usize> = None;
    let mut i: usize = 0;
    assert(names.deep_view() =~= Seq::<Seq<char>>::empty());
    while i < v.len()
        invariant
            i <= v@.len(),
            depth == nesting(names.deep_view(), times),
            depth <= MAX_NESTING,
            names@.len() <= MAX_OPEN,
            open matches Some(a) ==> a <= i,
            is_tame_from(v@, 0, Seq::empty(), None, times) == is_tame_from(
                v@,
                i as int,
                names.deep_view(),
                match open {
                    Some(a) => Some(a as int),
                    None => None,
                },
                times,
            ),
        decreases v@.len() - i,
    {
        proof {
            lemma_past(v@, "-->"@, i + 4);
            lemma_past(v@, "]]>"@, i + 3);
            lemma_past(v@, "?>"@, i + 1);
            lemma_tag_end(v@, i + 1, None);
            lemma_doctype_end(v@, i + 2, DoctypePart::Head, times is Read);
            reveal_strlit("<!-");
            reveal_strlit("<![");
            reveal_strlit("<?");
            reveal_strlit("<!D");
            reveal_strlit("<!d");
            reveal_strlit("<!");
            reveal_strlit("</");
        }
        let subset = match times {
            Times::Unread => false,
            Times::Read { foreign: _ } => true,
        };
        if v[i] != '<' {
            i = i + 1;
        } else if stands_at(v, "<!-", i) {
            i = past_or_end(v, "-->", i, 4);
        } else if stands_at(v, "<![", i) {
            i = past_or_end(v, "]]>", i, 3);
        } else if stands_at(v, "<?", i) {
            i = past_or_end(v, "?>", i, 1);
        } else if stands_at(v, "<!D", i) || stands_at(v, "<!d", i) {
            match find_doctype_end(v, i + 2, subset) {
                Some(e) => {
                    i = e;
                },
                None => {
                    return false;
                },
            }
        } else if stands_at(v, "<!", i) {
            return false;
        } else {
            if !time_is_plain(v, open, i, times) {
                return false;
            }
            let e = find_tag_end(v, i + 1);
            if stands_at(v, "</", i) {
                let name = name_between(v, i + 2, e - 1);
                match close(&mut names, depth, name.as_str(), times) {
                    Some(d) => {
                        depth = d;
                    },
                    None => {
                        return false;
                    },
                }
                open = None;
            } else {
                if !tag_is_plain(v, i, e, times) {
                    return false;
                }
                if is_closed(v, e) {
                    open = None;
                } else {
                    let name = name_at(v, i, e);
                    let deeper: usize = if nests(name.as_str(), times) {
                        depth + 1
                    } else {
                        depth
                    };
                    let ghost before = names.deep_view();
                    let ghost within = before.push(name@);
                    proof {
                        assert(within.drop_last() =~= before);
                        assert(within.last() == name@);
                    }
                    if names.len() >= MAX_OPEN || deeper > MAX_NESTING {
                        return false;
                    }
                    names.push(name);
                    assert(names.deep_view() =~= within);
                    depth = deeper;
                    open = time_opens(v, i, e, times);
                }
            }
            i = e;
        }
    }
    time_is_plain(v, open, v.len(), times)
}

/// Just past the first `mark` that begins `skip` characters after `i` or later.
fn past_or_end(v: &Vec<char>, mark: &str, i: usize, skip: usize) -> (r: usize)
    requires
        i < v.len(),
    ensures
        r == past(v@, mark@, i + skip),
{
    if v.len() - i <= skip {
        v.len()
    } else {
        find_past(v, mark, i + skip)
    }
}

/// The end of the white space that stands at `i`.
pub open spec fn white_end(s: Seq<char>, i: int) -> int
    decreases s.len() - i,
{
    if i < s.len() && crate::text::is_white(s[i]) {
        white_end(s, i + 1)
    } else {
        i
    }
}

/// An encoding other than UTF-8 is named here.
pub open spec fn names_encoding(s: Seq<char>, i: int) -> bool {
    crate::text::occurs_at(s, "encoding"@, i) && (value_at(s, i + 8) matches Some(b) && !(b + 7
        <= s.len() && s[b + 6] == s[b] && crate::text::ascii_lowercase(s.subrange(b + 1, b + 6))
        == "utf-8"@))
}

/// The document begins like one whose characters take two bytes each.
pub open spec fn begins_wide(s: Seq<char>) -> bool {
    ||| s.len() > 0 && (s[0] == '\0' || s[0] == '\u{fffd}')
    ||| s.len() > 1 && s[1] == '\0'
}

/// The document may be in another encoding than UTF-8.
pub open spec fn is_foreign(s: Seq<char>) -> bool {
    begins_wide(s) || exists|i: int| 0 <= i < s.len() && #[trigger] names_encoding(s, i)
}

/// The end of the white space that stands at `from`.
pub(crate) fn skip_white(v: &Vec<char>, from: usize) -> (r: usize)
    requires
        from <= v@.len(),
    ensures
        r == white_end(v@, from as int),
        from <= r <= v@.len(),
{
    let mut i: usize = from;
    while i < v.len() && v[i].is_whitespace()
        invariant
            from <= i <= v@.len(),
            white_end(v@, i as int) == white_end(v@, from as int),
        decreases v@.len() - i,
    {
        i = i + 1;
    }
    i
}

fn encoding_is_named(v: &Vec<char>, i: usize) -> (r: bool)
    ensures
        r == names_encoding(v@, i as int),
{
    if !stands_at(v, "encoding", i) {
        return false;
    }
    proof {
        reveal_strlit("encoding");
        assert(i + 8 <= v.len());
    }
    let b = match find_value(v, i + 8) {
        Some(b) => b,
        None => {
            return false;
        },
    };
    if v.len() - b < 7 || v[b + 6] != v[b] {
        return true;
    }
    !same(to_ascii_lowercase(text_of(v, b + 1, b + 6).as_str()).as_str(), "utf-8")
}

fn may_be_foreign(v: &Vec<char>) -> (r: bool)
    ensures
        r == is_foreign(v@),
{
    if v.len() > 0 && (v[0] == '\0' || v[0] == '\u{fffd}') || v.len() > 1 && v[1] == '\0' {
        return true;
    }
    let mut i: usize = 0;
    while i < v.len()
        invariant
            i <= v@.len(),
            !begins_wide(v@),
            forall|k: int| 0 <= k < i ==> !#[trigger] names_encoding(v@, k),
        decreases v@.len() - i,
    {
        if encoding_is_named(v, i) {
            return true;
        }
        i = i + 1;
    }
    false
}

/// The document is a JSON one: of `<` and `{`, the first is `{`.
pub open spec fn is_json_like(s: Seq<char>, i: int) -> bool
    decreases s.len() - i,
{
    if i >= s.len() || s[i] == '<' {
        false
    } else {
        s[i] == '{' || is_json_like(s, i + 1)
    }
}

/// The document can be read as a feed. Where it is markup, it holds no null or escape character in a
/// foreign encoding, its elements do not nest too deeply, and its times can be read.
pub open spec fn is_readable(s: Seq<char>) -> bool {
    ||| is_json_like(s, 0)
    ||| {
        &&& is_foreign(s) ==> !s.contains('\0') && !s.contains('\u{1b}')
        &&& is_tame_from(s, 0, Seq::empty(), None, Times::Read { foreign: is_foreign(s) })
    }
}

fn has_char(v: &Vec<char>, c: char) -> (r: bool)
    ensures
        r == v@.contains(c),
{
    let mut i: usize = 0;
    while i < v.len()
        invariant
            i <= v@.len(),
            forall|k: int| 0 <= k < i ==> v@[k] != c,
        decreases v@.len() - i,
    {
        if v[i] == c {
            return true;
        }
        i = i + 1;
    }
    false
}

/// Whether the document can be read as a feed.
pub fn can_be_read(text: &str) -> (r: bool)
    ensures
        r == is_readable(text@),
{
    let v = chars_of(text);
    let mut i: usize = 0;
    while i < v.len() && v[i] != '<' && v[i] != '{'
        invariant
            v@ == text@,
            i <= v@.len(),
            is_json_like(v@, 0) == is_json_like(v@, i as int),
        decreases v@.len() - i,
    {
        i = i + 1;
    }
    if i < v.len() && v[i] == '{' {
        return true;
    }
    let foreign = may_be_foreign(&v);
    !(foreign && (has_char(&v, '\0') || has_char(&v, '\u{1b}'))) && is_tame(
        &v,
        Times::Read { foreign },
    )
}

} // verus!
