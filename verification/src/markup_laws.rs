//! Which documents and pages are read: the laws of what is kept from the readers of markup.

use vstd::prelude::*;
use vstd::string::*;

use crate::joiner::{reference, stand_in};
use crate::layout::{is_renderable, opened};
use crate::markup::{
    digit_count, is_readable, is_tame_from, nesting, next_of, past, tag_end, time_at, Times,
};
use crate::text::{occurs, occurs_at};

verus! {

/// How many `<` stand at `i` or after it.
pub open spec fn marks_from(s: Seq<char>, i: int) -> nat
    decreases s.len() - i,
{
    if i >= s.len() {
        0
    } else {
        marks_from(s, i + 1) + (if s[i] == '<' {
            1nat
        } else {
            0nat
        })
    }
}

proof fn lemma_fewer_marks(s: Seq<char>, i: int, j: int)
    requires
        0 <= i <= j,
    ensures
        marks_from(s, j) <= marks_from(s, i),
        i < j && i < s.len() && s[i] == '<' ==> marks_from(s, j) + 1 <= marks_from(s, i),
    decreases j - i,
{
    if i < j {
        if i < s.len() {
            lemma_fewer_marks(s, i + 1, j);
        } else {
            assert(marks_from(s, j) == 0);
        }
    }
}

proof fn lemma_digits_within(s: Seq<char>, a: int, b: int)
    requires
        0 <= a <= b <= s.len(),
    ensures
        digit_count(s.subrange(a, b)) <= digit_count(s),
    decreases s.len() + (b - a),
{
    let v = s.subrange(a, b);
    if s.len() == 0 || a == b {
    } else if b < s.len() {
        assert(s.drop_last().subrange(a, b) =~= v);
        lemma_digits_within(s.drop_last(), a, b);
    } else {
        assert(v.drop_last() =~= s.drop_last().subrange(a, b - 1));
        assert(v.last() == s.last());
        lemma_digits_within(s.drop_last(), a, b - 1);
    }
}

/// A document of simple means: ASCII without control characters that switch encodings, without
/// declarations and numeric references, with no more digits than a time may have and no more tags than
/// elements may nest.
pub open spec fn is_simple(s: Seq<char>) -> bool {
    &&& forall|k: int| 0 <= k < s.len() ==> #[trigger] s[k] < '\u{80}'
    &&& !s.contains('\0')
    &&& !s.contains('\u{1b}')
    &&& !occurs(s, "<!"@)
    &&& !occurs(s, "&#"@)
    &&& digit_count(s) <= 15
    &&& marks_from(s, 0) <= 128
}

proof fn lemma_simple_times(s: Seq<char>, a: int, b: int, foreign: bool)
    requires
        is_simple(s),
        0 <= a <= b <= s.len(),
    ensures
        crate::markup::is_plain_time(s.subrange(a, b), foreign),
{
    let v = s.subrange(a, b);
    lemma_digits_within(s, a, b);
    if occurs(v, "&#"@) {
        reveal_strlit("&#");
        let i = choose|i: int| occurs_at(v, "&#"@, i);
        assert(s.subrange(a + i, a + i + 2) =~= v.subrange(i, i + 2));
        assert(occurs_at(s, "&#"@, a + i));
    }
    assert forall|k: int| 0 <= k < v.len() implies crate::markup::is_plain_char(
        #[trigger] v[k],
        foreign,
    ) by {
        assert(v[k] == s[a + k]);
    }
}

proof fn lemma_next_of(s: Seq<char>, c: char, i: int)
    requires
        0 <= i,
    ensures
        next_of(s, c, i) <= s.len(),
        i <= s.len() ==> i <= next_of(s, c, i),
    decreases s.len() - i,
{
    if i < s.len() && s[i] != c {
        lemma_next_of(s, c, i + 1);
    }
}

proof fn lemma_white_end(s: Seq<char>, i: int)
    ensures
        crate::markup::white_end(s, i) >= i,
    decreases s.len() - i,
{
    if i < s.len() && crate::text::is_white(s[i]) {
        lemma_white_end(s, i + 1);
    }
}

proof fn lemma_nesting_is_less(names: Seq<Seq<char>>, times: Times)
    ensures
        nesting(names, times) <= names.len(),
    decreases names.len(),
{
    if names.len() > 0 {
        lemma_nesting_is_less(names.drop_last(), times);
    }
}

proof fn lemma_simple_from(
    s: Seq<char>,
    i: int,
    names: Seq<Seq<char>>,
    open: Option<int>,
    foreign: bool,
)
    requires
        is_simple(s),
        0 <= i,
        names.len() + marks_from(s, i) <= 128,
        open matches Some(a) ==> 0 <= a <= i && a <= s.len(),
    ensures
        is_tame_from(s, i, names, open, Times::Read { foreign }),
    decreases s.len() - i,
{
    let times = Times::Read { foreign };
    if i >= s.len() {
        if let Some(a) = open {
            lemma_simple_times(s, a, s.len() as int, foreign);
        }
    } else if s[i] != '<' {
        lemma_fewer_marks(s, i, i + 1);
        lemma_simple_from(s, i + 1, names, open, foreign);
    } else {
        reveal_strlit("<!");
        reveal_strlit("<!-");
        reveal_strlit("<![");
        reveal_strlit("<!D");
        reveal_strlit("<!d");
        assert(!occurs_at(s, "<!"@, i));
        if occurs_at(s, "<!-"@, i) {
            assert(s.subrange(i, i + 2) =~= s.subrange(i, i + 3).take(2));
            assert("<!-"@.take(2) =~= "<!"@);
        }
        if occurs_at(s, "<!["@, i) {
            assert(s.subrange(i, i + 2) =~= s.subrange(i, i + 3).take(2));
            assert("<!["@.take(2) =~= "<!"@);
        }
        if occurs_at(s, "<!D"@, i) {
            assert(s.subrange(i, i + 2) =~= s.subrange(i, i + 3).take(2));
            assert("<!D"@.take(2) =~= "<!"@);
        }
        if occurs_at(s, "<!d"@, i) {
            assert(s.subrange(i, i + 2) =~= s.subrange(i, i + 3).take(2));
            assert("<!d"@.take(2) =~= "<!"@);
        }
        crate::markup::lemma_past(s, "?>"@, i + 1);
        crate::markup::lemma_tag_end(s, i + 1, None);
        let p = past(s, "?>"@, i + 1);
        let e = tag_end(s, i + 1, None);
        if occurs_at(s, "<?"@, i) {
            lemma_fewer_marks(s, i, p);
            lemma_simple_from(s, p, names, open, foreign);
        } else {
            if let Some(a) = open {
                lemma_simple_times(s, a, i, foreign);
            }
            lemma_fewer_marks(s, i, e);
            let name = crate::markup::name_from(s, i + 2, e - 1);
            if names.len() > 0 {
                lemma_simple_from(s, e, names.drop_last(), None, foreign);
            }
            lemma_simple_from(s, e, names, None, foreign);
            assert forall|k: int| i <= k < e implies #[trigger] crate::markup::is_plain_attribute(
                s,
                k,
                foreign,
            ) by {
                if let Some(b) = time_at(s, k) {
                    lemma_white_end(s, k + 3);
                    lemma_white_end(s, k + 4);
                    lemma_white_end(s, k + 5);
                    lemma_white_end(s, crate::markup::white_end(s, k + 3) + 1);
                    lemma_white_end(s, crate::markup::white_end(s, k + 4) + 1);
                    lemma_white_end(s, crate::markup::white_end(s, k + 5) + 1);
                    assert(0 <= b < s.len());
                    lemma_next_of(s, s[b], b + 1);
                    lemma_simple_times(s, b + 1, next_of(s, s[b], b + 1), foreign);
                }
            }
            let within = names.push(crate::markup::tag_name(s, i, e));
            lemma_nesting_is_less(within, times);
            let opened_at = crate::markup::time_opened(s, i, e, times);
            lemma_simple_from(s, e, within, opened_at, foreign);
        }
    }
}

/// Documents of simple means are read, whatever their tags are called and whether or not they match.
pub proof fn law_simple_documents_are_read(s: Seq<char>)
    requires
        is_simple(s),
    ensures
        is_readable(s),
{
    lemma_simple_from(s, 0, Seq::empty(), None, crate::markup::is_foreign(s));
}

/// A document whose first mark is a brace is taken for JSON and read, whatever follows.
pub proof fn law_json_documents_are_read(s: Seq<char>, k: int)
    requires
        0 <= k < s.len(),
        s[k] == '{',
        forall|j: int| 0 <= j < k ==> #[trigger] s[j] != '<',
    ensures
        is_readable(s),
{
    lemma_json_like(s, 0, k);
}

proof fn lemma_json_like(s: Seq<char>, i: int, k: int)
    requires
        0 <= i <= k < s.len(),
        s[k] == '{',
        forall|j: int| 0 <= j < k ==> #[trigger] s[j] != '<',
    ensures
        crate::markup::is_json_like(s, i),
    decreases k - i,
{
    if i < k {
        lemma_json_like(s, i + 1, k);
    }
}

proof fn lemma_opens_are_marks(s: Seq<char>, n: int)
    requires
        0 <= n <= s.len(),
    ensures
        opened(s, n) + marks_from(s, n) <= marks_from(s, 0),
    decreases n,
{
    if n > 0 {
        lemma_opens_are_marks(s, n - 1);
    }
}

/// A page is rendered that has no more tags than may be open, says nothing of where a list starts or of
/// spans, has no preformatted block, and neither references nor characters that join.
pub proof fn law_simple_pages_are_rendered(html: Seq<char>)
    requires
        forall|k: int| 0 <= k < html.len() ==> #[trigger] html[k] < '\u{80}' && html[k] != '&',
        ({
            let low = crate::text::ascii_lowercase(html);
            &&& !occurs(low, "start"@)
            &&& !occurs(low, "span"@)
            &&& !occurs(low, "<pre"@)
            &&& marks_from(low, 0) <= 2500
        }),
    ensures
        is_renderable(html),
{
    let low = crate::text::ascii_lowercase(html);
    reveal_strlit("&#");
    reveal_strlit("&zwj");
    reveal_strlit("span");
    reveal_strlit("rowspan");
    reveal_strlit("colspan");
    assert forall|i: int| 0 <= i < low.len() implies #[trigger] crate::layout::is_harmless(low, i) by {
        assert(html[i] < '\u{80}');
        assert(low[i] < '\u{80}' && low[i] != '&');
        assert(stand_in(low[i] as u32) is None);
        if occurs_at(low, "&#"@, i) {
            assert(low.subrange(i, i + 2)[0] == '&');
        }
        if occurs_at(low, "&zwj"@, i) {
            assert(low.subrange(i, i + 4)[0] == '&');
        }
        assert(reference(low, i) is None);
        assert(!occurs_at(low, "start"@, i));
        assert(!occurs_at(low, "<pre"@, i));
        if occurs_at(low, "rowspan"@, i) {
            assert(low.subrange(i + 3, i + 7) =~= low.subrange(i, i + 7).subrange(3, 7));
            assert("rowspan"@.subrange(3, 7) =~= "span"@);
            assert(occurs_at(low, "span"@, i + 3));
        }
        if occurs_at(low, "colspan"@, i) {
            assert(low.subrange(i + 3, i + 7) =~= low.subrange(i, i + 7).subrange(3, 7));
            assert("colspan"@.subrange(3, 7) =~= "span"@);
            assert(occurs_at(low, "span"@, i + 3));
        }
    }
    lemma_opens_are_marks(low, low.len() as int);
}

/// What opens after as many elements as may be open is not read, nor what would nest deeper than a
/// reader may go: a hundred and twenty-eight elements that are read by recursion, or ten thousand.
pub proof fn law_deep_documents_are_not_read(s: Seq<char>, i: int, names: Seq<Seq<char>>)
    requires
        0 <= i,
        i + 1 < s.len(),
        s[i] == '<',
        'a' <= s[i + 1] <= 'z',
        !crate::markup::closes_itself(s, tag_end(s, i + 1, None)),
        names.len() >= 128,
    ensures
        !is_tame_from(s, i, names, None, Times::Unread),
{
    reveal_strlit("<!-");
    reveal_strlit("<![");
    reveal_strlit("<!");
    reveal_strlit("<?");
    reveal_strlit("<!D");
    reveal_strlit("<!d");
    reveal_strlit("</");
    assert forall|t: Seq<char>| t.len() >= 2 && t[1] != s[i + 1] implies !#[trigger] occurs_at(s, t, i) by {
        if occurs_at(s, t, i) {
            assert(s.subrange(i, i + t.len())[1] == t[1]);
        }
    }
    assert(!occurs_at(s, "<!-"@, i));
    assert(!occurs_at(s, "<!["@, i));
    assert(!occurs_at(s, "<!"@, i));
    assert(!occurs_at(s, "<?"@, i));
    assert(!occurs_at(s, "<!D"@, i));
    assert(!occurs_at(s, "<!d"@, i));
    assert(!occurs_at(s, "</"@, i));
    let within = names.push(crate::markup::tag_name(s, i, tag_end(s, i + 1, None)));
    lemma_all_recursive(within);
}

proof fn lemma_all_recursive(names: Seq<Seq<char>>)
    ensures
        nesting(names, Times::Unread) == names.len(),
    decreases names.len(),
{
    if names.len() > 0 {
        lemma_all_recursive(names.drop_last());
    }
}

} // verus!
