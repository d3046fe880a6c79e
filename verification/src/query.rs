//! Local keyword filtering for feed items: case-insensitive substring matching with AND
//! semantics, quoted phrases, and `-` negation.

use vstd::prelude::*;
use vstd::string::*;

use crate::model::Item;
use crate::text::{chars_of, contains, text_of, to_lowercase, trim_bounds};

verus! {

/// How many characters stand before the first white space.
pub open spec fn word_len(s: Seq<char>) -> nat
    decreases s.len(),
{
    if s.len() > 0 && !crate::text::is_white(s[0]) {
        1 + word_len(s.skip(1))
    } else {
        0
    }
}

/// How many characters stand before the first `"`.
pub open spec fn phrase_len(s: Seq<char>) -> nat
    decreases s.len(),
{
    if s.len() > 0 && s[0] != '"' {
        1 + phrase_len(s.skip(1))
    } else {
        0
    }
}

/// What `body`, which starts a term, has for the term's text, and what follows the term: the
/// phrase between quotes, or the word up to the next white space.
pub open spec fn first_term(body: Seq<char>) -> (Seq<char>, Seq<char>) {
    if body[0] == '"' {
        let inner = body.skip(1);
        let n = phrase_len(inner) as int;
        (inner.take(n), if n < inner.len() { inner.skip(n + 1) } else { Seq::empty() })
    } else {
        let n = word_len(body) as int;
        (body.take(n), body.skip(n))
    }
}

proof fn lemma_term_lens(s: Seq<char>)
    ensures
        word_len(s) <= s.len(),
        phrase_len(s) <= s.len(),
        s.len() > 0 && !crate::text::is_white(s[0]) ==> word_len(s) > 0,
    decreases s.len(),
{
    if s.len() > 0 {
        lemma_term_lens(s.skip(1));
    }
}

/// The terms of a query text, in order: whether a `-` negates it, and its text.
pub open spec fn raw_terms(s: Seq<char>) -> Seq<(bool, Seq<char>)>
    decreases s.len(),
{
    if s.len() == 0 {
        Seq::empty()
    } else if crate::text::is_white(s[0]) {
        raw_terms(s.skip(1))
    } else {
        let negated = s[0] == '-';
        if negated && s.len() == 1 {
            Seq::empty()
        } else if negated && crate::text::is_white(s[1]) {
            raw_terms(s.skip(2))
        } else {
            let body = if negated {
                s.skip(1)
            } else {
                s
            };
            let (term, rest) = first_term(body);
            if rest.len() < s.len() {
                seq![(negated, crate::text::trimmed(term))] + raw_terms(rest)
            } else {
                Seq::empty()
            }
        }
    }
}

/// The terms with the given sign, lowercased, without those that are then empty.
pub open spec fn lowered_terms(terms: Seq<(bool, Seq<char>)>, negated: bool) -> Seq<Seq<char>>
    decreases terms.len(),
{
    if terms.len() == 0 {
        Seq::empty()
    } else {
        let (n, t) = terms.last();
        let low = crate::text::lowered(t);
        let before = lowered_terms(terms.drop_last(), negated);
        if n == negated && low.len() > 0 {
            before.push(low)
        } else {
            before
        }
    }
}

/// Every required term stands in some field, and no excluded term stands in any.
pub open spec fn accepts(
    required: Seq<Seq<char>>,
    excluded: Seq<Seq<char>>,
    fields: Seq<Seq<char>>,
) -> bool {
    &&& forall|i: int| 0 <= i < required.len() ==> in_some_field(fields, #[trigger] required[i])
    &&& forall|i: int| 0 <= i < excluded.len() ==> !in_some_field(fields, #[trigger] excluded[i])
}

/// The term stands in one of the fields.
pub open spec fn in_some_field(fields: Seq<Seq<char>>, term: Seq<char>) -> bool {
    exists|k: int| 0 <= k < fields.len() && crate::text::occurs(#[trigger] fields[k], term)
}

/// The lowercased texts that an item is searched in: title, summary and content, where present.
pub open spec fn searched_fields(item: Item) -> Seq<Seq<char>> {
    lowered_field(item.title) + lowered_field(item.summary) + lowered_field(item.content)
}

/// One field, lowercased, if it is present.
pub open spec fn lowered_field(f: Option<String>) -> Seq<Seq<char>> {
    match f {
        Some(s) => seq![crate::text::lowered(s@)],
        None => Seq::empty(),
    }
}

/// Where the term that starts at `start` has its text, and where what follows it begins.
fn term_bounds(v: &Vec<char>, start: usize) -> (r: (usize, usize, usize))
    requires
        start < v.len(),
        !crate::text::is_white(v@[start as int]),
    ensures
        r.0 <= r.1 <= v@.len(),
        start < r.2 <= v@.len(),
        first_term(v@.skip(start as int)) == (
            v@.subrange(r.0 as int, r.1 as int),
            v@.skip(r.2 as int),
        ),
{
    let ghost body = v@.skip(start as int);
    assert(body[0] == v@[start as int]);
    let mut j: usize;
    if v[start] == '"' {
        let ghost inner = body.skip(1);
        j = start + 1;
        assert(inner =~= v@.skip(start + 1));
        assert(inner.skip(0) =~= inner);
        while j < v.len() && v[j] != '"'
            invariant
                start < j <= v@.len(),
                inner == v@.skip(start + 1),
                phrase_len(inner) == (j - start - 1) + phrase_len(inner.skip(j - start - 1)),
            decreases v@.len() - j,
        {
            assert(inner.skip(j - start - 1)[0] == v@[j as int]);
            assert(inner.skip(j - start - 1).skip(1) =~= inner.skip(j - start));
            j = j + 1;
        }
        proof {
            if j < v@.len() {
                assert(inner.skip(j - start - 1)[0] == v@[j as int]);
                assert(inner.skip(j - start) =~= v@.skip(j + 1));
            } else {
                assert(v@.skip(j as int) =~= Seq::empty());
            }
            assert(phrase_len(inner) == j - start - 1);
            assert(inner.take(j - start - 1) =~= v@.subrange(start + 1, j as int));
        }
        (start + 1, j, if j < v.len() { j + 1 } else { j })
    } else {
        j = start;
        assert(body.skip(0) =~= body);
        while j < v.len() && !v[j].is_whitespace()
            invariant
                start <= j <= v@.len(),
                body == v@.skip(start as int),
                word_len(body) == (j - start) + word_len(body.skip(j - start)),
            decreases v@.len() - j,
        {
            assert(body.skip(j - start)[0] == v@[j as int]);
            assert(body.skip(j - start).skip(1) =~= body.skip(j - start + 1));
            j = j + 1;
        }
        proof {
            if j < v@.len() {
                assert(body.skip(j - start)[0] == v@[j as int]);
            }
            lemma_term_lens(body);
            assert(body.take(j - start) =~= v@.subrange(start as int, j as int));
            assert(body.skip(j - start) =~= v@.skip(j as int));
        }
        (start, j, j)
    }
}

/// A query text's terms, each with whether a `-` negates it.
pub fn split_terms(s: &str) -> (r: Vec<(bool, String)>)
    ensures
        r@.map_values(|p: (bool, String)| (p.0, p.1@)) == raw_terms(s@),
{
    let v = chars_of(s);
    let mut out: Vec<(bool, String)> = Vec::new();
    let ghost key = |p: (bool, String)| (p.0, p.1@);
    let mut i: usize = 0;
    assert(v@.skip(0) =~= s@);
    assert(out@.map_values(key) + raw_terms(s@) =~= raw_terms(s@));
    while i < v.len()
        invariant
            i <= v@.len(),
            key == |p: (bool, String)| (p.0, p.1@),
            out@.map_values(key) + raw_terms(v@.skip(i as int)) == raw_terms(s@),
        decreases v@.len() - i,
    {
        let ghost here = v@.skip(i as int);
        let c = v[i];
        assert(here[0] == c);
        if c.is_whitespace() {
            assert(here.skip(1) =~= v@.skip(i + 1));
            i = i + 1;
            continue;
        }
        let negated = c == '-';
        if negated && i + 1 == v.len() {
            i = i + 1;
            assert(v@.skip(i as int) =~= Seq::empty());
            continue;
        }
        if negated {
            assert(here[1] == v@[i + 1]);
        }
        if negated && v[i + 1].is_whitespace() {
            assert(here.skip(2) =~= v@.skip(i + 2));
            i = i + 2;
            continue;
        }
        let start: usize = if negated { i + 1 } else { i };
        let ghost body = v@.skip(start as int);
        proof {
            if negated {
                assert(here.skip(1) =~= body);
            }
            assert(body[0] == v@[start as int]);
        }
        let (from, to, next) = term_bounds(&v, start);
        let word = chars_of(&text_of(&v, from, to));
        let (a, b) = trim_bounds(&word);
        let ghost before = out@;
        out.push((negated, text_of(&word, a, b)));
        proof {
            let one = seq![(negated, crate::text::trimmed(word@))];
            assert(raw_terms(here) == one + raw_terms(v@.skip(next as int)));
            assert(out@.map_values(key) =~= before.map_values(key) + one);
            assert(before.map_values(key) + (one + raw_terms(v@.skip(next as int)))
                =~= (before.map_values(key) + one) + raw_terms(v@.skip(next as int)));
        }
        i = next;
    }
    assert(v@.skip(i as int) =~= Seq::empty());
    assert(out@.map_values(key) + Seq::<(bool, Seq<char>)>::empty() =~= out@.map_values(key));
    out
}

/// A parsed keyword query: every required term must appear and no excluded term may.
#[derive(Debug, Clone, PartialEq, Eq)]
pub struct Query {
    required: Vec<String>,
    excluded: Vec<String>,
}

impl Default for Query {
    fn default() -> (r: Self)
        ensures
            r.required().len() == 0,
            r.excluded().len() == 0,
    {
        Query { required: Vec::new(), excluded: Vec::new() }
    }
}

impl Query {
    /// The terms that must appear.
    pub closed spec fn required(self) -> Seq<Seq<char>> {
        self.required.deep_view()
    }

    /// The terms that must not appear.
    pub closed spec fn excluded(self) -> Seq<Seq<char>> {
        self.excluded.deep_view()
    }

    /// The query with these terms, each lowercased; a term that is then empty is no term.
    pub fn from_terms(terms: &Vec<(bool, String)>) -> (r: Query)
        ensures
            r.required() == lowered_terms(
                terms@.map_values(|p: (bool, String)| (p.0, p.1@)),
                false,
            ),
            r.excluded() == lowered_terms(terms@.map_values(|p: (bool, String)| (p.0, p.1@)), true),
    {
        let mut q = Query::default();
        let ghost key = |p: (bool, String)| (p.0, p.1@);
        let ghost all = terms@.map_values(key);
        let mut i: usize = 0;
        while i < terms.len()
            invariant
                i <= terms@.len(),
                key == |p: (bool, String)| (p.0, p.1@),
                all == terms@.map_values(key),
                q.required.deep_view() == lowered_terms(all.take(i as int), false),
                q.excluded.deep_view() == lowered_terms(all.take(i as int), true),
            decreases terms@.len() - i,
        {
            let ghost r0 = q.required.deep_view();
            let ghost e0 = q.excluded.deep_view();
            let low = to_lowercase(terms[i].1.as_str());
            proof {
                assert(all.take(i + 1).drop_last() =~= all.take(i as int));
                assert(all.take(i + 1).last() == (terms@[i as int].0, terms@[i as int].1@));
            }
            if !low.as_str().is_empty() {
                if terms[i].0 {
                    q.excluded.push(low);
                    assert(q.excluded.deep_view() =~= e0.push(low@));
                } else {
                    q.required.push(low);
                    assert(q.required.deep_view() =~= r0.push(low@));
                }
            }
            i = i + 1;
        }
        assert(all.take(i as int) =~= all);
        q
    }

    /// Parses a query text. White space separates terms; `"quoted phrases"` match as a unit; a
    /// leading `-` negates, and with nothing attached to it is no term.
    pub fn parse(s: &str) -> (r: Query)
        ensures
            r.required() == lowered_terms(raw_terms(s@), false),
            r.excluded() == lowered_terms(raw_terms(s@), true),
    {
        Query::from_terms(&split_terms(s))
    }

    /// Whether the query constrains nothing.
    pub fn is_empty(&self) -> (r: bool)
        ensures
            r == (self.required().len() == 0 && self.excluded().len() == 0),
    {
        self.required.is_empty() && self.excluded.is_empty()
    }

    fn any_field(fields: &Vec<String>, term: &str) -> (r: bool)
        ensures
            r == in_some_field(fields.deep_view(), term@),
    {
        let mut k: usize = 0;
        while k < fields.len()
            invariant
                k <= fields@.len(),
                forall|j: int| 0 <= j < k ==> !crate::text::occurs(#[trigger] fields.deep_view()[j], term@),
            decreases fields@.len() - k,
        {
            assert(fields.deep_view()[k as int] == fields@[k as int]@);
            if contains(fields[k].as_str(), term) {
                return true;
            }
            k = k + 1;
        }
        false
    }

    /// Whether texts that are already lowercased satisfy the query, each taken on its own.
    pub fn matches_lowered(&self, fields: &Vec<String>) -> (r: bool)
        ensures
            r == accepts(self.required(), self.excluded(), fields.deep_view()),
    {
        let mut i: usize = 0;
        while i < self.required.len()
            invariant
                i <= self.required@.len(),
                forall|j: int|
                    0 <= j < i ==> in_some_field(
                        fields.deep_view(),
                        #[trigger] self.required.deep_view()[j],
                    ),
            decreases self.required@.len() - i,
        {
            assert(self.required.deep_view()[i as int] == self.required@[i as int]@);
            if !Query::any_field(fields, self.required[i].as_str()) {
                return false;
            }
            i = i + 1;
        }
        let mut i: usize = 0;
        while i < self.excluded.len()
            invariant
                i <= self.excluded@.len(),
                forall|j: int|
                    0 <= j < i ==> !in_some_field(
                        fields.deep_view(),
                        #[trigger] self.excluded.deep_view()[j],
                    ),
            decreases self.excluded@.len() - i,
        {
            assert(self.excluded.deep_view()[i as int] == self.excluded@[i as int]@);
            if Query::any_field(fields, self.excluded[i].as_str()) {
                return false;
            }
            i = i + 1;
        }
        true
    }

    /// Whether a text satisfies the query.
    pub fn matches_text(&self, text: &str) -> (r: bool)
        ensures
            r == accepts(self.required(), self.excluded(), seq![crate::text::lowered(text@)]),
    {
        let mut fields: Vec<String> = Vec::new();
        fields.push(to_lowercase(text));
        assert(fields.deep_view() =~= seq![crate::text::lowered(text@)]);
        self.matches_lowered(&fields)
    }

    /// Whether an item satisfies the query by its title, summary and content. Fields are never
    /// joined: a phrase stands within one field, or not at all.
    pub fn matches_item(&self, item: &Item) -> (r: bool)
        ensures
            r == accepts(self.required(), self.excluded(), searched_fields(*item)),
    {
        let mut fields: Vec<String> = Vec::new();
        if let Some(t) = &item.title {
            fields.push(to_lowercase(t.as_str()));
        }
        assert(fields.deep_view() =~= lowered_field(item.title));
        if let Some(t) = &item.summary {
            fields.push(to_lowercase(t.as_str()));
        }
        assert(fields.deep_view() =~= lowered_field(item.title) + lowered_field(item.summary));
        if let Some(t) = &item.content {
            fields.push(to_lowercase(t.as_str()));
        }
        assert(fields.deep_view() =~= searched_fields(*item));
        self.matches_lowered(&fields)
    }
}

/// A query with no terms accepts every item.
pub proof fn law_empty_query_accepts_everything(q: Query, item: Item)
    requires
        q.required().len() == 0,
        q.excluded().len() == 0,
    ensures
        accepts(q.required(), q.excluded(), searched_fields(item)),
{
}

/// Required terms are ANDed across fields: accepting a list of required terms is accepting each
/// of its parts.
pub proof fn law_required_terms_are_anded(
    a: Seq<Seq<char>>,
    b: Seq<Seq<char>>,
    excluded: Seq<Seq<char>>,
    fields: Seq<Seq<char>>,
)
    ensures
        accepts(a + b, excluded, fields) == (accepts(a, excluded, fields) && accepts(
            b,
            excluded,
            fields,
        )),
{
    if accepts(a + b, excluded, fields) {
        assert forall|i: int| 0 <= i < a.len() implies in_some_field(fields, #[trigger] a[i]) by {
            assert((a + b)[i] == a[i]);
        }
        assert forall|i: int| 0 <= i < b.len() implies in_some_field(fields, #[trigger] b[i]) by {
            assert((a + b)[a.len() + i] == b[i]);
        }
    }
}

/// One excluded term that stands in any field rejects the item, whatever is required.
pub proof fn law_excluded_term_rejects(
    required: Seq<Seq<char>>,
    excluded: Seq<Seq<char>>,
    fields: Seq<Seq<char>>,
    i: int,
    k: int,
)
    requires
        0 <= i < excluded.len(),
        0 <= k < fields.len(),
        crate::text::occurs(fields[k], excluded[i]),
    ensures
        !accepts(required, excluded, fields),
{
    assert(in_some_field(fields, excluded[i]));
}

} // verus!
