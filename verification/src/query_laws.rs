//! What a keyword query promises, over its text and the texts that it is matched against.

use vstd::prelude::*;

use crate::model::Item;
use crate::query::{
    accepts, first_term, in_some_field, lowered_field, lowered_terms, phrase_len, raw_terms,
    searched_fields, word_len,
};
use crate::text::{is_white, lowered, occurs, trimmed};

verus! {

/// Terms take part one by one: those of a longer list are those of its parts, each in its turn. One term
/// is required or excluded by its sign, in lower case; nothing of it is left only where it is empty.
pub proof fn law_terms_take_part_one_by_one(
    a: Seq<(bool, Seq<char>)>,
    b: Seq<(bool, Seq<char>)>,
    t: Seq<char>,
)
    ensures
        forall|n: bool| #[trigger] lowered_terms(a + b, n) == lowered_terms(a, n) + lowered_terms(b, n),
        lowered(t).len() > 0 ==> lowered_terms(seq![(true, t)], true) == seq![lowered(t)],
        lowered(t).len() > 0 ==> lowered_terms(seq![(false, t)], false) == seq![lowered(t)],
        lowered_terms(seq![(true, t)], false).len() == 0,
        lowered_terms(seq![(false, t)], true).len() == 0,
        lowered(t).len() == 0 ==> lowered_terms(seq![(true, t)], true).len() == 0,
        lowered(t).len() == 0 ==> lowered_terms(seq![(false, t)], false).len() == 0,
{
    assert forall|n: bool| #[trigger] lowered_terms(a + b, n) == lowered_terms(a, n) + lowered_terms(b, n) by {
        lemma_terms_add_up(a, b, n);
    }
    reveal_with_fuel(lowered_terms, 2);
    assert(seq![(true, t)].drop_last() =~= Seq::empty());
    assert(seq![(false, t)].drop_last() =~= Seq::empty());
    assert(Seq::<Seq<char>>::empty().push(lowered(t)) =~= seq![lowered(t)]);
}

proof fn lemma_terms_add_up(a: Seq<(bool, Seq<char>)>, b: Seq<(bool, Seq<char>)>, n: bool)
    ensures
        lowered_terms(a + b, n) == lowered_terms(a, n) + lowered_terms(b, n),
    decreases b.len(),
{
    if b.len() == 0 {
        assert(a + b =~= a);
        assert(lowered_terms(a, n) + lowered_terms(b, n) =~= lowered_terms(a, n));
    } else {
        lemma_terms_add_up(a, b.drop_last(), n);
        assert((a + b).drop_last() =~= a + b.drop_last());
        assert((a + b).last() == b.last());
        assert(lowered_terms(a + b, n) =~= lowered_terms(a, n) + lowered_terms(b, n));
    }
}

/// How many of the terms are not empty in lower case.
pub open spec fn filled_terms(terms: Seq<(bool, Seq<char>)>) -> nat
    decreases terms.len(),
{
    if terms.len() == 0 {
        0
    } else {
        filled_terms(terms.drop_last()) + (if lowered(terms.last().1).len() > 0 {
            1nat
        } else {
            0nat
        })
    }
}

/// One of the terms has this sign and this lower case.
pub open spec fn is_among(terms: Seq<(bool, Seq<char>)>, negated: bool, low: Seq<char>) -> bool {
    exists|i: int|
        0 <= i < terms.len() && terms[i].0 == negated && lowered((#[trigger] terms[i]).1) == low
}

/// Every term that is not empty takes part, however many there are: its lower case is among the excluded
/// ones where a `-` negates it and among the required ones where not. There are no others.
pub proof fn law_every_term_takes_part(terms: Seq<(bool, Seq<char>)>)
    ensures
        forall|i: int|
            0 <= i < terms.len() && lowered((#[trigger] terms[i]).1).len() > 0 ==> lowered_terms(
                terms,
                terms[i].0,
            ).contains(lowered(terms[i].1)),
        lowered_terms(terms, true).len() + lowered_terms(terms, false).len() == filled_terms(terms),
        forall|n: bool, k: int|
            0 <= k < lowered_terms(terms, n).len() ==> is_among(
                terms,
                n,
                #[trigger] lowered_terms(terms, n)[k],
            ),
    decreases terms.len(),
{
    if terms.len() > 0 {
        let r = terms.drop_last();
        law_every_term_takes_part(r);
        assert forall|i: int|
            0 <= i < terms.len() && lowered((#[trigger] terms[i]).1).len() > 0 implies lowered_terms(
            terms,
            terms[i].0,
        ).contains(lowered(terms[i].1)) by {
            let n = terms[i].0;
            let before = lowered_terms(r, n);
            let all = lowered_terms(terms, n);
            if i < r.len() {
                assert(r[i] == terms[i]);
                assert(before.contains(lowered(r[i].1)));
                let k = choose|k: int| 0 <= k < before.len() && before[k] == lowered(r[i].1);
                assert(all[k] == before[k]);
            } else {
                assert(all[before.len() as int] == lowered(terms[i].1));
            }
        }
        assert forall|n: bool, k: int| 0 <= k < lowered_terms(terms, n).len() implies is_among(
            terms,
            n,
            #[trigger] lowered_terms(terms, n)[k],
        ) by {
            let before = lowered_terms(r, n);
            let all = lowered_terms(terms, n);
            if k < before.len() {
                assert(all[k] == before[k]);
                assert(is_among(r, n, before[k]));
                let i = choose|i: int|
                    0 <= i < r.len() && r[i].0 == n && lowered((#[trigger] r[i]).1) == before[k];
                assert(terms[i] == r[i]);
            } else {
                let i = terms.len() - 1;
                assert(terms[i] == terms.last());
                assert(lowered(terms[i].1) == all[k]);
            }
        }
    }
}

/// The text is something, the term, and something.
pub open spec fn has_within(text: Seq<char>, term: Seq<char>) -> bool {
    exists|x: Seq<char>, y: Seq<char>| text == #[trigger] (x + term + y)
}

/// The term stands within one of the texts.
pub open spec fn one_has(texts: Seq<Seq<char>>, term: Seq<char>) -> bool {
    exists|k: int| 0 <= k < texts.len() && has_within(#[trigger] texts[k], term)
}

/// What it is for a query to accept texts: each required term stands in one of them, with something
/// before it and something after it, and no excluded term stands in any.
pub proof fn law_acceptance_is_all_required_and_none_excluded(
    required: Seq<Seq<char>>,
    excluded: Seq<Seq<char>>,
    fields: Seq<Seq<char>>,
)
    ensures
        accepts(required, excluded, fields) <==> (forall|i: int|
            0 <= i < required.len() ==> one_has(fields, #[trigger] required[i])) && (forall|i: int|
            0 <= i < excluded.len() ==> !one_has(fields, #[trigger] excluded[i])),
{
    assert forall|t: Seq<char>| #[trigger] in_some_field(fields, t) == one_has(fields, t) by {
        assert forall|k: int| 0 <= k < fields.len() implies occurs(#[trigger] fields[k], t) == has_within(
            fields[k],
            t,
        ) by {
            crate::text_laws::law_what_stands_in_a_text_has_a_before_and_an_after(fields[k], t);
        }
    }
}

/// An item is searched in its title, its summary and its content, each where it has one, in lower case,
/// each on its own, and in nothing else.
pub proof fn law_an_item_is_searched_in_title_summary_and_content(item: Item, f: Seq<char>)
    ensures
        searched_fields(item).contains(f) <==> ((item.title matches Some(t) && f == lowered(t@)) || (
        item.summary matches Some(t) && f == lowered(t@)) || (item.content matches Some(t) && f
            == lowered(t@))),
        searched_fields(item).len() <= 3,
{
    let a = lowered_field(item.title);
    let b = lowered_field(item.summary);
    let c = lowered_field(item.content);
    let all = searched_fields(item);
    assert(all == a + b + c);
    if let Some(t) = item.title {
        assert(all[0] == lowered(t@));
    }
    if let Some(t) = item.summary {
        assert(all[a.len() as int] == lowered(t@));
    }
    if let Some(t) = item.content {
        assert(all[(a.len() + b.len()) as int] == lowered(t@));
    }
}

proof fn lemma_word(w: Seq<char>, n: nat)
    requires
        n <= w.len(),
        forall|k: int| 0 <= k < n ==> !is_white(#[trigger] w[k]),
        n < w.len() ==> is_white(w[n as int]),
    ensures
        word_len(w) == n,
    decreases n,
{
    if n > 0 {
        assert(!is_white(w[0]));
        let r = w.skip(1);
        assert forall|k: int| 0 <= k < n - 1 implies !is_white(#[trigger] r[k]) by {
            assert(r[k] == w[k + 1]);
        }
        lemma_word(r, (n - 1) as nat);
    }
}

proof fn lemma_phrase(w: Seq<char>, n: nat)
    requires
        n <= w.len(),
        forall|k: int| 0 <= k < n ==> #[trigger] w[k] != '"',
        n < w.len() ==> w[n as int] == '"',
    ensures
        phrase_len(w) == n,
    decreases n,
{
    if n > 0 {
        assert(w[0] != '"');
        let r = w.skip(1);
        assert forall|k: int| 0 <= k < n - 1 implies #[trigger] r[k] != '"' by {
            assert(r[k] == w[k + 1]);
        }
        lemma_phrase(r, (n - 1) as nat);
    }
}

proof fn lemma_solid(w: Seq<char>)
    requires
        forall|k: int| 0 <= k < w.len() ==> !is_white(#[trigger] w[k]),
    ensures
        trimmed(w) == w,
{
    let (a, b) = crate::text_laws::law_trimming_cuts_white_space_at_both_ends(w);
    assert(a == 0 && b == w.len()) by {
        if a > 0 {
            let c = w[0];
            assert(!is_white(c));
            assert(false);
        }
        if b < w.len() {
            let c = w[b];
            assert(!is_white(c));
            assert(false);
        }
    }
    assert(w.subrange(0, w.len() as int) =~= w);
}

/// The text has no white space, does not begin with a quote and is not empty.
pub open spec fn is_word(w: Seq<char>) -> bool {
    &&& w.len() > 0
    &&& w[0] != '"'
    &&& forall|k: int| 0 <= k < w.len() ==> !is_white(#[trigger] w[k])
}

/// White space before a term and after a word does not matter, and parts the terms: a word and what
/// follows it after white space are one term and the terms of the rest. A `-` attached to the word negates
/// it; a `-` alone is no term.
pub proof fn law_words_are_terms(w: Seq<char>, space: char, rest: Seq<char>)
    requires
        is_word(w),
        is_white(space),
    ensures
        raw_terms(Seq::empty()).len() == 0,
        raw_terms(seq![space] + rest) == raw_terms(rest),
        w[0] != '-' ==> raw_terms(w + seq![space] + rest) == seq![(false, w)] + raw_terms(rest),
        w[0] != '-' ==> raw_terms(w) == seq![(false, w)],
        raw_terms(seq!['-'] + w + seq![space] + rest) == seq![(true, w)] + raw_terms(rest),
        raw_terms(seq!['-'] + w) == seq![(true, w)],
        raw_terms(seq!['-', space] + rest) == raw_terms(rest),
        raw_terms(seq!['-']).len() == 0,
{
    lemma_solid(w);
    assert((seq![space] + rest).skip(1) =~= rest);
    assert(!is_white('-'));
    let t = w + seq![space] + rest;
    assert forall|k: int| 0 <= k < w.len() implies !is_white(#[trigger] t[k]) by {
        assert(t[k] == w[k]);
    }
    lemma_word(t, w.len());
    lemma_word(w, w.len());
    assert(t.take(w.len() as int) =~= w);
    assert(w.take(w.len() as int) =~= w);
    let after = seq![space] + rest;
    assert(t.skip(w.len() as int) =~= after);
    assert(w.skip(w.len() as int) =~= Seq::empty());
    assert(t[0] == w[0]);
    assert(first_term(t) == (w, after));
    assert(first_term(w) == (w, Seq::<char>::empty()));
    assert(raw_terms(after) == raw_terms(rest));
    assert(raw_terms(Seq::empty()) =~= Seq::empty());
    assert(seq![(false, w)] + Seq::<(bool, Seq<char>)>::empty() =~= seq![(false, w)]);
    assert(seq![(true, w)] + Seq::<(bool, Seq<char>)>::empty() =~= seq![(true, w)]);
    let nt = seq!['-'] + w + seq![space] + rest;
    assert(nt.skip(1) =~= t);
    assert(nt[1] == w[0]);
    assert(!is_white(w[0]));
    let nw = seq!['-'] + w;
    assert(nw.skip(1) =~= w);
    assert(nw[1] == w[0]);
    let lone = seq!['-', space] + rest;
    assert(lone.skip(2) =~= rest);
    assert(lone[1] == space);
}

/// What stands between quotes is one term, without the white space at its ends; a `-` before the quote
/// negates it, and a quote that is not closed reaches to the end.
pub proof fn law_phrases_are_terms(p: Seq<char>, rest: Seq<char>)
    requires
        !p.contains('"'),
    ensures
        raw_terms(seq!['"'] + p + seq!['"'] + rest) == seq![(false, trimmed(p))] + raw_terms(rest),
        raw_terms(seq!['"'] + p) == seq![(false, trimmed(p))],
        raw_terms(seq!['-', '"'] + p + seq!['"'] + rest) == seq![(true, trimmed(p))] + raw_terms(rest),
        raw_terms(seq!['-', '"'] + p) == seq![(true, trimmed(p))],
{
    assert(!is_white('-') && !is_white('"'));
    let inner = p + seq!['"'] + rest;
    assert forall|k: int| 0 <= k < p.len() implies #[trigger] inner[k] != '"' by {
        assert(inner[k] == p[k]);
        assert(p.contains(p[k]));
    }
    assert forall|k: int| 0 <= k < p.len() implies #[trigger] p[k] != '"' by {
        assert(p.contains(p[k]));
    }
    lemma_phrase(inner, p.len());
    lemma_phrase(p, p.len());
    assert(inner.take(p.len() as int) =~= p);
    assert(p.take(p.len() as int) =~= p);
    assert(inner.skip((p.len() + 1) as int) =~= rest);
    let q = seq!['"'] + p + seq!['"'] + rest;
    assert(q.skip(1) =~= inner);
    let u = seq!['"'] + p;
    assert(u.skip(1) =~= p);
    assert(first_term(q) == (p, rest));
    assert(first_term(u) == (p, Seq::<char>::empty()));
    assert(raw_terms(Seq::empty()) =~= Seq::empty());
    assert(seq![(false, trimmed(p))] + Seq::<(bool, Seq<char>)>::empty() =~= seq![(false, trimmed(p))]);
    assert(seq![(true, trimmed(p))] + Seq::<(bool, Seq<char>)>::empty() =~= seq![(true, trimmed(p))]);
    let nq = seq!['-', '"'] + p + seq!['"'] + rest;
    assert(nq.skip(1) =~= q);
    assert(nq[1] == '"');
    let nu = seq!['-', '"'] + p;
    assert(nu.skip(1) =~= u);
    assert(nu[1] == '"');
}

} // verus!
