//! What finding and collapsing duplicates promises, over the items of the feeds.

use vstd::prelude::*;

use crate::dedupe::{
    are_collapsed, are_groups, feed_occurrences, first_keys, is_group, is_target, key_of,
    lemma_groups_are_distinct, lemma_occurrence_at, lemma_occurrence_count, lemma_second_key,
    lemma_unseen_key, occurrences, repeated_keys, survives, surviving, with_key, Occurrence,
};
use crate::model::{DuplicateGroup, DuplicateKeyKind, FeedResult, Item};
use crate::totals::{item_total, lemma_feed_in_totals, lemma_totals_grow};

verus! {

/// The text is there and not empty.
pub open spec fn is_given(s: Option<String>) -> bool {
    s matches Some(t) && t@.len() > 0
}

/// An item is known across feeds by its guid; where it has none, by its link; where it has neither, by the
/// hash of its content. What is empty does not count, and one that has none of them is known by nothing.
pub proof fn law_what_an_item_is_known_by(i: Item)
    ensures
        is_given(i.guid) ==> key_of(i) == Some((i.guid->Some_0@, DuplicateKeyKind::Guid)),
        !is_given(i.guid) && is_given(i.url) ==> key_of(i) == Some((i.url->Some_0@, DuplicateKeyKind::Url)),
        !is_given(i.guid) && !is_given(i.url) && is_given(i.content_hash) ==> key_of(i) == Some(
            (i.content_hash->Some_0@, DuplicateKeyKind::ContentHash),
        ),
        !is_given(i.guid) && !is_given(i.url) && !is_given(i.content_hash) ==> key_of(i) is None,
{
}

/// An item comes before another: in an earlier feed, or earlier in the same.
pub open spec fn comes_before(f: int, j: int, g: int, k: int) -> bool {
    f < g || f == g && j < k
}

/// An item before the one at a place is known by the same.
pub open spec fn has_earlier_copy(feeds: Seq<FeedResult>, g: int, k: int) -> bool {
    exists|f: int, j: int|
        0 <= f < feeds.len() && 0 <= j < feeds[f].items@.len() && comes_before(f, j, g, k) && key_of(
            #[trigger] feeds[f].items@[j],
        ) == key_of(feeds[g].items@[k])
}

spec fn place(feeds: Seq<FeedResult>, f: int, j: int) -> int {
    item_total(feeds.take(f)) + j
}

proof fn lemma_places(feeds: Seq<FeedResult>, f: int, j: int, g: int, k: int)
    requires
        0 <= f < feeds.len(),
        0 <= j < feeds[f].items@.len(),
        0 <= g < feeds.len(),
        0 <= k < feeds[g].items@.len(),
    ensures
        comes_before(f, j, g, k) <==> place(feeds, f, j) < place(feeds, g, k),
        0 <= place(feeds, f, j) < occurrences(feeds).len(),
        occurrences(feeds)[place(feeds, f, j)] == (Occurrence {
            key: key_of(feeds[f].items@[j]),
            id: feeds[f].items@[j].id@,
            feed_url: feeds[f].feed_url@,
        }),
{
    lemma_occurrence_at(feeds, f, j);
    lemma_feed_in_totals(feeds, f);
    lemma_feed_in_totals(feeds, g);
    if f < g {
        let t = feeds.take(g);
        lemma_totals_grow(t, f + 1);
        assert(t.take(f + 1) =~= feeds.take(f + 1));
    } else if g < f {
        let t = feeds.take(f);
        lemma_totals_grow(t, g + 1);
        assert(t.take(g + 1) =~= feeds.take(g + 1));
    }
}

proof fn lemma_at_place(feeds: Seq<FeedResult>, i: int) -> (r: (int, int))
    requires
        0 <= i < item_total(feeds),
    ensures
        0 <= r.0 < feeds.len(),
        0 <= r.1 < feeds[r.0].items@.len(),
        place(feeds, r.0, r.1) == i,
    decreases feeds.len(),
{
    let d = feeds.drop_last();
    if i < item_total(d) {
        let (f, j) = lemma_at_place(d, i);
        assert(d.take(f) =~= feeds.take(f));
        (f, j)
    } else {
        assert(feeds.take(feeds.len() - 1) =~= d);
        (feeds.len() - 1, i - item_total(d))
    }
}

proof fn lemma_listed(occ: Seq<Occurrence>, k: (Seq<char>, DuplicateKeyKind)) -> (at: Seq<int>)
    ensures
        at.len() == with_key(occ, k).len(),
        forall|a: int|
            0 <= a < at.len() ==> 0 <= #[trigger] at[a] < occ.len() && occ[at[a]].key == Some(k) && with_key(
                occ,
                k,
            )[a] == (occ[at[a]].id, occ[at[a]].feed_url),
        forall|a: int, b: int| 0 <= a < b < at.len() ==> #[trigger] at[a] < #[trigger] at[b],
        forall|i: int| 0 <= i < occ.len() && (#[trigger] occ[i]).key == Some(k) ==> at.contains(i),
    decreases occ.len(),
{
    if occ.len() == 0 {
        Seq::empty()
    } else {
        let r = occ.drop_last();
        let p = lemma_listed(r, k);
        let n = occ.len() - 1;
        let at = if occ.last().key == Some(k) {
            p.push(n)
        } else {
            p
        };
        assert forall|a: int| 0 <= a < at.len() implies 0 <= #[trigger] at[a] < occ.len() && occ[at[a]].key
            == Some(k) && with_key(occ, k)[a] == (occ[at[a]].id, occ[at[a]].feed_url) by {
            if a < p.len() {
                assert(at[a] == p[a]);
                assert(r[p[a]] == occ[p[a]]);
            }
        }
        assert forall|i: int| 0 <= i < occ.len() && (#[trigger] occ[i]).key == Some(k) implies at.contains(
            i,
        ) by {
            if i < n {
                assert(r[i] == occ[i]);
                assert(p.contains(i));
                let a = choose|a: int| 0 <= a < p.len() && p[a] == i;
                assert(at[a] == i);
            } else {
                assert(at[p.len() as int] == n);
            }
        }
        at
    }
}

/// The group lists an item of a feed at a position.
pub open spec fn lists(g: DuplicateGroup, a: int, id: Seq<char>, feed_url: Seq<char>) -> bool {
    &&& 0 <= a < g.item_ids@.len()
    &&& a < g.feed_urls@.len()
    &&& g.item_ids@[a]@ == id
    &&& g.feed_urls@[a]@ == feed_url
}

proof fn lemma_group_lists(g: DuplicateGroup, key: (Seq<char>, DuplicateKeyKind), occ: Seq<Occurrence>)
    requires
        is_group(g, key, occ),
    ensures
        g.item_ids@.len() == with_key(occ, key).len(),
        g.feed_urls@.len() == with_key(occ, key).len(),
        forall|a: int|
            0 <= a < with_key(occ, key).len() ==> lists(
                g,
                a,
                (#[trigger] with_key(occ, key)[a]).0,
                with_key(occ, key)[a].1,
            ),
{
    let p = with_key(occ, key);
    assert(g.item_ids.deep_view().len() == g.item_ids@.len());
    assert(g.feed_urls.deep_view().len() == g.feed_urls@.len());
    assert forall|a: int| 0 <= a < p.len() implies lists(g, a, (#[trigger] p[a]).0, p[a].1) by {
        assert(g.item_ids.deep_view()[a] == g.item_ids@[a]@);
        assert(g.feed_urls.deep_view()[a] == g.feed_urls@[a]@);
    }
}

proof fn lemma_group_of(groups: Seq<DuplicateGroup>, feeds: Seq<FeedResult>, k: (Seq<char>, DuplicateKeyKind)) -> (g:
    int)
    requires
        are_groups(groups, feeds),
        with_key(occurrences(feeds), k).len() > 1,
    ensures
        0 <= g < groups.len(),
        is_group(groups[g], k, occurrences(feeds)),
{
    let occ = occurrences(feeds);
    let keys = repeated_keys(occ);
    let keep = |k: (Seq<char>, DuplicateKeyKind)| with_key(occ, k).len() > 1;
    if !first_keys(occ).contains(k) {
        lemma_unseen_key(occ, k);
    }
    broadcast use vstd::seq_lib::group_filter_ensures;

    assert(keys == first_keys(occ).filter(keep));
    assert(keep(k));
    assert(keys.contains(k));
    let g = choose|g: int| 0 <= g < keys.len() && keys[g] == k;
    assert(is_group(groups[g], keys[g], occ));
    g
}

/// Two items that are known by the same are listed in one group, in their order, each with its feed.
pub proof fn law_copies_are_grouped(
    groups: Seq<DuplicateGroup>,
    feeds: Seq<FeedResult>,
    f: int,
    j: int,
    h: int,
    k: int,
) -> (r: (int, int, int))
    requires
        are_groups(groups, feeds),
        0 <= f < feeds.len(),
        0 <= j < feeds[f].items@.len(),
        0 <= h < feeds.len(),
        0 <= k < feeds[h].items@.len(),
        comes_before(f, j, h, k),
        key_of(feeds[f].items@[j]) is Some,
        key_of(feeds[f].items@[j]) == key_of(feeds[h].items@[k]),
    ensures
        0 <= r.0 < groups.len(),
        Some((groups[r.0].key@, groups[r.0].key_kind)) == key_of(feeds[f].items@[j]),
        r.1 < r.2,
        lists(groups[r.0], r.1, feeds[f].items@[j].id@, feeds[f].feed_url@),
        lists(groups[r.0], r.2, feeds[h].items@[k].id@, feeds[h].feed_url@),
{
    let occ = occurrences(feeds);
    let key = key_of(feeds[f].items@[j])->Some_0;
    lemma_places(feeds, f, j, h, k);
    lemma_places(feeds, h, k, f, j);
    let x = place(feeds, f, j);
    let y = place(feeds, h, k);
    lemma_second_key(occ, x, y, key);
    let g = lemma_group_of(groups, feeds, key);
    lemma_group_lists(groups[g], key, occ);
    let at = lemma_listed(occ, key);
    assert(at.contains(x) && at.contains(y));
    let a = choose|a: int| 0 <= a < at.len() && at[a] == x;
    let b = choose|b: int| 0 <= b < at.len() && at[b] == y;
    if b <= a {
        if b < a {
            assert(at[b] < at[a]);
        }
    }
    assert(with_key(occ, key)[a] == (occ[x].id, occ[x].feed_url));
    assert(with_key(occ, key)[b] == (occ[y].id, occ[y].feed_url));
    (g, a, b)
}

/// A group lists nothing but items that are known by its key, each with its feed, in their order, and
/// every one of them; there are at least two, and no two groups have the same key.
pub proof fn law_groups_list_copies_alone(groups: Seq<DuplicateGroup>, feeds: Seq<FeedResult>, g: int) -> (at:
    Seq<(int, int)>)
    requires
        are_groups(groups, feeds),
        0 <= g < groups.len(),
    ensures
        at.len() == groups[g].item_ids@.len(),
        at.len() == groups[g].feed_urls@.len(),
        at.len() >= 2,
        forall|a: int|
            0 <= a < at.len() ==> 0 <= (#[trigger] at[a]).0 < feeds.len() && 0 <= at[a].1
                < feeds[at[a].0].items@.len() && key_of(feeds[at[a].0].items@[at[a].1]) == Some(
                (groups[g].key@, groups[g].key_kind),
            ) && lists(
                groups[g],
                a,
                feeds[at[a].0].items@[at[a].1].id@,
                feeds[at[a].0].feed_url@,
            ),
        forall|a: int, b: int|
            0 <= a < b < at.len() ==> comes_before(
                (#[trigger] at[a]).0,
                at[a].1,
                (#[trigger] at[b]).0,
                at[b].1,
            ),
        forall|f: int, j: int|
            0 <= f < feeds.len() && 0 <= j < feeds[f].items@.len() && key_of(
                #[trigger] feeds[f].items@[j],
            ) == Some((groups[g].key@, groups[g].key_kind)) ==> at.contains((f, j)),
        forall|h: int|
            0 <= h < groups.len() && h != g ==> ((#[trigger] groups[h]).key@, groups[h].key_kind) != (
                groups[g].key@,
                groups[g].key_kind,
            ),
{
    let occ = occurrences(feeds);
    let key = repeated_keys(occ)[g];
    crate::dedupe::law_groups_are_pairs_of_lists(groups, feeds, g);
    lemma_groups_are_distinct(groups, feeds);
    assert(is_group(groups[g], key, occ));
    lemma_group_lists(groups[g], key, occ);
    let p = lemma_listed(occ, key);
    lemma_occurrence_count(feeds);
    let found = |i: int| choose|r: (int, int)|
        0 <= r.0 < feeds.len() && 0 <= r.1 < feeds[r.0].items@.len() && place(feeds, r.0, r.1) == i;
    let at = Seq::new(p.len(), |a: int| found(p[a]));
    assert forall|a: int| 0 <= a < at.len() implies 0 <= (#[trigger] at[a]).0 < feeds.len() && 0 <= at[a].1
        < feeds[at[a].0].items@.len() && place(feeds, at[a].0, at[a].1) == p[a] && key_of(
        feeds[at[a].0].items@[at[a].1],
    ) == Some(key) && lists(groups[g], a, feeds[at[a].0].items@[at[a].1].id@, feeds[at[a].0].feed_url@) by {
        let w = lemma_at_place(feeds, p[a]);
        let r = at[a];
        lemma_places(feeds, r.0, r.1, r.0, r.1);
        assert(with_key(occ, key)[a] == (occ[p[a]].id, occ[p[a]].feed_url));
    }
    assert forall|a: int, b: int| 0 <= a < b < at.len() implies comes_before(
        (#[trigger] at[a]).0,
        at[a].1,
        (#[trigger] at[b]).0,
        at[b].1,
    ) by {
        assert(p[a] < p[b]);
        lemma_places(feeds, at[a].0, at[a].1, at[b].0, at[b].1);
    }
    assert forall|f: int, j: int|
        0 <= f < feeds.len() && 0 <= j < feeds[f].items@.len() && key_of(#[trigger] feeds[f].items@[j])
            == Some((groups[g].key@, groups[g].key_kind)) implies at.contains((f, j)) by {
        lemma_places(feeds, f, j, f, j);
        let i = place(feeds, f, j);
        assert(p.contains(i));
        let a = choose|a: int| 0 <= a < p.len() && p[a] == i;
        let r = at[a];
        lemma_places(feeds, f, j, r.0, r.1);
        lemma_places(feeds, r.0, r.1, f, j);
        assert(r == (f, j));
        assert(at[a] == (f, j));
    }
    at
}

/// Collapsing keeps of the items that are known by the same the first, and every item that has no copy
/// before it, in their order, and changes nothing else of a feed.
pub proof fn law_collapsing_keeps_the_first_copies(
    feeds: Seq<FeedResult>,
    from: Seq<FeedResult>,
    groups: Seq<DuplicateGroup>,
    f: int,
) -> (at: Seq<int>)
    requires
        are_groups(groups, from),
        are_collapsed(feeds, from, groups),
        0 <= f < from.len(),
    ensures
        feeds.len() == from.len(),
        at.len() == feeds[f].items@.len(),
        forall|a: int|
            0 <= a < at.len() ==> 0 <= #[trigger] at[a] < from[f].items@.len() && feeds[f].items@[a]
                == from[f].items@[at[a]],
        forall|a: int, b: int| 0 <= a < b < at.len() ==> #[trigger] at[a] < #[trigger] at[b],
        forall|j: int|
            0 <= j < from[f].items@.len() ==> (#[trigger] at.contains(j) <==> (key_of(from[f].items@[j])
                is None || !has_earlier_copy(from, f, j))),
        feeds[f].feed_url == from[f].feed_url && feeds[f].status == from[f].status && feeds[f].from_cache
            == from[f].from_cache && feeds[f].title == from[f].title && feeds[f].site_url
            == from[f].site_url && feeds[f].updated == from[f].updated && feeds[f].error == from[f].error
            && feeds[f].cached_at == from[f].cached_at && feeds[f].cache_age_seconds
            == from[f].cache_age_seconds,
{
    let occ = occurrences(from);
    let items = from[f].items@;
    let start = item_total(from.take(f)) as int;
    assert(crate::totals::same_shell(feeds[f], from[f]));
    assert(feeds[f].items@ == surviving(items, occ, start, groups));
    let at = lemma_survivors(items, occ, start, groups);
    assert forall|j: int| 0 <= j < items.len() implies (#[trigger] at.contains(j) <==> (key_of(items[j])
        is None || !has_earlier_copy(from, f, j))) by {
        lemma_survives(from, groups, f, j);
        assert(at.contains(j) <==> survives(occ, start + j, groups));
    }
    at
}

proof fn lemma_survivors(items: Seq<Item>, occ: Seq<Occurrence>, start: int, groups: Seq<DuplicateGroup>) -> (at:
    Seq<int>)
    ensures
        at.len() == surviving(items, occ, start, groups).len(),
        forall|a: int|
            0 <= a < at.len() ==> 0 <= #[trigger] at[a] < items.len() && surviving(items, occ, start, groups)[a]
                == items[at[a]],
        forall|a: int, b: int| 0 <= a < b < at.len() ==> #[trigger] at[a] < #[trigger] at[b],
        forall|j: int| 0 <= j < items.len() ==> (#[trigger] at.contains(j) <==> survives(occ, start + j, groups)),
    decreases items.len(),
{
    if items.len() == 0 {
        Seq::empty()
    } else {
        let r = items.drop_last();
        let p = lemma_survivors(r, occ, start, groups);
        let n = items.len() - 1;
        let at = if survives(occ, start + n, groups) {
            p.push(n)
        } else {
            p
        };
        assert forall|a: int| 0 <= a < at.len() implies 0 <= #[trigger] at[a] < items.len() && surviving(
            items,
            occ,
            start,
            groups,
        )[a] == items[at[a]] by {
            if a < p.len() {
                assert(at[a] == p[a]);
                assert(r[p[a]] == items[p[a]]);
            }
        }
        assert forall|j: int| 0 <= j < items.len() implies (#[trigger] at.contains(j) <==> survives(
            occ,
            start + j,
            groups,
        )) by {
            if j < n {
                assert(p.contains(j) <==> survives(occ, start + j, groups));
                if p.contains(j) {
                    let a = choose|a: int| 0 <= a < p.len() && p[a] == j;
                    assert(at[a] == j);
                }
                if at.contains(j) {
                    let a = choose|a: int| 0 <= a < at.len() && at[a] == j;
                    assert(p[a] == j);
                }
            } else {
                if survives(occ, start + n, groups) {
                    assert(at[p.len() as int] == n);
                } else if at.contains(n) {
                    let a = choose|a: int| 0 <= a < at.len() && at[a] == n;
                    assert(p[a] < n);
                }
            }
        }
        at
    }
}

proof fn lemma_survives(from: Seq<FeedResult>, groups: Seq<DuplicateGroup>, f: int, j: int)
    requires
        are_groups(groups, from),
        0 <= f < from.len(),
        0 <= j < from[f].items@.len(),
    ensures
        survives(occurrences(from), item_total(from.take(f)) + j, groups) <==> (key_of(from[f].items@[j]) is None
            || !has_earlier_copy(from, f, j)),
{
    let occ = occurrences(from);
    let i = place(from, f, j);
    lemma_places(from, f, j, f, j);
    if key_of(from[f].items@[j]) is Some {
        let k = key_of(from[f].items@[j])->Some_0;
        if has_earlier_copy(from, f, j) {
            let (g, m) = choose|g: int, m: int|
                0 <= g < from.len() && 0 <= m < from[g].items@.len() && comes_before(g, m, f, j) && key_of(
                    #[trigger] from[g].items@[m],
                ) == key_of(from[f].items@[j]);
            lemma_places(from, g, m, f, j);
            let x = place(from, g, m);
            lemma_second_key(occ, x, i, k);
            let h = lemma_group_of(groups, from, k);
            assert(is_target(k, groups)) by {
                assert((groups[h].key@, groups[h].key_kind) == k);
            }
            assert(occ[x].key == Some(k));
        } else {
            assert forall|x: int| 0 <= x < i implies (#[trigger] occ[x]).key != Some(k) by {
                if occ[x].key == Some(k) {
                    lemma_occurrence_count(from);
                    let (g, m) = lemma_at_place(from, x);
                    lemma_places(from, g, m, f, j);
                    assert(key_of(from[g].items@[m]) == key_of(from[f].items@[j]));
                    assert(has_earlier_copy(from, f, j));
                }
            }
        }
    }
}

/// Items are looked at in the order of the feeds and of their items.
pub proof fn law_feeds_are_looked_at_in_order(a: Seq<FeedResult>, b: Seq<FeedResult>, f: FeedResult)
    ensures
        occurrences(a + b) == occurrences(a) + occurrences(b),
        occurrences(seq![f]).len() == f.items@.len(),
        forall|j: int|
            0 <= j < f.items@.len() ==> (#[trigger] occurrences(seq![f])[j]).key == key_of(f.items@[j])
                && occurrences(seq![f])[j].id == f.items@[j].id@ && occurrences(seq![f])[j].feed_url
                == f.feed_url@,
    decreases b.len(),
{
    reveal_with_fuel(occurrences, 2);
    assert(seq![f].drop_last() =~= Seq::empty());
    assert(occurrences(seq![f]) =~= feed_occurrences(f.feed_url@, f.items@));
    if b.len() == 0 {
        assert(a + b =~= a);
        assert(occurrences(a) + occurrences(b) =~= occurrences(a));
    } else {
        law_feeds_are_looked_at_in_order(a, b.drop_last(), f);
        assert((a + b).drop_last() =~= a + b.drop_last());
        assert((a + b).last() == b.last());
        assert(occurrences(a + b) =~= occurrences(a) + occurrences(b));
    }
}

} // verus!
