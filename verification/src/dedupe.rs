//! Items that resolve to the same underlying entry, grouped and collapsed.

use vstd::prelude::*;
use vstd::string::*;

use crate::config::DedupeMode;
use crate::model::{DuplicateGroup, DuplicateKeyKind, FeedResult, FetchOutput, Item};
use crate::text::same;
use crate::totals::refresh_feed_counts;

verus! {

/// A text that is present and not empty.
pub open spec fn present(s: Option<String>) -> Option<Seq<char>> {
    match s {
        Some(t) => if t@.len() > 0 {
            Some(t@)
        } else {
            None
        },
        None => None,
    }
}

/// What an item is known by across feeds, if by anything: its guid, else its url, else the hash of
/// its content.
pub open spec fn key_of(item: Item) -> Option<(Seq<char>, DuplicateKeyKind)> {
    match present(item.guid) {
        Some(g) => Some((g, DuplicateKeyKind::Guid)),
        None => match present(item.url) {
            Some(u) => Some((u, DuplicateKeyKind::Url)),
            None => match present(item.content_hash) {
                Some(h) => Some((h, DuplicateKeyKind::ContentHash)),
                None => None,
            },
        },
    }
}

/// An occurrence of an item: its key, its id, and its feed.
pub struct Occurrence {
    pub key: Option<(Seq<char>, DuplicateKeyKind)>,
    pub id: Seq<char>,
    pub feed_url: Seq<char>,
}

/// The occurrences that a feed's items are.
pub open spec fn feed_occurrences(feed_url: Seq<char>, items: Seq<Item>) -> Seq<Occurrence> {
    items.map_values(|i: Item| Occurrence { key: key_of(i), id: i.id@, feed_url })
}

/// All occurrences, in order over feeds and items.
pub open spec fn occurrences(feeds: Seq<FeedResult>) -> Seq<Occurrence>
    decreases feeds.len(),
{
    if feeds.len() == 0 {
        Seq::empty()
    } else {
        occurrences(feeds.drop_last()) + feed_occurrences(
            feeds.last().feed_url@,
            feeds.last().items@,
        )
    }
}

/// The keys, in order of first appearance.
pub open spec fn first_keys(occ: Seq<Occurrence>) -> Seq<(Seq<char>, DuplicateKeyKind)>
    decreases occ.len(),
{
    if occ.len() == 0 {
        Seq::empty()
    } else {
        let before = first_keys(occ.drop_last());
        match occ.last().key {
            Some(k) => if before.contains(k) {
                before
            } else {
                before.push(k)
            },
            None => before,
        }
    }
}

/// The occurrences with a key, as pairs of id and feed, in order.
pub open spec fn with_key(occ: Seq<Occurrence>, key: (Seq<char>, DuplicateKeyKind)) -> Seq<
    (Seq<char>, Seq<char>),
>
    decreases occ.len(),
{
    if occ.len() == 0 {
        Seq::empty()
    } else {
        let before = with_key(occ.drop_last(), key);
        if occ.last().key == Some(key) {
            before.push((occ.last().id, occ.last().feed_url))
        } else {
            before
        }
    }
}

/// The group is that of a key.
pub open spec fn is_group(g: DuplicateGroup, key: (Seq<char>, DuplicateKeyKind), occ: Seq<Occurrence>) -> bool {
    let pairs = with_key(occ, key);
    &&& (g.key@, g.key_kind) == key
    &&& g.item_ids.deep_view() == pairs.map_values(|p: (Seq<char>, Seq<char>)| p.0)
    &&& g.feed_urls.deep_view() == pairs.map_values(|p: (Seq<char>, Seq<char>)| p.1)
}

/// The keys that occur more than once, in order of first appearance.
pub open spec fn repeated_keys(occ: Seq<Occurrence>) -> Seq<(Seq<char>, DuplicateKeyKind)> {
    first_keys(occ).filter(|k: (Seq<char>, DuplicateKeyKind)| with_key(occ, k).len() > 1)
}

/// The groups are those of the keys that occur more than once, in order of first appearance.
pub open spec fn are_groups(groups: Seq<DuplicateGroup>, feeds: Seq<FeedResult>) -> bool {
    let occ = occurrences(feeds);
    let keys = repeated_keys(occ);
    &&& groups.len() == keys.len()
    &&& forall|g: int| 0 <= g < groups.len() ==> is_group(#[trigger] groups[g], keys[g], occ)
}

fn filled(s: &Option<String>) -> (r: Option<String>)
    ensures
        r.deep_view() == present(*s),
{
    match s {
        Some(t) => if t.as_str().is_empty() {
            None
        } else {
            Some(t.clone())
        },
        None => None,
    }
}

/// A key, as mathematics.
pub open spec fn key_view(k: Option<(String, DuplicateKeyKind)>) -> Option<
    (Seq<char>, DuplicateKeyKind),
> {
    match k {
        Some((s, kind)) => Some((s@, kind)),
        None => None,
    }
}

/// What an item is known by across feeds: its guid, else its url, else the hash of its content.
pub fn dedup_key(item: &Item) -> (r: Option<(String, DuplicateKeyKind)>)
    ensures
        key_view(r) == key_of(*item),
{
    if let Some(g) = filled(&item.guid) {
        return Some((g, DuplicateKeyKind::Guid));
    }
    if let Some(u) = filled(&item.url) {
        return Some((u, DuplicateKeyKind::Url));
    }
    match filled(&item.content_hash) {
        Some(h) => Some((h, DuplicateKeyKind::ContentHash)),
        None => None,
    }
}

/// A key under which items are collected, with what was collected.
struct Slot {
    key: String,
    kind: DuplicateKeyKind,
    ids: Vec<String>,
    urls: Vec<String>,
}

spec fn slot_key(s: Slot) -> (Seq<char>, DuplicateKeyKind) {
    (s.key@, s.kind)
}

spec fn slot_pairs_ok(s: Slot, occ: Seq<Occurrence>) -> bool {
    let pairs = with_key(occ, slot_key(s));
    &&& s.ids.deep_view() == pairs.map_values(|p: (Seq<char>, Seq<char>)| p.0)
    &&& s.urls.deep_view() == pairs.map_values(|p: (Seq<char>, Seq<char>)| p.1)
}

spec fn slots_ok(slots: Seq<Slot>, occ: Seq<Occurrence>) -> bool {
    &&& slots.map_values(|s: Slot| slot_key(s)) == first_keys(occ)
    &&& forall|j: int| 0 <= j < slots.len() ==> slot_pairs_ok(#[trigger] slots[j], occ)
}

fn find_slot(slots: &Vec<Slot>, key: &str, kind: DuplicateKeyKind) -> (r: Option<usize>)
    ensures
        match r {
            Some(j) => j < slots@.len() && slot_key(slots@[j as int]) == (key@, kind) && forall|
                k: int,
            |
                0 <= k < j ==> slot_key(#[trigger] slots@[k]) != (key@, kind),
            None => forall|k: int|
                0 <= k < slots@.len() ==> slot_key(#[trigger] slots@[k]) != (key@, kind),
        },
{
    let mut j: usize = 0;
    while j < slots.len()
        invariant
            j <= slots@.len(),
            forall|k: int| 0 <= k < j ==> slot_key(#[trigger] slots@[k]) != (key@, kind),
        decreases slots@.len() - j,
    {
        if slots[j].kind == kind && same(slots[j].key.as_str(), key) {
            return Some(j);
        }
        j = j + 1;
    }
    None
}

proof fn lemma_first_keys_distinct(occ: Seq<Occurrence>)
    ensures
        first_keys(occ).no_duplicates(),
    decreases occ.len(),
{
    if occ.len() > 0 {
        lemma_first_keys_distinct(occ.drop_last());
    }
}

pub(crate) proof fn lemma_unseen_key(occ: Seq<Occurrence>, key: (Seq<char>, DuplicateKeyKind))
    requires
        !first_keys(occ).contains(key),
    ensures
        with_key(occ, key).len() == 0,
    decreases occ.len(),
{
    if occ.len() > 0 {
        let before = first_keys(occ.drop_last());
        if before.contains(key) {
            let i = choose|i: int| 0 <= i < before.len() && before[i] == key;
            assert(first_keys(occ)[i] == key);
        }
        if occ.last().key == Some(key) {
            if !before.contains(key) {
                assert(first_keys(occ)[before.len() as int] == key);
            }
        }
        lemma_unseen_key(occ.drop_last(), key);
    }
}

/// Notes one more occurrence.
fn note_occurrence(slots: &mut Vec<Slot>, item: &Item, feed_url: &str, Ghost(occ): Ghost<Seq<Occurrence>>)
    requires
        slots_ok(old(slots)@, occ),
    ensures
        slots_ok(
            final(slots)@,
            occ.push(Occurrence { key: key_of(*item), id: item.id@, feed_url: feed_url@ }),
        ),
{
    let ghost next = occ.push(
        Occurrence { key: key_of(*item), id: item.id@, feed_url: feed_url@ },
    );
    let ghost keyf = |s: Slot| slot_key(s);
    let ghost fst = |p: (Seq<char>, Seq<char>)| p.0;
    let ghost snd = |p: (Seq<char>, Seq<char>)| p.1;
    let ghost before = slots@;
    assert(next.drop_last() =~= occ);
    match dedup_key(item) {
        None => {
            assert forall|j: int| 0 <= j < slots@.len() implies slot_pairs_ok(
                #[trigger] slots@[j],
                next,
            ) by {
                assert(slot_pairs_ok(before[j], occ));
            }
        },
        Some((key, kind)) => {
            let ghost k = (key@, kind);
            match find_slot(slots, key.as_str(), kind) {
                Some(j) => {
                    let ghost was = slots@[j as int];
                    slots[j].ids.push(item.id.clone());
                    slots[j].urls.push(feed_url.to_owned());
                    proof {
                        lemma_first_keys_distinct(occ);
                        assert(before.map_values(keyf)[j as int] == k);
                        assert(first_keys(occ).contains(k));
                        assert(slots@.map_values(keyf) =~= first_keys(next));
                        assert forall|i: int| 0 <= i < slots@.len() implies slot_pairs_ok(
                            #[trigger] slots@[i],
                            next,
                        ) by {
                            assert(slot_pairs_ok(before[i], occ));
                            if i == j {
                                let pairs = with_key(occ, k);
                                assert(slots@[i].ids.deep_view() =~= was.ids.deep_view().push(item.id@));
                                assert(slots@[i].urls.deep_view() =~= was.urls.deep_view().push(feed_url@));
                                assert(pairs.push((item.id@, feed_url@)).map_values(fst)
                                    =~= pairs.map_values(fst).push(item.id@));
                                assert(pairs.push((item.id@, feed_url@)).map_values(snd)
                                    =~= pairs.map_values(snd).push(feed_url@));
                            } else {
                                assert(before.map_values(keyf)[i] != before.map_values(keyf)[j as int]);
                            }
                        }
                    }
                },
                None => {
                    let mut ids: Vec<String> = Vec::new();
                    ids.push(item.id.clone());
                    let mut urls: Vec<String> = Vec::new();
                    urls.push(feed_url.to_owned());
                    let fresh = Slot { key, kind, ids, urls };
                    slots.push(fresh);
                    proof {
                        if first_keys(occ).contains(k) {
                            let i = choose|i: int| 0 <= i < first_keys(occ).len() && first_keys(occ)[i] == k;
                            assert(slot_key(before[i]) == before.map_values(keyf)[i]);
                        }
                        lemma_unseen_key(occ, k);
                        assert(with_key(occ, k) =~= Seq::empty());
                        assert(slots@.map_values(keyf) =~= first_keys(next));
                        let pairs = with_key(next, k);
                        assert(pairs =~= seq![(item.id@, feed_url@)]);
                        assert(fresh.ids.deep_view() =~= pairs.map_values(fst));
                        assert(fresh.urls.deep_view() =~= pairs.map_values(snd));
                        assert forall|i: int| 0 <= i < slots@.len() implies slot_pairs_ok(
                            #[trigger] slots@[i],
                            next,
                        ) by {
                            if i < before.len() {
                                assert(slot_pairs_ok(before[i], occ));
                                assert(slot_key(before[i]) != k);
                            }
                        }
                    }
                },
            }
        },
    }
}

proof fn lemma_repeated_prefix(
    keys: Seq<(Seq<char>, DuplicateKeyKind)>,
    keep: spec_fn((Seq<char>, DuplicateKeyKind)) -> bool,
    i: int,
)
    requires
        0 <= i < keys.len(),
    ensures
        keys.take(i + 1).filter(keep) == (if keep(keys[i]) {
            keys.take(i).filter(keep).push(keys[i])
        } else {
            keys.take(i).filter(keep)
        }),
{
    reveal(Seq::filter);
    assert(keys.take(i + 1).drop_last() =~= keys.take(i));
    assert(keys.take(i + 1).last() == keys[i]);
}

/// Groups the items of an output that resolve to the same entry, in order of first appearance.
pub fn find_duplicates(output: &FetchOutput) -> (r: Vec<DuplicateGroup>)
    ensures
        are_groups(r@, output.feeds@),
{
    let ghost feeds = output.feeds@;
    let mut slots: Vec<Slot> = Vec::new();
    let mut fi: usize = 0;
    proof {
        assert(feeds.take(0) =~= Seq::empty());
        assert(slots@.map_values(|s: Slot| slot_key(s)) =~= Seq::empty());
    }
    while fi < output.feeds.len()
        invariant
            fi <= feeds.len(),
            feeds == output.feeds@,
            slots_ok(slots@, occurrences(feeds.take(fi as int))),
        decreases feeds.len() - fi,
    {
        let feed = &output.feeds[fi];
        let ghost before = occurrences(feeds.take(fi as int));
        let ghost here = feed_occurrences(feed.feed_url@, feed.items@);
        let mut ii: usize = 0;
        assert(before + here.take(0) =~= before);
        while ii < feed.items.len()
            invariant
                ii <= feed.items@.len(),
                here == feed_occurrences(feed.feed_url@, feed.items@),
                slots_ok(slots@, before + here.take(ii as int)),
            decreases feed.items@.len() - ii,
        {
            note_occurrence(
                &mut slots,
                &feed.items[ii],
                feed.feed_url.as_str(),
                Ghost(before + here.take(ii as int)),
            );
            assert((before + here.take(ii as int)).push(here[ii as int]) =~= before + here.take(
                ii + 1,
            ));
            ii = ii + 1;
        }
        proof {
            assert(here.take(ii as int) =~= here);
            assert(feeds.take(fi + 1).drop_last() =~= feeds.take(fi as int));
        }
        fi = fi + 1;
    }
    assert(feeds.take(fi as int) =~= feeds);
    let ghost occ = occurrences(feeds);
    let ghost keys = first_keys(occ);
    let ghost keep = |k: (Seq<char>, DuplicateKeyKind)| with_key(occ, k).len() > 1;
    let ghost all = slots@;
    let mut groups: Vec<DuplicateGroup> = Vec::new();
    proof {
        reveal(Seq::filter);
        assert(keys.take(0).filter(keep) =~= Seq::empty());
    }
    for slot in it: slots.into_iter()
        invariant
            it.seq() == all,
            slots_ok(all, occ),
            keys == first_keys(occ),
            keep == |k: (Seq<char>, DuplicateKeyKind)| with_key(occ, k).len() > 1,
            groups@.len() == keys.take(it.index()).filter(keep).len(),
            forall|g: int|
                0 <= g < groups@.len() ==> is_group(
                    #[trigger] groups@[g],
                    keys.take(it.index()).filter(keep)[g],
                    occ,
                ),
    {
        proof {
            let i = it.index();
            assert(slot == all[i]);
            assert(slot_pairs_ok(all[i], occ));
            assert(all.map_values(|s: Slot| slot_key(s))[i] == slot_key(all[i]));
            lemma_repeated_prefix(keys, keep, i);
            assert(slot.ids@.len() == slot.ids.deep_view().len());
        }
        if slot.ids.len() > 1 {
            groups.push(
                DuplicateGroup {
                    key: slot.key,
                    key_kind: slot.kind,
                    item_ids: slot.ids,
                    feed_urls: slot.urls,
                },
            );
        }
    }
    assert(keys.take(keys.len() as int) =~= keys);
    groups
}

/// One of the groups is of this key.
pub open spec fn is_target(key: (Seq<char>, DuplicateKeyKind), groups: Seq<DuplicateGroup>) -> bool {
    exists|g: int| 0 <= g < groups.len() && ((#[trigger] groups[g]).key@, groups[g].key_kind) == key
}

/// Collapsing the groups keeps this occurrence: it has no key, or one that no group is of, or it is
/// the first with its key.
pub open spec fn survives(occ: Seq<Occurrence>, i: int, groups: Seq<DuplicateGroup>) -> bool {
    match occ[i].key {
        None => true,
        Some(k) => !is_target(k, groups) || forall|j: int| 0 <= j < i ==> (#[trigger] occ[j]).key != Some(k),
    }
}

/// The items of a feed, of which the first is occurrence `start`, that collapsing keeps.
pub open spec fn surviving(
    items: Seq<Item>,
    occ: Seq<Occurrence>,
    start: int,
    groups: Seq<DuplicateGroup>,
) -> Seq<Item>
    decreases items.len(),
{
    if items.len() == 0 {
        Seq::empty()
    } else {
        let before = surviving(items.drop_last(), occ, start, groups);
        if survives(occ, start + items.len() - 1, groups) {
            before.push(items.last())
        } else {
            before
        }
    }
}

/// The feeds are the others with the groups collapsed.
pub open spec fn are_collapsed(
    feeds: Seq<FeedResult>,
    from: Seq<FeedResult>,
    groups: Seq<DuplicateGroup>,
) -> bool {
    &&& feeds.len() == from.len()
    &&& forall|f: int|
        0 <= f < feeds.len() ==> crate::totals::same_shell(#[trigger] feeds[f], from[f])
            && feeds[f].items@ == surviving(
            from[f].items@,
            occurrences(from),
            crate::totals::item_total(from.take(f)) as int,
            groups,
        )
}

fn target(key: &str, kind: DuplicateKeyKind, groups: &Vec<DuplicateGroup>) -> (r: bool)
    ensures
        r == is_target((key@, kind), groups@),
{
    let mut g: usize = 0;
    while g < groups.len()
        invariant
            g <= groups@.len(),
            forall|k: int|
                0 <= k < g ==> ((#[trigger] groups@[k]).key@, groups@[k].key_kind) != (key@, kind),
        decreases groups@.len() - g,
    {
        if groups[g].key_kind == kind && same(groups[g].key.as_str(), key) {
            assert((groups@[g as int].key@, groups@[g as int].key_kind) == (key@, kind));
            return true;
        }
        g = g + 1;
    }
    false
}

fn was_seen(seen: &Vec<(String, DuplicateKeyKind)>, key: &str, kind: DuplicateKeyKind) -> (r: bool)
    ensures
        r == seen_keys(seen@).contains((key@, kind)),
{
    let mut j: usize = 0;
    while j < seen.len()
        invariant
            j <= seen@.len(),
            forall|k: int| 0 <= k < j ==> #[trigger] seen_keys(seen@)[k] != (key@, kind),
        decreases seen@.len() - j,
    {
        assert(seen_keys(seen@)[j as int] == (seen@[j as int].0@, seen@[j as int].1));
        if seen[j].1 == kind && same(seen[j].0.as_str(), key) {
            return true;
        }
        j = j + 1;
    }
    false
}

spec fn seen_keys(seen: Seq<(String, DuplicateKeyKind)>) -> Seq<(Seq<char>, DuplicateKeyKind)> {
    seen.map_values(|p: (String, DuplicateKeyKind)| (p.0@, p.1))
}

/// What was seen is exactly the targeted keys of the first `n` occurrences.
spec fn seen_ok(
    seen: Seq<(String, DuplicateKeyKind)>,
    occ: Seq<Occurrence>,
    n: int,
    groups: Seq<DuplicateGroup>,
) -> bool {
    forall|k: (Seq<char>, DuplicateKeyKind)| #[trigger]
        seen_keys(seen).contains(k) <==> (is_target(k, groups) && exists|j: int|
            0 <= j < n && (#[trigger] occ[j]).key == Some(k))
}

proof fn lemma_seen_step(
    seen: Seq<(String, DuplicateKeyKind)>,
    next: Seq<(String, DuplicateKeyKind)>,
    occ: Seq<Occurrence>,
    n: int,
    groups: Seq<DuplicateGroup>,
)
    requires
        seen_ok(seen, occ, n, groups),
        0 <= n < occ.len(),
        match occ[n].key {
            None => next == seen,
            Some(k) => if is_target(k, groups) && !seen_keys(seen).contains(k) {
                seen_keys(next) == seen_keys(seen).push(k)
            } else {
                next == seen
            },
        },
    ensures
        seen_ok(next, occ, n + 1, groups),
{
    assert forall|k: (Seq<char>, DuplicateKeyKind)| #[trigger]
        seen_keys(next).contains(k) <==> (is_target(k, groups) && exists|j: int|
            0 <= j < n + 1 && (#[trigger] occ[j]).key == Some(k)) by {
        if seen_keys(seen).contains(k) {
            let i = choose|i: int| 0 <= i < seen_keys(seen).len() && seen_keys(seen)[i] == k;
            assert(seen_keys(next)[i] == k);
            let j = choose|j: int| 0 <= j < n && (#[trigger] occ[j]).key == Some(k);
            assert(occ[j].key == Some(k));
        } else if occ[n].key == Some(k) && is_target(k, groups) {
            assert(seen_keys(next)[seen_keys(seen).len() as int] == k);
        } else if seen_keys(next).contains(k) {
            let i = choose|i: int| 0 <= i < seen_keys(next).len() && seen_keys(next)[i] == k;
            if i < seen_keys(seen).len() {
                assert(seen_keys(seen)[i] == k);
            }
        }
    }
}

/// Collapses the items of one feed.
fn collapse_feed(
    items: Vec<Item>,
    groups: &Vec<DuplicateGroup>,
    seen: &mut Vec<(String, DuplicateKeyKind)>,
    Ghost(occ): Ghost<Seq<Occurrence>>,
    Ghost(start): Ghost<int>,
) -> (r: Vec<Item>)
    requires
        0 <= start,
        start + items@.len() <= occ.len(),
        forall|j: int| 0 <= j < items@.len() ==> (#[trigger] occ[start + j]).key == key_of(items@[j]),
        seen_ok(old(seen)@, occ, start, groups@),
    ensures
        r@ == surviving(items@, occ, start, groups@),
        seen_ok(final(seen)@, occ, start + items@.len(), groups@),
{
    let mut out: Vec<Item> = Vec::new();
    let ghost all = items@;
    assert(all.take(0) =~= Seq::empty());
    for item in it: items.into_iter()
        invariant
            it.seq() == all,
            0 <= start,
            start + all.len() <= occ.len(),
            forall|j: int| 0 <= j < all.len() ==> (#[trigger] occ[start + j]).key == key_of(all[j]),
            seen_ok(seen@, occ, start + it.index(), groups@),
            out@ == surviving(all.take(it.index()), occ, start, groups@),
    {
        let ghost i = it.index();
        let ghost before = seen@;
        proof {
            assert(item == all[i]);
            assert(occ[start + i].key == key_of(all[i]));
            assert(all.take(i + 1).drop_last() =~= all.take(i));
            assert(all.take(i + 1).last() == all[i]);
        }
        let keep = match dedup_key(&item) {
            None => true,
            Some((key, kind)) => {
                let ghost k = (key@, kind);
                if !target(key.as_str(), kind, groups) {
                    true
                } else if was_seen(seen, key.as_str(), kind) {
                    proof {
                        let j = choose|j: int|
                            0 <= j < start + i && (#[trigger] occ[j]).key == Some(k);
                        assert(occ[j].key == Some(k));
                    }
                    false
                } else {
                    proof {
                        assert forall|j: int| 0 <= j < start + i implies (#[trigger] occ[j]).key
                            != Some(k) by {
                            if occ[j].key == Some(k) {
                                assert(seen_keys(seen@).contains(k));
                            }
                        }
                    }
                    seen.push((key, kind));
                    assert(seen_keys(seen@) =~= seen_keys(before).push(k));
                    true
                }
            },
        };
        proof {
            assert(keep == survives(occ, start + i, groups@));
            lemma_seen_step(before, seen@, occ, start + i, groups@);
        }
        if keep {
            out.push(item);
        }
    }
    assert(all.take(all.len() as int) =~= all);
    out
}

pub(crate) proof fn lemma_occurrence_count(feeds: Seq<FeedResult>)
    ensures
        occurrences(feeds).len() == crate::totals::item_total(feeds),
    decreases feeds.len(),
{
    if feeds.len() > 0 {
        lemma_occurrence_count(feeds.drop_last());
    }
}

/// Collapsing adds neither items nor tokens.
pub proof fn lemma_surviving_is_smaller(
    items: Seq<Item>,
    occ: Seq<Occurrence>,
    start: int,
    groups: Seq<DuplicateGroup>,
)
    ensures
        surviving(items, occ, start, groups).len() <= items.len(),
        crate::totals::tokens_sum(surviving(items, occ, start, groups))
            <= crate::totals::tokens_sum(items),
    decreases items.len(),
{
    if items.len() > 0 {
        lemma_surviving_is_smaller(items.drop_last(), occ, start, groups);
        let before = surviving(items.drop_last(), occ, start, groups);
        assert(before.push(items.last()).drop_last() =~= before);
    }
}

proof fn lemma_smaller_lists(a: Seq<FeedResult>, b: Seq<FeedResult>)
    requires
        a.len() == b.len(),
        forall|f: int|
            0 <= f < a.len() ==> (#[trigger] a[f]).items@.len() <= b[f].items@.len()
                && crate::totals::tokens_sum(a[f].items@) <= crate::totals::tokens_sum(b[f].items@),
    ensures
        crate::totals::item_total(a) <= crate::totals::item_total(b),
        crate::totals::token_total(a) <= crate::totals::token_total(b),
    decreases a.len(),
{
    if a.len() > 0 {
        let n = a.len() - 1;
        assert(a[n].items@.len() <= b[n].items@.len());
        assert forall|f: int| 0 <= f < n implies (#[trigger] a.drop_last()[f]).items@.len()
            <= b.drop_last()[f].items@.len() && crate::totals::tokens_sum(a.drop_last()[f].items@)
            <= crate::totals::tokens_sum(b.drop_last()[f].items@) by {
            assert(a[f].items@.len() <= b[f].items@.len());
        }
        lemma_smaller_lists(a.drop_last(), b.drop_last());
    }
}

/// Collapses each group to its first occurrence and refreshes all counts. The groups select which
/// keys to collapse; with no group nothing changes.
pub fn drop_duplicates(output: &mut FetchOutput, groups: &Vec<DuplicateGroup>)
    requires
        crate::totals::counts_fit(old(output).feeds@),
    ensures
        groups@.len() == 0 ==> *final(output) == *old(output),
        groups@.len() > 0 ==> {
            &&& crate::totals::same_envelope(*final(output), *old(output))
            &&& are_collapsed(final(output).feeds@, old(output).feeds@, groups@)
            &&& crate::totals::counts_hold(*final(output))
        },
{
    if groups.len() == 0 {
        return;
    }
    let ghost o = *output;
    let ghost from = o.feeds@;
    let ghost occ = occurrences(from);
    let mut seen: Vec<(String, DuplicateKeyKind)> = Vec::new();
    let mut f: usize = 0;
    proof {
        lemma_occurrence_count(from);
        assert(from.take(0) =~= Seq::empty());
        assert(seen_keys(seen@) =~= Seq::empty());
    }
    while f < output.feeds.len()
        invariant
            f <= output.feeds@.len(),
            output.feeds@.len() == from.len(),
            from == o.feeds@,
            occ == occurrences(from),
            occ.len() == crate::totals::item_total(from),
            crate::totals::same_envelope(*output, o),
            output.total_items == o.total_items,
            output.total_content_tokens_est == o.total_content_tokens_est,
            seen_ok(seen@, occ, crate::totals::item_total(from.take(f as int)) as int, groups@),
            forall|k: int|
                0 <= k < f ==> crate::totals::same_shell(#[trigger] output.feeds@[k], from[k])
                    && output.feeds@[k].items@ == surviving(
                    from[k].items@,
                    occ,
                    crate::totals::item_total(from.take(k)) as int,
                    groups@,
                ),
            forall|k: int| f <= k < from.len() ==> #[trigger] output.feeds@[k] == from[k],
        decreases output.feeds@.len() - f,
    {
        let ghost start = crate::totals::item_total(from.take(f as int)) as int;
        let ghost was = output.feeds@;
        proof {
            assert(output.feeds@[f as int] == from[f as int]);
            crate::totals::lemma_feed_in_totals(from, f as int);
            assert forall|j: int| 0 <= j < from[f as int].items@.len() implies (#[trigger] occ[start
                + j]).key == key_of(from[f as int].items@[j]) by {
                lemma_occurrence_at(from, f as int, j);
            }
        }
        let mut items: Vec<Item> = Vec::new();
        std::mem::swap(&mut items, &mut output.feeds[f].items);
        let kept = collapse_feed(items, groups, &mut seen, Ghost(occ), Ghost(start));
        output.feeds[f].items = kept;
        assert forall|k: int| 0 <= k < from.len() && k != f implies #[trigger] output.feeds@[k]
            == was[k] by {}
        f = f + 1;
    }
    let ghost collapsed = output.feeds@;
    proof {
        assert forall|k: int| 0 <= k < from.len() implies (#[trigger] collapsed[k]).items@.len()
            <= from[k].items@.len() && crate::totals::tokens_sum(collapsed[k].items@)
            <= crate::totals::tokens_sum(from[k].items@) by {
            lemma_surviving_is_smaller(
                from[k].items@,
                occ,
                crate::totals::item_total(from.take(k)) as int,
                groups@,
            );
        }
        lemma_smaller_lists(collapsed, from);
    }
    refresh_feed_counts(output);
    assert forall|k: int| 0 <= k < from.len() implies crate::totals::same_shell(
        #[trigger] output.feeds@[k],
        from[k],
    ) && output.feeds@[k].items@ == surviving(
        from[k].items@,
        occ,
        crate::totals::item_total(from.take(k)) as int,
        groups@,
    ) by {
        assert(crate::totals::same_shell(output.feeds@[k], collapsed[k]));
    }
}

/// Applies a dedupe mode: `Off` reports no groups, `Report` reports them, `Drop` also collapses
/// them. Under `Drop` the groups stay as the record of what was removed.
pub fn apply_dedupe(output: &mut FetchOutput, mode: DedupeMode)
    requires
        crate::totals::counts_fit(old(output).feeds@),
    ensures
        crate::totals::same_envelope(
            *final(output),
            (FetchOutput { duplicates: final(output).duplicates, ..*old(output) }),
        ),
        mode == DedupeMode::Off ==> final(output).duplicates@.len() == 0,
        mode != DedupeMode::Off ==> are_groups(final(output).duplicates@, old(output).feeds@),
        mode != DedupeMode::Drop || final(output).duplicates@.len() == 0 ==> {
            &&& final(output).feeds == old(output).feeds
            &&& final(output).total_items == old(output).total_items
            &&& final(output).total_content_tokens_est == old(output).total_content_tokens_est
        },
        mode == DedupeMode::Drop && final(output).duplicates@.len() > 0 ==> {
            &&& are_collapsed(final(output).feeds@, old(output).feeds@, final(output).duplicates@)
            &&& crate::totals::counts_hold(*final(output))
        },
{
    match mode {
        DedupeMode::Off => {
            output.duplicates = Vec::new();
        },
        DedupeMode::Report => {
            let groups = find_duplicates(output);
            output.duplicates = groups;
        },
        DedupeMode::Drop => {
            let groups = find_duplicates(output);
            drop_duplicates(output, &groups);
            output.duplicates = groups;
        },
    }
}

/// Every group lists at least two occurrences, and its ids and feeds are parallel.
pub proof fn law_groups_are_pairs_of_lists(groups: Seq<DuplicateGroup>, feeds: Seq<FeedResult>, g: int)
    requires
        are_groups(groups, feeds),
        0 <= g < groups.len(),
    ensures
        groups[g].item_ids@.len() >= 2,
        groups[g].item_ids@.len() == groups[g].feed_urls@.len(),
{
    let occ = occurrences(feeds);
    let keys = repeated_keys(occ);
    let keep = |k: (Seq<char>, DuplicateKeyKind)| with_key(occ, k).len() > 1;
    assert(is_group(groups[g], keys[g], occ));
    broadcast use vstd::seq_lib::group_filter_ensures;

    assert(keys == first_keys(occ).filter(keep));
    assert(keep(keys[g]));
    assert(groups[g].item_ids.deep_view().len() == groups[g].item_ids@.len());
    assert(groups[g].feed_urls.deep_view().len() == groups[g].feed_urls@.len());
}

/// The occurrences that collapsing keeps, of the first `n`.
spec fn surviving_occurrences(occ: Seq<Occurrence>, n: int, groups: Seq<DuplicateGroup>) -> Seq<Occurrence>
    decreases n,
{
    if n <= 0 {
        Seq::empty()
    } else {
        let before = surviving_occurrences(occ, n - 1, groups);
        if survives(occ, n - 1, groups) {
            before.push(occ[n - 1])
        } else {
            before
        }
    }
}

proof fn lemma_surviving_keys(occ: Seq<Occurrence>, n: int, groups: Seq<DuplicateGroup>, k: (Seq<char>, DuplicateKeyKind))
    requires
        0 <= n <= occ.len(),
    ensures
        is_target(k, groups) ==> with_key(surviving_occurrences(occ, n, groups), k).len() <= 1,
        is_target(k, groups) && (forall|j: int| 0 <= j < n ==> (#[trigger] occ[j]).key != Some(k))
            ==> with_key(surviving_occurrences(occ, n, groups), k).len() == 0,
        !is_target(k, groups) ==> with_key(surviving_occurrences(occ, n, groups), k).len()
            <= with_key(occ.take(n), k).len(),
    decreases n,
{
    if n > 0 {
        lemma_surviving_keys(occ, n - 1, groups, k);
        let before = surviving_occurrences(occ, n - 1, groups);
        assert(before.push(occ[n - 1]).drop_last() =~= before);
        assert(occ.take(n).drop_last() =~= occ.take(n - 1));
        assert(occ.take(n).last() == occ[n - 1]);
    }
}

proof fn lemma_collapsed_feed(
    items: Seq<Item>,
    url: Seq<char>,
    occ: Seq<Occurrence>,
    start: int,
    groups: Seq<DuplicateGroup>,
)
    requires
        0 <= start,
        start + items.len() <= occ.len(),
        forall|j: int|
            0 <= j < items.len() ==> #[trigger] occ[start + j] == feed_occurrences(url, items)[j],
    ensures
        surviving_occurrences(occ, start + items.len(), groups) == surviving_occurrences(
            occ,
            start,
            groups,
        ) + feed_occurrences(url, surviving(items, occ, start, groups)),
    decreases items.len(),
{
    if items.len() == 0 {
        assert(surviving_occurrences(occ, start, groups) + feed_occurrences(
            url,
            surviving(items, occ, start, groups),
        ) =~= surviving_occurrences(occ, start, groups));
    } else {
        let n = items.len() - 1;
        assert forall|j: int| 0 <= j < n implies #[trigger] occ[start + j] == feed_occurrences(
            url,
            items.drop_last(),
        )[j] by {
            assert(occ[start + j] == feed_occurrences(url, items)[j]);
        }
        lemma_collapsed_feed(items.drop_last(), url, occ, start, groups);
        assert(occ[start + n] == feed_occurrences(url, items)[n]);
        assert(surviving_occurrences(occ, start + items.len(), groups) =~= surviving_occurrences(
            occ,
            start,
            groups,
        ) + feed_occurrences(url, surviving(items, occ, start, groups)));
    }
}

proof fn lemma_collapsed_occurrences(
    feeds: Seq<FeedResult>,
    from: Seq<FeedResult>,
    groups: Seq<DuplicateGroup>,
    f: int,
)
    requires
        are_collapsed(feeds, from, groups),
        0 <= f <= feeds.len(),
    ensures
        occurrences(feeds.take(f)) == surviving_occurrences(
            occurrences(from),
            crate::totals::item_total(from.take(f)) as int,
            groups,
        ),
    decreases f,
{
    let occ = occurrences(from);
    if f == 0 {
        assert(feeds.take(0) =~= Seq::empty());
        assert(from.take(0) =~= Seq::empty());
    } else {
        let g = f - 1;
        lemma_collapsed_occurrences(feeds, from, groups, g);
        crate::totals::lemma_feed_in_totals(from, g);
        lemma_occurrence_count(from);
        assert(feeds.take(f).drop_last() =~= feeds.take(g));
        assert(crate::totals::same_shell(feeds[g], from[g]));
        let start = crate::totals::item_total(from.take(g)) as int;
        assert forall|j: int| 0 <= j < from[g].items@.len() implies #[trigger] occ[start + j]
            == feed_occurrences(from[g].feed_url@, from[g].items@)[j] by {
            lemma_occurrence_at(from, g, j);
        }
        lemma_collapsed_feed(from[g].items@, from[g].feed_url@, occ, start, groups);
    }
}

pub(crate) proof fn lemma_occurrence_at(feeds: Seq<FeedResult>, f: int, j: int)
    requires
        0 <= f < feeds.len(),
        0 <= j < feeds[f].items@.len(),
    ensures
        ({
            let i = crate::totals::item_total(feeds.take(f)) + j;
            &&& i < occurrences(feeds).len()
            &&& occurrences(feeds)[i as int] == feed_occurrences(feeds[f].feed_url@, feeds[f].items@)[j]
        }),
    decreases feeds.len(),
{
    lemma_occurrence_count(feeds.drop_last());
    if f == feeds.len() - 1 {
        assert(feeds.take(f) =~= feeds.drop_last());
    } else {
        lemma_occurrence_at(feeds.drop_last(), f, j);
        assert(feeds.drop_last().take(f) =~= feeds.take(f));
    }
}

/// Collapsing the groups of an output leaves no duplicates: looking again finds no group.
pub proof fn law_collapsed_has_no_duplicates(
    feeds: Seq<FeedResult>,
    from: Seq<FeedResult>,
    groups: Seq<DuplicateGroup>,
)
    requires
        are_groups(groups, from),
        are_collapsed(feeds, from, groups),
    ensures
        repeated_keys(occurrences(feeds)).len() == 0,
{
    let left = occurrences(feeds);
    lemma_each_key_once(feeds, from, groups);
    let again = |k: (Seq<char>, DuplicateKeyKind)| with_key(left, k).len() > 1;
    broadcast use vstd::seq_lib::group_filter_ensures;

    assert(repeated_keys(left) == first_keys(left).filter(again));
    if repeated_keys(left).len() > 0 {
        assert(again(repeated_keys(left)[0]));
        assert(with_key(left, repeated_keys(left)[0]).len() <= 1);
    }
}

/// Every key occurs at most once where the groups of an output are collapsed.
proof fn lemma_each_key_once(
    feeds: Seq<FeedResult>,
    from: Seq<FeedResult>,
    groups: Seq<DuplicateGroup>,
)
    requires
        are_groups(groups, from),
        are_collapsed(feeds, from, groups),
    ensures
        forall|k: (Seq<char>, DuplicateKeyKind)| #[trigger]
            with_key(occurrences(feeds), k).len() <= 1,
{
    let occ = occurrences(from);
    let left = occurrences(feeds);
    assert(feeds.take(feeds.len() as int) =~= feeds);
    assert(from.take(from.len() as int) =~= from);
    lemma_collapsed_occurrences(feeds, from, groups, feeds.len() as int);
    lemma_occurrence_count(from);
    let keys = repeated_keys(occ);
    let keep = |k: (Seq<char>, DuplicateKeyKind)| with_key(occ, k).len() > 1;
    assert forall|k: (Seq<char>, DuplicateKeyKind)| #[trigger] with_key(left, k).len() <= 1 by {
        lemma_surviving_keys(occ, occ.len() as int, groups, k);
        assert(occ.take(occ.len() as int) =~= occ);
        if !is_target(k, groups) && with_key(occ, k).len() > 1 {
            if !first_keys(occ).contains(k) {
                lemma_unseen_key(occ, k);
            }
            broadcast use vstd::seq_lib::group_filter_ensures;

            assert(keys == first_keys(occ).filter(keep));
            assert(keep(k));
            assert(keys.contains(k));
            let g = choose|g: int| 0 <= g < keys.len() && keys[g] == k;
            assert(is_group(groups[g], keys[g], occ));
            assert(is_target(k, groups));
        }
    }
}

proof fn lemma_filter_keeps_distinct(
    s: Seq<(Seq<char>, DuplicateKeyKind)>,
    keep: spec_fn((Seq<char>, DuplicateKeyKind)) -> bool,
)
    requires
        s.no_duplicates(),
    ensures
        s.filter(keep).no_duplicates(),
        forall|k: (Seq<char>, DuplicateKeyKind)| #[trigger]
            s.filter(keep).contains(k) ==> s.contains(k),
    decreases s.len(),
{
    reveal(Seq::filter);
    if s.len() > 0 {
        let before = s.drop_last();
        lemma_filter_keeps_distinct(before, keep);
        assert forall|k: (Seq<char>, DuplicateKeyKind)| #[trigger]
            s.filter(keep).contains(k) implies s.contains(k) by {
            let i = choose|i: int| 0 <= i < s.filter(keep).len() && s.filter(keep)[i] == k;
            if i < before.filter(keep).len() {
                assert(before.filter(keep)[i] == k);
                assert(before.filter(keep).contains(k));
                let j = choose|j: int| 0 <= j < before.len() && before[j] == k;
                assert(s[j] == k);
            } else {
                assert(s[s.len() - 1] == k);
            }
        }
        assert forall|i: int| 0 <= i < before.filter(keep).len() implies #[trigger] before.filter(
            keep,
        )[i] != s.last() by {
            let k = before.filter(keep)[i];
            assert(before.filter(keep).contains(k));
            let j = choose|j: int| 0 <= j < before.len() && before[j] == k;
            assert(s[j] == k && s[s.len() - 1] == s.last());
        }
    }
}

/// No two groups are of the same key.
pub(crate) proof fn lemma_groups_are_distinct(groups: Seq<DuplicateGroup>, feeds: Seq<FeedResult>)
    requires
        are_groups(groups, feeds),
    ensures
        forall|g: int, h: int|
            0 <= g < h < groups.len() ==> ((#[trigger] groups[g]).key@, groups[g].key_kind) != ((
            #[trigger] groups[h]).key@, groups[h].key_kind),
{
    let occ = occurrences(feeds);
    let keep = |k: (Seq<char>, DuplicateKeyKind)| with_key(occ, k).len() > 1;
    lemma_first_keys_distinct(occ);
    lemma_filter_keeps_distinct(first_keys(occ), keep);
    let keys = repeated_keys(occ);
    assert(keys == first_keys(occ).filter(keep));
    assert forall|g: int, h: int| 0 <= g < h < groups.len() implies ((#[trigger] groups[g]).key@,
        groups[g].key_kind) != ((#[trigger] groups[h]).key@, groups[h].key_kind) by {
        assert(is_group(groups[g], keys[g], occ));
        assert(is_group(groups[h], keys[h], occ));
        assert(keys[g] != keys[h]);
    }
}

/// How many of the first `n` occurrences repeat the key of one of the first `g` groups.
spec fn repeats(occ: Seq<Occurrence>, n: int, groups: Seq<DuplicateGroup>, g: int) -> int
    decreases g,
{
    if g <= 0 {
        0
    } else {
        let c = with_key(occ.take(n), (groups[g - 1].key@, groups[g - 1].key_kind)).len();
        repeats(occ, n, groups, g - 1) + (if c > 0 {
            c - 1
        } else {
            0
        })
    }
}

proof fn lemma_key_was_seen(occ: Seq<Occurrence>, n: int, k: (Seq<char>, DuplicateKeyKind))
    requires
        0 <= n <= occ.len(),
    ensures
        with_key(occ.take(n), k).len() > 0 <==> exists|j: int| 0 <= j < n && (#[trigger] occ[j]).key
            == Some(k),
    decreases n,
{
    if n > 0 {
        lemma_key_was_seen(occ, n - 1, k);
        assert(occ.take(n).drop_last() =~= occ.take(n - 1));
        assert(occ.take(n).last() == occ[n - 1]);
        if occ[n - 1].key == Some(k) {
            assert(with_key(occ.take(n), k).len() > 0);
        }
    } else {
        assert(occ.take(0) =~= Seq::empty());
    }
}

/// One more occurrence repeats a key of the groups where its key is one of theirs and was there
/// before.
proof fn lemma_one_more_repeat(occ: Seq<Occurrence>, n: int, groups: Seq<DuplicateGroup>, g: int)
    requires
        0 <= n < occ.len(),
        0 <= g <= groups.len(),
        forall|a: int, b: int|
            0 <= a < b < groups.len() ==> ((#[trigger] groups[a]).key@, groups[a].key_kind) != ((
            #[trigger] groups[b]).key@, groups[b].key_kind),
    ensures
        repeats(occ, n + 1, groups, g) == repeats(occ, n, groups, g) + (match occ[n].key {
            Some(k) => if is_target(k, groups.take(g)) && (exists|j: int|
                0 <= j < n && (#[trigger] occ[j]).key == Some(k)) {
                1int
            } else {
                0
            },
            None => 0,
        }),
    decreases g,
{
    if g > 0 {
        lemma_one_more_repeat(occ, n, groups, g - 1);
        let h = (groups[g - 1].key@, groups[g - 1].key_kind);
        assert(occ.take(n + 1).drop_last() =~= occ.take(n));
        assert(occ.take(n + 1).last() == occ[n]);
        lemma_key_was_seen(occ, n, h);
        if occ[n].key is Some {
            let k = occ[n].key->Some_0;
            if k == h {
                assert(groups.take(g)[g - 1] == groups[g - 1]);
                assert(is_target(k, groups.take(g)));
                if is_target(k, groups.take(g - 1)) {
                    let a = choose|a: int|
                        0 <= a < g - 1 && ((#[trigger] groups.take(g - 1)[a]).key@, groups.take(
                            g - 1,
                        )[a].key_kind) == k;
                    assert(groups.take(g - 1)[a] == groups[a]);
                    assert((groups[a].key@, groups[a].key_kind) != (
                        groups[g - 1].key@,
                        groups[g - 1].key_kind,
                    ));
                }
            } else {
                if is_target(k, groups.take(g)) {
                    let a = choose|a: int|
                        0 <= a < g && ((#[trigger] groups.take(g)[a]).key@, groups.take(
                            g,
                        )[a].key_kind) == k;
                    assert(groups.take(g)[a] == groups[a]);
                    assert(a < g - 1);
                    assert(groups.take(g - 1)[a] == groups[a]);
                }
                if is_target(k, groups.take(g - 1)) {
                    let a = choose|a: int|
                        0 <= a < g - 1 && ((#[trigger] groups.take(g - 1)[a]).key@, groups.take(
                            g - 1,
                        )[a].key_kind) == k;
                    assert(groups.take(g)[a] == groups.take(g - 1)[a]);
                }
            }
        }
    }
}

proof fn lemma_survivor_count(occ: Seq<Occurrence>, n: int, groups: Seq<DuplicateGroup>)
    requires
        0 <= n <= occ.len(),
        forall|a: int, b: int|
            0 <= a < b < groups.len() ==> ((#[trigger] groups[a]).key@, groups[a].key_kind) != ((
            #[trigger] groups[b]).key@, groups[b].key_kind),
    ensures
        surviving_occurrences(occ, n, groups).len() == n - repeats(
            occ,
            n,
            groups,
            groups.len() as int,
        ),
    decreases n,
{
    if n > 0 {
        lemma_survivor_count(occ, n - 1, groups);
        lemma_one_more_repeat(occ, n - 1, groups, groups.len() as int);
        assert(groups.take(groups.len() as int) =~= groups);
    } else {
        lemma_no_repeats(occ, groups, groups.len() as int);
    }
}

proof fn lemma_no_repeats(occ: Seq<Occurrence>, groups: Seq<DuplicateGroup>, g: int)
    ensures
        repeats(occ, 0, groups, g) == 0,
    decreases g,
{
    if g > 0 {
        lemma_no_repeats(occ, groups, g - 1);
        assert(occ.take(0) =~= Seq::empty());
    }
}

/// How many items the first `g` groups list beyond the first of each.
pub open spec fn surplus(groups: Seq<DuplicateGroup>, g: int) -> int
    decreases g,
{
    if g <= 0 {
        0
    } else {
        surplus(groups, g - 1) + groups[g - 1].item_ids@.len() - 1
    }
}

proof fn lemma_surplus_is_repeats(groups: Seq<DuplicateGroup>, from: Seq<FeedResult>, g: int)
    requires
        are_groups(groups, from),
        0 <= g <= groups.len(),
    ensures
        surplus(groups, g) == repeats(
            occurrences(from),
            occurrences(from).len() as int,
            groups,
            g,
        ),
    decreases g,
{
    if g > 0 {
        let occ = occurrences(from);
        lemma_surplus_is_repeats(groups, from, g - 1);
        law_groups_are_pairs_of_lists(groups, from, g - 1);
        assert(occ.take(occ.len() as int) =~= occ);
        assert(is_group(groups[g - 1], repeated_keys(occ)[g - 1], occ));
        assert(groups[g - 1].item_ids.deep_view().len() == groups[g - 1].item_ids@.len());
    }
}

/// Collapsing the groups of an output removes of each group all items but one.
pub proof fn law_collapsing_removes_the_surplus(
    feeds: Seq<FeedResult>,
    from: Seq<FeedResult>,
    groups: Seq<DuplicateGroup>,
)
    requires
        are_groups(groups, from),
        are_collapsed(feeds, from, groups),
    ensures
        crate::totals::item_total(feeds) == crate::totals::item_total(from) - surplus(
            groups,
            groups.len() as int,
        ),
{
    let occ = occurrences(from);
    assert(feeds.take(feeds.len() as int) =~= feeds);
    assert(from.take(from.len() as int) =~= from);
    lemma_collapsed_occurrences(feeds, from, groups, feeds.len() as int);
    lemma_occurrence_count(from);
    lemma_occurrence_count(feeds);
    lemma_groups_are_distinct(groups, from);
    lemma_survivor_count(occ, occ.len() as int, groups);
    lemma_surplus_is_repeats(groups, from, groups.len() as int);
}

pub(crate) proof fn lemma_second_key(occ: Seq<Occurrence>, j: int, i: int, k: (Seq<char>, DuplicateKeyKind))
    requires
        0 <= j < i < occ.len(),
        occ[j].key == Some(k),
        occ[i].key == Some(k),
    ensures
        with_key(occ, k).len() >= 2,
    decreases occ.len(),
{
    let before = occ.drop_last();
    if i < before.len() {
        lemma_second_key(before, j, i, k);
    } else {
        assert(before.take(before.len() as int) =~= before);
        lemma_key_was_seen(before, before.len() as int, k);
        assert(before[j].key == Some(k));
    }
}

proof fn lemma_all_survive(
    items: Seq<Item>,
    occ: Seq<Occurrence>,
    start: int,
    groups: Seq<DuplicateGroup>,
)
    requires
        forall|i: int| start <= i < start + items.len() ==> survives(occ, i, groups),
    ensures
        surviving(items, occ, start, groups) == items,
    decreases items.len(),
{
    if items.len() > 0 {
        lemma_all_survive(items.drop_last(), occ, start, groups);
        assert(survives(occ, start + items.len() - 1, groups));
        assert(items.drop_last().push(items.last()) =~= items);
    } else {
        assert(surviving(items, occ, start, groups) =~= items);
    }
}

/// Collapsing by the same groups again changes nothing.
pub proof fn law_collapsing_again_changes_nothing(
    again: Seq<FeedResult>,
    feeds: Seq<FeedResult>,
    from: Seq<FeedResult>,
    groups: Seq<DuplicateGroup>,
)
    requires
        are_groups(groups, from),
        are_collapsed(feeds, from, groups),
        are_collapsed(again, feeds, groups),
    ensures
        again.len() == feeds.len(),
        forall|f: int|
            0 <= f < feeds.len() ==> crate::totals::same_shell(#[trigger] again[f], feeds[f])
                && again[f].items@ == feeds[f].items@,
{
    let occ = occurrences(feeds);
    lemma_each_key_once(feeds, from, groups);
    assert forall|i: int| 0 <= i < occ.len() implies #[trigger] survives(occ, i, groups) by {
        if occ[i].key is Some {
            let k = occ[i].key->Some_0;
            assert forall|j: int| 0 <= j < i implies (#[trigger] occ[j]).key != Some(k) by {
                if occ[j].key == Some(k) {
                    lemma_second_key(occ, j, i, k);
                    assert(with_key(occ, k).len() <= 1);
                }
            }
        }
    }
    assert forall|f: int| 0 <= f < feeds.len() implies crate::totals::same_shell(
        #[trigger] again[f],
        feeds[f],
    ) && again[f].items@ == feeds[f].items@ by {
        let start = crate::totals::item_total(feeds.take(f)) as int;
        crate::totals::lemma_feed_in_totals(feeds, f);
        lemma_occurrence_count(feeds);
        assert forall|i: int| start <= i < start + feeds[f].items@.len() implies survives(
            occ,
            i,
            groups,
        ) by {
            lemma_occurrence_at(feeds, f, i - start);
        }
        lemma_all_survive(feeds[f].items@, occ, start, groups);
    }
}

} // verus!
