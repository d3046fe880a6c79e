//! The derived counts of a fetch output.

use vstd::prelude::*;

use crate::model::{FeedResult, FetchOutput, Item};

verus! {

/// The token estimates of some items, added up.
pub open spec fn tokens_sum(items: Seq<Item>) -> nat
    decreases items.len(),
{
    if items.len() == 0 {
        0
    } else {
        tokens_sum(items.drop_last()) + items.last().content_tokens_est as nat
    }
}

/// How many items some feeds hold.
pub open spec fn item_total(feeds: Seq<FeedResult>) -> nat
    decreases feeds.len(),
{
    if feeds.len() == 0 {
        0
    } else {
        item_total(feeds.drop_last()) + feeds.last().items@.len()
    }
}

/// The token estimates of all items of some feeds, added up.
pub open spec fn token_total(feeds: Seq<FeedResult>) -> nat
    decreases feeds.len(),
{
    if feeds.len() == 0 {
        0
    } else {
        token_total(feeds.drop_last()) + tokens_sum(feeds.last().items@)
    }
}

/// The counts of some feeds fit the machine.
pub open spec fn counts_fit(feeds: Seq<FeedResult>) -> bool {
    item_total(feeds) <= usize::MAX && token_total(feeds) <= u64::MAX
}

/// A feed's counts describe its items.
pub open spec fn feed_counts_hold(f: FeedResult) -> bool {
    f.item_count == f.items@.len() && f.content_tokens_est_total == tokens_sum(f.items@)
}

/// All counts of an output describe the items that it holds.
pub open spec fn counts_hold(o: FetchOutput) -> bool {
    &&& forall|k: int| 0 <= k < o.feeds@.len() ==> feed_counts_hold(#[trigger] o.feeds@[k])
    &&& o.total_items == item_total(o.feeds@)
    &&& o.total_content_tokens_est == token_total(o.feeds@)
}

/// Both outputs are the same but for their feeds and totals.
pub open spec fn same_envelope(a: FetchOutput, b: FetchOutput) -> bool {
    &&& a.schema_version == b.schema_version
    &&& a.fetched_at == b.fetched_at
    &&& a.errors == b.errors
    &&& a.warnings == b.warnings
    &&& a.truncation == b.truncation
    &&& a.applied_filters == b.applied_filters
    &&& a.duplicates == b.duplicates
}

/// Both feeds are the same but for their items and counts.
pub open spec fn same_shell(a: FeedResult, b: FeedResult) -> bool {
    &&& a.feed_url == b.feed_url
    &&& a.status == b.status
    &&& a.from_cache == b.from_cache
    &&& a.title == b.title
    &&& a.site_url == b.site_url
    &&& a.updated == b.updated
    &&& a.error == b.error
    &&& a.cached_at == b.cached_at
    &&& a.cache_age_seconds == b.cache_age_seconds
}

/// Both lists hold the same feeds with the same items; their counts may differ.
pub open spec fn same_feeds(a: Seq<FeedResult>, b: Seq<FeedResult>) -> bool {
    &&& a.len() == b.len()
    &&& forall|k: int|
        0 <= k < a.len() ==> same_shell(#[trigger] a[k], b[k]) && a[k].items == b[k].items
}

/// The totals of more feeds are no smaller.
pub proof fn lemma_totals_grow(feeds: Seq<FeedResult>, i: int)
    requires
        0 <= i <= feeds.len(),
    ensures
        item_total(feeds.take(i)) <= item_total(feeds),
        token_total(feeds.take(i)) <= token_total(feeds),
    decreases feeds.len() - i,
{
    if i < feeds.len() {
        lemma_totals_grow(feeds, i + 1);
        assert(feeds.take(i + 1).drop_last() =~= feeds.take(i));
    } else {
        assert(feeds.take(i) =~= feeds);
    }
}

/// The token sum of more items is no smaller.
pub proof fn lemma_tokens_grow(items: Seq<Item>, i: int)
    requires
        0 <= i <= items.len(),
    ensures
        tokens_sum(items.take(i)) <= tokens_sum(items),
    decreases items.len() - i,
{
    if i < items.len() {
        lemma_tokens_grow(items, i + 1);
        assert(items.take(i + 1).drop_last() =~= items.take(i));
    } else {
        assert(items.take(i) =~= items);
    }
}

/// One feed's part of the totals.
pub proof fn lemma_feed_in_totals(feeds: Seq<FeedResult>, i: int)
    requires
        0 <= i < feeds.len(),
    ensures
        item_total(feeds.take(i + 1)) == item_total(feeds.take(i)) + feeds[i].items@.len(),
        token_total(feeds.take(i + 1)) == token_total(feeds.take(i)) + tokens_sum(feeds[i].items@),
        item_total(feeds.take(i + 1)) <= item_total(feeds),
        token_total(feeds.take(i + 1)) <= token_total(feeds),
{
    lemma_totals_grow(feeds, i + 1);
    assert(feeds.take(i + 1).drop_last() =~= feeds.take(i));
    assert(feeds.take(i + 1).last() == feeds[i]);
}

/// The totals depend on the items alone.
pub proof fn lemma_totals_of_same_feeds(a: Seq<FeedResult>, b: Seq<FeedResult>)
    requires
        same_feeds(a, b),
    ensures
        item_total(a) == item_total(b),
        token_total(a) == token_total(b),
    decreases a.len(),
{
    if a.len() > 0 {
        let n = a.len() - 1;
        assert(same_shell(a[n], b[n]) && a[n].items == b[n].items);
        assert forall|k: int| 0 <= k < n implies same_shell(#[trigger] a.drop_last()[k], b.drop_last()[k])
            && a.drop_last()[k].items == b.drop_last()[k].items by {
            assert(same_shell(a[k], b[k]));
        }
        lemma_totals_of_same_feeds(a.drop_last(), b.drop_last());
    }
}

/// The token estimates of some items, added up.
pub fn sum_tokens(items: &Vec<Item>) -> (r: u64)
    requires
        tokens_sum(items@) <= u64::MAX,
    ensures
        r == tokens_sum(items@),
{
    let mut n: u64 = 0;
    let mut i: usize = 0;
    assert(items@.take(0) =~= Seq::empty());
    while i < items.len()
        invariant
            i <= items@.len(),
            n == tokens_sum(items@.take(i as int)),
            tokens_sum(items@) <= u64::MAX,
        decreases items@.len() - i,
    {
        proof {
            lemma_tokens_grow(items@, i + 1);
            assert(items@.take(i + 1).drop_last() =~= items@.take(i as int));
            assert(items@.take(i + 1).last() == items@[i as int]);
        }
        n = n + items[i].content_tokens_est as u64;
        i = i + 1;
    }
    assert(items@.take(i as int) =~= items@);
    n
}

/// Whether the token estimates of some items add up to a number that fits.
pub fn tokens_fit(items: &Vec<Item>) -> (r: bool)
    ensures
        r == (tokens_sum(items@) <= u64::MAX),
{
    let mut n: u64 = 0;
    let mut i: usize = 0;
    assert(items@.take(0) =~= Seq::empty());
    while i < items.len()
        invariant
            i <= items@.len(),
            n == tokens_sum(items@.take(i as int)),
        decreases items@.len() - i,
    {
        proof {
            lemma_tokens_grow(items@, i + 1);
            assert(items@.take(i + 1).drop_last() =~= items@.take(i as int));
            assert(items@.take(i + 1).last() == items@[i as int]);
        }
        match n.checked_add(items[i].content_tokens_est as u64) {
            Some(m) => {
                n = m;
            },
            None => {
                return false;
            },
        }
        i = i + 1;
    }
    assert(items@.take(i as int) =~= items@);
    true
}

/// Whether the counts of some feeds fit.
pub fn fits(feeds: &Vec<FeedResult>) -> (r: bool)
    ensures
        r == counts_fit(feeds@),
{
    let mut n: usize = 0;
    let mut t: u64 = 0;
    let mut i: usize = 0;
    assert(feeds@.take(0) =~= Seq::empty());
    while i < feeds.len()
        invariant
            i <= feeds@.len(),
            n == item_total(feeds@.take(i as int)),
            t == token_total(feeds@.take(i as int)),
        decreases feeds@.len() - i,
    {
        proof {
            lemma_feed_in_totals(feeds@, i as int);
        }
        if !tokens_fit(&feeds[i].items) {
            return false;
        }
        match (n.checked_add(feeds[i].items.len()), t.checked_add(sum_tokens(&feeds[i].items))) {
            (Some(a), Some(b)) => {
                n = a;
                t = b;
            },
            _ => {
                return false;
            },
        }
        i = i + 1;
    }
    assert(feeds@.take(i as int) =~= feeds@);
    true
}

/// Total number of items across every feed.
pub fn item_count(output: &FetchOutput) -> (r: usize)
    requires
        item_total(output.feeds@) <= usize::MAX,
    ensures
        r == item_total(output.feeds@),
{
    let mut n: usize = 0;
    let mut i: usize = 0;
    let ghost feeds = output.feeds@;
    assert(feeds.take(0) =~= Seq::empty());
    while i < output.feeds.len()
        invariant
            i <= feeds.len(),
            feeds == output.feeds@,
            n == item_total(feeds.take(i as int)),
            item_total(feeds) <= usize::MAX,
        decreases feeds.len() - i,
    {
        proof {
            lemma_feed_in_totals(feeds, i as int);
        }
        n = n + output.feeds[i].items.len();
        i = i + 1;
    }
    assert(feeds.take(i as int) =~= feeds);
    n
}

/// Fills the top-level totals from the feeds.
pub fn populate_totals(output: &mut FetchOutput)
    requires
        counts_fit(old(output).feeds@),
    ensures
        same_envelope(*final(output), *old(output)),
        final(output).feeds == old(output).feeds,
        final(output).total_items == item_total(old(output).feeds@),
        final(output).total_content_tokens_est == token_total(old(output).feeds@),
{
    let ghost feeds = output.feeds@;
    let n: usize = item_count(output);
    let mut t: u64 = 0;
    let mut i: usize = 0;
    assert(feeds.take(0) =~= Seq::empty());
    while i < output.feeds.len()
        invariant
            i <= feeds.len(),
            feeds == output.feeds@,
            *output == *old(output),
            t == token_total(feeds.take(i as int)),
            token_total(feeds) <= u64::MAX,
        decreases feeds.len() - i,
    {
        proof {
            lemma_feed_in_totals(feeds, i as int);
        }
        t = t + sum_tokens(&output.feeds[i].items);
        i = i + 1;
    }
    assert(feeds.take(i as int) =~= feeds);
    output.total_items = n;
    output.total_content_tokens_est = t;
}

/// Recomputes every count, per feed and in total, from the items that are there.
pub fn refresh_feed_counts(output: &mut FetchOutput)
    requires
        counts_fit(old(output).feeds@),
    ensures
        same_envelope(*final(output), *old(output)),
        same_feeds(final(output).feeds@, old(output).feeds@),
        counts_hold(*final(output)),
{
    let mut i: usize = 0;
    while i < output.feeds.len()
        invariant
            i <= output.feeds@.len(),
            same_envelope(*output, *old(output)),
            same_feeds(output.feeds@, old(output).feeds@),
            counts_fit(old(output).feeds@),
            forall|k: int| 0 <= k < i ==> feed_counts_hold(#[trigger] output.feeds@[k]),
        decreases output.feeds@.len() - i,
    {
        let ghost before = output.feeds@;
        proof {
            lemma_totals_of_same_feeds(before, old(output).feeds@);
            lemma_feed_in_totals(before, i as int);
        }
        let n: usize = output.feeds[i].items.len();
        let t: u64 = sum_tokens(&output.feeds[i].items);
        output.feeds[i].item_count = n;
        output.feeds[i].content_tokens_est_total = t;
        proof {
            assert forall|k: int| 0 <= k < before.len() implies same_shell(
                #[trigger] output.feeds@[k],
                old(output).feeds@[k],
            ) && output.feeds@[k].items == old(output).feeds@[k].items by {
                assert(same_shell(before[k], old(output).feeds@[k]));
            }
        }
        i = i + 1;
    }
    proof {
        lemma_totals_of_same_feeds(output.feeds@, old(output).feeds@);
    }
    populate_totals(output);
}

} // verus!
