//! The windowed query engine: per-bucket maxima and one-row-lookback deltas.
//!
//! A query groups rows into buckets (hour of day, or calendar day), takes the
//! maximum lifetime energy counter of each bucket, and emits, per bucket, the
//! difference between its maximum and the previous bucket's maximum. The two
//! aggregate queries differ only in the baseline of the first bucket: the
//! hourly query emits no value there (`None`), the daily query measures the
//! first day against zero. That asymmetry is deliberate and is a parameter
//! here.

use vstd::prelude::*;

verus! {

/// Upper bound on an energy counter: the largest value whose difference with
/// any other bounded counter still fits in `i64`.
pub const ENERGY_MAX: u64 = 0x7fff_ffff_ffff_ffff;

/// One row's contribution to a grouped query: its bucket key and its two
/// lifetime energy counters.
#[derive(Clone, Copy, PartialEq, Eq, Debug)]
pub struct BucketItem {
    pub key: i64,
    pub ch1: u64,
    pub ch2: u64,
}

/// One aggregate result row: a bucket key and the per-channel energy delta,
/// absent when the bucket has no baseline to diff against.
#[derive(Clone, Copy, PartialEq, Eq, Debug)]
pub struct DeltaRow {
    pub key: i64,
    pub ch1: Option<i64>,
    pub ch2: Option<i64>,
}

/// Some item carries this bucket key.
pub open spec fn has_key(items: Seq<BucketItem>, k: i64) -> bool {
    exists|i: int| 0 <= i < items.len() && items[i].key == k
}

/// Maximum first-channel counter among the items of bucket `k`; zero when the
/// bucket is empty (counters are non-negative, so this is the usual maximum
/// whenever the bucket has items).
pub open spec fn bucket_max1(items: Seq<BucketItem>, k: i64) -> int
    decreases items.len(),
{
    if items.len() == 0 {
        0
    } else {
        let rest = bucket_max1(items.drop_last(), k);
        if items.last().key == k && items.last().ch1 > rest {
            items.last().ch1 as int
        } else {
            rest
        }
    }
}

/// Maximum second-channel counter among the items of bucket `k`.
pub open spec fn bucket_max2(items: Seq<BucketItem>, k: i64) -> int
    decreases items.len(),
{
    if items.len() == 0 {
        0
    } else {
        let rest = bucket_max2(items.drop_last(), k);
        if items.last().key == k && items.last().ch2 > rest {
            items.last().ch2 as int
        } else {
            rest
        }
    }
}

/// Every item's counters lie in `[0, bound]`.
pub open spec fn items_bounded(items: Seq<BucketItem>, bound: u64) -> bool {
    forall|i: int|
        0 <= i < items.len() ==> items[i].ch1 <= bound && items[i].ch2 <= bound
}

/// A sequence of keys is strictly increasing.
pub open spec fn strictly_increasing(s: Seq<i64>) -> bool {
    forall|i: int, j: int| 0 <= i < j < s.len() ==> s[i] < s[j]
}

/// Bucket maxima are non-negative and bounded by any bound on the items.
pub proof fn lemma_bucket_max_bounds(items: Seq<BucketItem>, k: i64, bound: u64)
    requires
        items_bounded(items, bound),
    ensures
        0 <= bucket_max1(items, k) <= bound,
        0 <= bucket_max2(items, k) <= bound,
    decreases items.len(),
{
    if items.len() > 0 {
        assert(items_bounded(items.drop_last(), bound));
        lemma_bucket_max_bounds(items.drop_last(), k, bound);
    }
}

/// A bucket's maximum dominates each of the bucket's members.
pub proof fn lemma_bucket_max_ge_member(items: Seq<BucketItem>, k: i64, i: int)
    requires
        0 <= i < items.len(),
        items[i].key == k,
    ensures
        items[i].ch1 <= bucket_max1(items, k),
        items[i].ch2 <= bucket_max2(items, k),
    decreases items.len(),
{
    if i < items.len() - 1 {
        lemma_bucket_max_ge_member(items.drop_last(), k, i);
    }
}

/// A non-empty bucket attains its first-channel maximum at some member.
pub proof fn lemma_bucket_max1_attained(items: Seq<BucketItem>, k: i64) -> (i: int)
    requires
        has_key(items, k),
    ensures
        0 <= i < items.len(),
        items[i].key == k,
        items[i].ch1 == bucket_max1(items, k),
    decreases items.len(),
{
    let last = items.last();
    let rest = bucket_max1(items.drop_last(), k);
    if last.key == k && last.ch1 > rest {
        items.len() - 1
    } else if has_key(items.drop_last(), k) {
        lemma_bucket_max1_attained(items.drop_last(), k)
    } else {
        // The only member of the bucket is the last item.
        let w = choose|w: int| 0 <= w < items.len() && items[w].key == k;
        if w < items.len() - 1 {
            assert(items.drop_last()[w].key == k);
            assert(false);
        }
        lemma_bucket_max_no_key(items.drop_last(), k);
        w
    }
}

/// A key that occurs in no item has bucket maxima zero.
pub proof fn lemma_bucket_max_no_key(items: Seq<BucketItem>, k: i64)
    requires
        !has_key(items, k),
    ensures
        bucket_max1(items, k) == 0,
        bucket_max2(items, k) == 0,
    decreases items.len(),
{
    if items.len() > 0 {
        assert(!has_key(items.drop_last(), k)) by {
            if has_key(items.drop_last(), k) {
                let w = choose|w: int|
                    0 <= w < items.drop_last().len() && items.drop_last()[w].key == k;
                assert(items[w].key == k);
            }
        }
        assert(items.last().key != k) by {
            if items.last().key == k {
                assert(items[items.len() - 1].key == k);
            }
        }
        lemma_bucket_max_no_key(items.drop_last(), k);
    }
}

/// Insert a key into a strictly increasing key list, keeping it strictly
/// increasing; a key already present is left alone.
fn insert_key(keys: &mut Vec<i64>, x: i64)
    requires
        strictly_increasing(old(keys)@),
    ensures
        strictly_increasing(final(keys)@),
        forall|y: i64| final(keys)@.contains(y) <==> old(keys)@.contains(y) || y == x,
{
    let ghost orig = keys@;
    let mut i: usize = 0;
    while i < keys.len() && keys[i] < x
        invariant
            keys@ == orig,
            strictly_increasing(orig),
            i <= orig.len(),
            forall|j: int| 0 <= j < i ==> orig[j] < x,
        decreases orig.len() - i,
    {
        i += 1;
    }
    if i < keys.len() && keys[i] == x {
        assert(orig.contains(x));
        return ;
    }
    // Everything before position i is below x, everything from i on is above.
    assert(forall|j: int| i <= j < orig.len() ==> x < orig[j]);
    keys.insert(i, x);
    let ghost upd = keys@;
    assert(strictly_increasing(upd));
    assert forall|y: i64| upd.contains(y) <==> orig.contains(y) || y == x by {
        if orig.contains(y) {
            let w = choose|w: int| 0 <= w < orig.len() && orig[w] == y;
            if w < i {
                assert(upd[w] == y);
            } else {
                assert(upd[w + 1] == y);
            }
        }
        if y == x {
            assert(upd[i as int] == y);
        }
        if upd.contains(y) {
            let w = choose|w: int| 0 <= w < upd.len() && upd[w] == y;
            if w < i {
                assert(orig[w] == y);
            } else if w > i {
                assert(orig[w - 1] == y);
            }
        }
    }
}

/// The strictly increasing list of all bucket keys occurring in `items`.
fn collect_keys(items: &Vec<BucketItem>) -> (keys: Vec<i64>)
    ensures
        strictly_increasing(keys@),
        forall|k: i64| keys@.contains(k) <==> has_key(items@, k),
{
    let mut keys: Vec<i64> = Vec::new();
    let mut idx: usize = 0;
    while idx < items.len()
        invariant
            idx <= items@.len(),
            strictly_increasing(keys@),
            forall|k: i64| keys@.contains(k) <==> has_key(items@.take(idx as int), k),
        decreases items@.len() - idx,
    {
        let ghost pre = items@.take(idx as int);
        let ghost post = items@.take(idx as int + 1);
        insert_key(&mut keys, items[idx].key);
        proof {
            assert(post.drop_last() =~= pre);
            assert(post.last() == items@[idx as int]);
            assert forall|k: i64| has_key(post, k) <==> has_key(pre, k) || k
                == items@[idx as int].key by {
                if has_key(post, k) {
                    let w = choose|w: int| 0 <= w < post.len() && post[w].key == k;
                    if w < idx {
                        assert(pre[w].key == k);
                    }
                }
                if has_key(pre, k) {
                    let w = choose|w: int| 0 <= w < pre.len() && pre[w].key == k;
                    assert(post[w].key == k);
                }
                if k == items@[idx as int].key {
                    assert(post[idx as int].key == k);
                }
            }
        }
        idx += 1;
    }
    proof {
        assert(items@.take(items@.len() as int) =~= items@);
    }
    keys
}

/// Both channel maxima of bucket `k`.
fn bucket_maxes(items: &Vec<BucketItem>, k: i64) -> (m: (u64, u64))
    ensures
        m.0 == bucket_max1(items@, k),
        m.1 == bucket_max2(items@, k),
{
    let mut m1: u64 = 0;
    let mut m2: u64 = 0;
    let mut idx: usize = 0;
    while idx < items.len()
        invariant
            idx <= items@.len(),
            m1 == bucket_max1(items@.take(idx as int), k),
            m2 == bucket_max2(items@.take(idx as int), k),
        decreases items@.len() - idx,
    {
        let ghost pre = items@.take(idx as int);
        let ghost post = items@.take(idx as int + 1);
        let it = items[idx];
        proof {
            assert(post.drop_last() =~= pre);
            assert(post.last() == items@[idx as int]);
        }
        if it.key == k {
            if it.ch1 > m1 {
                m1 = it.ch1;
            }
            if it.ch2 > m2 {
                m2 = it.ch2;
            }
        }
        idx += 1;
    }
    proof {
        assert(items@.take(items@.len() as int) =~= items@);
    }
    (m1, m2)
}

/// Group the items by bucket key, take each bucket's maximum counters, and
/// emit one row per bucket, in ascending key order, carrying the difference
/// between the bucket's maximum and the previous bucket's maximum.
///
/// The first bucket has no predecessor: with `zero_baseline` its delta is
/// measured against zero, without it the delta is absent. The result has one
/// row per distinct key in `items`, and nothing else.
pub fn windowed_deltas(items: &Vec<BucketItem>, zero_baseline: bool) -> (out: Vec<DeltaRow>)
    requires
        items_bounded(items@, ENERGY_MAX),
    ensures
        forall|i: int, j: int| 0 <= i < j < out@.len() ==> out@[i].key < out@[j].key,
        forall|k: i64|
            has_key(items@, k) <==> exists|i: int| 0 <= i < out@.len() && out@[i].key == k,
        forall|i: int|
            0 <= i < out@.len() ==> out@[i].ch1 == (if i == 0 {
                if zero_baseline {
                    Some(bucket_max1(items@, out@[0].key) as i64)
                } else {
                    None::<i64>
                }
            } else {
                Some((bucket_max1(items@, out@[i].key) - bucket_max1(items@, out@[i - 1].key)) as i64)
            }),
        forall|i: int|
            0 <= i < out@.len() ==> out@[i].ch2 == (if i == 0 {
                if zero_baseline {
                    Some(bucket_max2(items@, out@[0].key) as i64)
                } else {
                    None::<i64>
                }
            } else {
                Some((bucket_max2(items@, out@[i].key) - bucket_max2(items@, out@[i - 1].key)) as i64)
            }),
{
    let keys = collect_keys(items);
    let mut out: Vec<DeltaRow> = Vec::new();
    let mut prev1: u64 = 0;
    let mut prev2: u64 = 0;
    let mut i: usize = 0;
    while i < keys.len()
        invariant
            items_bounded(items@, ENERGY_MAX),
            strictly_increasing(keys@),
            forall|k: i64| keys@.contains(k) <==> has_key(items@, k),
            i <= keys@.len(),
            out@.len() == i,
            forall|j: int| 0 <= j < i ==> out@[j].key == keys@[j],
            i >= 1 ==> prev1 == bucket_max1(items@, keys@[i - 1]) && prev2 == bucket_max2(
                items@,
                keys@[i - 1],
            ),
            forall|j: int|
                0 <= j < i ==> out@[j].ch1 == (if j == 0 {
                    if zero_baseline {
                        Some(bucket_max1(items@, out@[0].key) as i64)
                    } else {
                        None::<i64>
                    }
                } else {
                    Some(
                        (bucket_max1(items@, out@[j].key) - bucket_max1(
                            items@,
                            out@[j - 1].key,
                        )) as i64,
                    )
                }),
            forall|j: int|
                0 <= j < i ==> out@[j].ch2 == (if j == 0 {
                    if zero_baseline {
                        Some(bucket_max2(items@, out@[0].key) as i64)
                    } else {
                        None::<i64>
                    }
                } else {
                    Some(
                        (bucket_max2(items@, out@[j].key) - bucket_max2(
                            items@,
                            out@[j - 1].key,
                        )) as i64,
                    )
                }),
        decreases keys@.len() - i,
    {
        let k = keys[i];
        let m = bucket_maxes(items, k);
        proof {
            lemma_bucket_max_bounds(items@, k, ENERGY_MAX);
            if i >= 1 {
                lemma_bucket_max_bounds(items@, keys@[i as int - 1], ENERGY_MAX);
            }
        }
        let row = if i == 0 {
            if zero_baseline {
                DeltaRow { key: k, ch1: Some(m.0 as i64), ch2: Some(m.1 as i64) }
            } else {
                DeltaRow { key: k, ch1: None, ch2: None }
            }
        } else {
            DeltaRow { key: k, ch1: Some(m.0 as i64 - prev1 as i64), ch2: Some(
                m.1 as i64 - prev2 as i64,
            ) }
        };
        out.push(row);
        prev1 = m.0;
        prev2 = m.1;
        i += 1;
    }
    proof {
        assert forall|i2: int, j2: int| 0 <= i2 < j2 < out@.len() implies out@[i2].key
            < out@[j2].key by {
            assert(out@[i2].key == keys@[i2]);
            assert(out@[j2].key == keys@[j2]);
        }
        assert forall|k: i64|
            has_key(items@, k) <==> exists|i2: int| 0 <= i2 < out@.len() && out@[i2].key
                == k by {
            if has_key(items@, k) {
                assert(keys@.contains(k));
                let w = choose|w: int| 0 <= w < keys@.len() && keys@[w] == k;
                assert(out@[w].key == k);
            }
            if exists|i2: int| 0 <= i2 < out@.len() && out@[i2].key == k {
                let w = choose|w: int| 0 <= w < out@.len() && out@[w].key == k;
                assert(keys@[w] == k);
                assert(keys@.contains(k));
            }
        }
    }
    out
}

} // verus!
