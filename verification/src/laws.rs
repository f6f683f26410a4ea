//! Laws of the query layer.
//!
//! These lemmas state, against the store's and the engine's spec functions,
//! what the queries guarantee beyond their own contracts: today's raw-samples
//! query returns exactly today's rows in ascending time order, and the hourly
//! deltas are non-negative whenever the device never restarted.

use vstd::arithmetic::div_mod::{lemma_div_is_ordered, lemma_fundamental_div_mod};
use vstd::prelude::*;

use crate::db::{
    count_today, day_of, hour_item, hour_of, hourly_items, power_today_rows, to_power_today, Model,
    PowerToday,
};
use crate::engine::{
    bucket_max1, bucket_max2, has_key, lemma_bucket_max1_attained, lemma_bucket_max_ge_member,
    lemma_bucket_max_no_key, BucketItem,
};

verus! {

/// Rows are stored in wall-clock order.
pub open spec fn times_non_decreasing(rows: Seq<Model>) -> bool {
    forall|i: int, j: int| 0 <= i <= j < rows.len() ==> rows[i].time <= rows[j].time
}

/// The lifetime energy counters never reset: across the stored rows they
/// only grow. This is what holds of a device that never restarted.
pub open spec fn counters_non_decreasing(rows: Seq<Model>) -> bool {
    forall|i: int, j: int|
        0 <= i <= j < rows.len() ==> rows[i].energy_total_ch1 <= rows[j].energy_total_ch1
            && rows[i].energy_total_ch2 <= rows[j].energy_total_ch2
}

/// A raw result sequence is ascending in time.
pub open spec fn sorted_by_time(ps: Seq<PowerToday>) -> bool {
    forall|i: int, j: int| 0 <= i <= j < ps.len() ==> ps[i].time <= ps[j].time
}

/// The stored row that result row `a` of today's raw-samples query projects:
/// it falls on `today`.
pub proof fn power_today_origin(rows: Seq<Model>, today: i64, a: int) -> (ra: int)
    requires
        0 <= a < power_today_rows(rows, today).len(),
    ensures
        0 <= ra < rows.len(),
        power_today_rows(rows, today)[a] == to_power_today(rows[ra]),
        day_of(rows[ra].time as int) == today,
    decreases rows.len(),
{
    let pre = power_today_rows(rows.drop_last(), today);
    if day_of(rows.last().time as int) == today && a == pre.len() {
        rows.len() - 1
    } else {
        let ra = power_today_origin(rows.drop_last(), today, a);
        assert(rows.drop_last()[ra] == rows[ra]);
        ra
    }
}

/// Today's raw-samples query is exact: one result row per stored row falling
/// on `today`, each result row falls on `today`, and with rows stored in
/// wall-clock order the results come ascending in time.
pub proof fn lemma_power_today_exact(rows: Seq<Model>, today: i64)
    requires
        times_non_decreasing(rows),
    ensures
        power_today_rows(rows, today).len() == count_today(rows, today),
        forall|a: int|
            0 <= a < power_today_rows(rows, today).len() ==> day_of(
                (#[trigger] power_today_rows(rows, today)[a]).time as int,
            ) == today,
        sorted_by_time(power_today_rows(rows, today)),
    decreases rows.len(),
{
    let post = power_today_rows(rows, today);
    if rows.len() > 0 {
        assert(times_non_decreasing(rows.drop_last()));
        lemma_power_today_exact(rows.drop_last(), today);
    }
    assert forall|a: int| 0 <= a < post.len() implies day_of(
        (#[trigger] post[a]).time as int,
    ) == today by {
        let ra = power_today_origin(rows, today, a);
    }
    assert forall|a: int, b: int| 0 <= a <= b < post.len() implies post[a].time
        <= post[b].time by {
        lemma_power_today_order(rows, today, a, b);
    }
}

/// Result rows of today's raw-samples query keep the stored time order.
proof fn lemma_power_today_order(rows: Seq<Model>, today: i64, a: int, b: int)
    requires
        times_non_decreasing(rows),
        0 <= a <= b < power_today_rows(rows, today).len(),
    ensures
        power_today_rows(rows, today)[a].time <= power_today_rows(rows, today)[b].time,
    decreases rows.len(),
{
    let pre = power_today_rows(rows.drop_last(), today);
    let post = power_today_rows(rows, today);
    if day_of(rows.last().time as int) == today && b == pre.len() {
        if a < pre.len() {
            let ra = power_today_origin(rows.drop_last(), today, a);
            assert(rows[ra].time <= rows[rows.len() - 1].time);
        }
    } else {
        assert(times_non_decreasing(rows.drop_last()));
        lemma_power_today_order(rows.drop_last(), today, a, b);
    }
}

/// Two timestamps on the same day keep their order as hours of day.
proof fn lemma_hour_of_monotone_same_day(t1: int, t2: int)
    requires
        0 <= t1 <= t2,
        t1 / 86400 == t2 / 86400,
    ensures
        hour_of(t1) <= hour_of(t2),
{
    lemma_fundamental_div_mod(t1, 86400);
    lemma_fundamental_div_mod(t2, 86400);
    assert(t1 % 86400 <= t2 % 86400);
    lemma_div_is_ordered(t1 % 86400, t2 % 86400, 3600);
}

/// The stored row that hourly bucket item `a` contributes: it falls on
/// `today`.
proof fn hourly_item_origin(rows: Seq<Model>, today: i64, a: int) -> (ra: int)
    requires
        0 <= a < hourly_items(rows, today).len(),
    ensures
        0 <= ra < rows.len(),
        hourly_items(rows, today)[a] == hour_item(rows[ra]),
        day_of(rows[ra].time as int) == today,
    decreases rows.len(),
{
    let pre = hourly_items(rows.drop_last(), today);
    if day_of(rows.last().time as int) == today && a == pre.len() {
        rows.len() - 1
    } else {
        let ra = hourly_item_origin(rows.drop_last(), today, a);
        assert(rows.drop_last()[ra] == rows[ra]);
        ra
    }
}

/// With rows in wall-clock order, non-negative timestamps and counters that
/// never reset, two hourly bucket items keep that order: a later item has at
/// least the earlier item's hour and counters.
proof fn lemma_hourly_items_monotone(rows: Seq<Model>, today: i64, a: int, b: int)
    requires
        forall|i: int| 0 <= i < rows.len() ==> 0 <= (#[trigger] rows[i]).time,
        times_non_decreasing(rows),
        counters_non_decreasing(rows),
        0 <= a <= b < hourly_items(rows, today).len(),
    ensures
        hourly_items(rows, today)[a].key <= hourly_items(rows, today)[b].key,
        hourly_items(rows, today)[a].ch1 <= hourly_items(rows, today)[b].ch1,
        hourly_items(rows, today)[a].ch2 <= hourly_items(rows, today)[b].ch2,
    decreases rows.len(),
{
    let pre = hourly_items(rows.drop_last(), today);
    if day_of(rows.last().time as int) == today && b == pre.len() {
        if a < pre.len() {
            let ra = hourly_item_origin(rows.drop_last(), today, a);
            assert(rows.drop_last()[ra] == rows[ra]);
            let last = rows[rows.len() - 1];
            assert(rows[ra].time <= last.time);
            lemma_hour_of_monotone_same_day(rows[ra].time as int, last.time as int);
        }
    } else {
        assert(times_non_decreasing(rows.drop_last()));
        assert(counters_non_decreasing(rows.drop_last()));
        lemma_hourly_items_monotone(rows.drop_last(), today, a, b);
    }
}

/// With rows in wall-clock order and lifetime counters that never reset —
/// the device never restarted — a later hour bucket's maximum dominates an
/// earlier hour bucket's: every delta the hourly query emits between
/// consecutive buckets is non-negative.
pub proof fn lemma_hourly_delta_nonneg(rows: Seq<Model>, today: i64, h1: i64, h2: i64)
    requires
        forall|i: int| 0 <= i < rows.len() ==> 0 <= (#[trigger] rows[i]).time,
        times_non_decreasing(rows),
        counters_non_decreasing(rows),
        h1 < h2,
        has_key(hourly_items(rows, today), h1),
        has_key(hourly_items(rows, today), h2),
    ensures
        bucket_max1(hourly_items(rows, today), h1) <= bucket_max1(hourly_items(rows, today), h2),
        bucket_max2(hourly_items(rows, today), h1) <= bucket_max2(hourly_items(rows, today), h2),
{
    let items = hourly_items(rows, today);
    let b = choose|b: int| 0 <= b < items.len() && items[b].key == h2;
    lemma_bucket_max_ge_member(items, h2, b);
    // First channel: the index attaining bucket h1's maximum precedes every
    // member of bucket h2, whose counter the later bucket's maximum
    // dominates.
    let a1 = lemma_bucket_max1_attained(items, h1);
    if a1 >= b {
        lemma_hourly_items_monotone(rows, today, b, a1);
        assert(false);
    }
    lemma_hourly_items_monotone(rows, today, a1, b);
    // Second channel, the same way.
    let a2 = lemma_bucket_max2_attained(items, h1);
    if a2 >= b {
        lemma_hourly_items_monotone(rows, today, b, a2);
        assert(false);
    }
    lemma_hourly_items_monotone(rows, today, a2, b);
}

/// A non-empty bucket attains its second-channel maximum at some member.
pub proof fn lemma_bucket_max2_attained(items: Seq<BucketItem>, k: i64) -> (i: int)
    requires
        has_key(items, k),
    ensures
        0 <= i < items.len(),
        items[i].key == k,
        items[i].ch2 == bucket_max2(items, k),
    decreases items.len(),
{
    let last = items.last();
    let rest = bucket_max2(items.drop_last(), k);
    if last.key == k && last.ch2 > rest {
        items.len() - 1
    } else if has_key(items.drop_last(), k) {
        lemma_bucket_max2_attained(items.drop_last(), k)
    } else {
        let w = choose|w: int| 0 <= w < items.len() && items[w].key == k;
        if w < items.len() - 1 {
            assert(items.drop_last()[w].key == k);
            assert(false);
        }
        lemma_bucket_max_no_key(items.drop_last(), k);
        w
    }
}

} // verus!
