//! The append-only time-series store and its three canonical queries.
//!
//! One row is appended per successful acquisition cycle; rows are never
//! updated or deleted. The queries are: today's raw rows in insertion order,
//! energy generated per hour of today, and energy generated per calendar day,
//! the latter two computed by the windowed delta engine from the lifetime
//! energy counters. Timestamps are unix seconds (UTC); days and hours are
//! derived from them by integer arithmetic at the day boundary of midnight
//! UTC.

use vstd::prelude::*;

use crate::calendar::MAX_TIME;
use crate::engine::{
    bucket_max1, bucket_max2, has_key, items_bounded, windowed_deltas, BucketItem, ENERGY_MAX,
};
use crate::inverter::OutputData;
use crate::sun::Position;
use crate::weather::CurrentWeather;

verus! {

/// Seconds per day and per hour.
pub const SECONDS_PER_DAY: i64 = 86400;

pub const SECONDS_PER_HOUR: i64 = 3600;

/// The calendar day (as days since the epoch) containing a timestamp.
pub open spec fn day_of(t: int) -> int {
    t / 86400
}

/// The hour of day (0 to 23) containing a timestamp.
pub open spec fn hour_of(t: int) -> int {
    (t % 86400) / 3600
}

/// One persisted row: timestamp, the inverter readings, the sun position,
/// and the optional weather block. Power is in milliwatts, energy in
/// milliwatt-hours, cloud cover in thousandths of full cover, irradiance in
/// milliwatts per square metre; the sun angles are opaque bit patterns.
#[derive(Clone, Copy, PartialEq, Eq, Debug)]
pub struct Model {
    pub id: u64,
    pub time: i64,
    pub power_ch1: u64,
    pub power_ch2: u64,
    pub energy_today_ch1: u64,
    pub energy_today_ch2: u64,
    pub energy_total_ch1: u64,
    pub energy_total_ch2: u64,
    pub max_power: u64,
    pub cloud_cover: Option<u64>,
    pub terrestrial_radiation: Option<u64>,
    pub direct_radiation: Option<u64>,
    pub diffuse_radiation: Option<u64>,
    pub shortwave_radiation: Option<u64>,
    pub direct_normal_irradiance: Option<u64>,
    pub global_tilted_irradiance: Option<u64>,
    pub sun_azimuth: u64,
    pub sun_altitude: u64,
}

impl Model {
    /// The weather columns are all present or all absent: the weather is
    /// fetched as one atomic response.
    pub open spec fn weather_consistent(self) -> bool {
        &&& self.terrestrial_radiation is Some <==> self.cloud_cover is Some
        &&& self.direct_radiation is Some <==> self.cloud_cover is Some
        &&& self.diffuse_radiation is Some <==> self.cloud_cover is Some
        &&& self.shortwave_radiation is Some <==> self.cloud_cover is Some
        &&& self.direct_normal_irradiance is Some <==> self.cloud_cover is Some
        &&& self.global_tilted_irradiance is Some <==> self.cloud_cover is Some
    }

    /// Row well-formedness: a timestamp in the supported range, bounded
    /// lifetime counters, and a consistent weather block.
    pub open spec fn wf(self) -> bool {
        &&& 0 <= self.time <= MAX_TIME
        &&& self.energy_total_ch1 <= ENERGY_MAX
        &&& self.energy_total_ch2 <= ENERGY_MAX
        &&& self.weather_consistent()
    }
}

/// The append-only store. Rows keep their insertion order and carry a
/// monotonically increasing identity key assigned at insertion.
pub struct Store {
    rows: Vec<Model>,
}

impl Store {
    /// The stored rows, oldest first.
    pub closed spec fn rows(self) -> Seq<Model> {
        self.rows@
    }

    /// Every row is well-formed and carries its one-based position as id.
    pub open spec fn wf(self) -> bool {
        &&& forall|i: int| 0 <= i < self.rows().len() ==> (#[trigger] self.rows()[i]).wf()
        &&& forall|i: int| 0 <= i < self.rows().len() ==> (#[trigger] self.rows()[i]).id == i + 1
    }

    /// Number of stored rows.
    pub fn len(&self) -> (n: usize)
        ensures
            n == self.rows().len(),
    {
        self.rows.len()
    }
}

/// Open the store. The in-memory store starts empty; opening it anew is
/// idempotent in the sense that it always yields a well-formed empty store.
pub fn setup() -> (db: Store)
    ensures
        db.wf(),
        db.rows() == Seq::<Model>::empty(),
{
    Store { rows: Vec::new() }
}

/// The row that one acquisition cycle appends: the mandatory fields from the
/// inverter readings, the sun position and the timestamp; the weather block
/// all absent when the weather fetch failed, otherwise all present, with
/// cloud cover scaled from thousandths of a percent to thousandths of full
/// cover.
pub open spec fn spec_row(
    id: u64,
    weather: Option<CurrentWeather>,
    sunpos: Position,
    output_data: OutputData,
    max_power: u64,
    time: i64,
) -> Model {
    Model {
        id,
        time,
        power_ch1: output_data.channel1.power,
        power_ch2: output_data.channel2.power,
        energy_today_ch1: output_data.channel1.energy_generation_startup,
        energy_today_ch2: output_data.channel2.energy_generation_startup,
        energy_total_ch1: output_data.channel1.energy_generation_lifetime,
        energy_total_ch2: output_data.channel2.energy_generation_lifetime,
        max_power,
        cloud_cover: match weather {
            Some(w) => Some(w.cloud_cover / 100),
            None => None,
        },
        terrestrial_radiation: match weather {
            Some(w) => Some(w.terrestrial_radiation_instant),
            None => None,
        },
        direct_radiation: match weather {
            Some(w) => Some(w.direct_radiation_instant),
            None => None,
        },
        diffuse_radiation: match weather {
            Some(w) => Some(w.diffuse_radiation_instant),
            None => None,
        },
        shortwave_radiation: match weather {
            Some(w) => Some(w.shortwave_radiation_instant),
            None => None,
        },
        direct_normal_irradiance: match weather {
            Some(w) => Some(w.direct_normal_irradiance_instant),
            None => None,
        },
        global_tilted_irradiance: match weather {
            Some(w) => Some(w.global_tilted_irradiance_instant),
            None => None,
        },
        sun_azimuth: sunpos.azimuth_bits,
        sun_altitude: sunpos.altitude_bits,
    }
}

/// Append the row of one acquisition cycle and return its identity key.
/// This is the store's only write path: the store grows by exactly this row.
pub fn insert(
    db: &mut Store,
    weather: Option<CurrentWeather>,
    sunpos: Position,
    output_data: OutputData,
    max_power: u64,
    time: i64,
) -> (id: u64)
    requires
        old(db).wf(),
        output_data.wf(),
        0 <= time <= MAX_TIME,
        old(db).rows().len() < usize::MAX,
    ensures
        final(db).wf(),
        id == old(db).rows().len() + 1,
        final(db).rows() == old(db).rows().push(
            spec_row(id, weather, sunpos, output_data, max_power, time),
        ),
{
    let id = (db.rows.len() + 1) as u64;
    let row = Model {
        id,
        time,
        power_ch1: output_data.channel1.power,
        power_ch2: output_data.channel2.power,
        energy_today_ch1: output_data.channel1.energy_generation_startup,
        energy_today_ch2: output_data.channel2.energy_generation_startup,
        energy_total_ch1: output_data.channel1.energy_generation_lifetime,
        energy_total_ch2: output_data.channel2.energy_generation_lifetime,
        max_power,
        cloud_cover: match weather {
            Some(w) => Some(w.cloud_cover / 100),
            None => None,
        },
        terrestrial_radiation: match weather {
            Some(w) => Some(w.terrestrial_radiation_instant),
            None => None,
        },
        direct_radiation: match weather {
            Some(w) => Some(w.direct_radiation_instant),
            None => None,
        },
        diffuse_radiation: match weather {
            Some(w) => Some(w.diffuse_radiation_instant),
            None => None,
        },
        shortwave_radiation: match weather {
            Some(w) => Some(w.shortwave_radiation_instant),
            None => None,
        },
        direct_normal_irradiance: match weather {
            Some(w) => Some(w.direct_normal_irradiance_instant),
            None => None,
        },
        global_tilted_irradiance: match weather {
            Some(w) => Some(w.global_tilted_irradiance_instant),
            None => None,
        },
        sun_azimuth: sunpos.azimuth_bits,
        sun_altitude: sunpos.altitude_bits,
    };
    db.rows.push(row);
    id
}

/// One raw query row: a stored row without its identity key.
#[derive(Clone, Copy, PartialEq, Eq, Debug)]
pub struct PowerToday {
    pub time: i64,
    pub power_ch1: u64,
    pub power_ch2: u64,
    pub energy_today_ch1: u64,
    pub energy_today_ch2: u64,
    pub energy_total_ch1: u64,
    pub energy_total_ch2: u64,
    pub max_power: u64,
    pub cloud_cover: Option<u64>,
    pub terrestrial_radiation: Option<u64>,
    pub direct_radiation: Option<u64>,
    pub diffuse_radiation: Option<u64>,
    pub shortwave_radiation: Option<u64>,
    pub direct_normal_irradiance: Option<u64>,
    pub global_tilted_irradiance: Option<u64>,
    pub sun_azimuth: u64,
    pub sun_altitude: u64,
}

/// A stored row projected to a raw query row.
pub open spec fn to_power_today(m: Model) -> PowerToday {
    PowerToday {
        time: m.time,
        power_ch1: m.power_ch1,
        power_ch2: m.power_ch2,
        energy_today_ch1: m.energy_today_ch1,
        energy_today_ch2: m.energy_today_ch2,
        energy_total_ch1: m.energy_total_ch1,
        energy_total_ch2: m.energy_total_ch2,
        max_power: m.max_power,
        cloud_cover: m.cloud_cover,
        terrestrial_radiation: m.terrestrial_radiation,
        direct_radiation: m.direct_radiation,
        diffuse_radiation: m.diffuse_radiation,
        shortwave_radiation: m.shortwave_radiation,
        direct_normal_irradiance: m.direct_normal_irradiance,
        global_tilted_irradiance: m.global_tilted_irradiance,
        sun_azimuth: m.sun_azimuth,
        sun_altitude: m.sun_altitude,
    }
}

/// The rows whose timestamp falls on `today`, in stored order, projected to
/// raw query rows.
pub open spec fn power_today_rows(rows: Seq<Model>, today: i64) -> Seq<PowerToday>
    decreases rows.len(),
{
    if rows.len() == 0 {
        Seq::empty()
    } else {
        let rest = power_today_rows(rows.drop_last(), today);
        if day_of(rows.last().time as int) == today {
            rest.push(to_power_today(rows.last()))
        } else {
            rest
        }
    }
}

/// How many stored rows fall on `today`.
pub open spec fn count_today(rows: Seq<Model>, today: i64) -> int
    decreases rows.len(),
{
    if rows.len() == 0 {
        0int
    } else {
        count_today(rows.drop_last(), today) + if day_of(rows.last().time as int) == today {
            1int
        } else {
            0int
        }
    }
}

/// Today's raw samples: exactly the stored rows whose timestamp falls on
/// `today`, in stored order.
pub fn select_power_today(db: &Store, today: i64) -> (v: Vec<PowerToday>)
    requires
        db.wf(),
    ensures
        v@ == power_today_rows(db.rows(), today),
{
    let n = db.len();
    let mut v: Vec<PowerToday> = Vec::new();
    let mut idx: usize = 0;
    while idx < n
        invariant
            db.wf(),
            n == db.rows().len(),
            idx <= n,
            v@ == power_today_rows(db.rows().take(idx as int), today),
        decreases n - idx,
    {
        let ghost pre = db.rows().take(idx as int);
        let ghost post = db.rows().take(idx as int + 1);
        proof {
            assert(post.drop_last() =~= pre);
            assert(post.last() == db.rows()[idx as int]);
        }
        let m = db.get(idx);
        if m.time / SECONDS_PER_DAY == today {
            v.push(PowerToday {
                time: m.time,
                power_ch1: m.power_ch1,
                power_ch2: m.power_ch2,
                energy_today_ch1: m.energy_today_ch1,
                energy_today_ch2: m.energy_today_ch2,
                energy_total_ch1: m.energy_total_ch1,
                energy_total_ch2: m.energy_total_ch2,
                max_power: m.max_power,
                cloud_cover: m.cloud_cover,
                terrestrial_radiation: m.terrestrial_radiation,
                direct_radiation: m.direct_radiation,
                diffuse_radiation: m.diffuse_radiation,
                shortwave_radiation: m.shortwave_radiation,
                direct_normal_irradiance: m.direct_normal_irradiance,
                global_tilted_irradiance: m.global_tilted_irradiance,
                sun_azimuth: m.sun_azimuth,
                sun_altitude: m.sun_altitude,
            });
        }
        idx += 1;
    }
    proof {
        assert(db.rows().take(db.rows().len() as int) =~= db.rows());
    }
    v
}

impl Store {
    /// Read one stored row.
    pub fn get(&self, i: usize) -> (m: &Model)
        requires
            i < self.rows().len(),
        ensures
            *m == self.rows()[i as int],
    {
        &self.rows[i]
    }
}

/// The bucket contribution of one row grouped by hour of day.
pub open spec fn hour_item(m: Model) -> BucketItem {
    BucketItem {
        key: hour_of(m.time as int) as i64,
        ch1: m.energy_total_ch1,
        ch2: m.energy_total_ch2,
    }
}

/// The bucket contribution of one row grouped by calendar day.
pub open spec fn day_item(m: Model) -> BucketItem {
    BucketItem {
        key: day_of(m.time as int) as i64,
        ch1: m.energy_total_ch1,
        ch2: m.energy_total_ch2,
    }
}

/// The bucket contributions, grouped by hour of day, of the rows falling on
/// `today`, in stored order.
pub open spec fn hourly_items(rows: Seq<Model>, today: i64) -> Seq<BucketItem>
    decreases rows.len(),
{
    if rows.len() == 0 {
        Seq::empty()
    } else {
        let rest = hourly_items(rows.drop_last(), today);
        if day_of(rows.last().time as int) == today {
            rest.push(hour_item(rows.last()))
        } else {
            rest
        }
    }
}

/// The bucket contributions, grouped by calendar day, of all stored rows, in
/// stored order.
pub open spec fn daily_items(rows: Seq<Model>) -> Seq<BucketItem>
    decreases rows.len(),
{
    if rows.len() == 0 {
        Seq::empty()
    } else {
        daily_items(rows.drop_last()).push(day_item(rows.last()))
    }
}

/// In a well-formed row sequence, hourly bucket items are bounded and their
/// keys are hours of day.
proof fn lemma_hourly_items_wf(rows: Seq<Model>, today: i64)
    requires
        forall|i: int| 0 <= i < rows.len() ==> (#[trigger] rows[i]).wf(),
    ensures
        items_bounded(hourly_items(rows, today), ENERGY_MAX),
        forall|i: int|
            0 <= i < hourly_items(rows, today).len() ==> 0 <= (#[trigger] hourly_items(
                rows,
                today,
            )[i]).key < 24,
    decreases rows.len(),
{
    if rows.len() > 0 {
        assert(forall|i: int|
            0 <= i < rows.drop_last().len() ==> (#[trigger] rows.drop_last()[i]).wf());
        lemma_hourly_items_wf(rows.drop_last(), today);
        assert(rows[rows.len() - 1].wf());
    }
}

/// In a well-formed row sequence, daily bucket items are bounded and their
/// keys are non-negative day numbers.
proof fn lemma_daily_items_wf(rows: Seq<Model>)
    requires
        forall|i: int| 0 <= i < rows.len() ==> (#[trigger] rows[i]).wf(),
    ensures
        items_bounded(daily_items(rows), ENERGY_MAX),
        daily_items(rows).len() == rows.len(),
        forall|i: int|
            0 <= i < daily_items(rows).len() ==> 0 <= (#[trigger] daily_items(rows)[i]).key,
    decreases rows.len(),
{
    if rows.len() > 0 {
        assert(forall|i: int|
            0 <= i < rows.drop_last().len() ==> (#[trigger] rows.drop_last()[i]).wf());
        lemma_daily_items_wf(rows.drop_last());
        assert(rows[rows.len() - 1].wf());
    }
}

/// One hourly aggregate row: an hour of today and the per-channel energy
/// generated during that hour, absent for the first bucket of the day.
#[derive(Clone, Copy, PartialEq, Eq, Debug)]
pub struct GeneratedByHour {
    pub hour: i64,
    pub ch1: Option<i64>,
    pub ch2: Option<i64>,
}

/// One daily aggregate row: a day (as days since the epoch) and the
/// per-channel energy generated that day, measured against a zero baseline
/// for the first day in the table.
#[derive(Clone, Copy, PartialEq, Eq, Debug)]
pub struct GeneratedByDay {
    pub date: i64,
    pub ch1: Option<i64>,
    pub ch2: Option<i64>,
}

/// Energy generated per hour of `today`: one row per hour that has samples,
/// ascending by hour, each carrying that hour's maximum lifetime counter
/// minus the previous hour bucket's, and no value at all for the first
/// bucket of the day.
pub fn select_generated_by_hour_today(db: &Store, today: i64) -> (out: Vec<GeneratedByHour>)
    requires
        db.wf(),
    ensures
        forall|i: int, j: int| 0 <= i < j < out@.len() ==> out@[i].hour < out@[j].hour,
        forall|k: i64|
            has_key(hourly_items(db.rows(), today), k) <==> exists|i: int|
                0 <= i < out@.len() && out@[i].hour == k,
        forall|i: int| 0 <= i < out@.len() ==> 0 <= (#[trigger] out@[i]).hour < 24,
        forall|i: int|
            0 <= i < out@.len() ==> (#[trigger] out@[i]).ch1 == (if i == 0 {
                None::<i64>
            } else {
                Some(
                    (bucket_max1(hourly_items(db.rows(), today), out@[i].hour) - bucket_max1(
                        hourly_items(db.rows(), today),
                        out@[i - 1].hour,
                    )) as i64,
                )
            }),
        forall|i: int|
            0 <= i < out@.len() ==> (#[trigger] out@[i]).ch2 == (if i == 0 {
                None::<i64>
            } else {
                Some(
                    (bucket_max2(hourly_items(db.rows(), today), out@[i].hour) - bucket_max2(
                        hourly_items(db.rows(), today),
                        out@[i - 1].hour,
                    )) as i64,
                )
            }),
{
    let ghost all_items = hourly_items(db.rows(), today);
    let n = db.len();
    let mut items: Vec<BucketItem> = Vec::new();
    let mut idx: usize = 0;
    while idx < n
        invariant
            db.wf(),
            n == db.rows().len(),
            idx <= n,
            items@ == hourly_items(db.rows().take(idx as int), today),
        decreases n - idx,
    {
        let ghost pre = db.rows().take(idx as int);
        let ghost post = db.rows().take(idx as int + 1);
        proof {
            assert(post.drop_last() =~= pre);
            assert(post.last() == db.rows()[idx as int]);
        }
        let m = db.get(idx);
        if m.time / SECONDS_PER_DAY == today {
            let hour = (m.time % SECONDS_PER_DAY) / SECONDS_PER_HOUR;
            items.push(BucketItem { key: hour, ch1: m.energy_total_ch1, ch2: m.energy_total_ch2 });
        }
        idx += 1;
    }
    proof {
        assert(db.rows().take(db.rows().len() as int) =~= db.rows());
        lemma_hourly_items_wf(db.rows(), today);
    }
    let deltas = windowed_deltas(&items, false);
    let mut out: Vec<GeneratedByHour> = Vec::new();
    let mut j: usize = 0;
    while j < deltas.len()
        invariant
            out@.len() == j,
            j <= deltas@.len(),
            forall|l: int|
                0 <= l < j ==> (#[trigger] out@[l]).hour == deltas@[l].key && out@[l].ch1
                    == deltas@[l].ch1 && out@[l].ch2 == deltas@[l].ch2,
        decreases deltas@.len() - j,
    {
        let d = deltas[j];
        out.push(GeneratedByHour { hour: d.key, ch1: d.ch1, ch2: d.ch2 });
        j += 1;
    }
    proof {
        assert forall|k: i64|
            has_key(all_items, k) <==> exists|i: int| 0 <= i < out@.len() && out@[i].hour
                == k by {
            if has_key(all_items, k) {
                let w = choose|w: int| 0 <= w < deltas@.len() && deltas@[w].key == k;
                assert(out@[w].hour == k);
            }
            if exists|i: int| 0 <= i < out@.len() && out@[i].hour == k {
                let w = choose|w: int| 0 <= w < out@.len() && out@[w].hour == k;
                assert(deltas@[w].key == k);
            }
        }
        assert forall|i: int| 0 <= i < out@.len() implies 0 <= (#[trigger] out@[i]).hour < 24 by {
            assert(deltas@[i].key == out@[i].hour);
            assert(has_key(all_items, deltas@[i].key));
            let w = choose|w: int| 0 <= w < all_items.len() && all_items[w].key == deltas@[i].key;
        }
    }
    out
}

/// Energy generated per calendar day, over the whole table: one row per day
/// that has samples, ascending by day, each carrying that day's maximum
/// lifetime counter minus the previous day's, the first day measured against
/// zero.
pub fn select_generated_by_day(db: &Store) -> (out: Vec<GeneratedByDay>)
    requires
        db.wf(),
    ensures
        forall|i: int, j: int| 0 <= i < j < out@.len() ==> out@[i].date < out@[j].date,
        forall|k: i64|
            has_key(daily_items(db.rows()), k) <==> exists|i: int|
                0 <= i < out@.len() && out@[i].date == k,
        forall|i: int| 0 <= i < out@.len() ==> 0 <= (#[trigger] out@[i]).date,
        forall|i: int|
            0 <= i < out@.len() ==> (#[trigger] out@[i]).ch1 == (if i == 0 {
                Some(bucket_max1(daily_items(db.rows()), out@[0].date) as i64)
            } else {
                Some(
                    (bucket_max1(daily_items(db.rows()), out@[i].date) - bucket_max1(
                        daily_items(db.rows()),
                        out@[i - 1].date,
                    )) as i64,
                )
            }),
        forall|i: int|
            0 <= i < out@.len() ==> (#[trigger] out@[i]).ch2 == (if i == 0 {
                Some(bucket_max2(daily_items(db.rows()), out@[0].date) as i64)
            } else {
                Some(
                    (bucket_max2(daily_items(db.rows()), out@[i].date) - bucket_max2(
                        daily_items(db.rows()),
                        out@[i - 1].date,
                    )) as i64,
                )
            }),
{
    let ghost all_items = daily_items(db.rows());
    let n = db.len();
    let mut items: Vec<BucketItem> = Vec::new();
    let mut idx: usize = 0;
    while idx < n
        invariant
            db.wf(),
            n == db.rows().len(),
            idx <= n,
            items@ == daily_items(db.rows().take(idx as int)),
        decreases n - idx,
    {
        let ghost pre = db.rows().take(idx as int);
        let ghost post = db.rows().take(idx as int + 1);
        proof {
            assert(post.drop_last() =~= pre);
            assert(post.last() == db.rows()[idx as int]);
        }
        let m = db.get(idx);
        let day = m.time / SECONDS_PER_DAY;
        items.push(BucketItem { key: day, ch1: m.energy_total_ch1, ch2: m.energy_total_ch2 });
        idx += 1;
    }
    proof {
        assert(db.rows().take(db.rows().len() as int) =~= db.rows());
        lemma_daily_items_wf(db.rows());
    }
    let deltas = windowed_deltas(&items, true);
    let mut out: Vec<GeneratedByDay> = Vec::new();
    let mut j: usize = 0;
    while j < deltas.len()
        invariant
            out@.len() == j,
            j <= deltas@.len(),
            forall|l: int|
                0 <= l < j ==> (#[trigger] out@[l]).date == deltas@[l].key && out@[l].ch1
                    == deltas@[l].ch1 && out@[l].ch2 == deltas@[l].ch2,
        decreases deltas@.len() - j,
    {
        let d = deltas[j];
        out.push(GeneratedByDay { date: d.key, ch1: d.ch1, ch2: d.ch2 });
        j += 1;
    }
    proof {
        assert forall|k: i64|
            has_key(all_items, k) <==> exists|i: int| 0 <= i < out@.len() && out@[i].date
                == k by {
            if has_key(all_items, k) {
                let w = choose|w: int| 0 <= w < deltas@.len() && deltas@[w].key == k;
                assert(out@[w].date == k);
            }
            if exists|i: int| 0 <= i < out@.len() && out@[i].date == k {
                let w = choose|w: int| 0 <= w < out@.len() && out@[w].date == k;
                assert(deltas@[w].key == k);
            }
        }
        assert forall|i: int| 0 <= i < out@.len() implies 0 <= (#[trigger] out@[i]).date by {
            assert(deltas@[i].key == out@[i].date);
            assert(has_key(all_items, deltas@[i].key));
            let w = choose|w: int| 0 <= w < all_items.len() && all_items[w].key == deltas@[i].key;
        }
    }
    out
}

} // verus!
