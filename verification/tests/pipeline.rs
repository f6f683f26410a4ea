use powerlog::coordinator::{classify_probe, run_cycle, ProbeDecision, UpstreamError};
use powerlog::db::{select_generated_by_day, select_generated_by_hour_today, select_power_today, setup};
use powerlog::inverter::{to_output_data, OutputChannel, OutputData, RawOutputData, Status};
use powerlog::sun::Position;
use powerlog::weather::CurrentWeather;

fn sunpos() -> Position {
    Position { azimuth_bits: 11, altitude_bits: 22 }
}

fn reading(power: u64, startup: u64, lifetime1: u64, lifetime2: u64) -> OutputData {
    OutputData {
        channel1: OutputChannel {
            power,
            energy_generation_startup: startup,
            energy_generation_lifetime: lifetime1,
        },
        channel2: OutputChannel {
            power: power + 1,
            energy_generation_startup: startup + 1,
            energy_generation_lifetime: lifetime2,
        },
    }
}

fn weather_sample() -> CurrentWeather {
    CurrentWeather {
        cloud_cover: 55500,
        terrestrial_radiation_instant: 937000,
        direct_radiation_instant: 123500,
        diffuse_radiation_instant: 180200,
        shortwave_radiation_instant: 303700,
        direct_normal_irradiance_instant: 179100,
        global_tilted_irradiance_instant: 227900,
    }
}

#[test]
fn parse_output_data() {
    let response = r#"
{
    "data": {
        "p1": 1,
        "e1": 2,
        "te1": 3,
        "p2": 4,
        "e2": 5,
        "te2": 6
    },
    "message": "SUCCESS",
    "deviceId":"E07000000001"
}
            "#;

    let value: serde_json::Value = serde_json::from_str(response).unwrap();
    let data = &value["data"];
    let raw = RawOutputData {
        p1: data["p1"].as_u64().unwrap(),
        p2: data["p2"].as_u64().unwrap(),
        e1: data["e1"].as_u64().unwrap(),
        e2: data["e2"].as_u64().unwrap(),
        te1: data["te1"].as_u64().unwrap(),
        te2: data["te2"].as_u64().unwrap(),
    };
    let data = to_output_data(raw);
    assert_eq!(data.channel1.power, 1);
    assert_eq!(data.channel1.energy_generation_startup, 2);
    assert_eq!(data.channel1.energy_generation_lifetime, 3);
    assert_eq!(data.channel2.power, 4);
    assert_eq!(data.channel2.energy_generation_startup, 5);
    assert_eq!(data.channel2.energy_generation_lifetime, 6);
}

#[test]
fn insert_assigns_monotonic_ids() {
    let mut db = setup();
    assert_eq!(db.len(), 0);
    for i in 0..3u64 {
        let id = powerlog::db::insert(&mut db, None, sunpos(), reading(10, 20, 100 + i, 200 + i), 600, 1000 + i as i64);
        assert_eq!(id, i + 1);
    }
    assert_eq!(db.len(), 3);
    assert_eq!(db.get(0).id, 1);
    assert_eq!(db.get(2).id, 3);
}

#[test]
fn weather_failure_keeps_cycle_and_empties_block() {
    // The weather fetch failed, the inverter succeeded: the cycle appends a
    // row with every weather column absent and the mandatory columns filled.
    let mut db = setup();
    let r = run_cycle(
        &mut db,
        Ok(reading(7, 9, 1000, 2000)),
        Ok(600_000),
        Err(UpstreamError::Timeout),
        sunpos(),
        86400 + 3600,
    );
    assert_eq!(r, Ok(1));
    assert_eq!(db.len(), 1);
    let row = db.get(0);
    assert_eq!(row.cloud_cover, None);
    assert_eq!(row.terrestrial_radiation, None);
    assert_eq!(row.direct_radiation, None);
    assert_eq!(row.diffuse_radiation, None);
    assert_eq!(row.shortwave_radiation, None);
    assert_eq!(row.direct_normal_irradiance, None);
    assert_eq!(row.global_tilted_irradiance, None);
    assert_eq!(row.power_ch1, 7);
    assert_eq!(row.power_ch2, 8);
    assert_eq!(row.energy_today_ch1, 9);
    assert_eq!(row.energy_total_ch1, 1000);
    assert_eq!(row.energy_total_ch2, 2000);
    assert_eq!(row.max_power, 600_000);
    assert_eq!(row.time, 90000);
    assert_eq!(row.sun_azimuth, 11);
    assert_eq!(row.sun_altitude, 22);
}

#[test]
fn weather_success_fills_block_and_scales_cloud_cover() {
    let mut db = setup();
    let r = run_cycle(
        &mut db,
        Ok(reading(7, 9, 1000, 2000)),
        Ok(600_000),
        Ok(weather_sample()),
        sunpos(),
        3600,
    );
    assert_eq!(r, Ok(1));
    let row = db.get(0);
    // 55.5% cloud cover arrives as 55500 milli-percent and is stored as 555
    // thousandths of full cover.
    assert_eq!(row.cloud_cover, Some(555));
    assert_eq!(row.terrestrial_radiation, Some(937000));
    assert_eq!(row.direct_radiation, Some(123500));
    assert_eq!(row.diffuse_radiation, Some(180200));
    assert_eq!(row.shortwave_radiation, Some(303700));
    assert_eq!(row.direct_normal_irradiance, Some(179100));
    assert_eq!(row.global_tilted_irradiance, Some(227900));
}

#[test]
fn inverter_failure_aborts_cycle_without_row() {
    let mut db = setup();
    let r = run_cycle(
        &mut db,
        Err(UpstreamError::ProtocolError),
        Ok(600),
        Ok(weather_sample()),
        sunpos(),
        3600,
    );
    assert_eq!(r, Err(UpstreamError::ProtocolError));
    assert_eq!(db.len(), 0);
    let r2 = run_cycle(
        &mut db,
        Ok(reading(1, 2, 3, 4)),
        Err(UpstreamError::Decode),
        Ok(weather_sample()),
        sunpos(),
        3600,
    );
    assert_eq!(r2, Err(UpstreamError::Decode));
    assert_eq!(db.len(), 0);
}

#[test]
fn probe_connect_failure_skips_cycle_silently() {
    // The fail-fast gate: a connection or timeout failure of the on/off probe
    // skips the cycle; nothing is appended and nothing is fatal.
    let mut db = setup();
    for probe in [Err(UpstreamError::ConnectFailed), Err(UpstreamError::Timeout)] {
        let decision = classify_probe(probe);
        assert_eq!(decision, ProbeDecision::SkipCycle);
        // The acquisition loop runs a cycle only on a proceed decision.
        if let ProbeDecision::Proceed(_) = decision {
            run_cycle(&mut db, Ok(reading(1, 2, 3, 4)), Ok(5), Ok(weather_sample()), sunpos(), 0);
        }
    }
    assert_eq!(db.len(), 0);
    assert_eq!(
        classify_probe(Err(UpstreamError::ProtocolError)),
        ProbeDecision::Fatal(UpstreamError::ProtocolError)
    );
    assert_eq!(classify_probe(Ok(Status::Off)), ProbeDecision::Proceed(Status::Off));
    assert_eq!(classify_probe(Ok(Status::On)), ProbeDecision::Proceed(Status::On));
}

#[test]
fn power_today_returns_exactly_todays_rows_in_order() {
    let mut db = setup();
    // One row yesterday, three rows today (day 1), one row tomorrow.
    let times = [30, 86400 + 10, 86400 + 20, 86400 + 3600, 2 * 86400 + 5];
    for (i, t) in times.iter().enumerate() {
        powerlog::db::insert(&mut db, None, sunpos(), reading(1, 2, 10 + i as u64, 20), 600, *t);
    }
    let rows = select_power_today(&db, 1);
    assert_eq!(rows.len(), 3);
    assert_eq!(rows[0].time, 86410);
    assert_eq!(rows[1].time, 86420);
    assert_eq!(rows[2].time, 90000);
    assert!(rows.windows(2).all(|w| w[0].time <= w[1].time));
    let empty = select_power_today(&db, 7);
    assert_eq!(empty.len(), 0);
}

#[test]
fn hourly_deltas_first_bucket_null_then_max_differences() {
    let mut db = setup();
    let day = 5 * 86400;
    // Hour 1: counters reach 100/200. Hour 2: two samples, maxima 160/260.
    // Hour 4: maxima 200/300. A row on another day is ignored.
    powerlog::db::insert(&mut db, None, sunpos(), reading(1, 2, 90, 190), 600, day + 3600);
    powerlog::db::insert(&mut db, None, sunpos(), reading(1, 2, 100, 200), 600, day + 3700);
    powerlog::db::insert(&mut db, None, sunpos(), reading(1, 2, 150, 260), 600, day + 2 * 3600);
    powerlog::db::insert(&mut db, None, sunpos(), reading(1, 2, 160, 250), 600, day + 2 * 3600 + 60);
    powerlog::db::insert(&mut db, None, sunpos(), reading(1, 2, 200, 300), 600, day + 4 * 3600);
    powerlog::db::insert(&mut db, None, sunpos(), reading(1, 2, 999, 999), 600, day + 86400 + 3600);
    let out = select_generated_by_hour_today(&db, 5);
    assert_eq!(out.len(), 3);
    assert_eq!(out[0].hour, 1);
    assert_eq!(out[0].ch1, None);
    assert_eq!(out[0].ch2, None);
    assert_eq!(out[1].hour, 2);
    assert_eq!(out[1].ch1, Some(60));
    assert_eq!(out[1].ch2, Some(60));
    assert_eq!(out[2].hour, 4);
    assert_eq!(out[2].ch1, Some(40));
    assert_eq!(out[2].ch2, Some(40));
    // With a device that never restarted, every emitted delta is >= 0.
    assert!(out.iter().all(|r| r.ch1.unwrap_or(0) >= 0 && r.ch2.unwrap_or(0) >= 0));
}

#[test]
fn daily_deltas_first_day_measured_against_zero() {
    let mut db = setup();
    powerlog::db::insert(&mut db, None, sunpos(), reading(1, 2, 80, 90), 600, 10 * 86400 + 60);
    powerlog::db::insert(&mut db, None, sunpos(), reading(1, 2, 100, 120), 600, 10 * 86400 + 120);
    powerlog::db::insert(&mut db, None, sunpos(), reading(1, 2, 150, 180), 600, 12 * 86400 + 60);
    let out = select_generated_by_day(&db);
    assert_eq!(out.len(), 2);
    assert_eq!(out[0].date, 10);
    // The first day in the table diffs against a zero baseline, not null.
    assert_eq!(out[0].ch1, Some(100));
    assert_eq!(out[0].ch2, Some(120));
    assert_eq!(out[1].date, 12);
    assert_eq!(out[1].ch1, Some(50));
    assert_eq!(out[1].ch2, Some(60));
}

#[test]
fn daily_delta_goes_negative_after_counter_reset() {
    // A device replacement mid-table: the lifetime counter drops, and the
    // emitted delta is negative rather than clamped or dropped.
    let mut db = setup();
    powerlog::db::insert(&mut db, None, sunpos(), reading(1, 2, 100, 100), 600, 60);
    powerlog::db::insert(&mut db, None, sunpos(), reading(1, 2, 40, 30), 600, 86400 + 60);
    let out = select_generated_by_day(&db);
    assert_eq!(out.len(), 2);
    assert_eq!(out[0].ch1, Some(100));
    assert_eq!(out[1].ch1, Some(-60));
    assert_eq!(out[1].ch2, Some(-70));
}

#[test]
fn empty_store_yields_empty_results() {
    let db = setup();
    assert_eq!(select_power_today(&db, 0).len(), 0);
    assert_eq!(select_generated_by_hour_today(&db, 0).len(), 0);
    assert_eq!(select_generated_by_day(&db).len(), 0);
}
