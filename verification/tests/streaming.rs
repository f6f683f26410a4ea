use powerlog::api::power_today;
use powerlog::calendar::civil_from_days;
use powerlog::db::{select_power_today, setup, GeneratedByDay, GeneratedByHour};
use powerlog::inverter::{OutputChannel, OutputData};
use powerlog::render::{render_day_row, render_hour_row, render_power_today};
use powerlog::responder::StreamingResponder;
use powerlog::sun::Position;

fn sunpos() -> Position {
    Position { azimuth_bits: 0, altitude_bits: 0 }
}

fn reading(lifetime: u64) -> OutputData {
    OutputData {
        channel1: OutputChannel {
            power: 250,
            energy_generation_startup: 3,
            energy_generation_lifetime: lifetime,
        },
        channel2: OutputChannel {
            power: 260,
            energy_generation_startup: 4,
            energy_generation_lifetime: lifetime + 5,
        },
    }
}

#[test]
fn civil_dates_match_known_days() {
    assert_eq!(civil_from_days(0), (1970, 1, 1));
    assert_eq!(civil_from_days(19829), (2024, 4, 16));
    // 2024 is a leap year: day 19782 is its February 29th.
    assert_eq!(civil_from_days(19782), (2024, 2, 29));
    assert_eq!(civil_from_days(11016), (2000, 2, 29));
    assert_eq!(civil_from_days(2_932_896), (9999, 12, 31));
}

#[test]
fn civil_dates_roll_forward_consistently() {
    // Walking one day at a time reproduces calendar month lengths.
    let leap = |y: i64| y % 4 == 0 && (y % 100 != 0 || y % 400 == 0);
    let month_len = |y: i64, m: u8| match m {
        2 => {
            if leap(y) {
                29
            } else {
                28
            }
        },
        4 | 6 | 9 | 11 => 30,
        _ => 31,
    };
    let (mut y, mut m, mut d) = (1970i64, 1u8, 1u8);
    for z in 0..200_000i64 {
        assert_eq!(civil_from_days(z), (y, m, d), "day {}", z);
        if (d as i64) < month_len(y, m) {
            d += 1;
        } else if m < 12 {
            m += 1;
            d = 1;
        } else {
            y += 1;
            m = 1;
            d = 1;
        }
    }
}

#[test]
fn hour_row_renders_two_digit_label_and_nulls() {
    let row = GeneratedByHour { hour: 7, ch1: None, ch2: Some(-45) };
    let bytes = render_hour_row(&row);
    assert_eq!(
        String::from_utf8(bytes).unwrap(),
        "{\"hour\":\"07\",\"ch1\":null,\"ch2\":-45}"
    );
}

#[test]
fn day_row_renders_calendar_date_label() {
    let row = GeneratedByDay { date: 19829, ch1: Some(12345), ch2: Some(0) };
    let bytes = render_day_row(&row);
    assert_eq!(
        String::from_utf8(bytes).unwrap(),
        "{\"date\":\"2024-04-16\",\"ch1\":12345,\"ch2\":0}"
    );
}

#[test]
fn power_row_renders_iso_timestamp() {
    let mut db = setup();
    powerlog::db::insert(&mut db, None, sunpos(), reading(77), 600, 19829 * 86400 + 9 * 3600 + 30 * 60);
    let rows = select_power_today(&db, 19829);
    let bytes = render_power_today(&rows[0]);
    let text = String::from_utf8(bytes).unwrap();
    assert!(text.starts_with("{\"time\":\"2024-04-16T09:30:00Z\",\"power_ch1\":250,"), "{}", text);
    assert!(text.contains("\"cloud_cover\":null,"));
    assert!(text.contains("\"energy_total_ch1\":77,"));
    let value: serde_json::Value = serde_json::from_str(&text).unwrap();
    assert_eq!(value["power_ch2"].as_u64(), Some(260));
    assert_eq!(value["sun_azimuth"].as_u64(), Some(0));
    assert!(value["direct_radiation"].is_null());
}

#[test]
fn responder_flushes_at_batch_boundaries() {
    let mut r = StreamingResponder::new(2);
    let a: Vec<u8> = b"1".to_vec();
    assert_eq!(r.push(&a), None);
    let flushed = r.push(&a);
    assert_eq!(flushed.as_deref(), Some(b"[1,1".as_ref()));
    assert_eq!(r.push(&a), None);
    let tail = r.finish();
    assert_eq!(tail, b",1]".to_vec());
}

#[test]
fn responder_renders_empty_array() {
    let r = StreamingResponder::new(1000);
    assert_eq!(r.finish(), b"[]".to_vec());
}

#[test]
fn streaming_ten_thousand_rows_matches_eager_collection() {
    // Stream a 10,000-row result in batches of 1000: the emitted bytes parse
    // back to exactly the eagerly collected query result, and no chunk
    // carries more than one batch of rows.
    let mut db = setup();
    let day: i64 = 19829;
    for i in 0..10_000u64 {
        powerlog::db::insert(
            &mut db,
            None,
            sunpos(),
            reading(1000 + i),
            600,
            day * 86400 + (i as i64) % 86400,
        );
    }
    let chunks = power_today(&db, day, 1000);
    // ten full batches and the closing tail
    assert_eq!(chunks.len(), 11);
    for chunk in &chunks {
        let rows_in_chunk = chunk.iter().filter(|b| **b == b'{').count();
        assert!(rows_in_chunk <= 1000);
    }
    let mut bytes: Vec<u8> = Vec::new();
    for chunk in &chunks {
        bytes.extend_from_slice(chunk);
    }
    let parsed: serde_json::Value = serde_json::from_slice(&bytes).unwrap();
    let arr = parsed.as_array().unwrap();
    let eager = select_power_today(&db, day);
    assert_eq!(arr.len(), 10_000);
    assert_eq!(eager.len(), 10_000);
    for (value, row) in arr.iter().zip(eager.iter()) {
        assert_eq!(value["energy_total_ch1"].as_u64(), Some(row.energy_total_ch1));
        assert_eq!(value["energy_total_ch2"].as_u64(), Some(row.energy_total_ch2));
        assert_eq!(value["power_ch1"].as_u64(), Some(row.power_ch1));
        assert!(value["cloud_cover"].is_null());
    }
}

#[test]
fn sun_position_is_deterministic() {
    // The solar-position computation depends on its inputs alone: the same
    // instant and location give bit-identical angles, which the library
    // carries as an opaque position.
    let t_ms: i64 = 1_713_259_800_000;
    let (lat, lon) = (52.5f64, 13.493f64);
    let p1 = sun::pos(t_ms, lat, lon);
    let p2 = sun::pos(t_ms, lat, lon);
    assert_eq!(p1.azimuth.to_bits(), p2.azimuth.to_bits());
    assert_eq!(p1.altitude.to_bits(), p2.altitude.to_bits());
    let carried1 = Position { azimuth_bits: p1.azimuth.to_bits(), altitude_bits: p1.altitude.to_bits() };
    let carried2 = Position { azimuth_bits: p2.azimuth.to_bits(), altitude_bits: p2.altitude.to_bits() };
    assert_eq!(carried1, carried2);
}
