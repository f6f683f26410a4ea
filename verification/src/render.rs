//! Rendering query rows as JSON bytes.
//!
//! The streaming layer works on raw bytes, so the renderers here state
//! exactly which byte sequence each row becomes. Numbers are the fixed-point
//! integers the library carries; absent values render as `null`.

use vstd::prelude::*;
use vstd::string::StringSliceAdditionalSpecFns;

use crate::calendar::{civil_from_days, spec_civil_from_days, MAX_DAY, MAX_TIME};
use crate::db::{GeneratedByDay, GeneratedByHour, PowerToday};

verus! {

/// The decimal digits of a non-negative number, most significant first.
pub open spec fn dec_nat(n: int) -> Seq<u8>
    decreases n,
{
    if n < 10 {
        seq![(48 + n) as u8]
    } else {
        dec_nat(n / 10).push((48 + n % 10) as u8)
    }
}

/// The decimal rendering of an integer: a minus sign and the digits of the
/// magnitude, or just the digits.
pub open spec fn dec_int(n: int) -> Seq<u8> {
    if n < 0 {
        seq![45u8] + dec_nat(-n)
    } else {
        dec_nat(n)
    }
}

/// The rendering of an optional integer: `null` when absent.
pub open spec fn dec_opt(v: Option<i64>) -> Seq<u8> {
    match v {
        Some(n) => dec_int(n as int),
        None => "null".spec_bytes(),
    }
}

/// A number below 100 rendered as exactly two digits.
pub open spec fn dec_two(n: int) -> Seq<u8> {
    seq![(48 + n / 10) as u8, (48 + n % 10) as u8]
}

/// Append a byte slice.
pub fn push_bytes(out: &mut Vec<u8>, b: &[u8])
    ensures
        final(out)@ == old(out)@ + b@,
{
    let ghost orig = out@;
    let mut i: usize = 0;
    while i < b.len()
        invariant
            i <= b@.len(),
            out@ == orig + b@.take(i as int),
        decreases b@.len() - i,
    {
        let ghost pre = b@.take(i as int);
        let ghost post = b@.take(i as int + 1);
        proof {
            assert(post =~= pre.push(b@[i as int]));
        }
        out.push(b[i]);
        i += 1;
    }
    proof {
        assert(b@.take(b@.len() as int) =~= b@);
    }
}

/// Append the bytes of a string literal.
pub fn push_lit(out: &mut Vec<u8>, s: &str)
    ensures
        final(out)@ == old(out)@ + s.spec_bytes(),
{
    push_bytes(out, s.as_bytes());
}

/// Append the decimal digits of a number.
pub fn push_u64(out: &mut Vec<u8>, n: u64)
    ensures
        final(out)@ == old(out)@ + dec_nat(n as int),
    decreases n,
{
    let ghost orig = out@;
    if n < 10 {
        out.push(48 + (n as u8));
        proof {
            assert(out@ =~= orig + dec_nat(n as int));
        }
    } else {
        push_u64(out, n / 10);
        out.push(48 + ((n % 10) as u8));
        proof {
            assert(out@ =~= orig + dec_nat(n as int));
        }
    }
}

/// Append the decimal rendering of a signed number.
pub fn push_i64(out: &mut Vec<u8>, n: i64)
    ensures
        final(out)@ == old(out)@ + dec_int(n as int),
{
    let ghost orig = out@;
    if n >= 0 {
        push_u64(out, n as u64);
    } else {
        out.push(45);
        let mag: u64 = ((-(n + 1)) as u64) + 1;
        assert(mag == -(n as int));
        push_u64(out, mag);
        proof {
            assert(out@ =~= orig + dec_int(n as int));
        }
    }
}

/// Append an optional number, `null` when absent.
pub fn push_opt(out: &mut Vec<u8>, v: Option<i64>)
    ensures
        final(out)@ == old(out)@ + dec_opt(v),
{
    match v {
        Some(n) => push_i64(out, n),
        None => push_lit(out, "null"),
    }
}

/// Append a number below 100 as exactly two digits.
pub fn push_two_digits(out: &mut Vec<u8>, n: u64)
    requires
        n < 100,
    ensures
        final(out)@ == old(out)@ + dec_two(n as int),
{
    let ghost orig = out@;
    out.push(48 + ((n / 10) as u8));
    out.push(48 + ((n % 10) as u8));
    proof {
        assert(out@ =~= orig + dec_two(n as int));
    }
}

/// The date label of a day number: year, month and day of its calendar date,
/// dash-separated.
pub open spec fn date_label(z: int) -> Seq<u8> {
    let ymd = spec_civil_from_days(z);
    dec_nat(ymd.0) + "-".spec_bytes() + dec_two(ymd.1) + "-".spec_bytes() + dec_two(ymd.2)
}

/// Append the date label of a day number.
pub fn push_date_label(out: &mut Vec<u8>, z: i64)
    requires
        0 <= z <= MAX_DAY,
    ensures
        final(out)@ == old(out)@ + date_label(z as int),
{
    let ghost orig = out@;
    let ymd = civil_from_days(z);
    push_u64(out, ymd.0 as u64);
    push_lit(out, "-");
    push_two_digits(out, ymd.1 as u64);
    push_lit(out, "-");
    push_two_digits(out, ymd.2 as u64);
    proof {
        assert(out@ =~= orig + date_label(z as int));
    }
}

/// The timestamp label of a unix-seconds instant: its date and its UTC time
/// of day in ISO-8601 form.
pub open spec fn time_label(t: int) -> Seq<u8> {
    date_label(t / 86400) + "T".spec_bytes() + dec_two((t % 86400) / 3600) + ":".spec_bytes()
        + dec_two((t % 3600) / 60) + ":".spec_bytes() + dec_two(t % 60) + "Z".spec_bytes()
}

/// Append the timestamp label of a unix-seconds instant.
pub fn push_time_label(out: &mut Vec<u8>, t: i64)
    requires
        0 <= t <= MAX_TIME,
    ensures
        final(out)@ == old(out)@ + time_label(t as int),
{
    let ghost orig = out@;
    let z = t / 86400;
    let hour = (t % 86400) / 3600;
    let minute = (t % 3600) / 60;
    let second = t % 60;
    proof {
        assert(z as int == t as int / 86400);
        assert(hour as int == (t as int % 86400) / 3600);
        assert(minute as int == (t as int % 3600) / 60);
        assert(second as int == t as int % 60);
    }
    push_date_label(out, z);
    push_lit(out, "T");
    push_two_digits(out, hour as u64);
    push_lit(out, ":");
    push_two_digits(out, minute as u64);
    push_lit(out, ":");
    push_two_digits(out, second as u64);
    push_lit(out, "Z");
    proof {
        assert(out@ =~= orig + time_label(t as int));
    }
}

/// The JSON object an hourly aggregate row becomes: the hour as a two-digit
/// label, the channel deltas as numbers or `null`.
pub open spec fn spec_render_hour_row(r: GeneratedByHour) -> Seq<u8> {
    "{\"hour\":\"".spec_bytes() + dec_two(r.hour as int) + "\",\"ch1\":".spec_bytes() + dec_opt(
        r.ch1,
    ) + ",\"ch2\":".spec_bytes() + dec_opt(r.ch2) + "}".spec_bytes()
}

/// Render one hourly aggregate row as a JSON object.
pub fn render_hour_row(r: &GeneratedByHour) -> (v: Vec<u8>)
    requires
        0 <= r.hour < 24,
    ensures
        v@ == spec_render_hour_row(*r),
{
    let mut v: Vec<u8> = Vec::new();
    push_lit(&mut v, "{\"hour\":\"");
    push_two_digits(&mut v, r.hour as u64);
    push_lit(&mut v, "\",\"ch1\":");
    push_opt(&mut v, r.ch1);
    push_lit(&mut v, ",\"ch2\":");
    push_opt(&mut v, r.ch2);
    push_lit(&mut v, "}");
    proof {
        assert(v@ =~= spec_render_hour_row(*r));
    }
    v
}

/// The JSON object a daily aggregate row becomes: the calendar date label of
/// the day and the channel deltas as numbers or `null`.
pub open spec fn spec_render_day_row(r: GeneratedByDay) -> Seq<u8> {
    "{\"date\":\"".spec_bytes() + date_label(r.date as int) + "\",\"ch1\":".spec_bytes() + dec_opt(
        r.ch1,
    ) + ",\"ch2\":".spec_bytes() + dec_opt(r.ch2) + "}".spec_bytes()
}

/// Render one daily aggregate row as a JSON object.
pub fn render_day_row(r: &GeneratedByDay) -> (v: Vec<u8>)
    requires
        0 <= r.date <= MAX_DAY,
    ensures
        v@ == spec_render_day_row(*r),
{
    let mut v: Vec<u8> = Vec::new();
    push_lit(&mut v, "{\"date\":\"");
    push_date_label(&mut v, r.date);
    push_lit(&mut v, "\",\"ch1\":");
    push_opt(&mut v, r.ch1);
    push_lit(&mut v, ",\"ch2\":");
    push_opt(&mut v, r.ch2);
    push_lit(&mut v, "}");
    proof {
        assert(v@ =~= spec_render_day_row(*r));
    }
    v
}

/// The rendering of an optional unsigned column, `null` when absent.
pub open spec fn dec_opt_nat(v: Option<u64>) -> Seq<u8> {
    match v {
        Some(n) => dec_nat(n as int),
        None => "null".spec_bytes(),
    }
}

/// Append an optional unsigned column, `null` when absent.
pub fn push_opt_u64(out: &mut Vec<u8>, v: Option<u64>)
    ensures
        final(out)@ == old(out)@ + dec_opt_nat(v),
{
    match v {
        Some(n) => push_u64(out, n),
        None => push_lit(out, "null"),
    }
}

/// The JSON object a raw query row becomes.
pub open spec fn spec_render_power_today(r: PowerToday) -> Seq<u8> {
    "{\"time\":\"".spec_bytes() + time_label(r.time as int) + "\",\"power_ch1\":".spec_bytes()
        + dec_nat(r.power_ch1 as int) + ",\"power_ch2\":".spec_bytes() + dec_nat(r.power_ch2 as int)
        + ",\"energy_today_ch1\":".spec_bytes() + dec_nat(r.energy_today_ch1 as int)
        + ",\"energy_today_ch2\":".spec_bytes() + dec_nat(r.energy_today_ch2 as int)
        + ",\"energy_total_ch1\":".spec_bytes() + dec_nat(r.energy_total_ch1 as int)
        + ",\"energy_total_ch2\":".spec_bytes() + dec_nat(r.energy_total_ch2 as int)
        + ",\"max_power\":".spec_bytes() + dec_nat(r.max_power as int) + ",\"cloud_cover\":".spec_bytes()
        + dec_opt_nat(r.cloud_cover) + ",\"terrestrial_radiation\":".spec_bytes() + dec_opt_nat(
        r.terrestrial_radiation,
    ) + ",\"direct_radiation\":".spec_bytes() + dec_opt_nat(r.direct_radiation)
        + ",\"diffuse_radiation\":".spec_bytes() + dec_opt_nat(r.diffuse_radiation)
        + ",\"shortwave_radiation\":".spec_bytes() + dec_opt_nat(r.shortwave_radiation)
        + ",\"direct_normal_irradiance\":".spec_bytes() + dec_opt_nat(r.direct_normal_irradiance)
        + ",\"global_tilted_irradiance\":".spec_bytes() + dec_opt_nat(r.global_tilted_irradiance)
        + ",\"sun_azimuth\":".spec_bytes() + dec_nat(r.sun_azimuth as int)
        + ",\"sun_altitude\":".spec_bytes() + dec_nat(r.sun_altitude as int) + "}".spec_bytes()
}

/// Render one raw query row as a JSON object.
pub fn render_power_today(r: &PowerToday) -> (v: Vec<u8>)
    requires
        0 <= r.time <= MAX_TIME,
    ensures
        v@ == spec_render_power_today(*r),
{
    let mut v: Vec<u8> = Vec::new();
    push_lit(&mut v, "{\"time\":\"");
    push_time_label(&mut v, r.time);
    push_lit(&mut v, "\",\"power_ch1\":");
    push_u64(&mut v, r.power_ch1);
    push_lit(&mut v, ",\"power_ch2\":");
    push_u64(&mut v, r.power_ch2);
    push_lit(&mut v, ",\"energy_today_ch1\":");
    push_u64(&mut v, r.energy_today_ch1);
    push_lit(&mut v, ",\"energy_today_ch2\":");
    push_u64(&mut v, r.energy_today_ch2);
    push_lit(&mut v, ",\"energy_total_ch1\":");
    push_u64(&mut v, r.energy_total_ch1);
    push_lit(&mut v, ",\"energy_total_ch2\":");
    push_u64(&mut v, r.energy_total_ch2);
    push_lit(&mut v, ",\"max_power\":");
    push_u64(&mut v, r.max_power);
    push_lit(&mut v, ",\"cloud_cover\":");
    push_opt_u64(&mut v, r.cloud_cover);
    push_lit(&mut v, ",\"terrestrial_radiation\":");
    push_opt_u64(&mut v, r.terrestrial_radiation);
    push_lit(&mut v, ",\"direct_radiation\":");
    push_opt_u64(&mut v, r.direct_radiation);
    push_lit(&mut v, ",\"diffuse_radiation\":");
    push_opt_u64(&mut v, r.diffuse_radiation);
    push_lit(&mut v, ",\"shortwave_radiation\":");
    push_opt_u64(&mut v, r.shortwave_radiation);
    push_lit(&mut v, ",\"direct_normal_irradiance\":");
    push_opt_u64(&mut v, r.direct_normal_irradiance);
    push_lit(&mut v, ",\"global_tilted_irradiance\":");
    push_opt_u64(&mut v, r.global_tilted_irradiance);
    push_lit(&mut v, ",\"sun_azimuth\":");
    push_u64(&mut v, r.sun_azimuth);
    push_lit(&mut v, ",\"sun_altitude\":");
    push_u64(&mut v, r.sun_altitude);
    push_lit(&mut v, "}");
    proof {
        assert(v@ =~= spec_render_power_today(*r));
    }
    v
}

} // verus!
