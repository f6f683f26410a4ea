//! Per-cycle acquisition decisions.
//!
//! Each cycle probes the inverter's on/off endpoint first. A probe that fails
//! with a connection or timeout error means the device is asleep — the
//! expected nightly condition — and the cycle is skipped silently; any other
//! probe failure is fatal for the cycle. After a successful probe the
//! inverter fetch and the weather fetch run concurrently in the I/O layer,
//! and their outcomes come back here: a failed weather fetch is non-fatal
//! (the row is appended with the whole weather block absent), a failed
//! inverter fetch is fatal (no row is appended at all). The decisions are
//! pure functions of the fetch outcomes; the I/O layer only performs the
//! fetches and acts on the returned decision.

use vstd::prelude::*;

use crate::db::{insert, spec_row, Store};
use crate::inverter::{OutputData, Status};
use crate::sun::Position;
use crate::weather::CurrentWeather;

verus! {

/// Why an upstream fetch failed: the transport could not connect, it timed
/// out, the endpoint answered outside its protocol, or the payload did not
/// decode.
#[derive(Clone, Copy, PartialEq, Eq, Structural, Debug)]
pub enum UpstreamError {
    ConnectFailed,
    Timeout,
    ProtocolError,
    Decode,
}

/// What the fail-fast gate decides from the probe outcome: go on with the
/// cycle, skip it silently, or abort it with the probe's error.
#[derive(Clone, Copy, PartialEq, Eq, Structural, Debug)]
pub enum ProbeDecision {
    Proceed(Status),
    SkipCycle,
    Fatal(UpstreamError),
}

/// What `classify_probe` decides: a reachable device proceeds whatever its
/// reported status; a connection or timeout failure skips the cycle; any
/// other failure is fatal.
pub open spec fn spec_classify_probe(probe: Result<Status, UpstreamError>) -> ProbeDecision {
    match probe {
        Ok(status) => ProbeDecision::Proceed(status),
        Err(e) => if e is ConnectFailed || e is Timeout {
            ProbeDecision::SkipCycle
        } else {
            ProbeDecision::Fatal(e)
        },
    }
}

/// The fail-fast gate: classify the outcome of the on/off probe.
pub fn classify_probe(probe: Result<Status, UpstreamError>) -> (d: ProbeDecision)
    ensures
        d == spec_classify_probe(probe),
{
    match probe {
        Ok(status) => ProbeDecision::Proceed(status),
        Err(UpstreamError::ConnectFailed) => ProbeDecision::SkipCycle,
        Err(UpstreamError::Timeout) => ProbeDecision::SkipCycle,
        Err(e) => ProbeDecision::Fatal(e),
    }
}

/// A weather outcome reduced to the optional block of the row: present on
/// success, absent on any failure.
pub open spec fn weather_option(weather: Result<CurrentWeather, UpstreamError>) -> Option<
    CurrentWeather,
> {
    match weather {
        Ok(w) => Some(w),
        Err(_) => None,
    }
}

/// Complete one acquisition cycle after the probe let it proceed: append one
/// row assembled from the fetch outcomes, or abort without touching the
/// store.
///
/// The cycle succeeds exactly when both inverter fetches succeeded; the
/// weather outcome never decides. On success the store grows by exactly the
/// assembled row and the new row's identity key is returned; on failure the
/// store is unchanged and the inverter's error (the output-data error first)
/// is returned.
pub fn run_cycle(
    db: &mut Store,
    output_data: Result<OutputData, UpstreamError>,
    max_power: Result<u64, UpstreamError>,
    weather: Result<CurrentWeather, UpstreamError>,
    sunpos: Position,
    time: i64,
) -> (r: Result<u64, UpstreamError>)
    requires
        old(db).wf(),
        0 <= time <= crate::calendar::MAX_TIME,
        old(db).rows().len() < usize::MAX,
        output_data matches Ok(o) ==> o.wf(),
    ensures
        final(db).wf(),
        r is Ok <==> output_data is Ok && max_power is Ok,
        output_data matches Ok(o) ==> (max_power matches Ok(mp) ==> (r matches Ok(id) && id == old(
            db,
        ).rows().len() + 1 && final(db).rows() == old(db).rows().push(
            spec_row(id, weather_option(weather), sunpos, o, mp, time),
        ))),
        r is Err ==> final(db).rows() == old(db).rows(),
        output_data matches Err(e) ==> r == Err::<u64, UpstreamError>(e),
        output_data is Ok ==> (max_power matches Err(e) ==> r == Err::<u64, UpstreamError>(e)),
{
    let weather_opt = match weather {
        Ok(w) => Some(w),
        Err(_) => None,
    };
    let o = match output_data {
        Ok(o) => o,
        Err(e) => {
            return Err(e);
        },
    };
    let mp = match max_power {
        Ok(mp) => mp,
        Err(e) => {
            return Err(e);
        },
    };
    let id = insert(db, weather_opt, sunpos, o, mp, time);
    Ok(id)
}

/// Weather failure is non-fatal and empties exactly the optional block: a
/// row assembled without weather has every weather column absent, a row
/// assembled with weather has every weather column present, and in both
/// cases every mandatory column is populated from the inverter reading, the
/// sun position and the timestamp.
pub proof fn lemma_weather_block_all_or_none(
    id: u64,
    weather: Option<CurrentWeather>,
    sunpos: Position,
    output_data: OutputData,
    max_power: u64,
    time: i64,
)
    ensures
        ({
            let m = spec_row(id, weather, sunpos, output_data, max_power, time);
            &&& weather is None ==> m.cloud_cover is None && m.terrestrial_radiation is None
                && m.direct_radiation is None && m.diffuse_radiation is None
                && m.shortwave_radiation is None && m.direct_normal_irradiance is None
                && m.global_tilted_irradiance is None
            &&& weather is Some ==> m.cloud_cover is Some && m.terrestrial_radiation is Some
                && m.direct_radiation is Some && m.diffuse_radiation is Some
                && m.shortwave_radiation is Some && m.direct_normal_irradiance is Some
                && m.global_tilted_irradiance is Some
            &&& m.time == time
            &&& m.power_ch1 == output_data.channel1.power
            &&& m.power_ch2 == output_data.channel2.power
            &&& m.energy_today_ch1 == output_data.channel1.energy_generation_startup
            &&& m.energy_today_ch2 == output_data.channel2.energy_generation_startup
            &&& m.energy_total_ch1 == output_data.channel1.energy_generation_lifetime
            &&& m.energy_total_ch2 == output_data.channel2.energy_generation_lifetime
            &&& m.max_power == max_power
            &&& m.sun_azimuth == sunpos.azimuth_bits
            &&& m.sun_altitude == sunpos.altitude_bits
        }),
{
}

} // verus!
