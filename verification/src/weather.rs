//! Weather readings as the pipeline carries them.
//!
//! The weather service reports cloud cover and six irradiance measures for
//! the configured location as one atomic response. The upstream wire format
//! is the I/O layer's business; the library receives the readings as
//! fixed-point integers: cloud cover in thousandths of a percent, each
//! irradiance measure in milliwatts per square metre.

use vstd::prelude::*;

verus! {

/// One atomic weather observation: cloud cover (thousandths of a percent)
/// and six irradiance measures (milliwatts per square metre).
#[derive(Clone, Copy, PartialEq, Eq, Structural, Debug)]
pub struct CurrentWeather {
    pub cloud_cover: u64,
    pub terrestrial_radiation_instant: u64,
    pub direct_radiation_instant: u64,
    pub diffuse_radiation_instant: u64,
    pub shortwave_radiation_instant: u64,
    pub direct_normal_irradiance_instant: u64,
    pub global_tilted_irradiance_instant: u64,
}

} // verus!
