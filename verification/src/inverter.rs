//! Inverter readings as the pipeline carries them.
//!
//! The inverter reports, per channel, an instantaneous power and two
//! cumulative energy counters: one counting since the device last started,
//! one over its lifetime. The upstream wire format is the I/O layer's
//! business; the library receives power in milliwatts and energy in
//! milliwatt-hours.

use vstd::prelude::*;

use crate::engine::ENERGY_MAX;

verus! {

/// One channel's readings: instantaneous power (milliwatts) and the two
/// cumulative energy counters (milliwatt-hours).
#[derive(Clone, Copy, PartialEq, Eq, Structural, Debug)]
pub struct OutputChannel {
    pub power: u64,
    pub energy_generation_startup: u64,
    pub energy_generation_lifetime: u64,
}

/// Both channels of one output-data reading.
#[derive(Clone, Copy, PartialEq, Eq, Structural, Debug)]
pub struct OutputData {
    pub channel1: OutputChannel,
    pub channel2: OutputChannel,
}

impl OutputData {
    /// The lifetime counters stay within the representable range, so that
    /// any difference of two such counters fits in `i64`.
    pub open spec fn wf(self) -> bool {
        &&& self.channel1.energy_generation_lifetime <= ENERGY_MAX
        &&& self.channel2.energy_generation_lifetime <= ENERGY_MAX
    }
}

/// An output-data reading in the field order of the inverter's envelope:
/// power, since-startup energy and lifetime energy of channel 1 and 2.
#[derive(Clone, Copy, PartialEq, Eq, Structural, Debug)]
pub struct RawOutputData {
    pub p1: u64,
    pub p2: u64,
    pub e1: u64,
    pub e2: u64,
    pub te1: u64,
    pub te2: u64,
}

/// What `to_output_data` returns: the raw fields regrouped by channel.
pub open spec fn spec_to_output_data(data: RawOutputData) -> OutputData {
    OutputData {
        channel1: OutputChannel {
            power: data.p1,
            energy_generation_startup: data.e1,
            energy_generation_lifetime: data.te1,
        },
        channel2: OutputChannel {
            power: data.p2,
            energy_generation_startup: data.e2,
            energy_generation_lifetime: data.te2,
        },
    }
}

/// Regroup a raw output-data reading by channel.
pub fn to_output_data(data: RawOutputData) -> (o: OutputData)
    ensures
        o == spec_to_output_data(data),
{
    OutputData {
        channel1: OutputChannel {
            power: data.p1,
            energy_generation_startup: data.e1,
            energy_generation_lifetime: data.te1,
        },
        channel2: OutputChannel {
            power: data.p2,
            energy_generation_startup: data.e2,
            energy_generation_lifetime: data.te2,
        },
    }
}

/// The inverter's on/off state as its status endpoint reports it.
#[derive(Clone, Copy, PartialEq, Eq, Structural, Debug)]
pub enum Status {
    On,
    Off,
}

} // verus!
