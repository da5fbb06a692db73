//! LTE modem readings.

use std::collections::HashMap;

use vstd::prelude::*;

use super::Sensor;
use crate::config::LteSensorConfig;
use crate::messages::telemetry::{LteNeighborCell, LteSignalQuality};
use crate::number::Binary64;

verus! {

/// One reading of the modem: the subscriber, the serving cell, and the neighbor
/// cells by their physical cell id.
#[derive(Debug)]
pub struct LteReading {
    pub imsi: String,
    pub signal: LteSignalQuality,
    pub neighbors: HashMap<i32, LteNeighborCell>,
}

/// When to ask the modem for a reading.
#[derive(Debug)]
pub struct LteSensor {
    pub interval_s: Binary64,
    pub neighbor_expiry_s: Binary64,
}

impl LteSensor {
    pub fn new(config: &LteSensorConfig, default_interval: Binary64) -> (r: Self)
        ensures
            r.interval_s == super::interval_or(config.interval_s, default_interval),
            r.neighbor_expiry_s == config.neighbor_expiry_s,
    {
        Self {
            interval_s: super::choose_interval(config.interval_s, default_interval),
            neighbor_expiry_s: config.neighbor_expiry_s,
        }
    }
}

impl Sensor for LteSensor {
    open spec fn label(&self) -> Seq<char> {
        "lte"@
    }

    fn name(&self) -> (r: &str) {
        "lte"
    }
}

/// An LTE sensor reads at its own interval or else the default one, and keeps neighbor cells
/// as long as it is configured to.
pub proof fn lte_sensors_follow_their_settings(
    config: &LteSensorConfig,
    default_interval: Binary64,
    r: LteSensor,
)
    requires
        call_ensures(LteSensor::new, (config, default_interval), r),
    ensures
        r.neighbor_expiry_s == config.neighbor_expiry_s,
        config.interval_s is Some ==> r.interval_s == config.interval_s->0,
        config.interval_s is None ==> r.interval_s == default_interval,
{
}

} // verus!
