//! A sensor for the CPU temperature alone.

use vstd::prelude::*;

use super::Sensor;
use crate::config::CpuTempSensorConfig;
use crate::messages::telemetry::CpuTempTelemetry;
use crate::number::Binary64;
use crate::text;

pub use super::system::{parse_temperature, read_temperature, TempReadError};

verus! {

/// CPU temperature sensor that reads from sysfs thermal zone.
#[derive(Debug)]
pub struct CpuTempSensor {
    pub interval_s: Binary64,
    pub thermal_path: String,
}

impl CpuTempSensor {
    pub fn new(config: &CpuTempSensorConfig, default_interval: Binary64) -> (r: Self)
        ensures
            r.interval_s == super::interval_or(config.interval_s, default_interval),
            r.thermal_path@ == super::system::DEFAULT_THERMAL_PATH@,
    {
        Self::with_path(config, default_interval, super::system::DEFAULT_THERMAL_PATH.to_string())
    }

    /// A sensor that reads another file.
    pub fn with_path(config: &CpuTempSensorConfig, default_interval: Binary64, path: String) -> (r:
        Self)
        ensures
            r.interval_s == super::interval_or(config.interval_s, default_interval),
            r.thermal_path == path,
    {
        Self {
            interval_s: super::choose_interval(config.interval_s, default_interval),
            thermal_path: path,
        }
    }

    /// The reading that the outcome of reading the thermal zone file gives.
    pub fn on_tick(&self, content: &Result<String, String>) -> (r: Result<
        CpuTempTelemetry,
        TempReadError,
    >)
        ensures
            match r {
                Ok(v) => super::system::thermal_of(*content, Ok(v.millidegrees_c)),
                Err(e) => super::system::thermal_of(*content, Err(e)),
            },
    {
        match read_temperature(content) {
            Ok(v) => Ok(CpuTempTelemetry { millidegrees_c: v }),
            Err(e) => Err(e),
        }
    }
}

impl Sensor for CpuTempSensor {
    open spec fn label(&self) -> Seq<char> {
        "cpu_temp"@
    }

    fn name(&self) -> (r: &str) {
        "cpu_temp"
    }
}

/// A tick gives the number of thousandths of a degree that the file holds, and an error
/// where the file cannot be read or holds no number.
pub proof fn ticks_give_what_the_file_holds(
    sensor: &CpuTempSensor,
    content: &Result<String, String>,
    r: Result<CpuTempTelemetry, TempReadError>,
)
    requires
        call_ensures(CpuTempSensor::on_tick, (sensor, content), r),
    ensures
        forall|v: i64|
            *content is Ok && text::trimmed(content->Ok_0@) == #[trigger] text::signed_decimal(
                v as int,
            ) ==> (r matches Ok(t) && t.millidegrees_c == v),
        *content is Ok && text::trimmed(content->Ok_0@).len() == 0 ==> r is Err,
        *content matches Err(m) ==> r == Err::<CpuTempTelemetry, TempReadError>(
            TempReadError::Io(m),
        ),
{
    assert forall|v: i64|
        *content is Ok && text::trimmed(content->Ok_0@) == #[trigger] text::signed_decimal(
            v as int,
        ) implies (r matches Ok(t) && t.millidegrees_c == v) by {
        text::written_integer_is_read_back(v);
        text::decimal_writes_its_number(
            if v < 0 {
                (-(v as int)) as nat
            } else {
                v as nat
            },
        );
    }
}

/// A temperature sensor reads the kernel's file unless it is given another one, at its own
/// interval or else the default one.
pub proof fn temperature_sensors_follow_their_settings(
    config: &CpuTempSensorConfig,
    default_interval: Binary64,
    path: String,
    usual: CpuTempSensor,
    other: CpuTempSensor,
)
    requires
        call_ensures(CpuTempSensor::new, (config, default_interval), usual),
        call_ensures(CpuTempSensor::with_path, (config, default_interval, path), other),
    ensures
        usual.thermal_path@ == "/sys/class/thermal/thermal_zone0/temp"@,
        other.thermal_path == path,
        usual.interval_s == other.interval_s,
        config.interval_s is Some ==> usual.interval_s == config.interval_s->0,
        config.interval_s is None ==> usual.interval_s == default_interval,
{
}

} // verus!
