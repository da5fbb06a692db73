//! Sensors: what they read, and what they make of it.

pub mod cpu_temp;
pub mod lte;
pub mod ping;
pub mod system;

use vstd::prelude::*;

use self::lte::{LteReading, LteSensor};
use self::ping::PingSensor;
use self::system::SystemSensor;
use crate::config::SensorsConfig;
use crate::messages::telemetry::{CpuTempTelemetry, PingTelemetry, SystemTelemetry};
use crate::number::Binary64;

verus! {

/// Shared sensor values, updated by sensor tasks and read by telemetry reporters.
#[derive(Debug)]
pub struct SensorValues {
    pub ping: Option<PingTelemetry>,
    pub lte: Option<LteReading>,
    pub system: Option<SystemTelemetry>,
    pub cpu_temp: Option<CpuTempTelemetry>,
}

impl SensorValues {
    /// No readings yet.
    pub fn none() -> (r: SensorValues)
        ensures
            r.ping is None,
            r.lte is None,
            r.system is None,
            r.cpu_temp is None,
    {
        SensorValues { ping: None, lte: None, system: None, cpu_temp: None }
    }
}

/// A sensor that runs on its own, gathering telemetry data.
pub trait Sensor {
    /// The sensor's name.
    spec fn label(&self) -> Seq<char>;

    /// Human-readable sensor name for logging.
    fn name(&self) -> (r: &str)
        ensures
            r@ == self.label(),
    ;
}

/// A sensor's own interval, or else the default one.
pub open spec fn interval_or(own: Option<Binary64>, default_interval: Binary64) -> Binary64 {
    match own {
        Some(v) => v,
        None => default_interval,
    }
}

pub(crate) fn choose_interval(own: Option<Binary64>, default_interval: Binary64) -> (r: Binary64)
    ensures
        r == interval_or(own, default_interval),
{
    match own {
        Some(v) => v,
        None => default_interval,
    }
}

/// One of the sensors.
#[derive(Debug)]
pub enum AnySensor {
    Ping(PingSensor),
    Lte(LteSensor),
    System(SystemSensor),
}

impl AnySensor {
    /// The sensor is the one that `config` asks for under its name.
    pub open spec fn follows(self, config: SensorsConfig, interface: Seq<char>) -> bool {
        match self {
            AnySensor::Ping(s) => {
                &&& config.ping.enabled
                &&& s.host@ == config.ping.host@
                &&& s.interface@ == interface
                &&& s.interval_s == interval_or(config.ping.interval_s, config.default_interval_s)
            },
            AnySensor::Lte(s) => {
                &&& config.lte.enabled
                &&& s.interval_s == interval_or(config.lte.interval_s, config.default_interval_s)
                &&& s.neighbor_expiry_s == config.lte.neighbor_expiry_s
            },
            AnySensor::System(s) => {
                &&& config.system.enabled
                &&& s.wf()
                &&& s.thermal_path@ == system::DEFAULT_THERMAL_PATH@
                &&& s.prev_net_bytes@.len() == 0
                &&& s.prev_tick_at is None
                &&& !s.thermal_warned
                &&& s.interval_s == interval_or(config.system.interval_s, config.default_interval_s)
            },
        }
    }
}

impl Sensor for AnySensor {
    open spec fn label(&self) -> Seq<char> {
        match self {
            AnySensor::Ping(s) => s.label(),
            AnySensor::Lte(s) => s.label(),
            AnySensor::System(s) => s.label(),
        }
    }

    fn name(&self) -> (r: &str) {
        match self {
            AnySensor::Ping(s) => s.name(),
            AnySensor::Lte(s) => s.name(),
            AnySensor::System(s) => s.name(),
        }
    }
}

/// The names of a list of sensors.
pub open spec fn labels(sensors: Seq<AnySensor>) -> Seq<Seq<char>> {
    Seq::new(sensors.len(), |i: int| sensors[i].label())
}

/// The names of the sensors that are switched on.
pub open spec fn enabled_labels(config: SensorsConfig) -> Seq<Seq<char>> {
    (if config.ping.enabled {
        seq!["ping"@]
    } else {
        Seq::empty()
    }) + (if config.lte.enabled {
        seq!["lte"@]
    } else {
        Seq::empty()
    }) + (if config.system.enabled {
        seq!["system"@]
    } else {
        Seq::empty()
    })
}

/// Manages sensor lifecycle: builds enabled sensors from config, and hands them out
/// once.
#[derive(Debug)]
pub struct SensorManager {
    pub sensors: Option<Vec<AnySensor>>,
}

impl SensorManager {
    /// Build a SensorManager from config. Only enabled sensors are included.
    pub fn new(config: &SensorsConfig, interface: &str) -> (r: Self)
        ensures
            r.sensors matches Some(v) && labels(v@) == enabled_labels(*config) && (forall|i: int|
                0 <= i < v@.len() ==> (#[trigger] v@[i]).follows(*config, interface@)),
    {
        let mut sensors: Vec<AnySensor> = Vec::new();
        if config.ping.enabled {
            sensors.push(
                AnySensor::Ping(
                    PingSensor::new(&config.ping, interface.to_string(), config.default_interval_s),
                ),
            );
        }
        if config.lte.enabled {
            sensors.push(AnySensor::Lte(LteSensor::new(&config.lte, config.default_interval_s)));
        }
        if config.system.enabled {
            sensors.push(
                AnySensor::System(SystemSensor::new(&config.system, config.default_interval_s)),
            );
        }
        assert(labels(sensors@) =~= enabled_labels(*config));
        SensorManager { sensors: Some(sensors) }
    }

    /// Take the sensors to run them. They can be taken only once.
    pub fn take(&mut self) -> (r: Vec<AnySensor>)
        requires
            old(self).sensors is Some,
        ensures
            old(self).sensors == Some(r),
            final(self).sensors is None,
    {
        match self.sensors.take() {
            Some(v) => v,
            None => Vec::new(),
        }
    }
}

/// Each sensor that is switched on is built once, and no other is. It runs at its own
/// interval where it has one, and at the default one otherwise.
pub proof fn enabled_sensors_are_built_once(
    config: &SensorsConfig,
    interface: &str,
    r: SensorManager,
)
    requires
        call_ensures(SensorManager::new, (config, interface), r),
    ensures
        r.sensors is Some,
        ({
            let v = (r.sensors->0)@;
            &&& config.ping.enabled <==> exists|i: int| 0 <= i < v.len() && (#[trigger] v[i]) is Ping
            &&& config.lte.enabled <==> exists|i: int| 0 <= i < v.len() && (#[trigger] v[i]) is Lte
            &&& config.system.enabled <==> exists|i: int|
                0 <= i < v.len() && (#[trigger] v[i]) is System
            &&& forall|i: int, j: int|
                0 <= i < j < v.len() ==> !(#[trigger] v[i] is Ping && #[trigger] v[j] is Ping)
                    && !(v[i] is Lte && v[j] is Lte) && !(v[i] is System && v[j] is System)
            &&& forall|i: int|
                0 <= i < v.len() ==> match #[trigger] v[i] {
                    AnySensor::Ping(s) => s.host@ == config.ping.host@ && s.interface@ == interface@
                        && s.interval_s == (if config.ping.interval_s is Some {
                        config.ping.interval_s->0
                    } else {
                        config.default_interval_s
                    }),
                    AnySensor::Lte(s) => s.neighbor_expiry_s == config.lte.neighbor_expiry_s
                        && s.interval_s == (if config.lte.interval_s is Some {
                        config.lte.interval_s->0
                    } else {
                        config.default_interval_s
                    }),
                    AnySensor::System(s) => s.prev_tick_at is None && s.interval_s == (
                    if config.system.interval_s is Some {
                        config.system.interval_s->0
                    } else {
                        config.default_interval_s
                    }),
                }
        }),
{
    let v = (r.sensors->0)@;
    let l = enabled_labels(*config);
    reveal_strlit("ping");
    reveal_strlit("lte");
    reveal_strlit("system");
    assert("ping"@[0] == 'p' && "lte"@[0] == 'l' && "system"@[0] == 's');
    assert(labels(v).len() == v.len());
    assert forall|i: int| 0 <= i < v.len() implies l[i] == (#[trigger] v[i]).label() by {
        assert(labels(v)[i] == v[i].label());
    }
    let p: int = if config.ping.enabled {
        1
    } else {
        0
    };
    let q: int = if config.lte.enabled {
        1
    } else {
        0
    };
    let t: int = if config.system.enabled {
        1
    } else {
        0
    };
    assert(l.len() == p + q + t);
    if config.ping.enabled {
        assert(l[0] == "ping"@);
        assert(v[0] is Ping);
    }
    if config.lte.enabled {
        assert(l[p] == "lte"@);
        assert(v[p] is Lte);
    }
    if config.system.enabled {
        assert(l[p + q] == "system"@);
        assert(v[p + q] is System);
    }
    assert forall|i: int| 0 <= i < v.len() implies (#[trigger] v[i] is Ping <==> p == 1 && i == 0)
        && (v[i] is Lte <==> q == 1 && i == p) && (v[i] is System <==> t == 1 && i == p + q) by {
        assert(l[i] == v[i].label());
    }
}

/// The sensors can be taken once: they are those that were built, and then they are gone.
pub proof fn sensors_are_handed_out_once(m: &mut SensorManager, r: Vec<AnySensor>)
    requires
        call_ensures(SensorManager::take, (m,), r),
    ensures
        old(m).sensors == Some(r),
        final(m).sensors is None,
{
}

} // verus!
