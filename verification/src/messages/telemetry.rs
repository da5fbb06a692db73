//! Telemetry messages.

use vstd::prelude::*;

use crate::number::{Binary32, Binary64, FloatText};
use crate::sensors::lte::LteReading;
use crate::time::Timestamp;

verus! {

/// Shared envelope carrying a UTC timestamp for all telemetry types.
#[derive(Debug, Clone)]
pub struct TelemetryEnvelope {
    pub ts: Timestamp,
    pub data: TelemetryData,
}

#[derive(Debug, Clone)]
pub enum TelemetryData {
    Ping(PingTelemetry),
    Lte(LteTelemetry),
    System(SystemTelemetry),
    CpuTemp(CpuTempTelemetry),
}

/// ICMP ping telemetry.
#[derive(Debug)]
pub struct PingTelemetry {
    pub reachable: bool,
    pub latency_ms: FloatText,
    pub loss_percent: u8,
}

impl PingTelemetry {
    /// Nothing comes back.
    pub open spec fn is_unreachable(self) -> bool {
        !self.reachable && self.latency_ms@ == "0"@ && self.loss_percent == 100
    }
}

impl Default for PingTelemetry {
    fn default() -> (r: Self)
        ensures
            r.is_unreachable(),
    {
        Self { reachable: false, latency_ms: FloatText::zero(), loss_percent: 100 }
    }
}

impl Clone for PingTelemetry {
    fn clone(&self) -> (r: Self)
        ensures
            r == *self,
    {
        Self {
            reachable: self.reachable,
            latency_ms: self.latency_ms.clone(),
            loss_percent: self.loss_percent,
        }
    }
}

/// CPU temperature in thousandths of a degree Celsius.
#[derive(Debug, Clone, Copy, PartialEq, Eq, Structural)]
pub struct CpuTempTelemetry {
    pub millidegrees_c: i64,
}

/// LTE serving-cell signal quality and neighbor cells.
#[derive(Debug, Clone)]
pub struct LteTelemetry {
    pub imsi: String,
    pub signal: LteSignalQuality,
    pub neighbors: Vec<LteNeighborCell>,
}

impl LteTelemetry {
    /// The neighbor list holds the cell of each of `keys`, in that order.
    pub open spec fn lists(self, reading: LteReading, keys: Seq<i32>) -> bool {
        &&& keys.no_duplicates()
        &&& keys.to_set() == reading.neighbors@.dom()
        &&& self.neighbors@.len() == keys.len()
        &&& forall|i: int|
            0 <= i < keys.len() ==> #[trigger] self.neighbors@[i] == reading.neighbors@[keys[i]]
    }

    /// `self` reports `reading`: every neighbor once, in some order.
    pub open spec fn reports(self, reading: LteReading) -> bool {
        &&& self.imsi == reading.imsi
        &&& self.signal == reading.signal
        &&& exists|keys: Seq<i32>| self.lists(reading, keys)
    }
}

impl From<&LteReading> for LteTelemetry {
    fn from(value: &LteReading) -> (r: LteTelemetry)
        ensures
            r.reports(*value),
    {
        broadcast use vstd::std_specs::hash::group_hash_axioms;

        let ghost refs = vstd::std_specs::iter::IteratorSpec::remaining(
            &vstd::std_specs::hash::spec_keys_iter(&value.neighbors),
        );
        let ghost all = refs.unref();
        proof {
            assert forall|i: int, j: int| 0 <= i < j < all.len() implies all[i] != all[j] by {
                assert(refs[i] != refs[j]);
            }
            assert(all.take(0) =~= Seq::<i32>::empty());
        }
        let mut neighbors: Vec<LteNeighborCell> = Vec::new();
        let ghost mut done: Seq<i32> = Seq::empty();
        for key in it: value.neighbors.keys()
            invariant
                it.seq().unref() == all,
                all.to_set() == value.neighbors@.dom(),
                done == all.take(it.index()),
                neighbors@.len() == done.len(),
                forall|i: int|
                    0 <= i < done.len() ==> #[trigger] neighbors@[i] == value.neighbors@[done[i]],
        {
            proof {
                assert(all[it.index()] == *key);
                assert(all.to_set().contains(*key));
            }
            if let Some(cell) = value.neighbors.get(key) {
                neighbors.push(*cell);
                proof {
                    assert(done.push(*key) =~= all.take(it.index() + 1));
                    done = done.push(*key);
                }
            }
        }
        assert(done =~= all);
        let r = LteTelemetry { imsi: value.imsi.clone(), signal: value.signal, neighbors };
        assert(r.lists(*value, done));
        r
    }
}

impl vstd::std_specs::convert::FromSpecImpl<&LteReading> for LteTelemetry {
    open spec fn obeys_from_spec() -> bool {
        false
    }

    open spec fn from_spec(value: &LteReading) -> LteTelemetry {
        choose|r: LteTelemetry| r.reports(*value)
    }
}

/// A single LTE neighbor cell observation.
#[derive(Debug, Clone, Copy, PartialEq, Eq, Structural)]
pub struct LteNeighborCell {
    pub pcid: i32,
    pub rsrp: i32,
    pub rsrq: i32,
    pub rssi: i32,
    pub rssnr: i32,
    pub earfcn: i32,
    /// Internal bookkeeping for neighbor expiry — not part of the wire format.
    pub last_seen: u64,
}

/// LTE signal quality measurements (serving cell only, no neighbors).
#[derive(Debug, Clone, Copy, PartialEq, Eq, Default, Structural)]
pub struct LteSignalQuality {
    pub rsrq: i32,
    pub rsrp: i32,
    pub rssi: i32,
    pub rssnr: i32,
    pub earfcn: i32,
    pub tx_power: i32,
    pub pcid: i32,
}

/// Aggregate host telemetry: CPU temp/usage, memory, disks, load, uptime,
/// network interfaces (with bandwidth + addresses), and connected cameras.
#[derive(Debug, Clone, Default)]
pub struct SystemTelemetry {
    /// CPU temperature in thousandths of a degree Celsius. `None` if the sysfs
    /// read failed.
    pub cpu_millidegrees_c: Option<i64>,
    /// Aggregate CPU usage across all cores, 0..100.
    pub cpu_usage_percent: Binary32,
    pub ram: RamUsage,
    pub disks: Vec<DiskUsage>,
    pub load_avg: LoadAverage,
    pub uptime_s: u64,
    pub network_interfaces: Vec<NetworkInterfaceTelemetry>,
    pub cameras: Vec<CameraInfo>,
}

#[derive(Debug, Clone, Copy, PartialEq, Eq, Default, Structural)]
pub struct RamUsage {
    pub total_bytes: u64,
    pub used_bytes: u64,
    pub available_bytes: u64,
}

#[derive(Debug, Clone, Default)]
pub struct DiskUsage {
    pub mount_point: String,
    pub total_bytes: u64,
    pub available_bytes: u64,
}

#[derive(Debug, Clone, Copy, PartialEq, Default)]
pub struct LoadAverage {
    pub one: Binary64,
    pub five: Binary64,
    pub fifteen: Binary64,
}

#[derive(Debug, Clone, Default)]
pub struct NetworkInterfaceTelemetry {
    pub name: String,
    pub ipv4: Vec<String>,
    /// Bits per second since the previous sensor tick.
    pub rx_bps: u64,
    pub tx_bps: u64,
}

#[derive(Debug, Clone, Default)]
pub struct CameraInfo {
    pub device: String,
    pub name: Option<String>,
    pub driver: Option<String>,
    pub formats: Vec<CameraFormat>,
}

#[derive(Debug, Clone, Default)]
pub struct CameraFormat {
    pub fourcc: String,
    pub width: u32,
    pub height: u32,
}

} // verus!
