//! Telemetry publication.

use vstd::prelude::*;

use super::transport::{self, MqttTransport, Outgoing, QoS};
use crate::messages::telemetry::{LteTelemetry, TelemetryData, TelemetryEnvelope};
use crate::number::Binary64;
use crate::sensors::lte::LteReading;
use crate::sensors::SensorValues;
use crate::time::Timestamp;

verus! {

/// Publishes sensor telemetry data to MQTT topics at a configurable interval.
///
/// Wraps each sensor value (LTE, ping, CPU temp) in a
/// `TelemetryEnvelope` with a UTC timestamp, for the appropriate
/// telemetry topic. Sensors with no reading (None) are skipped.
#[derive(Debug)]
pub struct TelemetryPublisher {
    pub interval_s: Binary64,
}

/// `o` is the message with a reading called `name`.
pub open spec fn is_reading(
    o: Outgoing<TelemetryEnvelope>,
    transport: MqttTransport,
    name: Seq<char>,
    ts: Timestamp,
) -> bool {
    &&& o.goes_to(
        transport::telemetry_topic_of(transport.env_prefix@, transport.node_id@, name),
        QoS::AtMostOnce,
        false,
    )
    &&& o.message.ts == ts
}

/// The messages of all readings that there are: LTE, ping and CPU temperature, in
/// this order.
pub open spec fn reports(
    r: Seq<Outgoing<TelemetryEnvelope>>,
    transport: MqttTransport,
    sensors: SensorValues,
    ts: Timestamp,
) -> bool {
    let lte: int = if sensors.lte is Some {
        1
    } else {
        0
    };
    let ping: int = if sensors.ping is Some {
        1
    } else {
        0
    };
    let temp: int = if sensors.cpu_temp is Some {
        1
    } else {
        0
    };
    &&& r.len() == lte + ping + temp
    &&& sensors.lte matches Some(reading) ==> is_reading(r[0], transport, "lte"@, ts) && (
    r[0].message.data matches TelemetryData::Lte(t) && t.reports(reading))
    &&& sensors.ping matches Some(reading) ==> is_reading(r[lte], transport, "ping"@, ts)
        && r[lte].message.data == TelemetryData::Ping(reading)
    &&& sensors.cpu_temp matches Some(reading) ==> is_reading(
        r[lte + ping],
        transport,
        "cpu_temp"@,
        ts,
    ) && r[lte + ping].message.data == TelemetryData::CpuTemp(reading)
}

fn reading_message(
    transport: &MqttTransport,
    name: &str,
    data: TelemetryData,
    ts: Timestamp,
) -> (r: Outgoing<TelemetryEnvelope>)
    ensures
        is_reading(r, *transport, name@, ts),
        r.message.data == data,
{
    Outgoing {
        topic: transport.telemetry_topic(name),
        qos: QoS::AtMostOnce,
        retain: false,
        message: TelemetryEnvelope { ts, data },
    }
}

impl TelemetryPublisher {
    pub fn new(interval_s: Binary64) -> (r: Self)
        ensures
            r.interval_s == interval_s,
    {
        Self { interval_s }
    }

    /// The messages to publish, given the sensor values at `ts`.
    pub fn telemetry_messages(
        &self,
        transport: &MqttTransport,
        sensors: &SensorValues,
        ts: Timestamp,
    ) -> (r: Vec<Outgoing<TelemetryEnvelope>>)
        ensures
            reports(r@, *transport, *sensors, ts),
    {
        let mut out: Vec<Outgoing<TelemetryEnvelope>> = Vec::new();
        if let Some(reading) = &sensors.lte {
            let data = TelemetryData::Lte(LteTelemetry::from(reading));
            out.push(reading_message(transport, "lte", data, ts));
        }
        if let Some(reading) = &sensors.ping {
            let data = TelemetryData::Ping(reading.clone());
            out.push(reading_message(transport, "ping", data, ts));
        }
        if let Some(reading) = &sensors.cpu_temp {
            let data = TelemetryData::CpuTemp(*reading);
            out.push(reading_message(transport, "cpu_temp", data, ts));
        }
        out
    }
}

/// Each reading is published once, under the topic of its own name and with the time that
/// is given, neither retained nor repeated; a sensor without a reading publishes nothing.
pub proof fn readings_go_to_their_own_topics(
    publisher: &TelemetryPublisher,
    t: &MqttTransport,
    sensors: &SensorValues,
    ts: Timestamp,
    r: Vec<Outgoing<TelemetryEnvelope>>,
)
    requires
        call_ensures(TelemetryPublisher::telemetry_messages, (publisher, t, sensors, ts), r),
    ensures
        forall|k: int|
            0 <= k < r@.len() ==> (#[trigger] r@[k]).message.ts == ts && r@[k].qos
                == QoS::AtMostOnce && !r@[k].retain && r@[k].topic@ == t.env_prefix@ + "/nodes/"@
                + t.node_id@ + "/telemetry/"@ + (match r@[k].message.data {
                TelemetryData::Lte(_) => "lte"@,
                TelemetryData::Ping(_) => "ping"@,
                TelemetryData::CpuTemp(_) => "cpu_temp"@,
                TelemetryData::System(_) => "system"@,
            }) && r@[k].message.data !is System,
        forall|j: int, k: int|
            0 <= j < k < r@.len() ==> (#[trigger] r@[j]).topic@ != (#[trigger] r@[k]).topic@,
        sensors.ping matches Some(reading) ==> exists|k: int|
            0 <= k < r@.len() && (#[trigger] r@[k]).message.data == TelemetryData::Ping(reading),
        sensors.cpu_temp matches Some(reading) ==> exists|k: int|
            0 <= k < r@.len() && (#[trigger] r@[k]).message.data == TelemetryData::CpuTemp(reading),
        sensors.lte matches Some(reading) ==> exists|k: int|
            0 <= k < r@.len() && (#[trigger] r@[k]).message.data is Lte && (
            r@[k].message.data->Lte_0).imsi == reading.imsi && (r@[k].message.data->Lte_0).signal
                == reading.signal,
        forall|k: int|
            0 <= k < r@.len() ==> match (#[trigger] r@[k]).message.data {
                TelemetryData::Lte(_) => sensors.lte is Some,
                TelemetryData::Ping(p) => sensors.ping == Some(p),
                TelemetryData::CpuTemp(c) => sensors.cpu_temp == Some(c),
                TelemetryData::System(_) => false,
            },
{
    let lte: int = if sensors.lte is Some {
        1
    } else {
        0
    };
    let ping: int = if sensors.ping is Some {
        1
    } else {
        0
    };
    let base = t.env_prefix@ + "/nodes/"@ + t.node_id@ + "/telemetry/"@;
    reveal_strlit("lte");
    reveal_strlit("ping");
    reveal_strlit("cpu_temp");
    let n = base.len() as int;
    assert((base + "lte"@)[n] == 'l' && (base + "ping"@)[n] == 'p' && (base + "cpu_temp"@)[n]
        == 'c');
    if sensors.lte is Some {
        assert(r@[0].message.data is Lte);
    }
    if sensors.ping is Some {
        assert(r@[lte].message.data is Ping);
    }
    if sensors.cpu_temp is Some {
        assert(r@[lte + ping].message.data is CpuTemp);
    }
}

/// The telemetry of an LTE reading lists each of its neighbor cells exactly once, as it
/// was read.
pub proof fn every_neighbor_is_listed_once(t: LteTelemetry, reading: LteReading, key: i32)
    requires
        t.reports(reading),
        reading.neighbors@.dom().contains(key),
    ensures
        exists|i: int|
            0 <= i < t.neighbors@.len() && #[trigger] t.neighbors@[i] == reading.neighbors@[key],
        t.neighbors@.len() == reading.neighbors@.dom().len(),
        forall|i: int|
            0 <= i < t.neighbors@.len() ==> exists|k: i32|
                reading.neighbors@.dom().contains(k) && #[trigger] reading.neighbors@[k]
                    == #[trigger] t.neighbors@[i],
{
    let keys = choose|keys: Seq<i32>| t.lists(reading, keys);
    assert(keys.to_set().contains(key));
    let i = choose|i: int| 0 <= i < keys.len() && keys[i] == key;
    assert(t.neighbors@[i] == reading.neighbors@[keys[i]]);
    keys.unique_seq_to_set();
    assert forall|i: int| 0 <= i < t.neighbors@.len() implies exists|k: i32|
        reading.neighbors@.dom().contains(k) && #[trigger] reading.neighbors@[k]
            == #[trigger] t.neighbors@[i] by {
        assert(keys.to_set().contains(keys[i]));
        assert(reading.neighbors@[keys[i]] == t.neighbors@[i]);
    }
}

} // verus!
