//! The node's online status.

use vstd::prelude::*;

use super::transport::{self, MqttEvent, MqttTransport, Outgoing, QoS, Received};
use crate::messages::status::{NodeStatusEnvelope, OnlineStatusData, StatusData};
use crate::net::{Ipv4, ResolveIpError};
use crate::text;
use crate::time::Timestamp;

verus! {

/// Online with the given session, version and address, as seen at `ts`.
pub open spec fn is_online(
    envelope: NodeStatusEnvelope,
    session: Seq<char>,
    version: Seq<char>,
    ip: Result<Ipv4, ResolveIpError>,
    ts: Timestamp,
) -> bool {
    &&& envelope.ts == ts
    &&& envelope.data matches StatusData::Online(d)
    &&& d.session@ == session
    &&& d.version@ == version
    &&& match ip {
        Ok(address) => d.ip matches Some(s) && s@ == address.text(),
        Err(_) => d.ip is None,
    }
}

/// What the status publisher does next.
#[derive(Debug, Clone, Copy, PartialEq, Eq, Structural)]
pub enum StatusStep {
    PublishOnline,
    Wait,
    Stop,
}

/// Publishes an online status message (retained) on each MQTT connection.
///
/// Works alongside the last will (offline) message of the transport.
#[derive(Debug)]
pub struct StatusPublisher {
    /// Network interface name used to resolve IPv4 for the online status message.
    pub interface: String,
}

impl StatusPublisher {
    pub fn new(interface: String) -> (r: Self)
        ensures
            r.interface == interface,
    {
        Self { interface }
    }

    /// The online status message (retained, QoS 1), given the outcome of resolving the
    /// interface's address.
    pub fn online_message(
        &self,
        transport: &MqttTransport,
        version: &str,
        ip: &Result<Ipv4, ResolveIpError>,
        now: Timestamp,
    ) -> (r: Outgoing<NodeStatusEnvelope>)
        ensures
            r.goes_to(
                transport::status_topic_of(transport.env_prefix@, transport.node_id@),
                QoS::AtLeastOnce,
                true,
            ),
            is_online(r.message, transport.session_id@, version@, *ip, now),
    {
        let address = match ip {
            Ok(address) => Some(address.to_string()),
            Err(_) => None,
        };
        Outgoing {
            topic: transport.status_topic(),
            qos: QoS::AtLeastOnce,
            retain: true,
            message: NodeStatusEnvelope {
                ts: now,
                data: StatusData::Online(
                    OnlineStatusData {
                        session: transport.session_id.clone(),
                        version: version.to_string(),
                        ip: address,
                    },
                ),
            },
        }
    }

    /// What to do about an event: every connection is announced. Where events were
    /// missed, one of them may have been a connection.
    pub fn on_event(&self, event: &Received) -> (r: StatusStep)
        ensures
            r == match *event {
                Received::Event(MqttEvent::Connected) | Received::Lagged(_) =>
                    StatusStep::PublishOnline,
                Received::Event(_) => StatusStep::Wait,
                Received::Closed | Received::Cancelled => StatusStep::Stop,
            },
    {
        match event {
            Received::Event(MqttEvent::Connected) => StatusStep::PublishOnline,
            Received::Lagged(_) => StatusStep::PublishOnline,
            Received::Event(_) => StatusStep::Wait,
            Received::Closed => StatusStep::Stop,
            Received::Cancelled => StatusStep::Stop,
        }
    }
}

/// The online message tells the session, the version and the time that it is given, and
/// the address in dotted decimal where there is one. It is retained on the node's status
/// topic, where it takes the place of the last will.
pub proof fn online_message_replaces_the_last_will(
    publisher: &StatusPublisher,
    t: &MqttTransport,
    version: &str,
    ip: &Result<Ipv4, ResolveIpError>,
    now: Timestamp,
    r: Outgoing<NodeStatusEnvelope>,
)
    requires
        call_ensures(StatusPublisher::online_message, (publisher, t, version, ip, now), r),
    ensures
        r.topic@ == t.env_prefix@ + "/nodes/"@ + t.node_id@ + "/status"@,
        r.retain,
        r.qos == QoS::AtLeastOnce,
        r.message.ts == now,
        r.message.data matches StatusData::Online(d) && d.session@ == t.session_id@ && d.version@
            == version@ && (d.ip is Some <==> *ip is Ok) && (*ip matches Ok(address)
            ==> d.ip->0@ == text::decimal(address.octets[0] as nat) + "."@ + text::decimal(
            address.octets[1] as nat,
        ) + "."@ + text::decimal(address.octets[2] as nat) + "."@ + text::decimal(
            address.octets[3] as nat,
        )),
{
}

/// Every connection is announced, and so is every chance that one was missed; other
/// events are waited out, and the publisher ends with its events or when it is to stop.
pub proof fn every_connection_is_announced(
    publisher: &StatusPublisher,
    event: &Received,
    r: StatusStep,
)
    requires
        call_ensures(StatusPublisher::on_event, (publisher, event), r),
    ensures
        *event == Received::Event(MqttEvent::Connected) ==> r == StatusStep::PublishOnline,
        *event is Lagged ==> r == StatusStep::PublishOnline,
        *event == Received::Event(MqttEvent::Disconnected) ==> r == StatusStep::Wait,
        *event matches Received::Event(MqttEvent::Message { topic, payload }) ==> r
            == StatusStep::Wait,
        *event is Closed || *event is Cancelled ==> r == StatusStep::Stop,
{
}

} // verus!
