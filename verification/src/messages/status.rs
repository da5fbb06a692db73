//! Node status messages.

use vstd::prelude::*;

use crate::time::Timestamp;

verus! {

/// Shared envelope carrying a UTC timestamp for node status messages.
#[derive(Debug, Clone)]
pub struct NodeStatusEnvelope {
    pub ts: Timestamp,
    pub data: StatusData,
}

/// Discriminated union for node status — either online or offline.
#[derive(Debug, Clone)]
pub enum StatusData {
    Online(OnlineStatusData),
    Offline(OfflineStatusData),
}

/// Status data published when the node connects to the MQTT broker.
#[derive(Debug, Clone)]
pub struct OnlineStatusData {
    /// Short random session ID generated per connection (6-char hex).
    pub session: String,
    /// Application version.
    pub version: String,
    /// IPv4 address of the configured network interface, if resolved.
    pub ip: Option<String>,
}

/// Status data set as MQTT Last Will — published by the broker when the
/// node disconnects unexpectedly.
#[derive(Debug, Clone)]
pub struct OfflineStatusData {
    /// Session ID from the last successful connection.
    pub last_session: String,
    /// Timestamp of the last successful connection.
    pub last_online: Timestamp,
}

} // verus!
