//! The MQTT link to the server.

pub mod commands;
pub mod handlers;
pub mod status;
pub mod telemetry;
pub mod transport;
