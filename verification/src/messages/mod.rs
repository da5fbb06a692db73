//! What is exchanged with the server.

pub mod commands;
pub mod status;
pub mod telemetry;
