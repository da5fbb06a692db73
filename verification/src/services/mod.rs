//! Services: the modem and the MQTT link.

pub mod modem_access;
pub mod mqtt;
