//! On-board unit controller for a drone link: configuration rules, MQTT command
//! lifecycle, modem access, sensors and the messages exchanged with the server.
//!
//! Everything here is logic with contracts. Sockets, files and processes are driven
//! from outside and hand plain values in.

pub mod arithmetic;
pub mod config;
pub mod context;
pub mod env;
pub mod mavlink;
pub mod messages;
pub mod net;
pub mod number;
pub mod sensors;
pub mod services;
pub mod text;
pub mod time;
