//! What the commands of the server do.

pub mod get_config;
pub mod modem_commands;
pub mod restart;
pub mod update_request;
