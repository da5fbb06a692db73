[package]
name = "unitctl"
version = "0.1.0"
edition = "2021"
publish = false

[dependencies]
async-trait = "0.1"
chrono = { version = "0.4", features = ["serde"] }
clap = { version = "4", features = ["derive"] }
glob = "0.3"
mavlink = { version = "*", default-features = false, features = ["std", "tcp", "ardupilotmega"] }
nix = { version = "*", features = ["net", "signal"] }
rand = "*"
regex = "1"
rumqttc = "*"
schemars = { version = "1", features = ["chrono04"] }
serde = { version = "1", features = ["derive"] }
serde_json = "1"
sysinfo = "0.32"
thiserror = "2"
tokio = { version = "1", features = ["full"] }
tokio-util = "0.7"
toml = "*"
tracing = "0.1"
tracing-subscriber = { version = "0.3", features = ["env-filter"] }
v4l = "*"
zbus = "5"
