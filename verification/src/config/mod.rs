//! The unit's configuration and the rules that it has to meet.

pub mod rules;

use vstd::prelude::*;
use vstd::string::*;

use crate::number::Binary64;
use crate::text::{self, decimal_text, join};

verus! {

/// Errors that can occur when loading or validating configuration.
#[derive(Debug)]
pub enum ConfigError {
    /// Failed to read the configuration file.
    Io(String),
    /// Failed to parse the configuration file as TOML.
    Parse(String),
    /// Configuration values failed validation.
    Validation(String),
}

impl ConfigError {
    pub open spec fn text(self) -> Seq<char> {
        match self {
            ConfigError::Io(m) => "failed to read configuration file: "@ + m@,
            ConfigError::Parse(m) => "failed to parse configuration: "@ + m@,
            ConfigError::Validation(m) => "invalid configuration: "@ + m@,
        }
    }

    /// The error as a message for people.
    pub fn to_string(&self) -> (r: String)
        ensures
            r@ == self.text(),
    {
        match self {
            ConfigError::Io(m) => join("failed to read configuration file: ", m.as_str()),
            ConfigError::Parse(m) => join("failed to parse configuration: ", m.as_str()),
            ConfigError::Validation(m) => join("invalid configuration: ", m.as_str()),
        }
    }
}

/// Command line arguments.
#[derive(Debug)]
pub struct Cli {
    /// Path to TOML configuration file
    pub config: String,
    /// Enable debug logging
    pub debug: bool,
}

impl Cli {
    /// Whether debug logging is asked for, on the command line or in the
    /// configuration.
    pub fn debug_enabled(&self, config: &Config) -> (r: bool)
        ensures
            r == (self.debug || config.general.debug),
    {
        self.debug || config.general.debug
    }

    /// The log filter used where the environment gives none.
    pub fn log_filter(&self, config: &Config) -> (r: &'static str)
        ensures
            self.debug || config.general.debug ==> r@ == "debug"@,
            !(self.debug || config.general.debug) ==> r@ == "info"@,
    {
        if self.debug_enabled(config) {
            "debug"
        } else {
            "info"
        }
    }
}

#[derive(Debug, PartialEq)]
pub struct Config {
    pub general: GeneralConfig,
    pub mavlink: MavlinkConfig,
    pub sensors: SensorsConfig,
    pub camera: CameraConfig,
    pub mqtt: MqttConfig,
    pub fluentbit: FluentbitConfig,
}

#[derive(Debug, PartialEq)]
pub struct GeneralConfig {
    pub debug: bool,
    pub interface: String,
    pub env_dir: String,
    pub ca_cert_path: Option<String>,
    pub client_cert_path: Option<String>,
    pub client_key_path: Option<String>,
}

#[derive(Debug, PartialEq)]
pub struct MavlinkConfig {
    pub protocol: String,
    pub host: String,
    pub local_mavlink_port: u16,
    pub remote_mavlink_port: u16,
    pub self_sysid: u8,
    pub self_compid: u8,
    pub gcs_sysid: u8,
    pub gcs_compid: u8,
    pub sniffer_sysid: u8,
    pub bs_sysid: u8,
    pub iteration_period_ms: u64,
    pub gcs_ip: String,
    pub env_path: String,
    pub fc: FcConfig,
}

#[derive(Debug, PartialEq)]
pub struct FcConfig {
    pub tty: String,
    pub baudrate: u32,
}

#[derive(Debug, PartialEq)]
pub struct CameraConfig {
    pub gcs_ip: String,
    pub env_path: String,
    pub remote_video_port: u16,
    pub width: u32,
    pub height: u32,
    pub framerate: u32,
    pub bitrate: u32,
    pub flip: u8,
    pub camera_type: String,
    pub device: String,
}

#[derive(Debug, PartialEq)]
pub struct SensorsConfig {
    pub default_interval_s: Binary64,
    pub ping: PingSensorConfig,
    pub lte: LteSensorConfig,
    pub system: SystemSensorConfig,
}

#[derive(Debug, PartialEq)]
pub struct PingSensorConfig {
    pub enabled: bool,
    pub interval_s: Option<Binary64>,
    pub host: String,
}

#[derive(Debug, PartialEq)]
pub struct LteSensorConfig {
    pub enabled: bool,
    pub interval_s: Option<Binary64>,
    pub neighbor_expiry_s: Binary64,
    pub modem_type: String,
}

#[derive(Debug, PartialEq)]
pub struct SystemSensorConfig {
    pub enabled: bool,
    pub interval_s: Option<Binary64>,
}

/// Settings of the stand-alone CPU temperature sensor.
#[derive(Debug)]
pub struct CpuTempSensorConfig {
    pub enabled: bool,
    pub interval_s: Option<Binary64>,
}

#[derive(Debug, PartialEq)]
pub struct MqttConfig {
    pub enabled: bool,
    pub host: String,
    pub port: u16,
    pub env_prefix: String,
    pub telemetry_interval_s: Binary64,
}

#[derive(Debug, PartialEq)]
pub struct FluentbitConfig {
    pub enabled: bool,
    pub host: String,
    pub port: u16,
    pub tls: bool,
    pub tls_verify: bool,
    pub config_path: String,
    pub systemd_filter: Option<Vec<String>>,
}

// ---------------------------------------------------------------------------
// Defaults
// ---------------------------------------------------------------------------

/// The bit pattern of 5.0.
pub const FIVE_BITS: u64 = 0x4014_0000_0000_0000;

/// The bit pattern of 30.0.
pub const THIRTY_BITS: u64 = 0x403e_0000_0000_0000;

impl Default for FluentbitConfig {
    fn default() -> (r: Self)
        ensures
            !r.enabled,
            r.host@ == "logs.example.com"@,
            r.port == 24224,
            r.tls,
            r.tls_verify,
            r.config_path@ == "/etc/fluent-bit.conf"@,
            r.systemd_filter is None,
    {
        Self {
            enabled: false,
            host: "logs.example.com".to_string(),
            port: 24224,
            tls: true,
            tls_verify: true,
            config_path: "/etc/fluent-bit.conf".to_string(),
            systemd_filter: None,
        }
    }
}

impl Default for SensorsConfig {
    fn default() -> (r: Self)
        ensures
            r.default_interval_s == (Binary64 { bits: FIVE_BITS }),
            r.ping.is_default(),
            r.lte.is_default(),
            r.system == (SystemSensorConfig { enabled: true, interval_s: None }),
    {
        Self {
            default_interval_s: Binary64 { bits: FIVE_BITS },
            ping: PingSensorConfig::default(),
            lte: LteSensorConfig::default(),
            system: SystemSensorConfig::default(),
        }
    }
}

impl PingSensorConfig {
    pub open spec fn is_default(self) -> bool {
        &&& self.enabled
        &&& self.interval_s is None
        &&& self.host@ == "10.45.0.2"@
    }
}

impl LteSensorConfig {
    pub open spec fn is_default(self) -> bool {
        &&& self.enabled
        &&& self.interval_s is None
        &&& self.neighbor_expiry_s == (Binary64 { bits: THIRTY_BITS })
        &&& self.modem_type@ == "dbus"@
    }
}

impl Default for PingSensorConfig {
    fn default() -> (r: Self)
        ensures
            r.is_default(),
    {
        Self { enabled: true, interval_s: None, host: "10.45.0.2".to_string() }
    }
}

impl Default for LteSensorConfig {
    fn default() -> (r: Self)
        ensures
            r.is_default(),
    {
        Self {
            enabled: true,
            interval_s: None,
            neighbor_expiry_s: Binary64 { bits: THIRTY_BITS },
            modem_type: "dbus".to_string(),
        }
    }
}

impl Default for SystemSensorConfig {
    fn default() -> (r: Self)
        ensures
            r == (SystemSensorConfig { enabled: true, interval_s: None }),
    {
        Self { enabled: true, interval_s: None }
    }
}

impl Default for CpuTempSensorConfig {
    fn default() -> (r: Self)
        ensures
            r == (CpuTempSensorConfig { enabled: true, interval_s: None }),
    {
        Self { enabled: true, interval_s: None }
    }
}

impl Default for MqttConfig {
    fn default() -> (r: Self)
        ensures
            !r.enabled,
            r.host@ == "mqtt.example.com"@,
            r.port == 8883,
            r.env_prefix@ == "prod"@,
            r.telemetry_interval_s == (Binary64 { bits: FIVE_BITS }),
    {
        Self {
            enabled: false,
            host: "mqtt.example.com".to_string(),
            port: 8883,
            env_prefix: "prod".to_string(),
            telemetry_interval_s: Binary64 { bits: FIVE_BITS },
        }
    }
}

// ---------------------------------------------------------------------------
// Copies
// ---------------------------------------------------------------------------

impl Clone for FcConfig {
    fn clone(&self) -> (r: Self)
        ensures
            r == *self,
    {
        Self { tty: self.tty.clone(), baudrate: self.baudrate }
    }
}

impl Clone for MavlinkConfig {
    fn clone(&self) -> (r: Self)
        ensures
            r == *self,
    {
        Self {
            protocol: self.protocol.clone(),
            host: self.host.clone(),
            local_mavlink_port: self.local_mavlink_port,
            remote_mavlink_port: self.remote_mavlink_port,
            self_sysid: self.self_sysid,
            self_compid: self.self_compid,
            gcs_sysid: self.gcs_sysid,
            gcs_compid: self.gcs_compid,
            sniffer_sysid: self.sniffer_sysid,
            bs_sysid: self.bs_sysid,
            iteration_period_ms: self.iteration_period_ms,
            gcs_ip: self.gcs_ip.clone(),
            env_path: self.env_path.clone(),
            fc: self.fc.clone(),
        }
    }
}

impl Clone for CameraConfig {
    fn clone(&self) -> (r: Self)
        ensures
            r == *self,
    {
        Self {
            gcs_ip: self.gcs_ip.clone(),
            env_path: self.env_path.clone(),
            remote_video_port: self.remote_video_port,
            width: self.width,
            height: self.height,
            framerate: self.framerate,
            bitrate: self.bitrate,
            flip: self.flip,
            camera_type: self.camera_type.clone(),
            device: self.device.clone(),
        }
    }
}

impl Clone for PingSensorConfig {
    fn clone(&self) -> (r: Self)
        ensures
            r == *self,
    {
        Self { enabled: self.enabled, interval_s: self.interval_s, host: self.host.clone() }
    }
}

impl Clone for LteSensorConfig {
    fn clone(&self) -> (r: Self)
        ensures
            r == *self,
    {
        Self {
            enabled: self.enabled,
            interval_s: self.interval_s,
            neighbor_expiry_s: self.neighbor_expiry_s,
            modem_type: self.modem_type.clone(),
        }
    }
}

impl Clone for SystemSensorConfig {
    fn clone(&self) -> (r: Self)
        ensures
            r == *self,
    {
        Self { enabled: self.enabled, interval_s: self.interval_s }
    }
}

impl Clone for SensorsConfig {
    fn clone(&self) -> (r: Self)
        ensures
            r == *self,
    {
        Self {
            default_interval_s: self.default_interval_s,
            ping: self.ping.clone(),
            lte: self.lte.clone(),
            system: self.system.clone(),
        }
    }
}

/// A copy of a list of strings.
pub fn copy_strings(v: &Vec<String>) -> (r: Vec<String>)
    ensures
        r@ == v@,
{
    let mut r: Vec<String> = Vec::new();
    for i in 0..v.len()
        invariant
            r@ == v@.take(i as int),
    {
        r.push(v[i].clone());
        assert(r@ =~= v@.take(i + 1));
    }
    assert(r@ =~= v@);
    r
}

impl FluentbitConfig {
    /// The filter entries, where there are any.
    pub open spec fn filters(self) -> Option<Seq<String>> {
        match self.systemd_filter {
            Some(v) => Some(v@),
            None => None,
        }
    }

    /// Equality of all settings.
    pub open spec fn same(self, other: FluentbitConfig) -> bool {
        &&& self.enabled == other.enabled
        &&& self.host == other.host
        &&& self.port == other.port
        &&& self.tls == other.tls
        &&& self.tls_verify == other.tls_verify
        &&& self.config_path == other.config_path
        &&& self.filters() == other.filters()
    }
}

impl Clone for FluentbitConfig {
    fn clone(&self) -> (r: Self)
        ensures
            r.same(*self),
    {
        Self {
            enabled: self.enabled,
            host: self.host.clone(),
            port: self.port,
            tls: self.tls,
            tls_verify: self.tls_verify,
            config_path: self.config_path.clone(),
            systemd_filter: match &self.systemd_filter {
                Some(v) => Some(copy_strings(v)),
                None => None,
            },
        }
    }
}

impl Clone for GeneralConfig {
    fn clone(&self) -> (r: Self)
        ensures
            r == *self,
    {
        Self {
            debug: self.debug,
            interface: self.interface.clone(),
            env_dir: self.env_dir.clone(),
            ca_cert_path: copy_optional(&self.ca_cert_path),
            client_cert_path: copy_optional(&self.client_cert_path),
            client_key_path: copy_optional(&self.client_key_path),
        }
    }
}

fn copy_optional(o: &Option<String>) -> (r: Option<String>)
    ensures
        r == *o,
{
    match o {
        Some(s) => Some(s.clone()),
        None => None,
    }
}

impl Clone for MqttConfig {
    fn clone(&self) -> (r: Self)
        ensures
            r == *self,
    {
        Self {
            enabled: self.enabled,
            host: self.host.clone(),
            port: self.port,
            env_prefix: self.env_prefix.clone(),
            telemetry_interval_s: self.telemetry_interval_s,
        }
    }
}

impl Config {
    /// Equality of all settings.
    pub open spec fn same(self, other: Config) -> bool {
        &&& self.general == other.general
        &&& self.mavlink == other.mavlink
        &&& self.sensors == other.sensors
        &&& self.camera == other.camera
        &&& self.mqtt == other.mqtt
        &&& self.fluentbit.same(other.fluentbit)
    }
}

impl Clone for Config {
    fn clone(&self) -> (r: Self)
        ensures
            r.same(*self),
    {
        Self {
            general: self.general.clone(),
            mavlink: self.mavlink.clone(),
            sensors: self.sensors.clone(),
            camera: self.camera.clone(),
            mqtt: self.mqtt.clone(),
            fluentbit: self.fluentbit.clone(),
        }
    }
}

impl MavlinkConfig {
    /// Returns the MAVLink connection string (e.g., "tcpout:127.0.0.1:5760")
    pub fn connection_string(&self) -> (r: String)
        ensures
            r@ == self.protocol@ + ":"@ + self.host@ + ":"@ + text::decimal(
                self.local_mavlink_port as nat,
            ),
    {
        let port = decimal_text(self.local_mavlink_port as u128);
        self.protocol.clone().concat(":").concat(self.host.as_str()).concat(":").concat(
            port.as_str(),
        )
    }
}

/// A connection string tells the protocol, the host and the local port in decimal, with
/// colons between them.
pub proof fn connection_strings_tell_host_and_port(m: &MavlinkConfig, r: String)
    requires
        call_ensures(MavlinkConfig::connection_string, (m,), r),
    ensures
        r@ == m.protocol@ + seq![':'] + m.host@ + seq![':'] + text::decimal(
            m.local_mavlink_port as nat,
        ),
{
    reveal_strlit(":");
    assert(":"@ =~= seq![':']);
}

/// Debug logging is on where the command line or the configuration asks for it, and the
/// log filter follows.
pub proof fn debug_is_asked_for_in_either_place(
    cli: &Cli,
    config: &Config,
    on: bool,
    filter: &'static str,
)
    requires
        call_ensures(Cli::debug_enabled, (cli, config), on),
        call_ensures(Cli::log_filter, (cli, config), filter),
    ensures
        cli.debug ==> on,
        config.general.debug ==> on,
        on ==> cli.debug || config.general.debug,
        filter@ == (if on {
            "debug"@
        } else {
            "info"@
        }),
{
}

/// What counts where a section is left out: MQTT and Fluent Bit are off, and would go to
/// their usual ports; the sensors are on, every five seconds, and neighbor cells are
/// forgotten after thirty.
pub proof fn sections_that_are_left_out(
    mqtt: MqttConfig,
    fluentbit: FluentbitConfig,
    sensors: SensorsConfig,
)
    requires
        call_ensures(<MqttConfig as Default>::default, (), mqtt),
        call_ensures(<FluentbitConfig as Default>::default, (), fluentbit),
        call_ensures(<SensorsConfig as Default>::default, (), sensors),
    ensures
        !mqtt.enabled && mqtt.port == 8883 && mqtt.host@ == "mqtt.example.com"@
            && mqtt.env_prefix@ == "prod"@ && mqtt.telemetry_interval_s.bits
            == 0x4014_0000_0000_0000,
        !fluentbit.enabled && fluentbit.port == 24224 && fluentbit.host@ == "logs.example.com"@
            && fluentbit.tls && fluentbit.tls_verify && fluentbit.config_path@
            == "/etc/fluent-bit.conf"@ && fluentbit.systemd_filter is None,
        sensors.ping.enabled && sensors.lte.enabled && sensors.system.enabled,
        sensors.ping.interval_s is None && sensors.lte.interval_s is None
            && sensors.system.interval_s is None,
        sensors.default_interval_s.bits == 0x4014_0000_0000_0000,
        sensors.lte.neighbor_expiry_s.bits == 0x403e_0000_0000_0000,
        sensors.lte.modem_type@ == "dbus"@,
        sensors.ping.host@ == "10.45.0.2"@,
{
}

/// The errors of a configuration, in words.
pub proof fn configuration_errors_in_words(e: &ConfigError, r: String)
    requires
        call_ensures(ConfigError::to_string, (e,), r),
    ensures
        *e matches ConfigError::Io(m) ==> r@ == "failed to read configuration file: "@ + m@,
        *e matches ConfigError::Parse(m) ==> r@ == "failed to parse configuration: "@ + m@,
        *e matches ConfigError::Validation(m) ==> r@ == "invalid configuration: "@ + m@,
{
}

/// A copy of a configuration holds every setting as it is.
pub proof fn copies_keep_every_setting(c: &Config, r: Config)
    requires
        call_ensures(<Config as Clone>::clone, (c,), r),
    ensures
        r.general == c.general,
        r.mavlink == c.mavlink,
        r.sensors == c.sensors,
        r.camera == c.camera,
        r.mqtt == c.mqtt,
        r.fluentbit.enabled == c.fluentbit.enabled,
        r.fluentbit.host == c.fluentbit.host,
        r.fluentbit.port == c.fluentbit.port,
        r.fluentbit.tls == c.fluentbit.tls,
        r.fluentbit.tls_verify == c.fluentbit.tls_verify,
        r.fluentbit.config_path == c.fluentbit.config_path,
        r.fluentbit.systemd_filter is Some <==> c.fluentbit.systemd_filter is Some,
        c.fluentbit.systemd_filter is Some ==> (r.fluentbit.systemd_filter->0)@ == (
        c.fluentbit.systemd_filter->0)@,
{
}

} // verus!
