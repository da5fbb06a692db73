//! Commands, their lifecycle and their results.

use vstd::prelude::*;

use crate::config::{
    CameraConfig, Config, FluentbitConfig, GeneralConfig, MavlinkConfig, MqttConfig, SensorsConfig,
};
use crate::number::Binary64;
use crate::text;
use crate::time::{Timestamp, LAST_SECOND};

verus! {

// ---------------------------------------------------------------------------
// SafeConfig — mirrors Config with sensitive fields redacted
// ---------------------------------------------------------------------------

/// A sanitized view of the full `Config`, safe for MQTT exposure.
/// TLS certificate paths in `general` are replaced with `"***"`.
#[derive(Debug, Clone)]
pub struct SafeConfig {
    pub general: SafeGeneralConfig,
    pub mavlink: MavlinkConfig,
    pub sensors: SensorsConfig,
    pub camera: CameraConfig,
    pub mqtt: SafeMqttConfig,
    pub fluentbit: FluentbitConfig,
}

/// General config with TLS cert paths redacted.
#[derive(Debug, Clone)]
pub struct SafeGeneralConfig {
    pub debug: bool,
    pub interface: String,
    pub env_dir: String,
    pub ca_cert_path: Option<String>,
    pub client_cert_path: Option<String>,
    pub client_key_path: Option<String>,
}

/// MQTT config (no secrets — cert paths live in `general`).
#[derive(Debug, Clone)]
pub struct SafeMqttConfig {
    pub enabled: bool,
    pub host: String,
    pub port: u16,
    pub env_prefix: String,
    pub telemetry_interval_s: Binary64,
}

/// The redacted form of an optional setting: it shows only whether it was set.
pub open spec fn redacted(original: Option<String>) -> Option<Seq<char>> {
    match original {
        Some(_) => Some("***"@),
        None => None,
    }
}

impl SafeGeneralConfig {
    /// `self` shows `general` with its TLS paths redacted.
    pub open spec fn redacts(self, general: GeneralConfig) -> bool {
        &&& self.debug == general.debug
        &&& self.interface == general.interface
        &&& self.env_dir == general.env_dir
        &&& text::opt_text(self.ca_cert_path) == redacted(general.ca_cert_path)
        &&& text::opt_text(self.client_cert_path) == redacted(general.client_cert_path)
        &&& text::opt_text(self.client_key_path) == redacted(general.client_key_path)
    }

    /// The two show the same to a reader.
    pub open spec fn same(self, other: SafeGeneralConfig) -> bool {
        &&& self.debug == other.debug
        &&& self.interface == other.interface
        &&& self.env_dir == other.env_dir
        &&& text::opt_text(self.ca_cert_path) == text::opt_text(other.ca_cert_path)
        &&& text::opt_text(self.client_cert_path) == text::opt_text(other.client_cert_path)
        &&& text::opt_text(self.client_key_path) == text::opt_text(other.client_key_path)
    }
}

impl SafeMqttConfig {
    pub open spec fn shows(self, mqtt: MqttConfig) -> bool {
        &&& self.enabled == mqtt.enabled
        &&& self.host == mqtt.host
        &&& self.port == mqtt.port
        &&& self.env_prefix == mqtt.env_prefix
        &&& self.telemetry_interval_s == mqtt.telemetry_interval_s
    }
}

impl SafeConfig {
    /// `self` shows `config` with its TLS paths redacted and all else unchanged.
    pub open spec fn redacts(self, config: Config) -> bool {
        &&& self.general.redacts(config.general)
        &&& self.mavlink == config.mavlink
        &&& self.sensors == config.sensors
        &&& self.camera == config.camera
        &&& self.mqtt.shows(config.mqtt)
        &&& self.fluentbit.same(config.fluentbit)
    }
}

/// What a redacted configuration shows does not depend on what the TLS paths are,
/// only on which of them are set.
pub proof fn redaction_hides_the_paths(
    a: GeneralConfig,
    b: GeneralConfig,
    safe_a: SafeGeneralConfig,
    safe_b: SafeGeneralConfig,
)
    requires
        a.debug == b.debug,
        a.interface == b.interface,
        a.env_dir == b.env_dir,
        a.ca_cert_path is Some <==> b.ca_cert_path is Some,
        a.client_cert_path is Some <==> b.client_cert_path is Some,
        a.client_key_path is Some <==> b.client_key_path is Some,
        safe_a.redacts(a),
        safe_b.redacts(b),
    ensures
        safe_a.same(safe_b),
{
}

fn redact(opt: &Option<String>) -> (r: Option<String>)
    ensures
        text::opt_text(r) == redacted(*opt),
{
    match opt {
        Some(_) => Some("***".to_string()),
        None => None,
    }
}

impl From<&Config> for SafeConfig {
    fn from(config: &Config) -> (r: Self)
        ensures
            r.redacts(*config),
    {
        Self {
            general: SafeGeneralConfig::from(&config.general),
            mavlink: config.mavlink.clone(),
            sensors: config.sensors.clone(),
            camera: config.camera.clone(),
            mqtt: SafeMqttConfig::from(&config.mqtt),
            fluentbit: config.fluentbit.clone(),
        }
    }
}

impl vstd::std_specs::convert::FromSpecImpl<&Config> for SafeConfig {
    open spec fn obeys_from_spec() -> bool {
        false
    }

    open spec fn from_spec(config: &Config) -> SafeConfig {
        choose|r: SafeConfig| r.redacts(*config)
    }
}

impl From<&GeneralConfig> for SafeGeneralConfig {
    fn from(general: &GeneralConfig) -> (r: Self)
        ensures
            r.redacts(*general),
    {
        Self {
            debug: general.debug,
            interface: general.interface.clone(),
            env_dir: general.env_dir.clone(),
            ca_cert_path: redact(&general.ca_cert_path),
            client_cert_path: redact(&general.client_cert_path),
            client_key_path: redact(&general.client_key_path),
        }
    }
}

impl vstd::std_specs::convert::FromSpecImpl<&GeneralConfig> for SafeGeneralConfig {
    open spec fn obeys_from_spec() -> bool {
        false
    }

    open spec fn from_spec(general: &GeneralConfig) -> SafeGeneralConfig {
        choose|r: SafeGeneralConfig| r.redacts(*general)
    }
}

impl From<&MqttConfig> for SafeMqttConfig {
    fn from(mqtt: &MqttConfig) -> (r: Self)
        ensures
            r.shows(*mqtt),
    {
        Self {
            enabled: mqtt.enabled,
            host: mqtt.host.clone(),
            port: mqtt.port,
            env_prefix: mqtt.env_prefix.clone(),
            telemetry_interval_s: mqtt.telemetry_interval_s,
        }
    }
}

impl vstd::std_specs::convert::FromSpecImpl<&MqttConfig> for SafeMqttConfig {
    open spec fn obeys_from_spec() -> bool {
        true
    }

    open spec fn from_spec(mqtt: &MqttConfig) -> SafeMqttConfig {
        SafeMqttConfig {
            enabled: mqtt.enabled,
            host: mqtt.host,
            port: mqtt.port,
            env_prefix: mqtt.env_prefix,
            telemetry_interval_s: mqtt.telemetry_interval_s,
        }
    }
}

// ---------------------------------------------------------------------------
// Shared command wrappers
// ---------------------------------------------------------------------------

/// Incoming command envelope — the JSON payload on `.../cmnd/{name}/in`.
#[derive(Debug, Clone)]
pub struct CommandEnvelope {
    pub uuid: String,
    pub issued_at: Timestamp,
    pub ttl_sec: u64,
    pub payload: CommandPayload,
}

/// The longest time to live that counts, in seconds: ten years.
pub const MAX_TTL_SEC: u32 = 315_360_000;

impl CommandEnvelope {
    /// The time to live that counts.
    pub open spec fn ttl(self) -> nat {
        if self.ttl_sec > MAX_TTL_SEC {
            MAX_TTL_SEC as nat
        } else {
            self.ttl_sec as nat
        }
    }

    /// The command's end of life is a time that can be represented.
    pub open spec fn expiry_in_range(self) -> bool {
        self.issued_at.wf() && self.issued_at.secs + self.ttl() <= LAST_SECOND
    }

    /// At `now` the command's end of life has passed.
    pub open spec fn expired_at(self, now: Timestamp) -> bool {
        let expiry = self.issued_at.later_by(self.ttl());
        now.secs > expiry.0 || (now.secs == expiry.0 && now.nanos > expiry.1)
    }

    fn effective_ttl(&self) -> (r: u32)
        ensures
            r == self.ttl(),
            r <= MAX_TTL_SEC,
    {
        if self.ttl_sec > MAX_TTL_SEC as u64 {
            MAX_TTL_SEC
        } else {
            self.ttl_sec as u32
        }
    }

    /// Whether the command's end of life is a time that can be represented.
    pub fn has_expiry_in_range(&self) -> (r: bool)
        ensures
            r == self.expiry_in_range(),
    {
        let t = self.issued_at;
        crate::time::FIRST_SECOND <= t.secs && t.secs <= LAST_SECOND && t.nanos < 2_000_000_000
            && t.secs + self.effective_ttl() as i64 <= LAST_SECOND
    }

    /// Check if this command has expired.
    pub fn is_expired(&self) -> (r: bool)
        requires
            self.expiry_in_range(),
        ensures
            exists|now: Timestamp|
                now.is_clock_time() && now.was_shown() && r == #[trigger] self.expired_at(now),
    {
        self.is_expired_at(Timestamp::now())
    }

    /// Check if this command has expired relative to a given timestamp.
    pub fn is_expired_at(&self, now: Timestamp) -> (r: bool)
        requires
            self.expiry_in_range(),
        ensures
            r == self.expired_at(now),
    {
        let expiry = self.issued_at.plus_seconds(self.effective_ttl());
        now.is_after(&expiry)
    }
}

/// A command that has expired stays expired.
pub proof fn expiry_is_final(envelope: CommandEnvelope, now: Timestamp, later: Timestamp)
    requires
        envelope.expired_at(now),
        later == now || later.after(now),
    ensures
        envelope.expired_at(later),
{
}

/// A command lives at least until the moment at which it was issued.
pub proof fn fresh_command_is_not_expired(envelope: CommandEnvelope)
    ensures
        !envelope.expired_at(envelope.issued_at),
{
}

/// A longer time to live never makes a command expire sooner.
pub proof fn longer_ttl_expires_no_sooner(
    short: CommandEnvelope,
    long: CommandEnvelope,
    now: Timestamp,
)
    requires
        short.issued_at == long.issued_at,
        short.issued_at.wf(),
        short.ttl_sec <= long.ttl_sec,
        long.expired_at(now),
    ensures
        short.expired_at(now),
{
}

#[derive(Debug, Clone)]
pub enum CommandPayload {
    GetConfig(GetConfigPayload),
    ConfigUpdate(ConfigUpdatePayload),
    ModemCommands(ModemCommandPayload),
    UpdateRequest(UpdateRequestPayload),
    Restart(RestartPayload),
}

/// Status update published on `.../cmnd/{name}/status`.
#[derive(Debug, Clone)]
pub struct CommandStatus {
    pub uuid: String,
    pub state: CommandState,
    pub ts: Timestamp,
}

/// Command lifecycle state.
#[derive(Debug, Clone, Copy, PartialEq, Eq, Structural)]
pub enum CommandState {
    Accepted,
    InProgress,
    Completed,
    Failed,
    Rejected,
    Expired,
    Superseded,
}

/// Command result published on `.../cmnd/{name}/result`.
#[derive(Debug, Clone)]
pub struct CommandResultMsg {
    pub uuid: String,
    pub ok: bool,
    pub ts: Timestamp,
    pub error: Option<String>,
    pub data: Option<CommandResultData>,
}

#[derive(Debug, Clone)]
pub enum CommandResultData {
    GetConfig(Box<GetConfigResult>),
    ConfigUpdate(ConfigUpdateResult),
    ModemCommands(ModemCommandResult),
    UpdateRequest(UpdateRequestResult),
    Restart(RestartResult),
}

// ---------------------------------------------------------------------------
// Per-command payload / result types
// ---------------------------------------------------------------------------

/// Payload for `get_config` — no fields needed.
#[derive(Debug, Clone)]
pub struct GetConfigPayload {}

/// Result for `get_config` — returns the sanitized configuration.
#[derive(Debug, Clone)]
pub struct GetConfigResult {
    pub config: SafeConfig,
}

/// Payload for `config_update` (placeholder): a JSON document as text.
#[derive(Debug, Clone)]
pub struct ConfigUpdatePayload {
    pub payload: String,
}

/// Result for `config_update` (placeholder).
#[derive(Debug, Clone)]
pub struct ConfigUpdateResult {
    pub message: String,
    pub fields_received: Vec<String>,
}

/// Payload for `update_request` (placeholder).
#[derive(Debug, Clone)]
pub struct UpdateRequestPayload {
    pub version: String,
    pub url: String,
}

/// Result for `update_request` (placeholder).
#[derive(Debug, Clone)]
pub struct UpdateRequestResult {
    pub message: String,
    pub version: String,
}

/// Payload for `modem_commands`.
#[derive(Debug, Clone)]
pub struct ModemCommandPayload {
    pub command: String,
    pub timeout_ms: Option<u32>,
}

/// Result for `modem_commands`.
#[derive(Debug, Clone)]
pub struct ModemCommandResult {
    pub command: String,
    pub response: String,
}

/// Target unit/operation for a `restart` command.
#[derive(Debug, Clone, Copy, PartialEq, Eq, Structural)]
pub enum RestartTarget {
    Camera,
    Mavlink,
    Modem,
    Unitctl,
    Reboot,
}

/// Payload for `restart`.
#[derive(Debug, Clone)]
pub struct RestartPayload {
    pub target: RestartTarget,
}

/// Result for `restart`. `ok` and `error` live on `CommandResultMsg`.
#[derive(Debug, Clone)]
pub struct RestartResult {
    pub target: RestartTarget,
}

/// A command is expired exactly where more than its time to live, counted up to ten years,
/// has gone by since it was issued, to the nanosecond.
pub proof fn commands_expire_after_their_ttl(envelope: &CommandEnvelope, now: Timestamp, r: bool)
    requires
        call_ensures(CommandEnvelope::is_expired_at, (envelope, now), r),
        envelope.issued_at.nanos < 1_000_000_000,
        now.nanos < 1_000_000_000,
    ensures
        ({
            let issued = envelope.issued_at.secs * 1_000_000_000 + envelope.issued_at.nanos;
            let seen = now.secs * 1_000_000_000 + now.nanos;
            &&& envelope.ttl_sec <= 315_360_000 ==> (r <==> seen - issued > envelope.ttl_sec
                * 1_000_000_000)
            &&& envelope.ttl_sec > 315_360_000 ==> (r <==> seen - issued > 315_360_000
                * 1_000_000_000)
        }),
{
}

/// Whether a command is expired by now is decided at a time that the clock showed.
pub proof fn expiry_goes_by_the_clock(envelope: &CommandEnvelope, r: bool)
    requires
        call_ensures(CommandEnvelope::is_expired, (envelope,), r),
    ensures
        exists|now: Timestamp|
            #[trigger] now.was_shown() && r == envelope.expired_at(now) && now.nanos
                < 1_000_000_000,
{
    let now = choose|now: Timestamp|
        now.is_clock_time() && now.was_shown() && r == #[trigger] envelope.expired_at(now);
    assert(now.was_shown());
}

/// A configuration is shown with three stars in place of each TLS path that is set, and
/// with all else as it is.
pub proof fn shown_configuration_hides_tls_paths(safe: SafeConfig, config: Config)
    requires
        safe.redacts(config),
    ensures
        match safe.general.ca_cert_path {
            Some(s) => s@ == "***"@ && config.general.ca_cert_path is Some,
            None => config.general.ca_cert_path is None,
        },
        match safe.general.client_cert_path {
            Some(s) => s@ == "***"@ && config.general.client_cert_path is Some,
            None => config.general.client_cert_path is None,
        },
        match safe.general.client_key_path {
            Some(s) => s@ == "***"@ && config.general.client_key_path is Some,
            None => config.general.client_key_path is None,
        },
        safe.general.debug == config.general.debug,
        safe.general.interface@ == config.general.interface@,
        safe.general.env_dir@ == config.general.env_dir@,
        safe.mavlink == config.mavlink,
        safe.sensors == config.sensors,
        safe.camera == config.camera,
        safe.mqtt.enabled == config.mqtt.enabled,
        safe.mqtt.host@ == config.mqtt.host@,
        safe.mqtt.port == config.mqtt.port,
        safe.mqtt.env_prefix@ == config.mqtt.env_prefix@,
        safe.mqtt.telemetry_interval_s == config.mqtt.telemetry_interval_s,
        safe.fluentbit.enabled == config.fluentbit.enabled,
        safe.fluentbit.host@ == config.fluentbit.host@,
        safe.fluentbit.port == config.fluentbit.port,
        safe.fluentbit.tls == config.fluentbit.tls,
        safe.fluentbit.tls_verify == config.fluentbit.tls_verify,
        safe.fluentbit.config_path@ == config.fluentbit.config_path@,
        safe.fluentbit.systemd_filter is Some <==> config.fluentbit.systemd_filter is Some,
        config.fluentbit.systemd_filter is Some ==> (safe.fluentbit.systemd_filter->0)@ == (
        config.fluentbit.systemd_filter->0)@,
{
}

/// The end of a command's life can be told where the time it was issued at, and that time
/// and its time to live together, can be represented.
pub proof fn ends_of_life_that_can_be_told(envelope: &CommandEnvelope, r: bool)
    requires
        call_ensures(CommandEnvelope::has_expiry_in_range, (envelope,), r),
    ensures
        ({
            let secs = envelope.issued_at.secs as int;
            let ttl: int = if envelope.ttl_sec <= 315_360_000 {
                envelope.ttl_sec as int
            } else {
                315_360_000
            };
            r <==> -8_334_601_228_800 <= secs && secs + ttl <= 8_210_266_876_799
                && envelope.issued_at.nanos < 2_000_000_000
        }),
{
}

} // verus!
