//! What a configuration has to meet, and what is said of one that does not.
//!
//! The rules are checked in a fixed order, and the complaint is that of the first
//! broken one. Sections that are switched off are not examined.

use vstd::prelude::*;
use vstd::string::*;

use super::{
    CameraConfig, Config, ConfigError, FluentbitConfig, GeneralConfig, MavlinkConfig, MqttConfig,
    SensorsConfig,
};
use crate::number::{self, Binary64};
use crate::text::{
    self, char_is_alphanumeric, char_is_digit, char_is_upper, chars_of, contains_char, join,
    quoted, same_text, split_at_char,
};

verus! {

/// `a`, or `b` where there is no `a`.
pub open spec fn first(a: Option<Seq<char>>, b: Option<Seq<char>>) -> Option<Seq<char>> {
    if a is Some {
        a
    } else {
        b
    }
}

/// The text has more than one line.
pub open spec fn has_newline(s: Seq<char>) -> bool {
    s.contains('\n') || s.contains('\r')
}

/// Fit to stand as an argument of a program: not empty, and not an option.
pub open spec fn plain(s: Seq<char>) -> bool {
    s.len() > 0 && s[0] != '-'
}

/// Fit to be the name of a network interface.
pub open spec fn interface_char(c: char) -> bool {
    text::is_alphanumeric(c) || c == '.' || c == '_' || c == '-'
}

pub open spec fn interface_chars(s: Seq<char>) -> bool {
    forall|i: int| 0 <= i < s.len() ==> interface_char(#[trigger] s[i])
}

/// An optional setting is absent, or neither empty nor more than one line.
pub open spec fn good_path(p: Option<String>) -> bool {
    p matches Some(s) ==> s@.len() > 0 && !has_newline(s@)
}

/// An optional setting is present and not empty.
pub open spec fn present(p: Option<String>) -> bool {
    p matches Some(s) && s@.len() > 0
}

/// An optional interval is absent, or finite and positive.
pub open spec fn good_interval(i: Option<Binary64>) -> bool {
    i matches Some(v) ==> v.finite_positive()
}

/// The key of a filter entry: what stands before the first `=`.
pub open spec fn filter_key(entry: Seq<char>) -> Seq<char> {
    text::split(entry, '=')[0]
}

/// `[A-Z_][A-Z0-9_]*`
pub open spec fn key_shape(k: Seq<char>) -> bool {
    &&& k.len() > 0
    &&& text::is_upper(k[0]) || k[0] == '_'
    &&& forall|i: int|
        0 <= i < k.len() ==> text::is_upper(#[trigger] k[i]) || text::is_digit(k[i]) || k[i] == '_'
}

/// One line of the form `KEY=VALUE`.
pub open spec fn good_filter(entry: Seq<char>) -> bool {
    !has_newline(entry) && entry.contains('=') && key_shape(filter_key(entry))
}

// ---------------------------------------------------------------------------
// What a valid configuration is
// ---------------------------------------------------------------------------

impl MavlinkConfig {
    /// The system ids of the other parties differ from each other, and from this
    /// unit's own one unless that is to be discovered.
    pub open spec fn distinct_sysids(self) -> bool {
        &&& self.sniffer_sysid != self.bs_sysid
        &&& self.gcs_sysid != self.sniffer_sysid
        &&& self.gcs_sysid != self.bs_sysid
        &&& self.self_sysid != 0 ==> self.self_sysid != self.sniffer_sysid && self.self_sysid
            != self.bs_sysid && self.self_sysid != self.gcs_sysid
    }

    pub open spec fn valid(self) -> bool {
        &&& self.iteration_period_ms > 0
        &&& self.protocol@ == "tcpout"@
        &&& self.distinct_sysids()
        &&& self.env_path@.len() > 0 && !has_newline(self.env_path@)
        &&& plain(self.gcs_ip@) && !has_newline(self.gcs_ip@)
        &&& self.fc.tty@.len() > 0 && !has_newline(self.fc.tty@)
        &&& self.fc.baudrate > 0
        &&& self.local_mavlink_port > 0
        &&& self.remote_mavlink_port > 0
        &&& plain(self.host@) && !has_newline(self.host@)
    }
}

impl CameraConfig {
    pub open spec fn valid(self) -> bool {
        &&& self.env_path@.len() > 0 && !has_newline(self.env_path@)
        &&& plain(self.gcs_ip@) && !has_newline(self.gcs_ip@)
        &&& self.camera_type@.len() > 0 && !has_newline(self.camera_type@)
        &&& self.device@.len() > 0 && !has_newline(self.device@)
        &&& self.width > 0
        &&& self.height > 0
        &&& self.framerate > 0
        &&& self.bitrate > 0
        &&& self.remote_video_port > 0
    }
}

impl GeneralConfig {
    pub open spec fn valid(self) -> bool {
        &&& plain(self.interface@) && interface_chars(self.interface@)
        &&& self.env_dir@.len() > 0 && !has_newline(self.env_dir@)
        &&& good_path(self.ca_cert_path)
        &&& good_path(self.client_cert_path)
        &&& good_path(self.client_key_path)
    }

    /// All three TLS paths are set.
    pub open spec fn has_certs(self) -> bool {
        present(self.ca_cert_path) && present(self.client_cert_path) && present(
            self.client_key_path,
        )
    }
}

impl SensorsConfig {
    pub open spec fn valid(self) -> bool {
        &&& self.default_interval_s.finite_positive()
        &&& good_interval(self.ping.interval_s)
        &&& good_interval(self.lte.interval_s)
        &&& good_interval(self.system.interval_s)
        &&& self.lte.neighbor_expiry_s.finite_positive()
        &&& self.lte.modem_type@ == "dbus"@ || self.lte.modem_type@ == "fake"@
        &&& plain(self.ping.host@)
    }
}

impl MqttConfig {
    pub open spec fn valid(self) -> bool {
        &&& self.host@.len() > 0
        &&& self.port > 0
        &&& self.env_prefix@.len() > 0
        &&& self.telemetry_interval_s.finite_at_least_one()
    }
}

impl FluentbitConfig {
    pub open spec fn good_filters(self) -> bool {
        self.filters() matches Some(f) ==> forall|i: int|
            0 <= i < f.len() ==> good_filter(#[trigger] f[i]@)
    }

    pub open spec fn valid(self, general: GeneralConfig) -> bool {
        &&& plain(self.host@) && !has_newline(self.host@)
        &&& self.tls ==> general.has_certs()
        &&& self.port > 0
        &&& self.config_path@.len() > 0 && !has_newline(self.config_path@)
        &&& self.good_filters()
    }
}

impl Config {
    pub open spec fn valid(self) -> bool {
        &&& self.mavlink.valid()
        &&& self.camera.valid()
        &&& self.general.valid()
        &&& self.sensors.valid()
        &&& self.mqtt.enabled ==> self.mqtt.valid()
        &&& self.fluentbit.enabled ==> self.fluentbit.valid(self.general)
    }
}

// ---------------------------------------------------------------------------
// The complaint about an invalid one
// ---------------------------------------------------------------------------

pub open spec fn sysids_complaint(m: MavlinkConfig) -> Option<Seq<char>> {
    if m.self_sysid != 0 && m.self_sysid == m.sniffer_sysid {
        Some("mavlink.self_sysid must differ from sniffer_sysid"@)
    } else if m.self_sysid != 0 && m.self_sysid == m.bs_sysid {
        Some("mavlink.self_sysid must differ from bs_sysid"@)
    } else if m.sniffer_sysid == m.bs_sysid {
        Some("mavlink.sniffer_sysid must differ from bs_sysid"@)
    } else if m.self_sysid != 0 && m.self_sysid == m.gcs_sysid {
        Some("mavlink.self_sysid must differ from gcs_sysid"@)
    } else if m.gcs_sysid == m.sniffer_sysid {
        Some("mavlink.gcs_sysid must differ from sniffer_sysid"@)
    } else if m.gcs_sysid == m.bs_sysid {
        Some("mavlink.gcs_sysid must differ from bs_sysid"@)
    } else {
        None
    }
}

pub open spec fn link_complaint(m: MavlinkConfig) -> Option<Seq<char>> {
    if m.env_path@.len() == 0 {
        Some("mavlink.env_path must not be empty"@)
    } else if !plain(m.gcs_ip@) {
        Some("mavlink.gcs_ip must be a non-empty value that does not start with '-'"@)
    } else if m.fc.tty@.len() == 0 {
        Some("mavlink.fc.tty must not be empty"@)
    } else if m.fc.baudrate == 0 {
        Some("mavlink.fc.baudrate must be greater than 0"@)
    } else if m.local_mavlink_port == 0 {
        Some("mavlink.local_mavlink_port must be greater than 0"@)
    } else if m.remote_mavlink_port == 0 {
        Some("mavlink.remote_mavlink_port must be greater than 0"@)
    } else {
        None
    }
}

pub open spec fn camera_complaint(c: CameraConfig) -> Option<Seq<char>> {
    if c.env_path@.len() == 0 {
        Some("camera.env_path must not be empty"@)
    } else if !plain(c.gcs_ip@) {
        Some("camera.gcs_ip must be a non-empty value that does not start with '-'"@)
    } else if c.camera_type@.len() == 0 {
        Some("camera.camera_type must not be empty"@)
    } else if c.device@.len() == 0 {
        Some("camera.device must not be empty"@)
    } else if c.width == 0 {
        Some("camera.width must be greater than 0"@)
    } else if c.height == 0 {
        Some("camera.height must be greater than 0"@)
    } else if c.framerate == 0 {
        Some("camera.framerate must be greater than 0"@)
    } else if c.bitrate == 0 {
        Some("camera.bitrate must be greater than 0"@)
    } else if c.remote_video_port == 0 {
        Some("camera.remote_video_port must be greater than 0"@)
    } else {
        None
    }
}

pub open spec fn general_complaint(g: GeneralConfig) -> Option<Seq<char>> {
    if g.interface@.len() == 0 {
        Some("general.interface must not be empty"@)
    } else if g.interface@[0] == '-' {
        Some("general.interface must not start with '-'"@)
    } else if !interface_chars(g.interface@) {
        Some("general.interface must contain only alphanumeric, '.', '_', or '-' characters"@)
    } else if g.env_dir@.len() == 0 {
        Some("general.env_dir must not be empty"@)
    } else if has_newline(g.env_dir@) {
        Some("general.env_dir must not contain newline characters"@)
    } else {
        None
    }
}

pub open spec fn sensors_complaint(s: SensorsConfig) -> Option<Seq<char>> {
    if !s.default_interval_s.finite_positive() {
        Some("sensors.default_interval_s must be a finite positive number"@)
    } else if !good_interval(s.ping.interval_s) {
        Some("sensors.ping.interval_s must be a finite positive number"@)
    } else if !good_interval(s.lte.interval_s) {
        Some("sensors.lte.interval_s must be a finite positive number"@)
    } else if !good_interval(s.system.interval_s) {
        Some("sensors.system.interval_s must be a finite positive number"@)
    } else if !s.lte.neighbor_expiry_s.finite_positive() {
        Some("sensors.lte.neighbor_expiry_s must be a finite positive number"@)
    } else {
        None
    }
}

pub open spec fn mqtt_complaint(m: MqttConfig) -> Option<Seq<char>> {
    if m.host@.len() == 0 {
        Some("mqtt.host must not be empty when MQTT is enabled"@)
    } else if m.port == 0 {
        Some("mqtt.port must be greater than 0"@)
    } else if m.env_prefix@.len() == 0 {
        Some("mqtt.env_prefix must not be empty when MQTT is enabled"@)
    } else if !m.telemetry_interval_s.finite_at_least_one() {
        Some("mqtt.telemetry_interval_s must be a finite number >= 1.0"@)
    } else {
        None
    }
}

pub open spec fn fluentbit_host_complaint(f: FluentbitConfig) -> Option<Seq<char>> {
    if !plain(f.host@) {
        Some("fluentbit.host must be a non-empty value that does not start with '-'"@)
    } else if has_newline(f.host@) {
        Some("fluentbit.host must not contain newline characters"@)
    } else {
        None
    }
}

pub open spec fn fluentbit_output_complaint(f: FluentbitConfig) -> Option<Seq<char>> {
    if f.port == 0 {
        Some("fluentbit.port must be greater than 0"@)
    } else if f.config_path@.len() == 0 {
        Some("fluentbit.config_path must not be empty"@)
    } else if has_newline(f.config_path@) {
        Some("fluentbit.config_path must not contain newline characters"@)
    } else {
        None
    }
}

/// A setting that has to stand on one line.
pub open spec fn line_complaint(field: Seq<char>, value: Seq<char>) -> Option<Seq<char>> {
    if has_newline(value) {
        Some(field + " must not contain newline characters"@)
    } else {
        None
    }
}

pub open spec fn path_complaint(field: Seq<char>, value: Option<String>) -> Option<Seq<char>> {
    match value {
        Some(s) => if s@.len() == 0 {
            Some(field + " must not be empty when set"@)
        } else {
            line_complaint(field, s@)
        },
        None => None,
    }
}

pub open spec fn cert_complaint(field: Seq<char>, value: Option<String>) -> Option<Seq<char>> {
    if present(value) {
        None
    } else {
        Some(field + " must be set when fluentbit.tls = true"@)
    }
}

/// Settings that are written to line-based files.
pub open spec fn lines_complaint(m: MavlinkConfig, c: CameraConfig) -> Option<Seq<char>> {
    first(
        line_complaint("mavlink.host"@, m.host@),
        first(
            line_complaint("mavlink.gcs_ip"@, m.gcs_ip@),
            first(
                line_complaint("mavlink.env_path"@, m.env_path@),
                first(
                    line_complaint("mavlink.fc.tty"@, m.fc.tty@),
                    first(
                        line_complaint("camera.gcs_ip"@, c.gcs_ip@),
                        first(
                            line_complaint("camera.env_path"@, c.env_path@),
                            first(
                                line_complaint("camera.camera_type"@, c.camera_type@),
                                line_complaint("camera.device"@, c.device@),
                            ),
                        ),
                    ),
                ),
            ),
        ),
    )
}

pub open spec fn paths_complaint(g: GeneralConfig) -> Option<Seq<char>> {
    first(
        path_complaint("general.ca_cert_path"@, g.ca_cert_path),
        first(
            path_complaint("general.client_cert_path"@, g.client_cert_path),
            path_complaint("general.client_key_path"@, g.client_key_path),
        ),
    )
}

pub open spec fn certs_complaint(g: GeneralConfig) -> Option<Seq<char>> {
    first(
        cert_complaint("general.ca_cert_path"@, g.ca_cert_path),
        first(
            cert_complaint("general.client_cert_path"@, g.client_cert_path),
            cert_complaint("general.client_key_path"@, g.client_key_path),
        ),
    )
}

/// The complaint about a protocol, given its quoted name.
pub open spec fn protocol_text(quoted: Seq<char>) -> Seq<char> {
    "mavlink.protocol must be one of [\"tcpout\"], got "@ + quoted
}

/// The complaint about a modem type, given its quoted name.
pub open spec fn modem_type_text(quoted: Seq<char>) -> Seq<char> {
    "sensors.lte.modem_type must be \"dbus\" or \"fake\", got "@ + quoted
}

/// The complaint about a filter entry, given the quoted entry.
pub open spec fn filter_text(quoted: Seq<char>, fault: FilterFault) -> Seq<char> {
    "fluentbit.systemd_filter entry "@ + quoted + match fault {
        FilterFault::Newline => " must not contain newline characters"@,
        FilterFault::NoValue => " must be KEY=VALUE"@,
        FilterFault::Key => " key must match [A-Z_][A-Z0-9_]*"@,
    }
}

/// What is wrong with a filter entry.
#[derive(Debug, Clone, Copy, PartialEq, Eq, Structural)]
pub enum FilterFault {
    Newline,
    NoValue,
    Key,
}

pub open spec fn filter_fault_of(entry: Seq<char>) -> Option<FilterFault> {
    if has_newline(entry) {
        Some(FilterFault::Newline)
    } else if !entry.contains('=') {
        Some(FilterFault::NoValue)
    } else if !key_shape(filter_key(entry)) {
        Some(FilterFault::Key)
    } else {
        None
    }
}

pub open spec fn filter_complaint(entry: Seq<char>) -> Option<Seq<char>> {
    match filter_fault_of(entry) {
        Some(fault) => Some(filter_text(text::debug_text(entry), fault)),
        None => None,
    }
}

/// The complaint about the first bad entry.
pub open spec fn filters_complaint(f: Seq<String>) -> Option<Seq<char>>
    decreases f.len(),
{
    if f.len() == 0 {
        None
    } else {
        first(filters_complaint(f.drop_last()), filter_complaint(f.last()@))
    }
}

pub open spec fn mavlink_complaint(m: MavlinkConfig) -> Option<Seq<char>> {
    if m.iteration_period_ms == 0 {
        Some("mavlink.iteration_period_ms must be greater than 0"@)
    } else if m.protocol@ != "tcpout"@ {
        Some(protocol_text(text::debug_text(m.protocol@)))
    } else {
        first(sysids_complaint(m), link_complaint(m))
    }
}

pub open spec fn host_complaint(m: MavlinkConfig) -> Option<Seq<char>> {
    if !plain(m.host@) {
        Some("mavlink.host must be a non-empty value that does not start with '-'"@)
    } else {
        None
    }
}

pub open spec fn modem_and_host_complaint(s: SensorsConfig) -> Option<Seq<char>> {
    if s.lte.modem_type@ != "dbus"@ && s.lte.modem_type@ != "fake"@ {
        Some(modem_type_text(text::debug_text(s.lte.modem_type@)))
    } else if !plain(s.ping.host@) {
        Some("sensors.ping.host must be a valid hostname or IP address"@)
    } else {
        None
    }
}

pub open spec fn fluentbit_complaint(f: FluentbitConfig, g: GeneralConfig) -> Option<Seq<char>> {
    first(
        fluentbit_host_complaint(f),
        first(
            if f.tls {
                certs_complaint(g)
            } else {
                None
            },
            first(
                fluentbit_output_complaint(f),
                match f.filters() {
                    Some(v) => filters_complaint(v),
                    None => None,
                },
            ),
        ),
    )
}

impl Config {
    /// What is wrong with the configuration: the complaint of the first broken rule.
    pub open spec fn complaint(self) -> Option<Seq<char>> {
        first(
            first(mavlink_complaint(self.mavlink), camera_complaint(self.camera)),
            first(
                first(host_complaint(self.mavlink), lines_complaint(self.mavlink, self.camera)),
                first(
                    first(general_complaint(self.general), paths_complaint(self.general)),
                    first(
                        first(
                            sensors_complaint(self.sensors),
                            modem_and_host_complaint(self.sensors),
                        ),
                        first(
                            if self.mqtt.enabled {
                                mqtt_complaint(self.mqtt)
                            } else {
                                None
                            },
                            if self.fluentbit.enabled {
                                fluentbit_complaint(self.fluentbit, self.general)
                            } else {
                                None
                            },
                        ),
                    ),
                ),
            ),
        )
    }
}

// ---------------------------------------------------------------------------
// Laws
// ---------------------------------------------------------------------------

proof fn lemma_filters(f: Seq<String>)
    ensures
        filters_complaint(f) is None <==> forall|i: int|
            0 <= i < f.len() ==> good_filter(#[trigger] f[i]@),
    decreases f.len(),
{
    if f.len() > 0 {
        lemma_filters(f.drop_last());
        assert(f.last() == f[f.len() - 1]);
        if filters_complaint(f) is None {
            assert forall|i: int| 0 <= i < f.len() implies good_filter(#[trigger] f[i]@) by {
                if i < f.len() - 1 {
                    assert(f.drop_last()[i] == f[i]);
                }
            }
        } else if forall|i: int| 0 <= i < f.len() ==> good_filter(#[trigger] f[i]@) {
            assert forall|i: int| 0 <= i < f.drop_last().len() implies good_filter(
                #[trigger] f.drop_last()[i]@,
            ) by {
                assert(f.drop_last()[i] == f[i]);
            }
            assert(good_filter(f[f.len() - 1]@));
        }
    }
}

/// There is something to complain about exactly where the configuration is not
/// valid.
pub proof fn complaint_iff_invalid(c: Config)
    ensures
        c.complaint() is None <==> c.valid(),
{
    if c.fluentbit.filters() is Some {
        lemma_filters(c.fluentbit.filters()->0);
    }
    assert(mavlink_complaint(c.mavlink) is None && host_complaint(c.mavlink) is None
        && camera_complaint(c.camera) is None && lines_complaint(c.mavlink, c.camera) is None
        <==> c.mavlink.valid() && c.camera.valid());
    assert(general_complaint(c.general) is None && paths_complaint(c.general) is None
        <==> c.general.valid());
    assert(sensors_complaint(c.sensors) is None && modem_and_host_complaint(c.sensors) is None
        <==> c.sensors.valid());
    assert(mqtt_complaint(c.mqtt) is None <==> c.mqtt.valid());
    assert(fluentbit_complaint(c.fluentbit, c.general) is None <==> c.fluentbit.valid(c.general));
}

/// The settings of an MQTT section that is switched off do not matter.
pub proof fn disabled_mqtt_is_not_examined(a: Config, b: Config)
    requires
        a.general == b.general,
        a.mavlink == b.mavlink,
        a.sensors == b.sensors,
        a.camera == b.camera,
        a.fluentbit == b.fluentbit,
        !a.mqtt.enabled,
        !b.mqtt.enabled,
    ensures
        a.complaint() == b.complaint(),
{
}

/// The settings of a Fluent Bit section that is switched off do not matter.
pub proof fn disabled_fluentbit_is_not_examined(a: Config, b: Config)
    requires
        a.general == b.general,
        a.mavlink == b.mavlink,
        a.sensors == b.sensors,
        a.camera == b.camera,
        a.mqtt == b.mqtt,
        !a.fluentbit.enabled,
        !b.fluentbit.enabled,
    ensures
        a.complaint() == b.complaint(),
{
}

// ---------------------------------------------------------------------------
// The checks
// ---------------------------------------------------------------------------

fn is_multiline(s: &str) -> (r: bool)
    ensures
        r == has_newline(s@),
{
    contains_char(s, '\n') || contains_char(s, '\r')
}

fn is_plain(s: &str) -> (r: bool)
    ensures
        r == plain(s@),
{
    !s.is_empty() && s.get_char(0) != '-'
}

fn has_interface_chars(s: &str) -> (r: bool)
    ensures
        r == interface_chars(s@),
{
    let x = chars_of(s);
    for i in 0..x.len()
        invariant
            x@ == s@,
            forall|j: int| 0 <= j < i ==> interface_char(#[trigger] x@[j]),
    {
        let c = x[i];
        if !(char_is_alphanumeric(c) || c == '.' || c == '_' || c == '-') {
            assert(!interface_char(s@[i as int]));
            return false;
        }
    }
    true
}

fn is_good_interval(i: Option<Binary64>) -> (r: bool)
    ensures
        r == good_interval(i),
{
    match i {
        Some(v) => v.is_finite_positive(),
        None => true,
    }
}

fn has_key_shape(k: &str) -> (r: bool)
    ensures
        r == key_shape(k@),
{
    let x = chars_of(k);
    if x.len() == 0 || !(char_is_upper(x[0]) || x[0] == '_') {
        return false;
    }
    for i in 0..x.len()
        invariant
            x@ == k@,
            forall|j: int|
                0 <= j < i ==> text::is_upper(#[trigger] x@[j]) || text::is_digit(x@[j]) || x@[j]
                    == '_',
    {
        let c = x[i];
        if !(char_is_upper(c) || char_is_digit(c) || c == '_') {
            assert(k@[i as int] == c);
            return false;
        }
    }
    true
}

/// What is wrong with a filter entry, if anything.
pub fn check_filter(entry: &str) -> (r: Option<FilterFault>)
    ensures
        r == filter_fault_of(entry@),
{
    if is_multiline(entry) {
        return Some(FilterFault::Newline);
    }
    if !contains_char(entry, '=') {
        return Some(FilterFault::NoValue);
    }
    let pieces = split_at_char(entry, '=');
    assert(text::texts(pieces@)[0] == pieces@[0]@);
    if has_key_shape(pieces[0].as_str()) {
        None
    } else {
        Some(FilterFault::Key)
    }
}

/// The message about a filter entry, given the entry in quotes.
pub fn filter_message(quoted_entry: &str, fault: FilterFault) -> (r: String)
    ensures
        r@ == filter_text(quoted_entry@, fault),
{
    let tail = match fault {
        FilterFault::Newline => " must not contain newline characters",
        FilterFault::NoValue => " must be KEY=VALUE",
        FilterFault::Key => " key must match [A-Z_][A-Z0-9_]*",
    };
    "fluentbit.systemd_filter entry ".to_string().concat(quoted_entry).concat(tail)
}

/// The message about a protocol that is not supported, given its name in quotes.
pub fn protocol_message(quoted_name: &str) -> (r: String)
    ensures
        r@ == protocol_text(quoted_name@),
{
    join("mavlink.protocol must be one of [\"tcpout\"], got ", quoted_name)
}

/// The message about a modem type that is not known, given its name in quotes.
pub fn modem_type_message(quoted_name: &str) -> (r: String)
    ensures
        r@ == modem_type_text(quoted_name@),
{
    join("sensors.lte.modem_type must be \"dbus\" or \"fake\", got ", quoted_name)
}

fn filters_fault(f: &Vec<String>) -> (r: Option<String>)
    ensures
        text::opt_text(r) == filters_complaint(f@),
{
    for i in 0..f.len()
        invariant
            filters_complaint(f@.take(i as int)) is None,
    {
        proof {
            assert(f@.take(i + 1).drop_last() =~= f@.take(i as int));
            assert(f@.take(i + 1).last() == f@[i as int]);
        }
        match check_filter(f[i].as_str()) {
            Some(fault) => {
                let message = filter_message(quoted(f[i].as_str()).as_str(), fault);
                proof {
                    lemma_filters_stop(f@, i + 1);
                }
                return Some(message);
            },
            None => {},
        }
    }
    assert(f@.take(f@.len() as int) =~= f@);
    None
}

proof fn lemma_filters_stop(f: Seq<String>, i: int)
    requires
        0 <= i <= f.len(),
        filters_complaint(f.take(i)) is Some,
    ensures
        filters_complaint(f) == filters_complaint(f.take(i)),
    decreases f.len() - i,
{
    if i == f.len() {
        assert(f.take(i) =~= f);
    } else {
        assert(f.take(i + 1).drop_last() =~= f.take(i));
        lemma_filters_stop(f, i + 1);
    }
}

fn line_fault(field: &str, value: &str) -> (r: Option<String>)
    ensures
        text::opt_text(r) == line_complaint(field@, value@),
{
    if is_multiline(value) {
        Some(join(field, " must not contain newline characters"))
    } else {
        None
    }
}

fn path_fault(field: &str, value: &Option<String>) -> (r: Option<String>)
    ensures
        text::opt_text(r) == path_complaint(field@, *value),
{
    match value {
        Some(s) => if s.as_str().is_empty() {
            Some(join(field, " must not be empty when set"))
        } else {
            line_fault(field, s.as_str())
        },
        None => None,
    }
}

fn cert_fault(field: &str, value: &Option<String>) -> (r: Option<String>)
    ensures
        text::opt_text(r) == cert_complaint(field@, *value),
{
    match value {
        Some(s) => if s.as_str().is_empty() {
            Some(join(field, " must be set when fluentbit.tls = true"))
        } else {
            None
        },
        None => Some(join(field, " must be set when fluentbit.tls = true")),
    }
}

fn sysids_fault(m: &MavlinkConfig) -> (r: Option<String>)
    ensures
        text::opt_text(r) == sysids_complaint(*m),
{
    if m.self_sysid != 0 && m.self_sysid == m.sniffer_sysid {
        Some("mavlink.self_sysid must differ from sniffer_sysid".to_string())
    } else if m.self_sysid != 0 && m.self_sysid == m.bs_sysid {
        Some("mavlink.self_sysid must differ from bs_sysid".to_string())
    } else if m.sniffer_sysid == m.bs_sysid {
        Some("mavlink.sniffer_sysid must differ from bs_sysid".to_string())
    } else if m.self_sysid != 0 && m.self_sysid == m.gcs_sysid {
        Some("mavlink.self_sysid must differ from gcs_sysid".to_string())
    } else if m.gcs_sysid == m.sniffer_sysid {
        Some("mavlink.gcs_sysid must differ from sniffer_sysid".to_string())
    } else if m.gcs_sysid == m.bs_sysid {
        Some("mavlink.gcs_sysid must differ from bs_sysid".to_string())
    } else {
        None
    }
}

fn link_fault(m: &MavlinkConfig) -> (r: Option<String>)
    ensures
        text::opt_text(r) == link_complaint(*m),
{
    if m.env_path.as_str().is_empty() {
        Some("mavlink.env_path must not be empty".to_string())
    } else if !is_plain(m.gcs_ip.as_str()) {
        Some("mavlink.gcs_ip must be a non-empty value that does not start with '-'".to_string())
    } else if m.fc.tty.as_str().is_empty() {
        Some("mavlink.fc.tty must not be empty".to_string())
    } else if m.fc.baudrate == 0 {
        Some("mavlink.fc.baudrate must be greater than 0".to_string())
    } else if m.local_mavlink_port == 0 {
        Some("mavlink.local_mavlink_port must be greater than 0".to_string())
    } else if m.remote_mavlink_port == 0 {
        Some("mavlink.remote_mavlink_port must be greater than 0".to_string())
    } else {
        None
    }
}

fn camera_fault(c: &CameraConfig) -> (r: Option<String>)
    ensures
        text::opt_text(r) == camera_complaint(*c),
{
    if c.env_path.as_str().is_empty() {
        Some("camera.env_path must not be empty".to_string())
    } else if !is_plain(c.gcs_ip.as_str()) {
        Some("camera.gcs_ip must be a non-empty value that does not start with '-'".to_string())
    } else if c.camera_type.as_str().is_empty() {
        Some("camera.camera_type must not be empty".to_string())
    } else if c.device.as_str().is_empty() {
        Some("camera.device must not be empty".to_string())
    } else if c.width == 0 {
        Some("camera.width must be greater than 0".to_string())
    } else if c.height == 0 {
        Some("camera.height must be greater than 0".to_string())
    } else if c.framerate == 0 {
        Some("camera.framerate must be greater than 0".to_string())
    } else if c.bitrate == 0 {
        Some("camera.bitrate must be greater than 0".to_string())
    } else if c.remote_video_port == 0 {
        Some("camera.remote_video_port must be greater than 0".to_string())
    } else {
        None
    }
}

fn general_fault(g: &GeneralConfig) -> (r: Option<String>)
    ensures
        text::opt_text(r) == general_complaint(*g),
{
    if g.interface.as_str().is_empty() {
        Some("general.interface must not be empty".to_string())
    } else if !is_plain(g.interface.as_str()) {
        Some("general.interface must not start with '-'".to_string())
    } else if !has_interface_chars(g.interface.as_str()) {
        Some("general.interface must contain only alphanumeric, '.', '_', or '-' characters".to_string())
    } else if g.env_dir.as_str().is_empty() {
        Some("general.env_dir must not be empty".to_string())
    } else if is_multiline(g.env_dir.as_str()) {
        Some("general.env_dir must not contain newline characters".to_string())
    } else {
        None
    }
}

fn sensors_fault(s: &SensorsConfig) -> (r: Option<String>)
    ensures
        text::opt_text(r) == sensors_complaint(*s),
{
    if !s.default_interval_s.is_finite_positive() {
        Some("sensors.default_interval_s must be a finite positive number".to_string())
    } else if !is_good_interval(s.ping.interval_s) {
        Some("sensors.ping.interval_s must be a finite positive number".to_string())
    } else if !is_good_interval(s.lte.interval_s) {
        Some("sensors.lte.interval_s must be a finite positive number".to_string())
    } else if !is_good_interval(s.system.interval_s) {
        Some("sensors.system.interval_s must be a finite positive number".to_string())
    } else if !s.lte.neighbor_expiry_s.is_finite_positive() {
        Some("sensors.lte.neighbor_expiry_s must be a finite positive number".to_string())
    } else {
        None
    }
}

fn mqtt_fault(m: &MqttConfig) -> (r: Option<String>)
    ensures
        text::opt_text(r) == mqtt_complaint(*m),
{
    if m.host.as_str().is_empty() {
        Some("mqtt.host must not be empty when MQTT is enabled".to_string())
    } else if m.port == 0 {
        Some("mqtt.port must be greater than 0".to_string())
    } else if m.env_prefix.as_str().is_empty() {
        Some("mqtt.env_prefix must not be empty when MQTT is enabled".to_string())
    } else if !m.telemetry_interval_s.is_finite_at_least_one() {
        Some("mqtt.telemetry_interval_s must be a finite number >= 1.0".to_string())
    } else {
        None
    }
}

fn fluentbit_host_fault(f: &FluentbitConfig) -> (r: Option<String>)
    ensures
        text::opt_text(r) == fluentbit_host_complaint(*f),
{
    if !is_plain(f.host.as_str()) {
        Some("fluentbit.host must be a non-empty value that does not start with '-'".to_string())
    } else if is_multiline(f.host.as_str()) {
        Some("fluentbit.host must not contain newline characters".to_string())
    } else {
        None
    }
}

fn fluentbit_output_fault(f: &FluentbitConfig) -> (r: Option<String>)
    ensures
        text::opt_text(r) == fluentbit_output_complaint(*f),
{
    if f.port == 0 {
        Some("fluentbit.port must be greater than 0".to_string())
    } else if f.config_path.as_str().is_empty() {
        Some("fluentbit.config_path must not be empty".to_string())
    } else if is_multiline(f.config_path.as_str()) {
        Some("fluentbit.config_path must not contain newline characters".to_string())
    } else {
        None
    }
}

fn mavlink_fault(m: &MavlinkConfig) -> (r: Option<String>)
    ensures
        text::opt_text(r) == mavlink_complaint(*m),
{
    if m.iteration_period_ms == 0 {
        return Some("mavlink.iteration_period_ms must be greater than 0".to_string());
    }
    if !same_text(m.protocol.as_str(), "tcpout") {
        return Some(protocol_message(quoted(m.protocol.as_str()).as_str()));
    }
    match sysids_fault(m) {
        Some(fault) => Some(fault),
        None => link_fault(m),
    }
}

fn host_fault(m: &MavlinkConfig) -> (r: Option<String>)
    ensures
        text::opt_text(r) == host_complaint(*m),
{
    if !is_plain(m.host.as_str()) {
        Some("mavlink.host must be a non-empty value that does not start with '-'".to_string())
    } else {
        None
    }
}

fn lines_fault(m: &MavlinkConfig, c: &CameraConfig) -> (r: Option<String>)
    ensures
        text::opt_text(r) == lines_complaint(*m, *c),
{
    let mut fault = line_fault("mavlink.host", m.host.as_str());
    if fault.is_none() {
        fault = line_fault("mavlink.gcs_ip", m.gcs_ip.as_str());
    }
    if fault.is_none() {
        fault = line_fault("mavlink.env_path", m.env_path.as_str());
    }
    if fault.is_none() {
        fault = line_fault("mavlink.fc.tty", m.fc.tty.as_str());
    }
    if fault.is_none() {
        fault = line_fault("camera.gcs_ip", c.gcs_ip.as_str());
    }
    if fault.is_none() {
        fault = line_fault("camera.env_path", c.env_path.as_str());
    }
    if fault.is_none() {
        fault = line_fault("camera.camera_type", c.camera_type.as_str());
    }
    if fault.is_none() {
        fault = line_fault("camera.device", c.device.as_str());
    }
    fault
}

fn paths_fault(g: &GeneralConfig) -> (r: Option<String>)
    ensures
        text::opt_text(r) == paths_complaint(*g),
{
    let mut fault = path_fault("general.ca_cert_path", &g.ca_cert_path);
    if fault.is_none() {
        fault = path_fault("general.client_cert_path", &g.client_cert_path);
    }
    if fault.is_none() {
        fault = path_fault("general.client_key_path", &g.client_key_path);
    }
    fault
}

fn certs_fault(g: &GeneralConfig) -> (r: Option<String>)
    ensures
        text::opt_text(r) == certs_complaint(*g),
{
    let mut fault = cert_fault("general.ca_cert_path", &g.ca_cert_path);
    if fault.is_none() {
        fault = cert_fault("general.client_cert_path", &g.client_cert_path);
    }
    if fault.is_none() {
        fault = cert_fault("general.client_key_path", &g.client_key_path);
    }
    fault
}

fn modem_and_host_fault(s: &SensorsConfig) -> (r: Option<String>)
    ensures
        text::opt_text(r) == modem_and_host_complaint(*s),
{
    let modem_type = s.lte.modem_type.as_str();
    if !same_text(modem_type, "dbus") && !same_text(modem_type, "fake") {
        return Some(modem_type_message(quoted(modem_type).as_str()));
    }
    if !is_plain(s.ping.host.as_str()) {
        return Some("sensors.ping.host must be a valid hostname or IP address".to_string());
    }
    None
}

fn fluentbit_fault(f: &FluentbitConfig, g: &GeneralConfig) -> (r: Option<String>)
    ensures
        text::opt_text(r) == fluentbit_complaint(*f, *g),
{
    let mut fault = fluentbit_host_fault(f);
    if fault.is_none() && f.tls {
        fault = certs_fault(g);
    }
    if fault.is_none() {
        fault = fluentbit_output_fault(f);
    }
    if fault.is_none() {
        if let Some(filters) = &f.systemd_filter {
            fault = filters_fault(filters);
        }
    }
    fault
}

impl Config {
    /// Validate configuration values that could cause runtime panics or incorrect behavior.
    pub fn validate(&self) -> (r: Result<(), ConfigError>)
        ensures
            r is Ok <==> self.valid(),
            r matches Err(e) ==> (e matches ConfigError::Validation(m) && self.complaint() == Some(
                m@,
            )),
    {
        proof {
            complaint_iff_invalid(*self);
        }
        let mut fault = mavlink_fault(&self.mavlink);
        if fault.is_none() {
            fault = camera_fault(&self.camera);
        }
        if fault.is_none() {
            fault = host_fault(&self.mavlink);
        }
        if fault.is_none() {
            fault = lines_fault(&self.mavlink, &self.camera);
        }
        if fault.is_none() {
            fault = general_fault(&self.general);
        }
        if fault.is_none() {
            fault = paths_fault(&self.general);
        }
        if fault.is_none() {
            fault = sensors_fault(&self.sensors);
        }
        if fault.is_none() {
            fault = modem_and_host_fault(&self.sensors);
        }
        if fault.is_none() && self.mqtt.enabled {
            fault = mqtt_fault(&self.mqtt);
        }
        if fault.is_none() && self.fluentbit.enabled {
            fault = fluentbit_fault(&self.fluentbit, &self.general);
        }
        match fault {
            Some(message) => Err(ConfigError::Validation(message)),
            None => Ok(()),
        }
    }
}

// ---------------------------------------------------------------------------
// What validation promises
// ---------------------------------------------------------------------------

/// A configuration that is accepted meets every rule.
pub proof fn accepted_configurations_meet_every_rule(c: &Config, r: Result<(), ConfigError>)
    requires
        call_ensures(Config::validate, (c,), r),
        r is Ok,
    ensures
        c.mavlink.iteration_period_ms > 0,
        c.mavlink.protocol@ == "tcpout"@,
        c.mavlink.sniffer_sysid != c.mavlink.bs_sysid,
        c.mavlink.gcs_sysid != c.mavlink.sniffer_sysid,
        c.mavlink.gcs_sysid != c.mavlink.bs_sysid,
        c.mavlink.self_sysid != 0 ==> c.mavlink.self_sysid != c.mavlink.sniffer_sysid,
        c.mavlink.self_sysid != 0 ==> c.mavlink.self_sysid != c.mavlink.bs_sysid,
        c.mavlink.self_sysid != 0 ==> c.mavlink.self_sysid != c.mavlink.gcs_sysid,
        c.mavlink.fc.baudrate > 0,
        c.mavlink.local_mavlink_port > 0,
        c.mavlink.remote_mavlink_port > 0,
        c.mavlink.host@.len() > 0 && c.mavlink.host@[0] != '-',
        !c.mavlink.host@.contains('\n') && !c.mavlink.host@.contains('\r'),
        c.mavlink.gcs_ip@.len() > 0 && c.mavlink.gcs_ip@[0] != '-',
        !c.mavlink.gcs_ip@.contains('\n') && !c.mavlink.gcs_ip@.contains('\r'),
        c.mavlink.env_path@.len() > 0,
        !c.mavlink.env_path@.contains('\n') && !c.mavlink.env_path@.contains('\r'),
        c.mavlink.fc.tty@.len() > 0,
        !c.mavlink.fc.tty@.contains('\n') && !c.mavlink.fc.tty@.contains('\r'),
        c.camera.env_path@.len() > 0,
        !c.camera.env_path@.contains('\n') && !c.camera.env_path@.contains('\r'),
        c.camera.gcs_ip@.len() > 0 && c.camera.gcs_ip@[0] != '-',
        !c.camera.gcs_ip@.contains('\n') && !c.camera.gcs_ip@.contains('\r'),
        c.camera.camera_type@.len() > 0,
        !c.camera.camera_type@.contains('\n') && !c.camera.camera_type@.contains('\r'),
        c.camera.device@.len() > 0,
        !c.camera.device@.contains('\n') && !c.camera.device@.contains('\r'),
        c.camera.width > 0,
        c.camera.height > 0,
        c.camera.framerate > 0,
        c.camera.bitrate > 0,
        c.camera.remote_video_port > 0,
        c.general.interface@.len() > 0 && c.general.interface@[0] != '-',
        forall|i: int|
            0 <= i < c.general.interface@.len() ==> {
                let x = #[trigger] c.general.interface@[i];
                'a' <= x <= 'z' || 'A' <= x <= 'Z' || '0' <= x <= '9' || x == '.' || x == '_'
                    || x == '-'
            },
        c.general.env_dir@.len() > 0,
        !c.general.env_dir@.contains('\n') && !c.general.env_dir@.contains('\r'),
        c.general.ca_cert_path matches Some(s) ==> s@.len() > 0 && !s@.contains('\n')
            && !s@.contains('\r'),
        c.general.client_cert_path matches Some(s) ==> s@.len() > 0 && !s@.contains('\n')
            && !s@.contains('\r'),
        c.general.client_key_path matches Some(s) ==> s@.len() > 0 && !s@.contains('\n')
            && !s@.contains('\r'),
        0 < c.sensors.default_interval_s.bits < 0x7ff0_0000_0000_0000,
        c.sensors.ping.interval_s matches Some(v) ==> 0 < v.bits < 0x7ff0_0000_0000_0000,
        c.sensors.lte.interval_s matches Some(v) ==> 0 < v.bits < 0x7ff0_0000_0000_0000,
        c.sensors.system.interval_s matches Some(v) ==> 0 < v.bits < 0x7ff0_0000_0000_0000,
        0 < c.sensors.lte.neighbor_expiry_s.bits < 0x7ff0_0000_0000_0000,
        c.sensors.lte.modem_type@ == "dbus"@ || c.sensors.lte.modem_type@ == "fake"@,
        c.sensors.ping.host@.len() > 0 && c.sensors.ping.host@[0] != '-',
        c.mqtt.enabled ==> c.mqtt.host@.len() > 0 && c.mqtt.port > 0
            && c.mqtt.env_prefix@.len() > 0,
        c.mqtt.enabled
            ==> 0x3ff0_0000_0000_0000 <= c.mqtt.telemetry_interval_s.bits < 0x7ff0_0000_0000_0000,
        c.fluentbit.enabled ==> c.fluentbit.host@.len() > 0 && c.fluentbit.host@[0] != '-'
            && !c.fluentbit.host@.contains('\n') && !c.fluentbit.host@.contains('\r'),
        c.fluentbit.enabled ==> c.fluentbit.port > 0,
        c.fluentbit.enabled ==> c.fluentbit.config_path@.len() > 0
            && !c.fluentbit.config_path@.contains('\n') && !c.fluentbit.config_path@.contains('\r'),
        c.fluentbit.enabled && c.fluentbit.tls ==> (c.general.ca_cert_path matches Some(s)
            && s@.len() > 0),
        c.fluentbit.enabled && c.fluentbit.tls ==> (c.general.client_cert_path matches Some(s)
            && s@.len() > 0),
        c.fluentbit.enabled && c.fluentbit.tls ==> (c.general.client_key_path matches Some(s)
            && s@.len() > 0),
        c.fluentbit.enabled && c.fluentbit.systemd_filter is Some ==> forall|i: int|
            0 <= i < (c.fluentbit.systemd_filter->0)@.len() ==> good_filter(
                #[trigger] (c.fluentbit.systemd_filter->0)@[i]@,
            ),
{
    number::finite_numbers_by_bits(c.sensors.default_interval_s);
    number::finite_numbers_by_bits(c.sensors.lte.neighbor_expiry_s);
    number::finite_numbers_by_bits(c.mqtt.telemetry_interval_s);
    if c.sensors.ping.interval_s is Some {
        number::finite_numbers_by_bits(c.sensors.ping.interval_s->0);
    }
    if c.sensors.lte.interval_s is Some {
        number::finite_numbers_by_bits(c.sensors.lte.interval_s->0);
    }
    if c.sensors.system.interval_s is Some {
        number::finite_numbers_by_bits(c.sensors.system.interval_s->0);
    }
    lemma_interface_chars(c.general.interface@);
}

/// A configuration that meets every rule is accepted.
pub proof fn configurations_that_meet_every_rule_are_accepted(
    c: &Config,
    r: Result<(), ConfigError>,
)
    requires
        call_ensures(Config::validate, (c,), r),
        c.mavlink.iteration_period_ms > 0,
        c.mavlink.protocol@ == "tcpout"@,
        c.mavlink.sniffer_sysid != c.mavlink.bs_sysid,
        c.mavlink.gcs_sysid != c.mavlink.sniffer_sysid,
        c.mavlink.gcs_sysid != c.mavlink.bs_sysid,
        c.mavlink.self_sysid != 0 ==> c.mavlink.self_sysid != c.mavlink.sniffer_sysid,
        c.mavlink.self_sysid != 0 ==> c.mavlink.self_sysid != c.mavlink.bs_sysid,
        c.mavlink.self_sysid != 0 ==> c.mavlink.self_sysid != c.mavlink.gcs_sysid,
        c.mavlink.fc.baudrate > 0,
        c.mavlink.local_mavlink_port > 0,
        c.mavlink.remote_mavlink_port > 0,
        c.mavlink.host@.len() > 0 && c.mavlink.host@[0] != '-',
        !c.mavlink.host@.contains('\n') && !c.mavlink.host@.contains('\r'),
        c.mavlink.gcs_ip@.len() > 0 && c.mavlink.gcs_ip@[0] != '-',
        !c.mavlink.gcs_ip@.contains('\n') && !c.mavlink.gcs_ip@.contains('\r'),
        c.mavlink.env_path@.len() > 0,
        !c.mavlink.env_path@.contains('\n') && !c.mavlink.env_path@.contains('\r'),
        c.mavlink.fc.tty@.len() > 0,
        !c.mavlink.fc.tty@.contains('\n') && !c.mavlink.fc.tty@.contains('\r'),
        c.camera.env_path@.len() > 0,
        !c.camera.env_path@.contains('\n') && !c.camera.env_path@.contains('\r'),
        c.camera.gcs_ip@.len() > 0 && c.camera.gcs_ip@[0] != '-',
        !c.camera.gcs_ip@.contains('\n') && !c.camera.gcs_ip@.contains('\r'),
        c.camera.camera_type@.len() > 0,
        !c.camera.camera_type@.contains('\n') && !c.camera.camera_type@.contains('\r'),
        c.camera.device@.len() > 0,
        !c.camera.device@.contains('\n') && !c.camera.device@.contains('\r'),
        c.camera.width > 0,
        c.camera.height > 0,
        c.camera.framerate > 0,
        c.camera.bitrate > 0,
        c.camera.remote_video_port > 0,
        c.general.interface@.len() > 0 && c.general.interface@[0] != '-',
        forall|i: int|
            0 <= i < c.general.interface@.len() ==> {
                let x = #[trigger] c.general.interface@[i];
                'a' <= x <= 'z' || 'A' <= x <= 'Z' || '0' <= x <= '9' || x == '.' || x == '_'
                    || x == '-'
            },
        c.general.env_dir@.len() > 0,
        !c.general.env_dir@.contains('\n') && !c.general.env_dir@.contains('\r'),
        c.general.ca_cert_path matches Some(s) ==> s@.len() > 0 && !s@.contains('\n')
            && !s@.contains('\r'),
        c.general.client_cert_path matches Some(s) ==> s@.len() > 0 && !s@.contains('\n')
            && !s@.contains('\r'),
        c.general.client_key_path matches Some(s) ==> s@.len() > 0 && !s@.contains('\n')
            && !s@.contains('\r'),
        0 < c.sensors.default_interval_s.bits < 0x7ff0_0000_0000_0000,
        c.sensors.ping.interval_s matches Some(v) ==> 0 < v.bits < 0x7ff0_0000_0000_0000,
        c.sensors.lte.interval_s matches Some(v) ==> 0 < v.bits < 0x7ff0_0000_0000_0000,
        c.sensors.system.interval_s matches Some(v) ==> 0 < v.bits < 0x7ff0_0000_0000_0000,
        0 < c.sensors.lte.neighbor_expiry_s.bits < 0x7ff0_0000_0000_0000,
        c.sensors.lte.modem_type@ == "dbus"@ || c.sensors.lte.modem_type@ == "fake"@,
        c.sensors.ping.host@.len() > 0 && c.sensors.ping.host@[0] != '-',
        c.mqtt.enabled ==> c.mqtt.host@.len() > 0 && c.mqtt.port > 0
            && c.mqtt.env_prefix@.len() > 0,
        c.mqtt.enabled
            ==> 0x3ff0_0000_0000_0000 <= c.mqtt.telemetry_interval_s.bits < 0x7ff0_0000_0000_0000,
        c.fluentbit.enabled ==> c.fluentbit.host@.len() > 0 && c.fluentbit.host@[0] != '-'
            && !c.fluentbit.host@.contains('\n') && !c.fluentbit.host@.contains('\r'),
        c.fluentbit.enabled ==> c.fluentbit.port > 0,
        c.fluentbit.enabled ==> c.fluentbit.config_path@.len() > 0
            && !c.fluentbit.config_path@.contains('\n') && !c.fluentbit.config_path@.contains('\r'),
        c.fluentbit.enabled && c.fluentbit.tls ==> (c.general.ca_cert_path matches Some(s)
            && s@.len() > 0),
        c.fluentbit.enabled && c.fluentbit.tls ==> (c.general.client_cert_path matches Some(s)
            && s@.len() > 0),
        c.fluentbit.enabled && c.fluentbit.tls ==> (c.general.client_key_path matches Some(s)
            && s@.len() > 0),
        c.fluentbit.enabled && c.fluentbit.systemd_filter is Some ==> forall|i: int|
            0 <= i < (c.fluentbit.systemd_filter->0)@.len() ==> good_filter(
                #[trigger] (c.fluentbit.systemd_filter->0)@[i]@,
            ),
    ensures
        r is Ok,
{
    number::finite_numbers_by_bits(c.sensors.default_interval_s);
    number::finite_numbers_by_bits(c.sensors.lte.neighbor_expiry_s);
    number::finite_numbers_by_bits(c.mqtt.telemetry_interval_s);
    if c.sensors.ping.interval_s is Some {
        number::finite_numbers_by_bits(c.sensors.ping.interval_s->0);
    }
    if c.sensors.lte.interval_s is Some {
        number::finite_numbers_by_bits(c.sensors.lte.interval_s->0);
    }
    if c.sensors.system.interval_s is Some {
        number::finite_numbers_by_bits(c.sensors.system.interval_s->0);
    }
    lemma_interface_chars(c.general.interface@);
}

proof fn lemma_interface_chars(s: Seq<char>)
    ensures
        interface_chars(s) <==> forall|i: int|
            0 <= i < s.len() ==> {
                let x = #[trigger] s[i];
                'a' <= x <= 'z' || 'A' <= x <= 'Z' || '0' <= x <= '9' || x == '.' || x == '_' || x
                    == '-'
            },
{
    if forall|i: int|
        0 <= i < s.len() ==> {
            let x = #[trigger] s[i];
            'a' <= x <= 'z' || 'A' <= x <= 'Z' || '0' <= x <= '9' || x == '.' || x == '_' || x
                == '-'
        } {
        assert forall|i: int| 0 <= i < s.len() implies interface_char(#[trigger] s[i]) by {}
    }
    if interface_chars(s) {
        assert forall|i: int| 0 <= i < s.len() implies {
            let x = #[trigger] s[i];
            'a' <= x <= 'z' || 'A' <= x <= 'Z' || '0' <= x <= '9' || x == '.' || x == '_' || x
                == '-'
        } by {
            assert(interface_char(s[i]));
        }
    }
}

/// The message is about an entry of the list, and tells what is wrong with it.
pub open spec fn names_a_bad_filter(f: Seq<String>, m: Seq<char>) -> bool {
    exists|i: int|
        0 <= i < f.len() && #[trigger] tells_filter_fault(f[i]@, m)
}

/// The message tells what is wrong with the entry.
pub open spec fn tells_filter_fault(entry: Seq<char>, m: Seq<char>) -> bool {
    let head = "fluentbit.systemd_filter entry "@ + text::debug_text(entry);
    ||| has_newline(entry) && m == head + " must not contain newline characters"@
    ||| !entry.contains('=') && m == head + " must be KEY=VALUE"@
    ||| entry.contains('=') && m == head + " key must match [A-Z_][A-Z0-9_]*"@
}

proof fn lemma_bad_filter(f: Seq<String>)
    ensures
        filters_complaint(f) matches Some(m) ==> names_a_bad_filter(f, m),
    decreases f.len(),
{
    if f.len() > 0 {
        let init = f.drop_last();
        lemma_bad_filter(init);
        if filters_complaint(init) is Some {
            let m = filters_complaint(init)->0;
            let i = choose|i: int| 0 <= i < init.len()
                && #[trigger] tells_filter_fault(init[i]@, m);
            assert(init[i] == f[i]);
            assert(tells_filter_fault(f[i]@, m));
        } else if filters_complaint(f) is Some {
            assert(tells_filter_fault(f[f.len() - 1]@, filters_complaint(f)->0));
        }
    }
}

/// `m` is the message about the first rule that is broken, in the order in which they are
/// checked.
pub open spec fn tells_first_broken_rule(c: Config, m: Seq<char>) -> bool {
    if c.mavlink.iteration_period_ms == 0 {
        m == "mavlink.iteration_period_ms must be greater than 0"@
    } else if c.mavlink.protocol@ != "tcpout"@ {
        m == "mavlink.protocol must be one of [\"tcpout\"], got "@
            + text::debug_text(c.mavlink.protocol@)
    } else if c.mavlink.self_sysid != 0 && c.mavlink.self_sysid == c.mavlink.sniffer_sysid {
        m == "mavlink.self_sysid must differ from sniffer_sysid"@
    } else if c.mavlink.self_sysid != 0 && c.mavlink.self_sysid == c.mavlink.bs_sysid {
        m == "mavlink.self_sysid must differ from bs_sysid"@
    } else if c.mavlink.sniffer_sysid == c.mavlink.bs_sysid {
        m == "mavlink.sniffer_sysid must differ from bs_sysid"@
    } else if c.mavlink.self_sysid != 0 && c.mavlink.self_sysid == c.mavlink.gcs_sysid {
        m == "mavlink.self_sysid must differ from gcs_sysid"@
    } else if c.mavlink.gcs_sysid == c.mavlink.sniffer_sysid {
        m == "mavlink.gcs_sysid must differ from sniffer_sysid"@
    } else if c.mavlink.gcs_sysid == c.mavlink.bs_sysid {
        m == "mavlink.gcs_sysid must differ from bs_sysid"@
    } else if c.mavlink.env_path@.len() == 0 {
        m == "mavlink.env_path must not be empty"@
    } else if c.mavlink.gcs_ip@.len() == 0 || c.mavlink.gcs_ip@[0] == '-' {
        m == "mavlink.gcs_ip must be a non-empty value that does not start with '-'"@
    } else if c.mavlink.fc.tty@.len() == 0 {
        m == "mavlink.fc.tty must not be empty"@
    } else if c.mavlink.fc.baudrate == 0 {
        m == "mavlink.fc.baudrate must be greater than 0"@
    } else if c.mavlink.local_mavlink_port == 0 {
        m == "mavlink.local_mavlink_port must be greater than 0"@
    } else if c.mavlink.remote_mavlink_port == 0 {
        m == "mavlink.remote_mavlink_port must be greater than 0"@
    } else if c.camera.env_path@.len() == 0 {
        m == "camera.env_path must not be empty"@
    } else if c.camera.gcs_ip@.len() == 0 || c.camera.gcs_ip@[0] == '-' {
        m == "camera.gcs_ip must be a non-empty value that does not start with '-'"@
    } else if c.camera.camera_type@.len() == 0 {
        m == "camera.camera_type must not be empty"@
    } else if c.camera.device@.len() == 0 {
        m == "camera.device must not be empty"@
    } else if c.camera.width == 0 {
        m == "camera.width must be greater than 0"@
    } else if c.camera.height == 0 {
        m == "camera.height must be greater than 0"@
    } else if c.camera.framerate == 0 {
        m == "camera.framerate must be greater than 0"@
    } else if c.camera.bitrate == 0 {
        m == "camera.bitrate must be greater than 0"@
    } else if c.camera.remote_video_port == 0 {
        m == "camera.remote_video_port must be greater than 0"@
    } else if c.mavlink.host@.len() == 0 || c.mavlink.host@[0] == '-' {
        m == "mavlink.host must be a non-empty value that does not start with '-'"@
    } else if c.mavlink.host@.contains('\n') || c.mavlink.host@.contains('\r') {
        m == "mavlink.host"@ + " must not contain newline characters"@
    } else if c.mavlink.gcs_ip@.contains('\n') || c.mavlink.gcs_ip@.contains('\r') {
        m == "mavlink.gcs_ip"@ + " must not contain newline characters"@
    } else if c.mavlink.env_path@.contains('\n') || c.mavlink.env_path@.contains('\r') {
        m == "mavlink.env_path"@ + " must not contain newline characters"@
    } else if c.mavlink.fc.tty@.contains('\n') || c.mavlink.fc.tty@.contains('\r') {
        m == "mavlink.fc.tty"@ + " must not contain newline characters"@
    } else if c.camera.gcs_ip@.contains('\n') || c.camera.gcs_ip@.contains('\r') {
        m == "camera.gcs_ip"@ + " must not contain newline characters"@
    } else if c.camera.env_path@.contains('\n') || c.camera.env_path@.contains('\r') {
        m == "camera.env_path"@ + " must not contain newline characters"@
    } else if c.camera.camera_type@.contains('\n') || c.camera.camera_type@.contains('\r') {
        m == "camera.camera_type"@ + " must not contain newline characters"@
    } else if c.camera.device@.contains('\n') || c.camera.device@.contains('\r') {
        m == "camera.device"@ + " must not contain newline characters"@
    } else if c.general.interface@.len() == 0 {
        m == "general.interface must not be empty"@
    } else if c.general.interface@[0] == '-' {
        m == "general.interface must not start with '-'"@
    } else if !interface_chars(c.general.interface@) {
        m == "general.interface must contain only alphanumeric, '.', '_', or '-' characters"@
    } else if c.general.env_dir@.len() == 0 {
        m == "general.env_dir must not be empty"@
    } else if c.general.env_dir@.contains('\n') || c.general.env_dir@.contains('\r') {
        m == "general.env_dir must not contain newline characters"@
    } else if c.general.ca_cert_path is Some && (c.general.ca_cert_path->0)@.len() == 0 {
        m == "general.ca_cert_path"@ + " must not be empty when set"@
    } else if c.general.ca_cert_path is Some && has_newline((c.general.ca_cert_path->0)@) {
        m == "general.ca_cert_path"@ + " must not contain newline characters"@
    } else if c.general.client_cert_path is Some && (c.general.client_cert_path->0)@.len() == 0 {
        m == "general.client_cert_path"@ + " must not be empty when set"@
    } else if c.general.client_cert_path is Some && has_newline((c.general.client_cert_path->0)@) {
        m == "general.client_cert_path"@ + " must not contain newline characters"@
    } else if c.general.client_key_path is Some && (c.general.client_key_path->0)@.len() == 0 {
        m == "general.client_key_path"@ + " must not be empty when set"@
    } else if c.general.client_key_path is Some && has_newline((c.general.client_key_path->0)@) {
        m == "general.client_key_path"@ + " must not contain newline characters"@
    } else if !(0 < c.sensors.default_interval_s.bits < 0x7ff0_0000_0000_0000) {
        m == "sensors.default_interval_s must be a finite positive number"@
    } else if c.sensors.ping.interval_s is Some
        && !(0 < (c.sensors.ping.interval_s->0).bits < 0x7ff0_0000_0000_0000) {
        m == "sensors.ping.interval_s must be a finite positive number"@
    } else if c.sensors.lte.interval_s is Some
        && !(0 < (c.sensors.lte.interval_s->0).bits < 0x7ff0_0000_0000_0000) {
        m == "sensors.lte.interval_s must be a finite positive number"@
    } else if c.sensors.system.interval_s is Some
        && !(0 < (c.sensors.system.interval_s->0).bits < 0x7ff0_0000_0000_0000) {
        m == "sensors.system.interval_s must be a finite positive number"@
    } else if !(0 < c.sensors.lte.neighbor_expiry_s.bits < 0x7ff0_0000_0000_0000) {
        m == "sensors.lte.neighbor_expiry_s must be a finite positive number"@
    } else if c.sensors.lte.modem_type@ != "dbus"@ && c.sensors.lte.modem_type@ != "fake"@ {
        m == "sensors.lte.modem_type must be \"dbus\" or \"fake\", got "@
            + text::debug_text(c.sensors.lte.modem_type@)
    } else if c.sensors.ping.host@.len() == 0 || c.sensors.ping.host@[0] == '-' {
        m == "sensors.ping.host must be a valid hostname or IP address"@
    } else if c.mqtt.enabled && c.mqtt.host@.len() == 0 {
        m == "mqtt.host must not be empty when MQTT is enabled"@
    } else if c.mqtt.enabled && c.mqtt.port == 0 {
        m == "mqtt.port must be greater than 0"@
    } else if c.mqtt.enabled && c.mqtt.env_prefix@.len() == 0 {
        m == "mqtt.env_prefix must not be empty when MQTT is enabled"@
    } else if c.mqtt.enabled
        && !(0x3ff0_0000_0000_0000 <= c.mqtt.telemetry_interval_s.bits < 0x7ff0_0000_0000_0000) {
        m == "mqtt.telemetry_interval_s must be a finite number >= 1.0"@
    } else if c.fluentbit.host@.len() == 0 || c.fluentbit.host@[0] == '-' {
        m == "fluentbit.host must be a non-empty value that does not start with '-'"@
    } else if has_newline(c.fluentbit.host@) {
        m == "fluentbit.host must not contain newline characters"@
    } else if c.fluentbit.tls
        && (c.general.ca_cert_path is None || (c.general.ca_cert_path->0)@.len() == 0) {
        m == "general.ca_cert_path"@ + " must be set when fluentbit.tls = true"@
    } else if c.fluentbit.tls
        && (c.general.client_cert_path is None || (c.general.client_cert_path->0)@.len() == 0) {
        m == "general.client_cert_path"@ + " must be set when fluentbit.tls = true"@
    } else if c.fluentbit.tls
        && (c.general.client_key_path is None || (c.general.client_key_path->0)@.len() == 0) {
        m == "general.client_key_path"@ + " must be set when fluentbit.tls = true"@
    } else if c.fluentbit.port == 0 {
        m == "fluentbit.port must be greater than 0"@
    } else if c.fluentbit.config_path@.len() == 0 {
        m == "fluentbit.config_path must not be empty"@
    } else if has_newline(c.fluentbit.config_path@) {
        m == "fluentbit.config_path must not contain newline characters"@
    } else {
        c.fluentbit.systemd_filter is Some && names_a_bad_filter(
            (c.fluentbit.systemd_filter->0)@,
            m,
        )
    }
}

/// The message of a refusal is about the first setting that is at fault, in the order of
/// the rules, and tells what it must be.
pub proof fn refusals_tell_the_first_broken_rule(c: &Config, r: Result<(), ConfigError>)
    requires
        call_ensures(Config::validate, (c,), r),
        r is Err,
    ensures
        r matches Err(ConfigError::Validation(m)) && tells_first_broken_rule(*c, m@),
{
    number::finite_numbers_by_bits(c.sensors.default_interval_s);
    number::finite_numbers_by_bits(c.sensors.lte.neighbor_expiry_s);
    number::finite_numbers_by_bits(c.mqtt.telemetry_interval_s);
    if c.sensors.ping.interval_s is Some {
        number::finite_numbers_by_bits(c.sensors.ping.interval_s->0);
    }
    if c.sensors.lte.interval_s is Some {
        number::finite_numbers_by_bits(c.sensors.lte.interval_s->0);
    }
    if c.sensors.system.interval_s is Some {
        number::finite_numbers_by_bits(c.sensors.system.interval_s->0);
    }
    if c.fluentbit.systemd_filter is Some {
        lemma_bad_filter((c.fluentbit.systemd_filter->0)@);
    }
}

/// A filter entry is a key, an equals sign and a value on one line. The key begins with a
/// capital letter or an underscore, and goes on with capital letters, digits and
/// underscores up to the first equals sign.
pub proof fn filters_are_keys_and_values(entry: &str, p: int, r: Option<FilterFault>)
    requires
        call_ensures(check_filter, (entry,), r),
    ensures
        entry@.contains('\n') || entry@.contains('\r') ==> r == Some(FilterFault::Newline),
        r == Some(FilterFault::NoValue) ==> !entry@.contains('='),
        !entry@.contains('=') ==> r is Some,
        0 <= p < entry@.len() && entry@[p] == '=' && !entry@.contains('\n') && !entry@.contains(
            '\r',
        ) && (forall|j: int| 0 <= j < p ==> #[trigger] entry@[j] != '=') ==> (r is None <==> p > 0
            && ('A' <= entry@[0] <= 'Z' || entry@[0] == '_') && forall|j: int|
            0 <= j < p ==> 'A' <= #[trigger] entry@[j] <= 'Z' || '0' <= entry@[j] <= '9'
                || entry@[j] == '_'),
{
    let s = entry@;
    if 0 <= p < s.len() && s[p] == '=' && (forall|j: int| 0 <= j < p ==> #[trigger] s[j] != '=') {
        text::first_piece_ends_at_the_separator(s, '=', p);
        let k = filter_key(s);
        assert(k == s.take(p));
        assert(s.contains('='));
        if key_shape(k) {
            assert forall|j: int| 0 <= j < p implies 'A' <= #[trigger] s[j] <= 'Z' || '0' <= s[j]
                <= '9' || s[j] == '_' by {
                assert(k[j] == s[j]);
            }
            assert(k[0] == s[0]);
        } else if p > 0 && ('A' <= s[0] <= 'Z' || s[0] == '_') && forall|j: int|
            0 <= j < p ==> 'A' <= #[trigger] s[j] <= 'Z' || '0' <= s[j] <= '9' || s[j] == '_' {
            assert(k[0] == s[0]);
            assert forall|i: int| 0 <= i < k.len() implies text::is_upper(#[trigger] k[i])
                || text::is_digit(k[i]) || k[i] == '_' by {
                assert(k[i] == s[i]);
            }
        }
    }
}

/// Of several faults the one in the earliest section is told: what is wrong with the
/// MAVLink and camera settings, then with the general ones, the sensors', and those of MQTT
/// and Fluent Bit. What stands in later sections does not change the message.
pub proof fn earlier_sections_are_reported_first(
    a: &Config,
    b: &Config,
    ra: Result<(), ConfigError>,
    rb: Result<(), ConfigError>,
)
    requires
        call_ensures(Config::validate, (a,), ra),
        call_ensures(Config::validate, (b,), rb),
        rb is Err,
        a.mavlink == b.mavlink,
        a.camera == b.camera,
        ({
            ||| b.general.valid() && b.sensors.valid() && !b.mqtt.enabled && !b.fluentbit.enabled
            ||| a.general == b.general && b.sensors.valid() && !b.mqtt.enabled
                && !b.fluentbit.enabled
            ||| a.general == b.general && a.sensors == b.sensors && !b.mqtt.enabled
                && !b.fluentbit.enabled
            ||| a.general == b.general && a.sensors == b.sensors && a.mqtt == b.mqtt
                && !b.fluentbit.enabled
        }),
    ensures
        ra is Err,
        ra->Err_0 is Validation && rb->Err_0 is Validation,
        (ra->Err_0->Validation_0)@ == (rb->Err_0->Validation_0)@,
{
    complaint_iff_invalid(*a);
    complaint_iff_invalid(*b);
    assert(general_complaint(b.general) is None && paths_complaint(b.general) is None
        <==> b.general.valid());
    assert(sensors_complaint(b.sensors) is None && modem_and_host_complaint(b.sensors) is None
        <==> b.sensors.valid());
}

} // verus!
