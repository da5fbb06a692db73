use std::collections::{HashMap, HashSet};

use chrono::{TimeZone, Utc};
use unitctl::config::{
    CameraConfig, Config, FcConfig, FluentbitConfig, GeneralConfig, LteSensorConfig, MavlinkConfig,
    MqttConfig, PingSensorConfig, SensorsConfig, SystemSensorConfig,
};
use unitctl::number::Binary64;
use unitctl::messages::commands::{
    CommandEnvelope, CommandPayload, GetConfigPayload, ModemCommandPayload, SafeConfig,
    MAX_TTL_SEC,
};
use unitctl::messages::telemetry::{
    LteNeighborCell, LteSignalQuality, LteTelemetry, PingTelemetry,
};
use unitctl::sensors::lte::LteReading;
use unitctl::time::{Duration, Timestamp, FIRST_SECOND, LAST_SECOND};

/// The number of seconds as the configuration holds it.
fn secs(x: f64) -> Binary64 {
    Binary64 { bits: x.to_bits() }
}

fn test_config() -> Config {
    Config {
        general: GeneralConfig {
            debug: false,
            interface: "eth0".to_string(),
            env_dir: "/var/run/unitctl".to_string(),
            ca_cert_path: Some("/etc/unitctl/certs/ca.pem".to_string()),
            client_cert_path: Some("/etc/unitctl/certs/client.pem".to_string()),
            client_key_path: Some("/etc/unitctl/certs/client.key".to_string()),
        },
        mavlink: MavlinkConfig {
            protocol: "tcpout".to_string(),
            host: "127.0.0.1".to_string(),
            local_mavlink_port: 5760,
            remote_mavlink_port: 5760,
            self_sysid: 1,
            self_compid: 10,
            gcs_sysid: 255,
            gcs_compid: 190,
            sniffer_sysid: 199,
            bs_sysid: 200,
            iteration_period_ms: 10,
            gcs_ip: "10.101.0.1".to_string(),
            env_path: "/etc/mavlink.env".to_string(),
            fc: FcConfig { tty: "/dev/ttyFC".to_string(), baudrate: 57600 },
        },
        sensors: SensorsConfig {
            default_interval_s: secs(5.0),
            ping: PingSensorConfig {
                enabled: true,
                interval_s: None,
                host: "10.45.0.2".to_string(),
            },
            lte: LteSensorConfig {
                enabled: true,
                interval_s: None,
                neighbor_expiry_s: secs(30.0),
                modem_type: "dbus".to_string(),
            },
            system: SystemSensorConfig { enabled: true, interval_s: None },
        },
        camera: CameraConfig {
            gcs_ip: "10.101.0.1".to_string(),
            env_path: "/etc/camera.env".to_string(),
            remote_video_port: 5600,
            width: 640,
            height: 360,
            framerate: 60,
            bitrate: 1664000,
            flip: 0,
            camera_type: "rpi".to_string(),
            device: "/dev/video1".to_string(),
        },
        mqtt: MqttConfig {
            enabled: false,
            host: "mqtt.example.com".to_string(),
            port: 8883,
            env_prefix: "test".to_string(),
            telemetry_interval_s: secs(1.0),
        },
        fluentbit: FluentbitConfig {
            enabled: false,
            host: "logs.example.com".to_string(),
            port: 24224,
            tls: true,
            tls_verify: true,
            config_path: "/etc/fluent-bit.conf".to_string(),
            systemd_filter: None,
        },
    }
}

fn at(y: i32, mo: u32, d: u32, h: u32, mi: u32, s: u32) -> Timestamp {
    let t = Utc.with_ymd_and_hms(y, mo, d, h, mi, s).unwrap();
    Timestamp { secs: t.timestamp(), nanos: t.timestamp_subsec_nanos() }
}

// SafeConfig

#[test]
fn safe_config_redacts_cert_paths() {
    let config = test_config();
    let safe = SafeConfig::from(&config);

    assert_eq!(safe.general.ca_cert_path.as_deref(), Some("***"));
    assert_eq!(safe.general.client_cert_path.as_deref(), Some("***"));
    assert_eq!(safe.general.client_key_path.as_deref(), Some("***"));
    // Non-sensitive fields preserved
    assert_eq!(safe.mqtt.host, config.mqtt.host);
    assert_eq!(safe.mqtt.port, config.mqtt.port);
    assert_eq!(safe.mqtt.enabled, config.mqtt.enabled);
}

#[test]
fn test_safe_config_passes_through_none_cert_paths() {
    let mut cfg = test_config();
    cfg.general.ca_cert_path = None;
    cfg.general.client_cert_path = None;
    cfg.general.client_key_path = None;
    let safe: SafeConfig = (&cfg).into();
    assert!(safe.general.ca_cert_path.is_none());
    assert!(safe.general.client_cert_path.is_none());
    assert!(safe.general.client_key_path.is_none());
}

#[test]
fn test_safe_config_includes_fluentbit_unredacted() {
    let mut cfg = test_config();
    cfg.fluentbit.enabled = true;
    cfg.fluentbit.host = "central.example.com".to_string();
    let safe: SafeConfig = (&cfg).into();
    assert!(safe.fluentbit.enabled);
    assert_eq!(safe.fluentbit.host, "central.example.com");
}

#[test]
fn redacted_configurations_do_not_tell_paths_apart() {
    let a = test_config();
    let mut b = test_config();
    b.general.ca_cert_path = Some("/elsewhere/ca.pem".to_string());
    b.general.client_key_path = Some("/elsewhere/key.pem".to_string());
    assert_eq!(format!("{:?}", SafeConfig::from(&a)), format!("{:?}", SafeConfig::from(&b)));
}

// CommandEnvelope TTL expiry

fn envelope(ttl_sec: u64, issued_at: Timestamp) -> CommandEnvelope {
    CommandEnvelope {
        uuid: "test".to_string(),
        issued_at,
        ttl_sec,
        payload: CommandPayload::GetConfig(GetConfigPayload {}),
    }
}

#[test]
fn envelope_not_expired() {
    let env = envelope(300, Timestamp::now());
    assert!(!env.is_expired());
}

#[test]
fn envelope_expired() {
    let env = envelope(60, at(2020, 1, 1, 0, 0, 0));
    assert!(env.is_expired());
}

#[test]
fn envelope_expired_at_specific_time() {
    let env = envelope(60, at(2026, 3, 23, 10, 0, 0));
    // 30 seconds later — not expired
    assert!(!env.is_expired_at(at(2026, 3, 23, 10, 0, 30)));
    // 61 seconds later — expired
    assert!(env.is_expired_at(at(2026, 3, 23, 10, 1, 1)));
}

#[test]
fn envelope_max_ttl_does_not_panic() {
    let env = envelope(u64::MAX, Timestamp::now());
    // Should not panic from overflow; treated as very long TTL
    assert!(!env.is_expired());
}

#[test]
fn envelope_zero_ttl_expires_immediately() {
    let env = envelope(0, at(2026, 3, 23, 10, 0, 0));
    assert!(env.is_expired_at(at(2026, 3, 23, 10, 0, 1)));
}

#[test]
fn test_ttl_not_expired() {
    let envelope = envelope(300, Timestamp::now());
    assert!(!envelope.is_expired());
}

#[test]
fn test_ttl_expired() {
    let envelope = envelope(60, at(2020, 1, 1, 0, 0, 0));
    assert!(envelope.is_expired());
}

#[test]
fn test_ttl_expired_at_specific_time() {
    let envelope = envelope(60, at(2026, 3, 23, 10, 0, 0));

    // 30 seconds later — not expired
    assert!(!envelope.is_expired_at(at(2026, 3, 23, 10, 0, 30)));

    // 61 seconds later — expired
    assert!(envelope.is_expired_at(at(2026, 3, 23, 10, 1, 1)));
}

#[test]
fn test_ttl_zero_expires_immediately() {
    let envelope = envelope(0, at(2026, 3, 23, 10, 0, 0));
    assert!(envelope.is_expired_at(at(2026, 3, 23, 10, 0, 1)));
}

#[test]
fn last_moment_of_life_counts() {
    let env = envelope(60, at(2026, 3, 23, 10, 0, 0));
    let end = at(2026, 3, 23, 10, 1, 0);
    assert!(!env.is_expired_at(end));
    assert!(env.is_expired_at(Timestamp { secs: end.secs, nanos: 1 }));
    assert!(!env.is_expired_at(env.issued_at));
}

#[test]
fn time_to_live_counts_up_to_ten_years() {
    let issued = at(2026, 1, 1, 0, 0, 0);
    let env = envelope(u64::MAX, issued);
    let end = Timestamp { secs: issued.secs + MAX_TTL_SEC as i64, nanos: 0 };
    assert!(!env.is_expired_at(end));
    assert!(env.is_expired_at(Timestamp { secs: end.secs + 1, nanos: 0 }));
    let shorter = envelope(60, issued);
    assert!(shorter.is_expired_at(Timestamp { secs: end.secs + 1, nanos: 0 }));
}

#[test]
fn time_to_live_agrees_with_the_calendar() {
    for (secs, nanos, n) in [
        (1_774_259_999i64, 999_999_999u32, 1u32),
        (1_483_228_799, 1_500_000_000, 0),
        (1_483_228_799, 1_500_000_000, 1),
        (1_483_228_799, 1_500_000_000, 60),
        (-1, 7, 2),
    ] {
        let t = chrono::DateTime::from_timestamp(secs, nanos).unwrap();
        let expected = t + chrono::Duration::seconds(n as i64);
        let r = Timestamp { secs, nanos }.plus_seconds(n);
        assert_eq!(
            (r.secs, r.nanos),
            (expected.timestamp(), expected.timestamp_subsec_nanos())
        );
    }
    assert_eq!(chrono::DateTime::<Utc>::MAX_UTC.timestamp(), LAST_SECOND);
    assert_eq!(chrono::DateTime::<Utc>::MIN_UTC.timestamp(), FIRST_SECOND);
}

#[test]
fn end_of_life_past_the_calendar_is_recognised() {
    let late = Timestamp { secs: LAST_SECOND - 10, nanos: 0 };
    assert!(envelope(10, late).has_expiry_in_range());
    assert!(!envelope(11, late).has_expiry_in_range());
}

#[test]
fn test_command_envelope_uses_typed_payload() {
    let env = CommandEnvelope {
        uuid: "test".to_string(),
        issued_at: Timestamp::now(),
        ttl_sec: 300,
        payload: CommandPayload::ModemCommands(ModemCommandPayload {
            command: "AT+CSQ".to_string(),
            timeout_ms: None,
        }),
    };
    assert!(!env.is_expired());
    assert!(matches!(&env.payload, CommandPayload::ModemCommands(p) if p.command == "AT+CSQ"));
}

#[test]
fn clock_reads_the_present() {
    let before = Utc::now().timestamp();
    let now = Timestamp::now();
    let after = Utc::now().timestamp();
    assert!(before <= now.secs && now.secs <= after);
    assert!(now.nanos < 1_000_000_000);
}

#[test]
fn spans_of_time() {
    assert_eq!(Duration::from_secs(2).as_nanos(), 2_000_000_000);
    assert_eq!(Duration::from_millis(1500), Duration { secs: 1, nanos: 500_000_000 });
    assert_eq!(Duration { secs: u64::MAX, nanos: 7 }.as_nanos(), 18446744073709551615000000007);
}

// Telemetry

#[test]
fn from_lte_reading_converts_correctly() {
    let mut neighbors = HashMap::new();
    neighbors.insert(
        43,
        LteNeighborCell {
            pcid: 43,
            rsrp: -90,
            rsrq: -12,
            rssi: -65,
            rssnr: 10,
            earfcn: 1300,
            last_seen: 1000,
        },
    );
    neighbors.insert(
        44,
        LteNeighborCell {
            pcid: 44,
            rsrp: -95,
            rsrq: -14,
            rssi: -70,
            rssnr: 8,
            earfcn: 1301,
            last_seen: 2000,
        },
    );
    let reading = LteReading {
        imsi: "310260123456789".to_string(),
        signal: LteSignalQuality {
            rsrq: -10,
            rsrp: -85,
            rssi: -60,
            rssnr: 15,
            earfcn: 1300,
            tx_power: 23,
            pcid: 42,
        },
        neighbors,
    };
    let telemetry = LteTelemetry::from(&reading);
    assert_eq!(telemetry.imsi, "310260123456789");
    assert_eq!(telemetry.signal.rsrp, -85);
    assert_eq!(telemetry.signal.tx_power, 23);
    assert_eq!(telemetry.neighbors.len(), 2);
    // Verify all neighbors present (order is non-deterministic)
    let pcids: HashSet<i32> = telemetry.neighbors.iter().map(|n| n.pcid).collect();
    assert!(pcids.contains(&43));
    assert!(pcids.contains(&44));
}

#[test]
fn unread_ping_is_unreachable() {
    let ping = PingTelemetry::default();
    assert!(!ping.reachable);
    assert_eq!(ping.latency_ms.as_str(), "0");
    assert_eq!(ping.loss_percent, 100);
}
