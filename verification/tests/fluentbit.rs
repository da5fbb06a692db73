use unitctl::config::{
    CameraConfig, Config, FcConfig, FluentbitConfig, GeneralConfig, LteSensorConfig, MavlinkConfig,
    MqttConfig, PingSensorConfig, SensorsConfig, SystemSensorConfig,
};
use unitctl::number::Binary64;
use unitctl::env::fluentbit_env::{generate_fluentbit_config, FluentbitGenError};

/// The number of seconds as the configuration holds it.
fn secs(x: f64) -> Binary64 {
    Binary64 { bits: x.to_bits() }
}

fn test_config() -> Config {
    Config {
        general: GeneralConfig {
            debug: false,
            interface: "eth0".to_string(),
            env_dir: "/var/run/unitctl".to_string(),
            ca_cert_path: Some("/etc/unitctl/certs/ca.pem".to_string()),
            client_cert_path: Some("/etc/unitctl/certs/client.pem".to_string()),
            client_key_path: Some("/etc/unitctl/certs/client.key".to_string()),
        },
        mavlink: MavlinkConfig {
            protocol: "tcpout".to_string(),
            host: "127.0.0.1".to_string(),
            local_mavlink_port: 5760,
            remote_mavlink_port: 5760,
            self_sysid: 1,
            self_compid: 10,
            gcs_sysid: 255,
            gcs_compid: 190,
            sniffer_sysid: 199,
            bs_sysid: 200,
            iteration_period_ms: 10,
            gcs_ip: "10.101.0.1".to_string(),
            env_path: "/etc/mavlink.env".to_string(),
            fc: FcConfig { tty: "/dev/ttyFC".to_string(), baudrate: 57600 },
        },
        sensors: SensorsConfig {
            default_interval_s: secs(5.0),
            ping: PingSensorConfig {
                enabled: true,
                interval_s: None,
                host: "10.45.0.2".to_string(),
            },
            lte: LteSensorConfig {
                enabled: true,
                interval_s: None,
                neighbor_expiry_s: secs(30.0),
                modem_type: "dbus".to_string(),
            },
            system: SystemSensorConfig { enabled: true, interval_s: None },
        },
        camera: CameraConfig {
            gcs_ip: "10.101.0.1".to_string(),
            env_path: "/etc/camera.env".to_string(),
            remote_video_port: 5600,
            width: 640,
            height: 360,
            framerate: 60,
            bitrate: 1664000,
            flip: 0,
            camera_type: "rpi".to_string(),
            device: "/dev/video1".to_string(),
        },
        mqtt: MqttConfig {
            enabled: false,
            host: "mqtt.example.com".to_string(),
            port: 8883,
            env_prefix: "test".to_string(),
            telemetry_interval_s: secs(1.0),
        },
        fluentbit: FluentbitConfig {
            enabled: false,
            host: "logs.example.com".to_string(),
            port: 24224,
            tls: true,
            tls_verify: true,
            config_path: "/etc/fluent-bit.conf".to_string(),
            systemd_filter: None,
        },
    }
}

fn enabled_config() -> Config {
    let mut cfg = test_config();
    cfg.fluentbit.enabled = true;
    cfg.general.ca_cert_path = Some("/etc/ca.pem".to_string());
    cfg.general.client_cert_path = Some("/etc/cert.pem".to_string());
    cfg.general.client_key_path = Some("/etc/key.pem".to_string());
    cfg
}

#[test]
fn test_generate_includes_systemd_input_with_read_from_tail_off() {
    let yaml = generate_fluentbit_config(&enabled_config()).unwrap();
    assert!(yaml.contains("- name: systemd"));
    assert!(yaml.contains("read_from_tail: off"));
    assert!(yaml.contains("tag: host.*"));
}

#[test]
fn test_generate_includes_forward_output() {
    let yaml = generate_fluentbit_config(&enabled_config()).unwrap();
    assert!(yaml.contains("- name: forward"));
    assert!(yaml.contains("host: logs.example.com"));
    assert!(yaml.contains("port: 24224"));
}

#[test]
fn test_generate_omits_systemd_filter_when_none() {
    let yaml = generate_fluentbit_config(&enabled_config()).unwrap();
    assert!(!yaml.contains("systemd_filter:"));
}

#[test]
fn test_generate_renders_systemd_filter_when_present() {
    let mut cfg = enabled_config();
    cfg.fluentbit.systemd_filter = Some(vec![
        "_SYSTEMD_UNIT=unitctl.service".to_string(),
        "PRIORITY=4".to_string(),
    ]);
    let yaml = generate_fluentbit_config(&cfg).unwrap();
    assert!(yaml.contains(
        "systemd_filter:\n        - _SYSTEMD_UNIT=unitctl.service\n        - PRIORITY=4\n"
    ));
}

#[test]
fn test_generate_with_tls_includes_cert_paths() {
    let yaml = generate_fluentbit_config(&enabled_config()).unwrap();
    assert!(yaml.contains("tls: on"));
    assert!(yaml.contains("tls.verify: on"));
    assert!(yaml.contains("tls.ca_file: /etc/ca.pem"));
    assert!(yaml.contains("tls.crt_file: /etc/cert.pem"));
    assert!(yaml.contains("tls.key_file: /etc/key.pem"));
}

#[test]
fn test_generate_with_tls_verify_off() {
    let mut cfg = enabled_config();
    cfg.fluentbit.tls_verify = false;
    let yaml = generate_fluentbit_config(&cfg).unwrap();
    assert!(yaml.contains("tls.verify: off"));
}

#[test]
fn test_generate_without_tls_omits_tls_block() {
    let mut cfg = enabled_config();
    cfg.fluentbit.tls = false;
    // Cert paths can even be None now.
    cfg.general.ca_cert_path = None;
    let yaml = generate_fluentbit_config(&cfg).unwrap();
    assert!(!yaml.contains("tls:"));
    assert!(!yaml.contains("tls.verify"));
    assert!(!yaml.contains("tls.ca_file"));
}

#[test]
fn test_generate_with_tls_missing_ca_path_errors() {
    let mut cfg = enabled_config();
    cfg.general.ca_cert_path = None;
    let err = generate_fluentbit_config(&cfg).unwrap_err();
    match err {
        FluentbitGenError::MissingCert(field) => {
            assert_eq!(field, "general.ca_cert_path");
        }
    }
}

#[test]
fn test_generate_with_tls_empty_client_cert_errors() {
    let mut cfg = enabled_config();
    cfg.general.client_cert_path = Some(String::new());
    let err = generate_fluentbit_config(&cfg).unwrap_err();
    match err {
        FluentbitGenError::MissingCert(field) => {
            assert_eq!(field, "general.client_cert_path");
        }
    }
}

#[test]
fn whole_document_with_filters_and_tls() {
    let mut cfg = enabled_config();
    cfg.fluentbit.systemd_filter = Some(vec!["PRIORITY=4".to_string()]);
    assert_eq!(
        generate_fluentbit_config(&cfg).unwrap(),
        "service:\n  flush: 1\n  log_level: info\n\npipeline:\n  inputs:\n    - name: systemd\n      \
         tag: host.*\n      read_from_tail: off\n      systemd_filter:\n        - PRIORITY=4\n\n  \
         outputs:\n    - name: forward\n      match: '*'\n      host: logs.example.com\n      \
         port: 24224\n      tls: on\n      tls.verify: on\n      tls.ca_file: /etc/ca.pem\n      \
         tls.crt_file: /etc/cert.pem\n      tls.key_file: /etc/key.pem\n"
    );
}

#[test]
fn valid_enabled_configuration_generates() {
    let cfg = enabled_config();
    assert!(cfg.validate().is_ok());
    assert!(generate_fluentbit_config(&cfg).is_ok());
}

#[test]
fn missing_key_is_named() {
    let mut cfg = enabled_config();
    cfg.general.client_key_path = None;
    let err = generate_fluentbit_config(&cfg).unwrap_err();
    assert_eq!(err.to_string(), "missing TLS config: general.client_key_path");
}

#[test]
fn empty_filter_list_is_left_out() {
    let mut cfg = enabled_config();
    cfg.fluentbit.systemd_filter = Some(Vec::new());
    assert!(!generate_fluentbit_config(&cfg).unwrap().contains("systemd_filter:"));
}

#[test]
fn values_do_not_add_lines() {
    let lines = |cfg: &Config| generate_fluentbit_config(cfg).unwrap().lines().count();
    let cfg = enabled_config();
    let mut other = enabled_config();
    other.fluentbit.host = "a: b # c".to_string();
    other.fluentbit.port = 1;
    other.general.ca_cert_path = Some("/with space: x".to_string());
    assert!(cfg.validate().is_ok() && other.validate().is_ok());
    assert_eq!(lines(&cfg), lines(&other));
    // A value that would add one is not valid
    other.fluentbit.host = "a\n      port: 1".to_string();
    assert!(other.validate().is_err());
    assert_ne!(lines(&cfg), lines(&other));
}
