use unitctl::config::rules::{
    check_filter, filter_message, modem_type_message, protocol_message, FilterFault,
};
use unitctl::config::{
    CameraConfig, Cli, Config, ConfigError, FcConfig, FluentbitConfig, GeneralConfig, LteSensorConfig, MavlinkConfig,
    MqttConfig, PingSensorConfig, SensorsConfig, SystemSensorConfig,
};
use unitctl::number::Binary64;

/// The number of seconds as the configuration holds it.
fn secs(x: f64) -> Binary64 {
    Binary64 { bits: x.to_bits() }
}

fn test_config() -> Config {
    Config {
        general: GeneralConfig {
            debug: false,
            interface: "eth0".to_string(),
            env_dir: "/var/run/unitctl".to_string(),
            ca_cert_path: Some("/etc/unitctl/certs/ca.pem".to_string()),
            client_cert_path: Some("/etc/unitctl/certs/client.pem".to_string()),
            client_key_path: Some("/etc/unitctl/certs/client.key".to_string()),
        },
        mavlink: MavlinkConfig {
            protocol: "tcpout".to_string(),
            host: "127.0.0.1".to_string(),
            local_mavlink_port: 5760,
            remote_mavlink_port: 5760,
            self_sysid: 1,
            self_compid: 10,
            gcs_sysid: 255,
            gcs_compid: 190,
            sniffer_sysid: 199,
            bs_sysid: 200,
            iteration_period_ms: 10,
            gcs_ip: "10.101.0.1".to_string(),
            env_path: "/etc/mavlink.env".to_string(),
            fc: FcConfig { tty: "/dev/ttyFC".to_string(), baudrate: 57600 },
        },
        sensors: SensorsConfig {
            default_interval_s: secs(5.0),
            ping: PingSensorConfig {
                enabled: true,
                interval_s: None,
                host: "10.45.0.2".to_string(),
            },
            lte: LteSensorConfig {
                enabled: true,
                interval_s: None,
                neighbor_expiry_s: secs(30.0),
                modem_type: "dbus".to_string(),
            },
            system: SystemSensorConfig { enabled: true, interval_s: None },
        },
        camera: CameraConfig {
            gcs_ip: "10.101.0.1".to_string(),
            env_path: "/etc/camera.env".to_string(),
            remote_video_port: 5600,
            width: 640,
            height: 360,
            framerate: 60,
            bitrate: 1664000,
            flip: 0,
            camera_type: "rpi".to_string(),
            device: "/dev/video1".to_string(),
        },
        mqtt: MqttConfig {
            enabled: false,
            host: "mqtt.example.com".to_string(),
            port: 8883,
            env_prefix: "test".to_string(),
            telemetry_interval_s: secs(1.0),
        },
        fluentbit: FluentbitConfig {
            enabled: false,
            host: "logs.example.com".to_string(),
            port: 24224,
            tls: true,
            tls_verify: true,
            config_path: "/etc/fluent-bit.conf".to_string(),
            systemd_filter: None,
        },
    }
}

#[test]
fn test_parse_config_from_constant() {
    let config = test_config();
    assert!(!config.general.debug);
    assert_eq!(config.general.interface, "eth0");
    assert_eq!(config.general.env_dir, "/var/run/unitctl");
    assert_eq!(config.mavlink.protocol, "tcpout");
    assert_eq!(config.mavlink.host, "127.0.0.1");
    assert_eq!(config.mavlink.local_mavlink_port, 5760);
    assert_eq!(config.mavlink.remote_mavlink_port, 5760);
    assert_eq!(config.mavlink.self_sysid, 1);
    assert_eq!(config.mavlink.self_compid, 10);
    assert_eq!(config.mavlink.gcs_sysid, 255);
    assert_eq!(config.mavlink.gcs_compid, 190);
    assert_eq!(config.mavlink.sniffer_sysid, 199);
    assert_eq!(config.mavlink.bs_sysid, 200);
    assert_eq!(config.mavlink.iteration_period_ms, 10);
    assert_eq!(config.mavlink.gcs_ip, "10.101.0.1");
    assert_eq!(config.mavlink.env_path, "/etc/mavlink.env");
    assert_eq!(config.mavlink.fc.tty, "/dev/ttyFC");
    assert_eq!(config.mavlink.fc.baudrate, 57600);
    assert_eq!(config.camera.gcs_ip, "10.101.0.1");
    assert_eq!(config.camera.env_path, "/etc/camera.env");
    assert_eq!(config.camera.remote_video_port, 5600);
    assert_eq!(config.camera.width, 640);
    assert_eq!(config.camera.height, 360);
    assert_eq!(config.camera.framerate, 60);
    assert_eq!(config.camera.bitrate, 1664000);
    assert_eq!(config.camera.flip, 0);
    assert_eq!(config.camera.camera_type, "rpi");
    assert_eq!(config.camera.device, "/dev/video1");
    assert_eq!(config.sensors.default_interval_s, secs(5.0));
    assert!(config.sensors.ping.enabled);
    assert_eq!(config.sensors.ping.interval_s, None);
    assert_eq!(config.sensors.ping.host, "10.45.0.2");
    assert!(config.sensors.lte.enabled);
    assert_eq!(config.sensors.lte.interval_s, None);
    assert_eq!(config.sensors.lte.neighbor_expiry_s, secs(30.0));
    assert!(config.sensors.system.enabled);
    assert_eq!(config.sensors.system.interval_s, None);
}

#[test]
fn test_connection_string() {
    let config = test_config();
    assert_eq!(config.mavlink.connection_string(), "tcpout:127.0.0.1:5760");
}

#[test]
fn test_iteration_period_ms_zero_rejected() {
    let mut config = test_config();
    config.mavlink.iteration_period_ms = 0;
    assert!(config.validate().is_err());
}

#[test]
fn test_invalid_protocol_rejected() {
    let mut config = test_config();
    config.mavlink.protocol = "tcp".to_string();
    let err = config.validate().unwrap_err();
    assert!(err.to_string().contains("protocol"));
}

#[test]
fn test_valid_protocols_accepted() {
    let config = test_config();
    assert!(config.validate().is_ok());
}

#[test]
fn test_unsupported_protocols_rejected() {
    for protocol in &["tcpin", "udpin", "udpout", "serial"] {
        let mut config = test_config();
        config.mavlink.protocol = protocol.to_string();
        assert!(
            config.validate().is_err(),
            "protocol {} should be rejected",
            protocol
        );
    }
}

#[test]
fn test_iteration_period_ms_nonzero_accepted() {
    let mut config = test_config();
    config.mavlink.iteration_period_ms = 1;
    assert!(config.validate().is_ok());
}

#[test]
fn test_duplicate_sysid_self_sniffer_rejected() {
    let mut config = test_config();
    config.mavlink.self_sysid = 199;
    config.mavlink.sniffer_sysid = 199;
    let err = config.validate().unwrap_err();
    assert!(err.to_string().contains("sniffer_sysid"));
}

#[test]
fn test_duplicate_sysid_self_bs_rejected() {
    let mut config = test_config();
    config.mavlink.self_sysid = 200;
    config.mavlink.bs_sysid = 200;
    let err = config.validate().unwrap_err();
    assert!(err.to_string().contains("bs_sysid"));
}

#[test]
fn test_duplicate_sysid_sniffer_bs_rejected() {
    let mut config = test_config();
    config.mavlink.sniffer_sysid = 200;
    config.mavlink.bs_sysid = 200;
    let err = config.validate().unwrap_err();
    assert!(err.to_string().contains("sniffer_sysid"));
}

#[test]
fn test_distinct_sysids_accepted() {
    let config = test_config();
    assert!(config.validate().is_ok());
}

#[test]
fn test_sensor_config_values() {
    let config = test_config();

    assert_eq!(config.sensors.default_interval_s, secs(5.0));
    assert!(config.sensors.ping.enabled);
    assert_eq!(config.sensors.ping.interval_s, None);
    assert_eq!(config.sensors.ping.host, "10.45.0.2");
    assert!(config.sensors.lte.enabled);
    assert_eq!(config.sensors.lte.interval_s, None);
    assert_eq!(config.sensors.lte.neighbor_expiry_s, secs(30.0));
    assert!(config.sensors.system.enabled);
    assert_eq!(config.sensors.system.interval_s, None);
}

#[test]
fn test_duplicate_sysid_self_gcs_rejected() {
    let mut config = test_config();
    config.mavlink.self_sysid = 255;
    config.mavlink.gcs_sysid = 255;
    let err = config.validate().unwrap_err();
    assert!(err.to_string().contains("gcs_sysid"));
}

#[test]
fn test_duplicate_sysid_gcs_sniffer_rejected() {
    let mut config = test_config();
    config.mavlink.gcs_sysid = 199;
    config.mavlink.sniffer_sysid = 199;
    let err = config.validate().unwrap_err();
    assert!(err.to_string().contains("gcs_sysid"));
}

#[test]
fn test_duplicate_sysid_gcs_bs_rejected() {
    let mut config = test_config();
    config.mavlink.gcs_sysid = 200;
    config.mavlink.bs_sysid = 200;
    let err = config.validate().unwrap_err();
    assert!(err.to_string().contains("gcs_sysid"));
}

#[test]
fn test_zero_default_sensor_interval_rejected() {
    let mut config = test_config();
    config.sensors.default_interval_s = secs(0.0);
    assert!(config.validate().is_err());
}

#[test]
fn test_negative_ping_interval_rejected() {
    let mut config = test_config();
    config.sensors.ping.interval_s = Some(secs(-1.0));
    assert!(config.validate().is_err());
}

#[test]
fn test_negative_lte_interval_rejected() {
    let mut config = test_config();
    config.sensors.lte.interval_s = Some(secs(-1.0));
    assert!(config.validate().is_err());
}

#[test]
fn test_system_sensor_default() {
    let config = test_config();
    assert!(config.sensors.system.enabled);
    assert_eq!(config.sensors.system.interval_s, None);
}

#[test]
fn test_system_sensor_negative_interval_rejected() {
    let mut config = test_config();
    config.sensors.system.interval_s = Some(secs(-1.0));
    assert!(config.validate().is_err());
}

#[test]
fn test_zero_neighbor_expiry_rejected() {
    let mut config = test_config();
    config.sensors.lte.neighbor_expiry_s = secs(0.0);
    assert!(config.validate().is_err());
}

#[test]
fn test_empty_ping_host_rejected() {
    let mut config = test_config();
    config.sensors.ping.host = "".to_string();
    assert!(config.validate().is_err());
}

#[test]
fn test_dash_prefix_ping_host_rejected() {
    let mut config = test_config();
    config.sensors.ping.host = "-n 1".to_string();
    assert!(config.validate().is_err());
}

#[test]
fn test_per_sensor_interval_override() {
    let mut config = test_config();
    config.sensors.default_interval_s = secs(2.0);
    config.sensors.ping.interval_s = Some(secs(0.5));
    config.sensors.lte.interval_s = Some(secs(3.0));
    config.sensors.system.interval_s = Some(secs(10.0));

    assert!(config.validate().is_ok());
    assert_eq!(config.sensors.ping.interval_s, Some(secs(0.5)));
    assert_eq!(config.sensors.lte.interval_s, Some(secs(3.0)));
    assert_eq!(config.sensors.system.interval_s, Some(secs(10.0)));
}

#[test]
fn test_inf_default_interval_rejected() {
    let mut config = test_config();
    config.sensors.default_interval_s = secs(f64::INFINITY);
    assert!(config.validate().is_err());
}

#[test]
fn test_nan_default_interval_rejected() {
    let mut config = test_config();
    config.sensors.default_interval_s = secs(f64::NAN);
    assert!(config.validate().is_err());
}

#[test]
fn test_inf_neighbor_expiry_rejected() {
    let mut config = test_config();
    config.sensors.lte.neighbor_expiry_s = secs(f64::INFINITY);
    assert!(config.validate().is_err());
}

#[test]
fn test_dash_prefix_general_interface_rejected() {
    let mut config = test_config();
    config.general.interface = "-evil".to_string();
    let err = config.validate().unwrap_err();
    assert!(err.to_string().contains("general.interface"));
}

#[test]
fn test_empty_general_interface_rejected() {
    let mut config = test_config();
    config.general.interface = "".to_string();
    let err = config.validate().unwrap_err();
    assert!(err.to_string().contains("general.interface"));
}

#[test]
fn test_invalid_chars_general_interface_rejected() {
    let mut config = test_config();
    config.general.interface = "eth 0".to_string();
    let err = config.validate().unwrap_err();
    assert!(err.to_string().contains("general.interface"));
}

#[test]
fn test_general_interface_roundtrips() {
    let config = test_config();
    assert_eq!(config.general.interface, "eth0");
    assert!(config.validate().is_ok());
}

#[test]
fn test_general_cert_paths_parsed_when_present() {
    let config = test_config();
    assert_eq!(
        config.general.ca_cert_path.as_deref(),
        Some("/etc/unitctl/certs/ca.pem")
    );
    assert_eq!(
        config.general.client_cert_path.as_deref(),
        Some("/etc/unitctl/certs/client.pem")
    );
    assert_eq!(
        config.general.client_key_path.as_deref(),
        Some("/etc/unitctl/certs/client.key")
    );
}

#[test]
fn test_validate_rejects_empty_general_ca_cert_path() {
    let mut cfg = test_config();
    cfg.general.ca_cert_path = Some(String::new());
    let err = cfg.validate().unwrap_err();
    assert!(err.to_string().contains("general.ca_cert_path"));
}

#[test]
fn test_validate_rejects_newline_general_client_cert_path() {
    let mut cfg = test_config();
    cfg.general.client_cert_path = Some("/etc/cert.pem\nEVIL".to_string());
    let err = cfg.validate().unwrap_err();
    assert!(err.to_string().contains("general.client_cert_path"));
}

#[test]
fn test_validate_rejects_carriage_return_general_client_key_path() {
    let mut cfg = test_config();
    cfg.general.client_key_path = Some("/etc/key.pem\rEVIL".to_string());
    let err = cfg.validate().unwrap_err();
    assert!(err.to_string().contains("general.client_key_path"));
}

#[test]
fn test_validate_accepts_none_general_cert_paths() {
    let mut cfg = test_config();
    cfg.general.ca_cert_path = None;
    cfg.general.client_cert_path = None;
    cfg.general.client_key_path = None;
    assert!(cfg.validate().is_ok());
}

#[test]
fn test_validate_rejects_empty_env_dir() {
    let mut cfg = test_config();
    cfg.general.env_dir = String::new();
    let err = cfg.validate().unwrap_err();
    let msg = err.to_string();
    assert!(msg.contains("general.env_dir"));
}

#[test]
fn test_validate_rejects_newline_env_dir() {
    let mut cfg = test_config();
    cfg.general.env_dir = "/var/run/unitctl\nEVIL=1".to_string();
    let err = cfg.validate().unwrap_err();
    let msg = err.to_string();
    assert!(msg.contains("general.env_dir"));
}

#[test]
fn test_empty_env_path_rejected() {
    let mut config = test_config();
    config.mavlink.env_path = "".to_string();
    let err = config.validate().unwrap_err();
    assert!(err.to_string().contains("env_path"));
}

#[test]
fn test_empty_gcs_ip_rejected() {
    let mut config = test_config();
    config.mavlink.gcs_ip = "".to_string();
    let err = config.validate().unwrap_err();
    assert!(err.to_string().contains("gcs_ip"));
}

#[test]
fn test_dash_prefix_gcs_ip_rejected() {
    let mut config = test_config();
    config.mavlink.gcs_ip = "-malicious".to_string();
    let err = config.validate().unwrap_err();
    assert!(err.to_string().contains("gcs_ip"));
}

#[test]
fn test_camera_config_parsed() {
    let config = test_config();
    assert_eq!(config.camera.gcs_ip, "10.101.0.1");
    assert_eq!(config.camera.env_path, "/etc/camera.env");
    assert_eq!(config.camera.remote_video_port, 5600);
    assert_eq!(config.camera.width, 640);
    assert_eq!(config.camera.height, 360);
    assert_eq!(config.camera.framerate, 60);
    assert_eq!(config.camera.bitrate, 1664000);
    assert_eq!(config.camera.flip, 0);
    assert_eq!(config.camera.camera_type, "rpi");
    assert_eq!(config.camera.device, "/dev/video1");
}

#[test]
fn test_camera_empty_env_path_rejected() {
    let mut config = test_config();
    config.camera.env_path = "".to_string();
    let err = config.validate().unwrap_err();
    assert!(err.to_string().contains("camera.env_path"));
}

#[test]
fn test_camera_empty_gcs_ip_rejected() {
    let mut config = test_config();
    config.camera.gcs_ip = "".to_string();
    let err = config.validate().unwrap_err();
    assert!(err.to_string().contains("camera.gcs_ip"));
}

#[test]
fn test_camera_dash_prefix_gcs_ip_rejected() {
    let mut config = test_config();
    config.camera.gcs_ip = "-bad".to_string();
    let err = config.validate().unwrap_err();
    assert!(err.to_string().contains("camera.gcs_ip"));
}

#[test]
fn test_camera_empty_camera_type_rejected() {
    let mut config = test_config();
    config.camera.camera_type = "".to_string();
    let err = config.validate().unwrap_err();
    assert!(err.to_string().contains("camera.camera_type"));
}

#[test]
fn test_camera_empty_device_rejected() {
    let mut config = test_config();
    config.camera.device = "".to_string();
    let err = config.validate().unwrap_err();
    assert!(err.to_string().contains("camera.device"));
}

#[test]
fn test_camera_zero_width_rejected() {
    let mut config = test_config();
    config.camera.width = 0;
    let err = config.validate().unwrap_err();
    assert!(err.to_string().contains("camera.width"));
}

#[test]
fn test_camera_zero_height_rejected() {
    let mut config = test_config();
    config.camera.height = 0;
    let err = config.validate().unwrap_err();
    assert!(err.to_string().contains("camera.height"));
}

#[test]
fn test_camera_zero_framerate_rejected() {
    let mut config = test_config();
    config.camera.framerate = 0;
    let err = config.validate().unwrap_err();
    assert!(err.to_string().contains("camera.framerate"));
}

#[test]
fn test_camera_zero_bitrate_rejected() {
    let mut config = test_config();
    config.camera.bitrate = 0;
    let err = config.validate().unwrap_err();
    assert!(err.to_string().contains("camera.bitrate"));
}

#[test]
fn test_camera_zero_remote_video_port_rejected() {
    let mut config = test_config();
    config.camera.remote_video_port = 0;
    let err = config.validate().unwrap_err();
    assert!(err.to_string().contains("camera.remote_video_port"));
}

#[test]
fn test_empty_mavlink_host_rejected() {
    let mut config = test_config();
    config.mavlink.host = "".to_string();
    let err = config.validate().unwrap_err();
    assert!(err.to_string().contains("mavlink.host"));
}

#[test]
fn test_dash_prefix_mavlink_host_rejected() {
    let mut config = test_config();
    config.mavlink.host = "-evil".to_string();
    let err = config.validate().unwrap_err();
    assert!(err.to_string().contains("mavlink.host"));
}

#[test]
fn test_newline_in_gcs_ip_rejected() {
    let mut config = test_config();
    config.mavlink.gcs_ip = "10.0.0.1\nEVIL=yes".to_string();
    let err = config.validate().unwrap_err();
    assert!(err.to_string().contains("newline"));
}

#[test]
fn test_newline_in_camera_type_rejected() {
    let mut config = test_config();
    config.camera.camera_type = "rpi\nEVIL=yes".to_string();
    let err = config.validate().unwrap_err();
    assert!(err.to_string().contains("newline"));
}

#[test]
fn test_carriage_return_in_device_rejected() {
    let mut config = test_config();
    config.camera.device = "/dev/video0\rEVIL".to_string();
    let err = config.validate().unwrap_err();
    assert!(err.to_string().contains("newline"));
}

#[test]
fn test_newline_in_fc_tty_rejected() {
    let mut config = test_config();
    config.mavlink.fc.tty = "/dev/ttyFC\nEVIL=yes".to_string();
    let err = config.validate().unwrap_err();
    assert!(err.to_string().contains("newline"));
}

#[test]
fn test_newline_in_mavlink_host_rejected() {
    let mut config = test_config();
    config.mavlink.host = "127.0.0.1\nEVIL".to_string();
    let err = config.validate().unwrap_err();
    assert!(err.to_string().contains("newline"));
}

#[test]
fn test_empty_fc_tty_rejected() {
    let mut config = test_config();
    config.mavlink.fc.tty = "".to_string();
    let err = config.validate().unwrap_err();
    assert!(err.to_string().contains("mavlink.fc.tty"));
}

#[test]
fn test_zero_fc_baudrate_rejected() {
    let mut config = test_config();
    config.mavlink.fc.baudrate = 0;
    let err = config.validate().unwrap_err();
    assert!(err.to_string().contains("mavlink.fc.baudrate"));
}

#[test]
fn test_zero_local_mavlink_port_rejected() {
    let mut config = test_config();
    config.mavlink.local_mavlink_port = 0;
    let err = config.validate().unwrap_err();
    assert!(err.to_string().contains("mavlink.local_mavlink_port"));
}

#[test]
fn test_zero_remote_mavlink_port_rejected() {
    let mut config = test_config();
    config.mavlink.remote_mavlink_port = 0;
    let err = config.validate().unwrap_err();
    assert!(err.to_string().contains("mavlink.remote_mavlink_port"));
}

#[test]
fn test_mqtt_config_parsed() {
    let config = test_config();
    assert!(!config.mqtt.enabled);
    assert_eq!(config.mqtt.host, "mqtt.example.com");
    assert_eq!(config.mqtt.port, 8883);
    assert_eq!(config.mqtt.env_prefix, "test");
    assert_eq!(config.mqtt.telemetry_interval_s, secs(1.0));
    assert_eq!(
        config.general.ca_cert_path.as_deref(),
        Some("/etc/unitctl/certs/ca.pem")
    );
    assert_eq!(
        config.general.client_cert_path.as_deref(),
        Some("/etc/unitctl/certs/client.pem")
    );
    assert_eq!(
        config.general.client_key_path.as_deref(),
        Some("/etc/unitctl/certs/client.key")
    );
}

#[test]
fn test_mqtt_config_default() {
    let default = MqttConfig::default();
    assert!(!default.enabled);
    assert_eq!(default.host, "mqtt.example.com");
    assert_eq!(default.port, 8883);
    assert_eq!(default.telemetry_interval_s, secs(5.0));
}

#[test]
fn test_mqtt_disabled_skips_validation() {
    let mut config = test_config();
    config.mqtt.enabled = false;
    config.mqtt.host = "".to_string();
    config.mqtt.port = 0;
    assert!(config.validate().is_ok());
}

#[test]
fn test_mqtt_enabled_empty_host_rejected() {
    let mut config = test_config();
    config.mqtt.enabled = true;
    config.mqtt.host = "".to_string();
    let err = config.validate().unwrap_err();
    assert!(err.to_string().contains("mqtt.host"));
}

#[test]
fn test_mqtt_enabled_zero_port_rejected() {
    let mut config = test_config();
    config.mqtt.enabled = true;
    config.mqtt.port = 0;
    let err = config.validate().unwrap_err();
    assert!(err.to_string().contains("mqtt.port"));
}

#[test]
fn test_mqtt_enabled_empty_env_prefix_rejected() {
    let mut config = test_config();
    config.mqtt.enabled = true;
    config.mqtt.env_prefix = "".to_string();
    let err = config.validate().unwrap_err();
    assert!(err.to_string().contains("mqtt.env_prefix"));
}

#[test]
fn test_mqtt_enabled_zero_telemetry_interval_rejected() {
    let mut config = test_config();
    config.mqtt.enabled = true;
    config.mqtt.telemetry_interval_s = secs(0.0);
    let err = config.validate().unwrap_err();
    assert!(err.to_string().contains("mqtt.telemetry_interval_s"));
}

#[test]
fn test_mqtt_enabled_negative_telemetry_interval_rejected() {
    let mut config = test_config();
    config.mqtt.enabled = true;
    config.mqtt.telemetry_interval_s = secs(-1.0);
    let err = config.validate().unwrap_err();
    assert!(err.to_string().contains("mqtt.telemetry_interval_s"));
}

#[test]
fn test_mqtt_enabled_inf_telemetry_interval_rejected() {
    let mut config = test_config();
    config.mqtt.enabled = true;
    config.mqtt.telemetry_interval_s = secs(f64::INFINITY);
    let err = config.validate().unwrap_err();
    assert!(err.to_string().contains("mqtt.telemetry_interval_s"));
}

#[test]
fn test_mqtt_enabled_valid_config_accepted() {
    let mut config = test_config();
    config.mqtt.enabled = true;
    assert!(config.validate().is_ok());
}

#[test]
fn test_lte_modem_type_dbus_accepted() {
    let mut config = test_config();
    config.sensors.lte.modem_type = "dbus".to_string();
    assert!(config.validate().is_ok());
}

#[test]
fn test_lte_modem_type_fake_accepted() {
    let mut config = test_config();
    config.sensors.lte.modem_type = "fake".to_string();
    assert!(config.validate().is_ok());
}

#[test]
fn test_lte_modem_type_empty_rejected() {
    let mut config = test_config();
    config.sensors.lte.modem_type = "".to_string();
    let err = config.validate().unwrap_err();
    assert!(err.to_string().contains("sensors.lte.modem_type"));
}

#[test]
fn test_lte_modem_type_wrong_case_rejected() {
    let mut config = test_config();
    config.sensors.lte.modem_type = "DBUS".to_string();
    let err = config.validate().unwrap_err();
    assert!(err.to_string().contains("sensors.lte.modem_type"));
}

#[test]
fn test_lte_modem_type_unknown_rejected() {
    let mut config = test_config();
    config.sensors.lte.modem_type = "serial".to_string();
    let err = config.validate().unwrap_err();
    assert!(err.to_string().contains("sensors.lte.modem_type"));
}

#[test]
fn test_fluentbit_config_parsed() {
    let config = test_config();
    assert!(!config.fluentbit.enabled);
    assert_eq!(config.fluentbit.host, "logs.example.com");
    assert_eq!(config.fluentbit.port, 24224);
    assert!(config.fluentbit.tls);
    assert!(config.fluentbit.tls_verify);
    assert_eq!(config.fluentbit.config_path, "/etc/fluent-bit.conf");
    assert!(config.fluentbit.systemd_filter.is_none());
}

#[test]
fn test_fluentbit_disabled_skips_validation() {
    let mut cfg = test_config();
    cfg.fluentbit.enabled = false;
    cfg.fluentbit.host = String::new();
    cfg.fluentbit.port = 0;
    assert!(cfg.validate().is_ok());
}

#[test]
fn test_fluentbit_enabled_empty_host_rejected() {
    let mut cfg = test_config();
    cfg.fluentbit.enabled = true;
    cfg.fluentbit.host = String::new();
    let err = cfg.validate().unwrap_err();
    assert!(err.to_string().contains("fluentbit.host"));
}

#[test]
fn test_fluentbit_enabled_dash_prefix_host_rejected() {
    let mut cfg = test_config();
    cfg.fluentbit.enabled = true;
    cfg.fluentbit.host = "-evil".to_string();
    let err = cfg.validate().unwrap_err();
    assert!(err.to_string().contains("fluentbit.host"));
}

#[test]
fn test_fluentbit_enabled_zero_port_rejected() {
    let mut cfg = test_config();
    cfg.fluentbit.enabled = true;
    cfg.fluentbit.port = 0;
    let err = cfg.validate().unwrap_err();
    assert!(err.to_string().contains("fluentbit.port"));
}

#[test]
fn test_fluentbit_enabled_empty_config_path_rejected() {
    let mut cfg = test_config();
    cfg.fluentbit.enabled = true;
    cfg.fluentbit.config_path = String::new();
    let err = cfg.validate().unwrap_err();
    assert!(err.to_string().contains("fluentbit.config_path"));
}

#[test]
fn test_fluentbit_enabled_newline_config_path_rejected() {
    let mut cfg = test_config();
    cfg.fluentbit.enabled = true;
    cfg.fluentbit.config_path = "/etc/fb.conf\nEVIL".to_string();
    let err = cfg.validate().unwrap_err();
    assert!(err.to_string().contains("fluentbit.config_path"));
}

#[test]
fn test_fluentbit_systemd_filter_valid_accepted() {
    let mut cfg = test_config();
    cfg.fluentbit.enabled = true;
    cfg.fluentbit.systemd_filter = Some(vec![
        "_SYSTEMD_UNIT=unitctl.service".to_string(),
        "PRIORITY=4".to_string(),
    ]);
    assert!(cfg.validate().is_ok());
}

#[test]
fn test_fluentbit_systemd_filter_missing_eq_rejected() {
    let mut cfg = test_config();
    cfg.fluentbit.enabled = true;
    cfg.fluentbit.systemd_filter = Some(vec!["_SYSTEMD_UNIT".to_string()]);
    let err = cfg.validate().unwrap_err();
    assert!(err.to_string().contains("fluentbit.systemd_filter"));
}

#[test]
fn test_fluentbit_systemd_filter_newline_rejected() {
    let mut cfg = test_config();
    cfg.fluentbit.enabled = true;
    cfg.fluentbit.systemd_filter = Some(vec!["_FOO=bar\nEVIL=1".to_string()]);
    let err = cfg.validate().unwrap_err();
    assert!(err.to_string().contains("fluentbit.systemd_filter"));
}

#[test]
fn test_fluentbit_systemd_filter_lowercase_key_rejected() {
    let mut cfg = test_config();
    cfg.fluentbit.enabled = true;
    cfg.fluentbit.systemd_filter = Some(vec!["bad_key=1".to_string()]);
    let err = cfg.validate().unwrap_err();
    assert!(err.to_string().contains("fluentbit.systemd_filter"));
}

// One exact complaint for each of the rules.

fn complaint(config: &Config) -> String {
    match config.validate() {
        Ok(()) => String::new(),
        Err(ConfigError::Validation(message)) => message,
        Err(other) => panic!("expected a validation error, got {:?}", other),
    }
}

#[test]
fn protocol_complaint_quotes_the_name() {
    let mut config = test_config();
    config.mavlink.protocol = "udp\"in\t".to_string();
    assert_eq!(
        complaint(&config),
        "mavlink.protocol must be one of [\"tcpout\"], got \"udp\\\"in\\t\""
    );
}

#[test]
fn modem_type_complaint_quotes_the_name() {
    let mut config = test_config();
    config.sensors.lte.modem_type = "serial".to_string();
    assert_eq!(
        complaint(&config),
        "sensors.lte.modem_type must be \"dbus\" or \"fake\", got \"serial\""
    );
}

#[test]
fn filter_complaints_quote_the_entry() {
    let mut config = test_config();
    config.fluentbit.enabled = true;
    config.fluentbit.systemd_filter = Some(vec!["A=1\n".to_string()]);
    assert_eq!(
        complaint(&config),
        "fluentbit.systemd_filter entry \"A=1\\n\" must not contain newline characters"
    );
    config.fluentbit.systemd_filter = Some(vec!["A=1".to_string(), "B".to_string()]);
    assert_eq!(
        complaint(&config),
        "fluentbit.systemd_filter entry \"B\" must be KEY=VALUE"
    );
    config.fluentbit.systemd_filter = Some(vec!["=x".to_string()]);
    assert_eq!(
        complaint(&config),
        "fluentbit.systemd_filter entry \"=x\" key must match [A-Z_][A-Z0-9_]*"
    );
    config.fluentbit.systemd_filter = Some(vec!["9A=x".to_string()]);
    assert!(config.validate().is_err());
    config.fluentbit.systemd_filter = Some(vec!["_9A=x=y".to_string()]);
    assert!(config.validate().is_ok());
}

#[test]
fn filter_faults_are_told_apart() {
    assert_eq!(check_filter("A=1\r"), Some(FilterFault::Newline));
    assert_eq!(check_filter("A"), Some(FilterFault::NoValue));
    assert_eq!(check_filter("a=1"), Some(FilterFault::Key));
    assert_eq!(check_filter("A_0=1"), None);
    assert_eq!(
        filter_message("\"a=1\"", FilterFault::Key),
        "fluentbit.systemd_filter entry \"a=1\" key must match [A-Z_][A-Z0-9_]*"
    );
    assert_eq!(
        protocol_message("\"tcp\""),
        "mavlink.protocol must be one of [\"tcpout\"], got \"tcp\""
    );
    assert_eq!(
        modem_type_message("\"\""),
        "sensors.lte.modem_type must be \"dbus\" or \"fake\", got \"\""
    );
}

#[test]
fn first_broken_rule_is_named() {
    let mut config = test_config();
    config.mavlink.iteration_period_ms = 0;
    config.camera.width = 0;
    config.general.interface = String::new();
    assert_eq!(complaint(&config), "mavlink.iteration_period_ms must be greater than 0");
    config.mavlink.iteration_period_ms = 10;
    assert_eq!(complaint(&config), "camera.width must be greater than 0");
    config.camera.width = 640;
    assert_eq!(complaint(&config), "general.interface must not be empty");
}

#[test]
fn own_system_id_of_zero_is_no_duplicate() {
    let mut config = test_config();
    config.mavlink.self_sysid = 0;
    config.mavlink.sniffer_sysid = 0;
    assert!(config.validate().is_ok());
}

#[test]
fn interface_names_may_hold_dots_dashes_and_underscores() {
    let mut config = test_config();
    config.general.interface = "br-lan_0.1".to_string();
    assert!(config.validate().is_ok());
    config.general.interface = "eth\u{e9}".to_string();
    assert_eq!(
        complaint(&config),
        "general.interface must contain only alphanumeric, '.', '_', or '-' characters"
    );
}

#[test]
fn fluentbit_tls_needs_all_certs() {
    let mut config = test_config();
    config.fluentbit.enabled = true;
    config.general.client_key_path = None;
    assert_eq!(
        complaint(&config),
        "general.client_key_path must be set when fluentbit.tls = true"
    );
    config.fluentbit.tls = false;
    assert!(config.validate().is_ok());
}

#[test]
fn smallest_telemetry_interval_is_one_second() {
    let mut config = test_config();
    config.mqtt.enabled = true;
    config.mqtt.telemetry_interval_s = secs(1.0);
    assert!(config.validate().is_ok());
    config.mqtt.telemetry_interval_s = secs(0.9999999999999999);
    assert_eq!(
        complaint(&config),
        "mqtt.telemetry_interval_s must be a finite number >= 1.0"
    );
    config.mqtt.telemetry_interval_s = secs(f64::MAX);
    assert!(config.validate().is_ok());
}

#[test]
fn tiny_intervals_are_positive() {
    let mut config = test_config();
    config.sensors.default_interval_s = secs(f64::from_bits(1));
    assert!(config.validate().is_ok());
    config.sensors.default_interval_s = secs(-0.0);
    assert_eq!(
        complaint(&config),
        "sensors.default_interval_s must be a finite positive number"
    );
}

#[test]
fn config_error_messages() {
    assert_eq!(
        ConfigError::Io("gone".to_string()).to_string(),
        "failed to read configuration file: gone"
    );
    assert_eq!(
        ConfigError::Parse("line 1".to_string()).to_string(),
        "failed to parse configuration: line 1"
    );
    assert_eq!(
        ConfigError::Validation("mqtt.port".to_string()).to_string(),
        "invalid configuration: mqtt.port"
    );
}

#[test]
fn debug_logging_is_asked_for_in_two_places() {
    let mut config = test_config();
    let mut cli = Cli { config: "config.toml".to_string(), debug: false };
    assert_eq!(cli.log_filter(&config), "info");
    cli.debug = true;
    assert_eq!(cli.log_filter(&config), "debug");
    cli.debug = false;
    config.general.debug = true;
    assert!(cli.debug_enabled(&config));
    assert_eq!(cli.log_filter(&config), "debug");
}

#[test]
fn section_defaults() {
    let fluentbit = FluentbitConfig::default();
    assert!(!fluentbit.enabled && fluentbit.tls && fluentbit.tls_verify);
    assert_eq!(fluentbit.port, 24224);
    let sensors = SensorsConfig::default();
    assert_eq!(sensors.default_interval_s, secs(5.0));
    assert_eq!(sensors.lte.neighbor_expiry_s, secs(30.0));
    assert_eq!(sensors.lte.modem_type, "dbus");
    assert_eq!(sensors.ping.host, "10.45.0.2");
    assert!(sensors.system.enabled && sensors.system.interval_s.is_none());
    assert_eq!(MqttConfig::default().env_prefix, "prod");
}

#[test]
fn configurations_compare_by_their_values() {
    let config = test_config();
    assert!(config == config.clone());
    let mut other = config.clone();
    other.camera.width += 1;
    assert!(config != other);
    // The two zeros are equal, and what is not a number equals nothing
    let mut zero = config.clone();
    zero.sensors.default_interval_s = Binary64 { bits: 0.0f64.to_bits() };
    let mut minus_zero = config.clone();
    minus_zero.sensors.default_interval_s = Binary64 { bits: (-0.0f64).to_bits() };
    assert!(zero == minus_zero);
    let mut nan = config.clone();
    nan.sensors.default_interval_s = Binary64 { bits: f64::NAN.to_bits() };
    assert!(nan != nan.clone());
    for x in [1.5, -1.5, f64::INFINITY, f64::NEG_INFINITY, f64::MIN_POSITIVE, 0.0] {
        for y in [1.5, f64::INFINITY, -0.0, f64::NAN] {
            let same = Binary64 { bits: f64::to_bits(x) } == Binary64 { bits: f64::to_bits(y) };
            assert_eq!(same, x == y);
        }
    }
}
