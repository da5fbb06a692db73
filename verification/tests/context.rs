use std::collections::HashMap;

use unitctl::config::{
    CameraConfig, Config, FcConfig, FluentbitConfig, GeneralConfig, LteSensorConfig, MavlinkConfig,
    MqttConfig, PingSensorConfig, SensorsConfig, SystemSensorConfig,
};
use unitctl::number::Binary64;
use unitctl::context::{Context, FcWait};
use unitctl::mavlink::drone_component::{next_link_action, LinkAction, LinkEvent};
use unitctl::mavlink::{
    build_heartbeat, heartbeat_step, is_fc_sysid, HeartbeatAction, HeartbeatEvent, MavAutopilot,
    MavMessage, MavModeFlag, MavState, MavType,
};
use unitctl::messages::telemetry::{CpuTempTelemetry, LteSignalQuality, PingTelemetry};
use unitctl::number::FloatText;
use unitctl::sensors::lte::LteReading;
use unitctl::services::modem_access::fake::FakeModemAccess;

/// The number of seconds as the configuration holds it.
fn secs(x: f64) -> Binary64 {
    Binary64 { bits: x.to_bits() }
}

fn test_config() -> Config {
    Config {
        general: GeneralConfig {
            debug: false,
            interface: "eth0".to_string(),
            env_dir: "/var/run/unitctl".to_string(),
            ca_cert_path: Some("/etc/unitctl/certs/ca.pem".to_string()),
            client_cert_path: Some("/etc/unitctl/certs/client.pem".to_string()),
            client_key_path: Some("/etc/unitctl/certs/client.key".to_string()),
        },
        mavlink: MavlinkConfig {
            protocol: "tcpout".to_string(),
            host: "127.0.0.1".to_string(),
            local_mavlink_port: 5760,
            remote_mavlink_port: 5760,
            self_sysid: 1,
            self_compid: 10,
            gcs_sysid: 255,
            gcs_compid: 190,
            sniffer_sysid: 199,
            bs_sysid: 200,
            iteration_period_ms: 10,
            gcs_ip: "10.101.0.1".to_string(),
            env_path: "/etc/mavlink.env".to_string(),
            fc: FcConfig { tty: "/dev/ttyFC".to_string(), baudrate: 57600 },
        },
        sensors: SensorsConfig {
            default_interval_s: secs(5.0),
            ping: PingSensorConfig {
                enabled: true,
                interval_s: None,
                host: "10.45.0.2".to_string(),
            },
            lte: LteSensorConfig {
                enabled: true,
                interval_s: None,
                neighbor_expiry_s: secs(30.0),
                modem_type: "dbus".to_string(),
            },
            system: SystemSensorConfig { enabled: true, interval_s: None },
        },
        camera: CameraConfig {
            gcs_ip: "10.101.0.1".to_string(),
            env_path: "/etc/camera.env".to_string(),
            remote_video_port: 5600,
            width: 640,
            height: 360,
            framerate: 60,
            bitrate: 1664000,
            flip: 0,
            camera_type: "rpi".to_string(),
            device: "/dev/video1".to_string(),
        },
        mqtt: MqttConfig {
            enabled: false,
            host: "mqtt.example.com".to_string(),
            port: 8883,
            env_prefix: "test".to_string(),
            telemetry_interval_s: secs(1.0),
        },
        fluentbit: FluentbitConfig {
            enabled: false,
            host: "logs.example.com".to_string(),
            port: 24224,
            tls: true,
            tls_verify: true,
            config_path: "/etc/fluent-bit.conf".to_string(),
            systemd_filter: None,
        },
    }
}

fn new_context() -> Context<FakeModemAccess> {
    Context::new(test_config())
}

fn float(text: &str) -> FloatText {
    FloatText::parse(text).unwrap()
}

// Heartbeats

#[test]
fn test_build_heartbeat_default_ids() {
    let (header, msg) = build_heartbeat(1, 10);
    assert_eq!(header.system_id, 1);
    assert_eq!(header.component_id, 10);
    assert_eq!(header.sequence, 0);

    match msg {
        MavMessage::HEARTBEAT(data) => {
            assert_eq!(data.mavtype, MavType::MAV_TYPE_ONBOARD_CONTROLLER);
            assert_eq!(data.autopilot, MavAutopilot::MAV_AUTOPILOT_INVALID);
            assert_eq!(data.base_mode, MavModeFlag::empty());
            assert_eq!(data.system_status, MavState::MAV_STATE_ACTIVE);
            assert_eq!(data.custom_mode, 0);
            assert_eq!(data.mavlink_version, 3);
        }
    }
}

#[test]
fn test_build_heartbeat_custom_ids() {
    let (header, msg) = build_heartbeat(42, 99);
    assert_eq!(header.system_id, 42);
    assert_eq!(header.component_id, 99);

    match msg {
        MavMessage::HEARTBEAT(data) => {
            assert_eq!(data.mavtype, MavType::MAV_TYPE_ONBOARD_CONTROLLER);
        }
    }
}

#[test]
fn heartbeat_loop_sends_once_a_second() {
    assert!(matches!(
        heartbeat_step(HeartbeatEvent::Tick, 7, 8),
        HeartbeatAction::Send((header, _)) if header.system_id == 7 && header.component_id == 8
    ));
    assert!(matches!(heartbeat_step(HeartbeatEvent::Queued, 7, 8), HeartbeatAction::Wait));
    assert!(matches!(heartbeat_step(HeartbeatEvent::QueueFull, 7, 8), HeartbeatAction::Wait));
    assert!(matches!(heartbeat_step(HeartbeatEvent::QueueClosed, 7, 8), HeartbeatAction::Stop));
    assert!(matches!(heartbeat_step(HeartbeatEvent::Cancelled, 7, 8), HeartbeatAction::Stop));
}

#[test]
fn link_reconnects_after_a_second() {
    assert_eq!(next_link_action(LinkEvent::ConnectFailed), LinkAction::BackOff);
    assert_eq!(next_link_action(LinkEvent::BackedOff), LinkAction::Connect);
    assert_eq!(next_link_action(LinkEvent::Connected), LinkAction::DiscardQueue);
    assert_eq!(next_link_action(LinkEvent::Tick), LinkAction::SendQueue);
    assert_eq!(next_link_action(LinkEvent::SendFailed), LinkAction::BackOff);
    assert_eq!(next_link_action(LinkEvent::Cancelled), LinkAction::Stop);
}

#[test]
fn queue_is_discarded_before_anything_is_sent() {
    let events = [
        LinkEvent::ConnectFailed,
        LinkEvent::BackedOff,
        LinkEvent::Connected,
        LinkEvent::Tick,
        LinkEvent::SendFailed,
        LinkEvent::BackedOff,
        LinkEvent::Connected,
        LinkEvent::Tick,
    ];
    let mut queue: Vec<usize> = Vec::new();
    let mut sent: Vec<usize> = Vec::new();
    for (k, event) in events.into_iter().enumerate() {
        // One message arrives before each event
        queue.push(k);
        match next_link_action(event) {
            LinkAction::DiscardQueue => queue.clear(),
            LinkAction::SendQueue => sent.append(&mut queue),
            _ => {}
        }
    }
    assert_eq!(sent, vec![3, 7]);
}

#[test]
fn flight_controllers_are_below_the_threshold() {
    assert!(!is_fc_sysid(0));
    assert!(is_fc_sysid(1));
    assert!(is_fc_sysid(199));
    assert!(!is_fc_sysid(200));
    assert!(!is_fc_sysid(255));
}

// Waiting for a flight controller

#[test]
fn test_wait_for_fc_returns_true_when_fc_discovered() {
    let mut ctx = new_context();
    // Pre-add an FC system (ID < 200)
    ctx.add_system(1);
    assert!(matches!(ctx.wait_for_fc(false), FcWait::Found(ids) if ids.len() == 1));
}

#[test]
fn test_wait_for_fc_returns_false_on_cancel() {
    let ctx = new_context();
    assert!(matches!(ctx.wait_for_fc(false), FcWait::Waiting));
    assert!(matches!(ctx.wait_for_fc(true), FcWait::Cancelled));
}

#[test]
fn test_wait_for_fc_ignores_non_fc_systems() {
    let mut ctx = new_context();
    // Add non-FC systems (ID >= 200)
    ctx.add_system(200);
    ctx.add_system(255);
    assert!(matches!(ctx.wait_for_fc(false), FcWait::Waiting));
    // Now add a real FC
    ctx.add_system(1);
    assert!(matches!(ctx.wait_for_fc(false), FcWait::Found(ids) if ids.contains(&1)));
}

// The shared context

#[test]
fn test_context_creation() {
    let ctx = new_context();
    assert_eq!(ctx.config.mavlink.local_mavlink_port, 5760);
    assert!(ctx.available_systems.is_empty());
}

#[test]
fn test_available_systems() {
    let mut ctx = new_context();
    assert!(!ctx.has_system(1));

    assert!(ctx.add_system(1)); // newly inserted
    assert!(ctx.has_system(1));

    assert!(ctx.add_system(2)); // newly inserted
    assert!(ctx.has_system(2));

    // Adding same system again is idempotent
    assert!(!ctx.add_system(1)); // already existed
    assert_eq!(ctx.available_systems.len(), 2);
}

#[test]
fn configured_system_id_wins() {
    let mut ctx = new_context();
    ctx.add_system(5);
    assert_eq!(ctx.self_sysid(), Some(1));
}

#[test]
fn system_id_zero_is_discovered() {
    let mut config = test_config();
    config.mavlink.self_sysid = 0;
    let mut ctx: Context<FakeModemAccess> = Context::new(config);
    assert_eq!(ctx.self_sysid(), None);
    ctx.add_system(255);
    assert_eq!(ctx.self_sysid(), Some(255));
    ctx.add_system(200);
    assert_eq!(ctx.self_sysid(), Some(200));
    ctx.add_system(17);
    ctx.add_system(9);
    assert_eq!(ctx.self_sysid(), Some(9));
    ctx.add_system(0);
    assert_eq!(ctx.self_sysid(), Some(0));
    let mut ids: Vec<u8> = ctx.get_fc_sysids().into_iter().collect();
    ids.sort();
    assert_eq!(ids, vec![9, 17]);
}

#[test]
fn test_sensor_values_initially_none() {
    let ctx = new_context();
    assert!(ctx.sensors.ping.is_none());
    assert!(ctx.sensors.lte.is_none());
    assert!(ctx.sensors.cpu_temp.is_none());
    assert!(ctx.sensors.system.is_none());
}

#[test]
fn test_sensor_values_ping_write_read() {
    let mut ctx = new_context();

    let reading = PingTelemetry {
        reachable: true,
        latency_ms: float("25.5"),
        loss_percent: 3,
    };
    ctx.sensors.ping = Some(reading);

    let stored = ctx.sensors.ping.as_ref().unwrap();
    assert!(stored.reachable);
    assert_eq!(stored.latency_ms.as_str(), "25.5");
    assert_eq!(stored.loss_percent, 3);
}

#[test]
fn test_sensor_values_lte_write_read() {
    let mut ctx = new_context();

    let reading = LteReading {
        imsi: String::new(),
        signal: LteSignalQuality {
            rsrq: -10,
            rsrp: -85,
            rssi: -60,
            rssnr: 15,
            earfcn: 1300,
            tx_power: 23,
            pcid: 42,
        },
        neighbors: HashMap::new(),
    };
    ctx.sensors.lte = Some(reading);

    let stored = ctx.sensors.lte.as_ref().unwrap();
    assert_eq!(stored.signal.rsrp, -85);
    assert_eq!(stored.signal.pcid, 42);
}

#[test]
fn test_sensor_values_cpu_temp_write_read() {
    let mut ctx = new_context();

    ctx.sensors.cpu_temp = Some(CpuTempTelemetry { millidegrees_c: 42500 });

    let stored = ctx.sensors.cpu_temp.as_ref().unwrap();
    assert_eq!(stored.millidegrees_c as f64 / 1000.0, 42.5);
}

#[test]
fn test_modem_initially_none() {
    let ctx = new_context();
    assert!(ctx.get_modem().is_none());
}

#[test]
fn test_set_and_get_modem() {
    let mut ctx: Context<&str> = Context::new(test_config());
    ctx.set_modem("FAKE_MODEM");

    let retrieved = ctx.get_modem();
    assert!(retrieved.is_some());
    assert_eq!(*retrieved.unwrap(), "FAKE_MODEM");
}
