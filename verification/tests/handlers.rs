use unitctl::config::{
    CameraConfig, Config, FcConfig, FluentbitConfig, GeneralConfig, LteSensorConfig, MavlinkConfig,
    MqttConfig, PingSensorConfig, SensorsConfig, SystemSensorConfig,
};
use unitctl::number::Binary64;
use unitctl::messages::commands::{
    CommandEnvelope, CommandPayload, CommandResultData, GetConfigPayload, GetConfigResult,
    ModemCommandPayload, ModemCommandResult, UpdateRequestPayload, UpdateRequestResult,
};
use unitctl::services::modem_access::fake::FakeModemAccess;
use unitctl::services::modem_access::{ModemAccess, ModemError, NetworkRegistration};
use unitctl::services::mqtt::commands::{CommandHandler, CommandResult};
use unitctl::services::mqtt::handlers::get_config::GetConfigHandler;
use unitctl::services::mqtt::handlers::modem_commands::{
    is_allowed_at_command, ModemCommandsHandler, ModemQuery,
};
use unitctl::services::mqtt::handlers::update_request::UpdateRequestHandler;
use unitctl::time::Timestamp;

/// The number of seconds as the configuration holds it.
fn secs(x: f64) -> Binary64 {
    Binary64 { bits: x.to_bits() }
}

fn test_config() -> Config {
    Config {
        general: GeneralConfig {
            debug: false,
            interface: "eth0".to_string(),
            env_dir: "/var/run/unitctl".to_string(),
            ca_cert_path: Some("/etc/unitctl/certs/ca.pem".to_string()),
            client_cert_path: Some("/etc/unitctl/certs/client.pem".to_string()),
            client_key_path: Some("/etc/unitctl/certs/client.key".to_string()),
        },
        mavlink: MavlinkConfig {
            protocol: "tcpout".to_string(),
            host: "127.0.0.1".to_string(),
            local_mavlink_port: 5760,
            remote_mavlink_port: 5760,
            self_sysid: 1,
            self_compid: 10,
            gcs_sysid: 255,
            gcs_compid: 190,
            sniffer_sysid: 199,
            bs_sysid: 200,
            iteration_period_ms: 10,
            gcs_ip: "10.101.0.1".to_string(),
            env_path: "/etc/mavlink.env".to_string(),
            fc: FcConfig { tty: "/dev/ttyFC".to_string(), baudrate: 57600 },
        },
        sensors: SensorsConfig {
            default_interval_s: secs(5.0),
            ping: PingSensorConfig {
                enabled: true,
                interval_s: None,
                host: "10.45.0.2".to_string(),
            },
            lte: LteSensorConfig {
                enabled: true,
                interval_s: None,
                neighbor_expiry_s: secs(30.0),
                modem_type: "dbus".to_string(),
            },
            system: SystemSensorConfig { enabled: true, interval_s: None },
        },
        camera: CameraConfig {
            gcs_ip: "10.101.0.1".to_string(),
            env_path: "/etc/camera.env".to_string(),
            remote_video_port: 5600,
            width: 640,
            height: 360,
            framerate: 60,
            bitrate: 1664000,
            flip: 0,
            camera_type: "rpi".to_string(),
            device: "/dev/video1".to_string(),
        },
        mqtt: MqttConfig {
            enabled: false,
            host: "mqtt.example.com".to_string(),
            port: 8883,
            env_prefix: "test".to_string(),
            telemetry_interval_s: secs(1.0),
        },
        fluentbit: FluentbitConfig {
            enabled: false,
            host: "logs.example.com".to_string(),
            port: 24224,
            tls: true,
            tls_verify: true,
            config_path: "/etc/fluent-bit.conf".to_string(),
            systemd_filter: None,
        },
    }
}

fn envelope(payload: CommandPayload) -> CommandEnvelope {
    CommandEnvelope {
        uuid: "test-uuid".to_string(),
        issued_at: Timestamp::now(),
        ttl_sec: 300,
        payload,
    }
}

// get_config

fn get_config_envelope() -> CommandEnvelope {
    envelope(CommandPayload::GetConfig(GetConfigPayload {}))
}

fn extract_config(result: &CommandResult) -> &GetConfigResult {
    match &result.data {
        CommandResultData::GetConfig(r) => r,
        _ => panic!("expected GetConfig result"),
    }
}

#[test]
fn test_get_config_handler_returns_config() {
    let config = test_config();
    let mut handler = GetConfigHandler::new(&config);

    let result = handler.handle(&get_config_envelope()).unwrap();
    let config = &extract_config(&result).config;
    // Verify key config sections are present
    assert!(!config.general.debug); // test_config has debug=false
    assert!(!config.mavlink.host.is_empty());
    assert!(!config.mqtt.host.is_empty());
}

#[test]
fn test_get_config_handler_config_values() {
    let config = test_config();
    let mut handler = GetConfigHandler::new(&config);

    let result = handler.handle(&get_config_envelope()).unwrap();
    let config = &extract_config(&result).config;

    assert!(!config.general.debug);
    assert_eq!(config.mavlink.host, "127.0.0.1");
    assert!(!config.mqtt.enabled);
}

#[test]
fn test_get_config_handler_redacts_cert_paths() {
    let config = test_config();
    let mut handler = GetConfigHandler::new(&config);

    let result = handler.handle(&get_config_envelope()).unwrap();
    let general = &extract_config(&result).config.general;
    assert_eq!(general.ca_cert_path.as_deref(), Some("***"));
    assert_eq!(general.client_cert_path.as_deref(), Some("***"));
    assert_eq!(general.client_key_path.as_deref(), Some("***"));
}

#[test]
fn test_get_config_handler_uses_safe_config() {
    let config = test_config();
    let mut handler = GetConfigHandler::new(&config);

    let result = handler.handle(&get_config_envelope()).unwrap();
    let config = &extract_config(&result).config;
    assert_eq!(config.general.ca_cert_path.as_deref(), Some("***"));
    assert_eq!(config.general.client_cert_path.as_deref(), Some("***"));
    assert_eq!(config.general.client_key_path.as_deref(), Some("***"));
}

#[test]
fn test_get_config_handler_wrong_payload_variant() {
    let config = test_config();
    let mut handler = GetConfigHandler::new(&config);

    let err = handler.handle(&modem_envelope("ATI", None)).unwrap_err();
    assert!(err.message.contains("expected GetConfig payload"));
}

// update_request

fn update_envelope(version: &str, url: &str) -> CommandEnvelope {
    envelope(CommandPayload::UpdateRequest(UpdateRequestPayload {
        version: version.to_string(),
        url: url.to_string(),
    }))
}

fn extract_update(result: &CommandResult) -> &UpdateRequestResult {
    match &result.data {
        CommandResultData::UpdateRequest(r) => r,
        _ => panic!("expected UpdateRequest result"),
    }
}

#[test]
fn test_update_request_handler_with_version() {
    let mut handler = UpdateRequestHandler::new();
    let envelope = update_envelope("2.1.0", "https://updates.example.com/v2.1.0");

    let result = handler.handle(&envelope).unwrap();
    assert_eq!(extract_update(&result).version, "2.1.0");
}

#[test]
fn test_update_request_handler_wrong_payload_variant() {
    let mut handler = UpdateRequestHandler::new();

    let err = handler.handle(&get_config_envelope()).unwrap_err();
    assert!(err.message.contains("expected UpdateRequest payload"));
}

#[test]
fn test_update_request_handler_result_is_typed() {
    let mut handler = UpdateRequestHandler::new();
    let envelope = update_envelope("3.0.0", "https://updates.example.com/v3.0.0");

    let result = handler.handle(&envelope).unwrap();
    let typed = extract_update(&result);
    assert_eq!(typed.version, "3.0.0");
    assert!(typed.message.contains("placeholder"));
}

// modem_commands

struct MockModem {
    response: Result<String, ModemError>,
    log: Vec<(String, u32)>,
}

impl MockModem {
    fn answering(response: Result<String, ModemError>) -> Option<MockModem> {
        Some(MockModem { response, log: Vec::new() })
    }
}

impl ModemAccess for MockModem {
    fn model(&mut self) -> Result<String, ModemError> {
        Ok("MOCK_MODEM".to_string())
    }

    fn command(&mut self, cmd: &str, timeout_ms: u32) -> Result<String, ModemError> {
        self.log.push((cmd.to_string(), timeout_ms));
        self.response.clone()
    }

    fn imsi(&mut self) -> Result<String, ModemError> {
        self.response.clone()
    }

    fn registration_status(&mut self) -> Result<NetworkRegistration, ModemError> {
        Err(ModemError::NoModem)
    }
}

fn modem_envelope(command: &str, timeout_ms: Option<u32>) -> CommandEnvelope {
    envelope(CommandPayload::ModemCommands(ModemCommandPayload {
        command: command.to_string(),
        timeout_ms,
    }))
}

fn extract_result(result: &CommandResult) -> &ModemCommandResult {
    match &result.data {
        CommandResultData::ModemCommands(r) => r,
        _ => panic!("expected ModemCommands result"),
    }
}

#[test]
fn test_modem_command_success() {
    let mut modem = MockModem::answering(Ok("+CSQ: 15,99".to_string()));
    let handler = ModemCommandsHandler::new();

    let result = handler.handle(&modem_envelope("AT+CSQ", None), &mut modem).unwrap();
    let typed = extract_result(&result);
    assert_eq!(typed.command, "AT+CSQ");
    assert_eq!(typed.response, "+CSQ: 15,99");
    assert_eq!(modem.unwrap().log, vec![("AT+CSQ".to_string(), 5000)]);
}

#[test]
fn test_modem_command_with_custom_timeout() {
    let mut modem = MockModem::answering(Ok("OK".to_string()));
    let handler = ModemCommandsHandler::new();

    let result = handler.handle(&modem_envelope("ATI", Some(10000)), &mut modem).unwrap();
    extract_result(&result); // just verify it's the right variant
    assert_eq!(modem.unwrap().log, vec![("ATI".to_string(), 10000)]);
}

#[test]
fn timeouts_are_capped() {
    let handler = ModemCommandsHandler::new();
    let query = handler.request(&modem_envelope("ATI", Some(30_001))).unwrap();
    assert_eq!(query.timeout_ms, 30_000);
    let query = handler.request(&modem_envelope("ATI", Some(0))).unwrap();
    assert_eq!(query.timeout_ms, 0);
}

#[test]
fn test_modem_command_wrong_payload_variant() {
    let handler = ModemCommandsHandler::new();
    let mut modem: Option<FakeModemAccess> = None;

    let err = handler.handle(&get_config_envelope(), &mut modem).unwrap_err();
    assert!(err.message.contains("expected ModemCommands payload"));
}

#[test]
fn test_modem_command_no_modem_available() {
    let handler = ModemCommandsHandler::new();
    // Don't set modem — it stays None
    let mut modem: Option<FakeModemAccess> = None;

    let err = handler.handle(&modem_envelope("AT+CSQ", None), &mut modem).unwrap_err();
    assert!(err.message.contains("modem not available"));
}

#[test]
fn test_modem_command_at_error() {
    let mut modem = MockModem::answering(Err(ModemError::Timeout));
    let handler = ModemCommandsHandler::new();

    let err = handler.handle(&modem_envelope("AT+CSQ", None), &mut modem).unwrap_err();
    assert!(err.message.contains("AT command"));
    assert!(err.message.contains("failed"));
    assert_eq!(err.message, "AT command 'AT+CSQ' failed: AT command timeout");
}

#[test]
fn test_allowed_at_commands() {
    // Safe prefixes — any suffix OK
    assert!(is_allowed_at_command("AT+CSQ"));
    assert!(is_allowed_at_command("ATI"));
    assert!(is_allowed_at_command("AT+CIMI"));
    assert!(is_allowed_at_command("at+csq")); // case insensitive

    // Query-only commands — only ?, =?, or bare form allowed
    assert!(is_allowed_at_command("AT+COPS?"));
    assert!(is_allowed_at_command("AT+COPS=?"));
    assert!(is_allowed_at_command("AT+COPS"));
    assert!(is_allowed_at_command("AT+CEREG?"));
    assert!(is_allowed_at_command("AT+CGDCONT?"));
    assert!(is_allowed_at_command("AT+CGDCONT=?"));
    assert!(is_allowed_at_command("AT+QENG?"));
    assert!(is_allowed_at_command("AT+QENG=?"));
    assert!(is_allowed_at_command("AT+QNWINFO?"));
    assert!(is_allowed_at_command("AT+QSPN?"));
}

#[test]
fn test_blocked_at_commands() {
    assert!(!is_allowed_at_command("AT+CFUN=0")); // disable radio
    assert!(!is_allowed_at_command("AT+QPOWD=0")); // power off modem
    assert!(!is_allowed_at_command("ATD12345")); // dial
    assert!(!is_allowed_at_command("AT&F")); // factory reset
    assert!(!is_allowed_at_command("AT+CLCK")); // facility lock
    assert!(!is_allowed_at_command("")); // empty

    // Write forms of query-only commands must be blocked
    assert!(!is_allowed_at_command("AT+COPS=1,2,\"name\"")); // set operator
    assert!(!is_allowed_at_command("AT+CGDCONT=1,\"IP\",\"apn\"")); // modify PDP
    assert!(!is_allowed_at_command("AT+CEREG=2")); // set URC mode
    assert!(!is_allowed_at_command("AT+CREG=1")); // set URC mode
    assert!(!is_allowed_at_command("AT+CGREG=2")); // set URC mode
    assert!(!is_allowed_at_command("AT+QENG=\"servingcell\"")); // write form
    assert!(!is_allowed_at_command("AT+QENG=0")); // enable/disable reporting

    // Semicolon command chaining must be blocked
    assert!(!is_allowed_at_command("AT+CSQ;AT+CFUN=0"));
    assert!(!is_allowed_at_command("AT+CIMI;ATD12345"));
}

#[test]
fn allowance_ignores_case_and_white_space() {
    assert!(is_allowed_at_command("  aT+cOpS? \r\n"));
    assert!(!is_allowed_at_command(" at+cops=1 "));
    assert!(!is_allowed_at_command("AT+COPS="));
    assert!(!is_allowed_at_command("AT+CSQ\u{7f}"));
    assert!(!is_allowed_at_command("AT+CSQ\u{ff1b}"));
    assert!(!is_allowed_at_command("AT+CSQ\tX"));
}

#[test]
fn test_modem_command_blocked_command() {
    let mut modem = MockModem::answering(Ok("OK".to_string()));
    let handler = ModemCommandsHandler::new();

    let err = handler.handle(&modem_envelope("AT+CFUN=0", None), &mut modem).unwrap_err();
    assert!(err.message.contains("not allowed"));
    assert_eq!(err.message, "AT command 'AT+CFUN=0' is not allowed");
    assert!(modem.unwrap().log.is_empty());
}

#[test]
fn test_modem_command_result_is_typed() {
    let mut modem = MockModem::answering(Ok("+CSQ: 15,99".to_string()));
    let handler = ModemCommandsHandler::new();

    let result = handler.handle(&modem_envelope("AT+CSQ", None), &mut modem).unwrap();
    let typed = extract_result(&result);
    assert_eq!(typed.command, "AT+CSQ");
    assert_eq!(typed.response, "+CSQ: 15,99");
}

#[test]
fn test_modem_command_dbus_error() {
    let mut modem = MockModem::answering(Err(ModemError::Dbus("connection refused".to_string())));
    let handler = ModemCommandsHandler::new();

    let err = handler.handle(&modem_envelope("ATI", None), &mut modem).unwrap_err();
    assert!(err.message.contains("failed"));
}

#[test]
fn replies_are_concluded() {
    let handler = ModemCommandsHandler::new();
    let query = ModemQuery { command: "ATI".to_string(), timeout_ms: 1 };
    let done = handler.conclude(&query, Some(Ok("EM12".to_string()))).unwrap();
    assert_eq!(extract_result(&done).response, "EM12");
    assert_eq!(handler.conclude(&query, None).unwrap_err().message, "modem not available");
}
