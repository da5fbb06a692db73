use unitctl::services::modem_access::dbus::{command_error, modem_paths};
use unitctl::services::modem_access::fake::FakeModemAccess;
use unitctl::services::modem_access::{
    detect_modem_type, discover_modem, discovery_cancelled, first_step, imsi_by_command, next_step,
    parse_registration_response, registration_by_commands, request_result, send_at_command, serve,
    serve_all, Awaited, Discovery, ModemAccess, ModemError, ModemReply, ModemRequest, ModemStep,
    ModemType, NetworkRegistration, RequestOutcome,
};

struct MockModem {
    model_response: Result<String, ModemError>,
    command_responses: Vec<Result<String, ModemError>>,
    command_log: Vec<String>,
}

impl MockModem {
    fn with_model(model: &str) -> Self {
        Self {
            model_response: Ok(model.to_string()),
            command_responses: Vec::new(),
            command_log: Vec::new(),
        }
    }

    fn with_model_error(err: ModemError) -> Self {
        Self {
            model_response: Err(err),
            command_responses: Vec::new(),
            command_log: Vec::new(),
        }
    }

    fn with_command_response(mut self, response: Result<String, ModemError>) -> Self {
        self.command_responses.push(response);
        self
    }
}

impl ModemAccess for MockModem {
    fn model(&mut self) -> Result<String, ModemError> {
        self.model_response.clone()
    }

    fn command(&mut self, cmd: &str, _timeout_ms: u32) -> Result<String, ModemError> {
        self.command_log.push(cmd.to_string());
        if self.command_responses.is_empty() {
            return Err(ModemError::Dbus("no mock response configured".to_string()));
        }
        self.command_responses.remove(0)
    }

    fn imsi(&mut self) -> Result<String, ModemError> {
        imsi_by_command(self)
    }

    fn registration_status(&mut self) -> Result<NetworkRegistration, ModemError> {
        registration_by_commands(self)
    }
}

// Modem types

#[test]
fn test_detect_simcom_7600() {
    assert_eq!(
        detect_modem_type("SIMCOM_SIM7600G-H"),
        Some(ModemType::Simcom7600)
    );
}

#[test]
fn test_detect_quectel_em12() {
    assert_eq!(detect_modem_type("EM12"), Some(ModemType::QuectelEm12));
}

#[test]
fn test_detect_quectel_em06e() {
    assert_eq!(detect_modem_type("EM06"), Some(ModemType::QuectelEm06E));
}

#[test]
fn test_detect_quectel_em06gl() {
    assert_eq!(
        detect_modem_type("EM060K-GL"),
        Some(ModemType::QuectelEm06GL)
    );
}

#[test]
fn test_detect_unknown_model() {
    assert_eq!(detect_modem_type("UNKNOWN_MODEM_XYZ"), None);
}

#[test]
fn test_detect_empty_model() {
    assert_eq!(detect_modem_type(""), None);
}

#[test]
fn test_detect_em06gl_before_em06e() {
    assert_eq!(
        detect_modem_type("EM060K-GL"),
        Some(ModemType::QuectelEm06GL)
    );
}

#[test]
fn test_detect_model_with_extra_text() {
    assert_eq!(
        detect_modem_type("Quectel EM12-G"),
        Some(ModemType::QuectelEm12)
    );
}

#[test]
fn test_detect_partial_match_simcom() {
    assert_eq!(
        detect_modem_type("Some prefix SIMCOM_SIM7600G-H Rev1.0"),
        Some(ModemType::Simcom7600)
    );
}

#[test]
fn test_modem_type_display() {
    assert_eq!(ModemType::Simcom7600.to_string(), "SIMCOM_7600");
    assert_eq!(ModemType::QuectelEm12.to_string(), "QUECTEL_EM12");
    assert_eq!(ModemType::QuectelEm06E.to_string(), "QUECTEL_EM06E");
    assert_eq!(ModemType::QuectelEm06GL.to_string(), "QUECTEL_EM06GL");
}

// Discovery

#[test]
fn test_discover_modem_simcom() {
    let mut mock = MockModem::with_model("SIMCOM_SIM7600G-H");
    let result = discover_modem(&mut mock);
    assert!(result.is_ok());
    assert_eq!(result.unwrap(), ModemType::Simcom7600);
}

#[test]
fn test_discover_modem_quectel_em12() {
    let mut mock = MockModem::with_model("EM12");
    let result = discover_modem(&mut mock);
    assert!(result.is_ok());
    assert_eq!(result.unwrap(), ModemType::QuectelEm12);
}

#[test]
fn test_discover_modem_unsupported() {
    let mut mock = MockModem::with_model("UNKNOWN_MODEM");
    let result = discover_modem(&mut mock);
    assert!(result.is_err());
    match result.unwrap_err() {
        ModemError::UnsupportedModem(model) => assert_eq!(model, "UNKNOWN_MODEM"),
        e => panic!("expected UnsupportedModem, got: {:?}", e),
    }
}

#[test]
fn test_discover_modem_dbus_error() {
    let mut mock = MockModem::with_model_error(ModemError::Dbus("connection refused".into()));
    let result = discover_modem(&mut mock);
    assert!(result.is_err());
    match result.unwrap_err() {
        ModemError::Dbus(_) => {}
        e => panic!("expected Dbus error, got: {:?}", e),
    }
}

#[test]
fn discovery_round_remembers_the_last_reason() {
    let mut round = Discovery::new();
    assert_eq!(round.reason, "no modems found");
    assert_eq!(round.try_modem(Err(ModemError::Timeout)), None);
    assert_eq!(round.reason, "AT command timeout");
    assert_eq!(round.try_modem(Ok("FOO".to_string())), None);
    assert_eq!(round.reason, "unsupported modem model: FOO");
    assert_eq!(round.try_modem(Ok("EM12".to_string())), Some(ModemType::QuectelEm12));
    assert_eq!(round.reason, "unsupported modem model: FOO");
    assert_eq!(discovery_cancelled().to_string(), "D-Bus error: cancelled during discovery");
}

#[test]
fn modems_among_managed_objects() {
    let objects = vec![
        "/org/freedesktop/ModemManager1/SIM/0".to_string(),
        "/org/freedesktop/ModemManager1/Modem/1".to_string(),
        "/org/freedesktop/ModemManager1/Modem/0".to_string(),
    ];
    assert_eq!(
        modem_paths(&objects).unwrap(),
        vec![
            "/org/freedesktop/ModemManager1/Modem/1",
            "/org/freedesktop/ModemManager1/Modem/0"
        ]
    );
    assert!(matches!(modem_paths(&Vec::new()), Err(ModemError::NoModem)));
}

#[test]
fn failed_calls_are_timeouts_by_their_message() {
    assert!(matches!(command_error("GDBus: Timeout was reached"), ModemError::Timeout));
    assert!(matches!(command_error("serial command timeout"), ModemError::Timeout));
    assert_eq!(
        command_error("denied").to_string(),
        "D-Bus error: AT command failed: denied"
    );
}

// AT commands

#[test]
fn test_at_command_success() {
    let mut mock = MockModem::with_model("EM12")
        .with_command_response(Ok("+QENG: \"servingcell\",\"NOCONN\"".to_string()));
    let result = send_at_command(&mut mock, "AT+QENG=\"servingcell\"", 3000);
    assert!(result.is_ok());
    assert_eq!(result.unwrap(), "+QENG: \"servingcell\",\"NOCONN\"");
}

#[test]
fn test_at_command_timeout() {
    let mut mock = MockModem::with_model("EM12").with_command_response(Err(ModemError::Timeout));
    let result = send_at_command(&mut mock, "AT+QENG=\"servingcell\"", 3000);
    assert!(result.is_err());
    match result.unwrap_err() {
        ModemError::Timeout => {}
        e => panic!("expected Timeout, got: {:?}", e),
    }
}

#[test]
fn test_at_command_dbus_error() {
    let mut mock = MockModem::with_model("EM12")
        .with_command_response(Err(ModemError::Dbus("method call failed".into())));
    let result = send_at_command(&mut mock, "AT+CPSI?", 3000);
    assert!(result.is_err());
    match result.unwrap_err() {
        ModemError::Dbus(msg) => assert!(msg.contains("method call failed")),
        e => panic!("expected Dbus error, got: {:?}", e),
    }
}

#[test]
fn test_at_command_empty_response() {
    let mut mock = MockModem::with_model("EM12").with_command_response(Ok(String::new()));
    let result = send_at_command(&mut mock, "AT", 3000);
    assert!(result.is_ok());
    assert_eq!(result.unwrap(), "");
}

#[test]
fn test_modem_error_display() {
    assert_eq!(ModemError::Dbus("test".into()).to_string(), "D-Bus error: test");
    assert_eq!(ModemError::Timeout.to_string(), "AT command timeout");
    assert_eq!(ModemError::NoModem.to_string(), "no modem found");
    assert_eq!(
        ModemError::UnsupportedModem("FOO".into()).to_string(),
        "unsupported modem model: FOO"
    );
}

// Network registration

#[test]
fn test_network_registration_from_code() {
    assert_eq!(
        NetworkRegistration::from_code(0),
        NetworkRegistration::NotRegistered
    );
    assert_eq!(
        NetworkRegistration::from_code(1),
        NetworkRegistration::RegisteredHome
    );
    assert_eq!(
        NetworkRegistration::from_code(2),
        NetworkRegistration::Searching
    );
    assert_eq!(
        NetworkRegistration::from_code(3),
        NetworkRegistration::Denied
    );
    assert_eq!(
        NetworkRegistration::from_code(4),
        NetworkRegistration::Unknown
    );
    assert_eq!(
        NetworkRegistration::from_code(5),
        NetworkRegistration::RegisteredRoaming
    );
    assert_eq!(
        NetworkRegistration::from_code(99),
        NetworkRegistration::Unknown
    );
}

#[test]
fn test_parse_creg_registered_home() {
    let resp = "+CREG: 0,1";
    assert_eq!(
        parse_registration_response(resp),
        Some(NetworkRegistration::RegisteredHome)
    );
}

#[test]
fn test_parse_cereg_registered_roaming() {
    let resp = "+CEREG: 0,5";
    assert_eq!(
        parse_registration_response(resp),
        Some(NetworkRegistration::RegisteredRoaming)
    );
}

#[test]
fn test_parse_creg_with_extra_fields() {
    // Some modems return extra location fields: +CREG: <n>,<stat>,<lac>,<ci>
    let resp = "+CREG: 2,1,\"1234\",\"5678\"";
    assert_eq!(
        parse_registration_response(resp),
        Some(NetworkRegistration::RegisteredHome)
    );
}

#[test]
fn test_parse_registration_no_match() {
    let resp = "OK";
    assert_eq!(parse_registration_response(resp), None);
}

#[test]
fn test_parse_registration_searching() {
    let resp = "+CEREG: 0,2";
    assert_eq!(
        parse_registration_response(resp),
        Some(NetworkRegistration::Searching)
    );
}

#[test]
fn standard_responses_report_their_code() {
    for code in 0..=255u8 {
        for head in ["+CREG: ", "+CEREG: "] {
            let response = format!("{}2,{}\r\nOK", head, code);
            assert_eq!(
                parse_registration_response(&response),
                Some(NetworkRegistration::from_code(code))
            );
        }
    }
    assert_eq!(parse_registration_response("+CREG: 0,256"), None);
    assert_eq!(parse_registration_response("+CREG: 1"), None);
    assert_eq!(
        parse_registration_response("noise\n+CREG: x,y\n  +CEREG:0, 3 \n+CREG: 0,1"),
        Some(NetworkRegistration::Denied)
    );
}

// The request queue

#[test]
fn test_service_model_via_queue() {
    let mut mock = MockModem::with_model("EM12");
    let reply = serve(&mut mock, &ModemRequest::Model);
    assert!(matches!(reply, ModemReply::Text(Ok(model)) if model == "EM12"));
}

#[test]
fn test_service_command_via_queue() {
    let mut mock =
        MockModem::with_model("EM12").with_command_response(Ok("+CSQ: 20,99".to_string()));
    let request = ModemRequest::Command { cmd: "AT+CSQ".to_string(), timeout_ms: 3000 };
    let reply = serve(&mut mock, &request);
    assert!(matches!(reply, ModemReply::Text(Ok(text)) if text == "+CSQ: 20,99"));
    assert_eq!(mock.command_log, vec!["AT+CSQ"]);
}

#[test]
fn test_service_imsi_via_queue() {
    let mut mock = MockModem::with_model("EM12")
        .with_command_response(Ok("310260123456789\r\n".to_string()));
    let reply = serve(&mut mock, &ModemRequest::Imsi);
    assert!(matches!(reply, ModemReply::Text(Ok(imsi)) if imsi == "310260123456789"));
    assert_eq!(mock.command_log, vec!["AT+CIMI"]);
}

#[test]
fn test_service_registration_status_via_queue() {
    let mut mock =
        MockModem::with_model("EM12").with_command_response(Ok("+CEREG: 0,1".to_string()));
    let reply = serve(&mut mock, &ModemRequest::RegistrationStatus);
    assert!(matches!(
        reply,
        ModemReply::Registration(Ok(NetworkRegistration::RegisteredHome))
    ));
    assert_eq!(mock.command_log, vec!["AT+CEREG?"]);
}

#[test]
fn test_service_registration_falls_back_to_creg() {
    // First response (AT+CEREG?) fails, second (AT+CREG?) succeeds
    let mut mock = MockModem::with_model("EM12")
        .with_command_response(Err(ModemError::Dbus("not supported".into())))
        .with_command_response(Ok("+CREG: 0,5".to_string()));
    let reply = serve(&mut mock, &ModemRequest::RegistrationStatus);
    assert!(matches!(
        reply,
        ModemReply::Registration(Ok(NetworkRegistration::RegisteredRoaming))
    ));
    assert_eq!(mock.command_log, vec!["AT+CEREG?", "AT+CREG?"]);
}

#[test]
fn unreadable_registration_is_an_error() {
    let mut mock = MockModem::with_model("EM12")
        .with_command_response(Ok("OK".to_string()))
        .with_command_response(Ok("OK".to_string()));
    assert_eq!(
        registration_by_commands(&mut mock).unwrap_err().to_string(),
        "D-Bus error: failed to parse registration status"
    );
}

#[test]
fn test_service_concurrent_commands_serialized() {
    let mut mock = MockModem::with_model("EM12")
        .with_command_response(Ok("resp1".to_string()))
        .with_command_response(Ok("resp2".to_string()))
        .with_command_response(Ok("resp3".to_string()));
    let requests: Vec<ModemRequest> = ["CMD1", "CMD2", "CMD3"]
        .iter()
        .map(|cmd| ModemRequest::Command { cmd: cmd.to_string(), timeout_ms: 3000 })
        .collect();
    let replies = serve_all(&mut mock, &requests);

    // All should succeed
    assert_eq!(replies.len(), 3);
    for reply in &replies {
        assert!(matches!(reply, ModemReply::Text(Ok(_))));
    }
    // One after the other
    assert_eq!(mock.command_log, vec!["CMD1", "CMD2", "CMD3"]);
}

#[test]
fn requests_end_in_a_result() {
    let lost: Result<String, ModemError> = request_result(RequestOutcome::QueueClosed);
    assert_eq!(lost.unwrap_err().to_string(), "D-Bus error: modem service shut down");
    let dropped: Result<String, ModemError> = request_result(RequestOutcome::ReplyDropped);
    assert_eq!(dropped.unwrap_err().to_string(), "D-Bus error: modem worker dropped reply");
    let late: Result<String, ModemError> = request_result(RequestOutcome::TimedOut);
    assert!(matches!(late, Err(ModemError::Timeout)));
    let replied = request_result(RequestOutcome::Replied(Ok(5u8)));
    assert!(matches!(replied, Ok(5)));
}

// The simulated modem

#[test]
fn test_model_returns_em12() {
    let mut modem = FakeModemAccess::new();
    assert_eq!(modem.model().unwrap(), "EM12");
}

#[test]
fn test_unknown_command_returns_ok() {
    let mut modem = FakeModemAccess::new();
    assert_eq!(modem.command("AT+UNKNOWN", 1000).unwrap(), "OK");
}

#[test]
fn test_imsi_returns_fixed_value() {
    let mut modem = FakeModemAccess::new();
    assert_eq!(modem.imsi().unwrap(), "001010123456789");
}

#[test]
fn test_cimi_command_returns_imsi_payload() {
    let mut modem = FakeModemAccess::new();
    let resp = modem.command("AT+CIMI", 1000).unwrap();
    assert!(
        resp.contains("001010123456789"),
        "expected IMSI in response, got {:?}",
        resp
    );
}

#[test]
fn test_cereg_returns_registered_home() {
    let mut modem = FakeModemAccess::new();
    let resp = modem.command("AT+CEREG?", 1000).unwrap();
    assert!(resp.contains("+CEREG: 0,1"), "got {:?}", resp);
}

#[test]
fn test_creg_returns_registered_home() {
    let mut modem = FakeModemAccess::new();
    let resp = modem.command("AT+CREG?", 1000).unwrap();
    assert!(resp.contains("+CREG: 0,1"), "got {:?}", resp);
}

#[test]
fn test_registration_status_round_trips() {
    let mut modem = FakeModemAccess::new();
    assert_eq!(
        modem.registration_status().unwrap(),
        NetworkRegistration::RegisteredHome
    );
}

fn serving_values(response: &str) -> Vec<i32> {
    let fields: Vec<&str> = response.lines().next().unwrap().split(',').collect();
    [7, 8, 13, 14, 15, 16].iter().map(|i| fields[*i].parse().unwrap()).collect()
}

#[test]
fn test_servingcell_round_trips_through_em12_parser() {
    let mut modem = FakeModemAccess::new();
    let resp = modem.command("AT+QENG=\"servingcell\"", 1000).unwrap();
    let values = serving_values(&resp);
    let (pcid, earfcn, rsrp, rsrq, rssi, rssnr) =
        (values[0], values[1], values[2], values[3], values[4], values[5]);
    assert!(rsrp <= -60 && rsrp >= -140, "rsrp={}", rsrp);
    assert!(rsrq <= -3 && rsrq >= -20, "rsrq={}", rsrq);
    assert!(rssi <= -40 && rssi >= -110, "rssi={}", rssi);
    assert!(rssnr >= -10 && rssnr <= 30, "rssnr={}", rssnr);
    assert!(pcid >= 250 && pcid < 504, "pcid={}", pcid);
    assert!(earfcn > 0, "earfcn={}", earfcn);
}

#[test]
fn test_servingcell_values_drift_between_calls() {
    let mut modem = FakeModemAccess::new();
    let r1 = serving_values(&modem.command("AT+QENG=\"servingcell\"", 1000).unwrap());
    let r2 = serving_values(&modem.command("AT+QENG=\"servingcell\"", 1000).unwrap());
    // At least one numeric field must differ — otherwise nothing is drifting.
    assert!(
        r1[2] != r2[2] || r1[3] != r2[3] || r1[5] != r2[5],
        "values should drift between calls: {:?} vs {:?}",
        r1,
        r2
    );
}

#[test]
fn test_neighbourcell_returns_two_distinct_cells() {
    let mut modem = FakeModemAccess::new();
    let resp = modem.command("AT+QENG=\"neighbourcell\"", 1000).unwrap();
    let pcids: Vec<&str> = resp
        .lines()
        .filter(|line| line.starts_with("+QENG: \"neighbourcell"))
        .map(|line| line.split(',').nth(3).unwrap())
        .collect();
    assert_eq!(pcids.len(), 2, "from response {:?}", resp);
    assert_ne!(pcids[0], pcids[1], "neighbours must have distinct pcids");
}

#[test]
fn serving_record_of_the_first_query() {
    let mut modem = FakeModemAccess::new();
    assert_eq!(
        modem.command(" AT+QENG=\"servingcell\" ", 1000).unwrap(),
        "+QENG: \"servingcell\",\"NOCONN\",\"LTE\",\"FDD\",001,01,\"1A2B3C4D\",250,1850,3,5,5,\
         \"1234\",-99,-12,-69,1,10,-9,42\r\nOK"
    );
    assert_eq!(modem.counter, 1);
}

#[test]
fn counter_wraps_around() {
    let mut modem = FakeModemAccess { counter: u64::MAX };
    assert_eq!(modem.next_counter(), 0);
    assert_eq!(FakeModemAccess::default().counter, 0);
}

/// The command that a step sends, and what its reply is about.
fn sent(step: ModemStep) -> (String, u32, Awaited) {
    match step {
        ModemStep::Send { cmd, timeout_ms, awaited } => (cmd, timeout_ms, awaited),
        other => panic!("unexpected {other:?}"),
    }
}

#[test]
fn requests_are_served_step_by_step() {
    assert!(matches!(first_step(&ModemRequest::Model), ModemStep::AskModel));
    let request = ModemRequest::Command { cmd: "ATI".to_string(), timeout_ms: 7 };
    assert_eq!(sent(first_step(&request)), ("ATI".to_string(), 7, Awaited::Text));
    assert!(matches!(next_step(Awaited::Text, Ok(" a ".to_string())),
        ModemStep::Finish(ModemReply::Text(Ok(s))) if s == " a "));

    let imsi = sent(first_step(&ModemRequest::Imsi));
    assert_eq!(imsi, ("AT+CIMI".to_string(), 3000, Awaited::Imsi));
    assert!(matches!(next_step(Awaited::Imsi, Ok(" 123 \r\n".to_string())),
        ModemStep::Finish(ModemReply::Text(Ok(s))) if s == "123"));
}

#[test]
fn registration_falls_back_step_by_step() {
    let eps = sent(first_step(&ModemRequest::RegistrationStatus));
    assert_eq!(eps, ("AT+CEREG?".to_string(), 3000, Awaited::EpsRegistration));
    assert!(matches!(
        next_step(Awaited::EpsRegistration, Ok("+CEREG: 0,1".to_string())),
        ModemStep::Finish(ModemReply::Registration(Ok(NetworkRegistration::RegisteredHome)))
    ));
    let cs = sent(next_step(Awaited::EpsRegistration, Err(ModemError::Timeout)));
    assert_eq!(cs, ("AT+CREG?".to_string(), 3000, Awaited::CsRegistration));
    assert!(matches!(
        next_step(Awaited::CsRegistration, Ok("+CREG: 0,5".to_string())),
        ModemStep::Finish(ModemReply::Registration(Ok(NetworkRegistration::RegisteredRoaming)))
    ));
    match next_step(Awaited::CsRegistration, Ok("OK".to_string())) {
        ModemStep::Finish(ModemReply::Registration(Err(e))) => {
            assert_eq!(e.to_string(), "D-Bus error: failed to parse registration status")
        }
        other => panic!("unexpected {other:?}"),
    }
}
