use chrono::{TimeZone, Utc};
use unitctl::config::MqttConfig;
use unitctl::messages::commands::{
    CommandEnvelope, CommandPayload, CommandResultData, CommandState, GetConfigPayload,
    ModemCommandResult,
};
use unitctl::messages::status::StatusData;
use unitctl::messages::telemetry::{CpuTempTelemetry, PingTelemetry, TelemetryData};
use unitctl::net::{resolve_ipv4, InterfaceAddress, Ipv4};
use unitctl::number::{Binary64, FloatText};
use unitctl::sensors::SensorValues;
use unitctl::services::mqtt::commands::{
    closing, extract_command_name, opening, BridgeStep, CommandError, CommandHandler,
    CommandProcessor, CommandResult, CommandRun, CommandStep, DedupQueue, Disposition,
    HandlerOutcome, ProcessorStep, DEDUP_CAPACITY,
};
use unitctl::services::mqtt::status::{StatusPublisher, StatusStep};
use unitctl::services::mqtt::telemetry::TelemetryPublisher;
use unitctl::services::mqtt::transport::{
    generate_session_id, session_id_from, validate_topic_segment, FlushEvent, MqttEvent,
    MqttTransport, PollEvent, QoS, Received, TransportError,
};
use unitctl::time::Timestamp;

fn at(y: i32, mo: u32, d: u32, h: u32, mi: u32, s: u32) -> Timestamp {
    Timestamp { secs: Utc.with_ymd_and_hms(y, mo, d, h, mi, s).unwrap().timestamp(), nanos: 0 }
}

fn make_transport_fields(node_id: &str, env_prefix: &str) -> MqttTransport {
    MqttTransport {
        node_id: node_id.to_string(),
        env_prefix: env_prefix.to_string(),
        session_id: "abcdef".to_string(),
        last_connected_at: None,
    }
}

// Topics

#[test]
fn test_telemetry_topic() {
    let transport = make_transport_fields("drone-42", "prod");
    assert_eq!(
        transport.telemetry_topic("lte"),
        "prod/nodes/drone-42/telemetry/lte"
    );
    assert_eq!(
        transport.telemetry_topic("ping"),
        "prod/nodes/drone-42/telemetry/ping"
    );
    assert_eq!(
        transport.telemetry_topic("cpu_temp"),
        "prod/nodes/drone-42/telemetry/cpu_temp"
    );
}

#[test]
fn test_command_topic() {
    let transport = make_transport_fields("drone-42", "prod");
    assert_eq!(
        transport.command_topic("config_update", "in"),
        "prod/nodes/drone-42/cmnd/config_update/in"
    );
    assert_eq!(
        transport.command_topic("config_update", "status"),
        "prod/nodes/drone-42/cmnd/config_update/status"
    );
    assert_eq!(
        transport.command_topic("get_config", "result"),
        "prod/nodes/drone-42/cmnd/get_config/result"
    );
}

#[test]
fn test_telemetry_topic_different_env() {
    let transport = make_transport_fields("node-abc", "staging");
    assert_eq!(
        transport.telemetry_topic("lte"),
        "staging/nodes/node-abc/telemetry/lte"
    );
}

#[test]
fn test_command_topic_wildcard_subscription_pattern() {
    // Verify the topic structure matches what CommandProcessor will subscribe to
    let transport = make_transport_fields("drone-42", "prod");
    let in_topic = transport.command_topic("config_update", "in");
    // The wildcard pattern would be: prod/nodes/drone-42/cmnd/+/in
    let prefix = "prod/nodes/drone-42/cmnd/";
    assert!(in_topic.starts_with(&prefix));
    assert!(in_topic.ends_with("/in"));
    assert_eq!(transport.command_prefix(), prefix);
    let (topic, qos) = CommandProcessor::subscription(&transport);
    assert_eq!(topic, "prod/nodes/drone-42/cmnd/+/in");
    assert_eq!(qos, QoS::AtLeastOnce);
}

#[test]
fn absent_parts_of_a_command_topic_are_left_out() {
    let transport = make_transport_fields("drone-42", "prod");
    assert_eq!(transport.command_topic("", ""), "prod/nodes/drone-42/cmnd");
    assert_eq!(transport.command_topic("restart", ""), "prod/nodes/drone-42/cmnd/restart");
}

#[test]
fn test_node_id_accessor() {
    let transport = make_transport_fields("drone-42", "prod");
    assert_eq!(transport.node_id(), "drone-42");
}

#[test]
fn test_status_topic() {
    let transport = make_transport_fields("drone-42", "prod");
    assert_eq!(transport.status_topic(), "prod/nodes/drone-42/status");
}

#[test]
fn test_status_topic_different_env() {
    let transport = make_transport_fields("node-abc", "staging");
    assert_eq!(transport.status_topic(), "staging/nodes/node-abc/status");
}

#[test]
fn test_session_id_accessor() {
    let transport = make_transport_fields("drone-42", "prod");
    assert_eq!(transport.session_id(), "abcdef");
}

#[test]
fn test_generate_session_id_format() {
    let id = generate_session_id();
    assert_eq!(id.len(), 6, "session ID should be 6 characters");
    assert!(
        id.chars().all(|c| c.is_ascii_hexdigit()),
        "session ID should be hex: {id}"
    );
}

#[test]
fn session_ids_are_random() {
    let first = generate_session_id();
    assert!((0..20).any(|_| generate_session_id() != first));
}

#[test]
fn session_ids_are_lower_case_hex() {
    assert_eq!(session_id_from([0x00, 0x9f, 0xa3]), "009fa3");
    assert_eq!(session_id_from([0xff, 0x10, 0x0c]), "ff100c");
}

#[test]
fn topics_tell_nodes_apart() {
    let a = make_transport_fields("a", "x");
    let b = make_transport_fields("b", "x");
    let c = make_transport_fields("a", "y");
    assert_ne!(a.status_topic(), b.status_topic());
    assert_ne!(a.status_topic(), c.status_topic());
    assert_ne!(a.telemetry_topic("lte"), b.telemetry_topic("lte"));
    assert_ne!(a.command_topic("restart", "in"), a.command_topic("restart", "status"));
    assert_ne!(a.command_topic("restart", "in"), c.command_topic("restart", "in"));
}

// Topic segments

#[test]
fn test_validate_topic_segment_valid() {
    assert!(validate_topic_segment("drone-42", "test").is_ok());
    assert!(validate_topic_segment("prod", "test").is_ok());
    assert!(validate_topic_segment("node.abc", "test").is_ok());
}

#[test]
fn test_validate_topic_segment_forbidden_chars() {
    assert!(validate_topic_segment("drone+42", "test").is_err());
    assert!(validate_topic_segment("prod#env", "test").is_err());
    assert!(validate_topic_segment("a/b", "test").is_err());
    assert!(validate_topic_segment("null\0byte", "test").is_err());
}

#[test]
fn test_validate_topic_segment_empty() {
    assert!(validate_topic_segment("", "test").is_err());
}

#[test]
fn segment_errors_name_the_first_fault() {
    assert_eq!(
        validate_topic_segment("", "env_prefix").unwrap_err().to_string(),
        "invalid config: env_prefix must not be empty"
    );
    assert_eq!(
        validate_topic_segment("a#b+c", "node_id").unwrap_err().to_string(),
        "invalid config: node_id contains forbidden MQTT character: '#'"
    );
}

#[test]
fn transport_error_messages() {
    assert_eq!(TransportError::Tls("no key".to_string()).to_string(), "TLS error: no key");
    assert_eq!(
        TransportError::Client("queue full".to_string()).to_string(),
        "MQTT client error: queue full"
    );
}

// The connection

fn mqtt_config(env_prefix: &str) -> MqttConfig {
    MqttConfig { env_prefix: env_prefix.to_string(), ..MqttConfig::default() }
}

#[test]
fn connection_is_announced_by_a_will() {
    let now = at(2026, 3, 25, 12, 0, 0);
    let (transport, options) =
        MqttTransport::assemble(&mqtt_config("prod"), "drone-42", "c0ffee".to_string(), now)
            .unwrap();
    assert_eq!(transport.session_id(), "c0ffee");
    assert_eq!(options.client_id, "drone-42");
    assert_eq!((options.host.as_str(), options.port), ("mqtt.example.com", 8883));
    assert_eq!(options.keep_alive_secs, 30);
    assert!(!options.clean_session);
    assert_eq!(options.last_will.topic, "prod/nodes/drone-42/status");
    assert_eq!(options.last_will.qos, QoS::AtLeastOnce);
    assert!(options.last_will.retain);
    match &options.last_will.message.data {
        StatusData::Offline(d) => {
            assert_eq!(d.last_session, "c0ffee");
            assert_eq!(d.last_online, now);
        }
        _ => panic!("expected an offline will"),
    }
}

#[test]
fn names_unfit_for_topics_are_refused() {
    assert_eq!(
        MqttTransport::new(&mqtt_config("prod"), "a/b").unwrap_err().to_string(),
        "invalid config: node_id (certificate CN) contains forbidden MQTT character: '/'"
    );
    assert_eq!(
        MqttTransport::new(&mqtt_config(""), "node").unwrap_err().to_string(),
        "invalid config: env_prefix must not be empty"
    );
    let (transport, options) = MqttTransport::new(&mqtt_config("prod"), "node").unwrap();
    assert_eq!(transport.session_id().len(), 6);
    assert!(matches!(&options.last_will.message.data, StatusData::Offline(d)
        if d.last_session == transport.session_id));
}

#[test]
fn polled_packets_become_events() {
    let mut t = make_transport_fields("drone-42", "prod");
    let now = at(2026, 3, 25, 12, 0, 0);
    assert!(t.farewell(now).is_none());
    let failed = t.on_poll(PollEvent::Failed, now);
    assert!(matches!(failed.emit, Some(MqttEvent::Disconnected)));
    assert_eq!(failed.wait_secs, 1);
    assert!(t.farewell(now).is_none());
    let connected = t.on_poll(PollEvent::ConnAck, now);
    assert!(matches!(connected.emit, Some(MqttEvent::Connected)));
    assert_eq!(connected.wait_secs, 0);
    let publish = PollEvent::Publish { topic: "test/topic".to_string(), payload: b"hello".to_vec() };
    match t.on_poll(publish, now).emit {
        Some(MqttEvent::Message { topic, payload }) => {
            assert_eq!(topic, "test/topic");
            assert_eq!(payload, b"hello");
        }
        _ => panic!("expected Message event"),
    }
    assert!(t.on_poll(PollEvent::OtherIncoming, now).emit.is_none());
    assert!(t.on_poll(PollEvent::Outgoing, now).emit.is_none());
    let later = at(2026, 3, 25, 13, 0, 0);
    let farewell = t.farewell(later).unwrap();
    assert_eq!(farewell.topic, "prod/nodes/drone-42/status");
    assert!(farewell.retain);
    assert_eq!(farewell.message.ts, later);
    assert!(matches!(&farewell.message.data, StatusData::Offline(d)
        if d.last_online == now && d.last_session == "abcdef"));
}

#[test]
fn flushing_ends_with_the_disconnect() {
    assert!(MqttTransport::keeps_flushing(FlushEvent::Other));
    assert!(!MqttTransport::keeps_flushing(FlushEvent::DisconnectSent));
    assert!(!MqttTransport::keeps_flushing(FlushEvent::Failed));
    assert!(!MqttTransport::keeps_flushing(FlushEvent::TimedOut));
}

// Command names

#[test]
fn test_extract_command_name_valid() {
    let prefix = "prod/nodes/drone-42/cmnd/";
    let topic = "prod/nodes/drone-42/cmnd/config_update/in";
    assert_eq!(
        extract_command_name(topic, prefix),
        Some("config_update".to_string())
    );
}

#[test]
fn test_extract_command_name_different_command() {
    let prefix = "prod/nodes/drone-42/cmnd/";
    let topic = "prod/nodes/drone-42/cmnd/get_config/in";
    assert_eq!(
        extract_command_name(topic, prefix),
        Some("get_config".to_string())
    );
}

#[test]
fn test_extract_command_name_wrong_suffix() {
    let prefix = "prod/nodes/drone-42/cmnd/";
    let topic = "prod/nodes/drone-42/cmnd/config_update/status";
    assert_eq!(extract_command_name(topic, prefix), None);
}

#[test]
fn test_extract_command_name_wrong_prefix() {
    let prefix = "prod/nodes/drone-42/cmnd/";
    let topic = "staging/nodes/drone-42/cmnd/config_update/in";
    assert_eq!(extract_command_name(topic, prefix), None);
}

#[test]
fn test_extract_command_name_empty_name() {
    let prefix = "prod/nodes/drone-42/cmnd/";
    let topic = "prod/nodes/drone-42/cmnd//in";
    assert_eq!(extract_command_name(topic, prefix), None);
}

#[test]
fn test_extract_command_name_nested_slash() {
    let prefix = "prod/nodes/drone-42/cmnd/";
    let topic = "prod/nodes/drone-42/cmnd/nested/cmd/in";
    assert_eq!(extract_command_name(topic, prefix), None);
}

#[test]
fn wildcards_are_no_command_names() {
    let prefix = "p/";
    assert_eq!(extract_command_name("p/+/in", prefix), None);
    assert_eq!(extract_command_name("p/a#/in", prefix), None);
    assert_eq!(extract_command_name("p/in", prefix), None);
    assert_eq!(extract_command_name("p/in", "p/i"), None);
}

#[test]
fn own_topics_name_their_commands() {
    let t = make_transport_fields("drone-42", "prod");
    for name in ["restart", "get_config", "\u{e9}"] {
        let topic = t.command_topic(name, "in");
        assert_eq!(extract_command_name(&topic, &t.command_prefix()), Some(name.to_string()));
    }
}

// The command processor

struct EchoHandler;

impl CommandHandler for EchoHandler {
    fn handle(&mut self, _envelope: &CommandEnvelope) -> Result<CommandResult, CommandError> {
        Ok(CommandResult {
            data: CommandResultData::ModemCommands(ModemCommandResult {
                command: "echo".to_string(),
                response: "ok".to_string(),
            }),
        })
    }
}

struct FailHandler;

impl CommandHandler for FailHandler {
    fn handle(&mut self, _envelope: &CommandEnvelope) -> Result<CommandResult, CommandError> {
        Err(CommandError::new("something went wrong"))
    }
}

fn make_test_envelope(uuid: &str) -> CommandEnvelope {
    CommandEnvelope {
        uuid: uuid.to_string(),
        issued_at: Timestamp::now(),
        ttl_sec: 300,
        payload: CommandPayload::GetConfig(GetConfigPayload {}),
    }
}

fn make_test_transport() -> MqttTransport {
    make_transport_fields("drone-42", "prod")
}

#[test]
fn test_process_command_lifecycle_success() {
    let transport = make_test_transport();
    let mut processor = CommandProcessor::new();
    processor.register("echo");

    let now = Timestamp::now();
    let envelope = make_test_envelope("test-uuid-123");
    let trace = processor.process_command(&transport, "echo", Some(envelope), now, &mut EchoHandler);
    let states: Vec<CommandState> = trace.statuses.iter().map(|s| s.message.state).collect();
    assert_eq!(
        states,
        vec![CommandState::Accepted, CommandState::InProgress, CommandState::Completed]
    );
    for status in &trace.statuses {
        assert_eq!(status.topic, "prod/nodes/drone-42/cmnd/echo/status");
        assert_eq!(status.message.uuid, "test-uuid-123");
        assert_eq!((status.qos, status.retain), (QoS::AtLeastOnce, false));
    }
    let result = trace.result.unwrap();
    assert_eq!(result.topic, "prod/nodes/drone-42/cmnd/echo/result");
    assert!(result.message.ok && result.message.error.is_none());
    assert!(matches!(result.message.data, Some(CommandResultData::ModemCommands(r))
        if r.response == "ok"));
}

#[test]
fn test_process_command_expired() {
    let transport = make_test_transport();
    let mut processor = CommandProcessor::new();

    let envelope = CommandEnvelope {
        uuid: "expired-uuid".to_string(),
        issued_at: at(2020, 1, 1, 0, 0, 0),
        ttl_sec: 60,
        payload: CommandPayload::GetConfig(GetConfigPayload {}),
    };
    let now = Timestamp::now();
    let trace =
        processor.process_command(&transport, "anything", Some(envelope), now, &mut EchoHandler);
    assert_eq!(trace.statuses.len(), 1);
    assert_eq!(trace.statuses[0].message.state, CommandState::Expired);
    assert!(trace.result.is_none());
}

#[test]
fn test_process_command_rejected_no_handler() {
    let transport = make_test_transport();
    let mut processor = CommandProcessor::new();

    let envelope = make_test_envelope("reject-uuid");
    let now = Timestamp::now();
    let trace =
        processor.process_command(&transport, "unknown_cmd", Some(envelope), now, &mut EchoHandler);
    let states: Vec<CommandState> = trace.statuses.iter().map(|s| s.message.state).collect();
    assert_eq!(states, vec![CommandState::Accepted, CommandState::Rejected]);
    assert!(trace.result.is_none());
}

#[test]
fn test_process_command_handler_failure() {
    let transport = make_test_transport();
    let mut processor = CommandProcessor::new();
    processor.register("fail_cmd");

    let envelope = make_test_envelope("fail-uuid");
    let now = Timestamp::now();
    let trace = processor.process_command(&transport, "fail_cmd", Some(envelope), now, &mut FailHandler);
    assert_eq!(trace.statuses.last().unwrap().message.state, CommandState::Failed);
    let result = trace.result.unwrap();
    assert!(!result.message.ok && result.message.data.is_none());
    assert_eq!(result.message.error.as_deref(), Some("something went wrong"));
}

#[test]
fn test_process_command_invalid_json() {
    let transport = make_test_transport();
    let mut processor = CommandProcessor::new();

    // A payload that is no envelope is dropped
    let trace =
        processor.process_command(&transport, "test", None, Timestamp::now(), &mut EchoHandler);
    assert!(trace.statuses.is_empty());
    assert!(trace.result.is_none());
}

#[test]
fn redelivered_command_is_skipped() {
    let transport = make_test_transport();
    let mut processor = CommandProcessor::new();
    processor.register("echo");
    let now = Timestamp::now();
    let first = make_test_envelope("same");
    assert!(processor
        .process_command(&transport, "echo", Some(first), now, &mut EchoHandler)
        .result
        .is_some());
    for i in 0..DEDUP_CAPACITY - 1 {
        assert!(processor.record_uuid(&format!("other-{i}")));
    }
    let again = make_test_envelope("same");
    let trace = processor.process_command(&transport, "echo", Some(again), now, &mut EchoHandler);
    assert!(trace.statuses.is_empty() && trace.result.is_none());
}

/// Counts the commands that it is given.
struct CountingHandler {
    calls: usize,
}

impl CommandHandler for CountingHandler {
    fn handle(&mut self, _envelope: &CommandEnvelope) -> Result<CommandResult, CommandError> {
        self.calls += 1;
        Err(CommandError::new("counted"))
    }
}

#[test]
fn handler_runs_once_and_only_where_it_should() {
    let transport = make_test_transport();
    let mut processor = CommandProcessor::new();
    processor.register("count");
    let now = Timestamp::now();
    let mut handler = CountingHandler { calls: 0 };

    // Not an envelope
    processor.process_command(&transport, "count", None, now, &mut handler);
    assert_eq!(handler.calls, 0);
    // Nobody handles it
    let envelope = make_test_envelope("a");
    processor.process_command(&transport, "other", Some(envelope), now, &mut handler);
    assert_eq!(handler.calls, 0);
    // Its time is over
    let mut envelope = make_test_envelope("b");
    envelope.issued_at = at(2020, 1, 1, 0, 0, 0);
    processor.process_command(&transport, "count", Some(envelope), now, &mut handler);
    assert_eq!(handler.calls, 0);
    // It runs
    let envelope = make_test_envelope("c");
    processor.process_command(&transport, "count", Some(envelope), now, &mut handler);
    assert_eq!(handler.calls, 1);
    // It was seen before
    let envelope = make_test_envelope("c");
    processor.process_command(&transport, "count", Some(envelope), now, &mut handler);
    assert_eq!(handler.calls, 1);
}

#[test]
fn closing_messages_carry_their_own_time() {
    let transport = make_test_transport();
    let mut processor = CommandProcessor::new();
    processor.register("echo");
    let start = Timestamp::now();
    let now = Timestamp { secs: start.secs - 30, nanos: 0 };
    let mut envelope = make_test_envelope("slow");
    envelope.issued_at = now;
    let trace =
        processor.process_command(&transport, "echo", Some(envelope), now, &mut EchoHandler);
    assert_eq!(trace.statuses[0].message.ts, now);
    assert_eq!(trace.statuses[1].message.ts, now);
    let closed = trace.statuses[2].message.ts;
    assert_eq!(trace.statuses[2].message.state, CommandState::Completed);
    assert!(closed == start || closed.is_after(&start));
    let reported = trace.result.unwrap().message.ts;
    assert!(reported == closed || reported.is_after(&closed));
}

#[test]
fn course_of_a_command_that_is_cut_short() {
    let t = make_test_transport();
    let mut run = CommandRun::new("echo", "u-1", Disposition::Run);
    let early = at(2026, 1, 1, 0, 0, 0);
    let late = at(2026, 1, 1, 0, 0, 9);
    match run.next(&t, early) {
        CommandStep::PublishStatus(o) => {
            assert_eq!(o.topic, "prod/nodes/drone-42/cmnd/echo/status");
            assert_eq!((o.message.state, o.message.ts), (CommandState::Accepted, early));
        }
        other => panic!("unexpected {other:?}"),
    }
    match run.next(&t, late) {
        CommandStep::PublishStatus(o) => {
            assert_eq!((o.message.state, o.message.ts), (CommandState::InProgress, late));
            assert_eq!(o.message.uuid, "u-1");
        }
        other => panic!("unexpected {other:?}"),
    }
    assert!(matches!(run.next(&t, late), CommandStep::RunHandler));
    run.handled(HandlerOutcome::Cancelled);
    assert!(matches!(run.next(&t, late), CommandStep::Done));
    assert!(matches!(run.next(&t, late), CommandStep::Done));
}

#[test]
fn course_of_a_command_that_fails() {
    let t = make_test_transport();
    let now = Timestamp::now();
    let mut run = CommandRun::new("echo", "u-2", Disposition::Run);
    run.next(&t, now);
    run.next(&t, now);
    assert!(matches!(run.next(&t, now), CommandStep::RunHandler));
    run.handled(HandlerOutcome::Done(Err(CommandError::new("broken"))));
    match run.next(&t, now) {
        CommandStep::PublishStatus(o) => assert_eq!(o.message.state, CommandState::Failed),
        other => panic!("unexpected {other:?}"),
    }
    match run.next(&t, now) {
        CommandStep::PublishResult(o) => {
            assert_eq!(o.topic, "prod/nodes/drone-42/cmnd/echo/result");
            assert!(!o.message.ok);
            assert_eq!(o.message.error.as_deref(), Some("broken"));
        }
        other => panic!("unexpected {other:?}"),
    }
    assert!(matches!(run.next(&t, now), CommandStep::Done));

    let mut run = CommandRun::new("echo", "u-3", Disposition::Duplicate);
    assert!(matches!(run.next(&t, now), CommandStep::Done));
}

#[test]
fn test_command_error_display() {
    let err = CommandError::new("test error");
    assert_eq!(err.to_string(), "test error");
}

#[test]
fn test_record_uuid_deduplicates() {
    let mut processor = CommandProcessor::new();

    assert!(processor.record_uuid("uuid-1"));
    assert!(processor.record_uuid("uuid-2"));
    // Duplicate should return false
    assert!(!processor.record_uuid("uuid-1"));
    assert!(!processor.record_uuid("uuid-2"));
}

#[test]
fn test_record_uuid_evicts_oldest_at_capacity() {
    let mut processor = CommandProcessor::new();

    // Fill to capacity
    for i in 0..DEDUP_CAPACITY {
        assert!(processor.record_uuid(&format!("uuid-{i}")));
    }
    // All should be seen
    assert!(!processor.record_uuid("uuid-0"));

    // Adding one more should evict the oldest (uuid-0)
    assert!(processor.record_uuid("new-uuid"));
    // uuid-0 was evicted, so it should be accepted again
    assert!(processor.record_uuid("uuid-0"));
}

#[test]
fn dedup_window_keeps_its_size() {
    let mut queue = DedupQueue::with_capacity(DEDUP_CAPACITY);
    for i in 0..3 * DEDUP_CAPACITY {
        assert!(queue.record(&format!("{i}")));
        assert!(!queue.record(&format!("{i}")));
        assert!(queue.order.len() <= DEDUP_CAPACITY);
    }
}

#[test]
fn units_commands_are_registered() {
    let mut processor = CommandProcessor::new();
    processor.register_commands();
    processor.register_commands();
    assert_eq!(
        processor.handlers,
        vec!["config_update", "get_config", "update_request", "modem_commands", "restart"]
    );
}

#[test]
fn every_disposition_is_announced() {
    assert!(opening(Disposition::Duplicate).is_empty());
    assert_eq!(opening(Disposition::Expired), vec![CommandState::Expired]);
    assert_eq!(
        opening(Disposition::Rejected),
        vec![CommandState::Accepted, CommandState::Rejected]
    );
    assert_eq!(opening(Disposition::Run), vec![CommandState::Accepted, CommandState::InProgress]);
    assert!(closing(HandlerOutcome::Cancelled).is_none());
    let failed = closing(HandlerOutcome::Done(Err(CommandError::new("no")))).unwrap();
    assert_eq!(failed.state, CommandState::Failed);
    assert_eq!(failed.error.as_deref(), Some("no"));
}

#[test]
fn commands_are_taken_in() {
    let mut processor = CommandProcessor::new();
    processor.register("echo");
    let now = at(2026, 3, 25, 12, 0, 0);
    let envelope = CommandEnvelope {
        uuid: "a".to_string(),
        issued_at: now,
        ttl_sec: 0,
        payload: CommandPayload::GetConfig(GetConfigPayload {}),
    };
    assert_eq!(processor.begin_command("echo", &envelope, now), Disposition::Run);
    assert_eq!(processor.begin_command("echo", &envelope, now), Disposition::Duplicate);
    let envelope = CommandEnvelope { uuid: "b".to_string(), ..envelope };
    assert_eq!(processor.begin_command("other", &envelope, now), Disposition::Rejected);
    let envelope = CommandEnvelope { uuid: "c".to_string(), ..envelope };
    let later = at(2026, 3, 25, 12, 0, 1);
    assert_eq!(processor.begin_command("other", &envelope, later), Disposition::Expired);
}

#[test]
fn events_reach_the_processor() {
    let t = make_test_transport();
    let message = MqttEvent::Message {
        topic: "prod/nodes/drone-42/cmnd/restart/in".to_string(),
        payload: b"{}".to_vec(),
    };
    match CommandProcessor::on_event(&t, Some(message)) {
        ProcessorStep::Process { cmd_name, payload } => {
            assert_eq!(cmd_name, "restart");
            assert_eq!(payload, b"{}");
        }
        step => panic!("expected Process, got {:?}", step),
    }
    let message = MqttEvent::Message { topic: "elsewhere".to_string(), payload: Vec::new() };
    assert!(matches!(CommandProcessor::on_event(&t, Some(message)), ProcessorStep::Ignore));
    assert!(matches!(
        CommandProcessor::on_event(&t, Some(MqttEvent::Connected)),
        ProcessorStep::Subscribe
    ));
    assert!(matches!(
        CommandProcessor::on_event(&t, Some(MqttEvent::Disconnected)),
        ProcessorStep::Ignore
    ));
    assert!(matches!(CommandProcessor::on_event(&t, None), ProcessorStep::Stop));
    assert!(matches!(
        CommandProcessor::bridge(Received::Event(MqttEvent::Connected)),
        BridgeStep::Forward(MqttEvent::Connected)
    ));
    assert!(matches!(CommandProcessor::bridge(Received::Lagged(3)), BridgeStep::Ignore));
    assert!(matches!(CommandProcessor::bridge(Received::Closed), BridgeStep::Stop));
    assert!(matches!(CommandProcessor::bridge(Received::Cancelled), BridgeStep::Stop));
}

// The online status

fn interfaces() -> Result<Vec<InterfaceAddress>, String> {
    Ok(vec![InterfaceAddress {
        name: "lo".to_string(),
        ipv4: Some(Ipv4 { octets: [127, 0, 0, 1] }),
    }])
}

fn online_ip(interface: &str) -> Option<String> {
    let t = make_test_transport();
    let publisher = StatusPublisher::new(interface.to_string());
    let ip = resolve_ipv4(interfaces(), &publisher.interface);
    let now = at(2026, 3, 25, 12, 0, 0);
    let message = publisher.online_message(&t, "1.2.3", &ip, now);
    assert_eq!(message.message.ts, now);
    match message.message.data {
        StatusData::Online(d) => {
            assert_eq!(d.session, "abcdef");
            assert_eq!(d.version, "1.2.3");
            d.ip
        }
        StatusData::Offline(_) => panic!("expected an online status"),
    }
}

#[test]
fn test_status_topic_matches_transport() {
    let transport = make_test_transport();
    assert_eq!(transport.status_topic(), "prod/nodes/drone-42/status");

    let publisher = StatusPublisher::new("lo".to_string());
    let ip = resolve_ipv4(interfaces(), "lo");
    let message = publisher.online_message(&transport, "1.0", &ip, Timestamp::now());
    assert_eq!(message.topic, "prod/nodes/drone-42/status");
    assert_eq!((message.qos, message.retain), (QoS::AtLeastOnce, true));
}

#[test]
fn test_publish_online_resolves_ip_for_valid_interface() {
    assert_eq!(online_ip("lo").as_deref(), Some("127.0.0.1"));
}

#[test]
fn test_publish_online_unknown_interface_yields_ip_none() {
    assert!(online_ip("nonexistent9999").is_none());
}

#[test]
fn connections_are_announced() {
    let publisher = StatusPublisher::new("lo".to_string());
    assert_eq!(
        publisher.on_event(&Received::Event(MqttEvent::Connected)),
        StatusStep::PublishOnline
    );
    assert_eq!(publisher.on_event(&Received::Lagged(1)), StatusStep::PublishOnline);
    assert_eq!(
        publisher.on_event(&Received::Event(MqttEvent::Disconnected)),
        StatusStep::Wait
    );
    assert_eq!(publisher.on_event(&Received::Closed), StatusStep::Stop);
    assert_eq!(publisher.on_event(&Received::Cancelled), StatusStep::Stop);
}

// Telemetry

fn publisher() -> TelemetryPublisher {
    TelemetryPublisher::new(Binary64 { bits: 1.0f64.to_bits() })
}

#[test]
fn test_publish_skips_none_readings() {
    let transport = make_transport_fields("test-node", "prod");
    let messages =
        publisher().telemetry_messages(&transport, &SensorValues::none(), Timestamp::now());
    assert!(messages.is_empty());
}

#[test]
fn test_publish_with_some_readings() {
    let transport = make_transport_fields("test-node", "test");
    let mut sensors = SensorValues::none();
    // Set only ping reading, leave others as None
    sensors.ping = Some(PingTelemetry {
        reachable: true,
        latency_ms: FloatText::parse("10.0").unwrap(),
        loss_percent: 0,
    });

    // Should publish ping but skip lte and cpu_temp without error
    let ts = at(2026, 3, 23, 10, 4, 0);
    let messages = publisher().telemetry_messages(&transport, &sensors, ts);
    assert_eq!(messages.len(), 1);
    assert_eq!(messages[0].topic, "test/nodes/test-node/telemetry/ping");
    assert_eq!((messages[0].qos, messages[0].retain), (QoS::AtMostOnce, false));
    assert_eq!(messages[0].message.ts, ts);
    assert!(matches!(&messages[0].message.data, TelemetryData::Ping(p)
        if p.reachable && p.latency_ms.as_str() == "10.0"));
}

#[test]
fn readings_keep_their_order() {
    let transport = make_transport_fields("n", "e");
    let mut sensors = SensorValues::none();
    sensors.ping = Some(PingTelemetry::default());
    sensors.cpu_temp = Some(CpuTempTelemetry { millidegrees_c: 42500 });
    let messages = publisher().telemetry_messages(&transport, &sensors, Timestamp::now());
    let topics: Vec<&str> = messages.iter().map(|m| m.topic.as_str()).collect();
    assert_eq!(topics, vec!["e/nodes/n/telemetry/ping", "e/nodes/n/telemetry/cpu_temp"]);
    assert!(matches!(&messages[1].message.data, TelemetryData::CpuTemp(t)
        if t.millidegrees_c == 42500));
}
