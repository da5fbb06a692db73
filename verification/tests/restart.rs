use std::collections::VecDeque;

use unitctl::messages::commands::{
    CommandEnvelope, CommandPayload, CommandResultData, CommandState, GetConfigPayload,
    RestartPayload, RestartTarget,
};
use unitctl::services::mqtt::commands::{CommandError, CommandResult};
use unitctl::services::mqtt::handlers::restart::{
    claimed_entry, is_inflight_name, orphan_entry, pending_uuid, unique_inflight_name,
    CompletionAction, CompletionEvent, CompletionPosition, CompletionStep, FileClaim, FileRead, PendingEntry, ProcessOutput, RestartAction,
    RestartCompletionPublisher, RestartEvent, RestartHandler, RestartPhase, PENDING_FILE_NAME,
    PENDING_INFLIGHT_PREFIX,
};
use unitctl::services::mqtt::transport::{MqttEvent, MqttTransport, Received};
use unitctl::time::{Duration, Timestamp};

/// A machine on which restarts are carried out.
struct Machine {
    responses: VecDeque<ProcessOutput>,
    invocations: Vec<(String, Vec<String>)>,
    clock_millis: u64,
    env_dir_exists: bool,
    pending: Option<String>,
    reboot_after: Option<Duration>,
    parked: bool,
}

impl Machine {
    fn new() -> Self {
        Self {
            responses: VecDeque::new(),
            invocations: Vec::new(),
            clock_millis: 1000,
            env_dir_exists: false,
            pending: None,
            reboot_after: None,
            parked: false,
        }
    }

    fn push_response(&mut self, code: i32, stdout: &str, stderr: &str) {
        self.responses.push_back(ProcessOutput {
            code: Some(code),
            stdout: stdout.as_bytes().to_vec(),
            stderr: stderr.as_bytes().to_vec(),
        });
    }

    fn run(&mut self, program: String, args: Vec<String>) -> ProcessOutput {
        self.invocations.push((program, args));
        self.responses.pop_front().unwrap_or(ProcessOutput {
            code: Some(0),
            stdout: Vec::new(),
            stderr: Vec::new(),
        })
    }

    fn now(&self) -> Duration {
        Duration::from_millis(self.clock_millis)
    }

    /// Carry out a restart until it ends; `None` where it waits for the end of the unit.
    fn drive(
        &mut self,
        handler: &RestartHandler,
        uuid: &str,
        begun: (RestartPhase, RestartAction),
    ) -> Option<Result<CommandResult, CommandError>> {
        let (mut phase, mut action) = begun;
        loop {
            let event = match action {
                RestartAction::Run { program, args } => {
                    RestartEvent::Ran(Ok(self.run(program, args)))
                }
                RestartAction::Sleep(d) => {
                    self.clock_millis += (d.as_nanos() / 1_000_000) as u64;
                    RestartEvent::Slept
                }
                RestartAction::CreateEnvDir => {
                    self.env_dir_exists = true;
                    RestartEvent::Done
                }
                RestartAction::WritePending(contents) => {
                    self.pending = Some(contents);
                    RestartEvent::Done
                }
                RestartAction::DeletePendingAndFail(error) => {
                    self.pending = None;
                    return Some(Err(error));
                }
                RestartAction::Park => {
                    self.parked = true;
                    return None;
                }
                RestartAction::ScheduleReboot(d) => {
                    self.reboot_after = Some(d);
                    RestartEvent::Done
                }
                RestartAction::Finish(result) => return Some(result),
            };
            let next = handler.advance(uuid, phase, event, self.now());
            phase = next.0;
            action = next.1;
        }
    }

    fn handle(
        &mut self,
        handler: &RestartHandler,
        envelope: &CommandEnvelope,
    ) -> Option<Result<CommandResult, CommandError>> {
        self.drive(handler, &envelope.uuid, handler.begin(envelope))
    }
}

fn handler(window_millis: u64, interval_millis: u64) -> RestartHandler {
    RestartHandler {
        verify_window: Duration::from_millis(window_millis),
        verify_interval: Duration::from_millis(interval_millis),
        reboot_delay: Duration::from_millis(20),
    }
}

fn restart_envelope(uuid: &str, target: RestartTarget) -> CommandEnvelope {
    CommandEnvelope {
        uuid: uuid.to_string(),
        issued_at: Timestamp::now(),
        ttl_sec: 300,
        payload: CommandPayload::Restart(RestartPayload { target }),
    }
}

fn target_of(result: CommandResult) -> RestartTarget {
    match result.data {
        CommandResultData::Restart(r) => r.target,
        _ => panic!("expected Restart"),
    }
}

// Watching a service

fn verify_active(machine: &mut Machine) -> Result<CommandResult, CommandError> {
    let handler = handler(40, 10);
    let deadline = machine.now().as_nanos() + handler.verify_window.as_nanos();
    let phase = RestartPhase::CheckingUnit(RestartTarget::Camera, deadline);
    let action = RestartAction::Run {
        program: "systemctl".to_string(),
        args: vec!["is-active".to_string(), "camera".to_string()],
    };
    machine.drive(&handler, "u", (phase, action)).unwrap()
}

#[test]
fn verify_active_returns_ok_when_continuously_active() {
    let mut machine = Machine::new();
    for _ in 0..10 {
        machine.push_response(0, "active\n", "");
    }
    assert!(verify_active(&mut machine).is_ok());
    assert_eq!(machine.invocations.len(), 5);
}

#[test]
fn verify_active_returns_err_when_state_changes() {
    let mut machine = Machine::new();
    machine.push_response(0, "active\n", "");
    machine.push_response(3, "failed\n", "");
    let err = verify_active(&mut machine).unwrap_err();
    assert!(err.message.contains("failed"));
}

#[test]
fn silent_service_is_in_an_unknown_state() {
    let mut machine = Machine::new();
    machine.push_response(4, "\n", "");
    let err = verify_active(&mut machine).unwrap_err();
    assert_eq!(err.message, "service did not stay active: unknown");
    let mut machine = Machine::new();
    machine.push_response(0, "activating\n", "");
    let err = verify_active(&mut machine).unwrap_err();
    assert_eq!(err.message, "service did not stay active: activating");
}

// The handler

#[test]
fn handler_camera_happy_path() {
    let mut machine = Machine::new();
    machine.push_response(0, "", "");
    machine.push_response(0, "active\n", "");
    machine.push_response(0, "active\n", "");

    let env = restart_envelope("restart-camera", RestartTarget::Camera);
    let res = machine.handle(&handler(5, 5), &env).unwrap().unwrap();
    assert_eq!(target_of(res), RestartTarget::Camera);
    let invs = &machine.invocations;
    assert_eq!(invs[0].0, "systemctl");
    assert_eq!(invs[0].1, vec!["restart", "camera"]);
    assert_eq!(invs[1].0, "systemctl");
    assert_eq!(invs[1].1, vec!["is-active", "camera"]);
}

#[test]
fn handler_systemctl_restart_failure() {
    let mut machine = Machine::new();
    machine.push_response(1, "", "Failed to restart camera.service: Unit not found\n");

    let env = restart_envelope("restart-camera", RestartTarget::Camera);
    let err = machine.handle(&handler(5, 5), &env).unwrap().unwrap_err();
    assert!(err.message.contains("Unit not found") || err.message.contains("exit"));
    assert_eq!(
        err.message,
        "systemctl restart camera exited with Some(1): Failed to restart camera.service: Unit not \
         found"
    );
}

#[test]
fn handler_liveness_failure() {
    let mut machine = Machine::new();
    machine.push_response(0, "", "");
    machine.push_response(0, "active\n", "");
    machine.push_response(3, "failed\n", "");

    let env = restart_envelope("restart-mavlink", RestartTarget::Mavlink);
    let err = machine.handle(&handler(40, 10), &env).unwrap().unwrap_err();
    assert!(err.message.contains("did not stay active"));
    assert!(err.message.contains("failed"));
}

#[test]
fn handler_modem_uses_modem_restart_unit() {
    let mut machine = Machine::new();
    machine.push_response(0, "", "");
    machine.push_response(0, "active\n", "");
    machine.push_response(0, "active\n", "");

    let env = restart_envelope("restart-modem", RestartTarget::Modem);
    machine.handle(&handler(5, 5), &env).unwrap().unwrap();
    assert_eq!(machine.invocations[0].1, vec!["restart", "modem-restart"]);
}

#[test]
fn handler_wrong_payload_variant() {
    let mut machine = Machine::new();
    let env = CommandEnvelope {
        uuid: "x".to_string(),
        issued_at: Timestamp::now(),
        ttl_sec: 60,
        payload: CommandPayload::GetConfig(GetConfigPayload {}),
    };
    let err = machine.handle(&handler(5, 5), &env).unwrap().unwrap_err();
    assert!(err.message.to_lowercase().contains("restart"));
    assert!(machine.invocations.is_empty());
}

#[test]
fn handler_unitctl_writes_state_file_and_execs_restart() {
    let mut machine = Machine::new();
    machine.push_response(0, "", "");

    let env = restart_envelope("uuid-self-restart", RestartTarget::Unitctl);
    assert!(machine.handle(&handler(5, 5), &env).is_none());
    assert!(machine.parked);

    let written = machine.pending.as_ref().unwrap();
    assert_eq!(written.trim(), "uuid-self-restart");
    assert_eq!(pending_uuid(&written.as_bytes().to_vec()), "uuid-self-restart");

    assert!(machine.invocations.iter().any(|i| i.1 == vec!["restart", "unitctl"]));
}

#[test]
fn handler_unitctl_creates_env_dir_if_missing() {
    let mut machine = Machine::new();
    machine.push_response(0, "", "");

    let env = restart_envelope("u2", RestartTarget::Unitctl);
    let _ = machine.handle(&handler(5, 5), &env);
    assert!(machine.env_dir_exists);
    assert!(machine.pending.is_some());
}

#[test]
fn handler_unitctl_returns_error_on_systemctl_failure() {
    let mut machine = Machine::new();
    machine.push_response(1, "", "Access denied\n");

    let env = restart_envelope("u-fail", RestartTarget::Unitctl);
    let err = machine.handle(&handler(5, 5), &env).expect("handler should return on failure");
    let err = err.unwrap_err();
    assert!(err.message.contains("Access denied") || err.message.contains("exit"));
    assert!(machine.pending.is_none());
}

#[test]
fn handler_reboot_returns_ok_and_invokes_reboot_after_delay() {
    let mut machine = Machine::new();
    let env = restart_envelope("reb-1", RestartTarget::Reboot);
    let result = machine.handle(&handler(5, 5), &env).unwrap().unwrap();
    assert_eq!(target_of(result), RestartTarget::Reboot);
    assert!(machine.invocations.is_empty());
    assert_eq!(machine.reboot_after, Some(Duration::from_millis(20)));
}

#[test]
fn failed_steps_of_a_self_restart() {
    let h = handler(5, 5);
    let failed = |shown: &str| RestartEvent::Failed {
        shown: shown.to_string(),
        error: "read-only file system".to_string(),
    };
    let now = Duration::from_secs(1);
    let (phase, action) = h.advance("u", RestartPhase::CreatingDir, failed("\"/run\""), now);
    assert_eq!(phase, RestartPhase::Finished);
    assert!(matches!(action, RestartAction::Finish(Err(e))
        if e.message == "failed to create env_dir: read-only file system"));
    let (_, action) = h.advance("u", RestartPhase::WritingPending, failed("\"/run/p\""), now);
    assert!(matches!(action, RestartAction::Finish(Err(e))
        if e.message == "failed to write \"/run/p\": read-only file system"));
    let gone = || RestartEvent::Ran(Err("not found".to_string()));
    let (_, action) = h.advance("u", RestartPhase::RestartingSelf, gone(), now);
    assert!(matches!(action, RestartAction::DeletePendingAndFail(e)
        if e.message == "failed to invoke systemctl: not found"));
    let camera = RestartTarget::Camera;
    let (_, action) = h.advance("u", RestartPhase::RestartingUnit(camera), gone(), now);
    assert!(matches!(action, RestartAction::Finish(Err(e))
        if e.message == "failed to invoke systemctl: not found"));
    let (_, action) = h.advance("u", RestartPhase::CheckingUnit(camera, 0), gone(), now);
    assert!(matches!(action, RestartAction::Finish(Err(e)) if e.message
        == "service did not stay active: failed to invoke systemctl is-active: not found"));
}

#[test]
fn a_signal_leaves_the_unit_parked() {
    let h = handler(5, 5);
    let killed = ProcessOutput { code: None, stdout: Vec::new(), stderr: Vec::new() };
    let (phase, action) = h.advance(
        "u",
        RestartPhase::RestartingSelf,
        RestartEvent::Ran(Ok(killed)),
        Duration::from_secs(1),
    );
    assert_eq!(phase, RestartPhase::Parked);
    assert!(matches!(action, RestartAction::Park));
}

#[test]
fn services_are_watched_for_ten_seconds() {
    let h = RestartHandler::new();
    assert_eq!(h.verify_window, Duration::from_secs(10));
    assert_eq!(h.verify_interval, Duration::from_millis(500));
    assert_eq!(h.reboot_delay, Duration::from_secs(1));
    assert_eq!(RestartHandler::unit_for(RestartTarget::Modem), Some("modem-restart"));
    assert_eq!(RestartHandler::unit_for(RestartTarget::Reboot), None);
}

#[test]
fn undecodable_output_is_shown() {
    let mut machine = Machine::new();
    machine.responses.push_back(ProcessOutput {
        code: Some(2),
        stdout: Vec::new(),
        stderr: vec![b' ', 0xff, b'x', b'\n'],
    });
    let env = restart_envelope("u", RestartTarget::Camera);
    let err = machine.handle(&handler(5, 5), &env).unwrap().unwrap_err();
    assert_eq!(err.message, "systemctl restart camera exited with Some(2): \u{fffd}x");
}

// The pending file

#[test]
fn completion_publisher_no_op_when_file_missing() {
    let read = orphan_entry(PENDING_FILE_NAME, FileRead::NotFound).unwrap();
    assert!(read.is_none());
}

#[test]
fn completion_publisher_reads_file_without_deleting() {
    let read = orphan_entry(PENDING_FILE_NAME, FileRead::Bytes(b"uuid-xyz\n".to_vec())).unwrap();
    assert_eq!(read.unwrap().uuid, "uuid-xyz");
    assert!(!RestartCompletionPublisher::may_remove(false, false));
    assert!(!RestartCompletionPublisher::may_remove(true, false));
    assert!(!RestartCompletionPublisher::may_remove(false, true));
    assert!(RestartCompletionPublisher::may_remove(true, true));
}

#[test]
fn completion_publisher_handles_empty_file() {
    assert_eq!(pending_uuid(&Vec::new()), String::new());
    let empty = PendingEntry { path: "p".to_string(), uuid: String::new() };
    let (publisher, discard) = RestartCompletionPublisher::collect(Ok(vec![empty]), Ok(None));
    assert!(!publisher.has_work());
    assert_eq!(discard, vec!["p"]);
}

#[test]
fn claim_main_pending_renames_to_unique_scratch() {
    let name = unique_inflight_name(4711, 123456789);
    assert!(name.starts_with(PENDING_INFLIGHT_PREFIX));
    assert_eq!(name, "pending-restart-uuid.in-flight.4711.123456789");
    let claimed = claimed_entry(&name, FileClaim::Renamed(Ok(b"uuid-1\n".to_vec())));
    let entry = claimed.unwrap().unwrap();
    assert_eq!(entry.uuid, "uuid-1");
    assert_eq!(entry.path, name);
}

#[test]
fn claim_main_pending_returns_none_when_missing() {
    let claimed = claimed_entry("scratch", FileClaim::NotFound).unwrap();
    assert!(claimed.is_none());
}

#[test]
fn faults_of_a_claim_are_handed_on() {
    let e = claimed_entry("scratch", FileClaim::Failed("EPERM".to_string())).unwrap_err();
    assert_eq!(e, "EPERM");
    let e = claimed_entry("scratch", FileClaim::Renamed(Err("EIO".to_string()))).unwrap_err();
    assert_eq!(e, "EIO");
    let e = orphan_entry("orphan", FileRead::Failed("EIO".to_string())).unwrap_err();
    assert_eq!(e, "EIO");
}

#[test]
fn collect_orphan_inflight_picks_up_prior_boot_files() {
    let orphan = format!("{}999.123", PENDING_INFLIGHT_PREFIX);
    let names = [orphan.as_str(), "unrelated", PENDING_FILE_NAME];
    let mut entries = Vec::new();
    for name in names.iter().filter(|name| is_inflight_name(name)) {
        let read = FileRead::Bytes(b"uuid-orphan\n".to_vec());
        entries.extend(orphan_entry(name, read).unwrap());
    }
    assert_eq!(entries.len(), 1);
    assert_eq!(entries[0].uuid, "uuid-orphan");
    assert_eq!(entries[0].path, orphan);
}

#[test]
fn claimed_names_differ() {
    assert_ne!(unique_inflight_name(1, 23), unique_inflight_name(12, 3));
    assert_ne!(unique_inflight_name(1, 23), unique_inflight_name(1, 24));
    assert!(is_inflight_name(&unique_inflight_name(0, 0)));
}

// Completions

fn entry(path: &str, uuid: &str) -> PendingEntry {
    PendingEntry { path: path.to_string(), uuid: uuid.to_string() }
}

fn make_transport() -> MqttTransport {
    MqttTransport {
        node_id: "drone-42".to_string(),
        env_prefix: "prod".to_string(),
        session_id: "abcdef".to_string(),
        last_connected_at: None,
    }
}

#[test]
fn found_entries_are_published_or_discarded() {
    let orphans = Ok(vec![entry("a", "1"), entry("b", ""), entry("c", "3")]);
    let (publisher, discard) =
        RestartCompletionPublisher::collect(orphans, Ok(Some(entry("d", "4"))));
    let kept: Vec<&str> = publisher.entries.iter().map(|e| e.path.as_str()).collect();
    assert_eq!(kept, vec!["a", "c", "d"]);
    assert_eq!(discard, vec!["b"]);
    assert!(publisher.has_work());
    let (publisher, discard) =
        RestartCompletionPublisher::collect(Err("EIO".to_string()), Err("EIO".to_string()));
    assert!(!publisher.has_work() && discard.is_empty());
}

#[test]
fn completions_are_published_on_connection() {
    let on = RestartCompletionPublisher::on_event;
    assert_eq!(on(&Received::Event(MqttEvent::Connected)), CompletionStep::Publish);
    assert_eq!(on(&Received::Event(MqttEvent::Disconnected)), CompletionStep::Wait);
    assert_eq!(on(&Received::Lagged(2)), CompletionStep::Wait);
    assert_eq!(on(&Received::Closed), CompletionStep::Stop);
    assert_eq!(on(&Received::Cancelled), CompletionStep::Stop);

    let t = make_transport();
    let entry = entry("p", "u1");
    let now = Timestamp::now();
    let status = RestartCompletionPublisher::completion_status(&t, &entry, now);
    assert_eq!(status.topic, "prod/nodes/drone-42/cmnd/restart/status");
    assert_eq!(status.message.uuid, "u1");
    assert_eq!(status.message.state, CommandState::Completed);
    let result = RestartCompletionPublisher::completion_result(&t, &entry, now);
    assert_eq!(result.topic, "prod/nodes/drone-42/cmnd/restart/result");
    assert!(result.message.ok);
    assert!(matches!(result.message.data, Some(CommandResultData::Restart(r))
        if r.target == RestartTarget::Unitctl));
}

#[test]
fn course_of_two_completions() {
    let (publisher, _) = RestartCompletionPublisher::collect(
        Ok(vec![entry("a", "1"), entry("b", "2")]),
        Ok(None),
    );
    let t = make_transport();
    let now = Timestamp::now();
    let (mut position, action) = publisher.begin();
    assert!(matches!(action, CompletionAction::Wait));
    let mut step = |event: CompletionEvent| {
        let (next, action) = publisher.advance(&t, position, event, now);
        position = next;
        action
    };

    // Nothing goes out before the connection
    let early = CompletionEvent::Received(Received::Event(MqttEvent::Disconnected));
    assert!(matches!(step(early), CompletionAction::Wait));
    assert!(matches!(
        step(CompletionEvent::Received(Received::Lagged(3))),
        CompletionAction::Wait
    ));

    // The result is tried though the status failed, and the file stays
    let connected = CompletionEvent::Received(Received::Event(MqttEvent::Connected));
    assert!(matches!(step(connected), CompletionAction::PublishStatus(o)
        if o.message.uuid == "1" && o.message.state == CommandState::Completed));
    assert!(matches!(step(CompletionEvent::Published(false)),
        CompletionAction::PublishResult(o) if o.message.uuid == "1" && o.message.ok));
    assert!(matches!(step(CompletionEvent::Published(true)),
        CompletionAction::Keep(path) if path == "a"));

    // Both are published, and the file goes
    assert!(matches!(step(CompletionEvent::Settled),
        CompletionAction::PublishStatus(o) if o.message.uuid == "2"));
    assert!(matches!(step(CompletionEvent::Published(true)),
        CompletionAction::PublishResult(o) if o.message.uuid == "2"));
    assert!(matches!(step(CompletionEvent::Published(true)),
        CompletionAction::Remove(path) if path == "b"));
    assert!(matches!(step(CompletionEvent::Settled), CompletionAction::Stop));
    assert_eq!(position, CompletionPosition::Over);
}

#[test]
fn completions_end_with_the_events() {
    let none = RestartCompletionPublisher { entries: Vec::new() };
    assert!(matches!(none.begin(), (CompletionPosition::Over, CompletionAction::Stop)));
    let one = RestartCompletionPublisher { entries: vec![entry("a", "1")] };
    let end = one.advance(
        &make_transport(),
        CompletionPosition::Waiting,
        CompletionEvent::Received(Received::Cancelled),
        Timestamp::now(),
    );
    assert!(matches!(end, (CompletionPosition::Over, CompletionAction::Stop)));
}
