//! The `restart` command.
//!
//! Services are restarted and then watched for a while. The unit itself is restarted
//! too: the command's UUID is left in a file, and the next start of the unit publishes
//! the command's completion.

use vstd::prelude::*;
use vstd::string::*;

use crate::messages::commands::{
    CommandEnvelope, CommandPayload, CommandResultData, CommandResultMsg, CommandState,
    CommandStatus, RestartResult, RestartTarget,
};
use crate::services::mqtt::commands::{
    self, result_message, status_message, CommandError, CommandResult,
};
use crate::services::mqtt::transport::{MqttEvent, MqttTransport, Outgoing, Received};
use crate::text::{
    self, decimal_text, join, same_text, signed_decimal_text, starts_with, text_lossy, trim,
};
use crate::time::{Duration, Timestamp};

verus! {

/// The file that holds the UUID of a restart command while the unit restarts.
pub const PENDING_FILE_NAME: &'static str = "pending-restart-uuid";

/// Where the names of such files begin once a start of the unit has claimed them.
pub const PENDING_INFLIGHT_PREFIX: &'static str = "pending-restart-uuid.in-flight.";

/// What a finished program leaves behind.
#[derive(Debug)]
pub struct ProcessOutput {
    /// The exit code; there is none where a signal ended the program.
    pub code: Option<i32>,
    pub stdout: Vec<u8>,
    pub stderr: Vec<u8>,
}

impl ProcessOutput {
    pub open spec fn success(self) -> bool {
        self.code == Some(0i32)
    }

    pub fn succeeded(&self) -> (r: bool)
        ensures
            r == self.success(),
    {
        match self.code {
            Some(code) => code == 0,
            None => false,
        }
    }
}

/// An optional exit code, as it is shown in messages.
pub open spec fn code_text(code: Option<i32>) -> Seq<char> {
    match code {
        Some(c) => "Some("@ + text::signed_decimal(c as int) + ")"@,
        None => "None"@,
    }
}

fn show_code(code: Option<i32>) -> (r: String)
    ensures
        r@ == code_text(code),
{
    match code {
        Some(c) => "Some(".to_string().concat(signed_decimal_text(c as i64).as_str()).concat(")"),
        None => "None".to_string(),
    }
}

/// What a program wrote, without white space around it.
pub open spec fn output_text(bytes: Seq<u8>) -> Seq<char> {
    text::trimmed(text::lossy_text(bytes))
}

fn show_output(bytes: &Vec<u8>) -> (r: String)
    ensures
        r@ == output_text(bytes@),
{
    trim(text_lossy(bytes.as_slice()).as_str())
}

// ---------------------------------------------------------------------------
// The handler
// ---------------------------------------------------------------------------

/// Restarts services, the unit itself, or the whole machine.
#[derive(Debug)]
pub struct RestartHandler {
    /// How long a restarted service has to stay active.
    pub verify_window: Duration,
    /// The pause between two looks at it.
    pub verify_interval: Duration,
    /// The pause before a reboot, in which the command's result goes out.
    pub reboot_delay: Duration,
}

/// The service that stands for a target.
pub open spec fn unit_of(target: RestartTarget) -> Option<Seq<char>> {
    match target {
        RestartTarget::Camera => Some("camera"@),
        RestartTarget::Mavlink => Some("mavlink"@),
        RestartTarget::Modem => Some("modem-restart"@),
        RestartTarget::Unitctl => None,
        RestartTarget::Reboot => None,
    }
}

/// Where a restart stands.
#[derive(Debug, Clone, Copy, PartialEq, Eq, Structural)]
pub enum RestartPhase {
    /// The service is being restarted.
    RestartingUnit(RestartTarget),
    /// The service is being looked at; it has to stay active until the clock shows
    /// this many nanoseconds.
    CheckingUnit(RestartTarget, u128),
    /// There is a pause before the next look.
    Pausing(RestartTarget, u128),
    /// The directory of the pending file is being created.
    CreatingDir,
    /// The pending file is being written.
    WritingPending,
    /// The unit is being restarted.
    RestartingSelf,
    /// The unit waits for its end.
    Parked,
    /// The reboot is being scheduled.
    SchedulingReboot,
    /// The command is over.
    Finished,
}

/// What has happened since.
#[derive(Debug)]
pub enum RestartEvent {
    /// The program has run, or could not be run.
    Ran(Result<ProcessOutput, String>),
    /// The pause is over.
    Slept,
    /// The action was done.
    Done,
    /// The action on the file that is shown as `shown` failed.
    Failed { shown: String, error: String },
}

/// What to do next.
#[derive(Debug)]
pub enum RestartAction {
    /// Run a program.
    Run { program: String, args: Vec<String> },
    /// Wait.
    Sleep(Duration),
    /// Create the directory of the pending file.
    CreateEnvDir,
    /// Write the pending file.
    WritePending(String),
    /// Delete the pending file, and end with this error.
    DeletePendingAndFail(CommandError),
    /// Wait for the end of the process.
    Park,
    /// Reboot after this time, without waiting for it.
    ScheduleReboot(Duration),
    /// End with this result.
    Finish(Result<CommandResult, CommandError>),
}

/// An action, as far as it matters.
pub enum Move {
    Run(Seq<char>, Seq<Seq<char>>),
    Sleep(Duration),
    CreateEnvDir,
    WritePending(Seq<char>),
    DeletePendingAndFail(Seq<char>),
    Park,
    ScheduleReboot(Duration),
    Fail(Seq<char>),
    Succeed(RestartTarget),
    /// A result that belongs to no restart.
    Other,
}

impl RestartAction {
    pub open spec fn as_move(self) -> Move {
        match self {
            RestartAction::Run { program, args } => Move::Run(program@, text::texts(args@)),
            RestartAction::Sleep(d) => Move::Sleep(d),
            RestartAction::CreateEnvDir => Move::CreateEnvDir,
            RestartAction::WritePending(s) => Move::WritePending(s@),
            RestartAction::DeletePendingAndFail(e) => Move::DeletePendingAndFail(e.message@),
            RestartAction::Park => Move::Park,
            RestartAction::ScheduleReboot(d) => Move::ScheduleReboot(d),
            RestartAction::Finish(Ok(result)) => match result.data {
                CommandResultData::Restart(data) => Move::Succeed(data.target),
                _ => Move::Other,
            },
            RestartAction::Finish(Err(e)) => Move::Fail(e.message@),
        }
    }
}

impl RestartPhase {
    /// The event is one that can happen in this phase.
    pub open spec fn expects(self, event: RestartEvent) -> bool {
        match self {
            RestartPhase::RestartingUnit(target) => event is Ran && unit_of(target) is Some,
            RestartPhase::CheckingUnit(target, _) => event is Ran && unit_of(target) is Some,
            RestartPhase::Pausing(target, _) => event is Slept && unit_of(target) is Some,
            RestartPhase::CreatingDir => event is Done || event is Failed,
            RestartPhase::WritingPending => event is Done || event is Failed,
            RestartPhase::RestartingSelf => event is Ran,
            RestartPhase::SchedulingReboot => event is Done,
            RestartPhase::Parked => false,
            RestartPhase::Finished => false,
        }
    }
}

pub open spec fn run_systemctl(verb: Seq<char>, unit: Seq<char>) -> Move {
    Move::Run("systemctl"@, seq![verb, unit])
}

/// How a restart begins.
pub open spec fn opening_move(h: RestartHandler, payload: CommandPayload) -> (RestartPhase, Move) {
    match payload {
        CommandPayload::Restart(p) => match p.target {
            RestartTarget::Unitctl => (RestartPhase::CreatingDir, Move::CreateEnvDir),
            RestartTarget::Reboot => (
                RestartPhase::SchedulingReboot,
                Move::ScheduleReboot(h.reboot_delay),
            ),
            _ => (
                RestartPhase::RestartingUnit(p.target),
                run_systemctl("restart"@, unit_of(p.target)->0),
            ),
        },
        _ => (RestartPhase::Finished, Move::Fail("expected Restart payload"@)),
    }
}

/// The message about a `systemctl restart` that failed.
pub open spec fn exit_text(unit: Seq<char>, out: ProcessOutput) -> Seq<char> {
    "systemctl restart "@ + unit + " exited with "@ + code_text(out.code) + ": "@ + output_text(
        out.stderr@,
    )
}

/// The service reports itself as active.
pub open spec fn is_active(out: ProcessOutput) -> bool {
    out.success() && output_text(out.stdout@) == "active"@
}

/// What the service reports of itself.
pub open spec fn reported_state(out: ProcessOutput) -> Seq<char> {
    if output_text(out.stdout@).len() == 0 {
        "unknown"@
    } else {
        output_text(out.stdout@)
    }
}

/// How a restart goes on after an event, at the clock `now` in nanoseconds.
pub open spec fn next_move(
    h: RestartHandler,
    uuid: Seq<char>,
    phase: RestartPhase,
    event: RestartEvent,
    now: nat,
) -> (RestartPhase, Move) {
    match (phase, event) {
        (RestartPhase::RestartingUnit(target), RestartEvent::Ran(Err(e))) => (
            RestartPhase::Finished,
            Move::Fail("failed to invoke systemctl: "@ + e@),
        ),
        (RestartPhase::RestartingUnit(target), RestartEvent::Ran(Ok(out))) => if out.success() {
            (
                RestartPhase::CheckingUnit(
                    target,
                    (now + h.verify_window.total_nanos()) as u128,
                ),
                run_systemctl("is-active"@, unit_of(target)->0),
            )
        } else {
            (RestartPhase::Finished, Move::Fail(exit_text(unit_of(target)->0, out)))
        },
        (RestartPhase::CheckingUnit(target, deadline), RestartEvent::Ran(Err(e))) => (
            RestartPhase::Finished,
            Move::Fail(
                "service did not stay active: failed to invoke systemctl is-active: "@ + e@,
            ),
        ),
        (RestartPhase::CheckingUnit(target, deadline), RestartEvent::Ran(Ok(out))) => if !is_active(
            out,
        ) {
            (
                RestartPhase::Finished,
                Move::Fail("service did not stay active: "@ + reported_state(out)),
            )
        } else if now >= deadline {
            (RestartPhase::Finished, Move::Succeed(target))
        } else {
            (RestartPhase::Pausing(target, deadline), Move::Sleep(h.verify_interval))
        },
        (RestartPhase::Pausing(target, deadline), _) => (
            RestartPhase::CheckingUnit(target, deadline),
            run_systemctl("is-active"@, unit_of(target)->0),
        ),
        (RestartPhase::CreatingDir, RestartEvent::Failed { shown, error }) => (
            RestartPhase::Finished,
            Move::Fail("failed to create env_dir: "@ + error@),
        ),
        (RestartPhase::CreatingDir, _) => (
            RestartPhase::WritingPending,
            Move::WritePending(pending_contents(uuid)),
        ),
        (RestartPhase::WritingPending, RestartEvent::Failed { shown, error }) => (
            RestartPhase::Finished,
            Move::Fail("failed to write "@ + shown@ + ": "@ + error@),
        ),
        (RestartPhase::WritingPending, _) => (
            RestartPhase::RestartingSelf,
            run_systemctl("restart"@, "unitctl"@),
        ),
        (RestartPhase::RestartingSelf, RestartEvent::Ran(Err(e))) => (
            RestartPhase::Finished,
            Move::DeletePendingAndFail("failed to invoke systemctl: "@ + e@),
        ),
        (RestartPhase::RestartingSelf, RestartEvent::Ran(Ok(out))) => if !out.success() && out.code
            is Some {
            (RestartPhase::Finished, Move::DeletePendingAndFail(exit_text("unitctl"@, out)))
        } else {
            (RestartPhase::Parked, Move::Park)
        },
        (RestartPhase::SchedulingReboot, _) => (
            RestartPhase::Finished,
            Move::Succeed(RestartTarget::Reboot),
        ),
        _ => (RestartPhase::Finished, Move::Other),
    }
}

/// A service counts as restarted only after it was seen active at the end of the time
/// for which it has to stay active.
pub proof fn success_needs_a_lasting_service(
    h: RestartHandler,
    uuid: Seq<char>,
    phase: RestartPhase,
    event: RestartEvent,
    now: nat,
    target: RestartTarget,
)
    requires
        phase.expects(event),
        target != RestartTarget::Reboot,
        next_move(h, uuid, phase, event, now).1 == Move::Succeed(target),
    ensures
        phase matches RestartPhase::CheckingUnit(t, deadline) && t == target && now >= deadline && (
        event matches RestartEvent::Ran(Ok(out)) && is_active(out)),
{
}

/// The phases of a restart of the unit itself.
pub open spec fn restarts_self(phase: RestartPhase) -> bool {
    phase == RestartPhase::CreatingDir || phase == RestartPhase::WritingPending || phase
        == RestartPhase::RestartingSelf || phase == RestartPhase::Parked
}

/// A restart of the unit itself never reports success before the unit has started
/// again, and once the pending file is written it is deleted again wherever the restart
/// fails.
pub proof fn self_restart_leaves_success_to_the_next_start(
    h: RestartHandler,
    uuid: Seq<char>,
    phase: RestartPhase,
    event: RestartEvent,
    now: nat,
)
    requires
        restarts_self(phase),
        phase.expects(event),
    ensures
        ({
            let (after, action) = next_move(h, uuid, phase, event, now);
            &&& !(action is Succeed)
            &&& restarts_self(after) || after == RestartPhase::Finished
            &&& phase == RestartPhase::RestartingSelf && after == RestartPhase::Finished
                ==> action is DeletePendingAndFail
        }),
{
}

/// Where a restart stands after the first `k` events of a run, and the move that it is
/// at. Each event comes with the clock at which it happened.
pub open spec fn restart_at(
    h: RestartHandler,
    envelope: CommandEnvelope,
    events: Seq<(RestartEvent, Duration)>,
    k: int,
) -> (RestartPhase, Move)
    decreases k,
{
    if k <= 0 {
        opening_move(h, envelope.payload)
    } else {
        next_move(
            h,
            envelope.uuid@,
            restart_at(h, envelope, events, k - 1).0,
            events[k - 1].0,
            events[k - 1].1.total_nanos(),
        )
    }
}

/// Event `k` is one that can happen where the run then stands.
pub open spec fn restart_fits(
    h: RestartHandler,
    envelope: CommandEnvelope,
    events: Seq<(RestartEvent, Duration)>,
    k: int,
) -> bool {
    restart_at(h, envelope, events, k).0.expects(events[k].0) && events[k].1.wf()
}

/// The events are those of a run.
pub open spec fn is_restart_run(
    h: RestartHandler,
    envelope: CommandEnvelope,
    events: Seq<(RestartEvent, Duration)>,
) -> bool {
    forall|k: int| 0 <= k < events.len() ==> #[trigger] restart_fits(h, envelope, events, k)
}

/// The program ended with exit code zero, and what it wrote is `active`.
pub open spec fn found_active(event: RestartEvent) -> bool {
    &&& event matches RestartEvent::Ran(Ok(out))
    &&& out.code == Some(0i32)
    &&& text::trimmed(text::lossy_text(out.stdout@)) == "active"@
}

/// The move runs `systemctl` with these two arguments.
pub open spec fn runs_systemctl(m: Move, verb: Seq<char>, unit: Seq<char>) -> bool {
    m matches Move::Run(program, args) && program == "systemctl"@ && args.len() == 2 && args[0]
        == verb && args[1] == unit
}

/// Event `s` is the end of `systemctl restart unit` with exit code zero, and every look
/// at the service behind it, up to the first `k` events, found it active.
pub open spec fn active_since(
    h: RestartHandler,
    envelope: CommandEnvelope,
    events: Seq<(RestartEvent, Duration)>,
    unit: Seq<char>,
    s: int,
    k: int,
) -> bool {
    &&& 0 <= s < k
    &&& runs_systemctl(restart_at(h, envelope, events, s).1, "restart"@, unit)
    &&& events[s].0 matches RestartEvent::Ran(Ok(out)) && out.code == Some(0i32)
    &&& forall|j: int|
        s < j < k && (#[trigger] restart_at(h, envelope, events, j)).1 is Run ==> runs_systemctl(
            restart_at(h, envelope, events, j).1,
            "is-active"@,
            unit,
        ) && found_active(events[j].0)
}

/// A service restart ends in success only at or after the whole window for which the
/// service has to stay active, counted from the end of `systemctl restart`. Every look
/// at the service in that time, and the last one of them at the very end, found it
/// active.
pub proof fn success_means_active_for_the_whole_window(
    h: RestartHandler,
    envelope: CommandEnvelope,
    events: Seq<(RestartEvent, Duration)>,
    k: int,
    target: RestartTarget,
)
    requires
        h.wf(),
        is_restart_run(h, envelope, events),
        0 <= k <= events.len(),
        target != RestartTarget::Reboot,
        restart_at(h, envelope, events, k).1 == Move::Succeed(target),
    ensures
        k > 0,
        found_active(events[k - 1].0),
        envelope.payload matches CommandPayload::Restart(p) && p.target == target,
        exists|s: int, unit: Seq<char>| #[trigger]
            active_since(h, envelope, events, unit, s, k) && events[k - 1].1.total_nanos()
                >= events[s].1.total_nanos() + h.verify_window.total_nanos() && unit == match target {
                RestartTarget::Camera => "camera"@,
                RestartTarget::Mavlink => "mavlink"@,
                _ => "modem-restart"@,
            },
{
    assert(restart_fits(h, envelope, events, k - 1));
    lemma_watch(h, envelope, events, k - 1);
    let (phase, m) = restart_at(h, envelope, events, k - 1);
    let unit = unit_of(target)->0;
    let deadline = phase->CheckingUnit_1;
    let s = choose|s: int| #[trigger] watches(h, envelope, events, unit, s, k - 1, deadline);
    assert(active_since(h, envelope, events, unit, s, k)) by {
        assert forall|j: int| s < j < k && (#[trigger] restart_at(h, envelope, events, j)).1 is Run
            implies runs_systemctl(restart_at(h, envelope, events, j).1, "is-active"@, unit)
            && found_active(events[j].0) by {}
    }
}

/// The service has been active since event `s`, or nothing was looked at yet, and it has
/// to stay active until `deadline`.
spec fn watches(
    h: RestartHandler,
    envelope: CommandEnvelope,
    events: Seq<(RestartEvent, Duration)>,
    unit: Seq<char>,
    s: int,
    k: int,
    deadline: u128,
) -> bool {
    &&& active_since(h, envelope, events, unit, s, k)
    &&& deadline == events[s].1.total_nanos() + h.verify_window.total_nanos()
}

proof fn lemma_watch(
    h: RestartHandler,
    envelope: CommandEnvelope,
    events: Seq<(RestartEvent, Duration)>,
    k: int,
)
    requires
        h.wf(),
        is_restart_run(h, envelope, events),
        0 <= k <= events.len(),
    ensures
        ({
            let (phase, m) = restart_at(h, envelope, events, k);
            match phase {
                RestartPhase::RestartingUnit(target) => unit_of(target) is Some && runs_systemctl(
                    m,
                    "restart"@,
                    unit_of(target)->0,
                ) && (envelope.payload matches CommandPayload::Restart(p) && p.target == target),
                RestartPhase::CheckingUnit(target, deadline) => unit_of(target) is Some
                    && runs_systemctl(m, "is-active"@, unit_of(target)->0) && (exists|s: int|
                    #[trigger] watches(h, envelope, events, unit_of(target)->0, s, k, deadline))
                    && (envelope.payload matches CommandPayload::Restart(p) && p.target == target),
                RestartPhase::Pausing(target, deadline) => unit_of(target) is Some && m is Sleep
                    && (exists|s: int| #[trigger]
                    watches(h, envelope, events, unit_of(target)->0, s, k, deadline)) && (
                envelope.payload matches CommandPayload::Restart(p) && p.target == target),
                _ => true,
            }
        }),
    decreases k,
{
    if k > 0 {
        lemma_watch(h, envelope, events, k - 1);
        assert(restart_fits(h, envelope, events, k - 1));
        let (before, m) = restart_at(h, envelope, events, k - 1);
        match restart_at(h, envelope, events, k).0 {
            RestartPhase::CheckingUnit(target, deadline) => {
                let unit = unit_of(target)->0;
                if before is RestartingUnit {
                    assert(watches(h, envelope, events, unit, k - 1, k, deadline));
                } else {
                    let s = choose|s: int| #[trigger]
                        watches(h, envelope, events, unit, s, k - 1, deadline);
                    assert(watches(h, envelope, events, unit, s, k, deadline));
                }
            },
            RestartPhase::Pausing(target, deadline) => {
                let unit = unit_of(target)->0;
                let s = choose|s: int| #[trigger]
                    watches(h, envelope, events, unit, s, k - 1, deadline);
                assert(watches(h, envelope, events, unit, s, k, deadline));
            },
            _ => {},
        }
    }
}

/// A service restart begins with `systemctl restart` of the target's service, a reboot
/// with its delay, and a restart of the unit itself with the directory for the pending
/// file. Another payload is refused.
pub proof fn restart_begins_with_its_target(h: RestartHandler, envelope: CommandEnvelope)
    ensures
        ({
            let (phase, m) = opening_move(h, envelope.payload);
            match envelope.payload {
                CommandPayload::Restart(p) => match p.target {
                    RestartTarget::Camera => runs_systemctl(m, "restart"@, "camera"@),
                    RestartTarget::Mavlink => runs_systemctl(m, "restart"@, "mavlink"@),
                    RestartTarget::Modem => runs_systemctl(m, "restart"@, "modem-restart"@),
                    RestartTarget::Unitctl => m is CreateEnvDir,
                    RestartTarget::Reboot => m matches Move::ScheduleReboot(d) && d
                        == h.reboot_delay,
                },
                _ => m is Fail && phase == RestartPhase::Finished,
            }
        }),
{
}

/// The first look at a restarted service that does not find it active ends the command
/// with an error that tells the state which the service reports.
pub proof fn inactive_service_fails_the_restart(
    h: RestartHandler,
    envelope: CommandEnvelope,
    events: Seq<(RestartEvent, Duration)>,
    k: int,
    unit: Seq<char>,
)
    requires
        h.wf(),
        is_restart_run(h, envelope, events),
        0 <= k < events.len(),
        runs_systemctl(restart_at(h, envelope, events, k).1, "is-active"@, unit),
        !found_active(events[k].0),
    ensures
        restart_at(h, envelope, events, k + 1).0 == RestartPhase::Finished,
        restart_at(h, envelope, events, k + 1).1 matches Move::Fail(message)
            && "service did not stay active: "@.is_prefix_of(message) && (events[k].0 matches
            RestartEvent::Ran(Ok(out)) ==> message == "service did not stay active: "@ + (if text::trimmed(
            text::lossy_text(out.stdout@),
        ).len() == 0 {
            "unknown"@
        } else {
            text::trimmed(text::lossy_text(out.stdout@))
        })),
{
    lemma_is_active_is_a_look(h, envelope, events, k, unit);
    assert(restart_fits(h, envelope, events, k));
    let m = restart_at(h, envelope, events, k + 1).1;
    let p = "service did not stay active: "@;
    if let Move::Fail(message) = m {
        if let RestartEvent::Ran(Err(e)) = events[k].0 {
            reveal_strlit("service did not stay active: ");
            reveal_strlit(
                "service did not stay active: failed to invoke systemctl is-active: ",
            );
        }
        assert(message.subrange(0, p.len() as int) =~= p);
    }
}

/// A look that finds the service active before the window is over is followed by a pause
/// of the interval, and that by another look.
pub proof fn active_service_is_looked_at_again(
    h: RestartHandler,
    envelope: CommandEnvelope,
    events: Seq<(RestartEvent, Duration)>,
    k: int,
    s: int,
    unit: Seq<char>,
)
    requires
        h.wf(),
        is_restart_run(h, envelope, events),
        0 <= s < k < events.len(),
        active_since(h, envelope, events, unit, s, k),
        runs_systemctl(restart_at(h, envelope, events, k).1, "is-active"@, unit),
        found_active(events[k].0),
        events[k].1.total_nanos() < events[s].1.total_nanos() + h.verify_window.total_nanos(),
    ensures
        restart_at(h, envelope, events, k + 1).1 == Move::Sleep(h.verify_interval),
        k + 1 < events.len() ==> runs_systemctl(
            restart_at(h, envelope, events, k + 2).1,
            "is-active"@,
            unit,
        ),
{
    lemma_is_active_is_a_look(h, envelope, events, k, unit);
    assert(restart_fits(h, envelope, events, k));
    lemma_watch(h, envelope, events, k);
    let phase = restart_at(h, envelope, events, k).0;
    let deadline = phase->CheckingUnit_1;
    let s2 = choose|s2: int| #[trigger] watches(h, envelope, events, unit, s2, k, deadline);
    // The window has one beginning
    lemma_verbs_differ();
    if s < s2 {
        assert(restart_at(h, envelope, events, s2).1 is Run);
    } else if s2 < s {
        assert(restart_at(h, envelope, events, s).1 is Run);
    }
    if k + 1 < events.len() {
        assert(restart_fits(h, envelope, events, k + 1));
    }
}

/// Only a look runs `systemctl is-active`.
proof fn lemma_is_active_is_a_look(
    h: RestartHandler,
    envelope: CommandEnvelope,
    events: Seq<(RestartEvent, Duration)>,
    k: int,
    unit: Seq<char>,
)
    requires
        h.wf(),
        is_restart_run(h, envelope, events),
        0 <= k <= events.len(),
        runs_systemctl(restart_at(h, envelope, events, k).1, "is-active"@, unit),
    ensures
        restart_at(h, envelope, events, k).0 matches RestartPhase::CheckingUnit(target, _)
            && unit_of(target) == Some(unit),
{
    lemma_verbs_differ();
    if k > 0 {
        assert(restart_fits(h, envelope, events, k - 1));
    }
    lemma_watch(h, envelope, events, k);
}

proof fn lemma_verbs_differ()
    ensures
        "restart"@ != "is-active"@,
{
    reveal_strlit("restart");
    reveal_strlit("is-active");
    assert("restart"@[0] == 'r' && "is-active"@[0] == 'i');
}

/// The unit restarts itself only after its pending file was written, with the command's
/// UUID on a line of its own. Where `systemctl` could not be run or exits with another
/// code than zero, the file is deleted and the command fails; otherwise the unit waits
/// for its end.
pub proof fn self_restart_follows_the_pending_file(
    h: RestartHandler,
    envelope: CommandEnvelope,
    events: Seq<(RestartEvent, Duration)>,
    k: int,
)
    requires
        is_restart_run(h, envelope, events),
        0 <= k <= events.len(),
        runs_systemctl(restart_at(h, envelope, events, k).1, "restart"@, "unitctl"@),
    ensures
        k > 0,
        events[k - 1].0 is Done,
        restart_at(h, envelope, events, k - 1).1 == Move::WritePending(envelope.uuid@.push('\n')),
        k < events.len() ==> (match events[k].0 {
            RestartEvent::Ran(Ok(out)) => match out.code {
                Some(code) => if code == 0 {
                    restart_at(h, envelope, events, k + 1).1 is Park
                } else {
                    restart_at(h, envelope, events, k + 1).1 is DeletePendingAndFail
                },
                None => restart_at(h, envelope, events, k + 1).1 is Park,
            },
            _ => restart_at(h, envelope, events, k + 1).1 is DeletePendingAndFail,
        }),
{
    reveal_strlit("restart");
    reveal_strlit("is-active");
    reveal_strlit("unitctl");
    reveal_strlit("camera");
    reveal_strlit("mavlink");
    reveal_strlit("modem-restart");
    assert("unitctl"@[0] == 'u' && "camera"@[0] == 'c' && "mavlink"@[0] == 'm'
        && "modem-restart"@[0] == 'm');
    assert("is-active"@[0] == 'i' && "restart"@[0] == 'r');
    if k > 0 {
        assert(restart_fits(h, envelope, events, k - 1));
        lemma_pending_move(h, envelope, events, k - 1);
    }
    if k < events.len() {
        assert(restart_fits(h, envelope, events, k));
    }
}

proof fn lemma_pending_move(
    h: RestartHandler,
    envelope: CommandEnvelope,
    events: Seq<(RestartEvent, Duration)>,
    k: int,
)
    requires
        is_restart_run(h, envelope, events),
        0 <= k <= events.len(),
    ensures
        restart_at(h, envelope, events, k).0 == RestartPhase::WritingPending ==> restart_at(
            h,
            envelope,
            events,
            k,
        ).1 == Move::WritePending(envelope.uuid@.push('\n')),
{
    if k > 0 {
        assert(restart_fits(h, envelope, events, k - 1));
    }
}

/// A `systemctl restart` that exits with another code than zero, or by a signal, fails
/// the restart of a service with a message that names the service and ends with what
/// `systemctl` wrote.
pub proof fn failed_restart_is_reported(
    h: RestartHandler,
    envelope: CommandEnvelope,
    target: RestartTarget,
    out: ProcessOutput,
    now: nat,
)
    requires
        unit_of(target) is Some,
        out.code != Some(0i32),
    ensures
        ({
            let (phase, m) = next_move(
                h,
                envelope.uuid@,
                RestartPhase::RestartingUnit(target),
                RestartEvent::Ran(Ok(out)),
                now,
            );
            &&& phase == RestartPhase::Finished
            &&& m matches Move::Fail(message) && ("systemctl restart "@ + unit_of(
                target,
            )->0).is_prefix_of(message) && text::trimmed(
                text::lossy_text(out.stderr@),
            ).is_suffix_of(message) && text::occurs(message, code_text(out.code))
        }),
{
    let unit = unit_of(target)->0;
    let message = exit_text(unit, out);
    let head = "systemctl restart "@ + unit;
    let tail = text::trimmed(text::lossy_text(out.stderr@));
    let before = head + " exited with "@;
    assert(message.subrange(0, head.len() as int) =~= head);
    assert(message.subrange(message.len() - tail.len(), message.len() as int) =~= tail);
    assert(message.subrange(
        before.len() as int,
        (before.len() + code_text(out.code).len()) as int,
    ) =~= code_text(out.code));
    assert(text::occurs_at(message, code_text(out.code), before.len() as int));
}

/// The steps are what the handler's operations give over a run of events: the first one
/// begins the command, and each event leads from one step to the next.
pub open spec fn is_carried_out(
    h: &RestartHandler,
    envelope: &CommandEnvelope,
    uuid: &str,
    events: Seq<(RestartEvent, Duration)>,
    steps: Seq<(RestartPhase, RestartAction)>,
) -> bool {
    &&& uuid@ == envelope.uuid@
    &&& steps.len() == events.len() + 1
    &&& call_ensures(RestartHandler::begin, (h, envelope), steps[0])
    &&& forall|k: int| 0 <= k < events.len() ==> #[trigger] goes_on(h, uuid, events, steps, k)
}

/// Event `k` can happen at step `k`, and leads to the next step.
pub open spec fn goes_on(
    h: &RestartHandler,
    uuid: &str,
    events: Seq<(RestartEvent, Duration)>,
    steps: Seq<(RestartPhase, RestartAction)>,
    k: int,
) -> bool {
    &&& steps[k].0.expects(events[k].0)
    &&& events[k].1.wf()
    &&& call_ensures(
        RestartHandler::advance,
        (h, uuid, steps[k].0, events[k].0, events[k].1),
        steps[k + 1],
    )
}

proof fn lemma_steps_are_the_run(
    h: &RestartHandler,
    envelope: &CommandEnvelope,
    uuid: &str,
    events: Seq<(RestartEvent, Duration)>,
    steps: Seq<(RestartPhase, RestartAction)>,
    k: int,
)
    requires
        is_carried_out(h, envelope, uuid, events, steps),
        0 <= k <= events.len(),
    ensures
        restart_at(*h, *envelope, events, k) == (steps[k].0, steps[k].1.as_move()),
        k < events.len() ==> restart_fits(*h, *envelope, events, k),
    decreases k,
{
    if k < events.len() {
        assert(goes_on(h, uuid, events, steps, k));
    }
    if k > 0 {
        assert(goes_on(h, uuid, events, steps, k - 1));
        lemma_steps_are_the_run(h, envelope, uuid, events, steps, k - 1);
    }
}

/// The action runs `systemctl` with these two arguments.
pub open spec fn calls_systemctl(a: RestartAction, verb: Seq<char>, unit: Seq<char>) -> bool {
    a matches RestartAction::Run { program, args } && program@ == "systemctl"@ && args@.len() == 2
        && args@[0]@ == verb && args@[1]@ == unit
}

/// Step `s` restarts the service with `systemctl`, which ended with exit code zero when
/// the clock showed the time of event `s`, and every program that was run behind it, up
/// to step `k`, was a look at the service that found it active.
pub open spec fn stays_active(
    events: Seq<(RestartEvent, Duration)>,
    steps: Seq<(RestartPhase, RestartAction)>,
    unit: Seq<char>,
    s: int,
    k: int,
) -> bool {
    &&& 0 <= s < k
    &&& calls_systemctl(steps[s].1, "restart"@, unit)
    &&& events[s].0 matches RestartEvent::Ran(Ok(out)) && out.code == Some(0i32)
    &&& forall|j: int|
        s < j < k && (#[trigger] steps[j]).1 is Run ==> calls_systemctl(
            steps[j].1,
            "is-active"@,
            unit,
        ) && found_active(events[j].0)
}

/// The command to restart a service is answered with success only where `systemctl
/// restart` exited with zero, at least the whole window has gone by since then, and every
/// look at the service in between found it active, the last one at the time of the
/// answer.
pub proof fn answer_follows_a_whole_active_window(
    h: &RestartHandler,
    envelope: &CommandEnvelope,
    uuid: &str,
    events: Seq<(RestartEvent, Duration)>,
    steps: Seq<(RestartPhase, RestartAction)>,
    k: int,
    result: CommandResult,
)
    requires
        h.wf(),
        is_carried_out(h, envelope, uuid, events, steps),
        0 <= k < steps.len(),
        steps[k].1 == RestartAction::Finish(Ok(result)),
        envelope.payload matches CommandPayload::Restart(p) && (p.target == RestartTarget::Camera
            || p.target == RestartTarget::Mavlink || p.target == RestartTarget::Modem),
    ensures
        k > 0,
        found_active(events[k - 1].0),
        result.data matches CommandResultData::Restart(data) && data.target
            == envelope.payload->Restart_0.target,
        exists|s: int, unit: Seq<char>|
            #[trigger] stays_active(events, steps, unit, s, k) && events[k - 1].1.total_nanos()
                >= events[s].1.total_nanos() + h.verify_window.total_nanos() && unit
                == match envelope.payload->Restart_0.target {
                RestartTarget::Camera => "camera"@,
                RestartTarget::Mavlink => "mavlink"@,
                _ => "modem-restart"@,
            },
{
    assert forall|j: int| 0 <= j < events.len() implies #[trigger] restart_fits(
        *h,
        *envelope,
        events,
        j,
    ) by {
        lemma_steps_are_the_run(h, envelope, uuid, events, steps, j);
    }
    lemma_steps_are_the_run(h, envelope, uuid, events, steps, k);
    let asked = envelope.payload->Restart_0.target;
    lemma_success_is_of_the_target(*h, *envelope, events, k);
    success_means_active_for_the_whole_window(*h, *envelope, events, k, asked);
    let (s, unit) = choose|s: int, unit: Seq<char>| #[trigger]
        active_since(*h, *envelope, events, unit, s, k) && events[k - 1].1.total_nanos()
            >= events[s].1.total_nanos() + h.verify_window.total_nanos() && unit == match asked {
            RestartTarget::Camera => "camera"@,
            RestartTarget::Mavlink => "mavlink"@,
            _ => "modem-restart"@,
        };
    lemma_steps_are_the_run(h, envelope, uuid, events, steps, s);
    lemma_called(steps[s].1, "restart"@, unit);
    assert(stays_active(events, steps, unit, s, k)) by {
        assert forall|j: int| s < j < k && (#[trigger] steps[j]).1 is Run implies calls_systemctl(
            steps[j].1,
            "is-active"@,
            unit,
        ) && found_active(events[j].0) by {
            lemma_steps_are_the_run(h, envelope, uuid, events, steps, j);
            assert(restart_at(*h, *envelope, events, j).1 is Run);
            lemma_called(steps[j].1, "is-active"@, unit);
        }
    }
}

proof fn lemma_called(a: RestartAction, verb: Seq<char>, unit: Seq<char>)
    requires
        runs_systemctl(a.as_move(), verb, unit),
    ensures
        calls_systemctl(a, verb, unit),
{
    if let RestartAction::Run { program, args } = a {
        assert(text::texts(args@).len() == args@.len());
        assert(text::texts(args@)[0] == args@[0]@);
        assert(text::texts(args@)[1] == args@[1]@);
    }
}

/// A run that ends in a result for a service's restart ends in that of its target.
proof fn lemma_success_is_of_the_target(
    h: RestartHandler,
    envelope: CommandEnvelope,
    events: Seq<(RestartEvent, Duration)>,
    k: int,
)
    requires
        h.wf(),
        is_restart_run(h, envelope, events),
        0 <= k <= events.len(),
        envelope.payload matches CommandPayload::Restart(p) && unit_of(p.target) is Some,
    ensures
        match restart_at(h, envelope, events, k).1 {
            Move::Succeed(target) => target == envelope.payload->Restart_0.target,
            Move::Other => false,
            _ => true,
        },
        match restart_at(h, envelope, events, k).0 {
            RestartPhase::RestartingUnit(t) => t == envelope.payload->Restart_0.target,
            RestartPhase::CheckingUnit(t, _) => t == envelope.payload->Restart_0.target,
            RestartPhase::Pausing(t, _) => t == envelope.payload->Restart_0.target,
            RestartPhase::Finished => true,
            _ => false,
        },
    decreases k,
{
    if k > 0 {
        assert(restart_fits(h, envelope, events, k - 1));
        lemma_success_is_of_the_target(h, envelope, events, k - 1);
    }
}

/// A look at a restarted service that does not find it active ends the command with an
/// error; one that finds it active is followed by the pause between two looks, or ends
/// the command with success.
pub proof fn every_look_decides(
    h: &RestartHandler,
    envelope: &CommandEnvelope,
    uuid: &str,
    events: Seq<(RestartEvent, Duration)>,
    steps: Seq<(RestartPhase, RestartAction)>,
    k: int,
    unit: Seq<char>,
)
    requires
        h.wf(),
        is_carried_out(h, envelope, uuid, events, steps),
        0 <= k < events.len(),
        calls_systemctl(steps[k].1, "is-active"@, unit),
    ensures
        !found_active(events[k].0) ==> steps[k + 1].1 matches RestartAction::Finish(Err(_)),
        found_active(events[k].0) ==> (steps[k + 1].1 == RestartAction::Sleep(h.verify_interval)
            || steps[k + 1].1 matches RestartAction::Finish(Ok(_))),
{
    assert forall|j: int| 0 <= j < events.len() implies #[trigger] restart_fits(
        *h,
        *envelope,
        events,
        j,
    ) by {
        lemma_steps_are_the_run(h, envelope, uuid, events, steps, j);
    }
    lemma_steps_are_the_run(h, envelope, uuid, events, steps, k);
    lemma_steps_are_the_run(h, envelope, uuid, events, steps, k + 1);
    let args = steps[k].1->args;
    assert(text::texts(args@)[0] == args@[0]@ && text::texts(args@)[1] == args@[1]@);
    assert(runs_systemctl(restart_at(*h, *envelope, events, k).1, "is-active"@, unit));
    lemma_is_active_is_a_look(*h, *envelope, events, k, unit);
    assert(goes_on(h, uuid, events, steps, k));
}

/// A handler watches a restarted service for ten seconds, with half a second between two
/// looks, and reboots after one second.
pub proof fn services_are_watched_for_ten_seconds(h: RestartHandler)
    requires
        call_ensures(RestartHandler::new, (), h),
    ensures
        h.wf(),
        h.verify_window.secs == 10 && h.verify_window.nanos == 0,
        h.verify_interval.secs == 0 && h.verify_interval.nanos == 500_000_000,
        h.reboot_delay.secs == 1 && h.reboot_delay.nanos == 0,
{
}

/// A restart begins with the restart of the service, the delay of the reboot, or the
/// directory for the pending file, whichever its target asks for; the command of another
/// kind is refused at once.
pub proof fn restart_begins_as_asked(
    h: &RestartHandler,
    envelope: &CommandEnvelope,
    r: (RestartPhase, RestartAction),
)
    requires
        call_ensures(RestartHandler::begin, (h, envelope), r),
    ensures
        match envelope.payload {
            CommandPayload::Restart(p) => match p.target {
                RestartTarget::Camera => calls_systemctl(r.1, "restart"@, "camera"@),
                RestartTarget::Mavlink => calls_systemctl(r.1, "restart"@, "mavlink"@),
                RestartTarget::Modem => calls_systemctl(r.1, "restart"@, "modem-restart"@),
                RestartTarget::Unitctl => r.1 is CreateEnvDir,
                RestartTarget::Reboot => r.1 == RestartAction::ScheduleReboot(h.reboot_delay),
            },
            _ => r.1 matches RestartAction::Finish(Err(_)),
        },
{
    restart_begins_with_its_target(*h, *envelope);
    if let CommandPayload::Restart(p) = envelope.payload {
        match p.target {
            RestartTarget::Camera => lemma_called(r.1, "restart"@, "camera"@),
            RestartTarget::Mavlink => lemma_called(r.1, "restart"@, "mavlink"@),
            RestartTarget::Modem => lemma_called(r.1, "restart"@, "modem-restart"@),
            _ => {},
        }
    }
}

fn systemctl(verb: &str, unit: &str) -> (r: RestartAction)
    ensures
        r.as_move() == run_systemctl(verb@, unit@),
{
    let mut args: Vec<String> = Vec::new();
    args.push(verb.to_string());
    args.push(unit.to_string());
    assert(text::texts(args@) =~= seq![verb@, unit@]);
    RestartAction::Run { program: "systemctl".to_string(), args }
}

fn fail(message: &str) -> (r: RestartAction)
    ensures
        r.as_move() == Move::Fail(message@),
{
    RestartAction::Finish(Err(CommandError::new(message)))
}

fn succeed(target: RestartTarget) -> (r: RestartAction)
    ensures
        r.as_move() == Move::Succeed(target),
{
    RestartAction::Finish(
        Ok(CommandResult { data: CommandResultData::Restart(RestartResult { target }) }),
    )
}

fn exit_message(unit: &str, out: &ProcessOutput) -> (r: String)
    ensures
        r@ == exit_text(unit@, *out),
{
    "systemctl restart ".to_string().concat(unit).concat(" exited with ").concat(
        show_code(out.code).as_str(),
    ).concat(": ").concat(show_output(&out.stderr).as_str())
}

impl RestartHandler {
    pub const NAME: &'static str = "restart";

    pub open spec fn wf(self) -> bool {
        self.verify_window.wf() && self.verify_interval.wf() && self.reboot_delay.wf()
    }

    pub fn new() -> (r: Self)
        ensures
            r.wf(),
            r.verify_window.total_nanos() == 10_000_000_000,
            r.verify_interval.total_nanos() == 500_000_000,
            r.reboot_delay.total_nanos() == 1_000_000_000,
    {
        Self {
            verify_window: Duration::from_secs(10),
            verify_interval: Duration::from_millis(500),
            reboot_delay: Duration::from_secs(1),
        }
    }

    /// The service that stands for a target.
    pub fn unit_for(target: RestartTarget) -> (r: Option<&'static str>)
        ensures
            match r {
                Some(unit) => unit_of(target) == Some(unit@),
                None => unit_of(target) is None,
            },
    {
        match target {
            RestartTarget::Camera => Some("camera"),
            RestartTarget::Mavlink => Some("mavlink"),
            RestartTarget::Modem => Some("modem-restart"),
            RestartTarget::Unitctl => None,
            RestartTarget::Reboot => None,
        }
    }

    /// Begin to handle a command.
    pub fn begin(&self, envelope: &CommandEnvelope) -> (r: (RestartPhase, RestartAction))
        ensures
            (r.0, r.1.as_move()) == opening_move(*self, envelope.payload),
    {
        let target = match &envelope.payload {
            CommandPayload::Restart(p) => p.target,
            _ => {
                return (RestartPhase::Finished, fail("expected Restart payload"));
            },
        };
        match target {
            RestartTarget::Unitctl => (RestartPhase::CreatingDir, RestartAction::CreateEnvDir),
            RestartTarget::Reboot => (
                RestartPhase::SchedulingReboot,
                RestartAction::ScheduleReboot(self.reboot_delay),
            ),
            RestartTarget::Camera => (
                RestartPhase::RestartingUnit(target),
                systemctl("restart", "camera"),
            ),
            RestartTarget::Mavlink => (
                RestartPhase::RestartingUnit(target),
                systemctl("restart", "mavlink"),
            ),
            RestartTarget::Modem => (
                RestartPhase::RestartingUnit(target),
                systemctl("restart", "modem-restart"),
            ),
        }
    }

    fn after_unit_restart(
        &self,
        target: RestartTarget,
        unit: &str,
        ran: Result<ProcessOutput, String>,
        now: Duration,
    ) -> (r: (RestartPhase, RestartAction))
        requires
            self.wf(),
            now.wf(),
            unit_of(target) == Some(unit@),
        ensures
            (r.0, r.1.as_move()) == next_move(
                *self,
                Seq::empty(),
                RestartPhase::RestartingUnit(target),
                RestartEvent::Ran(ran),
                now.total_nanos(),
            ),
    {
        match ran {
            Err(e) => (
                RestartPhase::Finished,
                fail(join("failed to invoke systemctl: ", e.as_str()).as_str()),
            ),
            Ok(out) => if out.succeeded() {
                let deadline: u128 = now.as_nanos() + self.verify_window.as_nanos();
                (RestartPhase::CheckingUnit(target, deadline), systemctl("is-active", unit))
            } else {
                (RestartPhase::Finished, fail(exit_message(unit, &out).as_str()))
            },
        }
    }

    fn after_check(
        &self,
        target: RestartTarget,
        deadline: u128,
        ran: Result<ProcessOutput, String>,
        now: Duration,
    ) -> (r: (RestartPhase, RestartAction))
        requires
            now.wf(),
        ensures
            (r.0, r.1.as_move()) == next_move(
                *self,
                Seq::empty(),
                RestartPhase::CheckingUnit(target, deadline),
                RestartEvent::Ran(ran),
                now.total_nanos(),
            ),
    {
        match ran {
            Err(e) => (
                RestartPhase::Finished,
                fail(
                    join(
                        "service did not stay active: failed to invoke systemctl is-active: ",
                        e.as_str(),
                    ).as_str(),
                ),
            ),
            Ok(out) => {
                let state = show_output(&out.stdout);
                if !out.succeeded() || !same_text(state.as_str(), "active") {
                    let reported = if state.as_str().is_empty() {
                        "unknown".to_string()
                    } else {
                        state
                    };
                    let message = join("service did not stay active: ", reported.as_str());
                    (RestartPhase::Finished, fail(message.as_str()))
                } else if now.as_nanos() >= deadline {
                    (RestartPhase::Finished, succeed(target))
                } else {
                    (
                        RestartPhase::Pausing(target, deadline),
                        RestartAction::Sleep(self.verify_interval),
                    )
                }
            },
        }
    }

    fn after_self_restart(&self, ran: Result<ProcessOutput, String>) -> (r: (
        RestartPhase,
        RestartAction,
    ))
        ensures
            (r.0, r.1.as_move()) == next_move(
                *self,
                Seq::empty(),
                RestartPhase::RestartingSelf,
                RestartEvent::Ran(ran),
                0,
            ),
    {
        match ran {
            Err(e) => {
                let message = join("failed to invoke systemctl: ", e.as_str());
                (
                    RestartPhase::Finished,
                    RestartAction::DeletePendingAndFail(CommandError::new(message.as_str())),
                )
            },
            Ok(out) => if !out.succeeded() && out.code.is_some() {
                let message = exit_message("unitctl", &out);
                (
                    RestartPhase::Finished,
                    RestartAction::DeletePendingAndFail(CommandError::new(message.as_str())),
                )
            } else {
                (RestartPhase::Parked, RestartAction::Park)
            },
        }
    }

    /// Go on with the command `uuid` after an event, at the clock `now`.
    pub fn advance(&self, uuid: &str, phase: RestartPhase, event: RestartEvent, now: Duration) -> (r:
        (RestartPhase, RestartAction))
        requires
            self.wf(),
            now.wf(),
            phase.expects(event),
        ensures
            (r.0, r.1.as_move()) == next_move(*self, uuid@, phase, event, now.total_nanos()),
    {
        match (phase, event) {
            (RestartPhase::RestartingUnit(target), RestartEvent::Ran(ran)) => {
                match Self::unit_for(target) {
                    Some(unit) => self.after_unit_restart(target, unit, ran, now),
                    None => vstd::pervasive::unreached(),
                }
            },
            (RestartPhase::CheckingUnit(target, deadline), RestartEvent::Ran(ran)) => {
                self.after_check(target, deadline, ran, now)
            },
            (RestartPhase::Pausing(target, deadline), _) => {
                match Self::unit_for(target) {
                    Some(unit) => (
                        RestartPhase::CheckingUnit(target, deadline),
                        systemctl("is-active", unit),
                    ),
                    None => vstd::pervasive::unreached(),
                }
            },
            (RestartPhase::CreatingDir, RestartEvent::Failed { shown: _, error }) => (
                RestartPhase::Finished,
                fail(join("failed to create env_dir: ", error.as_str()).as_str()),
            ),
            (RestartPhase::CreatingDir, _) => (
                RestartPhase::WritingPending,
                RestartAction::WritePending(pending_text(uuid)),
            ),
            (RestartPhase::WritingPending, RestartEvent::Failed { shown, error }) => {
                let message = "failed to write ".to_string().concat(shown.as_str()).concat(
                    ": ",
                ).concat(error.as_str());
                (RestartPhase::Finished, fail(message.as_str()))
            },
            (RestartPhase::WritingPending, _) => (
                RestartPhase::RestartingSelf,
                systemctl("restart", "unitctl"),
            ),
            (RestartPhase::RestartingSelf, RestartEvent::Ran(ran)) => self.after_self_restart(ran),
            (RestartPhase::SchedulingReboot, _) => (
                RestartPhase::Finished,
                succeed(RestartTarget::Reboot),
            ),
            _ => vstd::pervasive::unreached(),
        }
    }
}

// ---------------------------------------------------------------------------
// The pending file
// ---------------------------------------------------------------------------

/// What the pending file holds: the UUID and a line end.
pub open spec fn pending_contents(uuid: Seq<char>) -> Seq<char> {
    uuid.push('\n')
}

fn pending_text(uuid: &str) -> (r: String)
    ensures
        r@ == pending_contents(uuid@),
{
    let mut contents = uuid.to_string();
    contents.push('\n');
    contents
}

/// The UUID in a pending file.
pub fn pending_uuid(bytes: &Vec<u8>) -> (r: String)
    ensures
        r@ == output_text(bytes@),
        vstd::utf8::valid_utf8(bytes@) ==> r@ == text::trimmed(vstd::utf8::decode_utf8(bytes@)),
{
    trim(text_lossy(bytes.as_slice()).as_str())
}

/// What a pending file holds reads back as the UUID that was written, without white
/// space around it: as that UUID itself where it had none.
pub proof fn written_uuid_is_read_back(uuid: Seq<char>)
    ensures
        ({
            let bytes = vstd::utf8::encode_utf8(pending_contents(uuid));
            &&& vstd::utf8::valid_utf8(bytes)
            &&& text::trimmed(vstd::utf8::decode_utf8(bytes)) == text::trimmed(uuid)
            &&& (uuid.len() > 0 ==> !text::is_space(uuid[0]) && !text::is_space(uuid.last()))
                ==> text::trimmed(vstd::utf8::decode_utf8(bytes)) == uuid
        }),
{
    vstd::utf8::encode_utf8_valid_utf8(pending_contents(uuid));
    vstd::utf8::encode_utf8_decode_utf8(pending_contents(uuid));
    text::trimming_drops_trailing_space(uuid, '\n');
    if uuid.len() > 0 ==> !text::is_space(uuid[0]) && !text::is_space(uuid.last()) {
        text::trimming_keeps_clean_text(uuid);
    }
}

/// The name that a start of the unit gives to a pending file it claims.
pub open spec fn inflight_name(pid: nat, nanos: nat) -> Seq<char> {
    PENDING_INFLIGHT_PREFIX@ + text::decimal(pid) + "."@ + text::decimal(nanos)
}

/// The name that process `pid` gives to a pending file it claims at `nanos`.
pub fn unique_inflight_name(pid: u32, nanos: u128) -> (r: String)
    ensures
        r@ == inflight_name(pid as nat, nanos as nat),
{
    PENDING_INFLIGHT_PREFIX.to_string().concat(decimal_text(pid as u128).as_str()).concat(
        ".",
    ).concat(decimal_text(nanos).as_str())
}

/// A file of this name is a claimed pending file.
pub fn is_inflight_name(name: &str) -> (r: bool)
    ensures
        r == PENDING_INFLIGHT_PREFIX@.is_prefix_of(name@),
{
    starts_with(name, PENDING_INFLIGHT_PREFIX)
}

/// The name of a claimed file is recognised as one, and two claims by different
/// processes or at different times get different names.
pub proof fn inflight_names_do_not_collide(pid1: nat, nanos1: nat, pid2: nat, nanos2: nat)
    ensures
        PENDING_INFLIGHT_PREFIX@.is_prefix_of(inflight_name(pid1, nanos1)),
        inflight_name(pid1, nanos1) == inflight_name(pid2, nanos2) ==> pid1 == pid2 && nanos1
            == nanos2,
{
    reveal_strlit(".");
    let p = PENDING_INFLIGHT_PREFIX@;
    let a = inflight_name(pid1, nanos1);
    let b = inflight_name(pid2, nanos2);
    assert(a.subrange(0, p.len() as int) =~= p);
    let d1 = text::decimal(pid1);
    let d2 = text::decimal(pid2);
    let n1 = text::decimal(nanos1);
    let n2 = text::decimal(nanos2);
    text::decimal_writes_its_number(pid1);
    text::decimal_writes_its_number(pid2);
    text::decimal_writes_its_number(nanos1);
    text::decimal_writes_its_number(nanos2);
    if a == b {
        let i1: int = p.len() + d1.len() as int;
        let i2: int = p.len() + d2.len() as int;
        assert(a[i1] == '.');
        assert(b[i2] == '.');
        if d1.len() < d2.len() {
            assert(b[i1] == d2[d1.len() as int]);
            assert(text::is_digit(d2[d1.len() as int]));
        } else if d2.len() < d1.len() {
            assert(a[i2] == d1[d2.len() as int]);
            assert(text::is_digit(d1[d2.len() as int]));
        }
        assert(d1 =~= a.subrange(p.len() as int, i1));
        assert(d2 =~= b.subrange(p.len() as int, i1));
        assert(n1 =~= a.subrange(i1 + 1, a.len() as int));
        assert(n2 =~= b.subrange(i1 + 1, b.len() as int));
    }
}

/// A claimed pending file and the UUID that it holds.
#[derive(Debug)]
pub struct PendingEntry {
    pub path: String,
    pub uuid: String,
}

/// What reading a file gave.
#[derive(Debug)]
pub enum FileRead {
    Bytes(Vec<u8>),
    NotFound,
    Failed(String),
}

/// `r` is the entry of the file at `path`; a file that is gone has none.
pub open spec fn reads_entry(
    path: Seq<char>,
    read: FileRead,
    r: Result<Option<PendingEntry>, String>,
) -> bool {
    match read {
        FileRead::Bytes(bytes) => {
            &&& r matches Ok(Some(entry))
            &&& entry.path@ == path
            &&& entry.uuid@ == output_text(bytes@)
        },
        FileRead::NotFound => r matches Ok(None),
        FileRead::Failed(e) => r == Err::<Option<PendingEntry>, String>(e),
    }
}

/// The entry of a claimed file that an earlier start of the unit has left behind.
pub fn orphan_entry(path: &str, read: FileRead) -> (r: Result<Option<PendingEntry>, String>)
    ensures
        reads_entry(path@, read, r),
{
    match read {
        FileRead::Bytes(bytes) => Ok(
            Some(PendingEntry { path: path.to_string(), uuid: pending_uuid(&bytes) }),
        ),
        FileRead::NotFound => Ok(None),
        FileRead::Failed(e) => Err(e),
    }
}

/// What renaming the pending file gave.
#[derive(Debug)]
pub enum FileClaim {
    /// It was renamed, and reading it then gave this.
    Renamed(Result<Vec<u8>, String>),
    NotFound,
    Failed(String),
}

/// The entry of the pending file, once it has been renamed to `scratch`. Where there
/// was none there is no entry.
pub fn claimed_entry(scratch: &str, claim: FileClaim) -> (r: Result<Option<PendingEntry>, String>)
    ensures
        match claim {
            FileClaim::Renamed(Ok(bytes)) => reads_entry(scratch@, FileRead::Bytes(bytes), r),
            FileClaim::Renamed(Err(e)) => r == Err::<Option<PendingEntry>, String>(e),
            FileClaim::NotFound => r matches Ok(None),
            FileClaim::Failed(e) => r == Err::<Option<PendingEntry>, String>(e),
        },
{
    match claim {
        FileClaim::Renamed(Ok(bytes)) => orphan_entry(scratch, FileRead::Bytes(bytes)),
        FileClaim::Renamed(Err(e)) => Err(e),
        FileClaim::NotFound => Ok(None),
        FileClaim::Failed(e) => Err(e),
    }
}

// ---------------------------------------------------------------------------
// The completion
// ---------------------------------------------------------------------------

/// Publishes a deferred Completed status + result for restarts of the unit, after the
/// next start's MQTT connection.
#[derive(Debug)]
pub struct RestartCompletionPublisher {
    /// The completions to publish.
    pub entries: Vec<PendingEntry>,
}

/// What the publisher does next.
#[derive(Debug, Clone, Copy, PartialEq, Eq, Structural)]
pub enum CompletionStep {
    Publish,
    Wait,
    Stop,
}

/// All entries that were found: those left behind, and the one just claimed. What
/// could not be read counts as not there.
pub open spec fn found_entries(
    orphans: Result<Vec<PendingEntry>, String>,
    claimed: Result<Option<PendingEntry>, String>,
) -> Seq<PendingEntry> {
    let left = match orphans {
        Ok(v) => v@,
        Err(_) => Seq::empty(),
    };
    match claimed {
        Ok(Some(entry)) => left.push(entry),
        _ => left,
    }
}

/// The entries with a UUID.
pub open spec fn with_uuid(entries: Seq<PendingEntry>) -> Seq<PendingEntry>
    decreases entries.len(),
{
    if entries.len() == 0 {
        Seq::empty()
    } else if entries.last().uuid@.len() == 0 {
        with_uuid(entries.drop_last())
    } else {
        with_uuid(entries.drop_last()).push(entries.last())
    }
}

/// The paths of the entries without one.
pub open spec fn without_uuid(entries: Seq<PendingEntry>) -> Seq<Seq<char>>
    decreases entries.len(),
{
    if entries.len() == 0 {
        Seq::empty()
    } else if entries.last().uuid@.len() == 0 {
        without_uuid(entries.drop_last()).push(entries.last().path@)
    } else {
        without_uuid(entries.drop_last())
    }
}

/// What an event of the transport means to the publisher, until it publishes.
pub open spec fn completion_step_of(event: Received) -> CompletionStep {
    match event {
        Received::Event(MqttEvent::Connected) => CompletionStep::Publish,
        Received::Event(_) | Received::Lagged(_) => CompletionStep::Wait,
        Received::Closed | Received::Cancelled => CompletionStep::Stop,
    }
}

/// Where the publisher stands.
#[derive(Debug, Clone, Copy, PartialEq, Eq, Structural)]
pub enum CompletionPosition {
    /// It waits for a connection.
    Waiting,
    /// The status of this entry is being published.
    Status(usize),
    /// The result of this entry is being published, after its status was or was not.
    Result(usize, bool),
    /// The file of this entry is being deleted, or left where it is.
    Settling(usize),
    /// There is nothing left to do.
    Over,
}

/// What has happened since.
#[derive(Debug)]
pub enum CompletionEvent {
    /// This came in while waiting.
    Received(Received),
    /// The message was published, or could not be.
    Published(bool),
    /// The file was dealt with.
    Settled,
}

/// What the publisher does next.
#[derive(Debug)]
pub enum CompletionAction {
    /// Wait for the next event of the transport.
    Wait,
    PublishStatus(Outgoing<CommandStatus>),
    PublishResult(Outgoing<CommandResultMsg>),
    /// Delete the file at this path.
    Remove(String),
    /// Leave the file at this path for the next start.
    Keep(String),
    Stop,
}

/// An action, by the entry that it is about.
pub enum CompletionMove {
    Wait,
    Status(usize),
    Result(usize),
    Remove(usize),
    Keep(usize),
    Stop,
}

impl CompletionPosition {
    /// The position is one among `n` entries.
    pub open spec fn within(self, n: usize) -> bool {
        match self {
            CompletionPosition::Waiting => n > 0,
            CompletionPosition::Status(i) => i < n,
            CompletionPosition::Result(i, _) => i < n,
            CompletionPosition::Settling(i) => i < n,
            CompletionPosition::Over => true,
        }
    }

    /// The event is one that can happen in this position.
    pub open spec fn expects(self, event: CompletionEvent) -> bool {
        match self {
            CompletionPosition::Waiting => event is Received,
            CompletionPosition::Status(_) => event is Published,
            CompletionPosition::Result(_, _) => event is Published,
            CompletionPosition::Settling(_) => event is Settled,
            CompletionPosition::Over => false,
        }
    }
}

/// How the publication of `n` entries begins.
pub open spec fn first_completion(n: usize) -> (CompletionPosition, CompletionMove) {
    if n == 0 {
        (CompletionPosition::Over, CompletionMove::Stop)
    } else {
        (CompletionPosition::Waiting, CompletionMove::Wait)
    }
}

/// How the publication of `n` entries goes on: it begins with the first connection.
/// Both messages of an entry are tried, and its file goes only where both were
/// published.
pub open spec fn next_completion(
    n: usize,
    position: CompletionPosition,
    event: CompletionEvent,
) -> (CompletionPosition, CompletionMove) {
    match (position, event) {
        (CompletionPosition::Waiting, CompletionEvent::Received(received)) => {
            match completion_step_of(received) {
                CompletionStep::Publish => (
                    CompletionPosition::Status(0),
                    CompletionMove::Status(0),
                ),
                CompletionStep::Wait => (CompletionPosition::Waiting, CompletionMove::Wait),
                CompletionStep::Stop => (CompletionPosition::Over, CompletionMove::Stop),
            }
        },
        (CompletionPosition::Status(i), CompletionEvent::Published(ok)) => (
            CompletionPosition::Result(i, ok),
            CompletionMove::Result(i),
        ),
        (CompletionPosition::Result(i, status_ok), CompletionEvent::Published(ok)) => (
            CompletionPosition::Settling(i),
            if status_ok && ok {
                CompletionMove::Remove(i)
            } else {
                CompletionMove::Keep(i)
            },
        ),
        (CompletionPosition::Settling(i), CompletionEvent::Settled) => if i + 1 < n {
            (
                CompletionPosition::Status((i + 1) as usize),
                CompletionMove::Status((i + 1) as usize),
            )
        } else {
            (CompletionPosition::Over, CompletionMove::Stop)
        },
        _ => (CompletionPosition::Over, CompletionMove::Stop),
    }
}

/// `action` does `m` about `entries`.
pub open spec fn carries_out(
    action: CompletionAction,
    m: CompletionMove,
    entries: Seq<PendingEntry>,
    t: MqttTransport,
    ts: Timestamp,
) -> bool {
    match m {
        CompletionMove::Wait => action is Wait,
        CompletionMove::Status(i) => action matches CompletionAction::PublishStatus(o)
            && completes_status(o, t, entries[i as int], ts),
        CompletionMove::Result(i) => action matches CompletionAction::PublishResult(o)
            && completes_result(o, t, entries[i as int], ts),
        CompletionMove::Remove(i) => action matches CompletionAction::Remove(path) && path@
            == entries[i as int].path@,
        CompletionMove::Keep(i) => action matches CompletionAction::Keep(path) && path@
            == entries[i as int].path@,
        CompletionMove::Stop => action is Stop,
    }
}

/// `o` is the status message of an entry's completion.
pub open spec fn completes_status(
    o: Outgoing<CommandStatus>,
    t: MqttTransport,
    entry: PendingEntry,
    ts: Timestamp,
) -> bool {
    commands::is_status(o, t, "restart"@, entry.uuid@, CommandState::Completed, ts)
}

/// `o` is the result message of an entry's completion.
pub open spec fn completes_result(
    o: Outgoing<CommandResultMsg>,
    t: MqttTransport,
    entry: PendingEntry,
    ts: Timestamp,
) -> bool {
    commands::is_result(
        o,
        t,
        "restart"@,
        entry.uuid@,
        true,
        None,
        Some(CommandResultData::Restart(RestartResult { target: RestartTarget::Unitctl })),
        ts,
    )
}

impl Clone for PendingEntry {
    fn clone(&self) -> (r: Self)
        ensures
            r == *self,
    {
        PendingEntry { path: self.path.clone(), uuid: self.uuid.clone() }
    }
}

impl RestartCompletionPublisher {
    /// Sort out what was found at the start of the unit. The files at the paths that
    /// are returned beside the publisher hold no UUID and are to be deleted.
    pub fn collect(
        orphans: Result<Vec<PendingEntry>, String>,
        claimed: Result<Option<PendingEntry>, String>,
    ) -> (r: (Self, Vec<String>))
        ensures
            r.0.entries@ == with_uuid(found_entries(orphans, claimed)),
            text::texts(r.1@) == without_uuid(found_entries(orphans, claimed)),
    {
        let ghost found = found_entries(orphans, claimed);
        let mut all: Vec<PendingEntry> = match orphans {
            Ok(v) => v,
            Err(_) => Vec::new(),
        };
        match claimed {
            Ok(Some(entry)) => {
                all.push(entry);
            },
            _ => {},
        }
        assert(all@ =~= found);
        let mut entries: Vec<PendingEntry> = Vec::new();
        let mut discard: Vec<String> = Vec::new();
        assert(text::texts(discard@) =~= without_uuid(all@.take(0)));
        for i in 0..all.len()
            invariant
                entries@ == with_uuid(all@.take(i as int)),
                text::texts(discard@) == without_uuid(all@.take(i as int)),
        {
            proof {
                assert(all@.take(i + 1).drop_last() =~= all@.take(i as int));
                assert(all@.take(i + 1).last() == all@[i as int]);
            }
            let ghost paths = text::texts(discard@);
            if all[i].uuid.as_str().is_empty() {
                discard.push(all[i].path.clone());
                assert(text::texts(discard@) =~= paths.push(all@[i as int].path@));
            } else {
                entries.push(all[i].clone());
            }
        }
        assert(all@.take(all@.len() as int) =~= all@);
        (RestartCompletionPublisher { entries }, discard)
    }

    /// Whether there is anything to publish.
    pub fn has_work(&self) -> (r: bool)
        ensures
            r <==> self.entries@.len() > 0,
    {
        self.entries.len() > 0
    }

    /// What to do about an event: publish on the first connection.
    pub fn on_event(event: &Received) -> (r: CompletionStep)
        ensures
            r == completion_step_of(*event),
    {
        match event {
            Received::Event(MqttEvent::Connected) => CompletionStep::Publish,
            Received::Event(_) => CompletionStep::Wait,
            Received::Lagged(_) => CompletionStep::Wait,
            Received::Closed => CompletionStep::Stop,
            Received::Cancelled => CompletionStep::Stop,
        }
    }

    /// The status message of a completion.
    pub fn completion_status(t: &MqttTransport, entry: &PendingEntry, ts: Timestamp) -> (r:
        Outgoing<CommandStatus>)
        ensures
            completes_status(r, *t, *entry, ts),
    {
        status_message(t, "restart", entry.uuid.as_str(), CommandState::Completed, ts)
    }

    /// The result message of a completion.
    pub fn completion_result(t: &MqttTransport, entry: &PendingEntry, ts: Timestamp) -> (r:
        Outgoing<CommandResultMsg>)
        ensures
            completes_result(r, *t, *entry, ts),
    {
        result_message(
            t,
            "restart",
            entry.uuid.as_str(),
            true,
            None,
            Some(CommandResultData::Restart(RestartResult { target: RestartTarget::Unitctl })),
            ts,
        )
    }

    /// Whether an entry's file is done with: only once both of its messages have been
    /// published. Otherwise it stays for the next start.
    pub fn may_remove(status_published: bool, result_published: bool) -> (r: bool)
        ensures
            r <==> status_published && result_published,
    {
        status_published && result_published
    }

    /// Begin: without entries there is nothing to do.
    pub fn begin(&self) -> (r: (CompletionPosition, CompletionAction))
        ensures
            r.0 == first_completion(self.entries.len()).0,
            r.0.within(self.entries.len()),
            match first_completion(self.entries.len()).1 {
                CompletionMove::Wait => r.1 is Wait,
                _ => r.1 is Stop,
            },
    {
        if self.has_work() {
            (CompletionPosition::Waiting, CompletionAction::Wait)
        } else {
            (CompletionPosition::Over, CompletionAction::Stop)
        }
    }

    /// Go on after an event, at `now`.
    pub fn advance(
        &self,
        t: &MqttTransport,
        position: CompletionPosition,
        event: CompletionEvent,
        now: Timestamp,
    ) -> (r: (CompletionPosition, CompletionAction))
        requires
            position.within(self.entries.len()),
            position.expects(event),
        ensures
            r.0 == next_completion(self.entries.len(), position, event).0,
            r.0.within(self.entries.len()),
            carries_out(
                r.1,
                next_completion(self.entries.len(), position, event).1,
                self.entries@,
                *t,
                now,
            ),
    {
        match (position, event) {
            (CompletionPosition::Waiting, CompletionEvent::Received(received)) => {
                match Self::on_event(&received) {
                    CompletionStep::Publish => self.publish_status_of(t, 0, now),
                    CompletionStep::Wait => (CompletionPosition::Waiting, CompletionAction::Wait),
                    CompletionStep::Stop => (CompletionPosition::Over, CompletionAction::Stop),
                }
            },
            (CompletionPosition::Status(i), CompletionEvent::Published(ok)) => (
                CompletionPosition::Result(i, ok),
                CompletionAction::PublishResult(
                    Self::completion_result(t, &self.entries[i], now),
                ),
            ),
            (CompletionPosition::Result(i, status_ok), CompletionEvent::Published(ok)) => {
                let path = self.entries[i].path.clone();
                if Self::may_remove(status_ok, ok) {
                    (CompletionPosition::Settling(i), CompletionAction::Remove(path))
                } else {
                    (CompletionPosition::Settling(i), CompletionAction::Keep(path))
                }
            },
            (CompletionPosition::Settling(i), CompletionEvent::Settled) => {
                if i + 1 < self.entries.len() {
                    self.publish_status_of(t, i + 1, now)
                } else {
                    (CompletionPosition::Over, CompletionAction::Stop)
                }
            },
            _ => vstd::pervasive::unreached(),
        }
    }

    fn publish_status_of(&self, t: &MqttTransport, i: usize, now: Timestamp) -> (r: (
        CompletionPosition,
        CompletionAction,
    ))
        requires
            i < self.entries.len(),
        ensures
            r.0 == CompletionPosition::Status(i),
            carries_out(r.1, CompletionMove::Status(i), self.entries@, *t, now),
    {
        (
            CompletionPosition::Status(i),
            CompletionAction::PublishStatus(Self::completion_status(t, &self.entries[i], now)),
        )
    }
}

/// No entry gets lost: each one that was found is either published or, where it holds
/// no UUID, discarded.
pub proof fn every_entry_is_published_or_discarded(entries: Seq<PendingEntry>)
    ensures
        with_uuid(entries).len() + without_uuid(entries).len() == entries.len(),
        forall|i: int|
            0 <= i < entries.len() ==> if (#[trigger] entries[i]).uuid@.len() > 0 {
                with_uuid(entries).contains(entries[i])
            } else {
                without_uuid(entries).contains(entries[i].path@)
            },
    decreases entries.len(),
{
    if entries.len() > 0 {
        let init = entries.drop_last();
        every_entry_is_published_or_discarded(init);
        let kept = with_uuid(init);
        let gone = without_uuid(init);
        assert forall|i: int| 0 <= i < entries.len() implies if (
        #[trigger] entries[i]).uuid@.len() > 0 {
            with_uuid(entries).contains(entries[i])
        } else {
            without_uuid(entries).contains(entries[i].path@)
        } by {
            let e = entries[i];
            if i < init.len() {
                assert(init[i] == e);
                if e.uuid@.len() > 0 {
                    let j = choose|j: int| 0 <= j < kept.len() && kept[j] == e;
                    assert(with_uuid(entries)[j] == e);
                } else {
                    let j = choose|j: int| 0 <= j < gone.len() && gone[j] == e.path@;
                    assert(without_uuid(entries)[j] == e.path@);
                }
            } else {
                if e.uuid@.len() > 0 {
                    assert(with_uuid(entries)[kept.len() as int] == e);
                } else {
                    assert(without_uuid(entries)[gone.len() as int] == e.path@);
                }
            }
        }
    }
}

/// The completion of a restart tells, under the UUID of the command that asked for it,
/// that the unit has been restarted, and no error.
pub proof fn completion_reports_the_restarted_unit(
    status: Outgoing<CommandStatus>,
    result: Outgoing<CommandResultMsg>,
    t: MqttTransport,
    entry: PendingEntry,
    ts: Timestamp,
)
    requires
        completes_status(status, t, entry, ts),
        completes_result(result, t, entry, ts),
    ensures
        status.topic@ == t.env_prefix@ + "/nodes/"@ + t.node_id@ + "/cmnd/"@ + "restart"@ + "/"@
            + "status"@,
        result.topic@ == t.env_prefix@ + "/nodes/"@ + t.node_id@ + "/cmnd/"@ + "restart"@ + "/"@
            + "result"@,
        status.message.uuid@ == entry.uuid@,
        result.message.uuid@ == entry.uuid@,
        status.message.state == CommandState::Completed,
        result.message.ok,
        result.message.error is None,
        result.message.data matches Some(CommandResultData::Restart(data)) && data.target
            == RestartTarget::Unitctl,
        !status.retain && !result.retain,
{
    commands::command_messages_reach_their_topics(
        status,
        result,
        t,
        "restart"@,
        entry.uuid@,
        CommandState::Completed,
        ts,
    );
}

/// Where the publication of `n` entries stands after the first `k` events of a run, and
/// the move that it is at.
pub open spec fn completion_at(n: usize, events: Seq<CompletionEvent>, k: int) -> (
    CompletionPosition,
    CompletionMove,
)
    decreases k,
{
    if k <= 0 {
        first_completion(n)
    } else {
        next_completion(n, completion_at(n, events, k - 1).0, events[k - 1])
    }
}

/// Event `k` is one that can happen where the run then stands.
pub open spec fn completion_fits(n: usize, events: Seq<CompletionEvent>, k: int) -> bool {
    completion_at(n, events, k).0.expects(events[k])
}

/// The events are those of a run.
pub open spec fn is_completion_run(n: usize, events: Seq<CompletionEvent>) -> bool {
    forall|k: int| 0 <= k < events.len() ==> #[trigger] completion_fits(n, events, k)
}

/// The event is a connection.
pub open spec fn is_connection(event: CompletionEvent) -> bool {
    event matches CompletionEvent::Received(Received::Event(MqttEvent::Connected))
}

/// The move is that of the position.
proof fn lemma_move_of_position(n: usize, events: Seq<CompletionEvent>, k: int)
    requires
        is_completion_run(n, events),
        0 <= k <= events.len(),
    ensures
        ({
            let (position, m) = completion_at(n, events, k);
            &&& position.within(n)
            &&& match position {
                CompletionPosition::Waiting => m is Wait,
                CompletionPosition::Status(i) => m == CompletionMove::Status(i),
                CompletionPosition::Result(i, _) => m == CompletionMove::Result(i),
                CompletionPosition::Settling(i) => m == CompletionMove::Remove(i) || m
                    == CompletionMove::Keep(i),
                CompletionPosition::Over => m is Stop,
            }
        }),
    decreases k,
{
    if k > 0 {
        lemma_move_of_position(n, events, k - 1);
        assert(completion_fits(n, events, k - 1));
    }
}

/// Nothing is published, and no file is touched, before the first connection.
pub proof fn nothing_is_published_before_the_connection(
    n: usize,
    events: Seq<CompletionEvent>,
    k: int,
)
    requires
        is_completion_run(n, events),
        0 <= k <= events.len(),
        forall|j: int| 0 <= j < k ==> !is_connection(#[trigger] events[j]),
    ensures
        completion_at(n, events, k).1 is Wait || completion_at(n, events, k).1 is Stop,
        completion_at(n, events, k).0 == CompletionPosition::Waiting || completion_at(
            n,
            events,
            k,
        ).0 == CompletionPosition::Over,
    decreases k,
{
    if k > 0 {
        nothing_is_published_before_the_connection(n, events, k - 1);
        assert(completion_fits(n, events, k - 1));
        assert(!is_connection(events[k - 1]));
    }
}

/// The result of an entry is tried after its status, whether that was published or not,
/// and at no other time.
pub proof fn result_is_tried_after_every_status(
    n: usize,
    events: Seq<CompletionEvent>,
    k: int,
    i: usize,
)
    requires
        is_completion_run(n, events),
        0 <= k < events.len(),
    ensures
        completion_at(n, events, k).1 == CompletionMove::Status(i) <==> completion_at(
            n,
            events,
            k + 1,
        ).1 == CompletionMove::Result(i),
{
    lemma_move_of_position(n, events, k);
    lemma_move_of_position(n, events, k + 1);
    assert(completion_fits(n, events, k));
}

/// The file of an entry is deleted exactly where both of its messages have just been
/// published.
pub proof fn file_goes_where_both_were_published(
    n: usize,
    events: Seq<CompletionEvent>,
    k: int,
    i: usize,
)
    requires
        is_completion_run(n, events),
        0 <= k <= events.len(),
    ensures
        completion_at(n, events, k).1 == CompletionMove::Remove(i) <==> {
            &&& k >= 2
            &&& completion_at(n, events, k - 2).1 == CompletionMove::Status(i)
            &&& events[k - 2] == CompletionEvent::Published(true)
            &&& completion_at(n, events, k - 1).1 == CompletionMove::Result(i)
            &&& events[k - 1] == CompletionEvent::Published(true)
        },
{
    if k > 0 {
        lemma_move_of_position(n, events, k - 1);
        assert(completion_fits(n, events, k - 1));
        if k > 1 {
            lemma_move_of_position(n, events, k - 2);
            assert(completion_fits(n, events, k - 2));
        }
    }
}

/// From the connection on, which is event `w`, the entries have their turns one after
/// the other: the status, the result, and the file. After the last one the run ends.
pub proof fn every_completion_has_its_turn(
    n: usize,
    events: Seq<CompletionEvent>,
    w: int,
    i: usize,
)
    requires
        is_completion_run(n, events),
        0 <= w < events.len(),
        is_connection(events[w]),
        i < n,
    ensures
        ({
            let b = w + 1 + 3 * i;
            &&& b <= events.len() ==> completion_at(n, events, b) == (
                CompletionPosition::Status(i),
                CompletionMove::Status(i),
            )
            &&& b + 1 <= events.len() ==> (completion_at(n, events, b + 1).0 matches
                CompletionPosition::Result(j, _) && j == i)
            &&& b + 1 <= events.len() ==> completion_at(n, events, b + 1).1
                == CompletionMove::Result(i)
            &&& b + 2 <= events.len() ==> completion_at(n, events, b + 2).0
                == CompletionPosition::Settling(i)
            &&& b + 2 <= events.len() ==> (completion_at(n, events, b + 2).1
                == CompletionMove::Remove(i) || completion_at(n, events, b + 2).1
                == CompletionMove::Keep(i))
            &&& i + 1 == n ==> events.len() <= b + 3 && (b + 3 == events.len() ==> completion_at(
                n,
                events,
                b + 3,
            ).1 is Stop)
        }),
    decreases i,
{
    let b = w + 1 + 3 * i;
    if i == 0 {
        assert(completion_fits(n, events, w));
        lemma_move_of_position(n, events, w);
    } else {
        every_completion_has_its_turn(n, events, w, (i - 1) as usize);
        if b <= events.len() {
            assert(completion_fits(n, events, b - 1));
        }
    }
    if b + 1 <= events.len() {
        assert(completion_fits(n, events, b));
    }
    if b + 2 <= events.len() {
        assert(completion_fits(n, events, b + 1));
    }
    if b + 3 <= events.len() {
        assert(completion_fits(n, events, b + 2));
    }
    if b + 4 <= events.len() {
        assert(completion_fits(n, events, b + 3));
    }
}

// ---------------------------------------------------------------------------
// What the operations promise
// ---------------------------------------------------------------------------

/// The unit restarts itself only right after it has written its pending file, which holds
/// the command's UUID on a line of its own. Where `systemctl` cannot be run, or exits with
/// another code than zero, the file is deleted and the command fails; otherwise the unit
/// waits for its end.
pub proof fn own_restart_follows_the_pending_file(
    h: &RestartHandler,
    envelope: &CommandEnvelope,
    uuid: &str,
    events: Seq<(RestartEvent, Duration)>,
    steps: Seq<(RestartPhase, RestartAction)>,
    k: int,
)
    requires
        is_carried_out(h, envelope, uuid, events, steps),
        0 <= k < steps.len(),
        calls_systemctl(steps[k].1, "restart"@, "unitctl"@),
    ensures
        k > 0,
        events[k - 1].0 is Done,
        steps[k - 1].1 matches RestartAction::WritePending(s) && s@ == uuid@.push('\n'),
        k < events.len() ==> match events[k].0 {
            RestartEvent::Ran(Ok(out)) => if out.code is Some && out.code != Some(0i32) {
                steps[k + 1].1 is DeletePendingAndFail
            } else {
                steps[k + 1].1 is Park
            },
            _ => steps[k + 1].1 is DeletePendingAndFail,
        },
{
    assert forall|j: int| 0 <= j < events.len() implies #[trigger] restart_fits(
        *h,
        *envelope,
        events,
        j,
    ) by {
        lemma_steps_are_the_run(h, envelope, uuid, events, steps, j);
    }
    lemma_steps_are_the_run(h, envelope, uuid, events, steps, k);
    let args = steps[k].1->args;
    assert(text::texts(args@)[0] == args@[0]@ && text::texts(args@)[1] == args@[1]@);
    assert(runs_systemctl(restart_at(*h, *envelope, events, k).1, "restart"@, "unitctl"@));
    self_restart_follows_the_pending_file(*h, *envelope, events, k);
    lemma_steps_are_the_run(h, envelope, uuid, events, steps, k - 1);
    if k < events.len() {
        lemma_steps_are_the_run(h, envelope, uuid, events, steps, k + 1);
    }
}

/// A reboot is scheduled with its delay, and only then is the command answered with
/// success: it is the one target whose success is told before it happens.
pub proof fn reboots_are_scheduled_before_the_answer(
    h: &RestartHandler,
    envelope: &CommandEnvelope,
    uuid: &str,
    first: (RestartPhase, RestartAction),
    now: Duration,
    second: (RestartPhase, RestartAction),
)
    requires
        envelope.payload matches CommandPayload::Restart(p) && p.target == RestartTarget::Reboot,
        call_ensures(RestartHandler::begin, (h, envelope), first),
        call_ensures(
            RestartHandler::advance,
            (h, uuid, first.0, RestartEvent::Done, now),
            second,
        ),
    ensures
        first.1 == RestartAction::ScheduleReboot(h.reboot_delay),
        second.1 matches RestartAction::Finish(Ok(result)) && result.data is Restart && (
        result.data->Restart_0).target == RestartTarget::Reboot,
{
}

/// The UUID that was written to a pending file is read back from it.
pub proof fn pending_files_keep_their_uuid(uuid: Seq<char>, bytes: &Vec<u8>, r: String)
    requires
        call_ensures(pending_uuid, (bytes,), r),
        bytes@ == vstd::utf8::encode_utf8(uuid.push('\n')),
        uuid.len() > 0 ==> !text::is_space(uuid[0]) && !text::is_space(uuid.last()),
    ensures
        r@ == uuid,
{
    written_uuid_is_read_back(uuid);
}

/// The name of a claimed file is recognised as one, and two claims by different processes
/// or at different times have different names.
pub proof fn claimed_files_are_told_apart(
    pid1: u32,
    nanos1: u128,
    pid2: u32,
    nanos2: u128,
    a: String,
    b: String,
    name: &str,
    known: bool,
)
    requires
        call_ensures(unique_inflight_name, (pid1, nanos1), a),
        call_ensures(unique_inflight_name, (pid2, nanos2), b),
        name@ == a@,
        call_ensures(is_inflight_name, (name,), known),
    ensures
        known,
        a@ == b@ ==> pid1 == pid2 && nanos1 == nanos2,
{
    inflight_names_do_not_collide(pid1 as nat, nanos1 as nat, pid2 as nat, nanos2 as nat);
}

/// A pending file that was claimed, or left behind, is an entry with its own path and its
/// UUID. One that is not there is no entry and no error; one that cannot be read is an
/// error.
pub proof fn files_become_entries(
    path: &str,
    read: FileRead,
    claim: FileClaim,
    left: Result<Option<PendingEntry>, String>,
    claimed: Result<Option<PendingEntry>, String>,
)
    requires
        call_ensures(orphan_entry, (path, read), left),
        call_ensures(claimed_entry, (path, claim), claimed),
    ensures
        read is NotFound ==> (left matches Ok(None)),
        read matches FileRead::Failed(e) ==> left == Err::<Option<PendingEntry>, String>(e),
        read matches FileRead::Bytes(b) ==> (left matches Ok(Some(entry)) && entry.path@ == path@
            && entry.uuid@ == text::trimmed(text::lossy_text(b@))),
        claim is NotFound ==> (claimed matches Ok(None)),
        claim matches FileClaim::Failed(e) ==> claimed == Err::<Option<PendingEntry>, String>(e),
        claim matches FileClaim::Renamed(Err(e)) ==> claimed == Err::<Option<PendingEntry>, String>(
            e,
        ),
        claim matches FileClaim::Renamed(Ok(b)) ==> (claimed matches Ok(Some(entry)) && entry.path@
            == path@ && entry.uuid@ == text::trimmed(text::lossy_text(b@))),
{
}

proof fn lemma_sorted_out(entries: Seq<PendingEntry>)
    ensures
        with_uuid(entries) == entries.filter(|e: PendingEntry| e.uuid@.len() > 0),
        without_uuid(entries) == entries.filter(|e: PendingEntry| e.uuid@.len() == 0).map_values(
            |e: PendingEntry| e.path@,
        ),
    decreases entries.len(),
{
    reveal(Seq::filter);
    let empty = entries.filter(|e: PendingEntry| e.uuid@.len() == 0);
    if entries.len() > 0 {
        lemma_sorted_out(entries.drop_last());
    }
    assert(without_uuid(entries) =~= empty.map_values(|e: PendingEntry| e.path@));
}

/// At a start, the completions to publish are those of the files with a UUID, the files
/// left behind first and the one just claimed last. The files without a UUID are to be
/// deleted. What cannot be read counts as not there, and spoils nothing else.
pub proof fn starts_sort_out_their_files(
    orphans: Result<Vec<PendingEntry>, String>,
    claimed: Result<Option<PendingEntry>, String>,
    r: (RestartCompletionPublisher, Vec<String>),
)
    requires
        call_ensures(RestartCompletionPublisher::collect, (orphans, claimed), r),
    ensures
        ({
            let left = if orphans is Ok {
                orphans->Ok_0@
            } else {
                Seq::empty()
            };
            let all = if claimed is Ok && claimed->Ok_0 is Some {
                left.push(claimed->Ok_0->0)
            } else {
                left
            };
            &&& r.0.entries@ == all.filter(|e: PendingEntry| e.uuid@.len() > 0)
            &&& text::texts(r.1@) == all.filter(|e: PendingEntry| e.uuid@.len() == 0).map_values(
                |e: PendingEntry| e.path@,
            )
        }),
{
    lemma_sorted_out(found_entries(orphans, claimed));
}

/// The completions begin with the first connection, and with the first entry. Everything
/// else is waited out, until there will be no more events.
pub proof fn completions_begin_with_a_connection(
    publisher: &RestartCompletionPublisher,
    t: &MqttTransport,
    first: (CompletionPosition, CompletionAction),
    received: Received,
    now: Timestamp,
    second: (CompletionPosition, CompletionAction),
)
    requires
        publisher.entries@.len() > 0,
        call_ensures(RestartCompletionPublisher::begin, (publisher,), first),
        call_ensures(
            RestartCompletionPublisher::advance,
            (publisher, t, first.0, CompletionEvent::Received(received), now),
            second,
        ),
    ensures
        first.1 is Wait,
        received == Received::Event(MqttEvent::Connected) ==> (second.1 matches
            CompletionAction::PublishStatus(o) && o.message.uuid@ == publisher.entries@[0].uuid@
            && o.message.state == CommandState::Completed && o.message.ts == now),
        received is Lagged || received == Received::Event(MqttEvent::Disconnected) ==> second.1
            is Wait && second.0 == first.0,
        received is Closed || received is Cancelled ==> second.1 is Stop,
{
}

/// The turn of one entry: its status, then its result whatever became of the status, then
/// its file, which goes only where both were published, and then the next entry's turn.
pub proof fn every_entry_has_one_turn(
    publisher: &RestartCompletionPublisher,
    t: &MqttTransport,
    i: usize,
    status_ok: bool,
    result_ok: bool,
    t1: Timestamp,
    t2: Timestamp,
    t3: Timestamp,
    result: (CompletionPosition, CompletionAction),
    file: (CompletionPosition, CompletionAction),
    next: (CompletionPosition, CompletionAction),
)
    requires
        i < publisher.entries@.len(),
        call_ensures(
            RestartCompletionPublisher::advance,
            (
                publisher,
                t,
                CompletionPosition::Status(i),
                CompletionEvent::Published(status_ok),
                t1,
            ),
            result,
        ),
        call_ensures(
            RestartCompletionPublisher::advance,
            (publisher, t, result.0, CompletionEvent::Published(result_ok), t2),
            file,
        ),
        call_ensures(
            RestartCompletionPublisher::advance,
            (publisher, t, file.0, CompletionEvent::Settled, t3),
            next,
        ),
    ensures
        result.1 matches CompletionAction::PublishResult(o) && o.message.uuid@
            == publisher.entries@[i as int].uuid@ && o.message.ok && o.message.ts == t1,
        status_ok && result_ok ==> (file.1 matches CompletionAction::Remove(path) && path@
            == publisher.entries@[i as int].path@),
        !(status_ok && result_ok) ==> (file.1 matches CompletionAction::Keep(path) && path@
            == publisher.entries@[i as int].path@),
        i + 1 < publisher.entries@.len() ==> (next.1 matches CompletionAction::PublishStatus(o)
            && o.message.uuid@ == publisher.entries@[i + 1].uuid@ && o.message.state
            == CommandState::Completed && o.message.ts == t3),
        i + 1 == publisher.entries@.len() ==> next.1 is Stop,
{
}

/// The messages of a completion, as they are addressed.
pub proof fn completions_are_addressed(
    t: &MqttTransport,
    entry: &PendingEntry,
    ts: Timestamp,
    status: Outgoing<CommandStatus>,
    result: Outgoing<CommandResultMsg>,
)
    requires
        call_ensures(RestartCompletionPublisher::completion_status, (t, entry, ts), status),
        call_ensures(RestartCompletionPublisher::completion_result, (t, entry, ts), result),
    ensures
        status.topic@ == t.env_prefix@ + "/nodes/"@ + t.node_id@ + "/cmnd/"@ + "restart"@ + "/"@
            + "status"@,
        result.topic@ == t.env_prefix@ + "/nodes/"@ + t.node_id@ + "/cmnd/"@ + "restart"@ + "/"@
            + "result"@,
        status.message.uuid@ == entry.uuid@ && result.message.uuid@ == entry.uuid@,
        status.message.state == CommandState::Completed,
        status.message.ts == ts && result.message.ts == ts,
        result.message.ok && result.message.error is None,
        result.message.data matches Some(CommandResultData::Restart(data)) && data.target
            == RestartTarget::Unitctl,
{
    completion_reports_the_restarted_unit(status, result, *t, *entry, ts);
}

/// The faults of a restart, in words.
pub proof fn restart_faults_in_words(
    h: &RestartHandler,
    uuid: &str,
    phase: RestartPhase,
    event: RestartEvent,
    now: Duration,
    r: (RestartPhase, RestartAction),
)
    requires
        call_ensures(RestartHandler::advance, (h, uuid, phase, event, now), r),
    ensures
        phase is RestartingUnit ==> (event matches RestartEvent::Ran(Err(e)) ==> (r.1 matches
            RestartAction::Finish(Err(x)) && x.message@ == "failed to invoke systemctl: "@ + e@)),
        phase is CheckingUnit ==> (event matches RestartEvent::Ran(Err(e)) ==> (r.1 matches
            RestartAction::Finish(Err(x)) && x.message@
            == "service did not stay active: failed to invoke systemctl is-active: "@ + e@)),
        phase == RestartPhase::CreatingDir ==> (event matches RestartEvent::Failed { shown, error }
            ==> (r.1 matches RestartAction::Finish(Err(x)) && x.message@
            == "failed to create env_dir: "@ + error@)),
        phase == RestartPhase::WritingPending ==> (event matches RestartEvent::Failed {
            shown,
            error,
        } ==> (r.1 matches RestartAction::Finish(Err(x)) && x.message@ == "failed to write "@
            + shown@ + ": "@ + error@)),
        phase == RestartPhase::RestartingSelf ==> (event matches RestartEvent::Ran(Err(e)) ==> (
        r.1 matches RestartAction::DeletePendingAndFail(x) && x.message@
            == "failed to invoke systemctl: "@ + e@)),
        phase == RestartPhase::RestartingSelf ==> (event matches RestartEvent::Ran(Ok(out)) ==> (
        out.code is Some && out.code != Some(0i32) ==> (r.1 matches
            RestartAction::DeletePendingAndFail(x) && x.message@ == "systemctl restart "@
            + "unitctl"@ + " exited with "@ + ("Some("@ + text::signed_decimal(
            out.code->0 as int,
        ) + ")"@) + ": "@ + text::trimmed(text::lossy_text(out.stderr@))))),
{
}

/// The service that stands for a target, where one does.
pub proof fn targets_have_their_services(target: RestartTarget, r: Option<&'static str>)
    requires
        call_ensures(RestartHandler::unit_for, (target,), r),
    ensures
        target == RestartTarget::Camera ==> (r matches Some(u) && u@ == "camera"@),
        target == RestartTarget::Mavlink ==> (r matches Some(u) && u@ == "mavlink"@),
        target == RestartTarget::Modem ==> (r matches Some(u) && u@ == "modem-restart"@),
        target == RestartTarget::Unitctl || target == RestartTarget::Reboot ==> r is None,
{
}

} // verus!
