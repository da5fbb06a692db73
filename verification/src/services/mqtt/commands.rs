//! Incoming commands: which ones are taken, and what is published about them.

use std::collections::VecDeque;

use vstd::prelude::*;
use vstd::string::*;

use super::handlers::get_config::GetConfigHandler;
use super::handlers::modem_commands::ModemCommandsHandler;
use super::handlers::update_request::UpdateRequestHandler;
use super::transport::{self, MqttEvent, MqttTransport, Outgoing, QoS, Received};
use crate::messages::commands::{
    CommandEnvelope, CommandResultData, CommandResultMsg, CommandState, CommandStatus,
};
use crate::text::{self, contains_char, ends_with, same_text, starts_with};
use crate::time::Timestamp;

verus! {

/// Maximum number of recently-processed UUIDs to remember for deduplication.
/// QoS 1 redeliveries arrive quickly, so a modest window suffices.
pub const DEDUP_CAPACITY: usize = 256;

/// Capacity of the bounded bridge channel between the broadcast receiver and the
/// command processing loop.
pub const BRIDGE_CHANNEL_CAPACITY: usize = 64;

/// Error returned by command handlers.
#[derive(Debug)]
pub struct CommandError {
    pub message: String,
}

impl CommandError {
    pub fn new(message: &str) -> (r: Self)
        ensures
            r.message@ == message@,
    {
        Self { message: message.to_string() }
    }

    /// The error as a message for people.
    pub fn to_string(&self) -> (r: String)
        ensures
            r@ == self.message@,
    {
        self.message.clone()
    }
}

/// Result returned by command handlers.
#[derive(Debug, Clone)]
pub struct CommandResult {
    pub data: CommandResultData,
}

/// Trait for handling a specific command type.
///
/// Handling a command may change the handler, or what it stands for. Each handler says
/// by a relation which answers it may give and what becomes of it when it gives them.
/// One that says nothing may give any.
pub trait CommandHandler: Sized {
    /// Given a command, `before` may answer `r` and become `after`.
    open spec fn may_answer(
        before: Self,
        envelope: CommandEnvelope,
        after: Self,
        r: Result<CommandResult, CommandError>,
    ) -> bool {
        true
    }

    fn handle(&mut self, envelope: &CommandEnvelope) -> (r: Result<CommandResult, CommandError>)
        ensures
            Self::may_answer(*old(self), *envelope, *final(self), r),
    ;
}

// ---------------------------------------------------------------------------
// Deduplication
// ---------------------------------------------------------------------------

/// Bounded deduplication queue that tracks recently-processed UUIDs, the oldest one
/// first.
#[derive(Debug)]
pub struct DedupQueue {
    pub order: VecDeque<String>,
}

/// The queue after recording `uuid`: a known one changes nothing; a new one is added,
/// in place of the oldest where the queue is full.
pub open spec fn recorded(q: Seq<Seq<char>>, uuid: Seq<char>) -> Seq<Seq<char>> {
    if q.contains(uuid) {
        q
    } else if q.len() >= DEDUP_CAPACITY {
        q.drop_first().push(uuid)
    } else {
        q.push(uuid)
    }
}

/// The queue after recording several UUIDs one after the other.
pub open spec fn recorded_all(q: Seq<Seq<char>>, uuids: Seq<Seq<char>>) -> Seq<Seq<char>>
    decreases uuids.len(),
{
    if uuids.len() == 0 {
        q
    } else {
        recorded(recorded_all(q, uuids.drop_last()), uuids.last())
    }
}

impl View for DedupQueue {
    type V = Seq<Seq<char>>;

    open spec fn view(&self) -> Seq<Seq<char>> {
        text::texts(self.order@)
    }
}

/// A queue's contents: no UUID twice, and no more than its capacity.
pub open spec fn is_window(q: Seq<Seq<char>>) -> bool {
    q.no_duplicates() && q.len() <= DEDUP_CAPACITY
}

/// Recording keeps the window.
pub proof fn recording_keeps_window(q: Seq<Seq<char>>, uuid: Seq<char>)
    requires
        is_window(q),
    ensures
        is_window(recorded(q, uuid)),
        recorded(q, uuid).contains(uuid),
{
    let r = recorded(q, uuid);
    if !q.contains(uuid) {
        assert(r.last() == uuid);
        assert forall|i: int, j: int| 0 <= i < r.len() && 0 <= j < r.len() && i != j implies r[i]
            != r[j] by {
            let shift: int = if q.len() >= DEDUP_CAPACITY {
                1
            } else {
                0
            };
            if i < r.len() - 1 {
                assert(r[i] == q[i + shift]);
            }
            if j < r.len() - 1 {
                assert(r[j] == q[j + shift]);
            }
        }
    }
}

/// `uuid` is in the queue, with at most `n` younger ones.
spec fn within(q: Seq<Seq<char>>, uuid: Seq<char>, n: int) -> bool {
    exists|i: int| 0 <= i < q.len() && #[trigger] q[i] == uuid && q.len() - 1 - i <= n
}

proof fn lemma_within(q: Seq<Seq<char>>, uuid: Seq<char>, n: int, next: Seq<char>)
    requires
        is_window(q),
        within(q, uuid, n),
        0 <= n < DEDUP_CAPACITY - 1,
    ensures
        within(recorded(q, next), uuid, n + 1),
{
    let i = choose|i: int| 0 <= i < q.len() && #[trigger] q[i] == uuid && q.len() - 1 - i <= n;
    let r = recorded(q, next);
    if !q.contains(next) {
        if q.len() >= DEDUP_CAPACITY {
            assert(r[i - 1] == uuid);
        } else {
            assert(r[i] == uuid);
        }
    } else {
        assert(r[i] == uuid);
    }
}

proof fn lemma_recorded_all(q: Seq<Seq<char>>, uuid: Seq<char>, later: Seq<Seq<char>>)
    requires
        is_window(q),
        later.len() < DEDUP_CAPACITY,
        within(q, uuid, 0),
    ensures
        is_window(recorded_all(q, later)),
        within(recorded_all(q, later), uuid, later.len() as int),
    decreases later.len(),
{
    if later.len() > 0 {
        lemma_recorded_all(q, uuid, later.drop_last());
        let before = recorded_all(q, later.drop_last());
        lemma_within(before, uuid, later.len() - 1, later.last());
        recording_keeps_window(before, later.last());
    }
}

/// A new UUID is recognised again as long as fewer than the queue's capacity of UUIDs
/// have come in since.
pub proof fn recent_uuids_are_remembered(
    q: Seq<Seq<char>>,
    uuid: Seq<char>,
    later: Seq<Seq<char>>,
)
    requires
        is_window(q),
        !q.contains(uuid),
        later.len() < DEDUP_CAPACITY,
    ensures
        recorded_all(recorded(q, uuid), later).contains(uuid),
{
    let start = recorded(q, uuid);
    recording_keeps_window(q, uuid);
    assert(start[start.len() - 1] == uuid);
    assert(within(start, uuid, 0));
    lemma_recorded_all(start, uuid, later);
}

/// The next new UUID drives the oldest one out of a full queue, and no other.
pub proof fn oldest_uuid_is_forgotten_first(q: Seq<Seq<char>>, next: Seq<char>)
    requires
        is_window(q),
        q.len() == DEDUP_CAPACITY,
        !q.contains(next),
    ensures
        !recorded(q, next).contains(q[0]),
        forall|i: int| 0 < i < q.len() ==> recorded(q, next).contains(#[trigger] q[i]),
{
    let r = recorded(q, next);
    assert forall|i: int| 0 < i < q.len() implies r.contains(#[trigger] q[i]) by {
        assert(r[i - 1] == q[i]);
    }
    if r.contains(q[0]) {
        let j = choose|j: int| 0 <= j < r.len() && r[j] == q[0];
        if j < r.len() - 1 {
            assert(r[j] == q[j + 1]);
        } else {
            assert(q.contains(q[0]));
        }
    }
}

impl DedupQueue {
    pub open spec fn wf(self) -> bool {
        is_window(self@)
    }

    pub fn with_capacity(cap: usize) -> (r: Self)
        ensures
            r.wf(),
            r@ == Seq::<Seq<char>>::empty(),
    {
        // No more than the queue ever holds.
        let cap: usize = if cap < DEDUP_CAPACITY {
            cap
        } else {
            DEDUP_CAPACITY
        };
        let r = Self { order: VecDeque::with_capacity(cap) };
        assert(r@ =~= Seq::<Seq<char>>::empty());
        r
    }

    fn knows(&self, uuid: &str) -> (r: bool)
        ensures
            r == self@.contains(uuid@),
    {
        for i in 0..self.order.len()
            invariant
                forall|j: int| 0 <= j < i ==> #[trigger] self@[j] != uuid@,
        {
            assert(self@[i as int] == self.order@[i as int]@);
            if same_text(self.order[i].as_str(), uuid) {
                return true;
            }
        }
        false
    }

    /// Record a UUID. Returns `false` if already seen (duplicate).
    pub fn record(&mut self, uuid: &str) -> (r: bool)
        requires
            old(self).wf(),
        ensures
            final(self).wf(),
            r == !old(self)@.contains(uuid@),
            final(self)@ == recorded(old(self)@, uuid@),
    {
        proof {
            recording_keeps_window(self@, uuid@);
        }
        if self.knows(uuid) {
            return false;
        }
        let ghost before = self@;
        if self.order.len() >= DEDUP_CAPACITY {
            let _ = self.order.pop_front();
            assert(self@ =~= before.drop_first());
        }
        let ghost kept = self@;
        self.order.push_back(uuid.to_string());
        assert(self@ =~= kept.push(uuid@));
        true
    }
}

// ---------------------------------------------------------------------------
// Command names
// ---------------------------------------------------------------------------

/// Fit to be a command's name in a topic.
pub open spec fn is_command_name(name: Seq<char>) -> bool {
    name.len() > 0 && !name.contains('/') && !name.contains('+') && !name.contains('#')
}

/// `topic` is where the command `name` comes in, below `prefix`.
pub open spec fn names_command(topic: Seq<char>, prefix: Seq<char>, name: Seq<char>) -> bool {
    topic == prefix + name + "/in"@ && is_command_name(name)
}

/// No command comes in on `topic` below `prefix`.
pub open spec fn names_no_command(topic: Seq<char>, prefix: Seq<char>) -> bool {
    forall|name: Seq<char>| !#[trigger] names_command(topic, prefix, name)
}

/// The topic on which a command comes in names that command.
pub proof fn incoming_topic_names_its_command(t: MqttTransport, name: Seq<char>)
    requires
        is_command_name(name),
    ensures
        names_command(
            transport::command_topic_of(t.env_prefix@, t.node_id@, name, "in"@),
            transport::command_prefix_of(t.env_prefix@, t.node_id@),
            name,
        ),
{
    reveal_strlit("in");
    reveal_strlit("/");
    reveal_strlit("/in");
    assert("/"@ + "in"@ =~= "/in"@);
    let p = transport::command_prefix_of(t.env_prefix@, t.node_id@);
    assert(p + name + "/"@ + "in"@ =~= p + name + "/in"@);
}

/// A topic names at most one command.
pub proof fn topic_names_one_command(
    topic: Seq<char>,
    prefix: Seq<char>,
    a: Seq<char>,
    b: Seq<char>,
)
    requires
        names_command(topic, prefix, a),
        names_command(topic, prefix, b),
    ensures
        a == b,
{
    assert(topic.len() == prefix.len() + a.len() + "/in"@.len());
    assert(topic.len() == prefix.len() + b.len() + "/in"@.len());
    assert(a =~= topic.subrange(prefix.len() as int, (prefix.len() + a.len()) as int));
    assert(b =~= topic.subrange(prefix.len() as int, (prefix.len() + a.len()) as int));
}

/// Extract command name from topic like `{prefix}{name}/in`, where the prefix is
/// `{env_prefix}/nodes/{node_id}/cmnd/`.
pub fn extract_command_name(topic: &str, prefix: &str) -> (r: Option<String>)
    ensures
        match r {
            Some(name) => names_command(topic@, prefix@, name@),
            None => forall|name: Seq<char>| !names_command(topic@, prefix@, name),
        },
        r is None ==> names_no_command(topic@, prefix@),
{
    proof {
        reveal_strlit("/in");
        if exists|name: Seq<char>| names_command(topic@, prefix@, name) {
            let name = choose|name: Seq<char>| names_command(topic@, prefix@, name);
            assert(topic@.subrange(0, prefix@.len() as int) =~= prefix@);
            assert(topic@.subrange(topic@.len() - 3, topic@.len() as int) =~= "/in"@);
        }
    }
    if !starts_with(topic, prefix) || !ends_with(topic, "/in") {
        return None;
    }
    let n: usize = topic.unicode_len();
    let p: usize = prefix.unicode_len();
    if n - p < 3 {
        return None;
    }
    let name = topic.substring_char(p, n - 3).to_string();
    proof {
        assert(topic@ =~= topic@.subrange(0, p as int) + topic@.subrange(p as int, n - 3)
            + topic@.subrange(n - 3, n as int));
        assert(topic@ == prefix@ + name@ + "/in"@);
        assert forall|other: Seq<char>| names_command(topic@, prefix@, other) implies other
            == name@ by {
            assert(other =~= topic@.subrange(p as int, n - 3));
        }
    }
    if name.as_str().is_empty() || contains_char(name.as_str(), '/') || contains_char(
        name.as_str(),
        '+',
    ) || contains_char(name.as_str(), '#') {
        return None;
    }
    Some(name)
}

// ---------------------------------------------------------------------------
// The lifecycle of a command
// ---------------------------------------------------------------------------

/// What becomes of an incoming command.
#[derive(Debug, Clone, Copy, PartialEq, Eq, Structural)]
pub enum Disposition {
    /// It was processed before and is skipped.
    Duplicate,
    /// Its time is over.
    Expired,
    /// Nobody handles commands of this name.
    Rejected,
    /// Its handler is to run.
    Run,
}

/// What became of a command's handler.
#[derive(Debug)]
pub enum HandlerOutcome {
    /// The unit shut down while it was running.
    Cancelled,
    /// It came to an end.
    Done(Result<CommandResult, CommandError>),
}

/// What becomes of a command, given the UUIDs seen before, the names that have a
/// handler, and the time.
pub open spec fn disposition(
    seen: Seq<Seq<char>>,
    names: Seq<Seq<char>>,
    cmd_name: Seq<char>,
    envelope: CommandEnvelope,
    now: Timestamp,
) -> Disposition {
    if seen.contains(envelope.uuid@) {
        Disposition::Duplicate
    } else if envelope.expired_at(now) {
        Disposition::Expired
    } else if !names.contains(cmd_name) {
        Disposition::Rejected
    } else {
        Disposition::Run
    }
}

/// The states that are published before the handler runs. Receipt is acknowledged
/// before the handler is looked up.
pub open spec fn opening_states(d: Disposition) -> Seq<CommandState> {
    match d {
        Disposition::Duplicate => Seq::empty(),
        Disposition::Expired => seq![CommandState::Expired],
        Disposition::Rejected => seq![CommandState::Accepted, CommandState::Rejected],
        Disposition::Run => seq![CommandState::Accepted, CommandState::InProgress],
    }
}

/// The state that is published once the handler has come to an end.
pub open spec fn closing_state(outcome: HandlerOutcome) -> Option<CommandState> {
    match outcome {
        HandlerOutcome::Cancelled => None,
        HandlerOutcome::Done(Ok(_)) => Some(CommandState::Completed),
        HandlerOutcome::Done(Err(_)) => Some(CommandState::Failed),
    }
}

/// All states that are published about a command, in their order.
pub open spec fn lifecycle(d: Disposition, outcome: HandlerOutcome) -> Seq<CommandState> {
    match closing_state(outcome) {
        Some(state) => if d == Disposition::Run {
            opening_states(d).push(state)
        } else {
            opening_states(d)
        },
        None => opening_states(d),
    }
}

/// The command will not change its state any more.
pub open spec fn is_terminal(state: CommandState) -> bool {
    state == CommandState::Completed || state == CommandState::Failed || state
        == CommandState::Rejected || state == CommandState::Expired
}

/// Every command that is not a duplicate, and not cut short by a shutdown, comes to
/// exactly one terminal state, and that is the last one published.
pub proof fn lifecycle_ends_once(d: Disposition, outcome: HandlerOutcome)
    ensures
        ({
            let states = lifecycle(d, outcome);
            &&& d == Disposition::Duplicate <==> states.len() == 0
            &&& forall|i: int| 0 <= i < states.len() - 1 ==> !is_terminal(#[trigger] states[i])
            &&& states.len() > 0 ==> (is_terminal(states.last()) <==> !(d == Disposition::Run
                && outcome is Cancelled))
        }),
{
}

/// A handler that runs is announced by `accepted` and `in_progress`, and its result by
/// `completed` or `failed`.
pub proof fn handled_command_passes_all_states(r: Result<CommandResult, CommandError>)
    ensures
        lifecycle(Disposition::Run, HandlerOutcome::Done(r)) == seq![
            CommandState::Accepted,
            CommandState::InProgress,
            if r is Ok {
                CommandState::Completed
            } else {
                CommandState::Failed
            },
        ],
{
    assert(lifecycle(Disposition::Run, HandlerOutcome::Done(r)) =~= seq![
        CommandState::Accepted,
        CommandState::InProgress,
        if r is Ok {
            CommandState::Completed
        } else {
            CommandState::Failed
        },
    ]);
}

/// A command that is delivered again, before as many others as the dedup window holds,
/// is skipped.
pub proof fn redelivery_is_skipped(
    seen: Seq<Seq<char>>,
    envelope: CommandEnvelope,
    later: Seq<Seq<char>>,
    names: Seq<Seq<char>>,
    cmd_name: Seq<char>,
    now: Timestamp,
)
    requires
        is_window(seen),
        !seen.contains(envelope.uuid@),
        later.len() < DEDUP_CAPACITY,
    ensures
        disposition(
            recorded_all(recorded(seen, envelope.uuid@), later),
            names,
            cmd_name,
            envelope,
            now,
        ) == Disposition::Duplicate,
{
    recent_uuids_are_remembered(seen, envelope.uuid@, later);
}

/// The states to publish before the handler runs.
pub fn opening(d: Disposition) -> (r: Vec<CommandState>)
    ensures
        r@ == opening_states(d),
{
    let mut states: Vec<CommandState> = Vec::new();
    match d {
        Disposition::Duplicate => {},
        Disposition::Expired => {
            states.push(CommandState::Expired);
        },
        Disposition::Rejected => {
            states.push(CommandState::Accepted);
            states.push(CommandState::Rejected);
        },
        Disposition::Run => {
            states.push(CommandState::Accepted);
            states.push(CommandState::InProgress);
        },
    }
    assert(states@ =~= opening_states(d));
    states
}

/// What is published once a handler has come to an end.
#[derive(Debug)]
pub struct Closing {
    pub state: CommandState,
    pub ok: bool,
    pub error: Option<String>,
    pub data: Option<CommandResultData>,
}

/// `r` is what to publish about a handler's outcome: nothing where it was cancelled;
/// else its data or its error.
pub open spec fn closes(outcome: HandlerOutcome, r: Option<Closing>) -> bool {
    match outcome {
        HandlerOutcome::Cancelled => r is None,
        HandlerOutcome::Done(Ok(result)) => r == Some(
            Closing {
                state: CommandState::Completed,
                ok: true,
                error: None,
                data: Some(result.data),
            },
        ),
        HandlerOutcome::Done(Err(e)) => r == Some(
            Closing { state: CommandState::Failed, ok: false, error: Some(e.message), data: None },
        ),
    }
}

/// What to publish about a handler's outcome.
pub fn closing(outcome: HandlerOutcome) -> (r: Option<Closing>)
    ensures
        closes(outcome, r),
{
    match outcome {
        HandlerOutcome::Cancelled => None,
        HandlerOutcome::Done(Ok(result)) => Some(
            Closing {
                state: CommandState::Completed,
                ok: true,
                error: None,
                data: Some(result.data),
            },
        ),
        HandlerOutcome::Done(Err(e)) => Some(
            Closing { state: CommandState::Failed, ok: false, error: Some(e.message), data: None },
        ),
    }
}

/// `o` is a status message for `.../cmnd/{name}/status`.
pub open spec fn is_status(
    o: Outgoing<CommandStatus>,
    t: MqttTransport,
    cmd_name: Seq<char>,
    uuid: Seq<char>,
    state: CommandState,
    ts: Timestamp,
) -> bool {
    &&& o.goes_to(
        transport::command_topic_of(t.env_prefix@, t.node_id@, cmd_name, "status"@),
        QoS::AtLeastOnce,
        false,
    )
    &&& o.message.uuid@ == uuid
    &&& o.message.state == state
    &&& o.message.ts == ts
}

/// The status message for `.../cmnd/{name}/status`.
pub fn status_message(
    t: &MqttTransport,
    cmd_name: &str,
    uuid: &str,
    state: CommandState,
    ts: Timestamp,
) -> (r: Outgoing<CommandStatus>)
    ensures
        is_status(r, *t, cmd_name@, uuid@, state, ts),
{
    Outgoing {
        topic: t.command_topic(cmd_name, "status"),
        qos: QoS::AtLeastOnce,
        retain: false,
        message: CommandStatus { uuid: uuid.to_string(), state, ts },
    }
}

/// `o` is a result message for `.../cmnd/{name}/result`.
pub open spec fn is_result(
    o: Outgoing<CommandResultMsg>,
    t: MqttTransport,
    cmd_name: Seq<char>,
    uuid: Seq<char>,
    ok: bool,
    error: Option<String>,
    data: Option<CommandResultData>,
    ts: Timestamp,
) -> bool {
    &&& o.goes_to(
        transport::command_topic_of(t.env_prefix@, t.node_id@, cmd_name, "result"@),
        QoS::AtLeastOnce,
        false,
    )
    &&& o.message.uuid@ == uuid
    &&& o.message.ok == ok
    &&& o.message.error == error
    &&& o.message.data == data
    &&& o.message.ts == ts
}

/// The result message for `.../cmnd/{name}/result`.
pub fn result_message(
    t: &MqttTransport,
    cmd_name: &str,
    uuid: &str,
    ok: bool,
    error: Option<String>,
    data: Option<CommandResultData>,
    ts: Timestamp,
) -> (r: Outgoing<CommandResultMsg>)
    ensures
        is_result(r, *t, cmd_name@, uuid@, ok, error, data, ts),
{
    Outgoing {
        topic: t.command_topic(cmd_name, "result"),
        qos: QoS::AtLeastOnce,
        retain: false,
        message: CommandResultMsg { uuid: uuid.to_string(), ok, ts, error, data },
    }
}

/// What is published about a command goes below the node's own topic and the command's
/// name, is delivered at least once, and is never retained: a later subscriber sees no
/// old status or result. It carries the command's UUID and the time.
pub proof fn command_messages_reach_their_topics(
    status: Outgoing<CommandStatus>,
    result: Outgoing<CommandResultMsg>,
    t: MqttTransport,
    cmd_name: Seq<char>,
    uuid: Seq<char>,
    state: CommandState,
    ts: Timestamp,
)
    requires
        is_status(status, t, cmd_name, uuid, state, ts),
        is_result(
            result,
            t,
            cmd_name,
            uuid,
            result.message.ok,
            result.message.error,
            result.message.data,
            ts,
        ),
    ensures
        status.topic@ == t.env_prefix@ + "/nodes/"@ + t.node_id@ + "/cmnd/"@ + cmd_name + "/"@
            + "status"@,
        result.topic@ == t.env_prefix@ + "/nodes/"@ + t.node_id@ + "/cmnd/"@ + cmd_name + "/"@
            + "result"@,
        status.qos == QoS::AtLeastOnce && !status.retain,
        result.qos == QoS::AtLeastOnce && !result.retain,
        status.message.uuid@ == uuid && result.message.uuid@ == uuid,
        status.message.state == state,
        status.message.ts == ts && result.message.ts == ts,
{
    reveal_strlit("status");
    reveal_strlit("result");
}

/// The result that reports an answer is a success with the handler's data or a failure
/// with its message, and never both.
pub proof fn result_reports_the_answer(
    o: Outgoing<CommandResultMsg>,
    t: MqttTransport,
    cmd_name: Seq<char>,
    uuid: Seq<char>,
    answer: Result<CommandResult, CommandError>,
    ts: Timestamp,
)
    requires
        reports_answer(o, t, cmd_name, uuid, answer, ts),
    ensures
        o.message.ok <==> answer is Ok,
        o.message.ok <==> o.message.error is None,
        o.message.ok <==> o.message.data is Some,
        answer matches Ok(result) ==> o.message.data == Some(result.data),
        answer matches Err(e) ==> o.message.error == Some(e.message),
        o.message.uuid@ == uuid,
        o.message.ts == ts,
{
}

/// A command that was seen before is skipped, whatever else holds of it. One that was
/// not is expired exactly where its time is over, even if nobody handles it; and of the
/// others, it runs exactly where its name has a handler.
pub proof fn commands_run_exactly_when_they_should(
    seen: Seq<Seq<char>>,
    names: Seq<Seq<char>>,
    cmd_name: Seq<char>,
    envelope: CommandEnvelope,
    now: Timestamp,
)
    ensures
        ({
            let d = disposition(seen, names, cmd_name, envelope, now);
            &&& d == Disposition::Duplicate <==> (exists|i: int|
                0 <= i < seen.len() && #[trigger] seen[i] == envelope.uuid@)
            &&& d == Disposition::Run ==> !envelope.expired_at(now) && (exists|i: int|
                0 <= i < names.len() && #[trigger] names[i] == cmd_name)
            &&& d == Disposition::Expired ==> envelope.expired_at(now)
            &&& d == Disposition::Rejected ==> !envelope.expired_at(now) && (forall|i: int|
                0 <= i < names.len() ==> #[trigger] names[i] != cmd_name)
        }),
{
}

/// What is published about a command whose handler does not run: nothing about one that
/// was seen before, only `expired` about one whose time is over, and of one that nobody
/// handles that it was received before that it is rejected.
pub proof fn unhandled_commands_are_answered(outcome: HandlerOutcome)
    ensures
        lifecycle(Disposition::Duplicate, outcome).len() == 0,
        lifecycle(Disposition::Expired, outcome) == seq![CommandState::Expired],
        lifecycle(Disposition::Rejected, outcome) == seq![
            CommandState::Accepted,
            CommandState::Rejected,
        ],
        lifecycle(Disposition::Run, HandlerOutcome::Cancelled) == seq![
            CommandState::Accepted,
            CommandState::InProgress,
        ],
{
}

/// The last 256 new UUIDs are remembered: one is recognised as long as no more than 255
/// others have come in since, and is forgotten once 256 other new ones have.
pub proof fn window_holds_256_uuids(
    q: Seq<Seq<char>>,
    uuid: Seq<char>,
    later: Seq<Seq<char>>,
)
    requires
        is_window(q),
        !q.contains(uuid),
        later.len() <= 256,
        later.no_duplicates(),
        !later.contains(uuid),
        forall|i: int| 0 <= i < later.len() ==> !q.contains(#[trigger] later[i]),
    ensures
        q.len() <= 256,
        recorded_all(recorded(q, uuid), later).contains(uuid) <==> later.len() < 256,
{
    let start = recorded(q, uuid);
    recording_keeps_window(q, uuid);
    assert(start.last() == uuid);
    if later.len() < 256 {
        recent_uuids_are_remembered(q, uuid, later);
    } else {
        lemma_new_uuids_queue_up(start, later);
        let end = recorded_all(start, later);
        assert(end =~= later);
    }
}

/// New UUIDs are queued up behind the others, and the queue keeps its youngest.
proof fn lemma_new_uuids_queue_up(q: Seq<Seq<char>>, later: Seq<Seq<char>>)
    requires
        is_window(q),
        later.no_duplicates(),
        later.len() <= DEDUP_CAPACITY,
        forall|i: int|
            0 <= i < later.len() ==> (forall|j: int|
                0 <= j < q.len() - 1 ==> q[j] != #[trigger] later[i]),
        q.len() > 0 ==> !later.contains(q.last()),
    ensures
        ({
            let all = q + later;
            let n = all.len();
            let end = recorded_all(q, later);
            &&& end == (if n <= DEDUP_CAPACITY {
                all
            } else {
                all.skip(n - DEDUP_CAPACITY)
            })
        }),
    decreases later.len(),
{
    if later.len() == 0 {
        assert(q + later =~= q);
        assert(q.skip(0) =~= q);
    } else {
        let init = later.drop_last();
        let x = later.last();
        assert forall|i: int| 0 <= i < init.len() implies (forall|j: int|
            0 <= j < q.len() - 1 ==> q[j] != #[trigger] init[i]) by {
            assert(init[i] == later[i]);
        }
        if q.len() > 0 {
            assert(!init.contains(q.last())) by {
                if init.contains(q.last()) {
                    let i = choose|i: int| 0 <= i < init.len() && init[i] == q.last();
                    assert(later[i] == q.last());
                }
            }
        }
        lemma_new_uuids_queue_up(q, init);
        let before = recorded_all(q, init);
        let all = q + init;
        assert(!before.contains(x)) by {
            if before.contains(x) {
                let i = choose|i: int| 0 <= i < before.len() && before[i] == x;
                let shift: int = if all.len() <= DEDUP_CAPACITY {
                    0
                } else {
                    all.len() - DEDUP_CAPACITY
                };
                assert(before[i] == all[i + shift]);
                if i + shift < q.len() {
                    assert(q[i + shift] == x);
                    assert(later[later.len() - 1] == x);
                    if i + shift == q.len() - 1 {
                        assert(later.contains(x));
                    }
                } else {
                    assert(later[i + shift - q.len()] == x);
                    assert(later[later.len() - 1] == x);
                }
            }
        }
        assert((q + later) =~= all.push(x));
        assert(recorded_all(q, later) =~= (if (q + later).len() <= DEDUP_CAPACITY {
            q + later
        } else {
            (q + later).skip((q + later).len() - DEDUP_CAPACITY)
        }));
    }
}

// ---------------------------------------------------------------------------
// The course of a command
// ---------------------------------------------------------------------------

/// Where the handler of a command stands.
#[derive(Debug, Clone, Copy, PartialEq, Eq, Structural)]
pub enum HandlerPhase {
    /// It is not to run, or has run.
    Idle,
    /// It is to run once what comes before it is published.
    Due,
    /// It is running.
    Running,
}

/// The course of one command: what is still to be published about it, and whether its
/// handler is still to run.
#[derive(Debug)]
pub struct CommandRun {
    pub cmd_name: String,
    pub uuid: String,
    /// The states that are published, as far as they are known.
    pub states: Vec<CommandState>,
    /// How many of them have been published.
    pub sent: usize,
    pub handler: HandlerPhase,
    /// The outcome that is still to be published.
    pub closing: Option<Closing>,
}

/// What to do next about a command.
#[derive(Debug)]
pub enum CommandStep {
    PublishStatus(Outgoing<CommandStatus>),
    /// Run the handler, and report its outcome.
    RunHandler,
    PublishResult(Outgoing<CommandResultMsg>),
    Done,
}

impl CommandRun {
    pub open spec fn wf(self) -> bool {
        self.sent <= self.states@.len()
    }

    /// `self` and `other` are courses of the same command.
    pub open spec fn same_command(self, other: CommandRun) -> bool {
        self.cmd_name == other.cmd_name && self.uuid == other.uuid
    }

    /// `self` goes over to `after` by `step`, at `now`: first the known states are
    /// published, in their order; then the handler runs, if it is to; then the result
    /// is published, if there is one.
    pub open spec fn takes_step(
        self,
        t: MqttTransport,
        now: Timestamp,
        after: CommandRun,
        step: CommandStep,
    ) -> bool {
        &&& after.same_command(self)
        &&& after.states == self.states
        &&& if self.sent < self.states@.len() {
            &&& step matches CommandStep::PublishStatus(o)
            &&& is_status(
                o,
                t,
                self.cmd_name@,
                self.uuid@,
                self.states@[self.sent as int],
                now,
            )
            &&& after.sent == self.sent + 1
            &&& after.handler == self.handler
            &&& after.closing == self.closing
        } else if self.handler == HandlerPhase::Due {
            &&& step is RunHandler
            &&& after.sent == self.sent
            &&& after.handler == HandlerPhase::Running
            &&& after.closing == self.closing
        } else {
            &&& after.sent == self.sent
            &&& after.handler == self.handler
            &&& after.closing is None
            &&& match self.closing {
                Some(c) => step matches CommandStep::PublishResult(o) && is_result(
                    o,
                    t,
                    self.cmd_name@,
                    self.uuid@,
                    c.ok,
                    c.error,
                    c.data,
                    now,
                ),
                None => step is Done,
            }
        }
    }

    /// `self` goes over to `after` by the handler's outcome: what that makes of the
    /// command is still to be published.
    pub open spec fn takes_outcome(self, outcome: HandlerOutcome, after: CommandRun) -> bool {
        &&& after.same_command(self)
        &&& after.sent == self.sent
        &&& after.handler == HandlerPhase::Idle
        &&& closes(outcome, after.closing)
        &&& after.states@ == (match closing_state(outcome) {
            Some(state) => self.states@.push(state),
            None => self.states@,
        })
    }

    /// Nothing has happened yet about a command that has come to `d`.
    pub open spec fn is_fresh(self, d: Disposition) -> bool {
        &&& self.states@ == opening_states(d)
        &&& self.sent == 0
        &&& self.handler == (if d == Disposition::Run {
            HandlerPhase::Due
        } else {
            HandlerPhase::Idle
        })
        &&& self.closing is None
    }

    /// The course of a command that has come to `d`.
    pub fn new(cmd_name: &str, uuid: &str, d: Disposition) -> (r: Self)
        ensures
            r.wf(),
            r.cmd_name@ == cmd_name@,
            r.uuid@ == uuid@,
            r.is_fresh(d),
    {
        CommandRun {
            cmd_name: cmd_name.to_string(),
            uuid: uuid.to_string(),
            states: opening(d),
            sent: 0,
            handler: if d == Disposition::Run {
                HandlerPhase::Due
            } else {
                HandlerPhase::Idle
            },
            closing: None,
        }
    }

    /// What to do next, at `now`.
    pub fn next(&mut self, t: &MqttTransport, now: Timestamp) -> (r: CommandStep)
        requires
            old(self).wf(),
        ensures
            final(self).wf(),
            old(self).takes_step(*t, now, *final(self), r),
    {
        if self.sent < self.states.len() {
            let state = self.states[self.sent];
            self.sent = self.sent + 1;
            return CommandStep::PublishStatus(
                status_message(t, self.cmd_name.as_str(), self.uuid.as_str(), state, now),
            );
        }
        if self.handler == HandlerPhase::Due {
            self.handler = HandlerPhase::Running;
            return CommandStep::RunHandler;
        }
        match self.closing.take() {
            Some(c) => CommandStep::PublishResult(
                result_message(
                    t,
                    self.cmd_name.as_str(),
                    self.uuid.as_str(),
                    c.ok,
                    c.error,
                    c.data,
                    now,
                ),
            ),
            None => CommandStep::Done,
        }
    }

    /// Take the outcome of the handler.
    pub fn handled(&mut self, outcome: HandlerOutcome)
        requires
            old(self).wf(),
            old(self).handler == HandlerPhase::Running,
        ensures
            final(self).wf(),
            old(self).takes_outcome(outcome, *final(self)),
    {
        self.handler = HandlerPhase::Idle;
        self.closing = closing(outcome);
        if let Some(c) = &self.closing {
            self.states.push(c.state);
        }
    }
}

/// A step at its time leads from `before` to `after`. Where it is to run the handler,
/// that comes to `outcome`.
pub open spec fn course_step(
    before: CommandRun,
    step: (CommandStep, Timestamp),
    t: MqttTransport,
    outcome: HandlerOutcome,
    after: CommandRun,
) -> bool {
    if step.0 is RunHandler {
        exists|mid: CommandRun| #[trigger]
            before.takes_step(t, step.1, mid, step.0) && mid.takes_outcome(outcome, after)
    } else {
        before.takes_step(t, step.1, after, step.0)
    }
}

/// `steps` are taken one after the other about a command that has come to `d`, each at
/// its own time, and `runs` is what lies between them.
pub open spec fn is_course(
    runs: Seq<CommandRun>,
    steps: Seq<(CommandStep, Timestamp)>,
    t: MqttTransport,
    d: Disposition,
    outcome: HandlerOutcome,
) -> bool {
    &&& runs.len() == steps.len() + 1
    &&& runs[0].is_fresh(d)
    &&& forall|k: int|
        0 <= k < steps.len() ==> course_step(runs[k], #[trigger] steps[k], t, outcome, runs[k + 1])
}

/// The states that the steps publish, in their order.
pub open spec fn published_states(steps: Seq<(CommandStep, Timestamp)>) -> Seq<CommandState>
    decreases steps.len(),
{
    if steps.len() == 0 {
        Seq::empty()
    } else {
        match steps.last().0 {
            CommandStep::PublishStatus(o) => published_states(steps.drop_last()).push(
                o.message.state,
            ),
            _ => published_states(steps.drop_last()),
        }
    }
}

/// The results that the steps publish, in their order.
pub open spec fn published_results(steps: Seq<(CommandStep, Timestamp)>) -> Seq<
    Outgoing<CommandResultMsg>,
>
    decreases steps.len(),
{
    if steps.len() == 0 {
        Seq::empty()
    } else {
        match steps.last().0 {
            CommandStep::PublishResult(o) => published_results(steps.drop_last()).push(o),
            _ => published_results(steps.drop_last()),
        }
    }
}

/// How often the steps run the handler.
pub open spec fn handler_runs(steps: Seq<(CommandStep, Timestamp)>) -> nat
    decreases steps.len(),
{
    if steps.len() == 0 {
        0
    } else if steps.last().0 is RunHandler {
        handler_runs(steps.drop_last()) + 1
    } else {
        handler_runs(steps.drop_last())
    }
}

/// `o` reports the outcome of a handler that came to an end.
pub open spec fn reports_outcome(
    o: Outgoing<CommandResultMsg>,
    t: MqttTransport,
    cmd_name: Seq<char>,
    uuid: Seq<char>,
    outcome: HandlerOutcome,
    ts: Timestamp,
) -> bool {
    outcome matches HandlerOutcome::Done(answer) && reports_answer(
        o,
        t,
        cmd_name,
        uuid,
        answer,
        ts,
    )
}

/// How many results a command gets: one where its handler came to an end, else none.
pub open spec fn results_due(d: Disposition, outcome: HandlerOutcome) -> nat {
    if d == Disposition::Run && outcome is Done {
        1
    } else {
        0
    }
}

/// A command that is to run has its handler run at most once, and any other one never.
/// Once there is nothing left to do, exactly the states of its lifecycle have been
/// published, in their order; a handler that was to run has run once; and there was one
/// result where it came to an end, and else none.
pub proof fn course_follows_the_lifecycle(
    runs: Seq<CommandRun>,
    steps: Seq<(CommandStep, Timestamp)>,
    t: MqttTransport,
    d: Disposition,
    outcome: HandlerOutcome,
)
    requires
        is_course(runs, steps, t, d, outcome),
    ensures
        handler_runs(steps) <= (if d == Disposition::Run {
            1nat
        } else {
            0nat
        }),
        published_results(steps).len() <= results_due(d, outcome),
        steps.len() > 0 && steps.last().0 is Done ==> {
            &&& published_states(steps) == lifecycle(d, outcome)
            &&& handler_runs(steps) == (if d == Disposition::Run {
                1nat
            } else {
                0nat
            })
            &&& published_results(steps).len() == results_due(d, outcome)
        },
{
    lemma_course(runs, steps, t, d, outcome);
    if steps.len() > 0 && steps.last().0 is Done {
        let k = steps.len() - 1;
        lemma_course_prefix(runs, steps, t, d, outcome, k);
        lemma_course(runs.take(k + 1), steps.take(k), t, d, outcome);
        assert(steps.take(k) =~= steps.drop_last());
        assert(runs[k].states@.take(runs[k].sent as int) =~= runs[k].states@);
    }
}

/// The result of a command goes out behind all of its states, the closing one included:
/// it reports the outcome of the handler, and nothing is done after it.
pub proof fn result_goes_out_last(
    runs: Seq<CommandRun>,
    steps: Seq<(CommandStep, Timestamp)>,
    t: MqttTransport,
    d: Disposition,
    outcome: HandlerOutcome,
    k: int,
)
    requires
        is_course(runs, steps, t, d, outcome),
        0 <= k < steps.len(),
        steps[k].0 is PublishResult,
    ensures
        d == Disposition::Run,
        published_states(steps.take(k)) == lifecycle(d, outcome),
        steps[k].0 matches CommandStep::PublishResult(o) && reports_outcome(
            o,
            t,
            runs[0].cmd_name@,
            runs[0].uuid@,
            outcome,
            steps[k].1,
        ),
        forall|j: int| k < j < steps.len() ==> (#[trigger] steps[j]).0 is Done,
{
    lemma_course_prefix(runs, steps, t, d, outcome, k);
    lemma_course(runs.take(k + 1), steps.take(k), t, d, outcome);
    assert(runs[k].states@.take(runs[k].sent as int) =~= runs[k].states@);
    assert forall|j: int| k < j < steps.len() implies (#[trigger] steps[j]).0 is Done by {
        lemma_after_the_result(runs, steps, t, d, outcome, k, j);
    }
}

proof fn lemma_after_the_result(
    runs: Seq<CommandRun>,
    steps: Seq<(CommandStep, Timestamp)>,
    t: MqttTransport,
    d: Disposition,
    outcome: HandlerOutcome,
    k: int,
    j: int,
)
    requires
        is_course(runs, steps, t, d, outcome),
        0 <= k < j < steps.len(),
        steps[k].0 is PublishResult,
    ensures
        steps[j].0 is Done,
        runs[j].sent >= runs[j].states@.len(),
        runs[j].handler != HandlerPhase::Due,
        runs[j].closing is None,
    decreases j,
{
    assert(course_step(runs[j], steps[j], t, outcome, runs[j + 1]));
    assert(course_step(runs[j - 1], steps[j - 1], t, outcome, runs[j - 1 + 1]));
    if j > k + 1 {
        lemma_after_the_result(runs, steps, t, d, outcome, k, j - 1);
    }
}

/// The first `k` steps of a course are a course.
proof fn lemma_course_prefix(
    runs: Seq<CommandRun>,
    steps: Seq<(CommandStep, Timestamp)>,
    t: MqttTransport,
    d: Disposition,
    outcome: HandlerOutcome,
    k: int,
)
    requires
        is_course(runs, steps, t, d, outcome),
        0 <= k < steps.len(),
    ensures
        is_course(runs.take(k + 1), steps.take(k), t, d, outcome),
        runs.take(k + 1).last() == runs[k],
        runs.take(k + 1)[0] == runs[0],
        course_step(runs[k], steps[k], t, outcome, runs[k + 1]),
{
    let init = steps.take(k);
    assert forall|j: int| 0 <= j < init.len() implies course_step(
        runs.take(k + 1)[j],
        #[trigger] init[j],
        t,
        outcome,
        runs.take(k + 1)[j + 1],
    ) by {
        assert(init[j] == steps[j]);
    }
    assert(course_step(runs[k], steps[k], t, outcome, runs[k + 1]));
}

proof fn lemma_course(
    runs: Seq<CommandRun>,
    steps: Seq<(CommandStep, Timestamp)>,
    t: MqttTransport,
    d: Disposition,
    outcome: HandlerOutcome,
)
    requires
        is_course(runs, steps, t, d, outcome),
    ensures
        ({
            let run = runs.last();
            &&& run.wf()
            &&& run.same_command(runs[0])
            &&& published_states(steps) == run.states@.take(run.sent as int)
            &&& run.handler != HandlerPhase::Running
            &&& if handler_runs(steps) == 0 {
                &&& run.states@ == opening_states(d)
                &&& run.handler == HandlerPhase::Due <==> d == Disposition::Run
                &&& run.closing is None
                &&& published_results(steps).len() == 0
            } else {
                &&& handler_runs(steps) == 1
                &&& d == Disposition::Run
                &&& run.states@ == lifecycle(d, outcome)
                &&& run.handler == HandlerPhase::Idle
                &&& if run.closing is Some {
                    outcome is Done && closes(outcome, run.closing) && published_results(
                        steps,
                    ).len() == 0
                } else {
                    published_results(steps).len() == results_due(d, outcome)
                }
            }
        }),
    decreases steps.len(),
{
    let run = runs.last();
    if steps.len() == 0 {
        assert(run.states@.take(0) =~= Seq::<CommandState>::empty());
    } else {
        let k = steps.len() - 1;
        let before = runs[k];
        lemma_course_prefix(runs, steps, t, d, outcome, k);
        lemma_course(runs.take(k + 1), steps.take(k), t, d, outcome);
        assert(steps.take(k) =~= steps.drop_last());
        if steps[k].0 is PublishStatus {
            assert(run.states@.take(run.sent as int) =~= before.states@.take(
                before.sent as int,
            ).push(before.states@[before.sent as int]));
        } else {
            assert(run.states@.take(run.sent as int) =~= before.states@.take(before.sent as int));
        }
    }
}

// ---------------------------------------------------------------------------
// The processor
// ---------------------------------------------------------------------------

/// Decides which incoming commands run, and knows the names of those that have a
/// handler.
#[derive(Debug)]
pub struct CommandProcessor {
    pub handlers: Vec<String>,
    /// Track recently-processed command UUIDs to prevent duplicate execution
    /// from QoS 1 redeliveries.
    pub dedup: DedupQueue,
}

/// What the processor does about an event of the transport.
#[derive(Debug)]
pub enum ProcessorStep {
    /// Process this command.
    Process { cmd_name: String, payload: Vec<u8> },
    /// Subscribe to the commands (again).
    Subscribe,
    /// Do nothing.
    Ignore,
    /// End.
    Stop,
}

/// What the bridge between the transport's events and the processor does.
#[derive(Debug)]
pub enum BridgeStep {
    /// Hand the event on.
    Forward(MqttEvent),
    /// Events were lost; go on.
    Ignore,
    /// End.
    Stop,
}

/// What is published about one command.
#[derive(Debug)]
pub struct CommandTrace {
    pub statuses: Vec<Outgoing<CommandStatus>>,
    pub result: Option<Outgoing<CommandResultMsg>>,
}

/// `statuses` announce `states`, one after the other.
pub open spec fn announce(
    statuses: Seq<Outgoing<CommandStatus>>,
    t: MqttTransport,
    cmd_name: Seq<char>,
    uuid: Seq<char>,
    states: Seq<CommandState>,
    ts: Timestamp,
) -> bool {
    &&& statuses.len() == states.len()
    &&& forall|i: int|
        0 <= i < states.len() ==> is_status(
            #[trigger] statuses[i],
            t,
            cmd_name,
            uuid,
            states[i],
            ts,
        )
}

/// `o` is the result message with what the handler answered: its data or its error.
pub open spec fn reports_answer(
    o: Outgoing<CommandResultMsg>,
    t: MqttTransport,
    cmd_name: Seq<char>,
    uuid: Seq<char>,
    answer: Result<CommandResult, CommandError>,
    ts: Timestamp,
) -> bool {
    match answer {
        Ok(r) => is_result(o, t, cmd_name, uuid, true, None, Some(r.data), ts),
        Err(e) => is_result(o, t, cmd_name, uuid, false, Some(e.message), None, ts),
    }
}

/// `trace` is what is published about a command that was skipped, expired or rejected
/// at `now`: its states and no result.
pub open spec fn traces_unhandled(
    trace: CommandTrace,
    t: MqttTransport,
    cmd_name: Seq<char>,
    uuid: Seq<char>,
    d: Disposition,
    now: Timestamp,
) -> bool {
    &&& announce(trace.statuses@, t, cmd_name, uuid, opening_states(d), now)
    &&& trace.result is None
}

/// `trace` is what is published about a command whose handler was started at `now` and
/// gave `answer`: then the closing state goes out at `closed`, and the result at
/// `reported`.
pub open spec fn traces_handled(
    trace: CommandTrace,
    t: MqttTransport,
    cmd_name: Seq<char>,
    uuid: Seq<char>,
    answer: Result<CommandResult, CommandError>,
    now: Timestamp,
    closed: Timestamp,
    reported: Timestamp,
) -> bool {
    let opened = opening_states(Disposition::Run);
    &&& trace.statuses@.len() == opened.len() + 1
    &&& announce(trace.statuses@.drop_last(), t, cmd_name, uuid, opened, now)
    &&& is_status(
        trace.statuses@.last(),
        t,
        cmd_name,
        uuid,
        closing_state(HandlerOutcome::Done(answer))->0,
        closed,
    )
    &&& trace.result matches Some(o) && reports_answer(o, t, cmd_name, uuid, answer, reported)
}

impl CommandProcessor {
    pub open spec fn wf(self) -> bool {
        self.dedup.wf()
    }

    /// The names that have a handler.
    pub open spec fn names(self) -> Seq<Seq<char>> {
        text::texts(self.handlers@)
    }

    pub fn new() -> (r: Self)
        ensures
            r.wf(),
            r.names() == Seq::<Seq<char>>::empty(),
            r.dedup@ == Seq::<Seq<char>>::empty(),
    {
        let r = Self {
            handlers: Vec::new(),
            dedup: DedupQueue::with_capacity(DEDUP_CAPACITY),
        };
        assert(r.names() =~= Seq::<Seq<char>>::empty());
        r
    }

    fn has_handler(&self, name: &str) -> (r: bool)
        ensures
            r == self.names().contains(name@),
    {
        for i in 0..self.handlers.len()
            invariant
                forall|j: int| 0 <= j < i ==> #[trigger] self.names()[j] != name@,
        {
            assert(self.names()[i as int] == self.handlers@[i as int]@);
            if same_text(self.handlers[i].as_str(), name) {
                return true;
            }
        }
        false
    }

    /// Register a handler for a command name.
    pub fn register(&mut self, name: &str)
        ensures
            final(self).dedup == old(self).dedup,
            final(self).names() == (if old(self).names().contains(name@) {
                old(self).names()
            } else {
                old(self).names().push(name@)
            }),
    {
        if !self.has_handler(name) {
            let ghost before = self.names();
            self.handlers.push(name.to_string());
            assert(self.names() =~= before.push(name@));
        }
    }

    /// Register the unit's commands.
    pub fn register_commands(&mut self)
        ensures
            final(self).dedup == old(self).dedup,
            final(self).names().contains("config_update"@),
            final(self).names().contains("get_config"@),
            final(self).names().contains("update_request"@),
            final(self).names().contains("modem_commands"@),
            final(self).names().contains("restart"@),
            forall|name: Seq<char>| #[trigger]
                old(self).names().contains(name) ==> final(self).names().contains(name),
            forall|name: Seq<char>|
                final(self).names().contains(name) ==> #[trigger] old(self).names().contains(name)
                    || name == "config_update"@ || name == "get_config"@ || name
                    == "update_request"@ || name == "modem_commands"@ || name == "restart"@,
    {
        let ghost n0 = self.names();
        self.register("config_update");
        let ghost n1 = self.names();
        self.register(GetConfigHandler::NAME);
        let ghost n2 = self.names();
        self.register(UpdateRequestHandler::NAME);
        let ghost n3 = self.names();
        self.register(ModemCommandsHandler::NAME);
        let ghost n4 = self.names();
        self.register("restart");
        proof {
            lemma_registered(n0, "config_update"@, n1);
            lemma_registered(n1, "get_config"@, n2);
            lemma_registered(n2, "update_request"@, n3);
            lemma_registered(n3, "modem_commands"@, n4);
            lemma_registered(n4, "restart"@, self.names());
        }
    }

    /// The topic that all commands come in on, and its quality of service.
    pub fn subscription(t: &MqttTransport) -> (r: (String, QoS))
        ensures
            r.0@ == transport::command_topic_of(t.env_prefix@, t.node_id@, "+"@, "in"@),
            r.1 == QoS::AtLeastOnce,
    {
        (t.command_topic("+", "in"), QoS::AtLeastOnce)
    }

    /// What the bridge does with what it received.
    pub fn bridge(received: Received) -> (r: BridgeStep)
        ensures
            r == match received {
                Received::Event(event) => BridgeStep::Forward(event),
                Received::Lagged(_) => BridgeStep::Ignore,
                Received::Closed | Received::Cancelled => BridgeStep::Stop,
            },
    {
        match received {
            Received::Event(event) => BridgeStep::Forward(event),
            Received::Lagged(_) => BridgeStep::Ignore,
            Received::Closed => BridgeStep::Stop,
            Received::Cancelled => BridgeStep::Stop,
        }
    }

    /// What to do about an event. A message is processed where its topic names a
    /// command of this node; every connection subscribes again.
    pub fn on_event(t: &MqttTransport, event: Option<MqttEvent>) -> (r: ProcessorStep)
        ensures
            match event {
                Some(MqttEvent::Message { topic, payload }) => match r {
                    ProcessorStep::Process { cmd_name, payload: p } => p == payload
                        && names_command(
                        topic@,
                        transport::command_prefix_of(t.env_prefix@, t.node_id@),
                        cmd_name@,
                    ),
                    ProcessorStep::Ignore => forall|name: Seq<char>|
                        !names_command(
                            topic@,
                            transport::command_prefix_of(t.env_prefix@, t.node_id@),
                            name,
                        ),
                    _ => false,
                },
                Some(MqttEvent::Connected) => r is Subscribe,
                Some(MqttEvent::Disconnected) => r is Ignore,
                None => r is Stop,
            },
    {
        match event {
            Some(MqttEvent::Message { topic, payload }) => {
                let prefix = t.command_prefix();
                match extract_command_name(topic.as_str(), prefix.as_str()) {
                    Some(cmd_name) => ProcessorStep::Process { cmd_name, payload },
                    None => ProcessorStep::Ignore,
                }
            },
            Some(MqttEvent::Connected) => ProcessorStep::Subscribe,
            Some(MqttEvent::Disconnected) => ProcessorStep::Ignore,
            None => ProcessorStep::Stop,
        }
    }

    /// Record a UUID as processed. Returns `false` if already seen (duplicate).
    pub fn record_uuid(&mut self, uuid: &str) -> (r: bool)
        requires
            old(self).wf(),
        ensures
            final(self).wf(),
            final(self).handlers == old(self).handlers,
            r == !old(self).dedup@.contains(uuid@),
            final(self).dedup@ == recorded(old(self).dedup@, uuid@),
    {
        self.dedup.record(uuid)
    }

    /// Take in a command at `now`: it is recorded, and what becomes of it is decided.
    pub fn begin_command(&mut self, cmd_name: &str, envelope: &CommandEnvelope, now: Timestamp) -> (r:
        Disposition)
        requires
            old(self).wf(),
            !old(self).dedup@.contains(envelope.uuid@) ==> envelope.expiry_in_range(),
        ensures
            final(self).wf(),
            final(self).handlers == old(self).handlers,
            final(self).dedup@ == recorded(old(self).dedup@, envelope.uuid@),
            r == disposition(old(self).dedup@, old(self).names(), cmd_name@, *envelope, now),
    {
        // Deduplicate: QoS 1 may redeliver the same message
        if !self.record_uuid(envelope.uuid.as_str()) {
            return Disposition::Duplicate;
        }
        if envelope.is_expired_at(now) {
            return Disposition::Expired;
        }
        if self.has_handler(cmd_name) {
            Disposition::Run
        } else {
            Disposition::Rejected
        }
    }

    /// Process a single command message at `now` with the handler of its name. A
    /// payload that is no command envelope is dropped. The handler is run once where
    /// the command is to run, and not at all where it is not. What follows it carries
    /// the time at which it goes out.
    pub fn process_command<H: CommandHandler>(
        &mut self,
        t: &MqttTransport,
        cmd_name: &str,
        parsed: Option<CommandEnvelope>,
        now: Timestamp,
        handler: &mut H,
    ) -> (r: CommandTrace)
        requires
            old(self).wf(),
            parsed matches Some(envelope) ==> (!old(self).dedup@.contains(envelope.uuid@)
                ==> envelope.expiry_in_range()),
        ensures
            final(self).wf(),
            final(self).handlers == old(self).handlers,
            match parsed {
                None => {
                    &&& final(self).dedup@ == old(self).dedup@
                    &&& *final(handler) == *old(handler)
                    &&& r.statuses@.len() == 0
                    &&& r.result is None
                },
                Some(envelope) => {
                    &&& final(self).dedup@ == recorded(old(self).dedup@, envelope.uuid@)
                    &&& {
                        let d = disposition(
                            old(self).dedup@,
                            old(self).names(),
                            cmd_name@,
                            envelope,
                            now,
                        );
                        if d == Disposition::Run {
                            exists|
                                answer: Result<CommandResult, CommandError>,
                                closed: Timestamp,
                                reported: Timestamp,
                            |
                                {
                                    &&& #[trigger] traces_handled(
                                        r,
                                        *t,
                                        cmd_name@,
                                        envelope.uuid@,
                                        answer,
                                        now,
                                        closed,
                                        reported,
                                    )
                                    &&& H::may_answer(
                                        *old(handler),
                                        envelope,
                                        *final(handler),
                                        answer,
                                    )
                                    &&& closed.is_clock_time() && closed.was_shown()
                                    &&& reported.is_clock_time() && reported.was_shown()
                                }
                        } else {
                            &&& *final(handler) == *old(handler)
                            &&& traces_unhandled(r, *t, cmd_name@, envelope.uuid@, d, now)
                        }
                    }
                },
            },
    {
        let envelope = match parsed {
            Some(envelope) => envelope,
            None => {
                return CommandTrace { statuses: Vec::new(), result: None };
            },
        };
        let d = self.begin_command(cmd_name, &envelope, now);
        let mut run = CommandRun::new(cmd_name, envelope.uuid.as_str(), d);
        let mut statuses: Vec<Outgoing<CommandStatus>> = Vec::new();
        let mut result: Option<Outgoing<CommandResultMsg>> = None;
        let mut answered = false;
        let ghost mut given: Result<CommandResult, CommandError> = arbitrary();
        let ghost mut closed: Timestamp = now;
        let ghost mut reported: Timestamp = now;
        let ghost opened = opening_states(d);
        loop
            invariant
                run.wf(),
                run.cmd_name@ == cmd_name@,
                run.uuid@ == envelope.uuid@,
                opened == opening_states(d),
                !answered ==> {
                    &&& *handler == *old(handler)
                    &&& run.states@ == opened
                    &&& announce(
                        statuses@,
                        *t,
                        cmd_name@,
                        envelope.uuid@,
                        opened.take(run.sent as int),
                        now,
                    )
                    &&& run.handler == (if d == Disposition::Run {
                        HandlerPhase::Due
                    } else {
                        HandlerPhase::Idle
                    })
                    &&& run.closing is None
                    &&& result is None
                },
                answered ==> {
                    &&& d == Disposition::Run
                    &&& H::may_answer(*old(handler), envelope, *handler, given)
                    &&& run.states@ == lifecycle(d, HandlerOutcome::Done(given))
                    &&& opened.len() <= run.sent
                    &&& run.handler == HandlerPhase::Idle
                    &&& if run.sent == opened.len() {
                        announce(statuses@, *t, cmd_name@, envelope.uuid@, opened, now)
                    } else {
                        &&& statuses@.len() == opened.len() + 1
                        &&& announce(
                            statuses@.drop_last(),
                            *t,
                            cmd_name@,
                            envelope.uuid@,
                            opened,
                            now,
                        )
                        &&& is_status(
                            statuses@.last(),
                            *t,
                            cmd_name@,
                            envelope.uuid@,
                            closing_state(HandlerOutcome::Done(given))->0,
                            closed,
                        )
                        &&& closed.is_clock_time() && closed.was_shown()
                    }
                    &&& match run.closing {
                        Some(_) => result is None && closes(
                            HandlerOutcome::Done(given),
                            run.closing,
                        ),
                        None => {
                            &&& result matches Some(o)
                            &&& reports_answer(
                                o,
                                *t,
                                cmd_name@,
                                envelope.uuid@,
                                given,
                                reported,
                            )
                            &&& reported.is_clock_time() && reported.was_shown()
                        },
                    }
                },
            ensures
                run.sent == run.states@.len(),
                run.handler != HandlerPhase::Due,
                run.closing is None,
            decreases
                    (if run.handler == HandlerPhase::Due {
                        1int
                    } else {
                        0int
                    }),
                    run.states@.len() - run.sent,
                    (if run.closing is Some {
                        1int
                    } else {
                        0int
                    }),
        {
            let ghost before = run;
            let ghost told = statuses@;
            let at = if answered {
                Timestamp::now()
            } else {
                now
            };
            match run.next(t, at) {
                CommandStep::PublishStatus(o) => {
                    statuses.push(o);
                    proof {
                        if answered {
                            closed = at;
                            assert(statuses@.drop_last() =~= told);
                        }
                    }
                },
                CommandStep::RunHandler => {
                    assert(opened.take(run.sent as int) =~= opened);
                    let answer = handler.handle(&envelope);
                    proof {
                        given = answer;
                    }
                    answered = true;
                    run.handled(HandlerOutcome::Done(answer));
                },
                CommandStep::PublishResult(o) => {
                    result = Some(o);
                    proof {
                        reported = at;
                    }
                },
                CommandStep::Done => {
                    break;
                },
            }
        }
        let r = CommandTrace { statuses, result };
        proof {
            if answered {
                assert(traces_handled(
                    r,
                    *t,
                    cmd_name@,
                    envelope.uuid@,
                    given,
                    now,
                    closed,
                    reported,
                ));
            } else {
                assert(opened.take(run.sent as int) =~= opened);
            }
        }
        r
    }
}

/// Registering a name adds it and no other.
proof fn lemma_registered(before: Seq<Seq<char>>, name: Seq<char>, after: Seq<Seq<char>>)
    requires
        after == (if before.contains(name) {
            before
        } else {
            before.push(name)
        }),
    ensures
        forall|n: Seq<char>| #[trigger] after.contains(n) <==> before.contains(n) || n == name,
{
    if !before.contains(name) {
        assert forall|n: Seq<char>| #[trigger] after.contains(n) <==> before.contains(n) || n
            == name by {
            if before.contains(n) {
                let i = choose|i: int| 0 <= i < before.len() && before[i] == n;
                assert(after[i] == n);
            }
            if n == name {
                assert(after[before.len() as int] == n);
            }
            if after.contains(n) {
                let i = choose|i: int| 0 <= i < after.len() && after[i] == n;
                if i < before.len() {
                    assert(before[i] == n);
                }
            }
        }
    }
}

// ---------------------------------------------------------------------------
// What the operations promise
// ---------------------------------------------------------------------------

/// A topic gives the name of a command exactly where it is the prefix, a name and `/in`,
/// and the name is a single segment without wildcards.
pub proof fn topics_give_their_command(
    topic: &str,
    prefix: &str,
    name: Seq<char>,
    r: Option<String>,
)
    requires
        call_ensures(extract_command_name, (topic, prefix), r),
    ensures
        topic@ == prefix@ + name + "/in"@ && name.len() > 0 && !name.contains('/')
            && !name.contains('+') && !name.contains('#') ==> (r matches Some(s) && s@ == name),
        r matches Some(s) ==> topic@ == prefix@ + s@ + "/in"@ && s@.len() > 0 && !s@.contains('/')
            && !s@.contains('+') && !s@.contains('#'),
{
    if topic@ =~= prefix@ + name + "/in"@ && is_command_name(name) {
        assert(names_command(topic@, prefix@, name));
        topic_names_one_command(topic@, prefix@, name, r->0@);
    }
}

/// A UUID that was recorded is known when it comes again, and one that was not known is
/// new: the same one is never new twice in a row.
pub proof fn recorded_uuids_are_known(
    first: &mut DedupQueue,
    second: &mut DedupQueue,
    uuid: &str,
    r1: bool,
    r2: bool,
)
    requires
        old(first).wf(),
        call_ensures(DedupQueue::record, (first, uuid), r1),
        *old(second) == *final(first),
        call_ensures(DedupQueue::record, (second, uuid), r2),
    ensures
        !r2,
        final(second)@ == final(first)@,
        r1 <==> !old(first)@.contains(uuid@),
        r1 ==> final(first)@.last() == uuid@,
        final(first)@.len() <= 256,
        r1 && old(first)@.len() < 256 ==> final(first)@ == old(first)@.push(uuid@),
        r1 && old(first)@.len() == 256 ==> final(first)@ == old(first)@.skip(1).push(uuid@),
{
    recording_keeps_window(first@, uuid@);
    assert(first@.skip(1) =~= first@.drop_first());
}

/// What is published when a handler ends: `completed` and its data, or `failed` and its
/// message, and nothing where it was cut short.
pub proof fn outcomes_are_published(outcome: HandlerOutcome, r: Option<Closing>)
    requires
        call_ensures(closing, (outcome,), r),
    ensures
        outcome is Cancelled <==> r is None,
        outcome matches HandlerOutcome::Done(Ok(result)) ==> (r matches Some(c) && c.state
            == CommandState::Completed && c.ok && c.error is None && c.data == Some(result.data)),
        outcome matches HandlerOutcome::Done(Err(e)) ==> (r matches Some(c) && c.state
            == CommandState::Failed && !c.ok && c.error == Some(e.message) && c.data is None),
{
}

/// The messages about a command, as they are addressed.
pub proof fn command_messages_are_addressed(
    t: &MqttTransport,
    cmd_name: &str,
    uuid: &str,
    state: CommandState,
    ok: bool,
    error: Option<String>,
    data: Option<CommandResultData>,
    ts: Timestamp,
    status: Outgoing<CommandStatus>,
    result: Outgoing<CommandResultMsg>,
)
    requires
        call_ensures(status_message, (t, cmd_name, uuid, state, ts), status),
        call_ensures(result_message, (t, cmd_name, uuid, ok, error, data, ts), result),
    ensures
        status.topic@ == t.env_prefix@ + "/nodes/"@ + t.node_id@ + "/cmnd/"@ + cmd_name@ + "/"@
            + "status"@,
        result.topic@ == t.env_prefix@ + "/nodes/"@ + t.node_id@ + "/cmnd/"@ + cmd_name@ + "/"@
            + "result"@,
        !status.retain && !result.retain,
        status.qos == QoS::AtLeastOnce && result.qos == QoS::AtLeastOnce,
        status.message.uuid@ == uuid@ && result.message.uuid@ == uuid@,
        status.message.state == state,
        status.message.ts == ts && result.message.ts == ts,
        result.message.ok == ok && result.message.error == error && result.message.data == data,
{
    command_messages_reach_their_topics(status, result, *t, cmd_name@, uuid@, state, ts);
}

/// The step publishes this state of the command.
pub open spec fn publishes_state(step: CommandStep, uuid: Seq<char>, state: CommandState) -> bool {
    step matches CommandStep::PublishStatus(o) && o.message.uuid@ == uuid && o.message.state
        == state
}

/// A command that is to run is announced as accepted and as in progress before its handler
/// runs, and as completed or failed before its result goes out; then it is done.
pub proof fn handled_commands_take_six_steps(
    cmd_name: &str,
    uuid: &str,
    t: &MqttTransport,
    times: Seq<Timestamp>,
    fresh: CommandRun,
    a: &mut CommandRun,
    b: &mut CommandRun,
    c: &mut CommandRun,
    d: &mut CommandRun,
    e: &mut CommandRun,
    f: &mut CommandRun,
    g: &mut CommandRun,
    steps: Seq<CommandStep>,
    answer: Result<CommandResult, CommandError>,
)
    requires
        steps.len() == 6,
        times.len() == 6,
        call_ensures(CommandRun::new, (cmd_name, uuid, Disposition::Run), fresh),
        *old(a) == fresh,
        call_ensures(CommandRun::next, (a, t, times[0]), steps[0]),
        *old(b) == *final(a),
        call_ensures(CommandRun::next, (b, t, times[1]), steps[1]),
        *old(c) == *final(b),
        call_ensures(CommandRun::next, (c, t, times[2]), steps[2]),
        *old(d) == *final(c),
        call_ensures(CommandRun::handled, (d, HandlerOutcome::Done(answer)), ()),
        *old(e) == *final(d),
        call_ensures(CommandRun::next, (e, t, times[3]), steps[3]),
        *old(f) == *final(e),
        call_ensures(CommandRun::next, (f, t, times[4]), steps[4]),
        *old(g) == *final(f),
        call_ensures(CommandRun::next, (g, t, times[5]), steps[5]),
    ensures
        publishes_state(steps[0], uuid@, CommandState::Accepted),
        publishes_state(steps[1], uuid@, CommandState::InProgress),
        steps[2] is RunHandler,
        publishes_state(
            steps[3],
            uuid@,
            if answer is Ok {
                CommandState::Completed
            } else {
                CommandState::Failed
            },
        ),
        steps[4] matches CommandStep::PublishResult(o) && o.message.uuid@ == uuid@ && o.message.ok
            == (answer is Ok) && (answer matches Ok(result) ==> o.message.data == Some(result.data))
            && (answer matches Err(err) ==> o.message.error == Some(err.message)),
        steps[5] is Done,
{
}

/// A command that is not to run is announced as what it has come to, and its handler does
/// not run: a duplicate is passed over in silence, an expired one is told to be expired,
/// one that nobody handles is accepted and then rejected.
pub proof fn other_commands_are_announced_only(
    cmd_name: &str,
    uuid: &str,
    t: &MqttTransport,
    times: Seq<Timestamp>,
    disposition: Disposition,
    fresh: CommandRun,
    a: &mut CommandRun,
    b: &mut CommandRun,
    c: &mut CommandRun,
    steps: Seq<CommandStep>,
)
    requires
        steps.len() == 3,
        times.len() == 3,
        disposition != Disposition::Run,
        call_ensures(CommandRun::new, (cmd_name, uuid, disposition), fresh),
        *old(a) == fresh,
        call_ensures(CommandRun::next, (a, t, times[0]), steps[0]),
        *old(b) == *final(a),
        call_ensures(CommandRun::next, (b, t, times[1]), steps[1]),
        *old(c) == *final(b),
        call_ensures(CommandRun::next, (c, t, times[2]), steps[2]),
    ensures
        disposition == Disposition::Duplicate ==> steps[0] is Done,
        disposition == Disposition::Expired ==> publishes_state(
            steps[0],
            uuid@,
            CommandState::Expired,
        ) && steps[1] is Done,
        disposition == Disposition::Rejected ==> publishes_state(
            steps[0],
            uuid@,
            CommandState::Accepted,
        ) && publishes_state(steps[1], uuid@, CommandState::Rejected) && steps[2] is Done,
{
}

/// The processor subscribes to the incoming topics of all commands of its node, at every
/// connection. A message on one of them is processed as the command of its name, with its
/// payload as it came; one on another topic is ignored.
pub proof fn messages_are_processed_by_their_topic(
    t: &MqttTransport,
    event: Option<MqttEvent>,
    name: Seq<char>,
    subscription: (String, QoS),
    r: ProcessorStep,
)
    requires
        call_ensures(CommandProcessor::subscription, (t,), subscription),
        call_ensures(CommandProcessor::on_event, (t, event), r),
    ensures
        subscription.0@ == t.env_prefix@ + "/nodes/"@ + t.node_id@ + "/cmnd/"@ + "+"@ + "/"@
            + "in"@,
        subscription.1 == QoS::AtLeastOnce,
        event == Some(MqttEvent::Connected) ==> r is Subscribe,
        event == Some(MqttEvent::Disconnected) ==> r is Ignore,
        event is None ==> r is Stop,
        event matches Some(MqttEvent::Message { topic, payload }) ==> {
            let prefix = t.env_prefix@ + "/nodes/"@ + t.node_id@ + "/cmnd/"@;
            &&& topic@ == prefix + name + "/in"@ && name.len() > 0 && !name.contains('/')
                && !name.contains('+') && !name.contains('#') ==> (r matches
                ProcessorStep::Process { cmd_name, payload: p } && cmd_name@ == name && p
                == payload)
            &&& r matches ProcessorStep::Process { cmd_name, payload: p } ==> topic@ == prefix
                + cmd_name@ + "/in"@ && p == payload
            &&& r is Process || r is Ignore
        },
{
    reveal_strlit("in");
    reveal_strlit("+");
    if let Some(MqttEvent::Message { topic, payload }) = event {
        let prefix = t.env_prefix@ + "/nodes/"@ + t.node_id@ + "/cmnd/"@;
        if topic@ =~= prefix + name + "/in"@ && is_command_name(name) {
            assert(names_command(topic@, prefix, name));
            if let ProcessorStep::Process { cmd_name, payload: p } = r {
                topic_names_one_command(topic@, prefix, name, cmd_name@);
            }
        }
    }
}

/// The bridge hands every event on, goes on where events were lost, and ends with the
/// events or when it is to stop.
pub proof fn bridge_hands_events_on(received: Received, r: BridgeStep)
    requires
        call_ensures(CommandProcessor::bridge, (received,), r),
    ensures
        received matches Received::Event(event) ==> r == BridgeStep::Forward(event),
        received is Lagged ==> r is Ignore,
        received is Closed || received is Cancelled ==> r is Stop,
{
}

/// A fresh processor, once the unit's commands are registered, knows these five and no
/// others.
pub proof fn unit_knows_five_commands(
    fresh: CommandProcessor,
    p: &mut CommandProcessor,
    name: Seq<char>,
)
    requires
        call_ensures(CommandProcessor::new, (), fresh),
        *old(p) == fresh,
        call_ensures(CommandProcessor::register_commands, (p,), ()),
    ensures
        final(p).names().contains(name) <==> name == "get_config"@ || name == "config_update"@
            || name == "update_request"@ || name == "modem_commands"@ || name == "restart"@,
        final(p).dedup@.len() == 0,
{
    assert(!fresh.names().contains(name));
}

/// A command is taken in once: it runs where its UUID is new, its time is not over and its
/// name has a handler, and for no other reason does it not.
pub proof fn commands_are_taken_in_once(
    p: &mut CommandProcessor,
    cmd_name: &str,
    envelope: &CommandEnvelope,
    now: Timestamp,
    expired: bool,
    r: Disposition,
)
    requires
        old(p).wf(),
        call_ensures(CommandProcessor::begin_command, (p, cmd_name, envelope, now), r),
        call_ensures(CommandEnvelope::is_expired_at, (envelope, now), expired),
    ensures
        old(p).dedup@.contains(envelope.uuid@) <==> r == Disposition::Duplicate,
        !old(p).dedup@.contains(envelope.uuid@) ==> {
            &&& expired <==> r == Disposition::Expired
            &&& !expired && old(p).names().contains(cmd_name@) <==> r == Disposition::Run
            &&& !expired && !old(p).names().contains(cmd_name@) <==> r == Disposition::Rejected
        },
        final(p).dedup@.contains(envelope.uuid@),
        final(p).names() == old(p).names(),
{
    recording_keeps_window(p.dedup@, envelope.uuid@);
}

/// A command that is new, in time and known is handled once. It is announced as accepted
/// and in progress at the time it came, and as completed or failed at a time that the
/// clock showed later; its result tells the handler's answer, under the command's UUID, at
/// another such time.
pub proof fn processed_commands_tell_the_handlers_answer<H: CommandHandler>(
    p: &mut CommandProcessor,
    t: &MqttTransport,
    cmd_name: &str,
    envelope: CommandEnvelope,
    now: Timestamp,
    handler: &mut H,
    trace: CommandTrace,
)
    requires
        call_ensures(
            CommandProcessor::process_command::<H>,
            (p, t, cmd_name, Some(envelope), now, handler),
            trace,
        ),
        !old(p).dedup@.contains(envelope.uuid@),
        !envelope.expired_at(now),
        old(p).names().contains(cmd_name@),
    ensures
        trace.statuses@.len() == 3,
        trace.result is Some,
        forall|i: int|
            0 <= i < 3 ==> (#[trigger] trace.statuses@[i]).message.uuid@ == envelope.uuid@,
        trace.statuses@[0].message.state == CommandState::Accepted,
        trace.statuses@[0].message.ts == now,
        trace.statuses@[1].message.state == CommandState::InProgress,
        trace.statuses@[1].message.ts == now,
        trace.statuses@[2].message.ts.was_shown(),
        (trace.result->0).message.ts.was_shown(),
        (trace.result->0).message.uuid@ == envelope.uuid@,
        exists|answer: Result<CommandResult, CommandError>|
            #[trigger] H::may_answer(*old(handler), envelope, *final(handler), answer)
                && trace.statuses@[2].message.state == (if answer is Ok {
                CommandState::Completed
            } else {
                CommandState::Failed
            }) && (trace.result->0).message.ok == (answer is Ok) && (answer matches Ok(result)
                ==> (trace.result->0).message.data == Some(result.data)) && (answer matches Err(e)
                ==> (trace.result->0).message.error == Some(e.message)),
{
    let (answer, closed, reported) = choose|
        answer: Result<CommandResult, CommandError>,
        closed: Timestamp,
        reported: Timestamp,
    |
        {
            &&& #[trigger] traces_handled(
                trace,
                *t,
                cmd_name@,
                envelope.uuid@,
                answer,
                now,
                closed,
                reported,
            )
            &&& H::may_answer(*handler, envelope, *final(handler), answer)
            &&& closed.is_clock_time() && closed.was_shown()
            &&& reported.is_clock_time() && reported.was_shown()
        };
    let s = trace.statuses@;
    let opened = opening_states(Disposition::Run);
    assert(s.drop_last()[0] == s[0] && s.drop_last()[1] == s[1]);
    assert(is_status(s.drop_last()[0], *t, cmd_name@, envelope.uuid@, opened[0], now));
    assert(is_status(s.drop_last()[1], *t, cmd_name@, envelope.uuid@, opened[1], now));
    assert(s.last() == s[2]);
}

/// A command that was seen before, whose time is over, or that nobody handles leaves every
/// handler alone and has no result: of a duplicate nothing is told, of an expired one that
/// it is expired, of an unknown one that it was accepted and rejected. A payload that is no
/// command is passed over in silence.
pub proof fn other_commands_leave_the_handler_alone<H: CommandHandler>(
    p: &mut CommandProcessor,
    t: &MqttTransport,
    cmd_name: &str,
    parsed: Option<CommandEnvelope>,
    now: Timestamp,
    handler: &mut H,
    trace: CommandTrace,
)
    requires
        call_ensures(
            CommandProcessor::process_command::<H>,
            (p, t, cmd_name, parsed, now, handler),
            trace,
        ),
        parsed matches Some(envelope) ==> old(p).dedup@.contains(envelope.uuid@)
            || envelope.expired_at(now) || !old(p).names().contains(cmd_name@),
    ensures
        *final(handler) == *old(handler),
        trace.result is None,
        parsed is None ==> trace.statuses@.len() == 0 && final(p).dedup@ == old(p).dedup@,
        parsed matches Some(envelope) ==> {
            let seen = old(p).dedup@.contains(envelope.uuid@);
            &&& seen ==> trace.statuses@.len() == 0
            &&& !seen && envelope.expired_at(now) ==> trace.statuses@.len() == 1
                && trace.statuses@[0].message.state == CommandState::Expired
            &&& !seen && !envelope.expired_at(now) ==> trace.statuses@.len() == 2
                && trace.statuses@[0].message.state == CommandState::Accepted
                && trace.statuses@[1].message.state == CommandState::Rejected
            &&& forall|i: int|
                0 <= i < trace.statuses@.len() ==> (#[trigger] trace.statuses@[i]).message.uuid@
                    == envelope.uuid@ && trace.statuses@[i].message.ts == now
        },
{
}

/// A registered name stays registered, and registering one adds that name only.
pub proof fn registering_adds_one_name(p: &mut CommandProcessor, name: &str, other: Seq<char>)
    requires
        call_ensures(CommandProcessor::register, (p, name), ()),
    ensures
        final(p).names().contains(other) <==> old(p).names().contains(other) || other == name@,
        final(p).dedup == old(p).dedup,
{
    lemma_registered(p.names(), name@, final(p).names());
}

} // verus!
