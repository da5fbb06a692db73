//! The MQTT connection: its topics, its events, and the node's status messages.

use rand::RngExt;
use vstd::prelude::*;
use vstd::string::*;

use crate::config::MqttConfig;
use crate::messages::status::{NodeStatusEnvelope, OfflineStatusData, StatusData};
use crate::text::{self, chars_of, join, push_hex_byte};
use crate::time::Timestamp;

verus! {

/// Events emitted by the MQTT transport layer.
#[derive(Debug, Clone)]
pub enum MqttEvent {
    Connected,
    Disconnected,
    Message { topic: String, payload: Vec<u8> },
}

/// What a subscriber of the transport's events gets when it waits for the next one.
#[derive(Debug)]
pub enum Received {
    /// An event.
    Event(MqttEvent),
    /// Some events were missed.
    Lagged(u64),
    /// There will be no more events.
    Closed,
    /// The subscriber is to stop.
    Cancelled,
}

/// Errors from the MQTT transport layer.
#[derive(Debug)]
pub enum TransportError {
    Tls(String),
    Client(String),
    InvalidConfig(String),
}

impl TransportError {
    pub open spec fn text(self) -> Seq<char> {
        match self {
            TransportError::Tls(m) => "TLS error: "@ + m@,
            TransportError::Client(m) => "MQTT client error: "@ + m@,
            TransportError::InvalidConfig(m) => "invalid config: "@ + m@,
        }
    }

    /// The error as a message for people.
    pub fn to_string(&self) -> (r: String)
        ensures
            r@ == self.text(),
    {
        match self {
            TransportError::Tls(m) => join("TLS error: ", m.as_str()),
            TransportError::Client(m) => join("MQTT client error: ", m.as_str()),
            TransportError::InvalidConfig(m) => join("invalid config: ", m.as_str()),
        }
    }
}

/// MQTT quality of service.
#[derive(Debug, Clone, Copy, PartialEq, Eq, Structural)]
pub enum QoS {
    AtMostOnce,
    AtLeastOnce,
}

/// A message on its way to the broker.
#[derive(Debug)]
pub struct Outgoing<M> {
    pub topic: String,
    pub qos: QoS,
    pub retain: bool,
    pub message: M,
}

impl<M> Outgoing<M> {
    /// The message goes to `topic` with the given guarantees.
    pub open spec fn goes_to(self, topic: Seq<char>, qos: QoS, retain: bool) -> bool {
        self.topic@ == topic && self.qos == qos && self.retain == retain
    }
}

// ---------------------------------------------------------------------------
// Topic segments
// ---------------------------------------------------------------------------

/// MQTT topic special characters that must not appear in node_id or env_prefix.
pub open spec fn is_forbidden(c: char) -> bool {
    c == '+' || c == '#' || c == '/' || c == '\0'
}

/// The first special character of a text.
pub open spec fn first_forbidden(s: Seq<char>) -> Option<char>
    decreases s.len(),
{
    if s.len() == 0 {
        None
    } else {
        match first_forbidden(s.drop_last()) {
            Some(c) => Some(c),
            None => if is_forbidden(s.last()) {
                Some(s.last())
            } else {
                None
            },
        }
    }
}

/// Fit to be one segment of a topic.
pub open spec fn is_segment(s: Seq<char>) -> bool {
    s.len() > 0 && forall|i: int| 0 <= i < s.len() ==> !is_forbidden(#[trigger] s[i])
}

/// What is wrong with the segment `value`, called `name`.
pub open spec fn segment_complaint(value: Seq<char>, name: Seq<char>) -> Option<Seq<char>> {
    if value.len() == 0 {
        Some(name + " must not be empty"@)
    } else {
        match first_forbidden(value) {
            Some(c) => Some(name + " contains forbidden MQTT character: '"@ + seq![c] + "'"@),
            None => None,
        }
    }
}

proof fn lemma_first_forbidden_stays(s: Seq<char>, i: int)
    requires
        0 <= i <= s.len(),
        first_forbidden(s.take(i)) is Some,
    ensures
        first_forbidden(s) == first_forbidden(s.take(i)),
    decreases s.len() - i,
{
    if i == s.len() {
        assert(s.take(i) =~= s);
    } else {
        assert(s.take(i + 1).drop_last() =~= s.take(i));
        lemma_first_forbidden_stays(s, i + 1);
    }
}

fn find_forbidden(s: &str) -> (r: Option<char>)
    ensures
        r == first_forbidden(s@),
        r is None <==> forall|i: int| 0 <= i < s@.len() ==> !is_forbidden(#[trigger] s@[i]),
{
    let x = chars_of(s);
    for i in 0..x.len()
        invariant
            x@ == s@,
            first_forbidden(x@.take(i as int)) is None,
            forall|j: int| 0 <= j < i ==> !is_forbidden(#[trigger] x@[j]),
    {
        let c = x[i];
        proof {
            assert(x@.take(i + 1).drop_last() =~= x@.take(i as int));
            assert(x@.take(i + 1).last() == c);
        }
        if c == '+' || c == '#' || c == '/' || c == '\0' {
            proof {
                lemma_first_forbidden_stays(x@, i + 1);
                assert(is_forbidden(s@[i as int]));
            }
            return Some(c);
        }
    }
    assert(x@.take(x@.len() as int) =~= x@);
    None
}

/// Validate that a string is safe for use in MQTT topic segments.
pub fn validate_topic_segment(value: &str, name: &str) -> (r: Result<(), TransportError>)
    ensures
        r is Ok <==> is_segment(value@),
        r matches Err(e) ==> (e matches TransportError::InvalidConfig(m) && segment_complaint(
            value@,
            name@,
        ) == Some(m@)),
{
    if value.is_empty() {
        return Err(TransportError::InvalidConfig(join(name, " must not be empty")));
    }
    match find_forbidden(value) {
        Some(c) => {
            let mut message: String = join(name, " contains forbidden MQTT character: '");
            message.push(c);
            message.append("'");
            assert(message@ =~= name@ + " contains forbidden MQTT character: '"@ + seq![c] + "'"@);
            Err(TransportError::InvalidConfig(message))
        },
        None => Ok(()),
    }
}

// ---------------------------------------------------------------------------
// Topics
// ---------------------------------------------------------------------------

/// Where all topics of a node begin.
pub open spec fn node_base(env_prefix: Seq<char>, node_id: Seq<char>) -> Seq<char> {
    env_prefix + "/nodes/"@ + node_id
}

pub open spec fn status_topic_of(env_prefix: Seq<char>, node_id: Seq<char>) -> Seq<char> {
    node_base(env_prefix, node_id) + "/status"@
}

pub open spec fn telemetry_topic_of(
    env_prefix: Seq<char>,
    node_id: Seq<char>,
    name: Seq<char>,
) -> Seq<char> {
    node_base(env_prefix, node_id) + "/telemetry/"@ + name
}

/// Where all command topics of a node begin.
pub open spec fn command_prefix_of(env_prefix: Seq<char>, node_id: Seq<char>) -> Seq<char> {
    node_base(env_prefix, node_id) + "/cmnd/"@
}

/// The topic of a command; an absent suffix, or an absent command and suffix, are
/// left out together with the slash before them.
pub open spec fn command_topic_of(
    env_prefix: Seq<char>,
    node_id: Seq<char>,
    cmd: Seq<char>,
    suffix: Seq<char>,
) -> Seq<char> {
    if cmd.len() == 0 && suffix.len() == 0 {
        node_base(env_prefix, node_id) + "/cmnd"@
    } else if suffix.len() == 0 {
        command_prefix_of(env_prefix, node_id) + cmd
    } else {
        command_prefix_of(env_prefix, node_id) + cmd + "/"@ + suffix
    }
}

/// What stands before the first slash, and what stands behind it, are determined by
/// the whole.
proof fn lemma_cut(a: Seq<char>, x: Seq<char>, b: Seq<char>, y: Seq<char>)
    requires
        !a.contains('/'),
        !b.contains('/'),
        a + seq!['/'] + x == b + seq!['/'] + y,
    ensures
        a == b,
        x == y,
{
    let s = a + seq!['/'] + x;
    let t = b + seq!['/'] + y;
    if a.len() < b.len() {
        assert(t[a.len() as int] == b[a.len() as int]);
        assert(s[a.len() as int] == '/');
        assert(b.contains('/'));
    } else if b.len() < a.len() {
        assert(s[b.len() as int] == a[b.len() as int]);
        assert(t[b.len() as int] == '/');
        assert(a.contains('/'));
    }
    assert(a =~= s.take(a.len() as int));
    assert(b =~= t.take(b.len() as int));
    assert(x =~= s.skip(a.len() as int + 1));
    assert(y =~= t.skip(b.len() as int + 1));
}

proof fn lemma_segment_has_no_slash(s: Seq<char>)
    requires
        is_segment(s),
    ensures
        !s.contains('/'),
{
    assert forall|i: int| 0 <= i < s.len() implies s[i] != '/' by {
        assert(!is_forbidden(s[i]));
    }
}

/// A topic under a node tells which node it is, and what follows the node.
proof fn lemma_node_cut(
    e1: Seq<char>,
    n1: Seq<char>,
    x1: Seq<char>,
    e2: Seq<char>,
    n2: Seq<char>,
    x2: Seq<char>,
)
    requires
        is_segment(e1),
        is_segment(n1),
        is_segment(e2),
        is_segment(n2),
        node_base(e1, n1) + seq!['/'] + x1 == node_base(e2, n2) + seq!['/'] + x2,
    ensures
        e1 == e2,
        n1 == n2,
        x1 == x2,
{
    reveal_strlit("/nodes/");
    lemma_segment_has_no_slash(e1);
    lemma_segment_has_no_slash(e2);
    lemma_segment_has_no_slash(n1);
    lemma_segment_has_no_slash(n2);
    let nodes = seq!['n', 'o', 'd', 'e', 's'];
    let r1 = nodes + seq!['/'] + (n1 + seq!['/'] + x1);
    let r2 = nodes + seq!['/'] + (n2 + seq!['/'] + x2);
    assert(node_base(e1, n1) + seq!['/'] + x1 =~= e1 + seq!['/'] + r1);
    assert(node_base(e2, n2) + seq!['/'] + x2 =~= e2 + seq!['/'] + r2);
    lemma_cut(e1, r1, e2, r2);
    lemma_cut(nodes, n1 + seq!['/'] + x1, nodes, n2 + seq!['/'] + x2);
    lemma_cut(n1, x1, n2, x2);
}

/// Two nodes never share a status topic.
pub proof fn status_topic_identifies_node(
    e1: Seq<char>,
    n1: Seq<char>,
    e2: Seq<char>,
    n2: Seq<char>,
)
    requires
        is_segment(e1),
        is_segment(n1),
        is_segment(e2),
        is_segment(n2),
        status_topic_of(e1, n1) == status_topic_of(e2, n2),
    ensures
        e1 == e2,
        n1 == n2,
{
    reveal_strlit("/status");
    let rest = seq!['s', 't', 'a', 't', 'u', 's'];
    assert(status_topic_of(e1, n1) =~= node_base(e1, n1) + seq!['/'] + rest);
    assert(status_topic_of(e2, n2) =~= node_base(e2, n2) + seq!['/'] + rest);
    lemma_node_cut(e1, n1, rest, e2, n2, rest);
}

/// Neither two nodes nor two readings share a telemetry topic.
pub proof fn telemetry_topic_identifies_reading(
    e1: Seq<char>,
    n1: Seq<char>,
    name1: Seq<char>,
    e2: Seq<char>,
    n2: Seq<char>,
    name2: Seq<char>,
)
    requires
        is_segment(e1),
        is_segment(n1),
        is_segment(e2),
        is_segment(n2),
        telemetry_topic_of(e1, n1, name1) == telemetry_topic_of(e2, n2, name2),
    ensures
        e1 == e2,
        n1 == n2,
        name1 == name2,
{
    reveal_strlit("/telemetry/");
    let word = seq!['t', 'e', 'l', 'e', 'm', 'e', 't', 'r', 'y'];
    let r1 = word + seq!['/'] + name1;
    let r2 = word + seq!['/'] + name2;
    assert(telemetry_topic_of(e1, n1, name1) =~= node_base(e1, n1) + seq!['/'] + r1);
    assert(telemetry_topic_of(e2, n2, name2) =~= node_base(e2, n2) + seq!['/'] + r2);
    lemma_node_cut(e1, n1, r1, e2, n2, r2);
    lemma_cut(word, name1, word, name2);
}

/// Neither two nodes, nor two commands, nor two suffixes share a command topic.
pub proof fn command_topic_identifies_command(
    e1: Seq<char>,
    n1: Seq<char>,
    cmd1: Seq<char>,
    suffix1: Seq<char>,
    e2: Seq<char>,
    n2: Seq<char>,
    cmd2: Seq<char>,
    suffix2: Seq<char>,
)
    requires
        is_segment(e1),
        is_segment(n1),
        is_segment(e2),
        is_segment(n2),
        is_segment(cmd1),
        is_segment(cmd2),
        suffix1.len() > 0,
        suffix2.len() > 0,
        command_topic_of(e1, n1, cmd1, suffix1) == command_topic_of(e2, n2, cmd2, suffix2),
    ensures
        e1 == e2,
        n1 == n2,
        cmd1 == cmd2,
        suffix1 == suffix2,
{
    reveal_strlit("/cmnd/");
    reveal_strlit("/");
    lemma_segment_has_no_slash(cmd1);
    lemma_segment_has_no_slash(cmd2);
    let word = seq!['c', 'm', 'n', 'd'];
    let r1 = word + seq!['/'] + (cmd1 + seq!['/'] + suffix1);
    let r2 = word + seq!['/'] + (cmd2 + seq!['/'] + suffix2);
    assert(command_topic_of(e1, n1, cmd1, suffix1) =~= node_base(e1, n1) + seq!['/'] + r1);
    assert(command_topic_of(e2, n2, cmd2, suffix2) =~= node_base(e2, n2) + seq!['/'] + r2);
    lemma_node_cut(e1, n1, r1, e2, n2, r2);
    lemma_cut(word, cmd1 + seq!['/'] + suffix1, word, cmd2 + seq!['/'] + suffix2);
    lemma_cut(cmd1, suffix1, cmd2, suffix2);
}

// ---------------------------------------------------------------------------
// Session ids
// ---------------------------------------------------------------------------

/// Three bytes in hexadecimal.
pub open spec fn session_text(bytes: [u8; 3]) -> Seq<char> {
    text::hex_byte(bytes[0]) + text::hex_byte(bytes[1]) + text::hex_byte(bytes[2])
}

/// Six lower-case hexadecimal digits.
pub open spec fn is_session_id(s: Seq<char>) -> bool {
    s.len() == 6 && forall|i: int|
        0 <= i < 6 ==> text::is_digit(#[trigger] s[i]) || 'a' <= s[i] <= 'f'
}

/// `rand`'s thread-local generator: three random bytes. They can be any.
#[verifier::external_body]
fn random_bytes() -> (r: [u8; 3]) {
    rand::rng().random()
}

/// The generator gave these bytes when it was asked.
pub closed spec fn were_drawn(bytes: [u8; 3]) -> bool {
    call_ensures(random_bytes, (), bytes)
}

/// A session ID made of bytes that the generator gave.
pub open spec fn is_drawn_session(s: Seq<char>) -> bool {
    exists|bytes: [u8; 3]| #[trigger] were_drawn(bytes) && s == session_text(bytes)
}

/// The session ID made of three bytes.
pub fn session_id_from(bytes: [u8; 3]) -> (r: String)
    ensures
        r@ == session_text(bytes),
        is_session_id(r@),
{
    let mut out: String = String::new();
    push_hex_byte(&mut out, bytes[0]);
    push_hex_byte(&mut out, bytes[1]);
    push_hex_byte(&mut out, bytes[2]);
    assert(out@ =~= session_text(bytes));
    out
}

/// Generate a 6-character hex session ID using the `rand` crate.
pub fn generate_session_id() -> (r: String)
    ensures
        is_session_id(r@),
        exists|bytes: [u8; 3]| r@ == #[trigger] session_text(bytes),
        is_drawn_session(r@),
{
    let bytes = random_bytes();
    assert(were_drawn(bytes));
    session_id_from(bytes)
}

// ---------------------------------------------------------------------------
// The transport
// ---------------------------------------------------------------------------

/// Broadcast channel capacity for MQTT events.
pub const EVENT_CHANNEL_CAPACITY: usize = 256;

/// Capacity of the client's request queue.
pub const CLIENT_QUEUE_CAPACITY: usize = 50;

/// Seconds between keep-alive packets.
pub const KEEP_ALIVE_SECS: u64 = 30;

/// Seconds to wait after a connection error.
pub const RECONNECT_DELAY_SECS: u64 = 1;

/// Seconds that the shutdown may take to send what is queued.
pub const FLUSH_TIMEOUT_SECS: u64 = 2;

/// Names and topics of this node on the broker, and when it was last connected.
#[derive(Debug)]
pub struct MqttTransport {
    pub node_id: String,
    pub env_prefix: String,
    pub session_id: String,
    /// Timestamp of the most recent successful MQTT connection (ConnAck).
    /// `None` until the first ConnAck is received.
    pub last_connected_at: Option<Timestamp>,
}

/// How to connect to the broker.
#[derive(Debug)]
pub struct ConnectOptions {
    pub client_id: String,
    pub host: String,
    pub port: u16,
    pub keep_alive_secs: u64,
    pub clean_session: bool,
    /// Published by the broker when the connection is lost.
    pub last_will: Outgoing<NodeStatusEnvelope>,
}

/// Offline since `last_online`, as seen at `ts`.
pub open spec fn is_offline(
    envelope: NodeStatusEnvelope,
    session: Seq<char>,
    last_online: Timestamp,
    ts: Timestamp,
) -> bool {
    &&& envelope.ts == ts
    &&& envelope.data matches StatusData::Offline(d)
    &&& d.last_session@ == session
    &&& d.last_online == last_online
}

/// What the MQTT client's event loop yields.
#[derive(Debug)]
pub enum PollEvent {
    /// The broker accepted the connection.
    ConnAck,
    /// A message came in.
    Publish { topic: String, payload: Vec<u8> },
    /// Another packet came in.
    OtherIncoming,
    /// A packet went out.
    Outgoing,
    /// The connection failed.
    Failed,
}

/// What to do about it: an event to broadcast, and seconds to wait before going on.
#[derive(Debug)]
pub struct PollAction {
    pub emit: Option<MqttEvent>,
    pub wait_secs: u64,
}

/// What the event loop yields while it flushes at shutdown.
#[derive(Debug, Clone, Copy, PartialEq, Eq, Structural)]
pub enum FlushEvent {
    /// The disconnect packet went out.
    DisconnectSent,
    /// Something else happened.
    Other,
    /// The connection failed.
    Failed,
    /// Time is up.
    TimedOut,
}

impl MqttTransport {
    /// The names are fit for topics.
    pub open spec fn wf(self) -> bool {
        is_segment(self.node_id@) && is_segment(self.env_prefix@)
    }

    /// Put together a transport and the options to connect it, from the node's name,
    /// a session ID and the current time.
    pub fn assemble(config: &MqttConfig, node_id: &str, session_id: String, now: Timestamp) -> (r:
        Result<(MqttTransport, ConnectOptions), TransportError>)
        ensures
            r is Ok <==> is_segment(node_id@) && is_segment(config.env_prefix@),
            r matches Err(e) ==> (e matches TransportError::InvalidConfig(m) && Some(m@) == (
            if !is_segment(node_id@) {
                segment_complaint(node_id@, "node_id (certificate CN)"@)
            } else {
                segment_complaint(config.env_prefix@, "env_prefix"@)
            })),
            r matches Ok((t, o)) ==> {
                &&& t.wf()
                &&& t.node_id@ == node_id@
                &&& t.env_prefix@ == config.env_prefix@
                &&& t.session_id@ == session_id@
                &&& t.last_connected_at is None
                &&& o.client_id@ == node_id@
                &&& o.host@ == config.host@
                &&& o.port == config.port
                &&& o.keep_alive_secs == KEEP_ALIVE_SECS
                &&& !o.clean_session
                &&& o.last_will.goes_to(
                    status_topic_of(config.env_prefix@, node_id@),
                    QoS::AtLeastOnce,
                    true,
                )
                &&& is_offline(o.last_will.message, session_id@, now, now)
            },
    {
        match validate_topic_segment(node_id, "node_id (certificate CN)") {
            Ok(()) => {},
            Err(e) => {
                return Err(e);
            },
        }
        match validate_topic_segment(config.env_prefix.as_str(), "env_prefix") {
            Ok(()) => {},
            Err(e) => {
                return Err(e);
            },
        }
        let last_will = Outgoing {
            topic: Self::build_status_topic(config.env_prefix.as_str(), node_id),
            qos: QoS::AtLeastOnce,
            retain: true,
            message: NodeStatusEnvelope {
                ts: now,
                data: StatusData::Offline(
                    OfflineStatusData { last_session: session_id.clone(), last_online: now },
                ),
            },
        };
        let options = ConnectOptions {
            client_id: node_id.to_string(),
            host: config.host.clone(),
            port: config.port,
            keep_alive_secs: KEEP_ALIVE_SECS,
            clean_session: false,
            last_will,
        };
        let transport = MqttTransport {
            node_id: node_id.to_string(),
            env_prefix: config.env_prefix.clone(),
            session_id,
            last_connected_at: None,
        };
        Ok((transport, options))
    }

    /// Create a new MqttTransport from configuration and the node ID of the client
    /// certificate, with a fresh session ID.
    pub fn new(config: &MqttConfig, node_id: &str) -> (r: Result<
        (MqttTransport, ConnectOptions),
        TransportError,
    >)
        ensures
            r is Ok <==> is_segment(node_id@) && is_segment(config.env_prefix@),
            r matches Err(e) ==> (e matches TransportError::InvalidConfig(m) && Some(m@) == (
            if !is_segment(node_id@) {
                segment_complaint(node_id@, "node_id (certificate CN)"@)
            } else {
                segment_complaint(config.env_prefix@, "env_prefix"@)
            })),
            r matches Ok((t, o)) ==> {
                &&& t.wf()
                &&& t.node_id@ == node_id@
                &&& t.env_prefix@ == config.env_prefix@
                &&& is_session_id(t.session_id@)
                &&& t.last_connected_at is None
                &&& o.client_id@ == node_id@
                &&& o.host@ == config.host@
                &&& o.port == config.port
                &&& o.keep_alive_secs == KEEP_ALIVE_SECS
                &&& !o.clean_session
                &&& o.last_will.goes_to(
                    status_topic_of(config.env_prefix@, node_id@),
                    QoS::AtLeastOnce,
                    true,
                )
                &&& is_offline(
                    o.last_will.message,
                    t.session_id@,
                    o.last_will.message.ts,
                    o.last_will.message.ts,
                )
                &&& o.last_will.message.ts.is_clock_time()
                &&& o.last_will.message.ts.was_shown()
                &&& is_drawn_session(t.session_id@)
            },
    {
        Self::assemble(config, node_id, generate_session_id(), Timestamp::now())
    }

    /// Build a telemetry topic path.
    ///
    /// Returns `{env_prefix}/nodes/{node_id}/telemetry/{name}`
    pub fn telemetry_topic(&self, name: &str) -> (r: String)
        ensures
            r@ == telemetry_topic_of(self.env_prefix@, self.node_id@, name@),
    {
        self.base().concat("/telemetry/").concat(name)
    }

    fn base(&self) -> (r: String)
        ensures
            r@ == node_base(self.env_prefix@, self.node_id@),
    {
        self.env_prefix.clone().concat("/nodes/").concat(self.node_id.as_str())
    }

    /// Build a command topic path.
    ///
    /// Returns `{env_prefix}/nodes/{node_id}/cmnd/{cmd}/{suffix}`
    pub fn command_topic(&self, cmd: &str, suffix: &str) -> (r: String)
        ensures
            r@ == command_topic_of(self.env_prefix@, self.node_id@, cmd@, suffix@),
    {
        if cmd.is_empty() && suffix.is_empty() {
            self.base().concat("/cmnd")
        } else if suffix.is_empty() {
            self.base().concat("/cmnd/").concat(cmd)
        } else {
            self.base().concat("/cmnd/").concat(cmd).concat("/").concat(suffix)
        }
    }

    /// Where the node's command topics begin, up to the name of the command.
    pub fn command_prefix(&self) -> (r: String)
        ensures
            r@ == command_prefix_of(self.env_prefix@, self.node_id@),
    {
        self.base().concat("/cmnd/")
    }

    /// Build a status topic path from stored fields.
    ///
    /// Returns `{env_prefix}/nodes/{node_id}/status`
    pub fn status_topic(&self) -> (r: String)
        ensures
            r@ == status_topic_of(self.env_prefix@, self.node_id@),
    {
        Self::build_status_topic(self.env_prefix.as_str(), self.node_id.as_str())
    }

    /// Build a status topic path from raw parts (usable before `self` exists).
    fn build_status_topic(env_prefix: &str, node_id: &str) -> (r: String)
        ensures
            r@ == status_topic_of(env_prefix@, node_id@),
    {
        env_prefix.to_string().concat("/nodes/").concat(node_id).concat("/status")
    }

    /// Get the node ID extracted from the client certificate.
    pub fn node_id(&self) -> (r: &str)
        ensures
            r@ == self.node_id@,
    {
        self.node_id.as_str()
    }

    /// Get the session ID generated for this transport instance.
    pub fn session_id(&self) -> (r: &str)
        ensures
            r@ == self.session_id@,
    {
        self.session_id.as_str()
    }

    /// Take what the client's event loop yields at `now`.
    pub fn on_poll(&mut self, event: PollEvent, now: Timestamp) -> (r: PollAction)
        ensures
            final(self).node_id == old(self).node_id,
            final(self).env_prefix == old(self).env_prefix,
            final(self).session_id == old(self).session_id,
            final(self).last_connected_at == connected_after(
                old(self).last_connected_at,
                event,
                now,
            ),
            match event {
                PollEvent::ConnAck => r.emit == Some(MqttEvent::Connected),
                PollEvent::Publish { topic, payload } => r.emit == Some(
                    MqttEvent::Message { topic, payload },
                ),
                PollEvent::OtherIncoming | PollEvent::Outgoing => r.emit is None,
                PollEvent::Failed => r.emit == Some(MqttEvent::Disconnected),
            },
            r.wait_secs == (if event is Failed {
                RECONNECT_DELAY_SECS
            } else {
                0
            }),
    {
        match event {
            PollEvent::ConnAck => {
                self.last_connected_at = Some(now);
                PollAction { emit: Some(MqttEvent::Connected), wait_secs: 0 }
            },
            PollEvent::Publish { topic, payload } => PollAction {
                emit: Some(MqttEvent::Message { topic, payload }),
                wait_secs: 0,
            },
            PollEvent::OtherIncoming => PollAction { emit: None, wait_secs: 0 },
            PollEvent::Outgoing => PollAction { emit: None, wait_secs: 0 },
            PollEvent::Failed => PollAction {
                emit: Some(MqttEvent::Disconnected),
                wait_secs: RECONNECT_DELAY_SECS,
            },
        }
    }

    /// The status message to publish at shutdown. Only a node that was ever
    /// connected says that it goes offline.
    pub fn farewell(&self, now: Timestamp) -> (r: Option<Outgoing<NodeStatusEnvelope>>)
        ensures
            r is Some <==> self.last_connected_at is Some,
            r matches Some(o) ==> {
                &&& o.goes_to(
                    status_topic_of(self.env_prefix@, self.node_id@),
                    QoS::AtLeastOnce,
                    true,
                )
                &&& is_offline(o.message, self.session_id@, self.last_connected_at->0, now)
            },
    {
        match self.last_connected_at {
            Some(last_online) => Some(
                Outgoing {
                    topic: self.status_topic(),
                    qos: QoS::AtLeastOnce,
                    retain: true,
                    message: NodeStatusEnvelope {
                        ts: now,
                        data: StatusData::Offline(
                            OfflineStatusData { last_session: self.session_id.clone(), last_online },
                        ),
                    },
                },
            ),
            None => None,
        }
    }

    /// Whether to go on flushing at shutdown.
    pub fn keeps_flushing(event: FlushEvent) -> (r: bool)
        ensures
            r <==> event == FlushEvent::Other,
    {
        match event {
            FlushEvent::Other => true,
            FlushEvent::DisconnectSent => false,
            FlushEvent::Failed => false,
            FlushEvent::TimedOut => false,
        }
    }
}

/// When the node was last connected, after one more event.
pub open spec fn connected_after(
    last: Option<Timestamp>,
    event: PollEvent,
    now: Timestamp,
) -> Option<Timestamp> {
    if event is ConnAck {
        Some(now)
    } else {
        last
    }
}

/// When the node was last connected, after a run of events.
pub open spec fn connected_after_all(
    last: Option<Timestamp>,
    events: Seq<(PollEvent, Timestamp)>,
) -> Option<Timestamp>
    decreases events.len(),
{
    if events.len() == 0 {
        last
    } else {
        connected_after(
            connected_after_all(last, events.drop_last()),
            events.last().0,
            events.last().1,
        )
    }
}

/// A new transport says at its shutdown that it goes offline exactly where it was
/// connected before: there are no offline messages of sessions that never came
/// online.
pub proof fn only_connected_sessions_say_farewell(events: Seq<(PollEvent, Timestamp)>)
    ensures
        connected_after_all(None, events) is Some <==> exists|i: int|
            0 <= i < events.len() && (#[trigger] events[i]).0 is ConnAck,
    decreases events.len(),
{
    if events.len() > 0 {
        let init = events.drop_last();
        only_connected_sessions_say_farewell(init);
        assert(events.last() == events[events.len() - 1]);
        if events.last().0 !is ConnAck {
            if connected_after_all(None, events) is Some {
                let i = choose|i: int| 0 <= i < init.len() && (#[trigger] init[i]).0 is ConnAck;
                assert(events[i] == init[i]);
            }
            if exists|i: int| 0 <= i < events.len() && (#[trigger] events[i]).0 is ConnAck {
                let i = choose|i: int| 0 <= i < events.len() && (#[trigger] events[i]).0 is ConnAck;
                assert(init[i] == events[i]);
            }
        }
    }
}

// ---------------------------------------------------------------------------
// What the operations promise
// ---------------------------------------------------------------------------

/// The last will of a new transport tells the time that the clock showed when the
/// transport was made, both as the time of the message and as the time when the node was
/// last online, and the session that was drawn for it. It goes to the node's status
/// topic, where it is retained.
pub proof fn last_will_tells_the_time_and_session(
    config: &MqttConfig,
    node_id: &str,
    r: Result<(MqttTransport, ConnectOptions), TransportError>,
)
    requires
        call_ensures(MqttTransport::new, (config, node_id), r),
    ensures
        r matches Ok((t, o)) ==> {
            let will = o.last_will;
            &&& will.message.ts.was_shown()
            &&& will.message.data matches StatusData::Offline(d)
            &&& d.last_online == will.message.ts
            &&& d.last_session@ == t.session_id@
            &&& is_drawn_session(t.session_id@)
            &&& will.topic@ == config.env_prefix@ + "/nodes/"@ + node_id@ + "/status"@
            &&& will.retain
            &&& will.qos == QoS::AtLeastOnce
        },
{
}

/// A transport can be made of every node ID and prefix that are not empty and hold no
/// character with a meaning in topics, and of no others. It connects to the configured
/// broker under the node's own ID, keeps its session there, and was never connected yet.
pub proof fn transport_connects_as_its_node(
    config: &MqttConfig,
    node_id: &str,
    r: Result<(MqttTransport, ConnectOptions), TransportError>,
)
    requires
        call_ensures(MqttTransport::new, (config, node_id), r),
    ensures
        r is Ok <==> node_id@.len() > 0 && config.env_prefix@.len() > 0 && (forall|i: int|
            0 <= i < node_id@.len() ==> (#[trigger] node_id@[i]) != '+' && node_id@[i] != '#'
                && node_id@[i] != '/' && node_id@[i] != '\0') && (forall|i: int|
            0 <= i < config.env_prefix@.len() ==> (#[trigger] config.env_prefix@[i]) != '+'
                && config.env_prefix@[i] != '#' && config.env_prefix@[i] != '/'
                && config.env_prefix@[i] != '\0'),
        r matches Ok((t, o)) ==> {
            &&& t.node_id@ == node_id@
            &&& t.env_prefix@ == config.env_prefix@
            &&& t.last_connected_at is None
            &&& o.client_id@ == node_id@
            &&& o.host@ == config.host@
            &&& o.port == config.port
            &&& o.keep_alive_secs == 30
            &&& !o.clean_session
        },
{
    let e = config.env_prefix@;
    let n = node_id@;
    if is_segment(n) {
        assert forall|i: int| 0 <= i < n.len() implies (#[trigger] n[i]) != '+' && n[i] != '#'
            && n[i] != '/' && n[i] != '\0' by {
            assert(!is_forbidden(n[i]));
        }
    }
    if is_segment(e) {
        assert forall|i: int| 0 <= i < e.len() implies (#[trigger] e[i]) != '+' && e[i] != '#'
            && e[i] != '/' && e[i] != '\0' by {
            assert(!is_forbidden(e[i]));
        }
    }
}

proof fn lemma_first_forbidden_is_first(s: Seq<char>, i: int)
    requires
        0 <= i < s.len(),
        is_forbidden(s[i]),
        forall|j: int| 0 <= j < i ==> !is_forbidden(#[trigger] s[j]),
    ensures
        first_forbidden(s) == Some(s[i]),
    decreases s.len(),
{
    let t = s.drop_last();
    if i < t.len() {
        assert forall|j: int| 0 <= j < i implies !is_forbidden(#[trigger] t[j]) by {
            assert(t[j] == s[j]);
        }
        lemma_first_forbidden_is_first(t, i);
    } else {
        lemma_no_forbidden(t);
    }
}

proof fn lemma_no_forbidden(s: Seq<char>)
    requires
        forall|j: int| 0 <= j < s.len() ==> !is_forbidden(#[trigger] s[j]),
    ensures
        first_forbidden(s) is None,
    decreases s.len(),
{
    if s.len() > 0 {
        let t = s.drop_last();
        assert forall|j: int| 0 <= j < t.len() implies !is_forbidden(#[trigger] t[j]) by {
            assert(t[j] == s[j]);
        }
        lemma_no_forbidden(t);
    }
}

/// A topic segment is refused where it is empty, and where it holds a plus or number
/// sign, a slash or a NUL; the first of those is named in the error, and so is the
/// segment.
pub proof fn segments_are_refused_for_their_first_fault(
    value: &str,
    name: &str,
    r: Result<(), TransportError>,
)
    requires
        call_ensures(validate_topic_segment, (value, name), r),
    ensures
        value@.len() == 0 ==> (r matches Err(TransportError::InvalidConfig(m)) && m@ == name@
            + " must not be empty"@),
        forall|i: int|
            0 <= i < value@.len() && ((#[trigger] value@[i]) == '+' || value@[i] == '#'
                || value@[i] == '/' || value@[i] == '\0') && (forall|j: int|
                0 <= j < i ==> (#[trigger] value@[j]) != '+' && value@[j] != '#' && value@[j] != '/'
                    && value@[j] != '\0') ==> (r matches Err(TransportError::InvalidConfig(m))
                && m@ == name@ + " contains forbidden MQTT character: '"@ + seq![value@[i]]
                + "'"@),
        value@.len() > 0 && (forall|i: int|
            0 <= i < value@.len() ==> (#[trigger] value@[i]) != '+' && value@[i] != '#'
                && value@[i] != '/' && value@[i] != '\0') ==> r is Ok,
{
    let s = value@;
    assert forall|i: int|
        0 <= i < s.len() && ((#[trigger] s[i]) == '+' || s[i] == '#' || s[i] == '/' || s[i]
            == '\0') && (forall|j: int|
            0 <= j < i ==> (#[trigger] s[j]) != '+' && s[j] != '#' && s[j] != '/' && s[j]
                != '\0') implies (r matches Err(TransportError::InvalidConfig(m)) && m@ == name@
        + " contains forbidden MQTT character: '"@ + seq![s[i]] + "'"@) by {
        assert(is_forbidden(s[i]));
        lemma_first_forbidden_is_first(s, i);
    }
}

/// The topics of a node, as they are written.
pub proof fn topics_are_written_out(
    t: &MqttTransport,
    name: &str,
    cmd: &str,
    suffix: &str,
    telemetry: String,
    command: String,
    prefix: String,
    status: String,
)
    requires
        call_ensures(MqttTransport::telemetry_topic, (t, name), telemetry),
        call_ensures(MqttTransport::command_topic, (t, cmd, suffix), command),
        call_ensures(MqttTransport::command_prefix, (t,), prefix),
        call_ensures(MqttTransport::status_topic, (t,), status),
    ensures
        telemetry@ == t.env_prefix@ + "/nodes/"@ + t.node_id@ + "/telemetry/"@ + name@,
        status@ == t.env_prefix@ + "/nodes/"@ + t.node_id@ + "/status"@,
        prefix@ == t.env_prefix@ + "/nodes/"@ + t.node_id@ + "/cmnd/"@,
        suffix@.len() > 0 ==> command@ == t.env_prefix@ + "/nodes/"@ + t.node_id@ + "/cmnd/"@
            + cmd@ + "/"@ + suffix@,
        suffix@.len() == 0 && cmd@.len() > 0 ==> command@ == t.env_prefix@ + "/nodes/"@ + t.node_id@
            + "/cmnd/"@ + cmd@,
        suffix@.len() == 0 && cmd@.len() == 0 ==> command@ == t.env_prefix@ + "/nodes/"@
            + t.node_id@ + "/cmnd"@,
{
}

/// A session ID is six lower-case hexadecimal digits, two for each byte in turn, and two
/// different draws of three bytes never give the same one.
pub proof fn session_ids_tell_draws_apart(a: [u8; 3], b: [u8; 3], r: String, s: String)
    requires
        call_ensures(session_id_from, (a,), r),
        call_ensures(session_id_from, (b,), s),
    ensures
        r@.len() == 6,
        forall|i: int| 0 <= i < 6 ==> '0' <= #[trigger] r@[i] <= '9' || 'a' <= r@[i] <= 'f',
        r@ == s@ ==> a@ == b@,
{
    text::hex_tells_bytes_apart(a[0], b[0]);
    text::hex_tells_bytes_apart(a[1], b[1]);
    text::hex_tells_bytes_apart(a[2], b[2]);
    if r@ == s@ {
        assert(r@.subrange(0, 2) =~= text::hex_byte(a[0]));
        assert(r@.subrange(2, 4) =~= text::hex_byte(a[1]));
        assert(r@.subrange(4, 6) =~= text::hex_byte(a[2]));
        assert(s@.subrange(0, 2) =~= text::hex_byte(b[0]));
        assert(s@.subrange(2, 4) =~= text::hex_byte(b[1]));
        assert(s@.subrange(4, 6) =~= text::hex_byte(b[2]));
        assert(a@ =~= b@);
    }
}

/// An accepted connection is announced and its time kept, a failed one is announced and
/// followed by a pause of a second, a message is passed on as it came, and all else goes
/// by unnoticed. The node's names and session stay.
pub proof fn polls_announce_what_happened(
    t: &mut MqttTransport,
    event: PollEvent,
    now: Timestamp,
    r: PollAction,
)
    requires
        call_ensures(MqttTransport::on_poll, (t, event, now), r),
    ensures
        event is ConnAck ==> r.emit == Some(MqttEvent::Connected) && final(t).last_connected_at
            == Some(now),
        event !is ConnAck ==> final(t).last_connected_at == old(t).last_connected_at,
        event is Failed ==> r.emit == Some(MqttEvent::Disconnected) && r.wait_secs == 1,
        event !is Failed ==> r.wait_secs == 0,
        event matches PollEvent::Publish { topic, payload } ==> r.emit == Some(
            MqttEvent::Message { topic, payload },
        ),
        event is OtherIncoming || event is Outgoing ==> r.emit is None,
        final(t).node_id == old(t).node_id,
        final(t).env_prefix == old(t).env_prefix,
        final(t).session_id == old(t).session_id,
{
}

/// A transport that was connected says at its shutdown, on its status topic and retained,
/// that its session is offline and when it last came online; one that never was says
/// nothing.
pub proof fn farewell_tells_the_last_connection(
    t: &MqttTransport,
    now: Timestamp,
    r: Option<Outgoing<NodeStatusEnvelope>>,
)
    requires
        call_ensures(MqttTransport::farewell, (t, now), r),
    ensures
        t.last_connected_at is None ==> r is None,
        t.last_connected_at matches Some(last) ==> {
            &&& r matches Some(o)
            &&& o.topic@ == t.env_prefix@ + "/nodes/"@ + t.node_id@ + "/status"@
            &&& o.retain
            &&& o.qos == QoS::AtLeastOnce
            &&& o.message.ts == now
            &&& o.message.data matches StatusData::Offline(d)
            &&& d.last_online == last
            &&& d.last_session@ == t.session_id@
        },
{
}

/// The time of the last accepted connection is kept over everything that follows it until
/// the next one.
pub proof fn last_connection_is_kept(
    events: Seq<(PollEvent, Timestamp)>,
    last: Option<Timestamp>,
    i: int,
)
    requires
        0 <= i < events.len(),
        events[i].0 is ConnAck,
        forall|j: int| i < j < events.len() ==> (#[trigger] events[j]).0 !is ConnAck,
    ensures
        connected_after_all(last, events) == Some(events[i].1),
    decreases events.len(),
{
    if i < events.len() - 1 {
        let init = events.drop_last();
        assert(events[events.len() - 1].0 !is ConnAck);
        assert forall|j: int| i < j < init.len() implies (#[trigger] init[j]).0 !is ConnAck by {
            assert(init[j] == events[j]);
        }
        last_connection_is_kept(init, last, i);
    }
}

/// Flushing ends with the disconnect packet, a failure or the end of its time, and with
/// nothing else.
pub proof fn flushing_ends_with_the_disconnect(event: FlushEvent, r: bool)
    requires
        call_ensures(MqttTransport::keeps_flushing, (event,), r),
    ensures
        event == FlushEvent::DisconnectSent || event == FlushEvent::Failed || event
            == FlushEvent::TimedOut ==> !r,
        event == FlushEvent::Other ==> r,
{
}

/// The errors of the transport, in words.
pub proof fn transport_errors_in_words(e: &TransportError, r: String)
    requires
        call_ensures(TransportError::to_string, (e,), r),
    ensures
        *e matches TransportError::Tls(m) ==> r@ == "TLS error: "@ + m@,
        *e matches TransportError::Client(m) ==> r@ == "MQTT client error: "@ + m@,
        *e matches TransportError::InvalidConfig(m) ==> r@ == "invalid config: "@ + m@,
{
}

/// A transport that is put together tells the time and the session that it is given, and
/// is refused for the node ID before it is for the prefix.
pub proof fn assembled_transports_keep_what_they_are_given(
    config: &MqttConfig,
    node_id: &str,
    session_id: String,
    now: Timestamp,
    r: Result<(MqttTransport, ConnectOptions), TransportError>,
)
    requires
        call_ensures(MqttTransport::assemble, (config, node_id, session_id, now), r),
    ensures
        r matches Ok((t, o)) ==> {
            &&& t.session_id@ == session_id@
            &&& t.last_connected_at is None
            &&& o.last_will.message.ts == now
            &&& o.last_will.message.data matches StatusData::Offline(d)
            &&& d.last_online == now
            &&& d.last_session@ == session_id@
            &&& o.last_will.topic@ == config.env_prefix@ + "/nodes/"@ + node_id@ + "/status"@
            &&& o.last_will.retain
        },
        node_id@.len() == 0 ==> (r matches Err(TransportError::InvalidConfig(m)) && m@
            == "node_id (certificate CN)"@ + " must not be empty"@),
        is_segment(node_id@) && config.env_prefix@.len() == 0 ==> (r matches Err(
            TransportError::InvalidConfig(m),
        ) && m@ == "env_prefix"@ + " must not be empty"@),
{
}

/// A generated session ID is made of three bytes that the generator gave.
pub proof fn generated_sessions_are_drawn(r: String)
    requires
        call_ensures(generate_session_id, (), r),
    ensures
        exists|bytes: [u8; 3]|
            #[trigger] were_drawn(bytes) && r@ == text::hex_byte(bytes[0]) + text::hex_byte(
                bytes[1],
            ) + text::hex_byte(bytes[2]),
        r@.len() == 6,
{
    let bytes = choose|bytes: [u8; 3]| #[trigger] were_drawn(bytes) && r@ == session_text(bytes);
    assert(were_drawn(bytes));
}

} // verus!
