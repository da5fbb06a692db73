//! The ping sensor: reads the statistics that a running `ping` prints.

use regex::Regex;
use vstd::prelude::*;
use vstd::string::*;

use super::Sensor;
use crate::config::PingSensorConfig;
use crate::messages::telemetry::PingTelemetry;
use crate::number::{self, Binary64, FloatText};
use crate::text::{self, parse_unsigned};

verus! {

/// Ping sensor that keeps a `ping` subprocess running, periodically asks it for
/// intermediate statistics, and parses the output to extract latency and packet
/// loss.
#[derive(Debug)]
pub struct PingSensor {
    pub host: String,
    pub interface: String,
    pub interval_s: Binary64,
}

impl PingSensor {
    pub fn new(config: &PingSensorConfig, interface: String, default_interval: Binary64) -> (r:
        Self)
        ensures
            r.host@ == config.host@,
            r.interface == interface,
            r.interval_s == super::interval_or(config.interval_s, default_interval),
    {
        Self {
            host: config.host.clone(),
            interface,
            interval_s: super::choose_interval(config.interval_s, default_interval),
        }
    }

    /// The arguments of the `ping` program.
    pub fn arguments(&self) -> (r: Vec<String>)
        ensures
            text::texts(r@) == ping_arguments(self.host@, self.interface@),
    {
        let mut args: Vec<String> = Vec::new();
        if !self.interface.as_str().is_empty() {
            args.push("-I".to_string());
            args.push(self.interface.clone());
        }
        args.push("-q".to_string());
        args.push("-i0.2".to_string());
        args.push(self.host.clone());
        assert(text::texts(args@) =~= ping_arguments(self.host@, self.interface@));
        args
    }
}

/// The arguments of the `ping` program: quiet, five packets a second, bound to the
/// interface where one is given.
pub open spec fn ping_arguments(host: Seq<char>, interface: Seq<char>) -> Seq<Seq<char>> {
    if interface.len() == 0 {
        seq!["-q"@, "-i0.2"@, host]
    } else {
        seq!["-I"@, interface, "-q"@, "-i0.2"@, host]
    }
}

impl Sensor for PingSensor {
    open spec fn label(&self) -> Seq<char> {
        "ping"@
    }

    fn name(&self) -> (r: &str) {
        "ping"
    }
}

// ---------------------------------------------------------------------------
// Statistics lines
// ---------------------------------------------------------------------------

/// Intermediate parsed stats from a ping statistics line.
#[derive(Debug, Clone)]
pub struct PingStats {
    pub packets_rcvd: u64,
    pub packets_sent: u64,
    pub latency_ms: Option<FloatText>,
}

/// The pattern of a ping statistics line:
/// "5/10 packets, 50% loss, min/avg/ewma/max = 10.5/25.3/20.1/45.2 ms"
pub const PING_PATTERN: &'static str =
    "(\\d+)/(\\d+) packets, \\d+% loss(?:, min/avg/ewma/max = [\\d.]+/[\\d.]+/([\\d.]+)/[\\d.]+ ms)?";

/// A regular expression for ping statistics lines, by its pattern.
#[derive(Debug)]
pub struct PingRegex {
    pub pattern: String,
}

/// What the groups of a regular expression capture of a text: the whole match first,
/// and `None` for a group that takes no part in it.
pub type Groups = Vec<Option<String>>;

/// The characters of captured groups.
pub open spec fn group_texts(groups: Seq<Option<String>>) -> Seq<Option<Seq<char>>> {
    Seq::new(groups.len(), |i: int| text::opt_text(groups[i]))
}

/// The groups of the leftmost match of `pattern` in `line`, or `None` where nothing
/// matches or the pattern is not one.
pub uninterp spec fn regex_captures(pattern: Seq<char>, line: Seq<char>) -> Option<
    Seq<Option<Seq<char>>>,
>;

/// `regex::Regex::new` and `regex::Regex::captures`: the groups that a pattern
/// captures of a line are a function of the two. What they are is left to the `regex`
/// crate.
#[verifier::external_body]
fn captures(pattern: &str, line: &str) -> (r: Option<Groups>)
    ensures
        match r {
            Some(groups) => regex_captures(pattern@, line@) == Some(group_texts(groups@)),
            None => regex_captures(pattern@, line@) is None,
        },
{
    let found = Regex::new(pattern).ok()?.captures(line)?;
    Some(found.iter().map(|m| m.map(|m| m.as_str().to_string())).collect())
}

/// Build the regex for parsing ping statistics output.
pub fn build_ping_regex() -> (r: PingRegex)
    ensures
        r.pattern@ == PING_PATTERN@,
{
    PingRegex { pattern: PING_PATTERN.to_string() }
}

/// The text that group `i` captured.
pub open spec fn group(groups: Seq<Option<Seq<char>>>, i: int) -> Option<Seq<char>> {
    if 0 <= i < groups.len() {
        groups[i]
    } else {
        None
    }
}

/// The number that a group captured.
pub open spec fn group_number(groups: Seq<Option<Seq<char>>>, i: int) -> Option<nat> {
    match group(groups, i) {
        Some(s) => text::unsigned_value(s, u64::MAX as nat),
        None => None,
    }
}

/// The latency that a group captured.
pub open spec fn group_latency(groups: Seq<Option<Seq<char>>>, i: int) -> Option<Seq<char>> {
    match group(groups, i) {
        Some(s) => if number::is_float_notation(s) {
            Some(s)
        } else {
            None
        },
        None => None,
    }
}

/// The characters of an optional latency.
pub open spec fn latency_text(latency: Option<FloatText>) -> Option<Seq<char>> {
    match latency {
        Some(f) => Some(f@),
        None => None,
    }
}

/// `r` is what the captured groups say: the first two are the packet counts, without
/// which there are no statistics; the third is the latency, which may be absent.
pub open spec fn stats_of(
    captured: Option<Seq<Option<Seq<char>>>>,
    r: Option<PingStats>,
) -> bool {
    match captured {
        Some(groups) => match (group_number(groups, 1), group_number(groups, 2)) {
            (Some(rcvd), Some(sent)) => {
                &&& r matches Some(stats)
                &&& stats.packets_rcvd == rcvd
                &&& stats.packets_sent == sent
                &&& latency_text(stats.latency_ms) == group_latency(groups, 3)
            },
            _ => r is None,
        },
        None => r is None,
    }
}

fn read_group_number(groups: &Groups, i: usize) -> (r: Option<u64>)
    ensures
        match r {
            Some(v) => group_number(group_texts(groups@), i as int) == Some(v as nat),
            None => group_number(group_texts(groups@), i as int) is None,
        },
{
    if i >= groups.len() {
        return None;
    }
    match &groups[i] {
        Some(s) => parse_unsigned(s.as_str(), u64::MAX),
        None => None,
    }
}

fn read_group_latency(groups: &Groups, i: usize) -> (r: Option<FloatText>)
    ensures
        latency_text(r) == group_latency(group_texts(groups@), i as int),
{
    if i >= groups.len() {
        return None;
    }
    match &groups[i] {
        Some(s) => FloatText::parse(s.as_str()),
        None => None,
    }
}

/// The statistics that the captured groups of a line stand for.
pub fn stats_from_groups(captured: &Option<Groups>) -> (r: Option<PingStats>)
    ensures
        stats_of(
            match *captured {
                Some(groups) => Some(group_texts(groups@)),
                None => None,
            },
            r,
        ),
{
    match captured {
        Some(groups) => {
            let packets_rcvd = match read_group_number(groups, 1) {
                Some(v) => v,
                None => {
                    return None;
                },
            };
            let packets_sent = match read_group_number(groups, 2) {
                Some(v) => v,
                None => {
                    return None;
                },
            };
            let latency_ms = read_group_latency(groups, 3);
            Some(PingStats { packets_rcvd, packets_sent, latency_ms })
        },
        None => None,
    }
}

/// Parse a single line of ping stderr output. Returns parsed stats if the line
/// matches the expected statistics format.
pub fn parse_ping_line(re: &PingRegex, line: &str) -> (r: Option<PingStats>)
    ensures
        stats_of(regex_captures(re.pattern@, line@), r),
{
    stats_from_groups(&captures(re.pattern.as_str(), line))
}

// ---------------------------------------------------------------------------
// Readings
// ---------------------------------------------------------------------------

/// `a - b`, but not below zero.
pub open spec fn monus(a: u64, b: u64) -> int {
    if a >= b {
        a - b
    } else {
        0
    }
}

/// The share of lost packets in percent, rounded up.
pub open spec fn loss_percent(sent: int, rcvd: int) -> int {
    if sent == 0 || rcvd >= sent {
        0
    } else {
        (100 * (sent - rcvd) + sent - 1) / sent
    }
}

/// The loss is a percentage: it is zero exactly where no packet is missing, and a
/// hundred where none came back. It is rounded up, by less than one percent.
pub proof fn loss_is_a_percentage(sent: int, rcvd: int)
    requires
        0 <= sent,
        0 <= rcvd,
    ensures
        0 <= loss_percent(sent, rcvd) <= 100,
        loss_percent(sent, rcvd) == 0 <==> sent == 0 || rcvd >= sent,
        sent > 0 && rcvd == 0 ==> loss_percent(sent, rcvd) == 100,
        rcvd < sent ==> 100 * (sent - rcvd) <= loss_percent(sent, rcvd) * sent < 100 * (sent - rcvd)
            + sent,
{
    if sent > 0 && rcvd < sent {
        let a = 100 * (sent - rcvd) + sent - 1;
        let q = a / sent;
        assert(q * sent <= a < q * sent + sent) by (nonlinear_arith)
            requires
                sent > 0,
                q == a / sent,
        ;
        assert(q <= 100) by (nonlinear_arith)
            requires
                q * sent <= a,
                a < 101 * sent,
                sent > 0,
        ;
        assert(q >= 1) by (nonlinear_arith)
            requires
                a < q * sent + sent,
                a >= sent,
                sent > 0,
        ;
        if rcvd == 0 {
            assert(q >= 100) by (nonlinear_arith)
                requires
                    a < q * sent + sent,
                    a >= 100 * sent,
                    sent > 0,
            ;
        }
    }
}

/// Calculate loss percentage from delta sent/received counts.
///
/// Returns 0 if no packets were sent or if received >= sent.
/// Uses ceiling to round up.
pub fn calculate_loss_percent(delta_sent: u64, delta_rcvd: u64) -> (r: u8)
    ensures
        r == loss_percent(delta_sent as int, delta_rcvd as int),
        r <= 100,
{
    if delta_sent == 0 || delta_rcvd >= delta_sent {
        return 0;
    }
    let missing: u128 = (delta_sent - delta_rcvd) as u128;
    let sent: u128 = delta_sent as u128;
    proof {
        loss_is_a_percentage(delta_sent as int, delta_rcvd as int);
    }
    ((100 * missing + sent - 1) / sent) as u8
}

/// The reading that statistics give, against the counts of the previous ones.
pub open spec fn reading_of(stats: PingStats, prev_sent: u64, prev_rcvd: u64, r: PingTelemetry) -> bool {
    let loss = loss_percent(
        monus(stats.packets_sent, prev_sent),
        monus(stats.packets_rcvd, prev_rcvd),
    );
    &&& r.loss_percent == loss
    &&& r.reachable == (stats.latency_ms is Some && loss < 100)
    &&& r.latency_ms@ == match stats.latency_ms {
        Some(f) => f@,
        None => "0"@,
    }
}

/// Compute a PingTelemetry from parsed stats, using delta-based loss calculation.
///
/// Tracks previous sent/received counts to calculate loss over the most recent
/// interval rather than cumulative loss.
pub fn compute_reading(stats: &PingStats, prev_sent: &mut u64, prev_rcvd: &mut u64) -> (r:
    PingTelemetry)
    ensures
        *final(prev_sent) == stats.packets_sent,
        *final(prev_rcvd) == stats.packets_rcvd,
        reading_of(*stats, *old(prev_sent), *old(prev_rcvd), r),
{
    let delta_sent: u64 = if stats.packets_sent >= *prev_sent {
        stats.packets_sent - *prev_sent
    } else {
        0
    };
    let delta_rcvd: u64 = if stats.packets_rcvd >= *prev_rcvd {
        stats.packets_rcvd - *prev_rcvd
    } else {
        0
    };
    *prev_sent = stats.packets_sent;
    *prev_rcvd = stats.packets_rcvd;
    let loss_percent: u8 = calculate_loss_percent(delta_sent, delta_rcvd);
    let reachable = stats.latency_ms.is_some() && loss_percent < 100;
    let latency_ms = match &stats.latency_ms {
        Some(f) => f.clone(),
        None => FloatText::zero(),
    };
    PingTelemetry { reachable, latency_ms, loss_percent }
}

/// The loss that is calculated is the share of the missing packets in percent, rounded
/// up: nothing where no packet is missing, something where one is, and a hundred where
/// none came back.
pub proof fn loss_is_the_missing_share(sent: u64, rcvd: u64, loss: u8)
    requires
        call_ensures(calculate_loss_percent, (sent, rcvd), loss),
    ensures
        loss <= 100,
        rcvd >= sent ==> loss == 0,
        rcvd < sent ==> 100 * (sent - rcvd) <= loss * sent < 100 * (sent - rcvd) + sent,
        rcvd < sent ==> loss > 0,
        sent > 0 && rcvd == 0 ==> loss == 100,
{
    loss_is_a_percentage(sent as int, rcvd as int);
    assert(loss * sent == loss_percent(sent as int, rcvd as int) * (sent as int));
}

/// A host is never reachable with all packets lost. Where packets went out since the
/// previous statistics and none came back, all of them are lost, so the host is
/// unreachable even if the statistics still show a latency.
pub proof fn silent_host_is_unreachable(
    stats: &PingStats,
    prev_sent: &mut u64,
    prev_rcvd: &mut u64,
    r: PingTelemetry,
)
    requires
        call_ensures(compute_reading, (stats, prev_sent, prev_rcvd), r),
    ensures
        r.loss_percent == 100 ==> !r.reachable,
        stats.packets_sent > *old(prev_sent) && stats.packets_rcvd <= *old(prev_rcvd)
            ==> r.loss_percent == 100 && !r.reachable,
{
    loss_is_a_percentage(
        monus(stats.packets_sent, *prev_sent),
        monus(stats.packets_rcvd, *prev_rcvd),
    );
}

/// A host is reachable exactly where the statistics show a latency, which the reading
/// then tells, and not all packets of the interval are lost. Without a latency the
/// reading tells none.
pub proof fn answering_host_is_reachable(
    stats: &PingStats,
    prev_sent: &mut u64,
    prev_rcvd: &mut u64,
    r: PingTelemetry,
)
    requires
        call_ensures(compute_reading, (stats, prev_sent, prev_rcvd), r),
    ensures
        stats.latency_ms is None ==> !r.reachable && r.latency_ms@ == "0"@,
        stats.latency_ms matches Some(f) ==> r.latency_ms@ == f@ && (r.reachable
            <==> r.loss_percent != 100),
{
    loss_is_a_percentage(
        monus(stats.packets_sent, *prev_sent),
        monus(stats.packets_rcvd, *prev_rcvd),
    );
}

/// The loss counts the packets since the previous statistics only, and the counts are
/// kept for the next ones: of two statistics in a row the second reading shows the share
/// of the packets between the two that are missing, however many were lost before.
pub proof fn loss_counts_from_the_previous_statistics(
    first: &PingStats,
    second: &PingStats,
    sent: &mut u64,
    rcvd: &mut u64,
    next_sent: &mut u64,
    next_rcvd: &mut u64,
    r1: PingTelemetry,
    r2: PingTelemetry,
)
    requires
        call_ensures(compute_reading, (first, sent, rcvd), r1),
        *old(next_sent) == *final(sent),
        *old(next_rcvd) == *final(rcvd),
        call_ensures(compute_reading, (second, next_sent, next_rcvd), r2),
        first.packets_sent <= second.packets_sent,
        first.packets_rcvd <= second.packets_rcvd,
    ensures
        ({
            let out = second.packets_sent - first.packets_sent;
            let back = second.packets_rcvd - first.packets_rcvd;
            &&& back >= out ==> r2.loss_percent == 0
            &&& back < out ==> 100 * (out - back) <= r2.loss_percent * out < 100 * (out - back)
                + out
        }),
{
    loss_is_a_percentage(
        second.packets_sent - first.packets_sent,
        second.packets_rcvd - first.packets_rcvd,
    );
}

// ---------------------------------------------------------------------------
// The subprocess
// ---------------------------------------------------------------------------

/// How a ping subprocess came to its end.
#[derive(Debug)]
pub enum PingExit {
    Cancelled,
    ProcessExited(Option<i32>),
    SpawnError(String),
}

impl PingExit {
    /// Whether another subprocess is to be started after a second.
    pub fn restarts(&self) -> (r: bool)
        ensures
            r <==> !(self is Cancelled),
    {
        match self {
            PingExit::Cancelled => false,
            PingExit::ProcessExited(_) => true,
            PingExit::SpawnError(_) => true,
        }
    }
}

/// What happens while the subprocess runs.
#[derive(Debug)]
pub enum PingEvent {
    /// The sensor is to stop.
    Cancelled,
    /// The process has exited, with this code.
    Exited(Option<i32>),
    /// The process has written a line.
    Line(String),
    /// The process has closed its output.
    Eof,
    /// Its output could not be read.
    ReadError,
}

/// What the sensor does about it.
#[derive(Debug)]
pub struct PingAction {
    /// A new reading to store.
    pub reading: Option<PingTelemetry>,
    /// The subprocess is over; where it was cancelled it has to be killed.
    pub exit: Option<PingExit>,
}

/// The sensor's state while one subprocess runs.
#[derive(Debug)]
pub struct PingSession {
    pub regex: PingRegex,
    pub prev_sent: u64,
    pub prev_rcvd: u64,
    /// The output is still worth reading.
    pub stderr_open: bool,
}

impl PingSession {
    pub fn new() -> (r: PingSession)
        ensures
            r.regex.pattern@ == PING_PATTERN@,
            r.prev_sent == 0,
            r.prev_rcvd == 0,
            r.stderr_open,
    {
        PingSession { regex: build_ping_regex(), prev_sent: 0, prev_rcvd: 0, stderr_open: true }
    }

    /// `self` goes over to `after` on a line with statistics `stats`, giving `action`.
    pub open spec fn takes_stats(
        self,
        stats: Option<PingStats>,
        after: PingSession,
        action: PingAction,
    ) -> bool {
        &&& action.exit is None
        &&& after.regex == self.regex
        &&& after.stderr_open == self.stderr_open
        &&& match stats {
            Some(s) => {
                &&& after.prev_sent == s.packets_sent
                &&& after.prev_rcvd == s.packets_rcvd
                &&& action.reading matches Some(r)
                &&& reading_of(s, self.prev_sent, self.prev_rcvd, r)
            },
            None => action.reading is None && after.prev_sent == self.prev_sent && after.prev_rcvd
                == self.prev_rcvd,
        }
    }

    /// Take the statistics of a line, if it has any.
    pub fn on_stats(&mut self, stats: Option<PingStats>) -> (r: PingAction)
        ensures
            old(self).takes_stats(stats, *final(self), r),
    {
        match stats {
            Some(s) => {
                let mut sent: u64 = self.prev_sent;
                let mut rcvd: u64 = self.prev_rcvd;
                let reading = compute_reading(&s, &mut sent, &mut rcvd);
                self.prev_sent = sent;
                self.prev_rcvd = rcvd;
                PingAction { reading: Some(reading), exit: None }
            },
            None => PingAction { reading: None, exit: None },
        }
    }

    /// One step of the loop around a subprocess. The host counts as unreachable once
    /// the process is gone.
    pub fn step(&mut self, event: PingEvent) -> (r: PingAction)
        ensures
            match event {
                PingEvent::Line(line) => exists|stats: Option<PingStats>|
                    stats_of(regex_captures(old(self).regex.pattern@, line@), stats)
                        && #[trigger] old(self).takes_stats(stats, *final(self), r),
                PingEvent::Cancelled => {
                    &&& *final(self) == *old(self)
                    &&& r.reading is None
                    &&& r.exit == Some(PingExit::Cancelled)
                },
                PingEvent::Exited(code) => {
                    &&& *final(self) == *old(self)
                    &&& r.reading matches Some(t)
                    &&& t.is_unreachable()
                    &&& r.exit == Some(PingExit::ProcessExited(code))
                },
                PingEvent::Eof => {
                    &&& *final(self) == (PingSession { stderr_open: false, ..*old(self) })
                    &&& r.reading is None
                    &&& r.exit is None
                },
                PingEvent::ReadError => {
                    &&& *final(self) == *old(self)
                    &&& r.reading is None
                    &&& r.exit is None
                },
            },
    {
        match event {
            PingEvent::Line(line) => {
                let stats = parse_ping_line(&self.regex, line.as_str());
                self.on_stats(stats)
            },
            PingEvent::Cancelled => PingAction { reading: None, exit: Some(PingExit::Cancelled) },
            PingEvent::Exited(code) => PingAction {
                reading: Some(PingTelemetry::default()),
                exit: Some(PingExit::ProcessExited(code)),
            },
            PingEvent::Eof => {
                self.stderr_open = false;
                PingAction { reading: None, exit: None }
            },
            PingEvent::ReadError => PingAction { reading: None, exit: None },
        }
    }
}

/// A session counts from zero, so its first reading shows the loss since the process
/// was started.
pub proof fn first_reading_counts_from_the_start(
    fresh: PingSession,
    session: &mut PingSession,
    stats: PingStats,
    action: PingAction,
)
    requires
        call_ensures(PingSession::new, (), fresh),
        *old(session) == fresh,
        call_ensures(PingSession::on_stats, (session, Some(stats)), action),
    ensures
        action.exit is None,
        action.reading matches Some(r) && {
            &&& stats.packets_rcvd >= stats.packets_sent ==> r.loss_percent == 0
            &&& stats.packets_rcvd < stats.packets_sent ==> 100 * (stats.packets_sent
                - stats.packets_rcvd) <= r.loss_percent * stats.packets_sent < 100 * (
            stats.packets_sent - stats.packets_rcvd) + stats.packets_sent
            &&& r.loss_percent == 100 ==> !r.reachable
        },
{
    loss_is_a_percentage(stats.packets_sent as int, stats.packets_rcvd as int);
}

/// Within a session the loss is counted from one statistics line to the next, whatever
/// other lines without statistics come in between, and a line without statistics gives
/// no reading.
pub proof fn session_counts_between_statistics(
    a: &mut PingSession,
    b: &mut PingSession,
    c: &mut PingSession,
    first: PingStats,
    second: PingStats,
    r1: PingAction,
    r2: PingAction,
    r3: PingAction,
)
    requires
        call_ensures(PingSession::on_stats, (a, Some(first)), r1),
        *old(b) == *final(a),
        call_ensures(PingSession::on_stats, (b, None::<PingStats>), r2),
        *old(c) == *final(b),
        call_ensures(PingSession::on_stats, (c, Some(second)), r3),
        first.packets_sent <= second.packets_sent,
        first.packets_rcvd <= second.packets_rcvd,
    ensures
        r2.reading is None && r2.exit is None,
        r3.reading matches Some(r) && {
            let out = second.packets_sent - first.packets_sent;
            let back = second.packets_rcvd - first.packets_rcvd;
            &&& back >= out ==> r.loss_percent == 0
            &&& back < out ==> 100 * (out - back) <= r.loss_percent * out < 100 * (out - back)
                + out
            &&& r.loss_percent == 100 ==> !r.reachable
            &&& r.reachable ==> second.latency_ms is Some
        },
{
    loss_is_a_percentage(
        second.packets_sent - first.packets_sent,
        second.packets_rcvd - first.packets_rcvd,
    );
}

/// Once the process is gone the host counts as unreachable, with all packets lost and no
/// latency, and the process is started again unless the sensor was to stop. Losing its
/// output ends nothing.
pub proof fn dead_process_means_unreachable(
    session: &mut PingSession,
    event: PingEvent,
    action: PingAction,
)
    requires
        call_ensures(PingSession::step, (session, event), action),
    ensures
        event is Exited ==> (action.reading matches Some(r) && !r.reachable && r.loss_percent
            == 100 && r.latency_ms@ == "0"@),
        action.exit is Some <==> event is Exited || event is Cancelled,
        event matches PingEvent::Exited(code) ==> action.exit == Some(PingExit::ProcessExited(code)),
        event is Cancelled ==> action.exit == Some(PingExit::Cancelled) && action.reading is None,
        event is Eof ==> !final(session).stderr_open,
        !(event is Eof) ==> final(session).stderr_open == old(session).stderr_open,
        !(event is Line) && !(event is Exited) ==> action.reading is None,
        !(event is Line) ==> final(session).prev_sent == old(session).prev_sent,
        !(event is Line) ==> final(session).prev_rcvd == old(session).prev_rcvd,
{
}

/// Only a cancelled subprocess is not started again.
pub proof fn cancelled_process_stays_down(exit: &PingExit, r: bool)
    requires
        call_ensures(PingExit::restarts, (exit,), r),
    ensures
        *exit is Cancelled ==> !r,
        *exit is ProcessExited || *exit is SpawnError ==> r,
{
}

/// The host is the last argument; the interface comes in only where one is given, right
/// behind `-I`, which comes first.
pub proof fn ping_is_bound_to_its_interface(sensor: &PingSensor, r: Vec<String>)
    requires
        call_ensures(PingSensor::arguments, (sensor,), r),
    ensures
        r@.len() > 0 && r@.last()@ == sensor.host@,
        sensor.interface@.len() == 0 ==> r@.len() == 3 && r@[0]@ == "-q"@ && r@[1]@ == "-i0.2"@,
        sensor.interface@.len() > 0 ==> r@.len() == 5 && r@[0]@ == "-I"@ && r@[1]@
            == sensor.interface@ && r@[2]@ == "-q"@ && r@[3]@ == "-i0.2"@,
{
    let t = text::texts(r@);
    assert(t.len() == r@.len());
    assert forall|i: int| 0 <= i < r@.len() implies t[i] == (#[trigger] r@[i])@ by {}
}

/// The first number of a statistics line is the packets that came back, the second
/// those that went out. The latency may be absent, the counts may not.
pub proof fn statistics_hold_both_counts(groups: Groups, r: Option<PingStats>)
    requires
        call_ensures(stats_from_groups, (&Some(groups),), r),
    ensures
        r is Some ==> groups@.len() > 2 && groups@[1] is Some && groups@[2] is Some,
        forall|rcvd: u64, sent: u64|
            groups@.len() > 2 && groups@[1] is Some && groups@[2] is Some && groups@[1]->0@
                == #[trigger] text::decimal(rcvd as nat) && groups@[2]->0@
                == #[trigger] text::decimal(sent as nat) ==> (r matches Some(stats)
                && stats.packets_rcvd == rcvd && stats.packets_sent == sent),
        r matches Some(stats) ==> (stats.latency_ms matches Some(f) ==> groups@.len() > 3
            && groups@[3] is Some && groups@[3]->0@ == f@),
        groups@.len() <= 3 || groups@[3] is None ==> (r matches Some(stats)
            ==> stats.latency_ms is None),
{
    let g = group_texts(groups@);
    assert forall|rcvd: u64, sent: u64|
        groups@.len() > 2 && groups@[1] is Some && groups@[2] is Some && groups@[1]->0@
            == #[trigger] text::decimal(rcvd as nat) && groups@[2]->0@ == #[trigger] text::decimal(
            sent as nat,
        ) implies (r matches Some(stats) && stats.packets_rcvd == rcvd && stats.packets_sent
        == sent) by {
        text::written_number_is_read_back(rcvd as nat, u64::MAX as nat);
        text::written_number_is_read_back(sent as nat, u64::MAX as nat);
        assert(g[1] == Some(text::decimal(rcvd as nat)));
        assert(g[2] == Some(text::decimal(sent as nat)));
    }
    if groups@.len() > 3 {
        assert(g[3] == text::opt_text(groups@[3]));
    }
    if groups@.len() > 2 {
        assert(g[1] == text::opt_text(groups@[1]));
        assert(g[2] == text::opt_text(groups@[2]));
    }
}

/// A ping sensor pings the configured host over the given interface, at its own interval
/// or else the default one.
pub proof fn ping_sensors_follow_their_settings(
    config: &PingSensorConfig,
    interface: String,
    default_interval: Binary64,
    r: PingSensor,
)
    requires
        call_ensures(PingSensor::new, (config, interface, default_interval), r),
    ensures
        r.host@ == config.host@,
        r.interface@ == interface@,
        config.interval_s is Some ==> r.interval_s == config.interval_s->0,
        config.interval_s is None ==> r.interval_s == default_interval,
{
}

} // verus!
