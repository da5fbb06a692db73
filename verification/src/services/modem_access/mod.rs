//! Access to the LTE modem: its identification, AT commands, and the queue through
//! which several clients share it.

pub mod dbus;
pub mod fake;

use vstd::prelude::*;
use vstd::string::*;

use crate::text::{
    self, contains_text, join, lines_of, parse_unsigned, split_at_char, starts_with, trim,
};

verus! {

// ---------------------------------------------------------------------------
// Modem types
// ---------------------------------------------------------------------------

/// Supported modem types for LTE telemetry.
#[derive(Debug, Clone, Copy, PartialEq, Eq, Structural)]
pub enum ModemType {
    Simcom7600,
    QuectelEm12,
    QuectelEm06E,
    QuectelEm06GL,
}

impl ModemType {
    pub open spec fn text(self) -> Seq<char> {
        match self {
            ModemType::Simcom7600 => "SIMCOM_7600"@,
            ModemType::QuectelEm12 => "QUECTEL_EM12"@,
            ModemType::QuectelEm06E => "QUECTEL_EM06E"@,
            ModemType::QuectelEm06GL => "QUECTEL_EM06GL"@,
        }
    }

    /// The modem type's name.
    pub fn to_string(&self) -> (r: String)
        ensures
            r@ == self.text(),
    {
        match self {
            ModemType::Simcom7600 => "SIMCOM_7600".to_string(),
            ModemType::QuectelEm12 => "QUECTEL_EM12".to_string(),
            ModemType::QuectelEm06E => "QUECTEL_EM06E".to_string(),
            ModemType::QuectelEm06GL => "QUECTEL_EM06GL".to_string(),
        }
    }
}

/// The modem type that a model string stands for: that of the first known
/// identifier which occurs in it. More specific identifiers come first.
pub open spec fn modem_type_of(model: Seq<char>) -> Option<ModemType> {
    if text::occurs(model, "SIMCOM_SIM7600G-H"@) {
        Some(ModemType::Simcom7600)
    } else if text::occurs(model, "EM12"@) {
        Some(ModemType::QuectelEm12)
    } else if text::occurs(model, "EM060K-GL"@) {
        Some(ModemType::QuectelEm06GL)
    } else if text::occurs(model, "EM06"@) {
        Some(ModemType::QuectelEm06E)
    } else {
        None
    }
}

/// Detect modem type from the model string reported by ModemManager.
///
/// Checks if the model string contains any known modem identifier.
/// More specific identifiers are checked first to avoid false matches.
pub fn detect_modem_type(model: &str) -> (r: Option<ModemType>)
    ensures
        r == modem_type_of(model@),
{
    if contains_text(model, "SIMCOM_SIM7600G-H") {
        Some(ModemType::Simcom7600)
    } else if contains_text(model, "EM12") {
        Some(ModemType::QuectelEm12)
    } else if contains_text(model, "EM060K-GL") {
        Some(ModemType::QuectelEm06GL)
    } else if contains_text(model, "EM06") {
        Some(ModemType::QuectelEm06E)
    } else {
        None
    }
}

// ---------------------------------------------------------------------------
// Errors
// ---------------------------------------------------------------------------

/// Error type for modem operations.
#[derive(Debug)]
pub enum ModemError {
    /// D-Bus communication error.
    Dbus(String),
    /// AT command timed out.
    Timeout,
    /// No modem found on the system.
    NoModem,
    /// Modem model not recognized.
    UnsupportedModem(String),
}

impl ModemError {
    pub open spec fn text(self) -> Seq<char> {
        match self {
            ModemError::Dbus(m) => "D-Bus error: "@ + m@,
            ModemError::Timeout => "AT command timeout"@,
            ModemError::NoModem => "no modem found"@,
            ModemError::UnsupportedModem(m) => "unsupported modem model: "@ + m@,
        }
    }

    /// The error as a message for people.
    pub fn to_string(&self) -> (r: String)
        ensures
            r@ == self.text(),
    {
        match self {
            ModemError::Dbus(m) => join("D-Bus error: ", m.as_str()),
            ModemError::Timeout => "AT command timeout".to_string(),
            ModemError::NoModem => "no modem found".to_string(),
            ModemError::UnsupportedModem(m) => join("unsupported modem model: ", m.as_str()),
        }
    }

    /// A D-Bus error with the given message.
    pub open spec fn is_dbus(self, message: Seq<char>) -> bool {
        self matches ModemError::Dbus(m) && m@ == message
    }
}

impl Clone for ModemError {
    fn clone(&self) -> (r: Self)
        ensures
            r == *self,
    {
        match self {
            ModemError::Dbus(m) => ModemError::Dbus(m.clone()),
            ModemError::Timeout => ModemError::Timeout,
            ModemError::NoModem => ModemError::NoModem,
            ModemError::UnsupportedModem(m) => ModemError::UnsupportedModem(m.clone()),
        }
    }
}

// ---------------------------------------------------------------------------
// Network registration
// ---------------------------------------------------------------------------

/// Network registration status returned by the modem.
#[derive(Debug, Clone, Copy, PartialEq, Eq, Structural)]
pub enum NetworkRegistration {
    NotRegistered,
    RegisteredHome,
    Searching,
    Denied,
    Unknown,
    RegisteredRoaming,
}

impl NetworkRegistration {
    pub open spec fn of_code(code: nat) -> NetworkRegistration {
        if code == 0 {
            NetworkRegistration::NotRegistered
        } else if code == 1 {
            NetworkRegistration::RegisteredHome
        } else if code == 2 {
            NetworkRegistration::Searching
        } else if code == 3 {
            NetworkRegistration::Denied
        } else if code == 5 {
            NetworkRegistration::RegisteredRoaming
        } else {
            NetworkRegistration::Unknown
        }
    }

    /// Parse a numeric registration status code (from AT+CREG? or AT+CEREG?).
    pub fn from_code(code: u8) -> (r: Self)
        ensures
            r == NetworkRegistration::of_code(code as nat),
    {
        match code {
            0 => NetworkRegistration::NotRegistered,
            1 => NetworkRegistration::RegisteredHome,
            2 => NetworkRegistration::Searching,
            3 => NetworkRegistration::Denied,
            5 => NetworkRegistration::RegisteredRoaming,
            _ => NetworkRegistration::Unknown,
        }
    }
}

/// A line that reports a registration status.
pub open spec fn is_registration_line(line: Seq<char>) -> bool {
    "+CREG:"@.is_prefix_of(line) || "+CEREG:"@.is_prefix_of(line)
}

/// The comma-separated values of a registration line: what stands between its
/// first and second colon.
pub open spec fn registration_values(line: Seq<char>) -> Seq<Seq<char>> {
    text::split(text::trimmed(text::split(line, ':')[1]), ',')
}

/// The status that one line of a response reports: the second of its values, where
/// that is a number of eight bits.
pub open spec fn line_registration(raw: Seq<char>) -> Option<NetworkRegistration> {
    let line = text::trimmed(raw);
    let values = registration_values(line);
    if is_registration_line(line) && values.len() >= 2 {
        match text::unsigned_value(text::trimmed(values[1]), 255) {
            Some(code) => Some(NetworkRegistration::of_code(code)),
            None => None,
        }
    } else {
        None
    }
}

/// The status that the first of `lines` with one reports.
pub open spec fn first_registration(lines: Seq<Seq<char>>) -> Option<NetworkRegistration>
    decreases lines.len(),
{
    if lines.len() == 0 {
        None
    } else {
        match first_registration(lines.drop_last()) {
            Some(status) => Some(status),
            None => line_registration(lines.last()),
        }
    }
}

/// The status that a response reports.
pub open spec fn registration_of(response: Seq<char>) -> Option<NetworkRegistration> {
    first_registration(text::lines(response))
}

/// A response in the modem's standard form.
pub open spec fn standard_response(eps: bool, n: nat, code: nat) -> Seq<char> {
    (if eps {
        "+CEREG: "@
    } else {
        "+CREG: "@
    }) + text::decimal(n) + ","@ + text::decimal(code) + "\r\nOK"@
}

/// A response of the form `+CREG: <n>,<stat>` or `+CEREG: <n>,<stat>` reports the
/// status of the code `<stat>`.
pub proof fn standard_response_reports_its_code(eps: bool, n: nat, code: u8)
    ensures
        registration_of(standard_response(eps, n, code as nat)) == Some(
            NetworkRegistration::of_code(code as nat),
        ),
{
    reveal_strlit("+CEREG: ");
    reveal_strlit("+CREG: ");
    reveal_strlit("+CEREG:");
    reveal_strlit("+CREG:");
    reveal_strlit(",");
    reveal_strlit("\r\nOK");
    text::decimal_writes_its_number(n);
    text::decimal_writes_its_number(code as nat);
    let response = standard_response(eps, n, code as nat);
    let head = if eps {
        seq!['+', 'C', 'E', 'R', 'E', 'G']
    } else {
        seq!['+', 'C', 'R', 'E', 'G']
    };
    let d = text::decimal(n);
    let c = text::decimal(code as nat);
    let pair = d.push(',') + c;
    let values = seq![' '] + pair;
    let line = head.push(':') + values;
    let ok = seq!['O', 'K'];
    // The lines of the response.
    let first = line.push('\r');
    assert(first.push('\n') + ok =~= response);
    assert forall|i: int| 0 <= i < values.len() implies values[i] == ' ' || values[i] == ','
        || text::is_digit(values[i]) by {
        if i > 0 && i - 1 < d.len() {
            assert(values[i] == d[i - 1]);
        } else if i - 1 > d.len() {
            assert(values[i] == c[i - d.len() - 2]);
        }
    }
    assert(!values.contains('\n') && !values.contains(':'));
    assert(!head.contains('\n') && !head.contains(':'));
    assert forall|i: int| 0 <= i < first.len() implies first[i] != '\n' by {
        if head.len() < i < first.len() - 1 {
            assert(first[i] == values[i - head.len() - 1]);
        } else if i < head.len() {
            assert(first[i] == head[i]);
        }
    }
    text::joined_pieces_are_split_again(first, ok, '\n');
    let pieces = text::split(response, '\n');
    let full = Seq::new((pieces.len() - 1) as nat, |i: int| text::strip_cr(pieces[i]));
    assert(first.drop_last() =~= line);
    assert(full =~= seq![line]);
    let all = text::lines(response);
    assert(all =~= seq![line, ok]);
    // The first of them.
    assert(c[c.len() - 1] == line.last());
    text::trimming_keeps_clean_text(line);
    assert(is_registration_line(line)) by {
        if eps {
            assert(line.subrange(0, 7) =~= "+CEREG:"@);
        } else {
            assert(line.subrange(0, 6) =~= "+CREG:"@);
        }
    }
    text::joined_pieces_are_split_again(head, values, ':');
    assert(text::split(line, ':')[1] == values);
    assert(values.drop_first() =~= pair);
    assert(text::trim_start(values) == text::trim_start(pair));
    assert(pair[0] == d[0]);
    assert(pair.last() == c.last());
    text::trimming_keeps_clean_text(pair);
    assert(text::trimmed(values) == pair);
    assert(!d.contains(',')) by {
        assert forall|i: int| 0 <= i < d.len() implies d[i] != ',' by {
            assert(text::is_digit(d[i]));
        }
    }
    assert(!c.contains(',')) by {
        assert forall|i: int| 0 <= i < c.len() implies c[i] != ',' by {
            assert(text::is_digit(c[i]));
        }
    }
    text::joined_pieces_are_split_again(d, c, ',');
    assert(registration_values(line)[1] == c);
    assert(text::is_digit(c[0]) && text::is_digit(c.last()));
    text::trimming_keeps_clean_text(c);
    assert(text::unsigned_value(c, 255) == Some(code as nat));
    assert(line_registration(line) == Some(NetworkRegistration::of_code(code as nat)));
    // It settles the matter.
    assert(all.take(1) =~= seq![line]);
    assert(all.take(1).drop_last() =~= Seq::<Seq<char>>::empty());
    assert(first_registration(all.take(1).drop_last()) is None);
    assert(first_registration(all.take(1)) == line_registration(line));
    lemma_first_registration_stays(all, 1);
}

/// A line that holds a separator has at least two pieces.
proof fn lemma_split_has_two(s: Seq<char>, sep: char)
    requires
        s.contains(sep),
    ensures
        text::split(s, sep).len() >= 2,
    decreases s.len(),
{
    if s.last() != sep {
        let i = choose|i: int| 0 <= i < s.len() && s[i] == sep;
        assert(s.drop_last()[i] == sep);
        lemma_split_has_two(s.drop_last(), sep);
    } else {
        lemma_split_has_one(s.drop_last(), sep);
    }
}

proof fn lemma_split_has_one(s: Seq<char>, sep: char)
    ensures
        text::split(s, sep).len() >= 1,
    decreases s.len(),
{
    if s.len() > 0 {
        lemma_split_has_one(s.drop_last(), sep);
    }
}

proof fn lemma_registration_line_has_colon(line: Seq<char>)
    requires
        is_registration_line(line),
    ensures
        line.contains(':'),
{
    reveal_strlit("+CREG:");
    reveal_strlit("+CEREG:");
    if "+CREG:"@.is_prefix_of(line) {
        assert("+CREG:"@[5] == ':');
        assert(line[5] == ':');
    } else {
        assert("+CEREG:"@[6] == ':');
        assert(line[6] == ':');
    }
}

fn parse_registration_line(raw: &str) -> (r: Option<NetworkRegistration>)
    ensures
        r == line_registration(raw@),
{
    let line = trim(raw);
    if !starts_with(line.as_str(), "+CREG:") && !starts_with(line.as_str(), "+CEREG:") {
        return None;
    }
    let pieces = split_at_char(line.as_str(), ':');
    proof {
        lemma_registration_line_has_colon(line@);
        lemma_split_has_two(line@, ':');
        assert(text::texts(pieces@)[1] == pieces@[1]@);
    }
    let values = split_at_char(trim(pieces[1].as_str()).as_str(), ',');
    if values.len() < 2 {
        return None;
    }
    assert(text::texts(values@)[1] == values@[1]@);
    match parse_unsigned(trim(values[1].as_str()).as_str(), 255) {
        Some(code) => Some(NetworkRegistration::from_code(code as u8)),
        None => None,
    }
}

proof fn lemma_first_registration_stays(lines: Seq<Seq<char>>, i: int)
    requires
        0 <= i <= lines.len(),
        first_registration(lines.take(i)) is Some,
    ensures
        first_registration(lines) == first_registration(lines.take(i)),
    decreases lines.len() - i,
{
    if i == lines.len() {
        assert(lines.take(i) =~= lines);
    } else {
        assert(lines.take(i + 1).drop_last() =~= lines.take(i));
        lemma_first_registration_stays(lines, i + 1);
    }
}

/// Parse AT+CREG? or AT+CEREG? response to extract registration status.
/// Expected format: `+CREG: <n>,<stat>` or `+CEREG: <n>,<stat>`
pub fn parse_registration_response(response: &str) -> (r: Option<NetworkRegistration>)
    ensures
        r == registration_of(response@),
{
    let lines = lines_of(response);
    let ghost all = text::texts(lines@);
    for i in 0..lines.len()
        invariant
            all == text::texts(lines@),
            all == text::lines(response@),
            first_registration(all.take(i as int)) is None,
    {
        proof {
            assert(all.take(i + 1).drop_last() =~= all.take(i as int));
            assert(all.take(i + 1).last() == lines@[i as int]@);
        }
        let status = parse_registration_line(lines[i].as_str());
        if status.is_some() {
            proof {
                lemma_first_registration_stays(all, i + 1);
            }
            return status;
        }
    }
    assert(all.take(all.len() as int) =~= all);
    None
}

// ---------------------------------------------------------------------------
// The modem
// ---------------------------------------------------------------------------

/// Abstraction over modem operations.
///
/// How a modem answers is up to it. Each implementation says by four relations
/// which answers it may give, and what becomes of it when it gives them. One that
/// says nothing may answer anything.
pub trait ModemAccess: Sized {
    /// Asked for its model, `before` may reply `reply` and become `after`.
    open spec fn reports_model(
        before: Self,
        after: Self,
        reply: Result<String, ModemError>,
    ) -> bool {
        true
    }

    /// Given an AT command, `before` may reply `reply` and become `after`.
    open spec fn answers(
        before: Self,
        cmd: Seq<char>,
        timeout_ms: u32,
        after: Self,
        reply: Result<String, ModemError>,
    ) -> bool {
        true
    }

    /// Asked for the subscriber, `before` may reply `reply` and become `after`.
    open spec fn reports_imsi(
        before: Self,
        after: Self,
        reply: Result<String, ModemError>,
    ) -> bool {
        true
    }

    /// Asked for its registration, `before` may reply `reply` and become `after`.
    open spec fn reports_registration(
        before: Self,
        after: Self,
        reply: Result<NetworkRegistration, ModemError>,
    ) -> bool {
        true
    }

    /// Get the modem model string.
    fn model(&mut self) -> (r: Result<String, ModemError>)
        ensures
            Self::reports_model(*old(self), *final(self), r),
    ;

    /// Send an AT command and return the response string.
    fn command(&mut self, cmd: &str, timeout_ms: u32) -> (r: Result<String, ModemError>)
        ensures
            Self::answers(*old(self), cmd@, timeout_ms, *final(self), r),
    ;

    /// Read SIM IMSI.
    fn imsi(&mut self) -> (r: Result<String, ModemError>)
        ensures
            Self::reports_imsi(*old(self), *final(self), r),
    ;

    /// Query network registration status.
    fn registration_status(&mut self) -> (r: Result<NetworkRegistration, ModemError>)
        ensures
            Self::reports_registration(*old(self), *final(self), r),
    ;
}

/// Timeout of the queries below, in milliseconds.
pub const QUERY_TIMEOUT_MS: u32 = 3000;

/// What `AT+CIMI` being answered by `reply` makes the IMSI query return.
pub open spec fn imsi_result(
    reply: Result<String, ModemError>,
    r: Result<String, ModemError>,
) -> bool {
    match reply {
        Ok(s) => r matches Ok(t) && t@ == text::trimmed(s@),
        Err(e) => r == Err::<String, ModemError>(e),
    }
}

/// The IMSI in the modem's reply to `AT+CIMI`.
pub fn imsi_from_reply(reply: Result<String, ModemError>) -> (r: Result<String, ModemError>)
    ensures
        imsi_result(reply, r),
{
    match reply {
        Ok(s) => Ok(trim(s.as_str())),
        Err(e) => Err(e),
    }
}

/// Read SIM IMSI via AT+CIMI.
pub fn imsi_by_command<M: ModemAccess>(modem: &mut M) -> (r: Result<String, ModemError>)
    ensures
        imsi_query(*old(modem), *final(modem), r),
{
    match serve_by_commands(modem, &ModemRequest::Imsi) {
        ModemReply::Text(r) => r,
        ModemReply::Registration(_) => vstd::pervasive::unreached(),
    }
}

/// The status that the reply to `AT+CEREG?` settles, if it does.
pub open spec fn eps_result(reply: Result<String, ModemError>) -> Option<NetworkRegistration> {
    match reply {
        Ok(s) => registration_of(s@),
        Err(_) => None,
    }
}

/// What `AT+CREG?` being answered by `reply` makes the registration query return.
pub open spec fn cs_result(
    reply: Result<String, ModemError>,
    r: Result<NetworkRegistration, ModemError>,
) -> bool {
    match reply {
        Ok(s) => match registration_of(s@) {
            Some(status) => r == Ok::<NetworkRegistration, ModemError>(status),
            None => r matches Err(e) && e.is_dbus("failed to parse registration status"@),
        },
        Err(e) => r == Err::<NetworkRegistration, ModemError>(e),
    }
}

/// The registration query returns `r`: it asks for the EPS registration, and only
/// where that settles nothing for the circuit-switched one.
pub open spec fn registration_result<M: ModemAccess>(
    before: M,
    after: M,
    r: Result<NetworkRegistration, ModemError>,
) -> bool {
    exists|mid: M, eps: Result<String, ModemError>|
        #[trigger] M::answers(before, "AT+CEREG?"@, QUERY_TIMEOUT_MS, mid, eps) && match eps_result(
            eps,
        ) {
            Some(status) => after == mid && r == Ok::<NetworkRegistration, ModemError>(status),
            None => exists|cs: Result<String, ModemError>|
                #[trigger] M::answers(mid, "AT+CREG?"@, QUERY_TIMEOUT_MS, after, cs) && cs_result(
                    cs,
                    r,
                ),
        }
}

/// The status that the reply to `AT+CEREG?` settles, if it does.
pub fn registration_from_eps(reply: &Result<String, ModemError>) -> (r: Option<NetworkRegistration>)
    ensures
        r == eps_result(*reply),
{
    match reply {
        Ok(s) => parse_registration_response(s.as_str()),
        Err(_) => None,
    }
}

/// The outcome of the query where only the reply to `AT+CREG?` can settle it.
pub fn registration_from_cs(reply: Result<String, ModemError>) -> (r: Result<
    NetworkRegistration,
    ModemError,
>)
    ensures
        cs_result(reply, r),
{
    match reply {
        Ok(s) => match parse_registration_response(s.as_str()) {
            Some(status) => Ok(status),
            None => Err(ModemError::Dbus("failed to parse registration status".to_string())),
        },
        Err(e) => Err(e),
    }
}

/// Query network registration status via AT+CEREG? and AT+CREG?.
pub fn registration_by_commands<M: ModemAccess>(modem: &mut M) -> (r: Result<
    NetworkRegistration,
    ModemError,
>)
    ensures
        registration_result(*old(modem), *final(modem), r),
{
    match serve_by_commands(modem, &ModemRequest::RegistrationStatus) {
        ModemReply::Registration(r) => r,
        ModemReply::Text(_) => vstd::pervasive::unreached(),
    }
}

/// What a model query that returned `model` says of the modem's type.
pub open spec fn type_result(
    model: Result<String, ModemError>,
    r: Result<ModemType, ModemError>,
) -> bool {
    match model {
        Ok(m) => match modem_type_of(m@) {
            Some(t) => r == Ok::<ModemType, ModemError>(t),
            None => r == Err::<ModemType, ModemError>(ModemError::UnsupportedModem(m)),
        },
        Err(e) => r == Err::<ModemType, ModemError>(e),
    }
}

/// The modem type that a model query's outcome stands for.
pub fn type_from_model(model: Result<String, ModemError>) -> (r: Result<ModemType, ModemError>)
    ensures
        type_result(model, r),
{
    match model {
        Ok(m) => match detect_modem_type(m.as_str()) {
            Some(t) => Ok(t),
            None => Err(ModemError::UnsupportedModem(m)),
        },
        Err(e) => Err(e),
    }
}

/// Ask a modem for its model and detect its type.
pub fn discover_modem<M: ModemAccess>(modem: &mut M) -> (r: Result<ModemType, ModemError>)
    ensures
        exists|model: Result<String, ModemError>|
            #[trigger] M::reports_model(*old(modem), *final(modem), model) && type_result(model, r),
{
    type_from_model(modem.model())
}

/// Send an AT command and return the response.
pub fn send_at_command<M: ModemAccess>(modem: &mut M, cmd: &str, timeout_ms: u32) -> (r: Result<
    String,
    ModemError,
>)
    ensures
        M::answers(*old(modem), cmd@, timeout_ms, *final(modem), r),
{
    modem.command(cmd, timeout_ms)
}

// ---------------------------------------------------------------------------
// Discovery
// ---------------------------------------------------------------------------

/// Seconds between two rounds of modem discovery.
pub const DISCOVERY_RETRY_SECS: u64 = 5;

/// One round of modem discovery: the modems that were found are tried one after the
/// other until one is of a supported type.
#[derive(Debug)]
pub struct Discovery {
    /// Why the round has not succeeded so far.
    pub reason: String,
}

impl Discovery {
    pub fn new() -> (r: Discovery)
        ensures
            r.reason@ == "no modems found"@,
    {
        Discovery { reason: "no modems found".to_string() }
    }

    /// Take the outcome of one modem's model query. The round is over where this
    /// gives a type; otherwise the reason is that of this modem.
    pub fn try_modem(&mut self, model: Result<String, ModemError>) -> (r: Option<ModemType>)
        ensures
            match model {
                Ok(m) => r == modem_type_of(m@),
                Err(_) => r is None,
            },
            r is Some ==> *final(self) == *old(self),
            r is None ==> final(self).reason@ == match model {
                Ok(m) => ModemError::UnsupportedModem(m).text(),
                Err(e) => e.text(),
            },
    {
        match type_from_model(model) {
            Ok(t) => Some(t),
            Err(e) => {
                self.reason = e.to_string();
                None
            },
        }
    }
}

/// The error of a discovery that was cancelled between two rounds.
pub fn discovery_cancelled() -> (r: ModemError)
    ensures
        r.is_dbus("cancelled during discovery"@),
{
    ModemError::Dbus("cancelled during discovery".to_string())
}

// ---------------------------------------------------------------------------
// The request queue
// ---------------------------------------------------------------------------

/// Channel capacity for the request queue.
pub const REQUEST_QUEUE_CAPACITY: usize = 32;

/// Seconds to wait for the reply to a queued request.
pub const REQUEST_TIMEOUT_SECS: u64 = 30;

/// Request submitted to the modem worker queue.
#[derive(Debug)]
pub enum ModemRequest {
    Model,
    Command { cmd: String, timeout_ms: u32 },
    /// Read SIM IMSI.
    Imsi,
    /// Query network registration status.
    RegistrationStatus,
}

/// What the worker replies to a request.
#[derive(Debug)]
pub enum ModemReply {
    Text(Result<String, ModemError>),
    Registration(Result<NetworkRegistration, ModemError>),
}

/// `reply` is what serving `request` may give.
pub open spec fn serves<M: ModemAccess>(
    before: M,
    request: ModemRequest,
    after: M,
    reply: ModemReply,
) -> bool {
    match request {
        ModemRequest::Model => reply matches ModemReply::Text(r) && M::reports_model(
            before,
            after,
            r,
        ),
        ModemRequest::Command { cmd, timeout_ms } => reply matches ModemReply::Text(r)
            && M::answers(before, cmd@, timeout_ms, after, r),
        ModemRequest::Imsi => reply matches ModemReply::Text(r) && M::reports_imsi(
            before,
            after,
            r,
        ),
        ModemRequest::RegistrationStatus => reply matches ModemReply::Registration(r)
            && M::reports_registration(before, after, r),
    }
}

/// Serve one request: the modem is asked exactly what the request says.
pub fn serve<M: ModemAccess>(modem: &mut M, request: &ModemRequest) -> (reply: ModemReply)
    ensures
        serves(*old(modem), *request, *final(modem), reply),
{
    match request {
        ModemRequest::Model => ModemReply::Text(modem.model()),
        ModemRequest::Command { cmd, timeout_ms } => ModemReply::Text(
            modem.command(cmd.as_str(), *timeout_ms),
        ),
        ModemRequest::Imsi => ModemReply::Text(modem.imsi()),
        ModemRequest::RegistrationStatus => ModemReply::Registration(modem.registration_status()),
    }
}

/// What the reply that a request waits for is about.
#[derive(Debug, Clone, Copy, PartialEq, Eq, Structural)]
pub enum Awaited {
    /// It is what was asked for.
    Text,
    /// It holds the IMSI.
    Imsi,
    /// It may settle the registration.
    EpsRegistration,
    /// It settles the registration, or nothing does.
    CsRegistration,
}

/// What to do next to serve a request on a modem that has a model and takes AT
/// commands.
#[derive(Debug)]
pub enum ModemStep {
    /// Ask for its model.
    AskModel,
    /// Send it a command.
    Send { cmd: String, timeout_ms: u32, awaited: Awaited },
    /// The request is served.
    Finish(ModemReply),
}

impl ModemStep {
    pub open spec fn sends(self, cmd: Seq<char>, timeout: u32, awaiting: Awaited) -> bool {
        &&& self matches ModemStep::Send { cmd: c, timeout_ms, awaited }
        &&& c@ == cmd
        &&& timeout_ms == timeout
        &&& awaited == awaiting
    }

    /// The step that a request begins with.
    pub open spec fn begins(self, request: ModemRequest) -> bool {
        match request {
            ModemRequest::Model => self is AskModel,
            ModemRequest::Command { cmd, timeout_ms } => self.sends(
                cmd@,
                timeout_ms,
                Awaited::Text,
            ),
            ModemRequest::Imsi => self.sends("AT+CIMI"@, QUERY_TIMEOUT_MS, Awaited::Imsi),
            ModemRequest::RegistrationStatus => self.sends(
                "AT+CEREG?"@,
                QUERY_TIMEOUT_MS,
                Awaited::EpsRegistration,
            ),
        }
    }

    /// The step that follows the awaited reply.
    pub open spec fn follows(self, awaited: Awaited, reply: Result<String, ModemError>) -> bool {
        match awaited {
            Awaited::Text => self == ModemStep::Finish(ModemReply::Text(reply)),
            Awaited::Imsi => self matches ModemStep::Finish(ModemReply::Text(r)) && imsi_result(
                reply,
                r,
            ),
            Awaited::EpsRegistration => match eps_result(reply) {
                Some(status) => self == ModemStep::Finish(ModemReply::Registration(Ok(status))),
                None => self.sends("AT+CREG?"@, QUERY_TIMEOUT_MS, Awaited::CsRegistration),
            },
            Awaited::CsRegistration => self matches ModemStep::Finish(ModemReply::Registration(r))
                && cs_result(reply, r),
        }
    }
}

/// How to begin to serve a request.
pub fn first_step(request: &ModemRequest) -> (r: ModemStep)
    ensures
        r.begins(*request),
{
    match request {
        ModemRequest::Model => ModemStep::AskModel,
        ModemRequest::Command { cmd, timeout_ms } => ModemStep::Send {
            cmd: cmd.clone(),
            timeout_ms: *timeout_ms,
            awaited: Awaited::Text,
        },
        ModemRequest::Imsi => ModemStep::Send {
            cmd: "AT+CIMI".to_string(),
            timeout_ms: QUERY_TIMEOUT_MS,
            awaited: Awaited::Imsi,
        },
        // Try EPS (4G) registration first
        ModemRequest::RegistrationStatus => ModemStep::Send {
            cmd: "AT+CEREG?".to_string(),
            timeout_ms: QUERY_TIMEOUT_MS,
            awaited: Awaited::EpsRegistration,
        },
    }
}

/// How to go on with the reply that was awaited.
pub fn next_step(awaited: Awaited, reply: Result<String, ModemError>) -> (r: ModemStep)
    ensures
        r.follows(awaited, reply),
{
    match awaited {
        Awaited::Text => ModemStep::Finish(ModemReply::Text(reply)),
        Awaited::Imsi => ModemStep::Finish(ModemReply::Text(imsi_from_reply(reply))),
        Awaited::EpsRegistration => match registration_from_eps(&reply) {
            Some(status) => ModemStep::Finish(ModemReply::Registration(Ok(status))),
            // Fall back to circuit-switched registration
            None => ModemStep::Send {
                cmd: "AT+CREG?".to_string(),
                timeout_ms: QUERY_TIMEOUT_MS,
                awaited: Awaited::CsRegistration,
            },
        },
        Awaited::CsRegistration => ModemStep::Finish(
            ModemReply::Registration(registration_from_cs(reply)),
        ),
    }
}

/// The IMSI query returns `r`: it sends `AT+CIMI`.
pub open spec fn imsi_query<M: ModemAccess>(
    before: M,
    after: M,
    r: Result<String, ModemError>,
) -> bool {
    exists|reply: Result<String, ModemError>|
        #[trigger] M::answers(before, "AT+CIMI"@, QUERY_TIMEOUT_MS, after, reply) && imsi_result(
            reply,
            r,
        )
}

/// `reply` is what serving `request` by the modem's model and AT commands may give.
pub open spec fn serves_by_commands<M: ModemAccess>(
    before: M,
    request: ModemRequest,
    after: M,
    reply: ModemReply,
) -> bool {
    match request {
        ModemRequest::Model => reply matches ModemReply::Text(r) && M::reports_model(
            before,
            after,
            r,
        ),
        ModemRequest::Command { cmd, timeout_ms } => reply matches ModemReply::Text(r)
            && M::answers(before, cmd@, timeout_ms, after, r),
        ModemRequest::Imsi => reply matches ModemReply::Text(r) && imsi_query(before, after, r),
        ModemRequest::RegistrationStatus => reply matches ModemReply::Registration(r)
            && registration_result(before, after, r),
    }
}

/// The EPS query has settled nothing, and left the modem as `mid`.
pub open spec fn eps_settles_nothing<M: ModemAccess>(before: M, mid: M) -> bool {
    exists|eps: Result<String, ModemError>|
        #[trigger] M::answers(before, "AT+CEREG?"@, QUERY_TIMEOUT_MS, mid, eps) && eps_result(eps)
            is None
}

/// Serve one request by the modem's model and AT commands alone.
pub fn serve_by_commands<M: ModemAccess>(modem: &mut M, request: &ModemRequest) -> (reply:
    ModemReply)
    ensures
        serves_by_commands(*old(modem), *request, *final(modem), reply),
{
    let mut step = first_step(request);
    loop
        invariant
            match step {
                ModemStep::Finish(reply) => serves_by_commands(
                    *old(modem),
                    *request,
                    *modem,
                    reply,
                ),
                ModemStep::Send { cmd, timeout_ms, awaited: Awaited::CsRegistration } => {
                    &&& *request is RegistrationStatus
                    &&& cmd@ == "AT+CREG?"@
                    &&& timeout_ms == QUERY_TIMEOUT_MS
                    &&& eps_settles_nothing(*old(modem), *modem)
                },
                _ => step.begins(*request) && *modem == *old(modem),
            },
        decreases
                (match step {
                    ModemStep::Finish(_) => 0int,
                    ModemStep::Send { cmd: _, timeout_ms: _, awaited: Awaited::EpsRegistration } => 2,
                    _ => 1,
                }),
    {
        let ghost before = *modem;
        match step {
            ModemStep::AskModel => {
                step = next_step(Awaited::Text, modem.model());
            },
            ModemStep::Send { cmd, timeout_ms, awaited } => {
                let reply = modem.command(cmd.as_str(), timeout_ms);
                assert(M::answers(before, cmd@, timeout_ms, *modem, reply));
                step = next_step(awaited, reply);
            },
            ModemStep::Finish(reply) => {
                return reply;
            },
        }
    }
}

/// The states that a modem goes through while it serves `requests` in order.
pub open spec fn serves_in_order<M: ModemAccess>(
    states: Seq<M>,
    requests: Seq<ModemRequest>,
    replies: Seq<ModemReply>,
) -> bool {
    &&& states.len() == requests.len() + 1
    &&& replies.len() == requests.len()
    &&& forall|i: int|
        0 <= i < requests.len() ==> serves(
            states[i],
            #[trigger] requests[i],
            states[i + 1],
            replies[i],
        )
}

/// Serve a backlog of requests, one after the other and in the order in which they
/// came.
pub fn serve_all<M: ModemAccess>(modem: &mut M, requests: &Vec<ModemRequest>) -> (replies: Vec<
    ModemReply,
>)
    ensures
        exists|states: Seq<M>|
            #[trigger] serves_in_order(states, requests@, replies@) && states.first() == *old(modem)
                && states.last() == *final(modem),
{
    let mut replies: Vec<ModemReply> = Vec::new();
    let ghost mut states: Seq<M> = seq![*modem];
    for i in 0..requests.len()
        invariant
            serves_in_order(states, requests@.take(i as int), replies@),
            states.first() == *old(modem),
            states.last() == *modem,
    {
        let ghost before = *modem;
        let ghost served = requests@.take(i as int);
        let ghost given = replies@;
        let reply = serve(modem, &requests[i]);
        replies.push(reply);
        proof {
            let next = states.push(*modem);
            let served_next = requests@.take(i + 1);
            assert forall|j: int| 0 <= j < served_next.len() implies serves(
                next[j],
                #[trigger] served_next[j],
                next[j + 1],
                replies@[j],
            ) by {
                if j < i {
                    assert(served[j] == served_next[j]);
                    assert(given[j] == replies@[j]);
                }
            }
            states = next;
        }
    }
    assert(requests@.take(requests@.len() as int) =~= requests@);
    assert(serves_in_order(states, requests@, replies@));
    replies
}

/// What became of a request.
#[derive(Debug)]
pub enum RequestOutcome<T> {
    /// The worker is gone, so the request could not be queued.
    QueueClosed,
    /// The worker replied.
    Replied(Result<T, ModemError>),
    /// The worker let go of the request without a reply.
    ReplyDropped,
    /// No reply came in time.
    TimedOut,
}

/// The result of a request, given what became of it.
pub fn request_result<T>(outcome: RequestOutcome<T>) -> (r: Result<T, ModemError>)
    ensures
        match outcome {
            RequestOutcome::QueueClosed => r matches Err(e) && e.is_dbus(
                "modem service shut down"@,
            ),
            RequestOutcome::Replied(result) => r == result,
            RequestOutcome::ReplyDropped => r matches Err(e) && e.is_dbus(
                "modem worker dropped reply"@,
            ),
            RequestOutcome::TimedOut => r == Err::<T, ModemError>(ModemError::Timeout),
        },
{
    match outcome {
        RequestOutcome::QueueClosed => Err(
            ModemError::Dbus("modem service shut down".to_string()),
        ),
        RequestOutcome::Replied(result) => result,
        RequestOutcome::ReplyDropped => Err(
            ModemError::Dbus("modem worker dropped reply".to_string()),
        ),
        RequestOutcome::TimedOut => Err(ModemError::Timeout),
    }
}

// ---------------------------------------------------------------------------
// What the operations promise
// ---------------------------------------------------------------------------

/// A modem is known by the identifier that occurs in its model string, wherever it stands
/// there. The identifiers that hold others are looked for first, so an EM060K-GL does not
/// pass for an EM06. A model with none of them is not known.
pub proof fn modems_are_known_by_their_identifier(
    model: &str,
    before: Seq<char>,
    after: Seq<char>,
    r: Option<ModemType>,
)
    requires
        call_ensures(detect_modem_type, (model,), r),
    ensures
        model@ == before + "SIMCOM_SIM7600G-H"@ + after ==> r == Some(ModemType::Simcom7600),
        model@ == before + "EM12"@ + after && !text::occurs(model@, "SIMCOM_SIM7600G-H"@) ==> r
            == Some(ModemType::QuectelEm12),
        model@ == before + "EM060K-GL"@ + after && !text::occurs(model@, "SIMCOM_SIM7600G-H"@)
            && !text::occurs(model@, "EM12"@) ==> r == Some(ModemType::QuectelEm06GL),
        model@ == before + "EM06"@ + after && !text::occurs(model@, "SIMCOM_SIM7600G-H"@)
            && !text::occurs(model@, "EM12"@) && !text::occurs(model@, "EM060K-GL"@) ==> r == Some(
            ModemType::QuectelEm06E,
        ),
        r is Some ==> text::occurs(model@, "SIMCOM_SIM7600G-H"@) || text::occurs(model@, "EM12"@)
            || text::occurs(model@, "EM060K-GL"@) || text::occurs(model@, "EM06"@),
{
    lemma_part_occurs(model@, before, "SIMCOM_SIM7600G-H"@, after);
    lemma_part_occurs(model@, before, "EM12"@, after);
    lemma_part_occurs(model@, before, "EM060K-GL"@, after);
    lemma_part_occurs(model@, before, "EM06"@, after);
}

proof fn lemma_part_occurs(s: Seq<char>, before: Seq<char>, part: Seq<char>, after: Seq<char>)
    ensures
        s == before + part + after ==> text::occurs(s, part),
{
    if s == before + part + after {
        let n = before.len() as int;
        assert(s.subrange(n, n + part.len()) =~= part);
        assert(text::occurs_at(s, part, n));
    }
}

/// The registration codes: 0 is not registered, 1 at home, 2 searching, 3 denied and 5
/// roaming; every other is unknown.
pub proof fn registration_codes(code: u8, r: NetworkRegistration)
    requires
        call_ensures(NetworkRegistration::from_code, (code,), r),
    ensures
        r == NetworkRegistration::NotRegistered <==> code == 0,
        r == NetworkRegistration::RegisteredHome <==> code == 1,
        r == NetworkRegistration::Searching <==> code == 2,
        r == NetworkRegistration::Denied <==> code == 3,
        r == NetworkRegistration::RegisteredRoaming <==> code == 5,
        r == NetworkRegistration::Unknown <==> code == 4 || code > 5,
{
}

/// A response in the modem's standard form, for either kind of registration, is read as
/// the status that its second number stands for, whatever the first one is.
pub proof fn responses_are_read_by_their_second_number(
    response: &str,
    eps: bool,
    n: nat,
    code: u8,
    status: NetworkRegistration,
    r: Option<NetworkRegistration>,
)
    requires
        call_ensures(parse_registration_response, (response,), r),
        call_ensures(NetworkRegistration::from_code, (code,), status),
        response@ == (if eps {
            "+CEREG: "@
        } else {
            "+CREG: "@
        }) + text::decimal(n) + ","@ + text::decimal(code as nat) + "\r\nOK"@,
    ensures
        r == Some(status),
{
    standard_response_reports_its_code(eps, n, code);
}

proof fn lemma_no_registration(lines: Seq<Seq<char>>)
    requires
        forall|i: int| 0 <= i < lines.len() ==> line_registration(#[trigger] lines[i]) is None,
    ensures
        first_registration(lines) is None,
    decreases lines.len(),
{
    if lines.len() > 0 {
        let init = lines.drop_last();
        assert(lines[lines.len() - 1] == lines.last());
        assert forall|i: int| 0 <= i < init.len() implies line_registration(
            #[trigger] init[i],
        ) is None by {
            assert(init[i] == lines[i]);
        }
        lemma_no_registration(init);
    }
}

/// A response without a line that begins with `+CREG:` or `+CEREG:` tells no status.
pub proof fn other_responses_tell_no_status(response: &str, r: Option<NetworkRegistration>)
    requires
        call_ensures(parse_registration_response, (response,), r),
        forall|i: int|
            0 <= i < text::lines(response@).len() ==> {
                let line = text::trimmed(#[trigger] text::lines(response@)[i]);
                !"+CREG:"@.is_prefix_of(line) && !"+CEREG:"@.is_prefix_of(line)
            },
    ensures
        r is None,
{
    let all = text::lines(response@);
    assert forall|i: int| 0 <= i < all.len() implies line_registration(
        #[trigger] all[i],
    ) is None by {}
    lemma_no_registration(all);
}

/// The IMSI is asked for with `AT+CIMI` within three seconds, and is the modem's answer
/// without white space around it; an error of the modem is passed on.
pub proof fn imsi_is_the_answer_to_cimi<M: ModemAccess>(
    modem: &mut M,
    r: Result<String, ModemError>,
)
    requires
        call_ensures(imsi_by_command::<M>, (modem,), r),
    ensures
        exists|reply: Result<String, ModemError>|
            #[trigger] M::answers(*old(modem), "AT+CIMI"@, 3000, *final(modem), reply) && (
            reply matches Ok(s) ==> (r matches Ok(t) && t@ == text::trimmed(s@))) && (reply matches
                Err(e) ==> r == Err::<String, ModemError>(e)),
{
    let reply = choose|reply: Result<String, ModemError>|
        #[trigger] M::answers(*modem, "AT+CIMI"@, QUERY_TIMEOUT_MS, *final(modem), reply)
            && imsi_result(reply, r);
    assert(M::answers(*modem, "AT+CIMI"@, 3000, *final(modem), reply));
}

/// The registration is asked for with `AT+CEREG?`. Where the answer tells a status, that
/// is the result and nothing else is asked. Otherwise `AT+CREG?` is, and its answer
/// decides.
pub proof fn eps_registration_goes_first<M: ModemAccess>(
    modem: &mut M,
    r: Result<NetworkRegistration, ModemError>,
)
    requires
        call_ensures(registration_by_commands::<M>, (modem,), r),
    ensures
        exists|mid: M, eps: Result<String, ModemError>|
            #[trigger] M::answers(*old(modem), "AT+CEREG?"@, 3000, mid, eps) && ({
                ||| eps is Ok && registration_of(eps->Ok_0@) is Some && *final(modem) == mid && r
                    == Ok::<NetworkRegistration, ModemError>(registration_of(eps->Ok_0@)->0)
                ||| (eps is Err || registration_of(eps->Ok_0@) is None) && exists|
                    cs: Result<String, ModemError>,
                |
                    #[trigger] M::answers(mid, "AT+CREG?"@, 3000, *final(modem), cs) && (cs matches
                        Err(e) ==> r == Err::<NetworkRegistration, ModemError>(e)) && (cs matches
                        Ok(s) ==> match registration_of(s@) {
                        Some(status) => r == Ok::<NetworkRegistration, ModemError>(status),
                        None => r is Err,
                    })
            }),
{
    let (mid, eps) = choose|mid: M, eps: Result<String, ModemError>|
        #[trigger] M::answers(*modem, "AT+CEREG?"@, QUERY_TIMEOUT_MS, mid, eps) && match eps_result(
            eps,
        ) {
            Some(status) => *final(modem) == mid && r == Ok::<NetworkRegistration, ModemError>(
                status,
            ),
            None => exists|cs: Result<String, ModemError>|
                #[trigger] M::answers(mid, "AT+CREG?"@, QUERY_TIMEOUT_MS, *final(modem), cs)
                    && cs_result(cs, r),
        };
    assert(M::answers(*modem, "AT+CEREG?"@, 3000, mid, eps));
    if eps_result(eps) is None {
        let cs = choose|cs: Result<String, ModemError>|
            #[trigger] M::answers(mid, "AT+CREG?"@, QUERY_TIMEOUT_MS, *final(modem), cs)
                && cs_result(cs, r);
        assert(M::answers(mid, "AT+CREG?"@, 3000, *final(modem), cs));
    }
}

/// A modem whose model cannot be asked is no modem of a known type, and neither is one of
/// another model; the errors tell the two apart.
pub proof fn unknown_models_are_unsupported(
    model: Result<String, ModemError>,
    known: Option<ModemType>,
    name: &str,
    r: Result<ModemType, ModemError>,
)
    requires
        call_ensures(type_from_model, (model,), r),
        call_ensures(detect_modem_type, (name,), known),
        model matches Ok(m) ==> m@ == name@,
    ensures
        model matches Err(e) ==> r == Err::<ModemType, ModemError>(e),
        model matches Ok(m) ==> match known {
            Some(t) => r == Ok::<ModemType, ModemError>(t),
            None => r == Err::<ModemType, ModemError>(ModemError::UnsupportedModem(m)),
        },
{
}

/// A round of discovery ends with the first modem of a known type. As long as there is
/// none, its reason is the fault of the modem that was tried last, and that no modems were
/// found where none was tried.
pub proof fn discovery_tells_the_last_fault(
    fresh: Discovery,
    round: &mut Discovery,
    model: Result<String, ModemError>,
    r: Option<ModemType>,
)
    requires
        call_ensures(Discovery::new, (), fresh),
        call_ensures(Discovery::try_modem, (round, model), r),
    ensures
        fresh.reason@ == "no modems found"@,
        r is Some ==> model is Ok && *final(round) == *old(round),
        r is None && model is Ok ==> final(round).reason@ == "unsupported modem model: "@
            + model->Ok_0@,
        model == Err::<String, ModemError>(ModemError::Timeout) ==> r is None && final(
            round).reason@ == "AT command timeout"@,
        model == Err::<String, ModemError>(ModemError::NoModem) ==> r is None && final(
            round).reason@ == "no modem found"@,
        model matches Err(ModemError::Dbus(m)) ==> r is None && final(round).reason@
            == "D-Bus error: "@ + m@,
{
}

/// Serving a request asks the modem exactly what the request says, once, and replies with
/// what the modem answers.
pub proof fn requests_are_passed_on<M: ModemAccess>(
    modem: &mut M,
    request: &ModemRequest,
    reply: ModemReply,
)
    requires
        call_ensures(serve::<M>, (modem, request), reply),
    ensures
        *request is Model ==> (reply matches ModemReply::Text(r) && M::reports_model(
            *old(modem),
            *final(modem),
            r,
        )),
        *request matches ModemRequest::Command { cmd, timeout_ms } ==> (reply matches
            ModemReply::Text(r) && M::answers(*old(modem), cmd@, timeout_ms, *final(modem), r)),
        *request is Imsi ==> (reply matches ModemReply::Text(r) && M::reports_imsi(
            *old(modem),
            *final(modem),
            r,
        )),
        *request is RegistrationStatus ==> (reply matches ModemReply::Registration(r)
            && M::reports_registration(*old(modem), *final(modem), r)),
{
}

/// A backlog is served in its order: each request finds the modem as the one before it
/// left it, and has its own reply.
pub proof fn backlog_is_served_in_order<M: ModemAccess>(
    modem: &mut M,
    requests: &Vec<ModemRequest>,
    replies: Vec<ModemReply>,
)
    requires
        call_ensures(serve_all::<M>, (modem, requests), replies),
    ensures
        replies@.len() == requests@.len(),
        requests@.len() == 0 ==> *final(modem) == *old(modem),
        requests@.len() > 0 ==> exists|second: M|
            #[trigger] serves(*old(modem), requests@[0], second, replies@[0]) && (requests@.len()
                == 1 ==> second == *final(modem)) && (requests@.len() == 2 ==> serves(
                second,
                requests@[1],
                *final(modem),
                replies@[1],
            )),
        forall|i: int|
            0 <= i < requests@.len() ==> ((#[trigger] requests@[i]) is RegistrationStatus
                <==> replies@[i] is Registration),
{
    let states = choose|states: Seq<M>|
        #[trigger] serves_in_order(states, requests@, replies@) && states.first() == *modem
            && states.last() == *final(modem);
    assert forall|i: int| 0 <= i < requests@.len() implies ((#[trigger] requests@[i])
        is RegistrationStatus <==> replies@[i] is Registration) by {
        assert(serves(states[i], requests@[i], states[i + 1], replies@[i]));
    }
    if requests@.len() > 0 {
        assert(serves(states[0], requests@[0], states[1], replies@[0]));
        if requests@.len() == 2 {
            assert(serves(states[1], requests@[1], states[2], replies@[1]));
        }
    }
}

/// How a request begins: a command is sent as it is given and with its own timeout, the
/// other questions with commands of their own and three seconds.
pub proof fn requests_begin_with_their_command(request: &ModemRequest, r: ModemStep)
    requires
        call_ensures(first_step, (request,), r),
    ensures
        *request is Model <==> r is AskModel,
        *request matches ModemRequest::Command { cmd, timeout_ms } ==> (r matches ModemStep::Send {
            cmd: c,
            timeout_ms: t,
            awaited,
        } && c@ == cmd@ && t == timeout_ms && awaited == Awaited::Text),
        *request is Imsi ==> (r matches ModemStep::Send { cmd: c, timeout_ms: t, awaited } && c@
            == "AT+CIMI"@ && t == 3000 && awaited == Awaited::Imsi),
        *request is RegistrationStatus ==> (r matches ModemStep::Send {
            cmd: c,
            timeout_ms: t,
            awaited,
        } && c@ == "AT+CEREG?"@ && t == 3000 && awaited == Awaited::EpsRegistration),
{
}

/// How a request goes on: only a registration that the first answer does not tell is asked
/// for once more; every other reply ends the request.
pub proof fn only_untold_registrations_are_asked_again(
    awaited: Awaited,
    reply: Result<String, ModemError>,
    r: ModemStep,
)
    requires
        call_ensures(next_step, (awaited, reply), r),
    ensures
        r !is AskModel,
        r is Send <==> awaited == Awaited::EpsRegistration && (reply is Err || registration_of(
            reply->Ok_0@,
        ) is None),
        r matches ModemStep::Send { cmd, timeout_ms, awaited: then } ==> cmd@ == "AT+CREG?"@
            && timeout_ms == 3000 && then == Awaited::CsRegistration,
        awaited == Awaited::Text ==> r == ModemStep::Finish(ModemReply::Text(reply)),
        awaited == Awaited::Imsi && reply is Ok ==> (r matches ModemStep::Finish(
            ModemReply::Text(Ok(s)),
        ) && s@ == text::trimmed(reply->Ok_0@)),
        awaited == Awaited::CsRegistration ==> (r matches ModemStep::Finish(
            ModemReply::Registration(s),
        ) && (s is Ok <==> reply is Ok && registration_of(reply->Ok_0@) is Some)),
{
}

/// A request that the worker answers has that answer as its result. One that cannot be
/// queued, that the worker drops, or that takes too long fails.
pub proof fn unanswered_requests_fail<T>(outcome: RequestOutcome<T>, r: Result<T, ModemError>)
    requires
        call_ensures(request_result::<T>, (outcome,), r),
    ensures
        outcome matches RequestOutcome::Replied(result) ==> r == result,
        outcome is TimedOut ==> r == Err::<T, ModemError>(ModemError::Timeout),
        outcome is QueueClosed ==> (r matches Err(ModemError::Dbus(m)) && m@
            == "modem service shut down"@),
        outcome is ReplyDropped ==> (r matches Err(ModemError::Dbus(m)) && m@
            == "modem worker dropped reply"@),
{
}

/// The errors of a modem, in words, and the names of the modem types.
pub proof fn modem_errors_in_words(e: &ModemError, t: &ModemType, r: String, name: String)
    requires
        call_ensures(ModemError::to_string, (e,), r),
        call_ensures(ModemType::to_string, (t,), name),
    ensures
        *e matches ModemError::Dbus(m) ==> r@ == "D-Bus error: "@ + m@,
        *e is Timeout ==> r@ == "AT command timeout"@,
        *e is NoModem ==> r@ == "no modem found"@,
        *e matches ModemError::UnsupportedModem(m) ==> r@ == "unsupported modem model: "@ + m@,
        *t == ModemType::Simcom7600 ==> name@ == "SIMCOM_7600"@,
        *t == ModemType::QuectelEm12 ==> name@ == "QUECTEL_EM12"@,
        *t == ModemType::QuectelEm06E ==> name@ == "QUECTEL_EM06E"@,
        *t == ModemType::QuectelEm06GL ==> name@ == "QUECTEL_EM06GL"@,
{
}

/// Serving a request by commands alone asks the modem for its model, sends it the command
/// as it is given, or sends it `AT+CIMI` or the registration queries.
pub proof fn requests_are_served_by_commands<M: ModemAccess>(
    modem: &mut M,
    request: &ModemRequest,
    reply: ModemReply,
)
    requires
        call_ensures(serve_by_commands::<M>, (modem, request), reply),
    ensures
        *request is Model ==> (reply matches ModemReply::Text(r) && M::reports_model(
            *old(modem),
            *final(modem),
            r,
        )),
        *request matches ModemRequest::Command { cmd, timeout_ms } ==> (reply matches
            ModemReply::Text(r) && M::answers(*old(modem), cmd@, timeout_ms, *final(modem), r)),
        *request is Imsi ==> (reply matches ModemReply::Text(r) && exists|
            answer: Result<String, ModemError>,
        |
            #[trigger] M::answers(*old(modem), "AT+CIMI"@, 3000, *final(modem), answer) && (r is Ok
                <==> answer is Ok) && (r matches Ok(s) ==> s@ == text::trimmed(answer->Ok_0@))),
        *request is RegistrationStatus <==> reply is Registration,
{
    if *request is Imsi {
        let r = reply->Text_0;
        let answer = choose|answer: Result<String, ModemError>|
            #[trigger] M::answers(*modem, "AT+CIMI"@, QUERY_TIMEOUT_MS, *final(modem), answer)
                && imsi_result(answer, r);
        assert(M::answers(*modem, "AT+CIMI"@, 3000, *final(modem), answer));
    }
}

/// A modem is asked for its model, and its type is what that stands for.
pub proof fn discovered_type_is_the_models<M: ModemAccess>(
    modem: &mut M,
    r: Result<ModemType, ModemError>,
)
    requires
        call_ensures(discover_modem::<M>, (modem,), r),
    ensures
        exists|model: Result<String, ModemError>|
            #[trigger] M::reports_model(*old(modem), *final(modem), model) && (model matches Err(e)
                ==> r == Err::<ModemType, ModemError>(e)) && (model matches Ok(m) ==> (r is Ok
                <==> text::occurs(m@, "SIMCOM_SIM7600G-H"@) || text::occurs(m@, "EM12"@)
                || text::occurs(m@, "EM060K-GL"@) || text::occurs(m@, "EM06"@))),
{
    let model = choose|model: Result<String, ModemError>|
        #[trigger] M::reports_model(*modem, *final(modem), model) && type_result(model, r);
    assert(M::reports_model(*modem, *final(modem), model));
}

} // verus!
