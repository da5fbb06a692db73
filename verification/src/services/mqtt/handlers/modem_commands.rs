//! The `modem_commands` command.

use vstd::prelude::*;
use vstd::string::*;

use crate::messages::commands::{
    CommandEnvelope, CommandPayload, CommandResultData, ModemCommandResult,
};
use crate::services::modem_access::{ModemAccess, ModemError};
use crate::services::mqtt::commands::{CommandError, CommandResult};
use crate::text::{self, char_upper, chars_of, contains_char, same_text, starts_with, trim};

verus! {

/// Default AT command timeout in milliseconds.
pub const DEFAULT_AT_TIMEOUT_MS: u32 = 5000;

/// Maximum allowed AT command timeout in milliseconds (30 seconds).
pub const MAX_AT_TIMEOUT_MS: u32 = 30_000;

// ---------------------------------------------------------------------------
// The allowlist
// ---------------------------------------------------------------------------

/// ASCII without control characters.
pub open spec fn is_printable(s: Seq<char>) -> bool {
    forall|i: int| 0 <= i < s.len() ==> ' ' <= #[trigger] s[i] <= '~'
}

/// ASCII upper case of a text.
pub open spec fn upper(s: Seq<char>) -> Seq<char> {
    Seq::new(s.len(), |i: int| text::upper_char(s[i]))
}

/// Commands that are inherently read-only (any suffix is safe): signal quality, IMSI,
/// IMEI, model identification, firmware revision and device info.
pub open spec fn is_read_only(u: Seq<char>) -> bool {
    ||| "AT+CSQ"@.is_prefix_of(u)
    ||| "AT+CIMI"@.is_prefix_of(u)
    ||| "AT+CGSN"@.is_prefix_of(u)
    ||| "AT+CGMM"@.is_prefix_of(u)
    ||| "AT+CGMR"@.is_prefix_of(u)
    ||| "ATI"@.is_prefix_of(u)
}

/// The command `name` itself or one of its query forms.
pub open spec fn is_query_of(u: Seq<char>, name: Seq<char>) -> bool {
    u == name || u == name + "?"@ || u == name + "=?"@
}

/// Commands that have write forms too: operator selection, the three registrations,
/// PDP context, engineering mode, network info and provider name.
pub open spec fn has_write_form(name: Seq<char>) -> bool {
    ||| name == "AT+COPS"@
    ||| name == "AT+CEREG"@
    ||| name == "AT+CREG"@
    ||| name == "AT+CGREG"@
    ||| name == "AT+CGDCONT"@
    ||| name == "AT+QENG"@
    ||| name == "AT+QNWINFO"@
    ||| name == "AT+QSPN"@
}

/// A query form of a command that has write forms too.
pub open spec fn is_query(u: Seq<char>) -> bool {
    exists|name: Seq<char>| #[trigger] has_write_form(name) && is_query_of(u, name)
}

/// A single AT command, in any case and with white space around it, that reads from
/// the modem and changes nothing.
pub open spec fn is_allowed(cmd: Seq<char>) -> bool {
    let t = text::trimmed(cmd);
    let u = upper(t);
    is_printable(t) && !u.contains(';') && (is_read_only(u) || is_query(u))
}

/// White space around a command, and the case of its letters, do not matter.
pub proof fn allowance_ignores_case_and_space(a: Seq<char>, b: Seq<char>)
    requires
        is_printable(text::trimmed(a)),
        is_printable(text::trimmed(b)),
        upper(text::trimmed(a)) == upper(text::trimmed(b)),
    ensures
        is_allowed(a) == is_allowed(b),
{
}

/// No command with a semicolon is allowed, so none can be chained to another.
pub proof fn chained_commands_are_refused(cmd: Seq<char>)
    requires
        text::trimmed(cmd).contains(';'),
    ensures
        !is_allowed(cmd),
{
    let t = text::trimmed(cmd);
    let i = choose|i: int| 0 <= i < t.len() && t[i] == ';';
    assert(upper(t)[i] == ';');
}

/// No command with a character outside printable ASCII is allowed.
pub proof fn unprintable_commands_are_refused(cmd: Seq<char>, i: int)
    requires
        0 <= i < text::trimmed(cmd).len(),
        !(' ' <= text::trimmed(cmd)[i] <= '~'),
    ensures
        !is_allowed(cmd),
{
}

/// Of the commands that have write forms, none that carries a value is allowed.
pub proof fn write_forms_are_refused(cmd: Seq<char>, name: Seq<char>, value: Seq<char>)
    requires
        has_write_form(name),
        upper(text::trimmed(cmd)) == name + "="@ + value,
        value != "?"@,
    ensures
        !is_allowed(cmd),
{
    let u = name + "="@ + value;
    reveal_strlit("=");
    reveal_strlit("?");
    reveal_strlit("=?");
    lemma_names_hold_no_sign(name);
    lemma_write_form_is_not_read_only(u, name, value);
    assert(u[name.len() as int] == '=');
    assert forall|other: Seq<char>| has_write_form(other) implies !is_query_of(u, other) by {
        lemma_names_hold_no_sign(other);
        let i = name.len() as int;
        if u == other {
            assert(other.contains(other[i]));
        } else if u == other + "?"@ {
            if i < other.len() {
                assert(other.contains(other[i]));
            }
        } else if u == other + "=?"@ {
            if i < other.len() {
                assert(other.contains(other[i]));
            }
            assert(i == other.len());
            assert(value.len() == 1);
            assert(value[0] == u[i + 1]);
            assert(value =~= "?"@);
        }
    }
}

proof fn lemma_names_hold_no_sign(name: Seq<char>)
    requires
        has_write_form(name),
    ensures
        !name.contains('='),
{
    reveal_strlit("AT+COPS");
    reveal_strlit("AT+CEREG");
    reveal_strlit("AT+CREG");
    reveal_strlit("AT+CGREG");
    reveal_strlit("AT+CGDCONT");
    reveal_strlit("AT+QENG");
    reveal_strlit("AT+QNWINFO");
    reveal_strlit("AT+QSPN");
}

/// A command with write forms begins with none of the read-only commands.
proof fn lemma_write_form_is_not_read_only(u: Seq<char>, name: Seq<char>, value: Seq<char>)
    requires
        has_write_form(name),
        u == name + "="@ + value,
    ensures
        !is_read_only(u),
{
    reveal_strlit("AT+COPS");
    reveal_strlit("AT+CEREG");
    reveal_strlit("AT+CREG");
    reveal_strlit("AT+CGREG");
    reveal_strlit("AT+CGDCONT");
    reveal_strlit("AT+QENG");
    reveal_strlit("AT+QNWINFO");
    reveal_strlit("AT+QSPN");
    reveal_strlit("AT+CSQ");
    reveal_strlit("AT+CIMI");
    reveal_strlit("AT+CGSN");
    reveal_strlit("AT+CGMM");
    reveal_strlit("AT+CGMR");
    reveal_strlit("ATI");
    assert(u[2] == name[2] && u[3] == name[3] && u[4] == name[4] && u[5] == name[5]);
    assert("ATI"@[2] == 'I');
    assert("AT+CSQ"@[3] == 'C' && "AT+CSQ"@[4] == 'S');
    assert("AT+CIMI"@[3] == 'C' && "AT+CIMI"@[4] == 'I');
    assert("AT+CGSN"@[3] == 'C' && "AT+CGSN"@[4] == 'G' && "AT+CGSN"@[5] == 'S');
    assert("AT+CGMM"@[3] == 'C' && "AT+CGMM"@[4] == 'G' && "AT+CGMM"@[5] == 'M');
    assert("AT+CGMR"@[3] == 'C' && "AT+CGMR"@[4] == 'G' && "AT+CGMR"@[5] == 'M');
}

fn check_printable(s: &str) -> (r: bool)
    ensures
        r == is_printable(s@),
{
    let x = chars_of(s);
    for i in 0..x.len()
        invariant
            x@ == s@,
            forall|j: int| 0 <= j < i ==> ' ' <= #[trigger] x@[j] <= '~',
    {
        let c = x[i];
        if !(' ' <= c && c <= '~') {
            assert(!(' ' <= s@[i as int] <= '~'));
            return false;
        }
    }
    true
}

fn to_upper(s: &str) -> (r: String)
    ensures
        r@ == upper(s@),
{
    let x = chars_of(s);
    let mut out: String = String::new();
    for i in 0..x.len()
        invariant
            x@ == s@,
            out@ == upper(x@.take(i as int)),
    {
        out.push(char_upper(x[i]));
        assert(out@ =~= upper(x@.take(i + 1)));
    }
    assert(x@.take(x@.len() as int) =~= x@);
    out
}

fn check_query_of(u: &str, name: &str) -> (r: bool)
    ensures
        r == is_query_of(u@, name@),
{
    same_text(u, name) || same_text(u, name.to_string().concat("?").as_str()) || same_text(
        u,
        name.to_string().concat("=?").as_str(),
    )
}

/// Check if an AT command is in the allowlist.
pub fn is_allowed_at_command(cmd: &str) -> (r: bool)
    ensures
        r == is_allowed(cmd@),
{
    let trimmed = trim(cmd);

    // Reject non-ASCII input to prevent Unicode look-alike bypasses.
    if !check_printable(trimmed.as_str()) {
        return false;
    }
    let upper = to_upper(trimmed.as_str());
    let u = upper.as_str();

    // Reject semicolons to prevent AT command chaining
    // (e.g., AT+CSQ;AT+CFUN=0).
    if contains_char(u, ';') {
        return false;
    }
    // Inherently safe commands — prefix match is sufficient
    if starts_with(u, "AT+CSQ") || starts_with(u, "AT+CIMI") || starts_with(u, "AT+CGSN")
        || starts_with(u, "AT+CGMM") || starts_with(u, "AT+CGMR") || starts_with(u, "ATI") {
        return true;
    }
    // Commands with write forms — only allow query form (no args, ?, or =?)
    proof {
        assert(has_write_form("AT+COPS"@) && has_write_form("AT+CEREG"@) && has_write_form(
            "AT+CREG"@,
        ) && has_write_form("AT+CGREG"@) && has_write_form("AT+CGDCONT"@) && has_write_form(
            "AT+QENG"@,
        ) && has_write_form("AT+QNWINFO"@) && has_write_form("AT+QSPN"@));
    }
    check_query_of(u, "AT+COPS") || check_query_of(u, "AT+CEREG") || check_query_of(u, "AT+CREG")
        || check_query_of(u, "AT+CGREG") || check_query_of(u, "AT+CGDCONT") || check_query_of(
        u,
        "AT+QENG",
    ) || check_query_of(u, "AT+QNWINFO") || check_query_of(u, "AT+QSPN")
}

// ---------------------------------------------------------------------------
// The handler
// ---------------------------------------------------------------------------

/// Handler for `modem_commands` — routes AT commands to the modem.
///
/// The payload's timeout is optional, defaults to 5000 ms, and counts up to 30 s.
#[derive(Debug, Clone, Copy)]
pub struct ModemCommandsHandler {}

/// A command to send to the modem.
#[derive(Debug)]
pub struct ModemQuery {
    pub command: String,
    pub timeout_ms: u32,
}

/// The timeout that counts.
pub open spec fn effective_timeout(asked: Option<u32>) -> u32 {
    let t = match asked {
        Some(v) => v,
        None => DEFAULT_AT_TIMEOUT_MS,
    };
    if t > MAX_AT_TIMEOUT_MS {
        MAX_AT_TIMEOUT_MS
    } else {
        t
    }
}

/// What the payload asks of the modem, or why that is refused.
pub open spec fn requests(payload: CommandPayload, r: Result<ModemQuery, CommandError>) -> bool {
    match payload {
        CommandPayload::ModemCommands(p) => if is_allowed(p.command@) {
            &&& r matches Ok(q)
            &&& q.command@ == p.command@
            &&& q.timeout_ms == effective_timeout(p.timeout_ms)
        } else {
            r matches Err(e) && e.message@ == "AT command '"@ + p.command@ + "' is not allowed"@
        },
        _ => r matches Err(e) && e.message@ == "expected ModemCommands payload"@,
    }
}

/// What the modem's reply makes of the command; without a modem there is none.
pub open spec fn concludes(
    command: Seq<char>,
    reply: Option<Result<String, ModemError>>,
    r: Result<CommandResult, CommandError>,
) -> bool {
    match reply {
        None => r matches Err(e) && e.message@ == "modem not available"@,
        Some(Ok(response)) => {
            &&& r matches Ok(result)
            &&& result.data matches CommandResultData::ModemCommands(data)
            &&& data.command@ == command
            &&& data.response@ == response@
        },
        Some(Err(error)) => r matches Err(e) && e.message@ == "AT command '"@ + command
            + "' failed: "@ + error.text(),
    }
}

impl ModemCommandsHandler {
    pub const NAME: &'static str = "modem_commands";

    pub fn new() -> (r: Self)
        ensures
            r == (ModemCommandsHandler {  }),
    {
        Self {  }
    }

    /// What to send to the modem.
    pub fn request(&self, envelope: &CommandEnvelope) -> (r: Result<ModemQuery, CommandError>)
        ensures
            requests(envelope.payload, r),
    {
        let payload = match &envelope.payload {
            CommandPayload::ModemCommands(p) => p,
            _ => {
                return Err(CommandError::new("expected ModemCommands payload"));
            },
        };
        if !is_allowed_at_command(payload.command.as_str()) {
            let message = "AT command '".to_string().concat(payload.command.as_str()).concat(
                "' is not allowed",
            );
            return Err(CommandError::new(message.as_str()));
        }
        let asked: u32 = match payload.timeout_ms {
            Some(v) => v,
            None => DEFAULT_AT_TIMEOUT_MS,
        };
        let timeout_ms: u32 = if asked > MAX_AT_TIMEOUT_MS {
            MAX_AT_TIMEOUT_MS
        } else {
            asked
        };
        Ok(ModemQuery { command: payload.command.clone(), timeout_ms })
    }

    /// The command's result, given the modem's reply.
    pub fn conclude(&self, query: &ModemQuery, reply: Option<Result<String, ModemError>>) -> (r:
        Result<CommandResult, CommandError>)
        ensures
            concludes(query.command@, reply, r),
    {
        match reply {
            None => Err(CommandError::new("modem not available")),
            Some(Ok(response)) => Ok(
                CommandResult {
                    data: CommandResultData::ModemCommands(
                        ModemCommandResult { command: query.command.clone(), response },
                    ),
                },
            ),
            Some(Err(error)) => {
                let message = "AT command '".to_string().concat(query.command.as_str()).concat(
                    "' failed: ",
                ).concat(error.to_string().as_str());
                Err(CommandError::new(message.as_str()))
            },
        }
    }

    /// Handle a command on the modem, if there is one: it is sent only where it is
    /// allowed, as it is, and once.
    pub fn handle<M: ModemAccess>(&self, envelope: &CommandEnvelope, modem: &mut Option<M>) -> (r:
        Result<CommandResult, CommandError>)
        ensures
            match (*old(modem), *final(modem)) {
                (Some(before), Some(after)) => handled(before, after, envelope.payload, r),
                (None, None) => handled_without_modem(envelope.payload, r),
                _ => false,
            },
    {
        let query = match self.request(envelope) {
            Ok(query) => query,
            Err(e) => {
                assert(requests(envelope.payload, Err::<ModemQuery, CommandError>(e)));
                return Err(e);
            },
        };
        assert(requests(envelope.payload, Ok::<ModemQuery, CommandError>(query)));
        match modem {
            Some(m) => {
                let ghost before = *m;
                let reply = m.command(query.command.as_str(), query.timeout_ms);
                assert(M::answers(before, query.command@, query.timeout_ms, *m, reply));
                self.conclude(&query, Some(reply))
            },
            None => self.conclude(&query, None),
        }
    }
}

/// Handling `payload` without a modem gives `r`.
pub open spec fn handled_without_modem(
    payload: CommandPayload,
    r: Result<CommandResult, CommandError>,
) -> bool {
    exists|q: Result<ModemQuery, CommandError>|
        #[trigger] requests(payload, q) && match q {
            Ok(query) => concludes(query.command@, None, r),
            Err(e) => r == Err::<CommandResult, CommandError>(e),
        }
}

/// Handling `payload` on a modem takes it from `before` to `after` and gives `r`.
pub open spec fn handled<M: ModemAccess>(
    before: M,
    after: M,
    payload: CommandPayload,
    r: Result<CommandResult, CommandError>,
) -> bool {
    exists|q: Result<ModemQuery, CommandError>|
        #[trigger] requests(payload, q) && match q {
            Ok(query) => exists|reply: Result<String, ModemError>|
                #[trigger] M::answers(before, query.command@, query.timeout_ms, after, reply)
                    && concludes(query.command@, Some(reply), r),
            Err(e) => after == before && r == Err::<CommandResult, CommandError>(e),
        }
}

/// The text begins with `prefix` once its letters are in upper case.
pub open spec fn begins_with(t: Seq<char>, prefix: Seq<char>) -> bool {
    &&& prefix.len() <= t.len()
    &&& forall|i: int| 0 <= i < prefix.len() ==> text::upper_char(#[trigger] t[i]) == prefix[i]
}

/// The text is `s` once its letters are in upper case.
pub open spec fn reads_as(t: Seq<char>, s: Seq<char>) -> bool {
    t.len() == s.len() && begins_with(t, s)
}

/// Every question for the signal quality, the IMSI, the IMEI, the model, the firmware
/// revision or the device info is allowed, whatever follows the command, as long as it is
/// printable and nothing is chained to it.
pub proof fn read_only_commands_are_allowed(cmd: &str, prefix: Seq<char>, r: bool)
    requires
        call_ensures(is_allowed_at_command, (cmd,), r),
        forall|i: int|
            0 <= i < text::trimmed(cmd@).len() ==> ' ' <= #[trigger] text::trimmed(cmd@)[i] <= '~'
                && text::trimmed(cmd@)[i] != ';',
        ({
            ||| prefix == "AT+CSQ"@
            ||| prefix == "AT+CIMI"@
            ||| prefix == "AT+CGSN"@
            ||| prefix == "AT+CGMM"@
            ||| prefix == "AT+CGMR"@
            ||| prefix == "ATI"@
        }),
        begins_with(text::trimmed(cmd@), prefix),
    ensures
        r,
{
    let t = text::trimmed(cmd@);
    let u = upper(t);
    lemma_no_semicolon(t);
    assert(prefix =~= u.subrange(0, prefix.len() as int));
    assert(prefix.is_prefix_of(u));
}

/// A command that has write forms is allowed by itself, as a question for its value and
/// as a question for its values.
pub proof fn queries_are_allowed(cmd: &str, name: Seq<char>, r: bool)
    requires
        call_ensures(is_allowed_at_command, (cmd,), r),
        ({
            ||| name == "AT+COPS"@
            ||| name == "AT+CEREG"@
            ||| name == "AT+CREG"@
            ||| name == "AT+CGREG"@
            ||| name == "AT+CGDCONT"@
            ||| name == "AT+QENG"@
            ||| name == "AT+QNWINFO"@
            ||| name == "AT+QSPN"@
        }),
        reads_as(text::trimmed(cmd@), name) || reads_as(text::trimmed(cmd@), name.push('?'))
            || reads_as(text::trimmed(cmd@), name.push('=').push('?')),
    ensures
        r,
{
    let t = text::trimmed(cmd@);
    let u = upper(t);
    reveal_strlit("?");
    reveal_strlit("=?");
    lemma_command_names_are_plain(name);
    assert(name.push('?') =~= name + "?"@);
    assert(name.push('=').push('?') =~= name + "=?"@);
    let form = if reads_as(t, name) {
        name
    } else if reads_as(t, name.push('?')) {
        name.push('?')
    } else {
        name.push('=').push('?')
    };
    assert(reads_as(t, form));
    assert(u =~= form);
    assert(has_write_form(name));
    assert(is_query_of(u, name));
    assert forall|i: int| 0 <= i < t.len() implies ' ' <= #[trigger] t[i] <= '~' && t[i]
        != ';' by {
        assert(text::upper_char(t[i]) == form[i]);
        if i < name.len() {
            assert(form[i] == name[i]);
        }
    }
    lemma_no_semicolon(t);
}

proof fn lemma_no_semicolon(t: Seq<char>)
    requires
        forall|i: int| 0 <= i < t.len() ==> #[trigger] t[i] != ';',
    ensures
        !upper(t).contains(';'),
{
    assert forall|i: int| 0 <= i < t.len() implies upper(t)[i] != ';' by {
        assert(t[i] != ';');
    }
}

proof fn lemma_command_names_are_plain(name: Seq<char>)
    requires
        has_write_form(name),
    ensures
        forall|i: int| 0 <= i < name.len() ==> 'A' <= #[trigger] name[i] <= 'Z' || name[i] == '+',
{
    reveal_strlit("AT+COPS");
    reveal_strlit("AT+CEREG");
    reveal_strlit("AT+CREG");
    reveal_strlit("AT+CGREG");
    reveal_strlit("AT+CGDCONT");
    reveal_strlit("AT+QENG");
    reveal_strlit("AT+QNWINFO");
    reveal_strlit("AT+QSPN");
    reveal_strlit("AT+CSQ");
    reveal_strlit("AT+CIMI");
    reveal_strlit("AT+CGSN");
    reveal_strlit("AT+CGMM");
    reveal_strlit("AT+CGMR");
    reveal_strlit("ATI");
}

/// Whatever is allowed is printable, chains nothing, and is one of the commands that only
/// read: one of the six that are safe with any suffix, or a query form of one of the
/// eight that have write forms.
pub proof fn nothing_else_is_allowed(cmd: &str, r: bool)
    requires
        call_ensures(is_allowed_at_command, (cmd,), r),
        r,
    ensures
        forall|i: int|
            0 <= i < text::trimmed(cmd@).len() ==> ' ' <= #[trigger] text::trimmed(cmd@)[i] <= '~'
                && text::trimmed(cmd@)[i] != ';',
        ({
            let t = text::trimmed(cmd@);
            ||| begins_with(t, "AT+CSQ"@)
            ||| begins_with(t, "AT+CIMI"@)
            ||| begins_with(t, "AT+CGSN"@)
            ||| begins_with(t, "AT+CGMM"@)
            ||| begins_with(t, "AT+CGMR"@)
            ||| begins_with(t, "ATI"@)
            ||| exists|name: Seq<char>| #[trigger] has_write_form(name) && (reads_as(t, name)
                || reads_as(t, name.push('?')) || reads_as(t, name.push('=').push('?')))
        }),
        forall|name: Seq<char>| #[trigger] has_write_form(name) <==> ({
            ||| name == "AT+COPS"@
            ||| name == "AT+CEREG"@
            ||| name == "AT+CREG"@
            ||| name == "AT+CGREG"@
            ||| name == "AT+CGDCONT"@
            ||| name == "AT+QENG"@
            ||| name == "AT+QNWINFO"@
            ||| name == "AT+QSPN"@
        }),
{
    let t = text::trimmed(cmd@);
    let u = upper(t);
    reveal_strlit("?");
    reveal_strlit("=?");
    assert forall|i: int| 0 <= i < t.len() implies ' ' <= #[trigger] t[i] <= '~' && t[i]
        != ';' by {
        if t[i] == ';' {
            assert(u[i] == ';');
        }
    }
    assert forall|p: Seq<char>| #[trigger] p.is_prefix_of(u) implies begins_with(t, p) by {
        assert forall|i: int| 0 <= i < p.len() implies text::upper_char(#[trigger] t[i])
            == p[i] by {
            assert(u[i] == p[i]);
        }
    }
    if is_query(u) {
        let name = choose|name: Seq<char>| #[trigger] has_write_form(name) && is_query_of(u, name);
        assert(name.push('?') =~= name + "?"@);
        assert(name.push('=').push('?') =~= name + "=?"@);
        assert forall|form: Seq<char>| u == form implies #[trigger] reads_as(t, form) by {
            assert forall|i: int| 0 <= i < form.len() implies text::upper_char(#[trigger] t[i])
                == form[i] by {
                assert(u[i] == form[i]);
            }
        }
        assert(reads_as(t, name) || reads_as(t, name.push('?')) || reads_as(
            t,
            name.push('=').push('?'),
        ));
    }
}

/// An allowed command is put to the modem as it was given, with the timeout that was asked
/// for, or five seconds where none was, but never more than thirty. Another is refused.
pub proof fn requests_keep_their_command_and_timeout(
    handler: &ModemCommandsHandler,
    envelope: &CommandEnvelope,
    allowed: bool,
    command: &str,
    r: Result<ModemQuery, CommandError>,
)
    requires
        call_ensures(ModemCommandsHandler::request, (handler, envelope), r),
        call_ensures(is_allowed_at_command, (command,), allowed),
        envelope.payload matches CommandPayload::ModemCommands(p) && p.command@ == command@,
    ensures
        r is Ok <==> allowed,
        ({
            let p = envelope.payload->ModemCommands_0;
            r matches Ok(q) ==> {
                &&& q.command@ == p.command@
                &&& p.timeout_ms is None ==> q.timeout_ms == 5000
                &&& p.timeout_ms matches Some(t) ==> t <= 30000 ==> q.timeout_ms == t
                &&& p.timeout_ms matches Some(t) ==> t > 30000 ==> q.timeout_ms == 30000
            }
        }),
{
}

/// A refused command never reaches the modem: the modem stays as it was and the answer is
/// an error that names the command. So does a payload of another command.
pub proof fn refused_commands_never_reach_the_modem<M: ModemAccess>(
    handler: &ModemCommandsHandler,
    envelope: &CommandEnvelope,
    modem: &mut Option<M>,
    allowed: bool,
    command: &str,
    r: Result<CommandResult, CommandError>,
)
    requires
        call_ensures(ModemCommandsHandler::handle::<M>, (handler, envelope, modem), r),
        call_ensures(is_allowed_at_command, (command,), allowed),
        envelope.payload matches CommandPayload::ModemCommands(p) ==> p.command@ == command@
            && !allowed,
    ensures
        *final(modem) == *old(modem),
        r is Err,
        envelope.payload is ModemCommands ==> r->Err_0.message@ == "AT command '"@ + command@
            + "' is not allowed"@,
{
}

/// An allowed command is answered with what the modem replies to it, and with an error
/// where the modem fails or there is none.
pub proof fn allowed_commands_get_the_modems_reply<M: ModemAccess>(
    handler: &ModemCommandsHandler,
    envelope: &CommandEnvelope,
    modem: &mut Option<M>,
    command: &str,
    r: Result<CommandResult, CommandError>,
)
    requires
        call_ensures(ModemCommandsHandler::handle::<M>, (handler, envelope, modem), r),
        call_ensures(is_allowed_at_command, (command,), true),
        envelope.payload matches CommandPayload::ModemCommands(p) && p.command@ == command@,
    ensures
        *old(modem) is None ==> *final(modem) is None && (r matches Err(e) && e.message@
            == "modem not available"@),
        *old(modem) matches Some(before) ==> (*final(modem) matches Some(after) && exists|
            timeout: u32,
            reply: Result<String, ModemError>,
        |
            #[trigger] M::answers(before, command@, timeout, after, reply) && timeout <= 30000 && (
            envelope.payload->ModemCommands_0.timeout_ms is None ==> timeout == 5000) && (r is Ok
                <==> reply is Ok) && (r matches Ok(result) ==> (result.data matches
                CommandResultData::ModemCommands(data) && data.command@ == command@
                && data.response@ == reply->Ok_0@))),
{
    if let Some(before) = *modem {
        let after = (*final(modem))->0;
        let q = choose|q: Result<ModemQuery, CommandError>|
            #[trigger] requests(envelope.payload, q) && match q {
                Ok(query) => exists|reply: Result<String, ModemError>|
                    #[trigger] M::answers(before, query.command@, query.timeout_ms, after, reply)
                        && concludes(query.command@, Some(reply), r),
                Err(e) => after == before && r == Err::<CommandResult, CommandError>(e),
            };
        let query = q->Ok_0;
        let reply = choose|reply: Result<String, ModemError>|
            #[trigger] M::answers(before, query.command@, query.timeout_ms, after, reply)
                && concludes(query.command@, Some(reply), r);
        assert(M::answers(before, command@, query.timeout_ms, after, reply));
    }
}

/// What a modem's reply makes of a command: its response, its error in words, or that there
/// is no modem.
pub proof fn replies_become_results(
    handler: &ModemCommandsHandler,
    query: &ModemQuery,
    reply: Option<Result<String, ModemError>>,
    r: Result<CommandResult, CommandError>,
)
    requires
        call_ensures(ModemCommandsHandler::conclude, (handler, query, reply), r),
    ensures
        reply is None ==> (r matches Err(e) && e.message@ == "modem not available"@),
        reply matches Some(Ok(response)) ==> (r matches Ok(result) && (result.data matches
            CommandResultData::ModemCommands(data) && data.command@ == query.command@
            && data.response@ == response@)),
        reply matches Some(Err(ModemError::Timeout)) ==> (r matches Err(e) && e.message@
            == "AT command '"@ + query.command@ + "' failed: "@ + "AT command timeout"@),
        reply matches Some(Err(ModemError::Dbus(m))) ==> (r matches Err(e) && e.message@
            == "AT command '"@ + query.command@ + "' failed: "@ + ("D-Bus error: "@ + m@)),
{
}

} // verus!
