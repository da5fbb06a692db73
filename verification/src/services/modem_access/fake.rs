//! A modem for the simulation image.

use vstd::prelude::*;
use vstd::string::*;

use super::{
    registration_from_cs, registration_from_eps, ModemAccess, ModemError, ModemType,
    NetworkRegistration, QUERY_TIMEOUT_MS,
};
use crate::text::{self, signed_decimal_text, starts_with, trim};

verus! {

/// Deterministic ModemAccess implementation for the simulation image.
///
/// Drives a monotonic counter so signal-quality fields drift smoothly
/// across calls. No randomness — tests are repeatable.
#[derive(Debug, Clone, Copy, PartialEq, Eq, Structural)]
pub struct FakeModemAccess {
    pub counter: u64,
}

/// The counter's next value.
pub open spec fn counted(counter: u64) -> u64 {
    if counter == u64::MAX {
        0
    } else {
        (counter + 1) as u64
    }
}

/// A value that drifts with `n` in the band of width `width` around `center`.
pub open spec fn drift(n: u64, width: int, center: int) -> int {
    center + (n as int % width) - width / 2
}

/// A comma and a value.
pub open spec fn field(v: int) -> Seq<char> {
    ","@ + text::signed_decimal(v)
}

/// The serving cell's record of the `n`th query.
pub open spec fn serving_record(n: u64) -> Seq<char> {
    "+QENG: \"servingcell\",\"NOCONN\",\"LTE\",\"FDD\",001,01,\"1A2B3C4D\",250,1850,3,5,5,\"1234\""@
        + field(drift(n, 21, -90)) + field(drift(n, 7, -10)) + field(drift(n, 11, -65)) + field(
        drift(n, 11, 5),
    ) + ",10"@ + field(drift(n, 5, -8)) + ",42\r\nOK"@
}

/// The record of one neighbor cell, by the centers of its bands.
pub open spec fn neighbor_record(
    n: u64,
    head: Seq<char>,
    rsrq: int,
    rsrp: int,
    rssi: int,
    rssnr: int,
) -> Seq<char> {
    head + field(drift(n, 5, rsrq)) + field(drift(n, 21, rsrp)) + field(drift(n, 11, rssi)) + field(
        drift(n, 7, rssnr),
    ) + ",5,8,-,-\r\n"@
}

/// The neighbor cells' records of the `n`th query: two cells with distinct ids.
pub open spec fn neighbor_records(n: u64) -> Seq<char> {
    neighbor_record(
        n,
        "+QENG: \"neighbourcell intra\",\"LTE\",1850,100"@,
        -12,
        -100,
        -75,
        3,
    ) + neighbor_record(
        n,
        "+QENG: \"neighbourcell intra\",\"LTE\",1850,200"@,
        -14,
        -105,
        -80,
        1,
    ) + "OK"@
}

/// A command of the engineering mode, which moves the counter on.
pub open spec fn counts(cmd: Seq<char>) -> bool {
    "AT+QENG=\"neighbourcell\""@.is_prefix_of(cmd) || "AT+QENG=\"servingcell\""@.is_prefix_of(cmd)
}

/// What the modem answers to a trimmed command, where `n` is the counter's next
/// value.
pub open spec fn answer(cmd: Seq<char>, n: u64) -> Seq<char> {
    if "AT+QENG=\"neighbourcell\""@.is_prefix_of(cmd) {
        neighbor_records(n)
    } else if "AT+QENG=\"servingcell\""@.is_prefix_of(cmd) {
        serving_record(n)
    } else if "AT+CIMI"@.is_prefix_of(cmd) {
        "001010123456789\r\nOK"@
    } else if "AT+CEREG?"@.is_prefix_of(cmd) {
        "+CEREG: 0,1\r\nOK"@
    } else if "AT+CREG?"@.is_prefix_of(cmd) {
        "+CREG: 0,1\r\nOK"@
    } else {
        "OK"@
    }
}

/// The serving cell's values stay inside their LTE bands, whatever the counter.
pub proof fn serving_values_stay_in_band(n: u64)
    ensures
        -100 <= drift(n, 21, -90) <= -80,
        -13 <= drift(n, 7, -10) <= -7,
        -70 <= drift(n, 11, -65) <= -60,
        0 <= drift(n, 11, 5) <= 10,
        -10 <= drift(n, 5, -8) <= -6,
{
}

/// The answer to the EPS registration query reports the home network.
proof fn lemma_registered_at_home()
    ensures
        !counts(text::trimmed("AT+CEREG?"@)),
        forall|n: u64|
            super::registration_of(#[trigger] answer(text::trimmed("AT+CEREG?"@), n)) == Some(
                NetworkRegistration::RegisteredHome,
            ),
{
    reveal_strlit("AT+CEREG?");
    reveal_strlit("AT+QENG=\"neighbourcell\"");
    reveal_strlit("AT+QENG=\"servingcell\"");
    reveal_strlit("AT+CIMI");
    text::trimming_keeps_clean_text("AT+CEREG?"@);
    let cmd = "AT+CEREG?"@;
    assert("AT+QENG=\"neighbourcell\""@[3] != cmd[3]);
    assert("AT+QENG=\"servingcell\""@[3] != cmd[3]);
    assert("AT+CIMI"@[4] != cmd[4]);
    assert(cmd.subrange(0, 9) =~= cmd);
    reveal_strlit("+CEREG: 0,1\r\nOK");
    reveal_strlit("+CEREG: ");
    reveal_strlit(",");
    reveal_strlit("\r\nOK");
    assert("+CEREG: 0,1\r\nOK"@ =~= super::standard_response(true, 0, 1));
    super::standard_response_reports_its_code(true, 0, 1);
}

fn push_field(out: &mut String, v: i64)
    ensures
        final(out)@ == old(out)@ + field(v as int),
{
    out.append(",");
    out.append(signed_decimal_text(v).as_str());
    assert(out@ =~= old(out)@ + field(v as int));
}

fn drifted(n: u64, width: u64, center: i64) -> (r: i64)
    requires
        0 < width <= 21,
        -200 <= center <= 200,
    ensures
        r == drift(n, width as int, center as int),
{
    center + (n % width) as i64 - (width / 2) as i64
}

fn push_neighbor(out: &mut String, n: u64, head: &str, rsrq: i64, rsrp: i64, rssi: i64, rssnr: i64)
    requires
        -200 <= rsrq <= 200,
        -200 <= rsrp <= 200,
        -200 <= rssi <= 200,
        -200 <= rssnr <= 200,
    ensures
        final(out)@ == old(out)@ + neighbor_record(
            n,
            head@,
            rsrq as int,
            rsrp as int,
            rssi as int,
            rssnr as int,
        ),
{
    out.append(head);
    push_field(out, drifted(n, 5, rsrq));
    push_field(out, drifted(n, 21, rsrp));
    push_field(out, drifted(n, 11, rssi));
    push_field(out, drifted(n, 7, rssnr));
    out.append(",5,8,-,-\r\n");
    assert(out@ =~= old(out)@ + neighbor_record(
        n,
        head@,
        rsrq as int,
        rsrp as int,
        rssi as int,
        rssnr as int,
    ));
}

impl FakeModemAccess {
    pub fn new() -> (r: Self)
        ensures
            r.counter == 0,
    {
        Self { counter: 0 }
    }

    pub fn next_counter(&mut self) -> (n: u64)
        ensures
            n == counted(old(self).counter),
            final(self).counter == n,
    {
        self.counter = if self.counter == u64::MAX {
            0
        } else {
            self.counter + 1
        };
        self.counter
    }

    pub fn synth_servingcell(&mut self) -> (r: String)
        ensures
            final(self).counter == counted(old(self).counter),
            r@ == serving_record(final(self).counter),
    {
        let n: u64 = self.next_counter();
        let mut out: String =
            "+QENG: \"servingcell\",\"NOCONN\",\"LTE\",\"FDD\",001,01,\"1A2B3C4D\",250,1850,3,5,5,\"1234\"".to_string();
        push_field(&mut out, drifted(n, 21, -90));
        push_field(&mut out, drifted(n, 7, -10));
        push_field(&mut out, drifted(n, 11, -65));
        push_field(&mut out, drifted(n, 11, 5));
        out.append(",10");
        push_field(&mut out, drifted(n, 5, -8));
        out.append(",42\r\nOK");
        out
    }

    pub fn synth_neighbourcell(&mut self) -> (r: String)
        ensures
            final(self).counter == counted(old(self).counter),
            r@ == neighbor_records(final(self).counter),
    {
        let n: u64 = self.next_counter();
        let mut out: String = String::new();
        push_neighbor(
            &mut out,
            n,
            "+QENG: \"neighbourcell intra\",\"LTE\",1850,100",
            -12,
            -100,
            -75,
            3,
        );
        push_neighbor(
            &mut out,
            n,
            "+QENG: \"neighbourcell intra\",\"LTE\",1850,200",
            -14,
            -105,
            -80,
            1,
        );
        out.append("OK");
        assert(out@ =~= neighbor_records(n));
        out
    }
}

impl Default for FakeModemAccess {
    fn default() -> (r: Self)
        ensures
            r.counter == 0,
    {
        Self::new()
    }
}

impl ModemAccess for FakeModemAccess {
    open spec fn reports_model(
        before: Self,
        after: Self,
        reply: Result<String, ModemError>,
    ) -> bool {
        after == before && (reply matches Ok(s) && s@ == "EM12"@)
    }

    open spec fn answers(
        before: Self,
        cmd: Seq<char>,
        timeout_ms: u32,
        after: Self,
        reply: Result<String, ModemError>,
    ) -> bool {
        let c = text::trimmed(cmd);
        let n = counted(before.counter);
        &&& after.counter == if counts(c) {
            n
        } else {
            before.counter
        }
        &&& reply matches Ok(s) && s@ == answer(c, n)
    }

    open spec fn reports_imsi(
        before: Self,
        after: Self,
        reply: Result<String, ModemError>,
    ) -> bool {
        after == before && (reply matches Ok(s) && s@ == "001010123456789"@)
    }

    open spec fn reports_registration(
        before: Self,
        after: Self,
        reply: Result<NetworkRegistration, ModemError>,
    ) -> bool {
        after == before && reply == Ok::<NetworkRegistration, ModemError>(
            NetworkRegistration::RegisteredHome,
        )
    }

    fn model(&mut self) -> (r: Result<String, ModemError>) {
        Ok("EM12".to_string())
    }

    fn command(&mut self, cmd: &str, timeout_ms: u32) -> (r: Result<String, ModemError>) {
        let c = trim(cmd);
        if starts_with(c.as_str(), "AT+QENG=\"neighbourcell\"") {
            return Ok(self.synth_neighbourcell());
        }
        if starts_with(c.as_str(), "AT+QENG=\"servingcell\"") {
            return Ok(self.synth_servingcell());
        }
        if starts_with(c.as_str(), "AT+CIMI") {
            return Ok("001010123456789\r\nOK".to_string());
        }
        if starts_with(c.as_str(), "AT+CEREG?") {
            return Ok("+CEREG: 0,1\r\nOK".to_string());
        }
        if starts_with(c.as_str(), "AT+CREG?") {
            return Ok("+CREG: 0,1\r\nOK".to_string());
        }
        Ok("OK".to_string())
    }

    fn imsi(&mut self) -> (r: Result<String, ModemError>) {
        Ok("001010123456789".to_string())
    }

    fn registration_status(&mut self) -> (r: Result<NetworkRegistration, ModemError>) {
        proof {
            lemma_registered_at_home();
        }
        let eps = self.command("AT+CEREG?", QUERY_TIMEOUT_MS);
        match registration_from_eps(&eps) {
            Some(status) => Ok(status),
            None => registration_from_cs(self.command("AT+CREG?", QUERY_TIMEOUT_MS)),
        }
    }
}

/// The simulated modem always answers. The two questions of the engineering mode move its
/// counter on by one, each time; every other command leaves it alone.
pub proof fn simulated_modem_counts_its_queries(
    modem: &mut FakeModemAccess,
    cmd: &str,
    timeout_ms: u32,
    r: Result<String, ModemError>,
)
    requires
        call_ensures(<FakeModemAccess as ModemAccess>::command, (modem, cmd, timeout_ms), r),
    ensures
        r is Ok,
        ({
            let c = text::trimmed(cmd@);
            let queries = "AT+QENG=\"neighbourcell\""@.is_prefix_of(c)
                || "AT+QENG=\"servingcell\""@.is_prefix_of(c);
            &&& !queries ==> final(modem).counter == old(modem).counter
            &&& queries && old(modem).counter < u64::MAX ==> final(modem).counter
                == old(modem).counter + 1
            &&& queries && old(modem).counter == u64::MAX ==> final(modem).counter == 0
        }),
{
}

/// The simulated modem has its subscriber, is registered at home, and is of the model that
/// stands for a Quectel EM12.
pub proof fn simulated_modem_is_registered_at_home(
    modem: &mut FakeModemAccess,
    asked: &mut FakeModemAccess,
    found: &mut FakeModemAccess,
    imsi: Result<String, ModemError>,
    status: Result<NetworkRegistration, ModemError>,
    kind: Result<ModemType, ModemError>,
)
    requires
        call_ensures(<FakeModemAccess as ModemAccess>::imsi, (modem,), imsi),
        call_ensures(<FakeModemAccess as ModemAccess>::registration_status, (asked,), status),
        call_ensures(super::discover_modem::<FakeModemAccess>, (found,), kind),
    ensures
        imsi matches Ok(s) && s@ == "001010123456789"@,
        status == Ok::<NetworkRegistration, ModemError>(NetworkRegistration::RegisteredHome),
        kind == Ok::<ModemType, ModemError>(ModemType::QuectelEm12),
        *final(modem) == *old(modem) && *final(asked) == *old(asked) && *final(found) == *old(
            found,
        ),
{
    reveal_strlit("EM12");
    reveal_strlit("SIMCOM_SIM7600G-H");
    let m = "EM12"@;
    assert(m.subrange(0, 4) =~= m);
    assert(text::occurs_at(m, m, 0));
    assert forall|i: int| !#[trigger] text::occurs_at(m, "SIMCOM_SIM7600G-H"@, i) by {}
}

/// The neighbor cells' values stay inside their bands, whatever the counter.
pub proof fn neighbor_values_stay_in_band(n: u64)
    ensures
        -14 <= drift(n, 5, -12) <= -10,
        -110 <= drift(n, 21, -100) <= -90,
        -80 <= drift(n, 11, -75) <= -70,
        0 <= drift(n, 7, 3) <= 6,
        -16 <= drift(n, 5, -14) <= -12,
        -115 <= drift(n, 21, -105) <= -95,
        -85 <= drift(n, 11, -80) <= -75,
        -2 <= drift(n, 7, 1) <= 4,
{
}

/// A value drifts smoothly: from one query to the next it goes up by one, or from the top
/// of its band back to the bottom.
pub proof fn values_drift_by_one(n: u64, width: int, center: int)
    requires
        1 < width <= 21,
        n < u64::MAX,
    ensures
        drift((n + 1) as u64, width, center) == drift(n, width, center) + 1 || drift(
            (n + 1) as u64,
            width,
            center,
        ) == drift(n, width, center) - (width - 1),
{
    let a = n as int;
    vstd::arithmetic::div_mod::lemma_fundamental_div_mod(a, width);
    vstd::arithmetic::div_mod::lemma_fundamental_div_mod(a + 1, width);
    let (q, r) = (a / width, a % width);
    if r + 1 < width {
        vstd::arithmetic::div_mod::lemma_fundamental_div_mod_converse(a + 1, width, q, r + 1);
    } else {
        assert(a + 1 == (q + 1) * width) by (nonlinear_arith)
            requires
                a == width * q + r,
                r + 1 == width,
        ;
        vstd::arithmetic::div_mod::lemma_fundamental_div_mod_converse(a + 1, width, q + 1, 0);
    }
}

/// The records that the simulated modem makes up are written out field by field: the
/// serving cell's RSRP, RSRQ, RSSI, SINR and transmit power, and the signal values of two
/// neighbor cells with the ids 100 and 200, behind the counter's new value.
pub proof fn simulated_records_are_written_out(
    a: &mut FakeModemAccess,
    b: &mut FakeModemAccess,
    serving: String,
    neighbors: String,
)
    requires
        call_ensures(FakeModemAccess::synth_servingcell, (a,), serving),
        call_ensures(FakeModemAccess::synth_neighbourcell, (b,), neighbors),
    ensures
        ({
            let n = final(a).counter as int;
            let m = final(b).counter as int;
            &&& serving@
                == "+QENG: \"servingcell\",\"NOCONN\",\"LTE\",\"FDD\",001,01,\"1A2B3C4D\",250,1850,3,5,5,\"1234\""@
                + ","@ + text::signed_decimal(n % 21 - 100) + ","@ + text::signed_decimal(
                n % 7 - 13,
            ) + ","@ + text::signed_decimal(n % 11 - 70) + ","@ + text::signed_decimal(n % 11)
                + ",10"@ + ","@ + text::signed_decimal(n % 5 - 10) + ",42\r\nOK"@
            &&& neighbors@ == "+QENG: \"neighbourcell intra\",\"LTE\",1850,100"@ + ","@
                + text::signed_decimal(m % 5 - 14) + ","@ + text::signed_decimal(m % 21 - 110)
                + ","@ + text::signed_decimal(m % 11 - 80) + ","@ + text::signed_decimal(m % 7)
                + ",5,8,-,-\r\n"@ + ("+QENG: \"neighbourcell intra\",\"LTE\",1850,200"@ + ","@
                + text::signed_decimal(m % 5 - 16) + ","@ + text::signed_decimal(m % 21 - 115)
                + ","@ + text::signed_decimal(m % 11 - 85) + ","@ + text::signed_decimal(m % 7 - 2)
                + ",5,8,-,-\r\n"@) + "OK"@
        }),
{
    let n = final(a).counter;
    let m = final(b).counter;
    let start =
        "+QENG: \"servingcell\",\"NOCONN\",\"LTE\",\"FDD\",001,01,\"1A2B3C4D\",250,1850,3,5,5,\"1234\""@;
    assert(serving@ =~= start + ","@ + text::signed_decimal(drift(n, 21, -90)) + ","@
        + text::signed_decimal(drift(n, 7, -10)) + ","@ + text::signed_decimal(drift(n, 11, -65))
        + ","@ + text::signed_decimal(drift(n, 11, 5)) + ",10"@ + ","@ + text::signed_decimal(
        drift(n, 5, -8),
    ) + ",42\r\nOK"@);
    lemma_neighbor_record(
        m,
        "+QENG: \"neighbourcell intra\",\"LTE\",1850,100"@,
        -12,
        -100,
        -75,
        3,
    );
    lemma_neighbor_record(
        m,
        "+QENG: \"neighbourcell intra\",\"LTE\",1850,200"@,
        -14,
        -105,
        -80,
        1,
    );
}

proof fn lemma_neighbor_record(
    n: u64,
    head: Seq<char>,
    rsrq: int,
    rsrp: int,
    rssi: int,
    rssnr: int,
)
    ensures
        neighbor_record(n, head, rsrq, rsrp, rssi, rssnr) == head + ","@ + text::signed_decimal(
            drift(n, 5, rsrq),
        ) + ","@ + text::signed_decimal(drift(n, 21, rsrp)) + ","@ + text::signed_decimal(
            drift(n, 11, rssi),
        ) + ","@ + text::signed_decimal(drift(n, 7, rssnr)) + ",5,8,-,-\r\n"@,
{
    assert(neighbor_record(n, head, rsrq, rsrp, rssi, rssnr) =~= head + ","@
        + text::signed_decimal(drift(n, 5, rsrq)) + ","@ + text::signed_decimal(drift(n, 21, rsrp))
        + ","@ + text::signed_decimal(drift(n, 11, rssi)) + ","@ + text::signed_decimal(
        drift(n, 7, rssnr),
    ) + ",5,8,-,-\r\n"@);
}

} // verus!
