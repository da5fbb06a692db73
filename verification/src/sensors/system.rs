//! System-wide telemetry sensor: CPU temp/usage, memory, disks, load,
//! uptime, network bandwidth/IPs, and V4L2-probed cameras.

use vstd::arithmetic::div_mod::*;
use vstd::arithmetic::power2::*;
use vstd::prelude::*;
use vstd::string::*;

use super::Sensor;
use crate::arithmetic::{self, Dyadic, Value};
use crate::config::{copy_strings, SystemSensorConfig};
use crate::messages::telemetry::{
    CameraFormat, CameraInfo, DiskUsage, LoadAverage, NetworkInterfaceTelemetry, RamUsage,
    SystemTelemetry,
};
use crate::net::InterfaceIpv4;
use crate::number::{Binary32, Binary64};
use crate::text::{self, decimal_text, join, parse_i64, same_text, trim, utf8_text};
use crate::time::Duration;

verus! {

// ---------------------------------------------------------------------------
// Network bandwidth
// ---------------------------------------------------------------------------

/// A span in nanoseconds as a number of seconds with 53 bits: the whole seconds and
/// the fraction, each rounded, and their sum rounded again.
pub open spec fn seconds(elapsed_nanos: nat) -> Value {
    arithmetic::sum(
        arithmetic::of_int(elapsed_nanos / 1_000_000_000),
        arithmetic::quotient(
            arithmetic::of_int(elapsed_nanos % 1_000_000_000),
            arithmetic::of_int(1_000_000_000),
        ),
    )
}

/// The rate in bits per second, with 53 bits of precision and at most what 64 bits
/// hold.
pub open spec fn bits_per_second(delta_bytes: nat, elapsed_nanos: nat) -> nat {
    let rate = arithmetic::rounded(
        arithmetic::quotient(
            arithmetic::times_eight(arithmetic::of_int(delta_bytes)),
            seconds(elapsed_nanos),
        ),
    );
    if rate > u64::MAX {
        u64::MAX as nat
    } else {
        rate
    }
}

/// The rate between two counter readings: zero without a previous one, without time
/// in between, and where the counter went back.
pub open spec fn bps_of(prev_bytes: Option<u64>, curr_bytes: u64, elapsed_nanos: nat) -> nat {
    match prev_bytes {
        Some(prev) => if curr_bytes < prev || elapsed_nanos == 0 {
            0
        } else {
            bits_per_second((curr_bytes - prev) as nat, elapsed_nanos)
        },
        None => 0,
    }
}

/// The seconds of a span that is not empty.
fn seconds_of(elapsed: Duration) -> (r: Dyadic)
    requires
        elapsed.wf(),
        elapsed.total_nanos() > 0,
    ensures
        r@ == seconds(elapsed.total_nanos()),
        r.normal(),
        -600 < r.e < 600,
{
    proof {
        lemma_fundamental_div_mod_converse(
            elapsed.total_nanos() as int,
            1_000_000_000,
            elapsed.secs as int,
            elapsed.nanos as int,
        );
    }
    if elapsed.nanos == 0 {
        return Dyadic::of_int(elapsed.secs);
    }
    let fraction = Dyadic::of_int(elapsed.nanos as u64).quotient(&Dyadic::of_int(1_000_000_000));
    if elapsed.secs == 0 {
        return fraction;
    }
    Dyadic::of_int(elapsed.secs).sum(&fraction)
}

/// Compute outbound bits-per-second from a byte counter delta.
///
/// `prev_bytes` and `curr_bytes` are cumulative interface byte counters
/// (rx or tx). Returns 0 if `elapsed` is zero, the counter wrapped
/// or was reset (curr < prev), or `prev_bytes` is `None` (first tick).
pub fn compute_bps(prev_bytes: Option<u64>, curr_bytes: u64, elapsed: Duration) -> (r: u64)
    requires
        elapsed.wf(),
    ensures
        r == bps_of(prev_bytes, curr_bytes, elapsed.total_nanos()),
{
    let prev: u64 = match prev_bytes {
        Some(prev) => prev,
        None => {
            return 0;
        },
    };
    if curr_bytes < prev {
        return 0;
    }
    if elapsed.secs == 0 && elapsed.nanos == 0 {
        return 0;
    }
    let delta: u64 = curr_bytes - prev;
    if delta == 0 {
        proof {
            assert(0 * pow2(3) == 0);
        }
        return 0;
    }
    Dyadic::of_int(delta).times_eight().quotient(&seconds_of(elapsed)).rounded()
}

/// Returns true for interface names we always skip (loopback).
pub fn is_loopback(name: &str) -> (r: bool)
    ensures
        r == (name@ == "lo"@),
{
    same_text(name, "lo")
}

/// Cumulative byte counters of one interface.
#[derive(Debug)]
pub struct NetCounters {
    pub name: String,
    pub rx_bytes: u64,
    pub tx_bytes: u64,
}

/// The counters of the interface called `name`: those of the last entry of that name.
pub open spec fn counters_of(all: Seq<NetCounters>, name: Seq<char>) -> Option<(u64, u64)>
    decreases all.len(),
{
    if all.len() == 0 {
        None
    } else if all.last().name@ == name {
        Some((all.last().rx_bytes, all.last().tx_bytes))
    } else {
        counters_of(all.drop_last(), name)
    }
}

fn find_counters(all: &Vec<NetCounters>, name: &str) -> (r: Option<(u64, u64)>)
    ensures
        r == counters_of(all@, name@),
{
    let mut i: usize = all.len();
    assert(all@.take(all@.len() as int) =~= all@);
    while i > 0
        invariant
            i <= all.len(),
            counters_of(all@.take(i as int), name@) == counters_of(all@, name@),
        decreases i,
    {
        assert(all@.take(i as int).last() == all@[i - 1]);
        assert(all@.take(i as int).drop_last() =~= all@.take(i - 1));
        if same_text(all[i - 1].name.as_str(), name) {
            return Some((all[i - 1].rx_bytes, all[i - 1].tx_bytes));
        }
        i = i - 1;
    }
    None
}

/// The addresses of an interface in the map.
pub open spec fn mapped_addresses(map: Seq<InterfaceIpv4>, name: Seq<char>) -> Seq<Seq<char>>
    decreases map.len(),
{
    if map.len() == 0 {
        Seq::empty()
    } else if map[0].name@ == name {
        text::texts(map[0].addresses@)
    } else {
        mapped_addresses(map.drop_first(), name)
    }
}

proof fn lemma_mapped_at(map: Seq<InterfaceIpv4>, name: Seq<char>, i: int)
    requires
        0 <= i <= map.len(),
        i < map.len() ==> map[i].name@ == name,
        forall|j: int| 0 <= j < i ==> (#[trigger] map[j]).name@ != name,
    ensures
        mapped_addresses(map, name) == (if i < map.len() {
            text::texts(map[i].addresses@)
        } else {
            Seq::empty()
        }),
    decreases i,
{
    if i > 0 {
        let t = map.drop_first();
        assert(map[0].name@ != name);
        assert forall|j: int| 0 <= j < i - 1 implies (#[trigger] t[j]).name@ != name by {
            assert(t[j] == map[j + 1]);
        }
        if i < map.len() {
            assert(t[i - 1] == map[i]);
        }
        lemma_mapped_at(t, name, i - 1);
    }
}

fn find_addresses(map: &Vec<InterfaceIpv4>, name: &str) -> (r: Vec<String>)
    ensures
        text::texts(r@) == mapped_addresses(map@, name@),
{
    for i in 0..map.len()
        invariant
            forall|j: int| 0 <= j < i ==> (#[trigger] map@[j]).name@ != name@,
    {
        if same_text(map[i].name.as_str(), name) {
            proof {
                lemma_mapped_at(map@, name@, i as int);
            }
            return copy_strings(&map[i].addresses);
        }
    }
    proof {
        lemma_mapped_at(map@, name@, map@.len() as int);
    }
    let none: Vec<String> = Vec::new();
    assert(text::texts(none@) =~= Seq::<Seq<char>>::empty());
    none
}

/// `t` is the report on the interface with the counters `c`.
pub open spec fn reports_interface(
    t: NetworkInterfaceTelemetry,
    c: NetCounters,
    prev: Seq<NetCounters>,
    ipv4: Seq<InterfaceIpv4>,
    elapsed_nanos: nat,
) -> bool {
    let before = counters_of(prev, c.name@);
    &&& t.name@ == c.name@
    &&& text::texts(t.ipv4@) == mapped_addresses(ipv4, c.name@)
    &&& t.rx_bps == bps_of(
        match before {
            Some((rx, _)) => Some(rx),
            None => None,
        },
        c.rx_bytes,
        elapsed_nanos,
    )
    &&& t.tx_bps == bps_of(
        match before {
            Some((_, tx)) => Some(tx),
            None => None,
        },
        c.tx_bytes,
        elapsed_nanos,
    )
}

/// The counters of all interfaces but the loopback one, in their order.
pub open spec fn reported(all: Seq<NetCounters>) -> Seq<NetCounters>
    decreases all.len(),
{
    if all.len() == 0 {
        Seq::empty()
    } else if all.last().name@ == "lo"@ {
        reported(all.drop_last())
    } else {
        reported(all.drop_last()).push(all.last())
    }
}

/// `r` reports on all interfaces but the loopback one, in their order.
pub open spec fn reports_interfaces(
    r: Seq<NetworkInterfaceTelemetry>,
    curr: Seq<NetCounters>,
    prev: Seq<NetCounters>,
    ipv4: Seq<InterfaceIpv4>,
    elapsed_nanos: nat,
) -> bool {
    &&& r.len() == reported(curr).len()
    &&& forall|i: int|
        0 <= i < r.len() ==> reports_interface(
            #[trigger] r[i],
            reported(curr)[i],
            prev,
            ipv4,
            elapsed_nanos,
        )
}

/// The bandwidth and addresses of all interfaces but the loopback one.
pub fn network_telemetry(
    prev: &Vec<NetCounters>,
    curr: &Vec<NetCounters>,
    ipv4: &Vec<InterfaceIpv4>,
    elapsed: Duration,
) -> (r: Vec<NetworkInterfaceTelemetry>)
    requires
        elapsed.wf(),
    ensures
        reports_interfaces(r@, curr@, prev@, ipv4@, elapsed.total_nanos()),
{
    let mut out: Vec<NetworkInterfaceTelemetry> = Vec::new();
    for i in 0..curr.len()
        invariant
            elapsed.wf(),
            reports_interfaces(
                out@,
                curr@.take(i as int),
                prev@,
                ipv4@,
                elapsed.total_nanos(),
            ),
    {
        let c = &curr[i];
        let ghost seen = reported(curr@.take(i as int));
        let ghost before = out@;
        proof {
            assert(curr@.take(i + 1).drop_last() =~= curr@.take(i as int));
            assert(curr@.take(i + 1).last() == *c);
        }
        if !is_loopback(c.name.as_str()) {
            let known = find_counters(prev, c.name.as_str());
            let rx_bps: u64 = compute_bps(
                match known {
                    Some((rx, _)) => Some(rx),
                    None => None,
                },
                c.rx_bytes,
                elapsed,
            );
            let tx_bps: u64 = compute_bps(
                match known {
                    Some((_, tx)) => Some(tx),
                    None => None,
                },
                c.tx_bytes,
                elapsed,
            );
            let t = NetworkInterfaceTelemetry {
                name: c.name.clone(),
                ipv4: find_addresses(ipv4, c.name.as_str()),
                rx_bps,
                tx_bps,
            };
            out.push(t);
            proof {
                let now = reported(curr@.take(i + 1));
                assert(now == seen.push(*c));
                assert forall|j: int| 0 <= j < out@.len() implies reports_interface(
                    #[trigger] out@[j],
                    now[j],
                    prev@,
                    ipv4@,
                    elapsed.total_nanos(),
                ) by {
                    if j < before.len() {
                        assert(out@[j] == before[j]);
                        assert(now[j] == seen[j]);
                    }
                }
            }
        }
    }
    assert(curr@.take(curr@.len() as int) =~= curr@);
    out
}

/// There is no rate without a previous reading, without time in between, where the
/// counter went back, and where it stood still.
pub proof fn still_counters_have_no_rate(
    prev: Option<u64>,
    curr: u64,
    elapsed: Duration,
    r: u64,
)
    requires
        call_ensures(compute_bps, (prev, curr, elapsed), r),
    ensures
        prev is None ==> r == 0,
        elapsed.secs == 0 && elapsed.nanos == 0 ==> r == 0,
        prev matches Some(p) ==> (curr <= p ==> r == 0),
{
    assert(0 * pow2(3) == 0);
}

/// The rate depends on how far the counter moved and on the time that took, not on where
/// the counter stood.
pub proof fn rate_depends_on_the_difference(
    a: u64,
    b: u64,
    c: u64,
    d: u64,
    elapsed: Duration,
    r: u64,
    other: u64,
)
    requires
        call_ensures(compute_bps, (Some(a), b, elapsed), r),
        call_ensures(compute_bps, (Some(c), d, elapsed), other),
        b - a == d - c,
    ensures
        r == other,
{
}

/// Over a whole number of seconds, a rate that is a whole number of bits per second is told
/// exactly: it is eight times the bytes over the seconds.
pub proof fn whole_rates_are_exact(prev: u64, curr: u64, elapsed: Duration, rate: u64, r: u64)
    requires
        call_ensures(compute_bps, (Some(prev), curr, elapsed), r),
        prev < curr,
        curr - prev < 0x20_0000_0000_0000,
        0 < elapsed.secs < 0x20_0000_0000_0000,
        elapsed.nanos == 0,
        8 * (curr - prev) == elapsed.secs * rate,
        rate < 0x20_0000_0000_0000,
    ensures
        r == rate,
{
    let delta = (curr - prev) as nat;
    let secs = elapsed.secs as nat;
    assert(rate > 0) by (nonlinear_arith)
        requires
            8 * delta == secs * rate,
            delta > 0,
    ;
    lemma_fundamental_div_mod_converse(
        elapsed.total_nanos() as int,
        1_000_000_000,
        secs as int,
        0,
    );
    arithmetic::whole_quotients_are_exact(delta, secs, rate as nat);
    assert(seconds(elapsed.total_nanos()) == arithmetic::of_int(secs));
}

/// The last entry of a name counts.
proof fn lemma_counters_at(all: Seq<NetCounters>, name: Seq<char>, i: int)
    requires
        0 <= i < all.len(),
        all[i].name@ == name,
        forall|j: int| i < j < all.len() ==> (#[trigger] all[j]).name@ != name,
    ensures
        counters_of(all, name) == Some((all[i].rx_bytes, all[i].tx_bytes)),
    decreases all.len(),
{
    if i < all.len() - 1 {
        let t = all.drop_last();
        assert(all[all.len() - 1].name@ != name);
        assert forall|j: int| i < j < t.len() implies (#[trigger] t[j]).name@ != name by {
            assert(t[j] == all[j]);
        }
        lemma_counters_at(t, name, i);
    }
}

proof fn lemma_no_counters(all: Seq<NetCounters>, name: Seq<char>)
    requires
        forall|j: int| 0 <= j < all.len() ==> (#[trigger] all[j]).name@ != name,
    ensures
        counters_of(all, name) is None,
    decreases all.len(),
{
    if all.len() > 0 {
        let t = all.drop_last();
        assert(all[all.len() - 1].name@ != name);
        assert forall|j: int| 0 <= j < t.len() implies (#[trigger] t[j]).name@ != name by {
            assert(t[j] == all[j]);
        }
        lemma_no_counters(t, name);
    }
}

proof fn lemma_reported_is_filter(all: Seq<NetCounters>)
    ensures
        reported(all) == all.filter(|c: NetCounters| c.name@ != "lo"@),
    decreases all.len(),
{
    reveal(Seq::filter);
    if all.len() > 0 {
        lemma_reported_is_filter(all.drop_last());
    }
}

/// Every interface but the loopback one is reported, in the order of the counters, under
/// its own name.
pub proof fn all_interfaces_but_loopback_are_reported(
    prev: &Vec<NetCounters>,
    curr: &Vec<NetCounters>,
    ipv4: &Vec<InterfaceIpv4>,
    elapsed: Duration,
    r: Vec<NetworkInterfaceTelemetry>,
)
    requires
        call_ensures(network_telemetry, (prev, curr, ipv4, elapsed), r),
    ensures
        ({
            let shown = curr@.filter(|c: NetCounters| c.name@ != "lo"@);
            &&& r@.len() == shown.len()
            &&& forall|k: int| 0 <= k < r@.len() ==> (#[trigger] r@[k]).name@ == shown[k].name@
        }),
{
    lemma_reported_is_filter(curr@);
}

/// Each rate of a reported interface comes from that interface's own counter and the
/// time in between: the receive rate from the received bytes, the transmit rate from the
/// transmitted ones, each against the same counter of the previous reading. Without a
/// previous reading of the interface both are zero.
pub proof fn rates_come_from_their_own_counters(
    prev: &Vec<NetCounters>,
    curr: &Vec<NetCounters>,
    ipv4: &Vec<InterfaceIpv4>,
    elapsed: Duration,
    r: Vec<NetworkInterfaceTelemetry>,
    k: int,
)
    requires
        call_ensures(network_telemetry, (prev, curr, ipv4, elapsed), r),
        0 <= k < r@.len(),
    ensures
        ({
            let c = curr@.filter(|c: NetCounters| c.name@ != "lo"@)[k];
            &&& forall|i: int|
                0 <= i < prev@.len() && (#[trigger] prev@[i]).name@ == r@[k].name@ && (forall|
                    j: int,
                |
                    i < j < prev@.len() ==> (#[trigger] prev@[j]).name@ != r@[k].name@) ==> {
                    &&& r@[k].rx_bps == bps_of(
                        Some(prev@[i].rx_bytes),
                        c.rx_bytes,
                        elapsed.total_nanos(),
                    )
                    &&& r@[k].tx_bps == bps_of(
                        Some(prev@[i].tx_bytes),
                        c.tx_bytes,
                        elapsed.total_nanos(),
                    )
                }
            &&& (forall|i: int|
                0 <= i < prev@.len() ==> (#[trigger] prev@[i]).name@ != r@[k].name@)
                ==> r@[k].rx_bps == 0 && r@[k].tx_bps == 0
        }),
{
    lemma_reported_is_filter(curr@);
    let c = reported(curr@)[k];
    let name = r@[k].name@;
    assert(reports_interface(r@[k], c, prev@, ipv4@, elapsed.total_nanos()));
    assert forall|i: int|
        0 <= i < prev@.len() && (#[trigger] prev@[i]).name@ == name && (forall|j: int|
            i < j < prev@.len() ==> (#[trigger] prev@[j]).name@ != name) implies {
        &&& r@[k].rx_bps == bps_of(Some(prev@[i].rx_bytes), c.rx_bytes, elapsed.total_nanos())
        &&& r@[k].tx_bps == bps_of(Some(prev@[i].tx_bytes), c.tx_bytes, elapsed.total_nanos())
    } by {
        lemma_counters_at(prev@, name, i);
    }
    if forall|i: int| 0 <= i < prev@.len() ==> (#[trigger] prev@[i]).name@ != name {
        lemma_no_counters(prev@, name);
    }
}

/// `b` holds the counters of `a` with the received and the transmitted bytes exchanged.
pub open spec fn exchanged(a: Seq<NetCounters>, b: Seq<NetCounters>) -> bool {
    &&& a.len() == b.len()
    &&& forall|i: int|
        0 <= i < a.len() ==> (#[trigger] b[i]).name@ == a[i].name@ && b[i].rx_bytes
            == a[i].tx_bytes && b[i].tx_bytes == a[i].rx_bytes
}

/// `a` and `b` tell the same names and transmitted bytes.
pub open spec fn same_transmitted(a: Seq<NetCounters>, b: Seq<NetCounters>) -> bool {
    &&& a.len() == b.len()
    &&& forall|i: int|
        0 <= i < a.len() ==> (#[trigger] b[i]).name@ == a[i].name@ && b[i].tx_bytes
            == a[i].tx_bytes
}

/// `a` and `b` tell the same names and received bytes.
pub open spec fn same_received(a: Seq<NetCounters>, b: Seq<NetCounters>) -> bool {
    &&& a.len() == b.len()
    &&& forall|i: int|
        0 <= i < a.len() ==> (#[trigger] b[i]).name@ == a[i].name@ && b[i].rx_bytes
            == a[i].rx_bytes
}

proof fn lemma_counters_exchanged(a: Seq<NetCounters>, b: Seq<NetCounters>, name: Seq<char>)
    requires
        exchanged(a, b),
    ensures
        counters_of(b, name) == (match counters_of(a, name) {
            Some((rx, tx)) => Some((tx, rx)),
            None => None,
        }),
    decreases a.len(),
{
    if a.len() > 0 {
        assert(b[b.len() - 1].name@ == a[a.len() - 1].name@);
        let (s, t) = (a.drop_last(), b.drop_last());
        assert forall|i: int| 0 <= i < s.len() implies (#[trigger] t[i]).name@ == s[i].name@
            && t[i].rx_bytes == s[i].tx_bytes && t[i].tx_bytes == s[i].rx_bytes by {
            assert(t[i] == b[i]);
        }
        lemma_counters_exchanged(s, t, name);
    }
}

proof fn lemma_counters_transmitted(a: Seq<NetCounters>, b: Seq<NetCounters>, name: Seq<char>)
    requires
        same_transmitted(a, b),
    ensures
        match (counters_of(a, name), counters_of(b, name)) {
            (Some((_, x)), Some((_, y))) => x == y,
            (None, None) => true,
            _ => false,
        },
    decreases a.len(),
{
    if a.len() > 0 {
        assert(b[b.len() - 1].name@ == a[a.len() - 1].name@);
        let (s, t) = (a.drop_last(), b.drop_last());
        assert forall|i: int| 0 <= i < s.len() implies (#[trigger] t[i]).name@ == s[i].name@
            && t[i].tx_bytes == s[i].tx_bytes by {
            assert(t[i] == b[i]);
        }
        lemma_counters_transmitted(s, t, name);
    }
}

proof fn lemma_counters_received(a: Seq<NetCounters>, b: Seq<NetCounters>, name: Seq<char>)
    requires
        same_received(a, b),
    ensures
        match (counters_of(a, name), counters_of(b, name)) {
            (Some((x, _)), Some((y, _))) => x == y,
            (None, None) => true,
            _ => false,
        },
    decreases a.len(),
{
    if a.len() > 0 {
        assert(b[b.len() - 1].name@ == a[a.len() - 1].name@);
        let (s, t) = (a.drop_last(), b.drop_last());
        assert forall|i: int| 0 <= i < s.len() implies (#[trigger] t[i]).name@ == s[i].name@
            && t[i].rx_bytes == s[i].rx_bytes by {
            assert(t[i] == b[i]);
        }
        lemma_counters_received(s, t, name);
    }
}

proof fn lemma_reported_exchanged(a: Seq<NetCounters>, b: Seq<NetCounters>)
    requires
        exchanged(a, b),
    ensures
        exchanged(reported(a), reported(b)),
    decreases a.len(),
{
    if a.len() > 0 {
        assert(b[b.len() - 1].name@ == a[a.len() - 1].name@);
        let (s, t) = (a.drop_last(), b.drop_last());
        assert forall|i: int| 0 <= i < s.len() implies (#[trigger] t[i]).name@ == s[i].name@
            && t[i].rx_bytes == s[i].tx_bytes && t[i].tx_bytes == s[i].rx_bytes by {
            assert(t[i] == b[i]);
        }
        lemma_reported_exchanged(s, t);
    }
}

proof fn lemma_reported_transmitted(a: Seq<NetCounters>, b: Seq<NetCounters>)
    requires
        same_transmitted(a, b),
    ensures
        same_transmitted(reported(a), reported(b)),
    decreases a.len(),
{
    if a.len() > 0 {
        assert(b[b.len() - 1].name@ == a[a.len() - 1].name@);
        let (s, t) = (a.drop_last(), b.drop_last());
        assert forall|i: int| 0 <= i < s.len() implies (#[trigger] t[i]).name@ == s[i].name@
            && t[i].tx_bytes == s[i].tx_bytes by {
            assert(t[i] == b[i]);
        }
        lemma_reported_transmitted(s, t);
    }
}

proof fn lemma_reported_received(a: Seq<NetCounters>, b: Seq<NetCounters>)
    requires
        same_received(a, b),
    ensures
        same_received(reported(a), reported(b)),
    decreases a.len(),
{
    if a.len() > 0 {
        assert(b[b.len() - 1].name@ == a[a.len() - 1].name@);
        let (s, t) = (a.drop_last(), b.drop_last());
        assert forall|i: int| 0 <= i < s.len() implies (#[trigger] t[i]).name@ == s[i].name@
            && t[i].rx_bytes == s[i].rx_bytes by {
            assert(t[i] == b[i]);
        }
        lemma_reported_received(s, t);
    }
}

/// Exchanging the received and the transmitted bytes of all interfaces, before and after,
/// exchanges the two rates of every report and changes nothing else.
pub proof fn exchanged_counters_exchange_the_rates(
    prev: &Vec<NetCounters>,
    curr: &Vec<NetCounters>,
    prev_exchanged: &Vec<NetCounters>,
    curr_exchanged: &Vec<NetCounters>,
    ipv4: &Vec<InterfaceIpv4>,
    elapsed: Duration,
    r: Vec<NetworkInterfaceTelemetry>,
    s: Vec<NetworkInterfaceTelemetry>,
)
    requires
        call_ensures(network_telemetry, (prev, curr, ipv4, elapsed), r),
        call_ensures(network_telemetry, (prev_exchanged, curr_exchanged, ipv4, elapsed), s),
        exchanged(prev@, prev_exchanged@),
        exchanged(curr@, curr_exchanged@),
    ensures
        s@.len() == r@.len(),
        forall|k: int|
            0 <= k < r@.len() ==> (#[trigger] s@[k]).rx_bps == r@[k].tx_bps && s@[k].tx_bps
                == r@[k].rx_bps && s@[k].name@ == r@[k].name@ && text::texts(s@[k].ipv4@)
                == text::texts(r@[k].ipv4@),
{
    let nanos = elapsed.total_nanos();
    lemma_reported_exchanged(curr@, curr_exchanged@);
    assert forall|k: int| 0 <= k < r@.len() implies (#[trigger] s@[k]).rx_bps == r@[k].tx_bps
        && s@[k].tx_bps == r@[k].rx_bps && s@[k].name@ == r@[k].name@ && text::texts(s@[k].ipv4@)
        == text::texts(r@[k].ipv4@) by {
        let c = reported(curr@)[k];
        let d = reported(curr_exchanged@)[k];
        assert(reports_interface(r@[k], c, prev@, ipv4@, nanos));
        assert(reports_interface(s@[k], d, prev_exchanged@, ipv4@, nanos));
        lemma_counters_exchanged(prev@, prev_exchanged@, c.name@);
    }
}

/// The transmit rates depend on the transmitted bytes and the time in between only,
/// whatever was received.
pub proof fn transmit_rates_ignore_received_bytes(
    prev: &Vec<NetCounters>,
    curr: &Vec<NetCounters>,
    other_prev: &Vec<NetCounters>,
    other_curr: &Vec<NetCounters>,
    ipv4: &Vec<InterfaceIpv4>,
    elapsed: Duration,
    r: Vec<NetworkInterfaceTelemetry>,
    s: Vec<NetworkInterfaceTelemetry>,
)
    requires
        call_ensures(network_telemetry, (prev, curr, ipv4, elapsed), r),
        call_ensures(network_telemetry, (other_prev, other_curr, ipv4, elapsed), s),
        same_transmitted(prev@, other_prev@),
        same_transmitted(curr@, other_curr@),
    ensures
        s@.len() == r@.len(),
        forall|k: int| 0 <= k < r@.len() ==> (#[trigger] s@[k]).tx_bps == r@[k].tx_bps,
{
    let nanos = elapsed.total_nanos();
    lemma_reported_transmitted(curr@, other_curr@);
    assert forall|k: int| 0 <= k < r@.len() implies (#[trigger] s@[k]).tx_bps == r@[k].tx_bps by {
        let c = reported(curr@)[k];
        let d = reported(other_curr@)[k];
        assert(reports_interface(r@[k], c, prev@, ipv4@, nanos));
        assert(reports_interface(s@[k], d, other_prev@, ipv4@, nanos));
        lemma_counters_transmitted(prev@, other_prev@, c.name@);
    }
}

/// The receive rates depend on the received bytes and the time in between only,
/// whatever was transmitted.
pub proof fn receive_rates_ignore_transmitted_bytes(
    prev: &Vec<NetCounters>,
    curr: &Vec<NetCounters>,
    other_prev: &Vec<NetCounters>,
    other_curr: &Vec<NetCounters>,
    ipv4: &Vec<InterfaceIpv4>,
    elapsed: Duration,
    r: Vec<NetworkInterfaceTelemetry>,
    s: Vec<NetworkInterfaceTelemetry>,
)
    requires
        call_ensures(network_telemetry, (prev, curr, ipv4, elapsed), r),
        call_ensures(network_telemetry, (other_prev, other_curr, ipv4, elapsed), s),
        same_received(prev@, other_prev@),
        same_received(curr@, other_curr@),
    ensures
        s@.len() == r@.len(),
        forall|k: int| 0 <= k < r@.len() ==> (#[trigger] s@[k]).rx_bps == r@[k].rx_bps,
{
    let nanos = elapsed.total_nanos();
    lemma_reported_received(curr@, other_curr@);
    assert forall|k: int| 0 <= k < r@.len() implies (#[trigger] s@[k]).rx_bps == r@[k].rx_bps by {
        let c = reported(curr@)[k];
        let d = reported(other_curr@)[k];
        assert(reports_interface(r@[k], c, prev@, ipv4@, nanos));
        assert(reports_interface(s@[k], d, other_prev@, ipv4@, nanos));
        lemma_counters_received(prev@, other_prev@, c.name@);
    }
}

/// An interface is reported with its own addresses: those of the first entry of its name
/// in the map, and none where the map has no such entry.
pub proof fn interfaces_show_their_own_addresses(
    prev: &Vec<NetCounters>,
    curr: &Vec<NetCounters>,
    ipv4: &Vec<InterfaceIpv4>,
    elapsed: Duration,
    r: Vec<NetworkInterfaceTelemetry>,
    k: int,
)
    requires
        call_ensures(network_telemetry, (prev, curr, ipv4, elapsed), r),
        0 <= k < r@.len(),
    ensures
        forall|i: int|
            0 <= i < ipv4@.len() && (#[trigger] ipv4@[i]).name@ == r@[k].name@ && (forall|j: int|
                0 <= j < i ==> (#[trigger] ipv4@[j]).name@ != r@[k].name@) ==> text::texts(
                r@[k].ipv4@,
            ) == text::texts(ipv4@[i].addresses@),
        (forall|i: int| 0 <= i < ipv4@.len() ==> (#[trigger] ipv4@[i]).name@ != r@[k].name@)
            ==> r@[k].ipv4@.len() == 0,
{
    let name = r@[k].name@;
    assert(reports_interface(r@[k], reported(curr@)[k], prev@, ipv4@, elapsed.total_nanos()));
    assert forall|i: int|
        0 <= i < ipv4@.len() && (#[trigger] ipv4@[i]).name@ == name && (forall|j: int|
            0 <= j < i ==> (#[trigger] ipv4@[j]).name@ != name) implies text::texts(r@[k].ipv4@)
        == text::texts(ipv4@[i].addresses@) by {
        lemma_mapped_at(ipv4@, name, i);
    }
    if forall|i: int| 0 <= i < ipv4@.len() ==> (#[trigger] ipv4@[i]).name@ != name {
        lemma_mapped_at(ipv4@, name, ipv4@.len() as int);
        assert(text::texts(r@[k].ipv4@).len() == 0);
    }
}

// ---------------------------------------------------------------------------
// Cameras
// ---------------------------------------------------------------------------

/// `s` without trailing NUL characters.
pub open spec fn trim_nuls(s: Seq<char>) -> Seq<char>
    decreases s.len(),
{
    if s.len() > 0 && s.last() == '\0' {
        trim_nuls(s.drop_last())
    } else {
        s
    }
}

/// Four bytes as a list of numbers.
pub open spec fn byte_list(b: [u8; 4]) -> Seq<char> {
    "["@ + text::decimal(b[0] as nat) + ", "@ + text::decimal(b[1] as nat) + ", "@ + text::decimal(
        b[2] as nat,
    ) + ", "@ + text::decimal(b[3] as nat) + "]"@
}

/// The name of a pixel format: its four-character code without padding, or its bytes
/// where they are no text.
pub open spec fn fourcc_name(b: [u8; 4]) -> Seq<char> {
    if vstd::utf8::valid_utf8(b@) {
        trim_nuls(vstd::utf8::decode_utf8(b@))
    } else {
        byte_list(b)
    }
}

/// The text without trailing NUL characters.
fn without_nuls(s: &str) -> (r: String)
    ensures
        r@ == trim_nuls(s@),
{
    let mut n: usize = s.unicode_len();
    assert(s@.take(n as int) =~= s@);
    while n > 0 && s.get_char(n - 1) == '\0'
        invariant
            n <= s@.len(),
            trim_nuls(s@.take(n as int)) == trim_nuls(s@),
        decreases n,
    {
        assert(s@.take(n as int).drop_last() =~= s@.take(n - 1));
        assert(s@.take(n as int).last() == s@[n - 1]);
        n = n - 1;
    }
    assert(n > 0 ==> s@.take(n as int).last() == s@[n - 1]);
    s.substring_char(0, n).to_string()
}

/// The name of a pixel format.
pub fn fourcc_text(b: [u8; 4]) -> (r: String)
    ensures
        r@ == fourcc_name(b),
{
    match utf8_text(b.as_slice()) {
        Some(s) => without_nuls(s.as_str()),
        None => "[".to_string().concat(decimal_text(b[0] as u128).as_str()).concat(", ").concat(
            decimal_text(b[1] as u128).as_str(),
        ).concat(", ").concat(decimal_text(b[2] as u128).as_str()).concat(", ").concat(
            decimal_text(b[3] as u128).as_str(),
        ).concat("]"),
    }
}

/// A frame size that a camera offers.
#[derive(Debug, Clone, Copy, PartialEq, Eq, Structural)]
pub enum FrameSize {
    Discrete { width: u32, height: u32 },
    /// A range of sizes.
    Stepwise,
}

/// A pixel format that a camera offers, with its frame sizes where they can be told.
#[derive(Debug)]
pub struct ProbedFormat {
    pub fourcc: [u8; 4],
    pub sizes: Option<Vec<FrameSize>>,
}

/// What a camera format is.
pub type FormatView = (Seq<char>, u32, u32);

/// What a list of camera formats is.
pub open spec fn format_views(formats: Seq<CameraFormat>) -> Seq<FormatView> {
    Seq::new(formats.len(), |i: int| (formats[i].fourcc@, formats[i].width, formats[i].height))
}

/// The discrete sizes, under the given format's name.
pub open spec fn discrete_sizes(name: Seq<char>, sizes: Seq<FrameSize>) -> Seq<FormatView>
    decreases sizes.len(),
{
    if sizes.len() == 0 {
        Seq::empty()
    } else {
        match sizes.last() {
            FrameSize::Discrete { width, height } => discrete_sizes(name, sizes.drop_last()).push(
                (name, width, height),
            ),
            FrameSize::Stepwise => discrete_sizes(name, sizes.drop_last()),
        }
    }
}

/// The formats of a camera: every discrete size of every pixel format whose sizes can
/// be told.
pub open spec fn formats_of(probed: Seq<ProbedFormat>) -> Seq<FormatView>
    decreases probed.len(),
{
    if probed.len() == 0 {
        Seq::empty()
    } else {
        match probed.last().sizes {
            Some(sizes) => formats_of(probed.drop_last()) + discrete_sizes(
                fourcc_name(probed.last().fourcc),
                sizes@,
            ),
            None => formats_of(probed.drop_last()),
        }
    }
}

fn push_sizes(out: &mut Vec<CameraFormat>, name: &String, sizes: &Vec<FrameSize>)
    ensures
        format_views(final(out)@) == format_views(old(out)@) + discrete_sizes(name@, sizes@),
{
    assert(format_views(out@) =~= format_views(old(out)@) + discrete_sizes(name@, sizes@.take(0)));
    for i in 0..sizes.len()
        invariant
            format_views(out@) == format_views(old(out)@) + discrete_sizes(
                name@,
                sizes@.take(i as int),
            ),
    {
        let ghost before = out@;
        proof {
            assert(sizes@.take(i + 1).drop_last() =~= sizes@.take(i as int));
            assert(sizes@.take(i + 1).last() == sizes@[i as int]);
        }
        match sizes[i] {
            FrameSize::Discrete { width, height } => {
                out.push(CameraFormat { fourcc: name.clone(), width, height });
                assert(format_views(out@) =~= format_views(before).push((name@, width, height)));
                assert(format_views(out@) =~= format_views(old(out)@) + discrete_sizes(
                    name@,
                    sizes@.take(i + 1),
                ));
            },
            FrameSize::Stepwise => {},
        }
    }
    assert(sizes@.take(sizes@.len() as int) =~= sizes@);
}

/// What is known of a camera once it has been probed: the device, its card and driver
/// names, and its formats. Frame size enumeration only emits *discrete* sizes
/// (stepwise/continuous ranges are skipped).
pub fn camera_info(device: &str, card: String, driver: String, probed: &Vec<ProbedFormat>) -> (r:
    CameraInfo)
    ensures
        r.device@ == device@,
        r.name == Some(card),
        r.driver == Some(driver),
        format_views(r.formats@) == formats_of(probed@),
{
    let mut formats: Vec<CameraFormat> = Vec::new();
    assert(format_views(formats@) =~= formats_of(probed@.take(0)));
    for i in 0..probed.len()
        invariant
            format_views(formats@) == formats_of(probed@.take(i as int)),
    {
        proof {
            assert(probed@.take(i + 1).drop_last() =~= probed@.take(i as int));
            assert(probed@.take(i + 1).last() == probed@[i as int]);
        }
        let name = fourcc_text(probed[i].fourcc);
        if let Some(sizes) = &probed[i].sizes {
            push_sizes(&mut formats, &name, sizes);
        }
    }
    assert(probed@.take(probed@.len() as int) =~= probed@);
    CameraInfo { device: device.to_string(), name: Some(card), driver: Some(driver), formats }
}

proof fn lemma_discrete_size_is_listed(name: Seq<char>, sizes: Seq<FrameSize>, i: int)
    requires
        0 <= i < sizes.len(),
        sizes[i] is Discrete,
    ensures
        discrete_sizes(name, sizes).contains(
            (name, sizes[i]->Discrete_width, sizes[i]->Discrete_height),
        ),
    decreases sizes.len(),
{
    let init = sizes.drop_last();
    let listed = discrete_sizes(name, sizes);
    let item = (name, sizes[i]->Discrete_width, sizes[i]->Discrete_height);
    if i == sizes.len() - 1 {
        assert(listed.last() == item);
    } else {
        assert(init[i] == sizes[i]);
        lemma_discrete_size_is_listed(name, init, i);
        let before = discrete_sizes(name, init);
        let k = choose|k: int| 0 <= k < before.len() && before[k] == item;
        assert(listed[k] == item);
    }
}

proof fn lemma_listed_size_is_discrete(name: Seq<char>, sizes: Seq<FrameSize>, k: int) -> (i: int)
    requires
        0 <= k < discrete_sizes(name, sizes).len(),
    ensures
        0 <= i < sizes.len(),
        sizes[i] is Discrete,
        discrete_sizes(name, sizes)[k] == (
            name,
            sizes[i]->Discrete_width,
            sizes[i]->Discrete_height,
        ),
    decreases sizes.len(),
{
    let init = sizes.drop_last();
    if sizes.last() is Discrete && k == discrete_sizes(name, init).len() {
        sizes.len() - 1
    } else {
        let i = lemma_listed_size_is_discrete(name, init, k);
        assert(init[i] == sizes[i]);
        i
    }
}

proof fn lemma_format_is_listed(probed: Seq<ProbedFormat>, p: int, i: int)
    requires
        0 <= p < probed.len(),
        probed[p].sizes is Some,
        0 <= i < probed[p].sizes->0@.len(),
        probed[p].sizes->0@[i] is Discrete,
    ensures
        formats_of(probed).contains(
            (
                fourcc_name(probed[p].fourcc),
                probed[p].sizes->0@[i]->Discrete_width,
                probed[p].sizes->0@[i]->Discrete_height,
            ),
        ),
    decreases probed.len(),
{
    let init = probed.drop_last();
    let listed = formats_of(probed);
    let sizes = probed[p].sizes->0@;
    let item = (
        fourcc_name(probed[p].fourcc),
        sizes[i]->Discrete_width,
        sizes[i]->Discrete_height,
    );
    if p == probed.len() - 1 {
        let own = discrete_sizes(fourcc_name(probed[p].fourcc), sizes);
        lemma_discrete_size_is_listed(fourcc_name(probed[p].fourcc), sizes, i);
        let k = choose|k: int| 0 <= k < own.len() && own[k] == item;
        assert(listed[formats_of(init).len() + k] == item);
    } else {
        assert(init[p] == probed[p]);
        lemma_format_is_listed(init, p, i);
        let k = choose|k: int| 0 <= k < formats_of(init).len() && formats_of(init)[k] == item;
        assert(listed[k] == item);
    }
}

proof fn lemma_listed_format_was_probed(probed: Seq<ProbedFormat>, k: int) -> (at: (int, int))
    requires
        0 <= k < formats_of(probed).len(),
    ensures
        0 <= at.0 < probed.len(),
        probed[at.0].sizes is Some,
        0 <= at.1 < probed[at.0].sizes->0@.len(),
        probed[at.0].sizes->0@[at.1] is Discrete,
        formats_of(probed)[k] == (
            fourcc_name(probed[at.0].fourcc),
            probed[at.0].sizes->0@[at.1]->Discrete_width,
            probed[at.0].sizes->0@[at.1]->Discrete_height,
        ),
    decreases probed.len(),
{
    let init = probed.drop_last();
    if k < formats_of(init).len() {
        let at = lemma_listed_format_was_probed(init, k);
        assert(init[at.0] == probed[at.0]);
        at
    } else {
        let sizes = probed.last().sizes->0@;
        let i = lemma_listed_size_is_discrete(
            fourcc_name(probed.last().fourcc),
            sizes,
            k - formats_of(init).len(),
        );
        (probed.len() - 1, i)
    }
}

/// A camera is listed with every discrete size of every pixel format that it offers, its
/// width as the width and its height as the height, and with nothing that it does not
/// offer.
pub proof fn cameras_list_what_they_offer(
    device: &str,
    card: String,
    driver: String,
    probed: &Vec<ProbedFormat>,
    r: CameraInfo,
)
    requires
        call_ensures(camera_info, (device, card, driver, probed), r),
    ensures
        r.device@ == device@ && r.name == Some(card) && r.driver == Some(driver),
        forall|p: int, i: int|
            #![trigger probed@[p].sizes->0@[i]]
            0 <= p < probed@.len() && probed@[p].sizes is Some && 0 <= i
                < probed@[p].sizes->0@.len() && probed@[p].sizes->0@[i] is Discrete ==> exists|
                k: int,
            |
                0 <= k < r.formats@.len() && (#[trigger] r.formats@[k]).fourcc@ == fourcc_name(
                    probed@[p].fourcc,
                ) && r.formats@[k].width == probed@[p].sizes->0@[i]->Discrete_width
                    && r.formats@[k].height == probed@[p].sizes->0@[i]->Discrete_height,
        forall|k: int|
            0 <= k < r.formats@.len() ==> exists|p: int, i: int|
                0 <= p < probed@.len() && probed@[p].sizes is Some && 0 <= i
                    < probed@[p].sizes->0@.len() && #[trigger] probed@[p].sizes->0@[i]
                    == (FrameSize::Discrete {
                    width: (#[trigger] r.formats@[k]).width,
                    height: r.formats@[k].height,
                }) && r.formats@[k].fourcc@ == fourcc_name(probed@[p].fourcc),
{
    let views = format_views(r.formats@);
    assert forall|p: int, i: int|
        #![trigger probed@[p].sizes->0@[i]]
        0 <= p < probed@.len() && probed@[p].sizes is Some && 0 <= i < probed@[p].sizes->0@.len()
            && probed@[p].sizes->0@[i] is Discrete implies exists|k: int|
        0 <= k < r.formats@.len() && (#[trigger] r.formats@[k]).fourcc@ == fourcc_name(
            probed@[p].fourcc,
        ) && r.formats@[k].width == probed@[p].sizes->0@[i]->Discrete_width && r.formats@[k].height
            == probed@[p].sizes->0@[i]->Discrete_height by {
        lemma_format_is_listed(probed@, p, i);
        let item = (
            fourcc_name(probed@[p].fourcc),
            probed@[p].sizes->0@[i]->Discrete_width,
            probed@[p].sizes->0@[i]->Discrete_height,
        );
        let k = choose|k: int| 0 <= k < views.len() && views[k] == item;
        assert(views[k] == (r.formats@[k].fourcc@, r.formats@[k].width, r.formats@[k].height));
    }
    assert forall|k: int| 0 <= k < r.formats@.len() implies exists|p: int, i: int|
        0 <= p < probed@.len() && probed@[p].sizes is Some && 0 <= i < probed@[p].sizes->0@.len()
            && #[trigger] probed@[p].sizes->0@[i] == (FrameSize::Discrete {
            width: (#[trigger] r.formats@[k]).width,
            height: r.formats@[k].height,
        }) && r.formats@[k].fourcc@ == fourcc_name(probed@[p].fourcc) by {
        let at = lemma_listed_format_was_probed(probed@, k);
        assert(views[k] == (r.formats@[k].fourcc@, r.formats@[k].width, r.formats@[k].height));
        let found = probed@[at.0].sizes->0@[at.1];
        assert(found == (FrameSize::Discrete {
            width: r.formats@[k].width,
            height: r.formats@[k].height,
        }));
    }
}

proof fn lemma_trimmed_nuls(s: Seq<char>)
    ensures
        trim_nuls(s).len() <= s.len(),
        trim_nuls(s) == s.take(trim_nuls(s).len() as int),
        trim_nuls(s).len() > 0 ==> trim_nuls(s).last() != '\0',
        forall|i: int| trim_nuls(s).len() <= i < s.len() ==> #[trigger] s[i] == '\0',
    decreases s.len(),
{
    if s.len() > 0 && s.last() == '\0' {
        let t = s.drop_last();
        lemma_trimmed_nuls(t);
        assert(t.take(trim_nuls(s).len() as int) =~= s.take(trim_nuls(s).len() as int));
        assert forall|i: int| trim_nuls(s).len() <= i < s.len() implies #[trigger] s[i]
            == '\0' by {
            if i < t.len() {
                assert(t[i] == s[i]);
            }
        }
    } else {
        assert(s.take(s.len() as int) =~= s);
    }
}

/// The name of a pixel format whose bytes are a text is that text up to the padding at
/// its end: it does not end in a NUL, and only NULs are dropped.
pub proof fn pixel_format_names_drop_the_padding(b: [u8; 4], r: String)
    requires
        call_ensures(fourcc_text, (b,), r),
        vstd::utf8::valid_utf8(b@),
    ensures
        r@.len() > 0 ==> r@.last() != '\0',
        r@.len() <= vstd::utf8::decode_utf8(b@).len(),
        forall|i: int|
            0 <= i < vstd::utf8::decode_utf8(b@).len() ==> (#[trigger] vstd::utf8::decode_utf8(
                b@,
            )[i]) == (if i < r@.len() {
                r@[i]
            } else {
                '\0'
            }),
{
    lemma_trimmed_nuls(vstd::utf8::decode_utf8(b@));
}

// ---------------------------------------------------------------------------
// CPU temperature
// ---------------------------------------------------------------------------

/// Where the kernel reports the CPU temperature.
pub const DEFAULT_THERMAL_PATH: &'static str = "/sys/class/thermal/thermal_zone0/temp";

#[derive(Debug)]
pub enum TempReadError {
    Io(String),
    Parse(String),
}

impl TempReadError {
    pub open spec fn text(self) -> Seq<char> {
        match self {
            TempReadError::Io(m) => "io error: "@ + m@,
            TempReadError::Parse(m) => "parse error: "@ + m@,
        }
    }

    /// The error as a message for people.
    pub fn to_string(&self) -> (r: String)
        ensures
            r@ == self.text(),
    {
        match self {
            TempReadError::Io(m) => join("io error: ", m.as_str()),
            TempReadError::Parse(m) => join("parse error: ", m.as_str()),
        }
    }
}

/// The content of a thermal zone file stands for `r`: an integer of thousandths of a
/// degree, with white space around it.
pub open spec fn temperature_of(content: Seq<char>, r: Result<i64, TempReadError>) -> bool {
    let t = text::trimmed(content);
    if t.len() == 0 {
        r matches Err(TempReadError::Parse(m)) && m@ == "empty file"@
    } else {
        match text::i64_value(t) {
            Ok(v) => r matches Ok(w) && w == v,
            Err(e) => r matches Err(TempReadError::Parse(m)) && m@ == "invalid integer: "@
                + e.text(),
        }
    }
}

/// Parse a temperature string from sysfs (millidegrees Celsius).
pub fn parse_temperature(content: &str) -> (r: Result<i64, TempReadError>)
    ensures
        temperature_of(content@, r),
{
    let trimmed = trim(content);
    if trimmed.as_str().is_empty() {
        return Err(TempReadError::Parse("empty file".to_string()));
    }
    match parse_i64(trimmed.as_str()) {
        Ok(v) => Ok(v),
        Err(e) => Err(TempReadError::Parse(join("invalid integer: ", e.message().as_str()))),
    }
}

/// Reading a thermal zone file with the outcome `content` stands for `r`.
pub open spec fn thermal_of(
    content: Result<String, String>,
    r: Result<i64, TempReadError>,
) -> bool {
    match content {
        Ok(s) => temperature_of(s@, r),
        Err(m) => r == Err::<i64, TempReadError>(TempReadError::Io(m)),
    }
}

/// The CPU temperature in millidegrees Celsius, given the outcome of reading a
/// thermal zone file.
pub fn read_temperature(content: &Result<String, String>) -> (r: Result<i64, TempReadError>)
    ensures
        thermal_of(*content, r),
{
    match content {
        Ok(s) => parse_temperature(s.as_str()),
        Err(m) => Err(TempReadError::Io(m.clone())),
    }
}

// ---------------------------------------------------------------------------
// The sensor
// ---------------------------------------------------------------------------

/// SystemSensor — gathers host telemetry once per interval.
///
/// The previous tick's counters are held across ticks because the network bandwidth
/// is only meaningful when computed against them.
#[derive(Debug)]
pub struct SystemSensor {
    pub interval_s: Binary64,
    pub thermal_path: String,
    /// Byte counters of all interfaces at the previous tick.
    pub prev_net_bytes: Vec<NetCounters>,
    /// The clock at the previous tick.
    pub prev_tick_at: Option<Duration>,
    /// Once the thermal sysfs path has failed to read, later failures are not worth a
    /// warning.
    pub thermal_warned: bool,
}

/// What one tick reads from the host.
#[derive(Debug)]
pub struct SystemReading {
    pub cpu_usage_percent: Binary32,
    pub ram: RamUsage,
    pub disks: Vec<DiskUsage>,
    pub load_avg: LoadAverage,
    pub uptime_s: u64,
    pub counters: Vec<NetCounters>,
    pub ipv4: Vec<InterfaceIpv4>,
    /// One entry per video device: what its probe gave.
    pub cameras: Vec<Option<CameraInfo>>,
    /// The outcome of reading the thermal zone file.
    pub thermal: Result<String, String>,
}

/// A tick's telemetry, and the fault of its temperature reading.
#[derive(Debug)]
pub struct Sample {
    pub telemetry: SystemTelemetry,
    pub thermal_fault: Option<TempReadError>,
    /// The fault is the first one.
    pub warn: bool,
}

impl Sample {
    /// The temperature reading that the sample shows.
    pub open spec fn temperature(self) -> Result<i64, TempReadError> {
        match self.thermal_fault {
            Some(e) => Err(e),
            None => Ok(self.telemetry.cpu_millidegrees_c->0),
        }
    }
}

/// The cameras whose probe succeeded.
pub open spec fn probed_cameras(all: Seq<Option<CameraInfo>>) -> Seq<CameraInfo>
    decreases all.len(),
{
    if all.len() == 0 {
        Seq::empty()
    } else {
        match all.last() {
            Some(c) => probed_cameras(all.drop_last()).push(c),
            None => probed_cameras(all.drop_last()),
        }
    }
}

/// The span between two clock readings; zero where the clock did not move on.
pub open spec fn elapsed_nanos(prev: Option<Duration>, now: Duration) -> nat {
    match prev {
        Some(p) => if now.total_nanos() > p.total_nanos() {
            (now.total_nanos() - p.total_nanos()) as nat
        } else {
            0
        },
        None => 0,
    }
}

fn elapsed_since(prev: Option<Duration>, now: Duration) -> (r: Duration)
    requires
        now.wf(),
        prev matches Some(p) ==> p.wf(),
    ensures
        r.wf(),
        r.total_nanos() == elapsed_nanos(prev, now),
{
    let p = match prev {
        Some(p) => p,
        None => {
            return Duration { secs: 0, nanos: 0 };
        },
    };
    if now.secs < p.secs || (now.secs == p.secs && now.nanos <= p.nanos) {
        Duration { secs: 0, nanos: 0 }
    } else if now.nanos >= p.nanos {
        Duration { secs: now.secs - p.secs, nanos: now.nanos - p.nanos }
    } else {
        Duration { secs: now.secs - p.secs - 1, nanos: 1_000_000_000 - p.nanos + now.nanos }
    }
}

fn keep_probed(all: Vec<Option<CameraInfo>>) -> (r: Vec<CameraInfo>)
    ensures
        r@ == probed_cameras(all@),
{
    let mut out: Vec<CameraInfo> = Vec::new();
    let mut rest = all;
    let ghost whole = all@;
    assert(whole.skip(whole.len() as int) =~= Seq::<Option<CameraInfo>>::empty());
    while rest.len() > 0
        invariant
            rest@ == whole.take(rest@.len() as int),
            rest@.len() <= whole.len(),
            probed_cameras(whole) == probed_cameras(rest@) + out@.reverse(),
        decreases rest@.len(),
    {
        let ghost before = rest@;
        let ghost kept = out@;
        let last = rest.pop();
        assert(rest@ =~= before.drop_last());
        assert(rest@ =~= whole.take(rest@.len() as int));
        match last {
            Some(Some(c)) => {
                out.push(c);
                assert(probed_cameras(before) == probed_cameras(rest@).push(c));
                assert(out@.reverse() =~= seq![c] + kept.reverse());
                assert(probed_cameras(rest@).push(c) + kept.reverse() =~= probed_cameras(rest@)
                    + out@.reverse());
            },
            Some(None) => {
                assert(probed_cameras(before) == probed_cameras(rest@));
            },
            None => {},
        }
    }
    let mut r: Vec<CameraInfo> = Vec::new();
    let ghost reversed = out@.reverse();
    assert(probed_cameras(whole) =~= reversed);
    while out.len() > 0
        invariant
            r@ + out@.reverse() == reversed,
        decreases out@.len(),
    {
        let ghost before = out@;
        let ghost taken = r@;
        if let Some(c) = out.pop() {
            r.push(c);
            assert(before.reverse() =~= seq![c] + out@.reverse());
            assert(r@ + out@.reverse() =~= taken + before.reverse());
        }
    }
    assert(r@ =~= reversed);
    r
}

impl SystemSensor {
    pub open spec fn wf(self) -> bool {
        self.prev_tick_at matches Some(t) ==> t.wf()
    }

    pub fn new(config: &SystemSensorConfig, default_interval: Binary64) -> (r: Self)
        ensures
            r.wf(),
            r.interval_s == super::interval_or(config.interval_s, default_interval),
            r.thermal_path@ == DEFAULT_THERMAL_PATH@,
            r.prev_net_bytes@.len() == 0,
            r.prev_tick_at is None,
            !r.thermal_warned,
    {
        Self {
            interval_s: super::choose_interval(config.interval_s, default_interval),
            thermal_path: DEFAULT_THERMAL_PATH.to_string(),
            prev_net_bytes: Vec::new(),
            prev_tick_at: None,
            thermal_warned: false,
        }
    }

    /// Whether the CPU usage has to be read twice: the first reading means nothing,
    /// as there is none before it.
    pub fn needs_priming(&self) -> (r: bool)
        ensures
            r == (self.prev_tick_at is None),
    {
        self.prev_tick_at.is_none()
    }

    /// Make one tick's telemetry of what it read from the host at clock `now`.
    pub fn sample(&mut self, reading: SystemReading, now: Duration) -> (r: Sample)
        requires
            old(self).wf(),
            now.wf(),
        ensures
            final(self).wf(),
            final(self).interval_s == old(self).interval_s,
            final(self).thermal_path == old(self).thermal_path,
            final(self).prev_net_bytes@ == reading.counters@,
            final(self).prev_tick_at == Some(now),
            r.telemetry.cpu_usage_percent == reading.cpu_usage_percent,
            r.telemetry.ram == reading.ram,
            r.telemetry.disks@ == reading.disks@,
            r.telemetry.load_avg == reading.load_avg,
            r.telemetry.uptime_s == reading.uptime_s,
            reports_interfaces(
                r.telemetry.network_interfaces@,
                reading.counters@,
                old(self).prev_net_bytes@,
                reading.ipv4@,
                elapsed_nanos(old(self).prev_tick_at, now),
            ),
            r.telemetry.cameras@ == probed_cameras(reading.cameras@),
            r.telemetry.cpu_millidegrees_c is Some <==> r.thermal_fault is None,
            thermal_of(reading.thermal, r.temperature()),
            r.thermal_fault is Some ==> final(self).thermal_warned && r.warn
                == !old(self).thermal_warned,
            r.thermal_fault is None ==> final(self).thermal_warned == old(self).thermal_warned
                && !r.warn,
    {
        let elapsed = elapsed_since(self.prev_tick_at, now);
        self.prev_tick_at = Some(now);
        let network_interfaces = network_telemetry(
            &self.prev_net_bytes,
            &reading.counters,
            &reading.ipv4,
            elapsed,
        );
        self.prev_net_bytes = reading.counters;
        let cameras = keep_probed(reading.cameras);
        let temperature = read_temperature(&reading.thermal);
        let mut warn = false;
        let (cpu_millidegrees_c, thermal_fault) = match temperature {
            Ok(t) => (Some(t), None),
            Err(e) => {
                warn = !self.thermal_warned;
                self.thermal_warned = true;
                (None, Some(e))
            },
        };
        Sample {
            telemetry: SystemTelemetry {
                cpu_millidegrees_c,
                cpu_usage_percent: reading.cpu_usage_percent,
                ram: reading.ram,
                disks: reading.disks,
                load_avg: reading.load_avg,
                uptime_s: reading.uptime_s,
                network_interfaces,
                cameras,
            },
            thermal_fault,
            warn,
        }
    }
}

impl Sensor for SystemSensor {
    open spec fn label(&self) -> Seq<char> {
        "system"@
    }

    fn name(&self) -> (r: &str) {
        "system"
    }
}

/// A thermal zone file that holds a number, with white space around it, stands for that
/// number of thousandths of a degree. One that holds nothing else stands for a fault, and
/// so does one that cannot be read.
pub proof fn thermal_files_hold_millidegrees(
    content: &Result<String, String>,
    r: Result<i64, TempReadError>,
)
    requires
        call_ensures(read_temperature, (content,), r),
    ensures
        forall|v: i64|
            *content is Ok && text::trimmed(content->Ok_0@) == #[trigger] text::signed_decimal(
                v as int,
            ) ==> r == Ok::<i64, TempReadError>(v),
        *content is Ok && text::trimmed(content->Ok_0@).len() == 0 ==> (r matches Err(
            TempReadError::Parse(m),
        ) && m@ == "empty file"@),
        *content matches Err(m) ==> r == Err::<i64, TempReadError>(TempReadError::Io(m)),
{
    assert forall|v: i64|
        *content is Ok && text::trimmed(content->Ok_0@) == #[trigger] text::signed_decimal(
            v as int,
        ) implies r == Ok::<i64, TempReadError>(v) by {
        text::written_integer_is_read_back(v);
        text::decimal_writes_its_number(
            if v < 0 {
                (-(v as int)) as nat
            } else {
                v as nat
            },
        );
    }
}

proof fn lemma_probed_are_those_found(all: Seq<Option<CameraInfo>>)
    ensures
        probed_cameras(all) == all.filter(|c: Option<CameraInfo>| c is Some).map_values(
            |c: Option<CameraInfo>| c->0,
        ),
    decreases all.len(),
{
    reveal(Seq::filter);
    let found = all.filter(|c: Option<CameraInfo>| c is Some);
    if all.len() > 0 {
        lemma_probed_are_those_found(all.drop_last());
        assert(probed_cameras(all) =~= found.map_values(|c: Option<CameraInfo>| c->0));
    } else {
        assert(probed_cameras(all) =~= found.map_values(|c: Option<CameraInfo>| c->0));
    }
}

/// The first tick of a sensor has no rates to tell, as there is no reading to compare
/// with.
pub proof fn first_tick_has_no_rates(
    config: &SystemSensorConfig,
    default_interval: Binary64,
    fresh: SystemSensor,
    sensor: &mut SystemSensor,
    reading: SystemReading,
    now: Duration,
    r: Sample,
    k: int,
)
    requires
        call_ensures(SystemSensor::new, (config, default_interval), fresh),
        *old(sensor) == fresh,
        call_ensures(SystemSensor::sample, (sensor, reading, now), r),
        0 <= k < r.telemetry.network_interfaces@.len(),
    ensures
        r.telemetry.network_interfaces@[k].rx_bps == 0,
        r.telemetry.network_interfaces@[k].tx_bps == 0,
{
    let prev = Seq::<NetCounters>::empty();
    assert(fresh.prev_net_bytes@ =~= prev);
    assert(reports_interface(
        r.telemetry.network_interfaces@[k],
        reported(reading.counters@)[k],
        prev,
        reading.ipv4@,
        0,
    ));
}

/// The rates of a tick compare its counters with those of the tick before, over the time
/// between the two.
pub proof fn rates_span_two_ticks(
    first: &mut SystemSensor,
    second: &mut SystemSensor,
    before: SystemReading,
    after: SystemReading,
    t1: Duration,
    t2: Duration,
    r1: Sample,
    r2: Sample,
    k: int,
    i: int,
)
    requires
        call_ensures(SystemSensor::sample, (first, before, t1), r1),
        *old(second) == *final(first),
        call_ensures(SystemSensor::sample, (second, after, t2), r2),
        t2.total_nanos() >= t1.total_nanos(),
        0 <= k < r2.telemetry.network_interfaces@.len(),
        0 <= i < before.counters@.len(),
        before.counters@[i].name@ == r2.telemetry.network_interfaces@[k].name@,
        forall|j: int|
            i < j < before.counters@.len() ==> (#[trigger] before.counters@[j]).name@
                != before.counters@[i].name@,
    ensures
        ({
            let shown = after.counters@.filter(|c: NetCounters| c.name@ != "lo"@);
            let t = r2.telemetry.network_interfaces@[k];
            let nanos = (t2.total_nanos() - t1.total_nanos()) as nat;
            &&& r2.telemetry.network_interfaces@.len() == shown.len()
            &&& t.name@ == shown[k].name@
            &&& t.rx_bps == bps_of(
                Some(before.counters@[i].rx_bytes),
                shown[k].rx_bytes,
                nanos,
            )
            &&& t.tx_bps == bps_of(
                Some(before.counters@[i].tx_bytes),
                shown[k].tx_bytes,
                nanos,
            )
        }),
{
    lemma_reported_is_filter(after.counters@);
    let nanos = (t2.total_nanos() - t1.total_nanos()) as nat;
    assert(reports_interface(
        r2.telemetry.network_interfaces@[k],
        reported(after.counters@)[k],
        before.counters@,
        after.ipv4@,
        nanos,
    ));
    lemma_counters_at(before.counters@, before.counters@[i].name@, i);
}

/// A failed temperature reading is worth a warning only the first time, and costs
/// nothing but the temperature: everything else that was read is reported as it was.
pub proof fn thermal_faults_are_warned_of_once(
    first: &mut SystemSensor,
    second: &mut SystemSensor,
    before: SystemReading,
    after: SystemReading,
    t1: Duration,
    t2: Duration,
    r1: Sample,
    r2: Sample,
)
    requires
        call_ensures(SystemSensor::sample, (first, before, t1), r1),
        *old(second) == *final(first),
        call_ensures(SystemSensor::sample, (second, after, t2), r2),
    ensures
        r1.thermal_fault is Some ==> !r2.warn,
        r1.warn ==> r1.thermal_fault is Some,
        r1.thermal_fault is Some && !old(first).thermal_warned ==> r1.warn,
        r1.telemetry.cpu_millidegrees_c is None <==> r1.thermal_fault is Some,
        before.thermal is Err ==> r1.telemetry.cpu_millidegrees_c is None,
        forall|v: i64|
            before.thermal is Ok && text::trimmed(before.thermal->Ok_0@)
                == #[trigger] text::signed_decimal(v as int)
                ==> r1.telemetry.cpu_millidegrees_c == Some(v),
        r1.telemetry.cpu_usage_percent == before.cpu_usage_percent,
        r1.telemetry.ram == before.ram,
        r1.telemetry.disks@ == before.disks@,
        r1.telemetry.load_avg == before.load_avg,
        r1.telemetry.uptime_s == before.uptime_s,
        r1.telemetry.cameras@ == before.cameras@.filter(
            |c: Option<CameraInfo>| c is Some,
        ).map_values(|c: Option<CameraInfo>| c->0),
{
    lemma_probed_are_those_found(before.cameras@);
    assert forall|v: i64|
        before.thermal is Ok && text::trimmed(before.thermal->Ok_0@)
            == #[trigger] text::signed_decimal(v as int) implies r1.telemetry.cpu_millidegrees_c
        == Some(v) by {
        text::written_integer_is_read_back(v);
        text::decimal_writes_its_number(
            if v < 0 {
                (-(v as int)) as nat
            } else {
                v as nat
            },
        );
    }
}

/// Why a temperature could not be read, in words.
pub proof fn temperature_errors_in_words(e: &TempReadError, r: String)
    requires
        call_ensures(TempReadError::to_string, (e,), r),
    ensures
        *e matches TempReadError::Io(m) ==> r@ == "io error: "@ + m@,
        *e matches TempReadError::Parse(m) ==> r@ == "parse error: "@ + m@,
{
}

/// The CPU usage has to be read twice before the first tick only.
pub proof fn usage_is_primed_before_the_first_tick(
    config: &SystemSensorConfig,
    default_interval: Binary64,
    fresh: SystemSensor,
    before: bool,
    sensor: &mut SystemSensor,
    reading: SystemReading,
    now: Duration,
    sample: Sample,
    after: bool,
)
    requires
        call_ensures(SystemSensor::new, (config, default_interval), fresh),
        call_ensures(SystemSensor::needs_priming, (&fresh,), before),
        call_ensures(SystemSensor::sample, (sensor, reading, now), sample),
        call_ensures(SystemSensor::needs_priming, (&*final(sensor),), after),
    ensures
        before,
        !after,
        fresh.interval_s == (if config.interval_s is Some {
            config.interval_s->0
        } else {
            default_interval
        }),
        fresh.thermal_path@ == "/sys/class/thermal/thermal_zone0/temp"@,
        final(sensor).interval_s == old(sensor).interval_s,
{
}

} // verus!
