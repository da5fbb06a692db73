//! Network interfaces and their addresses.

use vstd::prelude::*;
use vstd::string::*;

use crate::text::{self, decimal_text, same_text};

verus! {

/// An IPv4 address.
#[derive(Debug, Clone, Copy, PartialEq, Eq)]
pub struct Ipv4 {
    pub octets: [u8; 4],
}

impl Ipv4 {
    /// The address in dotted decimal.
    pub open spec fn text(self) -> Seq<char> {
        text::decimal(self.octets[0] as nat) + "."@ + text::decimal(self.octets[1] as nat) + "."@
            + text::decimal(self.octets[2] as nat) + "."@ + text::decimal(self.octets[3] as nat)
    }

    /// The address in dotted decimal.
    pub fn to_string(&self) -> (r: String)
        ensures
            r@ == self.text(),
    {
        decimal_text(self.octets[0] as u128).concat(".").concat(
            decimal_text(self.octets[1] as u128).as_str(),
        ).concat(".").concat(decimal_text(self.octets[2] as u128).as_str()).concat(".").concat(
            decimal_text(self.octets[3] as u128).as_str(),
        )
    }
}

/// One entry of the system's list of interface addresses. Entries of other address
/// families, and those without an address, have no IPv4 address.
#[derive(Debug)]
pub struct InterfaceAddress {
    pub name: String,
    pub ipv4: Option<Ipv4>,
}

#[derive(Debug)]
pub enum ResolveIpError {
    InterfaceNotFound(String),
    NoIpv4(String),
    Getifaddrs(String),
}

impl ResolveIpError {
    pub open spec fn text(self) -> Seq<char> {
        match self {
            ResolveIpError::InterfaceNotFound(name) => "interface '"@ + name@ + "' not found"@,
            ResolveIpError::NoIpv4(name) => "interface '"@ + name@ + "' has no IPv4 address"@,
            ResolveIpError::Getifaddrs(m) => "failed to enumerate interfaces: "@ + m@,
        }
    }

    /// The error as a message for people.
    pub fn to_string(&self) -> (r: String)
        ensures
            r@ == self.text(),
    {
        match self {
            ResolveIpError::InterfaceNotFound(name) => "interface '".to_string().concat(
                name.as_str(),
            ).concat("' not found"),
            ResolveIpError::NoIpv4(name) => "interface '".to_string().concat(name.as_str()).concat(
                "' has no IPv4 address",
            ),
            ResolveIpError::Getifaddrs(m) => "failed to enumerate interfaces: ".to_string().concat(
                m.as_str(),
            ),
        }
    }
}

/// The interface is in the list.
pub open spec fn lists_interface(addrs: Seq<InterfaceAddress>, name: Seq<char>) -> bool {
    exists|i: int| 0 <= i < addrs.len() && (#[trigger] addrs[i]).name@ == name
}

/// The first IPv4 address of the interface in the list.
pub open spec fn first_ipv4(addrs: Seq<InterfaceAddress>, name: Seq<char>) -> Option<Ipv4>
    decreases addrs.len(),
{
    if addrs.len() == 0 {
        None
    } else {
        match first_ipv4(addrs.drop_last(), name) {
            Some(ip) => Some(ip),
            None => if addrs.last().name@ == name {
                addrs.last().ipv4
            } else {
                None
            },
        }
    }
}

proof fn lemma_first_ipv4_stays(addrs: Seq<InterfaceAddress>, name: Seq<char>, i: int)
    requires
        0 <= i <= addrs.len(),
        first_ipv4(addrs.take(i), name) is Some,
    ensures
        first_ipv4(addrs, name) == first_ipv4(addrs.take(i), name),
    decreases addrs.len() - i,
{
    if i == addrs.len() {
        assert(addrs.take(i) =~= addrs);
    } else {
        assert(addrs.take(i + 1).drop_last() =~= addrs.take(i));
        lemma_first_ipv4_stays(addrs, name, i + 1);
    }
}

/// What resolving `interface` gives, given the outcome of listing the addresses.
pub open spec fn resolved(
    listed: Result<Vec<InterfaceAddress>, String>,
    interface: Seq<char>,
    r: Result<Ipv4, ResolveIpError>,
) -> bool {
    match listed {
        Err(m) => r matches Err(ResolveIpError::Getifaddrs(n)) && n == m,
        Ok(addrs) => match first_ipv4(addrs@, interface) {
            Some(ip) => r == Ok::<Ipv4, ResolveIpError>(ip),
            None => if lists_interface(addrs@, interface) {
                r matches Err(ResolveIpError::NoIpv4(name)) && name@ == interface
            } else {
                r matches Err(ResolveIpError::InterfaceNotFound(name)) && name@ == interface
            },
        },
    }
}

/// Resolve the first IPv4 address assigned to the named network interface, given the
/// outcome of listing the addresses of all interfaces.
pub fn resolve_ipv4(listed: Result<Vec<InterfaceAddress>, String>, interface: &str) -> (r: Result<
    Ipv4,
    ResolveIpError,
>)
    ensures
        resolved(listed, interface@, r),
{
    let addrs = match listed {
        Ok(addrs) => addrs,
        Err(m) => {
            return Err(ResolveIpError::Getifaddrs(m));
        },
    };
    let mut found = false;
    for i in 0..addrs.len()
        invariant
            listed == Ok::<Vec<InterfaceAddress>, String>(addrs),
            first_ipv4(addrs@.take(i as int), interface@) is None,
            found <==> exists|j: int| 0 <= j < i && (#[trigger] addrs@[j]).name@ == interface@,
    {
        proof {
            assert(addrs@.take(i + 1).drop_last() =~= addrs@.take(i as int));
            assert(addrs@.take(i + 1).last() == addrs@[i as int]);
        }
        if same_text(addrs[i].name.as_str(), interface) {
            found = true;
            if let Some(ip) = addrs[i].ipv4 {
                proof {
                    lemma_first_ipv4_stays(addrs@, interface@, i + 1);
                }
                return Ok(ip);
            }
        }
    }
    assert(addrs@.take(addrs@.len() as int) =~= addrs@);
    if found {
        Err(ResolveIpError::NoIpv4(interface.to_string()))
    } else {
        Err(ResolveIpError::InterfaceNotFound(interface.to_string()))
    }
}

/// The IPv4 addresses of one interface, in dotted decimal.
#[derive(Debug)]
pub struct InterfaceIpv4 {
    pub name: String,
    pub addresses: Vec<String>,
}

/// All IPv4 addresses of the interface in the list, in dotted decimal.
pub open spec fn addresses_of(addrs: Seq<InterfaceAddress>, name: Seq<char>) -> Seq<Seq<char>>
    decreases addrs.len(),
{
    if addrs.len() == 0 {
        Seq::empty()
    } else {
        let before = addresses_of(addrs.drop_last(), name);
        match addrs.last().ipv4 {
            Some(ip) => if addrs.last().name@ == name {
                before.push(ip.text())
            } else {
                before
            },
            None => before,
        }
    }
}

/// `map` has one entry for each interface with an IPv4 address, and that entry holds
/// all of them.
pub open spec fn is_ipv4_map(map: Seq<InterfaceIpv4>, addrs: Seq<InterfaceAddress>) -> bool {
    &&& forall|i: int|
        0 <= i < map.len() ==> {
            &&& text::texts((#[trigger] map[i]).addresses@) == addresses_of(addrs, map[i].name@)
            &&& map[i].addresses@.len() > 0
        }
    &&& forall|i: int, j: int|
        0 <= i < j < map.len() ==> (#[trigger] map[i]).name@ != (#[trigger] map[j]).name@
    &&& forall|name: Seq<char>|
        (#[trigger] addresses_of(addrs, name)).len() > 0 ==> has_entry(map, name)
}

/// The interface has an entry.
pub open spec fn has_entry(map: Seq<InterfaceIpv4>, name: Seq<char>) -> bool {
    exists|i: int| 0 <= i < map.len() && (#[trigger] map[i]).name@ == name
}

/// The position of an interface's entry, or the number of entries where it has none.
fn entry_index(map: &Vec<InterfaceIpv4>, name: &str) -> (r: usize)
    ensures
        r <= map@.len(),
        r < map@.len() ==> map@[r as int].name@ == name@,
        r == map@.len() ==> !has_entry(map@, name@),
{
    for i in 0..map.len()
        invariant
            forall|j: int| 0 <= j < i ==> (#[trigger] map@[j]).name@ != name@,
    {
        if same_text(map[i].name.as_str(), name) {
            return i;
        }
    }
    map.len()
}

/// Build a map of interface name to its assigned IPv4 addresses (as strings), given
/// the outcome of listing the addresses of all interfaces.
///
/// Where listing them failed, returns an empty map.
pub fn ipv4_map_for_all_interfaces(listed: &Result<Vec<InterfaceAddress>, String>) -> (r: Vec<
    InterfaceIpv4,
>)
    ensures
        match *listed {
            Ok(addrs) => is_ipv4_map(r@, addrs@),
            Err(_) => r@.len() == 0,
        },
{
    let mut map: Vec<InterfaceIpv4> = Vec::new();
    let addrs = match listed {
        Ok(addrs) => addrs,
        Err(_) => {
            return map;
        },
    };
    for k in 0..addrs.len()
        invariant
            is_ipv4_map(map@, addrs@.take(k as int)),
    {
        let ghost seen = addrs@.take(k as int);
        let ghost next = addrs@.take(k + 1);
        proof {
            assert(next.drop_last() =~= seen);
            assert(next.last() == addrs@[k as int]);
        }
        if let Some(ip) = addrs[k].ipv4 {
            let ghost before = map@;
            let ghost name = addrs@[k as int].name@;
            let address = ip.to_string();
            let i: usize = entry_index(&map, addrs[k].name.as_str());
            assert forall|n: Seq<char>| n != name implies #[trigger] addresses_of(next, n)
                == addresses_of(seen, n) by {}
            if i < map.len() {
                let mut addresses = Vec::new();
                let n: usize = map[i].addresses.len();
                for j in 0..n
                    invariant
                        i < map.len(),
                        n == map@[i as int].addresses@.len(),
                        addresses@ == map@[i as int].addresses@.take(j as int),
                {
                    addresses.push(map[i].addresses[j].clone());
                    assert(addresses@ =~= map@[i as int].addresses@.take(j + 1));
                }
                assert(addresses@ =~= before[i as int].addresses@);
                addresses.push(address);
                assert(text::texts(addresses@) =~= text::texts(before[i as int].addresses@).push(
                    ip.text(),
                ));
                let entry = InterfaceIpv4 { name: addrs[k].name.clone(), addresses };
                map.set(i, entry);
                proof {
                    assert forall|n: Seq<char>|
                        (#[trigger] addresses_of(next, n)).len() > 0 implies has_entry(map@, n) by {
                        if n == name {
                            assert(map@[i as int].name@ == n);
                        } else {
                            assert(has_entry(before, n));
                            let j = choose|j: int|
                                0 <= j < before.len() && (#[trigger] before[j]).name@ == n;
                            assert(map@[j].name@ == n);
                        }
                    }
                }
            } else {
                let mut addresses: Vec<String> = Vec::new();
                addresses.push(address);
                assert(addresses_of(seen, name).len() == 0);
                assert(addresses_of(seen, name) =~= Seq::<Seq<char>>::empty());
                assert(text::texts(addresses@) =~= addresses_of(seen, name).push(ip.text()));
                map.push(InterfaceIpv4 { name: addrs[k].name.clone(), addresses });
                proof {
                    assert forall|j: int| 0 <= j < before.len() implies (
                    #[trigger] before[j]).name@ != name by {
                        if before[j].name@ == name {
                            assert(has_entry(before, name));
                        }
                    }
                    assert forall|n: Seq<char>|
                        (#[trigger] addresses_of(next, n)).len() > 0 implies has_entry(map@, n) by {
                        if n == name {
                            assert(map@[before.len() as int].name@ == n);
                        } else {
                            assert(has_entry(before, n));
                            let j = choose|j: int|
                                0 <= j < before.len() && (#[trigger] before[j]).name@ == n;
                            assert(map@[j].name@ == n);
                        }
                    }
                }
            }
        } else {
            assert forall|n: Seq<char>| #[trigger] addresses_of(next, n) == addresses_of(
                seen,
                n,
            ) by {}
        }
    }
    assert(addrs@.take(addrs@.len() as int) =~= addrs@);
    map
}

/// The address of an interface is the first one that is listed for it, whatever other
/// entries stand before. Without one the error tells whether the interface is missing or
/// has no address.
pub proof fn first_listed_address_is_resolved(
    listed: Result<Vec<InterfaceAddress>, String>,
    interface: &str,
    r: Result<Ipv4, ResolveIpError>,
)
    requires
        call_ensures(resolve_ipv4, (listed, interface), r),
    ensures
        listed matches Err(m) ==> r == Err::<Ipv4, ResolveIpError>(ResolveIpError::Getifaddrs(m)),
        listed matches Ok(addrs) ==> {
            &&& forall|i: int|
                0 <= i < addrs@.len() && (#[trigger] addrs@[i]).name@ == interface@
                    && addrs@[i].ipv4 is Some && (forall|j: int|
                    0 <= j < i ==> (#[trigger] addrs@[j]).name@ != interface@ || addrs@[j].ipv4
                        is None) ==> r == Ok::<Ipv4, ResolveIpError>(addrs@[i].ipv4->0)
            &&& (forall|i: int|
                0 <= i < addrs@.len() ==> (#[trigger] addrs@[i]).name@ != interface@) ==> (
            r matches Err(ResolveIpError::InterfaceNotFound(name)) && name@ == interface@)
            &&& (forall|i: int|
                0 <= i < addrs@.len() ==> (#[trigger] addrs@[i]).name@ != interface@
                    || addrs@[i].ipv4 is None) && (exists|i: int|
                0 <= i < addrs@.len() && (#[trigger] addrs@[i]).name@ == interface@) ==> (
            r matches Err(ResolveIpError::NoIpv4(name)) && name@ == interface@)
        },
{
    if let Ok(addrs) = listed {
        let name = interface@;
        assert forall|i: int|
            0 <= i < addrs@.len() && (#[trigger] addrs@[i]).name@ == name && addrs@[i].ipv4 is Some
                && (forall|j: int|
                0 <= j < i ==> (#[trigger] addrs@[j]).name@ != name || addrs@[j].ipv4
                    is None) implies r == Ok::<Ipv4, ResolveIpError>(addrs@[i].ipv4->0) by {
            lemma_first_ipv4_at(addrs@, name, i);
        }
        if forall|i: int|
            0 <= i < addrs@.len() ==> (#[trigger] addrs@[i]).name@ != name || addrs@[i].ipv4
                is None {
            lemma_no_ipv4(addrs@, name);
        }
    }
}

proof fn lemma_first_ipv4_at(addrs: Seq<InterfaceAddress>, name: Seq<char>, i: int)
    requires
        0 <= i < addrs.len(),
        addrs[i].name@ == name,
        addrs[i].ipv4 is Some,
        forall|j: int|
            0 <= j < i ==> (#[trigger] addrs[j]).name@ != name || addrs[j].ipv4 is None,
    ensures
        first_ipv4(addrs, name) == addrs[i].ipv4,
    decreases addrs.len(),
{
    let t = addrs.drop_last();
    assert forall|j: int| 0 <= j < i implies (#[trigger] t[j]).name@ != name || t[j].ipv4
        is None by {
        assert(t[j] == addrs[j]);
    }
    if i < t.len() {
        lemma_first_ipv4_at(t, name, i);
    } else {
        lemma_no_ipv4(t, name);
    }
}

proof fn lemma_no_ipv4(addrs: Seq<InterfaceAddress>, name: Seq<char>)
    requires
        forall|j: int|
            0 <= j < addrs.len() ==> (#[trigger] addrs[j]).name@ != name || addrs[j].ipv4 is None,
    ensures
        first_ipv4(addrs, name) is None,
    decreases addrs.len(),
{
    if addrs.len() > 0 {
        let t = addrs.drop_last();
        assert(addrs[addrs.len() - 1] == addrs.last());
        assert forall|j: int| 0 <= j < t.len() implies (#[trigger] t[j]).name@ != name || t[j].ipv4
            is None by {
            assert(t[j] == addrs[j]);
        }
        lemma_no_ipv4(t, name);
    }
}

/// The entries of the list that hold an address of the interface.
pub open spec fn entries_of(addrs: Seq<InterfaceAddress>, name: Seq<char>) -> Seq<
    InterfaceAddress,
> {
    addrs.filter(|a: InterfaceAddress| a.name@ == name && a.ipv4 is Some)
}

proof fn lemma_addresses_are_entries(addrs: Seq<InterfaceAddress>, name: Seq<char>)
    ensures
        addresses_of(addrs, name).len() == entries_of(addrs, name).len(),
        forall|i: int|
            0 <= i < entries_of(addrs, name).len() ==> #[trigger] addresses_of(addrs, name)[i]
                == (entries_of(addrs, name)[i].ipv4->0).text(),
    decreases addrs.len(),
{
    reveal(Seq::filter);
    if addrs.len() > 0 {
        lemma_addresses_are_entries(addrs.drop_last(), name);
    }
}

/// The map has one entry for each interface with an address and for no other. The entry
/// holds all addresses of that interface in dotted decimal, in the order of the list.
pub proof fn map_holds_all_addresses(
    listed: &Result<Vec<InterfaceAddress>, String>,
    r: Vec<InterfaceIpv4>,
)
    requires
        call_ensures(ipv4_map_for_all_interfaces, (listed,), r),
    ensures
        *listed is Err ==> r@.len() == 0,
        *listed matches Ok(addrs) ==> {
            &&& forall|k: int|
                #![trigger r@[k]]
                0 <= k < r@.len() ==> r@[k].addresses@.len() > 0 && r@[k].addresses@.len()
                    == entries_of(addrs@, r@[k].name@).len() && (forall|i: int|
                    0 <= i < r@[k].addresses@.len() ==> (#[trigger] r@[k].addresses@[i])@ == (
                    entries_of(addrs@, r@[k].name@)[i].ipv4->0).text())
            &&& forall|i: int|
                0 <= i < addrs@.len() && (#[trigger] addrs@[i]).ipv4 is Some ==> exists|k: int|
                    0 <= k < r@.len() && (#[trigger] r@[k]).name@ == addrs@[i].name@
            &&& forall|j: int, k: int|
                0 <= j < k < r@.len() ==> (#[trigger] r@[j]).name@ != (#[trigger] r@[k]).name@
        },
{
    if let Ok(addrs) = *listed {
        assert forall|k: int|
            #![trigger r@[k]]
            0 <= k < r@.len() implies r@[k].addresses@.len() > 0 && r@[k].addresses@.len()
            == entries_of(addrs@, r@[k].name@).len() && (forall|i: int|
            0 <= i < r@[k].addresses@.len() ==> (#[trigger] r@[k].addresses@[i])@ == (entries_of(
                addrs@,
                r@[k].name@,
            )[i].ipv4->0).text()) by {
            let name = r@[k].name@;
            lemma_addresses_are_entries(addrs@, name);
            let shown = text::texts(r@[k].addresses@);
            assert(shown == addresses_of(addrs@, name));
            assert forall|i: int| 0 <= i < r@[k].addresses@.len() implies (
            #[trigger] r@[k].addresses@[i])@ == (entries_of(
                addrs@,
                name,
            )[i].ipv4->0).text() by {
                assert(shown[i] == r@[k].addresses@[i]@);
                assert(addresses_of(addrs@, name)[i] == (entries_of(
                    addrs@,
                    name,
                )[i].ipv4->0).text());
            }
        }
        assert forall|i: int| 0 <= i < addrs@.len() && (#[trigger] addrs@[i]).ipv4
            is Some implies exists|k: int|
            0 <= k < r@.len() && (#[trigger] r@[k]).name@ == addrs@[i].name@ by {
            let name = addrs@[i].name@;
            lemma_addresses_are_entries(addrs@, name);
            let keep = |a: InterfaceAddress| a.name@ == name && a.ipv4 is Some;
            assert(keep(addrs@[i]));
            addrs@.filter_lemma(keep);
            assert(entries_of(addrs@, name).contains(addrs@[i]));
            assert(addresses_of(addrs@, name).len() > 0);
            assert(has_entry(r@, name));
        }
    }
}

/// An address is written as its four numbers in decimal with dots between them, so two
/// different addresses never look the same.
pub proof fn dotted_decimal_tells_addresses_apart(a: &Ipv4, b: &Ipv4, r: String, s: String)
    requires
        call_ensures(Ipv4::to_string, (a,), r),
        call_ensures(Ipv4::to_string, (b,), s),
    ensures
        r@ == text::decimal(a.octets[0] as nat) + "."@ + text::decimal(a.octets[1] as nat) + "."@
            + text::decimal(a.octets[2] as nat) + "."@ + text::decimal(a.octets[3] as nat),
        r@ == s@ ==> a.octets@ == b.octets@,
{
    if r@ == s@ {
        reveal_strlit(".");
        let (a0, a1, a2, a3) = (
            text::decimal(a.octets[0] as nat),
            text::decimal(a.octets[1] as nat),
            text::decimal(a.octets[2] as nat),
            text::decimal(a.octets[3] as nat),
        );
        let (b0, b1, b2, b3) = (
            text::decimal(b.octets[0] as nat),
            text::decimal(b.octets[1] as nat),
            text::decimal(b.octets[2] as nat),
            text::decimal(b.octets[3] as nat),
        );
        let dot = seq!['.'];
        assert("."@ =~= dot);
        let a_rest = a1 + dot + (a2 + dot + a3);
        let b_rest = b1 + dot + (b2 + dot + b3);
        assert(r@ =~= a0 + dot + a_rest);
        assert(s@ =~= b0 + dot + b_rest);
        lemma_first_number(a.octets[0] as nat, a_rest, b.octets[0] as nat, b_rest);
        lemma_first_number(
            a.octets[1] as nat,
            a2 + dot + a3,
            b.octets[1] as nat,
            b2 + dot + b3,
        );
        lemma_first_number(a.octets[2] as nat, a3, b.octets[2] as nat, b3);
        text::decimals_are_distinct(a.octets[3] as nat, b.octets[3] as nat);
        assert(a.octets@ =~= b.octets@);
    }
}

proof fn lemma_first_number(m: nat, x: Seq<char>, n: nat, y: Seq<char>)
    requires
        text::decimal(m) + seq!['.'] + x == text::decimal(n) + seq!['.'] + y,
    ensures
        m == n,
        x == y,
{
    let (a, b) = (text::decimal(m), text::decimal(n));
    text::decimal_writes_its_number(m);
    text::decimal_writes_its_number(n);
    let s = a + seq!['.'] + x;
    let t = b + seq!['.'] + y;
    if a.len() < b.len() {
        assert(s[a.len() as int] == '.');
        assert(t[a.len() as int] == b[a.len() as int]);
    } else if b.len() < a.len() {
        assert(t[b.len() as int] == '.');
        assert(s[b.len() as int] == a[b.len() as int]);
    }
    assert(a =~= s.take(a.len() as int));
    assert(b =~= t.take(b.len() as int));
    assert(x =~= s.skip(a.len() as int + 1));
    assert(y =~= t.skip(b.len() as int + 1));
    text::decimals_are_distinct(m, n);
}

/// Why an address could not be resolved, in words.
pub proof fn resolve_errors_in_words(e: &ResolveIpError, r: String)
    requires
        call_ensures(ResolveIpError::to_string, (e,), r),
    ensures
        *e matches ResolveIpError::InterfaceNotFound(name) ==> r@ == "interface '"@ + name@
            + "' not found"@,
        *e matches ResolveIpError::NoIpv4(name) ==> r@ == "interface '"@ + name@
            + "' has no IPv4 address"@,
        *e matches ResolveIpError::Getifaddrs(m) ==> r@ == "failed to enumerate interfaces: "@ + m@,
{
}

} // verus!
