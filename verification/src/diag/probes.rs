//! Checks that need a probe. Each comes in two parts: what to probe, and what
//! the check says once the probe's result is there.
use vstd::prelude::*;

use crate::collect::neigh::{find_gateway, forwards, is_entry_for, is_usable};
use crate::diag::check::{one, said, two, untold, CheckBuilder, Said};
use crate::diag::checks::{
    by_family, either, family_label, family_word, id_for, lookup_for, lookup_of,
};
use crate::diag::state::{read_addresses, set_addresses, DiagState};
use crate::ip::{IpAddr, SocketAddr};
use crate::probe::dns::{
    first_embedding, first_nat64_prefix, ip_texts, list_ips, DnsAnswer, TYPE_A, TYPE_AAAA,
};
use crate::probe::{ProbeContext, ProbeResult};
use crate::proto::{
    address_ip, Check, CheckId, CheckStatus, IpAddress, IpFamily, LinkPropertiesInfo, Neighbor,
    NeighborState, PrivateDnsMode, Route,
};
use crate::seqs::{any, find};
use crate::text::{dec, dec_string, join, join_texts, same, texts, truth, truth_str};
use crate::util::{format_mac, mac_text, Stopwatch};

verus! {

// ---- What is asked ------------------------------------------------------------

/// What the outside has to answer for a check: which probe, over which family,
/// for which record.
#[derive(Clone, Copy, Debug, PartialEq, Eq, Structural)]
pub enum Question {
    /// What the firewall holds.
    Firewall,
    /// Does the gateway of a family answer?
    Gateway(IpFamily),
    /// Which records of a type does the host have?
    Dns(u16),
    /// Does a TCP connection over a family complete?
    Tcp(IpFamily),
    /// Does a TLS handshake over what TCP reached complete?
    Tls,
    /// Do the servers answer on the port of Private DNS?
    PrivateDns,
    /// Are records of a type synthesised for a name that has none?
    Nat64(u16),
    /// How large a packet reaches its target?
    Mtu,
}

/// The question behind a check; none behind one that is made from what was
/// collected.
pub open spec fn question_of(id: CheckId) -> Option<Question> {
    match id {
        CheckId::FirewallAnomaly => Some(Question::Firewall),
        CheckId::GatewayReachabilityV4 => Some(Question::Gateway(IpFamily::V4)),
        CheckId::GatewayReachabilityV6 => Some(Question::Gateway(IpFamily::V6)),
        CheckId::DnsA => Some(Question::Dns(TYPE_A)),
        CheckId::DnsAaaa => Some(Question::Dns(TYPE_AAAA)),
        CheckId::TcpV4 => Some(Question::Tcp(IpFamily::V4)),
        CheckId::TcpV6 => Some(Question::Tcp(IpFamily::V6)),
        CheckId::TlsHandshake => Some(Question::Tls),
        CheckId::PrivateDns => Some(Question::PrivateDns),
        CheckId::Nat64Dns64 => Some(Question::Nat64(TYPE_AAAA)),
        CheckId::MtuPmtu => Some(Question::Mtu),
        _ => None,
    }
}

/// The question behind a check.
pub fn question(id: CheckId) -> (r: Option<Question>)
    ensures
        r == question_of(id),
{
    match id {
        CheckId::FirewallAnomaly => Some(Question::Firewall),
        CheckId::GatewayReachabilityV4 => Some(Question::Gateway(IpFamily::V4)),
        CheckId::GatewayReachabilityV6 => Some(Question::Gateway(IpFamily::V6)),
        CheckId::DnsA => Some(Question::Dns(TYPE_A)),
        CheckId::DnsAaaa => Some(Question::Dns(TYPE_AAAA)),
        CheckId::TcpV4 => Some(Question::Tcp(IpFamily::V4)),
        CheckId::TcpV6 => Some(Question::Tcp(IpFamily::V6)),
        CheckId::TlsHandshake => Some(Question::Tls),
        CheckId::PrivateDns => Some(Question::PrivateDns),
        CheckId::Nat64Dns64 => Some(Question::Nat64(TYPE_AAAA)),
        CheckId::MtuPmtu => Some(Question::Mtu),
        _ => None,
    }
}

/// The check that the answer to a DNS question of a type makes.
pub open spec fn dns_check(qtype: u16) -> CheckId {
    if qtype == TYPE_A {
        CheckId::DnsA
    } else {
        CheckId::DnsAaaa
    }
}

/// The check that the answer to a question makes.
pub open spec fn answered(q: Question) -> CheckId {
    match q {
        Question::Firewall => CheckId::FirewallAnomaly,
        Question::Gateway(family) => by_family(
            family,
            CheckId::GatewayReachabilityV4,
            CheckId::GatewayReachabilityV6,
        ),
        Question::Dns(qtype) => dns_check(qtype),
        Question::Tcp(family) => by_family(family, CheckId::TcpV4, CheckId::TcpV6),
        Question::Tls => CheckId::TlsHandshake,
        Question::PrivateDns => CheckId::PrivateDns,
        Question::Nat64(_) => CheckId::Nat64Dns64,
        Question::Mtu => CheckId::MtuPmtu,
    }
}

/// The answer to the question behind a check makes that check and no other.
pub proof fn law_an_answer_makes_its_check(id: CheckId)
    requires
        question_of(id) is Some,
    ensures
        answered(question_of(id)->0) == id,
{
}

/// How many echo requests a gateway is sent, at most.
pub const GATEWAY_ECHOES: u16 = 2;

/// The bytes that such a request carries.
pub const GATEWAY_PAYLOAD: usize = 56;

pub const DNS_PORT: u16 = 53;

/// Where servers of Private DNS (DNS over TLS) listen.
pub const PRIVATE_DNS_PORT: u16 = 853;

/// The context of a family's probes; IPv4's where none is named.
pub open spec fn context_of(state: DiagState, family: IpFamily) -> ProbeContext {
    match family {
        IpFamily::V6 => state.probe_ctx_v6,
        _ => state.probe_ctx_v4,
    }
}

/// The context of a family's probes.
pub fn context_for(state: &DiagState, family: IpFamily) -> (r: &ProbeContext)
    ensures
        *r == context_of(*state, family),
{
    match family {
        IpFamily::V6 => &state.probe_ctx_v6,
        _ => &state.probe_ctx_v4,
    }
}

/// The family of an address.
pub fn family_of_ip(ip: &IpAddr) -> (r: IpFamily)
    ensures
        r == match *ip {
            IpAddr::V4(_) => IpFamily::V4,
            IpAddr::V6(_) => IpFamily::V6,
        },
{
    match ip {
        IpAddr::V4(_) => IpFamily::V4,
        IpAddr::V6(_) => IpFamily::V6,
    }
}

// ---- The gateway --------------------------------------------------------------

/// The gateway of a route, with the interface that leads to it.
pub open spec fn gateway_of(route: Route) -> Option<(IpAddr, u32, Seq<char>)> {
    if route.next_hops@.len() == 0 {
        None
    } else {
        match address_ip(route.next_hops@[0].gateway) {
            Some(ip) => Some(
                (
                    ip,
                    route.next_hops@[0].out_interface_index,
                    route.next_hops@[0].out_interface_name@,
                ),
            ),
            None => None,
        }
    }
}

fn read_gateway(route: &Route) -> (r: Option<(IpAddr, u32, String)>)
    ensures
        match r {
            Some((ip, index, name)) => gateway_of(*route) == Some((ip, index, name@)),
            None => gateway_of(*route) is None,
        },
{
    if route.next_hops.len() == 0 {
        return None;
    }
    let hop = &route.next_hops[0];
    match &hop.gateway {
        Some(a) => match a.to_ip() {
            Some(ip) => Some((ip, hop.out_interface_index, hop.out_interface_name.clone())),
            None => None,
        },
        None => None,
    }
}

/// The gateway that a family's traffic goes by.
pub open spec fn gateway_asked(state: DiagState, family: IpFamily) -> Option<IpAddr> {
    match lookup_of(state, family).route {
        Some(route) => match gateway_of(route) {
            Some((ip, _, _)) => Some(ip),
            None => None,
        },
        None => None,
    }
}

/// The gateway to ping for a check of a family's gateway.
pub fn gateway_target(state: &DiagState, family: IpFamily) -> (r: Option<IpAddr>)
    ensures
        r == gateway_asked(*state, family),
{
    match &lookup_for(state, family).route {
        Some(route) => match read_gateway(route) {
            Some((ip, _, _)) => Some(ip),
            None => None,
        },
        None => None,
    }
}

/// The state of a neighbour entry, if the kernel has one.
pub open spec fn entry_state(n: Option<Neighbor>) -> NeighborState {
    match n {
        Some(n) => n.state,
        None => NeighborState::NoEntry,
    }
}

/// What the check of a family's gateway says, given the result of a ping. The
/// neighbour table is the cheap answer, and it distinguishes "we never got an
/// ARP/NDP reply" from "the gateway is there but the path beyond is broken".
/// Many gateways drop ICMP on purpose, so a usable neighbour entry makes
/// silence a warning, not a failure.
pub open spec fn gateway_said(state: DiagState, family: IpFamily, ping: ProbeResult) -> Said {
    let word = family_word(family);
    let b = untold(
        by_family(family, CheckId::GatewayReachabilityV4, CheckId::GatewayReachabilityV6),
        word + " gateway reachable"@,
    ).about(family).after(
        seq![
            if family is V6 {
                "route.v6.default"@
            } else {
                "route.v4.default"@
            },
        ],
    );
    match lookup_of(state, family).route {
        None => b.skip("no "@ + word + " route, so there is no gateway to test"@),
        Some(route) => match gateway_of(route) {
            None => b.skip("the "@ + word + " route is on-link (no gateway to probe)"@),
            Some((ip, index, name)) => {
                let entry = find(state.neighbors@, is_entry_for(ip, index));
                let s = entry_state(entry);
                let b = b.ev("gateway"@, ip.text()).ev("interface"@, name).ev(
                    "neighbor_state"@,
                    s.name_text(),
                ).ev(
                    "link_address"@,
                    match entry {
                        Some(n) => mac_text(n.link_address@),
                        None => Seq::empty(),
                    },
                ).ev("icmp"@, ping.detail@).ev("routing"@, context_of(state, family).text());
                if ping.ok {
                    b.pass("gateway "@ + ip.text() + " answers ICMP echo"@)
                } else if forwards(s) {
                    b.warn("gateway "@ +
                        ip.text() +
                        " does not answer ICMP but is present in the neighbour table as "@ +
                        s.name_text() +
                        "; many gateways filter ICMP, so this is not conclusive"@)
                } else {
                    b.fail("gateway "@ +
                        ip.text() +
                        " is unreachable: neighbour state is "@ +
                        s.name_text() +
                        " and it does not answer ICMP"@)
                }
            },
        },
    }
}

/// The check of a family's gateway, with a stopwatch that ran during the ping.
/// Where there is no gateway to ping, the result does not matter.
pub fn check_gateway(clock: Stopwatch, state: &DiagState, family: IpFamily, ping: &ProbeResult) -> (r: Check)
    ensures
        said(r) == gateway_said(*state, family, *ping),
        r.id == answered(Question::Gateway(family)),
        r.evidence.wf(),
{
    let label = family_label(family);
    let title = String::from_str(label).concat(" gateway reachable");
    let b = CheckBuilder::timed(
        clock,
        id_for(family, CheckId::GatewayReachabilityV4, CheckId::GatewayReachabilityV6),
        title.as_str(),
    ).family(family).depends_on(
        one(
            if family == IpFamily::V6 {
                "route.v6.default"
            } else {
                "route.v4.default"
            },
        ),
    );
    let route = match &lookup_for(state, family).route {
        Some(route) => route,
        None => {
            return b.skip(String::from_str("no ")
                .concat(label)
                .concat(" route, so there is no gateway to test"));
        },
    };
    let (ip, index, name) = match read_gateway(route) {
        Some(found) => found,
        None => {
            return b.skip(String::from_str("the ")
                .concat(label)
                .concat(" route is on-link (no gateway to probe)"));
        },
    };
    let entry = find_gateway(&state.neighbors, ip, index);
    let (s, mac) = match entry {
        Some(n) => (n.state, format_mac(n.link_address.as_slice())),
        None => (NeighborState::NoEntry, String::new()),
    };
    let to = ip.to_text();
    let b = b.ev("gateway", to.as_str()).ev("interface", name.as_str()).ev(
        "neighbor_state",
        s.name(),
    ).ev("link_address", mac.as_str()).ev("icmp", ping.detail.as_str()).ev(
        "routing",
        context_for(state, family).describe().as_str(),
    );
    if ping.ok {
        return b.pass(String::from_str("gateway ").concat(to.as_str()).concat(" answers ICMP echo"));
    }
    if is_usable(s) {
        return b.warn(String::from_str("gateway ")
            .concat(to.as_str())
            .concat(" does not answer ICMP but is present in the neighbour table as ")
            .concat(s.name())
            .concat("; many gateways filter ICMP, so this is not conclusive"));
    }
    b.fail(String::from_str("gateway ")
        .concat(to.as_str())
        .concat(" is unreachable: neighbour state is ")
        .concat(s.name())
        .concat(" and it does not answer ICMP"))
}

// ---- DNS --------------------------------------------------------------------

/// Whether a result in a list is a success.
pub open spec fn any_ok(results: Seq<ProbeResult>) -> bool {
    exists|i: int| 0 <= i < results.len() && (#[trigger] results[i]).ok
}

/// The server that is asked after these results.
pub open spec fn server_asked(servers: Seq<IpAddr>, results: Seq<ProbeResult>) -> Option<IpAddr> {
    if any_ok(results) || results.len() >= servers.len() {
        None
    } else {
        Some(servers[results.len() as int])
    }
}

/// The server to ask next, after the results of those before it: servers are
/// asked in order until one answers.
pub fn dns_target(state: &DiagState, results: &Vec<ProbeResult>) -> (r: Option<IpAddr>)
    ensures
        r == server_asked(state.dns_servers@, results@),
{
    let mut i: usize = 0;
    while i < results.len()
        invariant
            i <= results.len(),
            forall|k: int| 0 <= k < i ==> !(#[trigger] results@[k]).ok,
        decreases results.len() - i,
    {
        if results[i].ok {
            assert(results@[i as int].ok);
            return None;
        }
        i += 1;
    }
    if results.len() < state.dns_servers.len() {
        Some(state.dns_servers[results.len()])
    } else {
        None
    }
}

/// What the check says after the results from `i` on: each server asked leaves
/// its words, and the first success, or else the last failure, decides.
pub open spec fn dns_after(b: Said, servers: Seq<IpAddr>, results: Seq<ProbeResult>, i: int) -> Said
    decreases results.len() - i,
{
    if i >= results.len() {
        if i <= 0 {
            b.skip("no DNS server was tried"@)
        } else {
            b.with_probe(results[i - 1])
        }
    } else {
        let b = b.ev(
            "server_"@ + dec(i as nat),
            servers[i].text() + ": "@ + results[i].detail@,
        );
        if results[i].ok {
            b.with_probe(results[i])
        } else {
            dns_after(b, servers, results, i + 1)
        }
    }
}

/// The result that decides a DNS lookup, of those from `i` on: the first that is
/// ok, or else the last.
pub open spec fn deciding(results: Seq<ProbeResult>, i: int) -> ProbeResult
    decreases results.len() - i,
{
    if i >= results.len() - 1 || results[i].ok {
        results[i]
    } else {
        deciding(results, i + 1)
    }
}

/// What the check of a DNS lookup says, given the results of the servers that
/// were asked.
pub open spec fn dns_said(state: DiagState, qtype: u16, results: Seq<ProbeResult>) -> Said {
    let label = if qtype == TYPE_A {
        "A"@
    } else {
        "AAAA"@
    };
    let b = untold(
        dns_check(qtype),
        "DNS "@ + label + " lookup"@,
    ).ev("hostname"@, state.hostname@).ev("from_framework"@, truth(state.dns_from_framework)).ev(
        "servers"@,
        join(ip_texts(state.dns_servers@), ", "@),
    );
    if state.dns_servers@.len() == 0 {
        b.skip("no DNS servers are configured for this network"@)
    } else {
        dns_after(b, state.dns_servers@, results, 0)
    }
}

/// The check of a DNS lookup.
pub fn check_dns(clock: Stopwatch, state: &DiagState, qtype: u16, results: &Vec<ProbeResult>) -> (r: Check)
    requires
        results@.len() <= state.dns_servers@.len(),
    ensures
        said(r) == dns_said(*state, qtype, results@),
        results@.len() > 0 ==> r.duration_ms == deciding(results@, 0).duration_ms,
        r.id == answered(Question::Dns(qtype)),
        r.evidence.wf(),
{
    let (id, label) = if qtype == TYPE_A {
        (CheckId::DnsA, "A")
    } else {
        (CheckId::DnsAaaa, "AAAA")
    };
    let title = String::from_str("DNS ").concat(label).concat(" lookup");
    let mut b = CheckBuilder::timed(clock, id, title.as_str()).ev(
        "hostname",
        state.hostname.as_str(),
    ).ev("from_framework", truth_str(state.dns_from_framework)).ev(
        "servers",
        join_texts(&list_ips(&state.dns_servers), ", ").as_str(),
    );
    if state.dns_servers.len() == 0 {
        return b.skip(String::from_str("no DNS servers are configured for this network"));
    }
    let ghost start = said(b.check);
    let mut i: usize = 0;
    while i < results.len()
        invariant
            i <= results@.len() <= state.dns_servers@.len(),
            b.check.id == dns_check(qtype),
            b.check.evidence.wf(),
            i < results@.len() ==> deciding(results@, 0) == deciding(results@, i as int),
            i == results@.len() && i > 0 ==> deciding(results@, 0) == results@[i - 1],
            dns_after(start, state.dns_servers@, results@, 0) == dns_after(
                said(b.check),
                state.dns_servers@,
                results@,
                i as int,
            ),
            dns_said(*state, qtype, results@) == dns_after(start, state.dns_servers@, results@, 0),
        decreases results.len() - i,
    {
        let n = dec_string(i as u64);
        let server = state.dns_servers[i].to_text();
        let name = String::from_str("server_").concat(n.as_str());
        let words = String::from_str(server.as_str()).concat(": ").concat(results[i].detail.as_str());
        b = b.ev(name.as_str(), words.as_str());
        if results[i].ok {
            return b.with_probe(&results[i]);
        }
        i += 1;
    }
    if i == 0 {
        return b.skip(String::from_str("no DNS server was tried"));
    }
    b.with_probe(&results[i - 1])
}

// ---- TCP --------------------------------------------------------------------

/// The endpoint of a family's raw TCP check.
pub open spec fn endpoint_of(state: DiagState, family: IpFamily) -> SocketAddr {
    match family {
        IpFamily::V6 => state.v6_endpoint,
        _ => state.v4_endpoint,
    }
}

/// The endpoint that a family's connection is tried to, where it has a route.
pub open spec fn endpoint_tried(state: DiagState, family: IpFamily) -> Option<SocketAddr> {
    if lookup_of(state, family).route is Some {
        Some(endpoint_of(state, family))
    } else {
        None
    }
}

/// The endpoint to connect to for a family's TCP check. Without a route the
/// connect would fail instantly, which says nothing new beyond what the route
/// check already reported.
pub fn tcp_target(state: &DiagState, family: IpFamily) -> (r: Option<SocketAddr>)
    ensures
        r == endpoint_tried(*state, family),
{
    if lookup_for(state, family).route.is_some() {
        match family {
            IpFamily::V6 => Some(state.v6_endpoint),
            _ => Some(state.v4_endpoint),
        }
    } else {
        None
    }
}

/// What the check of a TCP connection says, given the result of the attempt.
pub open spec fn tcp_said(state: DiagState, family: IpFamily, result: ProbeResult) -> Said {
    let word = family_word(family);
    let b = untold(
        by_family(family, CheckId::TcpV4, CheckId::TcpV6),
        "TCP connection over "@ + word,
    ).about(family).after(
        seq![
            if family is V6 {
                "addr.v6"@
            } else {
                "addr.v4"@
            },
        ],
    );
    if lookup_of(state, family).route is None {
        b.skip("no "@ + word + " route to the internet, so a TCP test would only repeat that"@)
    } else {
        b.with_probe(result)
    }
}

/// The check of a TCP connection. Where there is no route, the result does not
/// matter.
pub fn check_tcp(state: &DiagState, family: IpFamily, result: &ProbeResult) -> (r: Check)
    ensures
        said(r) == tcp_said(*state, family, *result),
        r.id == answered(Question::Tcp(family)),
        r.evidence.wf(),
        lookup_of(*state, family).route is Some ==> r.duration_ms == result.duration_ms,
{
    let label = family_label(family);
    let title = String::from_str("TCP connection over ").concat(label);
    let b = CheckBuilder::new(id_for(family, CheckId::TcpV4, CheckId::TcpV6), title.as_str()).family(
        family,
    ).depends_on(
        one(
            if family == IpFamily::V6 {
                "addr.v6"
            } else {
                "addr.v4"
            },
        ),
    );
    if lookup_for(state, family).route.is_none() {
        return b.skip(String::from_str("no ")
            .concat(label)
            .concat(" route to the internet, so a TCP test would only repeat that"));
    }
    b.with_probe(result)
}

// ---- TLS --------------------------------------------------------------------

/// Whether a check with a key passed.
pub open spec fn passed_as(key: Seq<char>) -> spec_fn(Check) -> bool {
    |c: Check| c.key@ == key && c.status == CheckStatus::Pass
}

fn passed(checks: &Vec<Check>, key: &str) -> (r: bool)
    ensures
        r == any(checks@, passed_as(key@)),
{
    let mut i: usize = 0;
    while i < checks.len()
        invariant
            i <= checks.len(),
            forall|k: int| 0 <= k < i ==> !passed_as(key@)(#[trigger] checks@[k]),
        decreases checks.len() - i,
    {
        if same(checks[i].key.as_str(), key) && checks[i].status == CheckStatus::Pass {
            assert(passed_as(key@)(checks@[i as int]));
            return true;
        }
        i += 1;
    }
    false
}

/// The family to run TLS over: whichever actually established TCP, preferring
/// IPv6 when both work. That is the family a modern client will try first, so a
/// TLS problem there is the one users will feel.
pub open spec fn tls_family(existing: Seq<Check>) -> Option<IpFamily> {
    if any(existing, passed_as("tcp.v6"@)) {
        Some(IpFamily::V6)
    } else if any(existing, passed_as("tcp.v4"@)) {
        Some(IpFamily::V4)
    } else {
        None
    }
}

/// The endpoint and the family that a handshake is tried over.
pub open spec fn handshake_tried(state: DiagState, existing: Seq<Check>) -> Option<(SocketAddr, IpFamily)> {
    match tls_family(existing) {
        Some(family) => Some((endpoint_of(state, family), family)),
        None => None,
    }
}

/// The endpoint and the family to run TLS over.
pub fn tls_target(state: &DiagState, existing: &Vec<Check>) -> (r: Option<(SocketAddr, IpFamily)>)
    ensures
        r == handshake_tried(*state, existing@),
{
    if passed(existing, "tcp.v6") {
        Some((state.v6_endpoint, IpFamily::V6))
    } else if passed(existing, "tcp.v4") {
        Some((state.v4_endpoint, IpFamily::V4))
    } else {
        None
    }
}

/// What the check of a TLS handshake says, given the result of the attempt.
pub open spec fn tls_said(existing: Seq<Check>, result: ProbeResult) -> Said {
    let b = untold(CheckId::TlsHandshake, "TLS handshake"@).after(seq!["tcp.v4"@, "tcp.v6"@]);
    match tls_family(existing) {
        None => b.skip(
            "no TCP connection succeeded, so there is nothing to handshake over"@,
        ),
        Some(family) => b.about(family).ev("family"@, family_word(family)).with_probe(result),
    }
}

/// The check of a TLS handshake. Where no TCP connection succeeded, the result
/// does not matter.
pub fn check_tls(existing: &Vec<Check>, result: &ProbeResult) -> (r: Check)
    ensures
        said(r) == tls_said(existing@, *result),
        r.id == answered(Question::Tls),
        r.evidence.wf(),
        tls_family(existing@) is Some ==> r.duration_ms == result.duration_ms,
{
    let b = CheckBuilder::new(CheckId::TlsHandshake, "TLS handshake").depends_on(
        two("tcp.v4", "tcp.v6"),
    );
    let family = if passed(existing, "tcp.v6") {
        IpFamily::V6
    } else if passed(existing, "tcp.v4") {
        IpFamily::V4
    } else {
        return b.skip(
            String::from_str("no TCP connection succeeded, so there is nothing to handshake over"),
        );
    };
    b.family(family).ev("family", family_label(family)).with_probe(result)
}

// ---- Private DNS --------------------------------------------------------------

/// Addresses as they are written.
pub open spec fn address_texts(list: Seq<IpAddress>) -> Seq<Seq<char>> {
    Seq::new(list.len(), |i: int| list[i].text())
}

fn list_addresses(list: &Vec<IpAddress>) -> (r: Vec<String>)
    ensures
        texts(r@) == address_texts(list@),
{
    let mut r: Vec<String> = Vec::new();
    let mut i: usize = 0;
    while i < list.len()
        invariant
            i <= list.len(),
            r.len() == i,
            forall|k: int| 0 <= k < i ==> #[trigger] r@[k]@ == list@[k].text(),
        decreases list.len() - i,
    {
        r.push(list[i].display());
        i += 1;
    }
    assert(texts(r@) =~= address_texts(list@));
    r
}

/// Whether Private DNS is in use.
pub open spec fn private_dns_on(lp: LinkPropertiesInfo) -> bool {
    lp.private_dns_mode is Opportunistic || lp.private_dns_mode is Strict
}

/// The servers to try on port 853: those that the framework validated, or else
/// the ordinary ones.
pub open spec fn private_servers(state: DiagState, lp: LinkPropertiesInfo) -> Seq<IpAddr> {
    if lp.validated_private_dns_servers@.len() == 0 {
        state.dns_servers@
    } else {
        set_addresses(lp.validated_private_dns_servers@)
    }
}

/// The LinkProperties of the network under test.
pub open spec fn properties_of(state: DiagState) -> Option<LinkPropertiesInfo> {
    match state.network {
        Some(n) => n.link_properties,
        None => None,
    }
}

fn read_private_servers(state: &DiagState, lp: &LinkPropertiesInfo) -> (r: Vec<IpAddr>)
    ensures
        r@ == private_servers(*state, *lp),
{
    if lp.validated_private_dns_servers.len() == 0 {
        let mut r: Vec<IpAddr> = Vec::new();
        let mut i: usize = 0;
        while i < state.dns_servers.len()
            invariant
                i <= state.dns_servers.len(),
                r@ == state.dns_servers@.take(i as int),
            decreases state.dns_servers.len() - i,
        {
            r.push(state.dns_servers[i]);
            i += 1;
            assert(r@ =~= state.dns_servers@.take(i as int));
        }
        assert(state.dns_servers@.take(i as int) =~= state.dns_servers@);
        r
    } else {
        read_addresses(&lp.validated_private_dns_servers)
    }
}

/// The servers that Private DNS is tried at, where it is on.
pub open spec fn private_tried(state: DiagState) -> Seq<IpAddr> {
    match properties_of(state) {
        Some(lp) if private_dns_on(lp) => private_servers(state, lp),
        _ => Seq::empty(),
    }
}

/// The servers to try to connect to on port 853, one after the other.
pub fn private_dns_targets(state: &DiagState) -> (r: Vec<IpAddr>)
    ensures
        r@ == private_tried(*state),
{
    if let Some(n) = &state.network {
        if let Some(lp) = &n.link_properties {
            if lp.private_dns_mode == PrivateDnsMode::Opportunistic || lp.private_dns_mode
                == PrivateDnsMode::Strict {
                return read_private_servers(state, lp);
            }
        }
    }
    Vec::new()
}

/// The servers among the first `n` that could be reached, and the words for
/// those that could not.
pub open spec fn reached(servers: Seq<IpAddr>, results: Seq<ProbeResult>, n: nat) -> (
    Seq<Seq<char>>,
    Seq<Seq<char>>,
)
    decreases n,
{
    if n == 0 {
        (Seq::empty(), Seq::empty())
    } else {
        let (ok, bad) = reached(servers, results, (n - 1) as nat);
        let ip = servers[n - 1].text();
        if results[n - 1].ok {
            (ok.push(ip), bad)
        } else {
            (ok, bad.push(ip + " ("@ + results[n - 1].detail@ + ")"@))
        }
    }
}

/// What the check of Private DNS says, given the results of the attempts to
/// connect. In strict mode a failure to reach port 853 means no DNS at all,
/// because Android will not fall back to cleartext.
pub open spec fn private_dns_said(state: DiagState, results: Seq<ProbeResult>) -> Said {
    let b = untold(CheckId::PrivateDns, "Private DNS"@);
    match state.network {
        None => b.skip("Private DNS configuration comes from the framework"@),
        Some(n) => match n.link_properties {
            None => b.skip("no LinkProperties to read Private DNS from"@),
            Some(lp) => {
                let mode = lp.private_dns_mode;
                let b = b.ev("mode"@, mode.name_text()).ev(
                    "hostname"@,
                    lp.private_dns_server_name@,
                ).ev("active"@, truth(lp.private_dns_active)).ev(
                    "validated_servers"@,
                    join(address_texts(lp.validated_private_dns_servers@), ", "@),
                );
                if !private_dns_on(lp) {
                    b.skip("Private DNS is off"@)
                } else {
                    let servers = private_servers(state, lp);
                    let (ok, bad) = reached(servers, results, servers.len());
                    let b = b.ev("dot_reachable"@, join(ok, ", "@)).ev(
                        "dot_unreachable"@,
                        join(bad, "; "@),
                    );
                    if ok.len() == 0 && servers.len() > 0 {
                        if mode is Strict {
                            b.fail(
                                "Private DNS is in strict mode but no server answers on port 853; Android will not fall back to plaintext DNS, so name resolution is completely down"@,
                            )
                        } else {
                            b.warn(
                                "no Private DNS server answers on port 853; Android will fall back to plaintext DNS, with a delay on every first lookup"@,
                            )
                        }
                    } else if !lp.private_dns_active {
                        b.warn(
                            "Private DNS is configured but the framework does not report it as active"@,
                        )
                    } else {
                        b.pass("Private DNS ("@ +
                            mode.name_text() +
                            ") is working; "@ +
                            dec(ok.len()) +
                            " server(s) answer on port 853"@)
                    }
                }
            },
        },
    }
}

/// The check of Private DNS, with one result for each server that it names.
pub fn check_private_dns(clock: Stopwatch, state: &DiagState, results: &Vec<ProbeResult>) -> (r: Check)
    requires
        properties_of(*state) is Some && private_dns_on(properties_of(*state)->0) ==> results@.len()
            == private_servers(*state, properties_of(*state)->0).len(),
    ensures
        said(r) == private_dns_said(*state, results@),
        r.id == answered(Question::PrivateDns),
        r.evidence.wf(),
{
    let b = CheckBuilder::timed(clock, CheckId::PrivateDns, "Private DNS");
    let n = match &state.network {
        Some(n) => n,
        None => {
            return b.skip(String::from_str("Private DNS configuration comes from the framework"));
        },
    };
    let lp = match &n.link_properties {
        Some(lp) => lp,
        None => {
            return b.skip(String::from_str("no LinkProperties to read Private DNS from"));
        },
    };
    let mode = lp.private_dns_mode;
    let b = b.ev("mode", mode.name()).ev("hostname", lp.private_dns_server_name.as_str()).ev(
        "active",
        truth_str(lp.private_dns_active),
    ).ev(
        "validated_servers",
        join_texts(&list_addresses(&lp.validated_private_dns_servers), ", ").as_str(),
    );
    if mode == PrivateDnsMode::Off || mode == PrivateDnsMode::Unspecified {
        return b.skip(String::from_str("Private DNS is off"));
    }
    let servers = read_private_servers(state, lp);
    let mut ok: Vec<String> = Vec::new();
    let mut bad: Vec<String> = Vec::new();
    let mut i: usize = 0;
    assert(texts(ok@) =~= Seq::empty());
    assert(texts(bad@) =~= Seq::empty());
    while i < servers.len()
        invariant
            i <= servers.len(),
            results@.len() == servers@.len(),
            (texts(ok@), texts(bad@)) == reached(servers@, results@, i as nat),
        decreases servers.len() - i,
    {
        let ghost ok0 = texts(ok@);
        let ghost bad0 = texts(bad@);
        let ip = servers[i].to_text();
        if results[i].ok {
            let ghost t = ip@;
            ok.push(ip);
            assert(texts(ok@) =~= ok0.push(t));
        } else {
            let words = String::from_str(ip.as_str())
                .concat(" (")
                .concat(results[i].detail.as_str())
                .concat(")");
            let ghost t = words@;
            bad.push(words);
            assert(texts(bad@) =~= bad0.push(t));
        }
        i += 1;
    }
    assert(texts(ok@).len() == ok.len());
    let b = b.ev("dot_reachable", join_texts(&ok, ", ").as_str()).ev(
        "dot_unreachable",
        join_texts(&bad, "; ").as_str(),
    );
    if ok.len() == 0 && servers.len() > 0 {
        return if mode == PrivateDnsMode::Strict {
            b.fail(
                String::from_str(
                    "Private DNS is in strict mode but no server answers on port 853; Android will not fall back to plaintext DNS, so name resolution is completely down",
                ),
            )
        } else {
            b.warn(
                String::from_str(
                    "no Private DNS server answers on port 853; Android will fall back to plaintext DNS, with a delay on every first lookup",
                ),
            )
        };
    }
    if !lp.private_dns_active {
        return b.warn(
            String::from_str(
                "Private DNS is configured but the framework does not report it as active",
            ),
        );
    }
    let count = dec_string(ok.len() as u64);
    b.pass(String::from_str("Private DNS (")
        .concat(mode.name())
        .concat(") is working; ")
        .concat(count.as_str())
        .concat(" server(s) answer on port 853"))
}

// ---- NAT64 ------------------------------------------------------------------

/// The server to send the RFC 7050 discovery query to.
pub fn nat64_target(state: &DiagState) -> (r: Option<IpAddr>)
    ensures
        r == if state.dns_servers@.len() == 0 {
            None
        } else {
            Some(state.dns_servers@[0])
        },
{
    if state.dns_servers.len() == 0 {
        None
    } else {
        Some(state.dns_servers[0])
    }
}

/// The NAT64 prefix that the framework reports.
pub open spec fn framework_prefix(state: DiagState) -> Seq<char> {
    match properties_of(state) {
        Some(lp) => match lp.nat64_prefix {
            Some(p) => p.text(),
            None => Seq::empty(),
        },
        None => Seq::empty(),
    }
}

fn read_framework_prefix(state: &DiagState) -> (r: String)
    ensures
        r@ == framework_prefix(*state),
{
    if let Some(n) = &state.network {
        if let Some(lp) = &n.link_properties {
            if let Some(p) = &lp.nat64_prefix {
                return p.display();
            }
        }
    }
    let none = String::new();
    assert(none@ =~= Seq::empty());
    none
}

/// The prefix that an answer was synthesised with.
pub open spec fn synthesised(answer: Result<DnsAnswer, String>) -> Option<(Seq<u8>, u8)> {
    match answer {
        Ok(a) => first_embedding(a.addresses@),
        Err(_) => None,
    }
}

/// What the check for NAT64 says, given the answer to the discovery query.
/// `ipv4only.arpa` has no AAAA records, so any AAAA answer was synthesised by a
/// DNS64 server and carries the NAT64 prefix (RFC 7050).
pub open spec fn nat64_said(state: DiagState, answer: Result<DnsAnswer, String>) -> Said {
    let clat = state.clat.clat_interface@;
    let b = untold(CheckId::Nat64Dns64, "NAT64 / DNS64"@).ev(
        "clat_active"@,
        truth(state.clat.active),
    ).ev("clat_interface"@, clat).ev("framework_nat64_prefix"@, framework_prefix(state));
    if state.dns_servers@.len() == 0 {
        b.skip("no DNS servers to run the RFC 7050 discovery query against"@)
    } else {
        let b = b.ev("probe_server"@, state.dns_servers@[0].text());
        let b = match answer {
            Ok(a) => b.ev("rcode"@, a.rcode.text()).ev(
                "ipv4only_arpa_aaaa"@,
                join(ip_texts(a.addresses@), ", "@),
            ),
            Err(e) => b.ev("probe_error"@, e@),
        };
        match (synthesised(answer), state.clat.active) {
            (Some((prefix, len)), true) => b.pass("DNS64 is synthesising with prefix "@ +
                crate::ip::v6_text(prefix) +
                "/"@ +
                dec(len as nat) +
                " and clatd is running on "@ +
                clat),
            (Some((prefix, len)), false) => b.warn("DNS64 is synthesising with prefix "@ +
                crate::ip::v6_text(prefix) +
                "/"@ +
                dec(len as nat) +
                " but no clat interface exists; apps using raw IPv4 sockets or IPv4 literals have no path out"@),
            (None, true) => b.warn("clatd is running on "@ +
                clat +
                " but the resolver does not synthesise AAAA records for ipv4only.arpa; the NAT64 prefix may have been learned another way, or DNS64 has stopped"@),
            (None, false) => b.skip("this network is not using NAT64/DNS64"@),
        }
    }
}

/// The check for NAT64, with a stopwatch that ran during the query. Where there
/// is no server to ask, the answer does not matter.
pub fn check_nat64(clock: Stopwatch, state: &DiagState, answer: &Result<DnsAnswer, String>) -> (r: Check)
    ensures
        said(r) == nat64_said(*state, *answer),
        r.id == CheckId::Nat64Dns64,
        r.evidence.wf(),
{
    let clat = state.clat.clat_interface.as_str();
    let b = CheckBuilder::timed(clock, CheckId::Nat64Dns64, "NAT64 / DNS64").ev(
        "clat_active",
        truth_str(state.clat.active),
    ).ev("clat_interface", clat).ev(
        "framework_nat64_prefix",
        read_framework_prefix(state).as_str(),
    );
    if state.dns_servers.len() == 0 {
        return b.skip(
            String::from_str("no DNS servers to run the RFC 7050 discovery query against"),
        );
    }
    let b = b.ev("probe_server", state.dns_servers[0].to_text().as_str());
    let b = match answer {
        Ok(a) => b.ev("rcode", a.rcode.name().as_str()).ev(
            "ipv4only_arpa_aaaa",
            join_texts(&list_ips(&a.addresses), ", ").as_str(),
        ),
        Err(e) => b.ev("probe_error", e.as_str()),
    };
    let found = match answer {
        Ok(a) => first_nat64_prefix(&a.addresses),
        Err(_) => None,
    };
    match found {
        Some((prefix, len)) => {
            let p = IpAddr::V6(prefix).to_text();
            let n = dec_string(len as u64);
            if state.clat.active {
                b.pass(String::from_str("DNS64 is synthesising with prefix ")
                    .concat(p.as_str())
                    .concat("/")
                    .concat(n.as_str())
                    .concat(" and clatd is running on ")
                    .concat(clat))
            } else {
                b.warn(String::from_str("DNS64 is synthesising with prefix ")
                    .concat(p.as_str())
                    .concat("/")
                    .concat(n.as_str())
                    .concat(" but no clat interface exists; apps using raw IPv4 sockets or IPv4 literals have no path out"))
            }
        },
        None => {
            if state.clat.active {
                b.warn(String::from_str("clatd is running on ")
                    .concat(clat)
                    .concat(" but the resolver does not synthesise AAAA records for ipv4only.arpa; the NAT64 prefix may have been learned another way, or DNS64 has stopped"))
            } else {
                b.skip(String::from_str("this network is not using NAT64/DNS64"))
            }
        },
    }
}

// ---- MTU --------------------------------------------------------------------

/// The family to measure a path MTU over, and the interface that bounds it.
/// IPv4 is preferred: IPv6 forbids fragmentation entirely, so a DF probe there
/// measures the same thing with fewer usable sizes.
pub open spec fn mtu_family(state: DiagState) -> Option<IpFamily> {
    if either(state.egress_v4, state.egress_v6) is None {
        None
    } else if state.lookup_v4.route is Some {
        Some(IpFamily::V4)
    } else if state.lookup_v6.route is Some {
        Some(IpFamily::V6)
    } else {
        None
    }
}

/// What a path MTU is measured to.
pub open spec fn path_measured(state: DiagState) -> Option<(IpAddr, IpFamily, u32)> {
    match mtu_family(state) {
        Some(family) => Some(
            (
                endpoint_of(state, family).ip,
                family,
                (either(state.egress_v4, state.egress_v6)->0).mtu,
            ),
        ),
        None => None,
    }
}

/// What to measure a path MTU to: the address, the family and the MTU of the
/// interface.
pub fn mtu_target(state: &DiagState) -> (r: Option<(IpAddr, IpFamily, u32)>)
    ensures
        r == path_measured(*state),
{
    let iface = match (&state.egress_v4, &state.egress_v6) {
        (Some(i), _) => i,
        (None, Some(i)) => i,
        (None, None) => {
            return None;
        },
    };
    if state.lookup_v4.route.is_some() {
        Some((state.v4_endpoint.ip, IpFamily::V4, iface.mtu))
    } else if state.lookup_v6.route.is_some() {
        Some((state.v6_endpoint.ip, IpFamily::V6, iface.mtu))
    } else {
        None
    }
}

/// The MTU that the kernel has learned for a route; zero for none.
pub open spec fn route_mtu(route: Option<Route>) -> u32 {
    match route {
        Some(r) => match r.metrics {
            Some(m) => m.mtu,
            None => 0,
        },
        None => 0,
    }
}

fn read_route_mtu(route: &Option<Route>) -> (r: u32)
    ensures
        r == route_mtu(*route),
{
    match route {
        Some(r) => match &r.metrics {
            Some(m) => m.mtu,
            None => 0,
        },
        None => 0,
    }
}

/// What the check of the path MTU says, given the result of the measurement. A
/// route MTU below the interface MTU means the kernel has already learned about
/// a smaller path, which is PMTU discovery working correctly: it is reported as
/// information rather than a failure.
pub open spec fn mtu_said(state: DiagState, result: ProbeResult) -> Said {
    let b = untold(CheckId::MtuPmtu, "MTU / path MTU"@);
    match either(state.egress_v4, state.egress_v6) {
        None => b.skip("no egress interface to measure"@),
        Some(i) => match mtu_family(state) {
            None => b.skip("no route to measure a path MTU along"@),
            Some(family) => {
                let learned = route_mtu(lookup_of(state, family).route);
                let b = b.about(family).ev("interface"@, i.name@).ev(
                    "interface_mtu"@,
                    dec(i.mtu as nat),
                ).ev("route_mtu"@, dec(learned as nat)).with_probe(result);
                if 0 < learned < i.mtu {
                    b.info("the kernel has cached a path MTU of "@ +
                        dec(learned as nat) +
                        " for this route, below the interface MTU of "@ +
                        dec(i.mtu as nat) +
                        "; PMTU discovery is working"@)
                } else {
                    b
                }
            },
        },
    }
}

/// The check of the path MTU. Where there is nothing to measure, the result
/// does not matter.
pub fn check_mtu(state: &DiagState, result: &ProbeResult) -> (r: Check)
    ensures
        said(r) == mtu_said(*state, *result),
        r.id == answered(Question::Mtu),
        r.evidence.wf(),
        mtu_family(*state) is Some ==> r.duration_ms == result.duration_ms,
{
    let b = CheckBuilder::new(CheckId::MtuPmtu, "MTU / path MTU");
    let iface = match (&state.egress_v4, &state.egress_v6) {
        (Some(i), _) => i,
        (None, Some(i)) => i,
        (None, None) => {
            return b.skip(String::from_str("no egress interface to measure"));
        },
    };
    let family = if state.lookup_v4.route.is_some() {
        IpFamily::V4
    } else if state.lookup_v6.route.is_some() {
        IpFamily::V6
    } else {
        return b.skip(String::from_str("no route to measure a path MTU along"));
    };
    let learned = read_route_mtu(&lookup_for(state, family).route);
    let learned_text = dec_string(learned as u64);
    let own = dec_string(iface.mtu as u64);
    let mut check = b.family(family).ev("interface", iface.name.as_str()).ev(
        "interface_mtu",
        own.as_str(),
    ).ev("route_mtu", learned_text.as_str()).with_probe(result);
    if learned > 0 && learned < iface.mtu {
        check.status = CheckStatus::Info;
        check.detail = String::from_str("the kernel has cached a path MTU of ")
            .concat(learned_text.as_str())
            .concat(" for this route, below the interface MTU of ")
            .concat(own.as_str())
            .concat("; PMTU discovery is working");
    }
    check
}

} // verus!
