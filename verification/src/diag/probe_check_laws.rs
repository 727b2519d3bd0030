//! When a check with a probe behind it passes, warns, fails or is skipped, and what a
//! probe is asked of.
use vstd::prelude::*;

use crate::collect::neigh::is_entry_for;
use crate::diag::check::Said;
use crate::diag::check_laws::holds;
use crate::diag::probes::{
    context_of, deciding, dns_after, dns_said, endpoint_tried, gateway_asked, gateway_said,
    handshake_tried, mtu_said, nat64_said, passed_as, path_measured, private_dns_said,
    private_servers, private_tried, reached, server_asked, tcp_said, tls_said,
};
use crate::diag::state::{set_addresses, DiagState};
use crate::ip::IpAddr;
use crate::probe::ProbeResult;
use crate::probe::dns::{first_embedding, DnsAnswer};
use crate::proto::{
    Check, CheckStatus, Interface, IpAddress, IpFamily, LinkPropertiesInfo, Neighbor, NeighborState,
    PrivateDnsMode, Route, RouteLookup,
};
use crate::seq_laws::{law_nothing_is_found, law_the_first_is_found};
use crate::seqs::any;
use crate::text::dec;

verus! {

// ---- The gateway --------------------------------------------------------------------

/// Whether a route goes by a gateway with this address and interface.
pub open spec fn goes_by(route: Route, gateway: IpAddr, index: u32) -> bool {
    &&& route.next_hops@.len() > 0
    &&& route.next_hops@[0].gateway matches Some(a) && a.addr@ == gateway.octets()
    &&& route.next_hops@[0].out_interface_index == index
}

/// Whether the kernel's neighbour is the gateway, on the interface that leads there.
pub open spec fn is_neighbour(n: Neighbor, gateway: IpAddr, index: u32) -> bool {
    &&& n.address matches Some(a) && IpAddr::of(a.addr@) == Some(gateway)
    &&& index == 0 || n.interface_index == index
}

/// A gateway that answers passes, whatever the neighbour table holds. One that does not
/// is a warning where its first entry there can be used, and a failure where it cannot
/// or there is none.
pub proof fn law_when_a_gateway_is_reached(
    state: DiagState,
    family: IpFamily,
    lookup: RouteLookup,
    ping: ProbeResult,
    route: Route,
    gateway: IpAddr,
    index: u32,
    k: int,
)
    requires
        family is V4 && lookup == state.lookup_v4 || family is V6 && lookup == state.lookup_v6,
        lookup.route == Some(route),
        goes_by(route, gateway, index),
        0 <= k <= state.neighbors@.len(),
        forall|i: int|
            0 <= i < k ==> !is_neighbour(#[trigger] state.neighbors@[i], gateway, index),
        k < state.neighbors@.len() ==> is_neighbour(state.neighbors@[k], gateway, index),
    ensures
        ({
            let s = gateway_said(state, family, ping);
            let usable = k < state.neighbors@.len() && !(state.neighbors@[k].state
                == NeighborState::Unspecified || state.neighbors@[k].state == NeighborState::Incomplete
                || state.neighbors@[k].state == NeighborState::Failed || state.neighbors@[k].state
                == NeighborState::NoEntry);
            &&& s.status is Pass <==> ping.ok
            &&& s.status is Warn <==> !ping.ok && usable
            &&& s.status is Fail <==> !ping.ok && !usable
        }),
{
    let p = is_entry_for(gateway, index);
    crate::ip::law_address_bytes_round_trip(gateway);
    assert(forall|n: Neighbor| #[trigger] p(n) == is_neighbour(n, gateway, index));
    if k < state.neighbors@.len() {
        assert(p(state.neighbors@[k]));
        law_the_first_is_found(state.neighbors@, p, k);
    } else {
        law_nothing_is_found(state.neighbors@, p);
    }
}

/// Without a route, or with one that has no gateway, there is nothing to reach.
pub proof fn law_when_there_is_no_gateway(
    state: DiagState,
    family: IpFamily,
    lookup: RouteLookup,
    ping: ProbeResult,
)
    requires
        family is V4 && lookup == state.lookup_v4 || family is V6 && lookup == state.lookup_v6,
        lookup.route matches Some(r) ==> r.next_hops@.len() == 0 || r.next_hops@[0].gateway is None,
    ensures
        gateway_said(state, family, ping).status is Skip,
{
}

// ---- Names --------------------------------------------------------------------------

/// A lookup passes where one of the servers gave an answer, and fails where some were
/// asked and none did; without servers, or before one is asked, it is skipped.
pub proof fn law_when_a_name_is_found(state: DiagState, qtype: u16, results: Seq<ProbeResult>)
    ensures
        ({
            let s = dns_said(state, qtype, results);
            let found = exists|i: int| 0 <= i < results.len() && (#[trigger] results[i]).ok;
            &&& s.status is Skip <==> state.dns_servers@.len() == 0 || results.len() == 0
            &&& s.status is Pass <==> state.dns_servers@.len() > 0 && found
            &&& s.status is Fail <==> state.dns_servers@.len() > 0 && results.len() > 0 && !found
        }),
{
    lemma_dns_status(state.dns_servers@, results, 0);
}

/// The first server that answers decides, and where none does the last.
pub proof fn law_the_first_answer_decides(state: DiagState, qtype: u16, results: Seq<ProbeResult>, k: int)
    requires
        state.dns_servers@.len() > 0,
        0 <= k < results.len(),
        forall|i: int| 0 <= i < k ==> !(#[trigger] results[i]).ok,
        results[k].ok || k == results.len() - 1,
    ensures
        dns_said(state, qtype, results).detail == results[k].detail@,
        deciding(results, 0) == results[k],
{
    lemma_dns_detail(state.dns_servers@, results, 0, k);
    lemma_deciding(results, 0, k);
}

proof fn lemma_deciding(results: Seq<ProbeResult>, i: int, k: int)
    requires
        0 <= i <= k < results.len(),
        forall|j: int| i <= j < k ==> !(#[trigger] results[j]).ok,
        results[k].ok || k == results.len() - 1,
    ensures
        deciding(results, i) == results[k],
    decreases k - i,
{
    if i < k {
        lemma_deciding(results, i + 1, k);
    }
}

proof fn lemma_dns_detail(servers: Seq<IpAddr>, results: Seq<ProbeResult>, i: int, k: int)
    requires
        0 <= i <= k < results.len(),
        forall|j: int| i <= j < k ==> !(#[trigger] results[j]).ok,
        results[k].ok || k == results.len() - 1,
    ensures
        forall|b: Said| #[trigger] dns_after(b, servers, results, i).detail == results[k].detail@,
    decreases k - i,
{
    if i < k {
        lemma_dns_detail(servers, results, i + 1, k);
    }
    assert forall|b: Said| #[trigger]
        dns_after(b, servers, results, i).detail == results[k].detail@ by {
        let after = b.ev(
            "server_"@ + dec(i as nat),
            servers[i].text() + ": "@ + results[i].detail@,
        );
        if i < k {
            assert(dns_after(after, servers, results, i + 1).detail == results[k].detail@);
        } else {
            assert(dns_after(after, servers, results, i + 1).detail == results[k].detail@ || results[k].ok);
        }
    }
}

proof fn lemma_dns_status(servers: Seq<IpAddr>, results: Seq<ProbeResult>, i: int)
    requires
        0 <= i <= results.len(),
        forall|j: int| 0 <= j < i ==> !(#[trigger] results[j]).ok,
    ensures
        forall|b: Said|
            {
                let s = #[trigger] dns_after(b, servers, results, i);
                let found = exists|j: int| 0 <= j < results.len() && (#[trigger] results[j]).ok;
                &&& s.status is Skip <==> results.len() == 0
                &&& s.status is Pass <==> found
                &&& s.status is Fail <==> results.len() > 0 && !found
            },
    decreases results.len() - i,
{
    if i < results.len() && !results[i].ok {
        lemma_dns_status(servers, results, i + 1);
        assert forall|b: Said|
            {
                let s = #[trigger] dns_after(b, servers, results, i);
                let found = exists|j: int| 0 <= j < results.len() && (#[trigger] results[j]).ok;
                &&& s.status is Skip <==> results.len() == 0
                &&& s.status is Pass <==> found
                &&& s.status is Fail <==> results.len() > 0 && !found
            } by {
            let after = b.ev(
                "server_"@ + dec(i as nat),
                servers[i].text() + ": "@ + results[i].detail@,
            );
            assert(dns_after(b, servers, results, i) == dns_after(after, servers, results, i + 1));
        }
    } else if i >= results.len() {
        if i > 0 {
            assert(!results[i - 1].ok);
        }
    } else {
        assert(results[i].ok);
    }
}

// ---- Connections ----------------------------------------------------------------------

/// A connection of a family is skipped where the kernel has no route, and is otherwise
/// what its attempt was.
pub proof fn law_when_a_connection_is_made(state: DiagState, result: ProbeResult)
    ensures
        ({
            let s = tcp_said(state, IpFamily::V4, result);
            &&& s.status is Skip <==> state.lookup_v4.route is None
            &&& s.status is Pass <==> state.lookup_v4.route is Some && result.ok
            &&& s.status is Fail <==> state.lookup_v4.route is Some && !result.ok
        }),
        ({
            let s = tcp_said(state, IpFamily::V6, result);
            &&& s.status is Skip <==> state.lookup_v6.route is None
            &&& s.status is Pass <==> state.lookup_v6.route is Some && result.ok
            &&& s.status is Fail <==> state.lookup_v6.route is Some && !result.ok
        }),
{
}

/// Whether a check passed.
pub open spec fn has_passed(checks: Seq<Check>, key: Seq<char>) -> bool {
    exists|i: int|
        0 <= i < checks.len() && (#[trigger] checks[i]).key@ == key && checks[i].status
            == CheckStatus::Pass
}

/// A handshake runs over IPv6 where its connection was made, else over IPv4 where that
/// one was, and is skipped where neither was; otherwise it is what its attempt was.
pub proof fn law_when_a_handshake_is_tried(checks: Seq<Check>, result: ProbeResult)
    ensures
        ({
            let s = tls_said(checks, result);
            let v6 = has_passed(checks, "tcp.v6"@);
            let v4 = has_passed(checks, "tcp.v4"@);
            &&& s.status is Skip <==> !v4 && !v6
            &&& s.status is Pass <==> (v4 || v6) && result.ok
            &&& s.status is Fail <==> (v4 || v6) && !result.ok
            &&& v6 ==> s.family == IpFamily::V6
            &&& v4 && !v6 ==> s.family == IpFamily::V4
        }),
{
    lemma_has_passed(checks, "tcp.v6"@);
    lemma_has_passed(checks, "tcp.v4"@);
}

proof fn lemma_has_passed(checks: Seq<Check>, key: Seq<char>)
    ensures
        any(checks, passed_as(key)) <==> has_passed(checks, key),
{
    let p = passed_as(key);
    if any(checks, p) {
        let i = choose|i: int| 0 <= i < checks.len() && p(#[trigger] checks[i]);
        assert(checks[i].key@ == key);
    }
    if has_passed(checks, key) {
        let i = choose|i: int|
            0 <= i < checks.len() && (#[trigger] checks[i]).key@ == key && checks[i].status
                == CheckStatus::Pass;
        assert(p(checks[i]));
    }
}

// ---- Private DNS ------------------------------------------------------------------------

/// Private DNS that is off is skipped, as is one that the framework says nothing of.
pub proof fn law_when_private_dns_is_off(state: DiagState, results: Seq<ProbeResult>)
    ensures
        private_dns_said(state, results).status is Skip <==> !(state.network matches Some(n) && (
        n.link_properties matches Some(lp) && (lp.private_dns_mode == PrivateDnsMode::Opportunistic
            || lp.private_dns_mode == PrivateDnsMode::Strict))),
{
}

/// Private DNS that is on fails exactly where it is strict and none of its servers could
/// be reached. It passes where one could, or there is none to reach, and the framework
/// reports it as active, and everything else is a warning.
pub proof fn law_when_private_dns_works(
    state: DiagState,
    lp: LinkPropertiesInfo,
    results: Seq<ProbeResult>,
)
    requires
        state.network matches Some(n) && n.link_properties == Some(lp),
        lp.private_dns_mode == PrivateDnsMode::Opportunistic || lp.private_dns_mode
            == PrivateDnsMode::Strict,
        results.len() == private_servers(state, lp).len(),
    ensures
        ({
            let s = private_dns_said(state, results);
            let unreached = results.len() > 0 && forall|i: int|
                0 <= i < results.len() ==> !(#[trigger] results[i]).ok;
            &&& s.status is Fail <==> unreached && lp.private_dns_mode == PrivateDnsMode::Strict
            &&& s.status is Pass <==> !unreached && lp.private_dns_active
            &&& s.status is Warn <==> unreached && lp.private_dns_mode != PrivateDnsMode::Strict
                || !unreached && !lp.private_dns_active
        }),
{
    lemma_reached(private_servers(state, lp), results, results.len());
}

proof fn lemma_reached(servers: Seq<IpAddr>, results: Seq<ProbeResult>, n: nat)
    requires
        n <= results.len(),
    ensures
        reached(servers, results, n).0.len() == 0 <==> forall|i: int|
            0 <= i < n ==> !(#[trigger] results[i]).ok,
    decreases n,
{
    if n > 0 {
        lemma_reached(servers, results, (n - 1) as nat);
        if results[n - 1].ok {
            assert(!(forall|i: int| 0 <= i < n ==> !(#[trigger] results[i]).ok));
        }
    }
}

/// The servers of Private DNS are those that the framework validated, and the ordinary
/// ones where it validated none.
pub proof fn law_which_servers_private_dns_has(state: DiagState, lp: LinkPropertiesInfo)
    ensures
        lp.validated_private_dns_servers@.len() == 0 ==> private_servers(state, lp)
            == state.dns_servers@,
        lp.validated_private_dns_servers@.len() > 0 && (forall|i: int|
            0 <= i < lp.validated_private_dns_servers@.len() ==> (
            #[trigger] lp.validated_private_dns_servers@[i]).addr@.len() == 4) ==> private_servers(
            state,
            lp,
        ).len() == lp.validated_private_dns_servers@.len() && forall|i: int|
            0 <= i < lp.validated_private_dns_servers@.len() ==> (#[trigger] private_servers(
                state,
                lp,
            )[i]).octets() == lp.validated_private_dns_servers@[i].addr@,
{
    law_set_addresses_are_kept(lp.validated_private_dns_servers@);
}

/// Of a list of addresses those that hold four or sixteen bytes are read, as these
/// bytes and in their order.
pub proof fn law_set_addresses_are_kept(list: Seq<IpAddress>)
    ensures
        (forall|i: int|
            0 <= i < list.len() ==> (#[trigger] list[i]).addr@.len() == 4 || list[i].addr@.len() == 16)
            ==> set_addresses(list).len() == list.len() && forall|i: int|
            0 <= i < list.len() ==> (#[trigger] set_addresses(list)[i]).octets() == list[i].addr@,
        forall|ip: IpAddr|
            #[trigger] set_addresses(list).contains(ip) <==> exists|i: int|
                0 <= i < list.len() && (#[trigger] list[i]).addr@ == ip.octets(),
    decreases list.len(),
{
    if list.len() > 0 {
        let t = list.drop_last();
        law_set_addresses_are_kept(t);
        let last = list.len() - 1;
        let front = set_addresses(t);
        if let Some(x) = list[last].ip_of() {
            assert(x.octets() =~= list[last].addr@);
        }
        if forall|i: int|
            0 <= i < list.len() ==> (#[trigger] list[i]).addr@.len() == 4 || list[i].addr@.len() == 16 {
            assert forall|i: int| 0 <= i < t.len() implies (#[trigger] t[i]).addr@.len() == 4
                || t[i].addr@.len() == 16 by {
                assert(t[i] == list[i]);
            }
            assert(list[last].addr@.len() == 4 || list[last].addr@.len() == 16);
            assert forall|i: int| 0 <= i < list.len() implies (#[trigger] set_addresses(list)[i]).octets()
                == list[i].addr@ by {
                if i < last {
                    assert(front[i].octets() == t[i].addr@);
                }
            }
        }
        assert forall|ip: IpAddr|
            #[trigger] set_addresses(list).contains(ip) <==> exists|i: int|
                0 <= i < list.len() && (#[trigger] list[i]).addr@ == ip.octets() by {
            crate::ip::law_address_bytes_round_trip(ip);
            if set_addresses(list).contains(ip) {
                let j = set_addresses(list).index_of(ip);
                if j < front.len() {
                    assert(front[j] == ip);
                    assert(front.contains(ip));
                    let i = choose|i: int| 0 <= i < t.len() && (#[trigger] t[i]).addr@ == ip.octets();
                    assert(list[i].addr@ == ip.octets());
                } else {
                    assert(list[last].addr@ == ip.octets());
                }
            }
            if exists|i: int| 0 <= i < list.len() && (#[trigger] list[i]).addr@ == ip.octets() {
                let i = choose|i: int| 0 <= i < list.len() && (#[trigger] list[i]).addr@ == ip.octets();
                if i < last {
                    assert(t[i].addr@ == ip.octets());
                    assert(front.contains(ip));
                    let j = front.index_of(ip);
                    assert(set_addresses(list)[j] == ip);
                } else {
                    assert(set_addresses(list)[front.len() as int] == ip);
                }
            }
        }
    }
}

// ---- NAT64 and the path MTU ---------------------------------------------------------------

/// NAT64 passes where names are synthesised and a translator runs, warns where only one
/// of the two is there, and is skipped where neither is or there is no server to ask.
pub proof fn law_when_nat64_is_complete(state: DiagState, answer: Result<DnsAnswer, String>)
    ensures
        ({
            let s = nat64_said(state, answer);
            let asked = state.dns_servers@.len() > 0;
            let names = answer matches Ok(a) && first_embedding(a.addresses@) is Some;
            &&& s.status is Pass <==> asked && names && state.clat.active
            &&& s.status is Warn <==> asked && names != state.clat.active
            &&& s.status is Skip <==> !asked || !names && !state.clat.active
        }),
{
}

/// A path MTU is measured where there is an interface and a route, over IPv4 where IPv4
/// has one. A smaller MTU that the kernel has already learned is told, not judged; else
/// the check is what the measurement was.
pub proof fn law_when_a_path_is_measured(state: DiagState, result: ProbeResult, i: Interface)
    requires
        state.egress_v4 == Some(i) || state.egress_v4 is None && state.egress_v6 == Some(i),
    ensures
        ({
            let s = mtu_said(state, result);
            let route = if state.lookup_v4.route is Some {
                state.lookup_v4.route
            } else {
                state.lookup_v6.route
            };
            let learned = if let Some(r) = route {
                if let Some(m) = r.metrics {
                    m.mtu
                } else {
                    0
                }
            } else {
                0
            };
            &&& s.status is Skip <==> route is None
            &&& s.status is Info <==> route is Some && 0 < learned < i.mtu
            &&& route is Some && !(0 < learned < i.mtu) ==> (s.status is Pass <==> result.ok) && (
            s.status is Fail <==> !result.ok) && s.detail == result.detail@
            &&& route is Some ==> s.family == if state.lookup_v4.route is Some {
                IpFamily::V4
            } else {
                IpFamily::V6
            }
        }),
{
}

/// What a probe found out is kept as evidence.
pub proof fn law_a_probe_leaves_its_evidence(state: DiagState, result: ProbeResult, name: Seq<char>)
    requires
        crate::textmap::pairs_map(result.evidence@).dom().contains(name),
    ensures
        state.lookup_v4.route is Some ==> holds(
            tcp_said(state, IpFamily::V4, result),
            name,
            crate::textmap::pairs_map(result.evidence@)[name],
        ),
        (state.egress_v4 is Some || state.egress_v6 is Some) && (state.lookup_v4.route is Some
            || state.lookup_v6.route is Some) ==> holds(
            mtu_said(state, result),
            name,
            crate::textmap::pairs_map(result.evidence@)[name],
        ),
{
}

// ---- What is probed -----------------------------------------------------------------------

/// A gateway is asked exactly where the route of its family goes by one: that one.
pub proof fn law_which_gateway_is_asked(
    state: DiagState,
    family: IpFamily,
    lookup: RouteLookup,
    gateway: IpAddr,
    index: u32,
)
    requires
        family is V4 && lookup == state.lookup_v4 || family is V6 && lookup == state.lookup_v6,
    ensures
        lookup.route is None ==> gateway_asked(state, family) is None,
        lookup.route matches Some(r) ==> (goes_by(r, gateway, index) ==> gateway_asked(state, family)
            == Some(gateway)),
        lookup.route matches Some(r) ==> (r.next_hops@.len() == 0 || r.next_hops@[0].gateway is None
            ==> gateway_asked(state, family) is None),
{
    crate::ip::law_address_bytes_round_trip(gateway);
}

/// Servers are asked in their order, each once, until one answers.
pub proof fn law_which_server_is_asked(servers: Seq<IpAddr>, results: Seq<ProbeResult>)
    ensures
        (exists|i: int| 0 <= i < results.len() && (#[trigger] results[i]).ok) ==> server_asked(
            servers,
            results,
        ) is None,
        (forall|i: int| 0 <= i < results.len() ==> !(#[trigger] results[i]).ok) ==> {
            &&& results.len() < servers.len() ==> server_asked(servers, results) == Some(
                servers[results.len() as int],
            )
            &&& results.len() >= servers.len() ==> server_asked(servers, results) is None
        },
{
}

/// A connection is tried where its family has a route, to the endpoint of the family.
pub proof fn law_which_endpoint_is_tried(state: DiagState)
    ensures
        state.lookup_v4.route is Some ==> endpoint_tried(state, IpFamily::V4) == Some(state.v4_endpoint),
        state.lookup_v6.route is Some ==> endpoint_tried(state, IpFamily::V6) == Some(state.v6_endpoint),
        state.lookup_v4.route is None ==> endpoint_tried(state, IpFamily::V4) is None,
        state.lookup_v6.route is None ==> endpoint_tried(state, IpFamily::V6) is None,
{
}

/// A handshake is tried over the connection that was made, over IPv6's where both were.
pub proof fn law_over_what_a_handshake_is_tried(state: DiagState, checks: Seq<Check>)
    ensures
        has_passed(checks, "tcp.v6"@) ==> handshake_tried(state, checks) == Some(
            (state.v6_endpoint, IpFamily::V6),
        ),
        !has_passed(checks, "tcp.v6"@) && has_passed(checks, "tcp.v4"@) ==> handshake_tried(state, checks)
            == Some((state.v4_endpoint, IpFamily::V4)),
        !has_passed(checks, "tcp.v6"@) && !has_passed(checks, "tcp.v4"@) ==> handshake_tried(
            state,
            checks,
        ) is None,
{
    lemma_has_passed(checks, "tcp.v6"@);
    lemma_has_passed(checks, "tcp.v4"@);
}

/// Private DNS is tried at its servers where it is on, and nowhere else.
pub proof fn law_where_private_dns_is_tried(state: DiagState)
    ensures
        state.network is None ==> private_tried(state).len() == 0,
        state.network matches Some(n) ==> match n.link_properties {
            None => private_tried(state).len() == 0,
            Some(lp) => {
                let on = lp.private_dns_mode == PrivateDnsMode::Opportunistic || lp.private_dns_mode
                    == PrivateDnsMode::Strict;
                &&& on ==> private_tried(state) == private_servers(state, lp)
                &&& !on ==> private_tried(state).len() == 0
            },
        },
{
}

/// A path MTU is measured to the endpoint of the family that has a route, IPv4 first,
/// within the MTU of the egress interface.
pub proof fn law_which_path_is_measured(state: DiagState, i: Interface)
    requires
        state.egress_v4 == Some(i) || state.egress_v4 is None && state.egress_v6 == Some(i),
    ensures
        state.lookup_v4.route is Some ==> path_measured(state) == Some(
            (state.v4_endpoint.ip, IpFamily::V4, i.mtu),
        ),
        state.lookup_v4.route is None && state.lookup_v6.route is Some ==> path_measured(state) == Some(
            (state.v6_endpoint.ip, IpFamily::V6, i.mtu),
        ),
        state.lookup_v4.route is None && state.lookup_v6.route is None ==> path_measured(state) is None,
{
}

/// A question over a family is put in the context of that family.
pub proof fn law_in_which_context_is_probed(state: DiagState)
    ensures
        context_of(state, IpFamily::V4) == state.probe_ctx_v4,
        context_of(state, IpFamily::V6) == state.probe_ctx_v6,
{
}

} // verus!
