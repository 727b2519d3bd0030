//! What a diagnosis is about, which checks it makes, and what its report counts.
use vstd::prelude::*;

use crate::diag::check::said;
use crate::diag::checks::{
    active_interface_said, address_said, agreement_said, android_state_said, captive_portal_said,
    default_route_said, firewall_said, socket_states_said, vpn_said, FirewallReading,
};
use crate::diag::probes::{
    dns_said, gateway_said, mtu_said, nat64_said, private_dns_said, tcp_said, tls_said,
};
use crate::diag::report::{count_status, is_wanted, probe_checks, structural_checks, summary_of};
use crate::diag::rules::said_by;
use crate::diag::run::{Diagnosis, Progress};
use crate::diag::state::{
    bound_to, configured_dns, egress_of, endpoint_ip, endpoint_port, has_net_id, interface_is,
    is_default_network, net_id_of, planned_lookup, planned_network, plans, servers_to_test,
    DiagPlan, DiagState,
};
use crate::ip::IpAddr;
use crate::probe::dns::DnsAnswer;
use crate::probe::{ProbeContext, ProbeResult};
use crate::proto::{
    AndroidNetwork, AndroidNetworkState, Check, CheckId, CheckStatus, DiagnoseRequest,
    DiagnoseTarget, Finding, FindingSeverity, Interface, IpAddress, IpFamily, RouteLookup,
};
use crate::seq_laws::{law_nothing_is_found, law_the_first_is_found};
use crate::text::{dec, starts_with};

verus! {

// ---- The subject ----------------------------------------------------------------------

/// A diagnosis is about the network that its target names; where it names none, about
/// the one that is active.
pub proof fn law_which_network_is_meant(target: DiagnoseTarget, android: Option<AndroidNetworkState>)
    ensures
        target.net_id != 0 ==> net_id_of(target, android) == target.net_id,
        target.net_id == 0 && android is None ==> net_id_of(target, android) == 0,
        target.net_id == 0 ==> (android matches Some(s) ==> net_id_of(target, android)
            == if s.has_active_network {
            s.active_net_id
        } else {
            0
        }),
{
}

/// A plan is that of its target: it asks as the uid that is named and over the network
/// that is meant, and what is not named is the default.
pub proof fn law_a_plan_is_that_of_its_target(
    plan: DiagPlan,
    target: DiagnoseTarget,
    android: Option<AndroidNetworkState>,
)
    requires
        plans(plan, target, android),
    ensures
        target.has_as_uid ==> plan.uid == Some(target.as_uid),
        !target.has_as_uid ==> plan.uid is None,
        target.net_id != 0 ==> plan.net_id == target.net_id,
        0 < plan.net_id < 0x1_0000 ==> plan.ctx.mark == Some((0x1_0000 + plan.net_id) as u32),
        plan.net_id <= 0 ==> plan.ctx.mark is None,
        target.timeout_ms != 0 ==> plan.ctx.timeout_ms == target.timeout_ms,
        target.timeout_ms == 0 ==> plan.ctx.timeout_ms == 3000,
        target.hostname@.len() > 0 ==> plan.hostname@ == target.hostname@,
        target.hostname@.len() == 0 ==> plan.hostname@ == "connectivitycheck.gstatic.com"@,
        plan.v4_endpoint.ip == endpoint_ip(target.ipv4_endpoint, IpAddr::V4([1, 1, 1, 1])),
        target.ipv6_endpoint is None ==> plan.v6_endpoint.ip is V6,
        plan.v4_endpoint.port == plan.v6_endpoint.port,
        target.tcp_port == 0 ==> plan.v4_endpoint.port == 443,
        0 < target.tcp_port < 0x1_0000 ==> plan.v4_endpoint.port == target.tcp_port,
{
}

/// The kernel is asked where the plan's traffic goes: as its uid, with its mark, to the
/// destination of each family.
pub proof fn law_lookups_are_those_of_the_plan(plan: DiagPlan, destination: IpAddr)
    ensures
        ({
            let a = planned_lookup(plan, destination);
            &&& a.destination == destination && a.uid == plan.uid && a.fwmark == plan.ctx.mark
            &&& a.source_hint is None && a.out_interface_index == 0
        }),
{
}

/// The servers that are tested are those of the network; where it has none, two public
/// ones stand in, one for each family, and it is told that they do.
pub proof fn law_which_servers_are_tested(network: Option<AndroidNetwork>)
    ensures
        configured_dns(network).len() > 0 ==> servers_to_test(network) == (configured_dns(network), true),
        configured_dns(network).len() == 0 ==> {
            let (servers, configured) = servers_to_test(network);
            &&& !configured && servers.len() == 2 && servers[0] is V4 && servers[1] is V6
        },
{
}

/// Probes go out as the plan says, and by the interface that the kernel would use where
/// it has a name.
pub proof fn law_probes_are_bound_to_the_egress(ctx: ProbeContext, base: ProbeContext, egress: Option<Interface>)
    requires
        bound_to(ctx, base, egress),
    ensures
        ctx.mark == base.mark && ctx.timeout_ms == base.timeout_ms && ctx.source == base.source,
        egress matches Some(i) ==> (i.name@.len() > 0 ==> ctx.bind_device == Some(i.name)),
        egress is None ==> ctx.bind_device == base.bind_device,
{
}

/// Its network is the framework's first with that netId; where the framework has none,
/// the first default one.
pub proof fn law_which_network_is_read(state: AndroidNetworkState, net_id: i32, k: int)
    requires
        0 <= k < state.networks@.len(),
    ensures
        state.networks@[k].net_id == net_id && (forall|i: int|
            0 <= i < k ==> (#[trigger] state.networks@[i]).net_id != net_id) ==> planned_network(
            Some(state),
            net_id,
        ) == Some(state.networks@[k]),
        state.networks@[k].is_default && (forall|i: int|
            0 <= i < k ==> !(#[trigger] state.networks@[i]).is_default) && (forall|i: int|
            0 <= i < state.networks@.len() ==> (#[trigger] state.networks@[i]).net_id != net_id)
            ==> planned_network(Some(state), net_id) == Some(state.networks@[k]),
        planned_network(None, net_id) is None,
{
    let n = state.networks@;
    let d = is_default_network();
    let p = has_net_id(net_id);
    if n[k].is_default && (forall|i: int| 0 <= i < k ==> !(#[trigger] n[i]).is_default) {
        assert(d(n[k]));
        law_the_first_is_found(n, d, k);
    }
    if n[k].net_id == net_id && (forall|i: int| 0 <= i < k ==> (#[trigger] n[i]).net_id != net_id) {
        assert(p(n[k]));
        law_the_first_is_found(n, p, k);
    }
    if forall|i: int| 0 <= i < n.len() ==> (#[trigger] n[i]).net_id != net_id {
        law_nothing_is_found(n, p);
    }
}

/// An endpoint is the address that is named, or the default where none of four or
/// sixteen bytes is; its port is the one that is named, or that of HTTPS.
pub proof fn law_which_endpoint_is_meant(named: Option<IpAddress>, fallback: IpAddr, port: u32)
    ensures
        named is None ==> endpoint_ip(named, fallback) == fallback,
        named matches Some(a) ==> {
            let n = a.addr@.len();
            &&& n == 4 || n == 16 ==> endpoint_ip(named, fallback).octets() == a.addr@
            &&& n != 4 && n != 16 ==> endpoint_ip(named, fallback) == fallback
        },
        endpoint_port(0) == 443,
        0 < port < 0x1_0000 ==> endpoint_port(port) == port,
{
    if let Some(a) = named {
        if let Some(ip) = IpAddr::of(a.addr@) {
            assert(ip.octets() =~= a.addr@);
        }
    }
}

/// Traffic leaves by the interface of the first hop of the route that the kernel chose.
pub proof fn law_which_interface_traffic_leaves_by(lookup: RouteLookup, interfaces: Seq<Interface>, k: int)
    ensures
        lookup.route is None ==> egress_of(lookup, interfaces) is None,
        lookup.route matches Some(r) ==> {
            &&& r.next_hops@.len() == 0 ==> egress_of(lookup, interfaces) is None
            &&& r.next_hops@.len() > 0 && 0 <= k < interfaces.len() && interfaces[k].index
                == r.next_hops@[0].out_interface_index && (forall|i: int|
                0 <= i < k ==> (#[trigger] interfaces[i]).index != interfaces[k].index) ==> egress_of(
                lookup,
                interfaces,
            ) == Some(interfaces[k])
            &&& egress_of(lookup, interfaces) matches Some(i) ==> i.index
                == r.next_hops@[0].out_interface_index && interfaces.contains(i)
        },
{
    if let Some(r) = lookup.route {
        if r.next_hops@.len() > 0 {
            let p = interface_is(r.next_hops@[0].out_interface_index);
            crate::seqs::lemma_find_any(interfaces, p);
            if 0 <= k < interfaces.len() && interfaces[k].index == r.next_hops@[0].out_interface_index && (
            forall|i: int| 0 <= i < k ==> (#[trigger] interfaces[i]).index != interfaces[k].index) {
                assert(p(interfaces[k]));
                law_the_first_is_found(interfaces, p, k);
            }
        }
    }
}

/// The servers of a network are those of its link properties, as their bytes.
pub proof fn law_which_servers_a_network_has(n: AndroidNetwork, ip: IpAddr)
    ensures
        configured_dns(None).len() == 0,
        n.link_properties is None ==> configured_dns(Some(n)).len() == 0,
        n.link_properties matches Some(lp) ==> (configured_dns(Some(n)).contains(ip) <==> exists|i: int|
            0 <= i < lp.dns_servers@.len() && (#[trigger] lp.dns_servers@[i]).addr@ == ip.octets()),
{
    if let Some(lp) = n.link_properties {
        crate::diag::probe_check_laws::law_set_addresses_are_kept(lp.dns_servers@);
    }
}

// ---- The plan ---------------------------------------------------------------------------

/// The checks of a diagnosis are those that are not to be skipped and, where some are
/// named, are named.
pub proof fn law_which_checks_are_made(request: DiagnoseRequest, id: CheckId)
    ensures
        ({
            let plan = (structural_checks() + probe_checks()).filter(is_wanted(request));
            plan.contains(id) <==> (structural_checks() + probe_checks()).contains(id)
                && !request.skip@.contains(id) && (request.only@.len() == 0 || request.only@.contains(id))
        }),
{
    let all = structural_checks() + probe_checks();
    let p = is_wanted(request);
    let plan = all.filter(p);
    if plan.contains(id) {
        let i = plan.index_of(id);
        all.lemma_filter_pred(p, i);
        all.lemma_filter_contains_rev(p, id);
    }
    if all.contains(id) && p(id) {
        all.lemma_filter_contains(p, all.index_of(id));
    }
}

/// Every check is made once. What was collected is looked at before anything is probed,
/// a gateway before names are looked up, names before connections are made, and
/// connections before a handshake is tried over them.
pub proof fn law_the_order_of_checks(i: int, j: int)
    requires
        0 <= i < j < (structural_checks() + probe_checks()).len(),
    ensures
        ({
            let all = structural_checks() + probe_checks();
            &&& all.len() == 24
            &&& all[i] != all[j] && all[i] != CheckId::Unspecified
            &&& stage(all[i]) <= stage(all[j])
        }),
{
}

/// The stage of a diagnosis that a check belongs to.
pub open spec fn stage(id: CheckId) -> int {
    match id {
        CheckId::GatewayReachabilityV4 | CheckId::GatewayReachabilityV6 => 1,
        CheckId::DnsA | CheckId::DnsAaaa => 2,
        CheckId::TcpV4 | CheckId::TcpV6 => 3,
        CheckId::TlsHandshake => 4,
        CheckId::PrivateDns | CheckId::Nat64Dns64 | CheckId::MtuPmtu => 5,
        _ => 0,
    }
}

/// Each check of what was collected goes by the key that findings look for.
#[verifier::rlimit(60)]
pub proof fn law_checks_go_by_their_keys(
    state: DiagState,
    request: DiagnoseRequest,
    reading: FirewallReading,
)
    ensures
        android_state_said(state, request).key == "android.state"@,
        active_interface_said(state).key == "iface.active"@,
        vpn_said(state).key == "vpn.routing"@,
        firewall_said(reading).key == "firewall.anomaly"@,
        socket_states_said(state).key == "sockets.states"@,
        agreement_said(state).key == "framework.kernel"@,
        captive_portal_said(state).key == "captive.portal"@,
{
}

/// The checks of a family's address and default route go by keys of the family.
pub proof fn law_family_checks_go_by_their_keys(state: DiagState)
    ensures
        address_said(state, IpFamily::V4).key == "addr.v4"@,
        address_said(state, IpFamily::V6).key == "addr.v6"@,
        default_route_said(state, IpFamily::V4).key == "route.v4.default"@,
        default_route_said(state, IpFamily::V6).key == "route.v6.default"@,
{
}

/// The checks of a family's gateway and connection go by keys of the family.
pub proof fn law_family_probes_go_by_their_keys(state: DiagState, result: ProbeResult)
    ensures
        gateway_said(state, IpFamily::V4, result).key == "gateway.v4"@,
        gateway_said(state, IpFamily::V6, result).key == "gateway.v6"@,
        tcp_said(state, IpFamily::V4, result).key == "tcp.v4"@,
        tcp_said(state, IpFamily::V6, result).key == "tcp.v6"@,
{
}

/// The other checks with a probe behind them go by the keys that findings look for.
pub proof fn law_probes_go_by_their_keys(
    state: DiagState,
    results: Seq<ProbeResult>,
    result: ProbeResult,
    checks: Seq<Check>,
    answer: Result<DnsAnswer, String>,
)
    ensures
        tls_said(checks, result).key == "tls.handshake"@,
        private_dns_said(state, results).key == "dns.private"@,
        nat64_said(state, answer).key == "nat64.dns64"@,
        mtu_said(state, result).key == "mtu.pmtu"@,
{
}

/// A lookup of addresses goes by the key of its family: type 1 asks for IPv4 and type 28
/// for IPv6.
pub proof fn law_lookups_go_by_their_keys(state: DiagState, results: Seq<ProbeResult>)
    ensures
        dns_said(state, 1, results).key == "dns.a"@,
        dns_said(state, 28, results).key == "dns.aaaa"@,
{
    lemma_dns_key(state.dns_servers@, results, 0);
}

proof fn lemma_dns_key(servers: Seq<IpAddr>, results: Seq<ProbeResult>, i: int)
    requires
        0 <= i <= results.len(),
    ensures
        forall|b: crate::diag::check::Said| #[trigger]
            crate::diag::probes::dns_after(b, servers, results, i).key == b.key,
    decreases results.len() - i,
{
    if i < results.len() {
        lemma_dns_key(servers, results, i + 1);
        assert forall|b: crate::diag::check::Said| #[trigger]
            crate::diag::probes::dns_after(b, servers, results, i).key == b.key by {
            let after = b.ev(
                "server_"@ + dec(i as nat),
                servers[i].text() + ": "@ + results[i].detail@,
            );
            assert(crate::diag::probes::dns_after(after, servers, results, i + 1).key == after.key);
        }
    }
}

/// A diagnosis asks in the order of its plan, one check after the other, until each was
/// made.
pub proof fn law_a_diagnosis_follows_its_plan(d: Diagnosis)
    requires
        d.wf(),
    ensures
        d.next_step() is Complete <==> d.checks@.len() == d.plan@.len(),
        d.next_step() matches Progress::Ask(id) ==> d.checks@.len() < d.plan@.len() && id
            == d.plan@[d.checks@.len() as int],
        forall|i: int| 0 <= i < d.checks@.len() ==> (#[trigger] d.checks@[i]).id == d.plan@[i],
{
}

/// Severities of findings ascend from information over low, medium and high to critical.
pub proof fn law_severities_of_findings_ascend()
    ensures
        FindingSeverity::Unspecified.rank_of() < FindingSeverity::Info.rank_of(),
        FindingSeverity::Info.rank_of() < FindingSeverity::Low.rank_of(),
        FindingSeverity::Low.rank_of() < FindingSeverity::Medium.rank_of(),
        FindingSeverity::Medium.rank_of() < FindingSeverity::High.rank_of(),
        FindingSeverity::High.rank_of() < FindingSeverity::Critical.rank_of(),
{
}

/// A check and a finding say what stands in their fields.
pub proof fn law_what_is_said_is_what_is_held(c: Check, f: Finding)
    ensures
        said(c).status == c.status && said(c).id == c.id && said(c).key == c.key@,
        said(c).detail == c.detail@ && said(c).title == c.title@ && said(c).family == c.family,
        said(c).evidence == c.evidence@,
        said_by(f).id == f.id && said_by(f).severity == f.severity && said_by(f).confidence == f.confidence,
        said_by(f).title == f.title@ && said_by(f).key == f.key@,
{
}

// ---- The report -------------------------------------------------------------------------

/// Each check counts for its own outcome, once.
pub proof fn law_outcomes_are_counted(checks: Seq<Check>, c: Check, status: CheckStatus)
    ensures
        count_status(Seq::empty(), status) == 0,
        count_status(checks.push(c), status) == count_status(checks, status) + if c.status == status {
            1nat
        } else {
            0nat
        },
{
    assert(checks.push(c).drop_last() =~= checks);
}

/// An outcome is counted exactly where a check has it.
pub proof fn law_an_outcome_is_counted_where_it_is(checks: Seq<Check>, status: CheckStatus)
    ensures
        count_status(checks, status) > 0 <==> exists|i: int|
            0 <= i < checks.len() && (#[trigger] checks[i]).status == status,
    decreases checks.len(),
{
    if checks.len() > 0 {
        let t = checks.drop_last();
        law_an_outcome_is_counted_where_it_is(t, status);
        if count_status(t, status) > 0 {
            let i = choose|i: int| 0 <= i < t.len() && (#[trigger] t[i]).status == status;
            assert(checks[i].status == status);
        }
        if checks.last().status == status {
            assert(checks[checks.len() - 1].status == status);
        }
        if exists|i: int| 0 <= i < checks.len() && (#[trigger] checks[i]).status == status {
            let i = choose|i: int| 0 <= i < checks.len() && (#[trigger] checks[i]).status == status;
            if i < t.len() {
                assert(t[i].status == status);
            }
        }
    }
}

/// A report is headed by its first finding. Without one it says that all is well exactly
/// where no check failed or warned.
pub proof fn law_what_heads_a_report(checks: Seq<Check>, findings: Seq<Finding>)
    ensures
        findings.len() > 0 ==> summary_of(checks, findings) == findings[0].title@,
        findings.len() == 0 ==> (summary_of(checks, findings)
            == "No problems found; connectivity looks healthy on every layer checked"@ <==> forall|i: int|
            0 <= i < checks.len() ==> (#[trigger] checks[i]).status != CheckStatus::Fail
                && checks[i].status != CheckStatus::Warn),
        findings.len() == 0 && count_status(checks, CheckStatus::Fail) > 0 ==> starts_with(
            summary_of(checks, findings),
            dec(count_status(checks, CheckStatus::Fail)) + " check(s) failed"@,
        ),
        findings.len() == 0 && count_status(checks, CheckStatus::Fail) == 0 && count_status(
            checks,
            CheckStatus::Warn,
        ) > 0 ==> starts_with(
            summary_of(checks, findings),
            dec(count_status(checks, CheckStatus::Warn)) + " warning(s)"@,
        ),
{
    law_an_outcome_is_counted_where_it_is(checks, CheckStatus::Fail);
    law_an_outcome_is_counted_where_it_is(checks, CheckStatus::Warn);
    reveal_strlit("No problems found; connectivity looks healthy on every layer checked");
    reveal_strlit(" check(s) failed");
    reveal_strlit(" warning(s)");
    reveal_strlit(" check(s) failed but no known pattern matched");
    reveal_strlit(" warning(s), nothing conclusive");
    let failed = count_status(checks, CheckStatus::Fail);
    let warned = count_status(checks, CheckStatus::Warn);
    if findings.len() == 0 {
        let text = summary_of(checks, findings);
        let well = "No problems found; connectivity looks healthy on every layer checked"@;
        assert(well[well.len() - 3] == 'k' && well[well.len() - 1] == 'd');
        if failed > 0 {
            let head = dec(failed) + " check(s) failed"@;
            assert(text.take(head.len() as int) =~= head);
            assert(text[text.len() - 3] == 'h');
        } else if warned > 0 {
            let head = dec(warned) + " warning(s)"@;
            assert(text.take(head.len() as int) =~= head);
            assert(text[text.len() - 1] == 'e');
        }
    }
}

} // verus!
