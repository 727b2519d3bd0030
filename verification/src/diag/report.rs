//! Which checks a diagnosis runs, in which order, and the report it ends with.
use vstd::prelude::*;

use crate::diag::check::{said, untold, CheckBuilder, Said};
use crate::diag::checks::{
    active_interface_said, address_said, agreement_said, android_state_said, captive_portal_said,
    check_active_interface, check_address, check_android_state, check_captive_portal,
    check_default_route, check_framework_agreement, check_route_lookup, check_rule_coverage,
    check_socket_states, check_vpn, default_route_said, route_lookup_said, rule_coverage_said,
    socket_states_said, vpn_said,
};
use crate::diag::rules::{all_found, evaluate, findings_said, said_before};
use crate::diag::state::DiagState;
use crate::proto::{
    Check, CheckId, CheckStatus, DiagnoseRequest, DiagnoseResponse, Finding, FindingSeverity,
    IpFamily,
};
use crate::seqs::{lemma_filter_end, lemma_filter_start, lemma_filter_step, sort_by};
use crate::text::{dec, dec_string};

verus! {

// ---- The plan ---------------------------------------------------------------

/// The structural checks. They are instant, and they decide which probes are
/// even meaningful.
pub open spec fn structural_checks() -> Seq<CheckId> {
    seq![
        CheckId::AndroidNetworkState,
        CheckId::ActiveInterface,
        CheckId::RouteLookupV4,
        CheckId::RouteLookupV6,
        CheckId::Ipv4Address,
        CheckId::Ipv6Address,
        CheckId::Ipv4DefaultRoute,
        CheckId::Ipv6DefaultRoute,
        CheckId::RoutingRuleCoverage,
        CheckId::VpnRouting,
        CheckId::FirewallAnomaly,
        CheckId::SuspiciousTcpStates,
        CheckId::FrameworkKernelAgreement,
        CheckId::CaptivePortal,
    ]
}

/// The probes. Gateway reachability first, then DNS, then transport: that
/// order means a failure is reported at the lowest layer that broke.
pub open spec fn probe_checks() -> Seq<CheckId> {
    seq![
        CheckId::GatewayReachabilityV4,
        CheckId::GatewayReachabilityV6,
        CheckId::DnsA,
        CheckId::DnsAaaa,
        CheckId::TcpV4,
        CheckId::TcpV6,
        CheckId::TlsHandshake,
        CheckId::PrivateDns,
        CheckId::Nat64Dns64,
        CheckId::MtuPmtu,
    ]
}

/// Whether a request asks for a check: it is not among those to skip, and it
/// is among those to run where some are named.
pub open spec fn is_wanted(request: DiagnoseRequest) -> spec_fn(CheckId) -> bool {
    |id: CheckId|
        !request.skip@.contains(id) && (request.only@.len() == 0 || request.only@.contains(id))
}

fn lists(v: &Vec<CheckId>, id: CheckId) -> (r: bool)
    ensures
        r == v@.contains(id),
{
    let mut i: usize = 0;
    while i < v.len()
        invariant
            i <= v.len(),
            forall|k: int| 0 <= k < i ==> v@[k] != id,
        decreases v.len() - i,
    {
        if v[i] == id {
            assert(v@[i as int] == id);
            return true;
        }
        i += 1;
    }
    false
}

/// Whether a request asks for a check.
pub fn wanted(request: &DiagnoseRequest, id: CheckId) -> (r: bool)
    ensures
        r == is_wanted(*request)(id),
{
    !lists(&request.skip, id) && (request.only.len() == 0 || lists(&request.only, id))
}

fn all_checks() -> (r: Vec<CheckId>)
    ensures
        r@ == structural_checks() + probe_checks(),
{
    let v = vec![
        CheckId::AndroidNetworkState,
        CheckId::ActiveInterface,
        CheckId::RouteLookupV4,
        CheckId::RouteLookupV6,
        CheckId::Ipv4Address,
        CheckId::Ipv6Address,
        CheckId::Ipv4DefaultRoute,
        CheckId::Ipv6DefaultRoute,
        CheckId::RoutingRuleCoverage,
        CheckId::VpnRouting,
        CheckId::FirewallAnomaly,
        CheckId::SuspiciousTcpStates,
        CheckId::FrameworkKernelAgreement,
        CheckId::CaptivePortal,
        CheckId::GatewayReachabilityV4,
        CheckId::GatewayReachabilityV6,
        CheckId::DnsA,
        CheckId::DnsAaaa,
        CheckId::TcpV4,
        CheckId::TcpV6,
        CheckId::TlsHandshake,
        CheckId::PrivateDns,
        CheckId::Nat64Dns64,
        CheckId::MtuPmtu,
    ];
    assert(v@ =~= structural_checks() + probe_checks());
    v
}

/// The checks that a diagnosis runs, in order.
pub fn planned_checks(request: &DiagnoseRequest) -> (r: Vec<CheckId>)
    ensures
        r@ == (structural_checks() + probe_checks()).filter(is_wanted(*request)),
{
    let all = all_checks();
    let ghost p = is_wanted(*request);
    let mut out: Vec<CheckId> = Vec::new();
    let mut i: usize = 0;
    proof {
        lemma_filter_start(all@, p);
    }
    while i < all.len()
        invariant
            i <= all.len(),
            p == is_wanted(*request),
            out@ == all@.take(i as int).filter(p),
        decreases all.len() - i,
    {
        proof {
            lemma_filter_step(all@, p, i as int);
        }
        if wanted(request, all[i]) {
            out.push(all[i]);
        }
        i += 1;
    }
    proof {
        lemma_filter_end(all@, p);
    }
    out
}

/// A check that a request says to skip is not run, also where the request
/// names it among those to run.
pub proof fn law_skip_wins(request: DiagnoseRequest, id: CheckId)
    requires
        request.skip@.contains(id),
    ensures
        !(structural_checks() + probe_checks()).filter(is_wanted(request)).contains(id),
{
    broadcast use vstd::seq_lib::group_filter_ensures;

    let s = (structural_checks() + probe_checks()).filter(is_wanted(request));
    if s.contains(id) {
        let i = choose|i: int| 0 <= i < s.len() && s[i] == id;
        assert(is_wanted(request)(s[i]));
    }
}

// ---- Running ----------------------------------------------------------------

/// What a structural check says; none for a check that needs more than what
/// was collected.
pub open spec fn structural_said(id: CheckId, state: DiagState, request: DiagnoseRequest) -> Option<Said> {
    match id {
        CheckId::AndroidNetworkState => Some(android_state_said(state, request)),
        CheckId::ActiveInterface => Some(active_interface_said(state)),
        CheckId::RouteLookupV4 => Some(route_lookup_said(state, IpFamily::V4)),
        CheckId::RouteLookupV6 => Some(route_lookup_said(state, IpFamily::V6)),
        CheckId::Ipv4Address => Some(address_said(state, IpFamily::V4)),
        CheckId::Ipv6Address => Some(address_said(state, IpFamily::V6)),
        CheckId::Ipv4DefaultRoute => Some(default_route_said(state, IpFamily::V4)),
        CheckId::Ipv6DefaultRoute => Some(default_route_said(state, IpFamily::V6)),
        CheckId::RoutingRuleCoverage => Some(rule_coverage_said(state)),
        CheckId::VpnRouting => Some(vpn_said(state)),
        CheckId::SuspiciousTcpStates => Some(socket_states_said(state)),
        CheckId::FrameworkKernelAgreement => Some(agreement_said(state)),
        CheckId::CaptivePortal => Some(captive_portal_said(state)),
        _ => None,
    }
}

/// Runs a structural check; none for a check that needs more than what was
/// collected (the firewall, and the probes).
pub fn run_structural(id: CheckId, state: &DiagState, request: &DiagnoseRequest) -> (r: Option<Check>)
    ensures
        match r {
            Some(c) => structural_said(id, *state, *request) == Some(said(c)) && c.id == id
                && c.evidence.wf(),
            None => structural_said(id, *state, *request) is None,
        },
{
    match id {
        CheckId::AndroidNetworkState => Some(check_android_state(state, request)),
        CheckId::ActiveInterface => Some(check_active_interface(state)),
        CheckId::RouteLookupV4 => Some(check_route_lookup(state, IpFamily::V4)),
        CheckId::RouteLookupV6 => Some(check_route_lookup(state, IpFamily::V6)),
        CheckId::Ipv4Address => Some(check_address(state, IpFamily::V4)),
        CheckId::Ipv6Address => Some(check_address(state, IpFamily::V6)),
        CheckId::Ipv4DefaultRoute => Some(check_default_route(state, IpFamily::V4)),
        CheckId::Ipv6DefaultRoute => Some(check_default_route(state, IpFamily::V6)),
        CheckId::RoutingRuleCoverage => Some(check_rule_coverage(state)),
        CheckId::VpnRouting => Some(check_vpn(state)),
        CheckId::SuspiciousTcpStates => Some(check_socket_states(state)),
        CheckId::FrameworkKernelAgreement => Some(check_framework_agreement(state)),
        CheckId::CaptivePortal => Some(check_captive_portal(state)),
        _ => None,
    }
}

/// The title of a probe.
pub open spec fn probe_title(id: CheckId) -> Seq<char> {
    match id {
        CheckId::GatewayReachabilityV4 => "IPv4 gateway reachable"@,
        CheckId::GatewayReachabilityV6 => "IPv6 gateway reachable"@,
        CheckId::DnsA => "DNS A lookup"@,
        CheckId::DnsAaaa => "DNS AAAA lookup"@,
        CheckId::TcpV4 => "TCP connection over IPv4"@,
        CheckId::TcpV6 => "TCP connection over IPv6"@,
        CheckId::TlsHandshake => "TLS handshake"@,
        CheckId::PrivateDns => "Private DNS"@,
        CheckId::Nat64Dns64 => "NAT64 / DNS64"@,
        CheckId::MtuPmtu => "MTU / path MTU"@,
        _ => "Check"@,
    }
}

pub fn probe_check_title(id: CheckId) -> (r: &'static str)
    ensures
        r@ == probe_title(id),
{
    match id {
        CheckId::GatewayReachabilityV4 => "IPv4 gateway reachable",
        CheckId::GatewayReachabilityV6 => "IPv6 gateway reachable",
        CheckId::DnsA => "DNS A lookup",
        CheckId::DnsAaaa => "DNS AAAA lookup",
        CheckId::TcpV4 => "TCP connection over IPv4",
        CheckId::TcpV6 => "TCP connection over IPv6",
        CheckId::TlsHandshake => "TLS handshake",
        CheckId::PrivateDns => "Private DNS",
        CheckId::Nat64Dns64 => "NAT64 / DNS64",
        CheckId::MtuPmtu => "MTU / path MTU",
        _ => "Check",
    }
}

/// What stands in the report for a probe of a passive diagnosis.
pub fn passive_check(id: CheckId) -> (r: Check)
    ensures
        said(r) == untold(id, probe_title(id)).skip(
            "skipped: the request asked for passive analysis only"@,
        ),
        r.evidence.wf(),
{
    CheckBuilder::new(id, probe_check_title(id)).skip(
        String::from_str("skipped: the request asked for passive analysis only"),
    )
}

/// The one check of a diagnosis for which the kernel's state could not be read.
pub fn collection_failure(why: &str) -> (r: Check)
    ensures
        said(r) == untold(CheckId::ActiveInterface, "Collect kernel state"@).fail("could not read kernel networking state: "@ + why@),
        r.evidence.wf(),
{
    CheckBuilder::new(CheckId::ActiveInterface, "Collect kernel state").fail(String::from_str("could not read kernel networking state: ").concat(why))
}

// ---- The report -------------------------------------------------------------

/// How many checks have an outcome.
pub open spec fn count_status(checks: Seq<Check>, status: CheckStatus) -> nat
    decreases checks.len(),
{
    if checks.len() == 0 {
        0
    } else {
        count_status(checks.drop_last(), status) + if checks.last().status == status {
            1nat
        } else {
            0nat
        }
    }
}

/// The most severe of the findings' severities.
pub open spec fn worst_of(findings: Seq<Finding>) -> FindingSeverity
    decreases findings.len(),
{
    if findings.len() == 0 {
        FindingSeverity::Unspecified
    } else {
        let front = worst_of(findings.drop_last());
        if findings.last().severity.rank_of() > front.rank_of() {
            findings.last().severity
        } else {
            front
        }
    }
}

/// The report in a sentence: the first finding, or what the checks alone say.
pub open spec fn summary_of(checks: Seq<Check>, findings: Seq<Finding>) -> Seq<char> {
    let failed = count_status(checks, CheckStatus::Fail);
    let warned = count_status(checks, CheckStatus::Warn);
    if findings.len() > 0 {
        findings[0].title@
    } else if failed == 0 && warned == 0 {
        "No problems found; connectivity looks healthy on every layer checked"@
    } else if failed == 0 {
        dec(warned) + " warning(s), nothing conclusive"@
    } else {
        dec(failed) + " check(s) failed but no known pattern matched"@
    }
}

fn count_checks(checks: &Vec<Check>, status: CheckStatus) -> (r: u32)
    requires
        checks@.len() <= u32::MAX,
    ensures
        r == count_status(checks@, status),
{
    let mut n: u32 = 0;
    let mut i: usize = 0;
    assert(checks@.take(0) =~= Seq::empty());
    while i < checks.len()
        invariant
            i <= checks.len(),
            checks@.len() <= u32::MAX,
            n <= i,
            n == count_status(checks@.take(i as int), status),
        decreases checks.len() - i,
    {
        assert(checks@.take(i + 1).drop_last() =~= checks@.take(i as int));
        if checks[i].status == status {
            n += 1;
        }
        i += 1;
    }
    assert(checks@.take(checks@.len() as int) =~= checks@);
    n
}

fn worst_severity(findings: &Vec<Finding>) -> (r: FindingSeverity)
    ensures
        r == worst_of(findings@),
{
    let mut worst = FindingSeverity::Unspecified;
    let mut i: usize = 0;
    assert(findings@.take(0) =~= Seq::empty());
    while i < findings.len()
        invariant
            i <= findings.len(),
            worst == worst_of(findings@.take(i as int)),
        decreases findings.len() - i,
    {
        assert(findings@.take(i + 1).drop_last() =~= findings@.take(i as int));
        if findings[i].severity.rank() > worst.rank() {
            worst = findings[i].severity;
        }
        i += 1;
    }
    assert(findings@.take(findings@.len() as int) =~= findings@);
    worst
}

/// The report, from the checks and the findings.
pub fn finish(
    started_unix_ms: i64,
    total_duration_ms: u64,
    checks: Vec<Check>,
    findings: Vec<Finding>,
) -> (r: DiagnoseResponse)
    requires
        checks@.len() <= u32::MAX,
    ensures
        r.started_unix_ms == started_unix_ms,
        r.total_duration_ms == total_duration_ms,
        r.checks == checks,
        r.findings == findings,
        r.summary@ == summary_of(checks@, findings@),
        r.worst_severity == worst_of(findings@),
        r.passed == count_status(checks@, CheckStatus::Pass),
        r.failed == count_status(checks@, CheckStatus::Fail),
        r.warned == count_status(checks@, CheckStatus::Warn),
        r.skipped == count_status(checks@, CheckStatus::Skip),
{
    let passed: u32 = count_checks(&checks, CheckStatus::Pass);
    let failed: u32 = count_checks(&checks, CheckStatus::Fail);
    let warned: u32 = count_checks(&checks, CheckStatus::Warn);
    let skipped: u32 = count_checks(&checks, CheckStatus::Skip);
    let summary = if findings.len() > 0 {
        findings[0].title.clone()
    } else if failed == 0 && warned == 0 {
        String::from_str("No problems found; connectivity looks healthy on every layer checked")
    } else if failed == 0 {
        let n = dec_string(warned as u64);
        String::from_str(n.as_str()).concat(" warning(s), nothing conclusive")
    } else {
        let n = dec_string(failed as u64);
        String::from_str(n.as_str())
            .concat(" check(s) failed but no known pattern matched")
    };
    DiagnoseResponse {
        started_unix_ms,
        total_duration_ms,
        worst_severity: worst_severity(&findings),
        checks,
        findings,
        summary,
        passed,
        failed,
        warned,
        skipped,
    }
}

/// The report of a diagnosis, from its checks: the rules are run over them.
pub fn report(
    started_unix_ms: i64,
    total_duration_ms: u64,
    checks: Vec<Check>,
    state: &DiagState,
) -> (r: DiagnoseResponse)
    requires
        checks@.len() <= u32::MAX,
    ensures
        r.checks == checks,
        findings_said(r.findings@) == sort_by(all_found(checks@, *state), said_before()),
        r.started_unix_ms == started_unix_ms,
        r.total_duration_ms == total_duration_ms,
        r.summary@ == summary_of(checks@, r.findings@),
        r.worst_severity == worst_of(r.findings@),
        r.passed == count_status(checks@, CheckStatus::Pass),
        r.failed == count_status(checks@, CheckStatus::Fail),
        r.warned == count_status(checks@, CheckStatus::Warn),
        r.skipped == count_status(checks@, CheckStatus::Skip),
{
    let findings = evaluate(&checks, state);
    finish(started_unix_ms, total_duration_ms, checks, findings)
}

/// The worst severity of a report is that of some finding, and no finding is
/// more severe.
pub proof fn law_worst_severity_bounds_findings(findings: Seq<Finding>)
    ensures
        forall|i: int|
            0 <= i < findings.len() ==> (#[trigger] findings[i]).severity.rank_of() <= worst_of(
                findings,
            ).rank_of(),
        findings.len() > 0 && worst_of(findings) != FindingSeverity::Unspecified ==> exists|i: int|
            0 <= i < findings.len() && (#[trigger] findings[i]).severity == worst_of(findings),
    decreases findings.len(),
{
    if findings.len() > 0 {
        let front = findings.drop_last();
        law_worst_severity_bounds_findings(front);
        assert forall|i: int| 0 <= i < findings.len() implies (
        #[trigger] findings[i]).severity.rank_of() <= worst_of(findings).rank_of() by {
            if i < front.len() {
                assert(findings[i] == front[i]);
            }
        }
        if worst_of(findings) != FindingSeverity::Unspecified {
            if findings.last().severity == worst_of(findings) {
                assert(findings[findings.len() - 1].severity == worst_of(findings));
            } else {
                let i = choose|i: int|
                    0 <= i < front.len() && (#[trigger] front[i]).severity == worst_of(front);
                assert(findings[i].severity == worst_of(findings));
            }
        }
    }
}

} // verus!
