use netdiag::diag::check::check_key;
use netdiag::diag::checks::{
    check_active_interface, check_address, check_rule_coverage, check_socket_states, check_vpn,
};
use netdiag::diag::report::{finish, planned_checks};
use netdiag::diag::run::{Diagnosis, Progress};
use netdiag::diag::state::{
    default_v4_endpoint, default_v6_endpoint, resolve_dns_servers, resolve_net_id, DiagState,
};
use netdiag::ip::SocketAddr;
use netdiag::ip_parse::read_ip;
use netdiag::probe::ProbeContext;
use netdiag::proto::{
    AndroidNetwork, AndroidNetworkState, Check, CheckId, CheckStatus, DiagnoseRequest,
    DiagnoseTarget, Interface, InterfaceSysctls, IpAddress, IpFamily, LinkFlags,
    LinkPropertiesInfo, SocketSummary, Transport,
};

fn iface(name: &str, up: bool) -> Interface {
    Interface {
        index: 1,
        name: name.to_string(),
        mtu: 1500,
        flags: Some(LinkFlags { up, running: up, ..Default::default() }),
        ..Default::default()
    }
}

fn empty_state() -> DiagState {
    DiagState {
        interfaces: Vec::new(),
        rules: Vec::new(),
        routes: Vec::new(),
        neighbors: Vec::new(),
        sockets: Vec::new(),
        socket_summary: Default::default(),
        clat: Default::default(),
        network: None,
        net_id: 0,
        probe_ctx_v4: ProbeContext::with_timeout(100),
        probe_ctx_v6: ProbeContext::with_timeout(100),
        lookup_v4: Default::default(),
        lookup_v6: Default::default(),
        egress_v4: None,
        egress_v6: None,
        dns_servers: Vec::new(),
        dns_from_framework: false,
        hostname: "one.one.one.one".to_string(),
        v4_endpoint: SocketAddr { ip: default_v4_endpoint(), port: 443 },
        v6_endpoint: SocketAddr { ip: default_v6_endpoint(), port: 443 },
        timeout_ms: 100,
    }
}

#[test]
fn check_keys_are_unique() {
    let ids = [
        CheckId::AndroidNetworkState,
        CheckId::ActiveInterface,
        CheckId::Ipv4Address,
        CheckId::Ipv6Address,
        CheckId::Ipv4DefaultRoute,
        CheckId::Ipv6DefaultRoute,
        CheckId::GatewayReachabilityV4,
        CheckId::GatewayReachabilityV6,
        CheckId::DnsA,
        CheckId::DnsAaaa,
        CheckId::TcpV4,
        CheckId::TcpV6,
        CheckId::TlsHandshake,
        CheckId::PrivateDns,
        CheckId::Nat64Dns64,
        CheckId::VpnRouting,
        CheckId::FirewallAnomaly,
        CheckId::MtuPmtu,
        CheckId::SuspiciousTcpStates,
        CheckId::FrameworkKernelAgreement,
        CheckId::RoutingRuleCoverage,
        CheckId::DnsLatency,
        CheckId::CaptivePortal,
        CheckId::RouteLookupV4,
        CheckId::RouteLookupV6,
    ];
    let mut keys: Vec<&str> = ids.iter().map(|id| check_key(*id)).collect();
    let total = keys.len();
    keys.sort_unstable();
    keys.dedup();
    assert_eq!(keys.len(), total, "check keys must be unique");
}

#[test]
fn no_egress_interface_is_a_failure_not_a_skip() {
    let check = check_active_interface(&empty_state());
    assert_eq!(check.status, CheckStatus::Fail);
}

#[test]
fn a_down_egress_interface_fails() {
    let mut state = empty_state();
    state.egress_v4 = Some(iface("wlan0", false));
    let check = check_active_interface(&state);
    assert_eq!(check.status, CheckStatus::Fail);
    assert!(check.detail.contains("not UP"), "{}", check.detail);
}

#[test]
fn a_healthy_egress_interface_passes() {
    let mut state = empty_state();
    state.egress_v4 = Some(iface("wlan0", true));
    let check = check_active_interface(&state);
    assert_eq!(check.status, CheckStatus::Pass);
    assert_eq!(check.evidence.get("interface").unwrap(), "wlan0");
}

#[test]
fn missing_global_address_fails_the_address_check() {
    let mut state = empty_state();
    state.egress_v6 = Some(iface("wlan0", true));
    let check = check_address(&state, IpFamily::V6);
    assert_eq!(check.status, CheckStatus::Fail);
}

#[test]
fn disabled_ipv6_is_named_as_the_cause() {
    let mut ifc = iface("wlan0", true);
    ifc.sysctls = Some(InterfaceSysctls { ipv6_disabled: true, ..Default::default() });
    let mut state = empty_state();
    state.egress_v6 = Some(ifc);
    let check = check_address(&state, IpFamily::V6);
    assert_eq!(check.status, CheckStatus::Fail);
    assert!(check.detail.contains("disable_ipv6"), "{}", check.detail);
}

#[test]
fn syn_sent_pileup_is_a_failure() {
    let mut state = empty_state();
    state.socket_summary =
        SocketSummary { total: 30, syn_sent: 12, established: 2, ..Default::default() };
    let check = check_socket_states(&state);
    assert_eq!(check.status, CheckStatus::Fail);
    assert!(check.detail.contains("SYN_SENT"));
}

#[test]
fn healthy_socket_mix_passes() {
    let mut state = empty_state();
    state.socket_summary =
        SocketSummary { total: 20, established: 18, syn_sent: 1, ..Default::default() };
    assert_eq!(check_socket_states(&state).status, CheckStatus::Pass);
}

#[test]
fn no_rules_at_all_is_a_failure() {
    let check = check_rule_coverage(&empty_state());
    assert_eq!(check.status, CheckStatus::Fail);
}

#[test]
fn vpn_check_skips_when_no_vpn_exists() {
    assert_eq!(check_vpn(&empty_state()).status, CheckStatus::Skip);
}

#[test]
fn framework_vpn_without_a_tun_is_a_disagreement() {
    let mut state = empty_state();
    state.network = Some(AndroidNetwork {
        net_id: 102,
        transports: vec![Transport::Vpn],
        ..Default::default()
    });
    let check = check_vpn(&state);
    assert_eq!(check.status, CheckStatus::Fail);
}

#[test]
fn target_net_id_overrides_the_active_network() {
    let target = DiagnoseTarget { net_id: 205, ..Default::default() };
    let android = AndroidNetworkState {
        has_active_network: true,
        active_net_id: 101,
        ..Default::default()
    };
    assert_eq!(resolve_net_id(&target, Some(&android)), 205);
    assert_eq!(resolve_net_id(&DiagnoseTarget::default(), Some(&android)), 101);
}

#[test]
fn framework_dns_servers_are_preferred_over_fallbacks() {
    let network = AndroidNetwork {
        link_properties: Some(LinkPropertiesInfo {
            dns_servers: vec![IpAddress::from_ip(read_ip("192.168.1.1").unwrap())],
            ..Default::default()
        }),
        ..Default::default()
    };
    let (servers, from_framework) = resolve_dns_servers(Some(&network));
    assert!(from_framework);
    assert_eq!(servers, vec![read_ip("192.168.1.1").unwrap()]);

    let (fallback, from_framework) = resolve_dns_servers(None);
    assert!(!from_framework);
    assert_eq!(fallback.len(), 2);
}

#[test]
fn a_check_to_skip_is_not_planned_even_where_it_is_named() {
    let request = DiagnoseRequest {
        only: vec![CheckId::TcpV4, CheckId::DnsA],
        skip: vec![CheckId::TcpV4],
        ..Default::default()
    };
    assert_eq!(planned_checks(&request), vec![CheckId::DnsA]);
    assert_eq!(planned_checks(&DiagnoseRequest::default()).len(), 24);
}

#[test]
fn a_passive_diagnosis_asks_only_for_the_firewall() {
    let request = DiagnoseRequest { passive_only: true, ..Default::default() };
    let mut diagnosis = Diagnosis::new(request, empty_state());
    let mut asked = Vec::new();
    loop {
        match diagnosis.run() {
            Progress::Made => {}
            Progress::Ask(id) => {
                asked.push(id);
                diagnosis.answer(Check { id, status: CheckStatus::Skip, ..Default::default() });
            }
            Progress::Complete => break,
        }
    }
    assert_eq!(asked, vec![CheckId::FirewallAnomaly]);
    let report = diagnosis.finish(1, 2);
    assert_eq!(report.checks.len(), 24);
    assert_eq!(report.skipped as usize, report.checks.iter().filter(|c| c.status == CheckStatus::Skip).count());
    assert_eq!(
        report.checks.last().unwrap().detail,
        "skipped: the request asked for passive analysis only"
    );
}

#[test]
fn an_active_diagnosis_asks_for_each_probe_in_order() {
    let mut diagnosis = Diagnosis::new(
        DiagnoseRequest { only: vec![CheckId::MtuPmtu, CheckId::DnsA], ..Default::default() },
        empty_state(),
    );
    assert_eq!(diagnosis.run(), Progress::Ask(CheckId::DnsA));
    // Nothing moves until an answer comes.
    assert_eq!(diagnosis.run(), Progress::Ask(CheckId::DnsA));
    diagnosis.answer(Check { id: CheckId::DnsA, status: CheckStatus::Pass, ..Default::default() });
    assert_eq!(diagnosis.run(), Progress::Ask(CheckId::MtuPmtu));
}

#[test]
fn a_report_without_findings_says_what_the_checks_say() {
    let check = |status: CheckStatus| Check { status, ..Default::default() };
    let summary = |checks: Vec<Check>| finish(0, 0, checks, vec![]).summary;
    assert_eq!(
        summary(vec![check(CheckStatus::Pass)]),
        "No problems found; connectivity looks healthy on every layer checked"
    );
    assert_eq!(summary(vec![check(CheckStatus::Warn)]), "1 warning(s), nothing conclusive");
    assert_eq!(
        summary(vec![check(CheckStatus::Fail), check(CheckStatus::Fail)]),
        "2 check(s) failed but no known pattern matched"
    );
}
