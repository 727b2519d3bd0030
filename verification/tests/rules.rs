use netdiag::diag::rules::evaluate;
use netdiag::diag::state::DiagState;
use netdiag::ip::SocketAddr;
use netdiag::ip_parse::read_ip;
use netdiag::probe::ProbeContext;
use netdiag::proto::{
    AndroidNetwork, Check, CheckStatus, FindingId, FindingSeverity, NetworkCapabilitiesInfo,
};

fn check(key: &str, status: CheckStatus) -> Check {
    Check { key: key.to_string(), status, ..Default::default() }
}

fn check_with(key: &str, status: CheckStatus, evidence: &[(&str, &str)]) -> Check {
    let mut c = check(key, status);
    for (k, v) in evidence {
        c.evidence.insert(k.to_string(), v.to_string());
    }
    c
}

fn state() -> DiagState {
    DiagState {
        interfaces: Vec::new(),
        rules: Vec::new(),
        routes: Vec::new(),
        neighbors: Vec::new(),
        sockets: Vec::new(),
        socket_summary: Default::default(),
        clat: Default::default(),
        network: None,
        net_id: 0,
        probe_ctx_v4: ProbeContext::with_timeout(100),
        probe_ctx_v6: ProbeContext::with_timeout(100),
        lookup_v4: Default::default(),
        lookup_v6: Default::default(),
        egress_v4: None,
        egress_v6: None,
        dns_servers: Vec::new(),
        dns_from_framework: false,
        hostname: "example.test".to_string(),
        v4_endpoint: SocketAddr { ip: read_ip("1.1.1.1").unwrap(), port: 443 },
        v6_endpoint: SocketAddr { ip: read_ip("2606:4700:4700::1111").unwrap(), port: 443 },
        timeout_ms: 100,
    }
}

/// Everything IPv6 looks right, and only the end-to-end connection fails.
#[test]
fn detects_broken_upstream_ipv6() {
    let checks = vec![
        check("addr.v6", CheckStatus::Pass),
        check("route.v6.default", CheckStatus::Pass),
        check("dns.aaaa", CheckStatus::Pass),
        check("tcp.v6", CheckStatus::Fail),
        check("tcp.v4", CheckStatus::Pass),
        check("dns.a", CheckStatus::Pass),
    ];
    let findings = evaluate(&checks, &state());
    let f = findings
        .iter()
        .find(|f| f.id == FindingId::BrokenUpstreamIpv6)
        .expect("the broken-IPv6 rule should fire");
    assert_eq!(f.severity, FindingSeverity::High);
    assert!(f.confidence >= 90, "confidence was {}", f.confidence);
    assert!(f.interpretation.contains("Happy Eyeballs"));
}

#[test]
fn broken_ipv6_rule_needs_working_ipv4_to_fire() {
    // With IPv4 broken too, this is not an IPv6-specific problem.
    let checks = vec![
        check("addr.v6", CheckStatus::Pass),
        check("route.v6.default", CheckStatus::Pass),
        check("tcp.v6", CheckStatus::Fail),
        check("tcp.v4", CheckStatus::Fail),
    ];
    let findings = evaluate(&checks, &state());
    assert!(!findings.iter().any(|f| f.id == FindingId::BrokenUpstreamIpv6));
}

#[test]
fn broken_ipv6_confidence_is_lower_without_aaaa_records() {
    let checks = vec![
        check("addr.v6", CheckStatus::Pass),
        check("route.v6.default", CheckStatus::Pass),
        check("dns.aaaa", CheckStatus::Fail),
        check("tcp.v6", CheckStatus::Fail),
        check("tcp.v4", CheckStatus::Pass),
    ];
    let f = evaluate(&checks, &state())
        .into_iter()
        .find(|f| f.id == FindingId::BrokenUpstreamIpv6)
        .unwrap();
    assert!(f.confidence < 90, "confidence was {}", f.confidence);
    assert!(f.interpretation.contains("not returning AAAA"));
}

#[test]
fn a_skipped_check_is_never_treated_as_a_pass() {
    let checks = vec![
        check("addr.v6", CheckStatus::Skip),
        check("route.v6.default", CheckStatus::Skip),
        check("tcp.v6", CheckStatus::Fail),
        check("tcp.v4", CheckStatus::Pass),
    ];
    assert!(!evaluate(&checks, &state())
        .iter()
        .any(|f| f.id == FindingId::BrokenUpstreamIpv6));
}

#[test]
fn healthy_network_produces_no_findings() {
    let checks = vec![
        check("addr.v4", CheckStatus::Pass),
        check("addr.v6", CheckStatus::Pass),
        check("route.v4.default", CheckStatus::Pass),
        check("route.v6.default", CheckStatus::Pass),
        check("gateway.v4", CheckStatus::Pass),
        check("dns.a", CheckStatus::Pass),
        check("dns.aaaa", CheckStatus::Pass),
        check("tcp.v4", CheckStatus::Pass),
        check("tcp.v6", CheckStatus::Pass),
        check("tls.handshake", CheckStatus::Pass),
        check("sockets.states", CheckStatus::Pass),
        check("framework.kernel", CheckStatus::Pass),
    ];
    assert!(evaluate(&checks, &state()).is_empty());
}

#[test]
fn detects_validated_but_broken() {
    let mut s = state();
    s.network = Some(AndroidNetwork {
        net_id: 101,
        capabilities: Some(NetworkCapabilitiesInfo {
            validated: true,
            internet: true,
            ..Default::default()
        }),
        ..Default::default()
    });
    let checks = vec![
        check("tcp.v4", CheckStatus::Fail),
        check("tcp.v6", CheckStatus::Fail),
        check("dns.a", CheckStatus::Pass),
        check("dns.aaaa", CheckStatus::Pass),
    ];
    assert!(evaluate(&checks, &s).iter().any(|f| f.id == FindingId::ValidatedButBroken));
}

#[test]
fn validated_but_broken_does_not_fire_when_unvalidated() {
    let mut s = state();
    s.network = Some(AndroidNetwork {
        capabilities: Some(NetworkCapabilitiesInfo { validated: false, ..Default::default() }),
        ..Default::default()
    });
    let checks = vec![check("tcp.v4", CheckStatus::Fail), check("tcp.v6", CheckStatus::Fail)];
    assert!(!evaluate(&checks, &s).iter().any(|f| f.id == FindingId::ValidatedButBroken));
}

#[test]
fn detects_dns_failure_with_working_transport() {
    let checks = vec![
        check_with(
            "dns.a",
            CheckStatus::Fail,
            &[("from_framework", "true"), ("servers", "192.168.1.1")],
        ),
        check("dns.aaaa", CheckStatus::Fail),
        check("tcp.v4", CheckStatus::Pass),
    ];
    let f = evaluate(&checks, &state())
        .into_iter()
        .find(|f| f.id == FindingId::DnsBrokenTransportOk)
        .expect("DNS rule should fire");
    assert!(f.interpretation.contains("192.168.1.1"));
}

#[test]
fn detects_an_mtu_black_hole_from_tcp_ok_tls_broken() {
    let checks = vec![
        check("tcp.v4", CheckStatus::Pass),
        check("tls.handshake", CheckStatus::Fail),
        check_with(
            "mtu.pmtu",
            CheckStatus::Fail,
            &[("interface_mtu", "1500"), ("measured_path_mtu", "1400")],
        ),
    ];
    let f = evaluate(&checks, &state())
        .into_iter()
        .find(|f| f.id == FindingId::MtuBlackhole)
        .expect("MTU rule should fire");
    assert_eq!(f.confidence, 80);
    assert!(f.interpretation.contains("ClientHello"));
}

#[test]
fn mtu_black_hole_is_less_confident_without_a_measurement() {
    let checks = vec![
        check("tcp.v4", CheckStatus::Pass),
        check("tls.handshake", CheckStatus::Fail),
    ];
    let f = evaluate(&checks, &state())
        .into_iter()
        .find(|f| f.id == FindingId::MtuBlackhole)
        .unwrap();
    assert_eq!(f.confidence, 55);
}

/// A passing MTU probe disproves the MTU explanation.
#[test]
fn mtu_black_hole_does_not_fire_when_full_size_packets_get_through() {
    let checks = vec![
        check("tcp.v4", CheckStatus::Pass),
        check("tls.handshake", CheckStatus::Fail),
        check_with("mtu.pmtu", CheckStatus::Pass, &[("interface_mtu", "1420")]),
    ];
    assert!(
        !evaluate(&checks, &state()).iter().any(|f| f.id == FindingId::MtuBlackhole),
        "a successful full-size DF probe contradicts an MTU black hole"
    );
}

#[test]
fn detects_a_vpn_bypass() {
    let checks = vec![check_with(
        "vpn.routing",
        CheckStatus::Warn,
        &[("egress_is_vpn", "false"), ("vpn_interfaces", "tun0")],
    )];
    let f = evaluate(&checks, &state())
        .into_iter()
        .find(|f| f.id == FindingId::VpnLeak)
        .expect("VPN leak rule should fire");
    assert!(f.interpretation.contains("tun0"));
}

/// A v4-only VPN that blackholes IPv6 is working correctly, and must not be
/// reported at the same severity as one that leaks it.
#[test]
fn a_deliberate_ipv6_blackhole_is_informational() {
    let checks = vec![check_with(
        "vpn.routing",
        CheckStatus::Info,
        &[
            ("egress_is_vpn", "true"),
            ("vpn_has_ipv6_routes", "false"),
            ("ipv6_blackholed_in_vpn_table", "true"),
            ("vpn_table", "1051"),
        ],
    )];
    let f = evaluate(&checks, &state())
        .into_iter()
        .find(|f| f.id == FindingId::VpnBlackhole)
        .expect("the VPN IPv6 rule should fire");
    assert_eq!(f.severity, FindingSeverity::Info);
    assert!(f.interpretation.contains("deliberately"), "{}", f.interpretation);
    assert!(f.interpretation.contains("1051"));
}

#[test]
fn an_unblocked_missing_ipv6_route_is_reported_as_a_leak_risk() {
    let checks = vec![check_with(
        "vpn.routing",
        CheckStatus::Warn,
        &[
            ("egress_is_vpn", "true"),
            ("vpn_has_ipv6_routes", "false"),
            ("ipv6_blackholed_in_vpn_table", "false"),
            ("vpn_table", "1051"),
        ],
    )];
    let f = evaluate(&checks, &state())
        .into_iter()
        .find(|f| f.id == FindingId::VpnBlackhole)
        .unwrap();
    assert_eq!(f.severity, FindingSeverity::Medium);
    assert!(f.interpretation.contains("leak"), "{}", f.interpretation);
}

#[test]
fn vpn_leak_does_not_fire_without_a_vpn_interface() {
    let checks = vec![check_with(
        "vpn.routing",
        CheckStatus::Skip,
        &[("egress_is_vpn", "false"), ("vpn_interfaces", "")],
    )];
    assert!(!evaluate(&checks, &state()).iter().any(|f| f.id == FindingId::VpnLeak));
}

#[test]
fn findings_are_sorted_most_severe_first() {
    let mut s = state();
    s.network = Some(AndroidNetwork {
        capabilities: Some(NetworkCapabilitiesInfo { validated: true, ..Default::default() }),
        ..Default::default()
    });
    let checks = vec![
        check("tcp.v4", CheckStatus::Fail),
        check("tcp.v6", CheckStatus::Fail),
        check("dns.a", CheckStatus::Fail),
        check("dns.aaaa", CheckStatus::Fail),
        check_with("sockets.states", CheckStatus::Warn, &[("close_wait", "40")]),
    ];
    let findings = evaluate(&checks, &s);
    assert!(findings.len() >= 2);
    for pair in findings.windows(2) {
        assert!(
            pair[0].severity.rank() >= pair[1].severity.rank(),
            "findings are not sorted by severity"
        );
    }
}

#[test]
fn every_finding_carries_supporting_checks_and_actions() {
    let mut s = state();
    s.network = Some(AndroidNetwork {
        capabilities: Some(NetworkCapabilitiesInfo { validated: true, ..Default::default() }),
        ..Default::default()
    });
    let checks = vec![
        check("addr.v6", CheckStatus::Pass),
        check("route.v6.default", CheckStatus::Pass),
        check("tcp.v6", CheckStatus::Fail),
        check("tcp.v4", CheckStatus::Pass),
        check("dns.aaaa", CheckStatus::Pass),
        check("captive.portal", CheckStatus::Fail),
    ];
    let findings = evaluate(&checks, &s);
    assert!(!findings.is_empty());
    for f in &findings {
        assert!(!f.key.is_empty());
        assert!(!f.title.is_empty());
        assert!(!f.interpretation.is_empty());
        assert!(!f.supporting_checks.is_empty(), "{} has no evidence", f.key);
        assert!(!f.suggested_actions.is_empty(), "{} suggests nothing", f.key);
        assert!(f.confidence > 0 && f.confidence <= 100);
    }
}

#[test]
fn findings_have_names_of_their_own_and_words() {
    let checks = vec![
        check("tcp.v4", CheckStatus::Fail),
        check("tcp.v6", CheckStatus::Fail),
        check("dns.a", CheckStatus::Fail),
        check("dns.aaaa", CheckStatus::Fail),
        check("captive.portal", CheckStatus::Fail),
        check("framework.kernel", CheckStatus::Fail),
        check("firewall.anomaly", CheckStatus::Fail),
        check_with("sockets.states", CheckStatus::Fail, &[("syn_sent", "9")]),
    ];
    let findings = evaluate(&checks, &state());
    assert!(findings.len() > 3);
    for (i, f) in findings.iter().enumerate() {
        assert!(!f.key.is_empty() && !f.title.is_empty() && !f.interpretation.is_empty());
        assert!(findings[..i].iter().all(|other| other.key != f.key));
    }
}
