use netdiag::diag::checks::{
    check_address, check_android_state, check_captive_portal, check_default_route, check_firewall,
    check_framework_agreement, check_route_lookup, firewall_uid, FirewallReading,
};
use netdiag::diag::probes::{
    check_dns, check_gateway, check_mtu, check_nat64, check_private_dns, check_tcp, check_tls,
    dns_target, gateway_target, mtu_target, nat64_target, private_dns_targets, question, tcp_target,
    tls_target, Question,
};
use netdiag::diag::report::{collection_failure, finish};
use netdiag::diag::state::{
    egress_interface, gather, plan_diagnosis, plan_lookups, resolve_network, Collected, DiagState,
};
use netdiag::ip::{IpAddr, SocketAddr};
use netdiag::ip_parse::read_ip;
use netdiag::probe::dns::{self, query_id, DnsAnswer, RCode, TYPE_A, TYPE_AAAA};
use netdiag::probe::icmp::{self, next_sequence, IoFailure, PingOutcome, SocketKind};
use netdiag::probe::mtu;
use netdiag::probe::tls::{self, TlsOutcome};
use netdiag::probe::{explain_io_error, ProbeContext, ProbeResult};
use netdiag::proto::{
    AndroidNetwork, AndroidNetworkState, Check, CheckId, CheckStatus, Clat464State, DiagnoseRequest,
    DiagnoseTarget, Error, Finding, FindingSeverity, Interface, IpAddress, IpFamily, IpPrefix,
    LinkAddress, LinkPropertiesInfo, NetworkCapabilitiesInfo, Neighbor, NeighborState, NextHop, PrivateDnsMode,
    Route, RouteLookup, UidFirewallState,
};
use netdiag::util::Stopwatch;

fn ip(text: &str) -> IpAddr {
    read_ip(text).unwrap()
}

fn state() -> DiagState {
    DiagState {
        interfaces: Vec::new(),
        rules: Vec::new(),
        routes: Vec::new(),
        neighbors: Vec::new(),
        sockets: Vec::new(),
        socket_summary: Default::default(),
        clat: Default::default(),
        network: None,
        net_id: 0,
        probe_ctx_v4: ProbeContext::with_timeout(100),
        probe_ctx_v6: ProbeContext::with_timeout(100),
        lookup_v4: Default::default(),
        lookup_v6: Default::default(),
        egress_v4: None,
        egress_v6: None,
        dns_servers: Vec::new(),
        dns_from_framework: false,
        hostname: "example.test".to_string(),
        v4_endpoint: SocketAddr { ip: ip("1.1.1.1"), port: 443 },
        v6_endpoint: SocketAddr { ip: ip("2606:4700:4700::1111"), port: 443 },
        timeout_ms: 100,
    }
}

fn lookup(gateway: Option<&str>) -> RouteLookup {
    RouteLookup {
        route: Some(Route {
            table: 1051,
            next_hops: vec![NextHop {
                gateway: gateway.map(|g| IpAddress::from_ip(ip(g))),
                out_interface_index: 3,
                out_interface_name: "wlan0".to_string(),
                ..Default::default()
            }],
            ..Default::default()
        }),
        ..Default::default()
    }
}

fn failed() -> ProbeResult {
    ProbeResult::failure(5, "silence".to_string())
}

#[test]
fn a_gateway_counts_as_there_where_its_entry_is_usable() {
    let mut s = state();
    let run = |s: &DiagState, ping: &ProbeResult| {
        check_gateway(Stopwatch::start(), s, IpFamily::V4, ping)
    };
    assert_eq!(gateway_target(&s, IpFamily::V4), None);
    assert_eq!(run(&s, &failed()).detail, "no IPv4 route, so there is no gateway to test");
    s.lookup_v4 = lookup(None);
    assert_eq!(run(&s, &failed()).detail, "the IPv4 route is on-link (no gateway to probe)");
    s.lookup_v4 = lookup(Some("10.0.0.1"));
    assert_eq!(gateway_target(&s, IpFamily::V4), Some(ip("10.0.0.1")));
    let check = run(&s, &failed());
    assert_eq!(check.status, CheckStatus::Fail);
    assert_eq!(
        check.detail,
        "gateway 10.0.0.1 is unreachable: neighbour state is None and it does not answer ICMP"
    );
    s.neighbors = vec![Neighbor {
        address: Some(IpAddress::from_ip(ip("10.0.0.1"))),
        interface_index: 3,
        state: NeighborState::Stale,
        link_address: vec![2, 0, 0, 0, 0, 1],
        ..Default::default()
    }];
    let check = run(&s, &failed());
    assert_eq!(check.status, CheckStatus::Warn);
    assert_eq!(check.evidence.get("link_address"), Some("02:00:00:00:00:01"));
    let check = run(&s, &ProbeResult::success(1, "replied".to_string()));
    assert_eq!(check.detail, "gateway 10.0.0.1 answers ICMP echo");
    assert_eq!(check.depends_on, ["route.v4.default"]);
}

#[test]
fn dns_servers_are_tried_until_one_answers() {
    let mut s = state();
    let none = check_dns(Stopwatch::start(), &s, TYPE_A, &vec![]);
    assert_eq!(none.detail, "no DNS servers are configured for this network");
    s.dns_servers = vec![ip("10.0.0.1"), ip("8.8.8.8")];
    let mut results = Vec::new();
    assert_eq!(dns_target(&s, &results), Some(ip("10.0.0.1")));
    results.push(failed());
    assert_eq!(dns_target(&s, &results), Some(ip("8.8.8.8")));
    results.push(ProbeResult::success(2, "93.184.216.34".to_string()));
    assert_eq!(dns_target(&s, &results), None);
    let check = check_dns(Stopwatch::start(), &s, TYPE_AAAA, &results);
    assert_eq!((check.key.as_str(), check.status), ("dns.aaaa", CheckStatus::Pass));
    assert_eq!(check.evidence.get("server_0"), Some("10.0.0.1: silence"));
    assert_eq!(check.evidence.get("servers"), Some("10.0.0.1, 8.8.8.8"));
    assert_eq!(check.duration_ms, 2);
    let silent = vec![failed(), ProbeResult::failure(7, "silence".to_string())];
    assert_eq!(check_dns(Stopwatch::start(), &s, TYPE_A, &silent).duration_ms, 7);
}

#[test]
fn every_probe_has_its_question() {
    assert_eq!(question(CheckId::FirewallAnomaly), Some(Question::Firewall));
    assert_eq!(question(CheckId::GatewayReachabilityV4), Some(Question::Gateway(IpFamily::V4)));
    assert_eq!(question(CheckId::GatewayReachabilityV6), Some(Question::Gateway(IpFamily::V6)));
    assert_eq!(question(CheckId::DnsA), Some(Question::Dns(TYPE_A)));
    assert_eq!(question(CheckId::DnsAaaa), Some(Question::Dns(TYPE_AAAA)));
    assert_eq!(question(CheckId::TcpV4), Some(Question::Tcp(IpFamily::V4)));
    assert_eq!(question(CheckId::TcpV6), Some(Question::Tcp(IpFamily::V6)));
    assert_eq!(question(CheckId::TlsHandshake), Some(Question::Tls));
    assert_eq!(question(CheckId::PrivateDns), Some(Question::PrivateDns));
    assert_eq!(question(CheckId::Nat64Dns64), Some(Question::Nat64(TYPE_AAAA)));
    assert_eq!(question(CheckId::MtuPmtu), Some(Question::Mtu));
    assert_eq!(question(CheckId::VpnRouting), None);
}

#[test]
fn tls_rides_on_what_tcp_reached() {
    let mut s = state();
    assert_eq!(tcp_target(&s, IpFamily::V6), None);
    assert_eq!(check_tcp(&s, IpFamily::V6, &failed()).status, CheckStatus::Skip);
    s.lookup_v6 = lookup(None);
    assert_eq!(tcp_target(&s, IpFamily::V6), Some(s.v6_endpoint));
    assert_eq!(check_tcp(&s, IpFamily::V6, &failed()).status, CheckStatus::Fail);
    let passed = |key: &str| Check {
        key: key.to_string(),
        status: CheckStatus::Pass,
        ..Default::default()
    };
    assert_eq!(tls_target(&s, &vec![]), None);
    assert_eq!(
        check_tls(&vec![], &failed()).detail,
        "no TCP connection succeeded, so there is nothing to handshake over"
    );
    let v4 = vec![passed("tcp.v4")];
    assert_eq!(tls_target(&s, &v4), Some((s.v4_endpoint, IpFamily::V4)));
    let both = vec![passed("tcp.v4"), passed("tcp.v6")];
    assert_eq!(tls_target(&s, &both), Some((s.v6_endpoint, IpFamily::V6)));
    let check = check_tls(&both, &failed());
    assert_eq!((check.family, check.duration_ms), (IpFamily::V6, 5));
}

#[test]
fn strict_private_dns_without_a_server_is_a_failure() {
    let mut s = state();
    let run = |s: &DiagState, results: &Vec<ProbeResult>| {
        check_private_dns(Stopwatch::start(), s, results)
    };
    assert_eq!(run(&s, &vec![]).detail, "Private DNS configuration comes from the framework");
    s.dns_servers = vec![ip("1.1.1.1")];
    let network = |mode: PrivateDnsMode, active: bool| {
        Some(AndroidNetwork {
            link_properties: Some(LinkPropertiesInfo {
                private_dns_mode: mode,
                private_dns_active: active,
                ..Default::default()
            }),
            ..Default::default()
        })
    };
    s.network = network(PrivateDnsMode::Off, false);
    assert!(private_dns_targets(&s).is_empty());
    assert_eq!(run(&s, &vec![]).detail, "Private DNS is off");
    s.network = network(PrivateDnsMode::Strict, true);
    assert_eq!(private_dns_targets(&s), vec![ip("1.1.1.1")]);
    assert_eq!(run(&s, &vec![failed()]).status, CheckStatus::Fail);
    let ok = vec![ProbeResult::success(3, "connected".to_string())];
    assert_eq!(
        run(&s, &ok).detail,
        "Private DNS (Strict) is working; 1 server(s) answer on port 853"
    );
    s.network = network(PrivateDnsMode::Opportunistic, false);
    assert_eq!(run(&s, &vec![failed()]).status, CheckStatus::Warn);
    assert!(run(&s, &ok).detail.contains("does not report it as active"));
}

#[test]
fn a_synthesised_address_reveals_nat64() {
    let mut s = state();
    assert_eq!(nat64_target(&s), None);
    s.dns_servers = vec![ip("10.0.0.1")];
    let answer = |text: &str| -> Result<DnsAnswer, String> {
        Ok(DnsAnswer {
            addresses: vec![ip(text)],
            rcode: RCode::NoError,
            truncated: false,
            authoritative: false,
            answer_count: 1,
            duration_ms: 2,
            server: SocketAddr { ip: ip("10.0.0.1"), port: 53 },
        })
    };
    let run = |s: &DiagState, a: &Result<DnsAnswer, String>| check_nat64(Stopwatch::start(), s, a);
    let found = run(&s, &answer("64:ff9b::c000:aa"));
    assert_eq!(found.status, CheckStatus::Warn);
    assert!(found.detail.starts_with("DNS64 is synthesising with prefix 64:ff9b::/96 but"));
    s.clat = Clat464State {
        active: true,
        clat_interface: "v4-rmnet0".to_string(),
        ..Default::default()
    };
    assert_eq!(
        run(&s, &answer("64:ff9b::c000:aa")).detail,
        "DNS64 is synthesising with prefix 64:ff9b::/96 and clatd is running on v4-rmnet0"
    );
    let quiet = run(&s, &Err("no response within 100 ms".to_string()));
    assert_eq!(quiet.evidence.get("probe_error"), Some("no response within 100 ms"));
    assert_eq!(quiet.status, CheckStatus::Warn);
}

#[test]
fn the_path_mtu_is_measured_by_what_gets_through() {
    let ctx = ProbeContext::with_timeout(100);
    let target = ip("1.1.1.1");
    let candidates = mtu::candidate_mtus(mtu::bounding_mtu(0), false);
    assert_eq!(candidates, [1500, 1492, 1480, 1450, 1420, 1400, 1280, 1024, 576]);
    assert_eq!(mtu::next_probe(&candidates, &vec![]), Some(1500));
    assert_eq!(mtu::next_probe(&candidates, &vec![false]), Some(1492));
    assert_eq!(mtu::next_probe(&candidates, &vec![false, true]), None);
    let run = |answered: Vec<bool>| {
        mtu::discover(target, 1500, &ctx, Some(1400), &candidates, &answered, 7)
    };
    let clean = run(vec![true]);
    assert!(clean.ok);
    assert_eq!(clean.detail, "1500 byte packets reach 1.1.1.1 without fragmentation");
    let narrow = run(vec![false, true]);
    assert!(!narrow.ok);
    assert_eq!(
        narrow.detail,
        "1500 byte packets do not reach 1.1.1.1 but 1492 byte packets do; the path MTU is \
         between 1492 and 1500"
    );
    assert!(narrow.evidence.contains(&("measured_path_mtu".to_string(), "1492".to_string())));
    assert!(run(vec![false; 9]).detail.starts_with("no echo reply from 1.1.1.1 at any size"));
    let s = state();
    assert_eq!(mtu_target(&s), None);
    assert_eq!(check_mtu(&s, &clean).status, CheckStatus::Skip);
}

#[test]
fn a_ping_tells_what_came_of_it() {
    let ctx = ProbeContext::with_timeout(100);
    let target = ip("10.0.0.1");
    assert_eq!(next_sequence(0, 0), Some(1));
    assert_eq!(next_sequence(1, 0), None);
    assert_eq!(next_sequence(1, 2), Some(2));
    let io = || IoFailure { errno: Some(101), message: "Network is unreachable".to_string() };
    let run = |outcome: PingOutcome| icmp::ping(target, 2, 56, &ctx, &outcome, 9);
    let replied =
        run(PingOutcome::Replied { kind: SocketKind::Datagram, sequence: 1, rtt_ms: 4 });
    assert_eq!((replied.ok, replied.detail.as_str()), (true, "10.0.0.1 replied in 4 ms"));
    assert_eq!(
        run(PingOutcome::Silent { kind: SocketKind::Raw }).detail,
        "10.0.0.1 did not answer 2 echo request(s) within 100 ms"
    );
    assert_eq!(
        run(PingOutcome::NoSocket(io())).detail,
        "could not open an ICMP socket: network unreachable (no route for this family on this \
         network)"
    );
    assert!(run(PingOutcome::SendFailed(io())).detail.starts_with("could not send an echo request"));
    assert!(run(PingOutcome::ReceiveFailed(io())).detail.starts_with("ICMP receive failed: "));
}

#[test]
fn a_handshake_tells_what_came_of_it() {
    let ctx = ProbeContext::with_timeout(100);
    let target = SocketAddr { ip: ip("1.1.1.1"), port: 443 };
    let run = |outcome: TlsOutcome| tls::probe(target, "example.com", &ctx, 200, 3, &outcome, 9);
    let io = || IoFailure { errno: Some(110), message: "timed out".to_string() };
    assert_eq!(
        run(TlsOutcome::Answered(vec![0x16, 3, 3, 0, 42, 2])).detail,
        "TLS ServerHello received in 9 ms"
    );
    assert_eq!(
        run(TlsOutcome::Answered(vec![0x15, 3, 3, 0, 2, 2, 112])).detail,
        "TLS alert instead of a ServerHello: unrecognized_name (112, level 2)"
    );
    assert_eq!(
        run(TlsOutcome::Answered(vec![])).detail,
        "the peer closed the connection without answering the ClientHello"
    );
    assert!(run(TlsOutcome::Answered(b"HTTP".to_vec())).detail.contains("not a TLS handshake"));
    assert!(run(TlsOutcome::TimedOut).detail.starts_with("TCP connected but no ServerHello"));
    assert!(run(TlsOutcome::NotConnected(io())).detail.starts_with("TCP connect to 1.1.1.1:443 failed"));
    assert!(run(TlsOutcome::NotSent(io())).detail.starts_with("could not send the ClientHello"));
    assert!(run(TlsOutcome::ReadFailed(io())).detail.starts_with("read after ClientHello failed"));
}

#[test]
fn a_lookup_without_addresses_is_no_success() {
    let ctx = ProbeContext::with_timeout(100);
    let server = SocketAddr { ip: ip("10.0.0.1"), port: 53 };
    assert_eq!(query_id(0x1_0004), 5);
    let answer = |rcode: RCode, addresses: Vec<IpAddr>| -> Result<DnsAnswer, String> {
        Ok(DnsAnswer {
            addresses,
            rcode,
            truncated: false,
            authoritative: true,
            answer_count: 0,
            duration_ms: 6,
            server,
        })
    };
    let run = |outcome: Result<DnsAnswer, String>| {
        dns::probe(server, "example.com", TYPE_A, &ctx, &outcome, 9)
    };
    assert!(run(answer(RCode::NoError, vec![ip("93.184.216.34")])).ok);
    assert!(!run(answer(RCode::NoError, vec![])).ok);
    assert!(run(answer(RCode::NxDomain, vec![])).detail.contains("NXDOMAIN"));
    assert!(!run(Err("no response within 100 ms".to_string())).ok);
    assert_eq!(RCode::from_u8(9).name(), "RCODE9");
}

#[test]
fn io_errors_are_explained() {
    let explained = |errno: i32| explain_io_error(Some(errno), "raw words");
    assert!(explained(101).starts_with("network unreachable"));
    assert!(explained(113).starts_with("host unreachable"));
    assert!(explained(111).starts_with("connection refused"));
    assert!(explained(13).starts_with("permission denied"));
    assert!(explained(1).starts_with("permission denied"));
    assert!(explained(99).starts_with("source address not available"));
    assert_eq!(explained(110), "timed out with no response");
    assert_eq!(explained(5), "raw words");
    assert_eq!(explain_io_error(None, "raw words"), "raw words");
}

#[test]
fn a_firewall_verdict_needs_a_readable_map() {
    let run = |reading: FirewallReading| check_firewall(Stopwatch::start(), &reading);
    let uid = |source_available: bool, raw_match: u32| {
        FirewallReading::Uid(UidFirewallState {
            uid: 10342,
            source_available,
            raw_match,
            ..Default::default()
        })
    };
    assert_eq!(run(uid(false, 2)).status, CheckStatus::Skip);
    assert_eq!(run(uid(true, 2)).status, CheckStatus::Fail);
    assert_eq!(
        run(uid(true, 2)).detail,
        "uid 10342 is denied by a firewall rule: PENALTY_BOX (metered denylist)"
    );
    assert_eq!(run(FirewallReading::Surface(Default::default())).status, CheckStatus::Info);
    let request = DiagnoseRequest {
        target: Some(DiagnoseTarget { has_as_uid: true, as_uid: 5, ..Default::default() }),
        ..Default::default()
    };
    assert_eq!(firewall_uid(&request), Some(5));
    assert_eq!(firewall_uid(&DiagnoseRequest::default()), None);
}

#[test]
fn missing_framework_state_is_skipped() {
    let s = state();
    let request = DiagnoseRequest::default();
    assert_eq!(check_android_state(&s, &request).status, CheckStatus::Skip);
    assert_eq!(check_framework_agreement(&s).status, CheckStatus::Skip);
    assert_eq!(check_captive_portal(&s).status, CheckStatus::Skip);
    let mut portal = state();
    portal.network = Some(AndroidNetwork {
        capabilities: Some(NetworkCapabilitiesInfo { captive_portal: true, ..Default::default() }),
        ..Default::default()
    });
    assert_eq!(check_captive_portal(&portal).status, CheckStatus::Fail);
    assert_eq!(check_default_route(&s, IpFamily::V4).status, CheckStatus::Fail);
    assert_eq!(check_address(&s, IpFamily::V4).status, CheckStatus::Skip);
}

#[test]
fn a_failed_lookup_is_told_in_the_kernels_words() {
    let mut s = state();
    s.lookup_v6 = RouteLookup {
        error: Some(Error::kernel("No route to host (os error 113)".to_string())),
        ..Default::default()
    };
    let check = check_route_lookup(&s, IpFamily::V6);
    assert_eq!(check.key, "route.lookup.v6");
    assert!(check.detail.contains("No route to host (os error 113)"), "{}", check.detail);
    assert_eq!(check.status, CheckStatus::Fail);
}

#[test]
fn a_diagnosis_is_planned_from_its_target() {
    let android = AndroidNetworkState {
        has_active_network: true,
        active_net_id: 101,
        ..Default::default()
    };
    let target = DiagnoseTarget {
        tcp_port: 8443,
        hostname: "example.org".to_string(),
        ipv4_endpoint: Some(IpAddress { addr: vec![9, 9, 9, 9] }),
        has_as_uid: true,
        as_uid: 10342,
        ..Default::default()
    };
    let plan = plan_diagnosis(&target, Some(&android));
    assert_eq!((plan.net_id, plan.uid), (101, Some(10342)));
    assert_eq!(plan.ctx.mark, Some(0x10065));
    assert_eq!(plan.v4_endpoint.to_text(), "9.9.9.9:8443");
    assert_eq!(plan.v6_endpoint.to_text(), "[2606:4700:4700::1111]:8443");
    assert_eq!(plan.hostname, "example.org");
    let (v4, v6) = plan_lookups(&plan);
    assert_eq!((v4.uid, v4.fwmark), (Some(10342), Some(0x10065)));
    assert_eq!(v6.destination, ip("2606:4700:4700::1111"));
    let wlan = Interface {
        index: 3,
        name: "wlan0".to_string(),
        mac_address: vec![2, 0, 0, 0, 0, 1],
        addresses: vec![LinkAddress {
            prefix: Some(IpPrefix::new(ip("10.0.0.2"), 24)),
            label: "wlan0".to_string(),
            ..Default::default()
        }],
        ..Default::default()
    };
    let interfaces = vec![wlan.clone()];
    assert_eq!(egress_interface(&lookup(None), &interfaces), Some(&wlan));
    let gathered = gather(
        plan,
        Collected {
            interfaces,
            rules: vec![],
            routes: vec![],
            neighbors: vec![],
            sockets: vec![],
            socket_summary: Default::default(),
            android_state: Some(AndroidNetworkState {
                networks: vec![
                    AndroidNetwork { net_id: 7, is_default: true, ..Default::default() },
                    AndroidNetwork { net_id: 101, ..Default::default() },
                ],
                ..Default::default()
            }),
            lookup_v4: lookup(None),
            lookup_v6: RouteLookup::default(),
        },
    );
    assert_eq!(gathered.egress_v4, Some(wlan));
    assert_eq!(gathered.egress_v6, None);
    assert_eq!(gathered.network.as_ref().map(|n| n.net_id), Some(101));
    assert_eq!(gathered.probe_ctx_v4.describe(), "mark=0x10065 (netId 101) dev=wlan0");
    assert_eq!(gathered.probe_ctx_v6.describe(), "mark=0x10065 (netId 101)");
    let networks = vec![
        AndroidNetwork { net_id: 5, ..Default::default() },
        AndroidNetwork { net_id: 6, is_default: true, ..Default::default() },
    ];
    assert_eq!(resolve_network(&networks, 5).map(|n| n.net_id), Some(5));
    assert_eq!(resolve_network(&networks, 9).map(|n| n.net_id), Some(6));
}

#[test]
fn the_report_keeps_the_checks_and_the_worst_severity() {
    let checks = vec![
        Check { key: "a".to_string(), status: CheckStatus::Fail, ..Default::default() },
        Check { key: "b".to_string(), status: CheckStatus::Info, ..Default::default() },
    ];
    let finding = |severity: FindingSeverity, title: &str| Finding {
        severity,
        title: title.to_string(),
        ..Default::default()
    };
    let report = finish(
        1,
        2,
        checks.clone(),
        vec![finding(FindingSeverity::Low, "low"), finding(FindingSeverity::High, "high")],
    );
    assert_eq!(report.checks, checks);
    assert_eq!(report.worst_severity, FindingSeverity::High);
    assert_eq!(report.summary, "low");
    assert_eq!((report.passed, report.failed, report.warned, report.skipped), (0, 1, 0, 0));
    let broken = collection_failure("denied");
    assert_eq!(broken.detail, "could not read kernel networking state: denied");
    assert_eq!(broken.status, CheckStatus::Fail);
}
