use netdiag::collect::firewall::MapReading;
use netdiag::correlate::{
    app_network_state, assess_vpn, build_summary, describe_mark, observed_net_ids, path_requests,
    vpn_tables, CorrelationInput,
};
use netdiag::proto::{
    AndroidNetwork, AndroidNetworkState, AppRef, Interface, LinkFlags, LinkKind,
    NetworkCapabilitiesInfo, NextHop, Route, RouteLookup, RoutingRule, Socket, SocketSummary,
    TcpState, Transport, UidRange, VpnAssessment,
};
use netdiag::util::{mark_for_net_id, net_id_from_mark};

fn socket_with_mark(mark: u32) -> Socket {
    Socket { has_mark: mark != 0, mark, net_id: net_id_from_mark(mark), ..Default::default() }
}

fn vpn_interface() -> Interface {
    Interface {
        index: 42,
        name: "tun0".to_string(),
        kind: LinkKind::VpnTun,
        flags: Some(LinkFlags { up: true, running: true, ..Default::default() }),
        ..Default::default()
    }
}

fn lookup_via(index: u32) -> RouteLookup {
    RouteLookup {
        route: Some(Route {
            table: 101,
            next_hops: vec![NextHop {
                out_interface_index: index,
                out_interface_name: format!("if{index}"),
                ..Default::default()
            }],
            ..Default::default()
        }),
        ..Default::default()
    }
}

#[test]
fn observed_net_ids_are_ordered_by_use() {
    let sockets = vec![
        socket_with_mark(mark_for_net_id(101)),
        socket_with_mark(mark_for_net_id(102)),
        socket_with_mark(mark_for_net_id(101)),
        socket_with_mark(0),
    ];
    assert_eq!(observed_net_ids(&sockets), vec![101, 102]);
}

#[test]
fn equally_used_net_ids_come_by_number() {
    let sockets = vec![
        socket_with_mark(mark_for_net_id(103)),
        socket_with_mark(mark_for_net_id(102)),
        socket_with_mark(mark_for_net_id(104)),
        socket_with_mark(mark_for_net_id(104)),
    ];
    assert_eq!(observed_net_ids(&sockets), vec![104, 102, 103]);
}

#[test]
fn unmarked_sockets_contribute_no_net_id() {
    assert!(observed_net_ids(&vec![socket_with_mark(0)]).is_empty());
}

#[test]
fn describes_a_mark_in_android_terms() {
    let text = describe_mark(mark_for_net_id(101));
    assert!(text.contains("netId 101"), "{text}");
    assert!(text.contains("explicitly selected"), "{text}");
    assert!(describe_mark(0).contains("unmarked"));
    assert_eq!(text, "0x10065 (netId 101, explicitly selected)");
    assert_eq!(describe_mark(0x2_0000), "0x20000 (protected from VPN)");
    assert_eq!(describe_mark(0x4_0000), "0x40000");
}

#[test]
fn no_vpn_interface_means_no_assessment() {
    let assessment = assess_vpn(
        &vec![],
        &vec![],
        &vec![],
        10342,
        &lookup_via(3),
        &lookup_via(3),
        None,
    );
    assert!(!assessment.vpn_present);
}

#[test]
fn app_routed_through_the_tun_uses_the_vpn() {
    let interfaces = vec![vpn_interface()];
    let assessment = assess_vpn(
        &interfaces,
        &vec![],
        &vec![],
        10342,
        &lookup_via(42),
        &lookup_via(42),
        None,
    );
    assert!(assessment.vpn_present);
    assert!(assessment.app_uses_vpn);
    assert!(!assessment.app_bypasses_vpn);
    assert!(!assessment.split_tunnel);
}

/// The common Android case: a VPN's per-app list is expressed as a set of uid
/// ranges, and an excluded app is simply absent from all of them.
#[test]
fn an_app_outside_every_vpn_uid_range_is_explained_as_an_exclusion() {
    let interfaces = vec![vpn_interface()];
    let rules = vec![
        RoutingRule {
            priority: 13000,
            has_uid_range: true,
            uid_range_start: 0,
            uid_range_end: 10399,
            table: 1051,
            ..Default::default()
        },
        RoutingRule {
            priority: 13000,
            has_uid_range: true,
            uid_range_start: 10401,
            uid_range_end: 99999,
            table: 1051,
            ..Default::default()
        },
    ];
    let assessment = assess_vpn(
        &interfaces,
        &rules,
        &vec![1051],
        // 10400 sits in the gap between the two ranges.
        10400,
        &lookup_via(3),
        &lookup_via(3),
        None,
    );
    assert!(assessment.app_bypasses_vpn);
    assert!(
        assessment.bypass_reason.contains("falls outside all 2 uid range"),
        "unhelpful reason: {}",
        assessment.bypass_reason
    );
}

#[test]
fn an_app_inside_a_vpn_uid_range_is_not_called_an_exclusion() {
    let interfaces = vec![vpn_interface()];
    let rules = vec![RoutingRule {
        priority: 13000,
        has_uid_range: true,
        uid_range_start: 10000,
        uid_range_end: 19999,
        table: 1051,
        ..Default::default()
    }];
    let assessment = assess_vpn(
        &interfaces,
        &rules,
        &vec![1051],
        10400,
        &lookup_via(42),
        &lookup_via(42),
        None,
    );
    assert!(assessment.app_uses_vpn);
    assert!(assessment.bypass_reason.is_empty());
}

#[test]
fn an_inverted_uid_rule_is_reported_as_the_bypass_reason() {
    let interfaces = vec![vpn_interface()];
    let rules = vec![RoutingRule {
        priority: 16000,
        has_uid_range: true,
        uid_range_start: 10342,
        uid_range_end: 10342,
        invert: true,
        table: 1003,
        ..Default::default()
    }];
    let assessment = assess_vpn(
        &interfaces,
        &rules,
        &vec![1003],
        10342,
        &lookup_via(3),
        &lookup_via(3),
        None,
    );
    assert!(assessment.app_bypasses_vpn);
    assert!(assessment.bypass_reason.contains("excludes uids 10342"));
}

#[test]
fn split_tunnel_is_detected_when_only_one_family_is_inside() {
    let interfaces = vec![vpn_interface()];
    let assessment = assess_vpn(
        &interfaces,
        &vec![],
        &vec![],
        10342,
        &lookup_via(42), // IPv4 inside the tunnel
        &lookup_via(3),  // IPv6 outside it
        None,
    );
    assert!(assessment.split_tunnel);
    assert!(!assessment.ipv6_inside_vpn);
}

fn vpn_with_range() -> AndroidNetworkState {
    AndroidNetworkState {
        networks: vec![AndroidNetwork {
            net_id: 102,
            transports: vec![Transport::Vpn],
            capabilities: Some(NetworkCapabilitiesInfo {
                vpn_uid_ranges: vec![UidRange { start: 10000, stop: 19999 }],
                ..Default::default()
            }),
            ..Default::default()
        }],
        ..Default::default()
    }
}

#[test]
fn framework_and_kernel_vpn_disagreement_is_flagged() {
    let interfaces = vec![vpn_interface()];
    let android = vpn_with_range();
    // The framework puts this uid inside the VPN; the kernel routes it out of a
    // different interface.
    let assessment = assess_vpn(
        &interfaces,
        &vec![],
        &vec![],
        10342,
        &lookup_via(3),
        &lookup_via(3),
        Some(&android),
    );
    assert!(assessment.framework_says_in_vpn);
    assert!(!assessment.app_uses_vpn);
    assert!(assessment.disagreement);
}

#[test]
fn summary_reads_as_a_sentence() {
    let app = AppRef {
        package_name: "org.mozilla.firefox".to_string(),
        uid: 10342,
        ..Default::default()
    };
    let summary = build_summary(
        &app,
        "wlan0",
        "",
        &SocketSummary { total: 14, established: 12, syn_sent: 2, ..Default::default() },
        &VpnAssessment {
            vpn_present: true,
            vpn_interface: "tun0".to_string(),
            app_uses_vpn: false,
            ..Default::default()
        },
        true,
        false,
    );
    assert!(summary.contains("org.mozilla.firefox"));
    assert!(summary.contains("no IPv6 path"));
    assert!(summary.contains("bypasses tun0"));
    assert!(summary.contains("12 established"));
    assert_eq!(
        summary,
        "org.mozilla.firefox: IPv4 via wlan0, no IPv6 path; bypasses tun0. \
         14 socket(s), 12 established, 2 in SYN_SENT."
    );
}

#[test]
fn vpn_tables_are_those_of_default_routes_through_a_tunnel() {
    let route = |table: u32, index: u32, is_default: bool| Route {
        table,
        is_default,
        next_hops: vec![NextHop { out_interface_index: index, ..Default::default() }],
        ..Default::default()
    };
    let routes = Some(vec![
        route(1052, 42, true),
        route(1051, 42, true),
        route(1051, 42, true),
        route(1053, 42, false),
        route(254, 3, true),
    ]);
    assert_eq!(vpn_tables(&routes, &vec![vpn_interface()]), vec![1051, 1052]);
    assert!(vpn_tables(&None, &vec![vpn_interface()]).is_empty());
    assert!(vpn_tables(&routes, &vec![]).is_empty());
}

#[test]
fn the_chain_goes_from_the_uid_to_the_interface() {
    let own = Socket {
        uid: 10342,
        state: TcpState::Established,
        has_mark: true,
        net_id: 102,
        ..Default::default()
    };
    let foreign = Socket { uid: 10999, ..Default::default() };
    let input = || CorrelationInput {
        app: AppRef {
            package_name: "com.example.shop".to_string(),
            uid: 10342,
            ..Default::default()
        },
        android_state: Some(vpn_with_range()),
        include_tcp_info: false,
        skip_route_lookup: false,
    };
    let (v4, v6) = path_requests(&input()).unwrap();
    assert_eq!((v4.destination.to_text().as_str(), v4.uid), ("1.1.1.1", Some(10342)));
    assert_eq!((v6.destination.to_text().as_str(), v6.uid), ("2606:4700:4700::1111", Some(10342)));
    let rules = vec![
        RoutingRule { priority: 2, has_fwmark: true, ..Default::default() },
        RoutingRule { priority: 1, ..Default::default() },
    ];
    let state = app_network_state(
        &vec![vpn_interface()],
        &None,
        rules,
        Some((lookup_via(42), RouteLookup::default())),
        vec![own, foreign],
        MapReading::Rule(0x2),
        input(),
    );
    assert_eq!(state.sockets.len(), 1);
    assert_eq!(state.sockets[0].package_names, vec!["com.example.shop".to_string()]);
    assert_eq!(state.observed_net_ids, vec![102]);
    assert_eq!(state.android_network.as_ref().unwrap().net_id, 102);
    let routing = state.routing.as_ref().unwrap();
    assert_eq!(routing.egress_interface_v4, "if42");
    assert_eq!(routing.table_v4, 101);
    assert_eq!(routing.matching_rules.len(), 1);
    assert!(state.ipv4_path_ok && !state.ipv6_path_ok);
    assert!(state.firewall_note.starts_with("firewall bits: "), "{}", state.firewall_note);
    let vpn = state.vpn.as_ref().unwrap();
    assert!(vpn.app_uses_vpn && vpn.split_tunnel && !vpn.disagreement);
    assert_eq!(
        state.summary,
        "com.example.shop: IPv4 via if42, no IPv6 path; goes through tun0. \
         1 socket(s), 1 established, 0 in SYN_SENT."
    );
}

#[test]
fn skipped_lookups_leave_no_path() {
    let input = CorrelationInput {
        app: AppRef { uid: 10342, ..Default::default() },
        android_state: None,
        include_tcp_info: false,
        skip_route_lookup: true,
    };
    assert!(path_requests(&input).is_none());
    let state =
        app_network_state(&vec![], &None, vec![], None, vec![], MapReading::Unavailable, input);
    assert_eq!(
        state.summary,
        "uid 10342: no route out for either family. 0 socket(s), 0 established, 0 in SYN_SENT."
    );
    assert_eq!(
        state.firewall_note,
        "per-uid firewall state could not be read from netd's eBPF map"
    );
}
