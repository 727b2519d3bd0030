use netdiag::app::{
    app_list, apply_filter, push_check, push_event, refresh_request, toggle_check, toggle_interface,
    TIMELINE_CAPACITY,
};
use netdiag::platform::start::InstalledApp;
use netdiag::proto::{
    AndroidNetwork, AndroidNetworkState, AppNetworkState, AppRef, CapturedPacket, Check, CheckStatus,
    Clat464State, DiagnoseResponse, Error, EventSeverity, EventSource, Finding, FindingSeverity,
    Interface, InterfaceSysctls, IpAddress, IpPrefix, LinkAddress, LinkFlags, LinkKind,
    LinkPropertiesInfo, LinkStats, NetworkCapabilitiesInfo, NetworkEvent, NextHop, PacketSummary,
    Route, RouteLookup, RoutingRule, Snapshot, Socket, SocketSummary, TcpState, Transport,
    UidRoutingPath, VpnAssessment,
};
use netdiag::ui::{CheckRow, EventRow, InterfaceRow, Status};
use netdiag::view::{
    app_detail, check_row, diagnosis, empty_app_detail, empty_capture, empty_diagnosis,
    empty_overview, empty_sockets, event_row, finding_row, interfaces, overview, packet_row,
    route_tables, rules, sockets, SocketFilters,
};

fn network(net_id: i32, transports: Vec<Transport>) -> AndroidNetwork {
    AndroidNetwork {
        net_id,
        transports,
        capabilities: Some(NetworkCapabilitiesInfo {
            validated: true,
            internet: true,
            ..Default::default()
        }),
        link_properties: Some(LinkPropertiesInfo {
            interface_name: format!("if{net_id}"),
            mtu: 1400,
            dns_servers: vec![
                IpAddress { addr: vec![1, 1, 1, 1] },
                IpAddress { addr: vec![8, 8, 8, 8] },
            ],
            ..Default::default()
        }),
        ..Default::default()
    }
}

fn default_route() -> Route {
    Route {
        is_default: true,
        table: 1051,
        next_hops: vec![NextHop { out_interface_name: "tun0".to_string(), ..Default::default() }],
        ..Default::default()
    }
}

#[test]
fn the_overview_puts_both_layers_side_by_side() {
    let snapshot = Snapshot {
        android_state: Some(AndroidNetworkState {
            active_net_id: 102,
            networks: vec![
                network(101, vec![Transport::Cellular]),
                network(102, vec![Transport::Wifi, Transport::Vpn, Transport::Other(77)]),
            ],
            ..Default::default()
        }),
        routes: vec![default_route(), Route::default()],
        socket_summary: Some(SocketSummary { total: 9, established: 4, ..Default::default() }),
        clat: Some(Clat464State {
            active: true,
            clat_interface: "v4-wlan0".to_string(),
            base_interface: "wlan0".to_string(),
            ..Default::default()
        }),
        kernel_release: "6.1".to_string(),
        collection_duration_ms: 12,
        collection_warnings: vec!["slow".to_string()],
        ..Default::default()
    };
    let screen = overview(&snapshot);
    assert!(screen.connected);
    assert_eq!(screen.transport, "Wi-Fi + VPN");
    assert_eq!(screen.interface_name, "if102");
    assert_eq!(screen.net_id, "102");
    assert_eq!(screen.dns, "1.1.1.1, 8.8.8.8");
    assert_eq!(screen.mtu, "1400");
    let chips: Vec<&str> = screen.framework_chips.iter().map(|c| c.text.as_str()).collect();
    assert_eq!(chips, ["VALIDATED", "METERED", "VPN", "INTERNET"]);
    assert_eq!(screen.other_networks, vec!["netId 101  Cellular  if101".to_string()]);
    assert_eq!(screen.default_routes, vec!["default dev tun0 table 1051".to_string()]);
    assert_eq!(screen.sockets_line, "9 total, 4 established");
    assert_eq!(screen.clat_line, "active on v4-wlan0 over wlan0");
    assert_eq!(screen.collection, "12 ms · 2 routes · 0 rules · 0 sockets");
    assert_eq!(screen.warnings, vec!["slow".to_string()]);
}

#[test]
fn an_overview_without_a_framework_says_so() {
    let screen = overview(&Snapshot::default());
    assert_eq!(screen.framework_chips[0].text, "NO FRAMEWORK STATE");
    assert_eq!(screen.transport, "—");
    assert_eq!(screen.net_id, "—");
    assert_eq!(screen.default_routes, vec!["no default route in any table".to_string()]);
    assert!(!empty_overview().connected);
}

#[test]
fn interfaces_that_are_up_come_first() {
    let up = Some(LinkFlags { up: true, ..Default::default() });
    let snapshot = Snapshot {
        interfaces: vec![
            Interface { index: 1, name: "rmnet0".to_string(), ..Default::default() },
            Interface { index: 3, name: "wlan0".to_string(), flags: up, ..Default::default() },
            Interface {
                index: 4,
                name: "tun0".to_string(),
                kind: LinkKind::VpnTun,
                mtu: 1280,
                flags: up,
                mac_address: vec![2, 0, 0xab, 0, 0, 1],
                addresses: vec![LinkAddress {
                    prefix: Some(IpPrefix {
                        address: Some(IpAddress { addr: vec![10, 0, 0, 2] }),
                        prefix_len: 24,
                    }),
                    ..Default::default()
                }],
                stats: Some(LinkStats { rx_bytes: 2048, tx_dropped: 3, ..Default::default() }),
                sysctls: Some(InterfaceSysctls {
                    ipv6_disabled: true,
                    accept_ra: 2,
                    ..Default::default()
                }),
                ..Default::default()
            },
        ],
        ..Default::default()
    };
    let rows = interfaces(&snapshot);
    let names: Vec<&str> = rows.iter().map(|r| r.name.as_str()).collect();
    assert_eq!(names, ["tun0", "wlan0", "rmnet0"]);
    assert_eq!(rows[0].subtitle, "VPN · index 4 · MTU 1280");
    assert_eq!(rows[0].addresses, "10.0.0.2/24");
    assert_eq!(rows[1].addresses, "no addresses");
    let chips: Vec<&str> = rows[0].chips.iter().map(|c| c.text.as_str()).collect();
    assert_eq!(chips, ["UP", "NO CARRIER", "IPv6 OFF"]);
    assert_eq!(rows[2].chips[0].text, "DOWN");
    let fields: Vec<(&str, &str)> =
        rows[0].fields.iter().map(|f| (f.key.as_str(), f.value.as_str())).collect();
    assert_eq!(
        fields,
        [
            ("rx", "2.0 KiB"),
            ("tx", "0 B"),
            ("dropped", "rx 0 / tx 3"),
            ("disable_ipv6", "1 — IPv6 is off on this interface"),
            ("accept_ra", "2"),
            ("mac", "02:00:ab:00:00:01"),
        ]
    );
}

#[test]
fn routing_is_shown_by_table() {
    let mut snapshot = Snapshot {
        routes: vec![default_route(), Route { table: 254, ..Default::default() }, default_route()],
        rules: vec![
            RoutingRule { priority: 1, ..Default::default() },
            RoutingRule { priority: 2, has_fwmark: true, ..Default::default() },
            RoutingRule { priority: 3, has_uid_range: true, ..Default::default() },
        ],
        ..Default::default()
    };
    snapshot.table_names.insert(254, "main".to_string());
    let tables = route_tables(&snapshot);
    assert_eq!(tables.len(), 2);
    assert_eq!(tables[0].title, "Table 254 (main)");
    assert_eq!(tables[0].subtitle, "1 routes");
    assert_eq!(tables[1].title, "Table 1051");
    assert_eq!(tables[1].subtitle, "2 routes, 2 default");
    assert_eq!(tables[1].lines.len(), 2);
    assert_eq!(rules(&snapshot, 1), vec!["2: fwmark 0x0 lookup 0".to_string()]);
    assert_eq!(rules(&snapshot, 40).len(), 2);
}

#[test]
fn checks_and_findings_become_rows() {
    let mut check = Check {
        key: "addr.v6".to_string(),
        status: CheckStatus::Warn,
        duration_ms: 4,
        ..Default::default()
    };
    check.evidence.insert("zone".to_string(), "1".to_string());
    check.evidence.insert("address".to_string(), "2".to_string());
    let row = check_row(&check);
    assert_eq!(row.title, "addr.v6");
    assert_eq!(row.status, Status::Warn);
    assert_eq!(row.duration, "4 ms");
    let keys: Vec<&str> = row.evidence.iter().map(|f| f.key.as_str()).collect();
    assert_eq!(keys, ["address", "zone"]);
    let finding = Finding {
        severity: FindingSeverity::High,
        confidence: 90,
        interpretation: "one\ntwo\n\nthree ".to_string(),
        supporting_checks: vec!["a".to_string(), "b".to_string()],
        ..Default::default()
    };
    let row = finding_row(&finding);
    assert_eq!(row.paragraphs, vec!["one two".to_string(), "three".to_string()]);
    assert_eq!(row.based_on, "based on: a, b");
    assert_eq!(row.severity, "High");
    assert_eq!(row.status, Status::Fail);
    let screen = diagnosis(&DiagnoseResponse {
        passed: 3,
        warned: 1,
        checks: vec![check],
        findings: vec![finding],
        ..Default::default()
    });
    let counts: Vec<&str> = screen.counts.iter().map(|c| c.text.as_str()).collect();
    assert_eq!(counts, ["3 pass", "1 warn"]);
    assert_eq!(screen.checks.len() + screen.findings.len(), 2);
    assert_eq!(empty_diagnosis(true).summary, "Running checks…");
    assert_eq!(empty_diagnosis(false).summary, "");
}

#[test]
fn an_app_is_shown_from_label_to_socket() {
    let lookup = RouteLookup { route: Some(default_route()), ..Default::default() };
    let failed = RouteLookup {
        error: Some(Error::kernel("No route to host".to_string())),
        ..Default::default()
    };
    let state = AppNetworkState {
        app: Some(AppRef {
            package_name: "com.example.shop".to_string(),
            uid: 10400,
            ..Default::default()
        }),
        android_network: Some(network(102, vec![Transport::Vpn])),
        routing: Some(UidRoutingPath {
            table_v4: 1051,
            egress_interface_v4: "tun0".to_string(),
            lookup_v4: Some(lookup),
            lookup_v6: Some(failed),
            matching_rules: vec![RoutingRule::default(); 20],
            ..Default::default()
        }),
        vpn: Some(VpnAssessment {
            vpn_present: true,
            vpn_interface: "tun0".to_string(),
            framework_says_in_vpn: true,
            disagreement: true,
            bypass_reason: "a gap".to_string(),
            ..Default::default()
        }),
        sockets: vec![Socket { uid: 10400, retransmits: 2, ..Default::default() }; 50],
        ipv4_path_ok: true,
        ..Default::default()
    };
    let screen = app_detail(&state);
    assert_eq!(screen.label, "com.example.shop");
    assert_eq!(screen.uid, 10400);
    let chips: Vec<&str> = screen.chips.iter().map(|c| c.text.as_str()).collect();
    assert_eq!(chips, ["IPv4 OK", "IPv6 FAILED"]);
    assert_eq!(screen.rules.len(), 12);
    assert_eq!(screen.routing[0].value, "table 1051 via on-link dev tun0");
    assert_eq!(screen.routing[1].value, "no route: No route to host");
    assert_eq!(screen.routing[1].status, Status::Fail);
    assert_eq!(screen.vpn_title, "VPN · tun0");
    assert_eq!(screen.vpn_chip.text, "BYPASSES");
    assert_eq!(
        screen.vpn.last().unwrap().value,
        "the framework says this app is inside the VPN, but the kernel routes it around the tunnel"
    );
    assert_eq!(screen.framework[3].value, "yes");
    assert_eq!(screen.sockets.len(), 40);
    assert_eq!(screen.sockets[0].meta, "uid 10400  2 retx");
    assert_eq!(screen.socket_summary, "0 open, 0 established, 0 in SYN_SENT");
    let nothing = app_detail(&AppNetworkState::default());
    assert_eq!(nothing.routing[0].value, "not looked up");
    assert!(nothing.vpn.is_empty());
    assert!(!empty_app_detail().present);
}

#[test]
fn sockets_are_grouped_by_uid() {
    let socket = |uid: u32, state: TcpState| Socket { uid, state, ..Default::default() };
    let snapshot = Snapshot {
        sockets: vec![
            socket(10400, TcpState::Listen),
            socket(1000, TcpState::Established),
            socket(10400, TcpState::Established),
        ],
        ..Default::default()
    };
    let filters = SocketFilters {
        only_established: false,
        only_apps: true,
        hide_listen: false,
        app_uid_floor: 10_000,
    };
    let screen = sockets(&snapshot, filters, |uid: u32| format!("owner {uid}"));
    assert_eq!(screen.summary, "3 sockets");
    assert_eq!(screen.hidden, "1 hidden by filters");
    let states: Vec<&str> = screen.rows.iter().map(|r| r.state.as_str()).collect();
    assert_eq!(states, ["ESTABLISHED", "LISTEN"]);
    assert_eq!(screen.rows[0].owner, "owner 10400");
    let all = SocketFilters { only_apps: false, hide_listen: true, only_established: true, ..filters };
    assert_eq!(sockets(&snapshot, all, |_: u32| String::new()).rows.len(), 2);
    assert!(empty_sockets().rows.is_empty());
}

#[test]
fn events_and_packets_become_rows() {
    let event = NetworkEvent {
        unix_ms: 3_723_456,
        source: EventSource::Kernel,
        severity: EventSeverity::Warning,
        summary: "wlan0 lost IPv6".to_string(),
        ..Default::default()
    };
    let row = event_row(&event, 0);
    assert_eq!(row.time, "01:02:03.456");
    assert_eq!(row.source, "KRNL");
    assert_eq!(row.status, Status::Fail);
    let packet = CapturedPacket {
        original_length: 60,
        data: vec![0; 40],
        outgoing: true,
        summary: Some(PacketSummary {
            source: Some(IpAddress { addr: vec![10, 0, 0, 2] }),
            destination: Some(IpAddress { addr: vec![1, 1, 1, 1] }),
            destination_port: 443,
            protocol_name: "TCP".to_string(),
            syn: true,
            rst: true,
            description: "TCP".to_string(),
            ..Default::default()
        }),
        ..Default::default()
    };
    let row = packet_row(&packet, 0);
    assert_eq!(row.summary, "10.0.0.2 → 1.1.1.1:443");
    assert_eq!(row.detail, "TCP  60 B (captured 40)  [SYN RST]");
    assert_eq!(row.status, Status::Warn);
    let row = packet_row(&CapturedPacket { original_length: 9, ..Default::default() }, 0);
    assert_eq!(row.summary, "← 9 bytes");
    assert_eq!(row.detail, "ip proto 0  9 B");
    assert!(!empty_capture().running);
}

fn app(package: &str, label: &str, uid: u32) -> InstalledApp {
    InstalledApp { package: package.to_string(), label: label.to_string(), uid, is_system: false }
}

#[test]
fn apps_are_found_by_label_package_or_uid() {
    let all = vec![app("com.a", "Shop", 10400), app("com.MAIL", "Post", 10401)];
    let found = |query: &str| -> Vec<u32> { apply_filter(&all, query).iter().map(|a| a.uid).collect() };
    assert_eq!(found("  "), [10400, 10401]);
    assert_eq!(found("SHOP"), [10400]);
    assert_eq!(found("mail"), [10401]);
    assert_eq!(found("10401"), [10401]);
    assert!(found("nothing").is_empty());
    assert_eq!(app_list(&all)[1].label, "Post");
    assert_eq!(app_list(&all)[1].uid, 10401);
}

#[test]
fn the_timeline_is_bounded_and_newest_first() {
    let row = |summary: &str| EventRow { summary: summary.to_string(), ..Default::default() };
    let mut events = Vec::new();
    for i in 0..TIMELINE_CAPACITY + 5 {
        events = push_event(events, row(&format!("{i}")));
    }
    assert_eq!(events.len(), TIMELINE_CAPACITY);
    assert_eq!(events[0].summary, "1004");
    assert_eq!(events[TIMELINE_CAPACITY - 1].summary, "5");
}

#[test]
fn a_check_is_replaced_and_not_repeated() {
    let row = |key: &str, detail: &str| CheckRow {
        key: key.to_string(),
        detail: detail.to_string(),
        ..Default::default()
    };
    let mut rows = Vec::new();
    push_check(&mut rows, row("a", "1"));
    push_check(&mut rows, row("b", "2"));
    push_check(&mut rows, row("a", "3"));
    assert_eq!(rows.len(), 2);
    assert_eq!(rows[0].detail, "3");
    toggle_check(&mut rows, 1);
    assert!(rows[1].expanded && !rows[0].expanded);
    toggle_check(&mut rows, 9);
    let mut cards = vec![InterfaceRow::default()];
    toggle_interface(&mut cards, 0);
    assert!(cards[0].expanded);
    assert!(refresh_request(None).include_sysctls && !refresh_request(None).include_counters);
}

#[test]
fn evidence_is_shown_once_and_in_order() {
    let mut check = Check::default();
    for (name, value) in [("mtu", "1"), ("dns", "2"), ("mtu", "3"), ("ctx", "4")] {
        check.evidence.insert(name.to_string(), value.to_string());
    }
    let row = check_row(&check);
    let shown: Vec<(&str, &str)> =
        row.evidence.iter().map(|f| (f.key.as_str(), f.value.as_str())).collect();
    assert_eq!(shown, [("ctx", "4"), ("dns", "2"), ("mtu", "3")]);
}
