use netdiag::collect::firewall::{
    decode_match_bits, is_unambiguously_denied, parse_counter, parse_iptables_save, read_uid_firewall,
    MapReading,
};
use netdiag::collect::links::{classify_link, IFF_LOOPBACK};
use netdiag::collect::neigh::is_usable;
use netdiag::collect::procnet::{detect_clat, parse_flat_counters as read_flat, parse_snmp_style};
use netdiag::collect::routes::{get_rules, rule_can_match_uid, table_name};
use netdiag::collect::sockdiag::{read_datagram, DiagAttribute, DiagTimer, DumpEnd};
use netdiag::collect::sockets::{dump_request, normalize_address, response_to_proto, summarize};
use netdiag::ip::IpAddr;
use netdiag::proto::{
    Interface, IpFamily, LinkFlags, LinkKind, NeighborState, RoutingRule, Socket, SocketFilter,
    TcpState, UidFirewallState,
};
use netdiag::util::net_id_from_mark;

#[test]
fn decodes_known_match_bits() {
    let names = decode_match_bits((1 << 1) | (1 << 3));
    assert!(names.iter().any(|n| n.contains("PENALTY_BOX")));
    assert!(names.iter().any(|n| n.contains("STANDBY")));
    assert_eq!(names.len(), 2);
}

#[test]
fn reports_unknown_bits_rather_than_dropping_them() {
    let names = decode_match_bits(1 << 20);
    assert_eq!(names.len(), 1);
    assert!(names[0].contains("unknown bits"), "{names:?}");
}

#[test]
fn deny_bits_are_recognised() {
    let denied = UidFirewallState {
        raw_match: 1 << 1,
        source_available: true,
        ..Default::default()
    };
    assert!(is_unambiguously_denied(&denied));

    // An allowlist bit alone does not mean blocked.
    let allowlisted = UidFirewallState {
        raw_match: 1 << 2,
        source_available: true,
        ..Default::default()
    };
    assert!(!is_unambiguously_denied(&allowlisted));
}

#[test]
fn an_unreadable_map_never_claims_a_verdict() {
    let unknown = UidFirewallState {
        raw_match: 1 << 1,
        source_available: false,
        ..Default::default()
    };
    assert!(!is_unambiguously_denied(&unknown));
}

#[test]
fn parses_iptables_save_chains_and_rules() {
    let text = "\
*filter
:INPUT ACCEPT [10:2048]
:fw_dozable - [0:0]
[5:600] -A INPUT -i lo -j ACCEPT
[0:0] -A fw_dozable -m owner --uid-owner 10342 -j RETURN
COMMIT
";
    let chains = parse_iptables_save(text);
    assert_eq!(chains.len(), 2);
    let input = chains.iter().find(|c| c.name == "INPUT").unwrap();
    assert_eq!(input.table, "filter");
    assert_eq!(input.policy, "ACCEPT");
    assert_eq!(input.packets, 10);
    assert_eq!(input.bytes, 2048);
    assert_eq!(input.rules.len(), 1);

    let dozable = chains.iter().find(|c| c.name == "fw_dozable").unwrap();
    assert_eq!(dozable.rules.len(), 1);
    assert!(dozable.rules[0].contains("10342"));
}

#[test]
fn parses_counters() {
    assert_eq!(parse_counter("[12:3456]"), Some((12, 3456)));
    assert_eq!(parse_counter("nonsense"), None);
}

#[test]
fn a_missing_map_entry_is_a_real_answer() {
    let state = read_uid_firewall(10342, MapReading::NoEntry);
    assert!(state.source_available);
    assert_eq!(state.raw_match, 0);
    assert!(!read_uid_firewall(10342, MapReading::Unavailable).source_available);
    assert!(!read_uid_firewall(10342, MapReading::Failed).source_available);
    let rule = read_uid_firewall(10342, MapReading::Rule(0x2));
    assert!(rule.blocked_metered_deny_user && is_unambiguously_denied(&rule));
}

#[test]
fn classifies_android_interface_names() {
    // ARPHRD_ETHER, ARPHRD_RAWIP, ARPHRD_NONE and ARPHRD_LOOPBACK.
    assert_eq!(classify_link("wlan0", 1, None, 0), LinkKind::Wifi);
    assert_eq!(classify_link("rmnet_data0", 519, None, 0), LinkKind::Cellular);
    assert_eq!(classify_link("tun0", 0xfffe, Some("tun"), 0), LinkKind::VpnTun);
    assert_eq!(classify_link("lo", 772, None, IFF_LOOPBACK), LinkKind::Loopback);
}

#[test]
fn clat_wins_over_tun() {
    // clatd's interface is a tun device, but calling it a VPN would be
    // actively misleading in the UI.
    assert_eq!(
        classify_link("v4-rmnet_data0", 0xfffe, Some("tun"), 0),
        LinkKind::Clat
    );
}

#[test]
fn stale_entries_still_forward() {
    assert!(is_usable(NeighborState::Stale));
    assert!(is_usable(NeighborState::Reachable));
}

#[test]
fn failed_and_incomplete_do_not_forward() {
    assert!(!is_usable(NeighborState::Failed));
    assert!(!is_usable(NeighborState::Incomplete));
}

#[test]
fn parses_snmp_two_line_format() {
    let text = "Tcp: RtoAlgorithm RtoMin InSegs\nTcp: 1 200 12345\n\
                Udp: InDatagrams NoPorts\nUdp: 10 2\n";
    let parsed = parse_snmp_style(text);
    assert_eq!(parsed.get("tcp", "InSegs"), Some(12345));
    assert_eq!(parsed.get("tcp", "RtoMin"), Some(200));
    assert_eq!(parsed.get("udp", "NoPorts"), Some(2));
}

#[test]
fn ignores_mismatched_snmp_pairs() {
    // A truncated read must not pair a Tcp header with Udp values.
    let text = "Tcp: InSegs\nUdp: 5\n";
    assert!(parse_snmp_style(text).entries.is_empty());
}

#[test]
fn parses_flat_counters() {
    let parsed = read_flat("Ip6InReceives 42\nIp6OutNoRoutes 7\n");
    assert_eq!(parsed.get("", "Ip6InReceives"), Some(42));
    assert_eq!(parsed.get("", "Ip6OutNoRoutes"), Some(7));
}

#[test]
fn detects_clat_interface() {
    let interfaces = vec![Interface {
        index: 42,
        name: "v4-rmnet_data0".to_string(),
        kind: LinkKind::Clat,
        flags: Some(LinkFlags { up: true, running: true, ..Default::default() }),
        ..Default::default()
    }];
    let clat = detect_clat(&interfaces);
    assert!(clat.active);
    assert_eq!(clat.base_interface, "rmnet_data0");
}

#[test]
fn reports_no_clat_cleanly() {
    let interfaces = vec![Interface { name: "wlan0".to_string(), ..Default::default() }];
    assert!(!detect_clat(&interfaces).active);
}

fn rule_with_uid_range(start: u32, end: u32, invert: bool) -> RoutingRule {
    RoutingRule {
        has_uid_range: true,
        uid_range_start: start,
        uid_range_end: end,
        invert,
        ..Default::default()
    }
}

#[test]
fn rule_without_uid_range_matches_everyone() {
    let rule = RoutingRule::default();
    assert!(rule_can_match_uid(&rule, 10342));
    assert!(rule_can_match_uid(&rule, 0));
}

#[test]
fn uid_range_is_inclusive_at_both_ends() {
    let rule = rule_with_uid_range(10000, 10999, false);
    assert!(rule_can_match_uid(&rule, 10000));
    assert!(rule_can_match_uid(&rule, 10999));
    assert!(!rule_can_match_uid(&rule, 9999));
    assert!(!rule_can_match_uid(&rule, 11000));
}

#[test]
fn inverted_uid_range_excludes_the_range() {
    // This is how an app is carved out of a VPN.
    let rule = rule_with_uid_range(10342, 10342, true);
    assert!(!rule_can_match_uid(&rule, 10342));
    assert!(rule_can_match_uid(&rule, 10343));
}

#[test]
fn names_well_known_tables() {
    assert_eq!(table_name(254), "main");
    assert_eq!(table_name(255), "local");
    assert_eq!(table_name(1003), "vpn_fallthrough");
    assert_eq!(table_name(101), "net101");
}

#[test]
fn rules_come_in_the_order_of_evaluation() {
    let rule = |family: IpFamily, priority: u32| RoutingRule { family, priority, ..Default::default() };
    let sorted = get_rules(
        vec![rule(IpFamily::V6, 5), rule(IpFamily::V4, 9), rule(IpFamily::V4, 2)],
        None,
    );
    let order: Vec<u32> = sorted.iter().map(|r| r.priority).collect();
    assert_eq!(order, vec![2, 9, 5]);
}

#[test]
fn v4_mapped_addresses_become_plain_ipv4() {
    let mapped = IpAddr::V6([0, 0, 0, 0, 0, 0, 0, 0, 0, 0, 0xff, 0xff, 0xc0, 0xa8, 0x01, 0x01]);
    let normalized = normalize_address(mapped);
    assert_eq!(normalized.to_ip(), Some(IpAddr::V4([192, 168, 1, 1])));
}

#[test]
fn real_v6_addresses_are_left_alone() {
    let v6 = IpAddr::V6([0x26, 0x06, 0x47, 0, 0x47, 0, 0, 0, 0, 0, 0, 0, 0, 0, 0x11, 0x11]);
    assert_eq!(normalize_address(v6).to_ip(), Some(v6));
}

#[test]
fn summary_counts_states() {
    let sockets = vec![
        Socket { state: TcpState::Established, family: IpFamily::V4, ..Default::default() },
        Socket { state: TcpState::SynSent, family: IpFamily::V6, ..Default::default() },
        Socket { state: TcpState::SynSent, family: IpFamily::V6, ..Default::default() },
    ];
    let summary = summarize(&sockets);
    assert_eq!(summary.total, 3);
    assert_eq!(summary.established, 1);
    assert_eq!(summary.syn_sent, 2);
    assert_eq!(summary.v4_count, 1);
    assert_eq!(summary.v6_count, 2);
}

#[test]
fn net_id_is_extracted_from_the_mark() {
    // netId 101 with the explicitlySelected bit set.
    assert_eq!(net_id_from_mark(0x10065), 101);
}

/// A netlink message of a type, in the byte order of the machine.
fn message(kind: u16, body: &[u8]) -> Vec<u8> {
    let mut m = Vec::new();
    m.extend_from_slice(&(16 + body.len() as u32).to_ne_bytes());
    m.extend_from_slice(&kind.to_ne_bytes());
    m.extend_from_slice(&[0u8; 10]);
    m.extend_from_slice(body);
    m
}

fn attribute(kind: u16, value: &[u8]) -> Vec<u8> {
    let mut a = Vec::new();
    a.extend_from_slice(&(4 + value.len() as u16).to_ne_bytes());
    a.extend_from_slice(&kind.to_ne_bytes());
    a.extend_from_slice(value);
    while a.len() % 4 != 0 {
        a.push(0);
    }
    a
}

/// An established socket of an app, with a mark, its algorithm and tcp_info.
fn diag_socket(family: u8, timer: u8) -> Vec<u8> {
    let mut b = vec![family, 1, timer, 3];
    b.extend_from_slice(&4000u16.to_be_bytes());
    b.extend_from_slice(&443u16.to_be_bytes());
    let mut address = [0u8; 16];
    address[..4].copy_from_slice(&[10, 0, 0, 2]);
    b.extend_from_slice(&address);
    address[..4].copy_from_slice(&[1, 1, 1, 1]);
    b.extend_from_slice(&address);
    b.extend_from_slice(&3u32.to_ne_bytes());
    b.extend_from_slice(&0x0102_0304_0506_0708u64.to_ne_bytes());
    for number in [250u32, 5, 6, 10342, 99] {
        b.extend_from_slice(&number.to_ne_bytes());
    }
    b.extend_from_slice(&attribute(15, &0x10065u32.to_ne_bytes()));
    b.extend_from_slice(&attribute(4, b"cubic\0"));
    let mut info = [0u8; 300];
    info[1] = 4;
    info[2] = 1;
    info[8..12].copy_from_slice(&204_000u32.to_ne_bytes());
    b.extend_from_slice(&attribute(2, &info));
    b.extend_from_slice(&attribute(5, &[0x10]));
    message(20, &b)
}

#[test]
fn a_dump_request_is_a_netlink_message() {
    let request = dump_request(&SocketFilter::default(), 2, 6);
    let mut expected = vec![2u8, 6, 0, 0];
    expected.extend_from_slice(&0xffeu32.to_ne_bytes());
    expected.extend_from_slice(&[0u8; 48]);
    let mut expected = message(20, &expected);
    expected[6..8].copy_from_slice(&0x301u16.to_ne_bytes());
    assert_eq!(request, expected);
    let filter = SocketFilter {
        include_tcp_info: true,
        states: vec![TcpState::Established, TcpState::SynSent],
        ..Default::default()
    };
    let v6 = dump_request(&filter, 10, 6);
    assert_eq!(&v6[16..19], &[10, 6, 0xa]);
    assert_eq!(&v6[20..24], &6u32.to_ne_bytes());
    assert_eq!(dump_request(&filter, 10, 17)[18], 0);
}

#[test]
fn a_datagram_is_read_message_by_message() {
    let mut bytes = diag_socket(2, 1);
    bytes.extend_from_slice(&message(1, &[]));
    bytes.extend_from_slice(&diag_socket(10, 0));
    let (sockets, end) = read_datagram(&bytes);
    assert_eq!(end, DumpEnd::Receive);
    assert_eq!(sockets.len(), 2);
    let first = &sockets[0];
    assert_eq!(first.head.uid, 10342);
    assert_eq!(first.head.cookie, 0x0102_0304_0506_0708);
    assert_eq!(first.timer, Some(DiagTimer::Retransmit { expires_ms: 250, retransmits: 3 }));
    assert_eq!(first.attributes.len(), 4);
    assert_eq!(first.attributes[0], DiagAttribute::Mark(0x10065));
    assert_eq!(first.attributes[1], DiagAttribute::Congestion("cubic".to_string()));
    match &first.attributes[2] {
        DiagAttribute::TcpInfo(info) => {
            assert_eq!((info.ca_state, info.retransmits, info.rto), (4, 1, 204_000));
        }
        other => panic!("unexpected attribute {other:?}"),
    }
    assert_eq!(first.attributes[3], DiagAttribute::Other);
    assert_eq!(sockets[1].timer, None);

    bytes.extend_from_slice(&message(3, &[0u8; 4]));
    bytes.extend_from_slice(&diag_socket(2, 1));
    let (sockets, end) = read_datagram(&bytes);
    assert_eq!((sockets.len(), end), (2, DumpEnd::Finished));
}

#[test]
fn a_socket_carries_its_attributes() {
    let names = std::collections::HashMap::from([(3u32, "wlan0".to_string())]);
    let (mut sockets, _) = read_datagram(&diag_socket(2, 1));
    let socket = response_to_proto(sockets.remove(0), 6, &names);
    assert_eq!(socket.state, TcpState::Established);
    assert_eq!(socket.local_address.as_ref().unwrap().display(), "10.0.0.2");
    assert_eq!((socket.local_port, socket.remote_port), (4000, 443));
    assert_eq!(socket.remote_address.as_ref().unwrap().display(), "1.1.1.1");
    assert_eq!(socket.interface_name, "wlan0");
    assert_eq!((socket.rx_queue, socket.tx_queue, socket.inode), (5, 6, 99));
    assert_eq!((socket.timer, socket.timer_expires_ms, socket.retransmits), (1, 250, 3));
    assert_eq!((socket.mark, socket.net_id), (0x10065, 101));
    assert_eq!(socket.congestion_control, "cubic");
    let info = socket.tcp_info.unwrap();
    assert_eq!(info.rto_us, 204_000);
    assert!(info.retransmitting);
    let (mut sockets, _) = read_datagram(&diag_socket(10, 3));
    let v6 = response_to_proto(sockets.remove(0), 17, &names);
    assert_eq!(v6.local_address.as_ref().unwrap().display(), "a00:2::");
    assert_eq!(v6.timer, 3);
}

#[test]
fn the_end_of_a_dump_is_told_apart() {
    let failed = |code: i32| {
        let mut body = code.to_ne_bytes().to_vec();
        body.extend_from_slice(&[0u8; 16]);
        read_datagram(&message(2, &body)).1
    };
    assert_eq!(failed(-2), DumpEnd::Finished);
    assert_eq!(failed(-1), DumpEnd::Failed(-1));
    assert_eq!(failed(0), DumpEnd::Failed(0));
    assert_eq!(read_datagram(&[1, 2, 3]).1, DumpEnd::Malformed);
    assert_eq!(read_datagram(&message(99, &[2, 0])).1, DumpEnd::Malformed);
    assert_eq!(read_datagram(&[]), (vec![], DumpEnd::Receive));
}
