use netdiag::collect::firewall::{self, decode_match_bits, list_bpf_pins, PinListing, ToolOutputs};
use netdiag::collect::links::{
    address_to_proto, get_interfaces, has_global_address, info_kind_name, link_to_proto,
    oper_state_to_proto, read_interface_sysctls, scope_to_proto, AddressAttribute, AddressMessage,
    InfoKind, InterfaceSysctlFiles, LinkAttribute, LinkMessage, IFF_RUNNING, IFF_UP,
};
use netdiag::collect::neigh::{
    find_gateway, get_neighbors, neighbor_to_proto, NeighbourAttribute, NeighbourMessage,
};
use netdiag::collect::procnet::{
    global_sysctl_keys, ping_group_range_allows, read_counters, read_global_sysctls,
    read_namespaces, read_resolver_state,
};
use netdiag::collect::routes::{
    get_routes, lookup_request, route_lookup, route_to_proto, rule_can_match_uid, rule_to_proto,
    LookupAttribute, MultipathHop, RouteAttribute, RouteMessage, RouteMetric, RuleAttribute,
    RuleMessage,
};
use netdiag::collect::sockets::{get_sockets, SocketListing};
use netdiag::ip::IpAddr;
use netdiag::ip_parse::read_ip;
use netdiag::proto::{
    AddressScope, ErrorCode, FirewallBackend, Interface, IpAddress, IpFamily, IpPrefix, LinkAddress,
    LinkKind, LinkStats, Neighbor, NeighborState, OperState, Route, RouteProtocol, RouteScope,
    RouteType, RoutingRule, RuleAction, Socket, SocketFilter,
};
use std::collections::HashMap;

fn ip(text: &str) -> IpAddr {
    read_ip(text).unwrap()
}

#[test]
fn a_link_is_read_from_its_attributes() {
    let message = |attributes: Vec<LinkAttribute>| LinkMessage {
        index: 4,
        flags: IFF_UP | IFF_RUNNING,
        link_layer_type: 0xfffe,
        attributes,
    };
    let link = link_to_proto(
        message(vec![
            LinkAttribute::IfName("tun9".to_string()),
            LinkAttribute::IfName("tun0".to_string()),
            LinkAttribute::Mtu(1280),
            LinkAttribute::OperState(6),
            LinkAttribute::Xdp(0),
            LinkAttribute::LinkInfo(vec![InfoKind::Known("Tun".to_string())]),
            LinkAttribute::Stats64(LinkStats { rx_bytes: 5, ..Default::default() }),
        ]),
        true,
    );
    assert_eq!(link.name, "tun0");
    assert_eq!(link.link_type, "tun");
    assert_eq!(link.kind, LinkKind::VpnTun);
    assert_eq!(link.oper_state, OperState::Up);
    assert_eq!(link.netns_id, -1);
    assert!(link.flags.unwrap().running && !link.has_xdp);
    assert_eq!(link.stats.unwrap().rx_bytes, 5);
    let bare = link_to_proto(message(vec![LinkAttribute::Stats64(LinkStats::default())]), false);
    assert!(bare.stats.is_none());
    assert_eq!(bare.kind, LinkKind::Other);
    assert_eq!(info_kind_name(&InfoKind::Known("IpVlan".to_string())), "ipvlan");
    assert_eq!(info_kind_name(&InfoKind::Other("XYZ".to_string())), "XYZ");
    assert_eq!(oper_state_to_proto(9), OperState::Unspecified);
    assert_eq!(scope_to_proto(254), AddressScope::Host);
}

#[test]
fn an_address_is_that_of_this_end() {
    let message = |attributes: Vec<AddressAttribute>| AddressMessage {
        index: 4,
        flags: 0x80,
        scope: 0,
        prefix_len: 32,
        attributes,
    };
    let address = address_to_proto(message(vec![
        AddressAttribute::Local(ip("10.0.0.2")),
        AddressAttribute::Address(ip("10.0.0.1")),
        AddressAttribute::Broadcast([10, 0, 0, 255]),
        AddressAttribute::CacheInfo { valid: 7, preferred: 6 },
    ]))
    .unwrap();
    assert_eq!(address.prefix.as_ref().unwrap().display(), "10.0.0.2/32");
    assert!(address.flags.unwrap().permanent);
    assert_eq!((address.valid_lifetime_sec, address.preferred_lifetime_sec), (7, 6));
    assert_eq!(address.broadcast.unwrap().display(), "10.0.0.255");
    assert_eq!(address.scope, AddressScope::Global);
    assert!(address_to_proto(message(vec![AddressAttribute::Flags(1)])).is_none());
}

#[test]
fn interfaces_come_by_index_with_their_addresses() {
    let link = |index: u32, name: &str| Interface {
        index,
        name: name.to_string(),
        ..Default::default()
    };
    let global = |text: &str| LinkAddress {
        prefix: Some(IpPrefix::new(ip(text), 64)),
        scope: AddressScope::Global,
        ..Default::default()
    };
    let all = get_interfaces(
        vec![link(3, "old"), link(1, "lo"), link(3, "wlan0")],
        vec![(3, global("2001:db8::1")), (9, global("10.0.0.9")), (3, global("10.0.0.2"))],
    );
    let names: Vec<&str> = all.iter().map(|i| i.name.as_str()).collect();
    assert_eq!(names, ["lo", "wlan0"]);
    assert_eq!(all[1].addresses.len(), 2);
    assert!(has_global_address(&all[1], IpFamily::V6));
    assert!(!has_global_address(&all[0], IpFamily::Unspecified));
}

#[test]
fn interface_settings_default_to_unknown() {
    let files = InterfaceSysctlFiles {
        disable_ipv6: Some("1".to_string()),
        accept_ra: Some("2\n".to_string()),
        accept_ra_defrtr: None,
        accept_ra_rt_info_max_plen: None,
        autoconf: Some("x".to_string()),
        use_tempaddr: None,
        forwarding_v4: None,
        forwarding_v6: None,
        rp_filter: None,
        arp_ignore: None,
        dad_transmits: None,
        mtu_v6: None,
        hop_limit: Some("64 1".to_string()),
    };
    let read = read_interface_sysctls(&files);
    assert!(read.ipv6_disabled);
    assert_eq!((read.accept_ra, read.autoconf, read.hop_limit, read.mtu_v6), (2, -1, 64, -1));
}

#[test]
fn a_route_is_read_from_its_attributes() {
    let names = HashMap::from([(3u32, "wlan0".to_string())]);
    let route = route_to_proto(
        RouteMessage {
            family: 10,
            table: 0,
            protocol: 9,
            scope: 0,
            kind: 1,
            flags: 4,
            destination_prefix_length: 64,
            attributes: vec![
                RouteAttribute::Table(1051),
                RouteAttribute::Destination(Some(ip("2001:db8::"))),
                RouteAttribute::Metrics(vec![RouteMetric::Mtu(1280), RouteMetric::Lock(4)]),
                RouteAttribute::CacheInfo(0),
                RouteAttribute::Expires(30),
                RouteAttribute::MultiPath(vec![MultipathHop {
                    interface_index: 3,
                    hops: 1,
                    flags: 0,
                    gateways: vec![None, Some(ip("fe80::1"))],
                }]),
                RouteAttribute::Oif(9),
            ],
        },
        &names,
    );
    assert_eq!((route.table, route.table_name.as_str()), (1051, "net1051"));
    assert_eq!(route.protocol, RouteProtocol::Ra);
    assert_eq!(route.scope, RouteScope::Universe);
    assert_eq!(route.kind, RouteType::Unicast);
    assert_eq!(route.destination.as_ref().unwrap().display(), "2001:db8::/64");
    assert!(!route.is_default);
    assert_eq!(route.expires_sec, 30);
    let metrics = route.metrics.unwrap();
    assert_eq!((metrics.mtu, metrics.mtu_locked), (1280, true));
    assert_eq!(route.next_hops.len(), 1);
    assert_eq!(route.next_hops[0].weight, 2);
    assert_eq!(route.next_hops[0].out_interface_name, "wlan0");
    assert_eq!(route.next_hops[0].gateway.as_ref().unwrap().display(), "fe80::1");
}

#[test]
fn routes_come_by_table_prefix_and_metric() {
    let route = |table: u32, prefix_len: u32, priority: u32| Route {
        table,
        priority,
        destination: Some(IpPrefix { address: None, prefix_len }),
        is_default: prefix_len == 0,
        table_name: format!("t{table}"),
        ..Default::default()
    };
    let all = || {
        vec![route(254, 0, 20), route(254, 24, 0), route(100, 0, 1), route(254, 0, 10)]
    };
    let dump = get_routes(all(), 0, false, 0);
    let order: Vec<(u32, u32)> = dump.routes.iter().map(|r| (r.table, r.priority)).collect();
    assert_eq!(order, [(100, 1), (254, 0), (254, 10), (254, 20)]);
    assert_eq!(dump.table_names.len(), 2);
    assert_eq!(get_routes(all(), 254, true, 0).routes.len(), 2);
    assert!(get_routes(all(), 0, false, 7).routes.is_empty());
}

#[test]
fn a_rule_is_read_from_its_attributes() {
    let rule = rule_to_proto(RuleMessage {
        family: 2,
        table: 254,
        action: 2,
        tos: 0,
        flags: 2,
        src_len: 8,
        dst_len: 0,
        attributes: vec![
            RuleAttribute::Source(ip("10.0.0.0")),
            RuleAttribute::Goto(32000),
            RuleAttribute::SuppressPrefixLen(0),
            RuleAttribute::Protocol(3),
        ],
    });
    assert_eq!(rule.action, RuleAction::Goto);
    assert!(rule.invert && rule.has_suppress_prefix_len && !rule.has_fwmark);
    assert_eq!(rule.source.as_ref().unwrap().display(), "10.0.0.0/8");
    assert_eq!((rule.table, rule.protocol), (32000, 3));
}

#[test]
fn inverting_a_rule_turns_its_answer_around() {
    for uid in [0, 9_999, 10_000, 10_500, 10_999, 11_000] {
        let rule = |invert: bool| RoutingRule {
            has_uid_range: true,
            uid_range_start: 10_000,
            uid_range_end: 10_999,
            invert,
            ..Default::default()
        };
        assert_ne!(rule_can_match_uid(&rule(true), uid), rule_can_match_uid(&rule(false), uid));
    }
}

#[test]
fn a_lookup_asks_for_what_is_known() {
    let request = lookup_request(ip("1.1.1.1"), Some(ip("10.0.0.2")), Some(5), None, 3);
    assert_eq!((request.family, request.flags), (2, 0x1000));
    assert_eq!((request.destination_prefix_length, request.source_prefix_length), (32, 32));
    assert_eq!(
        request.attributes,
        vec![
            LookupAttribute::Destination(ip("1.1.1.1")),
            LookupAttribute::Source(ip("10.0.0.2")),
            LookupAttribute::Uid(5),
            LookupAttribute::Oif(3),
        ]
    );
    let failed = route_lookup(
        ip("2606:4700:4700::1111"),
        None,
        None,
        Some(9),
        0,
        Err("No route to host".to_string()),
    );
    let error = failed.error.unwrap();
    assert_eq!(error.code, ErrorCode::Kernel);
    assert_eq!(error.message, "No route to host");
    assert_eq!(error.detail, "RTM_GETROUTE to 2606:4700:4700::1111");
    assert_eq!((failed.fwmark, failed.uid), (9, 0));
    let route = Route { table: 1051, ..Default::default() };
    assert_eq!(route_lookup(ip("1.1.1.1"), None, None, None, 0, Ok(route)).table, 1051);
}

#[test]
fn neighbours_come_by_interface_and_address() {
    let names = HashMap::from([(3u32, "wlan0".to_string())]);
    let entry = |ifindex: u32, address: Option<&str>, flags: u8| {
        neighbor_to_proto(
            NeighbourMessage {
                family: 2,
                ifindex,
                state: 2,
                flags,
                attributes: vec![
                    NeighbourAttribute::Destination(address.map(ip)),
                    NeighbourAttribute::CacheInfo { confirmed: 5, used: u32::MAX, updated: 0 },
                ],
            },
            &names,
        )
    };
    let all = || {
        vec![
            entry(4, Some("10.0.0.1"), 0),
            entry(3, Some("10.0.0.9"), 0x80),
            entry(3, Some("10.0.0.2"), 0),
            entry(3, None, 0),
        ]
    };
    let listed = get_neighbors(all(), 0, false);
    let order: Vec<String> =
        listed.iter().map(|n| n.address.as_ref().map_or("-".to_string(), |a| a.display())).collect();
    assert_eq!(order, ["-", "10.0.0.2", "10.0.0.9", "10.0.0.1"]);
    assert_eq!((listed[0].confirmed_ms, listed[0].used_ms), (50, u32::MAX));
    assert_eq!(listed[0].interface_name, "wlan0");
    assert_eq!(get_neighbors(all(), 3, true).len(), 1);
    assert_eq!(find_gateway(&listed, ip("10.0.0.1"), 4).map(|n| n.state), Some(NeighborState::Reachable));
    assert!(find_gateway(&listed, ip("10.0.0.1"), 3).is_none());
    assert!(find_gateway(&vec![Neighbor::default()], ip("10.0.0.1"), 0).is_none());
}

#[test]
fn a_socket_list_is_cut_at_its_limit() {
    let socket = |uid: u32| Socket { uid, ..Default::default() };
    let filter = SocketFilter { uids: vec![5], limit: 2, ..Default::default() };
    let dump = get_sockets(vec![socket(5), socket(6), socket(5), socket(5)], &filter);
    assert_eq!((dump.sockets.len(), dump.truncated, dump.summary.total), (2, true, 2));
    let dump = get_sockets(vec![socket(5), socket(6), socket(5)], &filter);
    assert_eq!((dump.sockets.len(), dump.truncated), (2, false));
}

#[test]
fn dumps_are_taken_until_the_limit_is_passed() {
    let socket = |uid: u32| Socket { uid, ..Default::default() };
    let filter = SocketFilter { uids: vec![5], limit: 2, ..Default::default() };
    let mut listing = SocketListing::new();
    assert!(listing.take_dump(vec![socket(5), socket(6)], &filter));
    assert!(listing.take_dump(vec![socket(6), socket(5)], &filter));
    assert!(!listing.take_dump(vec![socket(5)], &filter));
    let mut more = listing.listed.clone();
    more.push(socket(5));
    let dump = get_sockets(listing.listed, &filter);
    assert!(dump.truncated);
    assert_eq!(get_sockets(more, &filter).sockets, dump.sockets);
}

#[test]
fn every_bit_of_a_rule_is_reported() {
    assert!(decode_match_bits(0).is_empty());
    for bit in 0..32 {
        assert_eq!(decode_match_bits(1 << bit).len(), 1, "bit {bit}");
    }
    assert_eq!(decode_match_bits(u32::MAX).len(), 14);
    assert_eq!(decode_match_bits(0x4000), ["unknown bits 0x4000"]);
}

#[test]
fn pins_are_listed_once_and_in_order() {
    let listing = |root: &str, names: Option<Vec<&str>>| PinListing {
        root: root.to_string(),
        names: names.map(|n| n.into_iter().map(str::to_string).collect()),
    };
    let (pins, readable) = list_bpf_pins(&vec![
        listing("/sys/fs/bpf", Some(vec!["prog_netd", "other", "map_uid", "map_uid"])),
        listing("/sys/fs/bpf/x", None),
    ]);
    assert_eq!(pins, ["/sys/fs/bpf/map_uid", "/sys/fs/bpf/prog_netd"]);
    assert!(readable);
    assert!(!list_bpf_pins(&vec![listing("/x", None)]).1);
}

#[test]
fn the_backends_of_the_firewall_are_named() {
    let tools = ToolOutputs {
        iptables_save: Some("*filter\n:INPUT ACCEPT [0:0]\n".to_string()),
        ip6tables_save: None,
        nft_tables: Some(String::new()),
    };
    let state = firewall::collect(vec!["/sys/fs/bpf/map_uid".to_string()], true, false, Some(tools));
    assert_eq!(
        state.backends_detected,
        [FirewallBackend::Ebpf, FirewallBackend::Iptables, FirewallBackend::Nftables]
    );
    assert!(state.used_shell_fallback);
    assert!(state.collection_note.starts_with("eBPF filesystem is present"));
    let nothing = firewall::collect(vec![], false, false, None);
    assert!(nothing.backends_detected.is_empty() && !nothing.used_shell_fallback);
    assert_eq!(nothing.collection_note, "no readable eBPF or netfilter state");
}

#[test]
fn global_settings_are_normalised() {
    assert_eq!(global_sysctl_keys().len(), 33);
    let read = vec![
        ("ipv4/ip_forward".to_string(), "1".to_string()),
        ("ipv4/tcp_rmem".to_string(), "4096\t131072\t6291456".to_string()),
        ("core/default_qdisc".to_string(), "fq".to_string()),
    ];
    let settings = read_global_sysctls(&read);
    assert_eq!((settings.ipv4_forwarding, settings.tcp_sack), (1, -1));
    assert_eq!(settings.raw.get("ipv4/tcp_rmem"), Some("4096 131072 6291456"));
    assert_eq!((settings.default_qdisc.as_str(), settings.default_qdisc_present), ("fq", 1));
    assert!(ping_group_range_allows(&Some("0 2147483647".to_string()), 5));
    assert!(!ping_group_range_allows(&Some("1 0".to_string()), 0));
    assert!(!ping_group_range_allows(&None, 0));
}

#[test]
fn counters_are_split_by_protocol() {
    let counters = read_counters(
        "Ip: Forwarding InReceives\nIp: 1 77\n",
        "TcpExt: SyncookiesSent\nTcpExt: 3\n",
        "Ip6InReceives 9\nUdp6NoPorts 4\n",
    );
    let get = |list: &Vec<netdiag::proto::Counter>, name: &str| {
        list.iter().find(|c| c.name == name).map(|c| c.value)
    };
    assert_eq!(get(&counters.ip, "InReceives"), Some(77));
    assert_eq!(get(&counters.tcp_ext, "SyncookiesSent"), Some(3));
    assert_eq!(get(&counters.ip6, "InReceives"), Some(9));
    assert_eq!(get(&counters.udp6, "NoPorts"), Some(4));
    assert!(counters.icmp.is_empty());
    // The last value of a counter counts, and it is listed once.
    let again = read_counters("", "", "Ip6InReceives 9\nIp6InReceives 10\n");
    assert_eq!(again.ip6.len(), 1);
    assert_eq!(get(&again.ip6, "InReceives"), Some(10));
}

#[test]
fn a_missing_resolver_file_is_explained() {
    let missing = read_resolver_state(&None);
    assert!(!missing.resolv_conf_present && missing.resolv_conf_note.contains("netd"));
    let conf = "nameserver 192.168.1.1\n nameserver bad\nsearch a.example b.example\n# x";
    let state = read_resolver_state(&Some(conf.to_string()));
    assert!(state.resolv_conf_present);
    assert_eq!(state.resolv_conf_servers, vec![IpAddress { addr: vec![192, 168, 1, 1] }]);
    assert_eq!(state.resolv_conf_domains, ["a.example", "b.example"]);
}

#[test]
fn namespaces_start_with_our_own() {
    let all = read_namespaces(7, vec![("blue".to_string(), 8), ("own".to_string(), 7)]);
    assert_eq!(all.len(), 3);
    assert_eq!((all[0].name.as_str(), all[0].inode), ("self", 7));
    assert!(all[0].is_current && !all[1].is_current && all[2].is_current);
}
