use netdiag::cli::{diagnosis_report, parse_args, self_test_request, snapshot_report, Invocation};
use netdiag::daemon::{
    app_request, lag_notice, lookup_arguments, probe_capabilities, program_paths,
    push_framework_event, replay_event, requested_family, route_event_matches, route_watch_filter,
    select_interfaces, socket_baseline, socket_changes, socket_event, socket_poll_ms,
    watched_family, Daemon, Probed, SocketChange,
};
use netdiag::ip_parse::read_ip;
use netdiag::ipc::listener::SocketAddress;
use netdiag::proto::{
    AppRef, Check, CheckStatus, Clat464State, DaemonCapabilities, DaemonEvent, DiagnoseResponse,
    EventSeverity, EventSource, Finding, GetAppNetworkStateRequest, GetInterfacesRequest,
    GetSnapshotRequest, HelloRequest, Interface, IpAddress, IpFamily, IpPrefix, LinkAddress, LinkFlags,
    NetworkEvent, NetworkEventPayload, NextHop, Qdisc, Route, RouteEvent, RouteLookupRequest,
    RoutingRule, Snapshot, Socket, SocketSummary, TcpState, WatchRoutesRequest,
};
use netdiag::snapshot::{
    collect_snapshot, qdisc_to_proto, SnapshotParts, TcAttribute, TcMessage, TcStats2,
};
use netdiag::util::Stopwatch;

#[test]
fn route_events_can_be_narrowed_by_family_and_table() {
    let event = NetworkEvent {
        payload: Some(NetworkEventPayload::Route(RouteEvent {
            route: Some(Route { family: IpFamily::V6, table: 101, ..Default::default() }),
            ..Default::default()
        })),
        ..Default::default()
    };

    assert!(route_event_matches(&event, IpFamily::Unspecified, 0));
    assert!(route_event_matches(&event, IpFamily::V6, 101));
    assert!(!route_event_matches(&event, IpFamily::V4, 0));
    assert!(!route_event_matches(&event, IpFamily::V6, 254));
}

#[test]
fn non_route_events_pass_the_route_filter_untouched() {
    let event = NetworkEvent {
        payload: Some(NetworkEventPayload::Daemon(DaemonEvent::default())),
        ..Default::default()
    };
    assert!(route_event_matches(&event, IpFamily::V4, 254));
}

fn everything_works() -> Probed {
    Probed {
        netlink_route: true,
        inet_diag: true,
        packet_capture: true,
        raw_icmp: true,
        ping_group: false,
        bpf_maps: true,
        iptables: false,
        nftables: true,
    }
}

#[test]
fn capability_probe_reports_something_sane() {
    let (capabilities, warnings) = probe_capabilities(everything_works());
    assert!(capabilities.netlink_route);
    assert!(capabilities.so_mark);
    assert!(warnings.is_empty());
    let nothing = Probed {
        netlink_route: false,
        inet_diag: false,
        packet_capture: false,
        raw_icmp: false,
        ..everything_works()
    };
    let (capabilities, warnings) = probe_capabilities(nothing);
    assert!(!capabilities.route_lookup && !capabilities.tc);
    assert_eq!(warnings.len(), 4);
    assert!(warnings[3].starts_with("neither raw nor datagram"));
    let (_, warnings) = probe_capabilities(Probed { ping_group: true, ..nothing });
    assert!(warnings[3].ends_with("so ping probes will still work"));
    assert_eq!(program_paths("nft")[0], "/system/bin/nft");
}

#[test]
fn the_older_protocol_version_is_spoken() {
    let daemon = Daemon::new(
        "0.1.0".to_string(),
        5,
        DaemonCapabilities::default(),
        vec!["slow".to_string()],
    );
    let hello = |protocol_version: u32| {
        let request = HelloRequest { protocol_version, ..Default::default() };
        daemon.hello(&request, "6.1".to_string(), 0, 77)
    };
    assert_eq!(hello(0).protocol_version, 0);
    assert_eq!(hello(9).protocol_version, 1);
    assert_eq!(hello(1).warnings, vec!["slow".to_string()]);
    assert_eq!(hello(1).daemon_pid, 77);
    assert_eq!(daemon.warnings().len(), 1);
}

#[test]
fn requests_are_checked() {
    assert_eq!(requested_family(2).unwrap(), IpFamily::V6);
    assert_eq!(requested_family(7).unwrap_err().message, "unknown address family");
    assert_eq!(watched_family(7), IpFamily::Unspecified);
    let request = GetAppNetworkStateRequest::default();
    assert_eq!(app_request(request).err().unwrap().message, "the request names no app");
    let request = GetAppNetworkStateRequest { app: Some(AppRef::default()), ..Default::default() };
    assert!(app_request(request).err().unwrap().message.starts_with("an app uid is required"));
    let lookup = RouteLookupRequest {
        destination: Some(IpAddress { addr: vec![1, 2, 3] }),
        ..Default::default()
    };
    assert_eq!(
        lookup_arguments(&lookup).unwrap_err().message,
        "destination must be a 4 or 16 byte address"
    );
    let lookup = RouteLookupRequest {
        destination: Some(IpAddress { addr: vec![1, 1, 1, 1] }),
        has_uid: true,
        uid: 5,
        fwmark: 9,
        ..Default::default()
    };
    let arguments = lookup_arguments(&lookup).unwrap();
    assert_eq!(arguments.uid, Some(5));
    assert_eq!(arguments.fwmark, None);
}

#[test]
fn interfaces_are_selected_by_name_or_index() {
    let all = || {
        vec![
            Interface { index: 1, name: "lo".to_string(), ..Default::default() },
            Interface { index: 3, name: "wlan0".to_string(), ..Default::default() },
            Interface { index: 4, name: "tun0".to_string(), ..Default::default() },
        ]
    };
    assert_eq!(select_interfaces(&GetInterfacesRequest::default(), all()).len(), 3);
    let some = GetInterfacesRequest {
        names: vec!["lo".to_string()],
        indexes: vec![4],
        ..Default::default()
    };
    let names: Vec<String> = select_interfaces(&some, all()).into_iter().map(|i| i.name).collect();
    assert_eq!(names, vec!["lo".to_string(), "tun0".to_string()]);
}

#[test]
fn a_client_cannot_speak_for_the_kernel() {
    let forged = NetworkEvent {
        source: EventSource::Kernel,
        summary: "wlan0 down".to_string(),
        ..Default::default()
    };
    let events = push_framework_event(vec![forged]);
    assert_eq!(events[0].source, EventSource::Framework);
    assert_eq!(events[0].summary, "wlan0 down");
}

#[test]
fn a_subscriber_is_told_what_it_missed() {
    let notice = lag_notice(12, 3, 4);
    assert_eq!(
        notice.summary,
        "12 event(s) were dropped because this subscription could not keep up"
    );
    assert_eq!(notice.severity, EventSeverity::Warning);
    let up = Interface {
        name: "wlan0".to_string(),
        flags: Some(LinkFlags { up: true, ..Default::default() }),
        ..Default::default()
    };
    assert_eq!(replay_event(up, 0, 0).summary, "wlan0 is up (initial state)");
    let filter =
        route_watch_filter(&WatchRoutesRequest { include_rules: true, ..Default::default() });
    assert!(filter.routes && filter.rules && !filter.links);
}

#[test]
fn the_poll_interval_is_clamped() {
    assert_eq!(socket_poll_ms(0), 2000);
    assert_eq!(socket_poll_ms(1), 250);
    assert_eq!(socket_poll_ms(3000), 3000);
    assert_eq!(socket_poll_ms(u32::MAX), 60_000);
}

#[test]
fn a_socket_watch_reports_differences() {
    let socket = |cookie: u64, inode: u64, state: TcpState| Socket {
        socket_cookie: cookie,
        inode,
        state,
        ..Default::default()
    };
    let before = socket_baseline(vec![
        socket(1, 0, TcpState::SynSent),
        socket(1, 0, TcpState::Established),
        socket(0, 9, TcpState::Listen),
    ]);
    assert_eq!(before.len(), 2);
    assert!(socket_changes(&before, &before).is_empty());
    let after =
        socket_baseline(vec![socket(1, 0, TcpState::CloseWait), socket(2, 0, TcpState::SynSent)]);
    let changes = socket_changes(&before, &after);
    assert_eq!(changes.len(), 3);
    assert_eq!(changes[0].previous_state, Some(TcpState::Established));
    assert!(changes[1].appeared);
    assert!(changes[2].disappeared);
    assert_eq!(changes[2].socket.inode, 9);
}

#[test]
fn a_socket_event_carries_its_mark() {
    let socket = Socket {
        state: TcpState::SynSent,
        local_address: Some(IpAddress { addr: vec![10, 0, 0, 2] }),
        local_port: 4000,
        remote_address: Some(IpAddress { addr: vec![1, 1, 1, 1] }),
        remote_port: 443,
        uid: 10342,
        has_mark: true,
        mark: 0x10065,
        ..Default::default()
    };
    let change = |previous_state: Option<TcpState>, appeared: bool, disappeared: bool| SocketChange {
        socket: socket.clone(),
        previous_state,
        appeared,
        disappeared,
    };
    let ends = "10.0.0.2:4000 -> 1.1.1.1:443 (uid 10342) mark 0x10065 (netId 101, explicitly selected)";
    let event = socket_event(change(None, true, false), 1, 2);
    assert_eq!(event.summary, format!("socket SynSent: {ends}"));
    assert_eq!(event.severity, EventSeverity::Notice);
    let event = socket_event(change(None, false, true), 1, 2);
    assert_eq!(event.summary, format!("socket closed: {ends}"));
    let event = socket_event(change(Some(TcpState::Close), false, false), 1, 2);
    assert_eq!(event.summary, format!("socket Close -> SynSent: {ends}"));
}

#[test]
fn a_snapshot_request_defaults_to_the_cheap_fields() {
    // Everything expensive is opt-in, so an empty request stays fast.
    let request = GetSnapshotRequest::default();
    assert!(!request.include_sockets);
    assert!(!request.include_firewall);
    assert!(!request.include_counters);
}

fn parts() -> SnapshotParts {
    SnapshotParts {
        kernel_release: "6.1".to_string(),
        interfaces: vec![],
        routes: vec![
            Route { table: 255, ..Default::default() },
            Route { table: 254, is_default: true, ..Default::default() },
        ],
        rules: Err("denied".to_string()),
        neighbors: Err("denied".to_string()),
        sockets: Ok(vec![Socket::default()]),
        firewall: Some(Default::default()),
        qdiscs: Ok(vec![Qdisc::default()]),
        sysctls: Some(Default::default()),
        counters: Some(Default::default()),
        namespaces: vec![],
        resolver: Default::default(),
    }
}

#[test]
fn a_snapshot_lists_what_failed() {
    let clock = Stopwatch::start();
    let cheap = collect_snapshot(&clock, GetSnapshotRequest::default(), parts());
    assert_eq!(cheap.collection_warnings, vec!["routing rules unavailable: denied".to_string()]);
    assert!(cheap.sockets.is_empty() && cheap.socket_summary.is_none() && cheap.firewall.is_none());
    assert_eq!(cheap.routes[0].table, 254);
    let full = collect_snapshot(&clock, self_test_request(), parts());
    assert_eq!(
        full.collection_warnings,
        vec![
            "routing rules unavailable: denied".to_string(),
            "neighbour table unavailable: denied".to_string(),
        ]
    );
    assert_eq!(full.socket_summary.as_ref().unwrap().total, 1);
    assert_eq!(full.qdiscs.len(), 1);
    assert!(full.firewall.is_some() && full.sysctls.is_some() && full.counters.is_some());
    let mut crowded = parts();
    crowded.rules = Ok(vec![]);
    crowded.sockets = Ok((0..4097).map(|_| Socket::default()).collect());
    let request = GetSnapshotRequest { include_sockets: true, ..Default::default() };
    let cut = collect_snapshot(&clock, request, crowded);
    assert_eq!(cut.sockets.len(), 4096);
    assert_eq!(
        cut.collection_warnings,
        vec!["the socket list was truncated at the daemon's row limit".to_string()]
    );
}

#[test]
fn newer_qdisc_statistics_count_over_older_ones() {
    let names = std::collections::HashMap::from([(3u32, "wlan0".to_string())]);
    let message = |attributes: Vec<TcAttribute>| TcMessage { index: 3, handle: 1, parent: 2, attributes };
    let old = || TcAttribute::Stats { bytes: 5, packets: 6, drops: 7, overlimits: 8 };
    let qdisc = qdisc_to_proto(
        message(vec![
            TcAttribute::Kind("fq_codel".to_string()),
            TcAttribute::Stats2(vec![
                TcStats2::Basic { bytes: 100, packets: 2 },
                TcStats2::Queue { qlen: 1, backlog: 60, drops: 0, requeues: 3, overlimits: 4 },
            ]),
            old(),
        ]),
        &names,
    )
    .unwrap();
    assert_eq!(qdisc.interface_name, "wlan0");
    assert_eq!((qdisc.bytes_sent, qdisc.packets_sent), (100, 2));
    assert_eq!((qdisc.drops, qdisc.overlimits, qdisc.requeues), (7, 8, 3));
    assert_eq!((qdisc.backlog_bytes, qdisc.backlog_packets), (60, 1));
    assert!(qdisc_to_proto(message(vec![old()]), &names).is_none());
}

fn args(list: &[&str]) -> Vec<String> {
    list.iter().map(|s| s.to_string()).collect()
}

fn refusal(list: &[&str]) -> String {
    match parse_args(&args(list)) {
        Err(words) => words,
        Ok(_) => "not refused".to_string(),
    }
}

#[test]
fn the_command_line_is_read() {
    let run = match parse_args(&args(&[
        "--socket",
        "/tmp/x.sock",
        "--allow-uid",
        "10401",
        "--allow-uid",
        "10402",
        "--expect-package",
        "com.example.shop",
        "--log",
        "debug",
        "--self-test",
    ])) {
        Ok(Invocation::Run(run)) => run,
        _ => panic!("the arguments are in order"),
    };
    assert_eq!(run.socket, SocketAddress::Path("/tmp/x.sock".to_string()));
    assert_eq!(run.policy.allowed_uids, vec![10401, 10402]);
    assert_eq!(run.socket_owner, Some(10401));
    assert_eq!(run.policy.expect_package, Some("com.example.shop".to_string()));
    assert_eq!(run.log_filter, "debug");
    assert!(run.self_test);
    match parse_args(&args(&[])) {
        Ok(Invocation::Run(run)) => {
            assert_eq!(run.socket, SocketAddress::Abstract("netdiag".to_string()));
            assert_eq!(run.log_filter, "info");
            assert!(run.policy.allowed_uids.is_empty() && run.socket_owner.is_none());
        }
        _ => panic!("no argument is needed"),
    }
    assert!(matches!(parse_args(&args(&["--help", "--nonsense"])), Ok(Invocation::Help)));
    assert!(matches!(parse_args(&args(&["--version"])), Ok(Invocation::Version)));
    assert_eq!(refusal(&["--socket"]), "--socket needs a value");
    assert_eq!(refusal(&["--allow-uid", "me"]), "--allow-uid: 'me' is not a uid");
    assert_eq!(refusal(&["--nonsense"]), "unknown argument '--nonsense'; try --help");
}

#[test]
fn the_self_test_prints_a_summary() {
    let snapshot = Snapshot {
        kernel_release: "6.1".to_string(),
        interfaces: vec![Interface {
            index: 3,
            name: "wlan0".to_string(),
            mtu: 1500,
            flags: Some(LinkFlags { up: true, ..Default::default() }),
            addresses: vec![LinkAddress {
                prefix: Some(IpPrefix::new(read_ip("10.0.0.2").unwrap(), 24)),
                ..Default::default()
            }],
            ..Default::default()
        }],
        routes: vec![Route {
            is_default: true,
            table: 1051,
            next_hops: vec![NextHop { out_interface_name: "tun0".to_string(), ..Default::default() }],
            ..Default::default()
        }],
        rules: vec![RoutingRule::default()],
        socket_summary: Some(SocketSummary { established: 4, ..Default::default() }),
        clat: Some(Clat464State::default()),
        collection_warnings: vec!["slow".to_string()],
        collection_duration_ms: 12,
        ..Default::default()
    };
    let lines = snapshot_report(&snapshot);
    assert_eq!(
        lines,
        vec![
            "netdiagd self-test".to_string(),
            "  kernel:            6.1".to_string(),
            "  collection took:   12 ms".to_string(),
            "  interfaces:        1".to_string(),
            format!("    {:<16} idx {:<3} mtu {:<5} {:<10} {}", "wlan0", 3, 1500, "UP", "10.0.0.2/24"),
            "  routes:            1".to_string(),
            format!("    default via {:<24} dev {:<14} table {}", "on-link", "tun0", 1051),
            "  rules:             1".to_string(),
            "  neighbours:        0".to_string(),
            "  sockets:           0".to_string(),
            "    established 4  syn-sent 0  listen 0  time-wait 0".to_string(),
            "  464xlat:           not active".to_string(),
            "  warning:           slow".to_string(),
        ]
    );
}

#[test]
fn the_diagnosis_prints_a_summary() {
    let report = DiagnoseResponse {
        passed: 1,
        failed: 2,
        total_duration_ms: 9,
        checks: vec![Check {
            key: "addr.v6".to_string(),
            status: CheckStatus::Fail,
            detail: "no address".to_string(),
            ..Default::default()
        }],
        summary: "IPv6 is off".to_string(),
        findings: vec![Finding {
            title: "IPv6 is off".to_string(),
            confidence: 90,
            interpretation: "one\n\ntwo".to_string(),
            suggested_actions: vec!["turn it on".to_string()],
            ..Default::default()
        }],
        ..Default::default()
    };
    assert_eq!(
        diagnosis_report(&report),
        vec![
            "  1 passed, 2 failed, 0 warned, 0 skipped in 9 ms".to_string(),
            format!("  [FAIL] {:<22} {}", "addr.v6", "no address"),
            "\n  IPv6 is off".to_string(),
            "\n  IPv6 is off (confidence 90%)\n    one\n    \n    two".to_string(),
            "    -> turn it on".to_string(),
        ]
    );
}
