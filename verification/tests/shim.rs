use netdiag::platform::desktop::{
    desktop_help, parse_desktop_args, DesktopInvocation, DesktopPlatform,
};
use netdiag::platform::shim::{
    event_kind, event_severity, framework_event, java_kind, java_severity, parse_framework_snapshot,
    parse_packages, transport,
};
use netdiag::platform::start::{quote, start_command};
use netdiag::proto::{
    EventSeverity, EventSource, FrameworkEventKind, NetworkEventPayload, PrivateDnsMode, Transport,
};

#[test]
fn the_table_matches_the_java_shim() {
    assert_eq!(1, java_kind::AVAILABLE);
    assert_eq!(2, java_kind::LOST);
    assert_eq!(3, java_kind::LOSING);
    assert_eq!(4, java_kind::IPV6_CHANGED);
    assert_eq!(5, java_kind::BLOCKED_CHANGED);
    assert_eq!(6, java_kind::VALIDATION_CHANGED);
    assert_eq!(7, java_kind::DNS_CHANGED);

    assert_eq!(1, java_severity::INFO);
    assert_eq!(2, java_severity::NOTICE);
    assert_eq!(3, java_severity::WARNING);
}

#[test]
fn every_java_kind_maps_to_a_real_wire_value() {
    for kind in [
        java_kind::AVAILABLE,
        java_kind::LOST,
        java_kind::LOSING,
        java_kind::IPV6_CHANGED,
        java_kind::BLOCKED_CHANGED,
        java_kind::VALIDATION_CHANGED,
        java_kind::DNS_CHANGED,
    ] {
        assert_ne!(
            event_kind(kind),
            FrameworkEventKind::Unspecified,
            "java kind {kind} has no wire mapping"
        );
    }
}

#[test]
fn an_unknown_value_degrades_instead_of_panicking() {
    // A shim from the future must not take the app down.
    assert_eq!(event_kind(9999), FrameworkEventKind::Unspecified);
    assert_eq!(event_severity(9999), EventSeverity::Info);
}

/// A tab separates fields, and a newline records.
#[test]
fn package_separators_match_the_java() {
    assert_eq!(parse_packages("1\t0\ta\tA\n2\t0\tb\tB").len(), 2);
    assert!(parse_packages("1 0 a A").is_empty());
}

#[test]
fn capability_names_match_the_java() {
    for name in [
        "INTERNET", "VALIDATED", "CAPTIVE_PORTAL", "NOT_RESTRICTED", "NOT_METERED",
        "NOT_ROAMING", "NOT_CONGESTED", "NOT_SUSPENDED", "NOT_VPN", "TRUSTED", "FOREGROUND",
    ] {
        let text = format!("V\t1\t34\t0\t0\nN\t1\t\t{name}\twlan0\n");
        let state = parse_framework_snapshot(&text).unwrap();
        let caps = state.networks[0].capabilities.as_ref().unwrap();
        let read = [
            ("INTERNET", caps.internet),
            ("VALIDATED", caps.validated),
            ("CAPTIVE_PORTAL", caps.captive_portal),
            ("NOT_RESTRICTED", caps.not_restricted),
            ("NOT_METERED", caps.not_metered),
            ("NOT_ROAMING", caps.not_roaming),
            ("NOT_CONGESTED", caps.not_congested),
            ("NOT_SUSPENDED", caps.not_suspended),
            ("NOT_VPN", caps.not_vpn),
            ("TRUSTED", caps.trusted),
            ("FOREGROUND", caps.foreground),
        ];
        for (other, set) in read {
            assert_eq!(set, other == name, "{other} after {name}");
        }
    }
}

#[test]
fn transport_names_match_the_java() {
    for name in ["CELLULAR", "WIFI", "BLUETOOTH", "ETHERNET", "VPN", "USB"] {
        assert!(transport(name).is_some(), "{name} has no wire mapping");
    }
    assert!(transport("LOWPAN").is_none());
}

#[test]
fn parses_a_framework_snapshot() {
    let text = "V\t1\t34\t476741369856\t1\n\
                N\t476741369856\tWIFI,VPN\tINTERNET,VALIDATED,NOT_METERED\ttun0\t1280\t0\t\texample.com\t1.1.1.1,fd3f::1\n\
                N\t455266533376\tCELLULAR\tINTERNET\trmnet16\t1500\t1\tdns.example\t\t8.8.8.8\n";
    let state = parse_framework_snapshot(text).expect("should parse");

    assert_eq!(state.sdk_int, 34);
    assert_eq!(state.active_net_id, 111);
    assert!(state.has_active_network);
    assert_eq!(state.networks.len(), 2);

    let vpn = &state.networks[0];
    assert!(vpn.is_default);
    assert_eq!(vpn.transports, vec![Transport::Wifi, Transport::Vpn]);
    let caps = vpn.capabilities.as_ref().unwrap();
    assert!(caps.validated && caps.internet && caps.not_metered);
    assert!(!caps.not_vpn, "NOT_VPN was absent, so it must read as false");

    let link = vpn.link_properties.as_ref().unwrap();
    assert_eq!(link.interface_name, "tun0");
    assert_eq!(link.mtu, 1280);
    assert_eq!(link.domains, vec!["example.com"]);
    // 1.1.1.1 as four bytes, fd3f::1 as sixteen.
    assert_eq!(link.dns_servers.len(), 2);
    assert_eq!(link.dns_servers[0].addr, vec![1, 1, 1, 1]);
    assert_eq!(link.dns_servers[1].addr.len(), 16);

    let cell = &state.networks[1];
    assert!(!cell.is_default);
    let cell_link = cell.link_properties.as_ref().unwrap();
    assert_eq!(cell_link.private_dns_server_name, "dns.example");
    assert_eq!(cell_link.private_dns_mode, PrivateDnsMode::Strict);
}

#[test]
fn an_unknown_format_version_is_refused_rather_than_misread() {
    // Better no framework state — the daemon reports SKIP — than a state
    // parsed from a layout this build does not understand.
    assert!(parse_framework_snapshot("V\t2\t34\t0\t0\n").is_none());
}

#[test]
fn a_snapshot_needs_its_header() {
    assert!(parse_framework_snapshot("N\t1\tWIFI\n").is_none());
    assert!(parse_framework_snapshot("V\t1\t34\t0\n").is_none());
    assert!(parse_framework_snapshot("").is_none());
    let saver = parse_framework_snapshot("V\t1\t34\t0\t3\nN\tx\tWIFI\n").unwrap();
    assert!(saver.data_saver_enabled && saver.networks.is_empty());
}

#[test]
fn a_link_local_dns_address_keeps_its_scope_out_of_the_bytes() {
    let text = "V\t1\t34\t0\t0\nN\t4294967296\t\t\twlan0\t1500\t0\t\t\tfe80::1%wlan0\n";
    let state = parse_framework_snapshot(text).expect("should parse");
    let dns = &state.networks[0].link_properties.as_ref().unwrap().dns_servers;
    assert_eq!(dns.len(), 1, "the scope must not make the address unparseable");
    assert_eq!(dns[0].addr.len(), 16);
}

#[test]
fn parses_a_package_listing() {
    let apps = parse_packages("10400\t0\tcom.example.shop\tShop\n1000\t1\tandroid\tSystem\n");
    assert_eq!(apps.len(), 2);
    assert_eq!(apps[0].uid, 10400);
    assert_eq!(apps[0].package, "com.example.shop");
    assert_eq!(apps[0].label, "Shop");
    assert!(!apps[0].is_system);
    assert!(apps[1].is_system);
}

#[test]
fn user_apps_sort_first_then_by_label_ignoring_case() {
    let apps = parse_packages(
        "1\t1\tsys.a\tAaa system\n2\t0\tcom.z\tzebra\n3\t0\tcom.a\tApple\n4\t1\tsys.b\tBbb system\n",
    );
    let order: Vec<&str> = apps.iter().map(|a| a.label.as_str()).collect();
    // "Apple" before "zebra" needs the case-insensitive compare; a plain sort
    // puts every capital letter ahead of every lowercase one.
    assert_eq!(order, ["Apple", "zebra", "Aaa system", "Bbb system"]);
}

#[test]
fn a_label_may_contain_spaces_and_be_empty() {
    let apps = parse_packages("101\t0\tcom.a\tSome Long Name\n102\t0\tcom.b\t\n");
    // Looked up by package, because the result is sorted by label.
    let find = |package: &str| {
        apps.iter()
            .find(|a| a.package == package)
            .unwrap_or_else(|| panic!("{package} is missing"))
    };
    assert_eq!(find("com.a").label, "Some Long Name");
    // An empty label falls back to something a person can still act on.
    assert_eq!(find("com.b").label, "com.b");
}

#[test]
fn a_broken_line_drops_only_itself() {
    let apps = parse_packages("not-a-uid\t0\tcom.a\tA\n10\t0\tcom.b\tB\n\n");
    assert_eq!(apps.len(), 1);
    assert_eq!(apps[0].package, "com.b");
}

#[test]
fn a_callback_becomes_an_event_of_the_framework() {
    let event = framework_event(
        java_kind::LOST,
        java_severity::WARNING,
        476741369856,
        "wlan0 lost".to_string(),
    );
    assert_eq!(event.source, EventSource::Framework);
    assert_eq!(event.severity, EventSeverity::Warning);
    match event.payload {
        Some(NetworkEventPayload::Framework(e)) => {
            assert_eq!(e.kind, FrameworkEventKind::Lost);
            assert_eq!(e.current_net_id, 111);
        }
        other => panic!("unexpected payload {other:?}"),
    }
}

#[test]
fn the_start_command_quotes_what_it_is_given() {
    assert_eq!(quote("it's"), "it'\\''s");
    assert_eq!(
        start_command("/data/lib/libnetdiagd.so", "com.example.shop", 10401),
        "nohup '/data/lib/libnetdiagd.so' --socket @netdiag --allow-uid 10401 \
         --expect-package 'com.example.shop' >/dev/null 2>&1 &"
    );
}

#[test]
fn the_desktop_has_no_framework() {
    let desktop = DesktopPlatform {};
    assert!(desktop.framework_state().is_none());
    assert!(desktop.installed_apps().is_empty());
    assert_eq!(desktop.app_uid_floor(), 1_000);
    assert!(desktop.describe().starts_with("desktop harness"));
}

#[test]
fn the_desktop_ignores_what_it_does_not_know() {
    let args: Vec<String> =
        ["--connect", "--tab", "2", "--what", "--snapshot", "a.png", "--settle-ms", "x", "--capture"]
            .iter()
            .map(|s| s.to_string())
            .collect();
    match parse_desktop_args(&args) {
        DesktopInvocation::Run(a, ignored) => {
            assert!(a.connect && !a.diagnose);
            assert_eq!(a.tab, 2);
            assert_eq!(a.snapshot, Some("a.png".to_string()));
            assert_eq!(a.settle_ms, 2500);
            assert_eq!(a.save_delay_ms(), 2300);
            assert_eq!(a.capture, None);
            assert_eq!(ignored, vec!["--what".to_string()]);
        }
        DesktopInvocation::Help => panic!("no help was asked for"),
    }
    assert!(desktop_help().contains("[--diagnose] [--capture IFACE] [--save-capture]\n\nRuns"));
    assert!(matches!(parse_desktop_args(&vec!["-h".to_string()]), DesktopInvocation::Help));
}
