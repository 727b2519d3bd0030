use netdiag::format::{bytes, ip, route_line, rule_line, socket_tuple, time_of_day};
use netdiag::proto::{IpAddress, NextHop, Route, RoutingRule, Socket};

#[test]
fn formats_v4_and_v6_addresses() {
    let v4 = IpAddress { addr: vec![192, 168, 1, 1] };
    assert_eq!(ip(&v4), "192.168.1.1");

    let v6 = IpAddress {
        addr: vec![0x26, 0x06, 0x47, 0, 0x47, 0, 0, 0, 0, 0, 0, 0, 0, 0, 0x11, 0x11],
    };
    assert_eq!(ip(&v6), "2606:4700:4700::1111");
}

#[test]
fn an_unset_address_is_not_rendered_as_a_number() {
    assert_eq!(ip(&IpAddress::default()), "-");
}

#[test]
fn renders_a_default_route_like_ip_route() {
    let route = Route {
        is_default: true,
        table: 1051,
        next_hops: vec![NextHop { out_interface_name: "tun0".to_string(), ..Default::default() }],
        ..Default::default()
    };
    assert_eq!(route_line(&route), "default dev tun0");
}

#[test]
fn renders_a_gateway_route() {
    let route = Route {
        is_default: true,
        priority: 100,
        next_hops: vec![NextHop {
            gateway: Some(IpAddress { addr: vec![10, 77, 77, 1] }),
            out_interface_name: "wlan0".to_string(),
            ..Default::default()
        }],
        ..Default::default()
    };
    assert_eq!(route_line(&route), "default via 10.77.77.1 dev wlan0 metric 100");
}

#[test]
fn renders_an_inverted_uid_rule_like_ip_rule() {
    let rule = RoutingRule {
        priority: 16000,
        has_uid_range: true,
        uid_range_start: 10342,
        uid_range_end: 10342,
        invert: true,
        table: 1003,
        table_name: "vpn_fallthrough".to_string(),
        ..Default::default()
    };
    assert_eq!(rule_line(&rule), "16000: not uidrange 10342-10342 lookup vpn_fallthrough");
}

#[test]
fn renders_an_fwmark_rule() {
    let rule = RoutingRule {
        priority: 13000,
        has_fwmark: true,
        fwmark: 0xc0067,
        fwmask: 0xcffff,
        table: 1051,
        ..Default::default()
    };
    assert_eq!(rule_line(&rule), "13000: fwmark 0xc0067/0xcffff lookup 1051");
}

#[test]
fn a_listening_socket_has_no_remote() {
    let socket = Socket {
        local_address: Some(IpAddress { addr: vec![0, 0, 0, 0] }),
        local_port: 5555,
        ..Default::default()
    };
    assert_eq!(socket_tuple(&socket), "0.0.0.0:5555 -> *:*");
}

#[test]
fn time_of_day_keeps_milliseconds() {
    // 1970-01-01T01:02:03.456Z, at every offset of an hour.
    let utc_seconds = 3600 + 120 + 3i64;
    let ms = utc_seconds * 1000 + 456;
    for hours in -12..=14i64 {
        let offset = hours * 3600;
        let local = (utc_seconds + offset).rem_euclid(86_400);
        let expected = format!(
            "{:02}:{:02}:{:02}.456",
            local / 3600,
            (local % 3600) / 60,
            local % 60
        );
        assert_eq!(time_of_day(ms, offset as i32), expected);
    }
}

#[test]
fn time_of_day_is_local_not_utc() {
    let now = 1_757_000_000_i64;
    let utc_today = now.rem_euclid(86_400);
    let as_utc = format!(
        "{:02}:{:02}:{:02}.000",
        utc_today / 3600,
        (utc_today % 3600) / 60,
        utc_today % 60
    );
    assert_ne!(time_of_day(now * 1000, 3 * 3600), as_utc);
    assert_eq!(time_of_day(now * 1000, 0), as_utc);
}

#[test]
fn time_of_day_handles_negative_input_without_panicking() {
    // A device with a clock before the epoch is nonsense, but it must not
    // crash the timeline.
    let _ = time_of_day(-1, 0);
    assert_eq!(time_of_day(-1, 0), "23:59:59.999");
    let _ = time_of_day(i64::MIN, i32::MIN);
    let _ = time_of_day(i64::MAX, i32::MAX);
}

#[test]
fn formats_byte_sizes() {
    assert_eq!(bytes(512), "512 B");
    assert_eq!(bytes(2048), "2.0 KiB");
    assert_eq!(bytes(5 * 1024 * 1024), "5.0 MiB");
}

fn by_floating_point(value: u64) -> String {
    const KIB: f64 = 1024.0;
    let value = value as f64;
    if value < KIB {
        format!("{value:.0} B")
    } else if value < KIB * KIB {
        format!("{:.1} KiB", value / KIB)
    } else if value < KIB * KIB * KIB {
        format!("{:.1} MiB", value / (KIB * KIB))
    } else {
        format!("{:.2} GiB", value / (KIB * KIB * KIB))
    }
}

#[test]
fn sizes_round_like_floating_point_does() {
    for value in 0..200_000u64 {
        assert_eq!(bytes(value), by_floating_point(value), "{value}");
    }
    for shift in 17..64u32 {
        for low in [0u64, 1, 3, 1 << (shift / 2), (1 << shift) - 1, 0x5555_5555_5555_5555] {
            let value = (1u64 << shift) | (low & ((1 << shift) - 1));
            assert_eq!(bytes(value), by_floating_point(value), "{value}");
        }
    }
    // Ties, to the even digit.
    assert_eq!(bytes(1280), "1.2 KiB");
    assert_eq!(bytes(1792), "1.8 KiB");
    assert_eq!(bytes(u64::MAX), "17179869184.00 GiB");
}
