use netdiag::capture::{decode, passes};
use netdiag::codec::{read_frame, write_frame, FrameError};
use netdiag::ip::IpAddr;
use netdiag::ip_parse::read_ip;
use netdiag::ipc::auth::AuthPolicy;
use netdiag::platform::start::quote;
use netdiag::probe::icmp::checksum;
use netdiag::proto::{
    AddressScope, CaptureFilter, GetSnapshotRequest, IpAddress, IpFamily, LinkKind, LinkType,
    NetworkNamespace, PrivateDnsMode,
};
use netdiag::snapshot::{collect_snapshot, SnapshotParts};
use netdiag::text::{
    dec_string, hex_string, join_texts, lines_of, parse_i32, parse_u32, sdec_string,
    sort_dedup_texts, split_text, split_text_once, strip_text_prefix, trim_text, words_of,
};
use netdiag::textmap::TextMap;
use netdiag::util::{
    format_mac, hex_pairs, mark_for_net_id, net_id_from_mark, now_unix_ms, read_i32, well_known_table_name,
    Stopwatch,
};

#[test]
fn addresses_are_read_and_written() {
    for text in [
        "0.0.0.0", "255.255.255.255", "::", "::1", "fe80::1", "2001:db8::1:0:0:1",
        "1:0:0:2::3", "::ffff:192.0.2.1", "2606:4700:4700::1111",
    ] {
        assert_eq!(read_ip(text).unwrap().to_text(), text);
    }
    for text in [
        "", "1.2.3", "1.2.3.4.5", "256.1.1.1", "01.2.3.4", "1.2.3.4 ", ":", ":::", "1::2::3",
        "12345::", "g::", "1:2:3:4:5:6:7:8:9", "::1.2.3", "fe80::1%wlan0",
    ] {
        assert_eq!(read_ip(text), None, "{text}");
    }
}

#[test]
fn an_address_is_its_bytes() {
    for address in [IpAddr::V4([1, 2, 3, 4]), IpAddr::V6([7; 16])] {
        assert_eq!(IpAddr::from_bytes(&address.to_vec()), Some(address));
    }
    for len in 0..20usize {
        let bytes = vec![9u8; len];
        match IpAddr::from_bytes(&bytes) {
            Some(address) => assert_eq!(address.to_vec(), bytes),
            None => assert!(len != 4 && len != 16),
        }
        assert_eq!(IpAddress { addr: bytes }.is_set(), len == 4 || len == 16);
    }
}

#[test]
fn texts_are_taken_apart_and_put_together() {
    for text in ["", ",", "a", "a,b", ",a,,b,"] {
        let pieces = split_text(text, ',');
        assert_eq!(pieces, text.split(',').collect::<Vec<_>>());
        assert_eq!(join_texts(&pieces, ","), text);
    }
    assert_eq!(lines_of("a\nb\r\n\nc"), ["a", "b", "", "c"]);
    assert_eq!(words_of("  a\tb \n c "), ["a", "b", "c"]);
    assert_eq!(trim_text(" \t a b\n"), "a b");
    assert_eq!(split_text_once("a=b=c", '='), Some(("a".to_string(), "b=c".to_string())));
    assert_eq!(split_text_once("abc", '='), None);
    assert_eq!(strip_text_prefix("netdiag", "net"), Some("diag".to_string()));
    let list = ["b", "a", "b"].iter().map(|s| s.to_string()).collect();
    assert_eq!(sort_dedup_texts(list), ["a", "b"]);
}

#[test]
fn numbers_are_written_and_read() {
    for n in [0u64, 9, 10, 255, 65_535, u64::MAX] {
        assert_eq!(dec_string(n), n.to_string());
        assert_eq!(hex_string(n), format!("{n:x}"));
    }
    for n in [i64::MIN, -1, 0, i64::MAX] {
        assert_eq!(sdec_string(n), n.to_string());
    }
    for text in ["", "+", "-", "0", "+7", "-7", "4294967295", "4294967296", "1_000", "0x1"] {
        assert_eq!(parse_u32(text), text.parse::<u32>().ok(), "{text}");
        assert_eq!(parse_i32(text), text.parse::<i32>().ok(), "{text}");
    }
}

#[test]
fn a_map_of_texts_keeps_one_value_for_each_key() {
    let mut map = TextMap::new();
    map.insert("b".to_string(), "1".to_string());
    map.insert("a".to_string(), "2".to_string());
    map.insert("b".to_string(), "3".to_string());
    assert_eq!(map.get("b"), Some("3"));
    assert_eq!(map.get("c"), None);
    assert_eq!(map.entries.len(), 2);
    assert!(map.is_valid());
    map.entries.push(("b".to_string(), String::new()));
    assert!(!map.is_valid());
}

#[test]
fn a_mark_keeps_the_network() {
    for net_id in [0u32, 1, 101, 65_535, 65_536, 0xffff_ffff] {
        assert_eq!(net_id_from_mark(mark_for_net_id(net_id)), net_id & 0xffff);
    }
    assert_eq!(well_known_table_name(97), Some("local_network"));
    assert_eq!(well_known_table_name(96), None);
    assert_eq!(format_mac(&[]), "");
    assert_eq!(format_mac(&[0x00, 0x1a, 0x2b, 0x3c, 0x4d, 0xff]), "00:1a:2b:3c:4d:ff");
    assert_eq!(format_mac(&[0x0a]), "");
    assert_eq!(format_mac(&[0, 255, 16]), "");
    assert_eq!(format_mac(&[1; 20]), "");
    assert_eq!(hex_pairs(&[0, 255, 16]), "00:ff:10");
    assert_eq!(read_i32(&Some("7 8".to_string())), Some(7));
    assert_eq!(read_i32(&Some("x".to_string())), None);
}

#[test]
fn clocks_run_forward() {
    let clock = Stopwatch::start();
    let before = now_unix_ms();
    let first = clock.elapsed_ms();
    assert!(clock.elapsed_ms() >= first);
    // Some time after 2020.
    assert!(before > 1_577_836_800_000 && now_unix_ms() >= before);
}

#[test]
fn a_large_packet_has_a_checksum() {
    assert_eq!(checksum(&vec![0xff; 0x2_0000]), 0);
    assert_eq!(checksum(&[]), 0xffff);
    assert_eq!(checksum(&[0x12]), !0x1200);
}

/// What a shell reads between single quotes that were escaped.
fn unquote(quoted: &str) -> String {
    quoted.replace("'\\''", "'")
}

#[test]
fn quoting_keeps_the_text() {
    for text in ["", "plain", "it's", "''", "a'b'c", "$HOME `x` \\"] {
        assert_eq!(unquote(&quote(text)), text);
    }
}

#[test]
fn a_frame_that_is_cut_is_no_clean_end() {
    let frame = write_frame(&[7u8; 200]);
    for cut in 1..frame.len() {
        let error = read_frame(&frame[..cut], 0).err().unwrap();
        assert_eq!(
            error,
            if cut < 2 { FrameError::EndInLength } else { FrameError::ShortBody }
        );
    }
    assert!(read_frame(&frame[..0], 0).unwrap().is_none());
}

#[test]
fn a_filter_keeps_the_answer_too() {
    let packet = |from: [u8; 4], to: [u8; 4], sport: u16, dport: u16| {
        let mut p = vec![0u8; 28];
        p[0] = 0x45;
        p[9] = 17;
        p[12..16].copy_from_slice(&from);
        p[16..20].copy_from_slice(&to);
        p[20..22].copy_from_slice(&sport.to_be_bytes());
        p[22..24].copy_from_slice(&dport.to_be_bytes());
        decode(&p, LinkType::Raw)
    };
    let (a, b) = ([10, 0, 0, 2], [8, 8, 8, 8]);
    for filter in [
        CaptureFilter { ports: vec![53], ..Default::default() },
        CaptureFilter { ports: vec![54], ..Default::default() },
        CaptureFilter { hosts: vec![IpAddress { addr: b.to_vec() }], ..Default::default() },
        CaptureFilter { tcp: true, ..Default::default() },
        CaptureFilter { families: vec![IpFamily::V4.number()], ..Default::default() },
        CaptureFilter { families: vec![7], ..Default::default() },
    ] {
        assert_eq!(
            passes(&packet(a, b, 4000, 53), &filter),
            passes(&packet(b, a, 53, 4000), &filter)
        );
    }
    let families = |families: Vec<i32>| {
        passes(&packet(a, b, 1, 2), &CaptureFilter { families, ..Default::default() })
    };
    assert!(families(vec![7, 1]) && !families(vec![7]) && !families(vec![2]));
}

#[test]
fn a_snapshot_without_warnings_is_complete() {
    let parts = SnapshotParts {
        kernel_release: "6.1".to_string(),
        interfaces: vec![],
        routes: vec![],
        rules: Ok(vec![]),
        neighbors: Ok(vec![]),
        sockets: Err("denied".to_string()),
        firewall: None,
        qdiscs: Err("denied".to_string()),
        sysctls: None,
        counters: None,
        namespaces: vec![NetworkNamespace::default()],
        resolver: Default::default(),
    };
    // What was not asked for is not missed.
    let request = GetSnapshotRequest { include_neighbors: true, ..Default::default() };
    let snapshot = collect_snapshot(&Stopwatch::start(), request, parts);
    assert!(snapshot.collection_warnings.is_empty());
    assert_eq!(snapshot.namespaces.len(), 1);
    assert!(snapshot.resolver.is_some() && snapshot.clat.is_some());
}

#[test]
fn by_default_root_alone_may_connect() {
    let policy = AuthPolicy::default();
    assert!(policy.uid_allowed(0) && !policy.uid_allowed(10_000));
    assert_eq!(policy.describe(), "uids=[0]");
}

#[test]
fn names_are_those_of_the_variants() {
    assert_eq!(LinkKind::VpnTun.name(), "VpnTun");
    assert_eq!(AddressScope::Nowhere.name(), "Nowhere");
    assert_eq!(PrivateDnsMode::Strict.name(), "Strict");
}
