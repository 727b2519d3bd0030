use netdiag::ip::{IpAddr, SocketAddr};
use netdiag::ip_parse::read_ip;
use netdiag::probe::dns::{
    decode_response, encode_query, extract_nat64_prefix, skip_name, DnsError, RCode, TYPE_A,
};
use netdiag::probe::icmp::{
    build_echo, checksum, matches_reply, IoFailure, SocketKind, ICMPV4_ECHO_REPLY,
    ICMPV4_ECHO_REQUEST, ICMPV6_ECHO_REQUEST,
};
use netdiag::probe::mtu::{candidate_mtus, payload_for_mtu, IPV6_MIN_MTU};
use netdiag::probe::tcp::{connect, ConnectOutcome};
use netdiag::probe::tls::{alert_name, classify_reply, client_hello, HelloReply};
use netdiag::probe::{ProbeContext, DEFAULT_TIMEOUT_MS};

#[test]
fn encodes_a_query() {
    let q = encode_query(0x1234, "example.com", TYPE_A).unwrap();
    assert_eq!(&q[0..2], &[0x12, 0x34]);
    assert_eq!(&q[2..4], &[0x01, 0x00]); // RD set
    assert_eq!(&q[4..6], &[0x00, 0x01]); // one question
    // 7"example" 3"com" 0
    assert_eq!(q[12], 7);
    assert_eq!(&q[13..20], b"example");
    assert_eq!(q[20], 3);
    assert_eq!(&q[21..24], b"com");
    assert_eq!(q[24], 0);
    assert_eq!(&q[25..27], &[0x00, 0x01]); // QTYPE A
}

#[test]
fn trailing_dot_does_not_produce_an_empty_label() {
    let with = encode_query(1, "example.com.", TYPE_A).unwrap();
    let without = encode_query(1, "example.com", TYPE_A).unwrap();
    assert_eq!(with, without);
}

#[test]
fn an_over_long_label_is_refused() {
    let name = "x".repeat(64);
    assert!(encode_query(1, &name, TYPE_A).is_err());
    assert!(encode_query(1, &"x".repeat(63), TYPE_A).is_ok());
}

#[test]
fn decodes_an_a_response() {
    let mut msg = Vec::new();
    msg.extend_from_slice(&0xabcdu16.to_be_bytes());
    msg.extend_from_slice(&0x8180u16.to_be_bytes()); // QR + RD + RA, NOERROR
    msg.extend_from_slice(&1u16.to_be_bytes());
    msg.extend_from_slice(&1u16.to_be_bytes());
    msg.extend_from_slice(&0u16.to_be_bytes());
    msg.extend_from_slice(&0u16.to_be_bytes());
    // Question: example.com A IN
    msg.push(7);
    msg.extend_from_slice(b"example");
    msg.push(3);
    msg.extend_from_slice(b"com");
    msg.push(0);
    msg.extend_from_slice(&TYPE_A.to_be_bytes());
    msg.extend_from_slice(&1u16.to_be_bytes());
    // Answer using a compression pointer back to the question name.
    msg.extend_from_slice(&[0xc0, 0x0c]);
    msg.extend_from_slice(&TYPE_A.to_be_bytes());
    msg.extend_from_slice(&1u16.to_be_bytes());
    msg.extend_from_slice(&300u32.to_be_bytes());
    msg.extend_from_slice(&4u16.to_be_bytes());
    msg.extend_from_slice(&[93, 184, 216, 34]);

    let reply = decode_response(&msg, 0xabcd, TYPE_A).unwrap();
    assert_eq!(reply.rcode, RCode::NoError);
    assert!(!reply.truncated);
    assert_eq!(reply.answer_count, 1);
    assert_eq!(reply.addresses, vec![IpAddr::V4([93, 184, 216, 34])]);
}

#[test]
fn rejects_a_mismatched_transaction_id() {
    let mut msg = vec![0u8; 12];
    msg[0] = 0x00;
    msg[1] = 0x01;
    assert!(decode_response(&msg, 0xabcd, TYPE_A).is_err());
}

#[test]
fn reports_nxdomain() {
    let mut msg = vec![0u8; 12];
    msg[0..2].copy_from_slice(&0x1111u16.to_be_bytes());
    msg[2..4].copy_from_slice(&0x8183u16.to_be_bytes()); // NXDOMAIN
    let reply = decode_response(&msg, 0x1111, TYPE_A).unwrap();
    assert_eq!(reply.rcode, RCode::NxDomain);
    assert!(reply.addresses.is_empty());
}

#[test]
fn a_broken_name_is_told_apart() {
    assert!(matches!(decode_response(&[0u8; 5], 0, TYPE_A), Err(DnsError::ShortHeader)));
    assert!(matches!(
        decode_response(&[0u8; 12], 7, TYPE_A),
        Err(DnsError::WrongId { got: 0, want: 7 })
    ));
    assert!(matches!(skip_name(&[3, b'a'], 0), Err(DnsError::NamePastEnd)));
    assert!(matches!(skip_name(&[0xc0], 0), Err(DnsError::TruncatedPointer)));
    assert!(matches!(skip_name(&[0xc0, 0], 0), Ok(2)));
    let labels: Vec<u8> = [1u8, b'x'].repeat(200);
    assert!(matches!(skip_name(&labels, 0), Err(DnsError::TooManyLabels)));
}

fn v6(text: &str) -> [u8; 16] {
    match read_ip(text) {
        Some(IpAddr::V6(bytes)) => bytes,
        other => panic!("{text} is not an IPv6 address: {other:?}"),
    }
}

#[test]
fn extracts_a_96_bit_nat64_prefix() {
    // 64:ff9b::/96 with 192.0.0.170 embedded in the last 32 bits.
    let (prefix, len) =
        extract_nat64_prefix(v6("64:ff9b::c000:00aa")).expect("prefix should be found");
    assert_eq!(len, 96);
    assert_eq!(prefix, v6("64:ff9b::"));
}

#[test]
fn a_native_aaaa_yields_no_nat64_prefix() {
    assert!(extract_nat64_prefix(v6("2606:4700:4700::1111")).is_none());
}

#[test]
fn checksum_of_a_known_packet() {
    // An echo request with a zeroed checksum field; the result folds to a value
    // that makes the whole buffer sum to 0xffff.
    let packet = build_echo(false, 0x1234, 1, b"abcdefgh", true);
    assert_eq!(checksum(&packet), 0, "a checksummed packet re-sums to zero");
}

#[test]
fn echo_header_layout_is_correct() {
    let packet = build_echo(false, 0xbeef, 7, b"xy", false);
    assert_eq!(packet[0], ICMPV4_ECHO_REQUEST);
    assert_eq!(packet[1], 0);
    assert_eq!(u16::from_be_bytes([packet[4], packet[5]]), 0xbeef);
    assert_eq!(u16::from_be_bytes([packet[6], packet[7]]), 7);
    assert_eq!(&packet[8..], b"xy");
}

#[test]
fn v6_echo_uses_the_v6_type() {
    let packet = build_echo(true, 1, 1, b"", false);
    assert_eq!(packet[0], ICMPV6_ECHO_REQUEST);
}

#[test]
fn matches_a_datagram_reply_by_sequence() {
    let mut reply = vec![ICMPV4_ECHO_REPLY, 0, 0, 0, 0x12, 0x34, 0x00, 0x05];
    reply.extend_from_slice(b"payload");
    assert!(matches_reply(&reply, false, SocketKind::Datagram, 5));
    assert!(!matches_reply(&reply, false, SocketKind::Datagram, 6));
}

#[test]
fn skips_the_ip_header_on_raw_sockets() {
    // Minimal 20-byte IPv4 header (IHL = 5) followed by an echo reply.
    let mut packet = vec![0x45u8; 20];
    packet[0] = 0x45;
    packet.extend_from_slice(&[ICMPV4_ECHO_REPLY, 0, 0, 0, 0x12, 0x34, 0x00, 0x09]);
    assert!(matches_reply(&packet, false, SocketKind::Raw, 9));
}

#[test]
fn an_echo_request_is_not_mistaken_for_a_reply() {
    let request = build_echo(false, 1, 3, b"", true);
    assert!(!matches_reply(&request, false, SocketKind::Datagram, 3));
}

#[test]
fn context_describes_its_pinning() {
    let ctx = ProbeContext::with_timeout(0)
        .pinned_to_net_id(101)
        .on_device("wlan0".to_string());
    let text = ctx.describe();
    assert!(text.contains("netId 101"), "{text}");
    assert!(text.contains("wlan0"), "{text}");
}

#[test]
fn unpinned_context_says_so() {
    assert_eq!(ProbeContext::with_timeout(0).describe(), "default network");
}

#[test]
fn net_id_zero_does_not_set_a_mark() {
    // netId 0 means "no network", not "network zero"; marking with it would
    // route the probe into a table that does not exist.
    assert!(ProbeContext::with_timeout(0).pinned_to_net_id(0).mark.is_none());
}

#[test]
fn default_timeout_is_applied() {
    assert_eq!(ProbeContext::with_timeout(0).timeout_ms, DEFAULT_TIMEOUT_MS);
    assert_eq!(ProbeContext::with_timeout(500).timeout_ms, 500);
}

#[test]
fn payload_accounts_for_headers() {
    assert_eq!(payload_for_mtu(1500, false), 1500 - 28);
    assert_eq!(payload_for_mtu(1500, true), 1500 - 48);
}

#[test]
fn payload_never_underflows() {
    assert_eq!(payload_for_mtu(10, false), 0);
}

#[test]
fn candidates_are_descending_and_deduped() {
    let candidates = candidate_mtus(1500, false);
    assert_eq!(candidates[0], 1500);
    let mut sorted = candidates.clone();
    sorted.sort_unstable_by(|a, b| b.cmp(a));
    assert_eq!(candidates, sorted);
    sorted.dedup();
    assert_eq!(candidates.len(), sorted.len());
}

#[test]
fn v6_candidates_stop_at_the_minimum_mtu() {
    // Sending below 1280 on IPv6 is not a legal thing to discover.
    assert!(candidate_mtus(1500, true).into_iter().all(|m| m >= IPV6_MIN_MTU));
}

#[test]
fn a_small_interface_mtu_bounds_the_search() {
    // A 1400-byte link cannot send a 1500-byte probe at all.
    let candidates = candidate_mtus(1400, false);
    assert_eq!(candidates[0], 1400);
    assert!(!candidates.contains(&1500));
}

#[test]
fn client_hello_is_a_well_formed_record() {
    let hello = client_hello("example.com", 11, 12);
    assert_eq!(hello[0], 0x16, "content type must be handshake");
    let record_len = u16::from_be_bytes([hello[3], hello[4]]) as usize;
    assert_eq!(record_len, hello.len() - 5, "record length must match");
    assert_eq!(hello[5], 0x01, "handshake type must be ClientHello");
    let handshake_len =
        ((hello[6] as usize) << 16) | ((hello[7] as usize) << 8) | hello[8] as usize;
    assert_eq!(handshake_len, hello.len() - 9);
}

#[test]
fn sni_is_included_for_hostnames_and_omitted_for_literals() {
    let with_name = client_hello("example.com", 1, 2);
    assert!(
        with_name.windows(11).any(|w| w == b"example.com"),
        "SNI should carry the hostname"
    );
    // An IP literal is not a legal SNI value, so it must be left out.
    let with_literal = client_hello("1.1.1.1", 1, 2);
    assert!(!with_literal.windows(7).any(|w| w == b"1.1.1.1"));
}

#[test]
fn recognises_a_server_hello() {
    let reply = [0x16, 0x03, 0x03, 0x00, 0x2a, 0x02, 0x00];
    assert_eq!(classify_reply(&reply), HelloReply::ServerHello);
}

#[test]
fn recognises_an_alert() {
    let reply = [0x15, 0x03, 0x03, 0x00, 0x02, 0x02, 40];
    assert_eq!(classify_reply(&reply), HelloReply::Alert { level: 2, description: 40 });
    assert_eq!(alert_name(40), "handshake_failure");
}

#[test]
fn plain_http_response_is_not_tls() {
    assert_eq!(classify_reply(b"HTTP/1.1 400"), HelloReply::NotTls);
}

fn target() -> SocketAddr {
    SocketAddr { ip: IpAddr::V4([127, 0, 0, 1]), port: 443 }
}

#[test]
fn connects_to_a_local_listener() {
    let ctx = ProbeContext::with_timeout(2000);
    let result = connect(target(), &ctx, &ConnectOutcome::Connected(None), 3);
    assert!(result.ok, "{}", result.detail);
    assert_eq!(result.duration_ms, 3);
}

#[test]
fn refused_connections_are_reported_as_such() {
    let ctx = ProbeContext::with_timeout(2000);
    let refused = IoFailure { errno: Some(111), message: "Connection refused".to_string() };
    let result = connect(target(), &ctx, &ConnectOutcome::Failed(refused), 1);
    assert!(!result.ok);
    assert!(
        result.detail.contains("refused") || result.detail.contains("timed out"),
        "unexpected detail: {}",
        result.detail
    );
    let late = connect(target(), &ctx, &ConnectOutcome::TimedOut, 2000);
    assert!(!late.ok && late.detail.contains("timed out"), "{}", late.detail);
}
