use netdiag::capture::{
    capture_duration_ms, decode, link_type_for, passes, pcap_header, Capture, CaptureEnd,
    CaptureProgress, Received,
};
use netdiag::ip_parse::read_ip;
use netdiag::proto::{
    CaptureFilter, IpAddress, IpFamily, LinkType, StartCaptureRequest,
};

/// IPv4 TCP SYN from 192.168.1.10:1234 to 1.1.1.1:443.
fn v4_tcp_syn() -> Vec<u8> {
    let mut p = vec![0u8; 20];
    p[0] = 0x45;
    p[8] = 64; // TTL
    p[9] = 6; // TCP
    p[12..16].copy_from_slice(&[192, 168, 1, 10]);
    p[16..20].copy_from_slice(&[1, 1, 1, 1]);
    let mut tcp = vec![0u8; 20];
    tcp[0..2].copy_from_slice(&1234u16.to_be_bytes());
    tcp[2..4].copy_from_slice(&443u16.to_be_bytes());
    tcp[13] = 0x02; // SYN
    tcp[14..16].copy_from_slice(&65535u16.to_be_bytes());
    p.extend_from_slice(&tcp);
    p
}

#[test]
fn decodes_a_raw_ip_tcp_packet() {
    let summary = decode(&v4_tcp_syn(), LinkType::Raw);
    assert_eq!(summary.protocol_name, "TCP");
    assert_eq!(summary.source_port, 1234);
    assert_eq!(summary.destination_port, 443);
    assert!(summary.syn);
    assert!(!summary.ack);
    assert_eq!(summary.ttl, 64);
    assert_eq!(summary.destination.as_ref().unwrap().display(), "1.1.1.1");
    assert!(summary.description.contains("SYN"), "{}", summary.description);
}

#[test]
fn strips_the_ethernet_header() {
    let mut frame = vec![0u8; 14];
    frame[12..14].copy_from_slice(&0x0800u16.to_be_bytes());
    frame.extend_from_slice(&v4_tcp_syn());
    let summary = decode(&frame, LinkType::Ethernet);
    assert_eq!(summary.source_port, 1234);
}

#[test]
fn recognises_arp() {
    let mut frame = vec![0u8; 14];
    frame[12..14].copy_from_slice(&0x0806u16.to_be_bytes());
    let summary = decode(&frame, LinkType::Ethernet);
    assert_eq!(summary.protocol_name, "ARP");
}

#[test]
fn extracts_the_next_hop_mtu_from_fragmentation_needed() {
    // ICMPv4 type 3 code 4 carrying an MTU of 1400.
    let mut p = vec![0u8; 20];
    p[0] = 0x45;
    p[9] = 1; // ICMP
    p[12..16].copy_from_slice(&[10, 0, 0, 1]);
    p[16..20].copy_from_slice(&[192, 168, 1, 10]);
    let mut icmp = vec![0u8; 8];
    icmp[0] = 3;
    icmp[1] = 4;
    icmp[6..8].copy_from_slice(&1400u16.to_be_bytes());
    p.extend_from_slice(&icmp);

    let summary = decode(&p, LinkType::Raw);
    assert_eq!(summary.protocol_name, "ICMP");
    assert_eq!(summary.icmp_mtu, 1400);
    assert!(summary.description.contains("1400"), "{}", summary.description);
}

#[test]
fn extracts_the_mtu_from_icmpv6_packet_too_big() {
    let mut p = vec![0u8; 40];
    p[0] = 0x60;
    p[6] = 58; // ICMPv6
    p[7] = 64;
    let mut icmp = vec![0u8; 8];
    icmp[0] = 2; // packet too big
    icmp[4..8].copy_from_slice(&1280u32.to_be_bytes());
    p.extend_from_slice(&icmp);

    let summary = decode(&p, LinkType::Raw);
    assert_eq!(summary.protocol_name, "ICMPv6");
    assert_eq!(summary.icmp_mtu, 1280);
}

#[test]
fn an_empty_filter_passes_everything() {
    let summary = decode(&v4_tcp_syn(), LinkType::Raw);
    assert!(passes(&summary, &CaptureFilter::default()));
}

#[test]
fn protocol_filter_excludes_other_protocols() {
    let summary = decode(&v4_tcp_syn(), LinkType::Raw);
    assert!(passes(&summary, &CaptureFilter { tcp: true, ..Default::default() }));
    assert!(!passes(&summary, &CaptureFilter { udp: true, ..Default::default() }));
}

#[test]
fn port_filter_matches_either_direction() {
    let summary = decode(&v4_tcp_syn(), LinkType::Raw);
    assert!(passes(&summary, &CaptureFilter { ports: vec![443], ..Default::default() }));
    assert!(passes(&summary, &CaptureFilter { ports: vec![1234], ..Default::default() }));
    assert!(!passes(&summary, &CaptureFilter { ports: vec![80], ..Default::default() }));
}

#[test]
fn host_filter_matches_either_endpoint() {
    let summary = decode(&v4_tcp_syn(), LinkType::Raw);
    let cloudflare = IpAddress::from_ip(read_ip("1.1.1.1").unwrap());
    assert!(passes(&summary, &CaptureFilter { hosts: vec![cloudflare], ..Default::default() }));
    let elsewhere = IpAddress::from_ip(read_ip("8.8.8.8").unwrap());
    assert!(!passes(&summary, &CaptureFilter { hosts: vec![elsewhere], ..Default::default() }));
}

#[test]
fn cellular_interfaces_capture_as_raw_ip() {
    // Getting this wrong produces a pcap that every analyser misreads.
    assert_eq!(link_type_for("rmnet_data0"), LinkType::Raw);
    assert_eq!(link_type_for("tun0"), LinkType::Raw);
    assert_eq!(link_type_for("v4-rmnet_data0"), LinkType::Raw);
    assert_eq!(link_type_for("wlan0"), LinkType::Ethernet);
}

#[test]
fn pcap_header_is_well_formed() {
    let header = pcap_header(LinkType::Ethernet, 65535);
    assert_eq!(&header[0..4], &0xa1b2c3d4u32.to_le_bytes());
    assert_eq!(u16::from_le_bytes([header[4], header[5]]), 2);
    assert_eq!(
        u32::from_le_bytes([header[16], header[17], header[18], header[19]]),
        65535
    );
    assert_eq!(
        u32::from_le_bytes([header[20], header[21], header[22], header[23]]),
        1
    );
}

#[test]
fn truncated_packets_do_not_panic() {
    for len in 0..40 {
        let data = vec![0x45u8; len];
        let _ = decode(&data, LinkType::Raw);
        let _ = decode(&data, LinkType::Ethernet);
    }
    for len in 0..44 {
        let mut data = vec![0u8; len];
        if !data.is_empty() {
            data[0] = 0x60;
        }
        let _ = decode(&data, LinkType::Raw);
    }
}

#[test]
fn a_decoded_line_names_both_ends_and_the_flags() {
    let mut p = v4_tcp_syn();
    p[20 + 13] = 0x12;
    let summary = decode(&p, LinkType::Raw);
    assert_eq!(summary.description, "TCP 192.168.1.10:1234 -> 1.1.1.1:443 [SYN,ACK]");
    assert_eq!(summary.tcp_window, 65535);
    assert_eq!(summary.family, IpFamily::V4);
}

#[test]
fn a_vlan_tag_takes_four_more_bytes() {
    let mut frame = vec![0u8; 18];
    frame[12..14].copy_from_slice(&0x8100u16.to_be_bytes());
    frame.extend_from_slice(&v4_tcp_syn());
    assert_eq!(decode(&frame, LinkType::Ethernet).destination_port, 443);
}

#[test]
fn an_unknown_protocol_is_named_by_its_number() {
    let mut p = v4_tcp_syn();
    p[9] = 47;
    let summary = decode(&p, LinkType::Raw);
    assert_eq!(summary.protocol_name, "IP proto 47");
    assert_eq!(summary.description, "IP proto 47 192.168.1.10 -> 1.1.1.1");
}

#[test]
fn a_capture_counts_what_it_keeps_and_what_it_drops() {
    let request = StartCaptureRequest { interface_name: "rmnet0".to_string(), ..Default::default() };
    let mut capture = Capture::open(&request, 7);
    assert_eq!(capture.link_type, LinkType::Raw);
    assert_eq!(capture.snaplen, 262_144);
    let frame = |data: Vec<u8>| Received {
        length: data.len() as u32,
        data,
        outgoing: true,
        interface_index: 0,
        unix_ms: 5,
        unix_us_fraction: 6,
    };
    let udp = CaptureFilter { udp: true, ..Default::default() };
    assert!(capture.take_in(frame(v4_tcp_syn()), &udp, true).is_none());
    let tcp = CaptureFilter { tcp: true, ..Default::default() };
    let packet = capture.take_in(frame(v4_tcp_syn()), &tcp, false).unwrap();
    assert_eq!(packet.sequence, 1);
    assert_eq!(packet.interface_index, 7);
    assert_eq!(packet.original_length, 40);
    assert!(packet.data.is_empty());
    let stats = capture.stats(3, 2);
    assert_eq!(stats.packets_captured, 1);
    assert_eq!(stats.packets_filtered_out, 1);
    assert_eq!(stats.bytes_captured, 40);
    assert_eq!(stats.packets_dropped_kernel, 2);
}

#[test]
fn a_capture_on_every_interface_is_cooked() {
    let capture = Capture::open(&StartCaptureRequest::default(), 9);
    assert_eq!(capture.link_type, LinkType::LinuxSll);
    assert_eq!(capture.interface_index, 0);
    assert_eq!(capture.interface_name, "any");
    let request = StartCaptureRequest {
        filter: Some(CaptureFilter { bpf_expression: "tcp".to_string(), ..Default::default() }),
        ..Default::default()
    };
    let started = capture.started(4, &request, 99);
    assert!(started.bpf_expression_ignored);
    assert_eq!(started.note, "this build filters in userspace and ignores bpf_expression");
    assert_eq!(started.pcap_file_header.len(), 24);
    assert_eq!(started.pcap_file_header[20], 113);
}

#[test]
fn a_capture_ends_at_its_limits() {
    let request = StartCaptureRequest { max_packets: 2, max_bytes: 100, ..Default::default() };
    let mut progress = CaptureProgress::new();
    assert_eq!(progress.limit_reached(&request), None);
    assert_eq!(progress.packet(40, true), None);
    assert_eq!(progress.packet(40, true), None);
    assert_eq!(progress.limit_reached(&request), Some(CaptureEnd::MaxPackets));
    let bytes_only = StartCaptureRequest { max_bytes: 80, ..Default::default() };
    assert_eq!(progress.limit_reached(&bytes_only), Some(CaptureEnd::MaxBytes));
    assert_eq!(progress.packet(1, false), Some(CaptureEnd::ClientDisconnected));
    assert_eq!(progress.sent, 2);
    assert_eq!(progress.bytes, 81);
    assert_eq!(CaptureEnd::MaxBytes.outcome(), "capture finished: max_bytes");
    assert_eq!(CaptureEnd::Duration.reason(), "duration");
    assert_eq!(CaptureEnd::Stopped.reason(), "stopped");
    assert_eq!(capture_duration_ms(&request), 60_000);
    let short = StartCaptureRequest { duration_ms: 5, ..Default::default() };
    assert_eq!(capture_duration_ms(&short), 5);
}
