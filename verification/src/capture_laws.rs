//! What a captured packet says, told by how one is built, and what a filter keeps.
use vstd::prelude::*;

use crate::capture::{
    decoded, flags_said, has_bytes, ip_offset, kept, le32, line, link_type_of, lists, nothing_said,
    packet_said, pcap_number, shows_frame, with_transport, Capture, CaptureEnd, CaptureProgress,
    PacketSaid, Received,
};
use crate::ip::IpAddr;
use crate::proto::{
    CaptureFilter, CapturedPacket, IpAddress, IpFamily, LinkType, PacketSummary,
    StartCaptureRequest,
};
use crate::text::{dec, starts_with};
use crate::wire::u16_at;

verus! {

// ---- Packets --------------------------------------------------------------------

/// Whether bytes are an IPv4 header, with the options that its length leaves room for.
pub open spec fn is_v4_header(h: Seq<u8>) -> bool {
    20 <= h.len() <= 60 && h.len() % 4 == 0 && h[0] == 0x40 + h.len() / 4
}

/// Whether bytes are an IPv6 header.
pub open spec fn is_v6_header(h: Seq<u8>) -> bool {
    h.len() == 40 && 0x60 <= h[0] < 0x70
}

/// The packet behind a header says what the header holds of it, and what its
/// transport adds.
proof fn lemma_v4(h: Seq<u8>, t: Seq<u8>)
    requires
        is_v4_header(h),
    ensures
        ({
            let s = decoded(h + t, LinkType::Raw);
            let head = PacketSaid {
                family: IpFamily::V4,
                ttl: h[8] as u32,
                ip_protocol: h[9] as u32,
                source: Some(h.subrange(12, 16)),
                destination: Some(h.subrange(16, 20)),
                ..nothing_said()
            };
            let all = with_transport(head, t, h[9], false);
            s == (PacketSaid { description: line(all), ..all })
        }),
{
    let ip = h + t;
    let n = (h.len() / 4) as int;
    assert(5 <= n <= 15);
    assert(ip[0] == 64 + n);
    assert((64 + n) % 16 == n && (64 + n) / 16 == 4);
    assert(ip.skip(0) =~= ip);
    assert(ip.skip(h.len() as int) =~= t);
    assert(ip.subrange(12, 16) =~= h.subrange(12, 16));
    assert(ip.subrange(16, 20) =~= h.subrange(16, 20));
    assert(ip[0] % 16 * 4 == h.len());
}

proof fn lemma_v6(h: Seq<u8>, t: Seq<u8>)
    requires
        is_v6_header(h),
    ensures
        ({
            let s = decoded(h + t, LinkType::Raw);
            let head = PacketSaid {
                family: IpFamily::V6,
                ttl: h[7] as u32,
                ip_protocol: h[6] as u32,
                source: Some(h.subrange(8, 24)),
                destination: Some(h.subrange(24, 40)),
                ..nothing_said()
            };
            let all = with_transport(head, t, h[6], true);
            s == (PacketSaid { description: line(all), ..all })
        }),
{
    let ip = h + t;
    assert(ip[0] == h[0]);
    assert(ip[0] / 16 == 6);
    assert(ip.skip(0) =~= ip);
    assert(ip.skip(40) =~= t);
    assert(ip.subrange(8, 24) =~= h.subrange(8, 24));
    assert(ip.subrange(24, 40) =~= h.subrange(24, 40));
}

/// An IPv4 packet says who sent it to whom, with what protocol and how far it may
/// still go, as its header holds it.
pub proof fn law_an_ipv4_header_is_read(h: Seq<u8>, t: Seq<u8>)
    requires
        is_v4_header(h),
    ensures
        ({
            let s = decoded(h + t, LinkType::Raw);
            &&& s.family == IpFamily::V4
            &&& s.ttl == h[8] && s.ip_protocol == h[9]
            &&& s.source == Some(seq![h[12], h[13], h[14], h[15]])
            &&& s.destination == Some(seq![h[16], h[17], h[18], h[19]])
        }),
{
    lemma_v4(h, t);
    assert(h.subrange(12, 16) =~= seq![h[12], h[13], h[14], h[15]]);
    assert(h.subrange(16, 20) =~= seq![h[16], h[17], h[18], h[19]]);
}

/// An IPv6 packet says the same of itself, from its own header.
pub proof fn law_an_ipv6_header_is_read(h: Seq<u8>, t: Seq<u8>)
    requires
        is_v6_header(h),
    ensures
        ({
            let s = decoded(h + t, LinkType::Raw);
            &&& s.family == IpFamily::V6
            &&& s.ttl == h[7] && s.ip_protocol == h[6]
            &&& s.source == Some(h.subrange(8, 24))
            &&& s.destination == Some(h.subrange(24, 40))
        }),
{
    lemma_v6(h, t);
}

/// The protocol that an IP header announces.
pub open spec fn protocol_of(h: Seq<u8>) -> u8 {
    if h.len() == 40 && h[0] >= 0x60 {
        h[6]
    } else {
        h[9]
    }
}

/// The ports of a TCP or UDP packet are the first two numbers behind its IP header, of
/// either family: the port it comes from, and then the port it goes to.
pub proof fn law_ports_are_read_in_their_order(h: Seq<u8>, t: Seq<u8>, from: u16, to: u16)
    requires
        is_v4_header(h) || is_v6_header(h),
        protocol_of(h) == 6 && t.len() >= 20 || protocol_of(h) == 17 && t.len() >= 8,
        t[0] == from / 256 && t[1] == from % 256,
        t[2] == to / 256 && t[3] == to % 256,
    ensures
        ({
            let s = decoded(h + t, LinkType::Raw);
            &&& s.source_port == from
            &&& s.destination_port == to
            &&& s.protocol_name == if protocol_of(h) == 6 {
                "TCP"@
            } else {
                "UDP"@
            }
        }),
{
    if is_v6_header(h) {
        lemma_v6(h, t);
    } else {
        lemma_v4(h, t);
    }
    assert(u16_at(t, 0) == from && u16_at(t, 2) == to);
}

/// A TCP packet tells its flags, its sequence number and its window; the flags are the
/// bits FIN, SYN, RST, PSH and ACK from the lowest on.
pub proof fn law_a_tcp_header_is_read(h: Seq<u8>, t: Seq<u8>)
    requires
        is_v4_header(h) || is_v6_header(h),
        protocol_of(h) == 6,
        t.len() >= 20,
    ensures
        ({
            let s = decoded(h + t, LinkType::Raw);
            let f = t[13];
            &&& s.fin <==> f & 1 != 0
            &&& s.syn <==> f & 2 != 0
            &&& s.rst <==> f & 4 != 0
            &&& s.psh <==> f & 8 != 0
            &&& s.ack <==> f & 16 != 0
            &&& s.tcp_seq == 0x100_0000 * t[4] + 0x1_0000 * t[5] + 0x100 * t[6] + t[7]
            &&& s.tcp_window == 0x100 * t[14] + t[15]
        }),
{
    if is_v6_header(h) {
        lemma_v6(h, t);
    } else {
        lemma_v4(h, t);
    }
}

/// A header that is cut short says nothing of ports.
pub proof fn law_a_cut_header_has_no_ports(h: Seq<u8>, t: Seq<u8>)
    requires
        is_v4_header(h) || is_v6_header(h),
        protocol_of(h) == 6 && t.len() < 20 || protocol_of(h) == 17 && t.len() < 8,
    ensures
        decoded(h + t, LinkType::Raw).source_port == 0,
        decoded(h + t, LinkType::Raw).destination_port == 0,
{
    if is_v6_header(h) {
        lemma_v6(h, t);
    } else {
        lemma_v4(h, t);
    }
}

/// An ICMP message tells its type and code. The next-hop MTU is the last number of
/// "fragmentation needed" over IPv4 (type 3, code 4), and the second of "packet too
/// big" over IPv6 (type 2); no other message has one.
pub proof fn law_an_icmp_message_is_read(h: Seq<u8>, t: Seq<u8>)
    requires
        is_v4_header(h) || is_v6_header(h),
        protocol_of(h) == if is_v6_header(h) {
            58u8
        } else {
            1u8
        },
        t.len() >= 8,
    ensures
        ({
            let s = decoded(h + t, LinkType::Raw);
            let v6 = is_v6_header(h);
            &&& s.message_type == t[0] && s.message_code == t[1]
            &&& s.source_port == 0 && s.destination_port == 0
            &&& !v6 && t[0] == 3 && t[1] == 4 ==> s.mtu == 0x100 * t[6] + t[7]
            &&& v6 && t[0] == 2 ==> s.mtu == 0x100_0000 * t[4] + 0x1_0000 * t[5] + 0x100 * t[6] + t[7]
            &&& !(!v6 && t[0] == 3 && t[1] == 4) && !(v6 && t[0] == 2) ==> s.mtu == 0
        }),
{
    if is_v6_header(h) {
        lemma_v6(h, t);
    } else {
        lemma_v4(h, t);
    }
}

/// A UDP packet is described as going from the one end to the other.
pub proof fn law_a_packet_is_described_from_its_source(s: PacketSaid, ip: IpAddr)
    requires
        s.protocol_name == "UDP"@ || s.protocol_name == "TCP"@,
        s.source == Some(ip.octets()),
    ensures
        starts_with(line(s), s.protocol_name + " "@ + ip.text() + ":"@ + dec(s.source_port as nat)),
{
    reveal_strlit("UDP");
    reveal_strlit("TCP");
    reveal_strlit("UDP ");
    reveal_strlit("TCP ");
    reveal_strlit(" ");
    crate::ip::law_address_bytes_round_trip(ip);
    assert("UDP"@ != "TCP"@) by {
        assert("UDP"@[0] != "TCP"@[0]);
    }
    assert("UDP"@ + " "@ =~= "UDP "@);
    assert("TCP"@ + " "@ =~= "TCP "@);
    let p = s.protocol_name + " "@ + ip.text() + ":"@ + dec(s.source_port as nat);
    assert(line(s).take(p.len() as int) =~= p);
}

/// An Ethernet frame holds an IP packet behind its header, or behind a VLAN tag; a frame
/// of ARP or of another protocol holds none.
pub proof fn law_where_a_frame_holds_a_packet(frame: Seq<u8>)
    requires
        frame.len() >= 18,
    ensures
        ({
            let kind = 0x100 * frame[12] + frame[13];
            &&& kind == 0x0800 || kind == 0x86dd ==> ip_offset(frame, LinkType::Ethernet) == Some(14int)
            &&& kind == 0x8100 ==> ip_offset(frame, LinkType::Ethernet) == Some(18int)
            &&& kind != 0x0800 && kind != 0x86dd && kind != 0x8100 ==> ip_offset(
                frame,
                LinkType::Ethernet,
            ) is None
            &&& kind == 0x0806 ==> decoded(frame, LinkType::Ethernet).protocol_name == "ARP"@
            &&& ip_offset(frame, LinkType::Raw) == Some(0int)
        }),
{
}

/// A summary says of a packet what stands in its fields.
pub proof fn law_a_summary_says_what_it_holds(s: PacketSummary)
    ensures
        ({
            let p = packet_said(s);
            &&& p.source_port == s.source_port && p.destination_port == s.destination_port
            &&& p.family == s.family && p.ip_protocol == s.ip_protocol && p.ttl == s.ttl
            &&& p.syn == s.syn && p.ack == s.ack && p.fin == s.fin && p.rst == s.rst && p.psh == s.psh
            &&& p.tcp_seq == s.tcp_seq && p.tcp_window == s.tcp_window
            &&& p.message_type == s.icmp_type && p.message_code == s.icmp_code && p.mtu == s.icmp_mtu
            &&& s.source matches Some(a) ==> p.source == Some(a.addr@)
            &&& s.destination matches Some(a) ==> p.destination == Some(a.addr@)
            &&& s.source is None ==> p.source is None
            &&& s.destination is None ==> p.destination is None
            &&& p.protocol_name == s.protocol_name@ && p.description == s.description@
        }),
{
}

/// The flags of a packet are named exactly where they are set.
pub proof fn law_flags_are_named_where_they_are_set(s: PacketSaid)
    ensures
        ({
            let names = flags_said(s);
            &&& names.contains("SYN"@) <==> s.syn
            &&& names.contains("ACK"@) <==> s.ack
            &&& names.contains("FIN"@) <==> s.fin
            &&& names.contains("RST"@) <==> s.rst
            &&& names.contains("PSH"@) <==> s.psh
        }),
{
    reveal_strlit("SYN");
    reveal_strlit("ACK");
    reveal_strlit("FIN");
    reveal_strlit("RST");
    reveal_strlit("PSH");
    assert("SYN"@[0] == 'S' && "ACK"@[0] == 'A' && "FIN"@[0] == 'F' && "RST"@[0] == 'R' && "PSH"@[0] == 'P');
    let names = flags_said(s);
    let a: int = if s.syn { 1 } else { 0 };
    let b: int = if s.ack { a + 1 } else { a };
    let c: int = if s.fin { b + 1 } else { b };
    let d: int = if s.rst { c + 1 } else { c };
    if s.syn {
        assert(names[0] == "SYN"@);
    }
    if s.ack {
        assert(names[a] == "ACK"@);
    }
    if s.fin {
        assert(names[b] == "FIN"@);
    }
    if s.rst {
        assert(names[c] == "RST"@);
    }
    if s.psh {
        assert(names[d] == "PSH"@);
    }
}

/// A frame is handed on with its own time, length and direction, and with its bytes
/// exactly if they are asked for; what it says is read from its bytes in either case.
pub proof fn law_a_frame_is_handed_on(
    p: CapturedPacket,
    capture: Capture,
    frame: Received,
    include_payload: bool,
)
    requires
        shows_frame(p, capture, frame, include_payload),
    ensures
        include_payload ==> p.data@ == frame.data@,
        !include_payload ==> p.data@.len() == 0,
        p.original_length == frame.length && p.outgoing == frame.outgoing && p.unix_ms == frame.unix_ms,
        frame.interface_index != 0 ==> p.interface_index == frame.interface_index,
        frame.interface_index == 0 ==> p.interface_index == capture.interface_index,
        p.summary matches Some(s) && packet_said(s) == decoded(frame.data@, capture.link_type),
{
}

// ---- Filters --------------------------------------------------------------------

/// Nothing constrains such a filter.
pub open spec fn is_open(f: CaptureFilter) -> bool {
    &&& !f.tcp && !f.udp && !f.icmp && !f.arp
    &&& f.families@.len() == 0 && f.hosts@.len() == 0 && f.ports@.len() == 0
}

/// What a filter asks of protocols, families, hosts and ports is asked of each by
/// itself: a packet is kept where each part alone keeps it.
pub proof fn law_parts_of_a_filter_are_independent(
    s: PacketSaid,
    f: CaptureFilter,
    protocols: CaptureFilter,
    families: CaptureFilter,
    hosts: CaptureFilter,
    ports: CaptureFilter,
)
    requires
        protocols.tcp == f.tcp && protocols.udp == f.udp && protocols.icmp == f.icmp && protocols.arp
            == f.arp,
        protocols.families@.len() == 0 && protocols.hosts@.len() == 0 && protocols.ports@.len() == 0,
        is_open(CaptureFilter { families: protocols.families, ..families }),
        families.families@ == f.families@,
        is_open(CaptureFilter { hosts: protocols.hosts, ..hosts }),
        hosts.hosts@ == f.hosts@,
        is_open(CaptureFilter { ports: protocols.ports, ..ports }),
        ports.ports@ == f.ports@,
    ensures
        kept(s, f) <==> kept(s, protocols) && kept(s, families) && kept(s, hosts) && kept(s, ports),
{
}

/// A filter of protocols keeps the packets of any that it names: TCP is 6, UDP is 17,
/// ICMP is 1 and 58, and ARP is no IP protocol.
pub proof fn law_protocols_are_kept_by_number(s: PacketSaid, f: CaptureFilter)
    requires
        f.tcp || f.udp || f.icmp || f.arp,
        f.families@.len() == 0 && f.hosts@.len() == 0 && f.ports@.len() == 0,
    ensures
        s.ip_protocol == 6 && s.protocol_name != "ARP"@ ==> (kept(s, f) <==> f.tcp),
        s.ip_protocol == 17 && s.protocol_name != "ARP"@ ==> (kept(s, f) <==> f.udp),
        (s.ip_protocol == 1 || s.ip_protocol == 58) && s.protocol_name != "ARP"@ ==> (kept(s, f) <==> f.icmp),
        s.ip_protocol == 0 && s.protocol_name == "ARP"@ ==> (kept(s, f) <==> f.arp),
        !(s.ip_protocol == 1 || s.ip_protocol == 6 || s.ip_protocol == 17 || s.ip_protocol == 58)
            && s.protocol_name != "ARP"@ ==> !kept(s, f),
{
}

/// A filter of families keeps the packets of those: 1 is IPv4 and 2 is IPv6.
pub proof fn law_families_are_kept_by_number(s: PacketSaid, f: CaptureFilter)
    requires
        f.families@.len() > 0,
        !f.tcp && !f.udp && !f.icmp && !f.arp && f.hosts@.len() == 0 && f.ports@.len() == 0,
    ensures
        s.family == IpFamily::V4 ==> (kept(s, f) <==> f.families@.contains(1)),
        s.family == IpFamily::V6 ==> (kept(s, f) <==> f.families@.contains(2)),
{
}

/// A filter of hosts keeps what comes from one of them or goes to one.
pub proof fn law_hosts_are_kept_at_either_end(s: PacketSaid, f: CaptureFilter)
    requires
        f.hosts@.len() > 0,
        !f.tcp && !f.udp && !f.icmp && !f.arp && f.families@.len() == 0 && f.ports@.len() == 0,
    ensures
        kept(s, f) <==> exists|i: int|
            0 <= i < f.hosts@.len() && (Some((#[trigger] f.hosts@[i]).addr@) == s.source || Some(
                f.hosts@[i].addr@,
            ) == s.destination),
{
    if s.source is Some {
        lemma_lists(f.hosts@, s.source->0);
    }
    if s.destination is Some {
        lemma_lists(f.hosts@, s.destination->0);
    }
}

proof fn lemma_lists(hosts: Seq<IpAddress>, bytes: Seq<u8>)
    ensures
        lists(hosts, Some(bytes)) <==> exists|i: int|
            0 <= i < hosts.len() && (#[trigger] hosts[i]).addr@ == bytes,
{
    if lists(hosts, Some(bytes)) {
        let i = choose|i: int| 0 <= i < hosts.len() && has_bytes(bytes)(#[trigger] hosts[i]);
        assert(hosts[i].addr@ == bytes);
    }
    if exists|i: int| 0 <= i < hosts.len() && (#[trigger] hosts[i]).addr@ == bytes {
        let i = choose|i: int| 0 <= i < hosts.len() && (#[trigger] hosts[i]).addr@ == bytes;
        assert(has_bytes(bytes)(hosts[i]));
    }
}

/// A filter of ports keeps what comes from one of them or goes to one.
pub proof fn law_ports_are_kept_at_either_end(s: PacketSaid, f: CaptureFilter)
    requires
        f.ports@.len() > 0,
        !f.tcp && !f.udp && !f.icmp && !f.arp && f.families@.len() == 0 && f.hosts@.len() == 0,
    ensures
        kept(s, f) <==> exists|i: int|
            0 <= i < f.ports@.len() && ((#[trigger] f.ports@[i]) == s.source_port || f.ports@[i]
                == s.destination_port),
{
    if f.ports@.contains(s.source_port) {
        let i = f.ports@.index_of(s.source_port);
        assert(f.ports@[i] == s.source_port);
    }
    if f.ports@.contains(s.destination_port) {
        let i = f.ports@.index_of(s.destination_port);
        assert(f.ports@[i] == s.destination_port);
    }
}

// ---- Files and limits -------------------------------------------------------------

/// Modems and tunnels deliver bare IP packets, whatever their number; what begins like
/// the other interfaces delivers Ethernet frames.
pub proof fn law_which_interfaces_deliver_bare_packets(rest: Seq<char>)
    ensures
        link_type_of("rmnet"@ + rest) == LinkType::Raw,
        link_type_of("ccmni"@ + rest) == LinkType::Raw,
        link_type_of("pdp"@ + rest) == LinkType::Raw,
        link_type_of("tun"@ + rest) == LinkType::Raw,
        link_type_of("v4-"@ + rest) == LinkType::Raw,
        link_type_of("ppp"@ + rest) == LinkType::Raw,
        link_type_of("wlan"@ + rest) == LinkType::Ethernet,
        link_type_of("eth"@ + rest) == LinkType::Ethernet,
        link_type_of("lo"@ + rest) == LinkType::Ethernet,
{
    reveal_strlit("rmnet");
    reveal_strlit("ccmni");
    reveal_strlit("pdp");
    reveal_strlit("tun");
    reveal_strlit("v4-");
    reveal_strlit("ppp");
    reveal_strlit("wlan");
    reveal_strlit("eth");
    reveal_strlit("lo");
    assert(("rmnet"@ + rest).take(5) =~= "rmnet"@);
    assert(("ccmni"@ + rest).take(5) =~= "ccmni"@);
    assert(("pdp"@ + rest).take(3) =~= "pdp"@);
    assert(("tun"@ + rest).take(3) =~= "tun"@);
    assert(("v4-"@ + rest).take(3) =~= "v4-"@);
    assert(("ppp"@ + rest).take(3) =~= "ppp"@);
    lemma_no_prefix("wlan"@ + rest);
    lemma_no_prefix("eth"@ + rest);
    lemma_no_prefix("lo"@ + rest);
}

proof fn lemma_no_prefix(name: Seq<char>)
    requires
        name.len() > 0,
        name[0] == 'w' || name[0] == 'e' || name[0] == 'l',
    ensures
        link_type_of(name) == LinkType::Ethernet,
{
    reveal_strlit("rmnet");
    reveal_strlit("ccmni");
    reveal_strlit("pdp");
    reveal_strlit("tun");
    reveal_strlit("v4-");
    reveal_strlit("ppp");
    if starts_with(name, "rmnet"@) {
        assert(name.take(5)[0] == "rmnet"@[0]);
    }
    if starts_with(name, "ccmni"@) {
        assert(name.take(5)[0] == "ccmni"@[0]);
    }
    if starts_with(name, "pdp"@) {
        assert(name.take(3)[0] == "pdp"@[0]);
    }
    if starts_with(name, "tun"@) {
        assert(name.take(3)[0] == "tun"@[0]);
    }
    if starts_with(name, "v4-"@) {
        assert(name.take(3)[0] == "v4-"@[0]);
    }
    if starts_with(name, "ppp"@) {
        assert(name.take(3)[0] == "ppp"@[0]);
    }
}

/// A number is written in a pcap file low byte first, and the link types have the
/// numbers that such files give them.
pub proof fn law_numbers_in_a_pcap_file(n: u32)
    ensures
        le32(n).len() == 4,
        le32(n)[0] + 0x100 * le32(n)[1] + 0x1_0000 * le32(n)[2] + 0x100_0000 * le32(n)[3] == n,
        pcap_number(LinkType::Ethernet) == 1,
        pcap_number(LinkType::Raw) == 101,
        pcap_number(LinkType::LinuxSll) == 113,
{
}

/// A capture goes on exactly while it has sent fewer packets than asked for and fewer
/// bytes; zero is no limit.
pub proof fn law_a_capture_runs_to_its_limits(p: CaptureProgress, request: StartCaptureRequest)
    ensures
        p.limit_of(request) is None <==> (request.max_packets == 0 || p.sent < request.max_packets) && (
        request.max_bytes == 0 || p.bytes < request.max_bytes),
        p.limit_of(request) == Some(CaptureEnd::MaxBytes) ==> p.bytes >= request.max_bytes,
        p.limit_of(request) == Some(CaptureEnd::MaxPackets) ==> p.sent >= request.max_packets,
        p.limit_of(request) matches Some(end) ==> end is MaxPackets || end is MaxBytes,
{
}

/// Packets that are delivered count one by one, and their bytes count in any case; the
/// capture ends with the first that is not delivered.
pub proof fn law_how_packets_count(
    before: CaptureProgress,
    length: u32,
    delivered: bool,
    after: CaptureProgress,
    r: Option<CaptureEnd>,
)
    requires
        before.counts(length, delivered, after, r),
    ensures
        after.bytes - before.bytes == length,
        delivered ==> after.sent - before.sent == 1 && r is None,
        !delivered ==> after.sent == before.sent && r == Some(CaptureEnd::ClientDisconnected),
{
}

} // verus!
