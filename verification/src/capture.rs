//! Packet capture from real interfaces: what a captured frame says, which
//! frames are kept, and when a capture ends.
//!
//! Frames come from a packet socket and not from a VPN's tun, which could not
//! run beside the VPN that is usually being debugged and would only ever see
//! what is routed into it. Filtering happens here, on the decoded headers.
use vstd::prelude::*;

use crate::ip::IpAddr;
use crate::proto::{
    optional_bytes, CaptureFilter, CaptureFinished, CaptureStarted, CaptureStats, CapturedPacket,
    IpAddress, IpFamily, LinkType, PacketSummary, StartCaptureRequest,
};
use crate::seqs::{any, contains_number, position_of};
use crate::text::{
    dec, dec_string, is_empty, join, join_texts, same, starts_with, text_starts_with, texts,
};
use crate::wire::{read_u16, read_u32, u16_at, u32_at};

verus! {

pub const DEFAULT_SNAPLEN: u32 = 262_144;

/// How long a capture runs where the request does not say.
pub const DEFAULT_CAPTURE_DURATION_MS: u64 = 60_000;

// ---- Decoding ---------------------------------------------------------------

/// What a packet's headers say.
#[verifier::ext_equal]
pub struct PacketSaid {
    pub family: IpFamily,
    pub source: Option<Seq<u8>>,
    pub destination: Option<Seq<u8>>,
    pub ip_protocol: u32,
    pub protocol_name: Seq<char>,
    pub source_port: u32,
    pub destination_port: u32,
    pub ttl: u32,
    pub syn: bool,
    pub ack: bool,
    pub fin: bool,
    pub rst: bool,
    pub psh: bool,
    pub tcp_seq: u32,
    pub tcp_window: u32,
    pub message_type: u32,
    pub message_code: u32,
    pub mtu: u32,
    pub description: Seq<char>,
}

pub open spec fn packet_said(s: PacketSummary) -> PacketSaid {
    PacketSaid {
        family: s.family,
        source: optional_bytes(s.source),
        destination: optional_bytes(s.destination),
        ip_protocol: s.ip_protocol,
        protocol_name: s.protocol_name@,
        source_port: s.source_port,
        destination_port: s.destination_port,
        ttl: s.ttl,
        syn: s.syn,
        ack: s.ack,
        fin: s.fin,
        rst: s.rst,
        psh: s.psh,
        tcp_seq: s.tcp_seq,
        tcp_window: s.tcp_window,
        message_type: s.icmp_type,
        message_code: s.icmp_code,
        mtu: s.icmp_mtu,
        description: s.description@,
    }
}

/// A packet of which nothing was understood.
pub open spec fn nothing_said() -> PacketSaid {
    PacketSaid {
        family: IpFamily::Unspecified,
        source: None,
        destination: None,
        ip_protocol: 0,
        protocol_name: ""@,
        source_port: 0,
        destination_port: 0,
        ttl: 0,
        syn: false,
        ack: false,
        fin: false,
        rst: false,
        psh: false,
        tcp_seq: 0,
        tcp_window: 0,
        message_type: 0,
        message_code: 0,
        mtu: 0,
        description: ""@,
    }
}

/// What the transport header adds. A header that is cut short adds only the
/// protocol's name.
pub open spec fn with_transport(s: PacketSaid, payload: Seq<u8>, protocol: u8, v6: bool) -> PacketSaid {
    if protocol == 6 {
        let s = PacketSaid { protocol_name: "TCP"@, ..s };
        if payload.len() < 20 {
            s
        } else {
            PacketSaid {
                source_port: u16_at(payload, 0) as u32,
                destination_port: u16_at(payload, 2) as u32,
                tcp_seq: u32_at(payload, 4) as u32,
                fin: payload[13] & 0x01 != 0,
                syn: payload[13] & 0x02 != 0,
                rst: payload[13] & 0x04 != 0,
                psh: payload[13] & 0x08 != 0,
                ack: payload[13] & 0x10 != 0,
                tcp_window: u16_at(payload, 14) as u32,
                ..s
            }
        }
    } else if protocol == 17 {
        let s = PacketSaid { protocol_name: "UDP"@, ..s };
        if payload.len() < 8 {
            s
        } else {
            PacketSaid {
                source_port: u16_at(payload, 0) as u32,
                destination_port: u16_at(payload, 2) as u32,
                ..s
            }
        }
    } else if protocol == 1 || protocol == 58 {
        let s = PacketSaid {
            protocol_name: if v6 {
                "ICMPv6"@
            } else {
                "ICMP"@
            },
            ..s
        };
        if payload.len() < 8 {
            s
        } else {
            PacketSaid {
                message_type: payload[0] as u32,
                message_code: payload[1] as u32,
                mtu: next_hop_mtu(payload, v6),
                ..s
            }
        }
    } else {
        PacketSaid { protocol_name: "IP proto "@ + dec(protocol as nat), ..s }
    }
}

/// The next-hop MTU of an ICMP message: "fragmentation needed" and "packet too
/// big" carry it, the direct evidence for an MTU problem. Zero for any other.
pub open spec fn next_hop_mtu(message: Seq<u8>, v6: bool) -> u32 {
    if v6 && message[0] == 2 {
        u32_at(message, 4) as u32
    } else if !v6 && message[0] == 3 && message[1] == 4 {
        u16_at(message, 6) as u32
    } else {
        0
    }
}

/// What an IPv4 packet says. One that is shorter than its header says nothing.
pub open spec fn v4_said(ip: Seq<u8>) -> PacketSaid {
    let header = ip[0] % 16 * 4;
    if ip.len() < 20 || ip.len() < header {
        nothing_said()
    } else {
        let s = PacketSaid {
            family: IpFamily::V4,
            ttl: ip[8] as u32,
            ip_protocol: ip[9] as u32,
            source: Some(ip.subrange(12, 16)),
            destination: Some(ip.subrange(16, 20)),
            ..nothing_said()
        };
        with_transport(s, ip.skip(header), ip[9], false)
    }
}

/// What an IPv6 packet says. Extension headers are not walked; the next-header
/// value is reported as it is.
pub open spec fn v6_said(ip: Seq<u8>) -> PacketSaid {
    if ip.len() < 40 {
        nothing_said()
    } else {
        let s = PacketSaid {
            family: IpFamily::V6,
            ttl: ip[7] as u32,
            ip_protocol: ip[6] as u32,
            source: Some(ip.subrange(8, 24)),
            destination: Some(ip.subrange(24, 40)),
            ..nothing_said()
        };
        with_transport(s, ip.skip(40), ip[6], true)
    }
}

/// Where the IP packet of a frame begins.
pub open spec fn ip_offset(frame: Seq<u8>, link_type: LinkType) -> Option<int> {
    if link_type is Ethernet {
        if frame.len() < 14 {
            None
        } else if u16_at(frame, 12) == 0x0800 || u16_at(frame, 12) == 0x86dd {
            Some(14)
        } else if u16_at(frame, 12) == 0x8100 && frame.len() >= 18 {
            // A VLAN tag takes four more bytes.
            Some(18)
        } else {
            None
        }
    } else {
        Some(0)
    }
}

pub open spec fn is_arp_frame(frame: Seq<u8>, link_type: LinkType) -> bool {
    link_type is Ethernet && frame.len() >= 14 && u16_at(frame, 12) == 0x0806
}

pub open spec fn endpoint_text(a: Option<Seq<u8>>) -> Seq<char> {
    match a {
        Some(bytes) => match IpAddr::of(bytes) {
            Some(ip) => ip.text(),
            None => "-"@,
        },
        None => ""@,
    }
}

/// The names of the TCP flags that are set.
pub open spec fn flags_said(s: PacketSaid) -> Seq<Seq<char>> {
    let a = if s.syn {
        seq!["SYN"@]
    } else {
        Seq::empty()
    };
    let b = if s.ack {
        a.push("ACK"@)
    } else {
        a
    };
    let c = if s.fin {
        b.push("FIN"@)
    } else {
        b
    };
    let d = if s.rst {
        c.push("RST"@)
    } else {
        c
    };
    if s.psh {
        d.push("PSH"@)
    } else {
        d
    }
}

/// A packet in one line.
pub open spec fn line(s: PacketSaid) -> Seq<char> {
    let src = endpoint_text(s.source);
    let dst = endpoint_text(s.destination);
    let name = s.protocol_name;
    if name == "TCP"@ {
        "TCP "@ +
            src +
            ":"@ +
            dec(s.source_port as nat) +
            " -> "@ +
            dst +
            ":"@ +
            dec(s.destination_port as nat) +
            " ["@ +
            join(flags_said(s), ","@) +
            "]"@
    } else if name == "UDP"@ {
        "UDP "@ +
            src +
            ":"@ +
            dec(s.source_port as nat) +
            " -> "@ +
            dst +
            ":"@ +
            dec(s.destination_port as nat)
    } else if starts_with(name, "ICMP"@) {
        if s.mtu > 0 {
            name +
                " "@ +
                src +
                " -> "@ +
                dst +
                " type "@ +
                dec(s.message_type as nat) +
                " code "@ +
                dec(s.message_code as nat) +
                " next-hop MTU "@ +
                dec(s.mtu as nat)
        } else {
            name +
                " "@ +
                src +
                " -> "@ +
                dst +
                " type "@ +
                dec(s.message_type as nat) +
                " code "@ +
                dec(s.message_code as nat)
        }
    } else if name.len() == 0 {
        ""@
    } else {
        name + " "@ + src + " -> "@ + dst
    }
}

/// What a frame says: addresses, ports, flags, and the ICMP types that explain
/// MTU problems.
pub open spec fn decoded(frame: Seq<u8>, link_type: LinkType) -> PacketSaid {
    if is_arp_frame(frame, link_type) {
        PacketSaid { protocol_name: "ARP"@, description: "ARP"@, ..nothing_said() }
    } else {
        match ip_offset(frame, link_type) {
            None => nothing_said(),
            Some(at) => {
                let ip = frame.skip(at);
                if ip.len() == 0 {
                    nothing_said()
                } else {
                    let s = if ip[0] / 16 == 4 {
                        v4_said(ip)
                    } else if ip[0] / 16 == 6 {
                        v6_said(ip)
                    } else {
                        nothing_said()
                    };
                    PacketSaid { description: line(s), ..s }
                }
            },
        }
    }
}

pub(crate) fn empty_summary() -> (r: PacketSummary)
    ensures
        packet_said(r) == nothing_said(),
{
    PacketSummary {
        family: IpFamily::Unspecified,
        source: None,
        destination: None,
        ip_protocol: 0,
        protocol_name: String::from_str(""),
        source_port: 0,
        destination_port: 0,
        ttl: 0,
        syn: false,
        ack: false,
        fin: false,
        rst: false,
        psh: false,
        tcp_seq: 0,
        tcp_window: 0,
        icmp_type: 0,
        icmp_code: 0,
        icmp_mtu: 0,
        description: String::from_str(""),
    }
}

/// The bytes of an address in a packet.
fn address_in(data: &[u8], from: usize, to: usize) -> (r: Option<IpAddress>)
    requires
        from <= to <= data@.len(),
    ensures
        optional_bytes(r) == Some(data@.subrange(from as int, to as int)),
{
    let mut addr: Vec<u8> = Vec::new();
    let mut i = from;
    while i < to
        invariant
            from <= i <= to <= data@.len(),
            addr@ == data@.subrange(from as int, i as int),
        decreases to - i,
    {
        addr.push(data[i]);
        i += 1;
        assert(addr@ =~= data@.subrange(from as int, i as int));
    }
    Some(IpAddress { addr })
}

/// Decode enough of the packet for a list view: addresses, ports, flags, and
/// the ICMP types that explain MTU problems.
pub fn decode(data: &[u8], link_type: LinkType) -> (r: PacketSummary)
    ensures
        packet_said(r) == decoded(data@, link_type),
{
    let mut summary = empty_summary();
    let mut at: usize = 0;
    if link_type == LinkType::Ethernet {
        if data.len() < 14 {
            return summary;
        }
        let ethertype = read_u16(data, 12);
        if ethertype == 0x0800 || ethertype == 0x86dd {
            at = 14;
        } else if ethertype == 0x0806 {
            summary.protocol_name = String::from_str("ARP");
            summary.description = String::from_str("ARP");
            return summary;
        } else if ethertype == 0x8100 && data.len() >= 18 {
            at = 18;
        } else {
            return summary;
        }
    }
    let ghost ip = data@.skip(at as int);
    if data.len() == at {
        return summary;
    }
    assert(ip[0] == data@[at as int]);
    let version = data[at] / 16;
    if version == 4 {
        decode_v4(data, at, &mut summary);
    } else if version == 6 {
        decode_v6(data, at, &mut summary);
    }
    summary.description = describe(&summary);
    summary
}

fn decode_v4(data: &[u8], at: usize, summary: &mut PacketSummary)
    requires
        at < data@.len(),
        packet_said(*old(summary)) == nothing_said(),
    ensures
        packet_said(*final(summary)) == v4_said(data@.skip(at as int)),
{
    let ghost ip = data@.skip(at as int);
    let len = data.len() - at;
    if len < 20 {
        return;
    }
    let header = (data[at] % 16) as usize * 4;
    if len < header {
        return;
    }
    summary.family = IpFamily::V4;
    summary.ttl = data[at + 8] as u32;
    summary.ip_protocol = data[at + 9] as u32;
    summary.source = address_in(data, at + 12, at + 16);
    summary.destination = address_in(data, at + 16, at + 20);
    assert(data@.subrange(at + 12, at + 16) =~= ip.subrange(12, 16));
    assert(data@.subrange(at + 16, at + 20) =~= ip.subrange(16, 20));
    assert(data@.skip(at + header) =~= ip.skip(header as int));
    decode_l4(data, at + header, data[at + 9], summary, false);
}

fn decode_v6(data: &[u8], at: usize, summary: &mut PacketSummary)
    requires
        at < data@.len(),
        packet_said(*old(summary)) == nothing_said(),
    ensures
        packet_said(*final(summary)) == v6_said(data@.skip(at as int)),
{
    let ghost ip = data@.skip(at as int);
    let len = data.len() - at;
    if len < 40 {
        return;
    }
    summary.family = IpFamily::V6;
    summary.ttl = data[at + 7] as u32;
    summary.ip_protocol = data[at + 6] as u32;
    summary.source = address_in(data, at + 8, at + 24);
    summary.destination = address_in(data, at + 24, at + 40);
    assert(data@.subrange(at + 8, at + 24) =~= ip.subrange(8, 24));
    assert(data@.subrange(at + 24, at + 40) =~= ip.subrange(24, 40));
    assert(data@.skip(at + 40) =~= ip.skip(40));
    decode_l4(data, at + 40, data[at + 6], summary, true);
}

/// The bytes from a place on.
pub open spec fn from(data: Seq<u8>, at: usize) -> Seq<u8> {
    data.skip(at as int)
}

fn byte(b: u8) -> (r: u32)
    ensures
        r == b,
{
    b as u32
}

fn byte_at(data: &[u8], at: usize) -> (r: u32)
    requires
        at < data@.len(),
    ensures
        r == data@[at as int],
{
    data[at] as u32
}

fn short_at(data: &[u8], at: usize) -> (r: u32)
    requires
        at + 1 < data@.len(),
    ensures
        r == u16_at(data@, at as int),
{
    read_u16(data, at) as u32
}

fn number(n: u32) -> (r: String)
    ensures
        r@ == dec(n as nat),
{
    dec_string(n as u64)
}

fn decode_l4(data: &[u8], at: usize, protocol: u8, summary: &mut PacketSummary, v6: bool)
    requires
        at <= data@.len(),
        old(summary).icmp_mtu == 0,
    ensures
        packet_said(*final(summary)) == with_transport(
            packet_said(*old(summary)),
            from(data@, at),
            protocol,
            v6,
        ),
{
    let ghost payload = from(data@, at);
    assert(forall|i: int| 0 <= i < payload.len() ==> #[trigger] payload[i] == data@[at + i]);
    let len = data.len() - at;
    if protocol == 6 {
        summary.protocol_name = String::from_str("TCP");
        if len < 20 {
            return;
        }
        summary.source_port = short_at(data, at);
        summary.destination_port = short_at(data, at + 2);
        summary.tcp_seq = read_u32(data, at + 4);
        let flags = data[at + 13];
        summary.fin = flags & 0x01 != 0;
        summary.syn = flags & 0x02 != 0;
        summary.rst = flags & 0x04 != 0;
        summary.psh = flags & 0x08 != 0;
        summary.ack = flags & 0x10 != 0;
        summary.tcp_window = short_at(data, at + 14);
    } else if protocol == 17 {
        summary.protocol_name = String::from_str("UDP");
        if len < 8 {
            return;
        }
        summary.source_port = short_at(data, at);
        summary.destination_port = short_at(data, at + 2);
    } else if protocol == 1 || protocol == 58 {
        summary.protocol_name = if v6 {
            String::from_str("ICMPv6")
        } else {
            String::from_str("ICMP")
        };
        if len < 8 {
            return;
        }
        summary.icmp_type = byte_at(data, at);
        summary.icmp_code = byte_at(data, at + 1);
        if v6 && data[at] == 2 {
            summary.icmp_mtu = read_u32(data, at + 4);
        } else if !v6 && data[at] == 3 && data[at + 1] == 4 {
            summary.icmp_mtu = short_at(data, at + 6);
        }
    } else {
        let number = number(byte(protocol));
        summary.protocol_name = String::from_str("IP proto ").concat(number.as_str());
    }
}

fn show_endpoint(a: &Option<IpAddress>) -> (r: String)
    ensures
        r@ == endpoint_text(optional_bytes(*a)),
{
    match a {
        Some(a) => a.display(),
        None => String::from_str(""),
    }
}

pub(crate) fn flag_names(s: &PacketSummary) -> (r: Vec<String>)
    ensures
        texts(r@) == flags_said(packet_said(*s)),
{
    let mut flags: Vec<String> = Vec::new();
    if s.syn {
        flags.push(String::from_str("SYN"));
    }
    if s.ack {
        flags.push(String::from_str("ACK"));
    }
    if s.fin {
        flags.push(String::from_str("FIN"));
    }
    if s.rst {
        flags.push(String::from_str("RST"));
    }
    if s.psh {
        flags.push(String::from_str("PSH"));
    }
    assert(texts(flags@) =~= flags_said(packet_said(*s)));
    flags
}

/// A packet in one line.
pub fn describe(summary: &PacketSummary) -> (r: String)
    ensures
        r@ == line(packet_said(*summary)),
{
    let src = show_endpoint(&summary.source);
    let dst = show_endpoint(&summary.destination);
    let name = summary.protocol_name.as_str();
    let source_port = number(summary.source_port);
    let destination_port = number(summary.destination_port);
    if same(name, "TCP") {
        let flags = join_texts(&flag_names(summary), ",");
        return String::from_str("TCP ")
            .concat(src.as_str())
            .concat(":")
            .concat(source_port.as_str())
            .concat(" -> ")
            .concat(dst.as_str())
            .concat(":")
            .concat(destination_port.as_str())
            .concat(" [")
            .concat(flags.as_str())
            .concat("]");
    }
    if same(name, "UDP") {
        return String::from_str("UDP ")
            .concat(src.as_str())
            .concat(":")
            .concat(source_port.as_str())
            .concat(" -> ")
            .concat(dst.as_str())
            .concat(":")
            .concat(destination_port.as_str());
    }
    if text_starts_with(name, "ICMP") {
        let kind = number(summary.icmp_type);
        let code = number(summary.icmp_code);
        return if summary.icmp_mtu > 0 {
            let mtu = number(summary.icmp_mtu);
            String::from_str(name)
                .concat(" ")
                .concat(src.as_str())
                .concat(" -> ")
                .concat(dst.as_str())
                .concat(" type ")
                .concat(kind.as_str())
                .concat(" code ")
                .concat(code.as_str())
                .concat(" next-hop MTU ")
                .concat(mtu.as_str())
        } else {
            String::from_str(name)
                .concat(" ")
                .concat(src.as_str())
                .concat(" -> ")
                .concat(dst.as_str())
                .concat(" type ")
                .concat(kind.as_str())
                .concat(" code ")
                .concat(code.as_str())
        };
    }
    if is_empty(name) {
        return String::from_str("");
    }
    String::from_str(name)
        .concat(" ")
        .concat(src.as_str())
        .concat(" -> ")
        .concat(dst.as_str())
}

/// A frame behind an Ethernet header says what the bare packet says.
pub proof fn law_ethernet_header_is_stripped(header: Seq<u8>, ip: Seq<u8>)
    requires
        header.len() == 14,
        u16_at(header, 12) == 0x0800 || u16_at(header, 12) == 0x86dd,
    ensures
        decoded(header + ip, LinkType::Ethernet) == decoded(ip, LinkType::Raw),
{
    let frame = header + ip;
    assert(u16_at(frame, 12) == u16_at(header, 12));
    assert(frame.skip(14) =~= ip);
    assert(ip.skip(0) =~= ip);
}

// ---- Filtering ----------------------------------------------------------------

/// Whether an address has these bytes.
pub open spec fn has_bytes(bytes: Seq<u8>) -> spec_fn(IpAddress) -> bool {
    |h: IpAddress| h.addr@ == bytes
}

/// Whether the listed hosts hold an endpoint.
pub open spec fn lists(hosts: Seq<IpAddress>, endpoint: Option<Seq<u8>>) -> bool {
    match endpoint {
        Some(bytes) => any(hosts, has_bytes(bytes)),
        None => false,
    }
}

/// Whether a filter keeps a packet. Protocols, families, hosts and ports each
/// constrain only where one is given, and a host or port may be at either end.
pub open spec fn kept(s: PacketSaid, filter: CaptureFilter) -> bool {
    &&& filter.tcp || filter.udp || filter.icmp || filter.arp ==> {
        ||| filter.tcp && s.ip_protocol == 6
        ||| filter.udp && s.ip_protocol == 17
        ||| filter.icmp && (s.ip_protocol == 1 || s.ip_protocol == 58)
        ||| filter.arp && s.protocol_name == "ARP"@
    }
    &&& filter.families@.len() > 0 ==> filter.families@.contains(s.family.number_of())
    &&& filter.hosts@.len() > 0 ==> lists(filter.hosts@, s.source) || lists(
        filter.hosts@,
        s.destination,
    )
    &&& filter.ports@.len() > 0 ==> filter.ports@.contains(s.source_port)
        || filter.ports@.contains(s.destination_port)
}

fn same_bytes(a: &Vec<u8>, b: &Vec<u8>) -> (r: bool)
    ensures
        r == (a@ == b@),
{
    if a.len() != b.len() {
        return false;
    }
    let mut i: usize = 0;
    while i < a.len()
        invariant
            i <= a.len(),
            a.len() == b.len(),
            forall|k: int| 0 <= k < i ==> a@[k] == b@[k],
        decreases a.len() - i,
    {
        if a[i] != b[i] {
            return false;
        }
        i += 1;
    }
    assert(a@ =~= b@);
    true
}

fn lists_endpoint(hosts: &Vec<IpAddress>, endpoint: &Option<IpAddress>) -> (r: bool)
    ensures
        r == lists(hosts@, optional_bytes(*endpoint)),
{
    match endpoint {
        None => false,
        Some(e) => {
            let equal = |h: &IpAddress| -> (b: bool)
                ensures
                    b == has_bytes(e.addr@)(*h),
                { same_bytes(&h.addr, &e.addr) };
            position_of(hosts, equal, Ghost(has_bytes(e.addr@))).is_some()
        },
    }
}

fn lists_family(list: &Vec<i32>, family: IpFamily) -> (r: bool)
    ensures
        r == list@.contains(family.number_of()),
{
    let number = family.number();
    let mut i: usize = 0;
    while i < list.len()
        invariant
            i <= list.len(),
            number == family.number_of(),
            forall|k: int| 0 <= k < i ==> list@[k] != number,
        decreases list.len() - i,
    {
        if list[i] == number {
            return true;
        }
        i += 1;
    }
    false
}

/// Apply the filter to a decoded summary. Empty lists mean "no constraint".
pub fn passes(summary: &PacketSummary, filter: &CaptureFilter) -> (r: bool)
    ensures
        r == kept(packet_said(*summary), *filter),
{
    if filter.tcp || filter.udp || filter.icmp || filter.arp {
        let matched = (filter.tcp && summary.ip_protocol == 6) || (filter.udp && summary.ip_protocol
            == 17) || (filter.icmp && (summary.ip_protocol == 1 || summary.ip_protocol == 58)) || (
        filter.arp && same(summary.protocol_name.as_str(), "ARP"));
        if !matched {
            return false;
        }
    }
    if filter.families.len() > 0 && !lists_family(&filter.families, summary.family) {
        return false;
    }
    if filter.hosts.len() > 0 && !lists_endpoint(&filter.hosts, &summary.source) && !lists_endpoint(
        &filter.hosts,
        &summary.destination,
    ) {
        return false;
    }
    if filter.ports.len() > 0 && !contains_number(&filter.ports, summary.source_port)
        && !contains_number(&filter.ports, summary.destination_port) {
        return false;
    }
    true
}

/// A filter without any constraint keeps every packet.
pub proof fn law_empty_filter_keeps_everything(s: PacketSaid, filter: CaptureFilter)
    requires
        !filter.tcp && !filter.udp && !filter.icmp && !filter.arp,
        filter.families@.len() == 0,
        filter.hosts@.len() == 0,
        filter.ports@.len() == 0,
    ensures
        kept(s, filter),
{
}

// ---- Link types and pcap ------------------------------------------------------

/// The pcap link type of an interface by Android's naming. Cellular interfaces
/// and tunnels deliver bare IP packets with no Ethernet header.
pub open spec fn link_type_of(name: Seq<char>) -> LinkType {
    if starts_with(name, "rmnet"@) || starts_with(name, "ccmni"@) || starts_with(name, "pdp"@)
        || starts_with(name, "tun"@) || starts_with(name, "v4-"@) || starts_with(name, "ppp"@) {
        LinkType::Raw
    } else {
        LinkType::Ethernet
    }
}

/// pcap link type for an interface, inferred from Android's naming.
pub fn link_type_for(name: &str) -> (r: LinkType)
    ensures
        r == link_type_of(name@),
{
    if text_starts_with(name, "rmnet") || text_starts_with(name, "ccmni") || text_starts_with(
        name,
        "pdp",
    ) || text_starts_with(name, "tun") || text_starts_with(name, "v4-") || text_starts_with(
        name,
        "ppp",
    ) {
        LinkType::Raw
    } else {
        LinkType::Ethernet
    }
}

/// The number of a link type in a pcap file.
pub open spec fn pcap_number(link_type: LinkType) -> u32 {
    match link_type {
        LinkType::Unspecified => 0,
        LinkType::Ethernet => 1,
        LinkType::Raw => 101,
        LinkType::LinuxSll => 113,
    }
}

fn number_of_link_type(link_type: LinkType) -> (r: u32)
    ensures
        r == pcap_number(link_type),
{
    match link_type {
        LinkType::Unspecified => 0,
        LinkType::Ethernet => 1,
        LinkType::Raw => 101,
        LinkType::LinuxSll => 113,
    }
}

/// A number in four bytes, low byte first.
pub open spec fn le32(n: u32) -> Seq<u8> {
    seq![
        (n % 256) as u8,
        (n / 256 % 256) as u8,
        (n / 0x1_0000 % 256) as u8,
        (n / 0x100_0000 % 256) as u8,
    ]
}

/// A classic libpcap file header, so captured packets can be written to a
/// `.pcap` the user can open in Wireshark: the magic of a file with
/// microseconds, version 2.4, and no time zone.
pub fn pcap_header(link_type: LinkType, snaplen: u32) -> (r: [u8; 24])
    ensures
        r@ == seq![0xd4u8, 0xc3, 0xb2, 0xa1, 2, 0, 4, 0, 0, 0, 0, 0, 0, 0, 0, 0] + le32(snaplen) + le32(
            pcap_number(link_type),
        ),
{
    let n = number_of_link_type(link_type);
    let r: [u8; 24] = [
        0xd4, 0xc3, 0xb2, 0xa1, 2, 0, 4, 0, 0, 0, 0, 0, 0, 0, 0, 0,
        (snaplen % 256) as u8,
        (snaplen / 256 % 256) as u8,
        (snaplen / 0x1_0000 % 256) as u8,
        (snaplen / 0x100_0000 % 256) as u8,
        (n % 256) as u8,
        (n / 256 % 256) as u8,
        (n / 0x1_0000 % 256) as u8,
        (n / 0x100_0000 % 256) as u8,
    ];
    assert(r@ =~= seq![0xd4u8, 0xc3, 0xb2, 0xa1, 2, 0, 4, 0, 0, 0, 0, 0, 0, 0, 0, 0] + le32(snaplen)
        + le32(n));
    r
}

// ---- A running capture --------------------------------------------------------

/// A capture on one interface or on all, and what it has counted.
pub struct Capture {
    pub link_type: LinkType,
    pub interface_index: u32,
    pub interface_name: String,
    pub snaplen: u32,
    pub packets: u64,
    pub bytes: u64,
    pub filtered_out: u64,
}

/// A frame as it was received.
pub struct Received {
    /// What the buffer holds of it.
    pub data: Vec<u8>,
    /// How long it was.
    pub length: u32,
    pub outgoing: bool,
    /// The interface that it was seen on, or zero.
    pub interface_index: u32,
    pub unix_ms: i64,
    pub unix_us_fraction: u32,
}

/// Whether a packet shows a frame.
pub open spec fn shows_frame(
    p: CapturedPacket,
    capture: Capture,
    frame: Received,
    include_payload: bool,
) -> bool {
    &&& p.capture_id == 0
    &&& p.sequence == capture.packets
    &&& p.unix_ms == frame.unix_ms
    &&& p.unix_us_fraction == frame.unix_us_fraction
    &&& p.original_length == frame.length
    &&& p.data@ == if include_payload {
        frame.data@
    } else {
        Seq::empty()
    }
    &&& p.interface_index == if frame.interface_index != 0 {
        frame.interface_index
    } else {
        capture.interface_index
    }
    &&& p.interface_name@ == capture.interface_name@
    &&& p.outgoing == frame.outgoing
    &&& p.summary is Some
    &&& packet_said(p.summary->0) == decoded(frame.data@, capture.link_type)
}

impl Capture {
    /// A capture on the interface that a request names, whose index is known,
    /// or on every interface where it names none.
    pub fn open(request: &StartCaptureRequest, index: u32) -> (r: Capture)
        ensures
            request.interface_name@.len() == 0 ==> r.interface_index == 0 && r.interface_name@ == "any"@
                && r.link_type == LinkType::LinuxSll,
            request.interface_name@.len() > 0 ==> r.interface_index == index && r.interface_name@
                == request.interface_name@ && r.link_type == if index == 0 {
                LinkType::LinuxSll
            } else {
                link_type_of(request.interface_name@)
            },
            r.snaplen == if request.snaplen == 0 {
                DEFAULT_SNAPLEN
            } else {
                request.snaplen
            },
            r.packets == 0 && r.bytes == 0 && r.filtered_out == 0,
    {
        let any_interface = is_empty(request.interface_name.as_str());
        let interface_index = if any_interface {
            0
        } else {
            index
        };
        let interface_name = if any_interface {
            String::from_str("any")
        } else {
            request.interface_name.clone()
        };
        // The link type has to match what the kernel actually hands us: bare IP
        // packets in a file labelled Ethernet are misread by every analyser.
        let link_type = if interface_index == 0 {
            LinkType::LinuxSll
        } else {
            link_type_for(interface_name.as_str())
        };
        Capture {
            link_type,
            interface_index,
            interface_name,
            snaplen: if request.snaplen == 0 {
                DEFAULT_SNAPLEN
            } else {
                request.snaplen
            },
            packets: 0,
            bytes: 0,
            filtered_out: 0,
        }
    }

    /// Takes in a frame: the packet to hand on, or nothing where the filter
    /// drops it. Either way it is counted.
    pub fn take_in(&mut self, frame: Received, filter: &CaptureFilter, include_payload: bool) -> (r: Option<
        CapturedPacket,
    >)
        requires
            old(self).packets < u64::MAX,
            old(self).filtered_out < u64::MAX,
            old(self).bytes + frame.length <= u64::MAX,
        ensures
            final(self).link_type == old(self).link_type,
            final(self).interface_index == old(self).interface_index,
            final(self).interface_name == old(self).interface_name,
            final(self).snaplen == old(self).snaplen,
            r is Some <==> kept(decoded(frame.data@, old(self).link_type), *filter),
            match r {
                Some(p) => {
                    &&& final(self).packets == old(self).packets + 1
                    &&& final(self).bytes == old(self).bytes + frame.length
                    &&& final(self).filtered_out == old(self).filtered_out
                    &&& shows_frame(p, *final(self), frame, include_payload)
                },
                None => {
                    &&& final(self).packets == old(self).packets
                    &&& final(self).bytes == old(self).bytes
                    &&& final(self).filtered_out == old(self).filtered_out + 1
                },
            },
    {
        let summary = decode(frame.data.as_slice(), self.link_type);
        if !passes(&summary, filter) {
            self.filtered_out = self.filtered_out + 1;
            return None;
        }
        self.packets = self.packets + 1;
        self.bytes = self.bytes + frame.length as u64;
        Some(
            CapturedPacket {
                capture_id: 0,
                sequence: self.packets,
                unix_ms: frame.unix_ms,
                unix_us_fraction: frame.unix_us_fraction,
                original_length: frame.length,
                data: if include_payload {
                    frame.data
                } else {
                    Vec::new()
                },
                interface_index: if frame.interface_index != 0 {
                    frame.interface_index
                } else {
                    self.interface_index
                },
                interface_name: self.interface_name.clone(),
                outgoing: frame.outgoing,
                summary: Some(summary),
            },
        )
    }

    /// What the capture has counted, with the kernel's count of drops.
    pub fn stats(&self, id: u64, kernel_drops: u64) -> (r: CaptureStats)
        ensures
            r.capture_id == id,
            r.packets_captured == self.packets,
            r.packets_dropped_kernel == kernel_drops,
            r.packets_filtered_out == self.filtered_out,
            r.bytes_captured == self.bytes,
    {
        CaptureStats {
            capture_id: id,
            packets_captured: self.packets,
            packets_dropped_kernel: kernel_drops,
            packets_filtered_out: self.filtered_out,
            bytes_captured: self.bytes,
        }
    }

    /// The announcement of this capture.
    pub fn started(&self, capture_id: u64, request: &StartCaptureRequest, now_unix_ms: i64) -> (r:
        CaptureStarted)
        ensures
            r.capture_id == capture_id,
            r.interface_name@ == self.interface_name@,
            r.link_type == self.link_type,
            r.snaplen == self.snaplen,
            r.started_unix_ms == now_unix_ms,
            r.bpf_expression_ignored == (request.filter is Some && (
            request.filter->0).bpf_expression@.len() > 0),
            r.note@ == if r.bpf_expression_ignored {
                "this build filters in userspace and ignores bpf_expression"@
            } else {
                ""@
            },
            r.pcap_file_header@ == seq![
                0xd4u8, 0xc3, 0xb2, 0xa1, 2, 0, 4, 0, 0, 0, 0, 0, 0, 0, 0, 0,
            ] + le32(self.snaplen) + le32(pcap_number(self.link_type)),
    {
        let ignored = match &request.filter {
            Some(f) => !is_empty(f.bpf_expression.as_str()),
            None => false,
        };
        let header = pcap_header(self.link_type, self.snaplen);
        let mut pcap_file_header: Vec<u8> = Vec::new();
        pcap_file_header.extend_from_slice(&header);
        assert(pcap_file_header@ =~= header@);
        CaptureStarted {
            capture_id,
            interface_name: self.interface_name.clone(),
            link_type: self.link_type,
            snaplen: self.snaplen,
            started_unix_ms: now_unix_ms,
            bpf_expression_ignored: ignored,
            note: if ignored {
                String::from_str("this build filters in userspace and ignores bpf_expression")
            } else {
                String::from_str("")
            },
            pcap_file_header,
        }
    }
}

/// How long a capture may run.
pub fn capture_duration_ms(request: &StartCaptureRequest) -> (r: u64)
    ensures
        r == if request.duration_ms == 0 {
            DEFAULT_CAPTURE_DURATION_MS
        } else {
            request.duration_ms as u64
        },
{
    if request.duration_ms == 0 {
        DEFAULT_CAPTURE_DURATION_MS
    } else {
        request.duration_ms as u64
    }
}

/// Why a capture ended.
#[derive(Clone, Copy, Debug, PartialEq, Eq, Structural)]
pub enum CaptureEnd {
    MaxPackets,
    MaxBytes,
    Duration,
    ClientDisconnected,
    Stopped,
}

impl CaptureEnd {
    pub open spec fn text(self) -> Seq<char> {
        match self {
            CaptureEnd::MaxPackets => "max_packets"@,
            CaptureEnd::MaxBytes => "max_bytes"@,
            CaptureEnd::Duration => "duration"@,
            CaptureEnd::ClientDisconnected => "client disconnected"@,
            CaptureEnd::Stopped => "stopped"@,
        }
    }

    pub fn reason(&self) -> (r: &'static str)
        ensures
            r@ == self.text(),
    {
        match self {
            CaptureEnd::MaxPackets => "max_packets",
            CaptureEnd::MaxBytes => "max_bytes",
            CaptureEnd::Duration => "duration",
            CaptureEnd::ClientDisconnected => "client disconnected",
            CaptureEnd::Stopped => "stopped",
        }
    }

    /// The final message of the capture's stream.
    pub fn outcome(&self) -> (r: String)
        ensures
            r@ == "capture finished: "@ + self.text(),
    {
        String::from_str("capture finished: ").concat(self.reason())
    }

    /// The message that closes a capture.
    pub fn finished(&self, capture_id: u64, stats: CaptureStats) -> (r: CaptureFinished)
        ensures
            r.capture_id == capture_id,
            r.stats == Some(stats),
            r.reason@ == self.text(),
            r.error is None,
    {
        CaptureFinished {
            capture_id,
            stats: Some(stats),
            reason: String::from_str(self.reason()),
            error: None,
        }
    }
}

/// What a capture has sent to its client.
#[derive(Clone, Copy, Debug, PartialEq, Eq, Structural)]
pub struct CaptureProgress {
    pub sent: u64,
    pub bytes: u64,
}

impl CaptureProgress {
    pub fn new() -> (r: Self)
        ensures
            r == (CaptureProgress { sent: 0, bytes: 0 }),
    {
        CaptureProgress { sent: 0, bytes: 0 }
    }

    /// The limit of the request that has been reached, if one has.
    pub open spec fn limit_of(self, request: StartCaptureRequest) -> Option<CaptureEnd> {
        if request.max_packets != 0 && self.sent >= request.max_packets {
            Some(CaptureEnd::MaxPackets)
        } else if request.max_bytes != 0 && self.bytes >= request.max_bytes {
            Some(CaptureEnd::MaxBytes)
        } else {
            None
        }
    }

    pub fn limit_reached(&self, request: &StartCaptureRequest) -> (r: Option<CaptureEnd>)
        ensures
            r == self.limit_of(*request),
    {
        if request.max_packets != 0 && self.sent >= request.max_packets as u64 {
            Some(CaptureEnd::MaxPackets)
        } else if request.max_bytes != 0 && self.bytes >= request.max_bytes {
            Some(CaptureEnd::MaxBytes)
        } else {
            None
        }
    }

    /// Whether this is how a packet counts that was handed to the client.
    pub open spec fn counts(
        self,
        original_length: u32,
        delivered: bool,
        after: CaptureProgress,
        r: Option<CaptureEnd>,
    ) -> bool {
        &&& after.bytes == self.bytes + original_length
        &&& after.sent == self.sent + if delivered {
            1int
        } else {
            0int
        }
        &&& r == if delivered {
            None
        } else {
            Some(CaptureEnd::ClientDisconnected)
        }
    }

    /// Counts a packet that was handed to the client. Its bytes count whether
    /// or not it was delivered; the capture ends where it was not.
    pub fn packet(&mut self, original_length: u32, delivered: bool) -> (r: Option<CaptureEnd>)
        requires
            old(self).sent < u64::MAX,
            old(self).bytes + original_length <= u64::MAX,
        ensures
            old(self).counts(original_length, delivered, *final(self), r),
    {
        self.bytes = self.bytes + original_length as u64;
        if delivered {
            self.sent = self.sent + 1;
            None
        } else {
            Some(CaptureEnd::ClientDisconnected)
        }
    }
}

/// A capture with a packet limit goes on exactly while it has sent fewer, its
/// byte limit apart.
pub proof fn law_packet_limit_is_kept(p: CaptureProgress, request: StartCaptureRequest)
    requires
        request.max_packets != 0,
        request.max_bytes == 0,
    ensures
        p.limit_of(request) is None <==> p.sent < request.max_packets,
{
}

/// Which way a packet goes does not matter to a filter: it keeps the answer to
/// what it keeps.
pub proof fn law_filter_ignores_direction(s: PacketSaid, filter: CaptureFilter)
    ensures
        kept(
            PacketSaid {
                source: s.destination,
                destination: s.source,
                source_port: s.destination_port,
                destination_port: s.source_port,
                ..s
            },
            filter,
        ) == kept(s, filter),
{
}

} // verus!
