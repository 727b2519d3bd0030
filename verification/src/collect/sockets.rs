//! TCP/UDP socket diagnostics, from what NETLINK_INET_DIAG reports.
//!
//! The mark matters more than it looks. Android writes the netId of the
//! Network a socket is pinned to into the low 16 bits of the mark, so the mark
//! is the join key between "a socket in the kernel" and "a Network object in
//! the framework".
use std::collections::HashMap;

use vstd::prelude::*;

use crate::collect::neigh::{AF_INET, AF_INET6};
use crate::collect::sockdiag::{
    address_in, encode_dump_request, read_address, request_bytes, DiagAttribute, DiagTcpInfo,
    DiagTimer, InetResponse,
};
use crate::collect::{name_in, name_or_empty};
use crate::ip::{is_mapped, IpAddr};
use crate::proto::{
    address_ip, IpAddress, IpFamily, Socket, SocketFilter, SocketProtocol, SocketSummary,
    StateCount, TcpInfo, TcpState,
};
use crate::seqs::{
    contains_number, last_some, lemma_filter_end, lemma_filter_start, lemma_filter_step, or,
};
use crate::util::net_id_from_mark;

verus! {

/// Default cap on returned rows. A busy device has a few hundred sockets; the
/// limit exists so that a pathological case cannot build a huge response.
pub const DEFAULT_SOCKET_LIMIT: u32 = 4096;

pub const IPPROTO_TCP: u8 = 6;

pub const IPPROTO_UDP: u8 = 17;

// ---- What to ask for ----------------------------------------------------------

/// The protocols of the kernel that a list of protocols names; others are left
/// out.
pub open spec fn protocol_numbers(list: Seq<SocketProtocol>) -> Seq<u8>
    decreases list.len(),
{
    if list.len() == 0 {
        Seq::empty()
    } else {
        let front = protocol_numbers(list.drop_last());
        match list.last() {
            SocketProtocol::Tcp => front.push(IPPROTO_TCP),
            SocketProtocol::Udp => front.push(IPPROTO_UDP),
            SocketProtocol::Unspecified => front,
        }
    }
}

/// The protocols that a filter asks about.
pub open spec fn protocols_meant(filter: SocketFilter) -> Seq<u8> {
    if filter.protocols@.len() == 0 {
        seq![IPPROTO_TCP, IPPROTO_UDP]
    } else {
        protocol_numbers(filter.protocols@)
    }
}

/// The protocols to dump: both, unless the filter names some.
pub fn wanted_protocols(filter: &SocketFilter) -> (r: Vec<u8>)
    ensures
        r@ == protocols_meant(*filter),
{
    let mut r: Vec<u8> = Vec::new();
    if filter.protocols.len() == 0 {
        r.push(IPPROTO_TCP);
        r.push(IPPROTO_UDP);
        assert(r@ =~= seq![IPPROTO_TCP, IPPROTO_UDP]);
        return r;
    }
    let ghost all = filter.protocols@;
    let mut i: usize = 0;
    assert(all.take(0) =~= Seq::empty());
    while i < filter.protocols.len()
        invariant
            i <= filter.protocols.len(),
            all == filter.protocols@,
            r@ == protocol_numbers(all.take(i as int)),
        decreases filter.protocols.len() - i,
    {
        assert(all.take(i + 1).drop_last() =~= all.take(i as int));
        match filter.protocols[i] {
            SocketProtocol::Tcp => r.push(IPPROTO_TCP),
            SocketProtocol::Udp => r.push(IPPROTO_UDP),
            SocketProtocol::Unspecified => {},
        }
        i += 1;
    }
    assert(all.take(all.len() as int) =~= all);
    r
}

/// The families of the kernel that a list of families names; others are left
/// out.
pub open spec fn family_numbers(list: Seq<IpFamily>) -> Seq<u8>
    decreases list.len(),
{
    if list.len() == 0 {
        Seq::empty()
    } else {
        let front = family_numbers(list.drop_last());
        match list.last() {
            IpFamily::V4 => front.push(AF_INET),
            IpFamily::V6 => front.push(AF_INET6),
            IpFamily::Unspecified => front,
        }
    }
}

/// The families that a filter asks about.
pub open spec fn families_asked(filter: SocketFilter) -> Seq<u8> {
    if filter.families@.len() == 0 {
        seq![AF_INET, AF_INET6]
    } else {
        family_numbers(filter.families@)
    }
}

/// The families to dump: both, unless the filter names some.
pub fn wanted_families(filter: &SocketFilter) -> (r: Vec<u8>)
    ensures
        r@ == families_asked(*filter),
{
    let mut r: Vec<u8> = Vec::new();
    if filter.families.len() == 0 {
        r.push(AF_INET);
        r.push(AF_INET6);
        assert(r@ =~= seq![AF_INET, AF_INET6]);
        return r;
    }
    let ghost all = filter.families@;
    let mut i: usize = 0;
    assert(all.take(0) =~= Seq::empty());
    while i < filter.families.len()
        invariant
            i <= filter.families.len(),
            all == filter.families@,
            r@ == family_numbers(all.take(i as int)),
        decreases filter.families.len() - i,
    {
        assert(all.take(i + 1).drop_last() =~= all.take(i as int));
        match filter.families[i] {
            IpFamily::V4 => r.push(AF_INET),
            IpFamily::V6 => r.push(AF_INET6),
            IpFamily::Unspecified => {},
        }
        i += 1;
    }
    assert(all.take(all.len() as int) =~= all);
    r
}

/// A bit for each of the eleven TCP states that the kernel numbers from one.
pub const ALL_STATES: u32 = 0xffe;

/// The bit of a state in a request; none for the states that cannot be asked
/// for.
pub open spec fn state_bit(s: TcpState) -> u32 {
    match s {
        TcpState::Established => 0x2,
        TcpState::SynSent => 0x4,
        TcpState::SynRecv => 0x8,
        TcpState::FinWait1 => 0x10,
        TcpState::FinWait2 => 0x20,
        TcpState::TimeWait => 0x40,
        TcpState::Close => 0x80,
        TcpState::CloseWait => 0x100,
        TcpState::LastAck => 0x200,
        TcpState::Listen => 0x400,
        TcpState::Closing => 0x800,
        _ => 0,
    }
}

fn bit_of_state(s: TcpState) -> (r: u32)
    ensures
        r == state_bit(s),
{
    match s {
        TcpState::Established => 0x2,
        TcpState::SynSent => 0x4,
        TcpState::SynRecv => 0x8,
        TcpState::FinWait1 => 0x10,
        TcpState::FinWait2 => 0x20,
        TcpState::TimeWait => 0x40,
        TcpState::Close => 0x80,
        TcpState::CloseWait => 0x100,
        TcpState::LastAck => 0x200,
        TcpState::Listen => 0x400,
        TcpState::Closing => 0x800,
        _ => 0,
    }
}

/// The bits of a list of states.
pub open spec fn state_bits(list: Seq<TcpState>) -> u32
    decreases list.len(),
{
    if list.len() == 0 {
        0
    } else {
        state_bits(list.drop_last()) | state_bit(list.last())
    }
}

/// Which states to ask the kernel for. Narrowing this in the request is much
/// cheaper than filtering a full dump. UDP sockets are not narrowed, nor is a
/// list that names no state that can be asked for.
pub open spec fn states_asked(filter: SocketFilter, protocol: u8) -> u32 {
    if protocol == IPPROTO_UDP || state_bits(filter.states@) == 0 {
        ALL_STATES
    } else {
        state_bits(filter.states@)
    }
}

pub fn state_flags(filter: &SocketFilter, protocol: u8) -> (r: u32)
    ensures
        r == states_asked(*filter, protocol),
{
    if protocol == IPPROTO_UDP {
        return ALL_STATES;
    }
    let ghost all = filter.states@;
    let mut flags: u32 = 0;
    let mut i: usize = 0;
    assert(all.take(0) =~= Seq::empty());
    while i < filter.states.len()
        invariant
            i <= filter.states.len(),
            all == filter.states@,
            flags == state_bits(all.take(i as int)),
        decreases filter.states.len() - i,
    {
        assert(all.take(i + 1).drop_last() =~= all.take(i as int));
        flags = flags | bit_of_state(filter.states[i]);
        i += 1;
    }
    assert(all.take(all.len() as int) =~= all);
    if flags == 0 {
        ALL_STATES
    } else {
        flags
    }
}

/// Asks for `struct tcp_info` and the congestion control algorithm.
pub const EXT_INFO_AND_CONG: u8 = 0xa;

/// The extensions that a filter asks for.
pub open spec fn extensions_asked(filter: SocketFilter, protocol: u8) -> u8 {
    if filter.include_tcp_info && protocol == IPPROTO_TCP {
        EXT_INFO_AND_CONG
    } else {
        0
    }
}

/// Which extensions to ask for: they roughly double the size of every row, so
/// only where the caller wants them, and only TCP sockets have them.
pub fn extension_flags(filter: &SocketFilter, protocol: u8) -> (r: u8)
    ensures
        r == extensions_asked(*filter, protocol),
{
    if filter.include_tcp_info && protocol == IPPROTO_TCP {
        EXT_INFO_AND_CONG
    } else {
        0
    }
}

/// The bytes that ask for the sockets of one protocol and family.
pub open spec fn asked_bytes(
    filter: SocketFilter,
    family: u8,
    protocol: u8,
    little_endian: bool,
) -> Seq<u8> {
    request_bytes(
        family,
        protocol,
        extensions_asked(filter, protocol),
        states_asked(filter, protocol),
        little_endian,
    )
}

/// The request that makes the kernel list its sockets of one protocol and
/// family, in the byte order of the machine.
pub fn dump_request(filter: &SocketFilter, family: u8, protocol: u8) -> (r: Vec<u8>)
    ensures
        r@ == asked_bytes(*filter, family, protocol, true) || r@ == asked_bytes(
            *filter,
            family,
            protocol,
            false,
        ),
{
    encode_dump_request(
        family,
        protocol,
        extension_flags(filter, protocol),
        state_flags(filter, protocol),
    )
}

// ---- Sockets ------------------------------------------------------------------

pub open spec fn diag_mark() -> spec_fn(DiagAttribute) -> Option<u32> {
    |a: DiagAttribute|
        match a {
            DiagAttribute::Mark(v) => Some(v),
            _ => None,
        }
}

pub open spec fn diag_congestion() -> spec_fn(DiagAttribute) -> Option<Seq<char>> {
    |a: DiagAttribute|
        match a {
            DiagAttribute::Congestion(v) => Some(v@),
            _ => None,
        }
}

pub open spec fn diag_tcp_info() -> spec_fn(DiagAttribute) -> Option<TcpInfo> {
    |a: DiagAttribute|
        match a {
            DiagAttribute::TcpInfo(v) => Some(tcp_info_told(v)),
            _ => None,
        }
}

/// What is reported of a TCP connection. A connection with segments in
/// retransmission, or with retransmissions since the last acknowledgement, is
/// actively fighting the network.
pub open spec fn tcp_info_told(info: DiagTcpInfo) -> TcpInfo {
    TcpInfo {
        rto_us: info.rto,
        ato_us: info.ato,
        snd_mss: info.snd_mss,
        rcv_mss: info.rcv_mss,
        unacked: info.unacked,
        sacked: info.sacked,
        lost: info.lost,
        retrans: info.retrans,
        total_retrans: info.total_retrans,
        rtt_us: info.rtt,
        rtt_var_us: info.rttvar,
        snd_cwnd: info.snd_cwnd,
        snd_ssthresh: info.snd_ssthresh,
        advmss: info.advmss,
        pmtu: info.pmtu,
        last_data_sent_ms: info.last_data_sent,
        last_data_recv_ms: info.last_data_recv,
        last_ack_recv_ms: info.last_ack_recv,
        bytes_sent: info.bytes_sent,
        bytes_received: info.bytes_received,
        delivered: info.delivered as u64,
        ca_state: info.ca_state as u32,
        probes: info.probes as u32,
        backoff: info.backoff as u32,
        retransmitting: info.retrans > 0 || info.retransmits > 0,
    }
}

pub fn tcp_info_to_proto(info: &DiagTcpInfo) -> (r: TcpInfo)
    ensures
        r == tcp_info_told(*info),
{
    TcpInfo {
        rto_us: info.rto,
        ato_us: info.ato,
        snd_mss: info.snd_mss,
        rcv_mss: info.rcv_mss,
        unacked: info.unacked,
        sacked: info.sacked,
        lost: info.lost,
        retrans: info.retrans,
        total_retrans: info.total_retrans,
        rtt_us: info.rtt,
        rtt_var_us: info.rttvar,
        snd_cwnd: info.snd_cwnd,
        snd_ssthresh: info.snd_ssthresh,
        advmss: info.advmss,
        pmtu: info.pmtu,
        last_data_sent_ms: info.last_data_sent,
        last_data_recv_ms: info.last_data_recv,
        last_ack_recv_ms: info.last_ack_recv,
        bytes_sent: info.bytes_sent,
        bytes_received: info.bytes_received,
        delivered: info.delivered as u64,
        ca_state: info.ca_state as u32,
        probes: info.probes as u32,
        backoff: info.backoff as u32,
        retransmitting: info.retrans > 0 || info.retransmits > 0,
    }
}

/// The number, the expiry and the retransmissions of a timer. The numbers are
/// those that `ss` shows.
pub open spec fn timer_told(timer: Option<DiagTimer>) -> (u32, u32, u32) {
    match timer {
        Some(DiagTimer::Retransmit { expires_ms, retransmits }) => (
            1,
            expires_ms,
            retransmits as u32,
        ),
        Some(DiagTimer::KeepAlive { expires_ms }) => (2, expires_ms, 0),
        Some(DiagTimer::TimeWait) => (3, 0, 0),
        Some(DiagTimer::Probe { expires_ms }) => (4, expires_ms, 0),
        None => (0, 0, 0),
    }
}

fn read_timer(timer: &Option<DiagTimer>) -> (r: (u32, u32, u32))
    ensures
        r == timer_told(*timer),
{
    match timer {
        Some(DiagTimer::Retransmit { expires_ms, retransmits }) => (
            1,
            *expires_ms,
            *retransmits as u32,
        ),
        Some(DiagTimer::KeepAlive { expires_ms }) => (2, *expires_ms, 0),
        Some(DiagTimer::TimeWait) => (3, 0, 0),
        Some(DiagTimer::Probe { expires_ms }) => (4, *expires_ms, 0),
        None => (0, 0, 0),
    }
}

/// The IPv4 address that a mapped address stands for, and every other address
/// itself.
pub open spec fn unmapped(ip: IpAddr) -> IpAddr {
    match ip {
        IpAddr::V6(o) if is_mapped(o@) => IpAddr::V4([o@[12], o@[13], o@[14], o@[15]]),
        _ => ip,
    }
}

/// inet_diag always reports addresses as 16 bytes. A dual-stack IPv6 socket
/// carries a mapped address that is far more readable as plain IPv4.
pub fn normalize_address(addr: IpAddr) -> (r: IpAddress)
    ensures
        r.ip_of() == Some(unmapped(addr)),
{
    match addr {
        IpAddr::V6(o) => {
            if crate::ip::mapped(&o) {
                IpAddress::from_ip(IpAddr::V4([o[12], o[13], o[14], o[15]]))
            } else {
                IpAddress::from_ip(addr)
            }
        },
        IpAddr::V4(_) => IpAddress::from_ip(addr),
    }
}

/// The TCP state with a number of the kernel.
pub open spec fn tcp_state(n: u8) -> TcpState {
    match n {
        1 => TcpState::Established,
        2 => TcpState::SynSent,
        3 => TcpState::SynRecv,
        4 => TcpState::FinWait1,
        5 => TcpState::FinWait2,
        6 => TcpState::TimeWait,
        7 => TcpState::Close,
        8 => TcpState::CloseWait,
        9 => TcpState::LastAck,
        10 => TcpState::Listen,
        11 => TcpState::Closing,
        12 => TcpState::NewSynRecv,
        _ => TcpState::Unspecified,
    }
}

pub fn tcp_state_to_proto(n: u8) -> (r: TcpState)
    ensures
        r == tcp_state(n),
{
    match n {
        1 => TcpState::Established,
        2 => TcpState::SynSent,
        3 => TcpState::SynRecv,
        4 => TcpState::FinWait1,
        5 => TcpState::FinWait2,
        6 => TcpState::TimeWait,
        7 => TcpState::Close,
        8 => TcpState::CloseWait,
        9 => TcpState::LastAck,
        10 => TcpState::Listen,
        11 => TcpState::Closing,
        12 => TcpState::NewSynRecv,
        _ => TcpState::Unspecified,
    }
}

/// Whether the socket holds what the attributes say: of each kind the last one
/// counts.
pub open spec fn socket_attributes_told(s: Socket, attrs: Seq<DiagAttribute>) -> bool {
    &&& s.mark == or(last_some(attrs, diag_mark()), 0)
    &&& s.has_mark == last_some(attrs, diag_mark()) is Some
    &&& s.net_id == s.mark % 0x1_0000
    &&& s.congestion_control@ == or(last_some(attrs, diag_congestion()), Seq::empty())
    &&& s.tcp_info == last_some(attrs, diag_tcp_info())
}

/// Whether the socket holds what the head of the response says.
pub open spec fn socket_head_told(
    s: Socket,
    r: InetResponse,
    protocol: u8,
    names: Map<u32, String>,
) -> bool {
    let h = r.head;
    &&& s.family == if h.family == AF_INET {
        IpFamily::V4
    } else {
        IpFamily::V6
    }
    &&& s.protocol == if protocol == IPPROTO_TCP {
        SocketProtocol::Tcp
    } else {
        SocketProtocol::Udp
    }
    &&& s.state == tcp_state(h.state)
    &&& address_ip(s.local_address) == Some(unmapped(address_in(h.family, h.source)))
    &&& s.local_port == h.source_port
    &&& address_ip(s.remote_address) == Some(unmapped(address_in(h.family, h.destination)))
    &&& s.remote_port == h.destination_port
    &&& s.uid == h.uid
    &&& s.inode == h.inode
    &&& s.interface_index == h.interface_id
    &&& s.interface_name@ == name_in(names, h.interface_id)
    &&& s.rx_queue == h.recv_queue
    &&& s.tx_queue == h.send_queue
    &&& s.socket_cookie == h.cookie
    &&& (s.timer, s.timer_expires_ms, s.retransmits) == timer_told(r.timer)
    &&& s.package_names@.len() == 0
}

/// One socket of a dump as a message.
pub fn response_to_proto(
    response: InetResponse,
    protocol: u8,
    if_names: &HashMap<u32, String>,
) -> (r: Socket)
    ensures
        socket_head_told(r, response, protocol, if_names@),
        socket_attributes_told(r, response.attributes@),
{
    let ghost attrs = response.attributes@;
    let ghost said = response;
    let head = response.head;
    let (timer, timer_expires_ms, retransmits) = read_timer(&response.timer);
    let mut s = Socket {
        family: if head.family == AF_INET {
            IpFamily::V4
        } else {
            IpFamily::V6
        },
        protocol: if protocol == IPPROTO_TCP {
            SocketProtocol::Tcp
        } else {
            SocketProtocol::Udp
        },
        state: tcp_state_to_proto(head.state),
        local_address: Some(normalize_address(read_address(head.family, &head.source))),
        local_port: head.source_port as u32,
        remote_address: Some(normalize_address(read_address(head.family, &head.destination))),
        remote_port: head.destination_port as u32,
        uid: head.uid,
        inode: head.inode as u64,
        interface_index: head.interface_id,
        interface_name: name_or_empty(if_names, head.interface_id),
        rx_queue: head.recv_queue,
        tx_queue: head.send_queue,
        socket_cookie: head.cookie,
        timer,
        timer_expires_ms,
        retransmits,
        mark: 0,
        has_mark: false,
        net_id: 0,
        congestion_control: String::new(),
        tcp_info: None,
        package_names: Vec::new(),
    };
    assert(attrs.take(0) =~= Seq::empty());
    for attr in it: response.attributes
        invariant
            it.seq() == attrs,
            socket_attributes_told(s, attrs.take(it.index())),
            socket_head_told(s, said, protocol, if_names@),
    {
        let ghost i = it.index();
        assert(attrs.take(i + 1).drop_last() =~= attrs.take(i));
        assert(attrs.take(i + 1).last() == attr);
        match attr {
            DiagAttribute::Mark(mark) => {
                s.mark = mark;
                s.has_mark = true;
                s.net_id = net_id_from_mark(mark);
            },
            DiagAttribute::Congestion(cc) => s.congestion_control = cc,
            DiagAttribute::TcpInfo(info) => s.tcp_info = Some(tcp_info_to_proto(&info)),
            DiagAttribute::Other => {},
        }
    }
    assert(attrs.take(attrs.len() as int) =~= attrs);
    s
}

/// Whether a filter lets a socket through; an empty list or a zero lets every
/// one through.
pub open spec fn passes(filter: SocketFilter) -> spec_fn(Socket) -> bool {
    |s: Socket|
        {
            &&& filter.uids@.len() == 0 || filter.uids@.contains(s.uid)
            &&& filter.interface_indexes@.len() == 0 || filter.interface_indexes@.contains(
                s.interface_index,
            )
            &&& filter.local_port == 0 || s.local_port == filter.local_port
            &&& filter.remote_port == 0 || s.remote_port == filter.remote_port
        }
}

pub fn passes_filter(s: &Socket, filter: &SocketFilter) -> (r: bool)
    ensures
        r == passes(*filter)(*s),
{
    if filter.uids.len() > 0 && !contains_number(&filter.uids, s.uid) {
        return false;
    }
    if filter.interface_indexes.len() > 0 && !contains_number(
        &filter.interface_indexes,
        s.interface_index,
    ) {
        return false;
    }
    if filter.local_port != 0 && s.local_port != filter.local_port {
        return false;
    }
    if filter.remote_port != 0 && s.remote_port != filter.remote_port {
        return false;
    }
    true
}

/// The sockets of a dump, counted, and whether some were left out.
pub struct SocketDump {
    pub sockets: Vec<Socket>,
    pub summary: SocketSummary,
    pub truncated: bool,
}

/// How many rows a filter allows.
pub open spec fn row_limit(filter: SocketFilter) -> nat {
    if filter.limit == 0 {
        DEFAULT_SOCKET_LIMIT as nat
    } else {
        filter.limit as nat
    }
}

fn limit_of(filter: &SocketFilter) -> (r: u32)
    ensures
        r == row_limit(*filter),
        r > 0,
{
    if filter.limit == 0 {
        DEFAULT_SOCKET_LIMIT
    } else {
        filter.limit
    }
}

/// Whether more sockets were listed than a filter allows.
pub open spec fn is_full(listed: Seq<Socket>, filter: SocketFilter) -> bool {
    listed.filter(passes(filter)).len() > row_limit(filter)
}

/// The sockets that a filter asks for, of those that were listed: the first ones
/// up to the limit.
pub open spec fn rows_of(listed: Seq<Socket>, filter: SocketFilter) -> Seq<Socket> {
    let passing = listed.filter(passes(filter));
    if is_full(listed, filter) {
        passing.take(row_limit(filter) as int)
    } else {
        passing
    }
}

/// What the dumps of a collection have listed so far, and how many of it the
/// filter lets through.
pub struct SocketListing {
    pub listed: Vec<Socket>,
    pub passing: usize,
}

impl SocketListing {
    pub open spec fn wf(self, filter: SocketFilter) -> bool {
        self.passing == self.listed@.filter(passes(filter)).len()
    }

    /// Nothing was listed yet.
    pub fn new() -> (r: Self)
        ensures
            r.listed@.len() == 0,
            forall|filter: SocketFilter| #[trigger] r.wf(filter),
    {
        let r = SocketListing { listed: Vec::new(), passing: 0 };
        assert forall|filter: SocketFilter| #[trigger] r.wf(filter) by {
            lemma_filter_start(r.listed@, passes(filter));
            assert(r.listed@.take(0) =~= r.listed@);
        }
        r
    }

    /// Takes in the dump of one protocol and family, and tells whether the kernel
    /// is to be asked for the next: it is not once the limit is passed.
    pub fn take_dump(&mut self, dump: Vec<Socket>, filter: &SocketFilter) -> (more: bool)
        requires
            old(self).wf(*filter),
        ensures
            final(self).wf(*filter),
            final(self).listed@ == old(self).listed@ + dump@,
            more == !is_full(final(self).listed@, *filter),
    {
        let limit = limit_of(filter);
        let ghost p = passes(*filter);
        let ghost before = self.listed@;
        let ghost all = dump@;
        assert(before + all.take(0) =~= before);
        for socket in it: dump
            invariant
                it.seq() == all,
                p == passes(*filter),
                self.listed@ == before + all.take(it.index()),
                self.passing == self.listed@.filter(p).len(),
                self.passing <= self.listed.len(),
        {
            let ghost listed = self.listed@.push(socket);
            proof {
                lemma_filter_step(listed, p, listed.len() - 1);
                assert(listed.take(listed.len() - 1) =~= self.listed@);
                assert(listed.take(listed.len() as int) =~= listed);
                assert(before + all.take(it.index() + 1) =~= listed);
            }
            let counts = passes_filter(&socket, filter);
            self.listed.push(socket);
            assert(self.passing < self.listed.len());
            if counts {
                self.passing = self.passing + 1;
            }
        }
        assert(all.take(all.len() as int) =~= all);
        self.passing <= limit as usize
    }
}

/// The sockets that a filter asks for, of all that the kernel listed.
pub fn get_sockets(all: Vec<Socket>, filter: &SocketFilter) -> (r: SocketDump)
    ensures
        r.truncated == is_full(all@, *filter),
        r.sockets@ == rows_of(all@, *filter),
        counted(r.summary, r.sockets@),
{
    let limit = limit_of(filter);
    let ghost p = passes(*filter);
    let ghost s = all@;
    let mut kept: Vec<Socket> = Vec::new();
    let mut truncated = false;
    proof {
        lemma_filter_start(s, p);
    }
    for socket in it: all
        invariant
            it.seq() == s,
            p == passes(*filter),
            limit == row_limit(*filter),
            limit > 0,
            truncated <==> s.take(it.index()).filter(p).len() > limit,
            kept@ == if truncated {
                s.take(it.index()).filter(p).take(limit as int)
            } else {
                s.take(it.index()).filter(p)
            },
            kept.len() <= limit,
    {
        proof {
            lemma_filter_step(s, p, it.index());
        }
        let ghost before = s.take(it.index()).filter(p);
        if passes_filter(&socket, filter) {
            if kept.len() >= limit as usize {
                assert(before.push(socket).take(limit as int) =~= before.take(limit as int));
                assert(before.take(limit as int) =~= kept@);
                truncated = true;
            } else {
                kept.push(socket);
            }
        }
    }
    proof {
        lemma_filter_end(s, p);
    }
    let summary = summarize(&kept);
    SocketDump { sockets: kept, summary, truncated }
}

/// Once the limit is passed no further dump changes the answer, so the kernel need
/// not be asked for one.
pub proof fn law_a_full_listing_needs_no_more(
    listed: Seq<Socket>,
    more: Seq<Socket>,
    filter: SocketFilter,
)
    requires
        is_full(listed, filter),
    ensures
        is_full(listed + more, filter),
        rows_of(listed + more, filter) == rows_of(listed, filter),
    decreases more.len(),
{
    let p = passes(filter);
    if more.len() == 0 {
        assert(listed + more =~= listed);
    } else {
        let front = listed + more.drop_last();
        let all = listed + more;
        law_a_full_listing_needs_no_more(listed, more.drop_last(), filter);
        lemma_filter_step(all, p, all.len() - 1);
        assert(all.take(all.len() - 1) =~= front);
        assert(all.take(all.len() as int) =~= all);
        assert(rows_of(all, filter) =~= rows_of(front, filter));
    }
}

// ---- Counting -----------------------------------------------------------------

/// Whether a socket is in a state.
pub open spec fn in_state(state: TcpState) -> spec_fn(Socket) -> bool {
    |s: Socket| s.state == state
}

/// Whether a socket is in one of the two states of a closing connection.
pub open spec fn in_fin_wait() -> spec_fn(Socket) -> bool {
    |s: Socket| s.state is FinWait1 || s.state is FinWait2
}

/// Whether a socket belongs to a family.
pub open spec fn socket_of(family: IpFamily) -> spec_fn(Socket) -> bool {
    |s: Socket| s.family == family
}

/// Whether a socket's connection is retransmitting.
pub open spec fn is_retransmitting() -> spec_fn(Socket) -> bool {
    |s: Socket| s.tcp_info is Some && (s.tcp_info->0).retransmitting
}

/// How many elements have a property.
pub open spec fn count(s: Seq<Socket>, p: spec_fn(Socket) -> bool) -> nat
    decreases s.len(),
{
    if s.len() == 0 {
        0
    } else {
        count(s.drop_last(), p) + if p(s.last()) {
            1nat
        } else {
            0nat
        }
    }
}

/// The count of a state in a list of counts; zero where the state is not listed.
pub open spec fn count_in(list: Seq<StateCount>, state: TcpState) -> int
    decreases list.len(),
{
    if list.len() == 0 {
        0
    } else if list.last().state == state {
        list.last().count as int
    } else {
        count_in(list.drop_last(), state)
    }
}

/// Whether a list counts the states of sockets: each state that occurs stands
/// in it once.
pub open spec fn states_counted(list: Seq<StateCount>, s: Seq<Socket>) -> bool {
    &&& forall|t: TcpState| #[trigger] count_in(list, t) == count(s, in_state(t))
    &&& forall|i: int| 0 <= i < list.len() ==> (#[trigger] list[i]).count > 0
    &&& forall|i: int, j: int|
        0 <= i < j < list.len() ==> (#[trigger] list[i]).state != (#[trigger] list[j]).state
}

/// Whether a summary counts these sockets.
pub open spec fn counted(m: SocketSummary, s: Seq<Socket>) -> bool {
    &&& m.total == s.len()
    &&& m.established == count(s, in_state(TcpState::Established))
    &&& m.syn_sent == count(s, in_state(TcpState::SynSent))
    &&& m.close_wait == count(s, in_state(TcpState::CloseWait))
    &&& m.fin_wait == count(s, in_fin_wait())
    &&& m.time_wait == count(s, in_state(TcpState::TimeWait))
    &&& m.listen == count(s, in_state(TcpState::Listen))
    &&& m.v4_count == count(s, socket_of(IpFamily::V4))
    &&& m.v6_count == count(s, socket_of(IpFamily::V6))
    &&& m.retransmitting == count(s, is_retransmitting())
    &&& states_counted(m.by_state@, s)
}

pub(crate) proof fn lemma_count_bound(s: Seq<Socket>, p: spec_fn(Socket) -> bool)
    ensures
        count(s, p) <= s.len(),
    decreases s.len(),
{
    if s.len() > 0 {
        lemma_count_bound(s.drop_last(), p);
    }
}

proof fn lemma_count_in(list: Seq<StateCount>, i: int)
    requires
        0 <= i < list.len(),
        forall|a: int, b: int|
            0 <= a < b < list.len() ==> (#[trigger] list[a]).state != (#[trigger] list[b]).state,
    ensures
        count_in(list, list[i].state) == list[i].count,
    decreases list.len(),
{
    if i < list.len() - 1 {
        assert(list[i].state != list[list.len() - 1].state);
        lemma_count_in(list.drop_last(), i);
    }
}

proof fn lemma_count_absent(list: Seq<StateCount>, t: TcpState)
    requires
        forall|i: int| 0 <= i < list.len() ==> (#[trigger] list[i]).state != t,
    ensures
        count_in(list, t) == 0,
    decreases list.len(),
{
    if list.len() > 0 {
        assert(list[list.len() - 1].state != t);
        lemma_count_absent(list.drop_last(), t);
    }
}

proof fn lemma_count_update(list: Seq<StateCount>, i: int, c: StateCount, t: TcpState)
    requires
        0 <= i < list.len(),
        c.state == list[i].state,
        forall|a: int, b: int|
            0 <= a < b < list.len() ==> (#[trigger] list[a]).state != (#[trigger] list[b]).state,
    ensures
        count_in(list.update(i, c), t) == if t == c.state {
            c.count as int
        } else {
            count_in(list, t)
        },
    decreases list.len(),
{
    let after = list.update(i, c);
    if i < list.len() - 1 {
        lemma_count_update(list.drop_last(), i, c, t);
        assert(after.drop_last() =~= list.drop_last().update(i, c));
        assert(list[i].state != list[list.len() - 1].state);
    } else {
        assert(after.drop_last() =~= list.drop_last());
    }
}

/// Counts one more socket of a state.
fn count_state(list: &mut Vec<StateCount>, state: TcpState, Ghost(s): Ghost<Seq<Socket>>)
    requires
        s.len() > 0,
        s.last().state == state,
        s.len() <= u32::MAX,
        states_counted(old(list)@, s.drop_last()),
    ensures
        states_counted(final(list)@, s),
{
    let ghost start = list@;
    let mut i: usize = 0;
    while i < list.len()
        invariant
            i <= list.len(),
            list@ == start,
            start == old(list)@,
            s.len() > 0,
            s.last().state == state,
            s.len() <= u32::MAX,
            states_counted(start, s.drop_last()),
            forall|k: int| 0 <= k < i ==> (#[trigger] start[k]).state != state,
        decreases list.len() - i,
    {
        let entry = list[i];
        if entry.state == state {
            proof {
                lemma_count_in(start, i as int);
                lemma_count_bound(s.drop_last(), in_state(state));
            }
            let more = StateCount { state, count: entry.count + 1 };
            list.set(i, more);
            proof {
                assert forall|t: TcpState| #[trigger] count_in(list@, t) == count(
                    s,
                    in_state(t),
                ) by {
                    lemma_count_update(start, i as int, more, t);
                    assert(count_in(start, t) == count(s.drop_last(), in_state(t)));
                }
            }
            return;
        }
        i += 1;
    }
    proof {
        lemma_count_absent(start, state);
        assert(count_in(start, state) == count(s.drop_last(), in_state(state)));
    }
    list.push(StateCount { state, count: 1 });
    proof {
        assert(list@.drop_last() =~= start);
        assert forall|t: TcpState| #[trigger] count_in(list@, t) == count(s, in_state(t)) by {
            assert(count_in(start, t) == count(s.drop_last(), in_state(t)));
        }
    }
}

/// Sockets counted by state and family.
pub fn summarize(sockets: &Vec<Socket>) -> (r: SocketSummary)
    requires
        sockets@.len() <= u32::MAX,
    ensures
        counted(r, sockets@),
{
    let mut summary = SocketSummary {
        total: 0,
        established: 0,
        syn_sent: 0,
        close_wait: 0,
        fin_wait: 0,
        time_wait: 0,
        listen: 0,
        v4_count: 0,
        v6_count: 0,
        retransmitting: 0,
        by_state: Vec::new(),
    };
    let ghost all = sockets@;
    let mut i: usize = 0;
    assert(all.take(0) =~= Seq::empty());
    while i < sockets.len()
        invariant
            i <= sockets.len(),
            all == sockets@,
            all.len() <= u32::MAX,
            counted(summary, all.take(i as int)),
        decreases sockets.len() - i,
    {
        let s = &sockets[i];
        let ghost done = all.take(i as int);
        assert(all.take(i + 1).drop_last() =~= done);
        proof {
            lemma_count_bound(done, in_state(TcpState::Established));
            lemma_count_bound(done, in_state(TcpState::SynSent));
            lemma_count_bound(done, in_state(TcpState::CloseWait));
            lemma_count_bound(done, in_fin_wait());
            lemma_count_bound(done, in_state(TcpState::TimeWait));
            lemma_count_bound(done, in_state(TcpState::Listen));
            lemma_count_bound(done, socket_of(IpFamily::V4));
            lemma_count_bound(done, socket_of(IpFamily::V6));
            lemma_count_bound(done, is_retransmitting());
        }
        summary.total = summary.total + 1;
        let mut by_state: Vec<StateCount> = summary.by_state;
        count_state(&mut by_state, s.state, Ghost(all.take(i + 1)));
        summary.by_state = by_state;
        match s.state {
            TcpState::Established => summary.established = summary.established + 1,
            TcpState::SynSent => summary.syn_sent = summary.syn_sent + 1,
            TcpState::CloseWait => summary.close_wait = summary.close_wait + 1,
            TcpState::FinWait1 | TcpState::FinWait2 => summary.fin_wait = summary.fin_wait + 1,
            TcpState::TimeWait => summary.time_wait = summary.time_wait + 1,
            TcpState::Listen => summary.listen = summary.listen + 1,
            _ => {},
        }
        match s.family {
            IpFamily::V4 => summary.v4_count = summary.v4_count + 1,
            IpFamily::V6 => summary.v6_count = summary.v6_count + 1,
            IpFamily::Unspecified => {},
        }
        let retransmitting = match &s.tcp_info {
            Some(info) => info.retransmitting,
            None => false,
        };
        if retransmitting {
            summary.retransmitting = summary.retransmitting + 1;
        }
        i += 1;
    }
    assert(all.take(all.len() as int) =~= all);
    summary
}

} // verus!
