//! What NETLINK_INET_DIAG says on the wire.
//!
//! Netlink writes its numbers in the byte order of the machine. What a message
//! holds is therefore stated for both orders: it is one of the two.
use vstd::prelude::*;

use netlink_packet_core::{Emitable, NetlinkMessage, NetlinkPayload, NLM_F_DUMP, NLM_F_REQUEST};
use netlink_packet_sock_diag::inet::nlas::{Nla, TcpInfo};
use netlink_packet_sock_diag::inet::{ExtensionFlags, InetRequest, SocketId, StateFlags, Timer};
use netlink_packet_sock_diag::SockDiagMessage;

use crate::collect::neigh::AF_INET;
use crate::ip::IpAddr;

verus! {

// ---- The kernel's messages ----------------------------------------------------

/// What every socket of a dump has. An address has its bytes first and zeros
/// behind them.
#[derive(Clone, Copy, Debug, PartialEq, Eq)]
pub struct DiagHead {
    pub family: u8,
    pub state: u8,
    pub source_port: u16,
    pub destination_port: u16,
    pub source: [u8; 16],
    pub destination: [u8; 16],
    pub interface_id: u32,
    pub cookie: u64,
    pub recv_queue: u32,
    pub send_queue: u32,
    pub uid: u32,
    pub inode: u32,
}

/// The timer that is running for a socket.
#[derive(Clone, Copy, Debug, PartialEq, Eq, Structural)]
pub enum DiagTimer {
    Retransmit { expires_ms: u32, retransmits: u8 },
    KeepAlive { expires_ms: u32 },
    TimeWait,
    Probe { expires_ms: u32 },
}

/// The part of `struct tcp_info` that is reported.
#[derive(Clone, Copy, Debug, Default, PartialEq, Eq)]
pub struct DiagTcpInfo {
    pub ca_state: u8,
    pub retransmits: u8,
    pub probes: u8,
    pub backoff: u8,
    pub rto: u32,
    pub ato: u32,
    pub snd_mss: u32,
    pub rcv_mss: u32,
    pub unacked: u32,
    pub sacked: u32,
    pub lost: u32,
    pub retrans: u32,
    pub total_retrans: u32,
    pub rtt: u32,
    pub rttvar: u32,
    pub snd_cwnd: u32,
    pub snd_ssthresh: u32,
    pub advmss: u32,
    pub pmtu: u32,
    pub last_data_sent: u32,
    pub last_data_recv: u32,
    pub last_ack_recv: u32,
    pub bytes_sent: u64,
    pub bytes_received: u64,
    pub delivered: u32,
}

/// One attribute of a socket.
#[derive(Clone, Debug, PartialEq, Eq)]
pub enum DiagAttribute {
    Mark(u32),
    Congestion(String),
    TcpInfo(DiagTcpInfo),
    Other,
}

/// One socket of a dump.
#[derive(Clone, Debug, PartialEq, Eq)]
pub struct InetResponse {
    pub head: DiagHead,
    pub timer: Option<DiagTimer>,
    pub attributes: Vec<DiagAttribute>,
}

/// The address in sixteen bytes, of which IPv4 has the first four.
pub open spec fn address_in(family: u8, raw: [u8; 16]) -> IpAddr {
    if family == AF_INET {
        IpAddr::V4([raw@[0], raw@[1], raw@[2], raw@[3]])
    } else {
        IpAddr::V6(raw)
    }
}

pub fn read_address(family: u8, raw: &[u8; 16]) -> (r: IpAddr)
    ensures
        r == address_in(family, *raw),
{
    if family == AF_INET {
        IpAddr::V4([raw[0], raw[1], raw[2], raw[3]])
    } else {
        IpAddr::V6(*raw)
    }
}

// ---- Asking for a dump --------------------------------------------------------

/// A number of two bytes in one of the two byte orders.
pub open spec fn ordered16(n: u16, little_endian: bool) -> Seq<u8> {
    if little_endian {
        seq![(n % 256) as u8, (n / 256) as u8]
    } else {
        seq![(n / 256) as u8, (n % 256) as u8]
    }
}

/// A number of four bytes in one of the two byte orders.
pub open spec fn ordered32(n: u32, little_endian: bool) -> Seq<u8> {
    let low = ordered16((n % 0x1_0000) as u16, little_endian);
    let high = ordered16((n / 0x1_0000) as u16, little_endian);
    if little_endian {
        low + high
    } else {
        high + low
    }
}

/// A request for every socket of a family and protocol: a netlink header with
/// the length, the type SOCK_DIAG_BY_FAMILY, the flags NLM_F_REQUEST and
/// NLM_F_DUMP and no sequence or port number; then `struct inet_diag_req_v2`
/// with an all-zero socket id.
pub open spec fn request_bytes(
    family: u8,
    protocol: u8,
    extensions: u8,
    states: u32,
    little_endian: bool,
) -> Seq<u8> {
    ordered32(72, little_endian) + ordered16(20, little_endian) + ordered16(0x301, little_endian)
        + Seq::new(8, |i: int| 0u8) + seq![family, protocol, extensions, 0u8] + ordered32(
        states,
        little_endian,
    ) + Seq::new(48, |i: int| 0u8)
}

/// The bytes of a dump request, by `NetlinkMessage::serialize` of
/// netlink-packet-core on an `InetRequest` of netlink-packet-sock-diag with an
/// all-zero socket id (which is the same bytes for both families): the fields of
/// `NetlinkHeader` and of `InetRequestBuffer` one after another, the numbers in
/// the byte order of the machine.
#[verifier::external_body]
pub(crate) fn encode_dump_request(family: u8, protocol: u8, extensions: u8, states: u32) -> (r: Vec<
    u8,
>)
    ensures
        r@ == request_bytes(family, protocol, extensions, states, true) || r@ == request_bytes(
            family,
            protocol,
            extensions,
            states,
            false,
        ),
{
    let request = InetRequest {
        family,
        protocol,
        extensions: ExtensionFlags::from_bits_retain(extensions),
        states: StateFlags::from_bits_retain(states),
        socket_id: SocketId::new_v6(),
    };
    let mut packet = NetlinkMessage::from(SockDiagMessage::InetRequest(request));
    packet.header.flags = NLM_F_REQUEST | NLM_F_DUMP;
    packet.finalize();
    let mut buf = vec![0u8; packet.buffer_len()];
    packet.serialize(&mut buf);
    buf
}

// ---- Reading a message --------------------------------------------------------

/// What one message of a dump turned out to be.
#[derive(Clone, Copy, Debug, PartialEq, Eq, Structural)]
pub enum DumpMessage {
    /// The end of the dump.
    Done,
    /// An error with a number of the kernel, negative; zero for an
    /// acknowledgement.
    Failed(i32),
    /// A socket.
    Socket,
    /// Anything else.
    Ignored,
}

/// An attribute as it is said.
pub enum AttributeSaid {
    Mark(u32),
    Congestion(Seq<char>),
    TcpInfo(DiagTcpInfo),
    Other,
}

/// A socket as it is said.
pub struct SocketSaid {
    pub head: DiagHead,
    pub timer: Option<DiagTimer>,
    pub attributes: Seq<AttributeSaid>,
}

/// A message as it is said; only one that is a socket says one.
pub struct MessageSaid {
    pub length: u32,
    pub message: DumpMessage,
    pub socket: SocketSaid,
}

/// What `NetlinkMessage::<SockDiagMessage>::deserialize` reads from bytes, on a
/// machine with a byte order; none where it refuses them.
pub uninterp spec fn message_in(bytes: Seq<u8>, little_endian: bool) -> Option<MessageSaid>;

/// The length and the kind of a message.
pub open spec fn outline_of(m: Option<MessageSaid>) -> Option<(u32, DumpMessage)> {
    match m {
        Some(m) => Some((m.length, m.message)),
        None => None,
    }
}

/// The socket of a message that is one.
pub open spec fn socket_of(m: Option<MessageSaid>) -> Option<SocketSaid> {
    match m {
        Some(m) => if m.message == DumpMessage::Socket {
            Some(m.socket)
        } else {
            None
        },
        None => None,
    }
}

pub open spec fn head_of(m: Option<MessageSaid>) -> Option<DiagHead> {
    match socket_of(m) {
        Some(s) => Some(s.head),
        None => None,
    }
}

pub open spec fn timer_of(m: Option<MessageSaid>) -> Option<Option<DiagTimer>> {
    match socket_of(m) {
        Some(s) => Some(s.timer),
        None => None,
    }
}

pub open spec fn attributes_of(m: Option<MessageSaid>) -> Option<Seq<AttributeSaid>> {
    match socket_of(m) {
        Some(s) => Some(s.attributes),
        None => None,
    }
}

/// The `tcp_info` at a place among attributes, where one stands there.
pub open spec fn info_at(list: Seq<AttributeSaid>, index: int) -> Option<DiagTcpInfo> {
    if 0 <= index < list.len() {
        match list[index] {
            AttributeSaid::TcpInfo(info) => Some(info),
            _ => None,
        }
    } else {
        None
    }
}

pub open spec fn tcp_info_of(m: Option<MessageSaid>, index: int) -> Option<Option<DiagTcpInfo>> {
    match socket_of(m) {
        Some(s) => Some(info_at(s.attributes, index)),
        None => None,
    }
}

/// The length that a message gives in its first four bytes, in a byte order; none
/// where it does not fit the bytes, of which it is at least a header and at most
/// all.
pub open spec fn length_in(bytes: Seq<u8>, little_endian: bool) -> Option<int> {
    let n = if little_endian {
        bytes[0] + 0x100 * bytes[1] + 0x1_0000 * bytes[2] + 0x100_0000 * bytes[3]
    } else {
        bytes[3] + 0x100 * bytes[2] + 0x1_0000 * bytes[1] + 0x100_0000 * bytes[0]
    };
    if 16 <= n <= bytes.len() {
        Some(n)
    } else {
        None
    }
}

/// Which attribute it is, with what is small in it.
#[derive(Clone, Debug, PartialEq, Eq)]
pub enum AttributeKind {
    Mark(u32),
    Congestion(String),
    TcpInfo,
    Other,
}

/// Whether an attribute is of a kind.
pub open spec fn is_of_kind(a: AttributeSaid, kind: AttributeKind) -> bool {
    match kind {
        AttributeKind::Mark(mark) => a == AttributeSaid::Mark(mark),
        AttributeKind::Congestion(name) => a == AttributeSaid::Congestion(name@),
        AttributeKind::TcpInfo => a is TcpInfo,
        AttributeKind::Other => a == AttributeSaid::Other,
    }
}

/// Whether attributes are of these kinds, one by one.
pub open spec fn are_of_kinds(list: Seq<AttributeSaid>, kinds: Seq<AttributeKind>) -> bool {
    &&& list.len() == kinds.len()
    &&& forall|i: int| 0 <= i < list.len() ==> is_of_kind(#[trigger] list[i], kinds[i])
}

// What each of the five readings below says of a message that was read in a byte
// order, where `length` is the length that fits the bytes in that order. Bytes that
// are accepted have one.

pub open spec fn outline_read(
    m: Option<MessageSaid>,
    length: Option<int>,
    r: Option<(u32, DumpMessage)>,
) -> bool {
    &&& r == outline_of(m)
    &&& r matches Some((n, _)) ==> length == Some(n as int)
}

pub open spec fn head_read(m: Option<MessageSaid>, length: Option<int>, r: Option<DiagHead>) -> bool {
    &&& r == head_of(m)
    &&& r is Some ==> length is Some
}

pub open spec fn timer_read(
    m: Option<MessageSaid>,
    length: Option<int>,
    r: Option<Option<DiagTimer>>,
) -> bool {
    &&& r == timer_of(m)
    &&& r is Some ==> length is Some
}

pub open spec fn kinds_read(
    m: Option<MessageSaid>,
    length: Option<int>,
    r: Option<Vec<AttributeKind>>,
) -> bool {
    match (r, attributes_of(m)) {
        (Some(kinds), Some(list)) => are_of_kinds(list, kinds@) && length is Some,
        (None, None) => true,
        _ => false,
    }
}

pub open spec fn tcp_info_read(
    m: Option<MessageSaid>,
    length: Option<int>,
    index: int,
    r: Option<Option<DiagTcpInfo>>,
) -> bool {
    &&& r == tcp_info_of(m, index)
    &&& r is Some ==> length is Some
}

/// The length and the kind of the message that the bytes begin with, by
/// `NetlinkMessage::<SockDiagMessage>::deserialize` of netlink-packet-core and
/// netlink-packet-sock-diag; none where it refuses them. The length is the number
/// in the first four bytes, and it fits them: `NetlinkBuffer::new_checked` refuses
/// bytes without room for a header, and a length that does not fit.
#[verifier::external_body]
fn message_outline(bytes: &[u8]) -> (r: Option<(u32, DumpMessage)>)
    ensures
        outline_read(message_in(bytes@, true), length_in(bytes@, true), r)
            || outline_read(message_in(bytes@, false), length_in(bytes@, false), r),
{
    let message = NetlinkMessage::<SockDiagMessage>::deserialize(bytes).ok()?;
    let kind = match message.payload {
        NetlinkPayload::Done(_) => DumpMessage::Done,
        NetlinkPayload::Error(e) => DumpMessage::Failed(e.code.map_or(0, |c| c.get())),
        NetlinkPayload::InnerMessage(SockDiagMessage::InetResponse(_)) => DumpMessage::Socket,
        _ => DumpMessage::Ignored,
    };
    Some((message.header.length, kind))
}

/// What every socket has, of the socket that the bytes begin with, by
/// `NetlinkMessage::<SockDiagMessage>::deserialize`; none where they begin with
/// none. The bytes of the addresses are those that `Emitable::emit` writes for the
/// `SocketId`.
#[verifier::external_body]
fn message_head(bytes: &[u8]) -> (r: Option<DiagHead>)
    ensures
        head_read(message_in(bytes@, true), length_in(bytes@, true), r)
            || head_read(message_in(bytes@, false), length_in(bytes@, false), r),
{
    let h = match NetlinkMessage::<SockDiagMessage>::deserialize(bytes).ok()?.payload {
        NetlinkPayload::InnerMessage(SockDiagMessage::InetResponse(r)) => r.header,
        _ => return None,
    };
    let (id, mut raw) = (&h.socket_id, [0u8; 48]);
    id.emit(&mut raw);
    Some(DiagHead {
        family: h.family, state: h.state, recv_queue: h.recv_queue, send_queue: h.send_queue,
        uid: h.uid, inode: h.inode, source_port: id.source_port,
        destination_port: id.destination_port, interface_id: id.interface_id,
        cookie: u64::from_ne_bytes(id.cookie), source: raw[4..20].try_into().ok()?,
        destination: raw[20..36].try_into().ok()?,
    })
}

/// The timer of the socket that the bytes begin with, where one runs, by
/// `NetlinkMessage::<SockDiagMessage>::deserialize`; none where they begin with no
/// socket. Its times are whole milliseconds that fit in a `u32`.
#[verifier::external_body]
fn message_timer(bytes: &[u8]) -> (r: Option<Option<DiagTimer>>)
    ensures
        timer_read(message_in(bytes@, true), length_in(bytes@, true), r)
            || timer_read(message_in(bytes@, false), length_in(bytes@, false), r),
{
    let h = match NetlinkMessage::<SockDiagMessage>::deserialize(bytes).ok()?.payload {
        NetlinkPayload::InnerMessage(SockDiagMessage::InetResponse(r)) => r.header,
        _ => return None,
    };
    Some(h.timer.map(|timer| match timer {
        Timer::Retransmit(after, retransmits) => {
            DiagTimer::Retransmit { expires_ms: after.as_millis() as u32, retransmits }
        },
        Timer::KeepAlive(after) => DiagTimer::KeepAlive { expires_ms: after.as_millis() as u32 },
        Timer::TimeWait => DiagTimer::TimeWait,
        Timer::Probe(after) => DiagTimer::Probe { expires_ms: after.as_millis() as u32 },
    }))
}

/// The kinds of the attributes of the socket that the bytes begin with, by
/// `NetlinkMessage::<SockDiagMessage>::deserialize`; none where they begin with no
/// socket.
#[verifier::external_body]
fn message_attributes(bytes: &[u8]) -> (r: Option<Vec<AttributeKind>>)
    ensures
        kinds_read(message_in(bytes@, true), length_in(bytes@, true), r)
            || kinds_read(message_in(bytes@, false), length_in(bytes@, false), r),
{
    let nlas = match NetlinkMessage::<SockDiagMessage>::deserialize(bytes).ok()?.payload {
        NetlinkPayload::InnerMessage(SockDiagMessage::InetResponse(r)) => r.nlas,
        _ => return None,
    };
    Some(nlas.into_iter().map(|nla| match nla {
        Nla::Mark(mark) => AttributeKind::Mark(mark),
        Nla::Congestion(name) => AttributeKind::Congestion(name),
        Nla::TcpInfo(_) => AttributeKind::TcpInfo,
        _ => AttributeKind::Other,
    }).collect())
}

/// The `tcp_info` at a place among the attributes of the socket that the bytes
/// begin with, where one stands there, by
/// `NetlinkMessage::<SockDiagMessage>::deserialize`; none where they begin with no
/// socket.
#[verifier::external_body]
fn message_tcp_info(bytes: &[u8], index: usize) -> (r: Option<Option<DiagTcpInfo>>)
    ensures
        tcp_info_read(message_in(bytes@, true), length_in(bytes@, true), index as int, r)
            || tcp_info_read(message_in(bytes@, false), length_in(bytes@, false), index as int, r),
{
    let NetlinkPayload::InnerMessage(SockDiagMessage::InetResponse(r)) =
        NetlinkMessage::<SockDiagMessage>::deserialize(bytes).ok()?.payload else { return None };
    Some(match r.nlas.into_iter().nth(index) {
        Some(Nla::TcpInfo(TcpInfo {
            ca_state, retransmits, probes, backoff, rto, ato, snd_mss, rcv_mss, unacked, sacked, lost,
            retrans, total_retrans, rtt, rttvar, snd_cwnd, snd_ssthresh, advmss, pmtu, bytes_sent,
            bytes_received, delivered, last_data_sent, last_data_recv, last_ack_recv, ..
        })) => Some(DiagTcpInfo {
            ca_state, retransmits, probes, backoff, rto, ato, snd_mss, rcv_mss, unacked, sacked, lost,
            retrans, total_retrans, rtt, rttvar, snd_cwnd, snd_ssthresh, advmss, pmtu, bytes_sent,
            bytes_received, delivered, last_data_sent, last_data_recv, last_ack_recv,
        }),
        _ => None,
    })
}

// ---- Reading a datagram -------------------------------------------------------

pub open spec fn attribute_said(a: DiagAttribute) -> AttributeSaid {
    match a {
        DiagAttribute::Mark(mark) => AttributeSaid::Mark(mark),
        DiagAttribute::Congestion(name) => AttributeSaid::Congestion(name@),
        DiagAttribute::TcpInfo(info) => AttributeSaid::TcpInfo(info),
        DiagAttribute::Other => AttributeSaid::Other,
    }
}

/// Whether this is the attribute at a place of a list: a `tcp_info` is one that
/// was read by itself.
pub open spec fn attribute_read(
    bytes: Seq<u8>,
    list: Seq<AttributeSaid>,
    index: int,
    a: DiagAttribute,
) -> bool {
    match list[index] {
        AttributeSaid::TcpInfo(_) => {
            let info = match a {
                DiagAttribute::TcpInfo(info) => Some(info),
                _ => None,
            };
            &&& a is TcpInfo || a is Other
            &&& tcp_info_read(message_in(bytes, true), length_in(bytes, true), index, Some(info))
                || tcp_info_read(message_in(bytes, false), length_in(bytes, false), index, Some(info))
        },
        said => attribute_said(a) == said,
    }
}

/// Whether these are the attributes of the socket that the bytes begin with.
pub open spec fn attributes_read(
    bytes: Seq<u8>,
    attributes: Seq<DiagAttribute>,
    little_endian: bool,
) -> bool {
    &&& length_in(bytes, little_endian) is Some
    &&& attributes_of(message_in(bytes, little_endian)) matches Some(list)
    &&& attributes.len() == list.len()
    &&& forall|i: int|
        0 <= i < list.len() ==> attribute_read(bytes, list, i, #[trigger] attributes[i])
}

/// Whether this is the socket that the bytes begin with, or there is none.
pub open spec fn response_read(bytes: Seq<u8>, r: Option<InetResponse>) -> bool {
    match r {
        Some(r) => {
            &&& head_read(message_in(bytes, true), length_in(bytes, true), Some(r.head))
                || head_read(message_in(bytes, false), length_in(bytes, false), Some(r.head))
            &&& timer_read(message_in(bytes, true), length_in(bytes, true), Some(r.timer))
                || timer_read(message_in(bytes, false), length_in(bytes, false), Some(r.timer))
            &&& attributes_read(bytes, r.attributes@, true) || attributes_read(
                bytes,
                r.attributes@,
                false,
            )
        },
        None => socket_of(message_in(bytes, true)) is None || socket_of(
            message_in(bytes, false),
        ) is None,
    }
}

/// The socket that the bytes begin with.
pub fn read_response(bytes: &[u8]) -> (r: Option<InetResponse>)
    ensures
        response_read(bytes@, r),
{
    let head = match message_head(bytes) {
        Some(head) => head,
        None => {
            return None;
        },
    };
    let timer = match message_timer(bytes) {
        Some(timer) => timer,
        None => {
            return None;
        },
    };
    let kinds = match message_attributes(bytes) {
        Some(kinds) => kinds,
        None => {
            return None;
        },
    };
    let ghost order = kinds_read(
        message_in(bytes@, true),
        length_in(bytes@, true),
        Some(kinds),
    );
    let ghost list = attributes_of(message_in(bytes@, order))->0;
    let mut attributes: Vec<DiagAttribute> = Vec::new();
    for i in 0..kinds.len()
        invariant
            are_of_kinds(list, kinds@),
            attributes@.len() == i,
            forall|j: int| 0 <= j < i ==> attribute_read(bytes@, list, j, #[trigger] attributes@[j]),
    {
        assert(is_of_kind(list[i as int], kinds@[i as int]));
        let attribute = match &kinds[i] {
            AttributeKind::Mark(mark) => DiagAttribute::Mark(*mark),
            AttributeKind::Congestion(name) => DiagAttribute::Congestion(name.clone()),
            AttributeKind::TcpInfo => match message_tcp_info(bytes, i) {
                Some(Some(info)) => DiagAttribute::TcpInfo(info),
                Some(None) => DiagAttribute::Other,
                None => {
                    return None;
                },
            },
            AttributeKind::Other => DiagAttribute::Other,
        };
        attributes.push(attribute);
    }
    Some(InetResponse { head, timer, attributes })
}

/// What a socket says.
pub open spec fn socket_said(r: InetResponse) -> SocketSaid {
    SocketSaid {
        head: r.head,
        timer: r.timer,
        attributes: r.attributes@.map_values(|a: DiagAttribute| attribute_said(a)),
    }
}

/// Of bytes that one netlink message can have, no length fits in both byte orders.
proof fn lemma_one_order(bytes: Seq<u8>)
    requires
        bytes.len() < 0x1_0000,
    ensures
        length_in(bytes, true) is None || length_in(bytes, false) is None,
{
}

/// A socket is read in one byte order throughout, that in which its message has a
/// length that fits: it is the socket that the message holds, whole and unmixed.
pub proof fn law_a_socket_is_read_whole(bytes: Seq<u8>, r: InetResponse, little_endian: bool)
    requires
        bytes.len() < 0x1_0000,
        length_in(bytes, little_endian) is Some,
        response_read(bytes, Some(r)),
    ensures
        socket_of(message_in(bytes, little_endian)) == Some(socket_said(r)),
{
    lemma_one_order(bytes);
    let s = socket_of(message_in(bytes, little_endian))->0;
    assert(attributes_read(bytes, r.attributes@, little_endian));
    assert forall|i: int| 0 <= i < s.attributes.len() implies s.attributes[i] == attribute_said(
        r.attributes@[i],
    ) by {
        assert(attribute_read(bytes, s.attributes, i, r.attributes@[i]));
    }
    assert(s.attributes =~= socket_said(r).attributes);
}

/// How the reading of a datagram ended.
#[derive(Clone, Copy, Debug, PartialEq, Eq, Structural)]
pub enum DumpEnd {
    /// The dump goes on in the next datagram.
    Receive,
    /// The dump is complete.
    Finished,
    /// The kernel reported an error.
    Failed(i32),
    /// The bytes are no message.
    Malformed,
}

/// "No such entry", as the kernel reports it: there are no sockets of the kind
/// that was asked for.
pub const MINUS_ENOENT: i32 = -2;

/// How a message ends the dump, where it does. One without a length ends it, as
/// its end marker does.
pub open spec fn ended_by(outline: Option<(u32, DumpMessage)>) -> Option<DumpEnd> {
    match outline {
        None => Some(DumpEnd::Malformed),
        Some((length, message)) => if length == 0 {
            Some(DumpEnd::Finished)
        } else {
            match message {
                DumpMessage::Done => Some(DumpEnd::Finished),
                DumpMessage::Failed(code) => if code == MINUS_ENOENT {
                    Some(DumpEnd::Finished)
                } else {
                    Some(DumpEnd::Failed(code))
                },
                _ => None,
            }
        },
    }
}

fn end_of(outline: &Option<(u32, DumpMessage)>) -> (r: Option<DumpEnd>)
    ensures
        r == ended_by(*outline),
{
    match outline {
        None => Some(DumpEnd::Malformed),
        Some((length, message)) => if *length == 0 {
            Some(DumpEnd::Finished)
        } else {
            match message {
                DumpMessage::Done => Some(DumpEnd::Finished),
                DumpMessage::Failed(code) => if *code == MINUS_ENOENT {
                    Some(DumpEnd::Finished)
                } else {
                    Some(DumpEnd::Failed(*code))
                },
                _ => None,
            }
        },
    }
}

/// Whether a datagram, from a place on, reads as these sockets and this end.
pub open spec fn datagram_read(
    bytes: Seq<u8>,
    at: int,
    sockets: Seq<InetResponse>,
    end: DumpEnd,
) -> bool
    decreases bytes.len() - at, 1int,
{
    if at >= bytes.len() {
        sockets.len() == 0 && end == DumpEnd::Receive
    } else {
        let rest = bytes.subrange(at, bytes.len() as int);
        let (a, b) = (outline_of(message_in(rest, true)), outline_of(message_in(rest, false)));
        ||| outline_read(message_in(rest, true), length_in(rest, true), a) && datagram_read_by(
            bytes,
            at,
            a,
            sockets,
            end,
        )
        ||| outline_read(message_in(rest, false), length_in(rest, false), b) && datagram_read_by(
            bytes,
            at,
            b,
            sockets,
            end,
        )
    }
}

/// The same, where the message at the place has this outline.
pub open spec fn datagram_read_by(
    bytes: Seq<u8>,
    at: int,
    outline: Option<(u32, DumpMessage)>,
    sockets: Seq<InetResponse>,
    end: DumpEnd,
) -> bool
    decreases bytes.len() - at, 0int,
{
    let rest = bytes.subrange(at, bytes.len() as int);
    match ended_by(outline) {
        Some(e) => sockets.len() == 0 && end == e,
        None => {
            let (length, message) = outline->0;
            if length == 0 || at + length > bytes.len() {
                false
            } else if message == DumpMessage::Socket {
                ||| sockets.len() > 0 && response_read(rest, Some(sockets[0])) && datagram_read(
                    bytes,
                    at + length,
                    sockets.skip(1),
                    end,
                )
                ||| response_read(rest, None) && datagram_read(bytes, at + length, sockets, end)
            } else {
                datagram_read(bytes, at + length, sockets, end)
            }
        },
    }
}

/// The sockets of a datagram of a dump, and how it ended.
pub fn read_datagram(bytes: &[u8]) -> (r: (Vec<InetResponse>, DumpEnd))
    ensures
        datagram_read(bytes@, 0, r.0@, r.1),
{
    let mut sockets: Vec<InetResponse> = Vec::new();
    let mut at: usize = 0;
    assert forall|s: Seq<InetResponse>, e: DumpEnd| #[trigger]
        datagram_read(bytes@, 0, s, e) implies datagram_read(bytes@, 0, sockets@ + s, e) by {
        assert(sockets@ + s =~= s);
    }
    while at < bytes.len()
        invariant
            at <= bytes@.len(),
            forall|s: Seq<InetResponse>, e: DumpEnd| #[trigger]
                datagram_read(bytes@, at as int, s, e) ==> datagram_read(
                    bytes@,
                    0,
                    sockets@ + s,
                    e,
                ),
        decreases bytes@.len() - at,
    {
        let rest = vstd::slice::slice_subrange(bytes, at, bytes.len());
        let outline = message_outline(rest);
        if let Some(end) = end_of(&outline) {
            assert(datagram_read(bytes@, at as int, Seq::empty(), end));
            assert(sockets@ + Seq::empty() =~= sockets@);
            return (sockets, end);
        }
        if let Some((length, message)) = outline {
            let ghost before = sockets@;
            let ghost from = at;
            if message == DumpMessage::Socket {
                if let Some(response) = read_response(rest) {
                    sockets.push(response);
                }
            }
            at = at + length as usize;
            assert forall|s: Seq<InetResponse>, e: DumpEnd| #[trigger]
                datagram_read(bytes@, at as int, s, e) implies datagram_read(
                bytes@,
                0,
                sockets@ + s,
                e,
            ) by {
                let added = sockets@.skip(before.len() as int);
                assert((added + s).skip(added.len() as int) =~= s);
                if added.len() == 0 {
                    assert(added + s =~= s);
                }
                assert(datagram_read(bytes@, from as int, added + s, e));
                assert(before + (added + s) =~= sockets@ + s);
            }
        }
    }
    assert(datagram_read(bytes@, at as int, Seq::empty(), DumpEnd::Receive));
    assert(sockets@ + Seq::empty() =~= sockets@);
    (sockets, DumpEnd::Receive)
}

} // verus!
