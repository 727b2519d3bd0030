//! What the kernel's answers say of sockets, which of them a request gets, and how they
//! are counted.
use vstd::prelude::*;

use crate::collect::sockdiag::{DiagAttribute, DiagTimer, InetResponse};
use crate::collect::sockets::{
    counted, extensions_asked, families_asked, family_numbers, passes, protocol_numbers,
    protocols_meant, row_limit, rows_of, socket_attributes_told, socket_head_told, state_bits,
    states_asked, tcp_state, timer_told, unmapped,
};
use crate::ip::IpAddr;
use crate::proto::{IpFamily, Socket, SocketFilter, SocketProtocol, SocketSummary, TcpState};

verus! {

// ---- What is asked for --------------------------------------------------------------

/// The kernel is asked for a state exactly if the filter names it: the states are
/// numbered from one, and each is the bit of its number.
pub proof fn law_states_are_asked_for_by_their_bits(list: Seq<TcpState>)
    ensures
        state_bits(list) & 0x2 != 0 <==> list.contains(TcpState::Established),
        state_bits(list) & 0x4 != 0 <==> list.contains(TcpState::SynSent),
        state_bits(list) & 0x8 != 0 <==> list.contains(TcpState::SynRecv),
        state_bits(list) & 0x10 != 0 <==> list.contains(TcpState::FinWait1),
        state_bits(list) & 0x20 != 0 <==> list.contains(TcpState::FinWait2),
        state_bits(list) & 0x40 != 0 <==> list.contains(TcpState::TimeWait),
        state_bits(list) & 0x80 != 0 <==> list.contains(TcpState::Close),
        state_bits(list) & 0x100 != 0 <==> list.contains(TcpState::CloseWait),
        state_bits(list) & 0x200 != 0 <==> list.contains(TcpState::LastAck),
        state_bits(list) & 0x400 != 0 <==> list.contains(TcpState::Listen),
        state_bits(list) & 0x800 != 0 <==> list.contains(TcpState::Closing),
    decreases list.len(),
{
    if list.len() == 0 {
        assert(0u32 & 0x2 == 0 && 0u32 & 0x4 == 0 && 0u32 & 0x8 == 0 && 0u32 & 0x10 == 0) by (bit_vector);
        assert(0u32 & 0x20 == 0 && 0u32 & 0x40 == 0 && 0u32 & 0x80 == 0 && 0u32 & 0x100 == 0) by (bit_vector);
        assert(0u32 & 0x200 == 0 && 0u32 & 0x400 == 0 && 0u32 & 0x800 == 0) by (bit_vector);
    } else {
        let t = list.drop_last();
        law_states_are_asked_for_by_their_bits(t);
        let (a, b) = (state_bits(t), crate::collect::sockets::state_bit(list.last()));
        lemma_bits(a, b);
        lemma_contains(list, TcpState::Established);
        lemma_contains(list, TcpState::SynSent);
        lemma_contains(list, TcpState::SynRecv);
        lemma_contains(list, TcpState::FinWait1);
        lemma_contains(list, TcpState::FinWait2);
        lemma_contains(list, TcpState::TimeWait);
        lemma_contains(list, TcpState::Close);
        lemma_contains(list, TcpState::CloseWait);
        lemma_contains(list, TcpState::LastAck);
        lemma_contains(list, TcpState::Listen);
        lemma_contains(list, TcpState::Closing);
        lemma_single(list.last());
    }
}

proof fn lemma_contains(list: Seq<TcpState>, s: TcpState)
    requires
        list.len() > 0,
    ensures
        list.contains(s) <==> list.last() == s || list.drop_last().contains(s),
{
    let t = list.drop_last();
    if t.contains(s) {
        let i = t.index_of(s);
        assert(list[i] == s);
    }
    if list.contains(s) {
        let i = list.index_of(s);
        if i < t.len() {
            assert(t[i] == s);
        }
    }
    if list.last() == s {
        assert(list[list.len() - 1] == s);
    }
}

proof fn lemma_bits(a: u32, b: u32)
    ensures
        (a | b) & 0x2 != 0 <==> a & 0x2 != 0 || b & 0x2 != 0,
        (a | b) & 0x4 != 0 <==> a & 0x4 != 0 || b & 0x4 != 0,
        (a | b) & 0x8 != 0 <==> a & 0x8 != 0 || b & 0x8 != 0,
        (a | b) & 0x10 != 0 <==> a & 0x10 != 0 || b & 0x10 != 0,
        (a | b) & 0x20 != 0 <==> a & 0x20 != 0 || b & 0x20 != 0,
        (a | b) & 0x40 != 0 <==> a & 0x40 != 0 || b & 0x40 != 0,
        (a | b) & 0x80 != 0 <==> a & 0x80 != 0 || b & 0x80 != 0,
        (a | b) & 0x100 != 0 <==> a & 0x100 != 0 || b & 0x100 != 0,
        (a | b) & 0x200 != 0 <==> a & 0x200 != 0 || b & 0x200 != 0,
        (a | b) & 0x400 != 0 <==> a & 0x400 != 0 || b & 0x400 != 0,
        (a | b) & 0x800 != 0 <==> a & 0x800 != 0 || b & 0x800 != 0,
{
    assert(((a | b) & 0x2 != 0 <==> a & 0x2 != 0 || b & 0x2 != 0) && ((a | b) & 0x4 != 0 <==> a & 0x4 != 0
        || b & 0x4 != 0) && ((a | b) & 0x8 != 0 <==> a & 0x8 != 0 || b & 0x8 != 0) && ((a | b) & 0x10 != 0
        <==> a & 0x10 != 0 || b & 0x10 != 0)) by (bit_vector);
    assert(((a | b) & 0x20 != 0 <==> a & 0x20 != 0 || b & 0x20 != 0) && ((a | b) & 0x40 != 0 <==> a & 0x40
        != 0 || b & 0x40 != 0) && ((a | b) & 0x80 != 0 <==> a & 0x80 != 0 || b & 0x80 != 0) && ((a | b)
        & 0x100 != 0 <==> a & 0x100 != 0 || b & 0x100 != 0)) by (bit_vector);
    assert(((a | b) & 0x200 != 0 <==> a & 0x200 != 0 || b & 0x200 != 0) && ((a | b) & 0x400 != 0 <==> a
        & 0x400 != 0 || b & 0x400 != 0) && ((a | b) & 0x800 != 0 <==> a & 0x800 != 0 || b & 0x800 != 0))
        by (bit_vector);
}

proof fn lemma_single(s: TcpState)
    ensures
        ({
            let b = crate::collect::sockets::state_bit(s);
            &&& b & 0x2 != 0 <==> s == TcpState::Established
            &&& b & 0x4 != 0 <==> s == TcpState::SynSent
            &&& b & 0x8 != 0 <==> s == TcpState::SynRecv
            &&& b & 0x10 != 0 <==> s == TcpState::FinWait1
            &&& b & 0x20 != 0 <==> s == TcpState::FinWait2
            &&& b & 0x40 != 0 <==> s == TcpState::TimeWait
            &&& b & 0x80 != 0 <==> s == TcpState::Close
            &&& b & 0x100 != 0 <==> s == TcpState::CloseWait
            &&& b & 0x200 != 0 <==> s == TcpState::LastAck
            &&& b & 0x400 != 0 <==> s == TcpState::Listen
            &&& b & 0x800 != 0 <==> s == TcpState::Closing
        }),
{
    let b = crate::collect::sockets::state_bit(s);
    assert(b == 0 || b == 0x2 || b == 0x4 || b == 0x8 || b == 0x10 || b == 0x20 || b == 0x40 || b == 0x80
        || b == 0x100 || b == 0x200 || b == 0x400 || b == 0x800);
    assert((b & 0x2 != 0 <==> b == 0x2) && (b & 0x4 != 0 <==> b == 0x4) && (b & 0x8 != 0 <==> b == 0x8) && (b
        & 0x10 != 0 <==> b == 0x10) && (b & 0x20 != 0 <==> b == 0x20) && (b & 0x40 != 0 <==> b == 0x40) && (
    b & 0x80 != 0 <==> b == 0x80) && (b & 0x100 != 0 <==> b == 0x100) && (b & 0x200 != 0 <==> b == 0x200)
        && (b & 0x400 != 0 <==> b == 0x400) && (b & 0x800 != 0 <==> b == 0x800)) by (bit_vector)
        requires
            b == 0 || b == 0x2 || b == 0x4 || b == 0x8 || b == 0x10 || b == 0x20 || b == 0x40 || b == 0x80
                || b == 0x100 || b == 0x200 || b == 0x400 || b == 0x800,
    ;
}

/// UDP is asked for in every state, and TCP in those that the filter names, or in all
/// where it names none.
pub proof fn law_which_states_are_asked_for(filter: SocketFilter)
    ensures
        states_asked(filter, 17) == 0xffe,
        filter.states@.len() == 0 ==> states_asked(filter, 6) == 0xffe,
        filter.states@.contains(TcpState::SynSent) ==> states_asked(filter, 6) == state_bits(
            filter.states@,
        ),
{
    law_states_are_asked_for_by_their_bits(filter.states@);
    let b = state_bits(filter.states@);
    assert(b == 0 ==> b & 0x4 == 0) by (bit_vector);
}

/// Protocols and families are asked for by the kernel's numbers, in the order in which
/// they are named: TCP is 6, UDP is 17, IPv4 is 2 and IPv6 is 10.
pub proof fn law_numbers_that_are_asked_for(protocols: Seq<SocketProtocol>, families: Seq<IpFamily>)
    ensures
        protocol_numbers(protocols.push(SocketProtocol::Tcp)) == protocol_numbers(protocols).push(6),
        protocol_numbers(protocols.push(SocketProtocol::Udp)) == protocol_numbers(protocols).push(17),
        protocol_numbers(Seq::empty()).len() == 0,
        family_numbers(families.push(IpFamily::V4)) == family_numbers(families).push(2),
        family_numbers(families.push(IpFamily::V6)) == family_numbers(families).push(10),
        family_numbers(Seq::empty()).len() == 0,
{
    assert(protocols.push(SocketProtocol::Tcp).drop_last() =~= protocols);
    assert(protocols.push(SocketProtocol::Udp).drop_last() =~= protocols);
    assert(families.push(IpFamily::V4).drop_last() =~= families);
    assert(families.push(IpFamily::V6).drop_last() =~= families);
}

/// Both protocols and both families are asked about unless the filter names some, and
/// the details of connections only of TCP and only where they are wanted.
pub proof fn law_what_a_filter_asks_about(f: SocketFilter)
    ensures
        f.protocols@.len() == 0 ==> protocols_meant(f) == seq![6u8, 17u8],
        f.protocols@ == seq![SocketProtocol::Tcp] ==> protocols_meant(f) == seq![6u8],
        f.protocols@ == seq![SocketProtocol::Udp] ==> protocols_meant(f) == seq![17u8],
        f.families@.len() == 0 ==> families_asked(f) == seq![2u8, 10u8],
        f.families@ == seq![IpFamily::V4] ==> families_asked(f) == seq![2u8],
        f.families@ == seq![IpFamily::V6] ==> families_asked(f) == seq![10u8],
        extensions_asked(f, 17) == 0,
        !f.include_tcp_info ==> extensions_asked(f, 6) == 0,
        f.include_tcp_info ==> extensions_asked(f, 6) == 0xa,
{
    reveal_with_fuel(protocol_numbers, 2);
    reveal_with_fuel(family_numbers, 2);
    if f.protocols@.len() == 1 {
        assert(f.protocols@.drop_last() =~= Seq::empty());
    }
    if f.families@.len() == 1 {
        assert(f.families@.drop_last() =~= Seq::empty());
    }
    assert(Seq::<u8>::empty().push(6u8) =~= seq![6u8]);
    assert(Seq::<u8>::empty().push(17u8) =~= seq![17u8]);
    assert(Seq::<u8>::empty().push(2u8) =~= seq![2u8]);
    assert(Seq::<u8>::empty().push(10u8) =~= seq![10u8]);
}

/// A filter lets a socket through exactly if each of its parts does: its uids, its
/// interfaces, the port of this end and the port of the other.
pub proof fn law_which_sockets_pass(f: SocketFilter, s: Socket)
    ensures
        passes(f)(s) <==> {
            &&& f.uids@.len() > 0 ==> f.uids@.contains(s.uid)
            &&& f.interface_indexes@.len() > 0 ==> f.interface_indexes@.contains(s.interface_index)
            &&& f.local_port != 0 ==> f.local_port == s.local_port
            &&& f.remote_port != 0 ==> f.remote_port == s.remote_port
        },
{
}

/// A listing holds sockets that pass, as many as the limit allows; where it is not full
/// it holds each of them.
pub proof fn law_a_listing_holds_what_passes(all: Seq<Socket>, f: SocketFilter, s: Socket)
    ensures
        rows_of(all, f).contains(s) ==> all.contains(s) && passes(f)(s),
        rows_of(all, f).len() <= if f.limit == 0 {
            4096
        } else {
            f.limit as int
        },
        all.contains(s) && passes(f)(s) && rows_of(all, f).len() < row_limit(f) ==> rows_of(
            all,
            f,
        ).contains(s),
{
    let p = passes(f);
    let passing = all.filter(p);
    let rows = rows_of(all, f);
    if rows.contains(s) {
        let i = rows.index_of(s);
        assert(passing[i] == s);
        all.lemma_filter_pred(p, i);
        assert(passing.contains(s));
        all.lemma_filter_contains_rev(p, s);
    }
    if all.contains(s) && p(s) {
        all.lemma_filter_contains(p, all.index_of(s));
    }
}

// ---- Sockets -----------------------------------------------------------------------

/// A socket's mark is that of its last attribute of one, and the netId is its low half.
pub proof fn law_a_socket_attribute_sets_its_own(
    s: Socket,
    before: Socket,
    attrs: Seq<DiagAttribute>,
    a: DiagAttribute,
)
    requires
        socket_attributes_told(before, attrs),
        socket_attributes_told(s, attrs.push(a)),
    ensures
        s.mark == if let DiagAttribute::Mark(v) = a { v } else { before.mark },
        s.has_mark == (a is Mark || before.has_mark),
        s.net_id == s.mark % 0x1_0000,
        s.congestion_control@ == if let DiagAttribute::Congestion(v) = a {
            v@
        } else {
            before.congestion_control@
        },
        a matches DiagAttribute::TcpInfo(v) ==> (s.tcp_info matches Some(t) && t.rtt_us == v.rtt
            && t.retrans == v.retrans && t.snd_cwnd == v.snd_cwnd && t.unacked == v.unacked),
        !(a is TcpInfo) ==> s.tcp_info == before.tcp_info,
{
    assert(attrs.push(a).drop_last() =~= attrs);
}

/// A connection is retransmitting where segments are out again, or were since the last
/// acknowledgement.
pub proof fn law_when_a_connection_is_retransmitting(s: Socket, attrs: Seq<DiagAttribute>)
    requires
        socket_attributes_told(s, attrs),
        attrs.len() > 0,
        attrs.last() is TcpInfo,
    ensures
        attrs.last() matches DiagAttribute::TcpInfo(v) && (s.tcp_info matches Some(t)
            && t.retransmitting == (v.retrans > 0 || v.retransmits > 0) && t.total_retrans
            == v.total_retrans && t.lost == v.lost && t.sacked == v.sacked && t.pmtu == v.pmtu),
{
}

/// The head of an answer is told as it is: the source is this end and the destination
/// the other.
pub proof fn law_the_head_of_a_socket(
    s: Socket,
    r: InetResponse,
    protocol: u8,
    names: Map<u32, String>,
)
    requires
        socket_head_told(s, r, protocol, names),
    ensures
        s.local_port == r.head.source_port && s.remote_port == r.head.destination_port,
        s.uid == r.head.uid && s.inode == r.head.inode && s.socket_cookie == r.head.cookie,
        s.rx_queue == r.head.recv_queue && s.tx_queue == r.head.send_queue,
        s.interface_index == r.head.interface_id,
        s.family == IpFamily::V4 <==> r.head.family == 2,
        s.protocol == SocketProtocol::Tcp <==> protocol == 6,
        names.contains_key(r.head.interface_id) ==> s.interface_name@ == names[r.head.interface_id]@,
{
}

/// States have the kernel's numbers, from established to closing.
pub proof fn law_states_of_a_socket(n: u8)
    ensures
        tcp_state(n) == TcpState::Established <==> n == 1,
        tcp_state(n) == TcpState::SynSent <==> n == 2,
        tcp_state(n) == TcpState::SynRecv <==> n == 3,
        tcp_state(n) == TcpState::FinWait1 <==> n == 4,
        tcp_state(n) == TcpState::FinWait2 <==> n == 5,
        tcp_state(n) == TcpState::TimeWait <==> n == 6,
        tcp_state(n) == TcpState::Close <==> n == 7,
        tcp_state(n) == TcpState::CloseWait <==> n == 8,
        tcp_state(n) == TcpState::LastAck <==> n == 9,
        tcp_state(n) == TcpState::Listen <==> n == 10,
        tcp_state(n) == TcpState::Closing <==> n == 11,
        tcp_state(n) == TcpState::NewSynRecv <==> n == 12,
{
}

/// A timer tells its kind, when it expires and, where it retransmits, how often it did.
pub proof fn law_what_a_timer_tells(ms: u32, n: u8)
    ensures
        timer_told(Some(DiagTimer::Retransmit { expires_ms: ms, retransmits: n })) == (1u32, ms, n as u32),
        timer_told(Some(DiagTimer::KeepAlive { expires_ms: ms })) == (2u32, ms, 0u32),
        timer_told(Some(DiagTimer::TimeWait)) == (3u32, 0u32, 0u32),
        timer_told(Some(DiagTimer::Probe { expires_ms: ms })) == (4u32, ms, 0u32),
        timer_told(None) == (0u32, 0u32, 0u32),
{
}

/// An IPv6 address that stands for an IPv4 one is told as that one, and every other as it
/// is.
pub proof fn law_mapped_addresses_are_told_as_ipv4(a: u8, b: u8, c: u8, d: u8, o: [u8; 16])
    ensures
        unmapped(IpAddr::V6([0, 0, 0, 0, 0, 0, 0, 0, 0, 0, 0xff, 0xff, a, b, c, d])).octets() == seq![
            a,
            b,
            c,
            d,
        ],
        unmapped(IpAddr::V4([a, b, c, d])) == IpAddr::V4([a, b, c, d]),
        o@[0] != 0 || o@[10] != 0xff || o@[11] != 0xff ==> unmapped(IpAddr::V6(o)) == IpAddr::V6(o),
{
    let m: [u8; 16] = [0, 0, 0, 0, 0, 0, 0, 0, 0, 0, 0xff, 0xff, a, b, c, d];
    assert(crate::ip::is_mapped(m@));
    assert(unmapped(IpAddr::V6(m)).octets() =~= seq![a, b, c, d]);
}

// ---- Counts -------------------------------------------------------------------------

/// One more socket counts for what it is: for its state, for its family, and where it
/// retransmits.
pub proof fn law_a_socket_counts_for_what_it_is(
    m: SocketSummary,
    before: SocketSummary,
    sockets: Seq<Socket>,
    s: Socket,
)
    requires
        counted(before, sockets),
        counted(m, sockets.push(s)),
    ensures
        m.total == before.total + 1,
        m.established == before.established + one_if(s.state == TcpState::Established),
        m.syn_sent == before.syn_sent + one_if(s.state == TcpState::SynSent),
        m.close_wait == before.close_wait + one_if(s.state == TcpState::CloseWait),
        m.fin_wait == before.fin_wait + one_if(
            s.state == TcpState::FinWait1 || s.state == TcpState::FinWait2,
        ),
        m.time_wait == before.time_wait + one_if(s.state == TcpState::TimeWait),
        m.listen == before.listen + one_if(s.state == TcpState::Listen),
        m.v4_count == before.v4_count + one_if(s.family == IpFamily::V4),
        m.v6_count == before.v6_count + one_if(s.family == IpFamily::V6),
        m.retransmitting == before.retransmitting + one_if(
            s.tcp_info matches Some(t) && t.retransmitting,
        ),
{
    assert(sockets.push(s).drop_last() =~= sockets);
}

/// One or nothing.
pub open spec fn one_if(b: bool) -> int {
    if b {
        1
    } else {
        0
    }
}

/// Nothing counts for nothing.
pub proof fn law_no_sockets_count_for_nothing(m: SocketSummary)
    requires
        counted(m, Seq::empty()),
    ensures
        m.total == 0 && m.established == 0 && m.syn_sent == 0 && m.close_wait == 0 && m.fin_wait == 0,
        m.time_wait == 0 && m.listen == 0 && m.v4_count == 0 && m.v6_count == 0 && m.retransmitting == 0,
{
}

} // verus!
