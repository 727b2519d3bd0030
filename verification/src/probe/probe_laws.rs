//! What the probes send and what they take for an answer, told by how a packet is
//! built.
use vstd::prelude::*;
use vstd::utf8::encode_utf8;

use crate::probe::icmp::{echo_packet, is_reply, requests, SocketKind};
use crate::probe::mtu::{
    measured, next_candidate, overhead, search_bound, usual_mtus, worth_probing,
};
use crate::probe::tls::{
    extension, extensions_for, hello_body, hello_bytes, hello_handshake, hello_record, host_list,
    key_entry, names_host, reply_of, tls_ok, HelloReply, TlsOutcome,
};
use crate::wire::be16;

verus! {

// ---- ICMP echo ------------------------------------------------------------------

/// An ICMP message with an id, a sequence number and a payload.
pub open spec fn message(kind: u8, check: (u8, u8), id: (u8, u8), sequence: u16, payload: Seq<u8>) -> Seq<
    u8,
> {
    seq![
        kind,
        0u8,
        check.0,
        check.1,
        id.0,
        id.1,
        (sequence / 256) as u8,
        (sequence % 256) as u8,
    ] + payload
}

/// An echo reply is one of type 0 over IPv4 and of type 129 over IPv6, whatever its
/// id and payload; it answers the request with its own sequence number and no other.
pub proof fn law_a_reply_answers_its_own_request(
    v6: bool,
    kind: u8,
    check: (u8, u8),
    id: (u8, u8),
    sequence: u16,
    payload: Seq<u8>,
    expected: u16,
)
    ensures
        is_reply(message(kind, check, id, sequence, payload), v6, SocketKind::Datagram, expected)
            <==> kind == (if v6 {
            129u8
        } else {
            0u8
        }) && expected == sequence,
{
    let b = message(kind, check, id, sequence, payload);
    assert(b[6] == (sequence / 256) as u8 && b[7] == (sequence % 256) as u8);
}

/// A raw IPv4 socket hands back the IP header in front, however long it is; the reply
/// behind it is read as from a datagram socket.
pub proof fn law_the_ip_header_is_skipped(header: Seq<u8>, reply: Seq<u8>, expected: u16)
    requires
        20 <= header.len() <= 60,
        header.len() % 4 == 0,
        header[0] == 0x40 + header.len() / 4,
    ensures
        is_reply(header + reply, false, SocketKind::Raw, expected) <==> is_reply(
            reply,
            false,
            SocketKind::Datagram,
            expected,
        ),
{
    let b = header + reply;
    let at = header.len() as int;
    assert(b[0] == header[0]);
    assert((b[0] % 16) * 4 == at) by {
        let n = (header.len() / 4) as int;
        assert(5 <= n <= 15);
        assert(b[0] == 64 + n);
        assert((64 + n) % 16 == n);
    }
    if reply.len() >= 8 {
        assert(b[at] == reply[0] && b[at + 6] == reply[6] && b[at + 7] == reply[7]);
    }
}

/// A request is of type 8 over IPv4 and of type 128 over IPv6, and carries the id, the
/// sequence number and the payload as they were given.
pub proof fn law_a_request_carries_what_it_was_given(
    v6: bool,
    id: u16,
    sequence: u16,
    payload: Seq<u8>,
    fill_checksum: bool,
)
    ensures
        ({
            let b = echo_packet(v6, id, sequence, payload, fill_checksum);
            &&& b.len() == 8 + payload.len()
            &&& b[0] == (if v6 {
                128u8
            } else {
                8u8
            })
            &&& b[1] == 0
            &&& b[4] == id / 256 && b[5] == id % 256
            &&& b[6] == sequence / 256 && b[7] == sequence % 256
            &&& b.skip(8) == payload
            &&& !fill_checksum || v6 ==> b[2] == 0 && b[3] == 0
        }),
{
    let b = echo_packet(v6, id, sequence, payload, fill_checksum);
    assert(b.skip(8) =~= payload);
}

/// As many requests are sent as were asked for, and one at least.
pub proof fn law_at_least_one_request_is_sent(count: u16)
    ensures
        requests(count) >= 1,
        count >= 1 ==> requests(count) == count,
{
}

// ---- TLS ------------------------------------------------------------------------

/// A handshake record of any version and length whose message is a ServerHello is
/// taken for one, and no other handshake message is.
pub proof fn law_a_server_hello_is_recognised(version: (u8, u8), length: (u8, u8), kind: u8, rest: Seq<u8>)
    ensures
        reply_of(seq![0x16u8, version.0, version.1, length.0, length.1, kind] + rest) == if kind == 2 {
            HelloReply::ServerHello
        } else {
            HelloReply::NotTls
        },
{
    let b = seq![0x16u8, version.0, version.1, length.0, length.1, kind] + rest;
    assert(b[0] == 0x16 && b[5] == kind);
}

/// An alert record gives its level and its description.
pub proof fn law_an_alert_is_read(version: (u8, u8), length: (u8, u8), level: u8, description: u8, rest: Seq<u8>)
    ensures
        reply_of(
            seq![0x15u8, version.0, version.1, length.0, length.1, level, description] + rest,
        ) == (HelloReply::Alert { level, description }),
{
    let b = seq![0x15u8, version.0, version.1, length.0, length.1, level, description] + rest;
    assert(b[0] == 0x15 && b[5] == level && b[6] == description);
}

/// What begins with neither a handshake nor an alert is no TLS; nothing at all is
/// that the peer closed the connection.
pub proof fn law_other_answers_are_no_tls(b: Seq<u8>)
    ensures
        b.len() == 0 <==> reply_of(b) is Empty,
        b.len() > 0 && b[0] != 0x15 && b[0] != 0x16 ==> reply_of(b) is NotTls,
{
}

/// Only a ServerHello shows that TLS survives the path: silence, an alert and a
/// connection that failed do not.
pub proof fn law_only_a_server_hello_is_a_success(o: TlsOutcome)
    ensures
        tls_ok(o) ==> (o matches TlsOutcome::Answered(b) && reply_of(b@) is ServerHello),
        o matches TlsOutcome::Answered(b) && reply_of(b@) is ServerHello ==> tls_ok(o),
        !(o is Answered) ==> !tls_ok(o),
{
}

/// A ClientHello names the host that is asked for in its first extension, behind two
/// lengths that are right; where there is no name to give, that extension is left out.
pub proof fn law_a_client_hello_names_its_host(server_name: Seq<char>, key_seed: u64, random_seed: u64)
    requires
        encode_utf8(server_name).len() <= 60000,
    ensures
        ({
            let b = hello_bytes(server_name, key_seed, random_seed);
            let host = encode_utf8(server_name);
            let n = host.len();
            &&& b[1] == 3 && b[9] == 3 && b[10] == 3
            &&& names_host(server_name) ==> {
                &&& b.len() >= 67 + n
                &&& b[58] == 0 && b[59] == 0
                &&& b[60] == (n + 5) / 256 && b[61] == (n + 5) % 256
                &&& b[62] == (n + 3) / 256 && b[63] == (n + 3) % 256
                &&& b[64] == 0
                &&& b[65] == n / 256 && b[66] == n % 256
                &&& b.subrange(67, 67 + n as int) == host
            }
            &&& !names_host(server_name) ==> b[58] == 0 && b[59] == 0x2b
        }),
{
    let b = hello_bytes(server_name, key_seed, random_seed);
    let host = encode_utf8(server_name);
    let e = extensions_for(server_name, key_seed);
    lemma_extensions_at(server_name, key_seed, random_seed);
    if names_host(server_name) {
        let list = host_list(host);
        let rest = extension(0x002b, seq![0x04u8, 0x03, 0x04, 0x03, 0x03]) + extension(
            0x000a,
            seq![0x00u8, 0x04, 0x00, 0x1d, 0x00, 0x17],
        ) + extension(0x000d, seq![0x00u8, 0x04, 0x04, 0x03, 0x08, 0x04]) + extension(
            0x0033,
            be16(36) + key_entry(key_seed),
        );
        let first = extension(0x0000, list);
        assert(e =~= first + rest);
        assert(first.len() == 9 + host.len());
        assert(forall|k: int| 0 <= k < host.len() ==> list[5 + k] == host[k]);
        assert(forall|k: int| 0 <= k < list.len() ==> #[trigger] first[4 + k] == list[k]);
        assert forall|k: int| 0 <= k < first.len() implies b[58 + k] == first[k] by {
            assert(e[k] == first[k]);
        }
        assert(b.subrange(67, 67 + host.len() as int) =~= host) by {
            assert forall|k: int| 0 <= k < host.len() implies b[67 + k] == host[k] by {
                assert(b[58 + (9 + k)] == first[9 + k]);
                assert(first[4 + (5 + k)] == list[5 + k]);
            }
        }
        assert(b[58] == first[0] && b[58int + 1] == first[1] && b[58int + 2] == first[2] && b[58int + 3]
            == first[3]);
        assert(b[58int + 4] == first[4int + 0] && b[58int + 5] == first[4int + 1] && b[58int + 6] == first[4int + 2]);
        assert(b[58int + 7] == first[4int + 3] && b[58int + 8] == first[4int + 4]);
    } else {
        assert(b[58int + 0] == e[0] && b[58int + 1] == e[1]);
    }
}

/// Where the extensions of a ClientHello stand.
proof fn lemma_extensions_at(server_name: Seq<char>, key_seed: u64, random_seed: u64)
    ensures
        ({
            let b = hello_bytes(server_name, key_seed, random_seed);
            let e = extensions_for(server_name, key_seed);
            &&& b.len() == 58 + e.len()
            &&& forall|k: int| 0 <= k < e.len() ==> #[trigger] b[58 + k] == e[k]
            &&& b[1] == 3 && b[9] == 3 && b[10] == 3
        }),
{
    let e = extensions_for(server_name, key_seed);
    let body = hello_body(server_name, key_seed, random_seed);
    let hs = hello_handshake(body);
    let b = hello_record(hs);
    assert(body.len() == 49 + e.len());
    assert(forall|k: int| 0 <= k < e.len() ==> #[trigger] body[49 + k] == e[k]);
    assert(body[0] == 3 && body[1] == 3);
    assert(forall|k: int| 0 <= k < body.len() ==> #[trigger] hs[4 + k] == body[k]);
    assert(forall|k: int| 0 <= k < hs.len() ==> #[trigger] b[5 + k] == hs[k]);
    assert forall|k: int| 0 <= k < e.len() implies #[trigger] b[58 + k] == e[k] by {
        assert(b[5 + (53 + k)] == hs[4 + (49 + k)]);
    }
    assert(b[5int + 4] == hs[4int + 0] && b[5int + 5] == hs[4int + 1]);
}

// ---- Path MTU -------------------------------------------------------------------

/// An echo that is to fill an MTU leaves room for the IP header, of 20 bytes or of 40
/// over IPv6, and for the 8 bytes of its own.
pub proof fn law_overhead_is_both_headers()
    ensures
        overhead(false) == 20 + 8,
        overhead(true) == 40 + 8,
{
}

/// No size beyond the local link is probed, nor one below what the family permits; the
/// link's own size is, where it is permitted, and so is the floor of IPv6.
pub proof fn law_the_search_stays_on_the_link(m: usize, interface_mtu: usize)
    ensures
        forall|v6: bool| #[trigger] worth_probing(m, interface_mtu, v6) ==> m <= interface_mtu,
        worth_probing(m, interface_mtu, true) ==> m >= 1280,
        worth_probing(m, interface_mtu, true) ==> worth_probing(m, interface_mtu, false),
        m >= 1280 && m <= interface_mtu ==> worth_probing(m, interface_mtu, true),
        usual_mtus().contains(1500) && usual_mtus().contains(1280),
{
    assert(usual_mtus()[0] == 1500 && usual_mtus()[6] == 1280);
}

/// The search is bounded by the interface's MTU, and by Ethernet's where that is not
/// known.
pub proof fn law_the_bound_is_the_interfaces(interface_mtu: u32)
    ensures
        interface_mtu > 0 ==> search_bound(interface_mtu) == interface_mtu,
        interface_mtu == 0 ==> search_bound(interface_mtu) == 1500,
{
}

/// Sizes are probed in their order until one is answered: as long as none was, the
/// next one is, and after an answer none is.
pub proof fn law_sizes_are_probed_until_one_is_answered(candidates: Seq<usize>, answered: Seq<bool>)
    ensures
        answered.contains(true) ==> next_candidate(candidates, answered) is None,
        !answered.contains(true) && answered.len() < candidates.len() ==> next_candidate(
            candidates,
            answered,
        ) == Some(candidates[answered.len() as int]),
        answered.len() >= candidates.len() ==> next_candidate(candidates, answered) is None,
{
}

/// The path MTU lies between the first size that was answered and the one before it;
/// where the first size of all was answered, nothing failed, and where none was,
/// nothing is claimed.
pub proof fn law_the_first_answer_is_the_measurement(candidates: Seq<usize>, answered: Seq<bool>, k: int)
    requires
        answered.len() <= candidates.len(),
        0 <= k <= answered.len(),
        forall|i: int| 0 <= i < k ==> !#[trigger] answered[i],
        k < answered.len() ==> answered[k],
    ensures
        measured(candidates, answered).0 == if k < answered.len() {
            Some(candidates[k])
        } else {
            None
        },
        measured(candidates, answered).1 == if k > 0 {
            Some(candidates[k - 1])
        } else {
            None
        },
    decreases answered.len(),
{
    if answered.len() > 0 {
        let front = answered.drop_last();
        if k < answered.len() {
            if k < front.len() {
                assert(front[k] == answered[k]);
            }
            assert forall|i: int| 0 <= i < k implies !#[trigger] front[i] by {
                assert(front[i] == answered[i]);
            }
            law_the_first_answer_is_the_measurement(candidates, front, k);
        } else {
            assert forall|i: int| 0 <= i < k - 1 implies !#[trigger] front[i] by {
                assert(front[i] == answered[i]);
            }
            law_the_first_answer_is_the_measurement(candidates, front, k - 1);
            assert(!answered[k - 1]);
        }
    }
}

} // verus!
