//! What a DNS message means, told by how one is built.
use vstd::prelude::*;

use crate::ip::IpAddr;
use crate::probe::dns::{
    answers, embedding, name_end, prefix_bytes, query_bytes, questions_end, reply_addresses,
    reply_told, resolved, DnsAnswer, DnsError, DnsReply, RCode,
};
use crate::wire::u16_at;

verus! {

/// A name as labels with their lengths in front, and an empty label behind.
pub open spec fn encoded(labels: Seq<Seq<u8>>) -> Seq<u8>
    decreases labels.len(),
{
    if labels.len() == 0 {
        seq![0u8]
    } else {
        seq![labels[0].len() as u8] + labels[0] + encoded(labels.skip(1))
    }
}

/// Whether the labels are those of a name: none is empty or longer than 63 bytes.
pub open spec fn is_name(labels: Seq<Seq<u8>>) -> bool {
    &&& labels.len() <= 128
    &&& forall|i: int| 0 <= i < labels.len() ==> 1 <= (#[trigger] labels[i]).len() <= 63
}

/// The bytes of an address.
pub open spec fn octets(ip: IpAddr) -> Seq<u8> {
    match ip {
        IpAddr::V4(o) => o@,
        IpAddr::V6(o) => o@,
    }
}

/// A record of an address: a pointer to the question's name, the type (1 for IPv4
/// and 28 for IPv6), the class, a lifetime, the length and the address.
pub open spec fn record(ip: IpAddr, ttl: Seq<u8>) -> Seq<u8> {
    seq![
        0xc0u8,
        0x0c,
        0,
        if ip is V4 {
            1
        } else {
            28
        },
        0,
        1,
        ttl[0],
        ttl[1],
        ttl[2],
        ttl[3],
        0,
        octets(ip).len() as u8,
    ] + octets(ip)
}

pub open spec fn records(list: Seq<IpAddr>, ttl: Seq<u8>) -> Seq<u8>
    decreases list.len(),
{
    if list.len() == 0 {
        Seq::empty()
    } else {
        record(list[0], ttl) + records(list.skip(1), ttl)
    }
}

/// The addresses of one family, in their order.
pub open spec fn of_family(list: Seq<IpAddr>, v6: bool) -> Seq<IpAddr>
    decreases list.len(),
{
    if list.len() == 0 {
        Seq::empty()
    } else if (list[0] is V6) == v6 {
        seq![list[0]] + of_family(list.skip(1), v6)
    } else {
        of_family(list.skip(1), v6)
    }
}

/// A response with one question and these answers. `flags` are its two bytes of
/// flags, and `class` the type and class of its question.
pub open spec fn response(
    id: u16,
    flags: (u8, u8),
    name: Seq<Seq<u8>>,
    class: Seq<u8>,
    list: Seq<IpAddr>,
    ttl: Seq<u8>,
) -> Seq<u8> {
    seq![
        (id / 256) as u8,
        (id % 256) as u8,
        flags.0,
        flags.1,
        0,
        1,
        (list.len() / 256) as u8,
        (list.len() % 256) as u8,
        0,
        0,
        0,
        0,
    ] + encoded(name) + class + records(list, ttl)
}

proof fn lemma_name_walked(b: Seq<u8>, at: int, steps: nat, labels: Seq<Seq<u8>>)
    requires
        0 <= at,
        at + encoded(labels).len() <= b.len(),
        b.subrange(at, at + encoded(labels).len()) == encoded(labels),
        labels.len() + steps <= 128,
        forall|i: int| 0 <= i < labels.len() ==> 1 <= (#[trigger] labels[i]).len() <= 63,
    ensures
        name_end(b, at, steps) == Ok::<int, DnsError>(at + encoded(labels).len()),
    decreases labels.len(),
{
    let e = encoded(labels);
    let here = b.subrange(at, at + e.len());
    assert(here[0] == b[at]);
    if labels.len() > 0 {
        let n = labels[0].len() as int;
        let rest = encoded(labels.skip(1));
        assert(e.len() == 1 + n + rest.len());
        assert(b[at] == n);
        let next = at + 1 + n;
        assert(b.subrange(next, next + rest.len()) =~= rest) by {
            assert forall|k: int| 0 <= k < rest.len() implies b[next + k] == rest[k] by {
                assert(here[1 + n + k] == e[1 + n + k]);
                assert(e[1 + n + k] == rest[k]);
            }
        }
        assert forall|i: int| 0 <= i < labels.skip(1).len() implies 1 <= (
        #[trigger] labels.skip(1)[i]).len() <= 63 by {
            assert(labels.skip(1)[i] == labels[i + 1]);
        }
        lemma_name_walked(b, next, steps + 1, labels.skip(1));
    }
}

proof fn lemma_records_read(b: Seq<u8>, at: int, list: Seq<IpAddr>, ttl: Seq<u8>, v6: bool)
    requires
        0 <= at <= b.len(),
        b.skip(at) == records(list, ttl),
    ensures
        answers(
            b,
            at,
            list.len(),
            if v6 {
                28
            } else {
                1
            },
        ) == Ok::<Seq<IpAddr>, DnsError>(of_family(list, v6)),
    decreases list.len(),
{
    let tail = b.skip(at);
    if list.len() == 0 {
        assert(of_family(list, v6) =~= Seq::empty());
    } else {
        let r = record(list[0], ttl);
        let n = octets(list[0]).len() as int;
        assert(n == 4 || n == 16);
        assert(r.len() == 12 + n);
        let rest = records(list.skip(1), ttl);
        assert(tail.len() == r.len() + rest.len());
        assert forall|k: int| 0 <= k < 12 + n implies b[at + k] == r[k] by {
            assert(tail[k] == b[at + k]);
        }
        assert(b[at] == r[0] && b[at + 1] == r[1]);
        assert(name_end(b, at, 0) == Ok::<int, DnsError>(at + 2));
        assert(b[at + 2] == r[2] && b[at + 3] == r[3]);
        assert(b[at + 10] == r[10] && b[at + 11] == r[11]);
        assert(u16_at(b, at + 10) == n);
        assert(u16_at(b, at + 2) == if list[0] is V4 {
            1int
        } else {
            28
        });
        let next = at + 12 + n;
        assert(b.skip(next) =~= rest) by {
            assert forall|k: int| 0 <= k < rest.len() implies b[next + k] == rest[k] by {
                assert(tail[12 + n + k] == (r + rest)[12 + n + k]);
            }
        }
        lemma_records_read(b, next, list.skip(1), ttl, v6);
        assert(b.subrange(at + 12, at + 12 + n) =~= octets(list[0])) by {
            assert forall|k: int| 0 <= k < n implies b[at + 12 + k] == octets(list[0])[k] by {
                assert(r[12 + k] == octets(list[0])[k]);
            }
        }
        let q: u16 = if v6 { 28 } else { 1 };
        let given = b.subrange(at + 12, at + 12 + n);
        assert(IpAddr::of(octets(list[0])) == Some(list[0])) by {
            crate::ip::law_address_bytes_round_trip(list[0]);
        }
    }
}

/// A response to a question holds the addresses that its records were made of, in
/// their order: an A question gives the IPv4 addresses and an AAAA question the IPv6
/// ones, whatever the name, the flags and the lifetimes.
pub proof fn law_a_response_gives_its_addresses(
    id: u16,
    flags: (u8, u8),
    name: Seq<Seq<u8>>,
    class: Seq<u8>,
    list: Seq<IpAddr>,
    ttl: Seq<u8>,
    v6: bool,
)
    requires
        is_name(name),
        class.len() == 4,
        ttl.len() == 4,
        list.len() <= 0xffff,
    ensures
        reply_addresses(
            response(id, flags, name, class, list, ttl),
            id,
            if v6 {
                28
            } else {
                1
            },
        ) == Ok::<Seq<IpAddr>, DnsError>(of_family(list, v6)),
{
    let b = response(id, flags, name, class, list, ttl);
    let e = encoded(name);
    assert(u16_at(b, 0) == id);
    assert(u16_at(b, 4) == 1);
    assert(u16_at(b, 6) == list.len());
    assert(b.subrange(12, 12 + e.len() as int) =~= e);
    lemma_name_walked(b, 12, 0, name);
    let at = 12 + e.len() + 4;
    reveal_with_fuel(questions_end, 2);
    assert(questions_end(b, 12, 1) == Ok::<int, DnsError>(at as int));
    assert(b.skip(at as int) =~= records(list, ttl));
    lemma_records_read(b, at as int, list, ttl, v6);
}

/// In particular a list of one family is given back as it is, to a question of that
/// family, and gives nothing to a question of the other.
pub proof fn law_one_family_is_given_back(list: Seq<IpAddr>, v6: bool)
    requires
        forall|i: int| 0 <= i < list.len() ==> ((#[trigger] list[i]) is V6) == v6,
    ensures
        of_family(list, v6) == list,
        of_family(list, !v6).len() == 0,
    decreases list.len(),
{
    if list.len() > 0 {
        assert forall|i: int| 0 <= i < list.skip(1).len() implies ((#[trigger] list.skip(1)[i]) is V6) == v6 by {
            assert(list.skip(1)[i] == list[i + 1]);
        }
        law_one_family_is_given_back(list.skip(1), v6);
        assert(list[0] == list[0]);
        assert(seq![list[0]] + list.skip(1) =~= list);
    } else {
        assert(of_family(list, v6) =~= list);
    }
}

/// A response under another id than the query's is refused, so that a late reply to
/// an earlier probe is not taken for an answer; so is one without a whole header.
pub proof fn law_only_the_query_is_answered(b: Seq<u8>, id: u16, qtype: u16)
    ensures
        b.len() < 12 ==> reply_addresses(b, id, qtype) == Err::<Seq<IpAddr>, DnsError>(
            DnsError::ShortHeader,
        ),
        b.len() >= 12 && !(b[0] == id / 256 && b[1] == id % 256) ==> reply_addresses(b, id, qtype) is Err,
{
}

/// The response codes have the numbers that DNS gives them.
pub proof fn law_response_codes(n: u8)
    ensures
        RCode::of(n) is NoError <==> n == 0,
        RCode::of(n) is FormErr <==> n == 1,
        RCode::of(n) is ServFail <==> n == 2,
        RCode::of(n) is NxDomain <==> n == 3,
        RCode::of(n) is NotImp <==> n == 4,
        RCode::of(n) is Refused <==> n == 5,
        RCode::of(n) matches RCode::Other(m) ==> m == n,
{
}

/// A reply tells the flags of its message, by their bits, its code and how many answers
/// it announces.
pub proof fn law_flags_of_a_reply(r: DnsReply, b: Seq<u8>, id: u16, qtype: u16)
    requires
        reply_told(Ok(r), b, id, qtype),
    ensures
        r.truncated <==> b[2] & 0x2 != 0,
        r.authoritative <==> b[2] & 0x4 != 0,
        b[3] & 0xf == 0 <==> r.rcode is NoError,
        b[3] & 0xf == 3 <==> r.rcode is NxDomain,
        r.answer_count == 0x100 * b[6] + b[7],
        reply_addresses(b, id, qtype) == Ok::<Seq<IpAddr>, DnsError>(r.addresses@),
{
    let (f, c) = (b[2], b[3]);
    assert((f / 2 % 2 == 1 <==> f & 0x2 != 0) && (f / 4 % 2 == 1 <==> f & 0x4 != 0)) by (bit_vector);
    assert(c % 16 == c & 0xf) by (bit_vector);
}

/// A lookup has succeeded exactly where the server reports no error and gives an
/// address: an empty answer is no success, nor is an error that carries addresses.
pub proof fn law_a_lookup_succeeds_with_addresses(a: DnsAnswer)
    ensures
        resolved(a) ==> a.addresses@.len() >= 1 && a.rcode == RCode::NoError,
        a.rcode == RCode::NoError && a.addresses@.len() >= 1 ==> resolved(a),
{
}

/// A query carries its id, asks for recursion with one question and nothing else, and
/// ends with the type that is asked for and the class of the internet.
pub proof fn law_a_query_asks_what_it_is_for(id: u16, name: Seq<char>, qtype: u16)
    ensures
        ({
            let q = query_bytes(id, name, qtype);
            let n = q.len() as int;
            &&& n >= 17
            &&& q[0] == id / 256 && q[1] == id % 256
            &&& q[2] == 1 && q[3] == 0
            &&& q[4] == 0 && q[5] == 1
            &&& forall|i: int| 6 <= i < 12 ==> q[i] == 0
            &&& q[n - 5] == 0
            &&& q[n - 4] == qtype / 256 && q[n - 3] == qtype % 256
            &&& q[n - 2] == 0 && q[n - 1] == 1
        }),
{
}

/// The place of a byte of an IPv4 address behind a prefix: from the end of the prefix
/// on, without the ninth byte, which is reserved.
pub open spec fn place(len: int, j: int) -> int {
    let k = len / 8 + j;
    if len <= 64 && k >= 8 {
        k + 1
    } else {
        k
    }
}

/// Whether an address has 192.0.0.170 or 192.0.0.171 behind a prefix of a length.
pub open spec fn synthesised(o: Seq<u8>, len: int) -> bool {
    &&& o[place(len, 0)] == 192
    &&& o[place(len, 1)] == 0
    &&& o[place(len, 2)] == 0
    &&& o[place(len, 3)] == 170 || o[place(len, 3)] == 171
}

pub open spec fn is_standard_length(len: int) -> bool {
    len == 32 || len == 40 || len == 48 || len == 56 || len == 64 || len == 96
}

/// A NAT64 prefix is found at the shortest standard length behind which a well-known
/// address stands, and nowhere else; its bytes are kept and those behind it are zero.
pub proof fn law_a_synthesised_address_reveals_its_prefix(o: Seq<u8>, len: int)
    requires
        o.len() == 16,
        is_standard_length(len),
    ensures
        embedding(o) == Some(len as u8) <==> synthesised(o, len) && forall|shorter: int|
            is_standard_length(shorter) && shorter < len ==> !#[trigger] synthesised(o, shorter),
        embedding(o) is None ==> !synthesised(o, len),
        prefix_bytes(o, len).len() == 16,
        forall|i: int| 0 <= i < 16 && 8 * i < len ==> #[trigger] prefix_bytes(o, len)[i] == o[i],
        forall|i: int| 0 <= i < 16 && 8 * i >= len ==> #[trigger] prefix_bytes(o, len)[i] == 0,
{
    let first = embedding(o);
    assert(first == if synthesised(o, 32) {
        Some(32u8)
    } else if synthesised(o, 40) {
        Some(40u8)
    } else if synthesised(o, 48) {
        Some(48u8)
    } else if synthesised(o, 56) {
        Some(56u8)
    } else if synthesised(o, 64) {
        Some(64u8)
    } else if synthesised(o, 96) {
        Some(96u8)
    } else {
        None
    });
    if synthesised(o, len) && forall|shorter: int|
        is_standard_length(shorter) && shorter < len ==> !#[trigger] synthesised(o, shorter) {
        assert(len > 32 ==> !synthesised(o, 32));
        assert(len > 40 ==> !synthesised(o, 40));
        assert(len > 48 ==> !synthesised(o, 48));
        assert(len > 56 ==> !synthesised(o, 56));
        assert(len > 64 ==> !synthesised(o, 64));
    }
}

} // verus!
