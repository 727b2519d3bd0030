//! A minimal DNS client: the messages it sends and reads, and what it makes of
//! an answer.
//!
//! The raw RCODE and the exact latency matter here, and it has to work when
//! the system resolver is exactly what is broken.
use vstd::prelude::*;
use vstd::utf8::encode_utf8;

use crate::ip::{IpAddr, SocketAddr};
use crate::probe::{said_pairs, ProbeContext, ProbeResult};
use crate::text::{
    dec, dec_string, join, join_texts, split, split_text, texts, trim_end_of, truth, truth_str,
};
use crate::wire::{be16, push_be16, push_bytes, read_u16, u16_at};

verus! {

pub const TYPE_A: u16 = 1;

pub const TYPE_AAAA: u16 = 28;

#[derive(Clone, Copy, Debug, PartialEq, Eq, Structural)]
pub enum RCode {
    NoError,
    FormErr,
    ServFail,
    NxDomain,
    NotImp,
    Refused,
    Other(u8),
}

impl RCode {
    /// The response code with a number.
    pub open spec fn of(v: u8) -> RCode {
        match v {
            0 => RCode::NoError,
            1 => RCode::FormErr,
            2 => RCode::ServFail,
            3 => RCode::NxDomain,
            4 => RCode::NotImp,
            5 => RCode::Refused,
            other => RCode::Other(other),
        }
    }

    pub fn from_u8(v: u8) -> (r: Self)
        ensures
            r == RCode::of(v),
    {
        match v {
            0 => RCode::NoError,
            1 => RCode::FormErr,
            2 => RCode::ServFail,
            3 => RCode::NxDomain,
            4 => RCode::NotImp,
            5 => RCode::Refused,
            other => RCode::Other(other),
        }
    }

    pub open spec fn text(self) -> Seq<char> {
        match self {
            RCode::NoError => "NOERROR"@,
            RCode::FormErr => "FORMERR"@,
            RCode::ServFail => "SERVFAIL"@,
            RCode::NxDomain => "NXDOMAIN"@,
            RCode::NotImp => "NOTIMP"@,
            RCode::Refused => "REFUSED"@,
            RCode::Other(v) => "RCODE"@ + dec(v as nat),
        }
    }

    pub fn name(&self) -> (r: String)
        ensures
            r@ == self.text(),
    {
        match self {
            RCode::NoError => String::from_str("NOERROR"),
            RCode::FormErr => String::from_str("FORMERR"),
            RCode::ServFail => String::from_str("SERVFAIL"),
            RCode::NxDomain => String::from_str("NXDOMAIN"),
            RCode::NotImp => String::from_str("NOTIMP"),
            RCode::Refused => String::from_str("REFUSED"),
            RCode::Other(v) => {
                let d = dec_string(*v as u64);
                String::from_str("RCODE").concat(d.as_str())
            },
        }
    }
}

#[derive(Clone, Debug)]
pub struct DnsAnswer {
    pub addresses: Vec<IpAddr>,
    pub rcode: RCode,
    pub truncated: bool,
    pub authoritative: bool,
    pub answer_count: u16,
    pub duration_ms: u64,
    pub server: SocketAddr,
}

/// What is wrong with a message.
#[derive(Clone, Copy, Debug, PartialEq, Eq, Structural)]
pub enum DnsError {
    ShortHeader,
    WrongId { got: u16, want: u16 },
    NamePastEnd,
    TruncatedPointer,
    TooManyLabels,
}

impl DnsError {
    pub open spec fn text(self) -> Seq<char> {
        match self {
            DnsError::ShortHeader => "DNS response is shorter than a header"@,
            DnsError::WrongId { got, want } => "DNS response id "@ +
                dec(got as nat) +
                " does not match the query id "@ +
                dec(want as nat),
            DnsError::NamePastEnd => "DNS name runs past the end of the message"@,
            DnsError::TruncatedPointer => "truncated DNS compression pointer"@,
            DnsError::TooManyLabels => "DNS name has too many labels; refusing to loop"@,
        }
    }

    pub fn message(&self) -> (r: String)
        ensures
            r@ == self.text(),
    {
        match self {
            DnsError::ShortHeader => String::from_str("DNS response is shorter than a header"),
            DnsError::WrongId { got, want } => {
                let a = dec_string(*got as u64);
                let b = dec_string(*want as u64);
                String::from_str("DNS response id ")
                    .concat(a.as_str())
                    .concat(" does not match the query id ")
                    .concat(b.as_str())
            },
            DnsError::NamePastEnd => String::from_str("DNS name runs past the end of the message"),
            DnsError::TruncatedPointer => String::from_str("truncated DNS compression pointer"),
            DnsError::TooManyLabels => String::from_str(
                "DNS name has too many labels; refusing to loop",
            ),
        }
    }
}

// ---- Queries ----------------------------------------------------------------

/// The labels of a name: the pieces between dots that are not empty.
pub open spec fn name_labels(name: Seq<char>) -> Seq<Seq<char>> {
    split(trim_end_of(name, '.'), '.')
}

/// The first label that has more than 63 bytes.
pub open spec fn long_label(labels: Seq<Seq<char>>) -> Option<Seq<char>>
    decreases labels.len(),
{
    if labels.len() == 0 {
        None
    } else {
        match long_label(labels.drop_last()) {
            Some(l) => Some(l),
            None => if encode_utf8(labels.last()).len() > 63 {
                Some(labels.last())
            } else {
                None
            },
        }
    }
}

/// Labels as they stand in a message: each with its length in front. An empty
/// one is left out.
pub open spec fn label_bytes(labels: Seq<Seq<char>>) -> Seq<u8>
    decreases labels.len(),
{
    if labels.len() == 0 {
        Seq::empty()
    } else {
        let front = label_bytes(labels.drop_last());
        let bytes = encode_utf8(labels.last());
        if labels.last().len() == 0 {
            front
        } else {
            front.push(bytes.len() as u8) + bytes
        }
    }
}

/// A standard recursive query with one question.
pub open spec fn query_bytes(id: u16, name: Seq<char>, qtype: u16) -> Seq<u8> {
    be16(id as nat) + be16(0x0100) + be16(1) + be16(0) + be16(0) + be16(0) + label_bytes(
        name_labels(name),
    ) + seq![0u8] + be16(qtype as nat) + be16(1)
}

/// Encode a standard recursive query, without EDNS: the point is to test the
/// resolver path, not to negotiate features with it. A label of more than 63
/// bytes is refused.
pub fn encode_query(id: u16, name: &str, qtype: u16) -> (r: Result<Vec<u8>, String>)
    ensures
        match r {
            Ok(q) => long_label(name_labels(name@)) is None && q@ == query_bytes(id, name@, qtype),
            Err(e) => long_label(name_labels(name@)) is Some && e@ == "DNS label '"@ + long_label(name_labels(name@))->0 + "' exceeds 63 bytes"@,
        },
{
    let mut buf: Vec<u8> = Vec::new();
    push_be16(&mut buf, id as u64);
    // QR=0 OPCODE=0 AA=0 TC=0 RD=1, RA=0 Z=0 RCODE=0
    push_be16(&mut buf, 0x0100);
    push_be16(&mut buf, 1);
    push_be16(&mut buf, 0);
    push_be16(&mut buf, 0);
    push_be16(&mut buf, 0);
    let ghost head = buf@;
    assert(head =~= be16(id as nat) + be16(0x0100) + be16(1) + be16(0) + be16(0) + be16(0));
    let chars = crate::text::to_chars(name);
    let mut end: usize = chars.len();
    assert(name@.take(end as int) =~= name@);
    while end > 0 && chars[end - 1] == '.'
        invariant
            end <= chars.len(),
            chars@ == name@,
            trim_end_of(name@.take(end as int), '.') == trim_end_of(name@, '.'),
        decreases end,
    {
        assert(name@.take(end as int).drop_last() =~= name@.take(end - 1));
        end -= 1;
    }
    let trimmed = crate::text::from_chars(&chars, 0, end);
    assert(trimmed@ =~= name@.take(end as int));
    assert(trimmed@ == trim_end_of(name@, '.'));
    let labels = split_text(trimmed.as_str(), '.');
    let ghost all = name_labels(name@);
    let mut i: usize = 0;
    assert(all.take(0) =~= Seq::empty());
    assert(head + label_bytes(all.take(0)) =~= head);
    while i < labels.len()
        invariant
            i <= labels.len(),
            all == texts(labels@),
            all == name_labels(name@),
            long_label(all.take(i as int)) is None,
            buf@ == head + label_bytes(all.take(i as int)),
        decreases labels.len() - i,
    {
        assert(all.take(i + 1).drop_last() =~= all.take(i as int));
        let label = labels[i].as_str();
        assert(all[i as int] == label@);
        let bytes = label.as_bytes();
        if label.unicode_len() > 0 {
            if bytes.len() > 63 {
                proof {
                    lemma_long_label_prefix(all, i + 1);
                }
                return Err(String::from_str("DNS label '").concat(label).concat("' exceeds 63 bytes"));
            }
            let ghost before = buf@;
            buf.push(bytes.len() as u8);
            push_bytes(&mut buf, bytes);
            assert(buf@ =~= head + label_bytes(all.take(i + 1)));
        } else {
            assert(label@ =~= Seq::empty());
            assert(encode_utf8(label@).len() == 0);
        }
        i += 1;
    }
    assert(all.take(all.len() as int) =~= all);
    buf.push(0);
    push_be16(&mut buf, qtype as u64);
    push_be16(&mut buf, 1);
    assert(buf@ =~= query_bytes(id, name@, qtype));
    Ok(buf)
}

proof fn lemma_long_label_prefix(labels: Seq<Seq<char>>, i: int)
    requires
        0 <= i <= labels.len(),
        long_label(labels.take(i)) is Some,
    ensures
        long_label(labels) == long_label(labels.take(i)),
    decreases labels.len() - i,
{
    if i == labels.len() {
        assert(labels.take(i) =~= labels);
    } else {
        assert(labels.take(i + 1).drop_last() =~= labels.take(i));
        lemma_long_label_prefix(labels, i + 1);
    }
}

/// A dot at the end of a name changes nothing.
pub proof fn law_trailing_dot(id: u16, name: Seq<char>, qtype: u16)
    ensures
        query_bytes(id, name.push('.'), qtype) == query_bytes(id, name, qtype),
{
    assert(name.push('.').drop_last() =~= name);
    assert(trim_end_of(name.push('.'), '.') == trim_end_of(name, '.'));
}

/// The id of a query, from a reading of the clock. A fixed id would let a
/// stale reply from a previous probe be accepted.
pub fn query_id(monotonic_ns: u64) -> (r: u16)
    ensures
        r == if monotonic_ns % 2 == 1 {
            (monotonic_ns % 0x1_0000) as int
        } else {
            monotonic_ns % 0x1_0000 + 1
        },
{
    let low: u16 = (monotonic_ns % 0x1_0000) as u16;
    assert(low % 2 == monotonic_ns % 2);
    if low % 2 == 1 {
        low
    } else {
        low + 1
    }
}

// ---- Responses --------------------------------------------------------------

/// Where a name that starts at `at` ends, after `steps` labels of it. A name
/// ends with an empty label or with a compression pointer; at most 128 other
/// labels stand before that.
pub open spec fn name_end(b: Seq<u8>, at: int, steps: nat) -> Result<int, DnsError>
    decreases 130 - steps,
{
    if at >= b.len() {
        Err(DnsError::NamePastEnd)
    } else if b[at] >= 0xc0 {
        if at + 1 >= b.len() {
            Err(DnsError::TruncatedPointer)
        } else {
            Ok(at + 2)
        }
    } else if b[at] == 0 {
        Ok(at + 1)
    } else if steps >= 128 {
        Err(DnsError::TooManyLabels)
    } else {
        name_end(b, at + 1 + b[at], steps + 1)
    }
}

/// Walk a (possibly compressed) domain name and return the offset just past
/// it. The name itself is never needed, only to skip it correctly.
pub fn skip_name(buf: &[u8], offset: usize) -> (r: Result<usize, DnsError>)
    ensures
        match r {
            Ok(end) => name_end(buf@, offset as int, 0) == Ok::<int, DnsError>(end as int) && end
                <= buf@.len(),
            Err(e) => name_end(buf@, offset as int, 0) == Err::<int, DnsError>(e),
        },
{
    let mut at: usize = offset;
    let mut steps: usize = 0;
    loop
        invariant
            steps <= 128,
            name_end(buf@, offset as int, 0) == name_end(buf@, at as int, steps as nat),
        decreases 130 - steps,
    {
        if at >= buf.len() {
            return Err(DnsError::NamePastEnd);
        }
        let len = buf[at];
        if len >= 0xc0 {
            // Compression pointer: two bytes, and the name ends here.
            if buf.len() - at < 2 {
                return Err(DnsError::TruncatedPointer);
            }
            return Ok(at + 2);
        }
        if len == 0 {
            return Ok(at + 1);
        }
        if steps >= 128 {
            return Err(DnsError::TooManyLabels);
        }
        if len as usize >= buf.len() - at - 1 {
            assert(name_end(buf@, at + 1 + len, (steps + 1) as nat) is Err);
            return Err(DnsError::NamePastEnd);
        }
        at = at + 1 + len as usize;
        steps += 1;
    }
}

/// Where the questions of a message end.
pub open spec fn questions_end(b: Seq<u8>, at: int, n: nat) -> Result<int, DnsError>
    decreases n,
{
    if n == 0 {
        Ok(at)
    } else {
        match name_end(b, at, 0) {
            Ok(end) => questions_end(b, end + 4, (n - 1) as nat),
            Err(e) => Err(e),
        }
    }
}

/// The address in a record of the type that was asked for.
pub open spec fn record_address(b: Seq<u8>, at: int, qtype: u16) -> Option<IpAddr> {
    let rtype = u16_at(b, at);
    let len = u16_at(b, at + 8);
    if rtype == qtype && ((qtype == TYPE_A && len == 4) || (qtype == TYPE_AAAA && len == 16)) {
        IpAddr::of(b.subrange(at + 10, at + 10 + len))
    } else {
        None
    }
}

/// The addresses in the records from `at` on. A message that ends before its
/// last record is read as far as it goes; a name that cannot be skipped is an
/// error.
pub open spec fn answers(b: Seq<u8>, at: int, n: nat, qtype: u16) -> Result<Seq<IpAddr>, DnsError>
    decreases n,
{
    if n == 0 || at >= b.len() {
        Ok(Seq::empty())
    } else {
        match name_end(b, at, 0) {
            Err(e) => Err(e),
            Ok(end) => {
                if end + 10 > b.len() || end + 10 + u16_at(b, end + 8) > b.len() {
                    Ok(Seq::empty())
                } else {
                    match answers(b, end + 10 + u16_at(b, end + 8), (n - 1) as nat, qtype) {
                        Err(e) => Err(e),
                        Ok(rest) => match record_address(b, end, qtype) {
                            Some(ip) => Ok(seq![ip] + rest),
                            None => Ok(rest),
                        },
                    }
                }
            },
        }
    }
}

/// What a response says: its addresses, its code, whether it was truncated,
/// whether it is authoritative, and how many records it announces.
pub struct DnsReply {
    pub addresses: Vec<IpAddr>,
    pub rcode: RCode,
    pub truncated: bool,
    pub authoritative: bool,
    pub answer_count: u16,
}

/// The addresses that a response holds, or what is wrong with it.
pub open spec fn reply_addresses(b: Seq<u8>, expect_id: u16, qtype: u16) -> Result<
    Seq<IpAddr>,
    DnsError,
> {
    if b.len() < 12 {
        Err(DnsError::ShortHeader)
    } else if u16_at(b, 0) != expect_id {
        Err(DnsError::WrongId { got: u16_at(b, 0) as u16, want: expect_id })
    } else {
        match questions_end(b, 12, u16_at(b, 4)) {
            Err(e) => Err(e),
            Ok(at) => answers(b, at, u16_at(b, 6), qtype),
        }
    }
}

fn skip_questions(buf: &[u8], n: u16) -> (r: Result<usize, DnsError>)
    requires
        buf@.len() >= 12,
    ensures
        match r {
            Ok(at) => match questions_end(buf@, 12, n as nat) {
                Ok(end) => end == at || (end >= buf@.len() && at >= buf@.len()),
                Err(_) => false,
            },
            Err(e) => questions_end(buf@, 12, n as nat) == Err::<int, DnsError>(e),
        },
{
    let total = buf.len();
    let mut at: usize = 12;
    let mut i: u16 = 0;
    let ghost mut place: int = 12;
    while i < n
        invariant
            i <= n,
            total == buf@.len(),
            questions_end(buf@, 12, n as nat) == questions_end(buf@, place, (n - i) as nat),
            at == place || (place >= buf@.len() && at >= buf@.len()),
        decreases n - i,
    {
        match skip_name(buf, at) {
            Ok(end) => {
                at = end.saturating_add(4);
                proof {
                    place = end + 4;
                }
            },
            Err(e) => {
                return Err(e);
            },
        }
        i += 1;
    }
    Ok(at)
}

fn read_answers(buf: &[u8], at: usize, n: u16, qtype: u16) -> (r: Result<Vec<IpAddr>, DnsError>)
    ensures
        match r {
            Ok(v) => answers(buf@, at as int, n as nat, qtype) == Ok::<Seq<IpAddr>, DnsError>(v@),
            Err(e) => answers(buf@, at as int, n as nat, qtype) == Err::<Seq<IpAddr>, DnsError>(e),
        },
{
    let mut out: Vec<IpAddr> = Vec::new();
    let mut place: usize = at;
    let mut i: u16 = 0;
    let ghost whole = answers(buf@, at as int, n as nat, qtype);
    proof {
        if whole is Ok {
            assert(Seq::<IpAddr>::empty() + whole->Ok_0 =~= whole->Ok_0);
        }
    }
    while i < n && place < buf.len()
        invariant
            i <= n,
            place <= buf@.len() || i == 0,
            whole == answers(buf@, at as int, n as nat, qtype),
            match answers(buf@, place as int, (n - i) as nat, qtype) {
                Ok(rest) => whole == Ok::<Seq<IpAddr>, DnsError>(out@ + rest),
                Err(e) => whole == Err::<Seq<IpAddr>, DnsError>(e),
            },
        decreases n - i,
    {
        let end = match skip_name(buf, place) {
            Ok(end) => end,
            Err(e) => {
                return Err(e);
            },
        };
        if buf.len() - end < 10 {
            assert(out@ + Seq::<IpAddr>::empty() =~= out@);
            return Ok(out);
        }
        let rtype = read_u16(buf, end);
        let len = read_u16(buf, end + 8) as usize;
        if len > buf.len() - end - 10 {
            assert(out@ + Seq::<IpAddr>::empty() =~= out@);
            return Ok(out);
        }
        let ghost rest = answers(buf@, end + 10 + len, (n - i - 1) as nat, qtype);
        let ghost before = out@;
        if rtype == qtype && ((qtype == TYPE_A && len == 4) || (qtype == TYPE_AAAA && len == 16)) {
            let mut octets: Vec<u8> = Vec::new();
            let mut k: usize = 0;
            let total = buf.len();
            while k < len
                invariant
                    k <= len,
                    total == buf@.len(),
                    end + 10 + len <= buf@.len(),
                    octets@ == buf@.subrange(end + 10, end + 10 + k),
                decreases len - k,
            {
                octets.push(buf[end + 10 + k]);
                k += 1;
                assert(octets@ =~= buf@.subrange(end + 10, end + 10 + k));
            }
            match IpAddr::from_bytes(octets.as_slice()) {
                Some(ip) => {
                    out.push(ip);
                    proof {
                        if rest is Ok {
                            assert(before + (seq![ip] + rest->Ok_0) =~= out@ + rest->Ok_0);
                        }
                    }
                },
                None => {},
            }
        }
        place = end + 10 + len;
        i += 1;
    }
    assert(out@ + Seq::<IpAddr>::empty() =~= out@);
    Ok(out)
}

/// Whether this is the reply to a query that a message holds, or why it holds
/// none.
pub open spec fn reply_told(
    r: Result<DnsReply, DnsError>,
    buf: Seq<u8>,
    expect_id: u16,
    qtype: u16,
) -> bool {
    match r {
        Ok(reply) => {
            &&& reply_addresses(buf, expect_id, qtype) == Ok::<Seq<IpAddr>, DnsError>(
                reply.addresses@,
            )
            &&& reply.rcode == RCode::of((buf[3] % 16) as u8)
            &&& reply.truncated == (buf[2] / 2 % 2 == 1)
            &&& reply.authoritative == (buf[2] / 4 % 2 == 1)
            &&& reply.answer_count == u16_at(buf, 6)
        },
        Err(e) => reply_addresses(buf, expect_id, qtype) == Err::<Seq<IpAddr>, DnsError>(e),
    }
}

/// Reads a response to a query.
pub fn decode_response(buf: &[u8], expect_id: u16, qtype: u16) -> (r: Result<DnsReply, DnsError>)
    ensures
        reply_told(r, buf@, expect_id, qtype),
{
    if buf.len() < 12 {
        return Err(DnsError::ShortHeader);
    }
    let id = read_u16(buf, 0);
    if id != expect_id {
        return Err(DnsError::WrongId { got: id, want: expect_id });
    }
    let qdcount = read_u16(buf, 4);
    let ancount = read_u16(buf, 6);
    let at = match skip_questions(buf, qdcount) {
        Ok(at) => at,
        Err(e) => {
            return Err(e);
        },
    };
    match read_answers(buf, at, ancount, qtype) {
        Ok(addresses) => Ok(
            DnsReply {
                addresses,
                rcode: RCode::from_u8(buf[3] % 16),
                truncated: buf[2] / 2 % 2 == 1,
                authoritative: buf[2] / 4 % 2 == 1,
                answer_count: ancount,
            },
        ),
        Err(e) => Err(e),
    }
}

// ---- The probe --------------------------------------------------------------

pub open spec fn ip_texts(list: Seq<IpAddr>) -> Seq<Seq<char>> {
    Seq::new(list.len(), |i: int| list[i].text())
}

pub(crate) fn list_ips(list: &Vec<IpAddr>) -> (r: Vec<String>)
    ensures
        texts(r@) == ip_texts(list@),
{
    let mut r: Vec<String> = Vec::new();
    let mut i: usize = 0;
    while i < list.len()
        invariant
            i <= list.len(),
            r.len() == i,
            forall|k: int| 0 <= k < i ==> #[trigger] r@[k]@ == list@[k].text(),
        decreases list.len() - i,
    {
        r.push(list[i].to_text());
        i += 1;
    }
    assert(texts(r@) =~= ip_texts(list@));
    r
}

pub open spec fn type_text(qtype: u16) -> Seq<char> {
    if qtype == TYPE_A {
        "A"@
    } else {
        "AAAA"@
    }
}

/// Whether an answer resolved the name.
pub open spec fn resolved(a: DnsAnswer) -> bool {
    a.rcode == RCode::NoError && a.addresses@.len() > 0
}

pub open spec fn answer_detail(a: DnsAnswer, name: Seq<char>, qtype: u16) -> Seq<char> {
    let t = type_text(qtype);
    if resolved(a) {
        t +
            " "@ +
            name +
            " -> "@ +
            join(ip_texts(a.addresses@), ", "@) +
            " in "@ +
            dec(a.duration_ms as nat) +
            " ms"@
    } else if a.rcode == RCode::NoError {
        t + " "@ + name + " returned NOERROR with no records"@
    } else {
        t + " "@ + name + " returned "@ + a.rcode.text()
    }
}

pub open spec fn answer_evidence(a: DnsAnswer, ctx: ProbeContext) -> Seq<(Seq<char>, Seq<char>)> {
    seq![
        ("server"@, a.server.text()),
        ("rcode"@, a.rcode.text()),
        ("answers"@, dec(a.answer_count as nat)),
        ("authoritative"@, truth(a.authoritative)),
        ("routing"@, ctx.text()),
    ] + (if a.addresses@.len() > 0 {
        seq![("addresses"@, join(ip_texts(a.addresses@), ", "@))]
    } else {
        Seq::empty()
    }) + (if a.truncated {
        seq![("truncated"@, "yes (response exceeded 512 bytes over UDP)"@)]
    } else {
        Seq::empty()
    })
}

/// Package the outcome of a query as a probe result. A query that failed says
/// why, and how long it took.
pub fn probe(
    server: SocketAddr,
    name: &str,
    qtype: u16,
    ctx: &ProbeContext,
    outcome: &Result<DnsAnswer, String>,
    elapsed_ms: u64,
) -> (r: ProbeResult)
    ensures
        match *outcome {
            Ok(a) => {
                &&& r.ok == resolved(a)
                &&& r.duration_ms == a.duration_ms
                &&& r.detail@ == answer_detail(a, name@, qtype)
                &&& r.error == if r.ok {
                    None
                } else {
                    Some(r.detail)
                }
                &&& said_pairs(r.evidence@) == answer_evidence(a, *ctx)
            },
            Err(e) => {
                &&& !r.ok
                &&& r.duration_ms == elapsed_ms
                &&& r.detail@ == type_text(qtype) + " "@ + name@ + " failed: "@ + e@
                &&& r.error == Some(r.detail)
                &&& said_pairs(r.evidence@) == seq![
                    ("server"@, server.text()),
                    ("routing"@, ctx.text()),
                ]
            },
        },
{
    let record_type = if qtype == TYPE_A {
        "A"
    } else {
        "AAAA"
    };
    match outcome {
        Ok(a) => {
            let addresses = join_texts(&list_ips(&a.addresses), ", ");
            let ok = a.rcode == RCode::NoError && a.addresses.len() > 0;
            let ms = dec_string(a.duration_ms);
            let code = a.rcode.name();
            let result = if ok {
                ProbeResult::success(a.duration_ms, String::from_str(record_type)
                    .concat(" ")
                    .concat(name)
                    .concat(" -> ")
                    .concat(addresses.as_str())
                    .concat(" in ")
                    .concat(ms.as_str())
                    .concat(" ms"))
            } else if a.rcode == RCode::NoError {
                ProbeResult::failure(a.duration_ms, String::from_str(record_type)
                    .concat(" ")
                    .concat(name)
                    .concat(" returned NOERROR with no records"))
            } else {
                ProbeResult::failure(a.duration_ms, String::from_str(record_type)
                    .concat(" ")
                    .concat(name)
                    .concat(" returned ")
                    .concat(code.as_str()))
            };
            let mut result = result.note("server", a.server.to_text().as_str()).note(
                "rcode",
                code.as_str(),
            ).note("answers", dec_string(a.answer_count as u64).as_str()).note(
                "authoritative",
                truth_str(a.authoritative),
            ).note("routing", ctx.describe().as_str());
            if a.addresses.len() > 0 {
                result = result.note("addresses", addresses.as_str());
            }
            if a.truncated {
                result = result.note("truncated", "yes (response exceeded 512 bytes over UDP)");
            }
            assert(said_pairs(result.evidence@) =~= answer_evidence(*a, *ctx));
            result
        },
        Err(e) => {
            let detail = String::from_str(record_type)
                .concat(" ")
                .concat(name)
                .concat(" failed: ")
                .concat(e.as_str());
            let result = ProbeResult::failure(elapsed_ms, detail).note(
                "server",
                server.to_text().as_str(),
            ).note("routing", ctx.describe().as_str());
            assert(said_pairs(result.evidence@) =~= seq![
                ("server"@, server.text()),
                ("routing"@, ctx.text()),
            ]);
            result
        },
    }
}

// ---- NAT64 ------------------------------------------------------------------

/// The name of the DNS64 discovery query (RFC 7050). It has only A records; if
/// an AAAA query for it comes back with addresses, a DNS64 server synthesised
/// them, and the leading bytes are the NAT64 prefix.
pub fn dns64_probe_name() -> (r: &'static str)
    ensures
        r@ == "ipv4only.arpa"@,
{
    "ipv4only.arpa"
}

/// The bytes of an IPv6 address in which a prefix of a length leaves room for
/// an IPv4 address (RFC 6052). The ninth byte is reserved.
pub open spec fn embedded(o: Seq<u8>, len: int) -> Seq<u8> {
    if len == 32 {
        seq![o[4], o[5], o[6], o[7]]
    } else if len == 40 {
        seq![o[5], o[6], o[7], o[9]]
    } else if len == 48 {
        seq![o[6], o[7], o[9], o[10]]
    } else if len == 56 {
        seq![o[7], o[9], o[10], o[11]]
    } else if len == 64 {
        seq![o[9], o[10], o[11], o[12]]
    } else {
        seq![o[12], o[13], o[14], o[15]]
    }
}

/// Whether four bytes are one of the two well-known addresses, 192.0.0.170 and
/// 192.0.0.171.
pub open spec fn is_well_known(b: Seq<u8>) -> bool {
    b[0] == 192 && b[1] == 0 && b[2] == 0 && (b[3] == 170 || b[3] == 171)
}

/// The prefix length under which a well-known address is embedded; the
/// shortest one counts.
pub open spec fn embedding(o: Seq<u8>) -> Option<u8> {
    if is_well_known(embedded(o, 32)) {
        Some(32)
    } else if is_well_known(embedded(o, 40)) {
        Some(40)
    } else if is_well_known(embedded(o, 48)) {
        Some(48)
    } else if is_well_known(embedded(o, 56)) {
        Some(56)
    } else if is_well_known(embedded(o, 64)) {
        Some(64)
    } else if is_well_known(embedded(o, 96)) {
        Some(96)
    } else {
        None
    }
}

/// The address with everything behind a prefix set to zero.
pub open spec fn prefix_bytes(o: Seq<u8>, len: int) -> Seq<u8> {
    Seq::new(
        16,
        |i: int|
            if i < len / 8 {
                o[i]
            } else {
                0u8
            },
    )
}

fn well_known(a: u8, b: u8, c: u8, d: u8) -> (r: bool)
    ensures
        r == is_well_known(seq![a, b, c, d]),
{
    a == 192 && b == 0 && c == 0 && (d == 170 || d == 171)
}

fn keep_prefix(o: &[u8; 16], n: usize) -> (r: [u8; 16])
    requires
        n <= 16,
    ensures
        r@ == Seq::new(
            16,
            |i: int|
                if i < n {
                    o@[i]
                } else {
                    0u8
                },
        ),
{
    let mut r: [u8; 16] = [0; 16];
    let mut i: usize = 0;
    while i < n
        invariant
            i <= n <= 16,
            forall|k: int| 0 <= k < i ==> r@[k] == o@[k],
            forall|k: int| i <= k < 16 ==> r@[k] == 0,
        decreases n - i,
    {
        r[i] = o[i];
        i += 1;
    }
    assert(r@ =~= Seq::new(
        16,
        |i: int|
            if i < n {
                o@[i]
            } else {
                0u8
            },
    ));
    r
}

/// Recover the NAT64 prefix from a synthesised AAAA record. The well-known
/// IPv4 address can be embedded at any of the standard prefix lengths, so the
/// prefix length falls out of where it is found.
pub fn extract_nat64_prefix(addr: [u8; 16]) -> (r: Option<([u8; 16], u8)>)
    ensures
        match r {
            Some((prefix, len)) => embedding(addr@) == Some(len) && prefix@ == prefix_bytes(
                addr@,
                len as int,
            ),
            None => embedding(addr@) is None,
        },
{
    let o = &addr;
    let len: u8 = if well_known(o[4], o[5], o[6], o[7]) {
        32
    } else if well_known(o[5], o[6], o[7], o[9]) {
        40
    } else if well_known(o[6], o[7], o[9], o[10]) {
        48
    } else if well_known(o[7], o[9], o[10], o[11]) {
        56
    } else if well_known(o[9], o[10], o[11], o[12]) {
        64
    } else if well_known(o[12], o[13], o[14], o[15]) {
        96
    } else {
        return None;
    };
    let prefix = keep_prefix(o, (len / 8) as usize);
    assert(prefix@ =~= prefix_bytes(addr@, len as int));
    Some((prefix, len))
}

/// The first NAT64 prefix among addresses.
pub open spec fn first_embedding(list: Seq<IpAddr>) -> Option<(Seq<u8>, u8)>
    decreases list.len(),
{
    if list.len() == 0 {
        None
    } else {
        match list[0] {
            IpAddr::V6(o) if embedding(o@) is Some => Some(
                (prefix_bytes(o@, (embedding(o@)->0) as int), embedding(o@)->0),
            ),
            _ => first_embedding(list.skip(1)),
        }
    }
}

pub(crate) fn first_nat64_prefix(list: &Vec<IpAddr>) -> (r: Option<([u8; 16], u8)>)
    ensures
        match r {
            Some((prefix, len)) => first_embedding(list@) == Some((prefix@, len)),
            None => first_embedding(list@) is None,
        },
{
    let mut i: usize = 0;
    assert(list@.skip(0) =~= list@);
    while i < list.len()
        invariant
            i <= list.len(),
            first_embedding(list@) == first_embedding(list@.skip(i as int)),
        decreases list.len() - i,
    {
        assert(list@.skip(i as int).skip(1) =~= list@.skip(i + 1));
        match list[i] {
            IpAddr::V6(o) => {
                if let Some(found) = extract_nat64_prefix(o) {
                    return Some(found);
                }
            },
            IpAddr::V4(_) => {},
        }
        i += 1;
    }
    None
}

} // verus!
