//! ICMP echo, used mainly to ask "is the default gateway actually there?".
//!
//! Two socket flavours are supported. Datagram ICMP sockets are preferred: the
//! kernel owns the identifier and the checksum, and there is no IP header to
//! skip on receive. When they are closed to this process the probe falls back
//! to raw sockets, which hand back the full IP datagram.
use vstd::prelude::*;

use crate::ip::IpAddr;
use crate::probe::{explain_io_error, io_error_text, said_pairs, ProbeContext, ProbeResult};
use crate::text::{dec, dec_string};
use crate::wire::{be16, push_be16, push_bytes, u16_at};

verus! {

pub const ICMPV4_ECHO_REQUEST: u8 = 8;

pub const ICMPV4_ECHO_REPLY: u8 = 0;

pub const ICMPV6_ECHO_REQUEST: u8 = 128;

pub const ICMPV6_ECHO_REPLY: u8 = 129;

#[derive(Clone, Copy, Debug, PartialEq, Eq, Structural)]
pub enum SocketKind {
    /// Kernel-managed identifier and checksum; receive buffer starts at the
    /// ICMP header.
    Datagram,
    /// Raw; for IPv4 the receive buffer starts at the IP header.
    Raw,
}

impl SocketKind {
    pub open spec fn text(self) -> Seq<char> {
        match self {
            SocketKind::Datagram => "Datagram"@,
            SocketKind::Raw => "Raw"@,
        }
    }

    pub fn name(&self) -> (r: &'static str)
        ensures
            r@ == self.text(),
    {
        match self {
            SocketKind::Datagram => "Datagram",
            SocketKind::Raw => "Raw",
        }
    }
}

// ---- The checksum -----------------------------------------------------------

/// The sum of the 16-bit words of some bytes; a last odd byte counts as one
/// with a zero behind it.
pub open spec fn word_sum(b: Seq<u8>) -> nat
    decreases b.len(),
{
    if b.len() == 0 {
        0
    } else if b.len() == 1 {
        (b[0] * 256) as nat
    } else {
        u16_at(b, 0) + word_sum(b.skip(2))
    }
}

/// The one's complement sum: carries are added back until none is left.
pub open spec fn folded(sum: nat) -> nat {
    if sum == 0 {
        0
    } else {
        ((sum - 1) % 65535 + 1) as nat
    }
}

/// The internet checksum (RFC 1071).
pub open spec fn checksum_of(b: Seq<u8>) -> nat {
    (65535 - folded(word_sum(b))) as nat
}

proof fn lemma_fold_step(s: nat)
    ensures
        folded(s % 65536 + s / 65536) == folded(s),
{
    let q = s / 65536;
    let r = s % 65536;
    if s > 0 {
        assert(s - 1 == 65535 * q + (q + r - 1));
        assert((s - 1) % 65535 == (q + r - 1) % 65535) by {
            vstd::arithmetic::div_mod::lemma_mod_multiples_vanish(
                q as int,
                q + r - 1,
                65535,
            );
        }
    }
}

/// The sum of the words of anything that fits in an IP packet fits in 32 bits, so
/// its checksum can be taken.
pub proof fn law_packets_sum_in_range(b: Seq<u8>)
    ensures
        word_sum(b) <= 65535 * ((b.len() + 1) / 2),
        b.len() <= 0x2_0000 ==> word_sum(b) <= u32::MAX,
    decreases b.len(),
{
    if b.len() >= 2 {
        law_packets_sum_in_range(b.skip(2));
    }
}

/// Internet checksum (RFC 1071). The sum of the words must fit in 32 bits,
/// which it does for anything that fits in an IP packet.
pub fn checksum(data: &[u8]) -> (r: u16)
    requires
        word_sum(data@) <= u32::MAX,
    ensures
        r == checksum_of(data@),
{
    let mut sum: u32 = 0;
    let mut i: usize = 0;
    assert(data@.skip(0) =~= data@);
    while i < data.len()
        invariant
            i <= data@.len(),
            word_sum(data@) <= u32::MAX,
            sum + word_sum(data@.skip(i as int)) == word_sum(data@),
        decreases data@.len() - i,
    {
        let ghost rest = data@.skip(i as int);
        if data.len() - i == 1 {
            sum = sum + data[i] as u32 * 256;
            i += 1;
            assert(data@.skip(i as int).len() == 0);
        } else {
            assert(rest.skip(2) =~= data@.skip(i + 2));
            sum = sum + (data[i] as u32 * 256 + data[i + 1] as u32);
            i += 2;
        }
    }
    let ghost total = sum as nat;
    while sum >= 0x1_0000
        invariant
            folded(sum as nat) == folded(total),
        decreases sum,
    {
        proof {
            lemma_fold_step(sum as nat);
        }
        sum = sum % 0x1_0000 + sum / 0x1_0000;
    }
    assert(folded(sum as nat) == sum);
    (0xffff - sum) as u16
}

// ---- Echo requests ------------------------------------------------------------

/// An echo request with a given checksum.
pub open spec fn echo_with(v6: bool, id: u16, sequence: u16, payload: Seq<u8>, sum: nat) -> Seq<u8> {
    seq![
        if v6 {
            ICMPV6_ECHO_REQUEST
        } else {
            ICMPV4_ECHO_REQUEST
        },
        0u8,
    ] + be16(sum) + be16(id as nat) + be16(sequence as nat) + payload
}

/// An echo request. IPv6 checksums cover a pseudo-header, so the kernel always
/// computes them for ICMPv6 sockets; a raw IPv4 socket needs one.
pub open spec fn echo_packet(
    v6: bool,
    id: u16,
    sequence: u16,
    payload: Seq<u8>,
    fill_checksum: bool,
) -> Seq<u8> {
    let blank = echo_with(v6, id, sequence, payload, 0);
    if fill_checksum && !v6 {
        echo_with(v6, id, sequence, payload, checksum_of(blank))
    } else {
        blank
    }
}

proof fn lemma_echo_sum(v6: bool, id: u16, sequence: u16, payload: Seq<u8>, sum: nat)
    requires
        sum <= 65535,
    ensures
        word_sum(echo_with(v6, id, sequence, payload, sum)) == sum + word_sum(
            echo_with(v6, id, sequence, payload, 0),
        ),
{
    let a = echo_with(v6, id, sequence, payload, sum);
    let b = echo_with(v6, id, sequence, payload, 0);
    assert(a.skip(2).skip(2) =~= b.skip(2).skip(2));
    assert(u16_at(a, 0) == u16_at(b, 0));
    assert(u16_at(a.skip(2), 0) == sum);
    assert(u16_at(b.skip(2), 0) == 0);
    assert(word_sum(a) == u16_at(a, 0) + word_sum(a.skip(2)));
    assert(word_sum(b) == u16_at(b, 0) + word_sum(b.skip(2)));
    assert(word_sum(a.skip(2)) == u16_at(a.skip(2), 0) + word_sum(a.skip(2).skip(2)));
    assert(word_sum(b.skip(2)) == u16_at(b.skip(2), 0) + word_sum(b.skip(2).skip(2)));
}

/// A packet that carries its checksum sums up to a checksum of zero.
pub proof fn law_checksummed_packet_sums_to_zero(id: u16, sequence: u16, payload: Seq<u8>)
    ensures
        checksum_of(echo_packet(false, id, sequence, payload, true)) == 0,
{
    let blank = echo_with(false, id, sequence, payload, 0);
    let s = word_sum(blank);
    let c = checksum_of(blank);
    lemma_echo_sum(false, id, sequence, payload, c);
    assert(u16_at(blank, 0) == 8 * 256);
    assert(s > 0);
    assert((s + c - 1) % 65535 == 65534) by {
        let f = (s - 1) % 65535;
        let q = (s - 1) / 65535;
        assert(s - 1 == 65535 * q + f);
        assert(c == 65534 - f);
        assert(s + c - 1 == 65535 * q + 65534);
        vstd::arithmetic::div_mod::lemma_mod_multiples_vanish(q, 65534, 65535);
    }
}

/// An echo request with a sequence number and a payload.
pub fn build_echo(v6: bool, id: u16, sequence: u16, payload: &[u8], fill_checksum: bool) -> (r: Vec<u8>)
    requires
        fill_checksum && !v6 ==> word_sum(echo_with(v6, id, sequence, payload@, 0)) <= u32::MAX,
    ensures
        r@ == echo_packet(v6, id, sequence, payload@, fill_checksum),
{
    let mut packet: Vec<u8> = Vec::new();
    packet.push(
        if v6 {
            ICMPV6_ECHO_REQUEST
        } else {
            ICMPV4_ECHO_REQUEST
        },
    );
    packet.push(0);
    push_be16(&mut packet, 0);
    push_be16(&mut packet, id as u64);
    push_be16(&mut packet, sequence as u64);
    push_bytes(&mut packet, payload);
    assert(packet@ =~= echo_with(v6, id, sequence, payload@, 0));
    if fill_checksum && !v6 {
        let sum = checksum(packet.as_slice());
        packet.set(2, (sum / 256) as u8);
        packet.set(3, (sum % 256) as u8);
        assert(packet@ =~= echo_with(v6, id, sequence, payload@, sum as nat));
    }
    packet
}

// ---- Replies ----------------------------------------------------------------

/// Where the ICMP header starts: behind the IPv4 header, whose length lives in
/// the low half of the first byte in 32-bit words, or at once.
pub open spec fn icmp_start(buf: Seq<u8>, v6: bool, kind: SocketKind) -> int {
    if !v6 && kind == SocketKind::Raw && buf.len() > 0 {
        (buf[0] % 16) * 4
    } else {
        0
    }
}

/// Whether bytes are an echo reply with a sequence number.
pub open spec fn is_reply(buf: Seq<u8>, v6: bool, kind: SocketKind, sequence: u16) -> bool {
    let at = icmp_start(buf, v6, kind);
    &&& buf.len() >= at + 8
    &&& buf[at] == if v6 {
        ICMPV6_ECHO_REPLY
    } else {
        ICMPV4_ECHO_REPLY
    }
    &&& u16_at(buf, at + 6) == sequence
}

/// Was this an echo reply to our request? For datagram sockets the kernel
/// rewrites the id, so only the sequence number is ours to check.
pub fn matches_reply(buf: &[u8], v6: bool, kind: SocketKind, sequence: u16) -> (r: bool)
    ensures
        r == is_reply(buf@, v6, kind, sequence),
{
    if buf.len() < 8 {
        return false;
    }
    let at: usize = if !v6 && kind == SocketKind::Raw {
        (buf[0] % 16) as usize * 4
    } else {
        0
    };
    if buf.len() < at + 8 {
        return false;
    }
    let expected = if v6 {
        ICMPV6_ECHO_REPLY
    } else {
        ICMPV4_ECHO_REPLY
    };
    buf[at] == expected && crate::wire::read_u16(buf, at + 6) == sequence
}

/// An echo request is never taken for a reply.
pub proof fn law_request_is_no_reply(
    v6: bool,
    id: u16,
    sequence: u16,
    payload: Seq<u8>,
    fill_checksum: bool,
    expected: u16,
)
    ensures
        !is_reply(
            echo_packet(v6, id, sequence, payload, fill_checksum),
            v6,
            SocketKind::Datagram,
            expected,
        ),
{
}

// ---- The probe --------------------------------------------------------------

/// A failed system call: its error number, and the system's words for it.
#[derive(Clone, Debug)]
pub struct IoFailure {
    pub errno: Option<i32>,
    pub message: String,
}

impl IoFailure {
    pub open spec fn text(self) -> Seq<char> {
        io_error_text(self.errno, self.message@)
    }

    pub fn explain(&self) -> (r: String)
        ensures
            r@ == self.text(),
    {
        explain_io_error(self.errno, self.message.as_str())
    }
}

/// How many requests are sent: at least one.
pub open spec fn requests(count: u16) -> u16 {
    if count == 0 {
        1
    } else {
        count
    }
}

/// The sequence number of the next request, after as many as were left
/// unanswered; none when all were sent.
pub fn next_sequence(unanswered: u16, count: u16) -> (r: Option<u16>)
    ensures
        r == if unanswered < requests(count) {
            Some((unanswered + 1) as u16)
        } else {
            None
        },
{
    let total: u16 = if count == 0 {
        1
    } else {
        count
    };
    if unanswered < total {
        Some(unanswered + 1)
    } else {
        None
    }
}

/// What came of a series of echo requests.
pub enum PingOutcome {
    NoSocket(IoFailure),
    SendFailed(IoFailure),
    ReceiveFailed(IoFailure),
    Replied { kind: SocketKind, sequence: u16, rtt_ms: u64 },
    Silent { kind: SocketKind },
}

pub open spec fn ping_detail(target: IpAddr, count: u16, timeout_ms: u64, o: PingOutcome) -> Seq<char> {
    match o {
        PingOutcome::NoSocket(e) => "could not open an ICMP socket: "@ + e.text(),
        PingOutcome::SendFailed(e) => "could not send an echo request to "@ + target.text() + ": "@ + e.text(),
        PingOutcome::ReceiveFailed(e) => "ICMP receive failed: "@ + e.text(),
        PingOutcome::Replied { kind, sequence, rtt_ms } => target.text() + " replied in "@ + dec(rtt_ms as nat) + " ms"@,
        PingOutcome::Silent { kind } => target.text() +
            " did not answer "@ +
            dec(requests(count) as nat) +
            " echo request(s) within "@ +
            dec(timeout_ms as nat) +
            " ms"@,
    }
}

pub open spec fn ping_evidence(
    target: IpAddr,
    payload_len: usize,
    ctx: ProbeContext,
    o: PingOutcome,
) -> Seq<(Seq<char>, Seq<char>)> {
    match o {
        PingOutcome::Replied { kind, sequence, rtt_ms } => seq![
            ("target"@, target.text()),
            ("rtt_ms"@, dec(rtt_ms as nat)),
            ("sequence"@, dec(sequence as nat)),
            ("payload_bytes"@, dec(payload_len as nat)),
            ("socket"@, kind.text()),
            ("routing"@, ctx.text()),
        ],
        PingOutcome::Silent { kind } => seq![
            ("target"@, target.text()),
            ("payload_bytes"@, dec(payload_len as nat)),
            ("socket"@, kind.text()),
            ("routing"@, ctx.text()),
        ],
        _ => seq![("routing"@, ctx.text())],
    }
}

/// Package what came of a series of echo requests as a probe result. One
/// answer is enough to prove that the next hop is alive.
pub fn ping(
    target: IpAddr,
    count: u16,
    payload_len: usize,
    ctx: &ProbeContext,
    outcome: &PingOutcome,
    elapsed_ms: u64,
) -> (r: ProbeResult)
    ensures
        r.ok == (*outcome is Replied),
        r.duration_ms == elapsed_ms,
        r.detail@ == ping_detail(target, count, ctx.timeout_ms, *outcome),
        r.error == if r.ok {
            None
        } else {
            Some(r.detail)
        },
        said_pairs(r.evidence@) == ping_evidence(target, payload_len, *ctx, *outcome),
{
    let to = target.to_text();
    let size = dec_string(payload_len as u64);
    let routing = ctx.describe();
    let result = match outcome {
        PingOutcome::NoSocket(e) => {
            let why = e.explain();
            ProbeResult::failure(elapsed_ms, String::from_str("could not open an ICMP socket: ").concat(why.as_str()))
        },
        PingOutcome::SendFailed(e) => {
            let why = e.explain();
            ProbeResult::failure(elapsed_ms, String::from_str("could not send an echo request to ")
                .concat(to.as_str())
                .concat(": ")
                .concat(why.as_str()))
        },
        PingOutcome::ReceiveFailed(e) => {
            let why = e.explain();
            ProbeResult::failure(elapsed_ms, String::from_str("ICMP receive failed: ").concat(why.as_str()))
        },
        PingOutcome::Replied { kind, sequence, rtt_ms } => {
            let rtt = dec_string(*rtt_ms);
            ProbeResult::success(elapsed_ms, String::from_str(to.as_str())
                .concat(" replied in ")
                .concat(rtt.as_str())
                .concat(" ms")).note(
                "target",
                to.as_str(),
            ).note("rtt_ms", rtt.as_str()).note(
                "sequence",
                dec_string(*sequence as u64).as_str(),
            ).note("payload_bytes", size.as_str()).note("socket", kind.name())
        },
        PingOutcome::Silent { kind } => {
            let total = dec_string(
                if count == 0 {
                    1
                } else {
                    count as u64
                },
            );
            let limit = dec_string(ctx.timeout_ms);
            ProbeResult::failure(elapsed_ms, String::from_str(to.as_str())
                .concat(" did not answer ")
                .concat(total.as_str())
                .concat(" echo request(s) within ")
                .concat(limit.as_str())
                .concat(" ms")).note(
                "target",
                to.as_str(),
            ).note("payload_bytes", size.as_str()).note("socket", kind.name())
        },
    };
    let result = result.note("routing", routing.as_str());
    assert(said_pairs(result.evidence@) =~= ping_evidence(target, payload_len, *ctx, *outcome));
    result
}

} // verus!
