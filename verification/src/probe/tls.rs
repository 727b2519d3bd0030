//! A deliberately minimal TLS reachability probe.
//!
//! This sends a real ClientHello and checks that a ServerHello (or an alert)
//! comes back. It does not validate certificates and does not complete the
//! handshake: the question being answered is "does a TLS conversation survive
//! this path?", not "is this server trustworthy?".
use vstd::prelude::*;
use vstd::utf8::encode_utf8;

use crate::ip::SocketAddr;
use crate::ip_parse::{parse_ip, read_ip};
use crate::probe::icmp::IoFailure;
use crate::probe::{said_pairs, ProbeContext, ProbeResult};
use crate::text::{dec, dec_string, is_empty};
use crate::wire::{be16, be24, lemma_be16_low, push_be16, push_be24, push_bytes, u16_at};

verus! {

// ---- The ClientHello ----------------------------------------------------------

/// An extension: its number, its length and its contents.
pub open spec fn extension(number: nat, contents: Seq<u8>) -> Seq<u8> {
    be16(number) + be16(contents.len()) + contents
}

fn push_extension(v: &mut Vec<u8>, number: u64, contents: &[u8])
    ensures
        final(v)@ == old(v)@ + extension(number as nat, contents@),
{
    let ghost before = v@;
    push_be16(v, number);
    push_be16(v, contents.len() as u64);
    push_bytes(v, contents);
    assert(v@ =~= before + extension(number as nat, contents@));
}

/// The list of one host name.
pub open spec fn host_list(host: Seq<u8>) -> Seq<u8> {
    be16(host.len() + 3) + seq![0u8] + be16(host.len()) + host
}

/// Whether a name goes into the server_name extension. An IP literal is not a
/// legal value there, so it is left out.
pub open spec fn names_host(server_name: Seq<char>) -> bool {
    server_name.len() > 0 && parse_ip(server_name) is None
}

/// A byte of the key share, from a seed and its place. The key is not real:
/// the handshake is abandoned after the ServerHello, but every 32-byte string
/// is a syntactically valid x25519 public key.
pub open spec fn key_byte(seed: u64, i: u64) -> u8 {
    let turned = if i == 0 {
        seed
    } else {
        (seed << i) | (seed >> ((64 - i) as u64))
    };
    ((turned ^ ((i * 97) as u64)) & 0xff) as u8
}

/// A byte of the client random, from a seed and its place.
pub open spec fn random_byte(seed: u64, i: u64) -> u8 {
    (((seed >> i) ^ ((i * 31) as u64)) & 0xff) as u8
}

pub open spec fn key_bytes(seed: u64) -> Seq<u8> {
    Seq::new(32, |i: int| key_byte(seed, i as u64))
}

pub open spec fn random_bytes(seed: u64) -> Seq<u8> {
    Seq::new(32, |i: int| random_byte(seed, i as u64))
}

/// The one entry of the key share: x25519, its length and a key.
pub open spec fn key_entry(seed: u64) -> Seq<u8> {
    be16(0x001d) + be16(32) + key_bytes(seed)
}

/// The extensions of a ClientHello: server_name, supported_versions,
/// supported_groups, signature_algorithms and key_share. TLS 1.3 servers reject
/// a ClientHello that offers 1.3 without a key share.
pub open spec fn extensions_for(server_name: Seq<char>, key_seed: u64) -> Seq<u8> {
    (if names_host(server_name) {
        extension(0x0000, host_list(encode_utf8(server_name)))
    } else {
        Seq::empty()
    }) + extension(0x002b, seq![0x04u8, 0x03, 0x04, 0x03, 0x03]) + extension(
        0x000a,
        seq![0x00u8, 0x04, 0x00, 0x1d, 0x00, 0x17],
    ) + extension(0x000d, seq![0x00u8, 0x04, 0x04, 0x03, 0x08, 0x04]) + extension(
        0x0033,
        be16(36) + key_entry(key_seed),
    )
}

/// The body of a ClientHello: TLS 1.2 as the legacy version, the random, no
/// session, four cipher suites, no compression, and the extensions.
pub open spec fn hello_body(server_name: Seq<char>, key_seed: u64, random_seed: u64) -> Seq<u8> {
    be16(0x0303) + random_bytes(random_seed) + seq![0u8] + be16(8) + seq![
        0x13u8, 0x01, 0x13, 0x02, 0x13, 0x03, 0xc0, 0x2f,
    ] + seq![1u8, 0u8] + be16(extensions_for(server_name, key_seed).len()) + extensions_for(
        server_name,
        key_seed,
    )
}

/// The handshake message around a body.
pub open spec fn hello_handshake(body: Seq<u8>) -> Seq<u8> {
    seq![0x01u8] + be24(body.len()) + body
}

/// The record around a handshake message.
pub open spec fn hello_record(handshake: Seq<u8>) -> Seq<u8> {
    seq![0x16u8] + be16(0x0301) + be16(handshake.len()) + handshake
}

pub open spec fn hello_bytes(server_name: Seq<char>, key_seed: u64, random_seed: u64) -> Seq<u8> {
    hello_record(hello_handshake(hello_body(server_name, key_seed, random_seed)))
}

fn key_share(seed: u64) -> (r: Vec<u8>)
    ensures
        r@ == be16(36) + key_entry(seed),
{
    let mut v: Vec<u8> = Vec::new();
    push_be16(&mut v, 36);
    push_be16(&mut v, 0x001d);
    push_be16(&mut v, 32);
    let ghost head = v@;
    assert(head =~= be16(36) + (be16(0x001d) + be16(32)));
    let mut i: u64 = 0;
    while i < 32
        invariant
            i <= 32,
            v@ == head + key_bytes(seed).take(i as int),
        decreases 32 - i,
    {
        let turned: u64 = if i == 0 {
            seed
        } else {
            (seed << i) | (seed >> (64 - i))
        };
        v.push(((turned ^ (i * 97)) & 0xff) as u8);
        i += 1;
        assert(v@ =~= head + key_bytes(seed).take(i as int));
    }
    assert(v@ =~= be16(36) + key_entry(seed));
    v
}

fn list_host(host: &[u8]) -> (r: Vec<u8>)
    ensures
        r@ == host_list(host@),
{
    let mut v: Vec<u8> = Vec::new();
    let low: u64 = host.len() as u64 % 0x1_0000;
    proof {
        lemma_be16_low(host@.len() / 0x1_0000, (low + 3) as nat);
    }
    push_be16(&mut v, low + 3);
    v.push(0);
    push_be16(&mut v, host.len() as u64);
    push_bytes(&mut v, host);
    assert(v@ =~= host_list(host@));
    v
}

/// Build a TLS 1.2/1.3-compatible ClientHello with SNI. There is no
/// negotiation logic to get wrong. The two seeds fill the key share and the
/// random; the handshake is never completed, so neither has a security role.
pub fn client_hello(server_name: &str, key_seed: u64, random_seed: u64) -> (r: Vec<u8>)
    ensures
        r@ == hello_bytes(server_name@, key_seed, random_seed),
{
    let mut extensions: Vec<u8> = Vec::new();
    if !is_empty(server_name) && read_ip(server_name).is_none() {
        let sni = list_host(server_name.as_bytes());
        push_extension(&mut extensions, 0x0000, sni.as_slice());
    }
    let ghost e0 = extensions@;
    assert(e0 =~= if names_host(server_name@) {
        extension(0x0000, host_list(encode_utf8(server_name@)))
    } else {
        Seq::empty()
    });
    let versions: [u8; 5] = [0x04, 0x03, 0x04, 0x03, 0x03];
    push_extension(&mut extensions, 0x002b, versions.as_slice());
    let groups: [u8; 6] = [0x00, 0x04, 0x00, 0x1d, 0x00, 0x17];
    push_extension(&mut extensions, 0x000a, groups.as_slice());
    let sigalgs: [u8; 6] = [0x00, 0x04, 0x04, 0x03, 0x08, 0x04];
    push_extension(&mut extensions, 0x000d, sigalgs.as_slice());
    assert(versions@ =~= seq![0x04u8, 0x03, 0x04, 0x03, 0x03]);
    assert(groups@ =~= seq![0x00u8, 0x04, 0x00, 0x1d, 0x00, 0x17]);
    assert(sigalgs@ =~= seq![0x00u8, 0x04, 0x04, 0x03, 0x08, 0x04]);
    let share = key_share(key_seed);
    push_extension(&mut extensions, 0x0033, share.as_slice());
    assert(extensions@ == extensions_for(server_name@, key_seed));

    let mut body: Vec<u8> = Vec::new();
    push_be16(&mut body, 0x0303);
    let ghost head = body@;
    assert(head =~= be16(0x0303));
    let mut i: u64 = 0;
    while i < 32
        invariant
            i <= 32,
            body@ == head + random_bytes(random_seed).take(i as int),
        decreases 32 - i,
    {
        body.push((((random_seed >> i) ^ (i * 31)) & 0xff) as u8);
        i += 1;
        assert(body@ =~= head + random_bytes(random_seed).take(i as int));
    }
    assert(random_bytes(random_seed).take(32) =~= random_bytes(random_seed));
    body.push(0);
    let suites: [u8; 8] = [0x13, 0x01, 0x13, 0x02, 0x13, 0x03, 0xc0, 0x2f];
    push_be16(&mut body, 8);
    push_bytes(&mut body, suites.as_slice());
    body.push(1);
    body.push(0);
    push_be16(&mut body, extensions.len() as u64);
    push_bytes(&mut body, extensions.as_slice());
    assert(body@ =~= hello_body(server_name@, key_seed, random_seed));

    let mut handshake: Vec<u8> = Vec::new();
    handshake.push(0x01);
    push_be24(&mut handshake, body.len() as u64);
    push_bytes(&mut handshake, body.as_slice());
    assert(handshake@ =~= hello_handshake(body@));

    let mut record: Vec<u8> = Vec::new();
    record.push(0x16);
    push_be16(&mut record, 0x0301);
    push_be16(&mut record, handshake.len() as u64);
    push_bytes(&mut record, handshake.as_slice());
    assert(record@ =~= hello_record(handshake@));
    record
}

/// A ClientHello is a well-formed record: it says that it is a handshake and a
/// ClientHello, and each length is that of what follows. Host names of more
/// than a few bytes less than 64 KiB do not fit in one record.
pub proof fn law_client_hello_is_well_formed(server_name: Seq<char>, key_seed: u64, random_seed: u64)
    requires
        encode_utf8(server_name).len() <= 65000,
    ensures
        ({
            let b = hello_bytes(server_name, key_seed, random_seed);
            &&& b.len() >= 9
            &&& b[0] == 0x16
            &&& u16_at(b, 3) == b.len() - 5
            &&& b[5] == 0x01
            &&& b[6] * 0x1_0000 + b[7] * 256 + b[8] == b.len() - 9
        }),
{
    let body = hello_body(server_name, key_seed, random_seed);
    let handshake = hello_handshake(body);
    let b = hello_record(handshake);
    let exts = extensions_for(server_name, key_seed);
    assert(exts.len() <= 65000 + 200);
    assert(body.len() == 2 + 32 + 1 + 2 + 8 + 2 + 2 + exts.len());
    assert(handshake.len() == 4 + body.len());
    assert(b.len() == 5 + handshake.len());
    assert(b[5] == handshake[0]);
    assert(b[6] == handshake[1] && b[7] == handshake[2] && b[8] == handshake[3]);
}

// ---- The reply --------------------------------------------------------------

/// What came back on the wire.
#[derive(Clone, Copy, Debug, PartialEq, Eq, Structural)]
pub enum HelloReply {
    ServerHello,
    Alert { level: u8, description: u8 },
    NotTls,
    Empty,
}

/// What bytes are: a ServerHello in a handshake record, an alert, or nothing
/// of the kind.
pub open spec fn reply_of(b: Seq<u8>) -> HelloReply {
    if b.len() == 0 {
        HelloReply::Empty
    } else if b[0] == 0x16 && b.len() >= 6 && b[5] == 0x02 {
        HelloReply::ServerHello
    } else if b[0] == 0x15 && b.len() >= 7 {
        HelloReply::Alert { level: b[5], description: b[6] }
    } else {
        HelloReply::NotTls
    }
}

pub fn classify_reply(buf: &[u8]) -> (r: HelloReply)
    ensures
        r == reply_of(buf@),
{
    if buf.len() == 0 {
        return HelloReply::Empty;
    }
    if buf[0] == 0x16 && buf.len() >= 6 && buf[5] == 0x02 {
        return HelloReply::ServerHello;
    }
    if buf[0] == 0x15 && buf.len() >= 7 {
        return HelloReply::Alert { level: buf[5], description: buf[6] };
    }
    HelloReply::NotTls
}

/// The name of an alert.
pub open spec fn alert_text(description: u8) -> Seq<char> {
    match description {
        0 => "close_notify"@,
        10 => "unexpected_message"@,
        20 => "bad_record_mac"@,
        22 => "record_overflow"@,
        40 => "handshake_failure"@,
        42 => "bad_certificate"@,
        47 => "illegal_parameter"@,
        48 => "unknown_ca"@,
        50 => "decode_error"@,
        51 => "decrypt_error"@,
        70 => "protocol_version"@,
        71 => "insufficient_security"@,
        80 => "internal_error"@,
        86 => "inappropriate_fallback"@,
        109 => "missing_extension"@,
        112 => "unrecognized_name"@,
        120 => "no_application_protocol"@,
        _ => "unknown alert"@,
    }
}

pub fn alert_name(description: u8) -> (r: &'static str)
    ensures
        r@ == alert_text(description),
{
    match description {
        0 => "close_notify",
        10 => "unexpected_message",
        20 => "bad_record_mac",
        22 => "record_overflow",
        40 => "handshake_failure",
        42 => "bad_certificate",
        47 => "illegal_parameter",
        48 => "unknown_ca",
        50 => "decode_error",
        51 => "decrypt_error",
        70 => "protocol_version",
        71 => "insufficient_security",
        80 => "internal_error",
        86 => "inappropriate_fallback",
        109 => "missing_extension",
        112 => "unrecognized_name",
        120 => "no_application_protocol",
        _ => "unknown alert",
    }
}

// ---- The probe --------------------------------------------------------------

/// What came of a TLS probe.
pub enum TlsOutcome {
    NotConnected(IoFailure),
    NotSent(IoFailure),
    ReadFailed(IoFailure),
    TimedOut,
    /// What was read; nothing where the peer closed the connection.
    Answered(Vec<u8>),
}

pub open spec fn tls_detail(target: Seq<char>, timeout_ms: u64, elapsed_ms: u64, o: TlsOutcome) -> Seq<char> {
    match o {
        TlsOutcome::NotConnected(e) => "TCP connect to "@ + target + " failed: "@ + e.text(),
        TlsOutcome::NotSent(e) => "could not send the ClientHello: "@ + e.text(),
        TlsOutcome::ReadFailed(e) => "read after ClientHello failed: "@ + e.text(),
        TlsOutcome::TimedOut => "TCP connected but no ServerHello arrived within "@ +
            dec(timeout_ms as nat) +
            " ms; a large-packet black hole (PMTU) or a filtering middlebox both look like this"@,
        TlsOutcome::Answered(b) => match reply_of(b@) {
            HelloReply::Empty => "the peer closed the connection without answering the ClientHello"@,
            HelloReply::ServerHello => "TLS ServerHello received in "@ + dec(elapsed_ms as nat) + " ms"@,
            HelloReply::Alert { level, description } => "TLS alert instead of a ServerHello: "@ +
                alert_text(description) +
                " ("@ +
                dec(description as nat) +
                ", level "@ +
                dec(level as nat) +
                ")"@,
            HelloReply::NotTls => "the peer answered with something that is not a TLS handshake"@,
        },
    }
}

pub open spec fn tls_evidence(
    target: Seq<char>,
    server_name: Seq<char>,
    hello_len: nat,
    tcp_ms: u64,
    routing: Seq<char>,
    o: TlsOutcome,
) -> Seq<(Seq<char>, Seq<char>)> {
    match o {
        TlsOutcome::NotConnected(_) => seq![("routing"@, routing)],
        TlsOutcome::NotSent(_) => seq![
            ("tcp_connect_ms"@, dec(tcp_ms as nat)),
            ("routing"@, routing),
        ],
        _ => (match o {
            TlsOutcome::Answered(b) => match reply_of(b@) {
                HelloReply::Alert { level, description } => seq![
                    ("alert_description"@, dec(description as nat)),
                ],
                _ => Seq::empty(),
            },
            _ => Seq::empty(),
        }) + seq![
            ("target"@, target),
            ("sni"@, server_name),
            ("client_hello_bytes"@, dec(hello_len)),
            ("tcp_connect_ms"@, dec(tcp_ms as nat)),
            ("routing"@, routing),
        ],
    }
}

/// Whether a TLS conversation survives the path.
pub open spec fn tls_ok(o: TlsOutcome) -> bool {
    o matches TlsOutcome::Answered(b) && reply_of(b@) == HelloReply::ServerHello
}

/// Package what came of a TLS probe as a probe result.
pub fn probe(
    target: SocketAddr,
    server_name: &str,
    ctx: &ProbeContext,
    hello_len: usize,
    tcp_ms: u64,
    outcome: &TlsOutcome,
    elapsed_ms: u64,
) -> (r: ProbeResult)
    ensures
        r.ok == tls_ok(*outcome),
        r.duration_ms == elapsed_ms,
        r.detail@ == tls_detail(target.text(), ctx.timeout_ms, elapsed_ms, *outcome),
        r.error == if r.ok {
            None
        } else {
            Some(r.detail)
        },
        said_pairs(r.evidence@) == tls_evidence(
            target.text(),
            server_name@,
            hello_len as nat,
            tcp_ms,
            ctx.text(),
            *outcome,
        ),
{
    let to = target.to_text();
    let routing = ctx.describe();
    let tcp = dec_string(tcp_ms);
    let result = match outcome {
        TlsOutcome::NotConnected(e) => {
            let why = e.explain();
            let r = ProbeResult::failure(elapsed_ms, String::from_str("TCP connect to ")
                .concat(to.as_str())
                .concat(" failed: ")
                .concat(why.as_str())).note(
                "routing",
                routing.as_str(),
            );
            assert(said_pairs(r.evidence@) =~= seq![("routing"@, ctx.text())]);
            return r;
        },
        TlsOutcome::NotSent(e) => {
            let why = e.explain();
            let r = ProbeResult::failure(elapsed_ms, String::from_str("could not send the ClientHello: ").concat(why.as_str())).note(
                "tcp_connect_ms",
                tcp.as_str(),
            ).note("routing", routing.as_str());
            assert(said_pairs(r.evidence@) =~= seq![
                ("tcp_connect_ms"@, dec(tcp_ms as nat)),
                ("routing"@, ctx.text()),
            ]);
            return r;
        },
        TlsOutcome::ReadFailed(e) => {
            let why = e.explain();
            ProbeResult::failure(elapsed_ms, String::from_str("read after ClientHello failed: ").concat(why.as_str()))
        },
        TlsOutcome::TimedOut => {
            let limit = dec_string(ctx.timeout_ms);
            ProbeResult::failure(elapsed_ms, String::from_str("TCP connected but no ServerHello arrived within ")
                .concat(limit.as_str())
                .concat(" ms; a large-packet black hole (PMTU) or a filtering middlebox both look like this"))
        },
        TlsOutcome::Answered(b) => match classify_reply(b.as_slice()) {
            HelloReply::Empty => ProbeResult::failure(
                elapsed_ms,
                String::from_str(
                    "the peer closed the connection without answering the ClientHello",
                ),
            ),
            HelloReply::ServerHello => {
                let ms = dec_string(elapsed_ms);
                ProbeResult::success(elapsed_ms, String::from_str("TLS ServerHello received in ")
                    .concat(ms.as_str())
                    .concat(" ms"))
            },
            HelloReply::Alert { level, description } => {
                let d = dec_string(description as u64);
                let l = dec_string(level as u64);
                ProbeResult::failure(elapsed_ms, String::from_str("TLS alert instead of a ServerHello: ")
                    .concat(alert_name(description))
                    .concat(" (")
                    .concat(d.as_str())
                    .concat(", level ")
                    .concat(l.as_str())
                    .concat(")")).note(
                    "alert_description",
                    d.as_str(),
                )
            },
            HelloReply::NotTls => ProbeResult::failure(
                elapsed_ms,
                String::from_str("the peer answered with something that is not a TLS handshake"),
            ),
        },
    };
    let result = result.note("target", to.as_str()).note("sni", server_name).note(
        "client_hello_bytes",
        dec_string(hello_len as u64).as_str(),
    ).note("tcp_connect_ms", tcp.as_str()).note("routing", routing.as_str());
    assert(said_pairs(result.evidence@) =~= tls_evidence(
        target.text(),
        server_name@,
        hello_len as nat,
        tcp_ms,
        ctx.text(),
        *outcome,
    ));
    result
}

} // verus!
