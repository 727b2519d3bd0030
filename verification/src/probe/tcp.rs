//! TCP connect probes.
//!
//! Distinguishing "no route" from "timed out" from "refused" is most of the
//! diagnostic value here, so a result reports the error number rather than a
//! bare success flag.
use vstd::prelude::*;

use crate::ip::SocketAddr;
use crate::probe::icmp::IoFailure;
use crate::probe::{said_pairs, ProbeContext, ProbeResult};
use crate::text::{dec, dec_string, sdec, sdec_string};

verus! {

/// What came of an attempt to connect.
pub enum ConnectOutcome {
    NoSocket(IoFailure),
    /// The socket could not be pinned to the network under test.
    NotPinned(String),
    NotBound(IoFailure),
    /// The local address, if it could be read.
    Connected(Option<SocketAddr>),
    Failed(IoFailure),
    TimedOut,
}

pub open spec fn source_text(ctx: ProbeContext) -> Seq<char> {
    match ctx.source {
        Some(s) => s.text(),
        None => Seq::empty(),
    }
}

pub open spec fn connect_detail(
    target: Seq<char>,
    ctx: ProbeContext,
    duration_ms: u64,
    o: ConnectOutcome,
) -> Seq<char> {
    match o {
        ConnectOutcome::NoSocket(e) => "could not create a socket: "@ + e.text(),
        ConnectOutcome::NotPinned(why) => "could not pin the socket to the network under test: "@ + why@,
        ConnectOutcome::NotBound(e) => "could not bind to source "@ + source_text(ctx) + ": "@ + e.text(),
        ConnectOutcome::Connected(_) => "connected to "@ + target + " in "@ + dec(duration_ms as nat) + " ms"@,
        ConnectOutcome::Failed(e) => "connect to "@ + target + " failed: "@ + e.text(),
        ConnectOutcome::TimedOut => "connect to "@ +
            target +
            " timed out after "@ +
            dec(ctx.timeout_ms as nat) +
            " ms with no SYN-ACK"@,
    }
}

pub open spec fn local_text(local: Option<SocketAddr>) -> Seq<char> {
    match local {
        Some(a) => a.text(),
        None => "?"@,
    }
}

pub open spec fn errno_text(errno: Option<i32>) -> Seq<char> {
    match errno {
        Some(n) => sdec(n as int),
        None => Seq::empty(),
    }
}

pub open spec fn connect_evidence(target: Seq<char>, routing: Seq<char>, o: ConnectOutcome) -> Seq<
    (Seq<char>, Seq<char>),
> {
    match o {
        ConnectOutcome::NoSocket(_) => Seq::empty(),
        ConnectOutcome::NotPinned(_) | ConnectOutcome::NotBound(_) => seq![("routing"@, routing)],
        ConnectOutcome::Connected(local) => seq![
            ("target"@, target),
            ("local"@, local_text(local)),
            ("routing"@, routing),
        ],
        ConnectOutcome::Failed(e) => seq![
            ("target"@, target),
            ("errno"@, errno_text(e.errno)),
            ("routing"@, routing),
        ],
        ConnectOutcome::TimedOut => seq![("target"@, target), ("routing"@, routing)],
    }
}

/// Package what came of an attempt to connect as a probe result.
pub fn connect(target: SocketAddr, ctx: &ProbeContext, outcome: &ConnectOutcome, duration_ms: u64) -> (r: ProbeResult)
    ensures
        r.ok == (*outcome is Connected),
        r.duration_ms == duration_ms,
        r.detail@ == connect_detail(target.text(), *ctx, duration_ms, *outcome),
        r.error == if r.ok {
            None
        } else {
            Some(r.detail)
        },
        said_pairs(r.evidence@) == connect_evidence(target.text(), ctx.text(), *outcome),
{
    let to = target.to_text();
    let routing = ctx.describe();
    let result = match outcome {
        ConnectOutcome::NoSocket(e) => {
            let why = e.explain();
            let r = ProbeResult::failure(duration_ms, String::from_str("could not create a socket: ").concat(why.as_str()));
            assert(said_pairs(r.evidence@) =~= Seq::empty());
            return r;
        },
        ConnectOutcome::NotPinned(why) => ProbeResult::failure(duration_ms, String::from_str("could not pin the socket to the network under test: ")
            .concat(why.as_str())),
        ConnectOutcome::NotBound(e) => {
            let why = e.explain();
            let source = match ctx.source {
                Some(s) => s.to_text(),
                None => String::new(),
            };
            ProbeResult::failure(duration_ms, String::from_str("could not bind to source ")
                .concat(source.as_str())
                .concat(": ")
                .concat(why.as_str()))
        },
        ConnectOutcome::Connected(local) => {
            let ms = dec_string(duration_ms);
            let from = match local {
                Some(a) => a.to_text(),
                None => String::from_str("?"),
            };
            ProbeResult::success(duration_ms, String::from_str("connected to ")
                .concat(to.as_str())
                .concat(" in ")
                .concat(ms.as_str())
                .concat(" ms")).note(
                "target",
                to.as_str(),
            ).note("local", from.as_str())
        },
        ConnectOutcome::Failed(e) => {
            let why = e.explain();
            let errno = match e.errno {
                Some(n) => sdec_string(n as i64),
                None => String::new(),
            };
            ProbeResult::failure(duration_ms, String::from_str("connect to ")
                .concat(to.as_str())
                .concat(" failed: ")
                .concat(why.as_str())).note(
                "target",
                to.as_str(),
            ).note("errno", errno.as_str())
        },
        ConnectOutcome::TimedOut => {
            let limit = dec_string(ctx.timeout_ms);
            ProbeResult::failure(duration_ms, String::from_str("connect to ")
                .concat(to.as_str())
                .concat(" timed out after ")
                .concat(limit.as_str())
                .concat(" ms with no SYN-ACK")).note(
                "target",
                to.as_str(),
            )
        },
    };
    let result = result.note("routing", routing.as_str());
    assert(said_pairs(result.evidence@) =~= connect_evidence(target.text(), ctx.text(), *outcome));
    result
}

} // verus!
