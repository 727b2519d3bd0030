//! Checks: how one is put together, and what one says.
use vstd::prelude::*;

use crate::textmap::{pairs_map, TextMap};
use crate::probe::ProbeResult;
use crate::proto::{Check, CheckId, CheckStatus, Error, ErrorCode, IpFamily};
use crate::text::texts;
use crate::util::Stopwatch;

verus! {

/// The stable name of a check.
pub open spec fn key_text(id: CheckId) -> Seq<char> {
    match id {
        CheckId::Unspecified => "unspecified"@,
        CheckId::AndroidNetworkState => "android.state"@,
        CheckId::ActiveInterface => "iface.active"@,
        CheckId::Ipv4Address => "addr.v4"@,
        CheckId::Ipv6Address => "addr.v6"@,
        CheckId::Ipv4DefaultRoute => "route.v4.default"@,
        CheckId::Ipv6DefaultRoute => "route.v6.default"@,
        CheckId::GatewayReachabilityV4 => "gateway.v4"@,
        CheckId::GatewayReachabilityV6 => "gateway.v6"@,
        CheckId::DnsA => "dns.a"@,
        CheckId::DnsAaaa => "dns.aaaa"@,
        CheckId::TcpV4 => "tcp.v4"@,
        CheckId::TcpV6 => "tcp.v6"@,
        CheckId::TlsHandshake => "tls.handshake"@,
        CheckId::PrivateDns => "dns.private"@,
        CheckId::Nat64Dns64 => "nat64.dns64"@,
        CheckId::VpnRouting => "vpn.routing"@,
        CheckId::FirewallAnomaly => "firewall.anomaly"@,
        CheckId::MtuPmtu => "mtu.pmtu"@,
        CheckId::SuspiciousTcpStates => "sockets.states"@,
        CheckId::FrameworkKernelAgreement => "framework.kernel"@,
        CheckId::RoutingRuleCoverage => "rules.coverage"@,
        CheckId::DnsLatency => "dns.latency"@,
        CheckId::CaptivePortal => "captive.portal"@,
        CheckId::RouteLookupV4 => "route.lookup.v4"@,
        CheckId::RouteLookupV6 => "route.lookup.v6"@,
    }
}

/// The stable name of a check.
pub fn check_key(id: CheckId) -> (r: &'static str)
    ensures
        r@ == key_text(id),
{
    match id {
        CheckId::Unspecified => "unspecified",
        CheckId::AndroidNetworkState => "android.state",
        CheckId::ActiveInterface => "iface.active",
        CheckId::Ipv4Address => "addr.v4",
        CheckId::Ipv6Address => "addr.v6",
        CheckId::Ipv4DefaultRoute => "route.v4.default",
        CheckId::Ipv6DefaultRoute => "route.v6.default",
        CheckId::GatewayReachabilityV4 => "gateway.v4",
        CheckId::GatewayReachabilityV6 => "gateway.v6",
        CheckId::DnsA => "dns.a",
        CheckId::DnsAaaa => "dns.aaaa",
        CheckId::TcpV4 => "tcp.v4",
        CheckId::TcpV6 => "tcp.v6",
        CheckId::TlsHandshake => "tls.handshake",
        CheckId::PrivateDns => "dns.private",
        CheckId::Nat64Dns64 => "nat64.dns64",
        CheckId::VpnRouting => "vpn.routing",
        CheckId::FirewallAnomaly => "firewall.anomaly",
        CheckId::MtuPmtu => "mtu.pmtu",
        CheckId::SuspiciousTcpStates => "sockets.states",
        CheckId::FrameworkKernelAgreement => "framework.kernel",
        CheckId::RoutingRuleCoverage => "rules.coverage",
        CheckId::DnsLatency => "dns.latency",
        CheckId::CaptivePortal => "captive.portal",
        CheckId::RouteLookupV4 => "route.lookup.v4",
        CheckId::RouteLookupV6 => "route.lookup.v6",
    }
}

/// No two checks have the same key.
pub proof fn law_check_keys_are_unique(a: CheckId, b: CheckId)
    ensures
        key_text(a) == key_text(b) ==> a == b,
{
    reveal_strlit("unspecified");
    reveal_strlit("android.state");
    reveal_strlit("iface.active");
    reveal_strlit("addr.v4");
    reveal_strlit("addr.v6");
    reveal_strlit("route.v4.default");
    reveal_strlit("route.v6.default");
    reveal_strlit("gateway.v4");
    reveal_strlit("gateway.v6");
    reveal_strlit("dns.a");
    reveal_strlit("dns.aaaa");
    reveal_strlit("tcp.v4");
    reveal_strlit("tcp.v6");
    reveal_strlit("tls.handshake");
    reveal_strlit("dns.private");
    reveal_strlit("nat64.dns64");
    reveal_strlit("vpn.routing");
    reveal_strlit("firewall.anomaly");
    reveal_strlit("mtu.pmtu");
    reveal_strlit("sockets.states");
    reveal_strlit("framework.kernel");
    reveal_strlit("rules.coverage");
    reveal_strlit("dns.latency");
    reveal_strlit("captive.portal");
    reveal_strlit("route.lookup.v4");
    reveal_strlit("route.lookup.v6");
    assert("unspecified"@[0] != "dns.private"@[0]);
    assert("unspecified"@[0] != "nat64.dns64"@[0]);
    assert("unspecified"@[0] != "vpn.routing"@[0]);
    assert("unspecified"@[0] != "dns.latency"@[0]);
    assert("dns.private"@[0] != "nat64.dns64"@[0]);
    assert("dns.private"@[0] != "vpn.routing"@[0]);
    assert("dns.private"@[4] != "dns.latency"@[4]);
    assert("nat64.dns64"@[0] != "vpn.routing"@[0]);
    assert("nat64.dns64"@[0] != "dns.latency"@[0]);
    assert("vpn.routing"@[0] != "dns.latency"@[0]);
    assert("android.state"@[0] != "tls.handshake"@[0]);
    assert("addr.v4"@[6] != "addr.v6"@[6]);
    assert("route.v4.default"@[7] != "route.v6.default"@[7]);
    assert("route.v4.default"@[0] != "firewall.anomaly"@[0]);
    assert("route.v4.default"@[0] != "framework.kernel"@[0]);
    assert("route.v6.default"@[0] != "firewall.anomaly"@[0]);
    assert("route.v6.default"@[0] != "framework.kernel"@[0]);
    assert("firewall.anomaly"@[1] != "framework.kernel"@[1]);
    assert("gateway.v4"@[9] != "gateway.v6"@[9]);
    assert("dns.aaaa"@[0] != "mtu.pmtu"@[0]);
    assert("tcp.v4"@[5] != "tcp.v6"@[5]);
    assert("sockets.states"@[0] != "rules.coverage"@[0]);
    assert("sockets.states"@[0] != "captive.portal"@[0]);
    assert("rules.coverage"@[0] != "captive.portal"@[0]);
    assert("route.lookup.v4"@[14] != "route.lookup.v6"@[14]);
    let (x, y) = (key_text(a), key_text(b));
    if x == y && a != b {
        assert(x.len() == y.len() && x[0] == y[0] && x[1] == y[1] && x[4] == y[4] && x[5] == y[5]);
        assert(x[6] == y[6] && x[7] == y[7] && x[9] == y[9] && x[14] == y[14]);
        assert(false);
    }
}

/// What an error says.
pub struct ErrorSaid {
    pub code: ErrorCode,
    pub message: Seq<char>,
    pub detail: Seq<char>,
}

pub open spec fn error_said(e: Option<Error>) -> Option<ErrorSaid> {
    match e {
        Some(e) => Some(ErrorSaid { code: e.code, message: e.message@, detail: e.detail@ }),
        None => None,
    }
}

/// What a check says, apart from how long it took.
pub struct Said {
    pub id: CheckId,
    pub key: Seq<char>,
    pub title: Seq<char>,
    pub status: CheckStatus,
    pub family: IpFamily,
    pub detail: Seq<char>,
    pub evidence: Map<Seq<char>, Seq<char>>,
    pub depends_on: Seq<Seq<char>>,
    pub error: Option<ErrorSaid>,
}

/// What a check says.
pub open spec fn said(c: Check) -> Said {
    Said {
        id: c.id,
        key: c.key@,
        title: c.title@,
        status: c.status,
        family: c.family,
        detail: c.detail@,
        evidence: c.evidence@,
        depends_on: texts(c.depends_on@),
        error: error_said(c.error),
    }
}

/// A check that has a name and a title and nothing else.
pub open spec fn untold(id: CheckId, title: Seq<char>) -> Said {
    Said {
        id,
        key: key_text(id),
        title,
        status: CheckStatus::Unspecified,
        family: IpFamily::Unspecified,
        detail: Seq::empty(),
        evidence: Map::empty(),
        depends_on: Seq::empty(),
        error: None,
    }
}

impl Said {
    pub open spec fn about(self, family: IpFamily) -> Said {
        Said { family, ..self }
    }

    pub open spec fn after(self, keys: Seq<Seq<char>>) -> Said {
        Said { depends_on: keys, ..self }
    }

    pub open spec fn ev(self, key: Seq<char>, value: Seq<char>) -> Said {
        Said { evidence: self.evidence.insert(key, value), ..self }
    }

    pub open spec fn ends(self, status: CheckStatus, detail: Seq<char>) -> Said {
        Said { status, detail, ..self }
    }

    pub open spec fn pass(self, detail: Seq<char>) -> Said {
        self.ends(CheckStatus::Pass, detail)
    }

    pub open spec fn fail(self, detail: Seq<char>) -> Said {
        self.ends(CheckStatus::Fail, detail)
    }

    pub open spec fn warn(self, detail: Seq<char>) -> Said {
        self.ends(CheckStatus::Warn, detail)
    }

    pub open spec fn skip(self, detail: Seq<char>) -> Said {
        self.ends(CheckStatus::Skip, detail)
    }

    pub open spec fn info(self, detail: Seq<char>) -> Said {
        self.ends(CheckStatus::Info, detail)
    }

    /// The check with the evidence of a probe added, and the probe's outcome,
    /// words and error for its own.
    pub open spec fn with_probe(self, p: ProbeResult) -> Said {
        Said {
            evidence: self.evidence.union_prefer_right(pairs_map(p.evidence@)),
            status: if p.ok {
                CheckStatus::Pass
            } else {
                CheckStatus::Fail
            },
            detail: p.detail@,
            error: match p.error {
                Some(e) => Some(
                    ErrorSaid { code: ErrorCode::Kernel, message: e@, detail: Seq::empty() },
                ),
                None => None,
            },
            ..self
        }
    }
}

/// A check under construction, with a stopwatch that runs from its start.
pub struct CheckBuilder {
    pub check: Check,
    pub clock: Stopwatch,
}

impl CheckBuilder {
    pub fn new(id: CheckId, title: &str) -> (r: Self)
        ensures
            said(r.check) == untold(id, title@),
            r.check.evidence.wf(),
    {
        CheckBuilder::timed(Stopwatch::start(), id, title)
    }

    /// A check whose stopwatch was started before.
    pub fn timed(clock: Stopwatch, id: CheckId, title: &str) -> (r: Self)
        ensures
            said(r.check) == untold(id, title@),
            r.check.evidence.wf(),
    {
        let check = Check {
            id,
            key: String::from_str(check_key(id)),
            title: String::from_str(title),
            status: CheckStatus::Unspecified,
            family: IpFamily::Unspecified,
            detail: String::new(),
            evidence: TextMap::new(),
            depends_on: Vec::new(),
            error: None,
            duration_ms: 0,
        };
        assert(texts(check.depends_on@) =~= Seq::empty());
        CheckBuilder { check, clock }
    }

    pub fn family(self, family: IpFamily) -> (r: Self)
        ensures
            said(r.check) == said(self.check).about(family),
            self.check.evidence.wf() ==> r.check.evidence.wf(),
    {
        let mut out = self;
        out.check.family = family;
        out
    }

    pub fn depends_on(self, keys: Vec<String>) -> (r: Self)
        ensures
            said(r.check) == said(self.check).after(texts(keys@)),
            self.check.evidence.wf() ==> r.check.evidence.wf(),
    {
        let mut out = self;
        out.check.depends_on = keys;
        out
    }

    pub fn ev(self, key: &str, value: &str) -> (r: Self)
        ensures
            said(r.check) == said(self.check).ev(key@, value@),
            self.check.evidence.wf() ==> r.check.evidence.wf(),
    {
        let mut out = self;
        out.check.evidence.insert(String::from_str(key), String::from_str(value));
        out
    }

    pub fn finish(self, status: CheckStatus, detail: String) -> (r: Check)
        ensures
            said(r) == said(self.check).ends(status, detail@),
            self.check.evidence.wf() ==> r.evidence.wf(),
    {
        let duration_ms = self.clock.elapsed_ms();
        let mut check = self.check;
        check.status = status;
        check.detail = detail;
        check.duration_ms = duration_ms;
        check
    }

    pub fn pass(self, detail: String) -> (r: Check)
        ensures
            said(r) == said(self.check).pass(detail@),
            self.check.evidence.wf() ==> r.evidence.wf(),
    {
        self.finish(CheckStatus::Pass, detail)
    }

    pub fn fail(self, detail: String) -> (r: Check)
        ensures
            said(r) == said(self.check).fail(detail@),
            self.check.evidence.wf() ==> r.evidence.wf(),
    {
        self.finish(CheckStatus::Fail, detail)
    }

    pub fn warn(self, detail: String) -> (r: Check)
        ensures
            said(r) == said(self.check).warn(detail@),
            self.check.evidence.wf() ==> r.evidence.wf(),
    {
        self.finish(CheckStatus::Warn, detail)
    }

    pub fn skip(self, detail: String) -> (r: Check)
        ensures
            said(r) == said(self.check).skip(detail@),
            self.check.evidence.wf() ==> r.evidence.wf(),
    {
        self.finish(CheckStatus::Skip, detail)
    }

    pub fn info(self, detail: String) -> (r: Check)
        ensures
            said(r) == said(self.check).info(detail@),
            self.check.evidence.wf() ==> r.evidence.wf(),
    {
        self.finish(CheckStatus::Info, detail)
    }

    /// Fold a probe result into the check, carrying its evidence, its measured
    /// duration (which is the probe's own timing, not the builder's) and its
    /// error across.
    pub fn with_probe(self, result: &ProbeResult) -> (r: Check)
        ensures
            said(r) == said(self.check).with_probe(*result),
            self.check.evidence.wf() ==> r.evidence.wf(),
            r.duration_ms == result.duration_ms,
    {
        let ghost start = self.check.evidence@;
        let ghost pairs = result.evidence@;
        let mut check = self.check;
        check.error = result.to_error();
        let mut i: usize = 0;
        assert(pairs.take(0) =~= Seq::empty());
        assert(start =~= start.union_prefer_right(pairs_map(pairs.take(0))));
        while i < result.evidence.len()
            invariant
                i <= result.evidence.len(),
                pairs == result.evidence@,
                check.evidence@ == start.union_prefer_right(pairs_map(pairs.take(i as int))),
                self.check.evidence.wf() ==> check.evidence.wf(),
                check.id == self.check.id,
                check.key == self.check.key,
                check.title == self.check.title,
                check.family == self.check.family,
                check.depends_on == self.check.depends_on,
                match (result.error, check.error) {
                    (Some(e), Some(x)) => x.message == e && x.code == ErrorCode::Kernel
                        && x.detail@.len() == 0,
                    (None, None) => true,
                    _ => false,
                },
            decreases result.evidence.len() - i,
        {
            let ghost before = check.evidence@;
            assert(pairs.take(i + 1).drop_last() =~= pairs.take(i as int));
            check.evidence.insert(result.evidence[i].0.clone(), result.evidence[i].1.clone());
            assert(check.evidence@ =~= start.union_prefer_right(
                pairs_map(pairs.take(i + 1)),
            ));
            i += 1;
        }
        assert(pairs.take(pairs.len() as int) =~= pairs);
        check.status = if result.ok {
            CheckStatus::Pass
        } else {
            CheckStatus::Fail
        };
        check.detail = result.detail.clone();
        check.duration_ms = result.duration_ms;
        proof {
            if check.error is Some {
                assert((check.error->0).detail@ =~= Seq::empty());
            }
        }
        check
    }
}

/// One string, as a list.
pub fn one(a: &str) -> (r: Vec<String>)
    ensures
        texts(r@) == seq![a@],
{
    let mut v: Vec<String> = Vec::new();
    v.push(String::from_str(a));
    assert(texts(v@) =~= seq![a@]);
    v
}

/// Two strings, as a list.
pub fn two(a: &str, b: &str) -> (r: Vec<String>)
    ensures
        texts(r@) == seq![a@, b@],
{
    let mut v: Vec<String> = Vec::new();
    v.push(String::from_str(a));
    v.push(String::from_str(b));
    assert(texts(v@) =~= seq![a@, b@]);
    v
}

} // verus!
