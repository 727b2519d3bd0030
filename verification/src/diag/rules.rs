//! Rule-based interpretation of check results.
//!
//! Each rule is a small function over the check outcomes. A wrong
//! interpretation is worse than none: it sends the user to fix the wrong layer.
//!
//! Two conventions keep the output honest:
//!
//! * A rule only fires on evidence that is actually present. A SKIPped check
//!   is not a passing check, and no rule may treat it as one.
//! * `confidence` reflects how much of the expected pattern was observed, so a
//!   rule with partial evidence reports itself as such instead of either
//!   staying silent or overclaiming.
use vstd::prelude::*;

use crate::diag::checks::{framework_vpn, reports_vpn};
use crate::diag::state::DiagState;
use crate::proto::{Check, CheckStatus, Finding, FindingId, FindingSeverity};
use crate::seqs::{insert_by, last_some, law_sort_by, or, sort_by, stable_sort, weak_order};
use crate::text::{
    dec, dec_string, is_empty, occurs_in, parse_u32, same, text_contains, texts, unsigned,
};

verus! {

// ---- Looking up checks ----------------------------------------------------------

/// The check itself where it has a key.
pub open spec fn with_key(key: Seq<char>) -> spec_fn(Check) -> Option<Check> {
    |c: Check|
        if c.key@ == key {
            Some(c)
        } else {
            None
        }
}

/// The check with a key; the last one where several have it.
pub open spec fn check_in(c: Seq<Check>, key: Seq<char>) -> Option<Check> {
    last_some(c, with_key(key))
}

/// Whether the check with a key has an outcome.
pub open spec fn status_is(c: Seq<Check>, key: Seq<char>, status: CheckStatus) -> bool {
    check_in(c, key) is Some && (check_in(c, key)->0).status == status
}

pub open spec fn passed_in(c: Seq<Check>, key: Seq<char>) -> bool {
    status_is(c, key, CheckStatus::Pass)
}

pub open spec fn failed_in(c: Seq<Check>, key: Seq<char>) -> bool {
    status_is(c, key, CheckStatus::Fail)
}

pub open spec fn warned_in(c: Seq<Check>, key: Seq<char>) -> bool {
    status_is(c, key, CheckStatus::Warn)
}

pub open spec fn skipped_in(c: Seq<Check>, key: Seq<char>) -> bool {
    status_is(c, key, CheckStatus::Skip)
}

/// The words of the check with a key, or nothing.
pub open spec fn detail_in(c: Seq<Check>, key: Seq<char>) -> Seq<char> {
    match check_in(c, key) {
        Some(x) => x.detail@,
        None => Seq::empty(),
    }
}

/// A piece of evidence of the check with a key.
pub open spec fn evidence_in(c: Seq<Check>, key: Seq<char>, field: Seq<char>) -> Option<Seq<char>> {
    match check_in(c, key) {
        Some(x) => if x.evidence@.contains_key(field) {
            Some(x.evidence@[field])
        } else {
            None
        },
        None => None,
    }
}

/// Convenient view over the checks, by their stable string key.
pub struct CheckIndex<'a> {
    pub checks: &'a Vec<Check>,
}

impl<'a> CheckIndex<'a> {
    pub fn new(checks: &'a Vec<Check>) -> (r: Self)
        ensures
            r.checks@ == checks@,
    {
        CheckIndex { checks }
    }

    /// The check with a key.
    pub fn find(&self, key: &str) -> (r: Option<&'a Check>)
        ensures
            match r {
                Some(c) => check_in(self.checks@, key@) == Some(*c),
                None => check_in(self.checks@, key@) is None,
            },
    {
        let ghost all = self.checks@;
        let mut i: usize = self.checks.len();
        assert(all.take(i as int) =~= all);
        while i > 0
            invariant
                i <= self.checks.len(),
                all == self.checks@,
                check_in(all, key@) == check_in(all.take(i as int), key@),
            decreases i,
        {
            assert(all.take(i as int).drop_last() =~= all.take(i - 1));
            i -= 1;
            if same(self.checks[i].key.as_str(), key) {
                return Some(&self.checks[i]);
            }
        }
        None
    }

    fn has_status(&self, key: &str, status: CheckStatus) -> (r: bool)
        ensures
            r == status_is(self.checks@, key@, status),
    {
        match self.find(key) {
            Some(c) => c.status == status,
            None => false,
        }
    }

    pub fn passed(&self, key: &str) -> (r: bool)
        ensures
            r == passed_in(self.checks@, key@),
    {
        self.has_status(key, CheckStatus::Pass)
    }

    pub fn failed(&self, key: &str) -> (r: bool)
        ensures
            r == failed_in(self.checks@, key@),
    {
        self.has_status(key, CheckStatus::Fail)
    }

    pub fn warned(&self, key: &str) -> (r: bool)
        ensures
            r == warned_in(self.checks@, key@),
    {
        self.has_status(key, CheckStatus::Warn)
    }

    pub fn skipped(&self, key: &str) -> (r: bool)
        ensures
            r == skipped_in(self.checks@, key@),
    {
        self.has_status(key, CheckStatus::Skip)
    }

    pub fn detail(&self, key: &str) -> (r: String)
        ensures
            r@ == detail_in(self.checks@, key@),
    {
        match self.find(key) {
            Some(c) => c.detail.clone(),
            None => String::new(),
        }
    }

    pub fn evidence(&self, key: &str, field: &str) -> (r: Option<&'a str>)
        ensures
            match r {
                Some(v) => evidence_in(self.checks@, key@, field@) == Some(v@),
                None => evidence_in(self.checks@, key@, field@) is None,
            },
    {
        match self.find(key) {
            Some(c) => c.evidence.get(field),
            None => None,
        }
    }

    /// Whether a piece of evidence is a given word.
    fn says(&self, key: &str, field: &str, word: &str) -> (r: bool)
        ensures
            r == (evidence_in(self.checks@, key@, field@) == Some(word@)),
    {
        match self.evidence(key, field) {
            Some(v) => same(v, word),
            None => false,
        }
    }
}

// ---- Findings ---------------------------------------------------------------

/// What a finding says.
pub struct FindingSaid {
    pub id: FindingId,
    pub key: Seq<char>,
    pub severity: FindingSeverity,
    pub title: Seq<char>,
    pub interpretation: Seq<char>,
    pub supporting: Seq<Seq<char>>,
    pub actions: Seq<Seq<char>>,
    pub confidence: nat,
}

pub open spec fn said_by(f: Finding) -> FindingSaid {
    FindingSaid {
        id: f.id,
        key: f.key@,
        severity: f.severity,
        title: f.title@,
        interpretation: f.interpretation@,
        supporting: texts(f.supporting_checks@),
        actions: texts(f.suggested_actions@),
        confidence: f.confidence as nat,
    }
}

pub open spec fn finding_said(f: Option<Finding>) -> Option<FindingSaid> {
    match f {
        Some(f) => Some(said_by(f)),
        None => None,
    }
}

pub open spec fn findings_said(v: Seq<Finding>) -> Seq<FindingSaid> {
    Seq::new(v.len(), |i: int| said_by(v[i]))
}

/// The contents of a list of words.
pub open spec fn strs(v: Seq<&str>) -> Seq<Seq<char>> {
    Seq::new(v.len(), |i: int| v[i]@)
}

fn strings(v: &[&str]) -> (r: Vec<String>)
    ensures
        texts(r@) == strs(v@),
{
    let mut r: Vec<String> = Vec::new();
    let mut i: usize = 0;
    while i < v.len()
        invariant
            i <= v@.len(),
            r.len() == i,
            forall|k: int| 0 <= k < i ==> #[trigger] r@[k]@ == v@[k]@,
        decreases v@.len() - i,
    {
        r.push(String::from_str(v[i]));
        i += 1;
    }
    assert(texts(r@) =~= strs(v@));
    r
}

fn finding(
    id: FindingId,
    key: &str,
    severity: FindingSeverity,
    title: &str,
    interpretation: String,
    supporting: &[&str],
    actions: &[&str],
    confidence: u32,
) -> (r: Finding)
    ensures
        said_by(r) == (FindingSaid {
            id,
            key: key@,
            severity,
            title: title@,
            interpretation: interpretation@,
            supporting: strs(supporting@),
            actions: strs(actions@),
            confidence: confidence as nat,
        }),
{
    Finding {
        id,
        key: String::from_str(key),
        severity,
        title: String::from_str(title),
        interpretation,
        supporting_checks: strings(supporting),
        suggested_actions: strings(actions),
        confidence,
    }
}

/// Whether Android calls the network under test validated.
pub open spec fn is_validated(state: DiagState) -> bool {
    match state.network {
        Some(n) => match n.capabilities {
            Some(c) => c.validated,
            None => false,
        },
        None => false,
    }
}

fn network_validated(state: &DiagState) -> (r: bool)
    ensures
        r == is_validated(*state),
{
    match &state.network {
        Some(n) => match &n.capabilities {
            Some(c) => c.validated,
            None => false,
        },
        None => false,
    }
}

/// Whether Android restricts the network under test.
pub open spec fn is_restricted(state: DiagState) -> bool {
    match state.network {
        Some(n) => match n.capabilities {
            Some(c) => !c.not_restricted,
            None => false,
        },
        None => false,
    }
}

fn network_restricted(state: &DiagState) -> (r: bool)
    ensures
        r == is_restricted(*state),
{
    match &state.network {
        Some(n) => match &n.capabilities {
            Some(c) => !c.not_restricted,
            None => false,
        },
        None => false,
    }
}

// ---- Rules ------------------------------------------------------------------

/// A finding as a list.
pub open spec fn listed(f: Option<FindingSaid>) -> Seq<FindingSaid> {
    match f {
        Some(f) => seq![f],
        None => Seq::empty(),
    }
}

fn add_finding(out: &mut Vec<Finding>, f: Option<Finding>)
    ensures
        findings_said(final(out)@) == findings_said(old(out)@) + listed(finding_said(f)),
{
    let ghost before = findings_said(out@);
    match f {
        Some(f) => {
            let ghost said = said_by(f);
            out.push(f);
            assert(findings_said(out@) =~= before + seq![said]);
        },
        None => {
            assert(findings_said(out@) =~= before + Seq::<FindingSaid>::empty());
        },
    }
}

/// Neither family works and DNS fails over both. If both families merely lack a
/// route, a more specific rule explains it better than this one would.
pub open spec fn no_connectivity_at_all_found(c: Seq<Check>, state: DiagState) -> Option<FindingSaid> {
    if (failed_in(c, "tcp.v4"@) || skipped_in(c, "tcp.v4"@)) && (failed_in(c, "tcp.v6"@) || skipped_in(c, "tcp.v6"@)) && failed_in(c, "dns.a"@) && failed_in(c, "dns.aaaa"@) && !(skipped_in(c, "tcp.v4"@) && skipped_in(c, "tcp.v6"@) && failed_in(c, "iface.active"@)) {
        Some(
            FindingSaid {
                id: FindingId::NoConnectivityAtAll,
                key: "no_connectivity"@,
                severity: FindingSeverity::Critical,
                title: "Suspected problem: no working path to the internet"@,
                interpretation: "Neither IPv4 nor IPv6 completed a TCP connection, and DNS failed over both families. Nothing above the link layer is getting through.\n\nWhen both families fail together the cause is usually below them: no usable address, no default route, an unreachable first hop, or a firewall dropping this device's traffic entirely. The checks above show which of those is the case."@,
                supporting: seq![
                    "tcp.v4"@,
                    "tcp.v6"@,
                    "dns.a"@,
                    "dns.aaaa"@,
                ],
                actions: seq![
                    "Check whether the gateway is reachable at all"@,
                    "Confirm the interface has a global address and a default route"@,
                    "If this is a captive portal network, open a browser and complete the portal"@,
                ],
                confidence: 90,
            },
        )
    } else {
        None
    }
}

pub fn rule_no_connectivity_at_all(index: &CheckIndex, _state: &DiagState) -> (r: Option<Finding>)
    ensures
        finding_said(r) == no_connectivity_at_all_found(index.checks@, *_state),
{
    if !((index.failed("tcp.v4") || index.skipped("tcp.v4")) && (index.failed("tcp.v6") || index.skipped("tcp.v6")) && index.failed("dns.a") && index.failed("dns.aaaa") && !(index.skipped("tcp.v4") && index.skipped("tcp.v6") && index.failed("iface.active"))) {
        return None;
    }
    let supporting = [
        "tcp.v4",
        "tcp.v6",
        "dns.a",
        "dns.aaaa",
    ];
    let actions = [
        "Check whether the gateway is reachable at all",
        "Confirm the interface has a global address and a default route",
        "If this is a captive portal network, open a browser and complete the portal",
    ];
    assert(strs(supporting@) =~= seq![
        "tcp.v4"@,
        "tcp.v6"@,
        "dns.a"@,
        "dns.aaaa"@,
    ]);
    assert(strs(actions@) =~= seq![
        "Check whether the gateway is reachable at all"@,
        "Confirm the interface has a global address and a default route"@,
        "If this is a captive portal network, open a browser and complete the portal"@,
    ]);
    Some(
        finding(
            FindingId::NoConnectivityAtAll,
            "no_connectivity",
            FindingSeverity::Critical,
            "Suspected problem: no working path to the internet",
            String::from_str("Neither IPv4 nor IPv6 completed a TCP connection, and DNS failed over both families. Nothing above the link layer is getting through.\n\nWhen both families fail together the cause is usually below them: no usable address, no default route, an unreachable first hop, or a firewall dropping this device's traffic entirely. The checks above show which of those is the case."),
            supporting.as_slice(),
            actions.as_slice(),
            90,
        ),
    )
}

/// The headline case: the stack believes IPv6 is fine, and it is not. AAAA records
/// being returned is what makes this actively harmful rather than merely untidy:
/// without them, clients would never try IPv6.
pub open spec fn broken_upstream_ipv6_found(c: Seq<Check>, state: DiagState) -> Option<FindingSaid> {
    if passed_in(c, "addr.v6"@) && passed_in(c, "route.v6.default"@) && failed_in(c, "tcp.v6"@) && passed_in(c, "tcp.v4"@) {
        let returned = passed_in(c, "dns.aaaa"@);
        let near = passed_in(c, "gateway.v6"@) || warned_in(c, "gateway.v6"@);
        let extra = if returned {
            "\n\nDNS is returning AAAA records, so applications will prefer IPv6 and try it first. Happy Eyeballs (RFC 8305) normally hides a broken family behind a short delay, but that only works when the IPv6 attempt fails quickly. A path that silently drops packets makes every connection wait for a timeout instead, which is what \"the internet is slow\" usually means on a network in this state."@
        } else {
            "\n\nDNS is not returning AAAA records for the test host, which limits the damage: most applications will not attempt IPv6 at all."@
        };
        Some(
            FindingSaid {
                id: FindingId::BrokenUpstreamIpv6,
                key: "broken_upstream_ipv6"@,
                severity: FindingSeverity::High,
                title: "Suspected problem: broken upstream IPv6"@,
                interpretation: "IPv6 is fully configured on this device: a global address is assigned and a default route exists. IPv4 works end to end. But no TCP connection completes over IPv6.\n\nThat combination points upstream, not at the device. The local configuration is what it should be, so the packets are being dropped somewhere beyond the first hop."@ +
                    extra,
                supporting: seq![
                    "addr.v6"@,
                    "route.v6.default"@,
                    "dns.aaaa"@,
                    "tcp.v6"@,
                    "tcp.v4"@,
                ],
                actions: seq![
                    "Test the same device on a different network to confirm the problem follows the network"@,
                    "If this is a home network, check whether the router's IPv6 delegation is still valid"@,
                    "As a workaround, disabling IPv6 on this network removes the stall at the cost of IPv6 connectivity"@,
                ],
                confidence: (if returned {
                90nat
            } else {
                75nat
            }) + (if near {
                5nat
            } else {
                0nat
            }),
            },
        )
    } else {
        None
    }
}

pub fn rule_broken_upstream_ipv6(index: &CheckIndex, state: &DiagState) -> (r: Option<Finding>)
    ensures
        finding_said(r) == broken_upstream_ipv6_found(index.checks@, *state),
{
    if !(index.passed("addr.v6") && index.passed("route.v6.default") && index.failed("tcp.v6") && index.passed("tcp.v4")) {
        return None;
    }
    let returned = index.passed("dns.aaaa");
    let near = index.passed("gateway.v6") || index.warned("gateway.v6");
    let extra = if returned {
        "\n\nDNS is returning AAAA records, so applications will prefer IPv6 and try it first. Happy Eyeballs (RFC 8305) normally hides a broken family behind a short delay, but that only works when the IPv6 attempt fails quickly. A path that silently drops packets makes every connection wait for a timeout instead, which is what \"the internet is slow\" usually means on a network in this state."
    } else {
        "\n\nDNS is not returning AAAA records for the test host, which limits the damage: most applications will not attempt IPv6 at all."
    };
    let base: u32 = if returned {
        90
    } else {
        75
    };
    let supporting = [
        "addr.v6",
        "route.v6.default",
        "dns.aaaa",
        "tcp.v6",
        "tcp.v4",
    ];
    let actions = [
        "Test the same device on a different network to confirm the problem follows the network",
        "If this is a home network, check whether the router's IPv6 delegation is still valid",
        "As a workaround, disabling IPv6 on this network removes the stall at the cost of IPv6 connectivity",
    ];
    assert(strs(supporting@) =~= seq![
        "addr.v6"@,
        "route.v6.default"@,
        "dns.aaaa"@,
        "tcp.v6"@,
        "tcp.v4"@,
    ]);
    assert(strs(actions@) =~= seq![
        "Test the same device on a different network to confirm the problem follows the network"@,
        "If this is a home network, check whether the router's IPv6 delegation is still valid"@,
        "As a workaround, disabling IPv6 on this network removes the stall at the cost of IPv6 connectivity"@,
    ]);
    Some(
        finding(
            FindingId::BrokenUpstreamIpv6,
            "broken_upstream_ipv6",
            FindingSeverity::High,
            "Suspected problem: broken upstream IPv6",
            String::from_str("IPv6 is fully configured on this device: a global address is assigned and a default route exists. IPv4 works end to end. But no TCP connection completes over IPv6.\n\nThat combination points upstream, not at the device. The local configuration is what it should be, so the packets are being dropped somewhere beyond the first hop.")
                .concat(extra),
            supporting.as_slice(),
            actions.as_slice(),
            if near {
            base + 5
        } else {
            base
        },
        ),
    )
}

/// An IPv6 address without a default route.
pub open spec fn ipv6_configured_no_route_found(c: Seq<Check>, state: DiagState) -> Option<FindingSaid> {
    if passed_in(c, "addr.v6"@) && failed_in(c, "route.v6.default"@) {
        Some(
            FindingSaid {
                id: FindingId::Ipv6ConfiguredNoRoute,
                key: "ipv6_no_default_route"@,
                severity: FindingSeverity::Medium,
                title: "IPv6 address assigned but no default route"@,
                interpretation: "The interface has a global IPv6 address but there is no IPv6 default route in the table this traffic uses.\n\nAn address without a route usually means the router advertisement carried a prefix but no router lifetime, or the route expired and was not refreshed. Only on-link IPv6 destinations are reachable in this state.\n\n"@ +
                    detail_in(c, "route.v6.default"@),
                supporting: seq![
                    "addr.v6"@,
                    "route.v6.default"@,
                ],
                actions: seq![
                    "Check whether router advertisements are still arriving on this link"@,
                    "Confirm accept_ra is not disabled for this interface"@,
                ],
                confidence: 85,
            },
        )
    } else {
        None
    }
}

pub fn rule_ipv6_configured_no_route(index: &CheckIndex, _state: &DiagState) -> (r: Option<Finding>)
    ensures
        finding_said(r) == ipv6_configured_no_route_found(index.checks@, *_state),
{
    if !(index.passed("addr.v6") && index.failed("route.v6.default")) {
        return None;
    }
    let supporting = [
        "addr.v6",
        "route.v6.default",
    ];
    let actions = [
        "Check whether router advertisements are still arriving on this link",
        "Confirm accept_ra is not disabled for this interface",
    ];
    assert(strs(supporting@) =~= seq![
        "addr.v6"@,
        "route.v6.default"@,
    ]);
    assert(strs(actions@) =~= seq![
        "Check whether router advertisements are still arriving on this link"@,
        "Confirm accept_ra is not disabled for this interface"@,
    ]);
    Some(
        finding(
            FindingId::Ipv6ConfiguredNoRoute,
            "ipv6_no_default_route",
            FindingSeverity::Medium,
            "IPv6 address assigned but no default route",
            String::from_str("The interface has a global IPv6 address but there is no IPv6 default route in the table this traffic uses.\n\nAn address without a route usually means the router advertisement carried a prefix but no router lifetime, or the route expired and was not refreshed. Only on-link IPv6 destinations are reachable in this state.\n\n")
                .concat(index.detail("route.v6.default").as_str()),
            supporting.as_slice(),
            actions.as_slice(),
            85,
        ),
    )
}

/// IPv6 is switched off on the egress interface.
pub open spec fn ipv6_disabled_by_sysctl_found(c: Seq<Check>, state: DiagState) -> Option<FindingSaid> {
    if evidence_in(c, "addr.v6"@, "disable_ipv6"@) == Some("true"@) {
        Some(
            FindingSaid {
                id: FindingId::Ipv6DisabledBySysctl,
                key: "ipv6_disabled_sysctl"@,
                severity: FindingSeverity::Medium,
                title: "IPv6 is administratively disabled on this interface"@,
                interpretation: "The `disable_ipv6` sysctl is set for the egress interface, so the kernel will not configure or use IPv6 on it regardless of what the network offers.\n\nThis is a local setting, not a network problem. Something on the device set it: a VPN app, a tethering configuration, or a manual change."@,
                supporting: seq![
                    "addr.v6"@,
                ],
                actions: seq![
                    "Identify what set disable_ipv6; VPN apps are the most common cause"@,
                ],
                confidence: 95,
            },
        )
    } else {
        None
    }
}

pub fn rule_ipv6_disabled_by_sysctl(index: &CheckIndex, _state: &DiagState) -> (r: Option<Finding>)
    ensures
        finding_said(r) == ipv6_disabled_by_sysctl_found(index.checks@, *_state),
{
    if !(index.says("addr.v6", "disable_ipv6", "true")) {
        return None;
    }
    let supporting = [
        "addr.v6",
    ];
    let actions = [
        "Identify what set disable_ipv6; VPN apps are the most common cause",
    ];
    assert(strs(supporting@) =~= seq![
        "addr.v6"@,
    ]);
    assert(strs(actions@) =~= seq![
        "Identify what set disable_ipv6; VPN apps are the most common cause"@,
    ]);
    Some(
        finding(
            FindingId::Ipv6DisabledBySysctl,
            "ipv6_disabled_sysctl",
            FindingSeverity::Medium,
            "IPv6 is administratively disabled on this interface",
            String::from_str("The `disable_ipv6` sysctl is set for the egress interface, so the kernel will not configure or use IPv6 on it regardless of what the network offers.\n\nThis is a local setting, not a network problem. Something on the device set it: a VPN app, a tethering configuration, or a manual change."),
            supporting.as_slice(),
            actions.as_slice(),
            95,
        ),
    )
}

/// A first hop does not answer.
pub open spec fn gateway_unreachable_found(c: Seq<Check>, state: DiagState) -> Option<FindingSaid> {
    let v4 = failed_in(c, "gateway.v4"@);
    let v6 = failed_in(c, "gateway.v6"@);
    if v4 || v6 {
        let which = if v4 && v6 {
            "both IPv4 and IPv6"@
        } else if v4 {
            "IPv4"@
        } else {
            "IPv6"@
        };
        let detail = if v4 {
            detail_in(c, "gateway.v4"@)
        } else {
            detail_in(c, "gateway.v6"@)
        };
        Some(
            FindingSaid {
                id: FindingId::GatewayUnreachable,
                key: "gateway_unreachable"@,
                severity: if v4 && v6 {
                FindingSeverity::Critical
            } else {
                FindingSeverity::High
            },
                title: "Suspected problem: the first hop is not reachable"@,
                interpretation: "The "@ +
                    which +
                    " gateway does not answer, and the kernel has no usable neighbour entry for it.\n\nThis is a link-layer problem rather than a routing one: the device has a route pointing at a gateway that is not responding to ARP or neighbour discovery. The association may look fine while the access point has actually stopped forwarding, which is common right after a roam or when a router is rebooting.\n\n"@ +
                    detail,
                supporting: seq![
                    "gateway.v4"@,
                    "gateway.v6"@,
                ],
                actions: seq![
                    "Re-associate with the network (toggle Wi-Fi) and see whether the neighbour entry recovers"@,
                    "Check whether the router is up and forwarding for other devices"@,
                ],
                confidence: 85,
            },
        )
    } else {
        None
    }
}

pub fn rule_gateway_unreachable(index: &CheckIndex, _state: &DiagState) -> (r: Option<Finding>)
    ensures
        finding_said(r) == gateway_unreachable_found(index.checks@, *_state),
{
    let v4 = index.failed("gateway.v4");
    let v6 = index.failed("gateway.v6");
    if !(v4 || v6) {
        return None;
    }
    let which = if v4 && v6 {
        "both IPv4 and IPv6"
    } else if v4 {
        "IPv4"
    } else {
        "IPv6"
    };
    let detail = if v4 {
        index.detail("gateway.v4")
    } else {
        index.detail("gateway.v6")
    };
    let supporting = [
        "gateway.v4",
        "gateway.v6",
    ];
    let actions = [
        "Re-associate with the network (toggle Wi-Fi) and see whether the neighbour entry recovers",
        "Check whether the router is up and forwarding for other devices",
    ];
    assert(strs(supporting@) =~= seq![
        "gateway.v4"@,
        "gateway.v6"@,
    ]);
    assert(strs(actions@) =~= seq![
        "Re-associate with the network (toggle Wi-Fi) and see whether the neighbour entry recovers"@,
        "Check whether the router is up and forwarding for other devices"@,
    ]);
    Some(
        finding(
            FindingId::GatewayUnreachable,
            "gateway_unreachable",
            if v4 && v6 {
                FindingSeverity::Critical
            } else {
                FindingSeverity::High
            },
            "Suspected problem: the first hop is not reachable",
            String::from_str("The ")
                .concat(which)
                .concat(" gateway does not answer, and the kernel has no usable neighbour entry for it.\n\nThis is a link-layer problem rather than a routing one: the device has a route pointing at a gateway that is not responding to ARP or neighbour discovery. The association may look fine while the access point has actually stopped forwarding, which is common right after a roam or when a router is rebooting.\n\n")
                .concat(detail.as_str()),
            supporting.as_slice(),
            actions.as_slice(),
            85,
        ),
    )
}

/// Packets get through, names do not.
pub open spec fn dns_broken_transport_ok_found(c: Seq<Check>, state: DiagState) -> Option<FindingSaid> {
    if failed_in(c, "dns.a"@) && failed_in(c, "dns.aaaa"@) && (passed_in(c, "tcp.v4"@) || passed_in(c, "tcp.v6"@)) {
        let servers = or(evidence_in(c, "dns.a"@, "servers"@), ""@);
        let note = if evidence_in(c, "dns.a"@, "from_framework"@) == Some("true"@) {
            ""@
        } else {
            "\n\nNote: the framework supplied no DNS servers, so this test used public resolvers. The network's own resolver was not exercised."@
        };
        Some(
            FindingSaid {
                id: FindingId::DnsBrokenTransportOk,
                key: "dns_broken_transport_ok"@,
                severity: FindingSeverity::High,
                title: "Suspected problem: DNS is broken while the network itself works"@,
                interpretation: "TCP connections to literal addresses succeed, so packets reach the internet. Name resolution fails against every configured server ("@ +
                    servers +
                    ").\n\nBecause the transport works, this is the resolver or the path to it, not connectivity. Common causes are a resolver that is reachable but not answering, a network that blocks port 53 to anything but its own resolver, or a Private DNS hostname that no longer resolves."@ +
                    note,
                supporting: seq![
                    "dns.a"@,
                    "dns.aaaa"@,
                    "tcp.v4"@,
                    "tcp.v6"@,
                ],
                actions: seq![
                    "Check the Private DNS setting; strict mode with an unreachable server disables DNS entirely"@,
                    "Try a different resolver to see whether the configured one is the problem"@,
                ],
                confidence: 85,
            },
        )
    } else {
        None
    }
}

pub fn rule_dns_broken_transport_ok(index: &CheckIndex, _state: &DiagState) -> (r: Option<Finding>)
    ensures
        finding_said(r) == dns_broken_transport_ok_found(index.checks@, *_state),
{
    if !(index.failed("dns.a") && index.failed("dns.aaaa") && (index.passed("tcp.v4") || index.passed("tcp.v6"))) {
        return None;
    }
    let servers = index.evidence("dns.a", "servers").unwrap_or("");
    let note = if index.says("dns.a", "from_framework", "true") {
        ""
    } else {
        "\n\nNote: the framework supplied no DNS servers, so this test used public resolvers. The network's own resolver was not exercised."
    };
    let supporting = [
        "dns.a",
        "dns.aaaa",
        "tcp.v4",
        "tcp.v6",
    ];
    let actions = [
        "Check the Private DNS setting; strict mode with an unreachable server disables DNS entirely",
        "Try a different resolver to see whether the configured one is the problem",
    ];
    assert(strs(supporting@) =~= seq![
        "dns.a"@,
        "dns.aaaa"@,
        "tcp.v4"@,
        "tcp.v6"@,
    ]);
    assert(strs(actions@) =~= seq![
        "Check the Private DNS setting; strict mode with an unreachable server disables DNS entirely"@,
        "Try a different resolver to see whether the configured one is the problem"@,
    ]);
    Some(
        finding(
            FindingId::DnsBrokenTransportOk,
            "dns_broken_transport_ok",
            FindingSeverity::High,
            "Suspected problem: DNS is broken while the network itself works",
            String::from_str("TCP connections to literal addresses succeed, so packets reach the internet. Name resolution fails against every configured server (")
                .concat(servers)
                .concat(").\n\nBecause the transport works, this is the resolver or the path to it, not connectivity. Common causes are a resolver that is reachable but not answering, a network that blocks port 53 to anything but its own resolver, or a Private DNS hostname that no longer resolves.")
                .concat(note),
            supporting.as_slice(),
            actions.as_slice(),
            85,
        ),
    )
}

/// Strict Private DNS without a server.
pub open spec fn private_dns_blocking_found(c: Seq<Check>, state: DiagState) -> Option<FindingSaid> {
    if failed_in(c, "dns.private"@) {
        Some(
            FindingSaid {
                id: FindingId::PrivateDnsBlocking,
                key: "private_dns_blocking"@,
                severity: FindingSeverity::High,
                title: "Suspected problem: strict Private DNS has no reachable server"@,
                interpretation: detail_in(c, "dns.private"@) +
                    "\n\nIn strict mode Android refuses to fall back to plaintext DNS. If the configured DoT server cannot be reached on port 853, name resolution stops completely, while everything that uses literal addresses keeps working. That asymmetry is why this failure is so often misread as \"some apps work\"."@,
                supporting: seq![
                    "dns.private"@,
                    "dns.a"@,
                ],
                actions: seq![
                    "Switch Private DNS to Automatic to confirm the diagnosis"@,
                    "Check whether this network blocks outbound port 853"@,
                ],
                confidence: 90,
            },
        )
    } else {
        None
    }
}

pub fn rule_private_dns_blocking(index: &CheckIndex, _state: &DiagState) -> (r: Option<Finding>)
    ensures
        finding_said(r) == private_dns_blocking_found(index.checks@, *_state),
{
    if !(index.failed("dns.private")) {
        return None;
    }
    let supporting = [
        "dns.private",
        "dns.a",
    ];
    let actions = [
        "Switch Private DNS to Automatic to confirm the diagnosis",
        "Check whether this network blocks outbound port 853",
    ];
    assert(strs(supporting@) =~= seq![
        "dns.private"@,
        "dns.a"@,
    ]);
    assert(strs(actions@) =~= seq![
        "Switch Private DNS to Automatic to confirm the diagnosis"@,
        "Check whether this network blocks outbound port 853"@,
    ]);
    Some(
        finding(
            FindingId::PrivateDnsBlocking,
            "private_dns_blocking",
            FindingSeverity::High,
            "Suspected problem: strict Private DNS has no reachable server",
            String::from_str(index.detail("dns.private").as_str())
                .concat("\n\nIn strict mode Android refuses to fall back to plaintext DNS. If the configured DoT server cannot be reached on port 853, name resolution stops completely, while everything that uses literal addresses keeps working. That asymmetry is why this failure is so often misread as \"some apps work\"."),
            supporting.as_slice(),
            actions.as_slice(),
            90,
        ),
    )
}

/// A captive portal.
pub open spec fn captive_portal_found(c: Seq<Check>, state: DiagState) -> Option<FindingSaid> {
    if failed_in(c, "captive.portal"@) {
        Some(
            FindingSaid {
                id: FindingId::CaptivePortal,
                key: "captive_portal"@,
                severity: FindingSeverity::Medium,
                title: "A captive portal is intercepting this network"@,
                interpretation: "Android has classified this network as being behind a captive portal. Until the portal is satisfied, DNS answers and HTTP responses may be forged, so other checks in this report can show misleading results."@,
                supporting: seq![
                    "captive.portal"@,
                    "android.state"@,
                ],
                actions: seq![
                    "Open the portal page and complete sign-in, then run the diagnosis again"@,
                ],
                confidence: 95,
            },
        )
    } else {
        None
    }
}

pub fn rule_captive_portal(index: &CheckIndex, _state: &DiagState) -> (r: Option<Finding>)
    ensures
        finding_said(r) == captive_portal_found(index.checks@, *_state),
{
    if !(index.failed("captive.portal")) {
        return None;
    }
    let supporting = [
        "captive.portal",
        "android.state",
    ];
    let actions = [
        "Open the portal page and complete sign-in, then run the diagnosis again",
    ];
    assert(strs(supporting@) =~= seq![
        "captive.portal"@,
        "android.state"@,
    ]);
    assert(strs(actions@) =~= seq![
        "Open the portal page and complete sign-in, then run the diagnosis again"@,
    ]);
    Some(
        finding(
            FindingId::CaptivePortal,
            "captive_portal",
            FindingSeverity::Medium,
            "A captive portal is intercepting this network",
            String::from_str("Android has classified this network as being behind a captive portal. Until the portal is satisfied, DNS answers and HTTP responses may be forged, so other checks in this report can show misleading results."),
            supporting.as_slice(),
            actions.as_slice(),
            95,
        ),
    )
}

/// Android says the network is VALIDATED, the kernel says traffic does not flow.
/// This is the specific disagreement the whole tool exists to surface.
pub open spec fn validated_but_broken_found(c: Seq<Check>, state: DiagState) -> Option<FindingSaid> {
    let transport = failed_in(c, "tcp.v4"@) && failed_in(c, "tcp.v6"@);
    let dns = failed_in(c, "dns.a"@) && failed_in(c, "dns.aaaa"@);
    if is_validated(state) && (transport || dns) {
        let which = if transport && dns {
            " for both transport and DNS"@
        } else if transport {
            " for TCP on both families"@
        } else {
            " for DNS on both families"@
        };
        Some(
            FindingSaid {
                id: FindingId::ValidatedButBroken,
                key: "validated_but_broken"@,
                severity: FindingSeverity::High,
                title: "Android reports VALIDATED but connectivity is broken"@,
                interpretation: "NetworkCapabilities still carries NET_CAPABILITY_VALIDATED for this network, but live probes fail"@ +
                    which +
                    ".\n\nValidation is a point-in-time result that Android caches and only re-runs periodically or on specific triggers. A network that worked when it was validated and broke afterwards keeps the flag, so apps keep using it and the system does not switch to another network. This gap between the framework's belief and the kernel's reality is exactly the situation where the framework alone cannot tell you anything useful."@,
                supporting: seq![
                    "android.state"@,
                    "tcp.v4"@,
                    "tcp.v6"@,
                    "dns.a"@,
                    "dns.aaaa"@,
                ],
                actions: seq![
                    "Toggle the network off and on to force Android to re-validate it"@,
                    "Compare with another device on the same network to separate device from network"@,
                ],
                confidence: 88,
            },
        )
    } else {
        None
    }
}

pub fn rule_validated_but_broken(index: &CheckIndex, state: &DiagState) -> (r: Option<Finding>)
    ensures
        finding_said(r) == validated_but_broken_found(index.checks@, *state),
{
    let transport = index.failed("tcp.v4") && index.failed("tcp.v6");
    let dns = index.failed("dns.a") && index.failed("dns.aaaa");
    if !(network_validated(state) && (transport || dns)) {
        return None;
    }
    let which = if transport && dns {
        " for both transport and DNS"
    } else if transport {
        " for TCP on both families"
    } else {
        " for DNS on both families"
    };
    let supporting = [
        "android.state",
        "tcp.v4",
        "tcp.v6",
        "dns.a",
        "dns.aaaa",
    ];
    let actions = [
        "Toggle the network off and on to force Android to re-validate it",
        "Compare with another device on the same network to separate device from network",
    ];
    assert(strs(supporting@) =~= seq![
        "android.state"@,
        "tcp.v4"@,
        "tcp.v6"@,
        "dns.a"@,
        "dns.aaaa"@,
    ]);
    assert(strs(actions@) =~= seq![
        "Toggle the network off and on to force Android to re-validate it"@,
        "Compare with another device on the same network to separate device from network"@,
    ]);
    Some(
        finding(
            FindingId::ValidatedButBroken,
            "validated_but_broken",
            FindingSeverity::High,
            "Android reports VALIDATED but connectivity is broken",
            String::from_str("NetworkCapabilities still carries NET_CAPABILITY_VALIDATED for this network, but live probes fail")
                .concat(which)
                .concat(".\n\nValidation is a point-in-time result that Android caches and only re-runs periodically or on specific triggers. A network that worked when it was validated and broke afterwards keeps the flag, so apps keep using it and the system does not switch to another network. This gap between the framework's belief and the kernel's reality is exactly the situation where the framework alone cannot tell you anything useful."),
            supporting.as_slice(),
            actions.as_slice(),
            88,
        ),
    )
}

/// The framework and the kernel describe different networks.
pub open spec fn framework_kernel_disagreement_found(c: Seq<Check>, state: DiagState) -> Option<FindingSaid> {
    if failed_in(c, "framework.kernel"@) {
        Some(
            FindingSaid {
                id: FindingId::FrameworkKernelDisagreement,
                key: "framework_kernel_disagreement"@,
                severity: FindingSeverity::Medium,
                title: "The Android framework and the Linux kernel disagree"@,
                interpretation: detail_in(c, "framework.kernel"@) +
                    "\n\nLinkProperties is what apps see; the kernel's tables are what packets obey. When they diverge, an app can be told it has a route that does not exist, or be handed an address the interface no longer holds. This usually means a network transition was interrupted partway through, and it often resolves itself when the network is next reconfigured."@,
                supporting: seq![
                    "framework.kernel"@,
                ],
                actions: seq![
                    "Toggle the network to force the framework and netd to re-apply configuration"@,
                ],
                confidence: 80,
            },
        )
    } else {
        None
    }
}

pub fn rule_framework_kernel_disagreement(index: &CheckIndex, _state: &DiagState) -> (r: Option<Finding>)
    ensures
        finding_said(r) == framework_kernel_disagreement_found(index.checks@, *_state),
{
    if !(index.failed("framework.kernel")) {
        return None;
    }
    let supporting = [
        "framework.kernel",
    ];
    let actions = [
        "Toggle the network to force the framework and netd to re-apply configuration",
    ];
    assert(strs(supporting@) =~= seq![
        "framework.kernel"@,
    ]);
    assert(strs(actions@) =~= seq![
        "Toggle the network to force the framework and netd to re-apply configuration"@,
    ]);
    Some(
        finding(
            FindingId::FrameworkKernelDisagreement,
            "framework_kernel_disagreement",
            FindingSeverity::Medium,
            "The Android framework and the Linux kernel disagree",
            String::from_str(index.detail("framework.kernel").as_str())
                .concat("\n\nLinkProperties is what apps see; the kernel's tables are what packets obey. When they diverge, an app can be told it has a route that does not exist, or be handed an address the interface no longer holds. This usually means a network transition was interrupted partway through, and it often resolves itself when the network is next reconfigured."),
            supporting.as_slice(),
            actions.as_slice(),
            80,
        ),
    )
}

/// A VPN is up and traffic goes around it.
pub open spec fn vpn_leak_found(c: Seq<Check>, state: DiagState) -> Option<FindingSaid> {
    let tunnels = or(evidence_in(c, "vpn.routing"@, "vpn_interfaces"@), ""@);
    if evidence_in(c, "vpn.routing"@, "egress_is_vpn"@) == Some("false"@) && tunnels.len() > 0 {
        let does = if framework_vpn(state.network) {
            "does"@
        } else {
            "does not"@
        };
        Some(
            FindingSaid {
                id: FindingId::VpnLeak,
                key: "vpn_leak"@,
                severity: FindingSeverity::High,
                title: "Traffic is bypassing the active VPN"@,
                interpretation: "A VPN interface ("@ +
                    tunnels +
                    ") is up, but the kernel's own route lookup sends this traffic out of a different interface.\n\nOn Android that normally means a uid range rule excludes this traffic from the VPN: either the VPN app's allowed/disallowed application list, or a bypass the app requested explicitly. The framework "@ +
                    does +
                    " report a VPN transport for the network under test, which is a useful cross-check on which of those it is."@,
                supporting: seq![
                    "vpn.routing"@,
                    "route.lookup.v4"@,
                    "route.lookup.v6"@,
                ],
                actions: seq![
                    "Check the VPN app's per-app settings for this uid"@,
                    "Look at the uid range rules in the Routing view to see which rule matched"@,
                ],
                confidence: 80,
            },
        )
    } else {
        None
    }
}

pub fn rule_vpn_leak(index: &CheckIndex, state: &DiagState) -> (r: Option<Finding>)
    ensures
        finding_said(r) == vpn_leak_found(index.checks@, *state),
{
    let tunnels = index.evidence("vpn.routing", "vpn_interfaces").unwrap_or("");
    if !(index.says("vpn.routing", "egress_is_vpn", "false") && !is_empty(tunnels)) {
        return None;
    }
    let does = if reports_vpn(&state.network) {
        "does"
    } else {
        "does not"
    };
    let supporting = [
        "vpn.routing",
        "route.lookup.v4",
        "route.lookup.v6",
    ];
    let actions = [
        "Check the VPN app's per-app settings for this uid",
        "Look at the uid range rules in the Routing view to see which rule matched",
    ];
    assert(strs(supporting@) =~= seq![
        "vpn.routing"@,
        "route.lookup.v4"@,
        "route.lookup.v6"@,
    ]);
    assert(strs(actions@) =~= seq![
        "Check the VPN app's per-app settings for this uid"@,
        "Look at the uid range rules in the Routing view to see which rule matched"@,
    ]);
    Some(
        finding(
            FindingId::VpnLeak,
            "vpn_leak",
            FindingSeverity::High,
            "Traffic is bypassing the active VPN",
            String::from_str("A VPN interface (")
                .concat(tunnels)
                .concat(") is up, but the kernel's own route lookup sends this traffic out of a different interface.\n\nOn Android that normally means a uid range rule excludes this traffic from the VPN: either the VPN app's allowed/disallowed application list, or a bypass the app requested explicitly. The framework ")
                .concat(does)
                .concat(" report a VPN transport for the network under test, which is a useful cross-check on which of those it is."),
            supporting.as_slice(),
            actions.as_slice(),
            80,
        ),
    )
}

/// A VPN that carries no IPv6. A deliberate blackhole is correct behaviour, not a
/// fault, and is told apart from a leak.
pub open spec fn vpn_ipv6_blackhole_found(c: Seq<Check>, state: DiagState) -> Option<FindingSaid> {
    if evidence_in(c, "vpn.routing"@, "vpn_has_ipv6_routes"@) == Some("false"@) && evidence_in(c, "vpn.routing"@, "egress_is_vpn"@) == Some("true"@) {
        let table = or(evidence_in(c, "vpn.routing"@, "vpn_table"@), "?"@);
        let supporting = seq!["vpn.routing"@, "tcp.v6"@, "route.v6.default"@];
        if evidence_in(c, "vpn.routing"@, "ipv6_blackholed_in_vpn_table"@) == Some("true"@) {
            Some(
                FindingSaid {
                    id: FindingId::VpnBlackhole,
                    key: "vpn_ipv6_blackhole"@,
                    severity: FindingSeverity::Info,
                    title: "The VPN blocks IPv6 on purpose"@,
                    interpretation: "Traffic goes through the VPN, the tunnel carries no IPv6, and the VPN's routing table ("@ +
                        table +
                        ") sends the IPv6 default route to loopback or to an unreachable route.\n\nThat is Android deliberately blackholing IPv6 for a VPN that only supports IPv4. It is the correct behaviour: IPv6 connections fail immediately, applications fall back to IPv4 without a stall, and no IPv6 traffic escapes the tunnel. Every IPv6 failure elsewhere in this report follows from this and is expected."@,
                    supporting,
                    actions: seq![
                        "Nothing to fix; use a VPN with IPv6 support if you need IPv6"@,
                    ],
                    confidence: 90,
                },
            )
        } else {
            Some(
                FindingSaid {
                    id: FindingId::VpnBlackhole,
                    key: "vpn_ipv6_blackhole"@,
                    severity: FindingSeverity::Medium,
                    title: "The VPN carries IPv4 but not IPv6, and IPv6 is not blocked"@,
                    interpretation: "Traffic goes through the VPN, but the tunnel has no IPv6 default route and the VPN's routing table ("@ +
                        table +
                        ") does not blackhole IPv6 either.\n\nThat combination is the leaky one. IPv6 traffic is not carried by the tunnel and is not stopped, so it can leave over the underlying network outside the VPN. This is a privacy problem rather than a connectivity one: things keep working, which is exactly why it goes unnoticed."@,
                    supporting,
                    actions: seq![
                        "Check whether the VPN app has an IPv6 or \"block IPv6\" setting"@,
                        "Enable Always-on VPN with \"Block connections without VPN\" to stop the leak"@,
                    ],
                    confidence: 75,
                },
            )
        }
    } else {
        None
    }
}

pub fn rule_vpn_ipv6_blackhole(index: &CheckIndex, state: &DiagState) -> (r: Option<Finding>)
    ensures
        finding_said(r) == vpn_ipv6_blackhole_found(index.checks@, *state),
{
    if !(index.says("vpn.routing", "vpn_has_ipv6_routes", "false") && index.says("vpn.routing", "egress_is_vpn", "true")) {
        return None;
    }
    let table = index.evidence("vpn.routing", "vpn_table").unwrap_or("?");
    let supporting = ["vpn.routing", "tcp.v6", "route.v6.default"];
    assert(strs(supporting@) =~= seq!["vpn.routing"@, "tcp.v6"@, "route.v6.default"@]);
    if index.says("vpn.routing", "ipv6_blackholed_in_vpn_table", "true") {
        let actions = [
            "Nothing to fix; use a VPN with IPv6 support if you need IPv6",
        ];
        assert(strs(actions@) =~= seq![
            "Nothing to fix; use a VPN with IPv6 support if you need IPv6"@,
        ]);
        Some(
            finding(
                FindingId::VpnBlackhole,
                "vpn_ipv6_blackhole",
                FindingSeverity::Info,
                "The VPN blocks IPv6 on purpose",
                String::from_str("Traffic goes through the VPN, the tunnel carries no IPv6, and the VPN's routing table (")
                    .concat(table)
                    .concat(") sends the IPv6 default route to loopback or to an unreachable route.\n\nThat is Android deliberately blackholing IPv6 for a VPN that only supports IPv4. It is the correct behaviour: IPv6 connections fail immediately, applications fall back to IPv4 without a stall, and no IPv6 traffic escapes the tunnel. Every IPv6 failure elsewhere in this report follows from this and is expected."),
                supporting.as_slice(),
                actions.as_slice(),
                90,
            ),
        )
    } else {
        let actions = [
            "Check whether the VPN app has an IPv6 or \"block IPv6\" setting",
            "Enable Always-on VPN with \"Block connections without VPN\" to stop the leak",
        ];
        assert(strs(actions@) =~= seq![
            "Check whether the VPN app has an IPv6 or \"block IPv6\" setting"@,
            "Enable Always-on VPN with \"Block connections without VPN\" to stop the leak"@,
        ]);
        Some(
            finding(
                FindingId::VpnBlackhole,
                "vpn_ipv6_blackhole",
                FindingSeverity::Medium,
                "The VPN carries IPv4 but not IPv6, and IPv6 is not blocked",
                String::from_str("Traffic goes through the VPN, but the tunnel has no IPv6 default route and the VPN's routing table (")
                    .concat(table)
                    .concat(") does not blackhole IPv6 either.\n\nThat combination is the leaky one. IPv6 traffic is not carried by the tunnel and is not stopped, so it can leave over the underlying network outside the VPN. This is a privacy problem rather than a connectivity one: things keep working, which is exactly why it goes unnoticed."),
                supporting.as_slice(),
                actions.as_slice(),
                75,
            ),
        )
    }
}

/// TCP connects, TLS does not. The handshake is the first packet large enough to hit
/// a lower MTU. A don't-fragment probe at the full interface MTU that got through
/// contradicts this, and a measured MTU corroborates it.
pub open spec fn mtu_blackhole_found(c: Seq<Check>, state: DiagState) -> Option<FindingSaid> {
    if (passed_in(c, "tcp.v4"@) || passed_in(c, "tcp.v6"@)) && failed_in(c, "tls.handshake"@) && !passed_in(c, "mtu.pmtu"@) {
        let mtu = or(evidence_in(c, "mtu.pmtu"@, "interface_mtu"@), "?"@);
        let words = if detail_in(c, "mtu.pmtu"@).len() == 0 {
            "The MTU probe produced no measurement."@
        } else {
            detail_in(c, "mtu.pmtu"@)
        };
        Some(
            FindingSaid {
                id: FindingId::MtuBlackhole,
                key: "mtu_blackhole"@,
                severity: FindingSeverity::High,
                title: "Suspected problem: large packets are being dropped (MTU black hole)"@,
                interpretation: "TCP connections establish but the TLS handshake never completes. That is the classic signature of a path MTU problem.\n\nThe three-way handshake uses small packets and gets through. The ClientHello is the first substantial packet, and if something on the path cannot carry it and does not send back an ICMP \"fragmentation needed\" or \"packet too big\" message, the packet simply disappears. Path MTU discovery has nothing to learn from, so the connection hangs rather than failing.\n\nInterface MTU is "@ +
                    mtu +
                    ". "@ +
                    words,
                supporting: seq![
                    "tcp.v4"@,
                    "tcp.v6"@,
                    "tls.handshake"@,
                    "mtu.pmtu"@,
                ],
                actions: seq![
                    "Lower the interface MTU (1400 is a safe test value) and retry"@,
                    "If a VPN is active, its encapsulation overhead is the most likely cause"@,
                ],
                confidence: if evidence_in(c, "mtu.pmtu"@, "measured_path_mtu"@) is Some {
                80nat
            } else {
                55nat
            },
            },
        )
    } else {
        None
    }
}

pub fn rule_mtu_blackhole(index: &CheckIndex, _state: &DiagState) -> (r: Option<Finding>)
    ensures
        finding_said(r) == mtu_blackhole_found(index.checks@, *_state),
{
    if !((index.passed("tcp.v4") || index.passed("tcp.v6")) && index.failed("tls.handshake") && !index.passed("mtu.pmtu")) {
        return None;
    }
    let mtu = index.evidence("mtu.pmtu", "interface_mtu").unwrap_or("?");
    let detail = index.detail("mtu.pmtu");
    let words = if is_empty(detail.as_str()) {
        "The MTU probe produced no measurement."
    } else {
        detail.as_str()
    };
    let measured = index.evidence("mtu.pmtu", "measured_path_mtu").is_some();
    let supporting = [
        "tcp.v4",
        "tcp.v6",
        "tls.handshake",
        "mtu.pmtu",
    ];
    let actions = [
        "Lower the interface MTU (1400 is a safe test value) and retry",
        "If a VPN is active, its encapsulation overhead is the most likely cause",
    ];
    assert(strs(supporting@) =~= seq![
        "tcp.v4"@,
        "tcp.v6"@,
        "tls.handshake"@,
        "mtu.pmtu"@,
    ]);
    assert(strs(actions@) =~= seq![
        "Lower the interface MTU (1400 is a safe test value) and retry"@,
        "If a VPN is active, its encapsulation overhead is the most likely cause"@,
    ]);
    Some(
        finding(
            FindingId::MtuBlackhole,
            "mtu_blackhole",
            FindingSeverity::High,
            "Suspected problem: large packets are being dropped (MTU black hole)",
            String::from_str("TCP connections establish but the TLS handshake never completes. That is the classic signature of a path MTU problem.\n\nThe three-way handshake uses small packets and gets through. The ClientHello is the first substantial packet, and if something on the path cannot carry it and does not send back an ICMP \"fragmentation needed\" or \"packet too big\" message, the packet simply disappears. Path MTU discovery has nothing to learn from, so the connection hangs rather than failing.\n\nInterface MTU is ")
                .concat(mtu)
                .concat(". ")
                .concat(words),
            supporting.as_slice(),
            actions.as_slice(),
            if measured {
            80
        } else {
            55
        },
        ),
    )
}

/// DNS64 without 464XLAT, on a network without IPv4.
pub open spec fn nat64_without_clat_found(c: Seq<Check>, state: DiagState) -> Option<FindingSaid> {
    if warned_in(c, "nat64.dns64"@) && !state.clat.active && !passed_in(c, "addr.v4"@) {
        Some(
            FindingSaid {
                id: FindingId::Nat64WithoutClat,
                key: "nat64_without_clat"@,
                severity: FindingSeverity::Medium,
                title: "DNS64 is active but 464XLAT is not running"@,
                interpretation: detail_in(c, "nat64.dns64"@) +
                    "\n\nOn an IPv6-only network Android normally starts clatd, which presents a synthetic IPv4 interface so that IPv4-only applications keep working. Without it, anything that uses a hard-coded IPv4 literal or a raw IPv4 socket has no path out, while everything that resolves names keeps working through DNS64. Apps failing selectively, with no obvious pattern, is what that looks like from the outside."@,
                supporting: seq![
                    "nat64.dns64"@,
                    "addr.v4"@,
                ],
                actions: seq![
                    "Toggle the network; clatd is started as part of network setup"@,
                ],
                confidence: 75,
            },
        )
    } else {
        None
    }
}

pub fn rule_nat64_without_clat(index: &CheckIndex, state: &DiagState) -> (r: Option<Finding>)
    ensures
        finding_said(r) == nat64_without_clat_found(index.checks@, *state),
{
    if !(index.warned("nat64.dns64") && !state.clat.active && !index.passed("addr.v4")) {
        return None;
    }
    let supporting = [
        "nat64.dns64",
        "addr.v4",
    ];
    let actions = [
        "Toggle the network; clatd is started as part of network setup",
    ];
    assert(strs(supporting@) =~= seq![
        "nat64.dns64"@,
        "addr.v4"@,
    ]);
    assert(strs(actions@) =~= seq![
        "Toggle the network; clatd is started as part of network setup"@,
    ]);
    Some(
        finding(
            FindingId::Nat64WithoutClat,
            "nat64_without_clat",
            FindingSeverity::Medium,
            "DNS64 is active but 464XLAT is not running",
            String::from_str(index.detail("nat64.dns64").as_str())
                .concat("\n\nOn an IPv6-only network Android normally starts clatd, which presents a synthetic IPv4 interface so that IPv4-only applications keep working. Without it, anything that uses a hard-coded IPv4 literal or a raw IPv4 socket has no path out, while everything that resolves names keeps working through DNS64. Apps failing selectively, with no obvious pattern, is what that looks like from the outside."),
            supporting.as_slice(),
            actions.as_slice(),
            75,
        ),
    )
}

/// A firewall rule denies the app.
pub open spec fn firewall_blocking_uid_found(c: Seq<Check>, state: DiagState) -> Option<FindingSaid> {
    if failed_in(c, "firewall.anomaly"@) {
        Some(
            FindingSaid {
                id: FindingId::FirewallBlockingUid,
                key: "firewall_blocking_uid"@,
                severity: FindingSeverity::High,
                title: "This app is blocked by a firewall rule"@,
                interpretation: detail_in(c, "firewall.anomaly"@) +
                    "\n\nAndroid enforces per-app network restrictions in eBPF rather than in netfilter, so this does not appear in any iptables dump. Data Saver, background restriction, battery optimisation and OEM-specific power managers all write into the same map. The app sees ordinary connection failures with no indication that policy, rather than the network, is the cause."@,
                supporting: seq![
                    "firewall.anomaly"@,
                ],
                actions: seq![
                    "Check Data Saver and background data restrictions for this app"@,
                    "Check battery optimisation and any OEM power-saving list"@,
                ],
                confidence: 85,
            },
        )
    } else {
        None
    }
}

pub fn rule_firewall_blocking_uid(index: &CheckIndex, _state: &DiagState) -> (r: Option<Finding>)
    ensures
        finding_said(r) == firewall_blocking_uid_found(index.checks@, *_state),
{
    if !(index.failed("firewall.anomaly")) {
        return None;
    }
    let supporting = [
        "firewall.anomaly",
    ];
    let actions = [
        "Check Data Saver and background data restrictions for this app",
        "Check battery optimisation and any OEM power-saving list",
    ];
    assert(strs(supporting@) =~= seq![
        "firewall.anomaly"@,
    ]);
    assert(strs(actions@) =~= seq![
        "Check Data Saver and background data restrictions for this app"@,
        "Check battery optimisation and any OEM power-saving list"@,
    ]);
    Some(
        finding(
            FindingId::FirewallBlockingUid,
            "firewall_blocking_uid",
            FindingSeverity::High,
            "This app is blocked by a firewall rule",
            String::from_str(index.detail("firewall.anomaly").as_str())
                .concat("\n\nAndroid enforces per-app network restrictions in eBPF rather than in netfilter, so this does not appear in any iptables dump. Data Saver, background restriction, battery optimisation and OEM-specific power managers all write into the same map. The app sees ordinary connection failures with no indication that policy, rather than the network, is the cause."),
            supporting.as_slice(),
            actions.as_slice(),
            85,
        ),
    )
}

/// Connections wait for an answer.
pub open spec fn sockets_stuck_syn_sent_found(c: Seq<Check>, state: DiagState) -> Option<FindingSaid> {
    if evidence_in(c, "sockets.states"@, "syn_sent"@) is Some && failed_in(c, "sockets.states"@) {
        let count = or(evidence_in(c, "sockets.states"@, "syn_sent"@), "?"@);
        Some(
            FindingSaid {
                id: FindingId::SocketsStuckSynSent,
                key: "sockets_stuck_syn_sent"@,
                severity: FindingSeverity::Medium,
                title: "Connections are piling up in SYN_SENT"@,
                interpretation: count +
                    " sockets are sitting in SYN_SENT. The kernel has sent a SYN and is waiting for a SYN-ACK that has not arrived.\n\nThis is what a silent drop looks like from the socket table: the packets are leaving the device and nothing is answering, as opposed to a refused connection (which produces a RST and closes immediately) or a routing failure (which fails instantly with ENETUNREACH). A firewall that drops rather than rejects, a broken path, or a dead peer all produce this."@,
                supporting: seq![
                    "sockets.states"@,
                ],
                actions: seq![
                    "Cross-reference with the per-app view to see which app owns these sockets"@,
                ],
                confidence: 80,
            },
        )
    } else {
        None
    }
}

pub fn rule_sockets_stuck_syn_sent(index: &CheckIndex, state: &DiagState) -> (r: Option<Finding>)
    ensures
        finding_said(r) == sockets_stuck_syn_sent_found(index.checks@, *state),
{
    if !(index.evidence("sockets.states", "syn_sent").is_some() && index.failed("sockets.states")) {
        return None;
    }
    let count = index.evidence("sockets.states", "syn_sent").unwrap_or("?");
    let supporting = [
        "sockets.states",
    ];
    let actions = [
        "Cross-reference with the per-app view to see which app owns these sockets",
    ];
    assert(strs(supporting@) =~= seq![
        "sockets.states"@,
    ]);
    assert(strs(actions@) =~= seq![
        "Cross-reference with the per-app view to see which app owns these sockets"@,
    ]);
    Some(
        finding(
            FindingId::SocketsStuckSynSent,
            "sockets_stuck_syn_sent",
            FindingSeverity::Medium,
            "Connections are piling up in SYN_SENT",
            String::from_str(count)
                .concat(" sockets are sitting in SYN_SENT. The kernel has sent a SYN and is waiting for a SYN-ACK that has not arrived.\n\nThis is what a silent drop looks like from the socket table: the packets are leaving the device and nothing is answering, as opposed to a refused connection (which produces a RST and closes immediately) or a routing failure (which fails instantly with ENETUNREACH). A firewall that drops rather than rejects, a broken path, or a dead peer all produce this."),
            supporting.as_slice(),
            actions.as_slice(),
            80,
        ),
    )
}

/// An application does not close its connections.
pub open spec fn sockets_stuck_close_wait_found(c: Seq<Check>, state: DiagState) -> Option<FindingSaid> {
    let count = match evidence_in(c, "sockets.states"@, "close_wait"@) {
        Some(v) => or(unsigned(v, u32::MAX as nat), 0),
        None => 0,
    };
    if warned_in(c, "sockets.states"@) && count >= 20 {
        Some(
            FindingSaid {
                id: FindingId::SocketsStuckCloseWait,
                key: "sockets_stuck_close_wait"@,
                severity: FindingSeverity::Low,
                title: "Sockets are accumulating in CLOSE_WAIT"@,
                interpretation: dec(count) +
                    " sockets are in CLOSE_WAIT: the peer has closed its half of the connection and the local application has not closed its own.\n\nThis is an application bug rather than a network fault, and it leaks file descriptors. It is worth noting here because the symptom people report is \"the app stops being able to connect\", which looks like a network problem until you count the sockets."@,
                supporting: seq![
                    "sockets.states"@,
                ],
                actions: seq![
                    "Identify the owning app in the per-app view; the leak is in its code"@,
                ],
                confidence: 85,
            },
        )
    } else {
        None
    }
}

pub fn rule_sockets_stuck_close_wait(index: &CheckIndex, state: &DiagState) -> (r: Option<Finding>)
    ensures
        finding_said(r) == sockets_stuck_close_wait_found(index.checks@, *state),
{
    let count: u32 = match index.evidence("sockets.states", "close_wait") {
        Some(v) => match parse_u32(v) {
            Some(n) => n,
            None => 0,
        },
        None => 0,
    };
    if !(index.warned("sockets.states") && count >= 20) {
        return None;
    }
    let number = dec_string(count as u64);
    let supporting = [
        "sockets.states",
    ];
    let actions = [
        "Identify the owning app in the per-app view; the leak is in its code",
    ];
    assert(strs(supporting@) =~= seq![
        "sockets.states"@,
    ]);
    assert(strs(actions@) =~= seq![
        "Identify the owning app in the per-app view; the leak is in its code"@,
    ]);
    Some(
        finding(
            FindingId::SocketsStuckCloseWait,
            "sockets_stuck_close_wait",
            FindingSeverity::Low,
            "Sockets are accumulating in CLOSE_WAIT",
            String::from_str(number.as_str())
                .concat(" sockets are in CLOSE_WAIT: the peer has closed its half of the connection and the local application has not closed its own.\n\nThis is an application bug rather than a network fault, and it leaks file descriptors. It is worth noting here because the symptom people report is \"the app stops being able to connect\", which looks like a network problem until you count the sockets."),
            supporting.as_slice(),
            actions.as_slice(),
            85,
        ),
    )
}

/// Several default routes compete.
pub open spec fn multiple_default_routes_found(c: Seq<Check>, state: DiagState) -> Option<FindingSaid> {
    let v4 = warned_in(c, "route.v4.default"@);
    let key = if v4 {
        "route.v4.default"@
    } else {
        "route.v6.default"@
    };
    if (v4 || warned_in(c, "route.v6.default"@)) && occurs_in(detail_in(c, key), "competing"@) {
        Some(
            FindingSaid {
                id: FindingId::MultipleDefaultRoutes,
                key: "multiple_default_routes"@,
                severity: FindingSeverity::Low,
                title: "Several default routes compete in the same table"@,
                interpretation: detail_in(c, key) +
                    "\n\nThe kernel will pick the lowest metric, so this is not broken on its own. It usually means an interface went down without its routes being cleaned up, and it becomes a real problem if the winning route points at a gateway that no longer works."@,
                supporting: seq![
                    key,
                ],
                actions: seq![
                    "Check whether an old interface's routes were left behind"@,
                ],
                confidence: 70,
            },
        )
    } else {
        None
    }
}

pub fn rule_multiple_default_routes(index: &CheckIndex, _state: &DiagState) -> (r: Option<Finding>)
    ensures
        finding_said(r) == multiple_default_routes_found(index.checks@, *_state),
{
    let v4 = index.warned("route.v4.default");
    let key = if v4 {
        "route.v4.default"
    } else {
        "route.v6.default"
    };
    let detail = index.detail(key);
    if !((v4 || index.warned("route.v6.default")) && text_contains(detail.as_str(), "competing")) {
        return None;
    }
    let supporting = [
        key,
    ];
    let actions = [
        "Check whether an old interface's routes were left behind",
    ];
    assert(strs(supporting@) =~= seq![
        key@,
    ]);
    assert(strs(actions@) =~= seq![
        "Check whether an old interface's routes were left behind"@,
    ]);
    Some(
        finding(
            FindingId::MultipleDefaultRoutes,
            "multiple_default_routes",
            FindingSeverity::Low,
            "Several default routes compete in the same table",
            String::from_str(detail.as_str())
                .concat("\n\nThe kernel will pick the lowest metric, so this is not broken on its own. It usually means an interface went down without its routes being cleaned up, and it becomes a real problem if the winning route points at a gateway that no longer works."),
            supporting.as_slice(),
            actions.as_slice(),
            70,
        ),
    )
}

/// Policy, not the network, stops background traffic.
pub open spec fn metered_restriction_found(c: Seq<Check>, state: DiagState) -> Option<FindingSaid> {
    if evidence_in(c, "android.state"@, "metered"@) == Some("true"@) && is_restricted(state) {
        Some(
            FindingSaid {
                id: FindingId::MeteredRestriction,
                key: "metered_restriction"@,
                severity: FindingSeverity::Info,
                title: "This network is metered and restricted"@,
                interpretation: "The network is marked metered and does not carry NET_CAPABILITY_NOT_RESTRICTED. Background traffic for most apps will be blocked by policy, which produces connection failures that look like network faults but are deliberate."@,
                supporting: seq![
                    "android.state"@,
                ],
                actions: seq![
                    "Check Data Saver, and whether the app is allowed unrestricted data"@,
                ],
                confidence: 90,
            },
        )
    } else {
        None
    }
}

pub fn rule_metered_restriction(index: &CheckIndex, state: &DiagState) -> (r: Option<Finding>)
    ensures
        finding_said(r) == metered_restriction_found(index.checks@, *state),
{
    if !(index.says("android.state", "metered", "true") && network_restricted(state)) {
        return None;
    }
    let supporting = [
        "android.state",
    ];
    let actions = [
        "Check Data Saver, and whether the app is allowed unrestricted data",
    ];
    assert(strs(supporting@) =~= seq![
        "android.state"@,
    ]);
    assert(strs(actions@) =~= seq![
        "Check Data Saver, and whether the app is allowed unrestricted data"@,
    ]);
    Some(
        finding(
            FindingId::MeteredRestriction,
            "metered_restriction",
            FindingSeverity::Info,
            "This network is metered and restricted",
            String::from_str("The network is marked metered and does not carry NET_CAPABILITY_NOT_RESTRICTED. Background traffic for most apps will be blocked by policy, which produces connection failures that look like network faults but are deliberate."),
            supporting.as_slice(),
            actions.as_slice(),
            90,
        ),
    )
}

/// What the rules find, in their own order.
pub open spec fn all_found(c: Seq<Check>, state: DiagState) -> Seq<FindingSaid> {
    listed(no_connectivity_at_all_found(c, state)) + 
        listed(broken_upstream_ipv6_found(c, state)) + 
        listed(ipv6_configured_no_route_found(c, state)) + 
        listed(ipv6_disabled_by_sysctl_found(c, state)) + 
        listed(gateway_unreachable_found(c, state)) + 
        listed(dns_broken_transport_ok_found(c, state)) + 
        listed(private_dns_blocking_found(c, state)) + 
        listed(captive_portal_found(c, state)) + 
        listed(validated_but_broken_found(c, state)) + 
        listed(framework_kernel_disagreement_found(c, state)) + 
        listed(vpn_leak_found(c, state)) + 
        listed(vpn_ipv6_blackhole_found(c, state)) + 
        listed(mtu_blackhole_found(c, state)) + 
        listed(nat64_without_clat_found(c, state)) + 
        listed(firewall_blocking_uid_found(c, state)) + 
        listed(sockets_stuck_syn_sent_found(c, state)) + 
        listed(sockets_stuck_close_wait_found(c, state)) + 
        listed(multiple_default_routes_found(c, state)) + 
        listed(metered_restriction_found(c, state))
}

/// Run every rule, in their own order.
fn run_rules(index: &CheckIndex, state: &DiagState) -> (r: Vec<Finding>)
    ensures
        findings_said(r@) == all_found(index.checks@, *state),
{
    let mut out: Vec<Finding> = Vec::new();
    assert(findings_said(out@) =~= Seq::empty());
    add_finding(&mut out, rule_no_connectivity_at_all(index, state));
    add_finding(&mut out, rule_broken_upstream_ipv6(index, state));
    add_finding(&mut out, rule_ipv6_configured_no_route(index, state));
    add_finding(&mut out, rule_ipv6_disabled_by_sysctl(index, state));
    add_finding(&mut out, rule_gateway_unreachable(index, state));
    add_finding(&mut out, rule_dns_broken_transport_ok(index, state));
    add_finding(&mut out, rule_private_dns_blocking(index, state));
    add_finding(&mut out, rule_captive_portal(index, state));
    add_finding(&mut out, rule_validated_but_broken(index, state));
    add_finding(&mut out, rule_framework_kernel_disagreement(index, state));
    add_finding(&mut out, rule_vpn_leak(index, state));
    add_finding(&mut out, rule_vpn_ipv6_blackhole(index, state));
    add_finding(&mut out, rule_mtu_blackhole(index, state));
    add_finding(&mut out, rule_nat64_without_clat(index, state));
    add_finding(&mut out, rule_firewall_blocking_uid(index, state));
    add_finding(&mut out, rule_sockets_stuck_syn_sent(index, state));
    add_finding(&mut out, rule_sockets_stuck_close_wait(index, state));
    add_finding(&mut out, rule_multiple_default_routes(index, state));
    add_finding(&mut out, rule_metered_restriction(index, state));
    assert(findings_said(out@) =~= all_found(index.checks@, *state));
    out
}

/// The order of findings: the most severe first, and of equally severe ones
/// the most confident.
pub open spec fn said_before() -> spec_fn(FindingSaid, FindingSaid) -> bool {
    |a: FindingSaid, b: FindingSaid|
        if a.severity != b.severity {
            a.severity.rank_of() > b.severity.rank_of()
        } else {
            a.confidence > b.confidence
        }
}

pub open spec fn finding_before() -> spec_fn(Finding, Finding) -> bool {
    |a: Finding, b: Finding| said_before()(said_by(a), said_by(b))
}

fn finding_precedes(a: &Finding, b: &Finding) -> (r: bool)
    ensures
        r == finding_before()(*a, *b),
{
    if a.severity != b.severity {
        a.severity.rank() > b.severity.rank()
    } else {
        a.confidence > b.confidence
    }
}

proof fn lemma_insert_said(s: Seq<Finding>, x: Finding)
    ensures
        findings_said(insert_by(s, x, finding_before())) == insert_by(
            findings_said(s),
            said_by(x),
            said_before(),
        ),
    decreases s.len(),
{
    if s.len() > 0 && finding_before()(x, s.last()) {
        lemma_insert_said(s.drop_last(), x);
        assert(findings_said(s).drop_last() =~= findings_said(s.drop_last()));
        assert(findings_said(insert_by(s.drop_last(), x, finding_before()).push(s.last()))
            =~= findings_said(insert_by(s.drop_last(), x, finding_before())).push(
            said_by(s.last()),
        ));
    } else {
        assert(findings_said(s.push(x)) =~= findings_said(s).push(said_by(x)));
    }
}

proof fn lemma_sort_said(s: Seq<Finding>)
    ensures
        findings_said(sort_by(s, finding_before())) == sort_by(findings_said(s), said_before()),
    decreases s.len(),
{
    if s.len() == 0 {
        assert(findings_said(sort_by(s, finding_before())) =~= sort_by(
            findings_said(s),
            said_before(),
        ));
    } else {
        lemma_sort_said(s.drop_last());
        lemma_insert_said(sort_by(s.drop_last(), finding_before()), s.last());
        assert(findings_said(s).drop_last() =~= findings_said(s.drop_last()));
    }
}

/// Run every rule and return the findings, most severe first.
pub fn evaluate(checks: &Vec<Check>, state: &DiagState) -> (r: Vec<Finding>)
    ensures
        findings_said(r@) == sort_by(all_found(checks@, *state), said_before()),
{
    let index = CheckIndex::new(checks);
    let found = run_rules(&index, state);
    proof {
        lemma_sort_said(found@);
    }
    stable_sort(found, finding_precedes, Ghost(finding_before()))
}

/// The findings come most severe first, and of equally severe ones the most
/// confident first; none is lost and none is added.
pub proof fn law_findings_most_severe_first(c: Seq<Check>, state: DiagState)
    ensures
        ({
            let r = sort_by(all_found(c, state), said_before());
            &&& forall|i: int, j: int|
                0 <= i < j < r.len() ==> (#[trigger] r[i]).severity.rank_of() >= (
                #[trigger] r[j]).severity.rank_of()
            &&& forall|i: int, j: int|
                0 <= i < j < r.len() && (#[trigger] r[i]).severity == (
                #[trigger] r[j]).severity ==> r[i].confidence >= r[j].confidence
            &&& r.to_multiset() == all_found(c, state).to_multiset()
        }),
{
    let r = sort_by(all_found(c, state), said_before());
    assert(weak_order(said_before()));
    law_sort_by(all_found(c, state), said_before());
    assert forall|i: int, j: int| 0 <= i < j < r.len() implies (#[trigger] r[i]).severity.rank_of()
        >= (#[trigger] r[j]).severity.rank_of() by {
        assert(!said_before()(r[j], r[i]));
    }
    assert forall|i: int, j: int|
        0 <= i < j < r.len() && (#[trigger] r[i]).severity == (
        #[trigger] r[j]).severity implies r[i].confidence >= r[j].confidence by {
        assert(!said_before()(r[j], r[i]));
    }
}

/// Whether a finding names the checks behind it and something to do, and is
/// neither sure of nothing nor more than sure.
pub open spec fn is_substantiated(f: FindingSaid) -> bool {
    f.supporting.len() > 0 && f.actions.len() > 0 && 0 < f.confidence <= 100
}

/// Whether all findings are substantiated.
pub open spec fn all_substantiated(s: Seq<FindingSaid>) -> bool {
    forall|i: int| 0 <= i < s.len() ==> is_substantiated(#[trigger] s[i])
}

proof fn lemma_add_substantiated(s: Seq<FindingSaid>, f: Option<FindingSaid>)
    requires
        all_substantiated(s),
        f is Some ==> is_substantiated(f->0),
    ensures
        all_substantiated(s + listed(f)),
{
    let r = s + listed(f);
    assert forall|i: int| 0 <= i < r.len() implies is_substantiated(#[trigger] r[i]) by {
        if i < s.len() {
            assert(r[i] == s[i]);
        }
    }
}

/// Every finding carries supporting checks and suggested actions, and a
/// confidence between one and a hundred.
pub proof fn law_every_finding_is_substantiated(c: Seq<Check>, state: DiagState)
    ensures
        all_substantiated(all_found(c, state)),
{
    let s = Seq::<FindingSaid>::empty();
    let s1 = s + listed(no_connectivity_at_all_found(c, state));
    lemma_add_substantiated(s, no_connectivity_at_all_found(c, state));
    let s2 = s1 + listed(broken_upstream_ipv6_found(c, state));
    lemma_add_substantiated(s1, broken_upstream_ipv6_found(c, state));
    let s3 = s2 + listed(ipv6_configured_no_route_found(c, state));
    lemma_add_substantiated(s2, ipv6_configured_no_route_found(c, state));
    let s4 = s3 + listed(ipv6_disabled_by_sysctl_found(c, state));
    lemma_add_substantiated(s3, ipv6_disabled_by_sysctl_found(c, state));
    let s5 = s4 + listed(gateway_unreachable_found(c, state));
    lemma_add_substantiated(s4, gateway_unreachable_found(c, state));
    let s6 = s5 + listed(dns_broken_transport_ok_found(c, state));
    lemma_add_substantiated(s5, dns_broken_transport_ok_found(c, state));
    let s7 = s6 + listed(private_dns_blocking_found(c, state));
    lemma_add_substantiated(s6, private_dns_blocking_found(c, state));
    let s8 = s7 + listed(captive_portal_found(c, state));
    lemma_add_substantiated(s7, captive_portal_found(c, state));
    let s9 = s8 + listed(validated_but_broken_found(c, state));
    lemma_add_substantiated(s8, validated_but_broken_found(c, state));
    let s10 = s9 + listed(framework_kernel_disagreement_found(c, state));
    lemma_add_substantiated(s9, framework_kernel_disagreement_found(c, state));
    let s11 = s10 + listed(vpn_leak_found(c, state));
    lemma_add_substantiated(s10, vpn_leak_found(c, state));
    let s12 = s11 + listed(vpn_ipv6_blackhole_found(c, state));
    lemma_add_substantiated(s11, vpn_ipv6_blackhole_found(c, state));
    let s13 = s12 + listed(mtu_blackhole_found(c, state));
    lemma_add_substantiated(s12, mtu_blackhole_found(c, state));
    let s14 = s13 + listed(nat64_without_clat_found(c, state));
    lemma_add_substantiated(s13, nat64_without_clat_found(c, state));
    let s15 = s14 + listed(firewall_blocking_uid_found(c, state));
    lemma_add_substantiated(s14, firewall_blocking_uid_found(c, state));
    let s16 = s15 + listed(sockets_stuck_syn_sent_found(c, state));
    lemma_add_substantiated(s15, sockets_stuck_syn_sent_found(c, state));
    let s17 = s16 + listed(sockets_stuck_close_wait_found(c, state));
    lemma_add_substantiated(s16, sockets_stuck_close_wait_found(c, state));
    let s18 = s17 + listed(multiple_default_routes_found(c, state));
    lemma_add_substantiated(s17, multiple_default_routes_found(c, state));
    let s19 = s18 + listed(metered_restriction_found(c, state));
    lemma_add_substantiated(s18, metered_restriction_found(c, state));
    assert(all_found(c, state) =~= s19);
}

/// Whether a finding has a name, a title and an interpretation.
pub open spec fn is_worded(f: FindingSaid) -> bool {
    f.key.len() > 0 && f.title.len() > 0 && f.interpretation.len() > 0
}

/// Whether all findings are worded.
pub open spec fn all_worded(s: Seq<FindingSaid>) -> bool {
    forall|i: int| 0 <= i < s.len() ==> is_worded(#[trigger] s[i])
}

proof fn lemma_add_worded(s: Seq<FindingSaid>, f: Option<FindingSaid>)
    requires
        all_worded(s),
        f is Some ==> is_worded(f->0),
    ensures
        all_worded(s + listed(f)),
{
    let r = s + listed(f);
    assert forall|i: int| 0 <= i < r.len() implies is_worded(#[trigger] r[i]) by {
        if i < s.len() {
            assert(r[i] == s[i]);
        }
    }
}

proof fn lemma_no_connectivity_at_all_worded(c: Seq<Check>, state: DiagState)
    ensures
        no_connectivity_at_all_found(c, state) matches Some(f) ==> is_worded(f),
{
    reveal_strlit("no_connectivity");
    reveal_strlit("Suspected problem: no working path to the internet");
    reveal_strlit("Neither IPv4 nor IPv6 completed a TCP connection, and DNS failed over both families. Nothing above the link layer is getting through.\n\nWhen both families fail together the cause is usually below them: no usable address, no default route, an unreachable first hop, or a firewall dropping this device's traffic entirely. The checks above show which of those is the case.");
}

proof fn lemma_broken_upstream_ipv6_worded(c: Seq<Check>, state: DiagState)
    ensures
        broken_upstream_ipv6_found(c, state) matches Some(f) ==> is_worded(f),
{
    reveal_strlit("broken_upstream_ipv6");
    reveal_strlit("Suspected problem: broken upstream IPv6");
    reveal_strlit("IPv6 is fully configured on this device: a global address is assigned and a default route exists. IPv4 works end to end. But no TCP connection completes over IPv6.\n\nThat combination points upstream, not at the device. The local configuration is what it should be, so the packets are being dropped somewhere beyond the first hop.");
}

proof fn lemma_ipv6_configured_no_route_worded(c: Seq<Check>, state: DiagState)
    ensures
        ipv6_configured_no_route_found(c, state) matches Some(f) ==> is_worded(f),
{
    reveal_strlit("ipv6_no_default_route");
    reveal_strlit("IPv6 address assigned but no default route");
    reveal_strlit("The interface has a global IPv6 address but there is no IPv6 default route in the table this traffic uses.\n\nAn address without a route usually means the router advertisement carried a prefix but no router lifetime, or the route expired and was not refreshed. Only on-link IPv6 destinations are reachable in this state.\n\n");
}

proof fn lemma_ipv6_disabled_by_sysctl_worded(c: Seq<Check>, state: DiagState)
    ensures
        ipv6_disabled_by_sysctl_found(c, state) matches Some(f) ==> is_worded(f),
{
    reveal_strlit("ipv6_disabled_sysctl");
    reveal_strlit("IPv6 is administratively disabled on this interface");
    reveal_strlit("The `disable_ipv6` sysctl is set for the egress interface, so the kernel will not configure or use IPv6 on it regardless of what the network offers.\n\nThis is a local setting, not a network problem. Something on the device set it: a VPN app, a tethering configuration, or a manual change.");
}

proof fn lemma_gateway_unreachable_worded(c: Seq<Check>, state: DiagState)
    ensures
        gateway_unreachable_found(c, state) matches Some(f) ==> is_worded(f),
{
    reveal_strlit("gateway_unreachable");
    reveal_strlit("Suspected problem: the first hop is not reachable");
    reveal_strlit("The ");
}

proof fn lemma_dns_broken_transport_ok_worded(c: Seq<Check>, state: DiagState)
    ensures
        dns_broken_transport_ok_found(c, state) matches Some(f) ==> is_worded(f),
{
    reveal_strlit("dns_broken_transport_ok");
    reveal_strlit("Suspected problem: DNS is broken while the network itself works");
    reveal_strlit("TCP connections to literal addresses succeed, so packets reach the internet. Name resolution fails against every configured server (");
}

proof fn lemma_private_dns_blocking_worded(c: Seq<Check>, state: DiagState)
    ensures
        private_dns_blocking_found(c, state) matches Some(f) ==> is_worded(f),
{
    reveal_strlit("private_dns_blocking");
    reveal_strlit("Suspected problem: strict Private DNS has no reachable server");
    reveal_strlit("\n\nIn strict mode Android refuses to fall back to plaintext DNS. If the configured DoT server cannot be reached on port 853, name resolution stops completely, while everything that uses literal addresses keeps working. That asymmetry is why this failure is so often misread as \"some apps work\".");
}

proof fn lemma_captive_portal_worded(c: Seq<Check>, state: DiagState)
    ensures
        captive_portal_found(c, state) matches Some(f) ==> is_worded(f),
{
    reveal_strlit("captive_portal");
    reveal_strlit("A captive portal is intercepting this network");
    reveal_strlit("Android has classified this network as being behind a captive portal. Until the portal is satisfied, DNS answers and HTTP responses may be forged, so other checks in this report can show misleading results.");
}

proof fn lemma_validated_but_broken_worded(c: Seq<Check>, state: DiagState)
    ensures
        validated_but_broken_found(c, state) matches Some(f) ==> is_worded(f),
{
    reveal_strlit("validated_but_broken");
    reveal_strlit("Android reports VALIDATED but connectivity is broken");
    reveal_strlit("NetworkCapabilities still carries NET_CAPABILITY_VALIDATED for this network, but live probes fail");
}

proof fn lemma_framework_kernel_disagreement_worded(c: Seq<Check>, state: DiagState)
    ensures
        framework_kernel_disagreement_found(c, state) matches Some(f) ==> is_worded(f),
{
    reveal_strlit("framework_kernel_disagreement");
    reveal_strlit("The Android framework and the Linux kernel disagree");
    reveal_strlit("\n\nLinkProperties is what apps see; the kernel's tables are what packets obey. When they diverge, an app can be told it has a route that does not exist, or be handed an address the interface no longer holds. This usually means a network transition was interrupted partway through, and it often resolves itself when the network is next reconfigured.");
}

proof fn lemma_vpn_leak_worded(c: Seq<Check>, state: DiagState)
    ensures
        vpn_leak_found(c, state) matches Some(f) ==> is_worded(f),
{
    reveal_strlit("vpn_leak");
    reveal_strlit("Traffic is bypassing the active VPN");
    reveal_strlit("A VPN interface (");
}

proof fn lemma_vpn_ipv6_blackhole_worded(c: Seq<Check>, state: DiagState)
    ensures
        vpn_ipv6_blackhole_found(c, state) matches Some(f) ==> is_worded(f),
{
    reveal_strlit("vpn_ipv6_blackhole");
    reveal_strlit("The VPN blocks IPv6 on purpose");
    reveal_strlit("The VPN carries IPv4 but not IPv6, and IPv6 is not blocked");
    reveal_strlit("Traffic goes through the VPN, the tunnel carries no IPv6, and the VPN's routing table (");
    reveal_strlit("Traffic goes through the VPN, but the tunnel has no IPv6 default route and the VPN's routing table (");
}

proof fn lemma_mtu_blackhole_worded(c: Seq<Check>, state: DiagState)
    ensures
        mtu_blackhole_found(c, state) matches Some(f) ==> is_worded(f),
{
    reveal_strlit("mtu_blackhole");
    reveal_strlit("Suspected problem: large packets are being dropped (MTU black hole)");
    reveal_strlit(". ");
}

proof fn lemma_nat64_without_clat_worded(c: Seq<Check>, state: DiagState)
    ensures
        nat64_without_clat_found(c, state) matches Some(f) ==> is_worded(f),
{
    reveal_strlit("nat64_without_clat");
    reveal_strlit("DNS64 is active but 464XLAT is not running");
    reveal_strlit("\n\nOn an IPv6-only network Android normally starts clatd, which presents a synthetic IPv4 interface so that IPv4-only applications keep working. Without it, anything that uses a hard-coded IPv4 literal or a raw IPv4 socket has no path out, while everything that resolves names keeps working through DNS64. Apps failing selectively, with no obvious pattern, is what that looks like from the outside.");
}

proof fn lemma_firewall_blocking_uid_worded(c: Seq<Check>, state: DiagState)
    ensures
        firewall_blocking_uid_found(c, state) matches Some(f) ==> is_worded(f),
{
    reveal_strlit("firewall_blocking_uid");
    reveal_strlit("This app is blocked by a firewall rule");
    reveal_strlit("\n\nAndroid enforces per-app network restrictions in eBPF rather than in netfilter, so this does not appear in any iptables dump. Data Saver, background restriction, battery optimisation and OEM-specific power managers all write into the same map. The app sees ordinary connection failures with no indication that policy, rather than the network, is the cause.");
}

proof fn lemma_sockets_stuck_syn_sent_worded(c: Seq<Check>, state: DiagState)
    ensures
        sockets_stuck_syn_sent_found(c, state) matches Some(f) ==> is_worded(f),
{
    reveal_strlit("sockets_stuck_syn_sent");
    reveal_strlit("Connections are piling up in SYN_SENT");
    reveal_strlit(" sockets are sitting in SYN_SENT. The kernel has sent a SYN and is waiting for a SYN-ACK that has not arrived.\n\nThis is what a silent drop looks like from the socket table: the packets are leaving the device and nothing is answering, as opposed to a refused connection (which produces a RST and closes immediately) or a routing failure (which fails instantly with ENETUNREACH). A firewall that drops rather than rejects, a broken path, or a dead peer all produce this.");
}

proof fn lemma_sockets_stuck_close_wait_worded(c: Seq<Check>, state: DiagState)
    ensures
        sockets_stuck_close_wait_found(c, state) matches Some(f) ==> is_worded(f),
{
    reveal_strlit("sockets_stuck_close_wait");
    reveal_strlit("Sockets are accumulating in CLOSE_WAIT");
    reveal_strlit(" sockets are in CLOSE_WAIT: the peer has closed its half of the connection and the local application has not closed its own.\n\nThis is an application bug rather than a network fault, and it leaks file descriptors. It is worth noting here because the symptom people report is \"the app stops being able to connect\", which looks like a network problem until you count the sockets.");
}

proof fn lemma_multiple_default_routes_worded(c: Seq<Check>, state: DiagState)
    ensures
        multiple_default_routes_found(c, state) matches Some(f) ==> is_worded(f),
{
    reveal_strlit("multiple_default_routes");
    reveal_strlit("Several default routes compete in the same table");
    reveal_strlit("\n\nThe kernel will pick the lowest metric, so this is not broken on its own. It usually means an interface went down without its routes being cleaned up, and it becomes a real problem if the winning route points at a gateway that no longer works.");
}

proof fn lemma_metered_restriction_worded(c: Seq<Check>, state: DiagState)
    ensures
        metered_restriction_found(c, state) matches Some(f) ==> is_worded(f),
{
    reveal_strlit("metered_restriction");
    reveal_strlit("This network is metered and restricted");
    reveal_strlit("The network is marked metered and does not carry NET_CAPABILITY_NOT_RESTRICTED. Background traffic for most apps will be blocked by policy, which produces connection failures that look like network faults but are deliberate.");
}

/// Every finding has a name, a title and an interpretation.
pub proof fn law_every_finding_is_worded(c: Seq<Check>, state: DiagState)
    ensures
        all_worded(all_found(c, state)),
{
    let s = Seq::<FindingSaid>::empty();
    let s1 = s + listed(no_connectivity_at_all_found(c, state));
    lemma_no_connectivity_at_all_worded(c, state);
    lemma_add_worded(s, no_connectivity_at_all_found(c, state));
    let s2 = s1 + listed(broken_upstream_ipv6_found(c, state));
    lemma_broken_upstream_ipv6_worded(c, state);
    lemma_add_worded(s1, broken_upstream_ipv6_found(c, state));
    let s3 = s2 + listed(ipv6_configured_no_route_found(c, state));
    lemma_ipv6_configured_no_route_worded(c, state);
    lemma_add_worded(s2, ipv6_configured_no_route_found(c, state));
    let s4 = s3 + listed(ipv6_disabled_by_sysctl_found(c, state));
    lemma_ipv6_disabled_by_sysctl_worded(c, state);
    lemma_add_worded(s3, ipv6_disabled_by_sysctl_found(c, state));
    let s5 = s4 + listed(gateway_unreachable_found(c, state));
    lemma_gateway_unreachable_worded(c, state);
    lemma_add_worded(s4, gateway_unreachable_found(c, state));
    let s6 = s5 + listed(dns_broken_transport_ok_found(c, state));
    lemma_dns_broken_transport_ok_worded(c, state);
    lemma_add_worded(s5, dns_broken_transport_ok_found(c, state));
    let s7 = s6 + listed(private_dns_blocking_found(c, state));
    lemma_private_dns_blocking_worded(c, state);
    lemma_add_worded(s6, private_dns_blocking_found(c, state));
    let s8 = s7 + listed(captive_portal_found(c, state));
    lemma_captive_portal_worded(c, state);
    lemma_add_worded(s7, captive_portal_found(c, state));
    let s9 = s8 + listed(validated_but_broken_found(c, state));
    lemma_validated_but_broken_worded(c, state);
    lemma_add_worded(s8, validated_but_broken_found(c, state));
    let s10 = s9 + listed(framework_kernel_disagreement_found(c, state));
    lemma_framework_kernel_disagreement_worded(c, state);
    lemma_add_worded(s9, framework_kernel_disagreement_found(c, state));
    let s11 = s10 + listed(vpn_leak_found(c, state));
    lemma_vpn_leak_worded(c, state);
    lemma_add_worded(s10, vpn_leak_found(c, state));
    let s12 = s11 + listed(vpn_ipv6_blackhole_found(c, state));
    lemma_vpn_ipv6_blackhole_worded(c, state);
    lemma_add_worded(s11, vpn_ipv6_blackhole_found(c, state));
    let s13 = s12 + listed(mtu_blackhole_found(c, state));
    lemma_mtu_blackhole_worded(c, state);
    lemma_add_worded(s12, mtu_blackhole_found(c, state));
    let s14 = s13 + listed(nat64_without_clat_found(c, state));
    lemma_nat64_without_clat_worded(c, state);
    lemma_add_worded(s13, nat64_without_clat_found(c, state));
    let s15 = s14 + listed(firewall_blocking_uid_found(c, state));
    lemma_firewall_blocking_uid_worded(c, state);
    lemma_add_worded(s14, firewall_blocking_uid_found(c, state));
    let s16 = s15 + listed(sockets_stuck_syn_sent_found(c, state));
    lemma_sockets_stuck_syn_sent_worded(c, state);
    lemma_add_worded(s15, sockets_stuck_syn_sent_found(c, state));
    let s17 = s16 + listed(sockets_stuck_close_wait_found(c, state));
    lemma_sockets_stuck_close_wait_worded(c, state);
    lemma_add_worded(s16, sockets_stuck_close_wait_found(c, state));
    let s18 = s17 + listed(multiple_default_routes_found(c, state));
    lemma_multiple_default_routes_worded(c, state);
    lemma_add_worded(s17, multiple_default_routes_found(c, state));
    let s19 = s18 + listed(metered_restriction_found(c, state));
    lemma_metered_restriction_worded(c, state);
    lemma_add_worded(s18, metered_restriction_found(c, state));
    assert(all_found(c, state) =~= s19);
}

/// The place of a rule among the rules, by what it finds.
pub open spec fn turn_of(id: FindingId) -> int {
    match id {
        FindingId::NoConnectivityAtAll => 0,
        FindingId::BrokenUpstreamIpv6 => 1,
        FindingId::Ipv6ConfiguredNoRoute => 2,
        FindingId::Ipv6DisabledBySysctl => 3,
        FindingId::GatewayUnreachable => 4,
        FindingId::DnsBrokenTransportOk => 5,
        FindingId::PrivateDnsBlocking => 6,
        FindingId::CaptivePortal => 7,
        FindingId::ValidatedButBroken => 8,
        FindingId::FrameworkKernelDisagreement => 9,
        FindingId::VpnLeak => 10,
        FindingId::VpnBlackhole => 11,
        FindingId::MtuBlackhole => 12,
        FindingId::Nat64WithoutClat => 13,
        FindingId::FirewallBlockingUid => 14,
        FindingId::SocketsStuckSynSent => 15,
        FindingId::SocketsStuckCloseWait => 16,
        FindingId::MultipleDefaultRoutes => 17,
        FindingId::MeteredRestriction => 18,
        _ => -1,
    }
}

/// The name under which a rule reports what it finds.
pub open spec fn finding_key(id: FindingId) -> Seq<char> {
    match id {
        FindingId::NoConnectivityAtAll => "no_connectivity"@,
        FindingId::BrokenUpstreamIpv6 => "broken_upstream_ipv6"@,
        FindingId::Ipv6ConfiguredNoRoute => "ipv6_no_default_route"@,
        FindingId::Ipv6DisabledBySysctl => "ipv6_disabled_sysctl"@,
        FindingId::GatewayUnreachable => "gateway_unreachable"@,
        FindingId::DnsBrokenTransportOk => "dns_broken_transport_ok"@,
        FindingId::PrivateDnsBlocking => "private_dns_blocking"@,
        FindingId::CaptivePortal => "captive_portal"@,
        FindingId::ValidatedButBroken => "validated_but_broken"@,
        FindingId::FrameworkKernelDisagreement => "framework_kernel_disagreement"@,
        FindingId::VpnLeak => "vpn_leak"@,
        FindingId::VpnBlackhole => "vpn_ipv6_blackhole"@,
        FindingId::MtuBlackhole => "mtu_blackhole"@,
        FindingId::Nat64WithoutClat => "nat64_without_clat"@,
        FindingId::FirewallBlockingUid => "firewall_blocking_uid"@,
        FindingId::SocketsStuckSynSent => "sockets_stuck_syn_sent"@,
        FindingId::SocketsStuckCloseWait => "sockets_stuck_close_wait"@,
        FindingId::MultipleDefaultRoutes => "multiple_default_routes"@,
        FindingId::MeteredRestriction => "metered_restriction"@,
        _ => ""@,
    }
}

/// Whether findings come in the order of the rules, each rule's at most once and
/// under its name, and none from the turn on.
pub open spec fn in_turn(s: Seq<FindingSaid>, turn: int) -> bool {
    &&& forall|i: int|
        0 <= i < s.len() ==> 0 <= turn_of((#[trigger] s[i]).id) < turn && s[i].key == finding_key(
            s[i].id,
        )
    &&& forall|i: int, j: int|
        0 <= i < j < s.len() ==> turn_of((#[trigger] s[i]).id) < turn_of((#[trigger] s[j]).id)
}

proof fn lemma_add_in_turn(s: Seq<FindingSaid>, f: Option<FindingSaid>, turn: int)
    requires
        in_turn(s, turn),
        f is Some ==> turn_of((f->0).id) == turn && (f->0).key == finding_key((f->0).id),
        turn >= 0,
    ensures
        in_turn(s + listed(f), turn + 1),
{
    let r = s + listed(f);
    assert forall|i: int| 0 <= i < r.len() implies 0 <= turn_of((#[trigger] r[i]).id) < turn + 1
        && r[i].key == finding_key(r[i].id) by {
        if i < s.len() {
            assert(r[i] == s[i]);
        }
    }
    assert forall|i: int, j: int| 0 <= i < j < r.len() implies turn_of((#[trigger] r[i]).id)
        < turn_of((#[trigger] r[j]).id) by {
        assert(r[i] == s[i]);
        if j < s.len() {
            assert(r[j] == s[j]);
        }
    }
}

proof fn lemma_found_in_turn(c: Seq<Check>, state: DiagState)
    ensures
        in_turn(all_found(c, state), 19),
{
    let s = Seq::<FindingSaid>::empty();
    let s1 = s + listed(no_connectivity_at_all_found(c, state));
    lemma_add_in_turn(s, no_connectivity_at_all_found(c, state), 0);
    let s2 = s1 + listed(broken_upstream_ipv6_found(c, state));
    lemma_add_in_turn(s1, broken_upstream_ipv6_found(c, state), 1);
    let s3 = s2 + listed(ipv6_configured_no_route_found(c, state));
    lemma_add_in_turn(s2, ipv6_configured_no_route_found(c, state), 2);
    let s4 = s3 + listed(ipv6_disabled_by_sysctl_found(c, state));
    lemma_add_in_turn(s3, ipv6_disabled_by_sysctl_found(c, state), 3);
    let s5 = s4 + listed(gateway_unreachable_found(c, state));
    lemma_add_in_turn(s4, gateway_unreachable_found(c, state), 4);
    let s6 = s5 + listed(dns_broken_transport_ok_found(c, state));
    lemma_add_in_turn(s5, dns_broken_transport_ok_found(c, state), 5);
    let s7 = s6 + listed(private_dns_blocking_found(c, state));
    lemma_add_in_turn(s6, private_dns_blocking_found(c, state), 6);
    let s8 = s7 + listed(captive_portal_found(c, state));
    lemma_add_in_turn(s7, captive_portal_found(c, state), 7);
    let s9 = s8 + listed(validated_but_broken_found(c, state));
    lemma_add_in_turn(s8, validated_but_broken_found(c, state), 8);
    let s10 = s9 + listed(framework_kernel_disagreement_found(c, state));
    lemma_add_in_turn(s9, framework_kernel_disagreement_found(c, state), 9);
    let s11 = s10 + listed(vpn_leak_found(c, state));
    lemma_add_in_turn(s10, vpn_leak_found(c, state), 10);
    let s12 = s11 + listed(vpn_ipv6_blackhole_found(c, state));
    lemma_add_in_turn(s11, vpn_ipv6_blackhole_found(c, state), 11);
    let s13 = s12 + listed(mtu_blackhole_found(c, state));
    lemma_add_in_turn(s12, mtu_blackhole_found(c, state), 12);
    let s14 = s13 + listed(nat64_without_clat_found(c, state));
    lemma_add_in_turn(s13, nat64_without_clat_found(c, state), 13);
    let s15 = s14 + listed(firewall_blocking_uid_found(c, state));
    lemma_add_in_turn(s14, firewall_blocking_uid_found(c, state), 14);
    let s16 = s15 + listed(sockets_stuck_syn_sent_found(c, state));
    lemma_add_in_turn(s15, sockets_stuck_syn_sent_found(c, state), 15);
    let s17 = s16 + listed(sockets_stuck_close_wait_found(c, state));
    lemma_add_in_turn(s16, sockets_stuck_close_wait_found(c, state), 16);
    let s18 = s17 + listed(multiple_default_routes_found(c, state));
    lemma_add_in_turn(s17, multiple_default_routes_found(c, state), 17);
    let s19 = s18 + listed(metered_restriction_found(c, state));
    lemma_add_in_turn(s18, metered_restriction_found(c, state), 18);
    assert(all_found(c, state) =~= s19);
}

proof fn lemma_keys_differ(a: FindingId, b: FindingId)
    requires
        0 <= turn_of(a) < turn_of(b),
    ensures
        finding_key(a) != finding_key(b),
{
    reveal_strlit("no_connectivity");
    reveal_strlit("broken_upstream_ipv6");
    reveal_strlit("ipv6_no_default_route");
    reveal_strlit("ipv6_disabled_sysctl");
    reveal_strlit("gateway_unreachable");
    reveal_strlit("dns_broken_transport_ok");
    reveal_strlit("private_dns_blocking");
    reveal_strlit("captive_portal");
    reveal_strlit("validated_but_broken");
    reveal_strlit("framework_kernel_disagreement");
    reveal_strlit("vpn_leak");
    reveal_strlit("vpn_ipv6_blackhole");
    reveal_strlit("mtu_blackhole");
    reveal_strlit("nat64_without_clat");
    reveal_strlit("firewall_blocking_uid");
    reveal_strlit("sockets_stuck_syn_sent");
    reveal_strlit("sockets_stuck_close_wait");
    reveal_strlit("multiple_default_routes");
    reveal_strlit("metered_restriction");
    let (x, y) = (finding_key(a), finding_key(b));
    if x == y {
        assert(x.len() == y.len() && x[0] == y[0]);
    }
}

/// No two findings share a name, neither as the rules find them nor as they are
/// reported.
pub proof fn law_finding_keys_are_unique(c: Seq<Check>, state: DiagState)
    ensures
        forall|i: int, j: int|
            0 <= i < j < all_found(c, state).len() ==> (#[trigger] all_found(c, state)[i]).key != (
            #[trigger] all_found(c, state)[j]).key,
        ({
            let r = sort_by(all_found(c, state), said_before());
            forall|i: int, j: int|
                0 <= i < j < r.len() ==> (#[trigger] r[i]).key != (#[trigger] r[j]).key
        }),
{
    let s = all_found(c, state);
    lemma_found_in_turn(c, state);
    assert forall|i: int, j: int| 0 <= i < j < s.len() implies (#[trigger] s[i]).key != (
    #[trigger] s[j]).key by {
        lemma_keys_differ(s[i].id, s[j].id);
    }
    let r = sort_by(s, said_before());
    assert(weak_order(said_before()));
    law_sort_by(s, said_before());
    assert(s.no_duplicates());
    s.lemma_multiset_has_no_duplicates();
    r.lemma_multiset_has_no_duplicates_conv();
    assert forall|i: int, j: int| 0 <= i < j < r.len() implies (#[trigger] r[i]).key != (
    #[trigger] r[j]).key by {
        broadcast use vstd::seq_lib::group_to_multiset_ensures;

        assert(r.contains(r[i]) && r.contains(r[j]));
        assert(r.to_multiset().count(r[i]) > 0 && r.to_multiset().count(r[j]) > 0);
        assert(s.contains(r[i]) && s.contains(r[j]));
        let (x, y) = (s.index_of(r[i]), s.index_of(r[j]));
        assert(s[x] == r[i] && s[y] == r[j]);
        assert(r[i] != r[j]);
        if x < y {
            assert(s[x].key != s[y].key);
        } else {
            assert(s[y].key != s[x].key);
        }
    }
}

/// A check that was skipped counts neither as passed nor as failed nor as a
/// warning.
pub proof fn law_skipped_is_nothing_else(c: Seq<Check>, key: Seq<char>)
    requires
        skipped_in(c, key),
    ensures
        !passed_in(c, key),
        !failed_in(c, key),
        !warned_in(c, key),
{
}

/// Broken upstream IPv6 is found only where IPv6 is configured, IPv6
/// connections fail and IPv4 connections work.
pub proof fn law_broken_ipv6_needs_working_ipv4(c: Seq<Check>, state: DiagState)
    requires
        broken_upstream_ipv6_found(c, state) is Some,
    ensures
        passed_in(c, "tcp.v4"@),
        failed_in(c, "tcp.v6"@),
        passed_in(c, "addr.v6"@),
        passed_in(c, "route.v6.default"@),
{
}

/// A full-size probe that got through rules an MTU black hole out.
pub proof fn law_full_size_probe_rules_out_black_hole(c: Seq<Check>, state: DiagState)
    requires
        passed_in(c, "mtu.pmtu"@),
    ensures
        mtu_blackhole_found(c, state) is None,
{
}

/// A network that Android does not call validated is never reported as validated
/// but broken.
pub proof fn law_validated_but_broken_needs_validation(c: Seq<Check>, state: DiagState)
    requires
        !is_validated(state),
    ensures
        validated_but_broken_found(c, state) is None,
{
}

/// Without a VPN interface nothing is reported as bypassing it.
pub proof fn law_vpn_leak_needs_a_tunnel(c: Seq<Check>, state: DiagState)
    requires
        or(evidence_in(c, "vpn.routing"@, "vpn_interfaces"@), ""@).len() == 0,
    ensures
        vpn_leak_found(c, state) is None,
{
}

/// A VPN that blocks IPv6 on purpose is working correctly: that is never reported
/// as more than information, while IPv6 that is neither carried nor blocked is.
pub proof fn law_blocked_ipv6_is_no_problem(c: Seq<Check>, state: DiagState)
    requires
        vpn_ipv6_blackhole_found(c, state) is Some,
    ensures
        (vpn_ipv6_blackhole_found(c, state)->0).severity == if evidence_in(
            c,
            "vpn.routing"@,
            "ipv6_blackholed_in_vpn_table"@,
        ) == Some("true"@) {
            FindingSeverity::Info
        } else {
            FindingSeverity::Medium
        },
{
}

} // verus!
