//! When each finding is reported, in terms of the checks alone.
use vstd::prelude::*;

use crate::diag::rules::{
    all_found, broken_upstream_ipv6_found, captive_portal_found, check_in, detail_in,
    dns_broken_transport_ok_found, evidence_in, failed_in, findings_said,
    firewall_blocking_uid_found, framework_kernel_disagreement_found, gateway_unreachable_found,
    ipv6_configured_no_route_found, ipv6_disabled_by_sysctl_found, listed,
    metered_restriction_found, mtu_blackhole_found, multiple_default_routes_found,
    nat64_without_clat_found, no_connectivity_at_all_found, passed_in, private_dns_blocking_found,
    said_before, said_by, skipped_in, sockets_stuck_close_wait_found, sockets_stuck_syn_sent_found,
    validated_but_broken_found, vpn_ipv6_blackhole_found, vpn_leak_found, warned_in, FindingSaid,
};
use crate::diag::state::DiagState;
use crate::proto::{Check, CheckStatus, Finding, FindingId, FindingSeverity};
use crate::seqs::{law_sort_by, sort_by, weak_order};
use crate::text::{occurs_in, unsigned};

verus! {

// ---- Reading the checks ---------------------------------------------------------

/// Whether the place holds the last check with a key.
pub open spec fn is_last(c: Seq<Check>, i: int, key: Seq<char>) -> bool {
    &&& 0 <= i < c.len()
    &&& c[i].key@ == key
    &&& forall|j: int| i < j < c.len() ==> (#[trigger] c[j]).key@ != key
}

/// Whether the check with a key came out so.
pub open spec fn came_out(c: Seq<Check>, key: Seq<char>, status: CheckStatus) -> bool {
    exists|i: int| #[trigger] is_last(c, i, key) && c[i].status == status
}

/// Whether the check with a key shows a value under a name.
pub open spec fn shows(c: Seq<Check>, key: Seq<char>, field: Seq<char>, value: Seq<char>) -> bool {
    exists|i: int| #[trigger]
        is_last(c, i, key) && c[i].evidence@.contains_key(field) && c[i].evidence@[field] == value
}

/// Whether a check is the one that its key finds, or none has the key.
proof fn lemma_check_in(c: Seq<Check>, key: Seq<char>)
    ensures
        match check_in(c, key) {
            Some(x) => exists|i: int| #[trigger] is_last(c, i, key) && c[i] == x,
            None => forall|i: int| 0 <= i < c.len() ==> (#[trigger] c[i]).key@ != key,
        },
    decreases c.len(),
{
    if c.len() > 0 {
        let front = c.drop_last();
        if c.last().key@ == key {
            assert(is_last(c, c.len() - 1, key));
        } else {
            lemma_check_in(front, key);
            assert(check_in(c, key) == check_in(front, key));
            if check_in(c, key) is Some {
                let i = choose|i: int| #[trigger] is_last(front, i, key) && front[i] == check_in(c, key)->0;
                assert forall|j: int| i < j < c.len() implies (#[trigger] c[j]).key@ != key by {
                    if j < front.len() {
                        assert(front[j] == c[j]);
                    }
                }
                assert(is_last(c, i, key) && c[i] == check_in(c, key)->0);
            } else {
                assert forall|i: int| 0 <= i < c.len() implies (#[trigger] c[i]).key@ != key by {
                    if i < front.len() {
                        assert(front[i] == c[i]);
                    }
                }
            }
        }
    }
}

proof fn lemma_last_is_one(c: Seq<Check>, i: int, j: int, key: Seq<char>)
    requires
        is_last(c, i, key),
        is_last(c, j, key),
    ensures
        i == j,
{
    if i < j {
        assert(c[j].key@ != key);
    } else if j < i {
        assert(c[i].key@ != key);
    }
}

/// A rule reads the last check that has a key: its outcome, its evidence and its
/// words. A check with another key, or none, tells nothing.
pub proof fn law_the_last_check_of_a_key_counts(c: Seq<Check>, key: Seq<char>, field: Seq<char>)
    ensures
        passed_in(c, key) <==> came_out(c, key, CheckStatus::Pass),
        failed_in(c, key) <==> came_out(c, key, CheckStatus::Fail),
        warned_in(c, key) <==> came_out(c, key, CheckStatus::Warn),
        skipped_in(c, key) <==> came_out(c, key, CheckStatus::Skip),
        forall|v: Seq<char>| (evidence_in(c, key, field) == Some(v)) <==> #[trigger] shows(c, key, field, v),
        forall|i: int| #[trigger] is_last(c, i, key) ==> detail_in(c, key) == c[i].detail@,
        (forall|i: int| !#[trigger] is_last(c, i, key)) ==> detail_in(c, key).len() == 0,
{
    lemma_check_in(c, key);
    if check_in(c, key) is Some {
        let x = check_in(c, key)->0;
        let i = choose|i: int| #[trigger] is_last(c, i, key) && c[i] == x;
        assert forall|j: int| #[trigger] is_last(c, j, key) implies j == i by {
            lemma_last_is_one(c, i, j, key);
        }
        assert(is_last(c, i, key));
        assert forall|v: Seq<char>| (evidence_in(c, key, field) == Some(v)) implies #[trigger] shows(c, key, field, v) by {
            assert(is_last(c, i, key) && c[i].evidence@.contains_key(field) && c[i].evidence@[field] == v);
        }
        assert forall|s: CheckStatus| x.status == s implies #[trigger] came_out(c, key, s) by {
            assert(is_last(c, i, key) && c[i].status == s);
        }
    } else {
        assert forall|i: int| !#[trigger] is_last(c, i, key) by {}
    }
}

// ---- What is reported -------------------------------------------------------------

/// Whether a finding is among those that are reported.
pub open spec fn reported(r: Seq<Finding>, id: FindingId) -> bool {
    exists|k: int| 0 <= k < r.len() && (#[trigger] r[k]).id == id
}

/// Whether these are the findings that the rules report of checks.
pub open spec fn evaluated(r: Seq<Finding>, c: Seq<Check>, state: DiagState) -> bool {
    findings_said(r) == sort_by(all_found(c, state), said_before())
}

/// Whether what the rules found holds a finding.
spec fn holds(s: Seq<FindingSaid>, id: FindingId) -> bool {
    exists|k: int| 0 <= k < s.len() && (#[trigger] s[k]).id == id
}

proof fn lemma_reported(r: Seq<Finding>, c: Seq<Check>, state: DiagState, id: FindingId)
    requires
        evaluated(r, c, state),
    ensures
        reported(r, id) <==> holds(all_found(c, state), id),
        forall|k: int| 0 <= k < r.len() ==> all_found(c, state).contains(said_by(#[trigger] r[k])),
{
    broadcast use vstd::seq_lib::group_to_multiset_ensures;

    let s = all_found(c, state);
    let t = sort_by(s, said_before());
    assert(weak_order(said_before()));
    law_sort_by(s, said_before());
    assert(findings_said(r).len() == r.len());
    assert forall|k: int| 0 <= k < r.len() implies s.contains(said_by(#[trigger] r[k])) by {
        assert(t[k] == said_by(r[k]));
        assert(t.contains(t[k]));
        assert(t.to_multiset().count(t[k]) > 0);
    }
    if reported(r, id) {
        let k = choose|k: int| 0 <= k < r.len() && (#[trigger] r[k]).id == id;
        assert(s.contains(said_by(r[k])));
        let x = s.index_of(said_by(r[k]));
        assert(s[x].id == id);
    }
    if holds(s, id) {
        let k = choose|k: int| 0 <= k < s.len() && (#[trigger] s[k]).id == id;
        assert(s.contains(s[k]));
        assert(s.to_multiset().count(s[k]) > 0);
        assert(t.contains(s[k]));
        let x = t.index_of(s[k]);
        assert(t[x] == said_by(r[x]));
        assert(r[x].id == id);
    }
}

proof fn lemma_member_kept(s: Seq<FindingSaid>, f: Option<FindingSaid>, x: FindingSaid)
    ensures
        s.contains(x) || f == Some(x) ==> (s + listed(f)).contains(x),
{
    let r = s + listed(f);
    if s.contains(x) {
        let k = choose|k: int| 0 <= k < s.len() && s[k] == x;
        assert(r[k] == x);
    }
    if f == Some(x) {
        assert(r[s.len() as int] == x);
    }
}

proof fn lemma_member_step(s: Seq<FindingSaid>, f: Option<FindingSaid>, x: FindingSaid)
    ensures
        (s + listed(f)).contains(x) ==> s.contains(x) || f == Some(x),
{
    let r = s + listed(f);
    if r.contains(x) {
        let k = choose|k: int| 0 <= k < r.len() && r[k] == x;
        if k < s.len() {
            assert(s[k] == x);
        }
    }
}

proof fn lemma_found_is_listed(c: Seq<Check>, state: DiagState, x: FindingSaid)
    requires
        no_connectivity_at_all_found(c, state) == Some(x)
            || broken_upstream_ipv6_found(c, state) == Some(x)
            || ipv6_configured_no_route_found(c, state) == Some(x)
            || ipv6_disabled_by_sysctl_found(c, state) == Some(x)
            || gateway_unreachable_found(c, state) == Some(x)
            || dns_broken_transport_ok_found(c, state) == Some(x)
            || private_dns_blocking_found(c, state) == Some(x)
            || captive_portal_found(c, state) == Some(x)
            || validated_but_broken_found(c, state) == Some(x)
            || framework_kernel_disagreement_found(c, state) == Some(x)
            || vpn_leak_found(c, state) == Some(x)
            || vpn_ipv6_blackhole_found(c, state) == Some(x)
            || mtu_blackhole_found(c, state) == Some(x)
            || nat64_without_clat_found(c, state) == Some(x)
            || firewall_blocking_uid_found(c, state) == Some(x)
            || sockets_stuck_syn_sent_found(c, state) == Some(x)
            || sockets_stuck_close_wait_found(c, state) == Some(x)
            || multiple_default_routes_found(c, state) == Some(x)
            || metered_restriction_found(c, state) == Some(x),
    ensures
        all_found(c, state).contains(x),
{
    let s = Seq::<FindingSaid>::empty();
    let s1 = s + listed(no_connectivity_at_all_found(c, state));
    lemma_member_kept(s, no_connectivity_at_all_found(c, state), x);
    let s2 = s1 + listed(broken_upstream_ipv6_found(c, state));
    lemma_member_kept(s1, broken_upstream_ipv6_found(c, state), x);
    let s3 = s2 + listed(ipv6_configured_no_route_found(c, state));
    lemma_member_kept(s2, ipv6_configured_no_route_found(c, state), x);
    let s4 = s3 + listed(ipv6_disabled_by_sysctl_found(c, state));
    lemma_member_kept(s3, ipv6_disabled_by_sysctl_found(c, state), x);
    let s5 = s4 + listed(gateway_unreachable_found(c, state));
    lemma_member_kept(s4, gateway_unreachable_found(c, state), x);
    let s6 = s5 + listed(dns_broken_transport_ok_found(c, state));
    lemma_member_kept(s5, dns_broken_transport_ok_found(c, state), x);
    let s7 = s6 + listed(private_dns_blocking_found(c, state));
    lemma_member_kept(s6, private_dns_blocking_found(c, state), x);
    let s8 = s7 + listed(captive_portal_found(c, state));
    lemma_member_kept(s7, captive_portal_found(c, state), x);
    let s9 = s8 + listed(validated_but_broken_found(c, state));
    lemma_member_kept(s8, validated_but_broken_found(c, state), x);
    let s10 = s9 + listed(framework_kernel_disagreement_found(c, state));
    lemma_member_kept(s9, framework_kernel_disagreement_found(c, state), x);
    let s11 = s10 + listed(vpn_leak_found(c, state));
    lemma_member_kept(s10, vpn_leak_found(c, state), x);
    let s12 = s11 + listed(vpn_ipv6_blackhole_found(c, state));
    lemma_member_kept(s11, vpn_ipv6_blackhole_found(c, state), x);
    let s13 = s12 + listed(mtu_blackhole_found(c, state));
    lemma_member_kept(s12, mtu_blackhole_found(c, state), x);
    let s14 = s13 + listed(nat64_without_clat_found(c, state));
    lemma_member_kept(s13, nat64_without_clat_found(c, state), x);
    let s15 = s14 + listed(firewall_blocking_uid_found(c, state));
    lemma_member_kept(s14, firewall_blocking_uid_found(c, state), x);
    let s16 = s15 + listed(sockets_stuck_syn_sent_found(c, state));
    lemma_member_kept(s15, sockets_stuck_syn_sent_found(c, state), x);
    let s17 = s16 + listed(sockets_stuck_close_wait_found(c, state));
    lemma_member_kept(s16, sockets_stuck_close_wait_found(c, state), x);
    let s18 = s17 + listed(multiple_default_routes_found(c, state));
    lemma_member_kept(s17, multiple_default_routes_found(c, state), x);
    let s19 = s18 + listed(metered_restriction_found(c, state));
    lemma_member_kept(s18, metered_restriction_found(c, state), x);
    assert(all_found(c, state) =~= s19);
}

proof fn lemma_member(c: Seq<Check>, state: DiagState, x: FindingSaid)
    requires
        all_found(c, state).contains(x),
    ensures
        x.id == FindingId::NoConnectivityAtAll ==> no_connectivity_at_all_found(c, state) == Some(x),
        x.id == FindingId::BrokenUpstreamIpv6 ==> broken_upstream_ipv6_found(c, state) == Some(x),
        x.id == FindingId::Ipv6ConfiguredNoRoute ==> ipv6_configured_no_route_found(c, state) == Some(x),
        x.id == FindingId::Ipv6DisabledBySysctl ==> ipv6_disabled_by_sysctl_found(c, state) == Some(x),
        x.id == FindingId::GatewayUnreachable ==> gateway_unreachable_found(c, state) == Some(x),
        x.id == FindingId::DnsBrokenTransportOk ==> dns_broken_transport_ok_found(c, state) == Some(x),
        x.id == FindingId::PrivateDnsBlocking ==> private_dns_blocking_found(c, state) == Some(x),
        x.id == FindingId::CaptivePortal ==> captive_portal_found(c, state) == Some(x),
        x.id == FindingId::ValidatedButBroken ==> validated_but_broken_found(c, state) == Some(x),
        x.id == FindingId::FrameworkKernelDisagreement ==> framework_kernel_disagreement_found(c, state) == Some(x),
        x.id == FindingId::VpnLeak ==> vpn_leak_found(c, state) == Some(x),
        x.id == FindingId::VpnBlackhole ==> vpn_ipv6_blackhole_found(c, state) == Some(x),
        x.id == FindingId::MtuBlackhole ==> mtu_blackhole_found(c, state) == Some(x),
        x.id == FindingId::Nat64WithoutClat ==> nat64_without_clat_found(c, state) == Some(x),
        x.id == FindingId::FirewallBlockingUid ==> firewall_blocking_uid_found(c, state) == Some(x),
        x.id == FindingId::SocketsStuckSynSent ==> sockets_stuck_syn_sent_found(c, state) == Some(x),
        x.id == FindingId::SocketsStuckCloseWait ==> sockets_stuck_close_wait_found(c, state) == Some(x),
        x.id == FindingId::MultipleDefaultRoutes ==> multiple_default_routes_found(c, state) == Some(x),
        x.id == FindingId::MeteredRestriction ==> metered_restriction_found(c, state) == Some(x),
{
    let s = Seq::<FindingSaid>::empty();
    let s1 = s + listed(no_connectivity_at_all_found(c, state));
    lemma_member_step(s, no_connectivity_at_all_found(c, state), x);
    let s2 = s1 + listed(broken_upstream_ipv6_found(c, state));
    lemma_member_step(s1, broken_upstream_ipv6_found(c, state), x);
    let s3 = s2 + listed(ipv6_configured_no_route_found(c, state));
    lemma_member_step(s2, ipv6_configured_no_route_found(c, state), x);
    let s4 = s3 + listed(ipv6_disabled_by_sysctl_found(c, state));
    lemma_member_step(s3, ipv6_disabled_by_sysctl_found(c, state), x);
    let s5 = s4 + listed(gateway_unreachable_found(c, state));
    lemma_member_step(s4, gateway_unreachable_found(c, state), x);
    let s6 = s5 + listed(dns_broken_transport_ok_found(c, state));
    lemma_member_step(s5, dns_broken_transport_ok_found(c, state), x);
    let s7 = s6 + listed(private_dns_blocking_found(c, state));
    lemma_member_step(s6, private_dns_blocking_found(c, state), x);
    let s8 = s7 + listed(captive_portal_found(c, state));
    lemma_member_step(s7, captive_portal_found(c, state), x);
    let s9 = s8 + listed(validated_but_broken_found(c, state));
    lemma_member_step(s8, validated_but_broken_found(c, state), x);
    let s10 = s9 + listed(framework_kernel_disagreement_found(c, state));
    lemma_member_step(s9, framework_kernel_disagreement_found(c, state), x);
    let s11 = s10 + listed(vpn_leak_found(c, state));
    lemma_member_step(s10, vpn_leak_found(c, state), x);
    let s12 = s11 + listed(vpn_ipv6_blackhole_found(c, state));
    lemma_member_step(s11, vpn_ipv6_blackhole_found(c, state), x);
    let s13 = s12 + listed(mtu_blackhole_found(c, state));
    lemma_member_step(s12, mtu_blackhole_found(c, state), x);
    let s14 = s13 + listed(nat64_without_clat_found(c, state));
    lemma_member_step(s13, nat64_without_clat_found(c, state), x);
    let s15 = s14 + listed(firewall_blocking_uid_found(c, state));
    lemma_member_step(s14, firewall_blocking_uid_found(c, state), x);
    let s16 = s15 + listed(sockets_stuck_syn_sent_found(c, state));
    lemma_member_step(s15, sockets_stuck_syn_sent_found(c, state), x);
    let s17 = s16 + listed(sockets_stuck_close_wait_found(c, state));
    lemma_member_step(s16, sockets_stuck_close_wait_found(c, state), x);
    let s18 = s17 + listed(multiple_default_routes_found(c, state));
    lemma_member_step(s17, multiple_default_routes_found(c, state), x);
    let s19 = s18 + listed(metered_restriction_found(c, state));
    lemma_member_step(s18, metered_restriction_found(c, state), x);
    assert(all_found(c, state) =~= s19);
}

/// Whether the words of the check with a key speak of competition.
pub open spec fn says_competing(c: Seq<Check>, key: Seq<char>) -> bool {
    exists|i: int| #[trigger] is_last(c, i, key) && occurs_in(c[i].detail@, "competing"@)
}

proof fn lemma_no_connectivity_at_all_reported(r: Seq<Finding>, c: Seq<Check>, state: DiagState)
    requires
        evaluated(r, c, state),
    ensures
        reported(r, FindingId::NoConnectivityAtAll) <==> no_connectivity_at_all_found(c, state) is Some,
{
    let id = FindingId::NoConnectivityAtAll;
    lemma_reported(r, c, state, id);
    let s = all_found(c, state);
    if no_connectivity_at_all_found(c, state) is Some {
        let x = no_connectivity_at_all_found(c, state)->0;
        lemma_found_is_listed(c, state, x);
        let k = s.index_of(x);
        assert(s[k].id == id);
    }
    if holds(s, id) {
        let k = choose|k: int| 0 <= k < s.len() && (#[trigger] s[k]).id == id;
        assert(s.contains(s[k]));
        lemma_member(c, state, s[k]);
    }
}

proof fn lemma_broken_upstream_ipv6_reported(r: Seq<Finding>, c: Seq<Check>, state: DiagState)
    requires
        evaluated(r, c, state),
    ensures
        reported(r, FindingId::BrokenUpstreamIpv6) <==> broken_upstream_ipv6_found(c, state) is Some,
{
    let id = FindingId::BrokenUpstreamIpv6;
    lemma_reported(r, c, state, id);
    let s = all_found(c, state);
    if broken_upstream_ipv6_found(c, state) is Some {
        let x = broken_upstream_ipv6_found(c, state)->0;
        lemma_found_is_listed(c, state, x);
        let k = s.index_of(x);
        assert(s[k].id == id);
    }
    if holds(s, id) {
        let k = choose|k: int| 0 <= k < s.len() && (#[trigger] s[k]).id == id;
        assert(s.contains(s[k]));
        lemma_member(c, state, s[k]);
    }
}

proof fn lemma_ipv6_configured_no_route_reported(r: Seq<Finding>, c: Seq<Check>, state: DiagState)
    requires
        evaluated(r, c, state),
    ensures
        reported(r, FindingId::Ipv6ConfiguredNoRoute) <==> ipv6_configured_no_route_found(c, state) is Some,
{
    let id = FindingId::Ipv6ConfiguredNoRoute;
    lemma_reported(r, c, state, id);
    let s = all_found(c, state);
    if ipv6_configured_no_route_found(c, state) is Some {
        let x = ipv6_configured_no_route_found(c, state)->0;
        lemma_found_is_listed(c, state, x);
        let k = s.index_of(x);
        assert(s[k].id == id);
    }
    if holds(s, id) {
        let k = choose|k: int| 0 <= k < s.len() && (#[trigger] s[k]).id == id;
        assert(s.contains(s[k]));
        lemma_member(c, state, s[k]);
    }
}

proof fn lemma_ipv6_disabled_by_sysctl_reported(r: Seq<Finding>, c: Seq<Check>, state: DiagState)
    requires
        evaluated(r, c, state),
    ensures
        reported(r, FindingId::Ipv6DisabledBySysctl) <==> ipv6_disabled_by_sysctl_found(c, state) is Some,
{
    let id = FindingId::Ipv6DisabledBySysctl;
    lemma_reported(r, c, state, id);
    let s = all_found(c, state);
    if ipv6_disabled_by_sysctl_found(c, state) is Some {
        let x = ipv6_disabled_by_sysctl_found(c, state)->0;
        lemma_found_is_listed(c, state, x);
        let k = s.index_of(x);
        assert(s[k].id == id);
    }
    if holds(s, id) {
        let k = choose|k: int| 0 <= k < s.len() && (#[trigger] s[k]).id == id;
        assert(s.contains(s[k]));
        lemma_member(c, state, s[k]);
    }
}

proof fn lemma_gateway_unreachable_reported(r: Seq<Finding>, c: Seq<Check>, state: DiagState)
    requires
        evaluated(r, c, state),
    ensures
        reported(r, FindingId::GatewayUnreachable) <==> gateway_unreachable_found(c, state) is Some,
{
    let id = FindingId::GatewayUnreachable;
    lemma_reported(r, c, state, id);
    let s = all_found(c, state);
    if gateway_unreachable_found(c, state) is Some {
        let x = gateway_unreachable_found(c, state)->0;
        lemma_found_is_listed(c, state, x);
        let k = s.index_of(x);
        assert(s[k].id == id);
    }
    if holds(s, id) {
        let k = choose|k: int| 0 <= k < s.len() && (#[trigger] s[k]).id == id;
        assert(s.contains(s[k]));
        lemma_member(c, state, s[k]);
    }
}

proof fn lemma_dns_broken_transport_ok_reported(r: Seq<Finding>, c: Seq<Check>, state: DiagState)
    requires
        evaluated(r, c, state),
    ensures
        reported(r, FindingId::DnsBrokenTransportOk) <==> dns_broken_transport_ok_found(c, state) is Some,
{
    let id = FindingId::DnsBrokenTransportOk;
    lemma_reported(r, c, state, id);
    let s = all_found(c, state);
    if dns_broken_transport_ok_found(c, state) is Some {
        let x = dns_broken_transport_ok_found(c, state)->0;
        lemma_found_is_listed(c, state, x);
        let k = s.index_of(x);
        assert(s[k].id == id);
    }
    if holds(s, id) {
        let k = choose|k: int| 0 <= k < s.len() && (#[trigger] s[k]).id == id;
        assert(s.contains(s[k]));
        lemma_member(c, state, s[k]);
    }
}

proof fn lemma_private_dns_blocking_reported(r: Seq<Finding>, c: Seq<Check>, state: DiagState)
    requires
        evaluated(r, c, state),
    ensures
        reported(r, FindingId::PrivateDnsBlocking) <==> private_dns_blocking_found(c, state) is Some,
{
    let id = FindingId::PrivateDnsBlocking;
    lemma_reported(r, c, state, id);
    let s = all_found(c, state);
    if private_dns_blocking_found(c, state) is Some {
        let x = private_dns_blocking_found(c, state)->0;
        lemma_found_is_listed(c, state, x);
        let k = s.index_of(x);
        assert(s[k].id == id);
    }
    if holds(s, id) {
        let k = choose|k: int| 0 <= k < s.len() && (#[trigger] s[k]).id == id;
        assert(s.contains(s[k]));
        lemma_member(c, state, s[k]);
    }
}

proof fn lemma_captive_portal_reported(r: Seq<Finding>, c: Seq<Check>, state: DiagState)
    requires
        evaluated(r, c, state),
    ensures
        reported(r, FindingId::CaptivePortal) <==> captive_portal_found(c, state) is Some,
{
    let id = FindingId::CaptivePortal;
    lemma_reported(r, c, state, id);
    let s = all_found(c, state);
    if captive_portal_found(c, state) is Some {
        let x = captive_portal_found(c, state)->0;
        lemma_found_is_listed(c, state, x);
        let k = s.index_of(x);
        assert(s[k].id == id);
    }
    if holds(s, id) {
        let k = choose|k: int| 0 <= k < s.len() && (#[trigger] s[k]).id == id;
        assert(s.contains(s[k]));
        lemma_member(c, state, s[k]);
    }
}

proof fn lemma_validated_but_broken_reported(r: Seq<Finding>, c: Seq<Check>, state: DiagState)
    requires
        evaluated(r, c, state),
    ensures
        reported(r, FindingId::ValidatedButBroken) <==> validated_but_broken_found(c, state) is Some,
{
    let id = FindingId::ValidatedButBroken;
    lemma_reported(r, c, state, id);
    let s = all_found(c, state);
    if validated_but_broken_found(c, state) is Some {
        let x = validated_but_broken_found(c, state)->0;
        lemma_found_is_listed(c, state, x);
        let k = s.index_of(x);
        assert(s[k].id == id);
    }
    if holds(s, id) {
        let k = choose|k: int| 0 <= k < s.len() && (#[trigger] s[k]).id == id;
        assert(s.contains(s[k]));
        lemma_member(c, state, s[k]);
    }
}

proof fn lemma_framework_kernel_disagreement_reported(r: Seq<Finding>, c: Seq<Check>, state: DiagState)
    requires
        evaluated(r, c, state),
    ensures
        reported(r, FindingId::FrameworkKernelDisagreement) <==> framework_kernel_disagreement_found(c, state) is Some,
{
    let id = FindingId::FrameworkKernelDisagreement;
    lemma_reported(r, c, state, id);
    let s = all_found(c, state);
    if framework_kernel_disagreement_found(c, state) is Some {
        let x = framework_kernel_disagreement_found(c, state)->0;
        lemma_found_is_listed(c, state, x);
        let k = s.index_of(x);
        assert(s[k].id == id);
    }
    if holds(s, id) {
        let k = choose|k: int| 0 <= k < s.len() && (#[trigger] s[k]).id == id;
        assert(s.contains(s[k]));
        lemma_member(c, state, s[k]);
    }
}

proof fn lemma_vpn_leak_reported(r: Seq<Finding>, c: Seq<Check>, state: DiagState)
    requires
        evaluated(r, c, state),
    ensures
        reported(r, FindingId::VpnLeak) <==> vpn_leak_found(c, state) is Some,
{
    let id = FindingId::VpnLeak;
    lemma_reported(r, c, state, id);
    let s = all_found(c, state);
    if vpn_leak_found(c, state) is Some {
        let x = vpn_leak_found(c, state)->0;
        lemma_found_is_listed(c, state, x);
        let k = s.index_of(x);
        assert(s[k].id == id);
    }
    if holds(s, id) {
        let k = choose|k: int| 0 <= k < s.len() && (#[trigger] s[k]).id == id;
        assert(s.contains(s[k]));
        lemma_member(c, state, s[k]);
    }
}

proof fn lemma_vpn_ipv6_blackhole_reported(r: Seq<Finding>, c: Seq<Check>, state: DiagState)
    requires
        evaluated(r, c, state),
    ensures
        reported(r, FindingId::VpnBlackhole) <==> vpn_ipv6_blackhole_found(c, state) is Some,
{
    let id = FindingId::VpnBlackhole;
    lemma_reported(r, c, state, id);
    let s = all_found(c, state);
    if vpn_ipv6_blackhole_found(c, state) is Some {
        let x = vpn_ipv6_blackhole_found(c, state)->0;
        lemma_found_is_listed(c, state, x);
        let k = s.index_of(x);
        assert(s[k].id == id);
    }
    if holds(s, id) {
        let k = choose|k: int| 0 <= k < s.len() && (#[trigger] s[k]).id == id;
        assert(s.contains(s[k]));
        lemma_member(c, state, s[k]);
    }
}

proof fn lemma_mtu_blackhole_reported(r: Seq<Finding>, c: Seq<Check>, state: DiagState)
    requires
        evaluated(r, c, state),
    ensures
        reported(r, FindingId::MtuBlackhole) <==> mtu_blackhole_found(c, state) is Some,
{
    let id = FindingId::MtuBlackhole;
    lemma_reported(r, c, state, id);
    let s = all_found(c, state);
    if mtu_blackhole_found(c, state) is Some {
        let x = mtu_blackhole_found(c, state)->0;
        lemma_found_is_listed(c, state, x);
        let k = s.index_of(x);
        assert(s[k].id == id);
    }
    if holds(s, id) {
        let k = choose|k: int| 0 <= k < s.len() && (#[trigger] s[k]).id == id;
        assert(s.contains(s[k]));
        lemma_member(c, state, s[k]);
    }
}

proof fn lemma_nat64_without_clat_reported(r: Seq<Finding>, c: Seq<Check>, state: DiagState)
    requires
        evaluated(r, c, state),
    ensures
        reported(r, FindingId::Nat64WithoutClat) <==> nat64_without_clat_found(c, state) is Some,
{
    let id = FindingId::Nat64WithoutClat;
    lemma_reported(r, c, state, id);
    let s = all_found(c, state);
    if nat64_without_clat_found(c, state) is Some {
        let x = nat64_without_clat_found(c, state)->0;
        lemma_found_is_listed(c, state, x);
        let k = s.index_of(x);
        assert(s[k].id == id);
    }
    if holds(s, id) {
        let k = choose|k: int| 0 <= k < s.len() && (#[trigger] s[k]).id == id;
        assert(s.contains(s[k]));
        lemma_member(c, state, s[k]);
    }
}

proof fn lemma_firewall_blocking_uid_reported(r: Seq<Finding>, c: Seq<Check>, state: DiagState)
    requires
        evaluated(r, c, state),
    ensures
        reported(r, FindingId::FirewallBlockingUid) <==> firewall_blocking_uid_found(c, state) is Some,
{
    let id = FindingId::FirewallBlockingUid;
    lemma_reported(r, c, state, id);
    let s = all_found(c, state);
    if firewall_blocking_uid_found(c, state) is Some {
        let x = firewall_blocking_uid_found(c, state)->0;
        lemma_found_is_listed(c, state, x);
        let k = s.index_of(x);
        assert(s[k].id == id);
    }
    if holds(s, id) {
        let k = choose|k: int| 0 <= k < s.len() && (#[trigger] s[k]).id == id;
        assert(s.contains(s[k]));
        lemma_member(c, state, s[k]);
    }
}

proof fn lemma_sockets_stuck_syn_sent_reported(r: Seq<Finding>, c: Seq<Check>, state: DiagState)
    requires
        evaluated(r, c, state),
    ensures
        reported(r, FindingId::SocketsStuckSynSent) <==> sockets_stuck_syn_sent_found(c, state) is Some,
{
    let id = FindingId::SocketsStuckSynSent;
    lemma_reported(r, c, state, id);
    let s = all_found(c, state);
    if sockets_stuck_syn_sent_found(c, state) is Some {
        let x = sockets_stuck_syn_sent_found(c, state)->0;
        lemma_found_is_listed(c, state, x);
        let k = s.index_of(x);
        assert(s[k].id == id);
    }
    if holds(s, id) {
        let k = choose|k: int| 0 <= k < s.len() && (#[trigger] s[k]).id == id;
        assert(s.contains(s[k]));
        lemma_member(c, state, s[k]);
    }
}

proof fn lemma_sockets_stuck_close_wait_reported(r: Seq<Finding>, c: Seq<Check>, state: DiagState)
    requires
        evaluated(r, c, state),
    ensures
        reported(r, FindingId::SocketsStuckCloseWait) <==> sockets_stuck_close_wait_found(c, state) is Some,
{
    let id = FindingId::SocketsStuckCloseWait;
    lemma_reported(r, c, state, id);
    let s = all_found(c, state);
    if sockets_stuck_close_wait_found(c, state) is Some {
        let x = sockets_stuck_close_wait_found(c, state)->0;
        lemma_found_is_listed(c, state, x);
        let k = s.index_of(x);
        assert(s[k].id == id);
    }
    if holds(s, id) {
        let k = choose|k: int| 0 <= k < s.len() && (#[trigger] s[k]).id == id;
        assert(s.contains(s[k]));
        lemma_member(c, state, s[k]);
    }
}

proof fn lemma_multiple_default_routes_reported(r: Seq<Finding>, c: Seq<Check>, state: DiagState)
    requires
        evaluated(r, c, state),
    ensures
        reported(r, FindingId::MultipleDefaultRoutes) <==> multiple_default_routes_found(c, state) is Some,
{
    let id = FindingId::MultipleDefaultRoutes;
    lemma_reported(r, c, state, id);
    let s = all_found(c, state);
    if multiple_default_routes_found(c, state) is Some {
        let x = multiple_default_routes_found(c, state)->0;
        lemma_found_is_listed(c, state, x);
        let k = s.index_of(x);
        assert(s[k].id == id);
    }
    if holds(s, id) {
        let k = choose|k: int| 0 <= k < s.len() && (#[trigger] s[k]).id == id;
        assert(s.contains(s[k]));
        lemma_member(c, state, s[k]);
    }
}

proof fn lemma_metered_restriction_reported(r: Seq<Finding>, c: Seq<Check>, state: DiagState)
    requires
        evaluated(r, c, state),
    ensures
        reported(r, FindingId::MeteredRestriction) <==> metered_restriction_found(c, state) is Some,
{
    let id = FindingId::MeteredRestriction;
    lemma_reported(r, c, state, id);
    let s = all_found(c, state);
    if metered_restriction_found(c, state) is Some {
        let x = metered_restriction_found(c, state)->0;
        lemma_found_is_listed(c, state, x);
        let k = s.index_of(x);
        assert(s[k].id == id);
    }
    if holds(s, id) {
        let k = choose|k: int| 0 <= k < s.len() && (#[trigger] s[k]).id == id;
        assert(s.contains(s[k]));
        lemma_member(c, state, s[k]);
    }
}

/// Neither family connects, nor does any name resolve: no connectivity at all. That
/// both families were merely skipped for want of an interface is another problem.
pub proof fn law_when_no_connectivity_at_all(r: Seq<Finding>, c: Seq<Check>, state: DiagState)
    requires
        evaluated(r, c, state),
    ensures
        reported(r, FindingId::NoConnectivityAtAll) <==> ((came_out(c, "tcp.v4"@, CheckStatus::Fail) || came_out(c, "tcp.v4"@, CheckStatus::Skip)) && (came_out(c, "tcp.v6"@, CheckStatus::Fail) || came_out(c, "tcp.v6"@, CheckStatus::Skip)) && came_out(c, "dns.a"@, CheckStatus::Fail) && came_out(c, "dns.aaaa"@, CheckStatus::Fail) && !(came_out(c, "tcp.v4"@, CheckStatus::Skip) && came_out(c, "tcp.v6"@, CheckStatus::Skip) && came_out(c, "iface.active"@, CheckStatus::Fail))),
{
    lemma_no_connectivity_at_all_reported(r, c, state);
    law_the_last_check_of_a_key_counts(c, "tcp.v4"@, ""@);
    law_the_last_check_of_a_key_counts(c, "tcp.v6"@, ""@);
    law_the_last_check_of_a_key_counts(c, "dns.a"@, ""@);
    law_the_last_check_of_a_key_counts(c, "dns.aaaa"@, ""@);
    law_the_last_check_of_a_key_counts(c, "iface.active"@, ""@);
}

/// IPv6 that is configured and does not connect, where IPv4 does, is broken upstream.
pub proof fn law_when_broken_upstream_ipv6(r: Seq<Finding>, c: Seq<Check>, state: DiagState)
    requires
        evaluated(r, c, state),
    ensures
        reported(r, FindingId::BrokenUpstreamIpv6) <==> (came_out(c, "addr.v6"@, CheckStatus::Pass) && came_out(c, "route.v6.default"@, CheckStatus::Pass) && came_out(c, "tcp.v6"@, CheckStatus::Fail) && came_out(c, "tcp.v4"@, CheckStatus::Pass)),
{
    lemma_broken_upstream_ipv6_reported(r, c, state);
    law_the_last_check_of_a_key_counts(c, "addr.v6"@, ""@);
    law_the_last_check_of_a_key_counts(c, "route.v6.default"@, ""@);
    law_the_last_check_of_a_key_counts(c, "tcp.v6"@, ""@);
    law_the_last_check_of_a_key_counts(c, "tcp.v4"@, ""@);
}

/// An IPv6 address without a default route is reported, and nothing else is as that.
pub proof fn law_when_ipv6_configured_no_route(r: Seq<Finding>, c: Seq<Check>, state: DiagState)
    requires
        evaluated(r, c, state),
    ensures
        reported(r, FindingId::Ipv6ConfiguredNoRoute) <==> (came_out(c, "addr.v6"@, CheckStatus::Pass) && came_out(c, "route.v6.default"@, CheckStatus::Fail)),
{
    lemma_ipv6_configured_no_route_reported(r, c, state);
    law_the_last_check_of_a_key_counts(c, "addr.v6"@, ""@);
    law_the_last_check_of_a_key_counts(c, "route.v6.default"@, ""@);
}

/// IPv6 is called switched off exactly where the address check shows the setting.
pub proof fn law_when_ipv6_disabled_by_sysctl(r: Seq<Finding>, c: Seq<Check>, state: DiagState)
    requires
        evaluated(r, c, state),
    ensures
        reported(r, FindingId::Ipv6DisabledBySysctl) <==> (shows(c, "addr.v6"@, "disable_ipv6"@, "true"@)),
{
    lemma_ipv6_disabled_by_sysctl_reported(r, c, state);
    law_the_last_check_of_a_key_counts(c, "addr.v6"@, "disable_ipv6"@);
}

/// A gateway is called unreachable exactly where its check failed, in either family.
pub proof fn law_when_gateway_unreachable(r: Seq<Finding>, c: Seq<Check>, state: DiagState)
    requires
        evaluated(r, c, state),
    ensures
        reported(r, FindingId::GatewayUnreachable) <==> (came_out(c, "gateway.v4"@, CheckStatus::Fail) || came_out(c, "gateway.v6"@, CheckStatus::Fail)),
{
    lemma_gateway_unreachable_reported(r, c, state);
    law_the_last_check_of_a_key_counts(c, "gateway.v4"@, ""@);
    law_the_last_check_of_a_key_counts(c, "gateway.v6"@, ""@);
}

/// DNS is called broken exactly where no lookup succeeds while a connection does.
pub proof fn law_when_dns_broken_transport_ok(r: Seq<Finding>, c: Seq<Check>, state: DiagState)
    requires
        evaluated(r, c, state),
    ensures
        reported(r, FindingId::DnsBrokenTransportOk) <==> (came_out(c, "dns.a"@, CheckStatus::Fail) && came_out(c, "dns.aaaa"@, CheckStatus::Fail) && (came_out(c, "tcp.v4"@, CheckStatus::Pass) || came_out(c, "tcp.v6"@, CheckStatus::Pass))),
{
    lemma_dns_broken_transport_ok_reported(r, c, state);
    law_the_last_check_of_a_key_counts(c, "dns.a"@, ""@);
    law_the_last_check_of_a_key_counts(c, "dns.aaaa"@, ""@);
    law_the_last_check_of_a_key_counts(c, "tcp.v4"@, ""@);
    law_the_last_check_of_a_key_counts(c, "tcp.v6"@, ""@);
}

/// Private DNS is called blocking exactly where its check failed: one that passed,
/// warned or was skipped never is.
pub proof fn law_when_private_dns_blocking(r: Seq<Finding>, c: Seq<Check>, state: DiagState)
    requires
        evaluated(r, c, state),
    ensures
        reported(r, FindingId::PrivateDnsBlocking) <==> (came_out(c, "dns.private"@, CheckStatus::Fail)),
{
    lemma_private_dns_blocking_reported(r, c, state);
    law_the_last_check_of_a_key_counts(c, "dns.private"@, ""@);
}

/// A captive portal is reported exactly where its check failed.
pub proof fn law_when_captive_portal(r: Seq<Finding>, c: Seq<Check>, state: DiagState)
    requires
        evaluated(r, c, state),
    ensures
        reported(r, FindingId::CaptivePortal) <==> (came_out(c, "captive.portal"@, CheckStatus::Fail)),
{
    lemma_captive_portal_reported(r, c, state);
    law_the_last_check_of_a_key_counts(c, "captive.portal"@, ""@);
}

/// A network is called validated but broken exactly where Android calls it validated
/// and neither family connects, or no lookup succeeds.
pub proof fn law_when_validated_but_broken(r: Seq<Finding>, c: Seq<Check>, state: DiagState)
    requires
        evaluated(r, c, state),
    ensures
        reported(r, FindingId::ValidatedButBroken) <==> ((state.network matches Some(n) && n.capabilities matches Some(caps) && caps.validated) && ((came_out(c, "tcp.v4"@, CheckStatus::Fail) && came_out(c, "tcp.v6"@, CheckStatus::Fail)) || (came_out(c, "dns.a"@, CheckStatus::Fail) && came_out(c, "dns.aaaa"@, CheckStatus::Fail)))),
{
    lemma_validated_but_broken_reported(r, c, state);
    law_the_last_check_of_a_key_counts(c, "tcp.v4"@, ""@);
    law_the_last_check_of_a_key_counts(c, "tcp.v6"@, ""@);
    law_the_last_check_of_a_key_counts(c, "dns.a"@, ""@);
    law_the_last_check_of_a_key_counts(c, "dns.aaaa"@, ""@);
}

/// Framework and kernel are said to disagree exactly where that check failed.
pub proof fn law_when_framework_kernel_disagreement(r: Seq<Finding>, c: Seq<Check>, state: DiagState)
    requires
        evaluated(r, c, state),
    ensures
        reported(r, FindingId::FrameworkKernelDisagreement) <==> (came_out(c, "framework.kernel"@, CheckStatus::Fail)),
{
    lemma_framework_kernel_disagreement_reported(r, c, state);
    law_the_last_check_of_a_key_counts(c, "framework.kernel"@, ""@);
}

/// Traffic is said to bypass a VPN exactly where there is a tunnel and it is not the
/// way out.
pub proof fn law_when_vpn_leak(r: Seq<Finding>, c: Seq<Check>, state: DiagState)
    requires
        evaluated(r, c, state),
    ensures
        reported(r, FindingId::VpnLeak) <==> (shows(c, "vpn.routing"@, "egress_is_vpn"@, "false"@) && exists|v: Seq<char>| v.len() > 0 && #[trigger] shows(c, "vpn.routing"@, "vpn_interfaces"@, v)),
{
    lemma_vpn_leak_reported(r, c, state);
    law_the_last_check_of_a_key_counts(c, "vpn.routing"@, "egress_is_vpn"@);
    law_the_last_check_of_a_key_counts(c, "vpn.routing"@, "vpn_interfaces"@);
    reveal_strlit("");
    if evidence_in(c, "vpn.routing"@, "vpn_interfaces"@) is Some {
        let v = evidence_in(c, "vpn.routing"@, "vpn_interfaces"@)->0;
        assert(shows(c, "vpn.routing"@, "vpn_interfaces"@, v));
    }
}

/// A VPN is said to carry no IPv6 exactly where it is the way out and has no route for
/// IPv6.
pub proof fn law_when_vpn_ipv6_blackhole(r: Seq<Finding>, c: Seq<Check>, state: DiagState)
    requires
        evaluated(r, c, state),
    ensures
        reported(r, FindingId::VpnBlackhole) <==> (shows(c, "vpn.routing"@, "vpn_has_ipv6_routes"@, "false"@) && shows(c, "vpn.routing"@, "egress_is_vpn"@, "true"@)),
{
    lemma_vpn_ipv6_blackhole_reported(r, c, state);
    law_the_last_check_of_a_key_counts(c, "vpn.routing"@, "egress_is_vpn"@);
    law_the_last_check_of_a_key_counts(c, "vpn.routing"@, "vpn_has_ipv6_routes"@);
}

/// An MTU black hole is suspected exactly where TCP connects, TLS does not, and no
/// full-size probe got through.
pub proof fn law_when_mtu_blackhole(r: Seq<Finding>, c: Seq<Check>, state: DiagState)
    requires
        evaluated(r, c, state),
    ensures
        reported(r, FindingId::MtuBlackhole) <==> ((came_out(c, "tcp.v4"@, CheckStatus::Pass) || came_out(c, "tcp.v6"@, CheckStatus::Pass)) && came_out(c, "tls.handshake"@, CheckStatus::Fail) && !came_out(c, "mtu.pmtu"@, CheckStatus::Pass)),
{
    lemma_mtu_blackhole_reported(r, c, state);
    law_the_last_check_of_a_key_counts(c, "tcp.v4"@, ""@);
    law_the_last_check_of_a_key_counts(c, "tcp.v6"@, ""@);
    law_the_last_check_of_a_key_counts(c, "tls.handshake"@, ""@);
    law_the_last_check_of_a_key_counts(c, "mtu.pmtu"@, ""@);
}

/// NAT64 without 464XLAT is reported exactly where that check warned, no clat runs, and
/// there is no IPv4 address.
pub proof fn law_when_nat64_without_clat(r: Seq<Finding>, c: Seq<Check>, state: DiagState)
    requires
        evaluated(r, c, state),
    ensures
        reported(r, FindingId::Nat64WithoutClat) <==> (came_out(c, "nat64.dns64"@, CheckStatus::Warn) && !state.clat.active && !came_out(c, "addr.v4"@, CheckStatus::Pass)),
{
    lemma_nat64_without_clat_reported(r, c, state);
    law_the_last_check_of_a_key_counts(c, "nat64.dns64"@, ""@);
    law_the_last_check_of_a_key_counts(c, "addr.v4"@, ""@);
}

/// An app is called blocked exactly where the check of the firewall failed.
pub proof fn law_when_firewall_blocking_uid(r: Seq<Finding>, c: Seq<Check>, state: DiagState)
    requires
        evaluated(r, c, state),
    ensures
        reported(r, FindingId::FirewallBlockingUid) <==> (came_out(c, "firewall.anomaly"@, CheckStatus::Fail)),
{
    lemma_firewall_blocking_uid_reported(r, c, state);
    law_the_last_check_of_a_key_counts(c, "firewall.anomaly"@, ""@);
}

/// Connections are said to pile up in SYN_SENT exactly where the check of the sockets
/// failed and shows how many.
pub proof fn law_when_sockets_stuck_syn_sent(r: Seq<Finding>, c: Seq<Check>, state: DiagState)
    requires
        evaluated(r, c, state),
    ensures
        reported(r, FindingId::SocketsStuckSynSent) <==> (came_out(c, "sockets.states"@, CheckStatus::Fail) && exists|v: Seq<char>| #[trigger] shows(c, "sockets.states"@, "syn_sent"@, v)),
{
    lemma_sockets_stuck_syn_sent_reported(r, c, state);
    law_the_last_check_of_a_key_counts(c, "sockets.states"@, "syn_sent"@);
    if evidence_in(c, "sockets.states"@, "syn_sent"@) is Some {
        let v = evidence_in(c, "sockets.states"@, "syn_sent"@)->0;
        assert(shows(c, "sockets.states"@, "syn_sent"@, v));
    }
}

/// Sockets are said to pile up in CLOSE_WAIT exactly where the check of the sockets
/// warned and shows twenty of them or more.
pub proof fn law_when_sockets_stuck_close_wait(r: Seq<Finding>, c: Seq<Check>, state: DiagState)
    requires
        evaluated(r, c, state),
    ensures
        reported(r, FindingId::SocketsStuckCloseWait) <==> (came_out(c, "sockets.states"@, CheckStatus::Warn) && exists|v: Seq<char>| #[trigger] shows(c, "sockets.states"@, "close_wait"@, v) && (unsigned(v, u32::MAX as nat) matches Some(n) && n >= 20)),
{
    lemma_sockets_stuck_close_wait_reported(r, c, state);
    law_the_last_check_of_a_key_counts(c, "sockets.states"@, "close_wait"@);
    if evidence_in(c, "sockets.states"@, "close_wait"@) is Some {
        let v = evidence_in(c, "sockets.states"@, "close_wait"@)->0;
        assert(shows(c, "sockets.states"@, "close_wait"@, v));
    }
}

/// Default routes are said to compete exactly where the check of a family warned of it,
/// IPv4 first.
pub proof fn law_when_multiple_default_routes(r: Seq<Finding>, c: Seq<Check>, state: DiagState)
    requires
        evaluated(r, c, state),
    ensures
        reported(r, FindingId::MultipleDefaultRoutes) <==> (if came_out(c, "route.v4.default"@, CheckStatus::Warn) { says_competing(c, "route.v4.default"@) } else { came_out(c, "route.v6.default"@, CheckStatus::Warn) && says_competing(c, "route.v6.default"@) }),
{
    lemma_multiple_default_routes_reported(r, c, state);
    law_the_last_check_of_a_key_counts(c, "route.v4.default"@, ""@);
    law_the_last_check_of_a_key_counts(c, "route.v6.default"@, ""@);
    lemma_check_in(c, "route.v4.default"@);
    lemma_check_in(c, "route.v6.default"@);
}

/// A network is called metered and restricted exactly where the framework shows it
/// metered and does not call it unrestricted.
pub proof fn law_when_metered_restriction(r: Seq<Finding>, c: Seq<Check>, state: DiagState)
    requires
        evaluated(r, c, state),
    ensures
        reported(r, FindingId::MeteredRestriction) <==> (shows(c, "android.state"@, "metered"@, "true"@) && (state.network matches Some(n) && n.capabilities matches Some(caps) && !caps.not_restricted)),
{
    lemma_metered_restriction_reported(r, c, state);
    law_the_last_check_of_a_key_counts(c, "android.state"@, "metered"@);
}

/// How severe a finding is follows from what it is. A gateway is critical where none
/// answers in either family, and a VPN without IPv6 is no problem where it blocks it.
pub proof fn law_severity_of_findings(r: Seq<Finding>, c: Seq<Check>, state: DiagState, k: int)
    requires
        evaluated(r, c, state),
        0 <= k < r.len(),
    ensures
        (r[k].id == FindingId::NoConnectivityAtAll) ==> r[k].severity == FindingSeverity::Critical,
        (r[k].id == FindingId::BrokenUpstreamIpv6 || r[k].id == FindingId::DnsBrokenTransportOk || r[k].id == FindingId::PrivateDnsBlocking || r[k].id == FindingId::ValidatedButBroken || r[k].id == FindingId::VpnLeak || r[k].id == FindingId::MtuBlackhole || r[k].id == FindingId::FirewallBlockingUid) ==> r[k].severity == FindingSeverity::High,
        (r[k].id == FindingId::Ipv6ConfiguredNoRoute || r[k].id == FindingId::Ipv6DisabledBySysctl || r[k].id == FindingId::CaptivePortal || r[k].id == FindingId::FrameworkKernelDisagreement || r[k].id == FindingId::Nat64WithoutClat || r[k].id == FindingId::SocketsStuckSynSent) ==> r[k].severity == FindingSeverity::Medium,
        (r[k].id == FindingId::SocketsStuckCloseWait || r[k].id == FindingId::MultipleDefaultRoutes) ==> r[k].severity == FindingSeverity::Low,
        (r[k].id == FindingId::MeteredRestriction) ==> r[k].severity == FindingSeverity::Info,
        r[k].id == FindingId::GatewayUnreachable ==> r[k].severity == if came_out(c, "gateway.v4"@, CheckStatus::Fail) && came_out(c, "gateway.v6"@, CheckStatus::Fail) {
            FindingSeverity::Critical
        } else {
            FindingSeverity::High
        },
        r[k].id == FindingId::VpnBlackhole ==> r[k].severity == if shows(c, "vpn.routing"@, "ipv6_blackholed_in_vpn_table"@, "true"@) {
            FindingSeverity::Info
        } else {
            FindingSeverity::Medium
        },
{
    lemma_reported(r, c, state, r[k].id);
    lemma_member(c, state, said_by(r[k]));
    assert(r[k].id == said_by(r[k]).id && r[k].severity == said_by(r[k]).severity);
    law_the_last_check_of_a_key_counts(c, "gateway.v4"@, ""@);
    law_the_last_check_of_a_key_counts(c, "gateway.v6"@, ""@);
    law_the_last_check_of_a_key_counts(c, "vpn.routing"@, "ipv6_blackholed_in_vpn_table"@);
}

/// How sure a finding is grows with what was observed: AAAA records and a gateway that
/// answers make broken IPv6 more certain, and a measured path MTU a black hole.
pub proof fn law_confidence_grows_with_evidence(r: Seq<Finding>, c: Seq<Check>, state: DiagState, k: int)
    requires
        evaluated(r, c, state),
        0 <= k < r.len(),
    ensures
        r[k].id == FindingId::BrokenUpstreamIpv6 ==> {
            let aaaa = came_out(c, "dns.aaaa"@, CheckStatus::Pass);
            let near = came_out(c, "gateway.v6"@, CheckStatus::Pass) || came_out(c, "gateway.v6"@, CheckStatus::Warn);
            &&& aaaa <==> r[k].confidence >= 90
            &&& near <==> r[k].confidence > (if aaaa { 90int } else { 75int })
        },
        r[k].id == FindingId::MtuBlackhole ==> (r[k].confidence > 75 <==> exists|v: Seq<char>| #[trigger] shows(c, "mtu.pmtu"@, "measured_path_mtu"@, v)),
{
    lemma_reported(r, c, state, r[k].id);
    lemma_member(c, state, said_by(r[k]));
    assert(r[k].confidence == said_by(r[k]).confidence && r[k].id == said_by(r[k]).id);
    law_the_last_check_of_a_key_counts(c, "dns.aaaa"@, ""@);
    law_the_last_check_of_a_key_counts(c, "gateway.v6"@, ""@);
    law_the_last_check_of_a_key_counts(c, "mtu.pmtu"@, "measured_path_mtu"@);
    if evidence_in(c, "mtu.pmtu"@, "measured_path_mtu"@) is Some {
        assert(shows(c, "mtu.pmtu"@, "measured_path_mtu"@, evidence_in(c, "mtu.pmtu"@, "measured_path_mtu"@)->0));
    }
}

/// A finding that rests on one check begins with the words of that check.
pub proof fn law_findings_quote_their_check(r: Seq<Finding>, c: Seq<Check>, state: DiagState, k: int, i: int, key: Seq<char>)
    requires
        evaluated(r, c, state),
        0 <= k < r.len(),
        is_last(c, i, key),
        (r[k].id == FindingId::PrivateDnsBlocking && key == "dns.private"@)
            || (r[k].id == FindingId::FrameworkKernelDisagreement && key == "framework.kernel"@)
            || (r[k].id == FindingId::Nat64WithoutClat && key == "nat64.dns64"@)
            || (r[k].id == FindingId::FirewallBlockingUid && key == "firewall.anomaly"@),
    ensures
        r[k].interpretation@.len() > c[i].detail@.len(),
        r[k].interpretation@.take(c[i].detail@.len() as int) == c[i].detail@,
{
    lemma_reported(r, c, state, r[k].id);
    lemma_member(c, state, said_by(r[k]));
    assert(r[k].id == said_by(r[k]).id && r[k].interpretation@ == said_by(r[k]).interpretation);
    law_the_last_check_of_a_key_counts(c, key, ""@);
    reveal_strlit("\n\nIn strict mode Android refuses to fall back to plaintext DNS. If the configured DoT server cannot be reached on port 853, name resolution stops completely, while everything that uses literal addresses keeps working. That asymmetry is why this failure is so often misread as \"some apps work\".");
    reveal_strlit("\n\nLinkProperties is what apps see; the kernel's tables are what packets obey. When they diverge, an app can be told it has a route that does not exist, or be handed an address the interface no longer holds. This usually means a network transition was interrupted partway through, and it often resolves itself when the network is next reconfigured.");
    reveal_strlit("\n\nOn an IPv6-only network Android normally starts clatd, which presents a synthetic IPv4 interface so that IPv4-only applications keep working. Without it, anything that uses a hard-coded IPv4 literal or a raw IPv4 socket has no path out, while everything that resolves names keeps working through DNS64. Apps failing selectively, with no obvious pattern, is what that looks like from the outside.");
    reveal_strlit("\n\nAndroid enforces per-app network restrictions in eBPF rather than in netfilter, so this does not appear in any iptables dump. Data Saver, background restriction, battery optimisation and OEM-specific power managers all write into the same map. The app sees ordinary connection failures with no indication that policy, rather than the network, is the cause.");
    assert(r[k].interpretation@.take(c[i].detail@.len() as int) =~= c[i].detail@);
}

} // verus!
