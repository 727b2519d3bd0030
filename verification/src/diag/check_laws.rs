//! When each check passes, warns, fails or is skipped, told by what it looks at.
use vstd::prelude::*;

use crate::collect::links::is_global;
use crate::collect::routes::leaves_by;
use crate::collect::sockets::count;
use crate::diag::check::Said;
use crate::diag::checks::{
    active_interface_said, address_said, agreement_said, android_state_said, captive_portal_said,
    default_route_said, firewall_said, has_mark, interface_complaints, is_default_in,
    is_default_through, is_framework_default, is_named, is_syn_sent_v6, is_tentative_v6,
    is_v6_blackhole, is_vpn_up, missing_addresses, names_text, prefix_texts, route_complaints,
    route_lookup_said, rule_coverage_said, socket_states_said, to_loopback, vpn_said,
    FirewallReading,
};
use crate::diag::state::DiagState;
use crate::proto::{
    AddressScope, DiagnoseRequest, Interface, IpFamily, IpPrefix, LinkAddress, LinkKind,
    LinkPropertiesInfo, Route, RouteLookup, RouteType, Socket, TcpState, Transport,
};
use crate::seq_laws::{law_nothing_is_found, law_the_first_is_found};
use crate::seqs::{any, lemma_filter_any};
use crate::text::{dec, join};

verus! {

/// Whether a check's evidence holds a value under a name.
pub open spec fn holds(s: Said, name: Seq<char>, value: Seq<char>) -> bool {
    s.evidence.dom().contains(name) && s.evidence[name] == value
}

/// What a yes or no reads as.
pub open spec fn reads(b: bool) -> Seq<char> {
    if b {
        "true"@
    } else {
        "false"@
    }
}

// ---- The framework ----------------------------------------------------------------

/// The framework's state passes exactly where the network has internet, is validated,
/// and has neither a captive portal nor partial connectivity. It fails where there is
/// no network, or one that does not claim the internet; it is skipped where the app
/// said nothing.
pub proof fn law_when_the_framework_is_content(state: DiagState, request: DiagnoseRequest)
    ensures
        ({
            let s = android_state_said(state, request);
            &&& s.status is Skip <==> request.android_state is None
            &&& request.android_state is Some && state.network is None ==> s.status is Fail
            &&& request.android_state is Some ==> (state.network matches Some(n) ==> match n.capabilities {
                None => s.status is Fail && holds(s, "metered"@, "true"@),
                Some(c) => {
                    &&& s.status is Fail <==> !c.internet
                    &&& s.status is Pass <==> c.internet && c.validated && !c.captive_portal
                        && !c.partial_connectivity
                    &&& s.status is Warn <==> c.internet && (!c.validated || c.captive_portal
                        || c.partial_connectivity)
                    &&& holds(s, "metered"@, reads(!c.not_metered))
                },
            })
        }),
{
    reveal_strlit("metered");
    reveal_strlit("captive_portal");
    reveal_strlit("is_default");
    reveal_strlit("interface");
    assert("metered"@.len() != "captive_portal"@.len());
    assert("metered"@.len() != "is_default"@.len());
    assert("metered"@.len() != "interface"@.len());
}

/// A captive portal fails its check; a network that claims the internet without being
/// validated is a warning, and every other passes.
pub proof fn law_when_a_portal_is_in_the_way(state: DiagState)
    ensures
        ({
            let s = captive_portal_said(state);
            match state.network {
                None => s.status is Skip,
                Some(n) => match n.capabilities {
                    None => s.status is Pass,
                    Some(c) => {
                        &&& s.status is Fail <==> c.captive_portal
                        &&& s.status is Warn <==> !c.captive_portal && c.internet && !c.validated
                        &&& s.status is Pass <==> !c.captive_portal && (c.validated || !c.internet)
                    },
                },
            }
        }),
{
}

// ---- Interfaces and addresses --------------------------------------------------------

/// The egress interface is IPv4's, or IPv6's where IPv4 has none. It passes where it is
/// up and has a carrier, warns where it has none, and fails where it is down or there is
/// no way out at all.
pub proof fn law_when_the_egress_is_fine(state: DiagState)
    ensures
        ({
            let s = active_interface_said(state);
            let i = if state.egress_v4 is Some {
                state.egress_v4
            } else {
                state.egress_v6
            };
            &&& i is None ==> s.status is Fail
            &&& i matches Some(i) ==> holds(s, "interface"@, i.name@) && match i.flags {
                None => s.status is Fail,
                Some(f) => {
                    &&& s.status is Fail <==> !f.up
                    &&& s.status is Warn <==> f.up && !f.running
                    &&& s.status is Pass <==> f.up && f.running
                },
            }
        }),
{
    reveal_strlit("interface");
    reveal_strlit("index");
    reveal_strlit("mtu");
    reveal_strlit("kind");
    reveal_strlit("oper_state");
    reveal_strlit("egress_v4");
    reveal_strlit("egress_v6");
    assert("interface"@[0] != "egress_v4"@[0] && "interface"@[0] != "egress_v6"@[0]);
    assert("interface"@.len() != "index"@.len() && "interface"@.len() != "mtu"@.len());
    assert("interface"@.len() != "kind"@.len() && "interface"@.len() != "oper_state"@.len());
}

/// The kernel's lookup of a family is told where it found a route without an error, and
/// fails otherwise.
pub proof fn law_when_a_lookup_is_told(state: DiagState)
    ensures
        route_lookup_said(state, IpFamily::V4).status is Info <==> state.lookup_v4.error is None
            && state.lookup_v4.route is Some,
        route_lookup_said(state, IpFamily::V6).status is Info <==> state.lookup_v6.error is None
            && state.lookup_v6.route is Some,
        route_lookup_said(state, IpFamily::V4).status is Fail <==> !(state.lookup_v4.error is None
            && state.lookup_v4.route is Some),
        route_lookup_said(state, IpFamily::V6).status is Fail <==> !(state.lookup_v6.error is None
            && state.lookup_v6.route is Some),
{
}

/// The bytes of an address of an interface.
pub open spec fn bytes_of(a: LinkAddress) -> Seq<u8> {
    match a.prefix {
        Some(p) => match p.address {
            Some(x) => x.addr@,
            None => Seq::empty(),
        },
        None => Seq::empty(),
    }
}

/// Whether an address of so many bytes is of global scope and settled.
pub open spec fn is_settled(a: LinkAddress, size: nat) -> bool {
    &&& bytes_of(a).len() == size
    &&& a.scope == AddressScope::Global
    &&& a.flags matches Some(f) ==> !f.tentative && !f.dadfailed
}

proof fn lemma_global(v: Seq<LinkAddress>, family: IpFamily, size: nat)
    requires
        family is V4 && size == 4 || family is V6 && size == 16,
    ensures
        any(v, is_global(family)) <==> exists|i: int|
            0 <= i < v.len() && is_settled(#[trigger] v[i], size),
{
    let p = is_global(family);
    assert(forall|a: LinkAddress| #[trigger] p(a) == is_settled(a, size));
    if any(v, p) {
        let i = choose|i: int| 0 <= i < v.len() && p(#[trigger] v[i]);
        assert(is_settled(v[i], size));
    }
    if exists|i: int| 0 <= i < v.len() && is_settled(#[trigger] v[i], size) {
        let i = choose|i: int| 0 <= i < v.len() && is_settled(#[trigger] v[i], size);
        assert(p(v[i]));
    }
}

/// Without an interface there are no addresses to check.
pub proof fn law_addresses_need_an_interface(state: DiagState)
    ensures
        address_said(state, IpFamily::V4).status is Skip <==> state.egress_v4 is None
            && state.egress_v6 is None,
        address_said(state, IpFamily::V6).status is Skip <==> state.egress_v4 is None
            && state.egress_v6 is None,
{
}

/// IPv4 has an address exactly where the interface that IPv4 leaves by, or else the one
/// of IPv6, has a settled global one of four bytes; otherwise the check fails.
pub proof fn law_when_ipv4_has_an_address(state: DiagState, i: Interface)
    requires
        state.egress_v4 == Some(i) || state.egress_v4 is None && state.egress_v6 == Some(i),
    ensures
        ({
            let s = address_said(state, IpFamily::V4);
            let v = i.addresses@;
            let settled = exists|k: int| 0 <= k < v.len() && is_settled(#[trigger] v[k], 4);
            &&& s.status is Pass <==> settled
            &&& s.status is Fail <==> !settled
        }),
{
    lemma_global(i.addresses@, IpFamily::V4, 4);
}

/// IPv6 has an address exactly where the interface that IPv6 leaves by, or else the one
/// of IPv4, has a settled global one of sixteen bytes; one that is still being checked
/// for duplicates makes it a warning, and everything else a failure.
pub proof fn law_when_ipv6_has_an_address(state: DiagState, i: Interface)
    requires
        state.egress_v6 == Some(i) || state.egress_v6 is None && state.egress_v4 == Some(i),
    ensures
        ({
            let s = address_said(state, IpFamily::V6);
            let v = i.addresses@;
            let settled = exists|k: int| 0 <= k < v.len() && is_settled(#[trigger] v[k], 16);
            let tentative = exists|k: int| 0 <= k < v.len() && is_unsettled(#[trigger] v[k]);
            &&& s.status is Pass <==> settled
            &&& s.status is Warn <==> !settled && tentative
            &&& s.status is Fail <==> !settled && !tentative
            &&& holds(s, "disable_ipv6"@, reads(i.sysctls matches Some(c) && c.ipv6_disabled))
        }),
{
    reveal_strlit("disable_ipv6");
    reveal_strlit("accept_ra");
    assert("disable_ipv6"@.len() != "accept_ra"@.len());
    let v = i.addresses@;
    lemma_global(v, IpFamily::V6, 16);
    let p = is_tentative_v6();
    assert(forall|a: LinkAddress| #[trigger] p(a) == is_unsettled(a));
    if any(v, p) {
        let k = choose|k: int| 0 <= k < v.len() && p(#[trigger] v[k]);
        assert(is_unsettled(v[k]));
    }
    if exists|k: int| 0 <= k < v.len() && is_unsettled(#[trigger] v[k]) {
        let k = choose|k: int| 0 <= k < v.len() && is_unsettled(#[trigger] v[k]);
        assert(p(v[k]));
    }
}

/// Whether an IPv6 address is still being checked for duplicates.
pub open spec fn is_unsettled(a: LinkAddress) -> bool {
    bytes_of(a).len() == 16 && (a.flags matches Some(f) && f.tentative)
}

// ---- Routes and rules ------------------------------------------------------------------

/// Whether a route is a default route of a family in the table that a lookup chose.
pub open spec fn is_way_out(r: Route, family: IpFamily, lookup: RouteLookup) -> bool {
    r.is_default && r.family == family && (lookup.route matches Some(chosen) && chosen.table == r.table)
}

/// A family's default route is there exactly where the table that the kernel chose has
/// one: one passes, several that compete are a warning, and none is a failure, however
/// many other tables have.
pub proof fn law_when_a_default_route_counts(state: DiagState, family: IpFamily, lookup: RouteLookup)
    requires
        family is V4 && lookup == state.lookup_v4 || family is V6 && lookup == state.lookup_v6,
    ensures
        ({
            let s = default_route_said(state, family);
            let v = state.routes@;
            let some = exists|k: int| 0 <= k < v.len() && is_way_out(#[trigger] v[k], family, lookup);
            let two = exists|j: int, k: int|
                0 <= j < k < v.len() && is_way_out(#[trigger] v[j], family, lookup) && is_way_out(
                    #[trigger] v[k],
                    family,
                    lookup,
                );
            &&& s.status is Fail <==> !some
            &&& s.status is Warn <==> two
            &&& s.status is Pass <==> some && !two
        }),
{
    let p = is_default_in(family, crate::diag::checks::chosen_table(lookup));
    assert(forall|r: Route| #[trigger] p(r) == is_way_out(r, family, lookup));
    lemma_at_least(state.routes@, p);
    let v = state.routes@;
    if any(v, p) {
        let k = choose|k: int| 0 <= k < v.len() && p(#[trigger] v[k]);
        assert(is_way_out(v[k], family, lookup));
    }
    if exists|k: int| 0 <= k < v.len() && is_way_out(#[trigger] v[k], family, lookup) {
        let k = choose|k: int| 0 <= k < v.len() && is_way_out(#[trigger] v[k], family, lookup);
        assert(p(v[k]));
    }
    if v.filter(p).len() > 1 {
        let (j, k) = choose|j: int, k: int| 0 <= j < k < v.len() && p(#[trigger] v[j]) && p(#[trigger] v[k]);
        assert(is_way_out(v[j], family, lookup) && is_way_out(v[k], family, lookup));
    }
    if exists|j: int, k: int|
        0 <= j < k < v.len() && is_way_out(#[trigger] v[j], family, lookup) && is_way_out(
            #[trigger] v[k],
            family,
            lookup,
        ) {
        let (j, k) = choose|j: int, k: int|
            0 <= j < k < v.len() && is_way_out(#[trigger] v[j], family, lookup) && is_way_out(
                #[trigger] v[k],
                family,
                lookup,
            );
        assert(p(v[j]) && p(v[k]));
    }
}

proof fn lemma_at_least<A>(s: Seq<A>, p: spec_fn(A) -> bool)
    ensures
        s.filter(p).len() > 0 <==> any(s, p),
        s.filter(p).len() > 1 <==> exists|j: int, k: int|
            0 <= j < k < s.len() && p(#[trigger] s[j]) && p(#[trigger] s[k]),
    decreases s.len(),
{
    reveal(Seq::filter);
    lemma_filter_any(s, p);
    if s.len() > 0 {
        let t = s.drop_last();
        let last = s.len() - 1;
        lemma_at_least(t, p);
        if s.filter(p).len() > 1 {
            if p(s[last]) {
                let j = choose|j: int| 0 <= j < t.len() && p(#[trigger] t[j]);
                assert(p(s[j]) && p(s[last]));
            } else {
                let (j, k) = choose|j: int, k: int|
                    0 <= j < k < t.len() && p(#[trigger] t[j]) && p(#[trigger] t[k]);
                assert(p(s[j]) && p(s[k]));
            }
        }
        if exists|j: int, k: int| 0 <= j < k < s.len() && p(#[trigger] s[j]) && p(#[trigger] s[k]) {
            let (j, k) = choose|j: int, k: int|
                0 <= j < k < s.len() && p(#[trigger] s[j]) && p(#[trigger] s[k]);
            assert(t[j] == s[j]);
            assert(any(t, p));
            if k < last {
                assert(t[k] == s[k]);
            }
        }
    }
}

/// Rules pass where one selects by mark, warn where there are only others, and fail
/// where there are none.
pub proof fn law_when_rules_are_in_place(state: DiagState)
    ensures
        ({
            let s = rule_coverage_said(state);
            let v = state.rules@;
            let marked = exists|k: int| 0 <= k < v.len() && (#[trigger] v[k]).has_fwmark;
            &&& s.status is Fail <==> v.len() == 0
            &&& s.status is Pass <==> marked
            &&& s.status is Warn <==> v.len() > 0 && !marked
        }),
{
    let v = state.rules@;
    let p = has_mark();
    lemma_filter_any(v, p);
    if exists|k: int| 0 <= k < v.len() && (#[trigger] v[k]).has_fwmark {
        let k = choose|k: int| 0 <= k < v.len() && (#[trigger] v[k]).has_fwmark;
        assert(p(v[k]));
    }
}

// ---- The VPN --------------------------------------------------------------------------

/// Whether an interface is a tunnel of a VPN that is up.
pub open spec fn is_tunnel(i: Interface) -> bool {
    i.kind == LinkKind::VpnTun && (i.flags matches Some(f) && f.up)
}

/// Whether a default route of a family has a hop by an interface.
pub open spec fn leads_into(r: Route, family: IpFamily, index: u32) -> bool {
    r.is_default && r.family == family && exists|h: int|
        0 <= h < r.next_hops@.len() && (#[trigger] r.next_hops@[h]).out_interface_index == index
}

/// Whether a route is a default route of IPv6 in a table that leads nowhere.
pub open spec fn leads_nowhere(r: Route, lookup: RouteLookup) -> bool {
    &&& r.is_default && r.family == IpFamily::V6
    &&& lookup.route matches Some(chosen) && chosen.table == r.table
    &&& r.kind == RouteType::Unreachable || r.kind == RouteType::Blackhole || r.kind
        == RouteType::Prohibit || exists|h: int|
        0 <= h < r.next_hops@.len() && ((#[trigger] r.next_hops@[h]).out_interface_index == 1
            || r.next_hops@[h].out_interface_name@ == "lo"@)
}

/// Without a tunnel, the check of the VPN fails where the framework reports one and is
/// skipped otherwise.
pub proof fn law_when_there_is_no_tunnel(state: DiagState)
    requires
        forall|i: int| 0 <= i < state.interfaces@.len() ==> !is_tunnel(#[trigger] state.interfaces@[i]),
    ensures
        ({
            let s = vpn_said(state);
            let framework = state.network matches Some(n) && n.transports@.contains(Transport::Vpn);
            &&& s.status is Fail <==> framework
            &&& s.status is Skip <==> !framework
            &&& holds(s, "vpn_interfaces"@, ""@)
        }),
{
    let p = is_vpn_up();
    reveal_strlit("vpn_interfaces");
    reveal_strlit("framework_reports_vpn");
    reveal_strlit("");
    assert("vpn_interfaces"@.len() != "framework_reports_vpn"@.len());
    lemma_filter_any(state.interfaces@, p);
    let none = names_text(state.interfaces@.filter(p));
    assert(none =~= Seq::empty());
    assert(join(none, ", "@) =~= ""@);
}

/// With a tunnel, the check of the VPN tells whether this traffic leaves by it, and what
/// becomes of IPv6: it passes where IPv6 goes into the tunnel too, is told where IPv6
/// leads nowhere on purpose, and warns where it may leave outside, as it does where the
/// traffic is routed around the tunnel.
pub proof fn law_when_a_tunnel_is_used(state: DiagState, k: int)
    requires
        0 <= k < state.interfaces@.len(),
        is_tunnel(state.interfaces@[k]),
        forall|i: int| 0 <= i < k ==> !is_tunnel(#[trigger] state.interfaces@[i]),
    ensures
        ({
            let s = vpn_said(state);
            let index = state.interfaces@[k].index;
            let v = state.routes@;
            let through = (state.egress_v4 matches Some(i) && i.index == index) || (
            state.egress_v6 matches Some(i) && i.index == index);
            let v6 = exists|r: int| 0 <= r < v.len() && leads_into(#[trigger] v[r], IpFamily::V6, index);
            let nowhere = exists|r: int| 0 <= r < v.len() && leads_nowhere(#[trigger] v[r], state.lookup_v4);
            &&& s.status is Pass <==> through && v6
            &&& s.status is Info <==> through && !v6 && nowhere
            &&& s.status is Warn <==> !through || !v6 && !nowhere
            &&& holds(s, "egress_is_vpn"@, reads(through))
            &&& holds(s, "vpn_has_ipv6_routes"@, reads(v6))
            &&& holds(s, "ipv6_blackholed_in_vpn_table"@, reads(nowhere))
        }),
{
    let p = is_vpn_up();
    let index = state.interfaces@[k].index;
    let v = state.routes@;
    assert(forall|i: Interface| #[trigger] p(i) == is_tunnel(i));
    assert(p(state.interfaces@[k]));
    law_the_first_is_found(state.interfaces@, p, k);
    lemma_filter_any(state.interfaces@, p);
    lemma_leads_into(v, index);
    lemma_leads_nowhere(v, state.lookup_v4);
    reveal_strlit("egress_is_vpn");
    reveal_strlit("vpn_has_ipv6_routes");
    reveal_strlit("vpn_default_route_v4");
    reveal_strlit("ipv6_blackholed_in_vpn_table");
    reveal_strlit("vpn_table");
    assert("egress_is_vpn"@.len() == 13 && "vpn_has_ipv6_routes"@.len() == 19);
    assert("vpn_default_route_v4"@.len() == 20 && "ipv6_blackholed_in_vpn_table"@.len() == 28);
    assert("vpn_table"@.len() == 9);
}

proof fn lemma_leads_into(v: Seq<Route>, index: u32)
    ensures
        any(v, is_default_through(IpFamily::V6, index)) <==> exists|r: int|
            0 <= r < v.len() && leads_into(#[trigger] v[r], IpFamily::V6, index),
{
    let p = is_default_through(IpFamily::V6, index);
    let q = leaves_by(index);
    assert forall|r: Route| #[trigger] p(r) == leads_into(r, IpFamily::V6, index) by {
        if p(r) {
            let h = choose|h: int| 0 <= h < r.next_hops@.len() && q(#[trigger] r.next_hops@[h]);
            assert(r.next_hops@[h].out_interface_index == index);
        }
        if leads_into(r, IpFamily::V6, index) {
            let h = choose|h: int|
                0 <= h < r.next_hops@.len() && (#[trigger] r.next_hops@[h]).out_interface_index == index;
            assert(q(r.next_hops@[h]));
        }
    }
    if any(v, p) {
        let r = choose|r: int| 0 <= r < v.len() && p(#[trigger] v[r]);
        assert(leads_into(v[r], IpFamily::V6, index));
    }
    if exists|r: int| 0 <= r < v.len() && leads_into(#[trigger] v[r], IpFamily::V6, index) {
        let r = choose|r: int| 0 <= r < v.len() && leads_into(#[trigger] v[r], IpFamily::V6, index);
        assert(p(v[r]));
    }
}

proof fn lemma_leads_nowhere(v: Seq<Route>, lookup: RouteLookup)
    ensures
        any(v, is_v6_blackhole(crate::diag::checks::chosen_table(lookup))) <==> exists|r: int|
            0 <= r < v.len() && leads_nowhere(#[trigger] v[r], lookup),
{
    let p = is_v6_blackhole(crate::diag::checks::chosen_table(lookup));
    let q = to_loopback();
    assert forall|r: Route| #[trigger] p(r) == leads_nowhere(r, lookup) by {
        if any(r.next_hops@, q) {
            let h = choose|h: int| 0 <= h < r.next_hops@.len() && q(#[trigger] r.next_hops@[h]);
            assert(r.next_hops@[h].out_interface_index == 1 || r.next_hops@[h].out_interface_name@
                == "lo"@);
        }
        if exists|h: int|
            0 <= h < r.next_hops@.len() && ((#[trigger] r.next_hops@[h]).out_interface_index == 1
                || r.next_hops@[h].out_interface_name@ == "lo"@) {
            let h = choose|h: int|
                0 <= h < r.next_hops@.len() && ((#[trigger] r.next_hops@[h]).out_interface_index == 1
                    || r.next_hops@[h].out_interface_name@ == "lo"@);
            assert(q(r.next_hops@[h]));
        }
    }
    if any(v, p) {
        let r = choose|r: int| 0 <= r < v.len() && p(#[trigger] v[r]);
        assert(leads_nowhere(v[r], lookup));
    }
    if exists|r: int| 0 <= r < v.len() && leads_nowhere(#[trigger] v[r], lookup) {
        let r = choose|r: int| 0 <= r < v.len() && leads_nowhere(#[trigger] v[r], lookup);
        assert(p(v[r]));
    }
}

// ---- Firewall and sockets ----------------------------------------------------------------

/// The firewall of a uid fails where one of the bits that deny it in any case is set:
/// the penalty box, the lockdown of a VPN and the three that an OEM denies by. It passes where no bit is set, is told where another is, and is skipped
/// where the map could not be read.
pub proof fn law_when_the_firewall_denies(reading: FirewallReading)
    ensures
        reading matches FirewallReading::Uid(u) ==> {
            let s = firewall_said(reading);
            let m = u.raw_match;
            let denies = m & 0x2 != 0 || m & 0x100 != 0 || m & 0x200 != 0 || m & 0x400 != 0 || m & 0x800
                != 0;
            &&& s.status is Skip <==> !u.source_available
            &&& s.status is Fail <==> u.source_available && denies
            &&& s.status is Pass <==> u.source_available && m == 0
            &&& s.status is Info <==> u.source_available && !denies && m != 0
        },
        reading is Surface ==> firewall_said(reading).status is Info,
{
    if let FirewallReading::Uid(u) = reading {
        let m = u.raw_match;
        assert(m & 0xf02 != 0 <==> (m & 0x2 != 0 || m & 0x100 != 0 || m & 0x200 != 0 || m & 0x400 != 0
            || m & 0x800 != 0)) by (bit_vector);
        assert(m == 0 ==> m & 0xf02 == 0) by (bit_vector);
    }
}

/// Sockets fail their check where five or more wait for an answer; where fewer do, twenty
/// that an app does not close, or more than a quarter of the connections that repeat
/// themselves, are a warning.
pub proof fn law_when_sockets_are_stuck(state: DiagState)
    ensures
        ({
            let s = socket_states_said(state);
            let m = state.socket_summary;
            let repeats = m.established > 0 && 4 * m.retransmitting > m.established;
            &&& s.status is Skip <==> m.total == 0
            &&& s.status is Fail <==> m.total > 0 && m.syn_sent >= 5
            &&& s.status is Warn <==> m.total > 0 && m.syn_sent < 5 && (m.close_wait >= 20 || repeats)
            &&& s.status is Pass <==> m.total > 0 && m.syn_sent < 5 && m.close_wait < 20 && !repeats
            &&& holds(s, "syn_sent"@, dec(m.syn_sent as nat))
            &&& holds(s, "close_wait"@, dec(m.close_wait as nat))
        }),
{
    reveal_strlit("syn_sent");
    reveal_strlit("close_wait");
    reveal_strlit("fin_wait");
    reveal_strlit("time_wait");
    reveal_strlit("retransmitting");
    assert("syn_sent"@.len() == 8 && "close_wait"@.len() == 10 && "time_wait"@.len() == 9);
    assert("fin_wait"@.len() == 8 && "syn_sent"@[0] != "fin_wait"@[0]);
    assert("retransmitting"@.len() == 14);
}

/// The sockets that wait for an answer are told apart by family: IPv6's are those of
/// the table that do, and IPv4's are the rest.
pub proof fn law_waiting_sockets_are_told_by_family(state: DiagState)
    requires
        state.sockets@.filter(|s: Socket| s.state == TcpState::SynSent).len()
            == state.socket_summary.syn_sent,
    ensures
        ({
            let s = socket_states_said(state);
            let v6 = state.sockets@.filter(
                |s: Socket| s.state == TcpState::SynSent && s.family == IpFamily::V6,
            ).len();
            &&& holds(s, "syn_sent_v6"@, dec(v6))
            &&& v6 <= state.socket_summary.syn_sent
            &&& holds(s, "syn_sent_v4"@, dec((state.socket_summary.syn_sent - v6) as nat))
        }),
{
    let all = |s: Socket| s.state == TcpState::SynSent;
    let v6 = |s: Socket| s.state == TcpState::SynSent && s.family == IpFamily::V6;
    lemma_counted(state.sockets@, is_syn_sent_v6(), v6);
    lemma_counted(state.sockets@, all, all);
    lemma_fewer(state.sockets@, v6, all);
    reveal_strlit("syn_sent_v4");
    reveal_strlit("syn_sent_v6");
    reveal_strlit("total");
    reveal_strlit("established");
    reveal_strlit("syn_sent");
    reveal_strlit("close_wait");
    reveal_strlit("fin_wait");
    reveal_strlit("time_wait");
    reveal_strlit("retransmitting");
    assert("syn_sent_v4"@[10] != "syn_sent_v6"@[10]);
    assert("syn_sent_v4"@[0] != "established"@[0] && "syn_sent_v6"@[0] != "established"@[0]);
    assert("total"@.len() == 5 && "syn_sent"@.len() == 8 && "close_wait"@.len() == 10);
    assert("fin_wait"@.len() == 8 && "time_wait"@.len() == 9 && "retransmitting"@.len() == 14);
    assert("syn_sent_v4"@.len() == 11 && "syn_sent_v6"@.len() == 11);
}

proof fn lemma_counted(s: Seq<Socket>, p: spec_fn(Socket) -> bool, q: spec_fn(Socket) -> bool)
    requires
        forall|x: Socket| #[trigger] p(x) == q(x),
    ensures
        count(s, p) == s.filter(q).len(),
    decreases s.len(),
{
    reveal(Seq::filter);
    if s.len() > 0 {
        lemma_counted(s.drop_last(), p, q);
    }
}

proof fn lemma_fewer(s: Seq<Socket>, p: spec_fn(Socket) -> bool, q: spec_fn(Socket) -> bool)
    requires
        forall|x: Socket| #[trigger] p(x) ==> q(x),
    ensures
        s.filter(p).len() <= s.filter(q).len(),
    decreases s.len(),
{
    reveal(Seq::filter);
    if s.len() > 0 {
        lemma_fewer(s.drop_last(), p, q);
    }
}

// ---- Framework against kernel ----------------------------------------------------------------

/// Whether the kernel has an address of the framework: one that is written alike.
pub open spec fn kernel_has(list: Seq<LinkAddress>, p: IpPrefix) -> bool {
    exists|k: int|
        0 <= k < list.len() && ((#[trigger] list[k]).prefix matches Some(q) && q.text() == p.text())
}

/// Whether the framework lists a default route of a family, by the size of its address.
pub open spec fn lists_default(lp: LinkPropertiesInfo, size: nat) -> bool {
    exists|k: int|
        0 <= k < lp.routes@.len() && (#[trigger] lp.routes@[k]).is_default && (
        lp.routes@[k].destination matches Some(p) && (p.address matches Some(a) && a.addr@.len()
            == size))
}

/// Whether the kernel can route where the framework says that it can.
pub open spec fn routes_agree(state: DiagState, lp: LinkPropertiesInfo) -> bool {
    &&& lists_default(lp, 4) ==> state.lookup_v4.route is Some
    &&& lists_default(lp, 16) ==> state.lookup_v6.route is Some
}

proof fn lemma_texts_of(list: Seq<LinkAddress>, p: IpPrefix)
    ensures
        prefix_texts(list).contains(p.text()) <==> kernel_has(list, p),
    decreases list.len(),
{
    if list.len() > 0 {
        let t = list.drop_last();
        let last = list.len() - 1;
        lemma_texts_of(t, p);
        if kernel_has(t, p) {
            let k = choose|k: int|
                0 <= k < t.len() && ((#[trigger] t[k]).prefix matches Some(q) && q.text() == p.text());
            assert(list[k] == t[k]);
        }
        if kernel_has(list, p) {
            let k = choose|k: int|
                0 <= k < list.len() && ((#[trigger] list[k]).prefix matches Some(q) && q.text()
                    == p.text());
            if k < last {
                assert(t[k] == list[k]);
            }
        }
        let front = prefix_texts(t);
        if let Some(q) = list[last].prefix {
            let all = front.push(q.text());
            if front.contains(p.text()) {
                let j = front.index_of(p.text());
                assert(all[j] == p.text());
            }
            if all.contains(p.text()) {
                let j = all.index_of(p.text());
                if j < front.len() {
                    assert(front[j] == p.text());
                } else {
                    assert(list[last].prefix matches Some(q) && q.text() == p.text());
                }
            }
            if q.text() == p.text() {
                assert(all[front.len() as int] == p.text());
            }
        }
    }
}

proof fn lemma_missing(framework: Seq<IpPrefix>, list: Seq<LinkAddress>, name: Seq<char>)
    ensures
        missing_addresses(framework, prefix_texts(list), name).len() == 0 <==> forall|k: int|
            0 <= k < framework.len() ==> kernel_has(list, #[trigger] framework[k]),
    decreases framework.len(),
{
    if framework.len() > 0 {
        let t = framework.drop_last();
        lemma_missing(t, list, name);
        lemma_texts_of(list, framework.last());
        if forall|k: int| 0 <= k < framework.len() ==> kernel_has(list, #[trigger] framework[k]) {
            assert forall|k: int| 0 <= k < t.len() implies kernel_has(list, #[trigger] t[k]) by {
                assert(t[k] == framework[k]);
            }
            assert(kernel_has(list, framework[framework.len() - 1]));
        }
        if missing_addresses(framework, prefix_texts(list), name).len() == 0 {
            assert forall|k: int| 0 <= k < framework.len() implies kernel_has(
                list,
                #[trigger] framework[k],
            ) by {
                if k < t.len() {
                    assert(t[k] == framework[k]);
                }
            }
        }
    }
}

proof fn lemma_lists_default(lp: LinkPropertiesInfo, v6: bool, size: nat)
    requires
        size == if v6 {
            16nat
        } else {
            4nat
        },
    ensures
        any(lp.routes@, is_framework_default(v6)) <==> lists_default(lp, size),
{
    let p = is_framework_default(v6);
    let v = lp.routes@;
    if any(v, p) {
        let k = choose|k: int| 0 <= k < v.len() && p(#[trigger] v[k]);
        assert(v[k].is_default);
    }
    if lists_default(lp, size) {
        let k = choose|k: int|
            0 <= k < v.len() && (#[trigger] v[k]).is_default && (v[k].destination matches Some(q) && (
            q.address matches Some(a) && a.addr@.len() == size));
        assert(p(v[k]));
    }
}

/// The comparison is skipped exactly where the framework said nothing to compare with.
pub proof fn law_when_there_is_nothing_to_compare(state: DiagState)
    ensures
        agreement_said(state).status is Skip <==> !(state.network matches Some(n)
            && n.link_properties is Some),
        state.network matches Some(n) && n.link_properties is Some ==> agreement_said(state).status is Pass
            || agreement_said(state).status is Fail,
{
}

/// The framework agrees with the kernel on an interface that the kernel has exactly
/// where it is up, both say the same of its MTU (where both say anything), the kernel has
/// each address, and routes where the framework says so.
pub proof fn law_when_framework_and_kernel_agree(state: DiagState, lp: LinkPropertiesInfo, k: int)
    requires
        state.network matches Some(n) && n.link_properties == Some(lp),
        0 <= k < state.interfaces@.len(),
        state.interfaces@[k].name@ == lp.interface_name@,
        forall|j: int|
            0 <= j < k ==> (#[trigger] state.interfaces@[j]).name@ != lp.interface_name@,
    ensures
        ({
            let i = state.interfaces@[k];
            agreement_said(state).status is Pass <==> {
                &&& i.flags matches Some(f) && f.up
                &&& lp.mtu > 0 && i.mtu > 0 ==> lp.mtu == i.mtu
                &&& forall|a: int|
                    0 <= a < lp.link_addresses@.len() ==> kernel_has(
                        i.addresses@,
                        #[trigger] lp.link_addresses@[a],
                    )
                &&& routes_agree(state, lp)
            }
        }),
{
    let i = state.interfaces@[k];
    let p = is_named(lp.interface_name@);
    assert(p(i));
    law_the_first_is_found(state.interfaces@, p, k);
    lemma_missing(lp.link_addresses@, i.addresses@, i.name@);
    lemma_lists_default(lp, true, 16);
    lemma_lists_default(lp, false, 4);
    let all = interface_complaints(state, lp) + route_complaints(state, lp);
    assert(all.len() == interface_complaints(state, lp).len() + route_complaints(state, lp).len());
}

/// Where the kernel does not have the interface, the framework agrees only if it names
/// none, and on the routes.
pub proof fn law_when_the_interface_is_unknown(state: DiagState, lp: LinkPropertiesInfo)
    requires
        state.network matches Some(n) && n.link_properties == Some(lp),
        forall|j: int|
            0 <= j < state.interfaces@.len() ==> (#[trigger] state.interfaces@[j]).name@
                != lp.interface_name@,
    ensures
        agreement_said(state).status is Pass <==> lp.interface_name@.len() == 0 && routes_agree(state, lp),
{
    let p = is_named(lp.interface_name@);
    law_nothing_is_found(state.interfaces@, p);
    lemma_lists_default(lp, true, 16);
    lemma_lists_default(lp, false, 4);
    let all = interface_complaints(state, lp) + route_complaints(state, lp);
    assert(all.len() == interface_complaints(state, lp).len() + route_complaints(state, lp).len());
}

} // verus!
