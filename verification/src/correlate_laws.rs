//! Which apps a VPN carries, and what a mark or a socket says of its network.
use vstd::prelude::*;

use crate::collect::firewall::MapReading;
use crate::correlate::{
    app_told, as_signed, asks_for_own, assessed, carves_out, default_through, firewall_words,
    indexes, into_tables, is_vpn, is_vpn_network, is_vpn_up, labelled, mark_notes, most_used_first,
    network_in_use, own_sockets, owned_by, path_told, paths_asked, picks, picks_into, pinned_to,
    range_holds, reason_for_bypass, speaks_of, summary_text, tables, tables_of_vpns, uses,
    vpn_network, CorrelationInput,
};
use crate::diag::state::{has_net_id, is_default_network};
use crate::proto::{
    AndroidNetwork, AndroidNetworkState, AppNetworkState, Interface, LinkKind, Route, RouteLookup,
    RoutingRule, Socket, SocketFilter, SocketSummary, Transport, UidFirewallState, UidRoutingPath,
    VpnAssessment,
};
use crate::seq_laws::{law_nothing_is_found, law_the_first_is_found};
use crate::seqs::{any, distinct_ascending, find, law_distinct_ascending};
use crate::text::{dec, starts_with, texts};

verus! {

// ---- The VPN ----------------------------------------------------------------------

/// Whether an interface is a VPN's and up.
pub open spec fn carries(i: Interface) -> bool {
    i.kind == LinkKind::VpnTun && match i.flags {
        Some(f) => f.up,
        None => false,
    }
}

/// Whether the kernel sends a packet out by an interface: the first hop of the route
/// that it chose.
pub open spec fn sent_by(lookup: RouteLookup, index: u32) -> bool {
    match lookup.route {
        Some(r) => r.next_hops@.len() > 0 && r.next_hops@[0].out_interface_index == index,
        None => false,
    }
}

/// The VPN is the first interface of one that is up; where there is none, no app uses
/// one or bypasses one, and nothing disagrees.
pub proof fn law_the_first_vpn_that_is_up_counts(
    a: VpnAssessment,
    interfaces: Seq<Interface>,
    rules: Seq<RoutingRule>,
    list: Seq<u32>,
    uid: u32,
    v4: RouteLookup,
    v6: RouteLookup,
    android: Option<AndroidNetworkState>,
    k: int,
)
    requires
        assessed(a, find(interfaces, is_vpn_up()), rules, list, uid, v4, v6, android),
    ensures
        a.vpn_present <==> exists|i: int| 0 <= i < interfaces.len() && carries(#[trigger] interfaces[i]),
        !a.vpn_present ==> !a.app_uses_vpn && !a.app_bypasses_vpn && !a.disagreement && !a.split_tunnel
            && !a.framework_says_in_vpn && !a.ipv6_inside_vpn,
        a.vpn_present ==> a.app_bypasses_vpn == !a.app_uses_vpn,
        0 <= k < interfaces.len() && carries(interfaces[k]) && (forall|i: int|
            0 <= i < k ==> !carries(#[trigger] interfaces[i])) ==> {
            let index = interfaces[k].index;
            &&& a.vpn_interface@ == interfaces[k].name@
            &&& a.app_uses_vpn <==> sent_by(v4, index) || sent_by(v6, index)
            &&& a.ipv6_inside_vpn <==> sent_by(v6, index)
            &&& a.split_tunnel <==> sent_by(v4, index) != sent_by(v6, index)
        },
{
    let p = is_vpn_up();
    assert(forall|i: Interface| #[trigger] p(i) == carries(i));
    law_nothing_is_found(interfaces, p);
    if exists|i: int| 0 <= i < interfaces.len() && carries(#[trigger] interfaces[i]) {
        let i = choose|i: int| 0 <= i < interfaces.len() && carries(#[trigger] interfaces[i]);
        assert(p(interfaces[i]));
    }
    if a.vpn_present {
        let i = crate::seq_laws::lemma_found_first(interfaces, p);
        assert(carries(interfaces[i]));
    }
    if 0 <= k < interfaces.len() && carries(interfaces[k]) && (forall|i: int|
        0 <= i < k ==> !carries(#[trigger] interfaces[i])) {
        assert(p(interfaces[k]));
        law_the_first_is_found(interfaces, p, k);
    }
}

/// Whether a network of the framework is a VPN.
pub open spec fn is_a_vpn(n: AndroidNetwork) -> bool {
    exists|i: int| 0 <= i < n.transports@.len() && #[trigger] n.transports@[i] == Transport::Vpn
}

/// Whether the network at a place is the framework's VPN: the first there is.
pub open spec fn is_the_vpn(state: AndroidNetworkState, k: int) -> bool {
    &&& 0 <= k < state.networks@.len()
    &&& is_a_vpn(state.networks@[k])
    &&& forall|i: int| 0 <= i < k ==> !is_a_vpn(#[trigger] state.networks@[i])
}

proof fn lemma_the_vpn(state: AndroidNetworkState, k: int)
    requires
        is_the_vpn(state, k),
    ensures
        vpn_network(Some(state)) == Some(state.networks@[k]),
{
    let p = is_vpn_network();
    assert forall|n: AndroidNetwork| #[trigger] p(n) == is_a_vpn(n) by {
        if p(n) {
            let i = n.transports@.index_of(Transport::Vpn);
            assert(n.transports@[i] == Transport::Vpn);
        }
    }
    assert(p(state.networks@[k]));
    law_the_first_is_found(state.networks@, p, k);
}

/// A VPN without uid ranges is for every app: the framework says that each is in it,
/// and where the kernel routes an app by the VPN's interface the two agree.
pub proof fn law_a_vpn_without_ranges_is_for_all(
    a: VpnAssessment,
    vpn: Interface,
    rules: Seq<RoutingRule>,
    list: Seq<u32>,
    uid: u32,
    v4: RouteLookup,
    v6: RouteLookup,
    state: AndroidNetworkState,
    k: int,
)
    requires
        assessed(a, Some(vpn), rules, list, uid, v4, v6, Some(state)),
        is_the_vpn(state, k),
        state.networks@[k].capabilities matches Some(caps) && caps.vpn_uid_ranges@.len() == 0,
    ensures
        a.framework_says_in_vpn,
        a.vpn_net_id == state.networks@[k].net_id,
        sent_by(v4, vpn.index) || sent_by(v6, vpn.index) ==> !a.disagreement,
        !sent_by(v4, vpn.index) && !sent_by(v6, vpn.index) ==> a.disagreement,
{
    lemma_the_vpn(state, k);
}

/// A VPN with uid ranges is for the apps whose uid lies in one of them, both ends
/// counted in.
pub proof fn law_a_vpn_with_ranges_is_for_those_in_one(
    a: VpnAssessment,
    vpn: Interface,
    rules: Seq<RoutingRule>,
    list: Seq<u32>,
    uid: u32,
    v4: RouteLookup,
    v6: RouteLookup,
    state: AndroidNetworkState,
    k: int,
)
    requires
        assessed(a, Some(vpn), rules, list, uid, v4, v6, Some(state)),
        is_the_vpn(state, k),
        state.networks@[k].capabilities matches Some(caps) && caps.vpn_uid_ranges@.len() > 0,
        uid <= 0x7fff_ffff,
    ensures
        ({
            let ranges = (state.networks@[k].capabilities->0).vpn_uid_ranges@;
            &&& a.framework_says_in_vpn <==> exists|i: int|
                0 <= i < ranges.len() && (#[trigger] ranges[i]).start <= uid <= ranges[i].stop
            &&& a.disagreement <==> a.framework_says_in_vpn != (sent_by(v4, vpn.index) || sent_by(
                v6,
                vpn.index,
            ))
        }),
{
    lemma_the_vpn(state, k);
    let ranges = (state.networks@[k].capabilities->0).vpn_uid_ranges@;
    let p = range_holds(as_signed(uid));
    if exists|i: int| 0 <= i < ranges.len() && (#[trigger] ranges[i]).start <= uid <= ranges[i].stop {
        let i = choose|i: int|
            0 <= i < ranges.len() && (#[trigger] ranges[i]).start <= uid <= ranges[i].stop;
        assert(p(ranges[i]));
    }
}

/// Where the framework knows of no VPN, or of one that says nothing of what it can do,
/// no app is in one by its account.
pub proof fn law_no_vpn_network_has_no_apps(
    a: VpnAssessment,
    vpn: Interface,
    rules: Seq<RoutingRule>,
    list: Seq<u32>,
    uid: u32,
    v4: RouteLookup,
    v6: RouteLookup,
    android: Option<AndroidNetworkState>,
    k: int,
)
    requires
        assessed(a, Some(vpn), rules, list, uid, v4, v6, android),
        match android {
            Some(state) => is_the_vpn(state, k) && state.networks@[k].capabilities is None || (forall|i: int|
                0 <= i < state.networks@.len() ==> !is_a_vpn(#[trigger] state.networks@[i])),
            None => true,
        },
    ensures
        !a.framework_says_in_vpn,
        a.disagreement <==> sent_by(v4, vpn.index) || sent_by(v6, vpn.index),
{
    if let Some(state) = android {
        if is_the_vpn(state, k) && state.networks@[k].capabilities is None {
            lemma_the_vpn(state, k);
        } else {
            let p = is_vpn_network();
            assert forall|i: int| 0 <= i < state.networks@.len() implies !p(
                #[trigger] state.networks@[i],
            ) by {
                let n = state.networks@[i];
                if p(n) {
                    let j = n.transports@.index_of(Transport::Vpn);
                    assert(n.transports@[j] == Transport::Vpn);
                }
            }
            law_nothing_is_found(state.networks@, p);
        }
    }
}

/// A table is a VPN's exactly if a default route in it has a hop out by an interface
/// of a VPN, up or not; the tables ascend and none comes twice.
pub proof fn law_which_tables_are_a_vpns(routes: Seq<Route>, interfaces: Seq<Interface>, table: u32)
    ensures
        ({
            let list = tables_of_vpns(Some(routes), interfaces);
            &&& list.contains(table) <==> exists|r: int, h: int, i: int|
                #![trigger routes[r].next_hops@[h], interfaces[i]]
                0 <= r < routes.len() && routes[r].is_default && routes[r].table == table && 0 <= h
                    < routes[r].next_hops@.len() && 0 <= i < interfaces.len() && interfaces[i].kind
                    == LinkKind::VpnTun && routes[r].next_hops@[h].out_interface_index
                    == interfaces[i].index
            &&& forall|i: int, j: int| 0 <= i < j < list.len() ==> list[i] < list[j]
        }),
        tables_of_vpns(None, interfaces).len() == 0,
{
    let vpns = interfaces.filter(is_vpn());
    let ids = indexes(vpns);
    let p = default_through(ids);
    let through = routes.filter(p);
    let list = distinct_ascending(tables(through));
    law_distinct_ascending(tables(through));
    if list.contains(table) {
        assert(tables(through).contains(table));
        let t = tables(through).index_of(table);
        assert(through[t].table == table);
        routes.lemma_filter_pred(p, t);
        assert(through.contains(through[t]));
        routes.lemma_filter_contains_rev(p, through[t]);
        let r = routes.index_of(through[t]);
        assert(p(routes[r]));
        let q = crate::correlate::leaves_by_one_of(ids);
        let hops = routes[r].next_hops@;
        let h = choose|h: int| 0 <= h < hops.len() && q(#[trigger] hops[h]);
        assert(ids.contains(hops[h].out_interface_index));
        let v = ids.index_of(hops[h].out_interface_index);
        assert(vpns[v].index == hops[h].out_interface_index);
        interfaces.lemma_filter_pred(is_vpn(), v);
        assert(vpns.contains(vpns[v]));
        interfaces.lemma_filter_contains_rev(is_vpn(), vpns[v]);
        let i = interfaces.index_of(vpns[v]);
        assert(routes[r].next_hops@[h].out_interface_index == interfaces[i].index);
    }
    if exists|r: int, h: int, i: int|
        #![trigger routes[r].next_hops@[h], interfaces[i]]
        0 <= r < routes.len() && routes[r].is_default && routes[r].table == table && 0 <= h
            < routes[r].next_hops@.len() && 0 <= i < interfaces.len() && interfaces[i].kind
            == LinkKind::VpnTun && routes[r].next_hops@[h].out_interface_index == interfaces[i].index {
        let (r, h, i) = choose|r: int, h: int, i: int|
            #![trigger routes[r].next_hops@[h], interfaces[i]]
            0 <= r < routes.len() && routes[r].is_default && routes[r].table == table && 0 <= h
                < routes[r].next_hops@.len() && 0 <= i < interfaces.len() && interfaces[i].kind
                == LinkKind::VpnTun && routes[r].next_hops@[h].out_interface_index
                == interfaces[i].index;
        interfaces.lemma_filter_contains(is_vpn(), i);
        let v = vpns.index_of(interfaces[i]);
        assert(ids[v] == interfaces[i].index);
        assert(ids.contains(routes[r].next_hops@[h].out_interface_index));
        assert(crate::correlate::leaves_by_one_of(ids)(routes[r].next_hops@[h]));
        assert(p(routes[r]));
        routes.lemma_filter_contains(p, r);
        let t = through.index_of(routes[r]);
        assert(tables(through)[t] == table);
        assert(tables(through).contains(table));
    }
}

/// Whether a rule's uid range holds a uid.
pub open spec fn names_uid(r: RoutingRule, uid: u32) -> bool {
    r.has_uid_range && r.uid_range_start <= uid <= r.uid_range_end
}

/// Whether the rule at a place is the first that names a uid, inverted or not.
pub open spec fn is_first_naming(rules: Seq<RoutingRule>, uid: u32, invert: bool, k: int) -> bool {
    &&& 0 <= k < rules.len()
    &&& names_uid(rules[k], uid) && rules[k].invert == invert
    &&& forall|i: int|
        0 <= i < k ==> !(names_uid(#[trigger] rules[i], uid) && rules[i].invert == invert)
}

/// A rule that leaves a uid out of its table is the reason for a bypass before any
/// other.
pub proof fn law_a_rule_that_leaves_out_is_the_reason(
    rules: Seq<RoutingRule>,
    list: Seq<u32>,
    uid: u32,
    uses_vpn: bool,
    k: int,
)
    requires
        is_first_naming(rules, uid, true, k),
    ensures
        starts_with(
            reason_for_bypass(rules, list, uid, uses_vpn),
            "rule priority "@ + dec(rules[k].priority as nat) + " explicitly excludes uids "@ + dec(
                rules[k].uid_range_start as nat,
            ),
        ),
{
    let p = carves_out(uid);
    assert(forall|r: RoutingRule| #[trigger] p(r) == (names_uid(r, uid) && r.invert));
    law_the_first_is_found(rules, p, k);
    let head = "rule priority "@ + dec(rules[k].priority as nat) + " explicitly excludes uids "@ + dec(
        rules[k].uid_range_start as nat,
    );
    assert(reason_for_bypass(rules, list, uid, uses_vpn).take(head.len() as int) =~= head);
}

/// Whether no rule leaves a uid out of a table.
pub open spec fn is_left_in(rules: Seq<RoutingRule>, uid: u32) -> bool {
    forall|i: int| 0 <= i < rules.len() ==> !(names_uid(#[trigger] rules[i], uid) && rules[i].invert)
}

/// Whether uid ranges lead into the tables of a VPN, and the uid is in none of them.
pub open spec fn is_off_the_list(rules: Seq<RoutingRule>, list: Seq<u32>, uid: u32) -> bool {
    &&& exists|i: int|
        0 <= i < rules.len() && (#[trigger] rules[i]).has_uid_range && list.contains(rules[i].table)
    &&& forall|i: int|
        0 <= i < rules.len() && list.contains((#[trigger] rules[i]).table) && !rules[i].invert
            ==> !names_uid(rules[i], uid)
}

/// An app that a VPN carries has no reason for a bypass; one that the VPN's own list
/// leaves out is told so; of another it is told which rule sends it elsewhere, or that
/// the kernel just does not choose the VPN.
pub proof fn law_which_reason_a_bypass_has(rules: Seq<RoutingRule>, list: Seq<u32>, uid: u32, k: int)
    requires
        is_left_in(rules, uid),
    ensures
        reason_for_bypass(rules, list, uid, true) == Seq::<char>::empty(),
        is_off_the_list(rules, list, uid) ==> starts_with(
            reason_for_bypass(rules, list, uid, false),
            "uid "@ + dec(uid as nat) + " falls outside all "@,
        ),
        !is_off_the_list(rules, list, uid) && is_first_naming(rules, uid, false, k) ==> starts_with(
            reason_for_bypass(rules, list, uid, false),
            "rule priority "@ + dec(rules[k].priority as nat) + " sends uids "@ + dec(
                rules[k].uid_range_start as nat,
            ),
        ),
        !is_off_the_list(rules, list, uid) && (forall|i: int|
            0 <= i < rules.len() ==> !names_uid(#[trigger] rules[i], uid)) ==> reason_for_bypass(
            rules,
            list,
            uid,
            false,
        ) == "the kernel route lookup does not select the VPN interface"@,
{
    reveal_strlit("");
    let p = carves_out(uid);
    law_nothing_is_found(rules, p);
    assert(""@ =~= Seq::<char>::empty());
    let into = into_tables(list);
    let q = picks_into(uid, list);
    crate::seqs::lemma_filter_any(rules, into);
    if is_off_the_list(rules, list, uid) {
        let i = choose|i: int|
            0 <= i < rules.len() && (#[trigger] rules[i]).has_uid_range && list.contains(rules[i].table);
        assert(into(rules[i]));
        assert(!any(rules, q));
        let head = "uid "@ + dec(uid as nat) + " falls outside all "@;
        assert(reason_for_bypass(rules, list, uid, false).take(head.len() as int) =~= head);
    } else {
        if any(rules, into) {
            let i = choose|i: int| 0 <= i < rules.len() && into(#[trigger] rules[i]);
            assert(rules[i].has_uid_range && list.contains(rules[i].table));
            let j = choose|j: int|
                0 <= j < rules.len() && list.contains((#[trigger] rules[j]).table) && !rules[j].invert
                    && names_uid(rules[j], uid);
            assert(q(rules[j]));
            assert(any(rules, q));
        }
        let r = picks(uid);
        law_nothing_is_found(rules, r);
        if is_first_naming(rules, uid, false, k) {
            assert(forall|x: RoutingRule| #[trigger] r(x) == (names_uid(x, uid) && !x.invert));
            law_the_first_is_found(rules, r, k);
            let head = "rule priority "@ + dec(rules[k].priority as nat) + " sends uids "@ + dec(
                rules[k].uid_range_start as nat,
            );
            assert(reason_for_bypass(rules, list, uid, false).take(head.len() as int) =~= head);
        }
    }
}

// ---- Sockets and networks -----------------------------------------------------------

/// The netIds that are listed are those that a socket with a mark is pinned to, other
/// than zero; none comes twice.
pub proof fn law_net_ids_are_those_of_sockets(ids: Seq<i32>, sockets: Seq<Socket>, id: i32)
    requires
        most_used_first(ids, sockets),
        id >= 0,
    ensures
        ids.contains(id) <==> exists|i: int|
            0 <= i < sockets.len() && (#[trigger] sockets[i]).has_mark && sockets[i].net_id == id && id
                != 0,
        forall|i: int, j: int| 0 <= i < j < ids.len() ==> ids[i] != ids[j],
{
    lemma_uses(sockets, id);
    if ids.contains(id) {
        let k = ids.index_of(id);
        assert(uses(sockets, ids[k] as int) > 0);
    }
}

proof fn lemma_uses(sockets: Seq<Socket>, id: i32)
    requires
        id >= 0,
    ensures
        uses(sockets, id as int) > 0 <==> exists|i: int|
            0 <= i < sockets.len() && (#[trigger] sockets[i]).has_mark && sockets[i].net_id == id && id
                != 0,
    decreases sockets.len(),
{
    if sockets.len() > 0 {
        let rest = sockets.drop_last();
        lemma_uses(rest, id);
        let last = sockets.len() - 1;
        assert(pinned_to(sockets[last]) == Some(id as int) <==> sockets[last].has_mark
            && sockets[last].net_id == id && id != 0);
        if uses(rest, id as int) > 0 {
            let i = choose|i: int|
                0 <= i < rest.len() && (#[trigger] rest[i]).has_mark && rest[i].net_id == id && id != 0;
            assert(sockets[i].has_mark);
        }
        if exists|i: int|
            0 <= i < sockets.len() && (#[trigger] sockets[i]).has_mark && sockets[i].net_id == id && id
                != 0 {
            let i = choose|i: int|
                0 <= i < sockets.len() && (#[trigger] sockets[i]).has_mark && sockets[i].net_id == id
                    && id != 0;
            if i < last {
                assert(rest[i] == sockets[i]);
            }
        }
    }
}

/// A netId that more sockets are pinned to stands in front: another socket of one
/// counts for it and for nothing else.
pub proof fn law_each_socket_counts_once(sockets: Seq<Socket>, s: Socket, id: i32)
    requires
        id > 0,
    ensures
        uses(sockets.push(s), id as int) == uses(sockets, id as int) + if s.has_mark && s.net_id == id {
            1int
        } else {
            0int
        },
        uses(Seq::<Socket>::empty(), id as int) == 0,
{
    assert(sockets.push(s).drop_last() =~= sockets);
}

/// The sockets with a mark that are pinned to a netId.
pub open spec fn pinned(sockets: Seq<Socket>, id: i32) -> Seq<Socket> {
    sockets.filter(|s: Socket| s.has_mark && s.net_id == id)
}

/// Of two netIds the one that more sockets are pinned to is listed first, and of two with
/// equally many the smaller one.
pub proof fn law_the_most_used_comes_first(ids: Seq<i32>, sockets: Seq<Socket>, i: int, j: int)
    requires
        most_used_first(ids, sockets),
        0 <= i < j < ids.len(),
        ids[i] > 0 && ids[j] > 0,
    ensures
        pinned(sockets, ids[i]).len() >= pinned(sockets, ids[j]).len(),
        pinned(sockets, ids[i]).len() == pinned(sockets, ids[j]).len() ==> ids[i] < ids[j],
{
    lemma_pinned(sockets, ids[i]);
    lemma_pinned(sockets, ids[j]);
}

proof fn lemma_pinned(sockets: Seq<Socket>, id: i32)
    requires
        id > 0,
    ensures
        uses(sockets, id as int) == pinned(sockets, id).len(),
    decreases sockets.len(),
{
    reveal(Seq::filter);
    if sockets.len() > 0 {
        lemma_pinned(sockets.drop_last(), id);
    }
}

/// The network of an app is that of the netId that most of its sockets are pinned to;
/// without such sockets, or without such a network, it is the system's default.
pub proof fn law_the_network_in_use(state: AndroidNetworkState, ids: Seq<i32>, k: int)
    requires
        0 <= k < state.networks@.len(),
    ensures
        ids.len() > 0 && state.networks@[k].net_id == ids[0] && (forall|i: int|
            0 <= i < k ==> (#[trigger] state.networks@[i]).net_id != ids[0]) ==> network_in_use(
            Some(state),
            ids,
        ) == Some(state.networks@[k]),
        (ids.len() == 0 || forall|i: int|
            0 <= i < state.networks@.len() ==> (#[trigger] state.networks@[i]).net_id != ids[0])
            && state.networks@[k].is_default && (forall|i: int|
            0 <= i < k ==> !(#[trigger] state.networks@[i]).is_default) ==> network_in_use(
            Some(state),
            ids,
        ) == Some(state.networks@[k]),
        network_in_use(None, ids) is None,
{
    let n = state.networks@;
    let d = is_default_network();
    if n[k].is_default && (forall|i: int| 0 <= i < k ==> !(#[trigger] n[i]).is_default) {
        assert(d(n[k]));
        law_the_first_is_found(n, d, k);
    }
    if ids.len() > 0 {
        let p = has_net_id(ids[0]);
        if n[k].net_id == ids[0] && (forall|i: int| 0 <= i < k ==> (#[trigger] n[i]).net_id != ids[0]) {
            assert(p(n[k]));
            law_the_first_is_found(n, p, k);
        }
        if forall|i: int| 0 <= i < n.len() ==> (#[trigger] n[i]).net_id != ids[0] {
            law_nothing_is_found(n, p);
        }
    }
}

/// The sockets of an app are sockets of its uid, all of them unless there are too many
/// for one listing.
pub proof fn law_own_sockets_are_of_the_uid(all: Seq<Socket>, uid: u32, i: int)
    ensures
        0 <= i < own_sockets(all, uid).len() ==> own_sockets(all, uid)[i].uid == uid && all.contains(
            own_sockets(all, uid)[i],
        ),
        own_sockets(all, uid).len() <= 4096,
        0 <= i < all.len() && all[i].uid == uid && own_sockets(all, uid).len() < 4096 ==> own_sockets(
            all,
            uid,
        ).contains(all[i]),
{
    let p = owned_by(uid);
    let own = all.filter(p);
    if 0 <= i < own_sockets(all, uid).len() {
        assert(own_sockets(all, uid)[i] == own[i]);
        all.lemma_filter_pred(p, i);
        assert(own.contains(own[i]));
        all.lemma_filter_contains_rev(p, own[i]);
    }
    if 0 <= i < all.len() && all[i].uid == uid {
        assert(p(all[i]));
        all.lemma_filter_contains(p, i);
    }
}

/// A rule is told of an app exactly if it can apply to it and selects by uid or by
/// mark: a uid range applies to the uids in it, an inverted one to those outside.
pub proof fn law_which_rules_are_told(
    path: UidRoutingPath,
    uid: u32,
    rules: Seq<RoutingRule>,
    v4: RouteLookup,
    v6: RouteLookup,
    r: RoutingRule,
)
    requires
        path_told(path, uid, rules, v4, v6),
    ensures
        path.matching_rules@.contains(r) <==> rules.contains(r) && if r.has_uid_range {
            if r.invert {
                uid < r.uid_range_start || r.uid_range_end < uid
            } else {
                r.uid_range_start <= uid && uid <= r.uid_range_end
            }
        } else {
            r.has_fwmark
        },
{
    let p = speaks_of(uid);
    let kept = rules.filter(p);
    if kept.contains(r) {
        let i = kept.index_of(r);
        rules.lemma_filter_pred(p, i);
        rules.lemma_filter_contains_rev(p, r);
    }
    if rules.contains(r) && p(r) {
        rules.lemma_filter_contains(p, rules.index_of(r));
    }
}

/// A path tells the table and the interface of the route that the kernel chose in each
/// family, and nothing of a family without a route.
pub proof fn law_a_path_is_that_of_the_lookups(
    path: UidRoutingPath,
    uid: u32,
    rules: Seq<RoutingRule>,
    v4: RouteLookup,
    v6: RouteLookup,
)
    requires
        path_told(path, uid, rules, v4, v6),
    ensures
        v4.route matches Some(r) ==> path.table_v4 == r.table && (r.next_hops@.len() > 0
            ==> path.egress_interface_v4@ == r.next_hops@[0].out_interface_name@),
        v6.route matches Some(r) ==> path.table_v6 == r.table && (r.next_hops@.len() > 0
            ==> path.egress_interface_v6@ == r.next_hops@[0].out_interface_name@),
        v4.route is None ==> path.table_v4 == 0 && path.egress_interface_v4@.len() == 0,
        v6.route is None ==> path.table_v6 == 0 && path.egress_interface_v6@.len() == 0,
{
    reveal_strlit("");
}

/// The paths of an app are looked up as its uid and with no mark, one in each family,
/// unless they are to be skipped.
pub proof fn law_paths_are_looked_up_as_the_app(input: CorrelationInput)
    ensures
        input.skip_route_lookup ==> paths_asked(input) is None,
        !input.skip_route_lookup ==> {
            &&& paths_asked(input) matches Some((v4, v6))
            &&& v4.uid == Some(input.app.uid) && v6.uid == Some(input.app.uid)
            &&& v4.fwmark is None && v6.fwmark is None
            &&& v4.destination is V4 && v6.destination is V6
            &&& v4.out_interface_index == 0 && v6.out_interface_index == 0
        },
{
}

/// The filter of an app lets its own sockets through and no others, whatever they are.
pub proof fn law_only_own_sockets_are_asked_for(f: SocketFilter, input: CorrelationInput, s: Socket)
    requires
        asks_for_own(f, input),
    ensures
        crate::collect::sockets::passes(f)(s) <==> s.uid == input.app.uid,
        f.include_tcp_info == input.include_tcp_info,
{
    assert(f.uids@[0] == input.app.uid);
}

/// A path of an app is well exactly if the kernel found a route for it; without lookups
/// neither is.
pub proof fn law_when_a_path_is_well(
    r: AppNetworkState,
    interfaces: Seq<Interface>,
    routes: Option<Seq<Route>>,
    rules: Seq<RoutingRule>,
    lookups: Option<(RouteLookup, RouteLookup)>,
    sockets: Seq<Socket>,
    firewall: MapReading,
    input: CorrelationInput,
)
    requires
        app_told(r, interfaces, routes, rules, lookups, sockets, firewall, input),
    ensures
        lookups is None ==> !r.ipv4_path_ok && !r.ipv6_path_ok,
        lookups matches Some((v4, v6)) ==> (r.ipv4_path_ok <==> v4.route is Some) && (r.ipv6_path_ok
            <==> v6.route is Some),
        lookups matches Some((v4, v6)) ==> (r.routing matches Some(p) && p.lookup_v4 == Some(v4)
            && p.lookup_v6 == Some(v6) && p.uid == input.app.uid),
        r.app == Some(input.app),
        firewall == MapReading::NoEntry ==> r.firewall_note@ == "no per-uid firewall rules apply"@,
{
}

/// The sockets that are told of an app are its own, as they are but for their owner's
/// name, and the summary counts these.
pub proof fn law_sockets_of_an_app(
    r: AppNetworkState,
    interfaces: Seq<Interface>,
    routes: Option<Seq<Route>>,
    rules: Seq<RoutingRule>,
    lookups: Option<(RouteLookup, RouteLookup)>,
    sockets: Seq<Socket>,
    firewall: MapReading,
    input: CorrelationInput,
    i: int,
)
    requires
        app_told(r, interfaces, routes, rules, lookups, sockets, firewall, input),
        0 <= i < r.sockets@.len(),
    ensures
        r.sockets@[i].uid == input.app.uid,
        r.socket_summary matches Some(m) && m.total == r.sockets@.len(),
        input.app.package_name@.len() > 0 ==> r.sockets@[i].package_names@.len() == 1
            && r.sockets@[i].package_names@[0]@ == input.app.package_name@,
{
    let own = own_sockets(sockets, input.app.uid);
    law_own_sockets_are_of_the_uid(sockets, input.app.uid, i);
    assert(labelled(r.sockets@[i], own[i], input.app.package_name@));
    law_a_label_is_the_package(r.sockets@[i], own[i], input.app.package_name@);
}

// ---- Words ------------------------------------------------------------------------

/// A mark is told to hold a netId where its low half is one, to be explicitly selected
/// by the bit above, and protected from VPNs by the bit above that.
pub proof fn law_what_a_mark_holds(mark: u32)
    ensures
        mark % 0x1_0000 != 0 ==> mark_notes(mark).len() > 0 && mark_notes(mark)[0] == "netId "@ + dec(
            (mark % 0x1_0000) as nat,
        ),
        mark_notes(mark).contains("explicitly selected"@) <==> mark & 0x1_0000 != 0,
        mark_notes(mark).contains("protected from VPN"@) <==> mark & 0x2_0000 != 0,
{
    assert(mark & 0xffff == mark % 0x1_0000) by (bit_vector);
    let n = mark_notes(mark);
    reveal_strlit("explicitly selected");
    reveal_strlit("protected from VPN");
    reveal_strlit("netId ");
    assert("explicitly selected"@[0] != "protected from VPN"@[0]);
    let id = "netId "@ + dec((mark % 0x1_0000) as nat);
    assert(id[0] == 'n');
    assert(id != "explicitly selected"@ && id != "protected from VPN"@);
    if mark & 0x1_0000 != 0 {
        let k: int = if mark % 0x1_0000 != 0 {
            1
        } else {
            0
        };
        assert(n[k] == "explicitly selected"@);
    }
    if mark & 0x2_0000 != 0 {
        assert(n[n.len() - 1] == "protected from VPN"@);
    }
}

/// The names of packages are put on sockets that have an owner, and change nothing else
/// of them.
pub proof fn law_a_label_is_the_package(out: Socket, socket: Socket, package: Seq<char>)
    requires
        labelled(out, socket, package),
    ensures
        package.len() > 0 ==> out.package_names@.len() == 1 && out.package_names@[0]@ == package,
        out == (Socket { package_names: out.package_names, ..socket }),
{
    if package.len() > 0 {
        assert(texts(out.package_names@).len() == 1);
        assert(texts(out.package_names@)[0] == package);
    }
}

/// A summary begins with the package, or with the uid where there is none.
pub proof fn law_a_summary_names_its_app(
    package: Seq<char>,
    uid: u32,
    egress_v4: Seq<char>,
    egress_v6: Seq<char>,
    sockets: SocketSummary,
    vpn: VpnAssessment,
    ipv4_ok: bool,
    ipv6_ok: bool,
)
    ensures
        ({
            let text = summary_text(
                package,
                uid,
                egress_v4,
                egress_v6,
                sockets,
                vpn,
                ipv4_ok,
                ipv6_ok,
            );
            let name = if package.len() > 0 {
                package
            } else {
                "uid "@ + dec(uid as nat)
            };
            let path = if ipv4_ok {
                "IPv4 via "@ + egress_v4
            } else if ipv6_ok {
                "IPv6 via "@ + egress_v6
            } else {
                "no route out for either family"@
            };
            starts_with(text, name + ": "@ + path)
        }),
{
    let text = summary_text(package, uid, egress_v4, egress_v6, sockets, vpn, ipv4_ok, ipv6_ok);
    let name = if package.len() > 0 {
        package
    } else {
        "uid "@ + dec(uid as nat)
    };
    let path = if ipv4_ok {
        "IPv4 via "@ + egress_v4
    } else if ipv6_ok {
        "IPv6 via "@ + egress_v6
    } else {
        "no route out for either family"@
    };
    let head = name + ": "@ + path;
    assert(text.take(head.len() as int) =~= head);
}

/// The firewall is said to be unknown where its map could not be read, and to hold
/// nothing exactly where it was read and no bit was set.
pub proof fn law_what_is_noted_of_the_firewall(a: UidFirewallState)
    ensures
        !a.source_available ==> starts_with(firewall_words(a), "per-uid firewall state could not be read"@),
        a.source_available && a.raw_match == 0 ==> firewall_words(a) == "no per-uid firewall rules apply"@,
        a.source_available && a.raw_match != 0 ==> starts_with(firewall_words(a), "firewall bits: "@),
{
    reveal_strlit("per-uid firewall state could not be read");
    reveal_strlit("per-uid firewall state could not be read from netd's eBPF map");
    let head = "per-uid firewall state could not be read"@;
    assert("per-uid firewall state could not be read from netd's eBPF map"@.take(head.len() as int) =~= head);
    let bits = "firewall bits: "@;
    if a.source_available && a.raw_match != 0 {
        assert(firewall_words(a).take(bits.len() as int) =~= bits);
    }
}

} // verus!
