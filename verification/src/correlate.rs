//! Cross-layer correlation: following one app's traffic from its uid down to
//! the interface its packets actually leave by.
//!
//! Two joins make the chain from a package to an interface work. The kernel is
//! asked to route a packet *as that uid*, so its own decision is what is
//! reported. And Android writes the netId into the low bits of a socket's mark,
//! so every socket can be attributed to a framework network without guessing.
use vstd::prelude::*;

use crate::collect::firewall::{
    decode_match_bits, firewall_told, read_uid_firewall, rule_texts, MapReading,
};
use crate::collect::routes::{
    get_rules, matches_uid, rule_before, rule_can_match_uid, rule_wanted, LookupArguments,
};
use crate::collect::sockets::{counted, get_sockets, passes, DEFAULT_SOCKET_LIMIT};
use crate::diag::check::one;
use crate::diag::state::{has_net_id, is_default_network, network_of};
use crate::ip::IpAddr;
use crate::proto::{
    AndroidNetwork, AndroidNetworkState, AppNetworkState, AppRef, Interface, LinkKind, NextHop,
    Route, RouteLookup, RoutingRule, Socket, SocketFilter, SocketSummary, Transport,
    UidFirewallState, UidRange, UidRoutingPath, VpnAssessment,
};
use crate::seqs::{
    any, contains_number, distinct_ascending, find, how_many, keep, lemma_filter_all,
    lemma_filter_end, lemma_filter_start, lemma_filter_step, position_of, sort_by, sort_dedup,
};
use crate::text::{dec, dec_string, hex, hex_string, is_empty, join, join_texts, texts};
use crate::util::{
    net_id_from_mark, FWMARK_EXPLICITLY_SELECTED, FWMARK_NET_ID_MASK, FWMARK_PROTECTED_FROM_VPN,
};

verus! {

/// The first hop of a route that a lookup found.
pub open spec fn first_hop(lookup: RouteLookup) -> Option<NextHop> {
    match lookup.route {
        Some(r) => if r.next_hops@.len() > 0 {
            Some(r.next_hops@[0])
        } else {
            None
        },
        None => None,
    }
}

/// The name of the interface that a lookup's first hop leaves by.
pub open spec fn egress(lookup: RouteLookup) -> Seq<char> {
    match first_hop(lookup) {
        Some(h) => h.out_interface_name@,
        None => ""@,
    }
}

pub fn egress_name(lookup: &RouteLookup) -> (r: String)
    ensures
        r@ == egress(*lookup),
{
    match &lookup.route {
        Some(r) => if r.next_hops.len() > 0 {
            r.next_hops[0].out_interface_name.clone()
        } else {
            String::from_str("")
        },
        None => String::from_str(""),
    }
}

/// Whether a lookup's first hop leaves by an interface.
pub open spec fn leaves_through(lookup: RouteLookup, index: u32) -> bool {
    match first_hop(lookup) {
        Some(h) => h.out_interface_index == index,
        None => false,
    }
}

fn goes_through(lookup: &RouteLookup, index: u32) -> (r: bool)
    ensures
        r == leaves_through(*lookup, index),
{
    match &lookup.route {
        Some(r) => r.next_hops.len() > 0 && r.next_hops[0].out_interface_index == index,
        None => false,
    }
}

// ---- The networks that sockets are pinned to ----------------------------------

/// A number of 32 bits read as a signed one.
pub open spec fn as_signed(n: u32) -> int {
    if n <= i32::MAX {
        n as int
    } else {
        n - 0x1_0000_0000
    }
}

pub(crate) fn signed_of(n: u32) -> (r: i32)
    ensures
        r == as_signed(n),
{
    if n <= 0x7fff_ffff {
        n as i32
    } else {
        (n as i64 - 0x1_0000_0000) as i32
    }
}

/// The netId that a socket is pinned to.
pub open spec fn pinned_to(s: Socket) -> Option<int> {
    if s.has_mark && s.net_id != 0 {
        Some(as_signed(s.net_id))
    } else {
        None
    }
}

/// How many sockets are pinned to a netId.
pub open spec fn uses(sockets: Seq<Socket>, id: int) -> nat
    decreases sockets.len(),
{
    if sockets.len() == 0 {
        0
    } else {
        uses(sockets.drop_last(), id) + if pinned_to(sockets.last()) == Some(id) {
            1nat
        } else {
            0nat
        }
    }
}

/// Whether a list of netIds holds each that is in use once, the most used
/// first and the smaller of two equally used first.
pub open spec fn most_used_first(ids: Seq<i32>, sockets: Seq<Socket>) -> bool {
    &&& forall|i: int| 0 <= i < ids.len() ==> uses(sockets, #[trigger] ids[i] as int) > 0
    &&& forall|id: i32| #[trigger] uses(sockets, id as int) > 0 ==> ids.contains(id)
    &&& forall|i: int, j: int|
        0 <= i < j < ids.len() ==> {
            let (a, b) = (#[trigger] ids[i], #[trigger] ids[j]);
            uses(sockets, a as int) > uses(sockets, b as int) || (uses(sockets, a as int) == uses(
                sockets,
                b as int,
            ) && a < b)
        }
}

fn count_uses(sockets: &Vec<Socket>, id: i32) -> (r: usize)
    ensures
        r == uses(sockets@, id as int),
{
    let mut n: usize = 0;
    let mut i: usize = 0;
    while i < sockets.len()
        invariant
            i <= sockets.len(),
            n <= i,
            n == uses(sockets@.take(i as int), id as int),
        decreases sockets.len() - i,
    {
        assert(sockets@.take(i + 1).drop_last() =~= sockets@.take(i as int));
        let s = &sockets[i];
        if s.has_mark && s.net_id != 0 && signed_of(s.net_id) == id {
            n += 1;
        }
        i += 1;
    }
    assert(sockets@.take(sockets.len() as int) =~= sockets@);
    n
}

/// netIds this app's sockets are actually pinned to, most used first.
pub fn observed_net_ids(app_sockets: &Vec<Socket>) -> (r: Vec<i32>)
    ensures
        most_used_first(r@, app_sockets@),
{
    let mut ids: Vec<i32> = Vec::new();
    let mut counts: Vec<usize> = Vec::new();
    let mut i: usize = 0;
    while i < app_sockets.len()
        invariant
            i <= app_sockets.len(),
            ids.len() == counts.len(),
            forall|k: int|
                0 <= k < ids.len() ==> #[trigger] counts@[k] == uses(app_sockets@, ids@[k] as int),
            forall|k: int| 0 <= k < ids.len() ==> uses(app_sockets@, #[trigger] ids@[k] as int) > 0,
            forall|id: i32| #[trigger]
                uses(app_sockets@.take(i as int), id as int) > 0 ==> ids@.contains(id),
            forall|a: int, b: int|
                0 <= a < b < ids.len() ==> counts@[a] > counts@[b] || (counts@[a] == counts@[b]
                    && #[trigger] ids@[a] < #[trigger] ids@[b]),
        decreases app_sockets.len() - i,
    {
        let ghost here = app_sockets@.take(i + 1);
        assert(here.drop_last() =~= app_sockets@.take(i as int));
        let s = &app_sockets[i];
        if s.has_mark && s.net_id != 0 {
            let id = signed_of(s.net_id);
            let n = count_uses(app_sockets, id);
            proof {
                lemma_uses_member(app_sockets@, i as int);
            }
            let mut p: usize = 0;
            while p < ids.len() && (counts[p] > n || (counts[p] == n && ids[p] < id))
                invariant
                    p <= ids.len(),
                    ids.len() == counts.len(),
                    forall|k: int|
                        0 <= k < p ==> (#[trigger] counts@[k]) > n || (counts@[k] == n && ids@[k] < id),
                decreases ids.len() - p,
            {
                p += 1;
            }
            if !(p < ids.len() && ids[p] == id) {
                let ghost before = ids@;
                let ghost counted = counts@;
                proof {
                    if before.contains(id) {
                        let k = choose|k: int| 0 <= k < before.len() && before[k] == id;
                        assert(counted[k] == n);
                        assert(k >= p);
                        assert(before[p as int] < before[k] || p == k);
                        assert(false);
                    }
                }
                ids.insert(p, id);
                counts.insert(p, n);
                assert forall|x: i32| before.contains(x) implies ids@.contains(x) by {
                    let k = choose|k: int| 0 <= k < before.len() && before[k] == x;
                    if k < p {
                        assert(ids@[k] == x);
                    } else {
                        assert(ids@[k + 1] == x);
                    }
                }
                assert(ids@[p as int] == id);
                assert forall|a: int, b: int| 0 <= a < b < ids.len() implies counts@[a] > counts@[b]
                    || (counts@[a] == counts@[b] && #[trigger] ids@[a] < #[trigger] ids@[b]) by {
                    let x = if a < p { a } else { a - 1 };
                    let y = if b < p { b } else { b - 1 };
                    if a != p && b != p {
                        assert(before[x] == ids@[a] && before[y] == ids@[b]);
                    } else if a == p {
                        assert(before[y] == ids@[b]);
                        assert(before[p as int] == ids@[p + 1]);
                        if y > p {
                            assert(before[p as int] == before[p as int] && before[y] == before[y]);
                        }
                    } else {
                        assert(before[x] == ids@[a]);
                    }
                }
            }
            assert forall|x: i32| #[trigger] uses(here, x as int) > 0 implies ids@.contains(x) by {
                if x != id {
                    assert(uses(here.drop_last(), x as int) > 0);
                }
            }
        } else {
            assert forall|x: i32| #[trigger] uses(here, x as int) > 0 implies ids@.contains(x) by {
                assert(uses(here.drop_last(), x as int) > 0);
            }
        }
        i += 1;
    }
    assert(app_sockets@.take(app_sockets.len() as int) =~= app_sockets@);
    ids
}

proof fn lemma_uses_member(sockets: Seq<Socket>, i: int)
    requires
        0 <= i < sockets.len(),
        pinned_to(sockets[i]) is Some,
    ensures
        uses(sockets, pinned_to(sockets[i])->0) > 0,
    decreases sockets.len(),
{
    if i < sockets.len() - 1 {
        lemma_uses_member(sockets.drop_last(), i);
    }
}

// ---- VPN ------------------------------------------------------------------

pub open spec fn is_vpn() -> spec_fn(Interface) -> bool {
    |i: Interface| i.kind is VpnTun
}

pub open spec fn indexes(v: Seq<Interface>) -> Seq<u32> {
    v.map_values(|i: Interface| i.index)
}

pub open spec fn leaves_by_one_of(list: Seq<u32>) -> spec_fn(NextHop) -> bool {
    |h: NextHop| list.contains(h.out_interface_index)
}

pub open spec fn routed_by(list: Seq<u32>) -> spec_fn(Route) -> bool {
    |r: Route| any(r.next_hops@, leaves_by_one_of(list))
}

pub open spec fn tables(routes: Seq<Route>) -> Seq<u32> {
    routes.map_values(|r: Route| r.table)
}

fn leaves_by_listed(route: &Route, list: &Vec<u32>) -> (r: bool)
    ensures
        r == routed_by(list@)(*route),
{
    let ghost p = leaves_by_one_of(list@);
    let mut i: usize = 0;
    while i < route.next_hops.len()
        invariant
            i <= route.next_hops.len(),
            p == leaves_by_one_of(list@),
            forall|k: int| 0 <= k < i ==> !p(#[trigger] route.next_hops@[k]),
        decreases route.next_hops.len() - i,
    {
        if contains_number(list, route.next_hops[i].out_interface_index) {
            assert(p(route.next_hops@[i as int]));
            return true;
        }
        i += 1;
    }
    false
}

/// A default route out through one of the listed interfaces.
pub open spec fn default_through(list: Seq<u32>) -> spec_fn(Route) -> bool {
    |r: Route| r.is_default && routed_by(list)(r)
}

fn vpn_indexes(interfaces: &Vec<Interface>) -> (r: Vec<u32>)
    ensures
        r@ == indexes(interfaces@.filter(is_vpn())),
{
    let ghost p = is_vpn();
    let ghost s = interfaces@;
    let mut r: Vec<u32> = Vec::new();
    let mut i: usize = 0;
    proof {
        lemma_filter_start(s, p);
    }
    while i < interfaces.len()
        invariant
            i <= interfaces.len(),
            s == interfaces@,
            p == is_vpn(),
            r@ == indexes(s.take(i as int).filter(p)),
        decreases interfaces.len() - i,
    {
        proof {
            lemma_filter_step(s, p, i as int);
        }
        if interfaces[i].kind == LinkKind::VpnTun {
            r.push(interfaces[i].index);
        }
        assert(r@ =~= indexes(s.take(i + 1).filter(p)));
        i += 1;
    }
    proof {
        lemma_filter_end(s, p);
    }
    r
}

/// The tables with a default route out through an interface of a VPN.
pub open spec fn tables_of_vpns(routes: Option<Seq<Route>>, interfaces: Seq<Interface>) -> Seq<u32> {
    match routes {
        Some(all) => distinct_ascending(
            tables(all.filter(default_through(indexes(interfaces.filter(is_vpn()))))),
        ),
        None => Seq::empty(),
    }
}

/// Routing tables whose default route leaves through a VPN interface, from all
/// routes that the kernel has (none, if they could not be read).
///
/// Needed to tell "no rule mentions this uid" apart from "a rule deliberately
/// leaves this uid out of the VPN", which look identical from the uid's own
/// point of view but mean very different things.
pub fn vpn_tables(routes: &Option<Vec<Route>>, interfaces: &Vec<Interface>) -> (r: Vec<u32>)
    ensures
        r@ == tables_of_vpns(
            match routes {
                Some(all) => Some(all@),
                None => None,
            },
            interfaces@,
        ),
{
    let through = vpn_indexes(interfaces);
    let ghost p = default_through(through@);
    match routes {
        None => Vec::new(),
        Some(all) => {
            let ghost s = all@;
            let mut found: Vec<u32> = Vec::new();
            let mut i: usize = 0;
            proof {
                lemma_filter_start(s, p);
            }
            while i < all.len()
                invariant
                    i <= all.len(),
                    s == all@,
                    p == default_through(through@),
                    found@ == tables(s.take(i as int).filter(p)),
                decreases all.len() - i,
            {
                proof {
                    lemma_filter_step(s, p, i as int);
                }
                if all[i].is_default && leaves_by_listed(&all[i], &through) {
                    found.push(all[i].table);
                }
                assert(found@ =~= tables(s.take(i + 1).filter(p)));
                i += 1;
            }
            proof {
                lemma_filter_end(s, p);
            }
            sort_dedup(&found)
        },
    }
}

/// A VPN interface that is up.
pub open spec fn is_vpn_up() -> spec_fn(Interface) -> bool {
    |i: Interface| i.kind is VpnTun && i.flags is Some && (i.flags->0).up
}

/// Whether a rule's uid range holds a uid.
pub open spec fn in_uid_range(r: RoutingRule, uid: u32) -> bool {
    r.has_uid_range && r.uid_range_start <= uid <= r.uid_range_end
}

/// An inverted uid range is how Android carves an app out of a VPN.
pub open spec fn carves_out(uid: u32) -> spec_fn(RoutingRule) -> bool {
    |r: RoutingRule| in_uid_range(r, uid) && r.invert
}

/// A rule that names a uid.
pub open spec fn picks(uid: u32) -> spec_fn(RoutingRule) -> bool {
    |r: RoutingRule| in_uid_range(r, uid) && !r.invert
}

/// A uid range rule into one of the tables.
pub open spec fn into_tables(list: Seq<u32>) -> spec_fn(RoutingRule) -> bool {
    |r: RoutingRule| r.has_uid_range && list.contains(r.table)
}

/// A uid range rule into one of the tables that names a uid.
pub open spec fn picks_into(uid: u32, list: Seq<u32>) -> spec_fn(RoutingRule) -> bool {
    |r: RoutingRule| into_tables(list)(r) && picks(uid)(r)
}

pub open spec fn is_vpn_network() -> spec_fn(AndroidNetwork) -> bool {
    |n: AndroidNetwork| n.transports@.contains(Transport::Vpn)
}

pub open spec fn range_holds(id: int) -> spec_fn(UidRange) -> bool {
    |r: UidRange| r.start <= id <= r.stop
}

/// The VPN that the framework knows of.
pub open spec fn vpn_network(android: Option<AndroidNetworkState>) -> Option<AndroidNetwork> {
    match android {
        Some(state) => find(state.networks@, is_vpn_network()),
        None => None,
    }
}

/// Whether the framework puts a uid into a network: the one without uid ranges
/// is for all.
pub open spec fn admits(network: Option<AndroidNetwork>, uid: u32) -> bool {
    match network {
        Some(n) => match n.capabilities {
            Some(caps) => caps.vpn_uid_ranges@.len() == 0 || any(
                caps.vpn_uid_ranges@,
                range_holds(as_signed(uid)),
            ),
            None => false,
        },
        None => false,
    }
}

/// Why an app's traffic does not go through the VPN. Android implements a
/// VPN's per-app list by one uid range rule per contiguous block of included
/// uids, so the absence of a matching rule is the exclusion.
pub open spec fn reason_for_bypass(rules: Seq<RoutingRule>, list: Seq<u32>, uid: u32, uses_vpn: bool) -> Seq<
    char,
> {
    let into_vpn = rules.filter(into_tables(list));
    match find(rules, carves_out(uid)) {
        Some(rule) => "rule priority "@ +
            dec(rule.priority as nat) +
            " explicitly excludes uids "@ +
            dec(rule.uid_range_start as nat) +
            "-"@ +
            dec(rule.uid_range_end as nat) +
            " from table "@ +
            dec(rule.table as nat),
        None => if uses_vpn {
            ""@
        } else if into_vpn.len() > 0 && !any(rules, picks_into(uid, list)) {
            "uid "@ +
                dec(uid as nat) +
                " falls outside all "@ +
                dec(into_vpn.len()) +
                " uid range(s) that route into the VPN's table, so the VPN app's per-app list excludes this app"@
        } else {
            match find(rules, picks(uid)) {
                Some(rule) => "rule priority "@ +
                    dec(rule.priority as nat) +
                    " sends uids "@ +
                    dec(rule.uid_range_start as nat) +
                    "-"@ +
                    dec(rule.uid_range_end as nat) +
                    " to table "@ +
                    dec(rule.table as nat) +
                    " instead of the VPN"@,
                None => "the kernel route lookup does not select the VPN interface"@,
            }
        },
    }
}

fn bypass_reason(rules: &Vec<RoutingRule>, list: &Vec<u32>, uid: u32, uses_vpn: bool) -> (r: String)
    ensures
        r@ == reason_for_bypass(rules@, list@, uid, uses_vpn),
{
    let excludes = |r: &RoutingRule| -> (b: bool)
        ensures
            b == carves_out(uid)(*r),
        { r.has_uid_range && r.invert && uid >= r.uid_range_start && uid <= r.uid_range_end };
    let names = |r: &RoutingRule| -> (b: bool)
        ensures
            b == picks(uid)(*r),
        { r.has_uid_range && !r.invert && uid >= r.uid_range_start && uid <= r.uid_range_end };
    let routes_in = |r: &RoutingRule| -> (b: bool)
        ensures
            b == into_tables(list@)(*r),
        { r.has_uid_range && contains_number(list, r.table) };
    let covers = |r: &RoutingRule| -> (b: bool)
        ensures
            b == picks_into(uid, list@)(*r),
        {
            r.has_uid_range && contains_number(list, r.table) && !r.invert && uid >= r.uid_range_start
                && uid <= r.uid_range_end
        };
    let number = dec_string(uid as u64);
    if let Some(i) = position_of(rules, excludes, Ghost(carves_out(uid))) {
        let rule = &rules[i];
        let (p, a) = (dec_string(rule.priority as u64), dec_string(rule.uid_range_start as u64));
        let (b, t) = (dec_string(rule.uid_range_end as u64), dec_string(rule.table as u64));
        return String::from_str("rule priority ")
            .concat(p.as_str())
            .concat(" explicitly excludes uids ")
            .concat(a.as_str())
            .concat("-")
            .concat(b.as_str())
            .concat(" from table ")
            .concat(t.as_str());
    }
    if uses_vpn {
        return String::from_str("");
    }
    let n = how_many(rules, routes_in, Ghost(into_tables(list@)));
    let covered = position_of(rules, covers, Ghost(picks_into(uid, list@)));
    if n > 0 && covered.is_none() {
        let count = dec_string(n as u64);
        return String::from_str("uid ")
            .concat(number.as_str())
            .concat(" falls outside all ")
            .concat(count.as_str())
            .concat(" uid range(s) that route into the VPN's table, so the VPN app's per-app list excludes this app");
    }
    match position_of(rules, names, Ghost(picks(uid))) {
        Some(i) => {
            let rule = &rules[i];
            let (p, a) = (dec_string(rule.priority as u64), dec_string(rule.uid_range_start as u64));
            let (b, t) = (dec_string(rule.uid_range_end as u64), dec_string(rule.table as u64));
            String::from_str("rule priority ")
                .concat(p.as_str())
                .concat(" sends uids ")
                .concat(a.as_str())
                .concat("-")
                .concat(b.as_str())
                .concat(" to table ")
                .concat(t.as_str())
                .concat(" instead of the VPN")
        },
        None => String::from_str("the kernel route lookup does not select the VPN interface"),
    }
}

fn holds_vpn(list: &Vec<Transport>) -> (r: bool)
    ensures
        r == list@.contains(Transport::Vpn),
{
    let mut i: usize = 0;
    while i < list.len()
        invariant
            i <= list.len(),
            forall|k: int| 0 <= k < i ==> #[trigger] list@[k] != Transport::Vpn,
        decreases list.len() - i,
    {
        if list[i] == Transport::Vpn {
            return true;
        }
        i += 1;
    }
    false
}

fn find_vpn_network(android: Option<&AndroidNetworkState>) -> (r: Option<&AndroidNetwork>)
    ensures
        match r {
            Some(n) => android is Some && vpn_network(Some(*android->0)) == Some(*n),
            None => android is Some ==> vpn_network(Some(*android->0)) is None,
        },
{
    let is_vpn = |n: &AndroidNetwork| -> (b: bool)
        ensures
            b == is_vpn_network()(*n),
        { holds_vpn(&n.transports) };
    match android {
        Some(state) => match position_of(&state.networks, is_vpn, Ghost(is_vpn_network())) {
            Some(i) => Some(&state.networks[i]),
            None => None,
        },
        None => None,
    }
}

fn lets_in(network: Option<&AndroidNetwork>, uid: u32) -> (r: bool)
    ensures
        r == (network is Some && admits(Some(*network->0), uid)),
{
    let id = signed_of(uid);
    let holds = |r: &UidRange| -> (b: bool)
        ensures
            b == range_holds(id as int)(*r),
        { id >= r.start && id <= r.stop };
    match network {
        Some(n) => match &n.capabilities {
            Some(caps) => caps.vpn_uid_ranges.len() == 0 || position_of(
                &caps.vpn_uid_ranges,
                holds,
                Ghost(range_holds(id as int)),
            ).is_some(),
            None => false,
        },
        None => false,
    }
}

/// What an assessment says, given the first VPN interface that is up.
pub open spec fn assessed(
    a: VpnAssessment,
    vpn: Option<Interface>,
    rules: Seq<RoutingRule>,
    list: Seq<u32>,
    uid: u32,
    v4: RouteLookup,
    v6: RouteLookup,
    android: Option<AndroidNetworkState>,
) -> bool {
    match vpn {
        None => {
            &&& !a.vpn_present && !a.app_uses_vpn && !a.app_bypasses_vpn
            &&& !a.framework_says_in_vpn && !a.disagreement && !a.split_tunnel && !a.ipv6_inside_vpn
            &&& a.vpn_interface@ == ""@ && a.bypass_reason@ == ""@ && a.vpn_net_id == 0
        },
        Some(i) => {
            let v4_in = leaves_through(v4, i.index);
            let v6_in = leaves_through(v6, i.index);
            &&& a.vpn_present
            &&& a.vpn_interface@ == i.name@
            &&& a.vpn_net_id == match vpn_network(android) {
                Some(n) => n.net_id,
                None => 0,
            }
            &&& a.app_uses_vpn == (v4_in || v6_in)
            &&& a.app_bypasses_vpn == !a.app_uses_vpn
            &&& a.bypass_reason@ == reason_for_bypass(rules, list, uid, a.app_uses_vpn)
            &&& a.framework_says_in_vpn == admits(vpn_network(android), uid)
            &&& a.disagreement == (a.framework_says_in_vpn != a.app_uses_vpn)
            &&& a.split_tunnel == (v4_in != v6_in)
            &&& a.ipv6_inside_vpn == v6_in
        },
    }
}

/// The framework's state, if there is one.
pub open spec fn state_of(android: Option<&AndroidNetworkState>) -> Option<AndroidNetworkState> {
    match android {
        Some(s) => Some(*s),
        None => None,
    }
}

/// Whether an app's traffic goes through the VPN, by the kernel's decision and
/// by the framework's.
pub fn assess_vpn(
    interfaces: &Vec<Interface>,
    rules: &Vec<RoutingRule>,
    vpn_tables: &Vec<u32>,
    uid: u32,
    lookup_v4: &RouteLookup,
    lookup_v6: &RouteLookup,
    android_state: Option<&AndroidNetworkState>,
) -> (r: VpnAssessment)
    ensures
        assessed(
            r,
            find(interfaces@, is_vpn_up()),
            rules@,
            vpn_tables@,
            uid,
            *lookup_v4,
            *lookup_v6,
            state_of(android_state),
        ),
{
    let up = |i: &Interface| -> (b: bool)
        ensures
            b == is_vpn_up()(*i),
        {
            i.kind == LinkKind::VpnTun && match &i.flags {
                Some(f) => f.up,
                None => false,
            }
        };
    match position_of(interfaces, up, Ghost(is_vpn_up())) {
        None => VpnAssessment {
            vpn_present: false,
            vpn_interface: String::from_str(""),
            vpn_net_id: 0,
            app_uses_vpn: false,
            app_bypasses_vpn: false,
            bypass_reason: String::from_str(""),
            framework_says_in_vpn: false,
            disagreement: false,
            split_tunnel: false,
            ipv6_inside_vpn: false,
        },
        Some(at) => {
            let vpn = &interfaces[at];
            let v4_in_vpn = goes_through(lookup_v4, vpn.index);
            let v6_in_vpn = goes_through(lookup_v6, vpn.index);
            let uses_vpn = v4_in_vpn || v6_in_vpn;
            let network = find_vpn_network(android_state);
            let framework_says_in_vpn = lets_in(network, uid);
            VpnAssessment {
                vpn_present: true,
                vpn_interface: vpn.name.clone(),
                vpn_net_id: match network {
                    Some(n) => n.net_id,
                    None => 0,
                },
                app_uses_vpn: uses_vpn,
                app_bypasses_vpn: !uses_vpn,
                bypass_reason: bypass_reason(rules, vpn_tables, uid, uses_vpn),
                framework_says_in_vpn,
                disagreement: framework_says_in_vpn != uses_vpn,
                split_tunnel: v4_in_vpn != v6_in_vpn,
                ipv6_inside_vpn: v6_in_vpn,
            }
        },
    }
}

/// An app that a VPN interface carries in neither family bypasses it, and is
/// told why; an app that it carries is told no reason unless a rule carves it
/// out.
pub proof fn law_bypass_has_a_reason(
    a: VpnAssessment,
    vpn: Option<Interface>,
    rules: Seq<RoutingRule>,
    list: Seq<u32>,
    uid: u32,
    v4: RouteLookup,
    v6: RouteLookup,
    android: Option<AndroidNetworkState>,
)
    requires
        assessed(a, vpn, rules, list, uid, v4, v6, android),
    ensures
        a.app_bypasses_vpn ==> a.vpn_present && a.bypass_reason@.len() > 0,
        a.app_uses_vpn ==> a.vpn_present && !a.app_bypasses_vpn,
        a.app_uses_vpn && find(rules, carves_out(uid)) is None ==> a.bypass_reason@ == ""@,
        a.split_tunnel ==> a.app_uses_vpn,
{
    reveal_strlit("rule priority ");
    reveal_strlit("uid ");
    reveal_strlit("the kernel route lookup does not select the VPN interface");
}

// ---- Words ------------------------------------------------------------------

/// One app's traffic in a sentence.
pub open spec fn summary_text(
    package: Seq<char>,
    uid: u32,
    egress_v4: Seq<char>,
    egress_v6: Seq<char>,
    sockets: SocketSummary,
    vpn: VpnAssessment,
    ipv4_ok: bool,
    ipv6_ok: bool,
) -> Seq<char> {
    let name = if package.len() == 0 {
        "uid "@ + dec(uid as nat)
    } else {
        package
    };
    let path = match (ipv4_ok, ipv6_ok) {
        (true, true) => "IPv4 via "@ + egress_v4 + ", IPv6 via "@ + egress_v6,
        (true, false) => "IPv4 via "@ + egress_v4 + ", no IPv6 path"@,
        (false, true) => "IPv6 via "@ + egress_v6 + ", no IPv4 path"@,
        (false, false) => "no route out for either family"@,
    };
    let note = if !vpn.vpn_present {
        ""@
    } else if vpn.app_uses_vpn {
        "; goes through "@ + vpn.vpn_interface@
    } else {
        "; bypasses "@ + vpn.vpn_interface@
    };
    name +
        ": "@ +
        path +
        note +
        ". "@ +
        dec(sockets.total as nat) +
        " socket(s), "@ +
        dec(sockets.established as nat) +
        " established, "@ +
        dec(sockets.syn_sent as nat) +
        " in SYN_SENT."@
}

pub fn build_summary(
    app: &AppRef,
    egress_v4: &str,
    egress_v6: &str,
    sockets: &SocketSummary,
    vpn: &VpnAssessment,
    ipv4_ok: bool,
    ipv6_ok: bool,
) -> (r: String)
    ensures
        r@ == summary_text(
            app.package_name@,
            app.uid,
            egress_v4@,
            egress_v6@,
            *sockets,
            *vpn,
            ipv4_ok,
            ipv6_ok,
        ),
{
    let name = if is_empty(app.package_name.as_str()) {
        let uid = dec_string(app.uid as u64);
        String::from_str("uid ").concat(uid.as_str())
    } else {
        app.package_name.clone()
    };
    let path = if ipv4_ok && ipv6_ok {
        String::from_str("IPv4 via ")
            .concat(egress_v4)
            .concat(", IPv6 via ")
            .concat(egress_v6)
    } else if ipv4_ok {
        String::from_str("IPv4 via ").concat(egress_v4).concat(", no IPv6 path")
    } else if ipv6_ok {
        String::from_str("IPv6 via ").concat(egress_v6).concat(", no IPv4 path")
    } else {
        String::from_str("no route out for either family")
    };
    let note = if !vpn.vpn_present {
        String::from_str("")
    } else if vpn.app_uses_vpn {
        String::from_str("; goes through ").concat(vpn.vpn_interface.as_str())
    } else {
        String::from_str("; bypasses ").concat(vpn.vpn_interface.as_str())
    };
    let total = dec_string(sockets.total as u64);
    let established = dec_string(sockets.established as u64);
    let syn_sent = dec_string(sockets.syn_sent as u64);
    String::from_str(name.as_str())
        .concat(": ")
        .concat(path.as_str())
        .concat(note.as_str())
        .concat(". ")
        .concat(total.as_str())
        .concat(" socket(s), ")
        .concat(established.as_str())
        .concat(" established, ")
        .concat(syn_sent.as_str())
        .concat(" in SYN_SENT.")
}

/// What is to be noted of a mark: the netId, and the bits that Android sets.
pub open spec fn mark_notes(mark: u32) -> Seq<Seq<char>> {
    let id = mark & FWMARK_NET_ID_MASK;
    let a = if id != 0 {
        seq!["netId "@ + dec(id as nat)]
    } else {
        Seq::empty()
    };
    let b = if mark & FWMARK_EXPLICITLY_SELECTED != 0 {
        a.push("explicitly selected"@)
    } else {
        a
    };
    if mark & FWMARK_PROTECTED_FROM_VPN != 0 {
        b.push("protected from VPN"@)
    } else {
        b
    }
}

/// A mark in words.
pub open spec fn mark_text(mark: u32) -> Seq<char> {
    if mark == 0 {
        "0 (unmarked, uses the default network)"@
    } else if mark_notes(mark).len() == 0 {
        "0x"@ + hex(mark as nat)
    } else {
        "0x"@ + hex(mark as nat) + " ("@ + join(mark_notes(mark), ", "@) + ")"@
    }
}

/// Decode a socket's mark for display, e.g. "0x10065 (netId 101, explicitly
/// selected)".
pub fn describe_mark(mark: u32) -> (r: String)
    ensures
        r@ == mark_text(mark),
{
    if mark == 0 {
        return String::from_str("0 (unmarked, uses the default network)");
    }
    let net_id = net_id_from_mark(mark);
    let digits = hex_string(mark as u64);
    let mut notes: Vec<String> = Vec::new();
    if net_id != 0 {
        let id = dec_string(net_id as u64);
        notes.push(String::from_str("netId ").concat(id.as_str()));
    }
    if mark & FWMARK_EXPLICITLY_SELECTED != 0 {
        notes.push(String::from_str("explicitly selected"));
    }
    if mark & FWMARK_PROTECTED_FROM_VPN != 0 {
        notes.push(String::from_str("protected from VPN"));
    }
    assert(texts(notes@) =~= mark_notes(mark));
    if notes.len() == 0 {
        String::from_str("0x").concat(digits.as_str())
    } else {
        let list = join_texts(&notes, ", ");
        String::from_str("0x")
            .concat(digits.as_str())
            .concat(" (")
            .concat(list.as_str())
            .concat(")")
    }
}

// ---- The whole chain ----------------------------------------------------------

/// What is asked about an app.
pub struct CorrelationInput {
    pub app: AppRef,
    pub android_state: Option<AndroidNetworkState>,
    pub include_tcp_info: bool,
    pub skip_route_lookup: bool,
}

/// Destinations of the per-uid route lookups. Any global address works; these
/// are stable, anycast, and unlikely to have a host-specific route.
pub open spec fn probe_v4_ip() -> IpAddr {
    IpAddr::V4([1, 1, 1, 1])
}

pub open spec fn probe_v6_ip() -> IpAddr {
    IpAddr::V6([0x26, 0x06, 0x47, 0x00, 0x47, 0, 0, 0, 0, 0, 0, 0, 0, 0, 0x11, 0x11])
}

fn probe_v4() -> (r: IpAddr)
    ensures
        r == probe_v4_ip(),
{
    IpAddr::V4([1, 1, 1, 1])
}

fn probe_v6() -> (r: IpAddr)
    ensures
        r == probe_v6_ip(),
{
    IpAddr::V6([0x26, 0x06, 0x47, 0x00, 0x47, 0, 0, 0, 0, 0, 0, 0, 0, 0, 0x11, 0x11])
}

/// The lookups of an app's two paths, unless they are to be skipped.
pub open spec fn paths_asked(input: CorrelationInput) -> Option<(LookupArguments, LookupArguments)> {
    if input.skip_route_lookup {
        None
    } else {
        let v4 = LookupArguments {
            destination: probe_v4_ip(),
            source_hint: None,
            uid: Some(input.app.uid),
            fwmark: None,
            out_interface_index: 0,
        };
        Some((v4, LookupArguments { destination: probe_v6_ip(), ..v4 }))
    }
}

/// The two lookups that the kernel is asked for, as the app's uid.
pub fn path_requests(input: &CorrelationInput) -> (r: Option<(LookupArguments, LookupArguments)>)
    ensures
        r == paths_asked(*input),
{
    if input.skip_route_lookup {
        return None;
    }
    let v4 = LookupArguments {
        destination: probe_v4(),
        source_hint: None,
        uid: Some(input.app.uid),
        fwmark: None,
        out_interface_index: 0,
    };
    Some((v4, LookupArguments { destination: probe_v6(), ..v4 }))
}

/// Whether a filter asks for the sockets of an app, and for all of them.
pub open spec fn asks_for_own(r: SocketFilter, input: CorrelationInput) -> bool {
    &&& r.uids@ == seq![input.app.uid]
    &&& r.include_tcp_info == input.include_tcp_info
    &&& r.protocols@.len() == 0
    &&& r.families@.len() == 0
    &&& r.states@.len() == 0
    &&& r.interface_indexes@.len() == 0
    &&& r.local_port == 0
    &&& r.remote_port == 0
    &&& r.limit == 0
}

/// The sockets that the kernel is asked for: the app's own.
pub fn own_socket_filter(input: &CorrelationInput) -> (r: SocketFilter)
    ensures
        asks_for_own(r, *input),
{
    let mut uids: Vec<u32> = Vec::new();
    uids.push(input.app.uid);
    assert(uids@ =~= seq![input.app.uid]);
    SocketFilter {
        protocols: Vec::new(),
        families: Vec::new(),
        states: Vec::new(),
        uids,
        interface_indexes: Vec::new(),
        local_port: 0,
        remote_port: 0,
        include_tcp_info: input.include_tcp_info,
        limit: 0,
    }
}

pub open spec fn owned_by(uid: u32) -> spec_fn(Socket) -> bool {
    |s: Socket| s.uid == uid
}

/// The sockets of a uid, up to the limit of a dump.
pub open spec fn own_sockets(all: Seq<Socket>, uid: u32) -> Seq<Socket> {
    let own = all.filter(owned_by(uid));
    if own.len() > DEFAULT_SOCKET_LIMIT {
        own.take(DEFAULT_SOCKET_LIMIT as int)
    } else {
        own
    }
}

/// Whether `out` is a socket with the name of the package that owns it, where
/// there is one.
pub open spec fn labelled(out: Socket, socket: Socket, package: Seq<char>) -> bool {
    if package.len() == 0 {
        out == socket
    } else {
        &&& out == Socket { package_names: out.package_names, ..socket }
        &&& texts(out.package_names@) == seq![package]
    }
}

fn label_sockets(sockets: Vec<Socket>, package: &str) -> (r: Vec<Socket>)
    ensures
        r@.len() == sockets@.len(),
        forall|i: int| 0 <= i < r@.len() ==> labelled(#[trigger] r@[i], sockets@[i], package@),
{
    if is_empty(package) {
        return sockets;
    }
    let ghost all = sockets@;
    let mut out: Vec<Socket> = Vec::new();
    for socket in it: sockets
        invariant
            it.seq() == all,
            package@.len() > 0,
            out@.len() == it.index(),
            forall|i: int| 0 <= i < out@.len() ==> labelled(#[trigger] out@[i], all[i], package@),
    {
        let mut labelled_socket = socket;
        labelled_socket.package_names = one(package);
        out.push(labelled_socket);
    }
    out
}

/// A rule with no uid selector matches everyone and says nothing about this
/// app; only those that select by mark, or that name it, are kept.
pub open spec fn speaks_of(uid: u32) -> spec_fn(RoutingRule) -> bool {
    |r: RoutingRule| matches_uid(r, uid) && (r.has_uid_range || r.has_fwmark)
}

/// The framework network of an app: the one that its own sockets are pinned
/// to, or else the system default.
pub open spec fn network_in_use(android: Option<AndroidNetworkState>, ids: Seq<i32>) -> Option<
    AndroidNetwork,
> {
    match android {
        Some(state) => if ids.len() > 0 {
            network_of(state.networks@, ids[0])
        } else {
            find(state.networks@, is_default_network())
        },
        None => None,
    }
}

fn take_network(android: Option<AndroidNetworkState>, ids: &Vec<i32>) -> (r: Option<AndroidNetwork>)
    ensures
        r == network_in_use(android, ids@),
{
    let default = |n: &AndroidNetwork| -> (b: bool)
        ensures
            b == is_default_network()(*n),
        { n.is_default };
    match android {
        None => None,
        Some(state) => {
            let mut networks = state.networks;
            if ids.len() > 0 {
                let id = ids[0];
                let pinned = |n: &AndroidNetwork| -> (b: bool)
                    ensures
                        b == has_net_id(id)(*n),
                    { n.net_id == id };
                if let Some(i) = position_of(&networks, pinned, Ghost(has_net_id(id))) {
                    return Some(networks.swap_remove(i));
                }
            }
            match position_of(&networks, default, Ghost(is_default_network())) {
                Some(i) => Some(networks.swap_remove(i)),
                None => None,
            }
        },
    }
}

/// What the per-uid firewall has to say.
pub open spec fn firewall_words(state: UidFirewallState) -> Seq<char> {
    if !state.source_available {
        "per-uid firewall state could not be read from netd's eBPF map"@
    } else if state.raw_match == 0 {
        "no per-uid firewall rules apply"@
    } else {
        "firewall bits: "@ + join(rule_texts(state.raw_match), ", "@)
    }
}

pub fn firewall_note(state: &UidFirewallState) -> (r: String)
    ensures
        r@ == firewall_words(*state),
{
    if !state.source_available {
        String::from_str("per-uid firewall state could not be read from netd's eBPF map")
    } else if state.raw_match == 0 {
        String::from_str("no per-uid firewall rules apply")
    } else {
        let bits = decode_match_bits(state.raw_match);
        let list = join_texts(&bits, ", ");
        String::from_str("firewall bits: ").concat(list.as_str())
    }
}

fn no_lookup() -> (r: RouteLookup)
    ensures
        is_no_lookup(r),
{
    RouteLookup {
        destination: None,
        source_hint: None,
        uid: 0,
        fwmark: 0,
        out_interface_index: 0,
        table: 0,
        route: None,
        error: None,
    }
}

/// A lookup that was not made.
pub open spec fn is_no_lookup(l: RouteLookup) -> bool {
    &&& l.destination is None && l.source_hint is None
    &&& l.uid == 0 && l.fwmark == 0 && l.out_interface_index == 0 && l.table == 0
    &&& l.route is None && l.error is None
}

/// The table of the route that a lookup found.
pub open spec fn table_of(l: RouteLookup) -> u32 {
    match l.route {
        Some(r) => r.table,
        None => 0,
    }
}

fn table_in(l: &RouteLookup) -> (r: u32)
    ensures
        r == table_of(*l),
{
    match &l.route {
        Some(r) => r.table,
        None => 0,
    }
}

/// Whether a routing path is that of a uid, by the rules and lookups.
pub open spec fn path_told(
    p: UidRoutingPath,
    uid: u32,
    rules: Seq<RoutingRule>,
    v4: RouteLookup,
    v6: RouteLookup,
) -> bool {
    &&& p.uid == uid
    &&& p.matching_rules@ == rules.filter(speaks_of(uid))
    &&& p.table_v4 == table_of(v4)
    &&& p.table_v6 == table_of(v6)
    &&& p.egress_interface_v4@ == egress(v4)
    &&& p.egress_interface_v6@ == egress(v6)
    &&& p.lookup_v4 == Some(v4)
    &&& p.lookup_v6 == Some(v6)
}

/// Whether this is what the kernel's tables, its two lookups (where they were
/// made), its sockets and netd's map say of one app.
pub open spec fn app_told(
    r: AppNetworkState,
    interfaces: Seq<Interface>,
    routes: Option<Seq<Route>>,
    all_rules: Seq<RoutingRule>,
    lookups: Option<(RouteLookup, RouteLookup)>,
    all_sockets: Seq<Socket>,
    firewall: MapReading,
    input: CorrelationInput,
) -> bool {
    &&& r.app == Some(input.app)
    &&& r.routing is Some
    &&& (r.routing->0).lookup_v4 is Some
    &&& (r.routing->0).lookup_v6 is Some
    &&& r.vpn is Some
    &&& r.socket_summary is Some
    &&& {
        let uid = input.app.uid;
        let rules = sort_by(all_rules, rule_before());
        let v4 = (r.routing->0).lookup_v4->0;
        let v6 = (r.routing->0).lookup_v6->0;
        let own = own_sockets(all_sockets, uid);
        let through = tables_of_vpns(routes, interfaces);
        &&& match lookups {
            Some((a, b)) => v4 == a && v6 == b,
            None => is_no_lookup(v4) && is_no_lookup(v6),
        }
        &&& path_told(r.routing->0, uid, rules, v4, v6)
        &&& r.sockets@.len() == own.len()
        &&& forall|i: int|
            0 <= i < own.len() ==> labelled(#[trigger] r.sockets@[i], own[i], input.app.package_name@)
        &&& counted(r.socket_summary->0, own)
        &&& most_used_first(r.observed_net_ids@, own)
        &&& r.android_network == network_in_use(input.android_state, r.observed_net_ids@)
        &&& assessed(
            r.vpn->0,
            find(interfaces, is_vpn_up()),
            rules,
            through,
            uid,
            v4,
            v6,
            input.android_state,
        )
        &&& r.firewall_note@ == firewall_words(firewall_told(uid, firewall))
        &&& r.ipv4_path_ok == (v4.route is Some)
        &&& r.ipv6_path_ok == (v6.route is Some)
        &&& r.summary@ == summary_text(
            input.app.package_name@,
            uid,
            egress(v4),
            egress(v6),
            r.socket_summary->0,
            r.vpn->0,
            r.ipv4_path_ok,
            r.ipv6_path_ok,
        )
    }
}

/// What the kernel's tables, its two lookups (where they were made), its
/// sockets and netd's map say of one app.
pub fn app_network_state(
    interfaces: &Vec<Interface>,
    routes: &Option<Vec<Route>>,
    all_rules: Vec<RoutingRule>,
    lookups: Option<(RouteLookup, RouteLookup)>,
    all_sockets: Vec<Socket>,
    firewall: MapReading,
    input: CorrelationInput,
) -> (r: AppNetworkState)
    ensures
        app_told(
            r,
            interfaces@,
            match routes {
                Some(all) => Some(all@),
                None => None,
            },
            all_rules@,
            lookups,
            all_sockets@,
            firewall,
            input,
        ),
{
    let uid = input.app.uid;
    let ghost every = rule_wanted(None);
    proof {
        lemma_filter_all(all_rules@, every);
    }
    let rules = get_rules(all_rules, None);
    let (v4, v6) = match lookups {
        Some((a, b)) => (a, b),
        None => (no_lookup(), no_lookup()),
    };
    let filter = own_socket_filter(&input);
    let ghost own = owned_by(uid);
    assert forall|s: Socket| #[trigger] passes(filter)(s) == own(s) by {
        assert(seq![uid].contains(s.uid) <==> s.uid == uid) by {
            assert(seq![uid][0] == uid);
        }
    }
    assert(passes(filter) =~= own);
    let dump = get_sockets(all_sockets, &filter);
    let observed = observed_net_ids(&dump.sockets);
    let through = vpn_tables(routes, interfaces);
    let vpn = assess_vpn(interfaces, &rules, &through, uid, &v4, &v6, input.android_state.as_ref());
    let note = firewall_note(&read_uid_firewall(uid, firewall));
    let (egress_v4, egress_v6) = (egress_name(&v4), egress_name(&v6));
    let (ipv4_path_ok, ipv6_path_ok) = (v4.route.is_some(), v6.route.is_some());
    let summary = build_summary(
        &input.app,
        egress_v4.as_str(),
        egress_v6.as_str(),
        &dump.summary,
        &vpn,
        ipv4_path_ok,
        ipv6_path_ok,
    );
    let android_network = take_network(input.android_state, &observed);
    let sockets = label_sockets(dump.sockets, input.app.package_name.as_str());
    let speaks = |r: &RoutingRule| -> (b: bool)
        ensures
            b == speaks_of(uid)(*r),
        { rule_can_match_uid(r, uid) && (r.has_uid_range || r.has_fwmark) };
    let routing = UidRoutingPath {
        uid,
        matching_rules: keep(rules, speaks, Ghost(speaks_of(uid))),
        table_v4: table_in(&v4),
        table_v6: table_in(&v6),
        egress_interface_v4: egress_v4,
        egress_interface_v6: egress_v6,
        lookup_v4: Some(v4),
        lookup_v6: Some(v6),
    };
    AppNetworkState {
        app: Some(input.app),
        android_network,
        routing: Some(routing),
        sockets,
        socket_summary: Some(dump.summary),
        vpn: Some(vpn),
        firewall_note: note,
        observed_net_ids: observed,
        ipv4_path_ok,
        ipv6_path_ok,
        summary,
    }
}

} // verus!
