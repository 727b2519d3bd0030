//! What the kernel's messages say of routes, rules and neighbours, and which of them a
//! request gets.
use vstd::prelude::*;

use crate::collect::neigh::{
    bytes_before, families_meant, family_of, neighbor_before, neighbor_is, neighbor_wanted,
    neighbour_told, NeighbourAttribute, NeighbourMessage,
};
use crate::collect::routes::{
    asks_kernel, hop_said, hops_said, leaves_by, lookup_attributes, lookup_told, metrics_told,
    multipath, route_before, route_hops, route_protocol, route_scope, route_told, route_type,
    route_wanted, rule_before, rule_is, rule_told, rule_wanted, table_names_of, LookupAttribute,
    LookupRequest, MultipathHop, RouteAttribute, RouteMessage, RouteMetric, RuleAttribute,
    RuleMessage,
};
use crate::ip::IpAddr;
use crate::proto::{
    IpFamily, Neighbor, Route, RouteLookup, RouteMetrics, RouteProtocol, RouteScope, RouteType,
    RoutingRule, RuleAction,
};
use crate::seqs::{any, last_some};

verus! {

/// The families of the kernel are 2 for IPv4 and 10 for IPv6.
pub proof fn law_families_of_the_kernel(n: u8)
    ensures
        family_of(n) == IpFamily::V4 <==> n == 2,
        family_of(n) == IpFamily::V6 <==> n == 10,
{
}

// ---- Routes -----------------------------------------------------------------------

/// One more attribute of a route sets what it is about: the table, the destination, the
/// preferred source, the metric or the expiry.
pub proof fn law_a_route_attribute_sets_its_own(
    r: Route,
    before: Route,
    msg: RouteMessage,
    shorter: RouteMessage,
    a: RouteAttribute,
    names: Map<u32, String>,
)
    requires
        route_told(r, msg, names),
        route_told(before, shorter, names),
        msg == (RouteMessage { attributes: msg.attributes, ..shorter }),
        msg.attributes@ == shorter.attributes@.push(a),
    ensures
        r.table == if let RouteAttribute::Table(v) = a { v } else { before.table },
        r.priority == if let RouteAttribute::Priority(v) = a { v } else { before.priority },
        r.expires_sec == if let RouteAttribute::Expires(v) = a {
            v
        } else if let RouteAttribute::CacheInfo(v) = a {
            if v != 0 { v } else { before.expires_sec }
        } else {
            before.expires_sec
        },
        r.family == before.family && r.kind == before.kind && r.scope == before.scope,
        a matches RouteAttribute::PrefSource(Some(ip)) ==> (r.preferred_source matches Some(x)
            && IpAddr::of(x.addr@) == Some(ip)),
        a matches RouteAttribute::Destination(Some(ip)) ==> !r.is_default && (
        r.destination matches Some(p) && (p.address matches Some(x) && IpAddr::of(x.addr@) == Some(ip))),
        !(a is Destination) ==> r.is_default == before.is_default,
{
    assert(msg.attributes@.drop_last() =~= shorter.attributes@);
}

/// What stands in the head of a message stands in its route. Without attributes the
/// table is the head's, and the route is the default one exactly if it has no prefix.
pub proof fn law_the_head_of_a_route(r: Route, msg: RouteMessage, names: Map<u32, String>)
    requires
        route_told(r, msg, names),
    ensures
        r.family == family_of(msg.family) && r.flags == msg.flags && r.protocol_raw == msg.protocol,
        r.destination matches Some(p) && p.prefix_len == msg.destination_prefix_length,
        r.is_default ==> msg.destination_prefix_length == 0,
        msg.attributes@.len() == 0 ==> r.table == msg.table && r.priority == 0 && r.expires_sec == 0
            && (r.is_default <==> msg.destination_prefix_length == 0) && r.preferred_source is None,
{
}

/// A route without several ways has one: by its gateway, if there is one, and its
/// interface, whose name is looked up.
pub proof fn law_a_simple_route_has_one_hop(
    r: Route,
    msg: RouteMessage,
    names: Map<u32, String>,
    gateway: IpAddr,
    index: u32,
)
    requires
        route_told(r, msg, names),
        msg.attributes@ == seq![RouteAttribute::Gateway(Some(gateway)), RouteAttribute::Oif(index)]
            || msg.attributes@ == seq![RouteAttribute::Oif(index)],
    ensures
        r.next_hops@.len() == 1,
        r.next_hops@[0].out_interface_index == index,
        names.contains_key(index) ==> r.next_hops@[0].out_interface_name@ == names[index]@,
        r.next_hops@[0].weight == 1,
        msg.attributes@.len() == 2 ==> (r.next_hops@[0].gateway matches Some(x) && x.addr@
            == gateway.octets()),
        msg.attributes@.len() == 1 ==> r.next_hops@[0].gateway is None,
{
    let attrs = msg.attributes@;
    reveal_with_fuel(multipath, 3);
    reveal_with_fuel(last_some, 3);
    assert(multipath(attrs, names).len() == 0);
    assert(hops_said(r.next_hops@).len() == 1);
    assert(hops_said(r.next_hops@)[0] == hop_said(r.next_hops@[0]));
    assert(route_hops(attrs, names)[0] == hop_said(r.next_hops@[0]));
}

/// A route with several ways has each of them, in order: with its interface, its last
/// gateway, and one more than the number of hops for its weight.
pub proof fn law_a_multipath_route_has_its_hops(
    r: Route,
    msg: RouteMessage,
    names: Map<u32, String>,
    hops: Vec<MultipathHop>,
    i: int,
)
    requires
        route_told(r, msg, names),
        msg.attributes@ == seq![RouteAttribute::MultiPath(hops)],
        0 <= i < hops@.len(),
    ensures
        r.next_hops@.len() == hops@.len(),
        r.next_hops@[i].out_interface_index == hops@[i].interface_index,
        r.next_hops@[i].weight == hops@[i].hops + 1,
        r.next_hops@[i].flags == hops@[i].flags,
        hops@[i].gateways@.len() == 0 ==> r.next_hops@[i].gateway is None,
        hops@[i].gateways@.len() > 0 ==> (hops@[i].gateways@.last() matches Some(ip) ==> (
        r.next_hops@[i].gateway matches Some(x) && x.addr@ == ip.octets())),
{
    let attrs = msg.attributes@;
    reveal_with_fuel(multipath, 2);
    assert(attrs.drop_last() =~= Seq::empty());
    let m = multipath(attrs, names);
    assert(m.len() == hops@.len());
    assert(hops_said(r.next_hops@).len() == hops@.len());
    assert(hops_said(r.next_hops@)[i] == hop_said(r.next_hops@[i]));
    assert(m[i] == hop_said(r.next_hops@[i]));
}

/// One more metric of a route sets its own; the third bit of the lock is that of the MTU.
#[verifier::rlimit(40)]
pub proof fn law_a_metric_sets_its_own(m: RouteMetrics, list: Vec<RouteMetric>, x: RouteMetric)
    requires
        metrics_told(m, seq![RouteAttribute::Metrics(list)]),
        list@ == seq![x],
    ensures
        m.mtu == if let RouteMetric::Mtu(v) = x { v } else { 0 },
        m.advmss == if let RouteMetric::Advmss(v) = x { v } else { 0 },
        m.window == if let RouteMetric::Window(v) = x { v } else { 0 },
        m.hoplimit == if let RouteMetric::Hoplimit(v) = x { v } else { 0 },
        m.initcwnd == if let RouteMetric::InitCwnd(v) = x { v } else { 0 },
        m.initrwnd == if let RouteMetric::InitRwnd(v) = x { v } else { 0 },
        m.rtt_ms == if let RouteMetric::Rtt(v) = x { v } else { 0 },
        m.mtu_locked <==> (x matches RouteMetric::Lock(v) && v & 0x4 != 0),
{
    let attrs = seq![RouteAttribute::Metrics(list)];
    assert(attrs.drop_last() =~= Seq::empty());
    assert(list@.drop_last() =~= Seq::empty());
    reveal_with_fuel(last_some, 3);
}

/// Who installed a route, how far it reaches and what it does have the kernel's numbers.
pub proof fn law_numbers_of_a_route(n: u8)
    ensures
        route_protocol(n) == RouteProtocol::Redirect <==> n == 1,
        route_protocol(n) == RouteProtocol::Kernel <==> n == 2,
        route_protocol(n) == RouteProtocol::Boot <==> n == 3,
        route_protocol(n) == RouteProtocol::Static <==> n == 4,
        route_protocol(n) == RouteProtocol::Ra <==> n == 9,
        route_protocol(n) == RouteProtocol::Dhcp <==> n == 16,
        route_scope(n) == RouteScope::Universe <==> n == 0,
        route_scope(n) == RouteScope::Link <==> n == 253,
        route_scope(n) == RouteScope::Host <==> n == 254,
        route_type(n) == RouteType::Unicast <==> n == 1,
        route_type(n) == RouteType::Local <==> n == 2,
        route_type(n) == RouteType::Broadcast <==> n == 3,
        route_type(n) == RouteType::Anycast <==> n == 4,
        route_type(n) == RouteType::Multicast <==> n == 5,
        route_type(n) == RouteType::Blackhole <==> n == 6,
        route_type(n) == RouteType::Unreachable <==> n == 7,
        route_type(n) == RouteType::Prohibit <==> n == 8,
        route_type(n) == RouteType::Throw <==> n == 9,
{
}

/// A request for routes gets those of its table, its interface and, if it asks for them
/// alone, the default ones; zero narrows nothing.
pub proof fn law_which_routes_are_asked_for(table: u32, only_default: bool, index: u32, r: Route)
    ensures
        route_wanted(table, only_default, index)(r) <==> (table != 0 ==> r.table == table) && (only_default
            ==> r.is_default) && (index != 0 ==> exists|h: int|
            0 <= h < r.next_hops@.len() && (#[trigger] r.next_hops@[h]).out_interface_index == index),
{
    let p = leaves_by(index);
    let v = r.next_hops@;
    if any(v, p) {
        let h = choose|h: int| 0 <= h < v.len() && p(#[trigger] v[h]);
        assert(v[h].out_interface_index == index);
    }
    if exists|h: int| 0 <= h < v.len() && (#[trigger] v[h]).out_interface_index == index {
        let h = choose|h: int| 0 <= h < v.len() && (#[trigger] v[h]).out_interface_index == index;
        assert(p(v[h]));
    }
}

/// Of two routes the one in the lower table comes first, in one table the one with the
/// longer prefix, and of equal prefixes the one with the lower metric.
pub proof fn law_which_route_comes_first(a: Route, b: Route, m: u32, n: u32)
    requires
        a.destination matches Some(p) && p.prefix_len == m,
        b.destination matches Some(p) && p.prefix_len == n,
    ensures
        a.table < b.table ==> route_before()(a, b) && !route_before()(b, a),
        a.table == b.table && m > n ==> route_before()(a, b) && !route_before()(b, a),
        a.table == b.table && m == n && a.priority < b.priority ==> route_before()(a, b) && !route_before()(
            b,
            a,
        ),
        a.table == b.table && m == n && a.priority == b.priority ==> !route_before()(a, b),
{
}

/// The tables of a listing are named as their routes name them.
pub proof fn law_tables_are_named_by_their_routes(routes: Seq<Route>, r: Route)
    ensures
        r.table_name@.len() > 0 ==> table_names_of(routes.push(r)) == table_names_of(routes).insert(
            r.table,
            r.table_name,
        ),
        r.table_name@.len() == 0 ==> table_names_of(routes.push(r)) == table_names_of(routes),
        table_names_of(Seq::empty()) == Map::<u32, String>::empty(),
{
    assert(routes.push(r).drop_last() =~= routes);
}

// ---- Rules ------------------------------------------------------------------------

/// One more attribute of a rule sets what it is about, and nothing else; a rule has a
/// mark or a uid range exactly if an attribute gives it one.
#[verifier::rlimit(60)]
pub proof fn law_a_rule_attribute_sets_its_own(
    r: RoutingRule,
    before: RoutingRule,
    attrs: Seq<RuleAttribute>,
    a: RuleAttribute,
    table: u32,
    src_len: u8,
    dst_len: u8,
)
    requires
        rule_told(before, attrs, table, src_len, dst_len),
        rule_told(r, attrs.push(a), table, src_len, dst_len),
    ensures
        r.priority == if let RuleAttribute::Priority(v) = a { v } else { before.priority },
        r.table == if let RuleAttribute::Table(v) = a {
            v
        } else if let RuleAttribute::Goto(v) = a {
            v
        } else {
            before.table
        },
        r.fwmark == if let RuleAttribute::FwMark(v) = a { v } else { before.fwmark },
        r.has_fwmark == (a is FwMark || before.has_fwmark),
        r.fwmask == if let RuleAttribute::FwMask(v) = a { v } else { before.fwmask },
        r.input_interface@ == if let RuleAttribute::Iifname(v) = a {
            v@
        } else {
            before.input_interface@
        },
        r.output_interface@ == if let RuleAttribute::Oifname(v) = a {
            v@
        } else {
            before.output_interface@
        },
        a matches RuleAttribute::UidRange { start, end } ==> r.uid_range_start == start && r.uid_range_end
            == end,
        !(a is UidRange) ==> r.uid_range_start == before.uid_range_start && r.uid_range_end
            == before.uid_range_end,
        r.has_uid_range == (a is UidRange || before.has_uid_range),
        r.protocol == if let RuleAttribute::Protocol(v) = a { v as u32 } else { before.protocol },
        r.suppress_prefix_len == if let RuleAttribute::SuppressPrefixLen(v) = a {
            v
        } else {
            before.suppress_prefix_len
        },
        r.has_suppress_prefix_len == (a is SuppressPrefixLen || before.has_suppress_prefix_len),
        a matches RuleAttribute::Source(ip) ==> (r.source matches Some(p) && p.prefix_len == src_len && (
        p.address matches Some(x) && IpAddr::of(x.addr@) == Some(ip))),
        a matches RuleAttribute::Destination(ip) ==> (r.destination matches Some(p) && p.prefix_len
            == dst_len && (p.address matches Some(x) && IpAddr::of(x.addr@) == Some(ip))),
{
    assert(attrs.push(a).drop_last() =~= attrs);
}

/// A rule without attributes selects nothing and sends to the table of its head; the
/// second bit of its flags turns its selectors around.
pub proof fn law_the_head_of_a_rule(r: RoutingRule, msg: RuleMessage)
    requires
        rule_is(r, msg),
    ensures
        r.invert <==> msg.flags & 0x2 != 0,
        r.tos == msg.tos,
        r.action == RuleAction::ToTable <==> msg.action == 1,
        r.action == RuleAction::Goto <==> msg.action == 2,
        r.action == RuleAction::Nop <==> msg.action == 3,
        r.action == RuleAction::Blackhole <==> msg.action == 6,
        r.action == RuleAction::Unreachable <==> msg.action == 7,
        r.action == RuleAction::Prohibit <==> msg.action == 8,
        msg.attributes@.len() == 0 ==> r.table == msg.table && r.priority == 0 && !r.has_fwmark
            && !r.has_uid_range && r.source is None && r.destination is None,
{
}

/// A request for the rules of a uid gets those without a uid range, those whose range
/// holds it, and the inverted ones whose range does not; without a uid it gets all.
pub proof fn law_which_rules_are_asked_for(uid: u32, r: RoutingRule)
    ensures
        rule_wanted(None)(r),
        !r.has_uid_range ==> rule_wanted(Some(uid))(r),
        r.has_uid_range && !r.invert ==> (rule_wanted(Some(uid))(r) <==> r.uid_range_start <= uid && uid
            <= r.uid_range_end),
        r.has_uid_range && r.invert ==> (rule_wanted(Some(uid))(r) <==> uid < r.uid_range_start
            || r.uid_range_end < uid),
{
}

/// Rules of IPv4 come before those of IPv6, and in a family the lower number first.
pub proof fn law_which_rule_comes_first(a: RoutingRule, b: RoutingRule)
    ensures
        a.family == IpFamily::V4 && b.family == IpFamily::V6 ==> rule_before()(a, b) && !rule_before()(b, a),
        a.family == b.family ==> (rule_before()(a, b) <==> a.priority < b.priority),
{
}

/// A lookup asks the kernel for one address, of the family and of the whole length that
/// it has, and for the table in which the search ends.
pub proof fn law_how_a_lookup_is_asked(
    r: LookupRequest,
    destination: IpAddr,
    source: Option<IpAddr>,
    uid: Option<u32>,
    mark: Option<u32>,
    index: u32,
)
    requires
        asks_kernel(r, destination, source, uid, mark, index),
    ensures
        destination is V4 ==> r.family == 2 && r.destination_prefix_length == 32,
        destination is V6 ==> r.family == 10 && r.destination_prefix_length == 128,
        source is None ==> r.source_prefix_length == 0,
        source matches Some(s) ==> r.source_prefix_length == 8 * s.octets().len(),
        r.flags == 0x1000,
        r.attributes@ == lookup_attributes(destination, source, uid, mark, index),
{
}

/// What the kernel answered is what a lookup tells: a route with its table, or the
/// kernel's words; and it tells what was asked.
pub proof fn law_what_a_lookup_tells(
    r: RouteLookup,
    destination: IpAddr,
    source: Option<IpAddr>,
    uid: Option<u32>,
    mark: Option<u32>,
    index: u32,
    answer: Result<Route, String>,
)
    requires
        lookup_told(r, destination, source, uid, mark, index, answer),
    ensures
        answer matches Ok(route) ==> r.route == Some(route) && r.error is None && r.table == route.table,
        answer matches Err(words) ==> r.route is None && r.table == 0 && (r.error matches Some(e)
            && e.message == words),
        r.destination matches Some(a) && IpAddr::of(a.addr@) == Some(destination),
        uid matches Some(u) ==> r.uid == u,
        mark matches Some(m) ==> r.fwmark == m,
        r.out_interface_index == index,
{
}

/// The families that a family stands for: itself, and both where none is named.
pub proof fn law_which_families_are_meant()
    ensures
        families_meant(IpFamily::V4) == seq![2u8],
        families_meant(IpFamily::V6) == seq![10u8],
        families_meant(IpFamily::Unspecified) == seq![2u8, 10u8],
{
}

/// A lookup asks for its destination, and for what is known of the packet: each exactly
/// where it is known.
pub proof fn law_a_lookup_asks_for_what_is_known(
    destination: IpAddr,
    source: Option<IpAddr>,
    uid: Option<u32>,
    mark: Option<u32>,
    index: u32,
    u: u32,
    s: IpAddr,
)
    ensures
        ({
            let v = lookup_attributes(destination, source, uid, mark, index);
            &&& v.len() > 0 && v[0] == LookupAttribute::Destination(destination)
            &&& v.contains(LookupAttribute::Uid(u)) <==> uid == Some(u)
            &&& v.contains(LookupAttribute::Mark(u)) <==> mark == Some(u)
            &&& v.contains(LookupAttribute::Oif(u)) <==> index == u && u != 0
            &&& v.contains(LookupAttribute::Source(s)) <==> source == Some(s)
        }),
{
    let v = lookup_attributes(destination, source, uid, mark, index);
    let a: int = if source is Some { 2 } else { 1 };
    let b: int = if uid is Some { a + 1 } else { a };
    let c: int = if mark is Some { b + 1 } else { b };
    if let Some(x) = source {
        assert(v[1] == LookupAttribute::Source(x));
    }
    if let Some(x) = uid {
        assert(v[a] == LookupAttribute::Uid(x));
    }
    if let Some(x) = mark {
        assert(v[b] == LookupAttribute::Mark(x));
    }
    if index != 0 {
        assert(v[c] == LookupAttribute::Oif(index));
    }
}

// ---- Neighbours --------------------------------------------------------------------

/// One more attribute of a neighbour sets what it is about, and nothing else. Times are
/// told in milliseconds.
pub proof fn law_a_neighbour_attribute_sets_its_own(
    n: Neighbor,
    before: Neighbor,
    attrs: Seq<NeighbourAttribute>,
    a: NeighbourAttribute,
)
    requires
        neighbour_told(before, attrs),
        neighbour_told(n, attrs.push(a)),
    ensures
        a matches NeighbourAttribute::Destination(Some(ip)) ==> (n.address matches Some(x) && x.addr@
            == ip.octets()),
        n.link_address@ == if let NeighbourAttribute::LinkLayerAddress(v) = a {
            v@
        } else {
            before.link_address@
        },
        n.probes == if let NeighbourAttribute::Probes(v) = a { v } else { before.probes },
        a matches NeighbourAttribute::CacheInfo { confirmed, used, updated } ==> {
            &&& confirmed < 0x1000_0000 ==> n.confirmed_ms == 10 * confirmed
            &&& used < 0x1000_0000 ==> n.used_ms == 10 * used
            &&& updated < 0x1000_0000 ==> n.updated_ms == 10 * updated
        },
        !(a is CacheInfo) ==> n.confirmed_ms == before.confirmed_ms && n.used_ms == before.used_ms
            && n.updated_ms == before.updated_ms,
{
    assert(attrs.push(a).drop_last() =~= attrs);
}

/// A neighbour is on the interface of its message, and a router by the highest bit of
/// its flags.
pub proof fn law_the_head_of_a_neighbour(n: Neighbor, msg: NeighbourMessage, names: Map<u32, String>)
    requires
        neighbor_is(n, msg, names),
    ensures
        n.interface_index == msg.ifindex && n.flags == msg.flags,
        n.is_router <==> msg.flags & 0x80 != 0,
        names.contains_key(msg.ifindex) ==> n.interface_name@ == names[msg.ifindex]@,
{
}

/// A request for neighbours gets those of its interface, and the routers alone if it
/// asks for them; zero is every interface.
pub proof fn law_which_neighbours_are_asked_for(index: u32, only_routers: bool, n: Neighbor)
    ensures
        neighbor_wanted(index, only_routers)(n) <==> (index != 0 ==> n.interface_index == index) && (
        only_routers ==> n.is_router),
{
}

/// Neighbours come by interface, those without an address first, and then by the first
/// byte in which their addresses differ.
pub proof fn law_which_neighbour_comes_first(a: Neighbor, b: Neighbor)
    ensures
        a.interface_index < b.interface_index ==> neighbor_before()(a, b) && !neighbor_before()(b, a),
        a.interface_index == b.interface_index && a.address is None && b.address is Some
            ==> neighbor_before()(a, b) && !neighbor_before()(b, a),
{
}

/// Bytes come before others by the first byte in which they differ.
pub proof fn law_bytes_are_ordered_by_the_first_that_differs(a: Seq<u8>, b: Seq<u8>, k: int)
    requires
        0 <= k < a.len(),
        k < b.len(),
        forall|i: int| 0 <= i < k ==> a[i] == b[i],
        a[k] != b[k],
    ensures
        bytes_before(a, b) <==> a[k] < b[k],
    decreases k,
{
    if k > 0 {
        let (c, d) = (a.skip(1), b.skip(1));
        assert forall|i: int| 0 <= i < k - 1 implies c[i] == d[i] by {
            assert(a[i + 1] == b[i + 1]);
        }
        assert(a[0] == b[0]);
        law_bytes_are_ordered_by_the_first_that_differs(c, d, k - 1);
    }
}

} // verus!
