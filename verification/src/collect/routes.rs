//! Routes and policy-routing rules (RTM_GETROUTE / RTM_GETRULE), plus the
//! kernel-authoritative route lookup that answers "where would this packet
//! actually go for this uid?".
use std::collections::HashMap;

use vstd::prelude::*;

use crate::collect::neigh::{family_of, family_to_proto, AF_INET, AF_INET6};
use crate::collect::{name_in, name_or_empty};
use crate::ip::IpAddr;
use crate::proto::{
    address_ip, optional_bytes, Error, ErrorCode, IpAddress, IpFamily, IpPrefix, NextHop, Route,
    RouteLookup, RouteMetrics, RouteProtocol, RouteScope, RouteType, RoutingRule, RuleAction,
};
use crate::seqs::{
    any, in_order, last_some, law_sort_by, lemma_filter_end, lemma_filter_start, lemma_filter_step,
    or, sort_by, stable_sort,
};
use crate::text::{dec, dec_string, is_empty};
use crate::util::{fixed_table_name, well_known_table_name};

verus! {

// ---- The kernel's messages ----------------------------------------------------

/// One metric of a route.
pub enum RouteMetric {
    Mtu(u32),
    /// A bit for each metric that must not change.
    Lock(u32),
    Advmss(u32),
    Window(u32),
    Hoplimit(u32),
    InitCwnd(u32),
    InitRwnd(u32),
    Rtt(u32),
}

/// One way out of a multipath route.
pub struct MultipathHop {
    pub interface_index: u32,
    /// The weight, less one.
    pub hops: u8,
    pub flags: u8,
    /// What the gateway attributes hold, if it is an IP address.
    pub gateways: Vec<Option<IpAddr>>,
}

/// One attribute of an RTM_NEWROUTE message. An address is missing where it is
/// not an IP address.
pub enum RouteAttribute {
    Table(u32),
    Destination(Option<IpAddr>),
    PrefSource(Option<IpAddr>),
    Gateway(Option<IpAddr>),
    Oif(u32),
    Priority(u32),
    Expires(u32),
    /// The expiry in the cache information.
    CacheInfo(u32),
    Metrics(Vec<RouteMetric>),
    MultiPath(Vec<MultipathHop>),
}

/// An RTM_NEWROUTE message.
pub struct RouteMessage {
    pub family: u8,
    pub table: u8,
    pub protocol: u8,
    pub scope: u8,
    pub kind: u8,
    pub flags: u32,
    pub destination_prefix_length: u8,
    pub attributes: Vec<RouteAttribute>,
}

/// One attribute of an RTM_NEWRULE message.
pub enum RuleAttribute {
    Priority(u32),
    Table(u32),
    FwMark(u32),
    FwMask(u32),
    Iifname(String),
    Oifname(String),
    Source(IpAddr),
    Destination(IpAddr),
    UidRange { start: u32, end: u32 },
    SuppressPrefixLen(u32),
    SuppressIfGroup(u32),
    Protocol(u8),
    Goto(u32),
}

/// An RTM_NEWRULE message.
pub struct RuleMessage {
    pub family: u8,
    pub table: u8,
    pub action: u8,
    pub tos: u8,
    pub flags: u32,
    pub src_len: u8,
    pub dst_len: u8,
    pub attributes: Vec<RuleAttribute>,
}

/// Set on a rule that matches what its selectors do not.
pub const FIB_RULE_INVERT: u32 = 0x2;

// ---- Routes -----------------------------------------------------------------

pub open spec fn route_table() -> spec_fn(RouteAttribute) -> Option<u32> {
    |a: RouteAttribute|
        match a {
            RouteAttribute::Table(v) => Some(v),
            _ => None,
        }
}

pub open spec fn route_destination() -> spec_fn(RouteAttribute) -> Option<Option<IpAddr>> {
    |a: RouteAttribute|
        match a {
            RouteAttribute::Destination(v) => Some(v),
            _ => None,
        }
}

pub open spec fn route_source() -> spec_fn(RouteAttribute) -> Option<Option<IpAddr>> {
    |a: RouteAttribute|
        match a {
            RouteAttribute::PrefSource(v) => Some(v),
            _ => None,
        }
}

pub open spec fn route_gateway() -> spec_fn(RouteAttribute) -> Option<Option<IpAddr>> {
    |a: RouteAttribute|
        match a {
            RouteAttribute::Gateway(v) => Some(v),
            _ => None,
        }
}

pub open spec fn route_oif() -> spec_fn(RouteAttribute) -> Option<u32> {
    |a: RouteAttribute|
        match a {
            RouteAttribute::Oif(v) => Some(v),
            _ => None,
        }
}

pub open spec fn route_priority() -> spec_fn(RouteAttribute) -> Option<u32> {
    |a: RouteAttribute|
        match a {
            RouteAttribute::Priority(v) => Some(v),
            _ => None,
        }
}

/// When a route expires: the attribute of its own, or the cache information
/// where that says anything.
pub open spec fn route_expiry() -> spec_fn(RouteAttribute) -> Option<u32> {
    |a: RouteAttribute|
        match a {
            RouteAttribute::Expires(v) => Some(v),
            RouteAttribute::CacheInfo(v) if v != 0 => Some(v),
            _ => None,
        }
}

pub open spec fn metric_mtu() -> spec_fn(RouteMetric) -> Option<u32> {
    |a: RouteMetric|
        match a {
            RouteMetric::Mtu(v) => Some(v),
            _ => None,
        }
}

pub open spec fn metric_advmss() -> spec_fn(RouteMetric) -> Option<u32> {
    |a: RouteMetric|
        match a {
            RouteMetric::Advmss(v) => Some(v),
            _ => None,
        }
}

pub open spec fn metric_window() -> spec_fn(RouteMetric) -> Option<u32> {
    |a: RouteMetric|
        match a {
            RouteMetric::Window(v) => Some(v),
            _ => None,
        }
}

pub open spec fn metric_hoplimit() -> spec_fn(RouteMetric) -> Option<u32> {
    |a: RouteMetric|
        match a {
            RouteMetric::Hoplimit(v) => Some(v),
            _ => None,
        }
}

pub open spec fn metric_initcwnd() -> spec_fn(RouteMetric) -> Option<u32> {
    |a: RouteMetric|
        match a {
            RouteMetric::InitCwnd(v) => Some(v),
            _ => None,
        }
}

pub open spec fn metric_initrwnd() -> spec_fn(RouteMetric) -> Option<u32> {
    |a: RouteMetric|
        match a {
            RouteMetric::InitRwnd(v) => Some(v),
            _ => None,
        }
}

pub open spec fn metric_rtt_ms() -> spec_fn(RouteMetric) -> Option<u32> {
    |a: RouteMetric|
        match a {
            RouteMetric::Rtt(v) => Some(v),
            _ => None,
        }
}

/// Whether the bit of the MTU, the third, is set in the lock mask.
pub open spec fn metric_mtu_locked() -> spec_fn(RouteMetric) -> Option<bool> {
    |a: RouteMetric|
        match a {
            RouteMetric::Lock(v) => Some(v & 0x4 != 0),
            _ => None,
        }
}

/// What is read from the metrics of an attribute.
pub open spec fn in_metrics<B>(f: spec_fn(RouteMetric) -> Option<B>) -> spec_fn(
    RouteAttribute,
) -> Option<B> {
    |a: RouteAttribute|
        match a {
            RouteAttribute::Metrics(ms) => last_some(ms@, f),
            _ => None,
        }
}

/// Of each kind of metric the last one counts.
pub open spec fn metrics_told(m: RouteMetrics, attrs: Seq<RouteAttribute>) -> bool {
    &&& m.mtu == or(last_some(attrs, in_metrics(metric_mtu())), 0)
    &&& m.advmss == or(last_some(attrs, in_metrics(metric_advmss())), 0)
    &&& m.window == or(last_some(attrs, in_metrics(metric_window())), 0)
    &&& m.hoplimit == or(last_some(attrs, in_metrics(metric_hoplimit())), 0)
    &&& m.initcwnd == or(last_some(attrs, in_metrics(metric_initcwnd())), 0)
    &&& m.initrwnd == or(last_some(attrs, in_metrics(metric_initrwnd())), 0)
    &&& m.rtt_ms == or(last_some(attrs, in_metrics(metric_rtt_ms())), 0)
    &&& m.mtu_locked == or(last_some(attrs, in_metrics(metric_mtu_locked())), false)
}

/// What a next hop says.
pub struct HopSaid {
    pub gateway: Option<IpAddr>,
    pub gateway_bytes: Option<Seq<u8>>,
    pub index: u32,
    pub name: Seq<char>,
    pub weight: int,
    pub flags: u32,
}

pub open spec fn hop_said(h: NextHop) -> HopSaid {
    HopSaid {
        gateway: address_ip(h.gateway),
        gateway_bytes: optional_bytes(h.gateway),
        index: h.out_interface_index,
        name: h.out_interface_name@,
        weight: h.weight as int,
        flags: h.flags,
    }
}

pub open spec fn hop_to(
    gateway: Option<IpAddr>,
    index: u32,
    weight: int,
    flags: u32,
    names: Map<u32, String>,
) -> HopSaid {
    HopSaid {
        gateway,
        gateway_bytes: match gateway {
            Some(ip) => Some(ip.octets()),
            None => None,
        },
        index,
        name: name_in(names, index),
        weight,
        flags,
    }
}

/// What the kernel says of one way out; the last gateway counts.
pub open spec fn multipath_hop(h: MultipathHop, names: Map<u32, String>) -> HopSaid {
    let gateway = if h.gateways@.len() == 0 {
        None
    } else {
        h.gateways@.last()
    };
    hop_to(gateway, h.interface_index, h.hops + 1, h.flags as u32, names)
}

pub open spec fn hops_said(hops: Seq<NextHop>) -> Seq<HopSaid> {
    Seq::new(hops.len(), |i: int| hop_said(hops[i]))
}

pub open spec fn multipath_hops(hops: Seq<MultipathHop>, names: Map<u32, String>) -> Seq<HopSaid> {
    Seq::new(hops.len(), |i: int| multipath_hop(hops[i], names))
}

/// The ways out that the multipath attributes list.
pub open spec fn multipath(attrs: Seq<RouteAttribute>, names: Map<u32, String>) -> Seq<HopSaid>
    decreases attrs.len(),
{
    if attrs.len() == 0 {
        Seq::empty()
    } else {
        let front = multipath(attrs.drop_last(), names);
        match attrs.last() {
            RouteAttribute::MultiPath(hops) => front + multipath_hops(hops@, names),
            _ => front,
        }
    }
}

/// The ways out of a route: those of its multipath attributes, or else the one
/// that its gateway and its interface name.
pub open spec fn route_hops(attrs: Seq<RouteAttribute>, names: Map<u32, String>) -> Seq<HopSaid> {
    if multipath(attrs, names).len() > 0 {
        multipath(attrs, names)
    } else {
        seq![
            hop_to(
                or(last_some(attrs, route_gateway()), None),
                or(last_some(attrs, route_oif()), 0),
                1,
                0,
                names,
            ),
        ]
    }
}

fn optional_address(ip: Option<IpAddr>) -> (r: Option<IpAddress>)
    ensures
        address_ip(r) == ip,
        optional_bytes(r) == match ip {
            Some(ip) => Some(ip.octets()),
            None => None,
        },
{
    match ip {
        Some(ip) => Some(IpAddress::from_ip(ip)),
        None => None,
    }
}

fn read_metrics(list: &Vec<RouteMetric>, metrics: &mut RouteMetrics, Ghost(attrs): Ghost<Seq<RouteAttribute>>)
    requires
        metrics_told(*old(metrics), attrs.drop_last()),
        attrs.len() > 0,
        attrs.last() matches RouteAttribute::Metrics(ms) && ms == *list,
    ensures
        metrics_told(*final(metrics), attrs),
{
    let ghost all = list@;
    let ghost start = *metrics;
    let mut i: usize = 0;
    assert(all.take(0) =~= Seq::empty());
    while i < list.len()
        invariant
            i <= list.len(),
            all == list@,
            metrics.mtu == or(last_some(all.take(i as int), metric_mtu()), start.mtu),
            metrics.advmss == or(last_some(all.take(i as int), metric_advmss()), start.advmss),
            metrics.window == or(last_some(all.take(i as int), metric_window()), start.window),
            metrics.hoplimit == or(last_some(all.take(i as int), metric_hoplimit()), start.hoplimit),
            metrics.initcwnd == or(last_some(all.take(i as int), metric_initcwnd()), start.initcwnd),
            metrics.initrwnd == or(last_some(all.take(i as int), metric_initrwnd()), start.initrwnd),
            metrics.rtt_ms == or(last_some(all.take(i as int), metric_rtt_ms()), start.rtt_ms),
            metrics.mtu_locked == or(last_some(all.take(i as int), metric_mtu_locked()), start.mtu_locked),
        decreases list.len() - i,
    {
        assert(all.take(i + 1).drop_last() =~= all.take(i as int));
        match &list[i] {
            RouteMetric::Mtu(v) => metrics.mtu = *v,
            RouteMetric::Lock(v) => metrics.mtu_locked = *v & 0x4 != 0,
            RouteMetric::Advmss(v) => metrics.advmss = *v,
            RouteMetric::Window(v) => metrics.window = *v,
            RouteMetric::Hoplimit(v) => metrics.hoplimit = *v,
            RouteMetric::InitCwnd(v) => metrics.initcwnd = *v,
            RouteMetric::InitRwnd(v) => metrics.initrwnd = *v,
            RouteMetric::Rtt(v) => metrics.rtt_ms = *v,
        }
        i += 1;
    }
    assert(all.take(all.len() as int) =~= all);
}

fn read_hops(list: &Vec<MultipathHop>, out: &mut Vec<NextHop>, if_names: &HashMap<u32, String>)
    ensures
        hops_said(final(out)@) == hops_said(old(out)@) + multipath_hops(list@, if_names@),
{
    let ghost all = multipath_hops(list@, if_names@);
    let ghost start = hops_said(out@);
    let mut i: usize = 0;
    assert(start + all.take(0) =~= start);
    while i < list.len()
        invariant
            i <= list.len(),
            all == multipath_hops(list@, if_names@),
            hops_said(out@) == start + all.take(i as int),
        decreases list.len() - i,
    {
        let ghost before = hops_said(out@);
        let h = &list[i];
        let n = h.gateways.len();
        let gateway: Option<IpAddr> = if n == 0 {
            None
        } else {
            h.gateways[n - 1]
        };
        let hop = NextHop {
            gateway: optional_address(gateway),
            out_interface_index: h.interface_index,
            out_interface_name: name_or_empty(if_names, h.interface_index),
            weight: h.hops as u32 + 1,
            flags: h.flags as u32,
        };
        assert(hop_said(hop) == all[i as int]);
        out.push(hop);
        i += 1;
        assert(hops_said(out@) =~= before.push(all[i - 1]));
        assert(hops_said(out@) =~= start + all.take(i as int));
    }
    assert(all.take(all.len() as int) =~= all);
}

/// Whether a prefix holds the destination of a route.
pub open spec fn destination_told(p: Option<IpPrefix>, ip: Option<IpAddr>, len: u8) -> bool {
    &&& p is Some
    &&& (p->0).ip_of() == ip
    &&& (p->0).address is Some <==> ip is Some
    &&& (p->0).prefix_len == len
}

/// Whether a route holds what a message says: of each kind of attribute the
/// last one counts.
pub open spec fn route_told(r: Route, msg: RouteMessage, names: Map<u32, String>) -> bool {
    &&& r.family == family_of(msg.family)
    &&& r.table == or(last_some(msg.attributes@, route_table()), msg.table as u32)
    &&& r.table_name@ == table_text(r.table)
    &&& r.protocol == route_protocol(msg.protocol)
    &&& r.protocol_raw == msg.protocol
    &&& r.scope == route_scope(msg.scope)
    &&& r.kind == route_type(msg.kind)
    &&& r.flags == msg.flags
    &&& r.priority == or(last_some(msg.attributes@, route_priority()), 0)
    &&& r.expires_sec == or(last_some(msg.attributes@, route_expiry()), 0)
    &&& destination_told(
        r.destination,
        or(last_some(msg.attributes@, route_destination()), None),
        msg.destination_prefix_length,
    )
    &&& address_ip(r.preferred_source) == or(last_some(msg.attributes@, route_source()), None)
    &&& r.preferred_source is Some <==> address_ip(r.preferred_source) is Some
    &&& hops_said(r.next_hops@) == route_hops(msg.attributes@, names)
    &&& r.metrics is Some
    &&& metrics_told(r.metrics->0, msg.attributes@)
    &&& r.is_default <==> msg.destination_prefix_length == 0 && or(
        last_some(msg.attributes@, route_destination()),
        None,
    ) is None
}

/// An RTM_NEWROUTE message as a route. Of each kind of attribute the last one
/// counts; the table in the header counts where no attribute names one (it has
/// eight bits only, and every per-network table of Android has a larger
/// number). A route is a default route if it has no destination and no prefix.
pub fn route_to_proto(msg: RouteMessage, if_names: &HashMap<u32, String>) -> (r: Route)
    ensures
        route_told(r, msg, if_names@),
{
    let ghost attrs = msg.attributes@;
    let ghost header_table = msg.table as u32;
    let mut table: u32 = msg.table as u32;
    let mut destination: Option<IpAddr> = None;
    let mut preferred_source: Option<IpAddr> = None;
    let mut gateway: Option<IpAddr> = None;
    let mut oif: u32 = 0;
    let mut priority: u32 = 0;
    let mut expires: u32 = 0;
    let mut metrics = RouteMetrics {
        mtu: 0,
        mtu_locked: false,
        advmss: 0,
        window: 0,
        hoplimit: 0,
        initcwnd: 0,
        initrwnd: 0,
        rtt_ms: 0,
    };
    let mut hops: Vec<NextHop> = Vec::new();
    assert(attrs.take(0) =~= Seq::empty());
    assert(hops_said(hops@) =~= Seq::empty());
    for attr in it: msg.attributes
        invariant
            it.seq() == attrs,
            table == or(last_some(attrs.take(it.index()), route_table()), header_table),
            destination == or(last_some(attrs.take(it.index()), route_destination()), None),
            preferred_source == or(last_some(attrs.take(it.index()), route_source()), None),
            gateway == or(last_some(attrs.take(it.index()), route_gateway()), None),
            oif == or(last_some(attrs.take(it.index()), route_oif()), 0),
            priority == or(last_some(attrs.take(it.index()), route_priority()), 0),
            expires == or(last_some(attrs.take(it.index()), route_expiry()), 0),
            metrics_told(metrics, attrs.take(it.index())),
            hops_said(hops@) == multipath(attrs.take(it.index()), if_names@),
    {
        let ghost i = it.index();
        assert(attrs.take(i + 1).drop_last() =~= attrs.take(i));
        assert(attrs.take(i + 1).last() == attr);
        match attr {
            RouteAttribute::Table(t) => table = t,
            RouteAttribute::Destination(a) => destination = a,
            RouteAttribute::PrefSource(a) => preferred_source = a,
            RouteAttribute::Gateway(a) => gateway = a,
            RouteAttribute::Oif(i) => oif = i,
            RouteAttribute::Priority(p) => priority = p,
            RouteAttribute::Expires(e) => expires = e,
            RouteAttribute::CacheInfo(e) => {
                if e != 0 {
                    expires = e;
                }
            },
            RouteAttribute::Metrics(ms) => {
                read_metrics(&ms, &mut metrics, Ghost(attrs.take(i + 1)));
            },
            RouteAttribute::MultiPath(list) => {
                read_hops(&list, &mut hops, if_names);
            },
        }
    }
    assert(attrs.take(attrs.len() as int) =~= attrs);
    if hops.len() == 0 {
        let hop = NextHop {
            gateway: optional_address(gateway),
            out_interface_index: oif,
            out_interface_name: name_or_empty(if_names, oif),
            weight: 1,
            flags: 0,
        };
        hops.push(hop);
        assert(hops_said(hops@) =~= seq![hop_said(hop)]);
    } else {
        assert(multipath(attrs, if_names@).len() > 0);
    }
    let prefix_len = msg.destination_prefix_length;
    let is_default = prefix_len == 0 && destination.is_none();
    let destination = match destination {
        Some(ip) => IpPrefix::new(ip, prefix_len),
        None => IpPrefix { address: None, prefix_len: prefix_len as u32 },
    };
    Route {
        family: family_to_proto(msg.family),
        destination: Some(destination),
        preferred_source: optional_address(preferred_source),
        table,
        table_name: table_name(table),
        protocol: route_protocol_to_proto(msg.protocol),
        protocol_raw: msg.protocol as u32,
        scope: route_scope_to_proto(msg.scope),
        kind: route_type_to_proto(msg.kind),
        priority,
        next_hops: hops,
        metrics: Some(metrics),
        flags: msg.flags,
        expires_sec: expires,
        is_default,
    }
}

/// The name of a table: a fixed one, or one made of its number.
pub open spec fn table_text(table: u32) -> Seq<char> {
    match fixed_table_name(table) {
        Some(name) => name,
        None => "net"@ + dec(table as nat),
    }
}

/// Table names. Android keeps no rt_tables file, so well-known ids are named
/// from netd's fixed allocations and per-network tables are labelled with the
/// netId they belong to.
pub fn table_name(table: u32) -> (r: String)
    ensures
        r@ == table_text(table),
{
    match well_known_table_name(table) {
        Some(name) => String::from_str(name),
        None => String::from_str("net").concat(dec_string(table as u64).as_str()),
    }
}

/// The route protocol with a number of the kernel (RTPROT_*).
pub open spec fn route_protocol(n: u8) -> RouteProtocol {
    match n {
        0 => RouteProtocol::Unspecified,
        1 => RouteProtocol::Redirect,
        2 => RouteProtocol::Kernel,
        3 => RouteProtocol::Boot,
        4 => RouteProtocol::Static,
        9 => RouteProtocol::Ra,
        16 => RouteProtocol::Dhcp,
        _ => RouteProtocol::Other,
    }
}

pub fn route_protocol_to_proto(n: u8) -> (r: RouteProtocol)
    ensures
        r == route_protocol(n),
{
    match n {
        0 => RouteProtocol::Unspecified,
        1 => RouteProtocol::Redirect,
        2 => RouteProtocol::Kernel,
        3 => RouteProtocol::Boot,
        4 => RouteProtocol::Static,
        9 => RouteProtocol::Ra,
        16 => RouteProtocol::Dhcp,
        _ => RouteProtocol::Other,
    }
}

/// The route scope with a number of the kernel (RT_SCOPE_*).
pub open spec fn route_scope(n: u8) -> RouteScope {
    match n {
        0 => RouteScope::Universe,
        200 => RouteScope::Site,
        253 => RouteScope::Link,
        254 => RouteScope::Host,
        255 => RouteScope::Nowhere,
        _ => RouteScope::Unspecified,
    }
}

pub fn route_scope_to_proto(n: u8) -> (r: RouteScope)
    ensures
        r == route_scope(n),
{
    match n {
        0 => RouteScope::Universe,
        200 => RouteScope::Site,
        253 => RouteScope::Link,
        254 => RouteScope::Host,
        255 => RouteScope::Nowhere,
        _ => RouteScope::Unspecified,
    }
}

/// The route type with a number of the kernel (RTN_*).
pub open spec fn route_type(n: u8) -> RouteType {
    match n {
        1 => RouteType::Unicast,
        2 => RouteType::Local,
        3 => RouteType::Broadcast,
        4 => RouteType::Anycast,
        5 => RouteType::Multicast,
        6 => RouteType::Blackhole,
        7 => RouteType::Unreachable,
        8 => RouteType::Prohibit,
        9 => RouteType::Throw,
        10 => RouteType::Nat,
        _ => RouteType::Unspecified,
    }
}

pub fn route_type_to_proto(n: u8) -> (r: RouteType)
    ensures
        r == route_type(n),
{
    match n {
        1 => RouteType::Unicast,
        2 => RouteType::Local,
        3 => RouteType::Broadcast,
        4 => RouteType::Anycast,
        5 => RouteType::Multicast,
        6 => RouteType::Blackhole,
        7 => RouteType::Unreachable,
        8 => RouteType::Prohibit,
        9 => RouteType::Throw,
        10 => RouteType::Nat,
        _ => RouteType::Unspecified,
    }
}

// ---- Which routes ---------------------------------------------------------------

/// The routes of a dump, and the names of their tables.
pub struct RouteDump {
    pub routes: Vec<Route>,
    pub table_names: HashMap<u32, String>,
}

/// Whether a next hop leaves through an interface.
pub open spec fn leaves_by(index: u32) -> spec_fn(NextHop) -> bool {
    |h: NextHop| h.out_interface_index == index
}

/// Whether a request for routes asks for a route; zero asks for every table
/// and every interface.
pub open spec fn route_wanted(table: u32, only_default: bool, index: u32) -> spec_fn(Route) -> bool {
    |r: Route|
        {
            &&& table == 0 || r.table == table
            &&& !only_default || r.is_default
            &&& index == 0 || any(r.next_hops@, leaves_by(index))
        }
}

/// The prefix length of a route's destination.
pub open spec fn prefix_len_of(r: Route) -> u32 {
    match r.destination {
        Some(d) => d.prefix_len,
        None => 0,
    }
}

/// The order of routes: by table, then the most specific prefix first, then by
/// metric.
pub open spec fn route_before() -> spec_fn(Route, Route) -> bool {
    |a: Route, b: Route|
        if a.table != b.table {
            a.table < b.table
        } else if prefix_len_of(a) != prefix_len_of(b) {
            prefix_len_of(a) > prefix_len_of(b)
        } else {
            a.priority < b.priority
        }
}

fn route_prefix_len(r: &Route) -> (n: u32)
    ensures
        n == prefix_len_of(*r),
{
    match &r.destination {
        Some(d) => d.prefix_len,
        None => 0,
    }
}

fn route_precedes(a: &Route, b: &Route) -> (r: bool)
    ensures
        r == route_before()(*a, *b),
{
    let x: u32 = route_prefix_len(a);
    let y: u32 = route_prefix_len(b);
    if a.table != b.table {
        a.table < b.table
    } else if x != y {
        x > y
    } else {
        a.priority < b.priority
    }
}

/// Whether a route leaves through an interface.
pub fn route_leaves_by(route: &Route, index: u32) -> (r: bool)
    ensures
        r == any(route.next_hops@, leaves_by(index)),
{
    let mut i: usize = 0;
    while i < route.next_hops.len()
        invariant
            i <= route.next_hops.len(),
            forall|k: int| 0 <= k < i ==> !leaves_by(index)(#[trigger] route.next_hops@[k]),
        decreases route.next_hops.len() - i,
    {
        if route.next_hops[i].out_interface_index == index {
            assert(leaves_by(index)(route.next_hops@[i as int]));
            return true;
        }
        i += 1;
    }
    false
}

/// The names of the tables that routes stand in; an empty name counts for
/// nothing.
pub open spec fn table_names_of(routes: Seq<Route>) -> Map<u32, String>
    decreases routes.len(),
{
    if routes.len() == 0 {
        Map::empty()
    } else {
        let front = table_names_of(routes.drop_last());
        if routes.last().table_name@.len() == 0 {
            front
        } else {
            front.insert(routes.last().table, routes.last().table_name)
        }
    }
}

/// The routes that a request asks for, of all that the kernel has.
pub fn get_routes(all: Vec<Route>, table: u32, only_default: bool, interface_index: u32) -> (r: RouteDump)
    ensures
        r.routes@ == sort_by(
            all@.filter(route_wanted(table, only_default, interface_index)),
            route_before(),
        ),
        r.table_names@ == table_names_of(r.routes@),
{
    broadcast use vstd::std_specs::hash::group_hash_axioms;

    let ghost p = route_wanted(table, only_default, interface_index);
    let ghost s = all@;
    let mut kept: Vec<Route> = Vec::new();
    proof {
        lemma_filter_start(s, p);
    }
    for route in it: all
        invariant
            it.seq() == s,
            p == route_wanted(table, only_default, interface_index),
            kept@ == s.take(it.index()).filter(p),
    {
        proof {
            lemma_filter_step(s, p, it.index());
        }
        if (table == 0 || route.table == table) && (!only_default || route.is_default) && (
        interface_index == 0 || route_leaves_by(&route, interface_index)) {
            kept.push(route);
        }
    }
    proof {
        lemma_filter_end(s, p);
    }
    let routes = stable_sort(kept, route_precedes, Ghost(route_before()));
    let mut table_names: HashMap<u32, String> = HashMap::new();
    let mut i: usize = 0;
    assert(routes@.take(0) =~= Seq::empty());
    assert(table_names@ =~= Map::empty());
    while i < routes.len()
        invariant
            i <= routes.len(),
            table_names@ == table_names_of(routes@.take(i as int)),
        decreases routes.len() - i,
    {
        broadcast use vstd::std_specs::hash::group_hash_axioms;

        assert(routes@.take(i + 1).drop_last() =~= routes@.take(i as int));
        if !is_empty(routes[i].table_name.as_str()) {
            table_names.insert(routes[i].table, routes[i].table_name.clone());
        }
        i += 1;
    }
    assert(routes@.take(routes@.len() as int) =~= routes@);
    RouteDump { routes, table_names }
}

// ---- Rules ------------------------------------------------------------------

pub open spec fn rule_priority() -> spec_fn(RuleAttribute) -> Option<u32> {
    |a: RuleAttribute|
        match a {
            RuleAttribute::Priority(v) => Some(v),
            _ => None,
        }
}

pub open spec fn rule_mark() -> spec_fn(RuleAttribute) -> Option<u32> {
    |a: RuleAttribute|
        match a {
            RuleAttribute::FwMark(v) => Some(v),
            _ => None,
        }
}

pub open spec fn rule_mask() -> spec_fn(RuleAttribute) -> Option<u32> {
    |a: RuleAttribute|
        match a {
            RuleAttribute::FwMask(v) => Some(v),
            _ => None,
        }
}

pub open spec fn rule_iif() -> spec_fn(RuleAttribute) -> Option<Seq<char>> {
    |a: RuleAttribute|
        match a {
            RuleAttribute::Iifname(v) => Some(v@),
            _ => None,
        }
}

pub open spec fn rule_oif() -> spec_fn(RuleAttribute) -> Option<Seq<char>> {
    |a: RuleAttribute|
        match a {
            RuleAttribute::Oifname(v) => Some(v@),
            _ => None,
        }
}

pub open spec fn rule_source() -> spec_fn(RuleAttribute) -> Option<IpAddr> {
    |a: RuleAttribute|
        match a {
            RuleAttribute::Source(v) => Some(v),
            _ => None,
        }
}

pub open spec fn rule_destination() -> spec_fn(RuleAttribute) -> Option<IpAddr> {
    |a: RuleAttribute|
        match a {
            RuleAttribute::Destination(v) => Some(v),
            _ => None,
        }
}

pub open spec fn rule_uids() -> spec_fn(RuleAttribute) -> Option<(u32, u32)> {
    |a: RuleAttribute|
        match a {
            RuleAttribute::UidRange { start, end } => Some((start, end)),
            _ => None,
        }
}

pub open spec fn rule_suppress_prefix() -> spec_fn(RuleAttribute) -> Option<u32> {
    |a: RuleAttribute|
        match a {
            RuleAttribute::SuppressPrefixLen(v) => Some(v),
            _ => None,
        }
}

pub open spec fn rule_suppress_group() -> spec_fn(RuleAttribute) -> Option<u32> {
    |a: RuleAttribute|
        match a {
            RuleAttribute::SuppressIfGroup(v) => Some(v),
            _ => None,
        }
}

pub open spec fn rule_protocol() -> spec_fn(RuleAttribute) -> Option<u32> {
    |a: RuleAttribute|
        match a {
            RuleAttribute::Protocol(v) => Some(v as u32),
            _ => None,
        }
}

/// The table that a rule sends packets to, or the rule that it jumps to.
pub open spec fn rule_table() -> spec_fn(RuleAttribute) -> Option<u32> {
    |a: RuleAttribute|
        match a {
            RuleAttribute::Table(v) => Some(v),
            RuleAttribute::Goto(v) => Some(v),
            _ => None,
        }
}

/// Whether a selector of a rule holds an address with a prefix length.
pub open spec fn selector_told(p: Option<IpPrefix>, ip: Option<IpAddr>, len: u8) -> bool {
    match (p, ip) {
        (Some(p), Some(ip)) => p.ip_of() == Some(ip) && p.prefix_len == len,
        (None, None) => true,
        _ => false,
    }
}

/// Whether the rule holds what the attributes say: of each kind the last one
/// counts.
pub open spec fn rule_told(
    r: RoutingRule,
    attrs: Seq<RuleAttribute>,
    header_table: u32,
    src_len: u8,
    dst_len: u8,
) -> bool {
    &&& r.priority == or(last_some(attrs, rule_priority()), 0)
    &&& r.table == or(last_some(attrs, rule_table()), header_table)
    &&& r.fwmark == or(last_some(attrs, rule_mark()), 0)
    &&& r.has_fwmark == last_some(attrs, rule_mark()) is Some
    &&& r.fwmask == or(last_some(attrs, rule_mask()), 0)
    &&& r.input_interface@ == or(last_some(attrs, rule_iif()), Seq::empty())
    &&& r.output_interface@ == or(last_some(attrs, rule_oif()), Seq::empty())
    &&& selector_told(r.source, last_some(attrs, rule_source()), src_len)
    &&& selector_told(r.destination, last_some(attrs, rule_destination()), dst_len)
    &&& (r.uid_range_start, r.uid_range_end) == or(last_some(attrs, rule_uids()), (0u32, 0u32))
    &&& r.has_uid_range == last_some(attrs, rule_uids()) is Some
    &&& r.suppress_prefix_len == or(last_some(attrs, rule_suppress_prefix()), 0)
    &&& r.has_suppress_prefix_len == last_some(attrs, rule_suppress_prefix()) is Some
    &&& r.suppress_interface_group == or(last_some(attrs, rule_suppress_group()), 0)
    &&& r.has_suppress_interface_group == last_some(attrs, rule_suppress_group()) is Some
    &&& r.protocol == or(last_some(attrs, rule_protocol()), 0)
}

/// Whether a rule holds what a message says.
pub open spec fn rule_is(r: RoutingRule, msg: RuleMessage) -> bool {
    &&& r.family == family_of(msg.family)
    &&& r.action == rule_action(msg.action)
    &&& r.tos == msg.tos
    &&& r.invert == (msg.flags & FIB_RULE_INVERT != 0)
    &&& rule_told(r, msg.attributes@, msg.table as u32, msg.src_len, msg.dst_len)
    &&& r.table_name@ == table_text(r.table)
}

/// An RTM_NEWRULE message as a rule.
pub fn rule_to_proto(msg: RuleMessage) -> (r: RoutingRule)
    ensures
        rule_is(r, msg),
{
    let ghost attrs = msg.attributes@;
    let ghost header_table = msg.table as u32;
    let src_len = msg.src_len;
    let dst_len = msg.dst_len;
    let mut rule = RoutingRule {
        family: family_to_proto(msg.family),
        priority: 0,
        table: msg.table as u32,
        table_name: String::new(),
        action: rule_action_to_proto(msg.action),
        tos: msg.tos as u32,
        invert: msg.flags & FIB_RULE_INVERT != 0,
        fwmark: 0,
        fwmask: 0,
        has_fwmark: false,
        input_interface: String::new(),
        output_interface: String::new(),
        source: None,
        destination: None,
        uid_range_start: 0,
        uid_range_end: 0,
        has_uid_range: false,
        suppress_prefix_len: 0,
        has_suppress_prefix_len: false,
        suppress_interface_group: 0,
        has_suppress_interface_group: false,
        protocol: 0,
    };
    let ghost start = rule;
    assert(attrs.take(0) =~= Seq::empty());
    for attr in it: msg.attributes
        invariant
            it.seq() == attrs,
            rule_told(rule, attrs.take(it.index()), header_table, src_len, dst_len),
            rule.family == start.family,
            rule.action == start.action,
            rule.tos == start.tos,
            rule.invert == start.invert,
    {
        let ghost i = it.index();
        assert(attrs.take(i + 1).drop_last() =~= attrs.take(i));
        assert(attrs.take(i + 1).last() == attr);
        match attr {
            RuleAttribute::Priority(p) => rule.priority = p,
            RuleAttribute::Table(t) => rule.table = t,
            RuleAttribute::FwMark(m) => {
                rule.fwmark = m;
                rule.has_fwmark = true;
            },
            RuleAttribute::FwMask(m) => rule.fwmask = m,
            RuleAttribute::Iifname(n) => rule.input_interface = n,
            RuleAttribute::Oifname(n) => rule.output_interface = n,
            RuleAttribute::Source(a) => rule.source = Some(IpPrefix::new(a, src_len)),
            RuleAttribute::Destination(a) => rule.destination = Some(IpPrefix::new(a, dst_len)),
            RuleAttribute::UidRange { start, end } => {
                rule.uid_range_start = start;
                rule.uid_range_end = end;
                rule.has_uid_range = true;
            },
            RuleAttribute::SuppressPrefixLen(v) => {
                rule.suppress_prefix_len = v;
                rule.has_suppress_prefix_len = true;
            },
            RuleAttribute::SuppressIfGroup(v) => {
                rule.suppress_interface_group = v;
                rule.has_suppress_interface_group = true;
            },
            RuleAttribute::Protocol(p) => rule.protocol = p as u32,
            RuleAttribute::Goto(g) => rule.table = g,
        }
    }
    assert(attrs.take(attrs.len() as int) =~= attrs);
    rule.table_name = table_name(rule.table);
    rule
}

/// The rule action with a number of the kernel (FR_ACT_*).
pub open spec fn rule_action(n: u8) -> RuleAction {
    match n {
        1 => RuleAction::ToTable,
        2 => RuleAction::Goto,
        3 => RuleAction::Nop,
        6 => RuleAction::Blackhole,
        7 => RuleAction::Unreachable,
        8 => RuleAction::Prohibit,
        _ => RuleAction::Unspecified,
    }
}

pub fn rule_action_to_proto(n: u8) -> (r: RuleAction)
    ensures
        r == rule_action(n),
{
    match n {
        1 => RuleAction::ToTable,
        2 => RuleAction::Goto,
        3 => RuleAction::Nop,
        6 => RuleAction::Blackhole,
        7 => RuleAction::Unreachable,
        8 => RuleAction::Prohibit,
        _ => RuleAction::Unspecified,
    }
}

/// Whether a rule's uid selector can apply to a uid.
pub open spec fn matches_uid(rule: RoutingRule, uid: u32) -> bool {
    rule.has_uid_range ==> (rule.uid_range_start <= uid <= rule.uid_range_end) != rule.invert
}

/// Whether a rule's uid selector can apply to `uid`. A rule with no uid range
/// applies to everyone.
pub fn rule_can_match_uid(rule: &RoutingRule, uid: u32) -> (r: bool)
    ensures
        r == matches_uid(*rule, uid),
{
    if !rule.has_uid_range {
        return true;
    }
    let in_range = uid >= rule.uid_range_start && uid <= rule.uid_range_end;
    if rule.invert {
        !in_range
    } else {
        in_range
    }
}

/// Whether a request for rules asks for a rule.
pub open spec fn rule_wanted(uid: Option<u32>) -> spec_fn(RoutingRule) -> bool {
    |r: RoutingRule| uid is Some ==> matches_uid(r, uid->0)
}

/// The place of a family in the order of families.
pub open spec fn family_rank(f: IpFamily) -> int {
    match f {
        IpFamily::Unspecified => 0,
        IpFamily::V4 => 1,
        IpFamily::V6 => 2,
    }
}

fn rank_of_family(f: IpFamily) -> (r: u32)
    ensures
        r == family_rank(f),
{
    match f {
        IpFamily::Unspecified => 0,
        IpFamily::V4 => 1,
        IpFamily::V6 => 2,
    }
}

/// The order of rules: by family, then in the order in which the kernel
/// evaluates them.
pub open spec fn rule_before() -> spec_fn(RoutingRule, RoutingRule) -> bool {
    |a: RoutingRule, b: RoutingRule|
        if a.family != b.family {
            family_rank(a.family) < family_rank(b.family)
        } else {
            a.priority < b.priority
        }
}

fn rule_precedes(a: &RoutingRule, b: &RoutingRule) -> (r: bool)
    ensures
        r == rule_before()(*a, *b),
{
    if a.family != b.family {
        rank_of_family(a.family) < rank_of_family(b.family)
    } else {
        a.priority < b.priority
    }
}

/// The rules that a request asks for, of all that the kernel has.
pub fn get_rules(all: Vec<RoutingRule>, uid_filter: Option<u32>) -> (r: Vec<RoutingRule>)
    ensures
        r@ == sort_by(all@.filter(rule_wanted(uid_filter)), rule_before()),
{
    let ghost p = rule_wanted(uid_filter);
    let ghost s = all@;
    let mut kept: Vec<RoutingRule> = Vec::new();
    proof {
        lemma_filter_start(s, p);
    }
    for rule in it: all
        invariant
            it.seq() == s,
            p == rule_wanted(uid_filter),
            kept@ == s.take(it.index()).filter(p),
    {
        proof {
            lemma_filter_step(s, p, it.index());
        }
        let wanted = match uid_filter {
            Some(uid) => rule_can_match_uid(&rule, uid),
            None => true,
        };
        if wanted {
            kept.push(rule);
        }
    }
    proof {
        lemma_filter_end(s, p);
    }
    stable_sort(kept, rule_precedes, Ghost(rule_before()))
}

// ---- Kernel route lookup ------------------------------------------------------

/// Asks for the table in which the lookup ended.
pub const RTM_F_LOOKUP_TABLE: u32 = 0x1000;

/// One attribute of a lookup request.
#[derive(Clone, Copy, Debug, PartialEq)]
pub enum LookupAttribute {
    Destination(IpAddr),
    Source(IpAddr),
    Uid(u32),
    Mark(u32),
    Oif(u32),
}

/// A packet to route.
#[derive(Clone, Copy, Debug, PartialEq)]
pub struct LookupArguments {
    pub destination: IpAddr,
    pub source_hint: Option<IpAddr>,
    pub uid: Option<u32>,
    pub fwmark: Option<u32>,
    pub out_interface_index: u32,
}

/// An RTM_GETROUTE message that asks for one route.
pub struct LookupRequest {
    pub family: u8,
    pub destination_prefix_length: u8,
    pub source_prefix_length: u8,
    pub flags: u32,
    pub attributes: Vec<LookupAttribute>,
}

pub open spec fn full_length(ip: IpAddr) -> u8 {
    match ip {
        IpAddr::V4(_) => 32,
        IpAddr::V6(_) => 128,
    }
}

fn address_length(ip: &IpAddr) -> (r: u8)
    ensures
        r == full_length(*ip),
{
    match ip {
        IpAddr::V4(_) => 32,
        IpAddr::V6(_) => 128,
    }
}

/// The attributes of a lookup request: the destination, and what else is known
/// of the packet.
pub open spec fn lookup_attributes(
    destination: IpAddr,
    source: Option<IpAddr>,
    uid: Option<u32>,
    mark: Option<u32>,
    index: u32,
) -> Seq<LookupAttribute> {
    seq![LookupAttribute::Destination(destination)] + (match source {
        Some(s) => seq![LookupAttribute::Source(s)],
        None => Seq::empty(),
    }) + (match uid {
        Some(u) => seq![LookupAttribute::Uid(u)],
        None => Seq::empty(),
    }) + (match mark {
        Some(m) => seq![LookupAttribute::Mark(m)],
        None => Seq::empty(),
    }) + (if index != 0 {
        seq![LookupAttribute::Oif(index)]
    } else {
        Seq::empty()
    })
}

/// Whether a request asks the kernel for the route of a packet.
pub open spec fn asks_kernel(
    r: LookupRequest,
    destination: IpAddr,
    source_hint: Option<IpAddr>,
    uid: Option<u32>,
    fwmark: Option<u32>,
    out_interface_index: u32,
) -> bool {
    &&& r.family == match destination {
        IpAddr::V4(_) => AF_INET,
        IpAddr::V6(_) => AF_INET6,
    }
    &&& r.destination_prefix_length == full_length(destination)
    &&& r.source_prefix_length == match source_hint {
        Some(s) => full_length(s),
        None => 0,
    }
    &&& r.flags == RTM_F_LOOKUP_TABLE
    &&& r.attributes@ == lookup_attributes(
        destination,
        source_hint,
        uid,
        fwmark,
        out_interface_index,
    )
}

/// The request that makes the kernel run the full policy-routing pipeline for
/// one packet. With a uid the kernel evaluates Android's per-uid rules, so the
/// answer is the real decision for that app.
pub fn lookup_request(
    destination: IpAddr,
    source_hint: Option<IpAddr>,
    uid: Option<u32>,
    fwmark: Option<u32>,
    out_interface_index: u32,
) -> (r: LookupRequest)
    ensures
        asks_kernel(r, destination, source_hint, uid, fwmark, out_interface_index),
{
    let mut attributes: Vec<LookupAttribute> = Vec::new();
    attributes.push(LookupAttribute::Destination(destination));
    let mut source_prefix_length: u8 = 0;
    if let Some(src) = source_hint {
        source_prefix_length = address_length(&src);
        attributes.push(LookupAttribute::Source(src));
    }
    if let Some(uid) = uid {
        attributes.push(LookupAttribute::Uid(uid));
    }
    if let Some(mark) = fwmark {
        attributes.push(LookupAttribute::Mark(mark));
    }
    if out_interface_index != 0 {
        attributes.push(LookupAttribute::Oif(out_interface_index));
    }
    assert(attributes@ =~= lookup_attributes(
        destination,
        source_hint,
        uid,
        fwmark,
        out_interface_index,
    ));
    LookupRequest {
        family: match destination {
            IpAddr::V4(_) => AF_INET,
            IpAddr::V6(_) => AF_INET6,
        },
        destination_prefix_length: address_length(&destination),
        source_prefix_length,
        flags: RTM_F_LOOKUP_TABLE,
        attributes,
    }
}

/// Whether this is what a lookup found, of the kernel's answer.
pub open spec fn lookup_told(
    r: RouteLookup,
    destination: IpAddr,
    source_hint: Option<IpAddr>,
    uid: Option<u32>,
    fwmark: Option<u32>,
    out_interface_index: u32,
    answer: Result<Route, String>,
) -> bool {
    &&& address_ip(r.destination) == Some(destination)
    &&& address_ip(r.source_hint) == source_hint
    &&& r.source_hint is Some <==> source_hint is Some
    &&& r.uid == or(uid, 0)
    &&& r.fwmark == or(fwmark, 0)
    &&& r.out_interface_index == out_interface_index
    &&& match answer {
        Ok(route) => r.route == Some(route) && r.table == route.table && r.error is None,
        Err(words) => {
            &&& r.route is None
            &&& r.table == 0
            &&& r.error is Some
            &&& (r.error->0).code == ErrorCode::Kernel
            &&& (r.error->0).message == words
            &&& (r.error->0).detail@ == "RTM_GETROUTE to "@ + destination.text()
        },
    }
}

/// What a lookup found, from the kernel's answer: the route, or its words for
/// why there is none.
pub fn route_lookup(
    destination: IpAddr,
    source_hint: Option<IpAddr>,
    uid: Option<u32>,
    fwmark: Option<u32>,
    out_interface_index: u32,
    answer: Result<Route, String>,
) -> (r: RouteLookup)
    ensures
        lookup_told(r, destination, source_hint, uid, fwmark, out_interface_index, answer),
{
    let mut lookup = RouteLookup {
        destination: Some(IpAddress::from_ip(destination)),
        source_hint: optional_address(source_hint),
        uid: uid.unwrap_or(0),
        fwmark: fwmark.unwrap_or(0),
        out_interface_index,
        table: 0,
        route: None,
        error: None,
    };
    match answer {
        Ok(route) => {
            lookup.table = route.table;
            lookup.route = Some(route);
        },
        Err(words) => {
            let target = destination.to_text();
            let detail = String::from_str("RTM_GETROUTE to ").concat(target.as_str());
            lookup.error = Some(Error::kernel(words).with_detail(detail));
        },
    }
    lookup
}

/// Listed routes are all the routes asked for, each table's together, the
/// longest prefix first and, among equals, the lowest metric.
pub proof fn law_routes_in_order(routes: Seq<Route>)
    ensures
        in_order(sort_by(routes, route_before()), route_before()),
        sort_by(routes, route_before()).to_multiset() == routes.to_multiset(),
{
    law_sort_by(routes, route_before());
}

/// Listed rules are all the rules asked for, in the order in which the kernel
/// evaluates them.
pub proof fn law_rules_in_order(rules: Seq<RoutingRule>)
    ensures
        in_order(sort_by(rules, rule_before()), rule_before()),
        sort_by(rules, rule_before()).to_multiset() == rules.to_multiset(),
{
    law_sort_by(rules, rule_before());
}

/// Inverting a rule with a uid range turns its answer for every uid around, which
/// is how an app is carved out of a VPN. One without a range is for everyone.
pub proof fn law_inversion_turns_the_uid_selector_around(rule: RoutingRule, uid: u32)
    ensures
        rule.has_uid_range ==> matches_uid(
            RoutingRule { invert: !rule.invert, ..rule },
            uid,
        ) != matches_uid(rule, uid),
        !rule.has_uid_range ==> matches_uid(rule, uid),
{
}

} // verus!
