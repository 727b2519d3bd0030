//! What a diagnosis is about, and what the kernel said before it began.
use vstd::prelude::*;

use crate::collect::procnet::{clat_told, detect_clat};
use crate::collect::routes::LookupArguments;
use crate::ip::{IpAddr, SocketAddr};
use crate::probe::{ProbeContext, DEFAULT_TIMEOUT_MS};
use crate::proto::{
    address_ip, same_interface, AndroidNetwork, AndroidNetworkState, Clat464State, DiagnoseTarget,
    Interface, IpAddress, Neighbor, Route, RouteLookup, RoutingRule, Socket, SocketSummary,
};
use crate::seqs::{find, lemma_find_step, or, position_of};
use crate::text::is_empty;
use crate::util::pinning_mark;

verus! {

/// Default port for the raw TCP checks.
pub const DEFAULT_TCP_PORT: u16 = 443;

/// Default host for the DNS and TLS checks: what Android itself validates
/// against, so a failure here is directly comparable with the framework's own
/// verdict.
pub open spec fn default_hostname() -> Seq<char> {
    "connectivitycheck.gstatic.com"@
}

/// Fixed endpoint for the raw TCP checks. It is a literal on purpose: if the
/// TCP check depended on DNS, a broken resolver would make every transport
/// check fail too, and the report would blame the wrong layer.
pub open spec fn v4_endpoint_ip() -> IpAddr {
    IpAddr::V4([1, 1, 1, 1])
}

pub open spec fn v6_endpoint_ip() -> IpAddr {
    IpAddr::V6([0x26, 0x06, 0x47, 0, 0x47, 0, 0, 0, 0, 0, 0, 0, 0, 0, 0x11, 0x11])
}

/// Fixed IPv4 endpoint, and resolver of last resort.
pub fn default_v4_endpoint() -> (r: IpAddr)
    ensures
        r == v4_endpoint_ip(),
{
    IpAddr::V4([1, 1, 1, 1])
}

/// Fixed IPv6 endpoint, and resolver of last resort.
pub fn default_v6_endpoint() -> (r: IpAddr)
    ensures
        r == v6_endpoint_ip(),
{
    IpAddr::V6([0x26, 0x06, 0x47, 0, 0x47, 0, 0, 0, 0, 0, 0, 0, 0, 0, 0x11, 0x11])
}

/// Everything the checks share, collected once so that twenty checks do not
/// each re-dump the routing table.
pub struct DiagState {
    pub interfaces: Vec<Interface>,
    pub rules: Vec<RoutingRule>,
    pub routes: Vec<Route>,
    pub neighbors: Vec<Neighbor>,
    pub sockets: Vec<Socket>,
    pub socket_summary: SocketSummary,
    pub clat: Clat464State,
    /// The Android Network the report is about, if the app supplied state.
    pub network: Option<AndroidNetwork>,
    pub net_id: i32,
    pub probe_ctx_v4: ProbeContext,
    pub probe_ctx_v6: ProbeContext,
    pub lookup_v4: RouteLookup,
    pub lookup_v6: RouteLookup,
    pub egress_v4: Option<Interface>,
    pub egress_v6: Option<Interface>,
    pub dns_servers: Vec<IpAddr>,
    pub dns_from_framework: bool,
    pub hostname: String,
    pub v4_endpoint: SocketAddr,
    pub v6_endpoint: SocketAddr,
    pub timeout_ms: u32,
}

// ---- What to ask --------------------------------------------------------------

/// The network that a diagnosis is about: the one that the target names, or
/// else the active one, or zero.
pub open spec fn net_id_of(target: DiagnoseTarget, android: Option<AndroidNetworkState>) -> i32 {
    if target.net_id != 0 {
        target.net_id
    } else {
        match android {
            Some(s) if s.has_active_network => s.active_net_id,
            _ => 0,
        }
    }
}

pub fn resolve_net_id(target: &DiagnoseTarget, android_state: Option<&AndroidNetworkState>) -> (r: i32)
    ensures
        r == net_id_of(
            *target,
            match android_state {
                Some(s) => Some(*s),
                None => None,
            },
        ),
{
    if target.net_id != 0 {
        return target.net_id;
    }
    match android_state {
        Some(s) => if s.has_active_network {
            s.active_net_id
        } else {
            0
        },
        None => 0,
    }
}

pub open spec fn has_net_id(net_id: i32) -> spec_fn(AndroidNetwork) -> bool {
    |n: AndroidNetwork| n.net_id == net_id
}

pub open spec fn is_default_network() -> spec_fn(AndroidNetwork) -> bool {
    |n: AndroidNetwork| n.is_default
}

/// The Network object of a netId, or else the default one.
pub open spec fn network_of(networks: Seq<AndroidNetwork>, net_id: i32) -> Option<AndroidNetwork> {
    match find(networks, has_net_id(net_id)) {
        Some(n) => Some(n),
        None => find(networks, is_default_network()),
    }
}

/// The Network object that a diagnosis is about.
pub fn resolve_network(networks: &Vec<AndroidNetwork>, net_id: i32) -> (r: Option<&AndroidNetwork>)
    ensures
        match r {
            Some(n) => network_of(networks@, net_id) == Some(*n),
            None => network_of(networks@, net_id) is None,
        },
{
    let ghost p = has_net_id(net_id);
    let ghost q = is_default_network();
    let mut i: usize = 0;
    assert(networks@.skip(0) =~= networks@);
    while i < networks.len()
        invariant
            i <= networks.len(),
            p == has_net_id(net_id),
            find(networks@, p) == find(networks@.skip(i as int), p),
        decreases networks.len() - i,
    {
        proof {
            lemma_find_step(networks@, p, i as int);
        }
        if networks[i].net_id == net_id {
            return Some(&networks[i]);
        }
        i += 1;
    }
    assert(find(networks@, p) is None);
    let mut i: usize = 0;
    while i < networks.len()
        invariant
            i <= networks.len(),
            p == has_net_id(net_id),
            q == is_default_network(),
            find(networks@, p) is None,
            find(networks@, q) == find(networks@.skip(i as int), q),
        decreases networks.len() - i,
    {
        proof {
            lemma_find_step(networks@, q, i as int);
        }
        if networks[i].is_default {
            return Some(&networks[i]);
        }
        i += 1;
    }
    None
}

/// What a diagnosis asks of the kernel and of the network.
pub struct DiagPlan {
    pub net_id: i32,
    pub uid: Option<u32>,
    pub ctx: ProbeContext,
    pub hostname: String,
    pub v4_endpoint: SocketAddr,
    pub v6_endpoint: SocketAddr,
    pub timeout_ms: u32,
}

/// An address that the target names, or else a default.
pub open spec fn endpoint_ip(named: Option<IpAddress>, fallback: IpAddr) -> IpAddr {
    or(address_ip(named), fallback)
}

/// The port that the target names, or else 443. A number beyond the range of
/// ports loses its upper bits.
pub open spec fn endpoint_port(tcp_port: u32) -> int {
    if tcp_port == 0 {
        DEFAULT_TCP_PORT as int
    } else {
        tcp_port as int % 0x1_0000
    }
}

fn endpoint(named: &Option<IpAddress>, fallback: IpAddr, port: u16) -> (r: SocketAddr)
    ensures
        r.ip == endpoint_ip(*named, fallback),
        r.port == port,
{
    let ip = match named {
        Some(a) => match a.to_ip() {
            Some(ip) => ip,
            None => fallback,
        },
        None => fallback,
    };
    SocketAddr { ip, port }
}

/// Whether a plan is that of a target, given the state of the framework.
pub open spec fn plans(r: DiagPlan, target: DiagnoseTarget, android: Option<AndroidNetworkState>) -> bool {
    &&& r.net_id == net_id_of(target, android)
    &&& r.uid == if target.has_as_uid {
        Some(target.as_uid)
    } else {
        None
    }
    &&& r.ctx.mark == if r.net_id > 0 {
        Some(pinning_mark(r.net_id as u32))
    } else {
        None
    }
    &&& r.ctx.bind_device is None
    &&& r.ctx.source is None
    &&& r.ctx.timeout_ms == if target.timeout_ms == 0 {
        DEFAULT_TIMEOUT_MS
    } else {
        target.timeout_ms as u64
    }
    &&& r.hostname@ == if target.hostname@.len() == 0 {
        default_hostname()
    } else {
        target.hostname@
    }
    &&& r.v4_endpoint.ip == endpoint_ip(target.ipv4_endpoint, v4_endpoint_ip())
    &&& r.v4_endpoint.port == endpoint_port(target.tcp_port)
    &&& r.v6_endpoint.ip == endpoint_ip(target.ipv6_endpoint, v6_endpoint_ip())
    &&& r.v6_endpoint.port == endpoint_port(target.tcp_port)
    &&& r.timeout_ms == target.timeout_ms
}

/// What a diagnosis asks, from its target and the state of the framework.
pub fn plan_diagnosis(target: &DiagnoseTarget, android_state: Option<&AndroidNetworkState>) -> (r: DiagPlan)
    ensures
        plans(
            r,
            *target,
            match android_state {
                Some(s) => Some(*s),
                None => None,
            },
        ),
{
    let net_id = resolve_net_id(target, android_state);
    let tcp_port: u32 = target.tcp_port;
    let port: u16 = if tcp_port == 0 {
        DEFAULT_TCP_PORT
    } else {
        (tcp_port % 0x1_0000) as u16
    };
    DiagPlan {
        net_id,
        uid: if target.has_as_uid {
            Some(target.as_uid)
        } else {
            None
        },
        ctx: ProbeContext::with_timeout(target.timeout_ms).pinned_to_net_id(net_id),
        hostname: if is_empty(target.hostname.as_str()) {
            String::from_str("connectivitycheck.gstatic.com")
        } else {
            target.hostname.clone()
        },
        v4_endpoint: endpoint(&target.ipv4_endpoint, default_v4_endpoint(), port),
        v6_endpoint: endpoint(&target.ipv6_endpoint, default_v6_endpoint(), port),
        timeout_ms: target.timeout_ms,
    }
}

/// The lookup of a destination as the uid and with the mark of a plan.
pub open spec fn planned_lookup(plan: DiagPlan, destination: IpAddr) -> LookupArguments {
    LookupArguments {
        destination,
        source_hint: None,
        uid: plan.uid,
        fwmark: plan.ctx.mark,
        out_interface_index: 0,
    }
}

/// The two lookups that the kernel is asked for: as the uid and with the mark of
/// the plan.
pub fn plan_lookups(plan: &DiagPlan) -> (r: (LookupArguments, LookupArguments))
    ensures
        r.0 == planned_lookup(*plan, v4_endpoint_ip()),
        r.1 == planned_lookup(*plan, v6_endpoint_ip()),
{
    let v4 = LookupArguments {
        destination: default_v4_endpoint(),
        source_hint: None,
        uid: plan.uid,
        fwmark: plan.ctx.mark,
        out_interface_index: 0,
    };
    (v4, LookupArguments { destination: default_v6_endpoint(), ..v4 })
}

// ---- What came back -------------------------------------------------------------

pub open spec fn interface_is(index: u32) -> spec_fn(Interface) -> bool {
    |i: Interface| i.index == index
}

/// The interface through which a route leaves: that of its first hop.
pub open spec fn egress_of(lookup: RouteLookup, interfaces: Seq<Interface>) -> Option<Interface> {
    match lookup.route {
        Some(route) if route.next_hops@.len() > 0 => find(
            interfaces,
            interface_is(route.next_hops@[0].out_interface_index),
        ),
        _ => None,
    }
}

pub fn egress_interface<'a>(lookup: &RouteLookup, interfaces: &'a Vec<Interface>) -> (r: Option<
    &'a Interface,
>)
    ensures
        match r {
            Some(i) => egress_of(*lookup, interfaces@) == Some(*i),
            None => egress_of(*lookup, interfaces@) is None,
        },
{
    match &lookup.route {
        None => None,
        Some(route) => {
            if route.next_hops.len() == 0 {
                return None;
            }
            let index = route.next_hops[0].out_interface_index;
            let ghost p = interface_is(index);
            let mut i: usize = 0;
            assert(interfaces@.skip(0) =~= interfaces@);
            while i < interfaces.len()
                invariant
                    i <= interfaces.len(),
                    p == interface_is(index),
                    egress_of(*lookup, interfaces@) == find(interfaces@, p),
                    find(interfaces@, p) == find(interfaces@.skip(i as int), p),
                decreases interfaces.len() - i,
            {
                proof {
                    lemma_find_step(interfaces@, p, i as int);
                }
                if interfaces[i].index == index {
                    return Some(&interfaces[i]);
                }
                i += 1;
            }
            None
        },
    }
}

/// The addresses that are set, in order.
pub open spec fn set_addresses(list: Seq<IpAddress>) -> Seq<IpAddr>
    decreases list.len(),
{
    if list.len() == 0 {
        Seq::empty()
    } else {
        let front = set_addresses(list.drop_last());
        match list.last().ip_of() {
            Some(ip) => front.push(ip),
            None => front,
        }
    }
}

pub(crate) fn read_addresses(list: &Vec<IpAddress>) -> (r: Vec<IpAddr>)
    ensures
        r@ == set_addresses(list@),
{
    let mut r: Vec<IpAddr> = Vec::new();
    let mut i: usize = 0;
    assert(list@.take(0) =~= Seq::empty());
    while i < list.len()
        invariant
            i <= list.len(),
            r@ == set_addresses(list@.take(i as int)),
        decreases list.len() - i,
    {
        assert(list@.take(i + 1).drop_last() =~= list@.take(i as int));
        if let Some(ip) = list[i].to_ip() {
            r.push(ip);
        }
        i += 1;
    }
    assert(list@.take(list@.len() as int) =~= list@);
    r
}

/// The DNS servers that the framework configured for a network.
pub open spec fn configured_dns(network: Option<AndroidNetwork>) -> Seq<IpAddr> {
    match network {
        Some(n) => match n.link_properties {
            Some(lp) => set_addresses(lp.dns_servers@),
            None => Seq::empty(),
        },
        None => Seq::empty(),
    }
}

/// The servers to test for a network, and whether the framework configured
/// them.
pub open spec fn servers_to_test(network: Option<AndroidNetwork>) -> (Seq<IpAddr>, bool) {
    let configured = configured_dns(network);
    if configured.len() > 0 {
        (configured, true)
    } else {
        (seq![v4_endpoint_ip(), v6_endpoint_ip()], false)
    }
}

/// DNS servers to test, preferring the ones the framework actually configured.
/// Falling back to a public resolver still exercises the path, but "DNS works
/// against 1.1.1.1" and "DNS works" are different claims, so the second part
/// says which it is.
pub fn resolve_dns_servers(network: Option<&AndroidNetwork>) -> (r: (Vec<IpAddr>, bool))
    ensures
        (r.0@, r.1) == servers_to_test(
            match network {
                Some(n) => Some(*n),
                None => None,
            },
        ),
{
    if let Some(n) = network {
        if let Some(lp) = &n.link_properties {
            let servers = read_addresses(&lp.dns_servers);
            if servers.len() > 0 {
                return (servers, true);
            }
        }
    }
    let mut servers: Vec<IpAddr> = Vec::new();
    servers.push(default_v4_endpoint());
    servers.push(default_v6_endpoint());
    assert(servers@ =~= seq![v4_endpoint_ip(), v6_endpoint_ip()]);
    (servers, false)
}

/// What was collected for a diagnosis.
pub struct Collected {
    pub interfaces: Vec<Interface>,
    pub rules: Vec<RoutingRule>,
    pub routes: Vec<Route>,
    pub neighbors: Vec<Neighbor>,
    pub sockets: Vec<Socket>,
    pub socket_summary: SocketSummary,
    /// What the framework said, if it was asked.
    pub android_state: Option<AndroidNetworkState>,
    /// Where the kernel sends the packets that the plan is about.
    pub lookup_v4: RouteLookup,
    pub lookup_v6: RouteLookup,
}

/// The network that a plan is about, of those that the framework knows.
pub open spec fn planned_network(android: Option<AndroidNetworkState>, net_id: i32) -> Option<
    AndroidNetwork,
> {
    match android {
        Some(state) => network_of(state.networks@, net_id),
        None => None,
    }
}

fn take_network(android: Option<AndroidNetworkState>, net_id: i32) -> (r: Option<AndroidNetwork>)
    ensures
        r == planned_network(android, net_id),
{
    let pinned = |n: &AndroidNetwork| -> (b: bool)
        ensures
            b == has_net_id(net_id)(*n),
        { n.net_id == net_id };
    let default = |n: &AndroidNetwork| -> (b: bool)
        ensures
            b == is_default_network()(*n),
        { n.is_default };
    match android {
        None => None,
        Some(state) => {
            let mut networks = state.networks;
            if let Some(i) = position_of(&networks, pinned, Ghost(has_net_id(net_id))) {
                return Some(networks.swap_remove(i));
            }
            match position_of(&networks, default, Ghost(is_default_network())) {
                Some(i) => Some(networks.swap_remove(i)),
                None => None,
            }
        },
    }
}

/// Whether an interface is alike the one that a lookup leaves through, or there
/// is none for it.
pub open spec fn is_egress(
    egress: Option<Interface>,
    lookup: RouteLookup,
    interfaces: Seq<Interface>,
) -> bool {
    match egress_of(lookup, interfaces) {
        Some(i) => egress is Some && same_interface(egress->0, i),
        None => egress is None,
    }
}

fn copy_egress(lookup: &RouteLookup, interfaces: &Vec<Interface>) -> (r: Option<Interface>)
    ensures
        is_egress(r, *lookup, interfaces@),
{
    match egress_interface(lookup, interfaces) {
        Some(i) => Some(i.copy()),
        None => None,
    }
}

/// Whether a context is the plan's, bound to the interface that the kernel
/// says it would use. The mark alone is usually enough, but when the app
/// supplied no netId there is no mark and the device name is all there is.
pub open spec fn bound_to(ctx: ProbeContext, base: ProbeContext, egress: Option<Interface>) -> bool {
    &&& ctx.mark == base.mark
    &&& ctx.source == base.source
    &&& ctx.timeout_ms == base.timeout_ms
    &&& match egress {
        Some(i) if i.name@.len() > 0 => ctx.bind_device == Some(i.name),
        _ => ctx.bind_device == base.bind_device,
    }
}

fn bind_context(base: &ProbeContext, egress: &Option<Interface>) -> (r: ProbeContext)
    ensures
        bound_to(r, *base, *egress),
{
    match egress {
        Some(i) => base.copy().on_device(i.name.clone()),
        None => base.copy(),
    }
}

/// The state that the checks share, from the plan and what was collected.
pub fn gather(plan: DiagPlan, c: Collected) -> (r: DiagState)
    ensures
        r.interfaces == c.interfaces,
        r.rules == c.rules,
        r.routes == c.routes,
        r.neighbors == c.neighbors,
        r.sockets == c.sockets,
        r.socket_summary == c.socket_summary,
        r.network == planned_network(c.android_state, plan.net_id),
        r.net_id == plan.net_id,
        clat_told(r.clat, c.interfaces@),
        r.lookup_v4 == c.lookup_v4,
        r.lookup_v6 == c.lookup_v6,
        is_egress(r.egress_v4, c.lookup_v4, c.interfaces@),
        is_egress(r.egress_v6, c.lookup_v6, c.interfaces@),
        bound_to(r.probe_ctx_v4, plan.ctx, r.egress_v4),
        bound_to(r.probe_ctx_v6, plan.ctx, r.egress_v6),
        (r.dns_servers@, r.dns_from_framework) == servers_to_test(r.network),
        r.hostname == plan.hostname,
        r.v4_endpoint == plan.v4_endpoint,
        r.v6_endpoint == plan.v6_endpoint,
        r.timeout_ms == plan.timeout_ms,
{
    let clat = detect_clat(&c.interfaces);
    let egress_v4 = copy_egress(&c.lookup_v4, &c.interfaces);
    let egress_v6 = copy_egress(&c.lookup_v6, &c.interfaces);
    let probe_ctx_v4 = bind_context(&plan.ctx, &egress_v4);
    let probe_ctx_v6 = bind_context(&plan.ctx, &egress_v6);
    let network = take_network(c.android_state, plan.net_id);
    let (dns_servers, dns_from_framework) = match &network {
        Some(n) => resolve_dns_servers(Some(n)),
        None => resolve_dns_servers(None),
    };
    DiagState {
        interfaces: c.interfaces,
        rules: c.rules,
        routes: c.routes,
        neighbors: c.neighbors,
        sockets: c.sockets,
        socket_summary: c.socket_summary,
        clat,
        network,
        net_id: plan.net_id,
        probe_ctx_v4,
        probe_ctx_v6,
        lookup_v4: c.lookup_v4,
        lookup_v6: c.lookup_v6,
        egress_v4,
        egress_v6,
        dns_servers,
        dns_from_framework,
        hostname: plan.hostname,
        v4_endpoint: plan.v4_endpoint,
        v6_endpoint: plan.v6_endpoint,
        timeout_ms: plan.timeout_ms,
    }
}

} // verus!
