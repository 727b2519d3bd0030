//! Checks that only read what was collected.
use vstd::prelude::*;

use crate::collect::firewall::{decode_match_bits, denied, is_unambiguously_denied, rule_texts};
use crate::collect::links::{has_global_address, is_global, link_address_ip, prefix_ip};
use crate::collect::routes::{leaves_by, route_leaves_by};
use crate::collect::sockets::count;
use crate::diag::check::{one, said, untold, CheckBuilder, Said};
use crate::diag::state::{
    default_v4_endpoint, default_v6_endpoint, v4_endpoint_ip, v6_endpoint_ip, DiagState,
};
use crate::proto::{
    AndroidNetwork, Check, CheckId, DiagnoseRequest, FirewallBackend, FirewallState, Interface,
    InterfaceSysctls, IpAddress, IpFamily, IpPrefix, LinkAddress, LinkKind, LinkPropertiesInfo,
    NextHop, Route, RouteInfo, RouteLookup, RouteType, RoutingRule, Socket, SocketSummary, TcpState,
    Transport, UidFirewallState,
};
use crate::seqs::{
    any, distinct_ascending, find, lemma_filter_end, lemma_filter_start, lemma_filter_step,
    lemma_find_step, or, sort_dedup,
};
use crate::text::{
    contains_text, dec, dec_string, hex, hex_string, is_empty, join, join_texts, same, sdec,
    sdec_string, texts, truth, truth_str,
};
use crate::util::Stopwatch;

verus! {

/// Number of sockets in SYN_SENT from which on the state is called suspicious. A
/// couple are normal during page load; a dozen means connections are not
/// completing.
pub const SYN_SENT_THRESHOLD: u32 = 5;

pub const CLOSE_WAIT_THRESHOLD: u32 = 20;

// ---- Words ------------------------------------------------------------------

/// The name of a transport.
pub open spec fn transport_word(t: Transport) -> Seq<char> {
    match t {
        Transport::Cellular => "cellular"@,
        Transport::Wifi => "Wi-Fi"@,
        Transport::Bluetooth => "Bluetooth"@,
        Transport::Ethernet => "Ethernet"@,
        Transport::Vpn => "VPN"@,
        Transport::WifiAware => "Wi-Fi Aware"@,
        Transport::Lowpan => "LoWPAN"@,
        Transport::Usb => "USB"@,
        Transport::Thread => "Thread"@,
        Transport::Satellite => "satellite"@,
        Transport::Unspecified | Transport::Other(_) => "unknown"@,
    }
}

pub fn transport_name(t: Transport) -> (r: &'static str)
    ensures
        r@ == transport_word(t),
{
    match t {
        Transport::Cellular => "cellular",
        Transport::Wifi => "Wi-Fi",
        Transport::Bluetooth => "Bluetooth",
        Transport::Ethernet => "Ethernet",
        Transport::Vpn => "VPN",
        Transport::WifiAware => "Wi-Fi Aware",
        Transport::Lowpan => "LoWPAN",
        Transport::Usb => "USB",
        Transport::Thread => "Thread",
        Transport::Satellite => "satellite",
        Transport::Unspecified | Transport::Other(_) => "unknown",
    }
}

/// A transport by its name, or by its number where it has none.
pub open spec fn transport_text(t: Transport) -> Seq<char> {
    match t {
        Transport::Other(n) => "transport "@ + sdec(n as int),
        _ => transport_word(t),
    }
}

pub open spec fn transport_texts(list: Seq<Transport>) -> Seq<Seq<char>> {
    Seq::new(list.len(), |i: int| transport_text(list[i]))
}

fn list_transports(list: &Vec<Transport>) -> (r: Vec<String>)
    ensures
        texts(r@) == transport_texts(list@),
{
    let mut r: Vec<String> = Vec::new();
    let mut i: usize = 0;
    while i < list.len()
        invariant
            i <= list.len(),
            r.len() == i,
            forall|k: int| 0 <= k < i ==> #[trigger] r@[k]@ == transport_text(list@[k]),
        decreases list.len() - i,
    {
        let text = match list[i] {
            Transport::Other(n) => {
                let d = sdec_string(n as i64);
                String::from_str("transport ").concat(d.as_str())
            },
            t => String::from_str(transport_name(t)),
        };
        r.push(text);
        i += 1;
    }
    assert(texts(r@) =~= transport_texts(list@));
    r
}

/// The name of a family.
pub open spec fn family_word(family: IpFamily) -> Seq<char> {
    match family {
        IpFamily::V4 => "IPv4"@,
        IpFamily::V6 => "IPv6"@,
        IpFamily::Unspecified => "any"@,
    }
}

pub fn family_label(family: IpFamily) -> (r: &'static str)
    ensures
        r@ == family_word(family),
{
    match family {
        IpFamily::V4 => "IPv4",
        IpFamily::V6 => "IPv6",
        IpFamily::Unspecified => "any",
    }
}

/// A name, or "none".
pub open spec fn name_or_none(i: Option<Interface>) -> Seq<char> {
    match i {
        Some(i) => i.name@,
        None => "none"@,
    }
}

fn interface_name(i: &Option<Interface>) -> (r: String)
    ensures
        r@ == name_or_none(*i),
{
    match i {
        Some(i) => i.name.clone(),
        None => String::from_str("none"),
    }
}

/// An address as it is written, or a word where there is none.
pub open spec fn address_or(a: Option<IpAddress>, word: Seq<char>) -> Seq<char> {
    match a {
        Some(a) => a.text(),
        None => word,
    }
}

fn show_address(a: &Option<IpAddress>, word: &str) -> (r: String)
    ensures
        r@ == address_or(*a, word@),
{
    match a {
        Some(a) => a.display(),
        None => String::from_str(word),
    }
}

/// Whether an interface is up.
pub open spec fn is_up(i: Interface) -> bool {
    i.flags is Some && (i.flags->0).up
}

fn up(i: &Interface) -> (r: bool)
    ensures
        r == is_up(*i),
{
    match &i.flags {
        Some(f) => f.up,
        None => false,
    }
}

/// Whether an interface has a carrier.
pub open spec fn is_running(i: Interface) -> bool {
    i.flags is Some && (i.flags->0).running
}

fn running(i: &Interface) -> (r: bool)
    ensures
        r == is_running(*i),
{
    match &i.flags {
        Some(f) => f.running,
        None => false,
    }
}

/// The first of two interfaces that is there.
pub open spec fn either(a: Option<Interface>, b: Option<Interface>) -> Option<Interface> {
    if a is Some {
        a
    } else {
        b
    }
}

// ---- The framework's state --------------------------------------------------------

/// The capabilities that the checks read.
#[derive(Clone, Copy, Debug, PartialEq, Eq, Structural)]
pub struct Caps {
    pub internet: bool,
    pub validated: bool,
    pub captive_portal: bool,
    pub partial_connectivity: bool,
    pub not_metered: bool,
}

/// The capabilities of a network; all are absent where none are reported.
pub open spec fn caps_of(n: AndroidNetwork) -> Caps {
    match n.capabilities {
        Some(c) => Caps {
            internet: c.internet,
            validated: c.validated,
            captive_portal: c.captive_portal,
            partial_connectivity: c.partial_connectivity,
            not_metered: c.not_metered,
        },
        None => Caps {
            internet: false,
            validated: false,
            captive_portal: false,
            partial_connectivity: false,
            not_metered: false,
        },
    }
}

pub(crate) fn read_caps(n: &AndroidNetwork) -> (r: Caps)
    ensures
        r == caps_of(*n),
{
    match &n.capabilities {
        Some(c) => Caps {
            internet: c.internet,
            validated: c.validated,
            captive_portal: c.captive_portal,
            partial_connectivity: c.partial_connectivity,
            not_metered: c.not_metered,
        },
        None => Caps {
            internet: false,
            validated: false,
            captive_portal: false,
            partial_connectivity: false,
            not_metered: false,
        },
    }
}

/// What the check of the framework's state says.
pub open spec fn android_state_said(state: DiagState, request: DiagnoseRequest) -> Said {
    let b = untold(CheckId::AndroidNetworkState, "Android framework network state"@);
    match (request.android_state, state.network) {
        (None, _) => b.skip(
            "the app did not supply ConnectivityManager state, so framework-level checks cannot run"@,
        ),
        (Some(android), None) => b.ev("networks"@, dec(android.networks@.len())).fail(
            "ConnectivityManager reports no usable network"@,
        ),
        (Some(_), Some(n)) => {
            let caps = caps_of(n);
            let id = sdec(n.net_id as int);
            let b = b.ev("net_id"@, id).ev("net_id_under_test"@, sdec(state.net_id as int)).ev(
                "probe_timeout_ms"@,
                dec(state.timeout_ms as nat),
            ).ev("network_handle"@, dec(n.network_handle as nat)).ev(
                "transports"@,
                join(transport_texts(n.transports@), ", "@),
            ).ev("validated"@, truth(caps.validated)).ev(
                "internet_capability"@,
                truth(caps.internet),
            ).ev("metered"@, truth(!caps.not_metered)).ev(
                "captive_portal"@,
                truth(caps.captive_portal),
            ).ev("is_default"@, truth(n.is_default)).ev(
                "interface"@,
                match n.link_properties {
                    Some(lp) => lp.interface_name@,
                    None => Seq::empty(),
                },
            );
            if !caps.internet {
                b.fail("network "@ + id + " does not claim NET_CAPABILITY_INTERNET"@)
            } else if caps.captive_portal {
                b.warn("network "@ +
                    id +
                    " is behind a captive portal according to the framework"@)
            } else if !caps.validated {
                b.warn("network "@ +
                    id +
                    " has INTERNET but not VALIDATED: Android could not confirm end-to-end connectivity"@)
            } else if caps.partial_connectivity {
                b.warn("network "@ + id + " reports partial connectivity"@)
            } else {
                b.pass("network "@ +
                    id +
                    " is VALIDATED over "@ +
                    join(transport_texts(n.transports@), "+"@))
            }
        },
    }
}

pub fn check_android_state(state: &DiagState, request: &DiagnoseRequest) -> (r: Check)
    ensures
        said(r) == android_state_said(*state, *request),
        r.id == CheckId::AndroidNetworkState,
        r.evidence.wf(),
{
    let b = CheckBuilder::new(CheckId::AndroidNetworkState, "Android framework network state");
    let android = match &request.android_state {
        Some(a) => a,
        None => {
            return b.skip(
                String::from_str(
                    "the app did not supply ConnectivityManager state, so framework-level checks cannot run",
                ),
            );
        },
    };
    let n = match &state.network {
        Some(n) => n,
        None => {
            return b.ev("networks", dec_string(android.networks.len() as u64).as_str()).fail(
                String::from_str("ConnectivityManager reports no usable network"),
            );
        },
    };
    let caps = read_caps(n);
    let transports = list_transports(&n.transports);
    let id = sdec_string(n.net_id as i64);
    let interface = match &n.link_properties {
        Some(lp) => lp.interface_name.clone(),
        None => String::new(),
    };
    let b = b.ev("net_id", id.as_str()).ev(
        "net_id_under_test",
        sdec_string(state.net_id as i64).as_str(),
    ).ev("probe_timeout_ms", dec_string(state.timeout_ms as u64).as_str()).ev(
        "network_handle",
        dec_string(n.network_handle).as_str(),
    ).ev("transports", join_texts(&transports, ", ").as_str()).ev(
        "validated",
        truth_str(caps.validated),
    ).ev("internet_capability", truth_str(caps.internet)).ev(
        "metered",
        truth_str(!caps.not_metered),
    ).ev("captive_portal", truth_str(caps.captive_portal)).ev(
        "is_default",
        truth_str(n.is_default),
    ).ev("interface", interface.as_str());
    if !caps.internet {
        return b.fail(String::from_str("network ")
            .concat(id.as_str())
            .concat(" does not claim NET_CAPABILITY_INTERNET"));
    }
    if caps.captive_portal {
        return b.warn(String::from_str("network ")
            .concat(id.as_str())
            .concat(" is behind a captive portal according to the framework"));
    }
    if !caps.validated {
        return b.warn(String::from_str("network ")
            .concat(id.as_str())
            .concat(" has INTERNET but not VALIDATED: Android could not confirm end-to-end connectivity"));
    }
    if caps.partial_connectivity {
        return b.warn(String::from_str("network ")
            .concat(id.as_str())
            .concat(" reports partial connectivity"));
    }
    let over = join_texts(&transports, "+");
    b.pass(String::from_str("network ")
        .concat(id.as_str())
        .concat(" is VALIDATED over ")
        .concat(over.as_str()))
}

// ---- The egress interface -----------------------------------------------------------

/// What the check of the egress interface says.
pub open spec fn active_interface_said(state: DiagState) -> Said {
    let b = untold(CheckId::ActiveInterface, "Active egress interface"@);
    match either(state.egress_v4, state.egress_v6) {
        None => b.fail(
            "the kernel has no route to the internet for either family; nothing would leave the device"@,
        ),
        Some(i) => {
            let b = b.ev("interface"@, i.name@).ev("index"@, dec(i.index as nat)).ev(
                "mtu"@,
                dec(i.mtu as nat),
            ).ev("kind"@, i.kind.name_text()).ev("oper_state"@, i.oper_state.name_text()).ev(
                "egress_v4"@,
                name_or_none(state.egress_v4),
            ).ev("egress_v6"@, name_or_none(state.egress_v6));
            if !is_up(i) {
                b.fail(i.name@ + " is the egress interface but is not UP"@)
            } else if !is_running(i) {
                b.warn(i.name@ + " is UP but has no carrier (IFF_RUNNING is clear)"@)
            } else {
                b.pass("traffic leaves via "@ +
                    i.name@ +
                    " (index "@ +
                    dec(i.index as nat) +
                    ", MTU "@ +
                    dec(i.mtu as nat) +
                    ")"@)
            }
        },
    }
}

pub fn check_active_interface(state: &DiagState) -> (r: Check)
    ensures
        said(r) == active_interface_said(*state),
        r.id == CheckId::ActiveInterface,
        r.evidence.wf(),
{
    let b = CheckBuilder::new(CheckId::ActiveInterface, "Active egress interface");
    let i = match (&state.egress_v4, &state.egress_v6) {
        (Some(i), _) => i,
        (None, Some(i)) => i,
        (None, None) => {
            return b.fail(
                String::from_str(
                    "the kernel has no route to the internet for either family; nothing would leave the device",
                ),
            );
        },
    };
    let index = dec_string(i.index as u64);
    let mtu = dec_string(i.mtu as u64);
    let b = b.ev("interface", i.name.as_str()).ev("index", index.as_str()).ev(
        "mtu",
        mtu.as_str(),
    ).ev("kind", i.kind.name()).ev("oper_state", i.oper_state.name()).ev(
        "egress_v4",
        interface_name(&state.egress_v4).as_str(),
    ).ev("egress_v6", interface_name(&state.egress_v6).as_str());
    if !up(i) {
        return b.fail(String::from_str(i.name.as_str()).concat(" is the egress interface but is not UP"));
    }
    if !running(i) {
        return b.warn(String::from_str(i.name.as_str())
            .concat(" is UP but has no carrier (IFF_RUNNING is clear)"));
    }
    b.pass(String::from_str("traffic leaves via ")
        .concat(i.name.as_str())
        .concat(" (index ")
        .concat(index.as_str())
        .concat(", MTU ")
        .concat(mtu.as_str())
        .concat(")"))
}

// ---- The kernel's route lookup --------------------------------------------------------

/// The lookup of a family; IPv4 where none is named.
pub open spec fn lookup_of(state: DiagState, family: IpFamily) -> RouteLookup {
    match family {
        IpFamily::V6 => state.lookup_v6,
        _ => state.lookup_v4,
    }
}

pub(crate) fn lookup_for(state: &DiagState, family: IpFamily) -> (r: &RouteLookup)
    ensures
        *r == lookup_of(*state, family),
{
    match family {
        IpFamily::V6 => &state.lookup_v6,
        _ => &state.lookup_v4,
    }
}

/// One check for IPv4 and another for IPv6.
pub open spec fn by_family(family: IpFamily, v4: CheckId, v6: CheckId) -> CheckId {
    match family {
        IpFamily::V6 => v6,
        _ => v4,
    }
}

pub(crate) fn id_for(family: IpFamily, v4: CheckId, v6: CheckId) -> (r: CheckId)
    ensures
        r == by_family(family, v4, v6),
{
    match family {
        IpFamily::V6 => v6,
        _ => v4,
    }
}

/// What the first hop of a route says: the gateway, or a word, and the
/// interface.
pub open spec fn first_hop(route: Route, word: Seq<char>) -> (Seq<char>, Seq<char>) {
    if route.next_hops@.len() == 0 {
        (word, Seq::empty())
    } else {
        (
            address_or(route.next_hops@[0].gateway, word),
            route.next_hops@[0].out_interface_name@,
        )
    }
}

fn show_first_hop(route: &Route, word: &str) -> (r: (String, String))
    ensures
        (r.0@, r.1@) == first_hop(*route, word@),
{
    if route.next_hops.len() == 0 {
        let name = String::new();
        assert(name@ =~= Seq::empty());
        (String::from_str(word), name)
    } else {
        let hop = &route.next_hops[0];
        (show_address(&hop.gateway, word), hop.out_interface_name.clone())
    }
}

/// What the check of the kernel's lookup says.
pub open spec fn route_lookup_said(state: DiagState, family: IpFamily) -> Said {
    let lookup = lookup_of(state, family);
    let target = match family {
        IpFamily::V6 => v6_endpoint_ip().text(),
        _ => v4_endpoint_ip().text(),
    };
    let b = untold(
        by_family(family, CheckId::RouteLookupV4, CheckId::RouteLookupV6),
        "Kernel route lookup ("@ + family_word(family) + ")"@,
    ).about(family).ev("destination"@, target).ev("mark"@, "0x"@ + hex(lookup.fwmark as nat)).ev(
        "uid"@,
        dec(lookup.uid as nat),
    );
    match (lookup.error, lookup.route) {
        (Some(e), _) => b.fail("the kernel could not route to "@ + target + ": "@ + e.message@),
        (None, None) => b.fail("the kernel returned no route to "@ + target),
        (None, Some(route)) => {
            let (gateway, interface) = first_hop(route, "on-link"@);
            let table = dec(route.table as nat);
            b.ev("table"@, table + " ("@ + route.table_name@ + ")"@).ev(
                "out_interface"@,
                interface,
            ).ev("gateway"@, gateway).ev("source"@, address_or(route.preferred_source, ""@)).info("packets to "@ +
                target +
                " take table "@ +
                table +
                " out of "@ +
                interface +
                " via "@ +
                gateway)
        },
    }
}

pub fn check_route_lookup(state: &DiagState, family: IpFamily) -> (r: Check)
    ensures
        said(r) == route_lookup_said(*state, family),
        r.id == by_family(family, CheckId::RouteLookupV4, CheckId::RouteLookupV6),
        r.evidence.wf(),
{
    let lookup = lookup_for(state, family);
    let target = match family {
        IpFamily::V6 => default_v6_endpoint().to_text(),
        _ => default_v4_endpoint().to_text(),
    };
    let title = String::from_str("Kernel route lookup (").concat(family_label(family)).concat(")");
    let mark = hex_string(lookup.fwmark as u64);
    let b = CheckBuilder::new(
        id_for(family, CheckId::RouteLookupV4, CheckId::RouteLookupV6),
        title.as_str(),
    ).family(family).ev("destination", target.as_str()).ev("mark", String::from_str("0x").concat(mark.as_str()).as_str()).ev(
        "uid",
        dec_string(lookup.uid as u64).as_str(),
    );
    if let Some(e) = &lookup.error {
        return b.fail(String::from_str("the kernel could not route to ")
            .concat(target.as_str())
            .concat(": ")
            .concat(e.message.as_str()));
    }
    let route = match &lookup.route {
        Some(route) => route,
        None => {
            return b.fail(String::from_str("the kernel returned no route to ").concat(target.as_str()));
        },
    };
    let (gateway, interface) = show_first_hop(route, "on-link");
    let table = dec_string(route.table as u64);
    b.ev("table", String::from_str(table.as_str())
        .concat(" (")
        .concat(route.table_name.as_str())
        .concat(")").as_str()).ev(
        "out_interface",
        interface.as_str(),
    ).ev("gateway", gateway.as_str()).ev(
        "source",
        show_address(&route.preferred_source, "").as_str(),
    ).info(String::from_str("packets to ")
        .concat(target.as_str())
        .concat(" take table ")
        .concat(table.as_str())
        .concat(" out of ")
        .concat(interface.as_str())
        .concat(" via ")
        .concat(gateway.as_str()))
}

// ---- Addresses --------------------------------------------------------------

/// Whether an address is of the family that a check is about: IPv6, or else
/// IPv4.
pub open spec fn is_of(family: IpFamily) -> spec_fn(LinkAddress) -> bool {
    |a: LinkAddress|
        prefix_ip(a.prefix) is Some && (prefix_ip(a.prefix)->0 is V6) == (family is V6)
}

/// An address with its scope.
pub open spec fn scoped_text(a: LinkAddress) -> Seq<char> {
    let prefix = match a.prefix {
        Some(p) => p.text(),
        None => Seq::empty(),
    };
    prefix + " ("@ + a.scope.name_text() + ")"@
}

pub open spec fn scoped_texts(list: Seq<LinkAddress>) -> Seq<Seq<char>> {
    Seq::new(list.len(), |i: int| scoped_text(list[i]))
}

fn list_addresses(list: &Vec<LinkAddress>, family: IpFamily) -> (r: Vec<String>)
    ensures
        texts(r@) == scoped_texts(list@.filter(is_of(family))),
{
    let ghost p = is_of(family);
    let mut r: Vec<String> = Vec::new();
    let mut i: usize = 0;
    proof {
        lemma_filter_start(list@, p);
    }
    assert(texts(r@) =~= scoped_texts(Seq::empty()));
    while i < list.len()
        invariant
            i <= list.len(),
            p == is_of(family),
            texts(r@) == scoped_texts(list@.take(i as int).filter(p)),
        decreases list.len() - i,
    {
        proof {
            lemma_filter_step(list@, p, i as int);
        }
        let ghost kept = list@.take(i as int).filter(p);
        let a = &list[i];
        if let Some(ip) = link_address_ip(a) {
            if ip.is_ipv6() == (family == IpFamily::V6) {
                let prefix = match &a.prefix {
                    Some(p) => p.display(),
                    None => String::new(),
                };
                let text = String::from_str(prefix.as_str())
                    .concat(" (")
                    .concat(a.scope.name())
                    .concat(")");
                assert(text@ == scoped_text(*a));
                let ghost before = texts(r@);
                r.push(text);
                assert(texts(r@) =~= before.push(scoped_text(*a)));
                assert(scoped_texts(kept.push(*a)) =~= scoped_texts(kept).push(scoped_text(*a)));
            }
        }
        i += 1;
    }
    proof {
        lemma_filter_end(list@, p);
    }
    r
}

/// Whether an address is an IPv6 address whose uniqueness is still being
/// checked.
pub open spec fn is_tentative_v6() -> spec_fn(LinkAddress) -> bool {
    |a: LinkAddress|
        a.flags is Some && (a.flags->0).tentative && prefix_ip(a.prefix) is Some && prefix_ip(
            a.prefix,
        )->0 is V6
}

fn has_tentative_v6(list: &Vec<LinkAddress>) -> (r: bool)
    ensures
        r == any(list@, is_tentative_v6()),
{
    let mut i: usize = 0;
    while i < list.len()
        invariant
            i <= list.len(),
            forall|k: int| 0 <= k < i ==> !is_tentative_v6()(#[trigger] list@[k]),
        decreases list.len() - i,
    {
        let a = &list[i];
        let tentative = match &a.flags {
            Some(f) => f.tentative,
            None => false,
        };
        if tentative {
            if let Some(ip) = link_address_ip(a) {
                if ip.is_ipv6() {
                    assert(is_tentative_v6()(list@[i as int]));
                    return true;
                }
            }
        }
        i += 1;
    }
    false
}

/// The settings of an interface that the checks read: whether IPv6 is disabled
/// and whether router advertisements are accepted.
pub open spec fn v6_settings(s: Option<InterfaceSysctls>) -> (bool, i32) {
    match s {
        Some(s) => (s.ipv6_disabled, s.accept_ra),
        None => (false, 0),
    }
}

/// The interface that a check of addresses is about: the egress of the family,
/// or else any. A v6-only network has no v4 egress, and its interface is still
/// worth a report.
pub open spec fn address_interface(state: DiagState, family: IpFamily) -> Option<Interface> {
    match family {
        IpFamily::V6 => either(state.egress_v6, state.egress_v4),
        _ => either(state.egress_v4, state.egress_v6),
    }
}

/// What the check of a family's addresses says.
pub open spec fn address_said(state: DiagState, family: IpFamily) -> Said {
    let b = untold(
        by_family(family, CheckId::Ipv4Address, CheckId::Ipv6Address),
        family_word(family) + " address assigned"@,
    ).about(family).after(seq!["iface.active"@]);
    match address_interface(state, family) {
        None => b.skip("no egress interface was identified"@),
        Some(i) => {
            let addresses = join(scoped_texts(i.addresses@.filter(is_of(family))), ", "@);
            let b = b.ev("interface"@, i.name@).ev("addresses"@, addresses);
            let (disabled, accept_ra) = v6_settings(i.sysctls);
            let b = if family is V6 {
                b.ev("disable_ipv6"@, truth(disabled)).ev("accept_ra"@, sdec(accept_ra as int))
            } else {
                b
            };
            if any(i.addresses@, is_global(family)) {
                b.pass(i.name@ +
                    " has a global "@ +
                    family_word(family) +
                    " address: "@ +
                    addresses)
            } else if family is V6 && any(i.addresses@, is_tentative_v6()) {
                b.warn(i.name@ +
                    " has only tentative IPv6 addresses; duplicate address detection has not finished"@)
            } else if family is V6 && disabled {
                b.fail("IPv6 is disabled on "@ + i.name@ + " by the disable_ipv6 sysctl"@)
            } else {
                b.fail(i.name@ + " has no global "@ + family_word(family) + " address"@)
            }
        },
    }
}

pub fn check_address(state: &DiagState, family: IpFamily) -> (r: Check)
    ensures
        said(r) == address_said(*state, family),
        r.id == by_family(family, CheckId::Ipv4Address, CheckId::Ipv6Address),
        r.evidence.wf(),
{
    let label = family_label(family);
    let title = String::from_str(label).concat(" address assigned");
    let b = CheckBuilder::new(
        id_for(family, CheckId::Ipv4Address, CheckId::Ipv6Address),
        title.as_str(),
    ).family(family).depends_on(one("iface.active"));
    let (first, second) = match family {
        IpFamily::V6 => (&state.egress_v6, &state.egress_v4),
        _ => (&state.egress_v4, &state.egress_v6),
    };
    let i = match (first, second) {
        (Some(i), _) => i,
        (None, Some(i)) => i,
        (None, None) => {
            return b.skip(String::from_str("no egress interface was identified"));
        },
    };
    let addresses = join_texts(&list_addresses(&i.addresses, family), ", ");
    let b = b.ev("interface", i.name.as_str()).ev("addresses", addresses.as_str());
    let (disabled, accept_ra) = match &i.sysctls {
        Some(s) => (s.ipv6_disabled, s.accept_ra),
        None => (false, 0i32),
    };
    let b = if family == IpFamily::V6 {
        b.ev("disable_ipv6", truth_str(disabled)).ev(
            "accept_ra",
            sdec_string(accept_ra as i64).as_str(),
        )
    } else {
        b
    };
    if has_global_address(i, family) {
        return b.pass(String::from_str(i.name.as_str())
            .concat(" has a global ")
            .concat(label)
            .concat(" address: ")
            .concat(addresses.as_str()));
    }
    if family == IpFamily::V6 && has_tentative_v6(&i.addresses) {
        return b.warn(String::from_str(i.name.as_str())
            .concat(" has only tentative IPv6 addresses; duplicate address detection has not finished"));
    }
    if family == IpFamily::V6 && disabled {
        return b.fail(String::from_str("IPv6 is disabled on ")
            .concat(i.name.as_str())
            .concat(" by the disable_ipv6 sysctl"));
    }
    b.fail(String::from_str(i.name.as_str())
        .concat(" has no global ")
        .concat(label)
        .concat(" address"))
}

// ---- Default routes -----------------------------------------------------------

/// Whether a route is a default route of a family.
pub open spec fn is_default_of(family: IpFamily) -> spec_fn(Route) -> bool {
    |r: Route| r.is_default && r.family == family
}

/// Whether a route is a default route of a family in a table.
pub open spec fn is_default_in(family: IpFamily, table: Option<u32>) -> spec_fn(Route) -> bool {
    |r: Route| r.is_default && r.family == family && Some(r.table) == table
}

/// The table that the kernel chose.
pub open spec fn chosen_table(lookup: RouteLookup) -> Option<u32> {
    match lookup.route {
        Some(r) => Some(r.table),
        None => None,
    }
}

fn table_of(lookup: &RouteLookup) -> (r: Option<u32>)
    ensures
        r == chosen_table(*lookup),
{
    match &lookup.route {
        Some(r) => Some(r.table),
        None => None,
    }
}

/// How a default route is described.
pub open spec fn default_text(r: Route) -> Seq<char> {
    let (gateway, interface) = first_hop(r, "on-link"@);
    "table "@ +
        dec(r.table as nat) +
        " via "@ +
        gateway +
        " dev "@ +
        interface +
        " metric "@ +
        dec(r.priority as nat)
}

fn describe_default(r: &Route) -> (t: String)
    ensures
        t@ == default_text(*r),
{
    let (gateway, interface) = show_first_hop(r, "on-link");
    let table = dec_string(r.table as u64);
    let priority = dec_string(r.priority as u64);
    String::from_str("table ")
        .concat(table.as_str())
        .concat(" via ")
        .concat(gateway.as_str())
        .concat(" dev ")
        .concat(interface.as_str())
        .concat(" metric ")
        .concat(priority.as_str())
}

pub open spec fn default_texts(list: Seq<Route>) -> Seq<Seq<char>> {
    Seq::new(list.len(), |i: int| default_text(list[i]))
}

pub open spec fn tables_of(list: Seq<Route>) -> Seq<u32> {
    Seq::new(list.len(), |i: int| list[i].table)
}

/// Numbers as they are written.
pub open spec fn decs(list: Seq<u32>) -> Seq<Seq<char>> {
    Seq::new(list.len(), |i: int| dec(list[i] as nat))
}

fn write_numbers(list: &Vec<u32>) -> (r: Vec<String>)
    ensures
        texts(r@) == decs(list@),
{
    let mut r: Vec<String> = Vec::new();
    let mut i: usize = 0;
    while i < list.len()
        invariant
            i <= list.len(),
            r.len() == i,
            forall|k: int| 0 <= k < i ==> #[trigger] r@[k]@ == dec(list@[k] as nat),
        decreases list.len() - i,
    {
        r.push(dec_string(list[i] as u64));
        i += 1;
    }
    assert(texts(r@) =~= decs(list@));
    r
}

/// The default routes of a family: their descriptions and their tables.
fn list_defaults(routes: &Vec<Route>, family: IpFamily) -> (r: (Vec<String>, Vec<u32>))
    ensures
        texts(r.0@) == default_texts(routes@.filter(is_default_of(family))),
        r.1@ == tables_of(routes@.filter(is_default_of(family))),
{
    let ghost p = is_default_of(family);
    let mut words: Vec<String> = Vec::new();
    let mut tables: Vec<u32> = Vec::new();
    let mut i: usize = 0;
    proof {
        lemma_filter_start(routes@, p);
    }
    assert(texts(words@) =~= default_texts(Seq::empty()));
    assert(tables@ =~= tables_of(Seq::empty()));
    while i < routes.len()
        invariant
            i <= routes.len(),
            p == is_default_of(family),
            texts(words@) == default_texts(routes@.take(i as int).filter(p)),
            tables@ == tables_of(routes@.take(i as int).filter(p)),
        decreases routes.len() - i,
    {
        proof {
            lemma_filter_step(routes@, p, i as int);
        }
        let ghost kept = routes@.take(i as int).filter(p);
        let r = &routes[i];
        if r.is_default && r.family == family {
            let ghost before = texts(words@);
            words.push(describe_default(r));
            tables.push(r.table);
            assert(texts(words@) =~= before.push(default_text(*r)));
            assert(default_texts(kept.push(*r)) =~= default_texts(kept).push(default_text(*r)));
            assert(tables@ =~= tables_of(kept.push(*r)));
        }
        i += 1;
    }
    proof {
        lemma_filter_end(routes@, p);
    }
    (words, tables)
}

/// The default routes of a family in a table: how many, and the description of
/// the first.
fn defaults_in(routes: &Vec<Route>, family: IpFamily, table: Option<u32>) -> (r: (usize, String))
    ensures
        r.0 == routes@.filter(is_default_in(family, table)).len(),
        r.0 > 0 ==> r.1@ == default_text(routes@.filter(is_default_in(family, table))[0]),
{
    let ghost p = is_default_in(family, table);
    let mut n: usize = 0;
    let mut first = String::new();
    let mut i: usize = 0;
    proof {
        lemma_filter_start(routes@, p);
    }
    while i < routes.len()
        invariant
            i <= routes.len(),
            p == is_default_in(family, table),
            n <= i,
            n == routes@.take(i as int).filter(p).len(),
            n > 0 ==> first@ == default_text(routes@.take(i as int).filter(p)[0]),
        decreases routes.len() - i,
    {
        proof {
            lemma_filter_step(routes@, p, i as int);
        }
        let r = &routes[i];
        let here = match table {
            Some(t) => r.table == t,
            None => false,
        };
        if r.is_default && r.family == family && here {
            if n == 0 {
                first = describe_default(r);
            }
            n += 1;
        }
        i += 1;
    }
    proof {
        lemma_filter_end(routes@, p);
    }
    (n, first)
}

/// What the check of a family's default route says. The table that the kernel
/// actually chose is the only one whose default route matters; a default route
/// in `main` is irrelevant if the uid rules send this traffic elsewhere.
pub open spec fn default_route_said(state: DiagState, family: IpFamily) -> Said {
    let table = chosen_table(lookup_of(state, family));
    let defaults = state.routes@.filter(is_default_of(family));
    let in_table = state.routes@.filter(is_default_in(family, table));
    let word = family_word(family);
    let total = dec(defaults.len());
    let b = untold(
        by_family(family, CheckId::Ipv4DefaultRoute, CheckId::Ipv6DefaultRoute),
        word + " default route"@,
    ).about(family).ev(
        "selected_table"@,
        match table {
            Some(t) => dec(t as nat),
            None => "none"@,
        },
    ).ev("default_routes_total"@, total).ev(
        "all_default_routes"@,
        join(default_texts(defaults), " | "@),
    );
    if in_table.len() == 0 {
        if defaults.len() == 0 {
            b.fail("there is no "@ + word + " default route in any table"@)
        } else {
            match table {
                // The lookup itself failed: there is no table to name, but the
                // routes exist.
                None => b.fail(total +
                    " default route(s) exist (in table(s) "@ +
                    join(decs(distinct_ascending(tables_of(defaults))), ", "@) +
                    ") but the kernel's policy lookup reaches none of them, so this traffic has no "@ +
                    word +
                    " path at all"@),
                Some(t) => b.fail("there are "@ +
                    total +
                    " default route(s) for "@ +
                    word +
                    " but none in table "@ +
                    dec(t as nat) +
                    ", which is the table this traffic uses"@),
            }
        }
    } else if in_table.len() > 1 {
        b.warn("table "@ +
            dec(or(table, 0) as nat) +
            " has "@ +
            dec(in_table.len()) +
            " competing "@ +
            word +
            " default routes"@)
    } else {
        b.pass(word + " default route present: "@ + default_text(in_table[0]))
    }
}

pub fn check_default_route(state: &DiagState, family: IpFamily) -> (r: Check)
    ensures
        said(r) == default_route_said(*state, family),
        r.id == by_family(family, CheckId::Ipv4DefaultRoute, CheckId::Ipv6DefaultRoute),
        r.evidence.wf(),
{
    let table = table_of(lookup_for(state, family));
    let label = family_label(family);
    let (words, tables) = list_defaults(&state.routes, family);
    let (in_table, first) = defaults_in(&state.routes, family, table);
    let ghost defaults = state.routes@.filter(is_default_of(family));
    assert(texts(words@).len() == words.len());
    let total = dec_string(words.len() as u64);
    let table_text = match table {
        Some(t) => dec_string(t as u64),
        None => String::from_str("none"),
    };
    let title = String::from_str(label).concat(" default route");
    let b = CheckBuilder::new(
        id_for(family, CheckId::Ipv4DefaultRoute, CheckId::Ipv6DefaultRoute),
        title.as_str(),
    ).family(family).ev("selected_table", table_text.as_str()).ev(
        "default_routes_total",
        total.as_str(),
    ).ev("all_default_routes", join_texts(&words, " | ").as_str());
    if in_table == 0 {
        if words.len() == 0 {
            return b.fail(String::from_str("there is no ")
                .concat(label)
                .concat(" default route in any table"));
        }
        return match table {
            None => {
                let ids = join_texts(&write_numbers(&sort_dedup(&tables)), ", ");
                b.fail(String::from_str(total.as_str())
                    .concat(" default route(s) exist (in table(s) ")
                    .concat(ids.as_str())
                    .concat(") but the kernel's policy lookup reaches none of them, so this traffic has no ")
                    .concat(label)
                    .concat(" path at all"))
            },
            Some(_) => b.fail(String::from_str("there are ")
                .concat(total.as_str())
                .concat(" default route(s) for ")
                .concat(label)
                .concat(" but none in table ")
                .concat(table_text.as_str())
                .concat(", which is the table this traffic uses")),
        };
    }
    if in_table > 1 {
        let id = dec_string(table.unwrap_or(0) as u64);
        let n = dec_string(in_table as u64);
        return b.warn(String::from_str("table ")
            .concat(id.as_str())
            .concat(" has ")
            .concat(n.as_str())
            .concat(" competing ")
            .concat(label)
            .concat(" default routes"));
    }
    b.pass(String::from_str(label).concat(" default route present: ").concat(first.as_str()))
}

// ---- Rules ------------------------------------------------------------------

pub open spec fn has_uids() -> spec_fn(RoutingRule) -> bool {
    |r: RoutingRule| r.has_uid_range
}

pub open spec fn has_mark() -> spec_fn(RoutingRule) -> bool {
    |r: RoutingRule| r.has_fwmark
}

pub open spec fn rule_tables(list: Seq<RoutingRule>) -> Seq<u32> {
    Seq::new(list.len(), |i: int| list[i].table)
}

/// What the check of the policy routing rules says.
pub open spec fn rule_coverage_said(state: DiagState) -> Said {
    let total = state.rules@.len();
    let uids = state.rules@.filter(has_uids()).len();
    let marks = state.rules@.filter(has_mark()).len();
    let b = untold(CheckId::RoutingRuleCoverage, "Policy routing rule coverage"@).ev(
        "total_rules"@,
        dec(total),
    ).ev("uid_range_rules"@, dec(uids)).ev("fwmark_rules"@, dec(marks)).ev(
        "tables_referenced"@,
        join(decs(distinct_ascending(rule_tables(state.rules@))), ", "@),
    );
    if total == 0 {
        b.fail(
            "the kernel reports no policy routing rules at all, which is impossible on a healthy Android device"@,
        )
    } else if marks == 0 {
        b.warn(
            "no fwmark-based rules are installed; Android normally uses them to bind sockets to networks"@,
        )
    } else {
        b.pass(dec(total) +
            " rules installed, "@ +
            dec(marks) +
            " of them selecting on fwmark and "@ +
            dec(uids) +
            " on uid ranges"@)
    }
}

pub fn check_rule_coverage(state: &DiagState) -> (r: Check)
    ensures
        said(r) == rule_coverage_said(*state),
        r.id == CheckId::RoutingRuleCoverage,
        r.evidence.wf(),
{
    let ghost rules = state.rules@;
    let mut uids: usize = 0;
    let mut marks: usize = 0;
    let mut tables: Vec<u32> = Vec::new();
    let mut i: usize = 0;
    proof {
        lemma_filter_start(rules, has_uids());
        lemma_filter_start(rules, has_mark());
    }
    assert(tables@ =~= rule_tables(rules.take(0)));
    while i < state.rules.len()
        invariant
            i <= state.rules.len(),
            rules == state.rules@,
            uids <= i,
            marks <= i,
            uids == rules.take(i as int).filter(has_uids()).len(),
            marks == rules.take(i as int).filter(has_mark()).len(),
            tables@ == rule_tables(rules.take(i as int)),
        decreases state.rules.len() - i,
    {
        proof {
            lemma_filter_step(rules, has_uids(), i as int);
            lemma_filter_step(rules, has_mark(), i as int);
        }
        let r = &state.rules[i];
        if r.has_uid_range {
            uids += 1;
        }
        if r.has_fwmark {
            marks += 1;
        }
        tables.push(r.table);
        i += 1;
        assert(tables@ =~= rule_tables(rules.take(i as int)));
    }
    proof {
        lemma_filter_end(rules, has_uids());
        lemma_filter_end(rules, has_mark());
    }
    assert(rules.take(rules.len() as int) =~= rules);
    let total_text = dec_string(state.rules.len() as u64);
    let uids_text = dec_string(uids as u64);
    let marks_text = dec_string(marks as u64);
    let referenced = join_texts(&write_numbers(&sort_dedup(&tables)), ", ");
    let b = CheckBuilder::new(CheckId::RoutingRuleCoverage, "Policy routing rule coverage").ev(
        "total_rules",
        total_text.as_str(),
    ).ev("uid_range_rules", uids_text.as_str()).ev("fwmark_rules", marks_text.as_str()).ev(
        "tables_referenced",
        referenced.as_str(),
    );
    if state.rules.len() == 0 {
        return b.fail(
            String::from_str(
                "the kernel reports no policy routing rules at all, which is impossible on a healthy Android device",
            ),
        );
    }
    if marks == 0 {
        return b.warn(
            String::from_str(
                "no fwmark-based rules are installed; Android normally uses them to bind sockets to networks",
            ),
        );
    }
    b.pass(String::from_str(total_text.as_str())
        .concat(" rules installed, ")
        .concat(marks_text.as_str())
        .concat(" of them selecting on fwmark and ")
        .concat(uids_text.as_str())
        .concat(" on uid ranges"))
}

// ---- VPN --------------------------------------------------------------------

/// Whether an interface is a VPN tunnel that is up.
pub open spec fn is_vpn_up() -> spec_fn(Interface) -> bool {
    |i: Interface| i.kind == LinkKind::VpnTun && is_up(i)
}

pub open spec fn names_text(list: Seq<Interface>) -> Seq<Seq<char>> {
    Seq::new(list.len(), |i: int| list[i].name@)
}

/// Whether the framework reports a VPN for a network.
pub open spec fn framework_vpn(network: Option<AndroidNetwork>) -> bool {
    match network {
        Some(n) => n.transports@.contains(Transport::Vpn),
        None => false,
    }
}

pub(crate) fn reports_vpn(network: &Option<AndroidNetwork>) -> (r: bool)
    ensures
        r == framework_vpn(*network),
{
    match network {
        None => false,
        Some(n) => {
            let mut i: usize = 0;
            while i < n.transports.len()
                invariant
                    i <= n.transports.len(),
                    framework_vpn(*network) == n.transports@.contains(Transport::Vpn),
                    forall|k: int| 0 <= k < i ==> n.transports@[k] != Transport::Vpn,
                decreases n.transports.len() - i,
            {
                if n.transports[i] == Transport::Vpn {
                    assert(n.transports@[i as int] == Transport::Vpn);
                    return true;
                }
                i += 1;
            }
            false
        },
    }
}

/// Whether a route is a default route of a family through an interface. A
/// link-local or on-link prefix route on the tunnel is not a path; only a
/// default route through it means that the family actually goes into the
/// tunnel.
pub open spec fn is_default_through(family: IpFamily, index: u32) -> spec_fn(Route) -> bool {
    |r: Route| r.is_default && r.family == family && any(r.next_hops@, leaves_by(index))
}

fn default_through(routes: &Vec<Route>, family: IpFamily, index: u32) -> (r: bool)
    ensures
        r == any(routes@, is_default_through(family, index)),
{
    let mut i: usize = 0;
    while i < routes.len()
        invariant
            i <= routes.len(),
            forall|k: int|
                0 <= k < i ==> !is_default_through(family, index)(#[trigger] routes@[k]),
        decreases routes.len() - i,
    {
        if routes[i].is_default && routes[i].family == family && route_leaves_by(
            &routes[i],
            index,
        ) {
            assert(is_default_through(family, index)(routes@[i as int]));
            return true;
        }
        i += 1;
    }
    false
}

/// Whether a hop leads to loopback.
pub open spec fn to_loopback() -> spec_fn(NextHop) -> bool {
    |h: NextHop| h.out_interface_name@ == "lo"@ || h.out_interface_index == 1
}

/// Whether a route drops packets.
pub open spec fn drops(kind: RouteType) -> bool {
    kind is Unreachable || kind is Blackhole || kind is Prohibit
}

/// Whether a route is the IPv6 default route of a table that leads nowhere.
/// Android blackholes IPv6 for a v4-only VPN by pointing the tunnel table's
/// IPv6 default route at loopback.
pub open spec fn is_v6_blackhole(table: Option<u32>) -> spec_fn(Route) -> bool {
    |r: Route|
        r.is_default && r.family == IpFamily::V6 && Some(r.table) == table && (any(
            r.next_hops@,
            to_loopback(),
        ) || drops(r.kind))
}

fn hops_to_loopback(r: &Route) -> (b: bool)
    ensures
        b == any(r.next_hops@, to_loopback()),
{
    let mut i: usize = 0;
    while i < r.next_hops.len()
        invariant
            i <= r.next_hops.len(),
            forall|k: int| 0 <= k < i ==> !to_loopback()(#[trigger] r.next_hops@[k]),
        decreases r.next_hops.len() - i,
    {
        let h = &r.next_hops[i];
        if same(h.out_interface_name.as_str(), "lo") || h.out_interface_index == 1 {
            assert(to_loopback()(r.next_hops@[i as int]));
            return true;
        }
        i += 1;
    }
    false
}

fn v6_blackholed(routes: &Vec<Route>, table: Option<u32>) -> (r: bool)
    ensures
        r == any(routes@, is_v6_blackhole(table)),
{
    let mut i: usize = 0;
    while i < routes.len()
        invariant
            i <= routes.len(),
            forall|k: int| 0 <= k < i ==> !is_v6_blackhole(table)(#[trigger] routes@[k]),
        decreases routes.len() - i,
    {
        let r = &routes[i];
        let here = match table {
            Some(t) => r.table == t,
            None => false,
        };
        let dropped = r.kind == RouteType::Unreachable || r.kind == RouteType::Blackhole || r.kind
            == RouteType::Prohibit;
        if r.is_default && r.family == IpFamily::V6 && here && (dropped || hops_to_loopback(r)) {
            assert(is_v6_blackhole(table)(routes@[i as int]));
            return true;
        }
        i += 1;
    }
    false
}

/// Whether an interface is there and has an index.
pub open spec fn is_at(i: Option<Interface>, index: u32) -> bool {
    i is Some && (i->0).index == index
}

fn interface_at(i: &Option<Interface>, index: u32) -> (r: bool)
    ensures
        r == is_at(*i, index),
{
    match i {
        Some(i) => i.index == index,
        None => false,
    }
}

/// What the check of the VPN says.
pub open spec fn vpn_said(state: DiagState) -> Said {
    let tunnels = state.interfaces@.filter(is_vpn_up());
    let framework = framework_vpn(state.network);
    let b = untold(CheckId::VpnRouting, "VPN routing"@).ev(
        "vpn_interfaces"@,
        join(names_text(tunnels), ", "@),
    ).ev("framework_reports_vpn"@, truth(framework));
    if tunnels.len() == 0 {
        if framework {
            b.fail(
                "the framework reports a VPN transport but no tun interface is up in the kernel"@,
            )
        } else {
            b.skip("no VPN is active"@)
        }
    } else {
        let vpn = tunnels[0];
        let through = is_at(state.egress_v4, vpn.index) || is_at(state.egress_v6, vpn.index);
        let v6 = any(state.routes@, is_default_through(IpFamily::V6, vpn.index));
        let v4 = any(state.routes@, is_default_through(IpFamily::V4, vpn.index));
        let table = chosen_table(state.lookup_v4);
        let blackholed = any(state.routes@, is_v6_blackhole(table));
        let b = b.ev("egress_is_vpn"@, truth(through)).ev("vpn_has_ipv6_routes"@, truth(v6)).ev(
            "vpn_default_route_v4"@,
            truth(v4),
        ).ev("ipv6_blackholed_in_vpn_table"@, truth(blackholed)).ev(
            "vpn_table"@,
            match table {
                Some(t) => dec(t as nat),
                None => "?"@,
            },
        );
        if !through {
            b.warn(vpn.name@ +
                " is up but this traffic does not go through it; it is being routed around the VPN"@)
        } else if v6 {
            b.pass("traffic is routed through "@ + vpn.name@ + ", for both IPv4 and IPv6"@)
        } else if blackholed {
            b.info(vpn.name@ +
                " carries IPv4 only, and IPv6 is deliberately blackholed inside the VPN's routing table; applications fall back to IPv4 cleanly and nothing leaks"@)
        } else {
            b.warn(vpn.name@ +
                " carries IPv4 but has no IPv6 default route and IPv6 is not blackholed; IPv6 traffic may leave outside the tunnel"@)
        }
    }
}

/// The names of the tunnels that are up, and the place of the first.
fn list_tunnels(interfaces: &Vec<Interface>) -> (r: (Vec<String>, usize))
    ensures
        texts(r.0@) == names_text(interfaces@.filter(is_vpn_up())),
        r.0.len() > 0 ==> r.1 < interfaces.len() && interfaces@[r.1 as int] == interfaces@.filter(
            is_vpn_up(),
        )[0],
{
    let ghost p = is_vpn_up();
    let mut names: Vec<String> = Vec::new();
    let mut first: usize = 0;
    let mut i: usize = 0;
    proof {
        lemma_filter_start(interfaces@, p);
    }
    assert(texts(names@) =~= names_text(Seq::empty()));
    while i < interfaces.len()
        invariant
            i <= interfaces.len(),
            p == is_vpn_up(),
            texts(names@) == names_text(interfaces@.take(i as int).filter(p)),
            names.len() == interfaces@.take(i as int).filter(p).len(),
            names.len() > 0 ==> first < interfaces.len() && interfaces@[first as int]
                == interfaces@.take(i as int).filter(p)[0],
        decreases interfaces.len() - i,
    {
        proof {
            lemma_filter_step(interfaces@, p, i as int);
        }
        let ghost kept = interfaces@.take(i as int).filter(p);
        let iface = &interfaces[i];
        if iface.kind == LinkKind::VpnTun && up(iface) {
            if names.len() == 0 {
                first = i;
            }
            let ghost before = texts(names@);
            names.push(iface.name.clone());
            assert(texts(names@) =~= before.push(iface.name@));
            assert(names_text(kept.push(*iface)) =~= names_text(kept).push(iface.name@));
        }
        i += 1;
    }
    proof {
        lemma_filter_end(interfaces@, p);
    }
    (names, first)
}

pub fn check_vpn(state: &DiagState) -> (r: Check)
    ensures
        said(r) == vpn_said(*state),
        r.id == CheckId::VpnRouting,
        r.evidence.wf(),
{
    let (names, first) = list_tunnels(&state.interfaces);
    assert(texts(names@).len() == names.len());
    let framework = reports_vpn(&state.network);
    let b = CheckBuilder::new(CheckId::VpnRouting, "VPN routing").ev(
        "vpn_interfaces",
        join_texts(&names, ", ").as_str(),
    ).ev("framework_reports_vpn", truth_str(framework));
    if names.len() == 0 {
        return if framework {
            b.fail(
                String::from_str(
                    "the framework reports a VPN transport but no tun interface is up in the kernel",
                ),
            )
        } else {
            b.skip(String::from_str("no VPN is active"))
        };
    }
    let vpn = &state.interfaces[first];
    let through = interface_at(&state.egress_v4, vpn.index) || interface_at(
        &state.egress_v6,
        vpn.index,
    );
    let v6 = default_through(&state.routes, IpFamily::V6, vpn.index);
    let v4 = default_through(&state.routes, IpFamily::V4, vpn.index);
    let table = table_of(&state.lookup_v4);
    let blackholed = v6_blackholed(&state.routes, table);
    let table_text = match table {
        Some(t) => dec_string(t as u64),
        None => String::from_str("?"),
    };
    let b = b.ev("egress_is_vpn", truth_str(through)).ev(
        "vpn_has_ipv6_routes",
        truth_str(v6),
    ).ev("vpn_default_route_v4", truth_str(v4)).ev(
        "ipv6_blackholed_in_vpn_table",
        truth_str(blackholed),
    ).ev("vpn_table", table_text.as_str());
    let name = vpn.name.as_str();
    if !through {
        return b.warn(String::from_str(name)
            .concat(" is up but this traffic does not go through it; it is being routed around the VPN"));
    }
    if !v6 {
        if blackholed {
            return b.info(String::from_str(name)
                .concat(" carries IPv4 only, and IPv6 is deliberately blackholed inside the VPN's routing table; applications fall back to IPv4 cleanly and nothing leaks"));
        }
        return b.warn(String::from_str(name)
            .concat(" carries IPv4 but has no IPv6 default route and IPv6 is not blackholed; IPv6 traffic may leave outside the tunnel"));
    }
    b.pass(String::from_str("traffic is routed through ")
        .concat(name)
        .concat(", for both IPv4 and IPv6"))
}

// ---- The firewall -----------------------------------------------------------

/// What was read of the firewall: the state of one uid, or (where a diagnosis
/// names none) the surface that exists.
pub enum FirewallReading {
    Uid(UidFirewallState),
    Surface(FirewallState),
}

/// The uid whose firewall state a diagnosis asks about.
pub fn firewall_uid(request: &DiagnoseRequest) -> (r: Option<u32>)
    ensures
        r == match request.target {
            Some(t) if t.has_as_uid => Some(t.as_uid),
            _ => None,
        },
{
    match &request.target {
        Some(t) => if t.has_as_uid {
            Some(t.as_uid)
        } else {
            None
        },
        None => None,
    }
}

/// The number of a backend.
pub open spec fn backend_number(b: FirewallBackend) -> nat {
    match b {
        FirewallBackend::Unspecified => 0,
        FirewallBackend::Ebpf => 1,
        FirewallBackend::Iptables => 2,
        FirewallBackend::Nftables => 3,
    }
}

pub open spec fn backend_numbers(list: Seq<FirewallBackend>) -> Seq<Seq<char>> {
    Seq::new(list.len(), |i: int| dec(backend_number(list[i])))
}

fn list_backends(list: &Vec<FirewallBackend>) -> (r: String)
    ensures
        r@ == "["@ + join(backend_numbers(list@), ", "@) + "]"@,
{
    let mut v: Vec<String> = Vec::new();
    let mut i: usize = 0;
    while i < list.len()
        invariant
            i <= list.len(),
            v.len() == i,
            forall|k: int| 0 <= k < i ==> #[trigger] v@[k]@ == dec(backend_number(list@[k])),
        decreases list.len() - i,
    {
        let n: u64 = match list[i] {
            FirewallBackend::Unspecified => 0,
            FirewallBackend::Ebpf => 1,
            FirewallBackend::Iptables => 2,
            FirewallBackend::Nftables => 3,
        };
        v.push(dec_string(n));
        i += 1;
    }
    assert(texts(v@) =~= backend_numbers(list@));
    let inner = join_texts(&v, ", ");
    String::from_str("[").concat(inner.as_str()).concat("]")
}

/// What the check of the firewall says.
pub open spec fn firewall_said(reading: FirewallReading) -> Said {
    let b = untold(CheckId::FirewallAnomaly, "Firewall interaction"@);
    match reading {
        FirewallReading::Surface(fw) => b.ev(
            "backends"@,
            "["@ + join(backend_numbers(fw.backends_detected@), ", "@) + "]"@,
        ).ev("bpf_objects"@, dec(fw.bpf_pinned_objects@.len())).ev(
            "note"@,
            fw.collection_note@,
        ).info(fw.collection_note@),
        FirewallReading::Uid(s) => {
            let uid = dec(s.uid as nat);
            let matches = join(rule_texts(s.raw_match), ", "@);
            let b = b.ev("uid"@, uid).ev("raw_match"@, "0x"@ + hex(s.raw_match as nat)).ev(
                "matches"@,
                matches,
            ).ev("source_available"@, truth(s.source_available));
            if !s.source_available {
                b.skip(
                    "netd's eBPF uid_owner_map could not be read, so per-app firewall state is not determinable"@,
                )
            } else if denied(s) {
                b.fail("uid "@ + uid + " is denied by a firewall rule: "@ + matches)
            } else if s.raw_match == 0 {
                b.pass("no per-uid firewall rules apply to uid "@ + uid)
            } else {
                b.info("uid "@ + uid + " has firewall bits set: "@ + matches)
            }
        },
    }
}

/// The check of the firewall, with a stopwatch that ran while it was read.
pub fn check_firewall(clock: Stopwatch, reading: &FirewallReading) -> (r: Check)
    ensures
        said(r) == firewall_said(*reading),
        r.id == CheckId::FirewallAnomaly,
        r.evidence.wf(),
{
    let b = CheckBuilder::timed(clock, CheckId::FirewallAnomaly, "Firewall interaction");
    match reading {
        FirewallReading::Surface(fw) => b.ev(
            "backends",
            list_backends(&fw.backends_detected).as_str(),
        ).ev("bpf_objects", dec_string(fw.bpf_pinned_objects.len() as u64).as_str()).ev(
            "note",
            fw.collection_note.as_str(),
        ).info(fw.collection_note.clone()),
        FirewallReading::Uid(s) => {
            let uid = dec_string(s.uid as u64);
            let matches = join_texts(&decode_match_bits(s.raw_match), ", ");
            let raw = hex_string(s.raw_match as u64);
            let b = b.ev("uid", uid.as_str()).ev("raw_match", String::from_str("0x").concat(raw.as_str()).as_str()).ev(
                "matches",
                matches.as_str(),
            ).ev("source_available", truth_str(s.source_available));
            if !s.source_available {
                return b.skip(
                    String::from_str(
                        "netd's eBPF uid_owner_map could not be read, so per-app firewall state is not determinable",
                    ),
                );
            }
            if is_unambiguously_denied(s) {
                return b.fail(String::from_str("uid ")
                    .concat(uid.as_str())
                    .concat(" is denied by a firewall rule: ")
                    .concat(matches.as_str()));
            }
            if s.raw_match == 0 {
                return b.pass(String::from_str("no per-uid firewall rules apply to uid ")
                    .concat(uid.as_str()));
            }
            b.info(String::from_str("uid ")
                .concat(uid.as_str())
                .concat(" has firewall bits set: ")
                .concat(matches.as_str()))
        },
    }
}

// ---- Sockets ----------------------------------------------------------------

/// Whether a socket waits for an answer over IPv6.
pub open spec fn is_syn_sent_v6() -> spec_fn(Socket) -> bool {
    |s: Socket| s.state == TcpState::SynSent && s.family == IpFamily::V6
}

/// Whether more than a quarter of the established connections are
/// retransmitting.
pub open spec fn many_retransmit(m: SocketSummary) -> bool {
    m.retransmitting > 0 && m.established > 0 && 4 * m.retransmitting > m.established
}

/// What the check of the socket table says. Which family the stuck connections
/// are on is what turns a generic "connections are not completing" into
/// evidence for a specific finding.
pub open spec fn socket_states_said(state: DiagState) -> Said {
    let m = state.socket_summary;
    let v6 = count(state.sockets@, is_syn_sent_v6());
    let v4 = if v6 <= m.syn_sent {
        (m.syn_sent - v6) as nat
    } else {
        0
    };
    let b = untold(CheckId::SuspiciousTcpStates, "TCP socket states"@).ev(
        "syn_sent_v4"@,
        dec(v4),
    ).ev("syn_sent_v6"@, dec(v6)).ev("total"@, dec(m.total as nat)).ev(
        "established"@,
        dec(m.established as nat),
    ).ev("syn_sent"@, dec(m.syn_sent as nat)).ev("close_wait"@, dec(m.close_wait as nat)).ev(
        "fin_wait"@,
        dec(m.fin_wait as nat),
    ).ev("time_wait"@, dec(m.time_wait as nat)).ev(
        "retransmitting"@,
        dec(m.retransmitting as nat),
    );
    if m.total == 0 {
        b.skip("no sockets were readable"@)
    } else if m.syn_sent >= SYN_SENT_THRESHOLD {
        b.fail(dec(m.syn_sent as nat) +
            " sockets are stuck in SYN_SENT: SYNs are leaving and nothing is answering"@)
    } else if m.close_wait >= CLOSE_WAIT_THRESHOLD {
        b.warn(dec(m.close_wait as nat) +
            " sockets are in CLOSE_WAIT, which usually means an app is not closing connections the peer already finished with"@)
    } else if many_retransmit(m) {
        b.warn(dec(m.retransmitting as nat) +
            " of "@ +
            dec(m.established as nat) +
            " established connections are retransmitting"@)
    } else {
        b.pass(dec(m.total as nat) +
            " sockets, "@ +
            dec(m.established as nat) +
            " established, nothing stuck"@)
    }
}

fn count_syn_sent_v6(sockets: &Vec<Socket>) -> (r: usize)
    ensures
        r == count(sockets@, is_syn_sent_v6()),
{
    let ghost all = sockets@;
    let mut n: usize = 0;
    let mut i: usize = 0;
    assert(all.take(0) =~= Seq::empty());
    while i < sockets.len()
        invariant
            i <= sockets.len(),
            all == sockets@,
            n <= i,
            n == count(all.take(i as int), is_syn_sent_v6()),
        decreases sockets.len() - i,
    {
        assert(all.take(i + 1).drop_last() =~= all.take(i as int));
        if sockets[i].state == TcpState::SynSent && sockets[i].family == IpFamily::V6 {
            n += 1;
        }
        i += 1;
    }
    assert(all.take(all.len() as int) =~= all);
    n
}

pub fn check_socket_states(state: &DiagState) -> (r: Check)
    ensures
        said(r) == socket_states_said(*state),
        r.id == CheckId::SuspiciousTcpStates,
        r.evidence.wf(),
{
    let m = &state.socket_summary;
    let v6 = count_syn_sent_v6(&state.sockets);
    let v4: u64 = if v6 as u64 <= m.syn_sent as u64 {
        m.syn_sent as u64 - v6 as u64
    } else {
        0
    };
    let total = dec_string(m.total as u64);
    let established = dec_string(m.established as u64);
    let syn_sent = dec_string(m.syn_sent as u64);
    let close_wait = dec_string(m.close_wait as u64);
    let retransmitting = dec_string(m.retransmitting as u64);
    let b = CheckBuilder::new(CheckId::SuspiciousTcpStates, "TCP socket states").ev(
        "syn_sent_v4",
        dec_string(v4).as_str(),
    ).ev("syn_sent_v6", dec_string(v6 as u64).as_str()).ev("total", total.as_str()).ev(
        "established",
        established.as_str(),
    ).ev("syn_sent", syn_sent.as_str()).ev("close_wait", close_wait.as_str()).ev(
        "fin_wait",
        dec_string(m.fin_wait as u64).as_str(),
    ).ev("time_wait", dec_string(m.time_wait as u64).as_str()).ev(
        "retransmitting",
        retransmitting.as_str(),
    );
    if m.total == 0 {
        return b.skip(String::from_str("no sockets were readable"));
    }
    if m.syn_sent >= SYN_SENT_THRESHOLD {
        return b.fail(String::from_str(syn_sent.as_str())
            .concat(" sockets are stuck in SYN_SENT: SYNs are leaving and nothing is answering"));
    }
    if m.close_wait >= CLOSE_WAIT_THRESHOLD {
        return b.warn(String::from_str(close_wait.as_str())
            .concat(" sockets are in CLOSE_WAIT, which usually means an app is not closing connections the peer already finished with"));
    }
    if m.retransmitting > 0 && m.established > 0 && 4 * (m.retransmitting as u64)
        > m.established as u64 {
        return b.warn(String::from_str(retransmitting.as_str())
            .concat(" of ")
            .concat(established.as_str())
            .concat(" established connections are retransmitting"));
    }
    b.pass(String::from_str(total.as_str())
        .concat(" sockets, ")
        .concat(established.as_str())
        .concat(" established, nothing stuck"))
}

// ---- Framework against kernel -----------------------------------------------------

pub open spec fn is_named(name: Seq<char>) -> spec_fn(Interface) -> bool {
    |i: Interface| i.name@ == name
}

/// The addresses of an interface as they are written.
pub open spec fn prefix_texts(list: Seq<LinkAddress>) -> Seq<Seq<char>>
    decreases list.len(),
{
    if list.len() == 0 {
        Seq::empty()
    } else {
        let front = prefix_texts(list.drop_last());
        match list.last().prefix {
            Some(p) => front.push(p.text()),
            None => front,
        }
    }
}

/// One complaint for each address of the framework that the kernel does not
/// have.
pub open spec fn missing_addresses(
    framework: Seq<IpPrefix>,
    kernel: Seq<Seq<char>>,
    name: Seq<char>,
) -> Seq<Seq<char>>
    decreases framework.len(),
{
    if framework.len() == 0 {
        Seq::empty()
    } else {
        let front = missing_addresses(framework.drop_last(), kernel, name);
        let text = framework.last().text();
        if kernel.contains(text) {
            front
        } else {
            front.push("the framework reports address "@ +
                text +
                " on "@ +
                name +
                " but the kernel does not have it"@)
        }
    }
}

/// Complaints about the interface that the framework names.
pub open spec fn interface_complaints(state: DiagState, lp: LinkPropertiesInfo) -> Seq<Seq<char>> {
    match find(state.interfaces@, is_named(lp.interface_name@)) {
        None => if lp.interface_name@.len() == 0 {
            Seq::empty()
        } else {
            seq!["the framework names interface "@ +
                lp.interface_name@ +
                " but the kernel has no such interface"@]
        },
        Some(i) => (if !is_up(i) {
            seq!["the framework is using "@ + i.name@ + " but the kernel has it DOWN"@]
        } else {
            Seq::empty()
        }) + (if lp.mtu > 0 && i.mtu > 0 && lp.mtu != i.mtu {
            seq!["MTU mismatch on "@ +
                i.name@ +
                ": framework says "@ +
                sdec(lp.mtu as int) +
                ", kernel says "@ +
                dec(i.mtu as nat)]
        } else {
            Seq::empty()
        }) + missing_addresses(lp.link_addresses@, prefix_texts(i.addresses@), i.name@),
    }
}

/// Whether a route of the framework is a default route of a family.
pub open spec fn is_framework_default(v6: bool) -> spec_fn(RouteInfo) -> bool {
    |r: RouteInfo|
        r.is_default && prefix_ip(r.destination) is Some && (prefix_ip(r.destination)->0 is V6)
            == v6
}

/// Complaints about default routes that the kernel does not have.
pub open spec fn route_complaints(state: DiagState, lp: LinkPropertiesInfo) -> Seq<Seq<char>> {
    (if any(lp.routes@, is_framework_default(true)) && state.lookup_v6.route is None {
        seq![
            "the framework lists an IPv6 default route but the kernel cannot route IPv6 to the internet"@,
        ]
    } else {
        Seq::empty()
    }) + (if any(lp.routes@, is_framework_default(false)) && state.lookup_v4.route is None {
        seq![
            "the framework lists an IPv4 default route but the kernel cannot route IPv4 to the internet"@,
        ]
    } else {
        Seq::empty()
    })
}

/// What the comparison of the framework with the kernel says.
pub open spec fn agreement_said(state: DiagState) -> Said {
    let b = untold(CheckId::FrameworkKernelAgreement, "Framework and kernel agree"@);
    match state.network {
        None => b.skip("no framework state to compare against"@),
        Some(n) => match n.link_properties {
            None => b.skip("the framework reported no LinkProperties"@),
            Some(lp) => {
                let complaints = interface_complaints(state, lp) + route_complaints(state, lp);
                let b = b.ev("framework_interface"@, lp.interface_name@).ev(
                    "framework_mtu"@,
                    sdec(lp.mtu as int),
                ).ev(
                    "framework_default_routes"@,
                    "v4="@ +
                        truth(any(lp.routes@, is_framework_default(false))) +
                        " v6="@ +
                        truth(any(lp.routes@, is_framework_default(true))),
                ).ev(
                    "kernel_default_routes"@,
                    "v4="@ +
                        truth(state.lookup_v4.route is Some) +
                        " v6="@ +
                        truth(state.lookup_v6.route is Some),
                ).ev("disagreements"@, dec(complaints.len()));
                if complaints.len() == 0 {
                    b.pass(
                        "the framework's view of interfaces, addresses and routes matches the kernel"@,
                    )
                } else {
                    b.fail(join(complaints, "; "@))
                }
            },
        },
    }
}

fn list_prefixes(list: &Vec<LinkAddress>) -> (r: Vec<String>)
    ensures
        texts(r@) == prefix_texts(list@),
{
    let mut r: Vec<String> = Vec::new();
    let mut i: usize = 0;
    assert(list@.take(0) =~= Seq::empty());
    assert(texts(r@) =~= Seq::empty());
    while i < list.len()
        invariant
            i <= list.len(),
            texts(r@) == prefix_texts(list@.take(i as int)),
        decreases list.len() - i,
    {
        assert(list@.take(i + 1).drop_last() =~= list@.take(i as int));
        let ghost before = texts(r@);
        if let Some(p) = &list[i].prefix {
            let text = p.display();
            let ghost t = text@;
            r.push(text);
            assert(texts(r@) =~= before.push(t));
        }
        i += 1;
    }
    assert(list@.take(list@.len() as int) =~= list@);
    r
}

fn add_missing_addresses(
    out: &mut Vec<String>,
    framework: &Vec<IpPrefix>,
    kernel: &Vec<String>,
    name: &str,
)
    ensures
        texts(final(out)@) == texts(old(out)@) + missing_addresses(
            framework@,
            texts(kernel@),
            name@,
        ),
{
    let ghost start = texts(out@);
    let ghost all = framework@;
    let ghost k = texts(kernel@);
    let mut i: usize = 0;
    assert(all.take(0) =~= Seq::empty());
    assert(start + missing_addresses(all.take(0), k, name@) =~= start);
    while i < framework.len()
        invariant
            i <= framework.len(),
            all == framework@,
            k == texts(kernel@),
            texts(out@) == start + missing_addresses(all.take(i as int), k, name@),
        decreases framework.len() - i,
    {
        assert(all.take(i + 1).drop_last() =~= all.take(i as int));
        let ghost before = texts(out@);
        let text = framework[i].display();
        if !contains_text(kernel, text.as_str()) {
            let complaint = String::from_str("the framework reports address ")
                .concat(text.as_str())
                .concat(" on ")
                .concat(name)
                .concat(" but the kernel does not have it");
            let ghost c = complaint@;
            out.push(complaint);
            assert(texts(out@) =~= before.push(c));
            assert(texts(out@) =~= start + missing_addresses(all.take(i + 1), k, name@));
        }
        i += 1;
    }
    assert(all.take(all.len() as int) =~= all);
}

fn find_named<'a>(interfaces: &'a Vec<Interface>, name: &str) -> (r: Option<&'a Interface>)
    ensures
        match r {
            Some(i) => find(interfaces@, is_named(name@)) == Some(*i),
            None => find(interfaces@, is_named(name@)) is None,
        },
{
    let ghost p = is_named(name@);
    let mut i: usize = 0;
    assert(interfaces@.skip(0) =~= interfaces@);
    while i < interfaces.len()
        invariant
            i <= interfaces.len(),
            p == is_named(name@),
            find(interfaces@, p) == find(interfaces@.skip(i as int), p),
        decreases interfaces.len() - i,
    {
        proof {
            lemma_find_step(interfaces@, p, i as int);
        }
        if same(interfaces[i].name.as_str(), name) {
            return Some(&interfaces[i]);
        }
        i += 1;
    }
    None
}

fn list_interface_complaints(state: &DiagState, lp: &LinkPropertiesInfo) -> (r: Vec<String>)
    ensures
        texts(r@) == interface_complaints(*state, *lp),
{
    let mut out: Vec<String> = Vec::new();
    match find_named(&state.interfaces, lp.interface_name.as_str()) {
        None => {
            if !is_empty(lp.interface_name.as_str()) {
                out.push(String::from_str("the framework names interface ")
                    .concat(lp.interface_name.as_str())
                    .concat(" but the kernel has no such interface"));
            }
            assert(texts(out@) =~= interface_complaints(*state, *lp));
        },
        Some(i) => {
            let name = i.name.as_str();
            if !up(i) {
                out.push(String::from_str("the framework is using ")
                    .concat(name)
                    .concat(" but the kernel has it DOWN"));
            }
            if lp.mtu > 0 && i.mtu > 0 && lp.mtu as u32 != i.mtu {
                let a = sdec_string(lp.mtu as i64);
                let b = dec_string(i.mtu as u64);
                out.push(String::from_str("MTU mismatch on ")
                    .concat(name)
                    .concat(": framework says ")
                    .concat(a.as_str())
                    .concat(", kernel says ")
                    .concat(b.as_str()));
            }
            let ghost before = texts(out@);
            let kernel = list_prefixes(&i.addresses);
            add_missing_addresses(&mut out, &lp.link_addresses, &kernel, name);
            proof {
                let a = if !is_up(*i) {
                    seq!["the framework is using "@ + i.name@ + " but the kernel has it DOWN"@]
                } else {
                    Seq::empty()
                };
                let b = if lp.mtu > 0 && i.mtu > 0 && lp.mtu != i.mtu {
                    seq!["MTU mismatch on "@ +
                        i.name@ +
                        ": framework says "@ +
                        sdec(lp.mtu as int) +
                        ", kernel says "@ +
                        dec(i.mtu as nat)]
                } else {
                    Seq::empty()
                };
                assert(before =~= a + b);
            }
        },
    }
    out
}

fn framework_default(routes: &Vec<RouteInfo>, v6: bool) -> (r: bool)
    ensures
        r == any(routes@, is_framework_default(v6)),
{
    let mut i: usize = 0;
    while i < routes.len()
        invariant
            i <= routes.len(),
            forall|k: int| 0 <= k < i ==> !is_framework_default(v6)(#[trigger] routes@[k]),
        decreases routes.len() - i,
    {
        if routes[i].is_default {
            if let Some(p) = &routes[i].destination {
                if let Some(ip) = p.ip() {
                    if ip.is_ipv6() == v6 {
                        assert(is_framework_default(v6)(routes@[i as int]));
                        return true;
                    }
                }
            }
        }
        i += 1;
    }
    false
}

pub fn check_framework_agreement(state: &DiagState) -> (r: Check)
    ensures
        said(r) == agreement_said(*state),
        r.id == CheckId::FrameworkKernelAgreement,
        r.evidence.wf(),
{
    let b = CheckBuilder::new(CheckId::FrameworkKernelAgreement, "Framework and kernel agree");
    let n = match &state.network {
        Some(n) => n,
        None => {
            return b.skip(String::from_str("no framework state to compare against"));
        },
    };
    let lp = match &n.link_properties {
        Some(lp) => lp,
        None => {
            return b.skip(String::from_str("the framework reported no LinkProperties"));
        },
    };
    let mut complaints = list_interface_complaints(state, lp);
    let ghost before = texts(complaints@);
    let framework_v4 = framework_default(&lp.routes, false);
    let framework_v6 = framework_default(&lp.routes, true);
    let kernel_v4 = state.lookup_v4.route.is_some();
    let kernel_v6 = state.lookup_v6.route.is_some();
    if framework_v6 && !kernel_v6 {
        complaints.push(
            String::from_str(
                "the framework lists an IPv6 default route but the kernel cannot route IPv6 to the internet",
            ),
        );
    }
    if framework_v4 && !kernel_v4 {
        complaints.push(
            String::from_str(
                "the framework lists an IPv4 default route but the kernel cannot route IPv4 to the internet",
            ),
        );
    }
    assert(texts(complaints@) =~= before + route_complaints(*state, *lp));
    assert(texts(complaints@).len() == complaints.len());
    let b = b.ev("framework_interface", lp.interface_name.as_str()).ev(
        "framework_mtu",
        sdec_string(lp.mtu as i64).as_str(),
    ).ev(
        "framework_default_routes",
        String::from_str("v4=")
            .concat(truth_str(framework_v4))
            .concat(" v6=")
            .concat(truth_str(framework_v6)).as_str(),
    ).ev(
        "kernel_default_routes",
        String::from_str("v4=")
            .concat(truth_str(kernel_v4))
            .concat(" v6=")
            .concat(truth_str(kernel_v6)).as_str(),
    ).ev("disagreements", dec_string(complaints.len() as u64).as_str());
    if complaints.len() == 0 {
        return b.pass(
            String::from_str(
                "the framework's view of interfaces, addresses and routes matches the kernel",
            ),
        );
    }
    b.fail(join_texts(&complaints, "; "))
}

// ---- Captive portal -----------------------------------------------------------

/// What the check for a captive portal says.
pub open spec fn captive_portal_said(state: DiagState) -> Said {
    let b = untold(CheckId::CaptivePortal, "Captive portal"@);
    match state.network {
        None => b.skip("no framework state; captive portal status comes from Android"@),
        Some(n) => {
            let caps = caps_of(n);
            let b = b.ev("captive_portal_capability"@, truth(caps.captive_portal)).ev(
                "validated"@,
                truth(caps.validated),
            ).ev(
                "captive_portal_api_url"@,
                match n.link_properties {
                    Some(lp) => lp.captive_portal_api_url@,
                    None => Seq::empty(),
                },
            );
            if caps.captive_portal {
                b.fail(
                    "Android has detected a captive portal; traffic is being intercepted until the portal is satisfied"@,
                )
            } else if !caps.validated && caps.internet {
                b.warn(
                    "the network is not validated; a captive portal that Android has not classified yet would look exactly like this"@,
                )
            } else {
                b.pass("no captive portal detected"@)
            }
        },
    }
}

pub fn check_captive_portal(state: &DiagState) -> (r: Check)
    ensures
        said(r) == captive_portal_said(*state),
        r.id == CheckId::CaptivePortal,
        r.evidence.wf(),
{
    let b = CheckBuilder::new(CheckId::CaptivePortal, "Captive portal");
    let n = match &state.network {
        Some(n) => n,
        None => {
            return b.skip(
                String::from_str("no framework state; captive portal status comes from Android"),
            );
        },
    };
    let caps = read_caps(n);
    let url = match &n.link_properties {
        Some(lp) => lp.captive_portal_api_url.clone(),
        None => String::new(),
    };
    let b = b.ev("captive_portal_capability", truth_str(caps.captive_portal)).ev(
        "validated",
        truth_str(caps.validated),
    ).ev("captive_portal_api_url", url.as_str());
    if caps.captive_portal {
        return b.fail(
            String::from_str(
                "Android has detected a captive portal; traffic is being intercepted until the portal is satisfied",
            ),
        );
    }
    if !caps.validated && caps.internet {
        return b.warn(
            String::from_str(
                "the network is not validated; a captive portal that Android has not classified yet would look exactly like this",
            ),
        );
    }
    b.pass(String::from_str("no captive portal detected"))
}

/// A device that nothing would leave is a failure, not something to skip.
pub proof fn law_no_way_out_is_a_failure(state: DiagState)
    requires
        state.egress_v4 is None,
        state.egress_v6 is None,
    ensures
        active_interface_said(state).status is Fail,
{
}

} // verus!
