//! Realtime network events.
//!
//! Some events are only meaningful as transitions rather than as raw
//! notifications. "An IPv6 address was removed" is noise ten times an hour on
//! a device using privacy addresses; "this interface no longer has any global
//! IPv6 address" is the thing a person actually wants on a timeline. That
//! distinction needs memory of the previous state, which is kept here.
use std::collections::HashMap;

use vstd::prelude::*;

use crate::collect::links::{
    if_name, link_mtu, AddressAttribute, AddressMessage, LinkAttribute, LinkMessage, IFF_RUNNING,
    IFF_UP,
};
use crate::collect::neigh::{
    forwards, is_usable, neighbor_is, neighbor_to_proto, neighbour_address, neighbour_state,
    NeighbourMessage,
};
use crate::collect::routes::{
    route_to_proto, route_told, rule_is, rule_to_proto, RouteMessage, RuleMessage,
};
use crate::collect::{name_in, name_or_empty};
use crate::ip::IpAddr;
use crate::proto::{
    address_ip, AddressEvent, AddressScope, EventFilter, EventSeverity, EventSource, Interface,
    IpFamily, IpPrefix, LinkAddress, LinkEvent, LinkKind, Neighbor, NeighborEvent, NeighborState,
    NetworkEvent, NetworkEventPayload, OperState, Route, RouteEvent, RoutingRule, RuleEvent,
};
use crate::seqs::{any, contains_number, find, keep, last_some, lemma_any_filter, or, position_of};
use crate::text::{dec, dec_string, hex, hex_string, is_empty};
use crate::util::now_unix_ms;

verus! {

// ---- Stamping -----------------------------------------------------------------

/// Numbers events in the order in which they are published.
pub struct EventBus {
    pub sequence: u64,
}

/// Whether an event is another but for its stamps.
pub open spec fn same_but_stamps(a: NetworkEvent, b: NetworkEvent) -> bool {
    &&& a.source == b.source
    &&& a.severity == b.severity
    &&& a.summary == b.summary
    &&& a.payload == b.payload
}

impl EventBus {
    pub fn new() -> (r: Self)
        ensures
            r.sequence == 0,
    {
        EventBus { sequence: 0 }
    }

    /// Stamps an event for publication. Stamping here rather than where the
    /// event is made keeps the sequence numbers strictly increasing in
    /// publication order.
    pub fn publish(&mut self, event: NetworkEvent, monotonic_ns: u64) -> (r: NetworkEvent)
        requires
            old(self).sequence < u64::MAX,
        ensures
            r.sequence == old(self).sequence,
            final(self).sequence == old(self).sequence + 1,
            r.monotonic_ns == monotonic_ns,
            same_but_stamps(r, event),
    {
        let mut stamped = event;
        stamped.sequence = self.sequence;
        stamped.unix_ms = now_unix_ms();
        stamped.monotonic_ns = monotonic_ns;
        self.sequence = self.sequence + 1;
        stamped
    }

    /// Stamps a message of the daemon itself.
    pub fn publish_daemon(&mut self, message: String, monotonic_ns: u64) -> (r: NetworkEvent)
        requires
            old(self).sequence < u64::MAX,
        ensures
            r.sequence == old(self).sequence,
            final(self).sequence == old(self).sequence + 1,
            r.monotonic_ns == monotonic_ns,
            r.source == EventSource::Daemon,
            r.severity == EventSeverity::Info,
            r.summary == message,
            r.payload is None,
    {
        let event = NetworkEvent {
            sequence: 0,
            unix_ms: 0,
            monotonic_ns: 0,
            source: EventSource::Daemon,
            severity: EventSeverity::Info,
            summary: message,
            payload: None,
        };
        self.publish(event, monotonic_ns)
    }
}

// ---- Memory -------------------------------------------------------------------

/// A global address of an interface.
#[derive(Clone, Copy, Debug, PartialEq)]
pub struct KnownAddress {
    pub index: u32,
    pub ip: IpAddr,
    pub prefix_len: u8,
}

/// The last state of a neighbour.
#[derive(Clone, Copy, Debug, PartialEq)]
pub struct KnownNeighbor {
    pub index: u32,
    pub ip: IpAddr,
    pub state: NeighborState,
}

/// Remembers enough of the previous state to turn notifications into
/// transitions.
pub struct StateCache {
    pub if_names: HashMap<u32, String>,
    pub if_mtu: HashMap<u32, u32>,
    /// The global addresses per interface, so the "last one removed" edge is
    /// exact.
    pub addresses: Vec<KnownAddress>,
    pub neighbor_states: Vec<KnownNeighbor>,
}

impl StateCache {
    pub fn new() -> (r: Self)
        ensures
            r.if_names@ == Map::<u32, String>::empty(),
            r.if_mtu@ == Map::<u32, u32>::empty(),
            r.addresses@.len() == 0,
            r.neighbor_states@.len() == 0,
    {
        StateCache {
            if_names: HashMap::new(),
            if_mtu: HashMap::new(),
            addresses: Vec::new(),
            neighbor_states: Vec::new(),
        }
    }
}

pub open spec fn v6_or_v4(ip: IpAddr) -> IpFamily {
    match ip {
        IpAddr::V4(_) => IpFamily::V4,
        IpAddr::V6(_) => IpFamily::V6,
    }
}

/// Whether a known address is of an interface and a family.
pub open spec fn on(index: u32, family: IpFamily) -> spec_fn(KnownAddress) -> bool {
    |a: KnownAddress| a.index == index && v6_or_v4(a.ip) == family
}

/// Whether an interface has a global address of a family.
pub open spec fn has_global(known: Seq<KnownAddress>, index: u32, family: IpFamily) -> bool {
    any(known, on(index, family))
}

pub open spec fn elsewhere(index: u32) -> spec_fn(KnownAddress) -> bool {
    |a: KnownAddress| a.index != index
}

pub open spec fn other_than(x: KnownAddress) -> spec_fn(KnownAddress) -> bool {
    |a: KnownAddress| a != x
}

/// The known addresses after one was added or removed.
pub open spec fn addresses_after(known: Seq<KnownAddress>, x: KnownAddress, added: bool) -> Seq<
    KnownAddress,
> {
    let rest = known.filter(other_than(x));
    if added {
        rest.push(x)
    } else {
        rest
    }
}

pub open spec fn is_neighbor(index: u32, ip: IpAddr) -> spec_fn(KnownNeighbor) -> bool {
    |n: KnownNeighbor| n.index == index && n.ip == ip
}

pub open spec fn is_other_neighbor(index: u32, ip: IpAddr) -> spec_fn(KnownNeighbor) -> bool {
    |n: KnownNeighbor| n.index != index || n.ip != ip
}

/// The last state of a neighbour.
pub open spec fn last_state(known: Seq<KnownNeighbor>, index: u32, ip: IpAddr) -> NeighborState {
    match find(known, is_neighbor(index, ip)) {
        Some(n) => n.state,
        None => NeighborState::Unspecified,
    }
}

/// The known neighbours after one was added or removed.
pub open spec fn neighbors_after(
    known: Seq<KnownNeighbor>,
    index: u32,
    ip: IpAddr,
    state: NeighborState,
    added: bool,
) -> Seq<KnownNeighbor> {
    let rest = known.filter(is_other_neighbor(index, ip));
    if added {
        rest.push(KnownNeighbor { index, ip, state })
    } else {
        rest
    }
}

// ---- Events ---------------------------------------------------------------------

/// Whether an event comes from the kernel with a severity and a summary, and is
/// not stamped yet.
pub open spec fn says(e: NetworkEvent, severity: EventSeverity, summary: Seq<char>) -> bool {
    &&& e.source == EventSource::Kernel
    &&& e.severity == severity
    &&& e.summary@ == summary
    &&& e.sequence == 0
    &&& e.unix_ms == 0
    &&& e.monotonic_ns == 0
}

fn base_event(severity: EventSeverity, summary: String) -> (r: NetworkEvent)
    ensures
        says(r, severity, summary@),
        r.payload is None,
{
    NetworkEvent {
        sequence: 0,
        unix_ms: 0,
        monotonic_ns: 0,
        source: EventSource::Kernel,
        severity,
        summary,
        payload: None,
    }
}

/// The stand-in for the name of an interface that has none.
pub open spec fn numbered(index: u32) -> Seq<char> {
    "if"@ + dec(index as nat)
}

fn numbered_name(index: u32) -> (r: String)
    ensures
        r@ == numbered(index),
{
    let n = dec_string(index as u64);
    String::from_str("if").concat(n.as_str())
}

/// The name of the interface that a link message is about.
pub open spec fn link_name(names: Map<u32, String>, msg: LinkMessage) -> Seq<char> {
    let name = or(last_some(msg.attributes@, if_name()), name_in(names, msg.index));
    if name.len() == 0 {
        numbered(msg.index)
    } else {
        name
    }
}

/// The last MTU of an interface, or zero.
pub open spec fn known_mtu(mtus: Map<u32, u32>, index: u32) -> u32 {
    if mtus.contains_key(index) {
        mtus[index]
    } else {
        0
    }
}

/// Whether an interface holds an index, a name and an MTU, and nothing else.
pub open spec fn is_bare(i: Interface, index: u32, name: Seq<char>, mtu: u32) -> bool {
    &&& i.index == index && i.name@ == name && i.mtu == mtu
    &&& i.alias@.len() == 0 && i.mac_address@.len() == 0 && i.broadcast_address@.len() == 0
    &&& i.tx_queue_len == 0 && i.qdisc@.len() == 0 && i.link_index == 0 && i.master_index == 0
    &&& i.group == 0 && i.netns_id == 0 && i.oper_state == OperState::Unspecified && !i.has_xdp
    &&& i.link_type@.len() == 0 && i.kind == LinkKind::Unspecified && i.flags is None
    &&& i.stats is None && i.addresses@.len() == 0 && i.sysctls is None
}

fn bare_interface(index: u32, name: String, mtu: u32) -> (r: Interface)
    ensures
        is_bare(r, index, name@, mtu),
{
    Interface {
        index,
        name,
        alias: String::new(),
        mtu,
        mac_address: Vec::new(),
        broadcast_address: Vec::new(),
        tx_queue_len: 0,
        qdisc: String::new(),
        link_index: 0,
        master_index: 0,
        group: 0,
        netns_id: 0,
        oper_state: OperState::Unspecified,
        has_xdp: false,
        link_type: String::new(),
        kind: LinkKind::Unspecified,
        flags: None,
        stats: None,
        addresses: Vec::new(),
        sysctls: None,
    }
}

/// What is said of a link message, from the last MTU.
pub open spec fn link_summary(
    name: Seq<char>,
    added: bool,
    flags: u32,
    mtu: u32,
    previous_mtu: u32,
) -> Seq<char> {
    if !added {
        name + " removed"@
    } else if mtu != 0 && previous_mtu != 0 && mtu != previous_mtu {
        name + " MTU "@ + dec(previous_mtu as nat) + " -> "@ + dec(mtu as nat)
    } else if flags & IFF_UP != 0 && flags & IFF_RUNNING != 0 {
        name + " up"@
    } else if flags & IFF_UP != 0 {
        name + " up, no carrier"@
    } else {
        name + " down"@
    }
}

/// Whether the memory of the interfaces follows a link message.
pub open spec fn links_remembered(
    after: StateCache,
    before: StateCache,
    index: u32,
    name: Seq<char>,
    mtu: u32,
    added: bool,
) -> bool {
    &&& after.neighbor_states == before.neighbor_states
    &&& if added {
        &&& after.if_names@ == before.if_names@.insert(index, after.if_names@[index])
        &&& after.if_names@[index]@ == name
        &&& after.if_mtu@ == if mtu != 0 {
            before.if_mtu@.insert(index, mtu)
        } else {
            before.if_mtu@
        }
        &&& after.addresses@ == before.addresses@
    } else {
        &&& after.if_names@ == before.if_names@.remove(index)
        &&& after.if_mtu@ == before.if_mtu@.remove(index)
        &&& after.addresses@ == before.addresses@.filter(elsewhere(index))
    }
}

/// Whether an event, and the memory after it, follow from a link message.
pub open spec fn link_event_told(
    r: NetworkEvent,
    msg: LinkMessage,
    added: bool,
    before: StateCache,
    after: StateCache,
) -> bool {
    let name = link_name(before.if_names@, msg);
    let mtu = or(last_some(msg.attributes@, link_mtu()), 0);
    let previous = known_mtu(before.if_mtu@, msg.index);
    let up = msg.flags & IFF_UP != 0;
    &&& says(
        r,
        if !added || !up {
            EventSeverity::Notice
        } else {
            EventSeverity::Info
        },
        link_summary(name, added, msg.flags, mtu, previous),
    )
    &&& r.payload matches Some(NetworkEventPayload::Link(e))
    &&& e.added == added
    &&& e.interface is Some
    &&& is_bare(e.interface->0, msg.index, name, mtu)
    &&& e.went_up == (added && up)
    &&& e.went_down == (added && !up)
    &&& e.mtu_changed == (mtu != 0 && previous != 0 && mtu != previous)
    &&& e.previous_mtu == previous
    &&& links_remembered(after, before, msg.index, name, mtu, added)
}

/// The event of a link message: an interface that came, changed or went.
pub fn link_event(msg: LinkMessage, added: bool, cache: &mut StateCache) -> (r: NetworkEvent)
    ensures
        link_event_told(r, msg, added, *old(cache), *final(cache)),
{
    broadcast use vstd::std_specs::hash::group_hash_axioms;

    let ghost before = *cache;
    let ghost attrs = msg.attributes@;
    let ghost given = msg;
    let index = msg.index;
    let flags = msg.flags;
    let mut name = name_or_empty(&cache.if_names, index);
    let mut mtu: u32 = 0;
    assert(attrs.take(0) =~= Seq::empty());
    for attr in it: msg.attributes
        invariant
            it.seq() == attrs,
            name@ == or(last_some(attrs.take(it.index()), if_name()), name_in(before.if_names@, index)),
            mtu == or(last_some(attrs.take(it.index()), link_mtu()), 0),
    {
        let ghost i = it.index();
        assert(attrs.take(i + 1).drop_last() =~= attrs.take(i));
        assert(attrs.take(i + 1).last() == attr);
        match attr {
            LinkAttribute::IfName(n) => name = n,
            LinkAttribute::Mtu(m) => mtu = m,
            _ => {},
        }
    }
    assert(attrs.take(attrs.len() as int) =~= attrs);
    if is_empty(name.as_str()) {
        name = numbered_name(index);
    }
    assert(name@ == link_name(before.if_names@, given));
    let up = flags & IFF_UP != 0;
    let running = flags & IFF_RUNNING != 0;
    let previous_mtu = match cache.if_mtu.get(&index) {
        Some(m) => *m,
        None => 0,
    };
    let mtu_changed = mtu != 0 && previous_mtu != 0 && mtu != previous_mtu;
    if added {
        cache.if_names.insert(index, name.clone());
        if mtu != 0 {
            cache.if_mtu.insert(index, mtu);
        }
    } else {
        cache.if_names.remove(&index);
        cache.if_mtu.remove(&index);
        let mut known: Vec<KnownAddress> = Vec::new();
        std::mem::swap(&mut known, &mut cache.addresses);
        let away = |a: &KnownAddress| -> (b: bool)
            ensures
                b == elsewhere(index)(*a),
            { a.index != index };
        cache.addresses = keep(known, away, Ghost(elsewhere(index)));
    }
    let summary = if !added {
        String::from_str(name.as_str()).concat(" removed")
    } else if mtu_changed {
        let a = dec_string(previous_mtu as u64);
        let b = dec_string(mtu as u64);
        String::from_str(name.as_str())
            .concat(" MTU ")
            .concat(a.as_str())
            .concat(" -> ")
            .concat(b.as_str())
    } else if up && running {
        String::from_str(name.as_str()).concat(" up")
    } else if up {
        String::from_str(name.as_str()).concat(" up, no carrier")
    } else {
        String::from_str(name.as_str()).concat(" down")
    };
    let severity = if !added || !up {
        EventSeverity::Notice
    } else {
        EventSeverity::Info
    };
    let mut event = base_event(severity, summary);
    event.payload = Some(
        NetworkEventPayload::Link(
            LinkEvent {
                added,
                interface: Some(bare_interface(index, name, mtu)),
                went_up: added && up,
                went_down: added && !up,
                mtu_changed,
                previous_mtu,
            },
        ),
    );
    event
}

/// The address that an event is about: the last local one, or else the first
/// of the peer.
pub open spec fn event_address(attrs: Seq<AddressAttribute>) -> Option<IpAddr>
    decreases attrs.len(),
{
    if attrs.len() == 0 {
        None
    } else {
        let before = event_address(attrs.drop_last());
        match attrs.last() {
            AddressAttribute::Local(a) => Some(a),
            AddressAttribute::Address(a) => match before {
                Some(b) => Some(b),
                None => Some(a),
            },
            _ => before,
        }
    }
}

pub open spec fn family_text(family: IpFamily) -> Seq<char> {
    if family is V6 {
        "IPv6"@
    } else {
        "IPv4"@
    }
}

/// The name of an interface in an event about its addresses.
pub open spec fn shown_name(names: Map<u32, String>, index: u32) -> Seq<char> {
    if names.contains_key(index) {
        names[index]@
    } else {
        numbered(index)
    }
}

pub open spec fn address_summary(
    name: Seq<char>,
    family: IpFamily,
    text: Seq<char>,
    added: bool,
    gained: bool,
    lost: bool,
) -> Seq<char> {
    if gained {
        name + " gained "@ + family_text(family) + " ("@ + text + ")"@
    } else if lost {
        name +
            " lost "@ +
            family_text(family) +
            " (last global address "@ +
            text +
            " removed)"@
    } else if added {
        name + " address added "@ + text
    } else {
        name + " address removed "@ + text
    }
}

/// Whether an address holds an IP address and a scope, and nothing else.
pub open spec fn is_bare_address(a: LinkAddress, ip: IpAddr, prefix_len: u8, global: bool) -> bool {
    &&& a.prefix is Some && (a.prefix->0).ip_of() == Some(ip) && (a.prefix->0).prefix_len == prefix_len
    &&& a.scope == if global {
        AddressScope::Global
    } else {
        AddressScope::Unspecified
    }
    &&& a.flags is None && a.valid_lifetime_sec == 0 && a.preferred_lifetime_sec == 0
    &&& a.label@.len() == 0 && a.broadcast is None
}

fn same_known(a: &KnownAddress, b: &KnownAddress) -> (r: bool)
    ensures
        r == (*a == *b),
{
    a.index == b.index && a.prefix_len == b.prefix_len && a.ip.same(&b.ip)
}

fn family_of_ip(ip: &IpAddr) -> (r: IpFamily)
    ensures
        r == v6_or_v4(*ip),
{
    match ip {
        IpAddr::V4(_) => IpFamily::V4,
        IpAddr::V6(_) => IpFamily::V6,
    }
}

fn any_global(known: &Vec<KnownAddress>, index: u32, family: IpFamily) -> (r: bool)
    ensures
        r == has_global(known@, index, family),
{
    let here = |a: &KnownAddress| -> (b: bool)
        ensures
            b == on(index, family)(*a),
        { a.index == index && family_of_ip(&a.ip) == family };
    position_of(known, here, Ghost(on(index, family))).is_some()
}

/// Whether an event, and the memory after it, follow from an address message.
pub open spec fn address_event_told(
    r: Option<NetworkEvent>,
    msg: AddressMessage,
    added: bool,
    before: StateCache,
    after: StateCache,
) -> bool {
    &&& r is Some <==> event_address(msg.attributes@) is Some
    &&& after.if_names == before.if_names
    &&& after.if_mtu == before.if_mtu
    &&& after.neighbor_states == before.neighbor_states
    &&& r is None ==> after == before
    &&& r matches Some(event) ==> {
        let ip = event_address(msg.attributes@)->0;
        let family = v6_or_v4(ip);
        let global = msg.scope == 0;
        let x = KnownAddress { index: msg.index, ip, prefix_len: msg.prefix_len };
        let had = has_global(before.addresses@, msg.index, family);
        let left = has_global(after.addresses@, msg.index, family);
        let gained = !had && left;
        let lost = had && !left;
        let name = shown_name(before.if_names@, msg.index);
        let text = ip.text() + "/"@ + dec(msg.prefix_len as nat);
        &&& after.addresses@ == if global {
            addresses_after(before.addresses@, x, added)
        } else {
            before.addresses@
        }
        &&& says(
            event,
            if lost {
                EventSeverity::Warning
            } else if gained {
                EventSeverity::Notice
            } else {
                EventSeverity::Debug
            },
            address_summary(name, family, text, added, gained, lost),
        )
        &&& event.payload matches Some(NetworkEventPayload::Address(e))
        &&& e.added == added
        &&& e.interface_index == msg.index
        &&& e.interface_name@ == name
        &&& e.address is Some
        &&& is_bare_address(e.address->0, ip, msg.prefix_len, global)
        &&& e.family_gained == gained
        &&& e.family_lost == lost
        &&& e.family == family
    }
}

/// The event of an address message. "Gained" and "lost" mark the first global
/// address of a family that comes, and the last one that goes.
pub fn address_event(msg: AddressMessage, added: bool, cache: &mut StateCache) -> (r: Option<
    NetworkEvent,
>)
    ensures
        address_event_told(r, msg, added, *old(cache), *final(cache)),
{
    broadcast use vstd::std_specs::hash::group_hash_axioms;

    let ghost attrs = msg.attributes@;
    let index = msg.index;
    let prefix_len = msg.prefix_len;
    let is_global = msg.scope == 0;
    let name = match cache.if_names.get(&index) {
        Some(n) => n.clone(),
        None => numbered_name(index),
    };
    let mut found: Option<IpAddr> = None;
    assert(attrs.take(0) =~= Seq::empty());
    for attr in it: msg.attributes
        invariant
            it.seq() == attrs,
            found == event_address(attrs.take(it.index())),
    {
        let ghost i = it.index();
        assert(attrs.take(i + 1).drop_last() =~= attrs.take(i));
        assert(attrs.take(i + 1).last() == attr);
        match attr {
            AddressAttribute::Local(a) => found = Some(a),
            AddressAttribute::Address(a) => {
                if found.is_none() {
                    found = Some(a);
                }
            },
            _ => {},
        }
    }
    assert(attrs.take(attrs.len() as int) =~= attrs);
    let ip = match found {
        Some(ip) => ip,
        None => {
            return None;
        },
    };
    let ip_text = ip.to_text();
    let len_text = dec_string(prefix_len as u64);
    let text = String::from_str(ip_text.as_str()).concat("/").concat(len_text.as_str());
    let family = family_of_ip(&ip);
    let had = any_global(&cache.addresses, index, family);
    if is_global {
        let x = KnownAddress { index, ip, prefix_len };
        let mut known: Vec<KnownAddress> = Vec::new();
        std::mem::swap(&mut known, &mut cache.addresses);
        let other = |a: &KnownAddress| -> (b: bool)
            ensures
                b == other_than(x)(*a),
            { !same_known(a, &x) };
        let mut rest = keep(known, other, Ghost(other_than(x)));
        if added {
            rest.push(x);
        }
        cache.addresses = rest;
    }
    let left = any_global(&cache.addresses, index, family);
    let gained = !had && left;
    let lost = had && !left;
    let family_name = if family == IpFamily::V6 {
        "IPv6"
    } else {
        "IPv4"
    };
    let summary = if gained {
        String::from_str(name.as_str())
            .concat(" gained ")
            .concat(family_name)
            .concat(" (")
            .concat(text.as_str())
            .concat(")")
    } else if lost {
        String::from_str(name.as_str())
            .concat(" lost ")
            .concat(family_name)
            .concat(" (last global address ")
            .concat(text.as_str())
            .concat(" removed)")
    } else if added {
        String::from_str(name.as_str()).concat(" address added ").concat(text.as_str())
    } else {
        String::from_str(name.as_str()).concat(" address removed ").concat(text.as_str())
    };
    let severity = if lost {
        EventSeverity::Warning
    } else if gained {
        EventSeverity::Notice
    } else {
        EventSeverity::Debug
    };
    let mut event = base_event(severity, summary);
    event.payload = Some(
        NetworkEventPayload::Address(
            AddressEvent {
                added,
                interface_index: index,
                interface_name: name,
                address: Some(
                    LinkAddress {
                        prefix: Some(IpPrefix::new(ip, prefix_len)),
                        scope: if is_global {
                            AddressScope::Global
                        } else {
                            AddressScope::Unspecified
                        },
                        flags: None,
                        valid_lifetime_sec: 0,
                        preferred_lifetime_sec: 0,
                        label: String::new(),
                        broadcast: None,
                    },
                ),
                family_gained: gained,
                family_lost: lost,
                family,
            },
        ),
    );
    Some(event)
}

/// The last global address of a family that goes, and nothing else, loses the
/// family; one that comes always leaves the interface with it.
pub proof fn law_family_is_lost_with_its_last_address(known: Seq<KnownAddress>, x: KnownAddress)
    ensures
        ({
            let family = v6_or_v4(x.ip);
            let gone = addresses_after(known, x, false);
            &&& has_global(addresses_after(known, x, true), x.index, family)
            &&& has_global(gone, x.index, family) <==> exists|i: int|
                0 <= i < known.len() && on(x.index, family)(#[trigger] known[i]) && known[i] != x
            &&& forall|index: u32, f: IpFamily|
                index != x.index || f != family ==> #[trigger] has_global(gone, index, f)
                    == has_global(known, index, f)
        }),
{
    let family = v6_or_v4(x.ip);
    let rest = known.filter(other_than(x));
    assert(rest.push(x)[rest.len() as int] == x);
    assert(on(x.index, family)(x));
    lemma_any_filter(known, other_than(x), on(x.index, family));
    assert forall|index: u32, f: IpFamily| index != x.index || f != family implies #[trigger] has_global(
        rest,
        index,
        f,
    ) == has_global(known, index, f) by {
        lemma_any_filter(known, other_than(x), on(index, f));
        if has_global(known, index, f) {
            let i = choose|i: int| 0 <= i < known.len() && on(index, f)(#[trigger] known[i]);
            assert(other_than(x)(known[i]));
        }
    }
}

/// The destination of a route in an event.
pub open spec fn destination_text(route: Route) -> Seq<char> {
    match route.destination {
        Some(d) => if route.is_default {
            "default"@
        } else {
            d.text()
        },
        None => "?"@,
    }
}

pub open spec fn verb(added: bool) -> Seq<char> {
    if added {
        "added"@
    } else {
        "removed"@
    }
}

/// A route in an event: its first hop counts.
pub open spec fn route_summary(route: Route, added: bool) -> Seq<char> {
    let hop = if route.next_hops@.len() > 0 {
        Some(route.next_hops@[0])
    } else {
        None
    };
    let via = match hop {
        Some(h) => match h.gateway {
            Some(g) => " via "@ + g.text(),
            None => ""@,
        },
        None => ""@,
    };
    let dev = match hop {
        Some(h) => if h.out_interface_name@.len() == 0 {
            ""@
        } else {
            " dev "@ + h.out_interface_name@
        },
        None => ""@,
    };
    "route "@ +
        verb(added) +
        ": "@ +
        destination_text(route) +
        via +
        dev +
        " table "@ +
        dec(route.table as nat)
}

fn verb_text(added: bool) -> (r: &'static str)
    ensures
        r@ == verb(added),
{
    if added {
        "added"
    } else {
        "removed"
    }
}

/// Whether an event announces a route. A default route matters more.
pub open spec fn announces_route(event: NetworkEvent, route: Route, added: bool) -> bool {
    &&& says(
        event,
        if route.is_default {
            EventSeverity::Notice
        } else {
            EventSeverity::Debug
        },
        route_summary(route, added),
    )
    &&& event.payload == Some(
        NetworkEventPayload::Route(
            RouteEvent { added, default_route_changed: route.is_default, route: Some(route) },
        ),
    )
}

/// The event that announces a route.
pub fn announce_route(route: Route, added: bool) -> (r: NetworkEvent)
    ensures
        announces_route(r, route, added),
{
    let destination = match &route.destination {
        Some(d) => if route.is_default {
            String::from_str("default")
        } else {
            d.display()
        },
        None => String::from_str("?"),
    };
    let mut via = String::from_str("");
    let mut dev = String::from_str("");
    if route.next_hops.len() > 0 {
        let hop = &route.next_hops[0];
        if let Some(g) = &hop.gateway {
            let text = g.display();
            via = String::from_str(" via ").concat(text.as_str());
        }
        if !is_empty(hop.out_interface_name.as_str()) {
            dev = String::from_str(" dev ").concat(hop.out_interface_name.as_str());
        }
    }
    let table = dec_string(route.table as u64);
    let word = verb_text(added);
    let summary = String::from_str("route ")
        .concat(word)
        .concat(": ")
        .concat(destination.as_str())
        .concat(via.as_str())
        .concat(dev.as_str())
        .concat(" table ")
        .concat(table.as_str());
    let severity = if route.is_default {
        EventSeverity::Notice
    } else {
        EventSeverity::Debug
    };
    let mut event = base_event(severity, summary);
    event.payload = Some(
        NetworkEventPayload::Route(
            RouteEvent { added, default_route_changed: route.is_default, route: Some(route) },
        ),
    );
    event
}

/// Whether an event follows from a route message.
pub open spec fn route_event_told(
    r: NetworkEvent,
    msg: RouteMessage,
    added: bool,
    names: Map<u32, String>,
) -> bool {
    exists|route: Route| #[trigger] route_told(route, msg, names) && announces_route(r, route, added)
}

/// The event of a route message.
pub fn route_event(msg: RouteMessage, added: bool, cache: &StateCache) -> (r: NetworkEvent)
    ensures
        route_event_told(r, msg, added, cache.if_names@),
{
    let route = route_to_proto(msg, &cache.if_names);
    let ghost told = route;
    let event = announce_route(route, added);
    assert(route_told(told, msg, cache.if_names@) && announces_route(event, told, added));
    event
}

/// A rule in an event.
pub open spec fn rule_summary(rule: RoutingRule, added: bool) -> Seq<char> {
    let selector = if rule.has_uid_range {
        " uidrange "@ +
            dec(rule.uid_range_start as nat) +
            "-"@ +
            dec(rule.uid_range_end as nat)
    } else if rule.has_fwmark {
        " fwmark 0x"@ + hex(rule.fwmark as nat) + "/0x"@ + hex(rule.fwmask as nat)
    } else {
        ""@
    };
    "rule "@ +
        verb(added) +
        ": priority "@ +
        dec(rule.priority as nat) +
        selector +
        " lookup "@ +
        dec(rule.table as nat)
}

/// Whether an event announces a rule.
pub open spec fn announces_rule(event: NetworkEvent, rule: RoutingRule, added: bool) -> bool {
    &&& says(event, EventSeverity::Notice, rule_summary(rule, added))
    &&& event.payload == Some(NetworkEventPayload::Rule(RuleEvent { added, rule: Some(rule) }))
}

/// The event that announces a rule.
pub fn announce_rule(rule: RoutingRule, added: bool) -> (r: NetworkEvent)
    ensures
        announces_rule(r, rule, added),
{
    let word = verb_text(added);
    let selector = if rule.has_uid_range {
        let a = dec_string(rule.uid_range_start as u64);
        let b = dec_string(rule.uid_range_end as u64);
        String::from_str(" uidrange ").concat(a.as_str()).concat("-").concat(b.as_str())
    } else if rule.has_fwmark {
        let a = hex_string(rule.fwmark as u64);
        let b = hex_string(rule.fwmask as u64);
        String::from_str(" fwmark 0x").concat(a.as_str()).concat("/0x").concat(b.as_str())
    } else {
        String::from_str("")
    };
    let priority = dec_string(rule.priority as u64);
    let table = dec_string(rule.table as u64);
    let summary = String::from_str("rule ")
        .concat(word)
        .concat(": priority ")
        .concat(priority.as_str())
        .concat(selector.as_str())
        .concat(" lookup ")
        .concat(table.as_str());
    let mut event = base_event(EventSeverity::Notice, summary);
    event.payload = Some(NetworkEventPayload::Rule(RuleEvent { added, rule: Some(rule) }));
    event
}

/// Whether an event follows from a rule message.
pub open spec fn rule_event_told(r: NetworkEvent, msg: RuleMessage, added: bool) -> bool {
    exists|rule: RoutingRule| #[trigger] rule_is(rule, msg) && announces_rule(r, rule, added)
}

/// The event of a rule message.
pub fn rule_event(msg: RuleMessage, added: bool) -> (r: NetworkEvent)
    ensures
        rule_event_told(r, msg, added),
{
    let rule = rule_to_proto(msg);
    let ghost told = rule;
    let event = announce_rule(rule, added);
    assert(rule_is(told, msg) && announces_rule(event, told, added));
    event
}

/// A neighbour in an event.
pub open spec fn neighbor_summary(
    address: Seq<char>,
    name: Seq<char>,
    state: NeighborState,
    added: bool,
) -> Seq<char> {
    if !added {
        "neighbour "@ + address + " removed on "@ + name
    } else if forwards(state) {
        "neighbour "@ + address + " reachable on "@ + name
    } else {
        "neighbour "@ + address + " is "@ + state.name_text() + " on "@ + name
    }
}

/// Whether a change of a neighbour is worth an event. Neighbour churn is by far
/// the noisiest group; only transitions that change whether the neighbour is
/// usable are.
pub open spec fn is_transition(previous: NeighborState, state: NeighborState, added: bool) -> bool {
    !added || forwards(previous) != forwards(state) || previous == NeighborState::Unspecified
}

/// Whether an event announces a neighbour.
pub open spec fn announces_neighbor(
    event: NetworkEvent,
    n: Neighbor,
    ip: IpAddr,
    previous: NeighborState,
    added: bool,
) -> bool {
    let name = if n.interface_name@.len() == 0 {
        numbered(n.interface_index)
    } else {
        n.interface_name@
    };
    &&& says(
        event,
        if added && !forwards(n.state) {
            EventSeverity::Warning
        } else {
            EventSeverity::Info
        },
        neighbor_summary(ip.text(), name, n.state, added),
    )
    &&& event.payload == Some(
        NetworkEventPayload::Neighbor(
            NeighborEvent { added, neighbor: Some(n), previous_state: previous, is_gateway: n.is_router },
        ),
    )
}

fn last_known_state(known: &Vec<KnownNeighbor>, index: u32, ip: &IpAddr) -> (r: NeighborState)
    ensures
        r == last_state(known@, index, *ip),
{
    let it = |n: &KnownNeighbor| -> (b: bool)
        ensures
            b == is_neighbor(index, *ip)(*n),
        { n.index == index && n.ip.same(ip) };
    match position_of(known, it, Ghost(is_neighbor(index, *ip))) {
        Some(i) => known[i].state,
        None => NeighborState::Unspecified,
    }
}

/// Whether an event, and the memory after it, follow from a neighbour message.
pub open spec fn neighbor_event_told(
    r: Option<NetworkEvent>,
    msg: NeighbourMessage,
    added: bool,
    before: StateCache,
    after: StateCache,
) -> bool {
    &&& after.if_names == before.if_names
    &&& after.if_mtu == before.if_mtu
    &&& after.addresses == before.addresses
    &&& match or(last_some(msg.attributes@, neighbour_address()), None) {
        None => r is None && after == before,
        Some(ip) => {
            let state = neighbour_state(msg.state);
            let previous = last_state(before.neighbor_states@, msg.ifindex, ip);
            &&& after.neighbor_states@ == neighbors_after(
                before.neighbor_states@,
                msg.ifindex,
                ip,
                state,
                added,
            )
            &&& r is Some <==> is_transition(previous, state, added)
            &&& r is Some ==> exists|n: Neighbor| #[trigger]
                neighbor_is(n, msg, before.if_names@) && announces_neighbor(
                    r->0,
                    n,
                    ip,
                    previous,
                    added,
                )
        },
    }
}

/// The event of a neighbour message, if it is a transition.
pub fn neighbor_event(msg: NeighbourMessage, added: bool, cache: &mut StateCache) -> (r: Option<
    NetworkEvent,
>)
    ensures
        neighbor_event_told(r, msg, added, *old(cache), *final(cache)),
{
    let ghost before = *cache;
    let ghost given = msg;
    let neighbor = neighbor_to_proto(msg, &cache.if_names);
    let ghost told = neighbor;
    let address = match &neighbor.address {
        Some(a) => a.to_ip(),
        None => None,
    };
    assert(address == address_ip(neighbor.address));
    let ip = match address {
        Some(ip) => ip,
        None => {
            return None;
        },
    };
    let index = neighbor.interface_index;
    let state = neighbor.state;
    let previous = last_known_state(&cache.neighbor_states, index, &ip);
    let mut known: Vec<KnownNeighbor> = Vec::new();
    std::mem::swap(&mut known, &mut cache.neighbor_states);
    let other = |n: &KnownNeighbor| -> (b: bool)
        ensures
            b == is_other_neighbor(index, ip)(*n),
        { n.index != index || !n.ip.same(&ip) };
    let mut rest = keep(known, other, Ghost(is_other_neighbor(index, ip)));
    if added {
        rest.push(KnownNeighbor { index, ip, state });
    }
    cache.neighbor_states = rest;
    let was_usable = is_usable(previous);
    let usable = is_usable(state);
    if added && was_usable == usable && previous != NeighborState::Unspecified {
        return None;
    }
    let text = ip.to_text();
    let name = if is_empty(neighbor.interface_name.as_str()) {
        numbered_name(index)
    } else {
        neighbor.interface_name.clone()
    };
    let summary = if !added {
        String::from_str("neighbour ")
            .concat(text.as_str())
            .concat(" removed on ")
            .concat(name.as_str())
    } else if usable {
        String::from_str("neighbour ")
            .concat(text.as_str())
            .concat(" reachable on ")
            .concat(name.as_str())
    } else {
        String::from_str("neighbour ")
            .concat(text.as_str())
            .concat(" is ")
            .concat(state.name())
            .concat(" on ")
            .concat(name.as_str())
    };
    let severity = if added && !usable {
        EventSeverity::Warning
    } else {
        EventSeverity::Info
    };
    let is_gateway = neighbor.is_router;
    let mut event = base_event(severity, summary);
    event.payload = Some(
        NetworkEventPayload::Neighbor(
            NeighborEvent { added, neighbor: Some(neighbor), previous_state: previous, is_gateway },
        ),
    );
    assert(neighbor_is(told, given, before.if_names@) && announces_neighbor(
        event,
        told,
        ip,
        previous,
        added,
    ));
    Some(event)
}

/// A message of the kernel's multicast groups.
pub enum KernelMessage {
    NewLink(LinkMessage),
    DelLink(LinkMessage),
    NewAddress(AddressMessage),
    DelAddress(AddressMessage),
    NewRoute(RouteMessage),
    DelRoute(RouteMessage),
    NewRule(RuleMessage),
    DelRule(RuleMessage),
    NewNeighbour(NeighbourMessage),
    DelNeighbour(NeighbourMessage),
}

/// Whether an event, and the memory after it, follow from a message.
pub open spec fn translated(
    r: Option<NetworkEvent>,
    message: KernelMessage,
    before: StateCache,
    after: StateCache,
) -> bool {
    match message {
        KernelMessage::NewLink(m) => r is Some && link_event_told(r->0, m, true, before, after),
        KernelMessage::DelLink(m) => r is Some && link_event_told(r->0, m, false, before, after),
        KernelMessage::NewAddress(m) => address_event_told(r, m, true, before, after),
        KernelMessage::DelAddress(m) => address_event_told(r, m, false, before, after),
        KernelMessage::NewRoute(m) => after == before && r is Some && route_event_told(
            r->0,
            m,
            true,
            before.if_names@,
        ),
        KernelMessage::DelRoute(m) => after == before && r is Some && route_event_told(
            r->0,
            m,
            false,
            before.if_names@,
        ),
        KernelMessage::NewRule(m) => after == before && r is Some && rule_event_told(r->0, m, true),
        KernelMessage::DelRule(m) => after == before && r is Some && rule_event_told(r->0, m, false),
        KernelMessage::NewNeighbour(m) => neighbor_event_told(r, m, true, before, after),
        KernelMessage::DelNeighbour(m) => neighbor_event_told(r, m, false, before, after),
    }
}

/// The event of a message, if it is worth one.
pub fn translate(message: KernelMessage, cache: &mut StateCache) -> (r: Option<NetworkEvent>)
    ensures
        translated(r, message, *old(cache), *final(cache)),
{
    match message {
        KernelMessage::NewLink(m) => Some(link_event(m, true, cache)),
        KernelMessage::DelLink(m) => Some(link_event(m, false, cache)),
        KernelMessage::NewAddress(m) => address_event(m, true, cache),
        KernelMessage::DelAddress(m) => address_event(m, false, cache),
        KernelMessage::NewRoute(m) => Some(route_event(m, true, cache)),
        KernelMessage::DelRoute(m) => Some(route_event(m, false, cache)),
        KernelMessage::NewRule(m) => Some(rule_event(m, true)),
        KernelMessage::DelRule(m) => Some(rule_event(m, false)),
        KernelMessage::NewNeighbour(m) => neighbor_event(m, true, cache),
        KernelMessage::DelNeighbour(m) => neighbor_event(m, false, cache),
    }
}

// ---- Subscriptions --------------------------------------------------------------

/// Whether a filter selects no class of events, which means all.
pub open spec fn selects_all(f: EventFilter) -> bool {
    !f.links && !f.addresses && !f.routes && !f.rules && !f.neighbors && !f.sockets
}

/// Whether a subscription gets an event. Events of the framework and of the
/// daemon are always delivered: they are low volume and they are what makes the
/// timeline cross-layer.
pub open spec fn wants(f: EventFilter, event: NetworkEvent) -> bool {
    event.severity.rank_of() >= f.min_severity && match event.payload {
        Some(NetworkEventPayload::Link(_)) => selects_all(f) || f.links,
        Some(NetworkEventPayload::Address(_)) => selects_all(f) || f.addresses,
        Some(NetworkEventPayload::Route(_)) => selects_all(f) || f.routes,
        Some(NetworkEventPayload::Rule(_)) => selects_all(f) || f.rules,
        Some(NetworkEventPayload::Neighbor(e)) => (selects_all(f) || f.neighbors) && !(
        f.exclude_neighbor_probe_noise && e.neighbor is Some && ((e.neighbor->0).state is Probe || (
        e.neighbor->0).state is Delay)),
        Some(NetworkEventPayload::Socket(e)) => (selects_all(f) || f.sockets) && (
        f.socket_uids@.len() == 0 || (e.socket is Some && f.socket_uids@.contains(
            (e.socket->0).uid,
        ))),
        _ => true,
    }
}

/// Does an event pass a subscription's filter?
pub fn matches_filter(event: &NetworkEvent, filter: &EventFilter) -> (r: bool)
    ensures
        r == wants(*filter, *event),
{
    if event.severity.rank() < filter.min_severity {
        return false;
    }
    let all = !filter.links && !filter.addresses && !filter.routes && !filter.rules
        && !filter.neighbors && !filter.sockets;
    match &event.payload {
        Some(NetworkEventPayload::Link(_)) => all || filter.links,
        Some(NetworkEventPayload::Address(_)) => all || filter.addresses,
        Some(NetworkEventPayload::Route(_)) => all || filter.routes,
        Some(NetworkEventPayload::Rule(_)) => all || filter.rules,
        Some(NetworkEventPayload::Neighbor(e)) => {
            if !(all || filter.neighbors) {
                return false;
            }
            if filter.exclude_neighbor_probe_noise {
                match &e.neighbor {
                    Some(n) => n.state != NeighborState::Probe && n.state != NeighborState::Delay,
                    None => true,
                }
            } else {
                true
            }
        },
        Some(NetworkEventPayload::Socket(e)) => {
            if !(all || filter.sockets) {
                return false;
            }
            if filter.socket_uids.len() == 0 {
                return true;
            }
            match &e.socket {
                Some(s) => contains_number(&filter.socket_uids, s.uid),
                None => false,
            }
        },
        _ => true,
    }
}

/// A filter that selects nothing lets every event through that is severe
/// enough, but for what it excludes by name.
pub proof fn law_empty_filter_accepts_everything(f: EventFilter, event: NetworkEvent)
    requires
        selects_all(f),
        f.min_severity <= 0,
        !f.exclude_neighbor_probe_noise,
        f.socket_uids@.len() == 0,
    ensures
        wants(f, event),
{
}

/// Events of the framework and of the daemon pass whatever classes are
/// selected.
pub proof fn law_cross_layer_events_always_pass(f: EventFilter, event: NetworkEvent)
    requires
        event.severity.rank_of() >= f.min_severity,
        event.payload is None || event.payload->0 is Framework || event.payload->0 is Daemon,
    ensures
        wants(f, event),
{
}

/// Nothing below the severity that a filter asks for passes it.
pub proof fn law_severity_is_a_floor(f: EventFilter, event: NetworkEvent)
    requires
        event.severity.rank_of() < f.min_severity,
    ensures
        !wants(f, event),
{
}

} // verus!
