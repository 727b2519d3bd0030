//! Neighbour table (ARP for IPv4, NDP for IPv6) from RTM_GETNEIGH.
//!
//! A default gateway sitting in FAILED or INCOMPLETE is one of the clearest
//! signals that the link is up but the next hop is gone.
use std::collections::HashMap;

use vstd::prelude::*;

use crate::collect::{name_in, name_or_empty};
use crate::ip::IpAddr;
use crate::proto::{address_ip, optional_bytes, IpAddress, IpFamily, Neighbor, NeighborState};
use crate::seqs::{
    find, in_order, last_some, law_sort_by, lemma_filter_end, lemma_filter_start, lemma_filter_step,
    lemma_find_step, or, sort_by, stable_sort,
};

verus! {

pub const AF_INET: u8 = 2;

pub const AF_INET6: u8 = 10;

/// Set on the entry of a router.
pub const NTF_ROUTER: u8 = 0x80;

/// One attribute of an RTM_NEWNEIGH message.
pub enum NeighbourAttribute {
    /// The neighbour's address, if it is an IP address.
    Destination(Option<IpAddr>),
    LinkLayerAddress(Vec<u8>),
    Probes(u32),
    /// Times in hundredths of a second.
    CacheInfo { confirmed: u32, used: u32, updated: u32 },
}

/// An RTM_NEWNEIGH message.
pub struct NeighbourMessage {
    pub family: u8,
    pub ifindex: u32,
    pub state: u16,
    pub flags: u8,
    pub attributes: Vec<NeighbourAttribute>,
}

/// The family with a number of the kernel.
pub open spec fn family_of(n: u8) -> IpFamily {
    if n == AF_INET {
        IpFamily::V4
    } else if n == AF_INET6 {
        IpFamily::V6
    } else {
        IpFamily::Unspecified
    }
}

pub(crate) fn family_to_proto(n: u8) -> (r: IpFamily)
    ensures
        r == family_of(n),
{
    if n == AF_INET {
        IpFamily::V4
    } else if n == AF_INET6 {
        IpFamily::V6
    } else {
        IpFamily::Unspecified
    }
}

/// The numbers of the families that a family stands for.
pub open spec fn families_meant(family: IpFamily) -> Seq<u8> {
    match family {
        IpFamily::V4 => seq![AF_INET],
        IpFamily::V6 => seq![AF_INET6],
        IpFamily::Unspecified => seq![AF_INET, AF_INET6],
    }
}

/// The families of the kernel that a request for a family asks about.
pub fn families_to_dump(family: IpFamily) -> (r: Vec<u8>)
    ensures
        r@ == families_meant(family),
{
    let mut r: Vec<u8> = Vec::new();
    if family != IpFamily::V6 {
        r.push(AF_INET);
    }
    if family != IpFamily::V4 {
        r.push(AF_INET6);
    }
    assert(r@ =~= match family {
        IpFamily::V4 => seq![AF_INET],
        IpFamily::V6 => seq![AF_INET6],
        IpFamily::Unspecified => seq![AF_INET, AF_INET6],
    });
    r
}

pub open spec fn neighbour_address() -> spec_fn(NeighbourAttribute) -> Option<Option<IpAddr>> {
    |a: NeighbourAttribute|
        match a {
            NeighbourAttribute::Destination(v) => Some(v),
            _ => None,
        }
}

pub open spec fn neighbour_mac() -> spec_fn(NeighbourAttribute) -> Option<Seq<u8>> {
    |a: NeighbourAttribute|
        match a {
            NeighbourAttribute::LinkLayerAddress(v) => Some(v@),
            _ => None,
        }
}

pub open spec fn neighbour_probes() -> spec_fn(NeighbourAttribute) -> Option<u32> {
    |a: NeighbourAttribute|
        match a {
            NeighbourAttribute::Probes(v) => Some(v),
            _ => None,
        }
}

pub open spec fn neighbour_times() -> spec_fn(NeighbourAttribute) -> Option<(u32, u32, u32)> {
    |a: NeighbourAttribute|
        match a {
            NeighbourAttribute::CacheInfo { confirmed, used, updated } => Some((confirmed, used, updated)),
            _ => None,
        }
}

/// A time of the kernel in milliseconds, or the largest number there is.
pub open spec fn to_ms(hundredths: u32) -> int {
    if hundredths * 10 > u32::MAX {
        u32::MAX as int
    } else {
        hundredths * 10
    }
}

fn ms(hundredths: u32) -> (r: u32)
    ensures
        r == to_ms(hundredths),
{
    if hundredths > u32::MAX / 10 {
        u32::MAX
    } else {
        hundredths * 10
    }
}

/// Whether the neighbour holds what the attributes say: of each kind the last
/// one counts.
pub open spec fn neighbour_told(n: Neighbor, attrs: Seq<NeighbourAttribute>) -> bool {
    let times = or(last_some(attrs, neighbour_times()), (0u32, 0u32, 0u32));
    &&& optional_bytes(n.address) == match or(last_some(attrs, neighbour_address()), None) {
        Some(ip) => Some(ip.octets()),
        None => None,
    }
    &&& address_ip(n.address) == or(last_some(attrs, neighbour_address()), None)
    &&& n.link_address@ == or(last_some(attrs, neighbour_mac()), Seq::empty())
    &&& n.probes == or(last_some(attrs, neighbour_probes()), 0)
    &&& n.confirmed_ms == to_ms(times.0)
    &&& n.used_ms == to_ms(times.1)
    &&& n.updated_ms == to_ms(times.2)
}

/// Whether a neighbour holds what a message says.
pub open spec fn neighbor_is(r: Neighbor, msg: NeighbourMessage, names: Map<u32, String>) -> bool {
    &&& r.family == family_of(msg.family)
    &&& r.interface_index == msg.ifindex
    &&& r.interface_name@ == name_in(names, msg.ifindex)
    &&& r.state == neighbour_state(msg.state)
    &&& r.is_router == (msg.flags & NTF_ROUTER != 0)
    &&& r.flags == msg.flags
    &&& neighbour_told(r, msg.attributes@)
}

/// An RTM_NEWNEIGH message as a neighbour.
pub fn neighbor_to_proto(msg: NeighbourMessage, if_names: &HashMap<u32, String>) -> (r: Neighbor)
    ensures
        neighbor_is(r, msg, if_names@),
{
    let ghost attrs = msg.attributes@;
    let mut n = Neighbor {
        family: family_to_proto(msg.family),
        interface_index: msg.ifindex,
        interface_name: name_or_empty(if_names, msg.ifindex),
        address: None,
        link_address: Vec::new(),
        state: neighbour_state_to_proto(msg.state),
        is_router: msg.flags & NTF_ROUTER != 0,
        flags: msg.flags as u32,
        probes: 0,
        confirmed_ms: 0,
        used_ms: 0,
        updated_ms: 0,
    };
    let ghost start = n;
    assert(attrs.take(0) =~= Seq::empty());
    for attr in it: msg.attributes
        invariant
            it.seq() == attrs,
            neighbour_told(n, attrs.take(it.index())),
            n.family == start.family,
            n.interface_index == start.interface_index,
            n.interface_name == start.interface_name,
            n.state == start.state,
            n.is_router == start.is_router,
            n.flags == start.flags,
    {
        let ghost i = it.index();
        assert(attrs.take(i + 1).drop_last() =~= attrs.take(i));
        assert(attrs.take(i + 1).last() == attr);
        match attr {
            NeighbourAttribute::Destination(ip) => {
                n.address = match ip {
                    Some(ip) => Some(IpAddress::from_ip(ip)),
                    None => None,
                };
            },
            NeighbourAttribute::LinkLayerAddress(mac) => n.link_address = mac,
            NeighbourAttribute::Probes(p) => n.probes = p,
            NeighbourAttribute::CacheInfo { confirmed, used, updated } => {
                n.confirmed_ms = ms(confirmed);
                n.used_ms = ms(used);
                n.updated_ms = ms(updated);
            },
        }
    }
    assert(attrs.take(attrs.len() as int) =~= attrs);
    n
}

/// The neighbour state with a number of the kernel (NUD_*).
pub open spec fn neighbour_state(n: u16) -> NeighborState {
    match n {
        0x01 => NeighborState::Incomplete,
        0x02 => NeighborState::Reachable,
        0x04 => NeighborState::Stale,
        0x08 => NeighborState::Delay,
        0x10 => NeighborState::Probe,
        0x20 => NeighborState::Failed,
        0x40 => NeighborState::Noarp,
        0x80 => NeighborState::Permanent,
        0 => NeighborState::NoEntry,
        _ => NeighborState::Unspecified,
    }
}

pub fn neighbour_state_to_proto(n: u16) -> (r: NeighborState)
    ensures
        r == neighbour_state(n),
{
    match n {
        0x01 => NeighborState::Incomplete,
        0x02 => NeighborState::Reachable,
        0x04 => NeighborState::Stale,
        0x08 => NeighborState::Delay,
        0x10 => NeighborState::Probe,
        0x20 => NeighborState::Failed,
        0x40 => NeighborState::Noarp,
        0x80 => NeighborState::Permanent,
        0 => NeighborState::NoEntry,
        _ => NeighborState::Unspecified,
    }
}

/// Whether packets can be sent to a neighbour in this state.
pub open spec fn forwards(state: NeighborState) -> bool {
    state is Reachable || state is Stale || state is Delay || state is Probe || state is Permanent
        || state is Noarp
}

/// Is this neighbour entry usable for forwarding right now? STALE counts: the
/// kernel will revalidate it on first use without dropping traffic.
pub fn is_usable(state: NeighborState) -> (r: bool)
    ensures
        r == forwards(state),
{
    match state {
        NeighborState::Reachable
        | NeighborState::Stale
        | NeighborState::Delay
        | NeighborState::Probe
        | NeighborState::Permanent
        | NeighborState::Noarp => true,
        _ => false,
    }
}

/// Whether an entry is about an address, on an interface or (zero) on any.
pub open spec fn is_entry_for(gateway: IpAddr, index: u32) -> spec_fn(Neighbor) -> bool {
    |n: Neighbor|
        address_ip(n.address) == Some(gateway) && (index == 0 || n.interface_index == index)
}

/// Find the neighbour entry for a gateway address, if the kernel has one.
pub fn find_gateway(neighbors: &Vec<Neighbor>, gateway: IpAddr, interface_index: u32) -> (r: Option<
    &Neighbor,
>)
    ensures
        match r {
            Some(n) => find(neighbors@, is_entry_for(gateway, interface_index)) == Some(*n),
            None => find(neighbors@, is_entry_for(gateway, interface_index)) is None,
        },
{
    let ghost p = is_entry_for(gateway, interface_index);
    let mut i: usize = 0;
    assert(neighbors@.skip(0) =~= neighbors@);
    while i < neighbors.len()
        invariant
            i <= neighbors.len(),
            p == is_entry_for(gateway, interface_index),
            find(neighbors@, p) == find(neighbors@.skip(i as int), p),
        decreases neighbors.len() - i,
    {
        proof {
            lemma_find_step(neighbors@, p, i as int);
        }
        let n = &neighbors[i];
        let is_it = match &n.address {
            Some(a) => match a.to_ip() {
                Some(ip) => ip.same(&gateway),
                None => false,
            },
            None => false,
        };
        if is_it && (interface_index == 0 || n.interface_index == interface_index) {
            return Some(n);
        }
        i += 1;
    }
    None
}

/// Whether a request for neighbours asks for an entry.
pub open spec fn neighbor_wanted(index: u32, only_routers: bool) -> spec_fn(Neighbor) -> bool {
    |n: Neighbor| (index == 0 || n.interface_index == index) && (!only_routers || n.is_router)
}

/// Whether bytes come before others in the lexicographic order.
pub open spec fn bytes_before(a: Seq<u8>, b: Seq<u8>) -> bool
    decreases a.len(),
{
    if b.len() == 0 {
        false
    } else if a.len() == 0 {
        true
    } else if a[0] == b[0] {
        bytes_before(a.skip(1), b.skip(1))
    } else {
        a[0] < b[0]
    }
}

fn bytes_precede(a: &Vec<u8>, b: &Vec<u8>) -> (r: bool)
    ensures
        r == bytes_before(a@, b@),
{
    let mut i: usize = 0;
    assert(a@.skip(0) =~= a@);
    assert(b@.skip(0) =~= b@);
    loop
        invariant
            i <= a.len(),
            i <= b.len(),
            bytes_before(a@, b@) == bytes_before(a@.skip(i as int), b@.skip(i as int)),
        decreases a.len() - i,
    {
        if i == b.len() {
            return false;
        }
        if i == a.len() {
            return true;
        }
        if a[i] != b[i] {
            return a[i] < b[i];
        }
        assert(a@.skip(i as int).skip(1) =~= a@.skip(i + 1));
        assert(b@.skip(i as int).skip(1) =~= b@.skip(i + 1));
        i += 1;
    }
}

/// The order of neighbours: by interface, then by the bytes of the address,
/// and an entry without one first.
pub open spec fn neighbor_before() -> spec_fn(Neighbor, Neighbor) -> bool {
    |a: Neighbor, b: Neighbor|
        if a.interface_index != b.interface_index {
            a.interface_index < b.interface_index
        } else {
            match (a.address, b.address) {
                (_, None) => false,
                (None, Some(_)) => true,
                (Some(x), Some(y)) => bytes_before(x.addr@, y.addr@),
            }
        }
}

fn neighbor_precedes(a: &Neighbor, b: &Neighbor) -> (r: bool)
    ensures
        r == neighbor_before()(*a, *b),
{
    if a.interface_index != b.interface_index {
        return a.interface_index < b.interface_index;
    }
    match (&a.address, &b.address) {
        (_, None) => false,
        (None, Some(_)) => true,
        (Some(x), Some(y)) => bytes_precede(&x.addr, &y.addr),
    }
}

/// The neighbours that a request asks for, of all that the kernel has. Zero
/// asks for every interface.
pub fn get_neighbors(all: Vec<Neighbor>, interface_index: u32, only_routers: bool) -> (r: Vec<
    Neighbor,
>)
    ensures
        r@ == sort_by(all@.filter(neighbor_wanted(interface_index, only_routers)), neighbor_before()),
{
    let ghost p = neighbor_wanted(interface_index, only_routers);
    let ghost s = all@;
    let mut kept: Vec<Neighbor> = Vec::new();
    proof {
        lemma_filter_start(s, p);
    }
    for n in it: all
        invariant
            it.seq() == s,
            p == neighbor_wanted(interface_index, only_routers),
            kept@ == s.take(it.index()).filter(p),
    {
        proof {
            lemma_filter_step(s, p, it.index());
        }
        if (interface_index == 0 || n.interface_index == interface_index) && (!only_routers
            || n.is_router) {
            kept.push(n);
        }
    }
    proof {
        lemma_filter_end(s, p);
    }
    stable_sort(kept, neighbor_precedes, Ghost(neighbor_before()))
}

proof fn lemma_bytes_order(a: Seq<u8>, b: Seq<u8>, c: Seq<u8>)
    ensures
        bytes_before(a, b) ==> !bytes_before(b, a),
        !bytes_before(a, b) && !bytes_before(b, c) ==> !bytes_before(a, c),
    decreases a.len() + b.len() + c.len(),
{
    if a.len() > 0 && b.len() > 0 && c.len() > 0 {
        lemma_bytes_order(a.skip(1), b.skip(1), c.skip(1));
    } else if a.len() > 0 && b.len() > 0 {
        lemma_bytes_order(a.skip(1), b.skip(1), c);
    }
}

/// Listed neighbours are all the neighbours asked for, by interface and then by
/// address.
pub proof fn law_neighbors_in_order(neighbors: Seq<Neighbor>)
    ensures
        in_order(sort_by(neighbors, neighbor_before()), neighbor_before()),
        sort_by(neighbors, neighbor_before()).to_multiset() == neighbors.to_multiset(),
{
    let p = neighbor_before();
    assert forall|a: Neighbor, b: Neighbor| #![trigger p(a, b)] p(a, b) implies !p(b, a) by {
        if let (Some(x), Some(y)) = (a.address, b.address) {
            lemma_bytes_order(x.addr@, y.addr@, x.addr@);
        }
    }
    assert forall|a: Neighbor, b: Neighbor, c: Neighbor|
        #![trigger p(a, b), p(b, c)]
        !p(a, b) && !p(b, c) implies !p(a, c) by {
        if let (Some(x), Some(y), Some(z)) = (a.address, b.address, c.address) {
            lemma_bytes_order(x.addr@, y.addr@, z.addr@);
        }
    }
    law_sort_by(neighbors, p);
}

} // verus!
