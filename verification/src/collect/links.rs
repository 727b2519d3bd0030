//! Interfaces and addresses, from what RTM_GETLINK and RTM_GETADDR report.
use vstd::prelude::*;

use crate::ip::IpAddr;
use crate::proto::{
    optional_bytes, AddressFlags, AddressScope, Interface, InterfaceSysctls, IpAddress, IpFamily,
    IpPrefix, LinkAddress, LinkFlags, LinkKind, LinkStats, OperState,
};
use crate::seqs::{any, last_some, or};
use crate::text::{lowercase, same, starts_with, text_starts_with, to_lowercase};
use crate::util::{content_of, first_number, read_i32};

verus! {

// ---- The kernel's messages ----------------------------------------------------

pub const IFF_UP: u32 = 0x1;

pub const IFF_BROADCAST: u32 = 0x2;

pub const IFF_LOOPBACK: u32 = 0x8;

pub const IFF_POINTOPOINT: u32 = 0x10;

pub const IFF_RUNNING: u32 = 0x40;

pub const IFF_NOARP: u32 = 0x80;

pub const IFF_PROMISC: u32 = 0x100;

pub const IFF_MULTICAST: u32 = 0x1000;

pub const IFF_LOWER_UP: u32 = 0x1_0000;

pub const IFF_DORMANT: u32 = 0x2_0000;

pub const ARPHRD_ETHER: u16 = 1;

pub const ARPHRD_RAWIP: u16 = 519;

pub const ARPHRD_LOOPBACK: u16 = 772;

pub const ARPHRD_IEEE80211: u16 = 801;

pub const ARPHRD_NONE: u16 = 0xfffe;

/// The kind of a virtual link: one that the netlink library knows, by the name
/// that it gives it, or the kernel's own word.
pub enum InfoKind {
    Known(String),
    Other(String),
}

/// One attribute of an RTM_NEWLINK message.
pub enum LinkAttribute {
    IfName(String),
    IfAlias(String),
    Mtu(u32),
    Address(Vec<u8>),
    Broadcast(Vec<u8>),
    TxQueueLen(u32),
    Qdisc(String),
    Link(u32),
    Controller(u32),
    Group(u32),
    LinkNetNsId(i32),
    /// The number of an operational state.
    OperState(u8),
    /// How many attributes an XDP attribute holds.
    Xdp(usize),
    /// The kinds in a link info attribute.
    LinkInfo(Vec<InfoKind>),
    Stats64(LinkStats),
}

/// An RTM_NEWLINK message.
pub struct LinkMessage {
    pub index: u32,
    pub flags: u32,
    pub link_layer_type: u16,
    pub attributes: Vec<LinkAttribute>,
}

/// One attribute of an RTM_NEWADDR message.
pub enum AddressAttribute {
    Address(IpAddr),
    Local(IpAddr),
    Label(String),
    Broadcast([u8; 4]),
    Flags(u32),
    CacheInfo { valid: u32, preferred: u32 },
}

/// An RTM_NEWADDR message.
pub struct AddressMessage {
    pub index: u32,
    pub flags: u8,
    pub scope: u8,
    pub prefix_len: u8,
    pub attributes: Vec<AddressAttribute>,
}

// ---- Links ------------------------------------------------------------------

pub open spec fn if_name() -> spec_fn(LinkAttribute) -> Option<Seq<char>> {
    |a: LinkAttribute|
        match a {
            LinkAttribute::IfName(v) => Some(v@),
            _ => None,
        }
}

pub open spec fn if_alias() -> spec_fn(LinkAttribute) -> Option<Seq<char>> {
    |a: LinkAttribute|
        match a {
            LinkAttribute::IfAlias(v) => Some(v@),
            _ => None,
        }
}

pub open spec fn link_mtu() -> spec_fn(LinkAttribute) -> Option<u32> {
    |a: LinkAttribute|
        match a {
            LinkAttribute::Mtu(v) => Some(v),
            _ => None,
        }
}

pub open spec fn link_mac() -> spec_fn(LinkAttribute) -> Option<Seq<u8>> {
    |a: LinkAttribute|
        match a {
            LinkAttribute::Address(v) => Some(v@),
            _ => None,
        }
}

pub open spec fn link_broadcast() -> spec_fn(LinkAttribute) -> Option<Seq<u8>> {
    |a: LinkAttribute|
        match a {
            LinkAttribute::Broadcast(v) => Some(v@),
            _ => None,
        }
}

pub open spec fn tx_queue_len() -> spec_fn(LinkAttribute) -> Option<u32> {
    |a: LinkAttribute|
        match a {
            LinkAttribute::TxQueueLen(v) => Some(v),
            _ => None,
        }
}

pub open spec fn link_qdisc() -> spec_fn(LinkAttribute) -> Option<Seq<char>> {
    |a: LinkAttribute|
        match a {
            LinkAttribute::Qdisc(v) => Some(v@),
            _ => None,
        }
}

pub open spec fn lower_link() -> spec_fn(LinkAttribute) -> Option<u32> {
    |a: LinkAttribute|
        match a {
            LinkAttribute::Link(v) => Some(v),
            _ => None,
        }
}

pub open spec fn link_master() -> spec_fn(LinkAttribute) -> Option<u32> {
    |a: LinkAttribute|
        match a {
            LinkAttribute::Controller(v) => Some(v),
            _ => None,
        }
}

pub open spec fn link_group() -> spec_fn(LinkAttribute) -> Option<u32> {
    |a: LinkAttribute|
        match a {
            LinkAttribute::Group(v) => Some(v),
            _ => None,
        }
}

pub open spec fn link_netns() -> spec_fn(LinkAttribute) -> Option<i32> {
    |a: LinkAttribute|
        match a {
            LinkAttribute::LinkNetNsId(v) => Some(v),
            _ => None,
        }
}

pub open spec fn link_oper_state() -> spec_fn(LinkAttribute) -> Option<OperState> {
    |a: LinkAttribute|
        match a {
            LinkAttribute::OperState(v) => Some(oper_state(v)),
            _ => None,
        }
}

pub open spec fn link_xdp() -> spec_fn(LinkAttribute) -> Option<bool> {
    |a: LinkAttribute|
        match a {
            LinkAttribute::Xdp(n) => Some(n != 0),
            _ => None,
        }
}

pub open spec fn kind_name() -> spec_fn(InfoKind) -> Option<Seq<char>> {
    |k: InfoKind| Some(kind_text(k))
}

pub open spec fn link_kind() -> spec_fn(LinkAttribute) -> Option<Seq<char>> {
    |a: LinkAttribute|
        match a {
            LinkAttribute::LinkInfo(kinds) => last_some(kinds@, kind_name()),
            _ => None,
        }
}

pub open spec fn link_stats(wanted: bool) -> spec_fn(LinkAttribute) -> Option<LinkStats> {
    |a: LinkAttribute|
        match a {
            LinkAttribute::Stats64(v) if wanted => Some(v),
            _ => None,
        }
}

/// Whether the interface holds what the attributes say: of each kind the last
/// one counts.
pub open spec fn attributes_told(i: Interface, attrs: Seq<LinkAttribute>, stats: bool) -> bool {
    &&& i.name@ == or(last_some(attrs, if_name()), Seq::empty())
    &&& i.alias@ == or(last_some(attrs, if_alias()), Seq::empty())
    &&& i.mtu == or(last_some(attrs, link_mtu()), 0)
    &&& i.mac_address@ == or(last_some(attrs, link_mac()), Seq::empty())
    &&& i.broadcast_address@ == or(last_some(attrs, link_broadcast()), Seq::empty())
    &&& i.tx_queue_len == or(last_some(attrs, tx_queue_len()), 0)
    &&& i.qdisc@ == or(last_some(attrs, link_qdisc()), Seq::empty())
    &&& i.link_index == or(last_some(attrs, lower_link()), 0)
    &&& i.master_index == or(last_some(attrs, link_master()), 0)
    &&& i.group == or(last_some(attrs, link_group()), 0)
    &&& i.netns_id == or(last_some(attrs, link_netns()), -1i32)
    &&& i.oper_state == or(last_some(attrs, link_oper_state()), OperState::Unspecified)
    &&& i.has_xdp == or(last_some(attrs, link_xdp()), false)
    &&& i.stats == last_some(attrs, link_stats(stats))
}

/// An RTM_NEWLINK message as an interface, without addresses and settings.
pub fn link_to_proto(msg: LinkMessage, include_stats: bool) -> (r: Interface)
    ensures
        r.index == msg.index,
        r.flags == Some(flags_told(msg.flags)),
        attributes_told(r, msg.attributes@, include_stats),
        r.link_type@ == or(last_some(msg.attributes@, link_kind()), Seq::empty()),
        r.kind == kind_of_link(
            r.name@,
            msg.link_layer_type,
            last_some(msg.attributes@, link_kind()),
            msg.flags,
        ),
        r.addresses@.len() == 0,
        r.sysctls is None,
{
    let index = msg.index;
    let flags = msg.flags;
    let layer = msg.link_layer_type;
    let ghost attrs = msg.attributes@;
    let mut iface = Interface {
        index,
        name: String::new(),
        alias: String::new(),
        mtu: 0,
        mac_address: Vec::new(),
        broadcast_address: Vec::new(),
        tx_queue_len: 0,
        qdisc: String::new(),
        link_index: 0,
        master_index: 0,
        group: 0,
        netns_id: -1,
        oper_state: OperState::Unspecified,
        has_xdp: false,
        link_type: String::new(),
        kind: LinkKind::Unspecified,
        flags: Some(link_flags_to_proto(flags)),
        stats: None,
        addresses: Vec::new(),
        sysctls: None,
    };
    let mut info_kind: Option<String> = None;
    assert(attrs.take(0) =~= Seq::empty());
    for attr in it: msg.attributes
        invariant
            it.seq() == attrs,
            attributes_told(iface, attrs.take(it.index()), include_stats),
            content_of(info_kind) == last_some(attrs.take(it.index()), link_kind()),
            iface.index == index,
            iface.flags == Some(flags_told(flags)),
            iface.addresses@.len() == 0,
            iface.sysctls is None,
    {
        let ghost i = it.index();
        assert(attrs.take(i + 1).drop_last() =~= attrs.take(i));
        assert(attrs.take(i + 1).last() == attr);
        match attr {
            LinkAttribute::IfName(v) => iface.name = v,
            LinkAttribute::IfAlias(v) => iface.alias = v,
            LinkAttribute::Mtu(v) => iface.mtu = v,
            LinkAttribute::Address(v) => iface.mac_address = v,
            LinkAttribute::Broadcast(v) => iface.broadcast_address = v,
            LinkAttribute::TxQueueLen(v) => iface.tx_queue_len = v,
            LinkAttribute::Qdisc(v) => iface.qdisc = v,
            LinkAttribute::Link(v) => iface.link_index = v,
            LinkAttribute::Controller(v) => iface.master_index = v,
            LinkAttribute::Group(v) => iface.group = v,
            LinkAttribute::LinkNetNsId(v) => iface.netns_id = v,
            LinkAttribute::OperState(v) => iface.oper_state = oper_state_to_proto(v),
            LinkAttribute::Xdp(n) => iface.has_xdp = n != 0,
            LinkAttribute::LinkInfo(kinds) => {
                let n = kinds.len();
                if n > 0 {
                    info_kind = Some(info_kind_name(&kinds[n - 1]));
                }
            },
            LinkAttribute::Stats64(v) => {
                if include_stats {
                    iface.stats = Some(v);
                }
            },
        }
    }
    assert(attrs.take(attrs.len() as int) =~= attrs);
    let kind = match &info_kind {
        Some(k) => classify_link(iface.name.as_str(), layer, Some(k.as_str()), flags),
        None => classify_link(iface.name.as_str(), layer, None, flags),
    };
    iface.kind = kind;
    iface.link_type = match info_kind {
        Some(k) => k,
        None => String::new(),
    };
    iface
}

/// How the kind of a virtual link is written.
pub open spec fn kind_text(kind: InfoKind) -> Seq<char> {
    match kind {
        InfoKind::Known(name) => lowercase(name@),
        InfoKind::Other(word) => word@,
    }
}

pub fn info_kind_name(kind: &InfoKind) -> (r: String)
    ensures
        r@ == kind_text(*kind),
{
    match kind {
        InfoKind::Known(name) => to_lowercase(name.as_str()),
        InfoKind::Other(word) => word.clone(),
    }
}

/// Whether the kernel's word for a link names a tunnel.
pub open spec fn is_tunnel_kind(k: Seq<char>) -> bool {
    k == "tun"@ || k == "wireguard"@ || k == "ppp"@ || k == "ipip"@ || k == "ip6tnl"@
}

/// Whether an interface is named as modems name theirs.
pub open spec fn is_modem_name(name: Seq<char>) -> bool {
    starts_with(name, "rmnet"@) || starts_with(name, "ccmni"@) || starts_with(name, "pdp"@)
        || starts_with(name, "seth"@) || starts_with(name, "wwan"@)
}

/// What an interface is used for. The first that holds counts: loopback,
/// 464XLAT by its name, the kernel's word for the link, the naming conventions
/// of the platform, and plain Ethernet.
pub open spec fn kind_of_link(
    name: Seq<char>,
    layer: u16,
    info_kind: Option<Seq<char>>,
    flags: u32,
) -> LinkKind {
    if flags & IFF_LOOPBACK != 0 || layer == ARPHRD_LOOPBACK {
        LinkKind::Loopback
    } else if starts_with(name, "v4-"@) {
        LinkKind::Clat
    } else if info_kind is Some && is_tunnel_kind(info_kind->0) {
        LinkKind::VpnTun
    } else if info_kind == Some("bridge"@) {
        LinkKind::Bridge
    } else if info_kind == Some("dummy"@) {
        LinkKind::Dummy
    } else if layer == ARPHRD_IEEE80211 || starts_with(name, "wlan"@) || starts_with(name, "ap_"@) {
        LinkKind::Wifi
    } else if is_modem_name(name) || layer == ARPHRD_RAWIP {
        LinkKind::Cellular
    } else if starts_with(name, "tun"@) || starts_with(name, "tap"@) || starts_with(
        name,
        "ppp"@,
    ) {
        LinkKind::VpnTun
    } else if starts_with(name, "bt-"@) || starts_with(name, "bnep"@) {
        LinkKind::Bluetooth
    } else if layer == ARPHRD_ETHER {
        LinkKind::Ethernet
    } else {
        LinkKind::Other
    }
}

/// Android does not label interfaces, so the kind is inferred from the ARPHRD
/// type, the kernel's link kind, and the naming conventions the platform has
/// used consistently for years.
pub fn classify_link(name: &str, layer: u16, info_kind: Option<&str>, flags: u32) -> (r: LinkKind)
    ensures
        r == kind_of_link(
            name@,
            layer,
            match info_kind {
                Some(k) => Some(k@),
                None => None,
            },
            flags,
        ),
{
    if flags & IFF_LOOPBACK != 0 || layer == ARPHRD_LOOPBACK {
        return LinkKind::Loopback;
    }
    // A v4-<iface> device is clatd's 464XLAT translation interface. It is a
    // tun device too, but means something much more specific.
    if text_starts_with(name, "v4-") {
        return LinkKind::Clat;
    }
    if let Some(k) = info_kind {
        if same(k, "tun") || same(k, "wireguard") || same(k, "ppp") || same(k, "ipip") || same(
            k,
            "ip6tnl",
        ) {
            return LinkKind::VpnTun;
        }
        if same(k, "bridge") {
            return LinkKind::Bridge;
        }
        if same(k, "dummy") {
            return LinkKind::Dummy;
        }
    }
    if layer == ARPHRD_IEEE80211 || text_starts_with(name, "wlan") || text_starts_with(
        name,
        "ap_",
    ) {
        return LinkKind::Wifi;
    }
    // rmnet_data*/rmnet*/ccmni*/pdp* are the cellular data interfaces on
    // Qualcomm, MediaTek and Exynos modems respectively.
    if text_starts_with(name, "rmnet") || text_starts_with(name, "ccmni") || text_starts_with(
        name,
        "pdp",
    ) || text_starts_with(name, "seth") || text_starts_with(name, "wwan") || layer
        == ARPHRD_RAWIP {
        return LinkKind::Cellular;
    }
    if text_starts_with(name, "tun") || text_starts_with(name, "tap") || text_starts_with(
        name,
        "ppp",
    ) {
        return LinkKind::VpnTun;
    }
    if text_starts_with(name, "bt-") || text_starts_with(name, "bnep") {
        return LinkKind::Bluetooth;
    }
    if layer == ARPHRD_ETHER {
        return LinkKind::Ethernet;
    }
    LinkKind::Other
}

/// The flags of an interface, each by its bit.
pub open spec fn flags_told(flags: u32) -> LinkFlags {
    LinkFlags {
        up: flags & IFF_UP != 0,
        running: flags & IFF_RUNNING != 0,
        loopback: flags & IFF_LOOPBACK != 0,
        point_to_point: flags & IFF_POINTOPOINT != 0,
        broadcast: flags & IFF_BROADCAST != 0,
        multicast: flags & IFF_MULTICAST != 0,
        no_arp: flags & IFF_NOARP != 0,
        promisc: flags & IFF_PROMISC != 0,
        lower_up: flags & IFF_LOWER_UP != 0,
        dormant: flags & IFF_DORMANT != 0,
        raw: flags,
    }
}

pub fn link_flags_to_proto(flags: u32) -> (r: LinkFlags)
    ensures
        r == flags_told(flags),
{
    LinkFlags {
        up: flags & IFF_UP != 0,
        running: flags & IFF_RUNNING != 0,
        loopback: flags & IFF_LOOPBACK != 0,
        point_to_point: flags & IFF_POINTOPOINT != 0,
        broadcast: flags & IFF_BROADCAST != 0,
        multicast: flags & IFF_MULTICAST != 0,
        no_arp: flags & IFF_NOARP != 0,
        promisc: flags & IFF_PROMISC != 0,
        lower_up: flags & IFF_LOWER_UP != 0,
        dormant: flags & IFF_DORMANT != 0,
        raw: flags,
    }
}

/// The operational state with a number of the kernel (IF_OPER_*).
pub open spec fn oper_state(n: u8) -> OperState {
    match n {
        0 => OperState::Unknown,
        1 => OperState::NotPresent,
        2 => OperState::Down,
        3 => OperState::LowerLayerDown,
        4 => OperState::Testing,
        5 => OperState::Dormant,
        6 => OperState::Up,
        _ => OperState::Unspecified,
    }
}

pub fn oper_state_to_proto(n: u8) -> (r: OperState)
    ensures
        r == oper_state(n),
{
    match n {
        0 => OperState::Unknown,
        1 => OperState::NotPresent,
        2 => OperState::Down,
        3 => OperState::LowerLayerDown,
        4 => OperState::Testing,
        5 => OperState::Dormant,
        6 => OperState::Up,
        _ => OperState::Unspecified,
    }
}

// ---- Addresses --------------------------------------------------------------

pub const IFA_F_SECONDARY: u32 = 0x1;

pub const IFA_F_OPTIMISTIC: u32 = 0x4;

pub const IFA_F_DADFAILED: u32 = 0x8;

pub const IFA_F_HOMEADDRESS: u32 = 0x10;

pub const IFA_F_DEPRECATED: u32 = 0x20;

pub const IFA_F_TENTATIVE: u32 = 0x40;

pub const IFA_F_PERMANENT: u32 = 0x80;

pub const IFA_F_MANAGETEMPADDR: u32 = 0x100;

pub const IFA_F_NOPREFIXROUTE: u32 = 0x200;

pub const IFA_F_STABLE_PRIVACY: u32 = 0x800;

pub open spec fn peer_address() -> spec_fn(AddressAttribute) -> Option<IpAddr> {
    |a: AddressAttribute|
        match a {
            AddressAttribute::Address(v) => Some(v),
            _ => None,
        }
}

pub open spec fn own_address() -> spec_fn(AddressAttribute) -> Option<IpAddr> {
    |a: AddressAttribute|
        match a {
            AddressAttribute::Local(v) => Some(v),
            _ => None,
        }
}

pub open spec fn address_label() -> spec_fn(AddressAttribute) -> Option<Seq<char>> {
    |a: AddressAttribute|
        match a {
            AddressAttribute::Label(v) => Some(v@),
            _ => None,
        }
}

pub open spec fn address_broadcast() -> spec_fn(AddressAttribute) -> Option<Seq<u8>> {
    |a: AddressAttribute|
        match a {
            AddressAttribute::Broadcast(v) => Some(v@),
            _ => None,
        }
}

pub open spec fn address_flags() -> spec_fn(AddressAttribute) -> Option<u32> {
    |a: AddressAttribute|
        match a {
            AddressAttribute::Flags(v) => Some(v),
            _ => None,
        }
}

pub open spec fn address_lifetimes() -> spec_fn(AddressAttribute) -> Option<(u32, u32)> {
    |a: AddressAttribute|
        match a {
            AddressAttribute::CacheInfo { valid, preferred } => Some((valid, preferred)),
            _ => None,
        }
}

/// The flags of an address, each by its bit.
pub open spec fn address_flags_told(flags: u32) -> AddressFlags {
    AddressFlags {
        permanent: flags & IFA_F_PERMANENT != 0,
        temporary: flags & IFA_F_SECONDARY != 0,
        deprecated: flags & IFA_F_DEPRECATED != 0,
        tentative: flags & IFA_F_TENTATIVE != 0,
        dadfailed: flags & IFA_F_DADFAILED != 0,
        managed_temp: flags & IFA_F_MANAGETEMPADDR != 0,
        no_prefix_route: flags & IFA_F_NOPREFIXROUTE != 0,
        optimistic: flags & IFA_F_OPTIMISTIC != 0,
        home: flags & IFA_F_HOMEADDRESS != 0,
        stable_privacy: flags & IFA_F_STABLE_PRIVACY != 0,
        raw: flags,
    }
}

/// The address that a message is about. On point-to-point links IFA_LOCAL is
/// the address of this end and IFA_ADDRESS is the peer's; everywhere else they
/// are the same.
pub open spec fn address_in(attrs: Seq<AddressAttribute>) -> Option<IpAddr> {
    match last_some(attrs, own_address()) {
        Some(ip) => Some(ip),
        None => last_some(attrs, peer_address()),
    }
}

/// Whether an address holds what a message says.
pub open spec fn address_told(a: LinkAddress, msg: AddressMessage) -> bool {
    let attrs = msg.attributes@;
    let flags = or(last_some(attrs, address_flags()), msg.flags as u32);
    let lifetimes = or(last_some(attrs, address_lifetimes()), (0u32, 0u32));
    &&& a.prefix is Some
    &&& (a.prefix->0).ip_of() == address_in(attrs)
    &&& (a.prefix->0).prefix_len == msg.prefix_len
    &&& a.scope == address_scope(msg.scope)
    &&& a.flags == Some(address_flags_told(flags))
    &&& a.valid_lifetime_sec == lifetimes.0
    &&& a.preferred_lifetime_sec == lifetimes.1
    &&& a.label@ == or(last_some(attrs, address_label()), Seq::empty())
    &&& optional_bytes(a.broadcast) == last_some(attrs, address_broadcast())
}

/// An RTM_NEWADDR message as an address of an interface; none for a message
/// that holds no address. Of each kind of attribute the last one counts.
pub fn address_to_proto(msg: AddressMessage) -> (r: Option<LinkAddress>)
    ensures
        r is Some <==> address_in(msg.attributes@) is Some,
        r matches Some(a) ==> address_told(a, msg),
{
    let ghost attrs = msg.attributes@;
    let prefix_len = msg.prefix_len;
    let scope = msg.scope;
    let mut address: Option<IpAddr> = None;
    let mut local: Option<IpAddr> = None;
    let mut label = String::new();
    let mut broadcast: Option<IpAddress> = None;
    let mut flags: u32 = msg.flags as u32;
    let mut valid: u32 = 0;
    let mut preferred: u32 = 0;
    let ghost header_flags = msg.flags as u32;
    assert(attrs.take(0) =~= Seq::empty());
    for attr in it: msg.attributes
        invariant
            it.seq() == attrs,
            address == last_some(attrs.take(it.index()), peer_address()),
            local == last_some(attrs.take(it.index()), own_address()),
            label@ == or(last_some(attrs.take(it.index()), address_label()), Seq::empty()),
            optional_bytes(broadcast) == last_some(attrs.take(it.index()), address_broadcast()),
            flags == or(last_some(attrs.take(it.index()), address_flags()), header_flags),
            (valid, preferred) == or(
                last_some(attrs.take(it.index()), address_lifetimes()),
                (0u32, 0u32),
            ),
    {
        let ghost i = it.index();
        assert(attrs.take(i + 1).drop_last() =~= attrs.take(i));
        assert(attrs.take(i + 1).last() == attr);
        match attr {
            AddressAttribute::Address(a) => address = Some(a),
            AddressAttribute::Local(a) => local = Some(a),
            AddressAttribute::Label(l) => label = l,
            AddressAttribute::Broadcast(b) => broadcast = Some(IpAddress::from_ip(IpAddr::V4(b))),
            AddressAttribute::Flags(f) => flags = f,
            AddressAttribute::CacheInfo { valid: v, preferred: p } => {
                valid = v;
                preferred = p;
            },
        }
    }
    assert(attrs.take(attrs.len() as int) =~= attrs);
    let ip = match (local, address) {
        (Some(ip), _) => ip,
        (None, Some(ip)) => ip,
        (None, None) => {
            return None;
        },
    };
    Some(
        LinkAddress {
            prefix: Some(IpPrefix::new(ip, prefix_len)),
            scope: scope_to_proto(scope),
            flags: Some(
                AddressFlags {
                    permanent: flags & IFA_F_PERMANENT != 0,
                    temporary: flags & IFA_F_SECONDARY != 0,
                    deprecated: flags & IFA_F_DEPRECATED != 0,
                    tentative: flags & IFA_F_TENTATIVE != 0,
                    dadfailed: flags & IFA_F_DADFAILED != 0,
                    managed_temp: flags & IFA_F_MANAGETEMPADDR != 0,
                    no_prefix_route: flags & IFA_F_NOPREFIXROUTE != 0,
                    optimistic: flags & IFA_F_OPTIMISTIC != 0,
                    home: flags & IFA_F_HOMEADDRESS != 0,
                    stable_privacy: flags & IFA_F_STABLE_PRIVACY != 0,
                    raw: flags,
                },
            ),
            valid_lifetime_sec: valid,
            preferred_lifetime_sec: preferred,
            label,
            broadcast,
        },
    )
}

/// The scope with a number of the kernel (RT_SCOPE_*).
pub open spec fn address_scope(n: u8) -> AddressScope {
    match n {
        0 => AddressScope::Global,
        200 => AddressScope::Site,
        253 => AddressScope::Link,
        254 => AddressScope::Host,
        255 => AddressScope::Nowhere,
        _ => AddressScope::Unspecified,
    }
}

pub fn scope_to_proto(n: u8) -> (r: AddressScope)
    ensures
        r == address_scope(n),
{
    match n {
        0 => AddressScope::Global,
        200 => AddressScope::Site,
        253 => AddressScope::Link,
        254 => AddressScope::Host,
        255 => AddressScope::Nowhere,
        _ => AddressScope::Unspecified,
    }
}

// ---- Interfaces with their addresses --------------------------------------------

/// The interface itself where it has an index.
pub open spec fn with_index(index: u32) -> spec_fn(Interface) -> Option<Interface> {
    |i: Interface|
        if i.index == index {
            Some(i)
        } else {
            None
        }
}

/// The addresses of one interface, of pairs of an index and an address.
pub open spec fn addresses_on(index: u32, pairs: Seq<(u32, LinkAddress)>) -> Seq<LinkAddress>
    decreases pairs.len(),
{
    if pairs.len() == 0 {
        Seq::empty()
    } else {
        let front = addresses_on(index, pairs.drop_last());
        if pairs.last().0 == index {
            front.push(pairs.last().1)
        } else {
            front
        }
    }
}

/// Whether the interfaces are in ascending order of their indexes, each index
/// once.
pub open spec fn by_index(v: Seq<Interface>) -> bool {
    forall|i: int, j: int|
        0 <= i < j < v.len() ==> (#[trigger] v[i]).index < (#[trigger] v[j]).index
}

/// Whether an interface has an index.
pub open spec fn index_listed(v: Seq<Interface>, index: u32) -> bool {
    exists|k: int| 0 <= k < v.len() && (#[trigger] v[k]).index == index
}

/// Whether `out` holds of each index the last of these links.
pub open spec fn links_told(out: Seq<Interface>, links: Seq<Interface>) -> bool {
    &&& by_index(out)
    &&& forall|k: int|
        0 <= k < out.len() ==> last_some(links, with_index((#[trigger] out[k]).index)) == Some(
            out[k],
        )
    &&& forall|j: int| 0 <= j < links.len() ==> index_listed(out, (#[trigger] links[j]).index)
}

fn add_link(out: &mut Vec<Interface>, link: Interface, Ghost(links): Ghost<Seq<Interface>>)
    requires
        links.len() > 0,
        links.last() == link,
        links_told(old(out)@, links.drop_last()),
    ensures
        links_told(final(out)@, links),
{
    let ghost start = out@;
    let ghost front = links.drop_last();
    let mut p: usize = out.len();
    while p > 0 && out[p - 1].index > link.index
        invariant
            p <= out.len(),
            out@ == start,
            forall|k: int| p <= k < start.len() ==> (#[trigger] start[k]).index > link.index,
        decreases p,
    {
        p -= 1;
    }
    let ghost index = link.index;
    if p > 0 && out[p - 1].index == link.index {
        out.set(p - 1, link);
        assert forall|k: int| 0 <= k < out.len() implies last_some(
            links,
            with_index((#[trigger] out@[k]).index),
        ) == Some(out@[k]) by {
            if k != p - 1 {
                assert(out@[k] == start[k]);
                assert(start[k].index != start[p - 1].index) by {
                    if k < p - 1 {
                        assert(start[k].index < start[p - 1].index);
                    } else {
                        assert(start[p - 1].index < start[k].index);
                    }
                }
            }
        }
        assert forall|i: int, j: int| 0 <= i < j < out.len() implies (#[trigger] out@[i]).index < (
        #[trigger] out@[j]).index by {
            assert(start[i].index < start[j].index);
        }
        assert forall|j: int| 0 <= j < links.len() implies index_listed(
            out@,
            (#[trigger] links[j]).index,
        ) by {
            if j < front.len() {
                assert(front[j] == links[j]);
                let k = choose|k: int| 0 <= k < start.len() && (#[trigger] start[k]).index == links[j].index;
                assert(out@[k].index == links[j].index);
            } else {
                assert(out@[p - 1].index == index);
            }
        }
    } else {
        out.insert(p, link);
        assert forall|k: int| 0 <= k < out.len() implies last_some(
            links,
            with_index((#[trigger] out@[k]).index),
        ) == Some(out@[k]) by {
            if k < p {
                assert(out@[k] == start[k]);
                if k < p - 1 {
                    assert(start[k].index < start[p - 1].index);
                }
            } else if k > p {
                assert(out@[k] == start[k - 1]);
            }
        }
        assert forall|i: int, j: int| 0 <= i < j < out.len() implies (#[trigger] out@[i]).index < (
        #[trigger] out@[j]).index by {
            let a = if i < p {
                i
            } else {
                i - 1
            };
            let b = if j < p {
                j
            } else {
                j - 1
            };
            if i < p && j == p {
                assert(out@[i] == start[i]);
                if i < p - 1 {
                    assert(start[i].index < start[p - 1].index);
                }
            } else if i == p {
                assert(out@[j] == start[j - 1]);
            } else {
                assert(out@[i] == start[a] && out@[j] == start[b]);
            }
        }
        assert forall|j: int| 0 <= j < links.len() implies index_listed(
            out@,
            (#[trigger] links[j]).index,
        ) by {
            if j < front.len() {
                assert(front[j] == links[j]);
                let k = choose|k: int| 0 <= k < start.len() && (#[trigger] start[k]).index == links[j].index;
                if k < p {
                    assert(out@[k].index == links[j].index);
                } else {
                    assert(out@[k + 1].index == links[j].index);
                }
            } else {
                assert(out@[p as int].index == index);
            }
        }
    }
}

/// Whether an interface is another one with addresses added to its own.
pub open spec fn with_addresses(i: Interface, link: Interface, more: Seq<LinkAddress>) -> bool {
    &&& i == Interface { addresses: i.addresses, ..link }
    &&& i.addresses@ == link.addresses@ + more
}

fn add_address(
    out: &mut Vec<Interface>,
    index: u32,
    address: LinkAddress,
    Ghost(base): Ghost<Seq<Interface>>,
    Ghost(pairs): Ghost<Seq<(u32, LinkAddress)>>,
)
    requires
        pairs.len() > 0,
        pairs.last() == (index, address),
        by_index(base),
        old(out).len() == base.len(),
        forall|k: int|
            0 <= k < base.len() ==> with_addresses(
                #[trigger] old(out)@[k],
                base[k],
                addresses_on(base[k].index, pairs.drop_last()),
            ),
    ensures
        final(out).len() == base.len(),
        forall|k: int|
            0 <= k < base.len() ==> with_addresses(
                #[trigger] final(out)@[k],
                base[k],
                addresses_on(base[k].index, pairs),
            ),
{
    let ghost start = out@;
    let n = out.len();
    let mut i: usize = 0;
    while i < n
        invariant
            i <= n,
            n == out.len(),
            n == base.len(),
            out@ == start,
            start == old(out)@,
            by_index(base),
            pairs.len() > 0,
            pairs.last() == (index, address),
            forall|k: int|
                0 <= k < base.len() ==> with_addresses(
                    #[trigger] start[k],
                    base[k],
                    addresses_on(base[k].index, pairs.drop_last()),
                ),
            forall|k: int| 0 <= k < i ==> (#[trigger] start[k]).index != index,
        decreases n - i,
    {
        if out[i].index == index {
            let mut iface = out.remove(i);
            iface.addresses.push(address);
            let ghost new = iface;
            out.insert(i, iface);
            assert(out@ =~= start.update(i as int, new));
            assert forall|k: int| 0 <= k < base.len() implies with_addresses(
                #[trigger] out@[k],
                base[k],
                addresses_on(base[k].index, pairs),
            ) by {
                assert(with_addresses(
                    start[k],
                    base[k],
                    addresses_on(base[k].index, pairs.drop_last()),
                ));
                if k == i {
                    assert(out@[k].addresses@ =~= base[k].addresses@ + addresses_on(
                        base[k].index,
                        pairs,
                    ));
                } else {
                    if k < i {
                        assert(base[k].index < base[i as int].index);
                    } else {
                        assert(base[i as int].index < base[k].index);
                    }
                }
            }
            return;
        }
        i += 1;
    }
    assert forall|k: int| 0 <= k < base.len() implies with_addresses(
        #[trigger] out@[k],
        base[k],
        addresses_on(base[k].index, pairs),
    ) by {
        assert(start[k].index != index);
    }
}

/// The interfaces with their addresses, in the order of their indexes, from
/// what the kernel reported: links, and pairs of an index and an address. Of
/// two links with the same index the later one counts; an address of no known
/// interface is left out.
pub fn get_interfaces(links: Vec<Interface>, addresses: Vec<(u32, LinkAddress)>) -> (r: Vec<Interface>)
    ensures
        by_index(r@),
        forall|k: int|
            0 <= k < r.len() ==> {
                let link = last_some(links@, with_index((#[trigger] r@[k]).index));
                &&& link is Some
                &&& with_addresses(r@[k], link->0, addresses_on(r@[k].index, addresses@))
            },
        forall|j: int| 0 <= j < links@.len() ==> index_listed(r@, (#[trigger] links@[j]).index),
{
    let ghost all = links@;
    let ghost pairs = addresses@;
    let mut out: Vec<Interface> = Vec::new();
    assert(all.take(0) =~= Seq::empty());
    for link in it: links
        invariant
            it.seq() == all,
            links_told(out@, all.take(it.index())),
    {
        let ghost i = it.index();
        assert(all.take(i + 1).drop_last() =~= all.take(i));
        add_link(&mut out, link, Ghost(all.take(i + 1)));
    }
    assert(all.take(all.len() as int) =~= all);
    let ghost base = out@;
    assert(pairs.take(0) =~= Seq::empty());
    assert forall|k: int| 0 <= k < base.len() implies with_addresses(
        #[trigger] out@[k],
        base[k],
        addresses_on(base[k].index, pairs.take(0)),
    ) by {
        assert(out@[k].addresses@ =~= base[k].addresses@ + Seq::<LinkAddress>::empty());
    }
    for entry in it: addresses
        invariant
            it.seq() == pairs,
            by_index(base),
            out.len() == base.len(),
            forall|k: int|
                0 <= k < base.len() ==> with_addresses(
                    #[trigger] out@[k],
                    base[k],
                    addresses_on(base[k].index, pairs.take(it.index())),
                ),
    {
        let ghost i = it.index();
        assert(pairs.take(i + 1).drop_last() =~= pairs.take(i));
        add_address(&mut out, entry.0, entry.1, Ghost(base), Ghost(pairs.take(i + 1)));
    }
    assert(pairs.take(pairs.len() as int) =~= pairs);
    assert forall|i: int, j: int| 0 <= i < j < out.len() implies (#[trigger] out@[i]).index < (
    #[trigger] out@[j]).index by {
        assert(base[i].index < base[j].index);
    }
    assert forall|j: int| 0 <= j < all.len() implies index_listed(
        out@,
        (#[trigger] all[j]).index,
    ) by {
        let k = choose|k: int| 0 <= k < base.len() && (#[trigger] base[k]).index == all[j].index;
        assert(out@[k].index == base[k].index);
    }
    out
}

// ---- Settings ---------------------------------------------------------------

/// What the files under /proc/sys/net/{ipv4,ipv6}/conf/<name>/ hold.
pub struct InterfaceSysctlFiles {
    pub disable_ipv6: Option<String>,
    pub accept_ra: Option<String>,
    pub accept_ra_defrtr: Option<String>,
    pub accept_ra_rt_info_max_plen: Option<String>,
    pub autoconf: Option<String>,
    pub use_tempaddr: Option<String>,
    pub forwarding_v4: Option<String>,
    pub forwarding_v6: Option<String>,
    pub rp_filter: Option<String>,
    pub arp_ignore: Option<String>,
    pub dad_transmits: Option<String>,
    pub mtu_v6: Option<String>,
    pub hop_limit: Option<String>,
}

/// The number in a file, or -1 where there is none.
pub open spec fn setting(content: Option<String>) -> int {
    or(first_number(content_of(content)), -1)
}

fn read_setting(content: &Option<String>) -> (r: i32)
    ensures
        r == setting(*content),
{
    match read_i32(content) {
        Some(v) => v,
        None => -1,
    }
}

/// Whether these are the settings that the files hold.
pub open spec fn interface_settings_told(r: InterfaceSysctls, files: InterfaceSysctlFiles) -> bool {
    &&& r.ipv6_disabled == (or(first_number(content_of(files.disable_ipv6)), 0) != 0)
    &&& r.accept_ra == setting(files.accept_ra)
    &&& r.accept_ra_defrtr == setting(files.accept_ra_defrtr)
    &&& r.accept_ra_rt_info_max_plen == setting(files.accept_ra_rt_info_max_plen)
    &&& r.autoconf == setting(files.autoconf)
    &&& r.use_tempaddr == setting(files.use_tempaddr)
    &&& r.forwarding_v4 == setting(files.forwarding_v4)
    &&& r.forwarding_v6 == setting(files.forwarding_v6)
    &&& r.rp_filter == setting(files.rp_filter)
    &&& r.arp_ignore == setting(files.arp_ignore)
    &&& r.dad_transmits == setting(files.dad_transmits)
    &&& r.mtu_v6 == setting(files.mtu_v6)
    &&& r.hop_limit == setting(files.hop_limit)
}

/// Per-interface settings. `disable_ipv6` and `accept_ra` in particular explain
/// a large share of "IPv6 is configured but does not work" reports.
pub fn read_interface_sysctls(files: &InterfaceSysctlFiles) -> (r: InterfaceSysctls)
    ensures
        interface_settings_told(r, *files),
{
    InterfaceSysctls {
        ipv6_disabled: match read_i32(&files.disable_ipv6) {
            Some(v) => v != 0,
            None => false,
        },
        accept_ra: read_setting(&files.accept_ra),
        accept_ra_defrtr: read_setting(&files.accept_ra_defrtr),
        accept_ra_rt_info_max_plen: read_setting(&files.accept_ra_rt_info_max_plen),
        autoconf: read_setting(&files.autoconf),
        use_tempaddr: read_setting(&files.use_tempaddr),
        forwarding_v4: read_setting(&files.forwarding_v4),
        forwarding_v6: read_setting(&files.forwarding_v6),
        rp_filter: read_setting(&files.rp_filter),
        arp_ignore: read_setting(&files.arp_ignore),
        dad_transmits: read_setting(&files.dad_transmits),
        mtu_v6: read_setting(&files.mtu_v6),
        hop_limit: read_setting(&files.hop_limit),
    }
}

// ---- Questions about an interface -----------------------------------------------

/// Whether an address belongs to a family; every address belongs to the
/// unspecified one.
pub open spec fn of_family(ip: IpAddr, family: IpFamily) -> bool {
    match family {
        IpFamily::V4 => ip is V4,
        IpFamily::V6 => ip is V6,
        IpFamily::Unspecified => true,
    }
}

/// The address in a prefix.
pub open spec fn prefix_ip(p: Option<IpPrefix>) -> Option<IpAddr> {
    match p {
        Some(p) => p.ip_of(),
        None => None,
    }
}

/// Whether an address can be used to reach the internet.
pub open spec fn is_global(family: IpFamily) -> spec_fn(LinkAddress) -> bool {
    |a: LinkAddress|
        {
            &&& prefix_ip(a.prefix) is Some
            &&& of_family(prefix_ip(a.prefix)->0, family)
            &&& a.scope == AddressScope::Global
            &&& !(a.flags is Some && ((a.flags->0).tentative || (a.flags->0).dadfailed))
        }
}

pub(crate) fn link_address_ip(a: &LinkAddress) -> (r: Option<IpAddr>)
    ensures
        r == prefix_ip(a.prefix),
{
    match &a.prefix {
        Some(p) => p.ip(),
        None => None,
    }
}

pub(crate) fn ip_in_family(ip: &IpAddr, family: IpFamily) -> (r: bool)
    ensures
        r == of_family(*ip, family),
{
    match family {
        IpFamily::V4 => ip.is_ipv4(),
        IpFamily::V6 => ip.is_ipv6(),
        IpFamily::Unspecified => true,
    }
}

/// Does this interface have a global (routable) address of the given family?
pub fn has_global_address(iface: &Interface, family: IpFamily) -> (r: bool)
    ensures
        r == any(iface.addresses@, is_global(family)),
{
    let mut i: usize = 0;
    while i < iface.addresses.len()
        invariant
            i <= iface.addresses.len(),
            forall|k: int| 0 <= k < i ==> !is_global(family)(#[trigger] iface.addresses@[k]),
        decreases iface.addresses.len() - i,
    {
        let a = &iface.addresses[i];
        if let Some(ip) = link_address_ip(a) {
            let unusable = match &a.flags {
                Some(f) => f.tentative || f.dadfailed,
                None => false,
            };
            if ip_in_family(&ip, family) && a.scope == AddressScope::Global && !unusable {
                assert(is_global(family)(iface.addresses@[i as int]));
                return true;
            }
        }
        i += 1;
    }
    false
}

} // verus!
