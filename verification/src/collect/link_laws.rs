//! What the kernel's messages say of interfaces and their addresses.
use vstd::prelude::*;

use crate::collect::links::{
    address_flags, address_flags_told, address_in, address_label, address_lifetimes, address_scope,
    address_told, addresses_on, attributes_told, flags_told, kind_of_link, link_kind, oper_state,
    AddressAttribute, AddressMessage, InfoKind, LinkAttribute,
};
use crate::ip::IpAddr;
use crate::proto::{AddressScope, Interface, LinkAddress, LinkKind, OperState};
use crate::seqs::{last_some, or};
use crate::text::starts_with;

verus! {

// ---- Links ------------------------------------------------------------------------

/// One more attribute of a link sets what it is about, and nothing else.
#[verifier::rlimit(60)]
pub proof fn law_a_link_attribute_sets_its_own(
    i: Interface,
    before: Interface,
    attrs: Seq<LinkAttribute>,
    a: LinkAttribute,
    stats: bool,
)
    requires
        attributes_told(before, attrs, stats),
        attributes_told(i, attrs.push(a), stats),
    ensures
        i.name@ == if let LinkAttribute::IfName(v) = a { v@ } else { before.name@ },
        i.alias@ == if let LinkAttribute::IfAlias(v) = a { v@ } else { before.alias@ },
        i.mtu == if let LinkAttribute::Mtu(v) = a { v } else { before.mtu },
        i.mac_address@ == if let LinkAttribute::Address(v) = a { v@ } else { before.mac_address@ },
        i.broadcast_address@ == if let LinkAttribute::Broadcast(v) = a {
            v@
        } else {
            before.broadcast_address@
        },
        i.tx_queue_len == if let LinkAttribute::TxQueueLen(v) = a { v } else { before.tx_queue_len },
        i.qdisc@ == if let LinkAttribute::Qdisc(v) = a { v@ } else { before.qdisc@ },
        i.link_index == if let LinkAttribute::Link(v) = a { v } else { before.link_index },
        i.master_index == if let LinkAttribute::Controller(v) = a { v } else { before.master_index },
        i.group == if let LinkAttribute::Group(v) = a { v } else { before.group },
        i.netns_id == if let LinkAttribute::LinkNetNsId(v) = a { v } else { before.netns_id },
        i.oper_state == if let LinkAttribute::OperState(v) = a {
            oper_state(v)
        } else {
            before.oper_state
        },
        i.has_xdp == if let LinkAttribute::Xdp(n) = a { n > 0 } else { before.has_xdp },
        i.stats == if let LinkAttribute::Stats64(v) = a {
            if stats { Some(v) } else { before.stats }
        } else {
            before.stats
        },
{
    assert(attrs.push(a).drop_last() =~= attrs);
}

/// Without attributes nothing is known of a link, and it is in no other namespace.
pub proof fn law_a_link_without_attributes(i: Interface, stats: bool)
    requires
        attributes_told(i, Seq::empty(), stats),
    ensures
        i.name@.len() == 0 && i.alias@.len() == 0 && i.mtu == 0 && i.mac_address@.len() == 0,
        i.tx_queue_len == 0 && i.link_index == 0 && i.master_index == 0 && i.group == 0,
        i.netns_id == -1 && i.oper_state == OperState::Unspecified && !i.has_xdp && i.stats is None,
{
}

/// The kernel's word for a virtual link is the last that its information holds.
pub proof fn law_the_last_word_for_a_link(attrs: Seq<LinkAttribute>, kinds: Vec<InfoKind>, word: String)
    requires
        kinds@.len() > 0,
        kinds@.last() == InfoKind::Other(word),
    ensures
        last_some(attrs.push(LinkAttribute::LinkInfo(kinds)), link_kind()) == Some(word@),
{
    assert(attrs.push(LinkAttribute::LinkInfo(kinds)).drop_last() =~= attrs);
}

/// The flags of a link are the kernel's bits.
pub proof fn law_flags_of_a_link(n: u32)
    ensures
        flags_told(n).up <==> n & 0x1 != 0,
        flags_told(n).broadcast <==> n & 0x2 != 0,
        flags_told(n).loopback <==> n & 0x8 != 0,
        flags_told(n).point_to_point <==> n & 0x10 != 0,
        flags_told(n).running <==> n & 0x40 != 0,
        flags_told(n).no_arp <==> n & 0x80 != 0,
        flags_told(n).promisc <==> n & 0x100 != 0,
        flags_told(n).multicast <==> n & 0x1000 != 0,
        flags_told(n).lower_up <==> n & 0x1_0000 != 0,
        flags_told(n).dormant <==> n & 0x2_0000 != 0,
        flags_told(n).raw == n,
{
}

/// The states of operation are numbered from unknown to up, in the order in which a link
/// comes up.
pub proof fn law_states_of_operation(n: u8)
    ensures
        oper_state(n) == OperState::Up <==> n == 6,
        oper_state(n) == OperState::Dormant <==> n == 5,
        oper_state(n) == OperState::Testing <==> n == 4,
        oper_state(n) == OperState::LowerLayerDown <==> n == 3,
        oper_state(n) == OperState::Down <==> n == 2,
        oper_state(n) == OperState::NotPresent <==> n == 1,
        oper_state(n) == OperState::Unknown <==> n == 0,
        oper_state(n) == OperState::Unspecified <==> n > 6,
{
}

proof fn lemma_first_char(name: Seq<char>, p: Seq<char>)
    requires
        p.len() > 0,
        starts_with(name, p),
    ensures
        name[0] == p[0],
{
    assert(name.take(p.len() as int)[0] == p[0]);
}

/// A loopback is one by its flag or its layer, before anything else.
pub proof fn law_a_loopback_is_a_loopback(name: Seq<char>, layer: u16, word: Option<Seq<char>>, flags: u32)
    ensures
        flags & 0x8 != 0 || layer == 772 <==> kind_of_link(name, layer, word, flags) == LinkKind::Loopback,
{
}

/// A translating interface is one by its name, whatever the kernel calls it.
pub proof fn law_a_translator_goes_by_its_name(rest: Seq<char>, layer: u16, word: Option<Seq<char>>, flags: u32)
    requires
        flags & 0x8 == 0,
        layer != 772,
    ensures
        kind_of_link("v4-"@ + rest, layer, word, flags) == LinkKind::Clat,
{
    assert(("v4-"@ + rest).take("v4-"@.len() as int) =~= "v4-"@);
}

/// The kernel's word for a link counts before its name.
pub proof fn law_the_kernels_word_counts(name: Seq<char>, layer: u16, flags: u32)
    requires
        flags & 0x8 == 0,
        layer != 772,
        name.len() == 0 || name[0] != 'v',
    ensures
        kind_of_link(name, layer, Some("tun"@), flags) == LinkKind::VpnTun,
        kind_of_link(name, layer, Some("wireguard"@), flags) == LinkKind::VpnTun,
        kind_of_link(name, layer, Some("ppp"@), flags) == LinkKind::VpnTun,
        kind_of_link(name, layer, Some("ipip"@), flags) == LinkKind::VpnTun,
        kind_of_link(name, layer, Some("ip6tnl"@), flags) == LinkKind::VpnTun,
        kind_of_link(name, layer, Some("bridge"@), flags) == LinkKind::Bridge,
        kind_of_link(name, layer, Some("dummy"@), flags) == LinkKind::Dummy,
{
    reveal_strlit("v4-");
    reveal_strlit("tun");
    reveal_strlit("wireguard");
    reveal_strlit("ppp");
    reveal_strlit("ipip");
    reveal_strlit("ip6tnl");
    reveal_strlit("bridge");
    reveal_strlit("dummy");
    if starts_with(name, "v4-"@) {
        lemma_first_char(name, "v4-"@);
    }
    assert("bridge"@[0] != "ip6tnl"@[0]);
    assert("bridge"@.len() == 6 && "dummy"@.len() == 5 && "ip6tnl"@.len() == 6);
    assert("tun"@.len() == 3 && "wireguard"@.len() == 9 && "ppp"@.len() == 3 && "ipip"@.len() == 4);
}

/// Where the kernel has no word for it, an interface is what its name says: Wi-Fi and
/// modems go before tunnels, and those before Bluetooth.
pub proof fn law_names_tell_the_kind(rest: Seq<char>, layer: u16, flags: u32)
    requires
        flags & 0x8 == 0,
        layer != 772,
    ensures
        kind_of_link("wlan"@ + rest, layer, None, flags) == LinkKind::Wifi,
        kind_of_link("ap_"@ + rest, layer, None, flags) == LinkKind::Wifi,
        layer != 801 ==> kind_of_link("rmnet"@ + rest, layer, None, flags) == LinkKind::Cellular,
        layer != 801 ==> kind_of_link("ccmni"@ + rest, layer, None, flags) == LinkKind::Cellular,
        layer != 801 && layer != 519 ==> kind_of_link("tun"@ + rest, layer, None, flags)
            == LinkKind::VpnTun,
        layer != 801 && layer != 519 ==> kind_of_link("tap"@ + rest, layer, None, flags)
            == LinkKind::VpnTun,
        layer != 801 && layer != 519 ==> kind_of_link("bnep"@ + rest, layer, None, flags)
            == LinkKind::Bluetooth,
        layer == 1 ==> kind_of_link("eth"@ + rest, layer, None, flags) == LinkKind::Ethernet,
        layer == 801 ==> kind_of_link("eth"@ + rest, layer, None, flags) == LinkKind::Wifi,
        layer == 519 ==> kind_of_link("eth"@ + rest, layer, None, flags) == LinkKind::Cellular,
        layer != 1 && layer != 519 && layer != 801 ==> kind_of_link("eth"@ + rest, layer, None, flags)
            == LinkKind::Other,
{
    reveal_strlit("v4-");
    reveal_strlit("wlan");
    reveal_strlit("ap_");
    reveal_strlit("rmnet");
    reveal_strlit("ccmni");
    reveal_strlit("pdp");
    reveal_strlit("seth");
    reveal_strlit("wwan");
    reveal_strlit("tun");
    reveal_strlit("tap");
    reveal_strlit("ppp");
    reveal_strlit("bt-");
    reveal_strlit("bnep");
    reveal_strlit("eth");
    assert(("wlan"@ + rest).take(4) =~= "wlan"@);
    assert(("ap_"@ + rest).take(3) =~= "ap_"@);
    assert(("rmnet"@ + rest).take(5) =~= "rmnet"@);
    assert(("ccmni"@ + rest).take(5) =~= "ccmni"@);
    assert(("tun"@ + rest).take(3) =~= "tun"@);
    assert(("tap"@ + rest).take(3) =~= "tap"@);
    assert(("bnep"@ + rest).take(4) =~= "bnep"@);
    lemma_starts("wlan"@ + rest);
    lemma_starts("ap_"@ + rest);
    lemma_starts("rmnet"@ + rest);
    lemma_starts("ccmni"@ + rest);
    lemma_starts("tun"@ + rest);
    lemma_starts("tap"@ + rest);
    lemma_starts("bnep"@ + rest);
    lemma_starts("eth"@ + rest);
}

/// A name begins with a word only if it begins with the word's first letter.
proof fn lemma_starts(name: Seq<char>)
    requires
        name.len() > 0,
    ensures
        starts_with(name, "v4-"@) ==> name[0] == 'v',
        starts_with(name, "wlan"@) ==> name[0] == 'w',
        starts_with(name, "ap_"@) ==> name[0] == 'a',
        starts_with(name, "rmnet"@) ==> name[0] == 'r',
        starts_with(name, "ccmni"@) ==> name[0] == 'c',
        starts_with(name, "pdp"@) ==> name[0] == 'p',
        starts_with(name, "seth"@) ==> name[0] == 's',
        starts_with(name, "wwan"@) ==> name[0] == 'w',
        starts_with(name, "tun"@) ==> name[0] == 't',
        starts_with(name, "tap"@) ==> name[0] == 't',
        starts_with(name, "ppp"@) ==> name[0] == 'p',
        starts_with(name, "bt-"@) ==> name[0] == 'b',
        starts_with(name, "bnep"@) ==> name[0] == 'b',
{
    reveal_strlit("v4-");
    reveal_strlit("wlan");
    reveal_strlit("ap_");
    reveal_strlit("rmnet");
    reveal_strlit("ccmni");
    reveal_strlit("pdp");
    reveal_strlit("seth");
    reveal_strlit("wwan");
    reveal_strlit("tun");
    reveal_strlit("tap");
    reveal_strlit("ppp");
    reveal_strlit("bt-");
    reveal_strlit("bnep");
    assert forall|p: Seq<char>| p.len() > 0 && #[trigger] starts_with(name, p) implies name[0] == p[0] by {
        lemma_first_char(name, p);
    }
}

// ---- Addresses ----------------------------------------------------------------------

/// The flags of an address are the kernel's bits.
pub proof fn law_flags_of_an_address(n: u32)
    ensures
        address_flags_told(n).temporary <==> n & 0x1 != 0,
        address_flags_told(n).optimistic <==> n & 0x4 != 0,
        address_flags_told(n).dadfailed <==> n & 0x8 != 0,
        address_flags_told(n).home <==> n & 0x10 != 0,
        address_flags_told(n).deprecated <==> n & 0x20 != 0,
        address_flags_told(n).tentative <==> n & 0x40 != 0,
        address_flags_told(n).permanent <==> n & 0x80 != 0,
        address_flags_told(n).managed_temp <==> n & 0x100 != 0,
        address_flags_told(n).no_prefix_route <==> n & 0x200 != 0,
        address_flags_told(n).stable_privacy <==> n & 0x800 != 0,
        address_flags_told(n).raw == n,
{
}

/// Scopes have the kernel's numbers: the smaller, the wider.
pub proof fn law_scopes_of_an_address(n: u8)
    ensures
        address_scope(n) == AddressScope::Global <==> n == 0,
        address_scope(n) == AddressScope::Site <==> n == 200,
        address_scope(n) == AddressScope::Link <==> n == 253,
        address_scope(n) == AddressScope::Host <==> n == 254,
        address_scope(n) == AddressScope::Nowhere <==> n == 255,
{
}

/// The address of this end counts before the peer's; where a message holds only one,
/// that one counts, wherever it stands.
pub proof fn law_this_end_counts_first(attrs: Seq<AddressAttribute>, ip: IpAddr, peer: IpAddr)
    ensures
        address_in(attrs.push(AddressAttribute::Local(ip))) == Some(ip),
        address_in(attrs.push(AddressAttribute::Local(ip)).push(AddressAttribute::Address(peer)))
            == Some(ip),
        address_in(Seq::empty().push(AddressAttribute::Address(peer))) == Some(peer),
        address_in(Seq::empty()) is None,
{
    let a = attrs.push(AddressAttribute::Local(ip));
    assert(a.drop_last() =~= attrs);
    assert(a.push(AddressAttribute::Address(peer)).drop_last() =~= a);
    let none = Seq::<AddressAttribute>::empty();
    assert(none.push(AddressAttribute::Address(peer)).drop_last() =~= none);
}

/// An address is told with the address of this end, its prefix and its scope, and lives
/// as long as the message says; the long form of its flags counts over the short one.
pub proof fn law_an_address_is_told(a: LinkAddress, msg: AddressMessage, ip: IpAddr, valid: u32, preferred: u32, flags: u32)
    requires
        address_told(a, msg),
        msg.attributes@ == seq![
            AddressAttribute::Local(ip),
            AddressAttribute::CacheInfo { valid, preferred },
            AddressAttribute::Flags(flags),
        ],
    ensures
        a.prefix matches Some(p) && p.prefix_len == msg.prefix_len && (p.address matches Some(x)
            && IpAddr::of(x.addr@) == Some(ip)),
        a.valid_lifetime_sec == valid,
        a.preferred_lifetime_sec == preferred,
        a.flags matches Some(f) && f.raw == flags && (f.tentative <==> flags & 0x40 != 0),
        a.scope == AddressScope::Global <==> msg.scope == 0,
{
    let attrs = msg.attributes@;
    reveal_with_fuel(last_some, 4);
    let two = attrs.drop_last();
    let one = two.drop_last();
    assert(attrs.last() == AddressAttribute::Flags(flags));
    assert(two.last() == (AddressAttribute::CacheInfo { valid, preferred }));
    assert(one.last() == AddressAttribute::Local(ip));
}

/// The long form of the flags, the lifetimes and the label of an address are those of
/// the last attribute that holds them.
pub proof fn law_an_address_attribute_sets_its_own(
    attrs: Seq<AddressAttribute>,
    a: AddressAttribute,
    flags: u32,
)
    ensures
        or(last_some(attrs.push(a), address_flags()), flags) == if let AddressAttribute::Flags(v) = a {
            v
        } else {
            or(last_some(attrs, address_flags()), flags)
        },
        or(last_some(attrs.push(a), address_lifetimes()), (0u32, 0u32)) == if let AddressAttribute::CacheInfo {
            valid,
            preferred,
        } = a {
            (valid, preferred)
        } else {
            or(last_some(attrs, address_lifetimes()), (0u32, 0u32))
        },
        or(last_some(attrs.push(a), address_label()), Seq::empty()) == if let AddressAttribute::Label(v) = a {
            v@
        } else {
            or(last_some(attrs, address_label()), Seq::empty())
        },
{
    assert(attrs.push(a).drop_last() =~= attrs);
}

/// An address goes to the interface with its index, behind those before it, and to no
/// other.
pub proof fn law_an_address_goes_to_its_interface(
    pairs: Seq<(u32, LinkAddress)>,
    index: u32,
    other: u32,
    a: LinkAddress,
)
    ensures
        addresses_on(index, pairs.push((index, a))) == addresses_on(index, pairs).push(a),
        index != other ==> addresses_on(other, pairs.push((index, a))) == addresses_on(other, pairs),
        addresses_on(index, Seq::empty()).len() == 0,
{
    assert(pairs.push((index, a)).drop_last() =~= pairs);
}

} // verus!
