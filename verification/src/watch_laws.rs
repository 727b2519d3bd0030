//! What a subscription gets, and what a notification of the kernel means on the
//! timeline.
use vstd::prelude::*;

use crate::collect::links::{AddressAttribute, AddressMessage, LinkAttribute, LinkMessage};
use crate::collect::neigh::{forwards, neighbour_state};
use crate::collect::routes::{rule_is, RuleMessage};
use crate::ip::IpAddr;
use crate::proto::{
    EventFilter, EventSeverity, EventSource, IpFamily, NeighborState, NetworkEvent,
    NetworkEventPayload,
};
use crate::seq_laws::{law_nothing_is_found, law_the_first_is_found, lemma_found_first};
use crate::seqs::find;
use crate::text::{dec, starts_with};
use crate::watch::{
    address_summary, addresses_after, event_address, has_global, is_neighbor, is_other_neighbor,
    is_transition, last_state, link_event_told, link_summary, neighbors_after, on, other_than,
    rule_event_told, translated, v6_or_v4, wants, KernelMessage, KnownAddress, KnownNeighbor,
    StateCache,
};

verus! {

// ---- Filters --------------------------------------------------------------------

/// The class of an event, by what it is about: links, addresses, routes, rules,
/// neighbours and sockets in their order; none for the framework's and the daemon's.
pub open spec fn class_of(event: NetworkEvent) -> Option<int> {
    match event.payload {
        Some(NetworkEventPayload::Link(_)) => Some(0),
        Some(NetworkEventPayload::Address(_)) => Some(1),
        Some(NetworkEventPayload::Route(_)) => Some(2),
        Some(NetworkEventPayload::Rule(_)) => Some(3),
        Some(NetworkEventPayload::Neighbor(_)) => Some(4),
        Some(NetworkEventPayload::Socket(_)) => Some(5),
        _ => None,
    }
}

/// Whether a filter selects a class.
pub open spec fn selects(f: EventFilter, class: int) -> bool {
    ||| class == 0 && f.links
    ||| class == 1 && f.addresses
    ||| class == 2 && f.routes
    ||| class == 3 && f.rules
    ||| class == 4 && f.neighbors
    ||| class == 5 && f.sockets
}

/// Whether a filter asks for nothing but classes.
pub open spec fn only_classes(f: EventFilter) -> bool {
    f.min_severity <= 0 && !f.exclude_neighbor_probe_noise && f.socket_uids@.len() == 0
}

/// A filter passes the classes that it selects and no others; one that selects none
/// passes them all. What has no class passes in any case.
pub proof fn law_a_filter_passes_what_it_selects(f: EventFilter, event: NetworkEvent)
    requires
        only_classes(f),
    ensures
        class_of(event) is None ==> wants(f, event),
        (exists|class: int| 0 <= class < 6 && #[trigger] selects(f, class)) ==> (
        class_of(event) matches Some(class) ==> (wants(f, event) <==> selects(f, class))),
        (forall|class: int| 0 <= class < 6 ==> !#[trigger] selects(f, class)) ==> wants(f, event),
{
    assert(selects(f, 0) == f.links && selects(f, 1) == f.addresses && selects(f, 2) == f.routes);
    assert(selects(f, 3) == f.rules && selects(f, 4) == f.neighbors && selects(f, 5) == f.sockets);
}

/// A filter that selects exactly one class passes every event of it and none of the
/// other five.
pub proof fn law_one_class_excludes_the_others(f: EventFilter, event: NetworkEvent, class: int)
    requires
        only_classes(f),
        0 <= class < 6,
        forall|k: int| 0 <= k < 6 ==> (#[trigger] selects(f, k) <==> k == class),
        class_of(event) is Some,
    ensures
        wants(f, event) <==> class_of(event) == Some(class),
{
    assert(selects(f, class));
    assert(selects(f, 0) == f.links && selects(f, 1) == f.addresses && selects(f, 2) == f.routes);
    assert(selects(f, 3) == f.rules && selects(f, 4) == f.neighbors && selects(f, 5) == f.sockets);
}

/// Leaving out the noise of neighbour probes takes the neighbours that are being
/// probed out of what a filter passes, and nothing else.
pub proof fn law_probe_noise_is_all_that_is_left_out(f: EventFilter, quiet: EventFilter, event: NetworkEvent)
    requires
        !f.exclude_neighbor_probe_noise,
        quiet == (EventFilter { exclude_neighbor_probe_noise: true, ..f }),
    ensures
        wants(quiet, event) <==> wants(f, event) && !(event.payload matches Some(
            NetworkEventPayload::Neighbor(e),
        ) && e.neighbor matches Some(n) && (n.state == NeighborState::Probe || n.state
            == NeighborState::Delay)),
{
}

/// Uids narrow the events of sockets to those of the uids, and nothing else.
pub proof fn law_uids_narrow_sockets_alone(f: EventFilter, narrow: EventFilter, event: NetworkEvent)
    requires
        f.socket_uids@.len() == 0,
        narrow.socket_uids@.len() > 0,
        narrow == (EventFilter { socket_uids: narrow.socket_uids, ..f }),
    ensures
        wants(narrow, event) <==> wants(f, event) && (event.payload matches Some(
            NetworkEventPayload::Socket(e),
        ) ==> e.socket matches Some(s) && narrow.socket_uids@.contains(s.uid)),
{
}

/// Severities ascend from unspecified over debug, info and notice to warning.
pub proof fn law_severities_ascend()
    ensures
        EventSeverity::Unspecified.rank_of() < EventSeverity::Debug.rank_of(),
        EventSeverity::Debug.rank_of() < EventSeverity::Info.rank_of(),
        EventSeverity::Info.rank_of() < EventSeverity::Notice.rank_of(),
        EventSeverity::Notice.rank_of() < EventSeverity::Warning.rank_of(),
        EventSeverity::Unspecified.rank_of() == 0,
{
}

// ---- Notifications --------------------------------------------------------------

/// Whether a message tells of something that came or changed, rather than went.
pub open spec fn comes(message: KernelMessage) -> bool {
    message is NewLink || message is NewAddress || message is NewRoute || message is NewRule
        || message is NewNeighbour
}

/// Whether a payload tells that something was added.
pub open spec fn is_added(payload: Option<NetworkEventPayload>) -> Option<bool> {
    match payload {
        Some(NetworkEventPayload::Link(e)) => Some(e.added),
        Some(NetworkEventPayload::Address(e)) => Some(e.added),
        Some(NetworkEventPayload::Route(e)) => Some(e.added),
        Some(NetworkEventPayload::Rule(e)) => Some(e.added),
        Some(NetworkEventPayload::Neighbor(e)) => Some(e.added),
        _ => None,
    }
}

/// An event of the kernel is of the class of its message and tells whether something
/// came or went, as the message does.
pub proof fn law_an_event_tells_what_its_message_did(
    r: NetworkEvent,
    message: KernelMessage,
    before: StateCache,
    after: StateCache,
)
    requires
        translated(Some(r), message, before, after),
    ensures
        r.source == EventSource::Kernel,
        is_added(r.payload) == Some(comes(message)),
        message is NewLink || message is DelLink ==> class_of(r) == Some(0int),
        message is NewAddress || message is DelAddress ==> class_of(r) == Some(1int),
        message is NewRoute || message is DelRoute ==> class_of(r) == Some(2int),
        message is NewRule || message is DelRule ==> class_of(r) == Some(3int),
        message is NewNeighbour || message is DelNeighbour ==> class_of(r) == Some(4int),
{
}

/// The MTU that the last attribute of a message gives, or zero.
pub open spec fn told_mtu(attributes: Seq<LinkAttribute>) -> u32
    decreases attributes.len(),
{
    if attributes.len() == 0 {
        0
    } else {
        match attributes.last() {
            LinkAttribute::Mtu(m) => m,
            _ => told_mtu(attributes.drop_last()),
        }
    }
}

proof fn lemma_told_mtu(attributes: Seq<LinkAttribute>)
    ensures
        crate::seqs::or(crate::seqs::last_some(attributes, crate::collect::links::link_mtu()), 0)
            == told_mtu(attributes),
    decreases attributes.len(),
{
    if attributes.len() > 0 {
        lemma_told_mtu(attributes.drop_last());
    }
}

/// A link that comes or changes went up exactly where its flags have the bit for up,
/// and down exactly where they do not; its going down or away is worth more notice.
/// Its MTU has changed exactly where another one was known.
pub proof fn law_link_events_are_transitions(
    r: NetworkEvent,
    msg: LinkMessage,
    added: bool,
    before: StateCache,
    after: StateCache,
)
    requires
        link_event_told(r, msg, added, before, after),
    ensures
        r.payload matches Some(NetworkEventPayload::Link(e)) && {
            let mtu = told_mtu(msg.attributes@);
            let up = msg.flags & 1 != 0;
            &&& e.interface matches Some(i) && i.index == msg.index && i.mtu == mtu
            &&& e.went_up <==> added && up
            &&& e.went_down <==> added && !up
            &&& e.mtu_changed <==> mtu != 0 && before.if_mtu@.contains_key(msg.index)
                && before.if_mtu@[msg.index] != 0 && before.if_mtu@[msg.index] != mtu
            &&& r.severity == if added && up {
                EventSeverity::Info
            } else {
                EventSeverity::Notice
            }
            &&& added && mtu != 0 ==> after.if_mtu@.contains_key(msg.index)
                && after.if_mtu@[msg.index] == mtu
            &&& added ==> after.if_names@.contains_key(msg.index)
            &&& !added ==> !after.if_mtu@.contains_key(msg.index)
                && !after.if_names@.contains_key(msg.index)
            &&& forall|k: u32|
                k != msg.index ==> (#[trigger] after.if_mtu@.contains_key(k)
                    == before.if_mtu@.contains_key(k))
        },
        !added ==> forall|k: int|
            0 <= k < after.addresses@.len() ==> (#[trigger] after.addresses@[k]).index != msg.index,
{
    lemma_told_mtu(msg.attributes@);
    if !added {
        let p = crate::watch::elsewhere(msg.index);
        assert forall|k: int| 0 <= k < after.addresses@.len() implies (
        #[trigger] after.addresses@[k]).index != msg.index by {
            before.addresses@.lemma_filter_pred(p, k);
        }
    }
}

/// The address of a message with one of this end is that, whatever stands for the
/// other end.
pub proof fn law_this_end_is_meant(attributes: Seq<AddressAttribute>, i: int, a: IpAddr)
    requires
        0 <= i < attributes.len(),
        attributes[i] == AddressAttribute::Local(a),
        forall|j: int| i < j < attributes.len() ==> !((#[trigger] attributes[j]) is Local),
    ensures
        event_address(attributes) == Some(a),
    decreases attributes.len(),
{
    if i < attributes.len() - 1 {
        assert(!(attributes.last() is Local));
        let front = attributes.drop_last();
        assert forall|j: int| i < j < front.len() implies !((#[trigger] front[j]) is Local) by {
            assert(front[j] == attributes[j]);
        }
        law_this_end_is_meant(front, i, a);
    }
}

/// Whether an interface has a known address of the family of another.
pub open spec fn knows_one_like(known: Seq<KnownAddress>, index: u32, ip: IpAddr) -> bool {
    exists|i: int|
        0 <= i < known.len() && (#[trigger] known[i]).index == index && (known[i].ip is V6) == (
        ip is V6)
}

proof fn lemma_knows(known: Seq<KnownAddress>, index: u32, ip: IpAddr)
    ensures
        has_global(known, index, v6_or_v4(ip)) <==> knows_one_like(known, index, ip),
{
    let family = v6_or_v4(ip);
    if has_global(known, index, family) {
        let i = choose|i: int| 0 <= i < known.len() && on(index, family)(#[trigger] known[i]);
        assert(known[i].index == index);
    }
    if knows_one_like(known, index, ip) {
        let i = choose|i: int|
            0 <= i < known.len() && (#[trigger] known[i]).index == index && (known[i].ip is V6) == (
            ip is V6);
        assert(on(index, family)(known[i]));
    }
}

/// A family is gained with the first global address of an interface, and lost with the
/// last: an address that comes where another of its family is known gains nothing, and
/// one that goes loses nothing while another stays. An address of a narrower scope does
/// neither.
pub proof fn law_first_and_last_addresses_matter(
    r: Option<NetworkEvent>,
    msg: AddressMessage,
    before: StateCache,
    after: StateCache,
    added: bool,
    ip: IpAddr,
)
    requires
        translated(
            r,
            if added {
                KernelMessage::NewAddress(msg)
            } else {
                KernelMessage::DelAddress(msg)
            },
            before,
            after,
        ),
        event_address(msg.attributes@) == Some(ip),
    ensures
        r is Some,
        (r->0).payload matches Some(NetworkEventPayload::Address(e)) && {
            let x = KnownAddress { index: msg.index, ip, prefix_len: msg.prefix_len };
            let known = before.addresses@;
            &&& e.interface_index == msg.index
            &&& e.family == if ip is V6 {
                IpFamily::V6
            } else {
                IpFamily::V4
            }
            &&& e.family_gained <==> added && msg.scope == 0 && !knows_one_like(
                known,
                msg.index,
                ip,
            )
            &&& e.family_lost <==> !added && msg.scope == 0 && knows_one_like(
                known,
                msg.index,
                ip,
            ) && forall|i: int|
                0 <= i < known.len() && (#[trigger] known[i]).index == msg.index && (known[i].ip is V6)
                    == (ip is V6) ==> known[i] == x
            &&& (r->0).severity == if e.family_lost {
                EventSeverity::Warning
            } else if e.family_gained {
                EventSeverity::Notice
            } else {
                EventSeverity::Debug
            }
        },
        msg.scope == 0 ==> {
            let x = KnownAddress { index: msg.index, ip, prefix_len: msg.prefix_len };
            &&& after.addresses@.contains(x) == added
            &&& forall|y: KnownAddress|
                y != x ==> #[trigger] after.addresses@.contains(y) == before.addresses@.contains(y)
        },
{
    let known = before.addresses@;
    let x = KnownAddress { index: msg.index, ip, prefix_len: msg.prefix_len };
    let family = v6_or_v4(ip);
    lemma_knows(known, msg.index, ip);
    lemma_knows(after.addresses@, msg.index, ip);
    crate::watch::law_family_is_lost_with_its_last_address(known, x);
    if msg.scope == 0 {
        let p = other_than(x);
        let rest = known.filter(p);
        assert forall|y: KnownAddress| #[trigger] rest.contains(y) == (known.contains(y) && y != x) by {
            if rest.contains(y) {
                known.lemma_filter_contains_rev(p, y);
                let k = rest.index_of(y);
                known.lemma_filter_pred(p, k);
            }
            if known.contains(y) && y != x {
                let k = known.index_of(y);
                assert(p(known[k]));
                known.lemma_filter_contains(p, k);
            }
        }
        let a = after.addresses@;
        assert forall|y: KnownAddress| #[trigger] a.contains(y) == (rest.contains(y) || (added && y == x)) by {
            if added {
                assert(a == rest.push(x));
                assert(a[rest.len() as int] == x);
                if rest.contains(y) {
                    let k = rest.index_of(y);
                    assert(a[k] == y);
                }
            }
        }
        if !added {
            let gone = addresses_after(known, x, false);
            assert(has_global(gone, x.index, family) <==> exists|i: int|
                0 <= i < known.len() && on(x.index, family)(#[trigger] known[i]) && known[i] != x);
            if !has_global(gone, x.index, family) {
                assert forall|i: int|
                    0 <= i < known.len() && (#[trigger] known[i]).index == msg.index && (
                    known[i].ip is V6) == (ip is V6) implies known[i] == x by {
                    assert(on(x.index, family)(known[i]));
                }
            } else {
                let i = choose|i: int|
                    0 <= i < known.len() && on(x.index, family)(#[trigger] known[i]) && known[i] != x;
                assert(known[i].index == msg.index && (known[i].ip is V6) == (ip is V6));
            }
        }
    }
}

/// A link event says in words what became of the link: that it is gone, that its MTU is
/// another, or whether it is up, with or without a carrier, or down.
pub proof fn law_what_a_link_event_says(name: Seq<char>, flags: u32, mtu: u32, previous: u32)
    ensures
        link_summary(name, false, flags, mtu, previous) == name + " removed"@,
        mtu != 0 && previous != 0 && mtu != previous ==> link_summary(name, true, flags, mtu, previous)
            == name + " MTU "@ + dec(previous as nat) + " -> "@ + dec(mtu as nat),
        mtu == 0 || previous == 0 || mtu == previous ==> link_summary(name, true, flags, mtu, previous)
            == name + if flags & 0x1 == 0 {
            " down"@
        } else if flags & 0x40 != 0 {
            " up"@
        } else {
            " up, no carrier"@
        },
{
}

/// An address event says which family an interface gained or lost, or which address came
/// or went.
pub proof fn law_what_an_address_event_says(
    name: Seq<char>,
    family: IpFamily,
    text: Seq<char>,
    added: bool,
    gained: bool,
    lost: bool,
)
    ensures
        ({
            let said = address_summary(name, family, text, added, gained, lost);
            &&& gained && family is V6 ==> starts_with(said, name + " gained IPv6"@)
            &&& gained && family is V4 ==> starts_with(said, name + " gained IPv4"@)
            &&& lost && !gained && family is V6 ==> starts_with(said, name + " lost IPv6"@)
            &&& lost && !gained && family is V4 ==> starts_with(said, name + " lost IPv4"@)
            &&& !lost && !gained && added ==> said == name + " address added "@ + text
            &&& !lost && !gained && !added ==> said == name + " address removed "@ + text
        }),
{
    reveal_strlit(" gained ");
    reveal_strlit(" lost ");
    reveal_strlit("IPv6");
    reveal_strlit("IPv4");
    reveal_strlit(" gained IPv6");
    reveal_strlit(" gained IPv4");
    reveal_strlit(" lost IPv6");
    reveal_strlit(" lost IPv4");
    assert(" gained "@ + "IPv6"@ =~= " gained IPv6"@);
    assert(" gained "@ + "IPv4"@ =~= " gained IPv4"@);
    assert(" lost "@ + "IPv6"@ =~= " lost IPv6"@);
    assert(" lost "@ + "IPv4"@ =~= " lost IPv4"@);
    let said = address_summary(name, family, text, added, gained, lost);
    let word = if family is V6 {
        "IPv6"@
    } else {
        "IPv4"@
    };
    if gained {
        let head = name + " gained "@ + word;
        assert(said.take(head.len() as int) =~= head);
        assert(head =~= name + (" gained "@ + word));
    } else if lost {
        let head = name + " lost "@ + word;
        assert(said.take(head.len() as int) =~= head);
        assert(head =~= name + (" lost "@ + word));
    }
}

/// A rule that comes or goes is worth notice, and is told as the message has it.
pub proof fn law_rules_are_worth_notice(
    r: NetworkEvent,
    msg: RuleMessage,
    added: bool,
)
    requires
        rule_event_told(r, msg, added),
    ensures
        r.severity == EventSeverity::Notice,
        r.payload matches Some(NetworkEventPayload::Rule(e)) && e.added == added && (
        e.rule matches Some(rule) && rule_is(rule, msg)),
{
}

/// A neighbour is remembered in its last state, and forgotten when it goes; others are
/// not touched.
pub proof fn law_neighbours_are_remembered(
    known: Seq<KnownNeighbor>,
    index: u32,
    ip: IpAddr,
    state: NeighborState,
    other: u32,
)
    ensures
        last_state(neighbors_after(known, index, ip, state, true), index, ip) == state,
        last_state(neighbors_after(known, index, ip, state, false), index, ip) == NeighborState::Unspecified,
        other != index ==> last_state(neighbors_after(known, index, ip, state, false), other, ip)
            == last_state(known, other, ip),
{
    let p = is_other_neighbor(index, ip);
    let q = is_neighbor(index, ip);
    let rest = known.filter(p);
    assert forall|i: int| 0 <= i < rest.len() implies !q(#[trigger] rest[i]) by {
        known.lemma_filter_pred(p, i);
    }
    law_nothing_is_found(rest, q);
    let all = rest.push(KnownNeighbor { index, ip, state });
    assert(q(all[rest.len() as int]));
    assert forall|i: int| 0 <= i < rest.len() implies !q(#[trigger] all[i]) by {
        assert(all[i] == rest[i]);
    }
    law_the_first_is_found(all, q, rest.len() as int);
    if other != index {
        lemma_found_in_filter(known, p, is_neighbor(other, ip));
    }
}

proof fn lemma_found_in_filter(s: Seq<KnownNeighbor>, p: spec_fn(KnownNeighbor) -> bool, q: spec_fn(KnownNeighbor) -> bool)
    requires
        forall|x: KnownNeighbor| #[trigger] q(x) ==> p(x),
    ensures
        find(s.filter(p), q) == find(s, q),
    decreases s.len(),
{
    reveal(Seq::filter);
    if s.len() > 0 {
        let t = s.drop_last();
        lemma_found_in_filter(t, p, q);
        lemma_find_last(t, s.last(), q);
        assert(t.push(s.last()) =~= s);
        if p(s.last()) {
            lemma_find_last(t.filter(p), s.last(), q);
        }
    }
}

proof fn lemma_find_last(s: Seq<KnownNeighbor>, x: KnownNeighbor, q: spec_fn(KnownNeighbor) -> bool)
    ensures
        find(s.push(x), q) == if find(s, q) is Some {
            find(s, q)
        } else if q(x) {
            Some(x)
        } else {
            None
        },
{
    let all = s.push(x);
    if find(s, q) is Some {
        let k = lemma_found_first(s, q);
        assert forall|i: int| 0 <= i < k implies !q(#[trigger] all[i]) by {
            assert(all[i] == s[i]);
        }
        assert(all[k] == s[k]);
        law_the_first_is_found(all, q, k);
    } else {
        law_nothing_is_found(s, q);
        assert forall|i: int| 0 <= i < s.len() implies !q(#[trigger] all[i]) by {
            assert(all[i] == s[i]);
        }
        if q(x) {
            assert(all[s.len() as int] == x);
            law_the_first_is_found(all, q, s.len() as int);
        } else {
            assert forall|i: int| 0 <= i < all.len() implies !q(#[trigger] all[i]) by {
                if i == s.len() {
                    assert(all[i] == x);
                } else {
                    assert(all[i] == s[i]);
                }
            }
            law_nothing_is_found(all, q);
        }
    }
}

/// A default route that comes or goes is worth notice, another route is not.
pub proof fn law_default_routes_are_worth_notice(
    r: NetworkEvent,
    message: KernelMessage,
    before: StateCache,
    after: StateCache,
)
    requires
        translated(Some(r), message, before, after),
        message is NewRoute || message is DelRoute,
    ensures
        r.payload matches Some(NetworkEventPayload::Route(e)) && e.route matches Some(route) && {
            &&& e.default_route_changed == route.is_default
            &&& r.severity == if route.is_default {
                EventSeverity::Notice
            } else {
                EventSeverity::Debug
            }
        },
{
}

/// Packets can be handed to a neighbour that answered, even a while ago, or that needs
/// not answer; not to one that is not resolved yet, or that did not answer.
pub proof fn law_which_neighbours_are_usable()
    ensures
        forwards(NeighborState::Reachable) && forwards(NeighborState::Stale) && forwards(
            NeighborState::Delay,
        ) && forwards(NeighborState::Probe) && forwards(NeighborState::Permanent) && forwards(
            NeighborState::Noarp,
        ),
        !forwards(NeighborState::Incomplete) && !forwards(NeighborState::Failed) && !forwards(
            NeighborState::NoEntry,
        ) && !forwards(NeighborState::Unspecified),
{
}

/// The kernel has one bit for each state of a neighbour, in the order of its life.
pub proof fn law_states_of_neighbours()
    ensures
        neighbour_state(0) == NeighborState::NoEntry,
        neighbour_state(1) == NeighborState::Incomplete,
        neighbour_state(2) == NeighborState::Reachable,
        neighbour_state(4) == NeighborState::Stale,
        neighbour_state(8) == NeighborState::Delay,
        neighbour_state(16) == NeighborState::Probe,
        neighbour_state(32) == NeighborState::Failed,
        neighbour_state(64) == NeighborState::Noarp,
        neighbour_state(128) == NeighborState::Permanent,
{
}

/// A neighbour that goes is told, as is one that is new; of those that stay, exactly
/// the ones that became usable or stopped being so.
pub proof fn law_neighbours_are_told_when_their_use_changes(previous: NeighborState, state: NeighborState)
    ensures
        is_transition(previous, state, false),
        is_transition(NeighborState::Unspecified, state, true),
        previous != NeighborState::Unspecified ==> (is_transition(previous, state, true) <==> forwards(
            previous,
        ) != forwards(state)),
{
}

} // verus!
