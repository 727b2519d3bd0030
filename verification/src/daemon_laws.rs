//! Who is served, what a client's frame comes to, and what a subscription reports.
use vstd::prelude::*;

use crate::collect::routes::LookupArguments;
use crate::correlate::CorrelationInput;
use crate::daemon::{
    app_asked, arrivals, baseline, capabilities_of, capability_warnings, change_of, departures,
    event_in_scope, identity, interface_wanted, is_other_socket, is_socket, lookup_asked,
    numbered_family, poll_pause, presents, spoken_version, tells_change, tells_gap, Probed,
    SocketChange,
};
use crate::ipc::auth::{decided, runs_as_another, up_to_zero, AuthPolicy, PeerIdentity};
use crate::ipc::listener::{named_by, SocketAddress};
use crate::ipc::session::{follows, Action, ClientBody, Session};
use crate::proto::{
    PROTOCOL_VERSION, Error, ErrorCode, EventSeverity, EventSource, GetAppNetworkStateRequest,
    GetInterfacesRequest, Interface, IpFamily, NetworkEvent, NetworkEventPayload,
    RouteLookupRequest, Socket, TcpState,
};
use crate::seq_laws::law_nothing_is_found;
use crate::seqs::any;
use crate::streams::{BusReading, EventWatch, WatchStep};
use crate::text::texts;

verus! {

// ---- Who is served --------------------------------------------------------------------

/// Root is served, and each uid that is allowed, and no other; a name that is expected
/// shuts out a peer that is known by another one, and only that.
pub proof fn law_who_is_served(policy: AuthPolicy, peer: PeerIdentity)
    ensures
        policy.allows(peer.uid) <==> peer.uid == 0 || exists|i: int|
            0 <= i < policy.allowed_uids@.len() && #[trigger] policy.allowed_uids@[i] == peer.uid,
        policy.expect_package is None || peer.cmdline is None ==> !runs_as_another(peer, policy),
        policy.expect_package is Some && peer.cmdline is Some ==> (runs_as_another(peer, policy)
            <==> (policy.expect_package->0)@ != (peer.cmdline->0)@),
{
    if policy.allowed_uids@.contains(peer.uid) {
        let i = policy.allowed_uids@.index_of(peer.uid);
        assert(policy.allowed_uids@[i] == peer.uid);
    }
}

/// A peer is kept exactly if it is root or its uid is allowed, and it is not known to run
/// as something else than what is expected; it is kept as the one it is.
pub proof fn law_which_peers_are_kept(
    r: Result<PeerIdentity, String>,
    peer: PeerIdentity,
    policy: AuthPolicy,
)
    requires
        decided(r, peer, policy),
    ensures
        r is Ok <==> (peer.uid == 0 || policy.allowed_uids@.contains(peer.uid)) && !(
        policy.expect_package is Some && peer.cmdline is Some && (policy.expect_package->0)@ != (
        peer.cmdline->0)@),
        r matches Ok(p) ==> p == peer,
{
}

/// The name of a process is what stands in front of the first zero.
pub proof fn law_a_name_ends_at_the_first_zero(name: Seq<u8>, rest: Seq<u8>)
    requires
        forall|i: int| 0 <= i < name.len() ==> #[trigger] name[i] != 0,
    ensures
        up_to_zero(name + seq![0u8] + rest) == name,
        up_to_zero(name) == name,
    decreases name.len(),
{
    let all = name + seq![0u8] + rest;
    if name.len() > 0 {
        let tail = name.skip(1);
        assert forall|i: int| 0 <= i < tail.len() implies #[trigger] tail[i] != 0 by {
            assert(tail[i] == name[i + 1]);
        }
        law_a_name_ends_at_the_first_zero(tail, rest);
        assert(all[0] == name[0] && name[0] != 0);
        assert(all.skip(1) =~= tail + seq![0u8] + rest);
        assert(seq![name[0]] + tail =~= name);
    } else {
        assert(all[0] == 0);
        assert(name =~= Seq::empty());
    }
}

/// An address with a leading "@" is a name in the abstract namespace, and every other a
/// path.
pub proof fn law_what_an_address_is(a: SocketAddress, spec: Seq<char>, name: Seq<char>)
    requires
        named_by(a, spec),
    ensures
        spec == seq!['@'] + name ==> (a matches SocketAddress::Abstract(n) && n@ == name),
        spec.len() == 0 || spec[0] != '@' ==> (a matches SocketAddress::Path(p) && p@ == spec),
{
    reveal_strlit("@");
    assert("@"@ =~= seq!['@']);
    if spec == seq!['@'] + name {
        assert(spec.take(1) =~= "@"@);
        assert(spec.skip(1) =~= name);
    }
    if spec.len() > 0 && spec[0] != '@' {
        assert(spec.take(1)[0] == spec[0]);
    }
}

// ---- Frames -----------------------------------------------------------------------------

/// A frame without an id or without a request is refused and changes nothing.
pub proof fn law_a_frame_needs_an_id_and_a_request(
    action: Action,
    id: u64,
    body: Option<ClientBody>,
    before: Session,
    after: Session,
)
    requires
        follows(action, id, body, before, after),
        id == 0 || body is None,
    ensures
        after == before,
        action matches Action::Refuse { id: to, error } && to == id && error.code
            == ErrorCode::InvalidArgument,
{
}

/// A hello is answered at any time and opens the session for everything else.
pub proof fn law_a_hello_opens_the_session(
    action: Action,
    id: u64,
    body: ClientBody,
    before: Session,
    after: Session,
)
    requires
        follows(action, id, Some(body), before, after),
        id != 0,
    ensures
        body matches ClientBody::Hello(request) ==> after.greeted && action == (Action::Greet { id, request }),
        before.greeted ==> after.greeted,
        !(body is Hello) ==> after.greeted == before.greeted,
        after.handled == before.handled + 1,
{
}

/// After a hello a call is made as it was asked for, under its own id; a streaming call
/// starts unless sixteen streams are running, and one under an id that is in use replaces
/// the stream that has it.
pub proof fn law_a_greeted_client_is_served(
    action: Action,
    id: u64,
    body: ClientBody,
    before: Session,
    after: Session,
)
    requires
        follows(action, id, Some(body), before, after),
        id != 0,
        before.greeted,
    ensures
        body matches ClientBody::Unary(c) ==> action == (Action::Call { id, call: c }) && after.registry
            == before.registry,
        body matches ClientBody::Stream(c) ==> {
            &&& before.registry.streams@.len() < 16 ==> action == (Action::Start {
                id,
                call: c,
                replaces: before.registry.streams@.contains(id),
            }) && after.registry.running().contains(id)
            &&& before.registry.streams@.len() >= 16 ==> !(action is Start) && after.registry.streams
                == before.registry.streams
        },
        body matches ClientBody::StopCapture(r) ==> action == (Action::StopCapture {
            id,
            capture_id: r.capture_id,
            was_stream: before.registry.streams@.contains(r.capture_id),
        }),
{
}

/// A cancel stops the stream that it names, if that is running, and no other.
pub proof fn law_a_cancel_stops_what_it_names(
    action: Action,
    id: u64,
    request: crate::proto::CancelRequest,
    before: Session,
    after: Session,
    other: u64,
)
    requires
        follows(action, id, Some(ClientBody::Cancel(request)), before, after),
        id != 0,
    ensures
        action == (Action::Cancelled {
            id,
            target_id: request.target_id,
            was_active: before.registry.streams@.contains(request.target_id),
        }),
        !after.registry.streams@.contains(request.target_id),
        other != request.target_id ==> (after.registry.streams@.contains(other)
            <==> before.registry.streams@.contains(other)),
{
    assert(after.registry.running().contains(other) <==> after.registry.streams@.contains(other));
    assert(before.registry.running().contains(other) <==> before.registry.streams@.contains(other));
    assert(after.registry.running().contains(request.target_id) <==> after.registry.streams@.contains(
        request.target_id,
    ));
}

// ---- Requests ---------------------------------------------------------------------------

/// Families have the numbers of the protocol; no other number is one.
pub proof fn law_families_by_number(n: i32)
    ensures
        numbered_family(0) == Some(IpFamily::Unspecified),
        numbered_family(1) == Some(IpFamily::V4),
        numbered_family(2) == Some(IpFamily::V6),
        n < 0 || n > 2 ==> numbered_family(n) is None,
{
}

/// A request for interfaces gets those that it names or numbers, and all where it does
/// neither.
pub proof fn law_which_interfaces_are_asked_for(request: GetInterfacesRequest, i: Interface)
    ensures
        request.names@.len() == 0 && request.indexes@.len() == 0 ==> interface_wanted(request)(i),
        request.names@.len() > 0 || request.indexes@.len() > 0 ==> (interface_wanted(request)(i) <==> (
        exists|k: int| 0 <= k < request.names@.len() && (#[trigger] request.names@[k])@ == i.name@) || (
        exists|k: int| 0 <= k < request.indexes@.len() && #[trigger] request.indexes@[k] == i.index)),
{
    let names = texts(request.names@);
    if names.contains(i.name@) {
        let k = names.index_of(i.name@);
        assert(request.names@[k]@ == i.name@);
    }
    if exists|k: int| 0 <= k < request.names@.len() && (#[trigger] request.names@[k])@ == i.name@ {
        let k = choose|k: int| 0 <= k < request.names@.len() && (#[trigger] request.names@[k])@ == i.name@;
        assert(names[k] == i.name@);
    }
    if request.indexes@.contains(i.index) {
        let k = request.indexes@.index_of(i.index);
        assert(request.indexes@[k] == i.index);
    }
}

/// With a client the older version is spoken: never a newer one than either side knows.
pub proof fn law_the_older_version_is_spoken(client: u32)
    ensures
        spoken_version(client) <= client,
        spoken_version(client) <= PROTOCOL_VERSION,
        spoken_version(client) == client || spoken_version(client) == PROTOCOL_VERSION,
{
}

/// A request about an app is granted exactly if it names an app with a uid, and then asks
/// what it says.
pub proof fn law_which_apps_can_be_asked_about(
    r: Result<CorrelationInput, Error>,
    request: GetAppNetworkStateRequest,
)
    requires
        app_asked(r, request),
    ensures
        r is Ok <==> (request.app matches Some(a) && a.uid != 0),
        r matches Ok(input) ==> request.app == Some(input.app) && input.skip_route_lookup
            == request.skip_route_lookup && input.include_tcp_info == request.include_tcp_info
            && input.android_state == request.android_state,
        r matches Err(e) ==> e.code == ErrorCode::InvalidArgument,
{
}

/// A lookup is granted exactly if its destination has four or sixteen bytes; a uid and a
/// mark count only where they are said to be there.
pub proof fn law_which_lookups_can_be_asked_for(
    r: Result<LookupArguments, Error>,
    request: RouteLookupRequest,
)
    requires
        lookup_asked(r, request),
    ensures
        r is Ok <==> (request.destination matches Some(a) && (a.addr@.len() == 4 || a.addr@.len() == 16)),
        r matches Ok(a) ==> {
            &&& a.destination.octets() == (request.destination->0).addr@
            &&& request.has_uid ==> a.uid == Some(request.uid)
            &&& !request.has_uid ==> a.uid is None
            &&& request.has_fwmark ==> a.fwmark == Some(request.fwmark)
            &&& !request.has_fwmark ==> a.fwmark is None
            &&& a.out_interface_index == request.out_interface_index
        },
        r matches Err(e) ==> e.code == ErrorCode::InvalidArgument,
{
    if r is Ok {
        crate::ip::law_bytes_of_address((request.destination->0).addr@);
    }
}

/// What was tried and works is possible: routes can be looked up and queues be read where
/// routing can be asked about.
pub proof fn law_what_is_possible(p: Probed)
    ensures
        ({
            let c = capabilities_of(p);
            &&& c.netlink_route == p.netlink_route && c.route_lookup == p.netlink_route && c.tc
                == p.netlink_route
            &&& c.inet_diag == p.inet_diag && c.packet_capture == p.packet_capture
            &&& c.raw_icmp == p.raw_icmp && c.bpf_maps == p.bpf_maps
            &&& c.nftables == p.nftables && c.iptables == p.iptables && c.so_mark
        }),
{
}

/// Sockets are never polled more often than four times a second or less often than once
/// a minute; within that the client has its choice, and every two seconds is the daemon's.
pub proof fn law_how_often_sockets_are_polled(requested: u32)
    ensures
        250 <= poll_pause(requested) <= 60_000,
        poll_pause(0) == 2000,
        250 <= requested <= 60_000 ==> poll_pause(requested) == requested,
        0 < requested < 250 ==> poll_pause(requested) == 250,
        requested > 60_000 ==> poll_pause(requested) == 60_000,
{
}

/// Each thing that is missing at the start is warned of, and nothing else: without raw
/// ICMP it is said whether pings still work.
pub proof fn law_what_is_missing_is_warned_of(p: Probed)
    ensures
        ({
            let w = capability_warnings(p);
            &&& w.len() == (if p.netlink_route { 0int } else { 1 }) + (if p.inet_diag { 0int } else { 1 }) + (
            if p.packet_capture { 0int } else { 1 }) + (if p.raw_icmp { 0int } else { 1 })
            &&& w.len() == 0 <==> p.netlink_route && p.inet_diag && p.packet_capture && p.raw_icmp
            &&& !p.netlink_route ==> w[0] == "NETLINK_ROUTE is unavailable; almost nothing will work"@
            &&& !p.raw_icmp && !p.ping_group ==> w.last()
                == "neither raw nor datagram ICMP sockets are available; ping probes will be skipped"@
            &&& !p.raw_icmp && p.ping_group ==> w.last()
                == "raw ICMP sockets are unavailable, but ping_group_range allows datagram ICMP sockets, so ping probes will still work"@
        }),
{
}

// ---- Subscriptions ------------------------------------------------------------------------

/// A subscription to the routes of a family and a table gets the routes and rules of
/// both; no family and no table narrow nothing, and what is neither passes.
pub proof fn law_which_routes_a_watch_gets(event: NetworkEvent, family: IpFamily, table: u32)
    ensures
        event.payload matches Some(NetworkEventPayload::Route(e)) ==> (e.route matches Some(r) ==> (
        event_in_scope(event, family, table) <==> (family != IpFamily::Unspecified ==> r.family == family)
            && (table != 0 ==> r.table == table))),
        event.payload matches Some(NetworkEventPayload::Rule(e)) ==> (e.rule matches Some(r) ==> (
        event_in_scope(event, family, table) <==> (family != IpFamily::Unspecified ==> r.family == family)
            && (table != 0 ==> r.table == table))),
        !(event.payload matches Some(NetworkEventPayload::Route(_))) && !(event.payload matches Some(
            NetworkEventPayload::Rule(_),
        )) ==> event_in_scope(event, family, table),
{
}

/// An event is sent where its filter wants it and its scope holds it.
pub proof fn law_what_a_watch_sends(watch: EventWatch, event: NetworkEvent)
    ensures
        watch.sends(event) ==> crate::watch::wants(watch.filter, event) && event_in_scope(
            event,
            watch.family,
            watch.table,
        ),
        crate::watch::wants(watch.filter, event) && event_in_scope(event, watch.family, watch.table)
            ==> watch.sends(event),
{
}

/// Of what the bus hands out a subscription sends the events that it wants, as they are
/// and each counted; a gap is told without counting; and it ends where the bus does.
pub proof fn law_what_becomes_of_a_reading(
    watch: EventWatch,
    reading: BusReading,
    ms: i64,
    ns: u64,
    step: WatchStep,
)
    requires
        watch.takes(reading, ms, ns, step),
    ensures
        reading matches BusReading::Event(e) ==> {
            &&& step is Send <==> crate::watch::wants(watch.filter, e) && event_in_scope(
                e,
                watch.family,
                watch.table,
            )
            &&& step matches WatchStep::Send { event, counts } ==> event == e && counts
            &&& !(step is End)
        },
        reading is Lagged ==> (step matches WatchStep::Send { event, counts } && !counts && event.severity
            == EventSeverity::Warning),
        reading is Closed ==> (step matches WatchStep::End(o) && o.error is None && o.items_sent
            == watch.sent),
{
}

/// An interface that was there before is presented as added, up or down as it is, by the
/// daemon and at the lowest severity but one.
pub proof fn law_how_an_interface_is_presented(e: NetworkEvent, i: Interface, ms: i64, ns: u64)
    requires
        presents(e, i, ms, ns),
    ensures
        e.source == EventSource::Daemon && e.severity == EventSeverity::Info,
        e.unix_ms == ms && e.monotonic_ns == ns,
        e.payload matches Some(NetworkEventPayload::Link(l)) && l.added && l.interface == Some(i)
            && l.went_up == (i.flags matches Some(f) && f.up) && !l.went_down && !l.mtu_changed,
{
}

/// A gap is told as a warning of the daemon, and carries no event.
pub proof fn law_how_a_gap_is_told(e: NetworkEvent, missed: u64, ms: i64, ns: u64)
    requires
        tells_gap(e, missed, ms, ns),
    ensures
        e.source == EventSource::Daemon && e.severity == EventSeverity::Warning && e.payload is None,
        crate::text::starts_with(e.summary@, crate::text::dec(missed as nat) + " event(s) were dropped"@),
{
    reveal_strlit(" event(s) were dropped");
    reveal_strlit(" event(s) were dropped because this subscription could not keep up");
    let head = crate::text::dec(missed as nat) + " event(s) were dropped"@;
    assert(e.summary@.take(head.len() as int) =~= head);
}

// ---- Sockets ------------------------------------------------------------------------------

/// A socket is known by its cookie, or by its inode where it has none.
pub proof fn law_what_a_socket_is_known_by(s: Socket)
    ensures
        s.socket_cookie != 0 ==> identity(s) == s.socket_cookie,
        s.socket_cookie == 0 ==> identity(s) == s.inode,
{
}

/// Of a dump the last socket of each identity is kept, and none comes twice.
pub proof fn law_a_dump_keeps_the_last_of_each(dump: Seq<Socket>, s: Socket)
    ensures
        forall|i: int, j: int|
            0 <= i < j < baseline(dump).len() ==> identity(#[trigger] baseline(dump)[i]) != identity(
                #[trigger] baseline(dump)[j],
            ),
        baseline(dump.push(s)).len() > 0 && baseline(dump.push(s)).last() == s,
        baseline(dump).contains(s) ==> dump.contains(s),
        dump.contains(s) ==> any(baseline(dump), is_socket(identity(s))),
    decreases dump.len(),
{
    assert(dump.push(s).drop_last() =~= dump);
    if dump.len() > 0 {
        let t = dump.drop_last();
        let last = dump.last();
        law_a_dump_keeps_the_last_of_each(t, s);
        let p = is_other_socket(identity(last));
        let front = baseline(t);
        let kept = front.filter(p);
        let all = baseline(dump);
        assert(all == kept.push(last));
        lemma_filter_distinct(front, p);
        assert forall|i: int, j: int| 0 <= i < j < all.len() implies identity(#[trigger] all[i]) != identity(
            #[trigger] all[j],
        ) by {
            front.lemma_filter_pred(p, i);
            if j < kept.len() {
                assert(identity(kept[i]) != identity(kept[j]));
            }
        }
        if all.contains(s) {
            let i = all.index_of(s);
            if i < kept.len() {
                assert(kept.contains(s));
                front.lemma_filter_contains_rev(p, s);
                let j = t.index_of(s);
                assert(dump[j] == s);
            } else {
                assert(dump[dump.len() - 1] == s);
            }
        }
        if dump.contains(s) {
            let q = is_socket(identity(s));
            if identity(s) == identity(last) {
                assert(q(all[kept.len() as int]));
            } else {
                let i = dump.index_of(s);
                assert(t[i] == s);
                assert(t.contains(s));
                let k = choose|k: int| 0 <= k < front.len() && q(#[trigger] front[k]);
                assert(p(front[k]));
                front.lemma_filter_contains(p, k);
                let j = kept.index_of(front[k]);
                assert(all[j] == front[k]);
                assert(q(all[j]));
            }
        }
    }
}

proof fn lemma_filter_distinct(s: Seq<Socket>, p: spec_fn(Socket) -> bool)
    requires
        forall|i: int, j: int|
            0 <= i < j < s.len() ==> identity(#[trigger] s[i]) != identity(#[trigger] s[j]),
    ensures
        forall|i: int, j: int|
            0 <= i < j < s.filter(p).len() ==> identity(#[trigger] s.filter(p)[i]) != identity(
                #[trigger] s.filter(p)[j],
            ),
    decreases s.len(),
{
    reveal(Seq::filter);
    if s.len() > 0 {
        let t = s.drop_last();
        assert forall|i: int, j: int| 0 <= i < j < t.len() implies identity(#[trigger] t[i]) != identity(
            #[trigger] t[j],
        ) by {
            assert(identity(s[i]) != identity(s[j]));
        }
        lemma_filter_distinct(t, p);
        let front = t.filter(p);
        let all = s.filter(p);
        if p(s.last()) {
            assert forall|i: int, j: int| 0 <= i < j < all.len() implies identity(#[trigger] all[i])
                != identity(#[trigger] all[j]) by {
                if j < front.len() {
                    assert(identity(front[i]) != identity(front[j]));
                } else {
                    assert(front.contains(front[i]));
                    t.lemma_filter_contains_rev(p, front[i]);
                    let k = t.index_of(front[i]);
                    assert(identity(s[k]) != identity(s[s.len() - 1]));
                }
            }
        }
    }
}

/// What became of a socket: one that was not there appears, one in another state changes
/// and tells the state that it had, and one in the same state is not told of.
pub proof fn law_what_became_of_a_socket(previous: Seq<Socket>, s: Socket, k: int)
    ensures
        (forall|i: int| 0 <= i < previous.len() ==> identity(#[trigger] previous[i]) != identity(s)) ==> (
        change_of(previous, s) matches Some(c) && c.appeared && !c.disappeared && c.socket == s
            && c.previous_state is None),
        0 <= k < previous.len() && identity(previous[k]) == identity(s) && (forall|i: int|
            0 <= i < k ==> identity(#[trigger] previous[i]) != identity(s)) ==> {
            &&& previous[k].state == s.state ==> change_of(previous, s) is None
            &&& previous[k].state != s.state ==> (change_of(previous, s) matches Some(c) && !c.appeared
                && !c.disappeared && c.socket == s && c.previous_state == Some(previous[k].state))
        },
{
    let p = is_socket(identity(s));
    if forall|i: int| 0 <= i < previous.len() ==> identity(#[trigger] previous[i]) != identity(s) {
        law_nothing_is_found(previous, p);
    }
    if 0 <= k < previous.len() && identity(previous[k]) == identity(s) && (forall|i: int|
        0 <= i < k ==> identity(#[trigger] previous[i]) != identity(s)) {
        assert(p(previous[k]));
        crate::seq_laws::law_the_first_is_found(previous, p, k);
    }
}

/// A change is told with its socket and the state that it had, and is worth notice
/// exactly where a connection waits for an answer.
pub proof fn law_how_a_change_is_told(e: NetworkEvent, c: SocketChange, ms: i64, ns: u64)
    requires
        tells_change(e, c, ms, ns),
    ensures
        e.source == EventSource::Kernel && e.unix_ms == ms && e.monotonic_ns == ns,
        e.severity == EventSeverity::Notice <==> c.socket.state == TcpState::SynSent,
        e.severity == EventSeverity::Debug <==> c.socket.state != TcpState::SynSent,
        e.payload matches Some(NetworkEventPayload::Socket(s)) && s.socket == Some(c.socket) && s.appeared
            == c.appeared && s.disappeared == c.disappeared && (c.previous_state matches Some(p)
            ==> s.previous_state == p),
{
}

/// Changes are told in the order of the sockets, one for each that changed.
pub proof fn law_changes_are_told_in_order(previous: Seq<Socket>, current: Seq<Socket>, s: Socket)
    ensures
        arrivals(previous, current.push(s)) == match change_of(previous, s) {
            Some(c) => arrivals(previous, current).push(c),
            None => arrivals(previous, current),
        },
        arrivals(previous, Seq::empty()).len() == 0,
{
    assert(current.push(s).drop_last() =~= current);
}

/// A socket is told to be gone exactly if no socket of its identity is left.
pub proof fn law_which_sockets_are_gone(previous: Seq<Socket>, current: Seq<Socket>, s: Socket)
    ensures
        (exists|i: int| 0 <= i < current.len() && identity(#[trigger] current[i]) == identity(s))
            ==> departures(previous.push(s), current) == departures(previous, current),
        (forall|i: int| 0 <= i < current.len() ==> identity(#[trigger] current[i]) != identity(s)) ==> {
            let gone = departures(previous.push(s), current);
            &&& gone.len() == departures(previous, current).len() + 1
            &&& gone.drop_last() == departures(previous, current)
            &&& gone.last().socket == s && gone.last().disappeared && !gone.last().appeared
        },
        departures(Seq::empty(), current).len() == 0,
{
    assert(previous.push(s).drop_last() =~= previous);
    let p = is_socket(identity(s));
    law_nothing_is_found(current, p);
    if exists|i: int| 0 <= i < current.len() && identity(#[trigger] current[i]) == identity(s) {
        let i = choose|i: int| 0 <= i < current.len() && identity(#[trigger] current[i]) == identity(s);
        assert(p(current[i]));
    }
    if forall|i: int| 0 <= i < current.len() ==> identity(#[trigger] current[i]) != identity(s) {
        let gone = departures(previous.push(s), current);
        assert(gone.drop_last() =~= departures(previous, current));
    }
}

} // verus!
