//! The requests that the daemon answers: what each asks of the kernel, what it
//! refuses, and what its streams report.
use vstd::prelude::*;

use crate::collect::routes::LookupArguments;
use crate::correlate::{describe_mark, mark_text, CorrelationInput};
use crate::proto::{
    address_ip, same_socket, DaemonCapabilities, Error, ErrorCode, EventFilter, EventSeverity,
    EventSource, GetAppNetworkStateRequest, GetInterfacesRequest, HelloRequest, HelloResponse,
    Interface, IpFamily, LinkEvent, NetworkEvent, NetworkEventPayload, RouteLookupRequest, Socket,
    SocketEvent, TcpState, WatchRoutesRequest, PROTOCOL_VERSION,
};
use crate::seqs::{contains_number, find, keep, or, position_of};
use crate::text::{contains_text, copy_texts, dec, dec_string, texts};

verus! {

/// How often a socket watch re-dumps when the client does not choose.
pub const DEFAULT_SOCKET_POLL_MS: u64 = 2000;

/// Floor on the socket poll interval; a full inet_diag dump is not free.
pub const MIN_SOCKET_POLL_MS: u64 = 250;

/// Ceiling, so a subscription cannot be configured into never reporting.
pub const MAX_SOCKET_POLL_MS: u64 = 60_000;

// ---- Hello ----------------------------------------------------------------------

/// The version that is spoken with a client: the older of the two.
pub open spec fn spoken_version(client: u32) -> u32 {
    if client < PROTOCOL_VERSION {
        client
    } else {
        PROTOCOL_VERSION
    }
}

/// What the daemon knows of itself.
pub struct Daemon {
    pub version: String,
    pub started_unix_ms: i64,
    pub capabilities: DaemonCapabilities,
    pub warnings: Vec<String>,
}

impl Daemon {
    pub fn new(
        version: String,
        started_unix_ms: i64,
        capabilities: DaemonCapabilities,
        warnings: Vec<String>,
    ) -> (r: Self)
        ensures
            r == (Daemon { version, started_unix_ms, capabilities, warnings }),
    {
        Daemon { version, started_unix_ms, capabilities, warnings }
    }

    /// Non-fatal problems found while probing capabilities at startup.
    pub fn warnings(&self) -> (r: &Vec<String>)
        ensures
            *r == self.warnings,
    {
        &self.warnings
    }

    /// The answer to a client's hello: the older of the two protocol versions
    /// is spoken.
    pub fn hello(&self, request: &HelloRequest, kernel_release: String, uid: u32, pid: u32) -> (r:
        HelloResponse)
        ensures
            r.protocol_version == spoken_version(request.protocol_version),
            r.daemon_version@ == self.version@,
            r.kernel_release == kernel_release,
            r.daemon_uid == uid,
            r.daemon_pid == pid,
            r.capabilities == Some(self.capabilities),
            texts(r.warnings@) == texts(self.warnings@),
            r.daemon_started_unix_ms == self.started_unix_ms,
    {
        let negotiated = if request.protocol_version < PROTOCOL_VERSION {
            request.protocol_version
        } else {
            PROTOCOL_VERSION
        };
        HelloResponse {
            protocol_version: negotiated,
            daemon_version: self.version.clone(),
            kernel_release,
            daemon_uid: uid,
            daemon_pid: pid,
            capabilities: Some(self.capabilities),
            warnings: copy_texts(&self.warnings),
            daemon_started_unix_ms: self.started_unix_ms,
        }
    }
}

// ---- Capabilities ---------------------------------------------------------------

/// What was tried at startup.
#[derive(Clone, Copy, Debug, PartialEq, Eq, Structural)]
pub struct Probed {
    pub netlink_route: bool,
    pub inet_diag: bool,
    pub packet_capture: bool,
    pub raw_icmp: bool,
    /// Whether datagram ICMP sockets are allowed.
    pub ping_group: bool,
    pub bpf_maps: bool,
    pub iptables: bool,
    pub nftables: bool,
}

/// The warnings about what is missing.
pub open spec fn capability_warnings(p: Probed) -> Seq<Seq<char>> {
    let a = if p.netlink_route {
        Seq::empty()
    } else {
        seq!["NETLINK_ROUTE is unavailable; almost nothing will work"@]
    };
    let b = if p.inet_diag {
        a
    } else {
        a.push("NETLINK_INET_DIAG is unavailable; per-socket and per-app views will be empty"@)
    };
    let c = if p.packet_capture {
        b
    } else {
        b.push("AF_PACKET is unavailable; packet capture is disabled"@)
    };
    if p.raw_icmp {
        c
    } else if p.ping_group {
        c.push(
            "raw ICMP sockets are unavailable, but ping_group_range allows datagram ICMP sockets, so ping probes will still work"@,
        )
    } else {
        c.push(
            "neither raw nor datagram ICMP sockets are available; ping probes will be skipped"@,
        )
    }
}

/// What is possible with what was tried.
pub open spec fn capabilities_of(p: Probed) -> DaemonCapabilities {
    DaemonCapabilities {
        netlink_route: p.netlink_route,
        inet_diag: p.inet_diag,
        route_lookup: p.netlink_route,
        packet_capture: p.packet_capture,
        bpf_maps: p.bpf_maps,
        nftables: p.nftables,
        iptables: p.iptables,
        tc: p.netlink_route,
        raw_icmp: p.raw_icmp,
        so_mark: true,
    }
}

/// What this kernel and policy actually allow, from what was tried, so the
/// client can grey out features instead of failing at them.
pub fn probe_capabilities(p: Probed) -> (r: (DaemonCapabilities, Vec<String>))
    ensures
        r.0 == capabilities_of(p),
        texts(r.1@) == capability_warnings(p),
{
    let mut warnings: Vec<String> = Vec::new();
    if !p.netlink_route {
        warnings.push(String::from_str("NETLINK_ROUTE is unavailable; almost nothing will work"));
    }
    if !p.inet_diag {
        warnings.push(
            String::from_str(
                "NETLINK_INET_DIAG is unavailable; per-socket and per-app views will be empty",
            ),
        );
    }
    if !p.packet_capture {
        warnings.push(String::from_str("AF_PACKET is unavailable; packet capture is disabled"));
    }
    if !p.raw_icmp {
        if p.ping_group {
            warnings.push(
                String::from_str(
                    "raw ICMP sockets are unavailable, but ping_group_range allows datagram ICMP sockets, so ping probes will still work",
                ),
            );
        } else {
            warnings.push(
                String::from_str(
                    "neither raw nor datagram ICMP sockets are available; ping probes will be skipped",
                ),
            );
        }
    }
    assert(texts(warnings@) =~= capability_warnings(p));
    (
        DaemonCapabilities {
            netlink_route: p.netlink_route,
            inet_diag: p.inet_diag,
            route_lookup: p.netlink_route,
            packet_capture: p.packet_capture,
            bpf_maps: p.bpf_maps,
            nftables: p.nftables,
            iptables: p.iptables,
            tc: p.netlink_route,
            raw_icmp: p.raw_icmp,
            so_mark: true,
        },
        warnings,
    )
}

/// The places where a program may be installed.
pub open spec fn places(program: Seq<char>) -> Seq<Seq<char>> {
    seq![
        "/system/bin/"@ + program,
        "/system/xbin/"@ + program,
        "/vendor/bin/"@ + program,
        "/usr/bin/"@ + program,
        "/bin/"@ + program,
        "/sbin/"@ + program,
    ]
}

/// The paths at which a program is looked for.
pub fn program_paths(program: &str) -> (r: Vec<String>)
    ensures
        texts(r@) == places(program@),
{
    let mut r: Vec<String> = Vec::new();
    r.push(String::from_str("/system/bin/").concat(program));
    r.push(String::from_str("/system/xbin/").concat(program));
    r.push(String::from_str("/vendor/bin/").concat(program));
    r.push(String::from_str("/usr/bin/").concat(program));
    r.push(String::from_str("/bin/").concat(program));
    r.push(String::from_str("/sbin/").concat(program));
    assert(texts(r@) =~= places(program@));
    r
}

// ---- Requests -------------------------------------------------------------------

/// The family with a number of the protocol.
pub open spec fn numbered_family(n: i32) -> Option<IpFamily> {
    match n {
        0 => Some(IpFamily::Unspecified),
        1 => Some(IpFamily::V4),
        2 => Some(IpFamily::V6),
        _ => None,
    }
}

/// Whether an error is a refusal of a request, in these words.
pub open spec fn refuses(e: Error, words: Seq<char>) -> bool {
    e.code == ErrorCode::InvalidArgument && e.message@ == words && e.detail@.len() == 0
}

/// The family that a request asks for.
pub fn requested_family(n: i32) -> (r: Result<IpFamily, Error>)
    ensures
        match r {
            Ok(f) => numbered_family(n) == Some(f),
            Err(e) => numbered_family(n) is None && refuses(e, "unknown address family"@),
        },
{
    match n {
        0 => Ok(IpFamily::Unspecified),
        1 => Ok(IpFamily::V4),
        2 => Ok(IpFamily::V6),
        _ => Err(Error::invalid(String::from_str("unknown address family"))),
    }
}

/// Whether a request for interfaces asks for one.
pub open spec fn interface_wanted(request: GetInterfacesRequest) -> spec_fn(Interface) -> bool {
    |i: Interface|
        {
            ||| request.names@.len() == 0 && request.indexes@.len() == 0
            ||| texts(request.names@).contains(i.name@)
            ||| request.indexes@.contains(i.index)
        }
}

/// The interfaces that a request asks for: by name or by index, or all where it
/// gives neither.
pub fn select_interfaces(request: &GetInterfacesRequest, all: Vec<Interface>) -> (r: Vec<Interface>)
    ensures
        r@ == all@.filter(interface_wanted(*request)),
{
    let wanted = |i: &Interface| -> (b: bool)
        ensures
            b == interface_wanted(*request)(*i),
        {
            (request.names.len() == 0 && request.indexes.len() == 0) || contains_text(
                &request.names,
                i.name.as_str(),
            ) || contains_number(&request.indexes, i.index)
        };
    keep(all, wanted, Ghost(interface_wanted(*request)))
}

/// A number that counts only where its flag is set.
pub fn flagged(flag: bool, n: u32) -> (r: Option<u32>)
    ensures
        r == if flag {
            Some(n)
        } else {
            None
        },
{
    if flag {
        Some(n)
    } else {
        None
    }
}

/// Whether this is what a request about an app asks, or why it is refused.
pub open spec fn app_asked(
    r: Result<CorrelationInput, Error>,
    request: GetAppNetworkStateRequest,
) -> bool {
    match r {
        Ok(input) => {
            &&& request.app == Some(input.app)
            &&& input.app.uid != 0
            &&& input.android_state == request.android_state
            &&& input.include_tcp_info == request.include_tcp_info
            &&& input.skip_route_lookup == request.skip_route_lookup
        },
        Err(e) => match request.app {
            None => refuses(e, "the request names no app"@),
            Some(app) => app.uid == 0 && refuses(
                e,
                "an app uid is required; the app resolves the package name to a uid, the daemon has no PackageManager"@,
            ),
        },
    }
}

/// What a request about an app asks. The app resolves the package name to a
/// uid; the daemon has no PackageManager.
pub fn app_request(request: GetAppNetworkStateRequest) -> (r: Result<CorrelationInput, Error>)
    ensures
        app_asked(r, request),
{
    match request.app {
        None => Err(Error::invalid(String::from_str("the request names no app"))),
        Some(app) => {
            if app.uid == 0 {
                return Err(
                    Error::invalid(
                        String::from_str(
                            "an app uid is required; the app resolves the package name to a uid, the daemon has no PackageManager",
                        ),
                    ),
                );
            }
            Ok(
                CorrelationInput {
                    app,
                    android_state: request.android_state,
                    include_tcp_info: request.include_tcp_info,
                    skip_route_lookup: request.skip_route_lookup,
                },
            )
        },
    }
}

/// Whether this is the packet that a lookup request describes, or why it is
/// refused.
pub open spec fn lookup_asked(
    r: Result<LookupArguments, Error>,
    request: RouteLookupRequest,
) -> bool {
    match r {
        Ok(a) => {
            &&& address_ip(request.destination) == Some(a.destination)
            &&& a.source_hint == address_ip(request.source_hint)
            &&& a.uid == if request.has_uid {
                Some(request.uid)
            } else {
                None
            }
            &&& a.fwmark == if request.has_fwmark {
                Some(request.fwmark)
            } else {
                None
            }
            &&& a.out_interface_index == request.out_interface_index
        },
        Err(e) => address_ip(request.destination) is None && refuses(
            e,
            "destination must be a 4 or 16 byte address"@,
        ),
    }
}

/// The packet that a lookup request describes.
pub fn lookup_arguments(request: &RouteLookupRequest) -> (r: Result<LookupArguments, Error>)
    ensures
        lookup_asked(r, *request),
{
    let destination = match &request.destination {
        Some(a) => a.to_ip(),
        None => None,
    };
    let source_hint = match &request.source_hint {
        Some(a) => a.to_ip(),
        None => None,
    };
    match destination {
        None => Err(Error::invalid(String::from_str("destination must be a 4 or 16 byte address"))),
        Some(destination) => Ok(
            LookupArguments {
                destination,
                source_hint,
                uid: flagged(request.has_uid, request.uid),
                fwmark: flagged(request.has_fwmark, request.fwmark),
                out_interface_index: request.out_interface_index,
            },
        ),
    }
}

/// Whether an event is another, but for its source.
pub open spec fn same_but_source(a: NetworkEvent, b: NetworkEvent) -> bool {
    &&& a.sequence == b.sequence
    &&& a.unix_ms == b.unix_ms
    &&& a.monotonic_ns == b.monotonic_ns
    &&& a.severity == b.severity
    &&& a.summary == b.summary
    &&& a.payload == b.payload
}

/// Framework callbacks pushed by the app, for the shared timeline. The source
/// is forced: a client must not be able to inject events that look like they
/// came from the kernel.
pub fn push_framework_event(events: Vec<NetworkEvent>) -> (r: Vec<NetworkEvent>)
    ensures
        r@.len() == events@.len(),
        forall|i: int|
            0 <= i < r@.len() ==> (#[trigger] r@[i]).source == EventSource::Framework && same_but_source(
                r@[i],
                events@[i],
            ),
{
    let ghost all = events@;
    let mut out: Vec<NetworkEvent> = Vec::new();
    for event in it: events
        invariant
            it.seq() == all,
            out@.len() == it.index(),
            forall|i: int|
                0 <= i < out@.len() ==> (#[trigger] out@[i]).source == EventSource::Framework
                    && same_but_source(out@[i], all[i]),
    {
        let mut forced = event;
        forced.source = EventSource::Framework;
        out.push(forced);
    }
    out
}

// ---- Watching the network -------------------------------------------------------

/// Whether the event tells a subscriber how many events it missed. A timeline
/// with a hole in it is worse than one that admits to the hole.
pub open spec fn tells_gap(e: NetworkEvent, missed: u64, unix_ms: i64, monotonic_ns: u64) -> bool {
    &&& e.source == EventSource::Daemon
    &&& e.severity == EventSeverity::Warning
    &&& e.summary@ == dec(missed as nat) +
        " event(s) were dropped because this subscription could not keep up"@
    &&& e.unix_ms == unix_ms
    &&& e.monotonic_ns == monotonic_ns
    &&& e.sequence == 0
    &&& e.payload is None
}

/// What a subscriber is told that fell behind.
pub fn lag_notice(missed: u64, unix_ms: i64, monotonic_ns: u64) -> (r: NetworkEvent)
    ensures
        tells_gap(r, missed, unix_ms, monotonic_ns),
{
    let n = dec_string(missed);
    NetworkEvent {
        sequence: 0,
        unix_ms,
        monotonic_ns,
        source: EventSource::Daemon,
        severity: EventSeverity::Warning,
        summary: String::from_str(n.as_str())
            .concat(" event(s) were dropped because this subscription could not keep up"),
        payload: None,
    }
}

pub open spec fn is_up(i: Interface) -> bool {
    i.flags is Some && (i.flags->0).up
}

/// Whether the event presents an interface as newly added.
pub open spec fn presents(
    e: NetworkEvent,
    interface: Interface,
    unix_ms: i64,
    monotonic_ns: u64,
) -> bool {
    let state = if is_up(interface) {
        "up"@
    } else {
        "down"@
    };
    &&& e.source == EventSource::Daemon
    &&& e.severity == EventSeverity::Info
    &&& e.summary@ == interface.name@ + " is "@ + state + " (initial state)"@
    &&& e.unix_ms == unix_ms
    &&& e.monotonic_ns == monotonic_ns
    &&& e.sequence == 0
    &&& e.payload == Some(
        NetworkEventPayload::Link(
            LinkEvent {
                added: true,
                interface: Some(interface),
                went_up: is_up(interface),
                went_down: false,
                mtu_changed: false,
                previous_mtu: 0,
            },
        ),
    )
}

/// An interface as a synthetic "added" event, so a freshly opened timeline is
/// populated instead of blank.
pub fn replay_event(interface: Interface, unix_ms: i64, monotonic_ns: u64) -> (r: NetworkEvent)
    ensures
        presents(r, interface, unix_ms, monotonic_ns),
{
    let up = match &interface.flags {
        Some(f) => f.up,
        None => false,
    };
    let state = if up {
        "up"
    } else {
        "down"
    };
    NetworkEvent {
        sequence: 0,
        unix_ms,
        monotonic_ns,
        source: EventSource::Daemon,
        severity: EventSeverity::Info,
        summary: String::from_str(interface.name.as_str())
            .concat(" is ")
            .concat(state)
            .concat(" (initial state)"),
        payload: Some(
            NetworkEventPayload::Link(
                LinkEvent {
                    added: true,
                    interface: Some(interface),
                    went_up: up,
                    went_down: false,
                    mtu_changed: false,
                    previous_mtu: 0,
                },
            ),
        ),
    }
}

/// The filter of a subscription to routes: that of the timeline with a preset,
/// which keeps one way of delivering events.
pub fn route_watch_filter(request: &WatchRoutesRequest) -> (r: EventFilter)
    ensures
        r.routes,
        r.rules == request.include_rules,
        !r.links && !r.addresses && !r.neighbors && !r.sockets,
        r.min_severity == 0,
        !r.exclude_neighbor_probe_noise,
        r.socket_uids@.len() == 0,
{
    EventFilter {
        links: false,
        addresses: false,
        routes: true,
        rules: request.include_rules,
        neighbors: false,
        sockets: false,
        min_severity: 0,
        exclude_neighbor_probe_noise: false,
        socket_uids: Vec::new(),
    }
}

/// The family that a subscription to routes is about; an unknown one is any.
pub fn watched_family(n: i32) -> (r: IpFamily)
    ensures
        r == or(numbered_family(n), IpFamily::Unspecified),
{
    match n {
        1 => IpFamily::V4,
        2 => IpFamily::V6,
        _ => IpFamily::Unspecified,
    }
}

/// Whether something of a family in a table is asked for.
pub open spec fn in_scope(family: IpFamily, table: u32, of: IpFamily, number: u32) -> bool {
    (family is Unspecified || of == family) && (table == 0 || number == table)
}

/// Whether a subscription to routes of a family and a table gets an event. What
/// is about neither routes nor rules passes untouched.
pub open spec fn event_in_scope(event: NetworkEvent, family: IpFamily, table: u32) -> bool {
    match event.payload {
        Some(NetworkEventPayload::Route(e)) => match e.route {
            Some(route) => in_scope(family, table, route.family, route.table),
            None => true,
        },
        Some(NetworkEventPayload::Rule(e)) => match e.rule {
            Some(rule) => in_scope(family, table, rule.family, rule.table),
            None => true,
        },
        _ => true,
    }
}

pub fn route_event_matches(event: &NetworkEvent, family: IpFamily, table: u32) -> (r: bool)
    ensures
        r == event_in_scope(*event, family, table),
{
    match &event.payload {
        Some(NetworkEventPayload::Route(e)) => match &e.route {
            Some(route) => (family == IpFamily::Unspecified || route.family == family) && (table == 0
                || route.table == table),
            None => true,
        },
        Some(NetworkEventPayload::Rule(e)) => match &e.rule {
            Some(rule) => (family == IpFamily::Unspecified || rule.family == family) && (table == 0
                || rule.table == table),
            None => true,
        },
        _ => true,
    }
}

// ---- Watching sockets -----------------------------------------------------------

/// How long to wait between two dumps.
pub open spec fn poll_pause(requested: u32) -> u64 {
    if requested == 0 {
        DEFAULT_SOCKET_POLL_MS
    } else if requested < MIN_SOCKET_POLL_MS {
        MIN_SOCKET_POLL_MS
    } else if requested > MAX_SOCKET_POLL_MS {
        MAX_SOCKET_POLL_MS
    } else {
        requested as u64
    }
}

/// How long to wait between two dumps: zero means the daemon's choice, and
/// anything else is clamped.
pub fn socket_poll_ms(requested: u32) -> (r: u64)
    ensures
        r == poll_pause(requested),
        MIN_SOCKET_POLL_MS <= r <= MAX_SOCKET_POLL_MS,
{
    if requested == 0 {
        DEFAULT_SOCKET_POLL_MS
    } else if (requested as u64) < MIN_SOCKET_POLL_MS {
        MIN_SOCKET_POLL_MS
    } else if (requested as u64) > MAX_SOCKET_POLL_MS {
        MAX_SOCKET_POLL_MS
    } else {
        requested as u64
    }
}

/// What a socket is known by. The cookie is the kernel's own stable identity
/// for a socket; the 4-tuple is not, because ports get reused.
pub open spec fn identity(s: Socket) -> u64 {
    if s.socket_cookie != 0 {
        s.socket_cookie
    } else {
        s.inode
    }
}

fn identity_of(s: &Socket) -> (r: u64)
    ensures
        r == identity(*s),
{
    if s.socket_cookie != 0 {
        s.socket_cookie
    } else {
        s.inode
    }
}

pub open spec fn is_socket(key: u64) -> spec_fn(Socket) -> bool {
    |s: Socket| identity(s) == key
}

pub open spec fn is_other_socket(key: u64) -> spec_fn(Socket) -> bool {
    |s: Socket| identity(s) != key
}

/// The sockets of a dump, one for each identity: the last one counts.
pub open spec fn baseline(dump: Seq<Socket>) -> Seq<Socket>
    decreases dump.len(),
{
    if dump.len() == 0 {
        Seq::empty()
    } else {
        baseline(dump.drop_last()).filter(is_other_socket(identity(dump.last()))).push(dump.last())
    }
}

/// The sockets of a dump, one for each identity.
pub fn socket_baseline(dump: Vec<Socket>) -> (r: Vec<Socket>)
    ensures
        r@ == baseline(dump@),
{
    let ghost all = dump@;
    let mut out: Vec<Socket> = Vec::new();
    assert(all.take(0) =~= Seq::empty());
    for socket in it: dump
        invariant
            it.seq() == all,
            out@ == baseline(all.take(it.index())),
    {
        let ghost i = it.index();
        assert(all.take(i + 1).drop_last() =~= all.take(i));
        assert(all.take(i + 1).last() == socket);
        let key = identity_of(&socket);
        let other = |s: &Socket| -> (b: bool)
            ensures
                b == is_other_socket(key)(*s),
            { identity_of(s) != key };
        out = keep(out, other, Ghost(is_other_socket(key)));
        out.push(socket);
    }
    assert(all.take(all.len() as int) =~= all);
    out
}

/// A change between two dumps.
pub struct SocketChange {
    pub socket: Socket,
    pub previous_state: Option<TcpState>,
    pub appeared: bool,
    pub disappeared: bool,
}

/// What became of a socket that is there now.
pub open spec fn change_of(previous: Seq<Socket>, s: Socket) -> Option<SocketChange> {
    match find(previous, is_socket(identity(s))) {
        None => Some(
            SocketChange { socket: s, previous_state: None, appeared: true, disappeared: false },
        ),
        Some(old) => if old.state != s.state {
            Some(
                SocketChange {
                    socket: s,
                    previous_state: Some(old.state),
                    appeared: false,
                    disappeared: false,
                },
            )
        } else {
            None
        },
    }
}

/// The sockets that came or changed.
pub open spec fn arrivals(previous: Seq<Socket>, current: Seq<Socket>) -> Seq<SocketChange>
    decreases current.len(),
{
    if current.len() == 0 {
        Seq::empty()
    } else {
        let before = arrivals(previous, current.drop_last());
        match change_of(previous, current.last()) {
            Some(c) => before.push(c),
            None => before,
        }
    }
}

/// The sockets that went.
pub open spec fn departures(previous: Seq<Socket>, current: Seq<Socket>) -> Seq<SocketChange>
    decreases previous.len(),
{
    if previous.len() == 0 {
        Seq::empty()
    } else {
        let before = departures(previous.drop_last(), current);
        let s = previous.last();
        if find(current, is_socket(identity(s))) is None {
            before.push(
                SocketChange { socket: s, previous_state: None, appeared: false, disappeared: true },
            )
        } else {
            before
        }
    }
}

/// Whether two changes are alike.
pub open spec fn same_change(a: SocketChange, b: SocketChange) -> bool {
    &&& same_socket(a.socket, b.socket)
    &&& a.previous_state == b.previous_state
    &&& a.appeared == b.appeared
    &&& a.disappeared == b.disappeared
}

pub open spec fn same_changes(a: Seq<SocketChange>, b: Seq<SocketChange>) -> bool {
    a.len() == b.len() && forall|i: int| 0 <= i < a.len() ==> same_change(#[trigger] a[i], b[i])
}

fn place_of(list: &Vec<Socket>, key: u64) -> (r: Option<usize>)
    ensures
        match r {
            Some(i) => i < list.len() && find(list@, is_socket(key)) == Some(list@[i as int]),
            None => find(list@, is_socket(key)) is None,
        },
{
    let it = |s: &Socket| -> (b: bool)
        ensures
            b == is_socket(key)(*s),
        { identity_of(s) == key };
    position_of(list, it, Ghost(is_socket(key)))
}

/// The differences between two dumps: what came or changed, then what went.
pub fn socket_changes(previous: &Vec<Socket>, current: &Vec<Socket>) -> (r: Vec<SocketChange>)
    ensures
        same_changes(r@, arrivals(previous@, current@) + departures(previous@, current@)),
{
    let mut out: Vec<SocketChange> = Vec::new();
    let mut i: usize = 0;
    while i < current.len()
        invariant
            i <= current.len(),
            same_changes(out@, arrivals(previous@, current@.take(i as int))),
        decreases current.len() - i,
    {
        assert(current@.take(i + 1).drop_last() =~= current@.take(i as int));
        let s = &current[i];
        match place_of(previous, identity_of(s)) {
            None => {
                out.push(
                    SocketChange {
                        socket: s.copy(),
                        previous_state: None,
                        appeared: true,
                        disappeared: false,
                    },
                );
            },
            Some(at) => {
                let old_state = previous[at].state;
                if old_state != s.state {
                    out.push(
                        SocketChange {
                            socket: s.copy(),
                            previous_state: Some(old_state),
                            appeared: false,
                            disappeared: false,
                        },
                    );
                }
            },
        }
        i += 1;
    }
    assert(current@.take(current.len() as int) =~= current@);
    let ghost came = arrivals(previous@, current@);
    let mut i: usize = 0;
    assert(came + departures(previous@.take(0), current@) =~= came);
    while i < previous.len()
        invariant
            i <= previous.len(),
            came == arrivals(previous@, current@),
            same_changes(out@, came + departures(previous@.take(i as int), current@)),
        decreases previous.len() - i,
    {
        let ghost gone = departures(previous@.take(i as int), current@);
        assert(previous@.take(i + 1).drop_last() =~= previous@.take(i as int));
        let s = &previous[i];
        if place_of(current, identity_of(s)).is_none() {
            let change = SocketChange {
                socket: s.copy(),
                previous_state: None,
                appeared: false,
                disappeared: true,
            };
            out.push(change);
        }
        i += 1;
    }
    assert(previous@.take(previous.len() as int) =~= previous@);
    out
}

/// Two dumps with the same sockets in the same states differ in nothing.
pub proof fn law_no_change_is_reported_without_one(sockets: Seq<Socket>)
    requires
        forall|i: int, j: int|
            0 <= i < j < sockets.len() ==> identity(#[trigger] sockets[i]) != identity(
                #[trigger] sockets[j],
            ),
    ensures
        arrivals(sockets, sockets).len() == 0,
        departures(sockets, sockets).len() == 0,
{
    assert forall|i: int| 0 <= i < sockets.len() implies find(
        sockets,
        is_socket(identity(#[trigger] sockets[i])),
    ) == Some(sockets[i]) by {
        lemma_find_own(sockets, i);
    }
    lemma_no_arrivals(sockets, sockets);
    lemma_no_departures(sockets, sockets);
}

proof fn lemma_find_own(s: Seq<Socket>, i: int)
    requires
        0 <= i < s.len(),
        forall|a: int, b: int|
            0 <= a < b < s.len() ==> identity(#[trigger] s[a]) != identity(#[trigger] s[b]),
    ensures
        find(s, is_socket(identity(s[i]))) == Some(s[i]),
    decreases s.len(),
{
    if i > 0 {
        assert(identity(s[0]) != identity(s[i]));
        let rest = s.skip(1);
        assert(rest[i - 1] == s[i]);
        assert forall|a: int, b: int| 0 <= a < b < rest.len() implies identity(#[trigger] rest[a])
            != identity(#[trigger] rest[b]) by {
            assert(identity(s[a + 1]) != identity(s[b + 1]));
        }
        lemma_find_own(rest, i - 1);
    }
}

proof fn lemma_no_arrivals(previous: Seq<Socket>, current: Seq<Socket>)
    requires
        forall|i: int|
            0 <= i < current.len() ==> find(previous, is_socket(identity(#[trigger] current[i])))
                == Some(current[i]),
    ensures
        arrivals(previous, current).len() == 0,
    decreases current.len(),
{
    if current.len() > 0 {
        assert(find(previous, is_socket(identity(current[current.len() - 1]))) == Some(current.last()));
        lemma_no_arrivals(previous, current.drop_last());
    }
}

proof fn lemma_no_departures(previous: Seq<Socket>, current: Seq<Socket>)
    requires
        forall|i: int|
            0 <= i < previous.len() ==> find(current, is_socket(identity(#[trigger] previous[i])))
                == Some(previous[i]),
    ensures
        departures(previous, current).len() == 0,
    decreases previous.len(),
{
    if previous.len() > 0 {
        assert(find(current, is_socket(identity(previous[previous.len() - 1]))) == Some(
            previous.last(),
        ));
        lemma_no_departures(previous.drop_last(), current);
    }
}

/// A change of a socket in a line. The mark is what ties the socket to a
/// framework network, so it belongs in the line.
pub open spec fn change_text(c: SocketChange) -> Seq<char> {
    let s = c.socket;
    let local = match s.local_address {
        Some(a) => a.text(),
        None => ""@,
    };
    let remote = match s.remote_address {
        Some(a) => a.text(),
        None => ""@,
    };
    let mark = if s.has_mark {
        " mark "@ + mark_text(s.mark)
    } else {
        ""@
    };
    let ends = local +
        ":"@ +
        dec(s.local_port as nat) +
        " -> "@ +
        remote +
        ":"@ +
        dec(s.remote_port as nat) +
        " (uid "@ +
        dec(s.uid as nat) +
        ")"@ +
        mark;
    if c.disappeared {
        "socket closed: "@ + ends
    } else if c.appeared {
        "socket "@ + s.state.name_text() + ": "@ + ends
    } else {
        "socket "@ +
            or(c.previous_state, TcpState::Unspecified).name_text() +
            " -> "@ +
            s.state.name_text() +
            ": "@ +
            ends
    }
}

/// Whether an event tells a change of a socket.
pub open spec fn tells_change(
    r: NetworkEvent,
    c: SocketChange,
    unix_ms: i64,
    monotonic_ns: u64,
) -> bool {
    &&& r.source == EventSource::Kernel
    &&& r.severity == if c.socket.state is SynSent {
        EventSeverity::Notice
    } else {
        EventSeverity::Debug
    }
    &&& r.summary@ == change_text(c)
    &&& r.sequence == 0
    &&& r.unix_ms == unix_ms
    &&& r.monotonic_ns == monotonic_ns
    &&& r.payload == Some(
        NetworkEventPayload::Socket(
            SocketEvent {
                socket: Some(c.socket),
                previous_state: or(c.previous_state, TcpState::Unspecified),
                appeared: c.appeared,
                disappeared: c.disappeared,
            },
        ),
    )
}

/// A change of a socket as an event.
pub fn socket_event(c: SocketChange, unix_ms: i64, monotonic_ns: u64) -> (r: NetworkEvent)
    ensures
        tells_change(r, c, unix_ms, monotonic_ns),
{
    let s = &c.socket;
    let local = match &s.local_address {
        Some(a) => a.display(),
        None => String::from_str(""),
    };
    let remote = match &s.remote_address {
        Some(a) => a.display(),
        None => String::from_str(""),
    };
    let mark = if s.has_mark {
        let text = describe_mark(s.mark);
        String::from_str(" mark ").concat(text.as_str())
    } else {
        String::from_str("")
    };
    let local_port = dec_string(s.local_port as u64);
    let remote_port = dec_string(s.remote_port as u64);
    let uid = dec_string(s.uid as u64);
    let ends = String::from_str(local.as_str())
        .concat(":")
        .concat(local_port.as_str())
        .concat(" -> ")
        .concat(remote.as_str())
        .concat(":")
        .concat(remote_port.as_str())
        .concat(" (uid ")
        .concat(uid.as_str())
        .concat(")")
        .concat(mark.as_str());
    let previous = match c.previous_state {
        Some(p) => p,
        None => TcpState::Unspecified,
    };
    let summary = if c.disappeared {
        String::from_str("socket closed: ").concat(ends.as_str())
    } else if c.appeared {
        String::from_str("socket ")
            .concat(s.state.name())
            .concat(": ")
            .concat(ends.as_str())
    } else {
        String::from_str("socket ")
            .concat(previous.name())
            .concat(" -> ")
            .concat(s.state.name())
            .concat(": ")
            .concat(ends.as_str())
    };
    let severity = if s.state == TcpState::SynSent {
        EventSeverity::Notice
    } else {
        EventSeverity::Debug
    };
    NetworkEvent {
        sequence: 0,
        unix_ms,
        monotonic_ns,
        source: EventSource::Kernel,
        severity,
        summary,
        payload: Some(
            NetworkEventPayload::Socket(
                SocketEvent {
                    socket: Some(c.socket),
                    previous_state: previous,
                    appeared: c.appeared,
                    disappeared: c.disappeared,
                },
            ),
        ),
    }
}

} // verus!
