use netdiag::collect::links::{
    AddressAttribute, AddressMessage, LinkAttribute, LinkMessage, IFF_RUNNING, IFF_UP,
};
use netdiag::collect::neigh::{NeighbourAttribute, NeighbourMessage};
use netdiag::collect::routes::{RouteAttribute, RouteMessage, RuleAttribute, RuleMessage};
use netdiag::ip::IpAddr;
use netdiag::ip_parse::read_ip;
use netdiag::proto::{
    AddressEvent, DaemonEvent, EventFilter, EventSeverity, EventSource, LinkEvent, Neighbor,
    NeighborEvent, NeighborState, NetworkEvent, NetworkEventPayload, RouteEvent, Socket, SocketEvent,
};
use netdiag::watch::{matches_filter, translate, EventBus, KernelMessage, StateCache};

fn event_with(payload: NetworkEventPayload) -> NetworkEvent {
    NetworkEvent { payload: Some(payload), ..Default::default() }
}

#[test]
fn an_empty_filter_accepts_everything() {
    let filter = EventFilter::default();
    assert!(matches_filter(&event_with(NetworkEventPayload::Link(LinkEvent::default())), &filter));
    assert!(matches_filter(&event_with(NetworkEventPayload::Route(RouteEvent::default())), &filter));
}

#[test]
fn selecting_one_class_excludes_the_others() {
    let filter = EventFilter { routes: true, ..Default::default() };
    assert!(matches_filter(&event_with(NetworkEventPayload::Route(RouteEvent::default())), &filter));
    assert!(!matches_filter(&event_with(NetworkEventPayload::Link(LinkEvent::default())), &filter));
}

#[test]
fn daemon_events_always_pass() {
    let filter = EventFilter { routes: true, ..Default::default() };
    assert!(matches_filter(&event_with(NetworkEventPayload::Daemon(DaemonEvent::default())), &filter));
}

#[test]
fn neighbour_probe_noise_can_be_excluded() {
    let filter = EventFilter {
        neighbors: true,
        exclude_neighbor_probe_noise: true,
        ..Default::default()
    };
    let neighbor = |state: NeighborState| {
        event_with(NetworkEventPayload::Neighbor(NeighborEvent {
            neighbor: Some(Neighbor { state, ..Default::default() }),
            ..Default::default()
        }))
    };
    assert!(!matches_filter(&neighbor(NeighborState::Probe), &filter));
    assert!(matches_filter(&neighbor(NeighborState::Failed), &filter));
}

#[test]
fn socket_events_can_be_narrowed_to_uids() {
    let filter = EventFilter { sockets: true, socket_uids: vec![10342], ..Default::default() };
    let socket = |uid: u32| {
        event_with(NetworkEventPayload::Socket(SocketEvent {
            socket: Some(Socket { uid, ..Default::default() }),
            ..Default::default()
        }))
    };
    assert!(matches_filter(&socket(10342), &filter));
    assert!(!matches_filter(&socket(10999), &filter));
}

#[test]
fn severity_floor_is_applied() {
    let filter = EventFilter { min_severity: EventSeverity::Warning.rank(), ..Default::default() };
    let address = |severity: EventSeverity| NetworkEvent {
        severity,
        payload: Some(NetworkEventPayload::Address(AddressEvent::default())),
        ..Default::default()
    };
    assert!(!matches_filter(&address(EventSeverity::Debug), &filter));
    assert!(matches_filter(&address(EventSeverity::Warning), &filter));
}

#[test]
fn nothing_passes_a_floor_above_every_severity() {
    let warning = NetworkEvent { severity: EventSeverity::Warning, ..Default::default() };
    assert!(matches_filter(&warning, &EventFilter { min_severity: 4, ..Default::default() }));
    assert!(!matches_filter(&warning, &EventFilter { min_severity: 9, ..Default::default() }));
    assert!(matches_filter(&warning, &EventFilter { min_severity: -1, ..Default::default() }));
}

#[test]
fn the_bus_stamps_sequence_numbers_in_order() {
    let mut bus = EventBus::new();
    let a = bus.publish_daemon("first".to_string(), 10);
    let b = bus.publish_daemon("second".to_string(), 11);
    assert_eq!(a.summary, "first");
    assert_eq!(b.summary, "second");
    assert!(b.sequence > a.sequence);
    assert!(b.monotonic_ns >= a.monotonic_ns);
    assert_eq!(a.source, EventSource::Daemon);
    assert!(a.unix_ms > 0);
}

fn link(index: u32, flags: u32, name: &str, mtu: u32) -> LinkMessage {
    LinkMessage {
        index,
        flags,
        link_layer_type: 1,
        attributes: vec![LinkAttribute::IfName(name.to_string()), LinkAttribute::Mtu(mtu)],
    }
}

fn summary(message: KernelMessage, cache: &mut StateCache) -> Option<(EventSeverity, String)> {
    translate(message, cache).map(|e| (e.severity, e.summary))
}

#[test]
fn links_are_reported_as_transitions() {
    let mut cache = StateCache::new();
    let up = IFF_UP | IFF_RUNNING;
    let say = |m: KernelMessage, cache: &mut StateCache| summary(m, cache).unwrap();
    assert_eq!(
        say(KernelMessage::NewLink(link(3, up, "wlan0", 1500)), &mut cache),
        (EventSeverity::Info, "wlan0 up".to_string())
    );
    assert_eq!(
        say(KernelMessage::NewLink(link(3, up, "wlan0", 1400)), &mut cache).1,
        "wlan0 MTU 1500 -> 1400"
    );
    assert_eq!(
        say(KernelMessage::NewLink(link(3, IFF_UP, "wlan0", 1400)), &mut cache).1,
        "wlan0 up, no carrier"
    );
    assert_eq!(
        say(KernelMessage::NewLink(link(3, 0, "wlan0", 1400)), &mut cache),
        (EventSeverity::Notice, "wlan0 down".to_string())
    );
    let nameless = LinkMessage { index: 3, flags: 0, link_layer_type: 1, attributes: vec![] };
    assert_eq!(say(KernelMessage::DelLink(nameless), &mut cache).1, "wlan0 removed");
    let unknown = LinkMessage { index: 9, flags: 0, link_layer_type: 1, attributes: vec![] };
    assert_eq!(say(KernelMessage::DelLink(unknown), &mut cache).1, "if9 removed");
}

fn address(ip: &str, scope: u8) -> AddressMessage {
    AddressMessage {
        index: 3,
        flags: 0,
        scope,
        prefix_len: 64,
        attributes: vec![AddressAttribute::Address(read_ip(ip).unwrap())],
    }
}

#[test]
fn a_family_is_lost_with_its_last_global_address() {
    let mut cache = StateCache::new();
    let say = |m: KernelMessage, cache: &mut StateCache| summary(m, cache).unwrap();
    // A link-local address says nothing of the family.
    let local = || address("fe80::1", 253);
    assert_eq!(
        say(KernelMessage::NewAddress(local()), &mut cache),
        (EventSeverity::Debug, "if3 address added fe80::1/64".to_string())
    );
    assert_eq!(
        say(KernelMessage::NewAddress(address("2001:db8::1", 0)), &mut cache),
        (EventSeverity::Notice, "if3 gained IPv6 (2001:db8::1/64)".to_string())
    );
    assert_eq!(
        say(KernelMessage::NewAddress(address("2001:db8::2", 0)), &mut cache).1,
        "if3 address added 2001:db8::2/64"
    );
    assert_eq!(
        say(KernelMessage::DelAddress(address("2001:db8::1", 0)), &mut cache).1,
        "if3 address removed 2001:db8::1/64"
    );
    assert_eq!(
        say(KernelMessage::DelAddress(address("2001:db8::2", 0)), &mut cache),
        (
            EventSeverity::Warning,
            "if3 lost IPv6 (last global address 2001:db8::2/64 removed)".to_string()
        )
    );
    // It is lost once.
    assert_eq!(
        say(KernelMessage::DelAddress(address("2001:db8::2", 0)), &mut cache).0,
        EventSeverity::Debug
    );
    let none = AddressMessage { attributes: vec![], ..address("::", 0) };
    assert!(summary(KernelMessage::NewAddress(none), &mut cache).is_none());
}

#[test]
fn routes_and_rules_read_like_the_tools() {
    let mut cache = StateCache::new();
    translate(KernelMessage::NewLink(link(3, IFF_UP, "wlan0", 1500)), &mut cache);
    let route = RouteMessage {
        family: 2,
        table: 254,
        protocol: 3,
        scope: 0,
        kind: 1,
        flags: 0,
        destination_prefix_length: 0,
        attributes: vec![
            RouteAttribute::Gateway(read_ip("10.0.0.1")),
            RouteAttribute::Oif(3),
        ],
    };
    let event = translate(KernelMessage::NewRoute(route), &mut cache).unwrap();
    assert_eq!(event.severity, EventSeverity::Notice);
    assert_eq!(event.summary, "route added: default via 10.0.0.1 dev wlan0 table 254");
    let rule = RuleMessage {
        family: 2,
        table: 0,
        action: 1,
        tos: 0,
        flags: 0,
        src_len: 0,
        dst_len: 0,
        attributes: vec![
            RuleAttribute::Priority(13000),
            RuleAttribute::Table(1051),
            RuleAttribute::UidRange { start: 0, end: 99 },
        ],
    };
    let event = translate(KernelMessage::DelRule(rule), &mut cache).unwrap();
    assert_eq!(event.summary, "rule removed: priority 13000 uidrange 0-99 lookup 1051");
}

#[test]
fn neighbours_are_reported_when_their_use_changes() {
    let mut cache = StateCache::new();
    let message = |state: u16| NeighbourMessage {
        family: 2,
        ifindex: 3,
        state,
        flags: 0,
        attributes: vec![NeighbourAttribute::Destination(Some(IpAddr::V4([10, 0, 0, 1])))],
    };
    assert_eq!(
        summary(KernelMessage::NewNeighbour(message(2)), &mut cache).unwrap(),
        (EventSeverity::Info, "neighbour 10.0.0.1 reachable on if3".to_string())
    );
    // Reachable to stale is noise.
    assert!(summary(KernelMessage::NewNeighbour(message(4)), &mut cache).is_none());
    assert_eq!(
        summary(KernelMessage::NewNeighbour(message(0x20)), &mut cache).unwrap(),
        (EventSeverity::Warning, "neighbour 10.0.0.1 is Failed on if3".to_string())
    );
    assert_eq!(
        summary(KernelMessage::DelNeighbour(message(0x20)), &mut cache).unwrap().1,
        "neighbour 10.0.0.1 removed on if3"
    );
}
