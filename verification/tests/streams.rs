use netdiag::ipc::session::{Action, ClientBody, Session, StreamCall};
use netdiag::proto::{
    CancelRequest, EventFilter, EventSeverity, HelloRequest, Interface, IpFamily, LinkFlags,
    NetworkEvent, NetworkEventPayload, Route, RouteEvent, Socket, StopCaptureRequest, TcpState,
    WatchNetworkRequest, WatchRoutesRequest,
};
use netdiag::streams::{diagnosis_outcome, BusReading, EventWatch, SocketWatch, WatchStep};

fn route_event(family: IpFamily, table: u32) -> NetworkEvent {
    NetworkEvent {
        payload: Some(NetworkEventPayload::Route(RouteEvent {
            route: Some(Route { family, table, ..Default::default() }),
            ..Default::default()
        })),
        ..Default::default()
    }
}

fn sent(step: WatchStep) -> Option<(NetworkEvent, bool)> {
    match step {
        WatchStep::Send { event, counts } => Some((event, counts)),
        _ => None,
    }
}

#[test]
fn the_timeline_has_no_scope() {
    let watch = EventWatch::network(None);
    for family in [IpFamily::V4, IpFamily::V6, IpFamily::Unspecified] {
        let step = watch.next(BusReading::Event(route_event(family, 1051)), 1, 2);
        assert!(sent(step).unwrap().1);
    }
    let links = EventWatch::network(Some(EventFilter { links: true, ..Default::default() }));
    assert!(sent(links.next(BusReading::Event(route_event(IpFamily::V4, 1)), 1, 2)).is_none());
}

#[test]
fn a_route_watch_narrows_and_every_watch_admits_to_gaps() {
    let watch = EventWatch::routes(&WatchRoutesRequest { family: 2, table: 1051, include_rules: false });
    assert!(sent(watch.next(BusReading::Event(route_event(IpFamily::V6, 1051)), 1, 2)).is_some());
    assert!(sent(watch.next(BusReading::Event(route_event(IpFamily::V6, 254)), 1, 2)).is_none());
    assert!(sent(watch.next(BusReading::Event(route_event(IpFamily::V4, 1051)), 1, 2)).is_none());
    for watch in [watch, EventWatch::network(None)] {
        let (notice, counts) = sent(watch.next(BusReading::Lagged(3), 1, 2)).unwrap();
        assert_eq!(
            notice.summary,
            "3 event(s) were dropped because this subscription could not keep up"
        );
        assert!(!counts);
    }
}

#[test]
fn a_watch_ends_where_the_client_or_the_bus_does() {
    let mut watch = EventWatch::network(None);
    assert!(watch.delivered(true, true).is_none());
    assert!(watch.delivered(false, true).is_none());
    match watch.next(BusReading::Closed, 1, 2) {
        WatchStep::End(outcome) => {
            assert_eq!(outcome.reason, "the event bus closed");
            assert_eq!(outcome.items_sent, 1);
        }
        _ => panic!("a closed bus ends the stream"),
    }
    let outcome = watch.delivered(true, false).unwrap();
    assert_eq!((outcome.reason.as_str(), outcome.items_sent), ("client disconnected", 1));
    let done = diagnosis_outcome(24);
    assert_eq!((done.reason.as_str(), done.items_sent), ("diagnosis complete", 25));
}

#[test]
fn interfaces_are_replayed_through_the_filter() {
    let interface = || Interface {
        name: "wlan0".to_string(),
        flags: Some(LinkFlags { up: true, ..Default::default() }),
        ..Default::default()
    };
    let (event, counts) = sent(EventWatch::network(None).replay(interface(), 5, 6)).unwrap();
    assert_eq!(event.summary, "wlan0 is up (initial state)");
    assert!(counts);
    let strict = EventFilter { min_severity: EventSeverity::Warning.rank(), ..Default::default() };
    assert!(sent(EventWatch::network(Some(strict)).replay(interface(), 5, 6)).is_none());
}

#[test]
fn the_first_poll_of_sockets_is_the_baseline() {
    let socket = |cookie: u64, state: TcpState| Socket {
        socket_cookie: cookie,
        state,
        ..Default::default()
    };
    let mut watch = SocketWatch::new();
    assert!(watch.poll(vec![socket(1, TcpState::SynSent)]).is_empty());
    assert!(watch.poll(vec![socket(1, TcpState::SynSent)]).is_empty());
    let changes = watch.poll(vec![socket(1, TcpState::Established), socket(2, TcpState::SynSent)]);
    assert_eq!(changes.len(), 2);
    assert_eq!(changes[0].previous_state, Some(TcpState::SynSent));
    assert!(watch.delivered(false, true).is_none());
    assert!(watch.delivered(true, true).is_none());
    assert_eq!(watch.sent, 1);
    let outcome = watch.delivered(false, false).unwrap();
    assert_eq!((outcome.reason.as_str(), outcome.items_sent), ("client disconnected", 1));
}

#[test]
fn a_stream_stops_with_its_end() {
    let mut session = Session::new();
    session.serve(1, Some(ClientBody::Hello(HelloRequest::default())));
    let watch = || {
        Some(ClientBody::Stream(StreamCall::WatchNetwork(WatchNetworkRequest::default())))
    };
    session.serve(10, watch());
    session.serve(11, watch());
    assert_eq!(session.registry.streams.len(), 2);
    let stop = |capture_id: u64| Some(ClientBody::StopCapture(StopCaptureRequest { capture_id }));
    assert!(matches!(
        session.serve(2, stop(10)),
        Action::StopCapture { was_stream: true, capture_id: 10, .. }
    ));
    assert_eq!(session.registry.streams, vec![11]);
    assert!(matches!(session.serve(3, stop(10)), Action::StopCapture { was_stream: false, .. }));
    let cancel = Some(ClientBody::Cancel(CancelRequest { target_id: 11 }));
    assert!(matches!(session.serve(4, cancel), Action::Cancelled { was_active: true, .. }));
    assert!(session.registry.streams.is_empty());
}
