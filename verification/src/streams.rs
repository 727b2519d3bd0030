//! What a subscription sends, and how it ends.
use vstd::prelude::*;

use crate::daemon::{
    arrivals, baseline, departures, event_in_scope, lag_notice, presents, replay_event,
    route_event_matches, route_watch_filter, same_changes, socket_baseline, socket_changes,
    tells_gap, watched_family, SocketChange,
};
use crate::ipc::session::StreamOutcome;
use crate::proto::{
    EventFilter, Interface, IpFamily, NetworkEvent, Socket, WatchRoutesRequest,
};
use crate::watch::{matches_filter, wants};

verus! {

/// What the event bus hands to a subscriber.
pub enum BusReading {
    Event(NetworkEvent),
    /// The subscriber was too slow, and this many events are gone.
    Lagged(u64),
    Closed,
}

/// What a subscription does next.
pub enum WatchStep {
    /// Send an event, which counts as an item of the stream or not.
    Send { event: NetworkEvent, counts: bool },
    Skip,
    End(StreamOutcome),
}

/// Whether a stream ended in these words, after so many items and without an
/// error.
pub open spec fn ended(outcome: StreamOutcome, words: Seq<char>, items: u64) -> bool {
    outcome.reason@ == words && outcome.items_sent == items && outcome.error is None
}

/// A subscription to events.
pub struct EventWatch {
    pub filter: EventFilter,
    /// Routes and rules of other families are not sent.
    pub family: IpFamily,
    /// Routes and rules of other tables are not sent; zero is any table.
    pub table: u32,
    pub sent: u64,
}

impl EventWatch {
    /// Whether an event is sent.
    pub open spec fn sends(self, event: NetworkEvent) -> bool {
        wants(self.filter, event) && event_in_scope(event, self.family, self.table)
    }

    /// Whether this is what is done with a reading of the bus.
    pub open spec fn takes(
        self,
        reading: BusReading,
        unix_ms: i64,
        monotonic_ns: u64,
        r: WatchStep,
    ) -> bool {
        match reading {
            BusReading::Event(event) => if self.sends(event) {
                r == (WatchStep::Send { event, counts: true })
            } else {
                r is Skip
            },
            BusReading::Lagged(missed) => r is Send && !r->counts && tells_gap(
                r->event,
                missed,
                unix_ms,
                monotonic_ns,
            ),
            BusReading::Closed => r is End && ended(r->End_0, "the event bus closed"@, self.sent),
        }
    }

    /// A subscription to the timeline; without a filter, to all of it.
    pub fn network(filter: Option<EventFilter>) -> (r: Self)
        ensures
            match filter {
                Some(filter) => r.filter == filter,
                None => forall|e: NetworkEvent| wants(r.filter, e),
            },
            r.family is Unspecified,
            r.table == 0,
            r.sent == 0,
    {
        let filter = match filter {
            Some(filter) => filter,
            None => EventFilter {
                links: false,
                addresses: false,
                routes: false,
                rules: false,
                neighbors: false,
                sockets: false,
                min_severity: 0,
                exclude_neighbor_probe_noise: false,
                socket_uids: Vec::new(),
            },
        };
        EventWatch { filter, family: IpFamily::Unspecified, table: 0, sent: 0 }
    }

    /// A subscription to routes, and to rules where they are asked for.
    pub fn routes(request: &WatchRoutesRequest) -> (r: Self)
        ensures
            r.filter.routes,
            r.filter.rules == request.include_rules,
            !r.filter.links && !r.filter.addresses && !r.filter.neighbors && !r.filter.sockets,
            r.filter.min_severity == 0,
            !r.filter.exclude_neighbor_probe_noise,
            r.filter.socket_uids@.len() == 0,
            r.family == crate::seqs::or(
                crate::daemon::numbered_family(request.family),
                IpFamily::Unspecified,
            ),
            r.table == request.table,
            r.sent == 0,
    {
        EventWatch {
            filter: route_watch_filter(request),
            family: watched_family(request.family),
            table: request.table,
            sent: 0,
        }
    }

    /// What to do with a reading of the bus. A subscriber that fell behind is told
    /// how much it missed, rather than losing events in silence.
    pub fn next(&self, reading: BusReading, unix_ms: i64, monotonic_ns: u64) -> (r: WatchStep)
        ensures
            self.takes(reading, unix_ms, monotonic_ns, r),
    {
        match reading {
            BusReading::Event(event) => {
                if matches_filter(&event, &self.filter) && route_event_matches(
                    &event,
                    self.family,
                    self.table,
                ) {
                    WatchStep::Send { event, counts: true }
                } else {
                    WatchStep::Skip
                }
            },
            BusReading::Lagged(missed) => WatchStep::Send {
                event: lag_notice(missed, unix_ms, monotonic_ns),
                counts: false,
            },
            BusReading::Closed => WatchStep::End(
                StreamOutcome::done(String::from_str("the event bus closed"), self.sent),
            ),
        }
    }

    /// What to do with an interface that was there before the subscription.
    pub fn replay(&self, interface: Interface, unix_ms: i64, monotonic_ns: u64) -> (r: WatchStep)
        ensures
            match r {
                WatchStep::Send { event, counts } => {
                    &&& counts
                    &&& presents(event, interface, unix_ms, monotonic_ns)
                    &&& wants(self.filter, event)
                },
                WatchStep::Skip => forall|event: NetworkEvent|
                    presents(event, interface, unix_ms, monotonic_ns) ==> !#[trigger] wants(
                        self.filter,
                        event,
                    ),
                WatchStep::End(_) => false,
            },
    {
        let event = replay_event(interface, unix_ms, monotonic_ns);
        if matches_filter(&event, &self.filter) {
            WatchStep::Send { event, counts: true }
        } else {
            WatchStep::Skip
        }
    }

    /// What became of an event that was to be sent. The stream ends where the
    /// client is gone.
    pub fn delivered(&mut self, counts: bool, delivered: bool) -> (r: Option<StreamOutcome>)
        requires
            old(self).sent < u64::MAX,
        ensures
            final(self).sent == old(self).sent + if delivered && counts {
                1int
            } else {
                0
            },
            final(self).filter == old(self).filter,
            final(self).family == old(self).family,
            final(self).table == old(self).table,
            match r {
                Some(outcome) => !delivered && ended(
                    outcome,
                    "client disconnected"@,
                    old(self).sent,
                ),
                None => delivered,
            },
    {
        if !delivered {
            return Some(
                StreamOutcome::done(String::from_str("client disconnected"), self.sent),
            );
        }
        if counts {
            self.sent = self.sent + 1;
        }
        None
    }
}

/// A subscription to the timeline sends what its filter wants, whatever family
/// or table a route is of.
pub proof fn law_timeline_has_no_scope(watch: EventWatch, event: NetworkEvent)
    requires
        watch.family is Unspecified,
        watch.table == 0,
    ensures
        watch.sends(event) == wants(watch.filter, event),
{
}

/// A subscription to sockets, which have no multicast group for changes of
/// state: it polls and reports the differences.
pub struct SocketWatch {
    /// The sockets of the last poll, one for each identity.
    pub previous: Option<Vec<Socket>>,
    pub sent: u64,
}

impl SocketWatch {
    pub fn new() -> (r: Self)
        ensures
            r.previous is None,
            r.sent == 0,
    {
        SocketWatch { previous: None, sent: 0 }
    }

    /// The differences that a dump makes. The first one is the baseline:
    /// reporting every existing socket as new would bury the real changes.
    pub fn poll(&mut self, dump: Vec<Socket>) -> (r: Vec<SocketChange>)
        ensures
            final(self).previous is Some,
            (final(self).previous->0)@ == baseline(dump@),
            final(self).sent == old(self).sent,
            match old(self).previous {
                Some(previous) => same_changes(
                    r@,
                    arrivals(previous@, baseline(dump@)) + departures(
                        previous@,
                        baseline(dump@),
                    ),
                ),
                None => r@.len() == 0,
            },
    {
        let current = socket_baseline(dump);
        let changes = match &self.previous {
            Some(previous) => socket_changes(previous, &current),
            None => Vec::new(),
        };
        self.previous = Some(current);
        changes
    }

    /// What became of a change that was to be sent. One that is a socket going
    /// is not counted.
    pub fn delivered(&mut self, disappeared: bool, delivered: bool) -> (r: Option<StreamOutcome>)
        requires
            old(self).sent < u64::MAX,
        ensures
            final(self).sent == old(self).sent + if delivered && !disappeared {
                1int
            } else {
                0
            },
            final(self).previous == old(self).previous,
            match r {
                Some(outcome) => !delivered && ended(
                    outcome,
                    "client disconnected"@,
                    old(self).sent,
                ),
                None => delivered,
            },
    {
        if !delivered {
            return Some(
                StreamOutcome::done(String::from_str("client disconnected"), self.sent),
            );
        }
        if !disappeared {
            self.sent = self.sent + 1;
        }
        None
    }
}

/// How the stream of a diagnosis ends: its checks and the report were sent.
pub fn diagnosis_outcome(checks_sent: u64) -> (r: StreamOutcome)
    requires
        checks_sent < u64::MAX,
    ensures
        ended(r, "diagnosis complete"@, (checks_sent + 1) as u64),
{
    StreamOutcome::done(String::from_str("diagnosis complete"), checks_sent + 1)
}

} // verus!
