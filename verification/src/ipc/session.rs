//! One client connection.
//!
//! Frames are read in a loop and dispatched concurrently, so a three-second
//! diagnosis does not block a subscription on the same socket. Streaming calls
//! are tracked by their client-assigned id so a cancel can find and stop them,
//! and so dropping the connection tears them all down rather than leaving a
//! capture running as root forever.
use vstd::prelude::*;

use crate::proto::{
    CancelRequest, CaptureFinished, DiagnoseRequest, Error, ErrorCode, GetAppNetworkStateRequest,
    GetInterfacesRequest, GetNeighborsRequest, GetRoutesRequest, GetRoutingRulesRequest,
    GetSnapshotRequest, GetSocketsRequest, HelloRequest, PushFrameworkEventRequest,
    RouteLookupRequest, StartCaptureRequest, StopCaptureRequest, StreamEnd, WatchNetworkRequest,
    WatchRoutesRequest, WatchSocketsRequest,
};
use crate::text::{dec, dec_string};

verus! {

/// Depth of the per-connection outbound queue. Deep enough to absorb a burst
/// of capture packets, shallow enough that a stalled client is noticed.
pub const WRITE_QUEUE_DEPTH: usize = 512;

/// Cap on concurrent streaming calls per connection, so one client cannot open
/// a thousand captures.
pub const MAX_STREAMS: usize = 16;

// ---- Streams --------------------------------------------------------------------

/// The streams of a connection that are running.
pub struct StreamRegistry {
    pub streams: Vec<u64>,
}

/// The position of an id.
fn place_of(ids: &Vec<u64>, id: u64) -> (r: Option<usize>)
    ensures
        match r {
            Some(i) => i < ids.len() && ids@[i as int] == id,
            None => !ids@.contains(id),
        },
{
    let mut i: usize = 0;
    while i < ids.len()
        invariant
            i <= ids.len(),
            forall|k: int| 0 <= k < i ==> ids@[k] != id,
        decreases ids.len() - i,
    {
        if ids[i] == id {
            return Some(i);
        }
        i += 1;
    }
    None
}

impl StreamRegistry {
    /// No id twice, and no more streams than allowed.
    pub open spec fn wf(self) -> bool {
        self.streams@.no_duplicates() && self.streams@.len() <= MAX_STREAMS
    }

    pub open spec fn running(self) -> Set<u64> {
        self.streams@.to_set()
    }

    pub fn new() -> (r: Self)
        ensures
            r.wf(),
            r.running() == Set::<u64>::empty(),
    {
        let r = StreamRegistry { streams: Vec::new() };
        assert(r.running() =~= Set::<u64>::empty());
        r
    }

    /// Takes in a stream, and tells whether one with the same id has to be
    /// stopped for it. Reusing an in-flight id is a client bug; the old stream
    /// is stopped rather than leaked.
    pub fn insert(&mut self, id: u64) -> (r: Result<bool, Error>)
        requires
            old(self).wf(),
        ensures
            final(self).wf(),
            match r {
                Ok(replaced) => {
                    &&& old(self).streams@.len() < MAX_STREAMS
                    &&& replaced == old(self).running().contains(id)
                    &&& final(self).running() == old(self).running().insert(id)
                },
                Err(e) => {
                    &&& old(self).streams@.len() >= MAX_STREAMS
                    &&& final(self).streams == old(self).streams
                    &&& e.code == ErrorCode::ResourceExhausted
                    &&& e.message@ == "too many concurrent streams (limit "@ +
                        dec(MAX_STREAMS as nat) +
                        ")"@
                    &&& e.detail@.len() == 0
                },
            },
    {
        if self.streams.len() >= MAX_STREAMS {
            let limit = dec_string(MAX_STREAMS as u64);
            return Err(
                Error::new(
                    ErrorCode::ResourceExhausted,
                    String::from_str("too many concurrent streams (limit ")
                        .concat(limit.as_str())
                        .concat(")"),
                ),
            );
        }
        let ghost before = self.streams@;
        match place_of(&self.streams, id) {
            Some(i) => {
                assert(before.contains(id));
                assert(before.to_set().insert(id) =~= before.to_set());
                Ok(true)
            },
            None => {
                self.streams.push(id);
                assert(before.push(id).to_set() =~= before.to_set().insert(id)) by {
                    assert forall|x: u64| before.push(id).contains(x) <==> before.contains(x) || x
                        == id by {
                        assert(before.push(id)[before.len() as int] == id);
                        if before.contains(x) {
                            let k = choose|k: int| 0 <= k < before.len() && before[k] == x;
                            assert(before.push(id)[k] == x);
                        }
                    }
                }
                Ok(false)
            },
        }
    }

    /// Whether a stream is running.
    pub fn is_running(&self, id: u64) -> (r: bool)
        ensures
            r == self.running().contains(id),
    {
        place_of(&self.streams, id).is_some()
    }

    /// Forgets a stream that is to be stopped, and tells whether it was
    /// running.
    pub fn cancel(&mut self, id: u64) -> (r: bool)
        requires
            old(self).wf(),
        ensures
            final(self).wf(),
            r == old(self).running().contains(id),
            final(self).running() == old(self).running().remove(id),
    {
        self.remove(id)
    }

    /// Forgets a stream that has ended, and tells whether it was still running.
    pub fn remove(&mut self, id: u64) -> (r: bool)
        requires
            old(self).wf(),
        ensures
            final(self).wf(),
            r == old(self).running().contains(id),
            final(self).running() == old(self).running().remove(id),
    {
        let ghost before = self.streams@;
        match place_of(&self.streams, id) {
            Some(i) => {
                let _ = self.streams.remove(i);
                let ghost after = self.streams@;
                assert(before.contains(id));
                assert forall|x: u64| after.contains(x) <==> before.contains(x) && x != id by {
                    if after.contains(x) {
                        let k = choose|k: int| 0 <= k < after.len() && after[k] == x;
                        let j = if k < i { k } else { k + 1 };
                        assert(before[j] == x);
                    }
                    if before.contains(x) && x != id {
                        let k = choose|k: int| 0 <= k < before.len() && before[k] == x;
                        let j = if k < i { k } else { k - 1 };
                        assert(after[j] == x);
                    }
                }
                assert(after.to_set() =~= before.to_set().remove(id));
                true
            },
            None => {
                assert(before.to_set().remove(id) =~= before.to_set());
                false
            },
        }
    }

    /// Forgets all streams, and tells which are to be stopped.
    pub fn abort_all(&mut self) -> (r: Vec<u64>)
        requires
            old(self).wf(),
        ensures
            final(self).wf(),
            final(self).running() == Set::<u64>::empty(),
            r@ == old(self).streams@,
    {
        let mut gone: Vec<u64> = Vec::new();
        std::mem::swap(&mut gone, &mut self.streams);
        assert(self.running() =~= Set::<u64>::empty());
        gone
    }
}

/// How a streaming call ended, so the session can send an accurate end.
pub struct StreamOutcome {
    pub reason: String,
    pub items_sent: u64,
    pub error: Option<Error>,
}

impl StreamOutcome {
    pub fn done(reason: String, items_sent: u64) -> (r: Self)
        ensures
            r == (StreamOutcome { reason, items_sent, error: None }),
    {
        StreamOutcome { reason, items_sent, error: None }
    }

    pub fn failed(error: Error, items_sent: u64) -> (r: Self)
        ensures
            r.reason@ == "error"@,
            r.items_sent == items_sent,
            r.error == Some(error),
    {
        StreamOutcome { reason: String::from_str("error"), items_sent, error: Some(error) }
    }

    /// The frame that ends the stream. Every streaming call ends with exactly
    /// one of these, including when it ends because of an error.
    pub fn end_stream(self) -> (r: StreamEnd)
        ensures
            r.reason == self.reason,
            r.items_sent == self.items_sent,
            r.error == self.error,
    {
        StreamEnd { error: self.error, reason: self.reason, items_sent: self.items_sent }
    }
}

// ---- Requests -------------------------------------------------------------------

/// A request that is answered once.
pub enum UnaryCall {
    GetSnapshot(GetSnapshotRequest),
    GetInterfaces(GetInterfacesRequest),
    GetRoutes(GetRoutesRequest),
    GetRoutingRules(GetRoutingRulesRequest),
    GetNeighbors(GetNeighborsRequest),
    GetSockets(GetSocketsRequest),
    GetAppNetworkState(GetAppNetworkStateRequest),
    RouteLookup(RouteLookupRequest),
    PushFrameworkEvent(PushFrameworkEventRequest),
}

/// A request that is answered by a stream.
pub enum StreamCall {
    Diagnose(DiagnoseRequest),
    WatchNetwork(WatchNetworkRequest),
    WatchRoutes(WatchRoutesRequest),
    WatchSockets(WatchSocketsRequest),
    StartCapture(StartCaptureRequest),
}

/// The body of a client's frame.
pub enum ClientBody {
    Hello(HelloRequest),
    Cancel(CancelRequest),
    StopCapture(StopCaptureRequest),
    Unary(UnaryCall),
    Stream(StreamCall),
}

/// What is to be done about a frame.
#[allow(inconsistent_fields)]
pub enum Action {
    /// Reply with an error.
    Refuse { id: u64, error: Error },
    /// End a stream that was refused before it began: the end carries the error.
    EndRefused { id: u64, end: StreamEnd },
    Greet { id: u64, request: HelloRequest },
    /// Reply to a cancel. A stream that was active is stopped, and its end
    /// sent, first.
    Cancelled { id: u64, target_id: u64, was_active: bool },
    /// Stop a capture. One that was a stream of this connection is stopped
    /// already.
    StopCapture { id: u64, capture_id: u64, was_stream: bool },
    /// Make a call on a task of its own, so a slow one cannot block the loop.
    Call { id: u64, call: UnaryCall },
    /// Start a stream. One with the same id is stopped first.
    Start { id: u64, call: StreamCall, replaces: bool },
}

/// A connection: whether the client has said hello, how many requests it has
/// made, and its streams.
pub struct Session {
    pub greeted: bool,
    pub handled: u64,
    pub registry: StreamRegistry,
}

/// Whether an error is a refusal in these words.
pub open spec fn refusal(e: Error, words: Seq<char>) -> bool {
    e.code == ErrorCode::InvalidArgument && e.message@ == words && e.detail@.len() == 0
}

fn refuse(words: &str) -> (r: Error)
    ensures
        refusal(r, words@),
{
    Error::invalid(String::from_str(words))
}

/// Whether the refusal of a request ends a stream. Every streaming call ends with
/// one end, a refused one too: the client waits for it. Where the id is that of a
/// running stream an end would close that one, so the error is the reply.
pub open spec fn owes_end(body: ClientBody, id: u64, before: Session) -> bool {
    body is Stream && !before.registry.running().contains(id)
}

/// The error that an action refuses a request with: in the end of a stream that
/// is owed one, and otherwise as the reply.
pub open spec fn refused_with(action: Action, id: u64, ends: bool) -> Option<Error> {
    match action {
        Action::Refuse { id: to, error } => if !ends && to == id {
            Some(error)
        } else {
            None
        },
        Action::EndRefused { id: to, end } => if ends && to == id && end.reason@ == "error"@
            && end.items_sent == 0 {
            end.error
        } else {
            None
        },
        _ => None,
    }
}

/// Whether an action follows from a frame, and how the session stands after it.
pub open spec fn follows(
    action: Action,
    id: u64,
    body: Option<ClientBody>,
    before: Session,
    after: Session,
) -> bool {
    match body {
        None => {
            &&& after == before
            &&& action matches Action::Refuse { id: to, error }
            &&& to == id && refusal(error, "frame carries no request"@)
        },
        Some(body) => if id == 0 {
            &&& after == before
            &&& action matches Action::Refuse { id: to, error }
            &&& to == 0 && refusal(error, "request id must not be zero"@)
        } else {
            &&& after.handled == before.handled + 1
            &&& after.greeted == (before.greeted || body is Hello)
            &&& match body {
                ClientBody::Hello(request) => {
                    &&& action == (Action::Greet { id, request })
                    &&& after.registry == before.registry
                },
                ClientBody::Cancel(request) => {
                    &&& action == (Action::Cancelled {
                        id,
                        target_id: request.target_id,
                        was_active: before.registry.running().contains(request.target_id),
                    })
                    &&& after.registry.running() == before.registry.running().remove(
                        request.target_id,
                    )
                },
                _ => if !before.greeted {
                    &&& after.registry == before.registry
                    &&& refused_with(action, id, owes_end(body, id, before)) matches Some(error)
                    &&& refusal(
                        error,
                        "send Hello before any other request so versions can be checked"@,
                    )
                } else {
                    match body {
                        ClientBody::StopCapture(request) => {
                            &&& action == (Action::StopCapture {
                                id,
                                capture_id: request.capture_id,
                                was_stream: before.registry.running().contains(request.capture_id),
                            })
                            &&& after.registry.running() == before.registry.running().remove(
                                request.capture_id,
                            )
                        },
                        ClientBody::Unary(call) => {
                            &&& action == (Action::Call { id, call })
                            &&& after.registry == before.registry
                        },
                        ClientBody::Stream(call) => if before.registry.streams@.len()
                            >= MAX_STREAMS {
                            &&& after.registry.streams == before.registry.streams
                            &&& refused_with(action, id, owes_end(body, id, before)) matches Some(error)
                            &&& error.code == ErrorCode::ResourceExhausted
                            &&& error.message@ == "too many concurrent streams (limit "@ +
                                dec(MAX_STREAMS as nat) +
                                ")"@
                            &&& error.detail@.len() == 0
                        } else {
                            &&& action == (Action::Start {
                                id,
                                call,
                                replaces: before.registry.running().contains(id),
                            })
                            &&& after.registry.running() == before.registry.running().insert(id)
                        },
                        _ => false,
                    }
                },
            }
        },
    }
}

impl Session {
    pub open spec fn wf(self) -> bool {
        self.registry.wf()
    }

    pub fn new() -> (r: Self)
        ensures
            r.wf(),
            !r.greeted,
            r.handled == 0,
            r.registry.running() == Set::<u64>::empty(),
    {
        Session { greeted: false, handled: 0, registry: StreamRegistry::new() }
    }

    /// What is to be done about a frame. A client must say hello before
    /// anything else, so version mismatches are reported as a clean error
    /// rather than as a confusing schema failure later on.
    pub fn serve(&mut self, id: u64, body: Option<ClientBody>) -> (r: Action)
        requires
            old(self).wf(),
            old(self).handled < u64::MAX,
        ensures
            final(self).wf(),
            follows(r, id, body, *old(self), *final(self)),
    {
        let body = match body {
            Some(body) => body,
            None => {
                return Action::Refuse { id, error: refuse("frame carries no request") };
            },
        };
        if id == 0 {
            return Action::Refuse { id: 0, error: refuse("request id must not be zero") };
        }
        self.handled = self.handled + 1;
        match body {
            ClientBody::Hello(request) => {
                self.greeted = true;
                Action::Greet { id, request }
            },
            ClientBody::Cancel(request) => {
                let was_active = self.registry.cancel(request.target_id);
                Action::Cancelled { id, target_id: request.target_id, was_active }
            },
            other => {
                if !self.greeted {
                    let error = refuse(
                        "send Hello before any other request so versions can be checked",
                    );
                    return match other {
                        ClientBody::Stream(_) => self.refuse_stream(id, error),
                        _ => Action::Refuse { id, error },
                    };
                }
                self.dispatch(id, other)
            },
        }
    }

    /// Refuses a streaming call.
    fn refuse_stream(&self, id: u64, error: Error) -> (r: Action)
        ensures
            refused_with(r, id, !self.registry.running().contains(id)) == Some(error),
    {
        if self.registry.is_running(id) {
            Action::Refuse { id, error }
        } else {
            Action::EndRefused { id, end: StreamOutcome::failed(error, 0).end_stream() }
        }
    }

    fn dispatch(&mut self, id: u64, body: ClientBody) -> (r: Action)
        requires
            old(self).wf(),
            old(self).greeted,
            !(body is Hello) && !(body is Cancel),
        ensures
            final(self).wf(),
            final(self).greeted == old(self).greeted,
            final(self).handled == old(self).handled,
            match body {
                ClientBody::StopCapture(request) => {
                    &&& r == (Action::StopCapture {
                        id,
                        capture_id: request.capture_id,
                        was_stream: old(self).registry.running().contains(request.capture_id),
                    })
                    &&& final(self).registry.running() == old(self).registry.running().remove(
                        request.capture_id,
                    )
                },
                ClientBody::Unary(call) => r == (Action::Call { id, call })
                    && final(self).registry == old(self).registry,
                ClientBody::Stream(call) => if old(self).registry.streams@.len() >= MAX_STREAMS {
                    &&& final(self).registry.streams == old(self).registry.streams
                    &&& refused_with(r, id, owes_end(body, id, *old(self))) matches Some(error)
                    &&& error.code == ErrorCode::ResourceExhausted
                    &&& error.message@ == "too many concurrent streams (limit "@ +
                        dec(MAX_STREAMS as nat) +
                        ")"@
                    &&& error.detail@.len() == 0
                } else {
                    &&& r == (Action::Start {
                        id,
                        call,
                        replaces: old(self).registry.running().contains(id),
                    })
                    &&& final(self).registry.running() == old(self).registry.running().insert(id)
                },
                _ => true,
            },
    {
        match body {
            ClientBody::StopCapture(request) => {
                let was_stream = self.registry.cancel(request.capture_id);
                Action::StopCapture { id, capture_id: request.capture_id, was_stream }
            },
            ClientBody::Unary(call) => Action::Call { id, call },
            ClientBody::Stream(call) => match self.registry.insert(id) {
                Ok(replaces) => Action::Start { id, call, replaces },
                Err(error) => self.refuse_stream(id, error),
            },
            ClientBody::Hello(request) => Action::Greet { id, request },
            ClientBody::Cancel(request) => Action::Cancelled {
                id,
                target_id: request.target_id,
                was_active: false,
            },
        }
    }

    /// Forgets a stream that has ended by itself, and tells whether its end is
    /// still owed. One that was cancelled or stopped has had its end.
    pub fn stream_ended(&mut self, id: u64) -> (owed: bool)
        requires
            old(self).wf(),
        ensures
            final(self).wf(),
            final(self).greeted == old(self).greeted,
            final(self).handled == old(self).handled,
            owed == old(self).registry.running().contains(id),
            final(self).registry.running() == old(self).registry.running().remove(id),
    {
        self.registry.remove(id)
    }

    /// Ends the connection, and tells which streams are to be stopped: all that
    /// are running.
    pub fn close(&mut self) -> (r: Vec<u64>)
        requires
            old(self).wf(),
        ensures
            final(self).wf(),
            final(self).handled == old(self).handled,
            r@ == old(self).registry.streams@,
            final(self).registry.running() == Set::<u64>::empty(),
    {
        self.registry.abort_all()
    }
}

/// Until the client has said hello, nothing it asks but a hello or a cancel is
/// done: no call is made, no stream is started and no capture is stopped.
pub proof fn law_nothing_happens_before_hello(
    action: Action,
    id: u64,
    body: Option<ClientBody>,
    before: Session,
    after: Session,
)
    requires
        follows(action, id, body, before, after),
        !before.greeted,
    ensures
        !(action is Call) && !(action is Start) && !(action is StopCapture),
        body is Some && id != 0 && !(body->0 is Hello) && !(body->0 is Cancel) ==> action is Refuse
            || action is EndRefused,
        after.registry.running() == before.registry.running() || action is Cancelled,
{
}

/// A connection never runs more streams than allowed.
pub proof fn law_streams_are_capped(session: Session)
    requires
        session.wf(),
    ensures
        session.registry.running().len() <= MAX_STREAMS,
        session.registry.running().finite(),
{
    session.registry.streams@.unique_seq_to_set();
    vstd::seq_lib::seq_to_set_is_finite(session.registry.streams@);
}

/// What is replied to a frame that could not be read.
pub fn malformed_frame(words: String) -> (r: Error)
    ensures
        r.code == ErrorCode::InvalidArgument,
        r.message@ == "malformed frame"@,
        r.detail == words,
{
    Error::invalid(String::from_str("malformed frame")).with_detail(words)
}

/// The end of a stream that the client cancelled.
pub fn cancelled_end() -> (r: StreamEnd)
    ensures
        r.error is None,
        r.reason@ == "cancelled by the client"@,
        r.items_sent == 0,
{
    StreamEnd { error: None, reason: String::from_str("cancelled by the client"), items_sent: 0 }
}

/// What is replied to a request to stop a capture: the end of its stream and
/// its own end where there was one, or an error.
pub fn capture_stopped(capture_id: u64, stopped: bool) -> (r: Result<(StreamEnd, CaptureFinished), Error>)
    ensures
        match r {
            Ok((end, finished)) => {
                &&& stopped
                &&& end.error is None && end.reason@ == "stopped by the client"@ && end.items_sent == 0
                &&& finished.capture_id == capture_id && finished.reason@ == "stopped"@
                &&& finished.stats is None && finished.error is None
            },
            Err(e) => {
                &&& !stopped
                &&& e.code == ErrorCode::NotFound
                &&& e.message@ == "no capture with id "@ + dec(capture_id as nat)
                &&& e.detail@.len() == 0
            },
        },
{
    if stopped {
        Ok(
            (
                StreamEnd {
                    error: None,
                    reason: String::from_str("stopped by the client"),
                    items_sent: 0,
                },
                CaptureFinished {
                    capture_id,
                    stats: None,
                    reason: String::from_str("stopped"),
                    error: None,
                },
            ),
        )
    } else {
        let n = dec_string(capture_id);
        Err(Error::not_found(String::from_str("no capture with id ").concat(n.as_str())))
    }
}

/// A stream is cancelled once: a second cancel of the same stream finds nothing
/// to stop, so its end is sent once.
pub proof fn law_a_stream_is_cancelled_once(
    first: Action,
    second: Action,
    ids: (u64, u64),
    request: CancelRequest,
    before: Session,
    between: Session,
    after: Session,
)
    requires
        ids.0 != 0 && ids.1 != 0,
        follows(first, ids.0, Some(ClientBody::Cancel(request)), before, between),
        follows(second, ids.1, Some(ClientBody::Cancel(request)), between, after),
    ensures
        second == (Action::Cancelled { id: ids.1, target_id: request.target_id, was_active: false }),
{
}

/// Whether an end is sent under an id along with an action, where `known` tells
/// whether the daemon knows a capture that is to be stopped and is no stream of
/// this connection.
pub open spec fn sends_end_of(action: Action, stream: u64, known: bool) -> bool {
    match action {
        Action::EndRefused { id, .. } => id == stream,
        Action::Cancelled { target_id, was_active, .. } => was_active && target_id == stream,
        Action::StopCapture { capture_id, was_stream, .. } => (was_stream || known) && capture_id
            == stream,
        _ => false,
    }
}

/// A frame of the client makes an end go out under an id in these cases and no
/// others: a running stream stops, a streaming call with a new id is refused, or
/// a capture is stopped that the daemon knows and that is no stream of this
/// connection. So no stream stops in silence, no refused call is left waiting,
/// and what had its end does not run on: nothing more is owed when it ends.
pub proof fn law_a_stream_stops_with_its_end(
    action: Action,
    id: u64,
    body: Option<ClientBody>,
    before: Session,
    after: Session,
    stream: u64,
    known: bool,
)
    requires
        follows(action, id, body, before, after),
    ensures
        sends_end_of(action, stream, known) <==> {
            ||| before.registry.running().contains(stream) && !after.registry.running().contains(
                stream,
            )
            ||| id == stream && id != 0 && body is Some && owes_end(body->0, id, before) && !(
            action is Start)
            ||| known && action is StopCapture && action->capture_id == stream
        },
        sends_end_of(action, stream, known) ==> !after.registry.running().contains(stream),
        body is Some && body->0 is Stream && id != 0 && !(action is Start)
            && !before.registry.running().contains(id) ==> sends_end_of(action, id, known),
{
}

/// A streaming call with a new id either starts, and then runs until its end is
/// sent, or is refused with an end that carries the error and leaves the running
/// streams as they are.
pub proof fn law_a_streaming_call_starts_or_ends(
    action: Action,
    id: u64,
    call: StreamCall,
    before: Session,
    after: Session,
)
    requires
        follows(action, id, Some(ClientBody::Stream(call)), before, after),
        id != 0,
        !before.registry.running().contains(id),
    ensures
        action is Start ==> after.registry.running().contains(id),
        !(action is Start) ==> {
            &&& action matches Action::EndRefused { id: to, end }
            &&& to == id
            &&& end.error is Some
            &&& after.registry.running() == before.registry.running()
        },
{
}

} // verus!
