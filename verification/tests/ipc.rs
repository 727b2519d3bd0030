use netdiag::codec::{body_size, read_frame, write_frame, FrameError, LengthReader, LengthStep, MAX_FRAME_BYTES};
use netdiag::ipc::auth::{authorize, read_cmdline, AuthPolicy, PeerIdentity};
use netdiag::ipc::client::{abstract_path, check_error};
use netdiag::ipc::listener::SocketAddress;
use netdiag::ipc::session::{
    cancelled_end, capture_stopped, malformed_frame, Action, ClientBody, Session, StreamCall,
    StreamOutcome, StreamRegistry, UnaryCall, MAX_STREAMS,
};
use netdiag::proto::{
    CancelRequest, Error, ErrorCode, GetSnapshotRequest, HelloRequest, StopCaptureRequest,
    WatchNetworkRequest,
};

fn policy(allowed_uids: Vec<u32>) -> AuthPolicy {
    AuthPolicy { allowed_uids, expect_package: None }
}

fn peer(uid: u32) -> PeerIdentity {
    PeerIdentity { uid, gid: uid, pid: Some(7), cmdline: Some("com.example.shop".to_string()) }
}

#[test]
fn root_is_always_allowed() {
    assert!(policy(vec![]).uid_allowed(0));
}

#[test]
fn unlisted_app_uid_is_rejected() {
    let policy = policy(vec![10342]);
    assert!(policy.uid_allowed(10342));
    assert!(!policy.uid_allowed(10999));
}

#[test]
fn empty_allowlist_means_root_only() {
    assert!(!policy(vec![]).uid_allowed(10342));
}

#[test]
fn a_refused_peer_is_told_why() {
    let words = authorize(peer(10999), &policy(vec![10342])).unwrap_err();
    assert_eq!(
        words,
        "peer uid=10999 gid=10999 pid=7 cmdline=com.example.shop is not in the allowed uid set \
         (uids=[10342])"
    );
    let strict =
        AuthPolicy { allowed_uids: vec![10342], expect_package: Some("com.other".to_string()) };
    let words = authorize(peer(10342), &strict).unwrap_err();
    assert_eq!(
        words,
        "peer uid=10342 gid=10342 pid=7 cmdline=com.example.shop runs as com.example.shop, \
         expected com.other"
    );
    // A name that could not be read is not fatal: the uid has passed.
    let nameless = PeerIdentity { uid: 10342, gid: 1, pid: None, cmdline: None };
    assert_eq!(authorize(nameless, &strict).unwrap().uid, 10342);
    assert_eq!(strict.describe(), "uids=[10342] package=com.other");
    assert_eq!(policy(vec![]).describe(), "uids=[0]");
}

#[test]
fn a_process_name_ends_at_the_first_zero() {
    assert_eq!(read_cmdline(b" com.example.shop \0--flag\0"), Some("com.example.shop".to_string()));
    assert_eq!(read_cmdline(b"\0x"), None);
    assert_eq!(read_cmdline(b""), None);
    assert_eq!(read_cmdline(&[b'a', 0xff]), Some("a\u{fffd}".to_string()));
}

#[test]
fn parses_abstract_and_filesystem_addresses() {
    match SocketAddress::parse("@netdiag") {
        SocketAddress::Abstract(name) => assert_eq!(name, "netdiag"),
        other => panic!("expected an abstract address, got {other:?}"),
    }
    match SocketAddress::parse("/data/local/tmp/netdiag.sock") {
        SocketAddress::Path(path) => assert_eq!(path, "/data/local/tmp/netdiag.sock"),
        other => panic!("expected a path address, got {other:?}"),
    }
}

#[test]
fn descriptions_are_unambiguous() {
    assert!(SocketAddress::parse("@netdiag").describe().contains("abstract"));
    assert_eq!(SocketAddress::parse("/tmp/x.sock").describe(), "/tmp/x.sock");
}

#[test]
fn rejects_an_over_long_abstract_name() {
    let name = "x".repeat(200);
    assert!(abstract_path(name.as_bytes()).is_err());
    assert_eq!(abstract_path(&[b'x'; 106]).unwrap().len(), 107);
    assert_eq!(abstract_path(&[b'x'; 107]).unwrap_err(), "abstract socket name is too long");
    assert_eq!(abstract_path(b"ab").unwrap(), vec![0, b'a', b'b']);
}

#[test]
fn an_error_reply_is_an_error() {
    assert!(check_error(&None).is_ok());
    let error = Some(Error::not_found("no capture with id 4".to_string()));
    assert_eq!(check_error(&error).unwrap_err(), "no capture with id 4 (NotFound)");
}

#[test]
fn roundtrips_a_frame() {
    let frame = write_frame(b"test");
    assert_eq!(frame, b"\x04test");
    let read = read_frame(&frame, 0).unwrap().unwrap();
    assert_eq!(read.body, b"test");
    assert_eq!(read.next, frame.len());
}

#[test]
fn clean_eof_is_not_an_error() {
    assert!(read_frame(&[], 0).unwrap().is_none());
}

#[test]
fn reads_several_frames_back_to_back() {
    let mut stream: Vec<u8> = Vec::new();
    for i in 0..3usize {
        stream.extend_from_slice(&write_frame(&vec![i as u8; i * 200]));
    }
    let mut at = 0;
    for i in 0..3usize {
        let frame = read_frame(&stream, at).unwrap().unwrap();
        assert_eq!(frame.body, vec![i as u8; i * 200]);
        at = frame.next;
    }
    assert!(read_frame(&stream, at).unwrap().is_none());
}

#[test]
fn a_length_is_a_varint() {
    assert_eq!(&write_frame(&vec![7u8; 300])[..2], &[0xac, 0x02]);
    let mut expected = Vec::new();
    prost::encode_length_delimiter(300, &mut expected).unwrap();
    assert_eq!(&write_frame(&vec![7u8; 300])[..2], &expected[..]);
    let mut reader = LengthReader::new();
    assert!(reader.at_boundary());
    assert_eq!(reader.feed(0xac), LengthStep::More);
    assert!(!reader.at_boundary());
    assert_eq!(reader.feed(0x02), LengthStep::Done(300));
}

#[test]
fn broken_frames_are_told_apart() {
    let cut = read_frame(&[0x80], 0).err().unwrap();
    assert_eq!(cut, FrameError::EndInLength);
    assert_eq!(cut.message(), "EOF in the middle of a frame length varint");
    let long = read_frame(&[0xff; 12], 0).err().unwrap();
    assert_eq!(long, FrameError::LengthTooLong);
    assert_eq!(long.message(), "frame length varint is too long");
    let short = read_frame(&[5, 1, 2], 0).err().unwrap();
    assert_eq!(short, FrameError::ShortBody);
    assert_eq!(short.message(), "short read on frame body");
    let large = body_size(MAX_FRAME_BYTES as u64 + 1).err().unwrap();
    assert_eq!(large, FrameError::TooLarge(33_554_433));
    assert_eq!(
        large.message(),
        "frame of 33554433 bytes exceeds the 33554432 byte limit"
    );
    assert_eq!(body_size(MAX_FRAME_BYTES as u64), Ok(MAX_FRAME_BYTES));
    // The tenth byte of a length has one bit left.
    let mut reader = LengthReader::new();
    for _ in 0..9 {
        assert_eq!(reader.feed(0x80), LengthStep::More);
    }
    assert_eq!(reader.feed(0x03), LengthStep::Done(1 << 63));
}

fn hello() -> Option<ClientBody> {
    Some(ClientBody::Hello(HelloRequest::default()))
}

fn watch() -> Option<ClientBody> {
    Some(ClientBody::Stream(StreamCall::WatchNetwork(WatchNetworkRequest::default())))
}

fn refused(action: Action) -> String {
    match action {
        Action::Refuse { error, .. } => error.message,
        _ => "not refused".to_string(),
    }
}

#[test]
fn a_client_must_say_hello_first() {
    let mut session = Session::new();
    let snapshot =
        || Some(ClientBody::Unary(UnaryCall::GetSnapshot(GetSnapshotRequest::default())));
    assert_eq!(
        refused(session.serve(1, snapshot())),
        "send Hello before any other request so versions can be checked"
    );
    match session.serve(5, watch()) {
        Action::EndRefused { id: 5, end } => assert_eq!(
            end.error.unwrap().message,
            "send Hello before any other request so versions can be checked"
        ),
        _ => panic!("a refused stream ends with the error"),
    }
    assert_eq!(refused(session.serve(0, watch())), "request id must not be zero");
    assert_eq!(refused(session.serve(2, None)), "frame carries no request");
    assert_eq!(refused(session.serve(0, hello())), "request id must not be zero");
    assert!(matches!(session.serve(3, hello()), Action::Greet { id: 3, .. }));
    assert!(matches!(session.serve(4, snapshot()), Action::Call { id: 4, .. }));
    assert_eq!(session.handled, 4);
}

#[test]
fn streams_are_capped_and_cancelled_once() {
    let mut session = Session::new();
    session.serve(1, hello());
    for id in 0..MAX_STREAMS as u64 {
        let action = session.serve(100 + id, watch());
        assert!(matches!(action, Action::Start { replaces: false, .. }));
    }
    match session.serve(999, watch()) {
        Action::EndRefused { id, end } => {
            assert_eq!((id, end.reason.as_str(), end.items_sent), (999, "error", 0));
            assert_eq!(end.error.unwrap().message, "too many concurrent streams (limit 16)");
        }
        _ => panic!("a refused stream ends with the error"),
    }
    // An end under the id of a running stream would close that one.
    assert_eq!(refused(session.serve(105, watch())), "too many concurrent streams (limit 16)");
    assert_eq!(session.registry.streams.len(), MAX_STREAMS);
    let cancel = || Some(ClientBody::Cancel(CancelRequest { target_id: 100 }));
    assert!(matches!(session.serve(2, cancel()), Action::Cancelled { was_active: true, .. }));
    assert!(matches!(session.serve(3, cancel()), Action::Cancelled { was_active: false, .. }));
    assert!(matches!(session.serve(101, watch()), Action::Start { replaces: true, .. }));
    assert!(session.stream_ended(102));
    assert!(!session.stream_ended(102));
    assert!(!session.stream_ended(100));
    let stop = Some(ClientBody::StopCapture(StopCaptureRequest { capture_id: 103 }));
    assert!(matches!(session.serve(4, stop), Action::StopCapture { was_stream: true, .. }));
    assert_eq!(session.close().len(), 13);
}

#[test]
fn a_registry_stops_a_stream_whose_id_is_reused() {
    let mut registry = StreamRegistry::new();
    assert_eq!(registry.insert(5).unwrap(), false);
    assert_eq!(registry.insert(5).unwrap(), true);
    assert!(registry.cancel(5));
    assert!(!registry.cancel(5));
    assert!(registry.abort_all().is_empty());
}

#[test]
fn streams_end_in_words() {
    let done = StreamOutcome::done("client disconnected".to_string(), 4).end_stream();
    assert_eq!(done.reason, "client disconnected");
    assert_eq!(done.items_sent, 4);
    assert!(done.error.is_none());
    let failed = StreamOutcome::failed(Error::kernel("no buffer".to_string()), 1).end_stream();
    assert_eq!(failed.reason, "error");
    assert_eq!(failed.error.unwrap().code, ErrorCode::Kernel);
    assert_eq!(cancelled_end().reason, "cancelled by the client");
    let (end, finished) = capture_stopped(7, true).unwrap();
    assert_eq!(end.reason, "stopped by the client");
    assert_eq!(finished.reason, "stopped");
    let missing = capture_stopped(7, false).unwrap_err();
    assert_eq!(missing.code, ErrorCode::NotFound);
    assert_eq!(missing.message, "no capture with id 7");
    let broken = malformed_frame("short read on frame body".to_string());
    assert_eq!(broken.message, "malformed frame");
    assert_eq!(broken.detail, "short read on frame body");
}
