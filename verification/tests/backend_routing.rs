use cabbage::StageError;
use cabbage::backend::{WorkerAction, WorkerEvent, WorkerState, ready_check, run_worker, submit_request};
use cabbage::frame::{Frame, frame_eq};

fn bulk(text: &str) -> Frame {
    Frame::BulkString(text.as_bytes().to_vec())
}

#[test]
fn serial_requests_route_to_their_own_streams() {
    // Two requests submitted serially: the frames between request 0 and
    // request 1 belong to stream 0, the rest to stream 1.
    let events = vec![
        WorkerEvent::Request(bulk("PING")),
        WorkerEvent::BackendFrame(bulk("PONG")),
        WorkerEvent::Request(bulk("LRANGE")),
        WorkerEvent::BackendFrame(bulk("first")),
        WorkerEvent::BackendFrame(bulk("second")),
    ];
    let deliveries = run_worker(events);
    assert_eq!(deliveries.len(), 3);
    assert_eq!(deliveries[0].stream, 0);
    assert!(frame_eq(&deliveries[0].frame, &bulk("PONG")));
    assert_eq!(deliveries[1].stream, 1);
    assert!(frame_eq(&deliveries[1].frame, &bulk("first")));
    assert_eq!(deliveries[2].stream, 1);
    assert!(frame_eq(&deliveries[2].frame, &bulk("second")));
}

#[test]
fn late_frames_go_to_the_latest_request() {
    // Request 1 is submitted before stream 0 is drained: the backend frame
    // that arrives afterwards is delivered to stream 1, not stream 0.
    let events = vec![
        WorkerEvent::Request(bulk("SUBSCRIBE")),
        WorkerEvent::BackendFrame(bulk("update-1")),
        WorkerEvent::Request(bulk("GET")),
        WorkerEvent::BackendFrame(bulk("update-2")),
    ];
    let deliveries = run_worker(events);
    assert_eq!(deliveries.len(), 2);
    assert_eq!(deliveries[0].stream, 0);
    assert!(frame_eq(&deliveries[0].frame, &bulk("update-1")));
    assert_eq!(deliveries[1].stream, 1);
    assert!(frame_eq(&deliveries[1].frame, &bulk("update-2")));
}

#[test]
fn stray_frames_before_any_request_are_dropped() {
    let events = vec![
        WorkerEvent::BackendFrame(bulk("stray")),
        WorkerEvent::Request(bulk("PING")),
        WorkerEvent::BackendFrame(bulk("PONG")),
    ];
    let deliveries = run_worker(events);
    assert_eq!(deliveries.len(), 1);
    assert_eq!(deliveries[0].stream, 0);
    assert!(frame_eq(&deliveries[0].frame, &bulk("PONG")));
}

#[test]
fn abandoned_stream_does_not_stall_the_worker() {
    // Dropping a response stream mid-drain is an abandonment signal: the
    // worker clears its delivery channel and a later request still succeeds.
    let mut state = WorkerState::init();
    assert!(matches!(
        state.step(WorkerEvent::Request(bulk("SUBSCRIBE"))),
        WorkerAction::WriteToBackend(_)
    ));
    assert!(matches!(
        state.step(WorkerEvent::BackendFrame(bulk("update-1"))),
        WorkerAction::Deliver(0, _)
    ));
    assert!(matches!(state.step(WorkerEvent::DeliveryRejected), WorkerAction::Continue));
    assert!(state.running);
    // A frame with no live channel is stray and dropped, not fatal.
    assert!(matches!(
        state.step(WorkerEvent::BackendFrame(bulk("update-2"))),
        WorkerAction::DropStray(_)
    ));
    assert!(state.running);
    // The next, unrelated request is accepted and forwarded.
    assert!(matches!(
        state.step(WorkerEvent::Request(bulk("PING"))),
        WorkerAction::WriteToBackend(_)
    ));
    assert!(matches!(
        state.step(WorkerEvent::BackendFrame(bulk("PONG"))),
        WorkerAction::Deliver(1, _)
    ));
    assert!(state.running);
    assert!(ready_check(state.running).is_ok());
}

#[test]
fn backend_eof_terminates_and_fails_fast() {
    // The backend read returns end-of-stream: the worker terminates, the
    // liveness flag falls, and later checks and submissions fail at once.
    let mut state = WorkerState::init();
    assert!(matches!(
        state.step(WorkerEvent::Request(bulk("PING"))),
        WorkerAction::WriteToBackend(_)
    ));
    assert!(matches!(state.step(WorkerEvent::BackendEof), WorkerAction::Terminate));
    assert!(!state.running);
    assert_eq!(ready_check(state.running), Err(StageError::WorkerTerminated));
    match submit_request(state.running, bulk("GET")) {
        Err(e) => assert_eq!(e, StageError::QueueClosed),
        Ok(_) => panic!("submission must fail once the worker is gone"),
    }
    // Events after termination change nothing.
    assert!(matches!(state.step(WorkerEvent::Request(bulk("GET"))), WorkerAction::Continue));
    assert!(!state.running);
}

#[test]
fn queue_closure_and_transport_failures_terminate() {
    for terminal in [
        WorkerEvent::QueueClosed,
        WorkerEvent::BackendReadError,
        WorkerEvent::BackendWriteFailed,
    ] {
        let mut state = WorkerState::init();
        assert!(matches!(state.step(terminal), WorkerAction::Terminate));
        assert!(!state.running);
    }
}

#[test]
fn submit_hands_the_frame_through_unchanged() {
    let frame = bulk("SET");
    match submit_request(true, frame) {
        Ok(f) => assert!(frame_eq(&f, &bulk("SET"))),
        Err(_) => panic!("an open queue accepts the request"),
    }
}

#[test]
fn error_messages_are_fixed() {
    assert_eq!(StageError::WorkerTerminated.message(), "backend task has died");
    assert_eq!(StageError::QueueClosed.message(), "failed to send request to handler");
}
