use cabbage::frame::{Frame, doc_request, frame_eq, is_doc_request};
use cabbage::logging::{LoggedPayload, ProxyLogger, ProxyLoggerLayer, placeholder_text};

fn bulk(text: &str) -> Frame {
    Frame::BulkString(text.as_bytes().to_vec())
}

fn logger() -> ProxyLogger<()> {
    ProxyLoggerLayer::new(String::from("conn-test")).layer(())
}

#[test]
fn layer_starts_counters_at_zero() {
    let l = logger();
    assert_eq!(l.connection_id, "conn-test");
    assert_eq!(l.request_count, 0);
    assert_eq!(l.response_count, 0);
}

#[test]
fn requests_are_numbered_and_identified() {
    let mut l = logger();
    let (frame, first) = l.begin_request(bulk("PING"));
    assert!(frame_eq(&frame, &bulk("PING")));
    assert_eq!(first.request_number, 1);
    assert_eq!(first.connection_id, "conn-test");
    // The command identifier comes from the identifier generator: a
    // hyphenated UUID of 36 characters, not an echo of anything else.
    assert_eq!(first.command_id.chars().count(), 36);
    assert!(frame_eq(&first.frame, &bulk("PING")));
    assert!(!first.redact_response);

    let (_, second) = l.begin_request(bulk("GET"));
    assert_eq!(second.request_number, 2);
    assert_eq!(l.request_count, 2);
    assert_eq!(l.response_count, 0);
}

#[test]
fn doc_request_is_detected_and_marked_for_redaction() {
    let doc = doc_request();
    assert!(is_doc_request(&doc));
    assert!(!is_doc_request(&bulk("COMMAND")));
    // An array with the same words in the wrong order is not the
    // introspection request.
    let swapped = Frame::Array(vec![bulk("DOCS"), bulk("COMMAND")]);
    assert!(!is_doc_request(&swapped));

    let mut l = logger();
    let (_, record) = l.begin_request(doc);
    assert!(record.redact_response);
}

#[test]
fn responses_are_counted_and_passed_through() {
    let mut l = logger();
    let (_, ctx) = l.begin_request(bulk("GET"));
    let (frame, record) = l.observe_response(&ctx, bulk("value"));
    assert!(frame_eq(&frame, &bulk("value")));
    assert_eq!(record.response_number, 1);
    assert_eq!(record.command_id, ctx.command_id);
    assert_eq!(record.connection_id, "conn-test");
    match record.payload {
        LoggedPayload::Payload(f) => assert!(frame_eq(&f, &bulk("value"))),
        LoggedPayload::Placeholder => panic!("an ordinary response is logged in full"),
    }
}

#[test]
fn doc_response_payload_never_appears_in_records() {
    // The introspection-document response is counted normally but its
    // payload is replaced by the fixed placeholder.
    let mut l = logger();
    let (_, ctx) = l.begin_request(doc_request());
    let huge = Frame::Array(vec![bulk("page-1"), bulk("page-2"), bulk("page-3")]);
    let (forwarded, record) = l.observe_response(&ctx, huge);
    // The frame forwarded to the client is unmodified and complete.
    let expected = Frame::Array(vec![bulk("page-1"), bulk("page-2"), bulk("page-3")]);
    assert!(frame_eq(&forwarded, &expected));
    // The record shows only the placeholder, and still counts the frame.
    assert!(matches!(record.payload, LoggedPayload::Placeholder));
    assert_eq!(record.response_number, 1);
    assert_eq!(l.response_count, 1);
    assert_eq!(placeholder_text(), "docs");
}

#[test]
fn draining_the_decorated_stream_changes_nothing() {
    // The decorator never mutates frame content or response ordering: the
    // decorated drain yields the same frames, in the same order, as the
    // undecorated stream.
    let mut l = logger();
    let (_, ctx) = l.begin_request(bulk("LRANGE"));
    let stream = vec![bulk("one"), bulk("two"), bulk("three")];
    let (drained, records) = l.observe_stream(&ctx, stream);
    let expected = [bulk("one"), bulk("two"), bulk("three")];
    assert_eq!(drained.len(), 3);
    for (got, want) in drained.iter().zip(expected.iter()) {
        assert!(frame_eq(got, want));
    }
    assert_eq!(records.len(), 3);
    for (j, record) in records.iter().enumerate() {
        assert_eq!(record.response_number as usize, j + 1);
        assert_eq!(record.command_id, ctx.command_id);
    }
    assert_eq!(l.response_count, 3);
}

#[test]
fn observing_an_empty_stream_produces_no_records() {
    let mut l = logger();
    let (_, ctx) = l.begin_request(bulk("PING"));
    let (drained, records) = l.observe_stream(&ctx, Vec::new());
    assert!(drained.is_empty());
    assert!(records.is_empty());
    assert_eq!(l.response_count, 0);
}

#[test]
fn response_counter_spans_streams_of_one_connection() {
    // The response counter is connection-local, not per-stream: it keeps
    // rising across consecutive response streams.
    let mut l = logger();
    let (_, first) = l.begin_request(bulk("A"));
    let (_, records_a) = l.observe_stream(&first, vec![bulk("r1"), bulk("r2")]);
    let (_, second) = l.begin_request(bulk("B"));
    let (_, records_b) = l.observe_stream(&second, vec![bulk("r3")]);
    assert_eq!(records_a[0].response_number, 1);
    assert_eq!(records_a[1].response_number, 2);
    assert_eq!(records_b[0].response_number, 3);
    assert_ne!(first.command_id, second.command_id);
}
