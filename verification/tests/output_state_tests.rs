use pet::output::{encode_frame, encode_frame_checked, Admission, ErrorSnapshot, Limits, OutputState};
use pet::server::{dispatch_step, route_payload, DispatchStep, Envelope, IdField, ParamsField, Received, RequestId, Route};
use std::io;

/// A writer that records what it was handed; the writer side of the queue takes
/// frames with `next_frame` and "writes" them here.
#[derive(Default)]
struct Sink {
    bytes: Vec<u8>,
}

impl Sink {
    fn write_next(&mut self, state: &mut OutputState) -> bool {
        match state.next_frame() {
            Some(frame) => {
                self.bytes.extend_from_slice(&frame);
                true
            }
            None => false,
        }
    }
}

/// Serializes `value` and hands the frame to the queue, as sending does.
fn send(state: &mut OutputState, value: &serde_json::Value, payload_limit: usize) -> Admission {
    if !state.is_accepting() {
        return Admission::Dropped;
    }
    let payload = serde_json::to_vec(value).expect("serialization failed");
    state.send_encoded(encode_frame(&payload, payload_limit))
}

fn text(s: &str) -> serde_json::Value {
    serde_json::Value::String(s.to_string())
}

fn frames(bytes: &[u8]) -> Vec<&[u8]> {
    let mut remaining = bytes;
    let mut result = Vec::new();
    while !remaining.is_empty() {
        let separator = b"\r\n\r\n";
        let header_end = remaining
            .windows(separator.len())
            .position(|window| window == separator)
            .expect("frame header terminator missing");
        let header = std::str::from_utf8(&remaining[..header_end]).expect("invalid header");
        let length: usize = header
            .strip_prefix("Content-Length: ")
            .and_then(|header| header.lines().next())
            .expect("content length missing")
            .parse()
            .expect("invalid content length");
        let payload_start = header_end + separator.len();
        let payload_end = payload_start + length;
        result.push(&remaining[payload_start..payload_end]);
        remaining = &remaining[payload_end..];
    }
    result
}

const HEADER_PREFIX: &str = "Content-Length: ";
const HEADER_SUFFIX: &str = "\r\nContent-Type: application/vscode-jsonrpc; charset=utf-8\r\n\r\n";

#[test]
fn frames_unicode_by_utf8_length_and_preserves_fifo() {
    let limits = Limits::default();
    let mut state = OutputState::open(limits);
    let mut sink = Sink::default();

    let mut second = serde_json::Map::new();
    second.insert("sequence".to_string(), serde_json::Value::from(2));
    let second = serde_json::Value::Object(second);

    assert_eq!(send(&mut state, &text("snowman \u{2603}"), limits.payload_bytes), Admission::Queued);
    assert_eq!(send(&mut state, &second, limits.payload_bytes), Admission::Queued);

    let expected_first = serde_json::to_vec(&"snowman \u{2603}").expect("serialization failed");
    let expected_second = serde_json::to_vec(&second).expect("serialization failed");
    let expected_len = expected_first.len()
        + expected_second.len()
        + 2 * (HEADER_PREFIX.len() + HEADER_SUFFIX.len())
        + expected_first.len().to_string().len()
        + expected_second.len().to_string().len();
    while sink.write_next(&mut state) {}
    assert_eq!(sink.bytes.len(), expected_len);
    state.close();

    assert_eq!(frames(&sink.bytes), vec![expected_first, expected_second]);
}

#[test]
fn saturation_is_fatal_and_clears_pending_output() {
    let limits = Limits {
        queued_bytes: 1024,
        queued_frames: 1,
        payload_bytes: 512,
    };
    let mut state = OutputState::open(limits);
    let mut sink = Sink::default();
    send(&mut state, &text("first"), limits.payload_bytes);
    // The writer takes the first frame and blocks on it.
    let in_flight = state.next_frame().expect("writer found no frame");
    send(&mut state, &text("pending"), limits.payload_bytes);
    assert_eq!(send(&mut state, &text("overflow"), limits.payload_bytes), Admission::Rejected);

    let error = state.error().expect("queue saturation was not recorded");
    assert_eq!(error.kind(), io::ErrorKind::WouldBlock);
    assert!(error.to_string().contains("queue is full"));

    // The writer is released: it finishes its frame and finds nothing else.
    sink.bytes.extend_from_slice(&in_flight);
    assert!(!sink.write_next(&mut state));
    let emitted = frames(&sink.bytes);
    assert_eq!(emitted, vec![serde_json::to_vec(&"first").unwrap()]);
}

#[test]
fn oversized_serialization_is_bounded_and_fatal() {
    let limits = Limits {
        queued_bytes: 128,
        queued_frames: 2,
        payload_bytes: 16,
    };
    let mut state = OutputState::open(limits);
    let mut sink = Sink::default();

    assert_eq!(
        send(&mut state, &text("this payload is much too large"), limits.payload_bytes),
        Admission::Rejected
    );

    let error = state.error().expect("oversized payload was not recorded");
    assert_eq!(error.kind(), io::ErrorKind::InvalidData);
    assert!(error.to_string().contains("maximum size"));
    assert!(!sink.write_next(&mut state));
    assert!(sink.bytes.is_empty());
}

#[test]
fn frame_allocation_is_exact_and_payload_limit_is_enforced() {
    let payload = serde_json::to_vec("1234").expect("failed to encode expected payload");
    let payload_len = payload.len();
    let frame = encode_frame(&payload, payload_len).expect("exact-limit frame failed");
    assert_eq!(frame.capacity(), frame.len());

    let error = encode_frame(&payload, payload_len - 1).expect_err("over-limit frame succeeded");
    assert_eq!(error.kind(), io::ErrorKind::InvalidData);
}

#[test]
fn queued_byte_limit_is_enforced_independently_of_frame_count() {
    let pending = serde_json::to_vec(&"pending").unwrap();
    let queued_frame_bytes = encode_frame(&pending, 512)
        .expect("failed to encode test frame")
        .capacity();
    let limits = Limits {
        queued_bytes: queued_frame_bytes,
        queued_frames: 4,
        payload_bytes: 512,
    };
    let mut state = OutputState::open(limits);
    let mut sink = Sink::default();
    send(&mut state, &text("x"), limits.payload_bytes);
    let in_flight = state.next_frame().expect("writer found no frame");
    assert_eq!(send(&mut state, &text("pending"), limits.payload_bytes), Admission::Queued);
    assert_eq!(
        send(&mut state, &text("one byte too many"), limits.payload_bytes),
        Admission::Rejected
    );

    let error = state.error().expect("queue byte saturation was not recorded");
    assert_eq!(error.kind(), io::ErrorKind::WouldBlock);

    sink.bytes.extend_from_slice(&in_flight);
    assert!(!sink.write_next(&mut state));
    assert_eq!(frames(&sink.bytes), vec![serde_json::to_vec(&"x").unwrap()]);
}

#[test]
fn write_failure_is_explicit_and_first_error_wins() {
    let limits = Limits::default();
    let mut state = OutputState::open(limits);
    send(&mut state, &text("message"), limits.payload_bytes);
    let _frame = state.next_frame().expect("writer found no frame");
    state.write_failed(
        &io::Error::new(io::ErrorKind::BrokenPipe, "deliberate write failure"),
        false,
    );
    let first = state.error().expect("write failure was not recorded");
    assert_eq!(first.kind(), io::ErrorKind::BrokenPipe);
    assert!(first.to_string().contains("deliberate write failure"));

    state.fail(ErrorSnapshot::new(io::Error::new(
        io::ErrorKind::ConnectionReset,
        "later failure",
    )));
    state.close();
    let preserved = state.error().expect("first error was lost");
    assert_eq!(preserved.kind(), io::ErrorKind::BrokenPipe);
    assert!(!preserved.to_string().contains("later failure"));
}

#[test]
fn flush_failure_is_explicit() {
    let limits = Limits::default();
    let mut state = OutputState::open(limits);
    send(&mut state, &text("message"), limits.payload_bytes);
    let _frame = state.next_frame().expect("writer found no frame");
    state.write_failed(
        &io::Error::new(io::ErrorKind::ConnectionAborted, "deliberate flush failure"),
        true,
    );
    let error = state.error().expect("flush failure was not recorded");
    assert_eq!(error.kind(), io::ErrorKind::ConnectionAborted);
    assert!(error.to_string().contains("failed to flush JSONRPC output"));
    assert!(error.to_string().contains("deliberate flush failure"));
}

#[test]
fn in_flight_write_failure_after_close_is_discarded() {
    let limits = Limits::default();
    let mut state = OutputState::open(limits);
    send(&mut state, &text("message"), limits.payload_bytes);
    let _frame = state.next_frame().expect("writer did not start");
    state.close();
    state.write_failed(
        &io::Error::new(io::ErrorKind::BrokenPipe, "delayed write failure"),
        false,
    );
    assert!(state.error().is_none());
}

#[test]
fn close_discards_pending_frames_without_joining_writer() {
    let limits = Limits {
        queued_bytes: 1024,
        queued_frames: 1,
        payload_bytes: 512,
    };
    let mut state = OutputState::open(limits);
    let mut sink = Sink::default();
    send(&mut state, &text("in progress"), limits.payload_bytes);
    let in_flight = state.next_frame().expect("writer did not block");
    send(&mut state, &text("pending"), limits.payload_bytes);

    state.close();

    sink.bytes.extend_from_slice(&in_flight);
    assert!(!sink.write_next(&mut state));
    assert_eq!(
        frames(&sink.bytes),
        vec![serde_json::to_vec(&"in progress").unwrap()]
    );
}

#[test]
fn post_close_send_does_not_serialize_or_write() {
    let mut state = OutputState::open(Limits::default());
    state.close();
    let mut serializations = 0;
    if state.is_accepting() {
        serializations += 1;
    }
    assert_eq!(
        state.send_encoded(Err(io::Error::new(io::ErrorKind::Other, "unexpected"))),
        Admission::Dropped
    );
    assert_eq!(serializations, 0);
    let mut sink = Sink::default();
    assert!(!sink.write_next(&mut state));
    assert!(sink.bytes.is_empty());
    assert!(state.error().is_none());
}

/// What routing reads of `{"jsonrpc":"2.0","id":"next","method":"info","params":{}}`.
fn next_info_request() -> Envelope {
    Envelope {
        id: IdField::Valid(RequestId::String("next".to_string())),
        version_ok: true,
        method: Some("info".to_string()),
        params: ParamsField::Container,
    }
}

#[test]
fn dispatch_recovers_after_malformed_json_and_stops_on_eof() {
    let requests = vec!["info".to_string()];
    let notifications: Vec<String> = Vec::new();
    let received = vec![
        Received::Frame(Ok(Some(b"{invalid".to_vec()))),
        Received::Frame(Ok(Some(
            br#"{"jsonrpc":"2.0","id":"next","method":"info","params":{}}"#.to_vec(),
        ))),
        Received::Frame(Ok(None)),
    ];
    let mut errors = Vec::new();
    let mut request = None;
    let mut stopped = None;
    for r in received {
        match dispatch_step(r) {
            DispatchStep::Handle(payload) => {
                let parsed = match serde_json::from_slice::<serde_json::Value>(&payload) {
                    Ok(_) => Some(Some(next_info_request())),
                    Err(_) => None,
                };
                match route_payload(parsed, &requests, &notifications) {
                    Route::Reject { id, code, .. } => errors.push((id, code)),
                    Route::Request { id, .. } => request = Some(id),
                    other => panic!("unexpected route {:?}", other),
                }
            }
            DispatchStep::Stop(result) => {
                stopped = Some(result);
                break;
            }
            DispatchStep::Wait => {}
        }
    }
    assert!(stopped.expect("dispatch did not stop").is_ok());
    assert_eq!(errors[0].1, -32700);
    assert_eq!(request, Some(RequestId::String("next".to_string())));
}

#[test]
fn dispatch_surfaces_output_failure_without_waiting_for_stdin() {
    match dispatch_step(Received::OutputFailed(io::Error::new(
        io::ErrorKind::BrokenPipe,
        "injected output failure",
    ))) {
        DispatchStep::Stop(Err(error)) => assert_eq!(error.kind(), io::ErrorKind::BrokenPipe),
        _ => panic!("dispatch did not stop with the output error"),
    }
}

#[test]
fn oversized_payload_fails_output_with_invalid_data() {
    let mut state = OutputState::open(Limits { queued_bytes: 1 << 20, queued_frames: 4, payload_bytes: 8 });
    let encoded = encode_frame_checked(b"0123456789", 8);
    assert_eq!(state.send_checked(encoded), Admission::Rejected);
    let error = state.error().expect("output failed");
    assert_eq!(error.kind(), io::ErrorKind::InvalidData);
    assert_eq!(
        error.to_string(),
        "failed to serialize JSONRPC output: JSONRPC payload exceeds the maximum size of 8 bytes"
    );
    assert!(!state.is_accepting());
}

#[test]
fn full_queue_fails_output_with_would_block() {
    let mut state = OutputState::open(Limits { queued_bytes: 1 << 20, queued_frames: 1, payload_bytes: 64 });
    assert_eq!(state.send_checked(encode_frame_checked(b"{}", 64)), Admission::Queued);
    assert_eq!(state.send_checked(encode_frame_checked(b"{}", 64)), Admission::Rejected);
    let error = state.error().expect("output failed");
    assert_eq!(error.kind(), io::ErrorKind::WouldBlock);
    assert!(error.to_string().contains("queue is full"));
}
