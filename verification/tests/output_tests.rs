use pet::framing::{read_frame, MAX_HEADER_BYTES, MAX_PAYLOAD_BYTES};
use pet::output::{
    build_frame, initialize_output_state, shutdown_output_state, Admission, ErrorSnapshot,
    GlobalState, LimitedBuffer, Limits, OutputState,
};
use pet::server::{
    close_transport, dispatch_step, frame_ends_input, route_message, DispatchStep, Envelope,
    IdField, ParamsField, Received, RequestId, Route,
};
use std::io::{self, BufReader, Cursor};

#[test]
fn limited_buffer_caps_capacity_during_multi_chunk_growth() {
    let mut buffer = LimitedBuffer::new(10);

    buffer.write_all(b"123456").expect("first write failed");
    assert_eq!(buffer.bytes.len(), 6);
    assert!(buffer.bytes.capacity() <= buffer.limit);

    buffer.write_all(b"7890").expect("second write failed");
    assert_eq!(buffer.bytes, b"1234567890");
    assert_eq!(buffer.bytes.capacity(), buffer.limit);
}

#[test]
fn limited_buffer_accepts_exact_limit_and_rejects_over_limit() {
    let mut buffer = LimitedBuffer::new(8);
    buffer
        .write_all(b"12345678")
        .expect("exact-limit write failed");
    assert_eq!(buffer.bytes.len(), buffer.limit);
    assert!(buffer.bytes.capacity() <= buffer.limit);

    let capacity = buffer.bytes.capacity();
    let error = buffer
        .write_all(b"9")
        .expect_err("over-limit write succeeded");
    assert_eq!(error.kind(), io::ErrorKind::InvalidData);
    assert_eq!(buffer.bytes, b"12345678");
    assert_eq!(buffer.bytes.capacity(), capacity);
}

#[test]
fn repeated_initialization_after_shutdown_returns_broken_pipe() {
    let mut global: GlobalState<std::rc::Rc<std::cell::RefCell<OutputState>>> = GlobalState {
        output: None,
        shutdown: false,
        initialization_error: None,
    };
    initialize_output_state(&mut global, || {
        Ok(std::rc::Rc::new(std::cell::RefCell::new(OutputState::open(
            Limits::default(),
        ))))
    })
    .expect("initial initialization failed");

    let output = shutdown_output_state(&mut global).expect("initialized output missing");
    output.borrow_mut().close();
    let error = initialize_output_state(&mut global, || {
        panic!("shutdown output must not be reinitialized")
    })
    .expect_err("initialization after shutdown succeeded");

    assert_eq!(error.kind(), io::ErrorKind::BrokenPipe);
    assert!(global.initialization_error.is_none());
    assert!(output.borrow().error().is_none());
}

#[test]
fn failed_initialization_is_reported_again_without_retrying() {
    let mut global: GlobalState<u8> = GlobalState::new();
    let error = initialize_output_state(&mut global, || {
        Err(io::Error::new(io::ErrorKind::PermissionDenied, "no stdout"))
    })
    .expect_err("failing output was made");
    assert_eq!(error.kind(), io::ErrorKind::PermissionDenied);
    assert_eq!(
        error.to_string(),
        "failed to initialize JSONRPC output: no stdout"
    );
    let again = initialize_output_state(&mut global, || -> io::Result<u8> {
        panic!("output must not be made again")
    })
    .expect_err("second attempt succeeded");
    assert_eq!(again.kind(), io::ErrorKind::PermissionDenied);
}

#[test]
fn output_queue_keeps_order_and_first_error() {
    let mut state = OutputState::open(Limits {
        queued_bytes: 1024,
        queued_frames: 2,
        payload_bytes: 64,
    });
    assert_eq!(state.enqueue(b"one".to_vec()), Admission::Queued);
    assert_eq!(state.enqueue(b"two".to_vec()), Admission::Queued);
    assert_eq!(state.next_frame(), Some(b"one".to_vec()));
    assert_eq!(state.enqueue(b"three".to_vec()), Admission::Queued);
    assert_eq!(state.enqueue(b"four".to_vec()), Admission::Rejected);
    assert!(!state.is_accepting());
    assert_eq!(state.next_frame(), None);
    let first = state.error().expect("saturation recorded no error");
    assert_eq!(first.kind(), io::ErrorKind::WouldBlock);
    assert_eq!(
        first.to_string(),
        "JSONRPC output queue is full (limit: 2 frames and 1024 bytes)"
    );
    state.fail(ErrorSnapshot::new(io::Error::new(io::ErrorKind::Other, "later")));
    assert_eq!(state.error().unwrap().kind(), io::ErrorKind::WouldBlock);
    assert_eq!(state.enqueue(b"five".to_vec()), Admission::Dropped);
}

#[test]
fn built_frames_read_back_as_their_payload() {
    let payload = "{\"text\":\"\u{03c0}\"}".as_bytes();
    let frame = build_frame(payload).expect("frame not built");
    assert_eq!(
        frame,
        [
            format!(
                "Content-Length: {}\r\nContent-Type: application/vscode-jsonrpc; charset=utf-8\r\n\r\n",
                payload.len()
            )
            .as_bytes(),
            payload
        ]
        .concat()
    );
    let mut reader = Cursor::new(frame);
    assert_eq!(read_frame(&mut reader).unwrap().unwrap(), payload);
    assert!(read_frame(&mut reader).unwrap().is_none());
}

#[test]
fn output_failure_between_eof_and_close_is_not_reported_as_success() {
    let closed = std::cell::Cell::new(false);
    let result = close_transport(
        Ok(()),
        || closed.set(true),
        || {
            assert!(
                closed.get(),
                "output must be closed before its final error is read"
            );
            Some(io::Error::from(io::ErrorKind::BrokenPipe))
        },
    );
    assert_eq!(result.unwrap_err().kind(), io::ErrorKind::BrokenPipe);
}

#[test]
fn transport_error_remains_primary_and_still_closes_output() {
    let closed = std::cell::Cell::new(false);
    let result = close_transport(
        Err(io::Error::from(io::ErrorKind::InvalidData)),
        || closed.set(true),
        || Some(io::Error::from(io::ErrorKind::BrokenPipe)),
    );
    assert!(closed.get());
    assert_eq!(result.unwrap_err().kind(), io::ErrorKind::InvalidData);
    assert!(close_transport(Ok(()), || {}, || None).is_ok());
}

#[test]
fn input_distinguishes_clean_eof_from_truncated_frames() {
    assert!(read_frame(&mut io::Cursor::new(b"")).unwrap().is_none());
    for bytes in [
        b"Content-Length: 2".as_slice(),
        b"Content-Length: 2\r\n".as_slice(),
        b"Content-Length: 2\r\n\r".as_slice(),
        b"Content-Length: 2\r\n\r\n{".as_slice(),
    ] {
        let error = read_frame(&mut io::Cursor::new(bytes)).unwrap_err();
        assert_eq!(error.kind(), io::ErrorKind::UnexpectedEof);
    }
}

#[test]
fn input_preserves_fragmented_consecutive_payload_bytes() {
    let first = "{\"text\":\"\u{03c0}\"}".as_bytes();
    let second = b"{}";
    let mut bytes = format!("Content-Length: {}\r\n\r\n", first.len()).into_bytes();
    bytes.extend_from_slice(first);
    bytes.extend_from_slice(b"Content-Length: 2\n\n");
    bytes.extend_from_slice(second);
    let mut reader = BufReader::with_capacity(1, io::Cursor::new(bytes));
    assert_eq!(read_frame(&mut reader).unwrap().unwrap(), first);
    assert_eq!(read_frame(&mut reader).unwrap().unwrap(), second);
    assert!(read_frame(&mut reader).unwrap().is_none());
}

#[test]
fn input_rejects_oversized_headers_and_payloads_before_body_reads() {
    let bytes = vec![b'x'; MAX_HEADER_BYTES + 1];
    assert_eq!(
        read_frame(&mut io::Cursor::new(bytes)).unwrap_err().kind(),
        io::ErrorKind::InvalidData
    );
    let bytes = format!("Content-Length: {}\r\n\r\n", MAX_PAYLOAD_BYTES + 1);
    assert_eq!(
        read_frame(&mut io::Cursor::new(bytes)).unwrap_err().kind(),
        io::ErrorKind::InvalidData
    );
}

#[test]
fn input_stops_after_anything_but_a_frame() {
    assert!(!frame_ends_input(&Ok(Some(b"{}".to_vec()))));
    assert!(frame_ends_input(&Ok(None)));
    assert!(frame_ends_input(&Err(io::Error::from(
        io::ErrorKind::PermissionDenied
    ))));
    assert!(matches!(
        dispatch_step(Received::Frame(Ok(None))),
        DispatchStep::Stop(Ok(()))
    ));
    assert!(matches!(dispatch_step(Received::Timeout), DispatchStep::Wait));
    match dispatch_step(Received::Disconnected) {
        DispatchStep::Stop(Err(e)) => assert_eq!(e.kind(), io::ErrorKind::UnexpectedEof),
        _ => panic!("a vanished reader must stop dispatching"),
    }
}

fn envelope(id: IdField, method: Option<&str>, params: ParamsField) -> Option<Envelope> {
    Some(Envelope {
        id,
        version_ok: true,
        method: method.map(|m| m.to_string()),
        params,
    })
}

#[test]
fn routing_follows_ids_methods_and_params() {
    let requests = vec!["refresh".to_string()];
    let notifications = vec!["exit".to_string()];
    let route = |m| route_message(m, &requests, &notifications);

    match route(None) {
        Route::Reject { id, code, message } => {
            assert!(id.is_none());
            assert_eq!(code, -32600);
            assert_eq!(message, "Invalid JSONRPC request");
        }
        other => panic!("unexpected {other:?}"),
    }
    match route(envelope(IdField::Invalid, Some("refresh"), ParamsField::Missing)) {
        Route::Reject { code, message, .. } => {
            assert_eq!(code, -32600);
            assert_eq!(message, "Invalid JSONRPC request ID");
        }
        other => panic!("unexpected {other:?}"),
    }
    let id = RequestId::String("1".to_string());
    match route(envelope(
        IdField::Valid(id.clone()),
        Some("refresh"),
        ParamsField::Container,
    )) {
        Route::Request {
            method,
            id: got,
            params_given,
        } => {
            assert_eq!(method, "refresh");
            assert_eq!(got, id);
            assert!(params_given);
        }
        other => panic!("unexpected {other:?}"),
    }
    match route(envelope(IdField::Valid(id.clone()), Some("nope"), ParamsField::Null)) {
        Route::Reject { id: got, code, message } => {
            assert_eq!(got, Some(id.clone()));
            assert_eq!(code, -1);
            assert_eq!(message, "Failed to find handler for request nope");
        }
        other => panic!("unexpected {other:?}"),
    }
    match route(envelope(IdField::Valid(id.clone()), Some("refresh"), ParamsField::Other)) {
        Route::Reject { code, .. } => assert_eq!(code, -32602),
        other => panic!("unexpected {other:?}"),
    }
    assert!(matches!(
        route(envelope(IdField::Missing, Some("exit"), ParamsField::Missing)),
        Route::Notification { params_given: false, .. }
    ));
    assert!(matches!(
        route(envelope(IdField::Missing, Some("exit"), ParamsField::Other)),
        Route::InvalidNotificationParams { .. }
    ));
    assert!(matches!(
        route(envelope(IdField::Missing, Some("other"), ParamsField::Missing)),
        Route::UnknownNotification { .. }
    ));
    assert!(matches!(
        route(envelope(IdField::Valid(RequestId::Null), None, ParamsField::Missing)),
        Route::MissingMethod {
            id: Some(RequestId::Null)
        }
    ));
    assert_eq!(RequestId::from_number(7), RequestId::Number("7".to_string()));
}
