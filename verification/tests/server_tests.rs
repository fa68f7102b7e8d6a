use pet::server::{envelope_from_fields, route_message, Envelope, EnvelopeFields, IdField, MemberValue, ParamsField, RequestId, Route};

/// What routing reads of a JSON-RPC object: its `id`, whether `jsonrpc` is
/// `"2.0"`, its `method` string and the kind of its `params`.
fn message(id: IdField, version_ok: bool, method: Option<&str>, params: ParamsField) -> Option<Envelope> {
    Some(Envelope {
        id,
        version_ok,
        method: method.map(|m| m.to_string()),
        params,
    })
}

fn methods(names: &[&str]) -> Vec<String> {
    names.iter().map(|n| n.to_string()).collect()
}

/// The ids of `"request-1"`, `""`, `"π-request"`, `-7`, `0`, `u32::MAX + 1`,
/// `u64::MAX`, `i64::MIN`, `1.5` and `null`.
fn supported_request_ids() -> Vec<RequestId> {
    vec![
        RequestId::String("request-1".to_string()),
        RequestId::String(String::new()),
        RequestId::String("\u{03c0}-request".to_string()),
        RequestId::Number("-7".to_string()),
        RequestId::Number("0".to_string()),
        RequestId::Number((u64::from(u32::MAX) + 1).to_string()),
        RequestId::Number(u64::MAX.to_string()),
        RequestId::Number(i64::MIN.to_string()),
        RequestId::Number("1.5".to_string()),
        RequestId::Null,
    ]
}

fn number(n: u32) -> RequestId {
    RequestId::from_number(n)
}

fn rejected(route: &Route) -> Option<(Option<RequestId>, i32, String)> {
    match route {
        Route::Reject { id, code, message } => Some((id.clone(), *code, message.clone())),
        Route::MissingMethod { id } => Some((id.clone(), -3, String::new())),
        _ => None,
    }
}

#[test]
fn request_ids_preserve_values_for_dispatch_and_errors() {
    let requests = methods(&["method"]);
    let notifications = methods(&["method"]);
    for id in supported_request_ids() {
        // {"jsonrpc": "2.0", "id": id, "method": "method", "params": {"value": 42}}
        match route_message(
            message(IdField::Valid(id.clone()), true, Some("method"), ParamsField::Container),
            &requests,
            &notifications,
        ) {
            Route::Request { method, id: got, params_given } => {
                assert_eq!(method, "method");
                assert_eq!(got, id);
                assert!(params_given);
            }
            other => panic!("unexpected route {:?}", other),
        }
        // {"jsonrpc": "2.0", "method": "method", "params": [7]}
        assert!(matches!(
            route_message(
                message(IdField::Missing, true, Some("method"), ParamsField::Container),
                &requests,
                &notifications,
            ),
            Route::Notification { params_given: true, .. }
        ));
        let mut errors = Vec::new();
        // {"jsonrpc": "2.0", "id": id, "method": "unknown"}
        errors.push(rejected(&route_message(
            message(IdField::Valid(id.clone()), true, Some("unknown"), ParamsField::Missing),
            &requests,
            &notifications,
        )));
        // {"jsonrpc": "2.0", "id": id}
        errors.push(rejected(&route_message(
            message(IdField::Valid(id.clone()), true, None, ParamsField::Missing),
            &requests,
            &notifications,
        )));
        let errors: Vec<_> = errors.into_iter().map(|e| e.unwrap()).collect();
        assert_eq!(errors.len(), 2);
        assert_eq!(errors[0].0, Some(id.clone()));
        assert_eq!(errors[0].1, -1);
        assert_eq!(errors[1].0, Some(id));
        assert_eq!(errors[1].1, -3);
    }
}

#[test]
fn missing_id_is_a_notification_but_invalid_ids_are_rejected() {
    let requests = methods(&["method"]);
    let notifications = methods(&["method"]);
    assert!(matches!(
        route_message(
            message(IdField::Missing, true, Some("method"), ParamsField::Container),
            &requests,
            &notifications,
        ),
        Route::Notification { params_given: true, .. }
    ));
    // ids true, false, [] and {"id": 1}
    for _ in 0..4 {
        let route = route_message(
            message(IdField::Invalid, true, Some("method"), ParamsField::Missing),
            &requests,
            &notifications,
        );
        assert_eq!(
            rejected(&route),
            Some((None, -32600, "Invalid JSONRPC request ID".to_string()))
        );
    }
    match route_message(
        message(
            IdField::Valid(RequestId::String("after-invalid".into())),
            true,
            Some("method"),
            ParamsField::Container,
        ),
        &requests,
        &notifications,
    ) {
        Route::Request { id, params_given, .. } => {
            assert_eq!(id, RequestId::String("after-invalid".into()));
            assert!(params_given);
        }
        other => panic!("unexpected route {:?}", other),
    }
}

#[test]
fn invalid_top_level_values_and_batches_do_not_invoke_handlers() {
    let requests = methods(&["method"]);
    let notifications = methods(&["method"]);
    // null, false, 42, "request", [] and a batch: none is an object
    let errors: Vec<_> = (0..6)
        .map(|_| rejected(&route_message(None, &requests, &notifications)))
        .collect();
    assert_eq!(
        errors,
        vec![Some((None, -32600, "Invalid JSONRPC request".to_string())); 6]
    );
}

#[test]
fn invalid_jsonrpc_versions_do_not_invoke_handlers() {
    let requests = methods(&["method"]);
    let notifications = methods(&["method"]);
    // no jsonrpc, null, 2.0 as a number, true, "1.0" and "2.0 "
    let errors: Vec<_> = (0..6)
        .map(|_| {
            rejected(&route_message(
                message(IdField::Missing, false, Some("method"), ParamsField::Missing),
                &requests,
                &notifications,
            ))
        })
        .collect();
    assert_eq!(
        errors,
        vec![Some((None, -32600, "Invalid JSONRPC request".to_string())); 6]
    );
}

#[test]
fn valid_ids_round_trip_in_new_envelope_and_params_errors() {
    let requests = methods(&["method"]);
    let notifications = methods(&[]);
    for id in supported_request_ids() {
        let first = rejected(&route_message(
            message(IdField::Valid(id.clone()), false, Some("method"), ParamsField::Missing),
            &requests,
            &notifications,
        ));
        let second = rejected(&route_message(
            message(IdField::Valid(id.clone()), true, Some("method"), ParamsField::Other),
            &requests,
            &notifications,
        ));
        assert_eq!(
            vec![first.unwrap(), second.unwrap()],
            vec![
                (
                    Some(id.clone()),
                    -32600,
                    "Invalid JSONRPC request".to_string()
                ),
                (
                    Some(id),
                    -32602,
                    "JSONRPC params must be an object or array".to_string()
                )
            ]
        );
    }
}

#[test]
fn valid_parameter_containers_dispatch_requests_and_notifications() {
    let requests = methods(&["method"]);
    let notifications = methods(&["method"]);
    // params absent, null, [] and {}: the handler gets null for the first two
    for (params, given) in [
        (ParamsField::Missing, false),
        (ParamsField::Null, false),
        (ParamsField::Container, true),
        (ParamsField::Container, true),
    ] {
        match route_message(
            message(IdField::Valid(number(1)), true, Some("method"), params),
            &requests,
            &notifications,
        ) {
            Route::Request { id, params_given, .. } => {
                assert_eq!(id, number(1));
                assert_eq!(params_given, given);
            }
            other => panic!("unexpected route {:?}", other),
        }
        match route_message(
            message(IdField::Missing, true, Some("method"), params),
            &requests,
            &notifications,
        ) {
            Route::Notification { params_given, .. } => assert_eq!(params_given, given),
            other => panic!("unexpected route {:?}", other),
        }
    }
}

#[test]
fn invalid_parameter_containers_do_not_invoke_handlers() {
    let requests = methods(&["method"]);
    let notifications = methods(&["method"]);
    let mut errors = Vec::new();
    // params false, 42 and "params", each as a request with id `index` and as a notification
    for index in 0..3u32 {
        let route = route_message(
            message(IdField::Valid(number(index)), true, Some("method"), ParamsField::Other),
            &requests,
            &notifications,
        );
        if let Some((id, code, _)) = rejected(&route) {
            errors.push((id, code));
        }
        let route = route_message(
            message(IdField::Missing, true, Some("method"), ParamsField::Other),
            &requests,
            &notifications,
        );
        assert!(matches!(route, Route::InvalidNotificationParams { .. }));
    }
    assert_eq!(
        errors,
        vec![
            (Some(number(0)), -32602),
            (Some(number(1)), -32602),
            (Some(number(2)), -32602)
        ]
    );
}

#[test]
fn handle_request_routes_request_and_notification_messages() {
    let requests = methods(&["request/method"]);
    let notifications = methods(&["notification/method"]);
    match route_message(
        message(IdField::Valid(number(7)), true, Some("request/method"), ParamsField::Container),
        &requests,
        &notifications,
    ) {
        Route::Request { method, id, params_given } => {
            assert_eq!(method, "request/method");
            assert_eq!(id, number(7));
            assert!(params_given);
        }
        other => panic!("unexpected route {:?}", other),
    }
    match route_message(
        message(IdField::Missing, true, Some("notification/method"), ParamsField::Container),
        &requests,
        &notifications,
    ) {
        Route::Notification { method, params_given } => {
            assert_eq!(method, "notification/method");
            assert!(params_given);
        }
        other => panic!("unexpected route {:?}", other),
    }
}

#[test]
fn handle_payload_routes_valid_jsonrpc_payload() {
    let requests = methods(&["request/method"]);
    let notifications = methods(&[]);
    // {"jsonrpc":"2.0","id":9,"method":"request/method","params":{"ok":true}}
    match route_message(
        message(IdField::Valid(number(9)), true, Some("request/method"), ParamsField::Container),
        &requests,
        &notifications,
    ) {
        Route::Request { method, id, params_given } => {
            assert_eq!(method, "request/method");
            assert_eq!(id, number(9));
            assert!(params_given);
        }
        other => panic!("unexpected route {:?}", other),
    }
}

#[test]
fn handle_request_reports_unknown_methods_without_invoking_known_handlers() {
    let requests = methods(&["known/request"]);
    let notifications = methods(&["known/notification"]);
    let request = route_message(
        message(IdField::Valid(number(1)), true, Some("unknown/request"), ParamsField::Null),
        &requests,
        &notifications,
    );
    let notification = route_message(
        message(IdField::Missing, true, Some("unknown/notification"), ParamsField::Null),
        &requests,
        &notifications,
    );
    assert!(matches!(notification, Route::UnknownNotification { .. }));
    assert_eq!(
        rejected(&request),
        Some((
            Some(number(1)),
            -1,
            "Failed to find handler for request unknown/request".to_string()
        ))
    );
}

#[test]
fn handle_request_reports_missing_method_with_request_id() {
    let requests = methods(&[]);
    let notifications = methods(&[]);
    // {"jsonrpc": "2.0", "id": 1, "params": {"value": 42}} and
    // {"jsonrpc": "2.0", "id": 1, "method": 42}
    for params in [ParamsField::Container, ParamsField::Missing] {
        match route_message(
            message(IdField::Valid(number(1)), true, None, params),
            &requests,
            &notifications,
        ) {
            Route::MissingMethod { id } => assert_eq!(id, Some(number(1))),
            other => panic!("unexpected route {:?}", other),
        }
    }
}

#[test]
fn handle_request_reports_missing_method_with_null_id() {
    let requests = methods(&[]);
    let notifications = methods(&[]);
    // {"jsonrpc": "2.0", "params": {"value": 42}}
    match route_message(
        message(IdField::Missing, true, None, ParamsField::Container),
        &requests,
        &notifications,
    ) {
        Route::MissingMethod { id } => assert_eq!(id, None),
        other => panic!("unexpected route {:?}", other),
    }
}

#[test]
fn envelope_reads_members() {
    let e = envelope_from_fields(EnvelopeFields {
        id: MemberValue::Number("7".to_string()),
        jsonrpc: MemberValue::Text("2.0".to_string()),
        method: MemberValue::Text("refresh".to_string()),
        params: MemberValue::Array,
    });
    assert!(matches!(e.id, IdField::Valid(RequestId::Number(ref n)) if n == "7"));
    assert!(e.version_ok);
    assert_eq!(e.method, Some("refresh".to_string()));
    assert_eq!(e.params, ParamsField::Container);

    let e = envelope_from_fields(EnvelopeFields {
        id: MemberValue::Boolean,
        jsonrpc: MemberValue::Text("1.0".to_string()),
        method: MemberValue::Number("1".to_string()),
        params: MemberValue::Text("x".to_string()),
    });
    assert!(matches!(e.id, IdField::Invalid));
    assert!(!e.version_ok);
    assert_eq!(e.method, None);
    assert_eq!(e.params, ParamsField::Other);
}
