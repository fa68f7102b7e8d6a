//! The decisions of the JSON-RPC server: how a message is routed, when reading
//! input stops, and how the transport is closed. Reading stdin, the threads and
//! the handlers themselves live in the application.
use vstd::prelude::*;
use crate::io_errors::{io_kind, new_io_error, IoKind};
use crate::text::{chars_eq, chars_to_string, str_to_chars};

verus! {

/// A JSON-RPC request id: a string, a number (kept as its JSON text), or null.
#[derive(Debug, Clone, PartialEq, Eq)]
pub enum RequestId {
    String(String),
    Number(String),
    Null,
}

impl RequestId {
    /// A copy of the id.
    pub fn duplicate(&self) -> (r: Self)
        ensures
            r == *self,
    {
        match self {
            RequestId::String(s) => RequestId::String(s.clone()),
            RequestId::Number(n) => RequestId::Number(n.clone()),
            RequestId::Null => RequestId::Null,
        }
    }

    /// The id of number `id`.
    pub fn from_number(id: u32) -> (r: Self)
        ensures
            r matches RequestId::Number(text) && text@ == crate::output::decimal_chars(id as nat),
    {
        RequestId::Number(chars_to_string(crate::output::decimal_string(id as usize).as_slice()))
    }
}

/// The `id` member of a message.
#[derive(Debug, Clone)]
pub enum IdField {
    Missing,
    Valid(RequestId),
    /// Present, but not a string, number or null.
    Invalid,
}

/// The `params` member of a message.
#[derive(Debug, Clone, Copy, PartialEq, Eq, Structural)]
pub enum ParamsField {
    Missing,
    Null,
    /// An object or an array.
    Container,
    /// Any other value.
    Other,
}

/// What routing reads of a JSON-RPC message object.
#[derive(Debug, Clone)]
pub struct Envelope {
    pub id: IdField,
    /// `jsonrpc` is the string `2.0`.
    pub version_ok: bool,
    /// `method`, when it is a string.
    pub method: Option<String>,
    pub params: ParamsField,
}

/// The shape of one member of a JSON object, as routing reads it: missing, or
/// the kind of value it holds (a string's text, a number's JSON text).
#[derive(Debug, Clone)]
pub enum MemberValue {
    Missing,
    Null,
    Text(String),
    Number(String),
    Boolean,
    Array,
    Object,
}

/// The members of a message object that routing reads.
#[derive(Debug, Clone)]
pub struct EnvelopeFields {
    pub id: MemberValue,
    pub jsonrpc: MemberValue,
    pub method: MemberValue,
    pub params: MemberValue,
}

/// The `id` of a message: a string, a number or null is a usable id; any other
/// value is not.
pub open spec fn id_field_of(v: MemberValue) -> IdField {
    match v {
        MemberValue::Missing => IdField::Missing,
        MemberValue::Text(s) => IdField::Valid(RequestId::String(s)),
        MemberValue::Number(n) => IdField::Valid(RequestId::Number(n)),
        MemberValue::Null => IdField::Valid(RequestId::Null),
        _ => IdField::Invalid,
    }
}

/// The `params` of a message: an object or an array is a container.
pub open spec fn params_field_of(v: MemberValue) -> ParamsField {
    match v {
        MemberValue::Missing => ParamsField::Missing,
        MemberValue::Null => ParamsField::Null,
        MemberValue::Array => ParamsField::Container,
        MemberValue::Object => ParamsField::Container,
        _ => ParamsField::Other,
    }
}

/// `jsonrpc` is the string `2.0`.
pub open spec fn version_ok_of(v: MemberValue) -> bool {
    v matches MemberValue::Text(s) && s@ == "2.0"@
}

/// `method`, when it is a string.
pub open spec fn method_of(v: MemberValue) -> Option<String> {
    match v {
        MemberValue::Text(s) => Some(s),
        _ => None,
    }
}

/// What routing reads of a message object with the members `f`.
pub fn envelope_from_fields(f: EnvelopeFields) -> (r: Envelope)
    ensures
        r.id == id_field_of(f.id),
        r.version_ok == version_ok_of(f.jsonrpc),
        r.method == method_of(f.method),
        r.params == params_field_of(f.params),
        f.params is Object || f.params is Array ==> r.params == ParamsField::Container,
        f.params is Missing ==> r.params == ParamsField::Missing,
        f.params is Null ==> r.params == ParamsField::Null,
        f.params is Text || f.params is Number || f.params is Boolean ==> r.params
            == ParamsField::Other,
{
    let id = match f.id {
        MemberValue::Missing => IdField::Missing,
        MemberValue::Text(s) => IdField::Valid(RequestId::String(s)),
        MemberValue::Number(n) => IdField::Valid(RequestId::Number(n)),
        MemberValue::Null => IdField::Valid(RequestId::Null),
        _ => IdField::Invalid,
    };
    let version_ok = match &f.jsonrpc {
        MemberValue::Text(s) => chars_eq(&str_to_chars(s.as_str()), &str_to_chars("2.0")),
        _ => false,
    };
    let method = match f.method {
        MemberValue::Text(s) => Some(s),
        _ => None,
    };
    let params = match f.params {
        MemberValue::Missing => ParamsField::Missing,
        MemberValue::Null => ParamsField::Null,
        MemberValue::Array => ParamsField::Container,
        MemberValue::Object => ParamsField::Container,
        _ => ParamsField::Other,
    };
    Envelope { id, version_ok, method, params }
}

/// Where a message goes.
#[derive(Debug, Clone)]
pub enum Route {
    /// An error reply (with the request's id, when it has a usable one).
    Reject { id: Option<RequestId>, code: i32, message: String },
    /// A request for a registered handler; `params_given` when `params` is an
    /// object or array (otherwise the handler gets null).
    Request { method: String, id: RequestId, params_given: bool },
    /// A notification for a registered handler.
    Notification { method: String, params_given: bool },
    /// A notification whose params are neither an object nor an array: ignored.
    InvalidNotificationParams { method: String },
    /// A notification no handler is registered for: ignored.
    UnknownNotification { method: String },
    /// No `method` string: an error reply with code -3, whose text quotes the message.
    MissingMethod { id: Option<RequestId> },
}

/// The id a message carries, when it is usable.
pub open spec fn message_id(e: Envelope) -> Option<RequestId> {
    match e.id {
        IdField::Valid(id) => Some(id),
        _ => None,
    }
}

/// Whether `s` holds a string with the characters `m`.
pub open spec fn has_method(s: Seq<String>, m: Seq<char>) -> bool {
    exists|i: int| 0 <= i < s.len() && (#[trigger] s[i])@ == m
}

/// `r` is a rejection with this id, code and text.
pub open spec fn is_reject(r: Route, id: Option<RequestId>, code: int, text: Seq<char>) -> bool {
    r matches Route::Reject { id: i, code: c, message: m } && i == id && c == code && m@ == text
}

/// How a message is routed: not an object or a bad id is an invalid request
/// (-32600, no id); a wrong `jsonrpc` version too (with the id); no method string
/// gives [`Route::MissingMethod`]; params that are neither object nor array are
/// refused for a request (-32602) and ignored for a notification; a request
/// without a handler gets -1; a notification without one is ignored.
pub open spec fn routes_to(
    message: Option<Envelope>,
    requests: Seq<String>,
    notifications: Seq<String>,
    r: Route,
) -> bool {
    match message {
        None => is_reject(r, None, -32600, "Invalid JSONRPC request"@),
        Some(e) => if e.id is Invalid {
            is_reject(r, None, -32600, "Invalid JSONRPC request ID"@)
        } else if !e.version_ok {
            is_reject(r, message_id(e), -32600, "Invalid JSONRPC request"@)
        } else {
            match e.method {
                None => r == Route::MissingMethod { id: message_id(e) },
                Some(m) => {
                    let given = e.params == ParamsField::Container;
                    if e.params == ParamsField::Other {
                        match message_id(e) {
                            Some(id) => is_reject(
                                r,
                                Some(id),
                                -32602,
                                "JSONRPC params must be an object or array"@,
                            ),
                            None => r matches Route::InvalidNotificationParams { method } && method@
                                == m@,
                        }
                    } else {
                        match message_id(e) {
                            Some(id) => if has_method(requests, m@) {
                                r matches Route::Request { method, id: i, params_given } && method@
                                    == m@ && i == id && params_given == given
                            } else {
                                is_reject(
                                    r,
                                    Some(id),
                                    -1,
                                    "Failed to find handler for request "@ + m@,
                                )
                            },
                            None => if has_method(notifications, m@) {
                                r matches Route::Notification { method, params_given } && method@
                                    == m@ && params_given == given
                            } else {
                                r matches Route::UnknownNotification { method } && method@ == m@
                            },
                        }
                    }
                },
            }
        },
    }
}

/// Whether `names` holds `name`.
fn contains_method(names: &Vec<String>, name: &str) -> (r: bool)
    ensures
        r == has_method(names@, name@),
{
    let target = str_to_chars(name);
    let mut i: usize = 0;
    while i < names.len()
        invariant
            0 <= i <= names@.len(),
            target@ == name@,
            forall|k: int| 0 <= k < i ==> (#[trigger] names@[k])@ != name@,
        decreases names.len() - i,
    {
        if chars_eq(&str_to_chars(names[i].as_str()), &target) {
            return true;
        }
        i = i + 1;
    }
    false
}

fn reject(id: Option<RequestId>, code: i32, text: &str) -> (r: Route)
    ensures
        is_reject(r, id, code as int, text@),
{
    Route::Reject { id, code, message: chars_to_string(str_to_chars(text).as_slice()) }
}

fn id_of(e: &Envelope) -> (r: Option<RequestId>)
    ensures
        r == message_id(*e),
{
    match &e.id {
        IdField::Valid(id) => Some(id.duplicate()),
        _ => None,
    }
}

/// Routes one message (`None` when the JSON value is not an object), given the
/// methods that have request and notification handlers.
pub fn route_message(
    message: Option<Envelope>,
    requests: &Vec<String>,
    notifications: &Vec<String>,
) -> (r: Route)
    ensures
        routes_to(message, requests@, notifications@, r),
{
    let e = match message {
        None => {
            return reject(None, -32600, "Invalid JSONRPC request");
        },
        Some(e) => e,
    };
    if matches!(e.id, IdField::Invalid) {
        return reject(None, -32600, "Invalid JSONRPC request ID");
    }
    let id = id_of(&e);
    if !e.version_ok {
        return reject(id, -32600, "Invalid JSONRPC request");
    }
    let method = match &e.method {
        None => {
            return Route::MissingMethod { id };
        },
        Some(m) => m.clone(),
    };
    let given = e.params == ParamsField::Container;
    if e.params == ParamsField::Other {
        return match id {
            Some(id) => reject(Some(id), -32602, "JSONRPC params must be an object or array"),
            None => Route::InvalidNotificationParams { method },
        };
    }
    match id {
        Some(id) => {
            if contains_method(requests, method.as_str()) {
                Route::Request { method, id, params_given: given }
            } else {
                let mut text = str_to_chars("Failed to find handler for request ");
                let m = str_to_chars(method.as_str());
                let ghost t0 = text@;
                let mut i: usize = 0;
                while i < m.len()
                    invariant
                        0 <= i <= m@.len(),
                        text@ == t0 + m@.subrange(0, i as int),
                    decreases m.len() - i,
                {
                    text.push(m[i]);
                    assert(text@ =~= t0 + m@.subrange(0, i + 1));
                    i = i + 1;
                }
                assert(m@.subrange(0, m@.len() as int) =~= m@);
                Route::Reject { id: Some(id), code: -1, message: chars_to_string(text.as_slice()) }
            }
        },
        None => {
            if contains_method(notifications, method.as_str()) {
                Route::Notification { method, params_given: given }
            } else {
                Route::UnknownNotification { method }
            }
        },
    }
}

/// Routes one payload: `None` when it is not JSON, which is answered with a
/// parse error (-32700, no id); otherwise as [`route_message`] does.
pub fn route_payload(
    parsed: Option<Option<Envelope>>,
    requests: &Vec<String>,
    notifications: &Vec<String>,
) -> (r: Route)
    ensures
        parsed is None ==> is_reject(r, None, -32700, "Invalid JSONRPC JSON payload"@),
        parsed matches Some(m) ==> routes_to(m, requests@, notifications@, r),
{
    match parsed {
        None => reject(None, -32700, "Invalid JSONRPC JSON payload"),
        Some(m) => route_message(m, requests, notifications),
    }
}

/// Whether reading input stops after this result of reading a frame: anything
/// but a frame (the end of input, or an error) is the last thing sent.
pub fn frame_ends_input(frame: &Result<Option<Vec<u8>>, std::io::Error>) -> (r: bool)
    ensures
        r == !(frame matches Ok(Some(_))),
{
    match frame {
        Ok(Some(_)) => false,
        _ => true,
    }
}

/// What the dispatcher receives from the input reader in one wait.
pub enum Received {
    /// A result of reading a frame.
    Frame(Result<Option<Vec<u8>>, std::io::Error>),
    /// Nothing arrived within the polling interval.
    Timeout,
    /// The reader stopped without a last result.
    Disconnected,
    /// Output had already failed, before waiting for input.
    OutputFailed(std::io::Error),
}

/// What the dispatcher does next.
pub enum DispatchStep {
    /// Stop with this result.
    Stop(Result<(), std::io::Error>),
    /// Handle this payload, then wait again.
    Handle(Vec<u8>),
    /// Wait again.
    Wait,
}

/// One step of dispatching input: a failure of output stops with that error, a
/// payload is handled, the end of input stops with success, a read error stops
/// with that error, a reader gone without a last result stops with an
/// `UnexpectedEof` error, and a timeout waits again.
pub fn dispatch_step(received: Received) -> (r: DispatchStep)
    ensures
        match received {
            Received::Frame(Ok(Some(p))) => r matches DispatchStep::Handle(q) && q@ == p@,
            Received::Frame(Ok(None)) => r matches DispatchStep::Stop(Ok(())),
            Received::Frame(Err(e)) => r matches DispatchStep::Stop(Err(x)) && x == e,
            Received::Timeout => r is Wait,
            Received::Disconnected => r matches DispatchStep::Stop(Err(_)),
            Received::OutputFailed(e) => r matches DispatchStep::Stop(Err(x)) && x == e,
        },
{
    match received {
        Received::Frame(Ok(Some(p))) => DispatchStep::Handle(p),
        Received::Frame(Ok(None)) => DispatchStep::Stop(Ok(())),
        Received::Frame(Err(e)) => DispatchStep::Stop(Err(e)),
        Received::Timeout => DispatchStep::Wait,
        Received::OutputFailed(e) => DispatchStep::Stop(Err(e)),
        Received::Disconnected => DispatchStep::Stop(
            Err(
                new_io_error(
                    io_kind(IoKind::UnexpectedEof),
                    chars_to_string(
                        str_to_chars("JSONRPC input reader stopped without a terminal result").as_slice(),
                    ),
                ),
            ),
        ),
    }
}

/// Closes output, then reports the transport's own error first, and otherwise
/// the output error that remains once output is closed.
pub fn close_transport<S: FnOnce(), E: FnOnce() -> Option<std::io::Error>>(
    result: Result<(), std::io::Error>,
    shutdown_output: S,
    output_error: E,
) -> (r: Result<(), std::io::Error>)
    requires
        shutdown_output.requires(()),
        output_error.requires(()),
    ensures
        result is Err ==> r == result,
        result is Ok ==> exists|reported: Option<std::io::Error>|
            output_error.ensures((), reported) && match reported {
                Some(x) => r == Err::<(), std::io::Error>(x),
                None => r is Ok,
            },
{
    shutdown_output();
    let reported = output_error();
    match result {
        Err(e) => Err(e),
        Ok(()) => match reported {
            Some(x) => Err(x),
            None => Ok(()),
        },
    }
}

} // verus!
