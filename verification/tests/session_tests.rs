use goose::json::JsonValue;
use goose::session::{
    call_tool_params, empty_params, initialize_params, interpret_response, make_notification,
    make_request, read_resource_params, DemuxState, JsonRpcError, JsonRpcMessage, JsonRpcRequest,
    JsonRpcResponse, SessionCore, SessionError,
};

fn response(
    id: Option<u64>,
    result: Option<JsonValue>,
    error: Option<JsonRpcError>,
) -> JsonRpcResponse {
    JsonRpcResponse {
        jsonrpc: "2.0".to_string(),
        id,
        result,
        error,
    }
}

#[test]
fn session_ids_strictly_increase() {
    let mut core = SessionCore::new();
    let a = core.alloc_id();
    let b = core.alloc_id();
    let c = core.alloc_id();
    assert!(a < b && b < c);
    assert_eq!((a, b, c), (1, 2, 3));
}

#[test]
fn shutdown_releases_pending_and_closes() {
    // A call is in flight: its id sits in the pending set.
    let mut core = SessionCore::new();
    let mut demux = DemuxState::new();
    let id = core.alloc_id();
    let request = make_request(id, "tools/list", Some(empty_params()));
    let sent = demux.on_write_ok(&JsonRpcMessage::Request(request));
    assert!(!sent);
    assert_eq!(demux.pending, vec![id]);

    // Shutdown races it: the pending call is released with a terminal error.
    core.close();
    let released = demux.on_shutdown();
    assert_eq!(released, vec![id]);
    assert!(demux.pending.is_empty());
    assert!(demux.closed);

    // A later call fails immediately with Closed.
    assert_eq!(core.check_open(), Err(SessionError::Closed));
}

#[test]
fn response_completes_matching_pending_request() {
    let mut demux = DemuxState::new();
    let request = make_request(4, "resources/list", Some(empty_params()));
    demux.on_write_ok(&JsonRpcMessage::Request(request));

    // An unknown id is dropped.
    assert_eq!(demux.on_response(Some(9)), None);
    assert_eq!(demux.pending, vec![4]);
    // A response without an id is dropped.
    assert_eq!(demux.on_response(None), None);

    // The matching id completes and leaves the pending set.
    assert_eq!(demux.on_response(Some(4)), Some(4));
    assert!(demux.pending.is_empty());
}

#[test]
fn notifications_complete_immediately() {
    let mut demux = DemuxState::new();
    let note = make_notification("notifications/initialized", None);
    assert_eq!(note.jsonrpc, "2.0");
    let complete_now = demux.on_write_ok(&JsonRpcMessage::Notification(note));
    assert!(complete_now);
    assert!(demux.pending.is_empty());
}

#[test]
fn write_failure_closes_session() {
    let mut demux = DemuxState::new();
    demux.on_write_failed();
    assert!(demux.closed);
}

#[test]
fn transport_error_releases_all_pending() {
    let mut demux = DemuxState::new();
    demux.on_write_ok(&JsonRpcMessage::Request(make_request(1, "tools/list", None)));
    demux.on_write_ok(&JsonRpcMessage::Request(make_request(2, "tools/list", None)));
    let released = demux.on_transport_error();
    assert_eq!(released, vec![1, 2]);
    assert!(demux.closed);
}

#[test]
fn interpret_response_error_wins() {
    let r = response(
        Some(1),
        Some(JsonValue::Null),
        Some(JsonRpcError {
            code: -32601,
            message: "method not found".to_string(),
        }),
    );
    assert_eq!(
        interpret_response(r),
        Err(SessionError::RpcError {
            code: -32601,
            message: "method not found".to_string()
        })
    );
}

#[test]
fn interpret_response_result() {
    let r = response(Some(1), Some(JsonValue::Bool(true)), None);
    assert_eq!(interpret_response(r), Ok(JsonValue::Bool(true)));
}

#[test]
fn interpret_response_missing_result() {
    let r = response(Some(1), None, None);
    assert_eq!(interpret_response(r), Err(SessionError::MissingResult));
}

#[test]
fn request_carries_version_and_id() {
    let r: JsonRpcRequest = make_request(7, "resources/read", Some(read_resource_params("file:///x")));
    assert_eq!(r.jsonrpc, "2.0");
    assert_eq!(r.id, Some(7));
    assert_eq!(r.method, "resources/read");
    let params = r.params.unwrap();
    assert_eq!(params.get("uri"), Some(&JsonValue::Str("file:///x".to_string())));
}

#[test]
fn initialize_params_shape() {
    let p = initialize_params();
    assert_eq!(
        p.get("protocolVersion"),
        Some(&JsonValue::Str("2024-11-05".to_string()))
    );
    let caps = p.get("capabilities").unwrap();
    assert_eq!(caps.get("sampling"), Some(&JsonValue::Null));
    assert_eq!(
        caps.get("roots").unwrap().get("listChanged"),
        Some(&JsonValue::Bool(true))
    );
    let info = p.get("clientInfo").unwrap();
    assert_eq!(info.get("name"), Some(&JsonValue::Str("RustMCPClient".to_string())));
    assert_eq!(info.get("version"), Some(&JsonValue::Str("0.1.0".to_string())));
}

#[test]
fn call_tool_params_defaults_arguments() {
    let p = call_tool_params("echo", None);
    assert_eq!(p.get("name"), Some(&JsonValue::Str("echo".to_string())));
    assert_eq!(p.get("arguments"), Some(&JsonValue::Obj(vec![])));

    let q = call_tool_params(
        "echo",
        Some(JsonValue::Obj(vec![(
            "msg".to_string(),
            JsonValue::Str("x".to_string()),
        )])),
    );
    let args = q.get("arguments").unwrap();
    assert_eq!(args.get("msg"), Some(&JsonValue::Str("x".to_string())));
}
