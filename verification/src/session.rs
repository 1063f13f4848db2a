//! The decision core of an MCP JSON-RPC session: id allocation, the closed
//! flag, the background task's bookkeeping of pending requests, and the
//! reading of responses. The surrounding task only performs the I/O these
//! functions decide on.

use vstd::prelude::*;
use crate::json::{JsonValue, JsonSpec, obj1, obj2, obj3};

verus! {

/// A JSON-RPC request: id present for calls that expect a response.
#[derive(Debug, PartialEq)]
pub struct JsonRpcRequest {
    pub jsonrpc: String,
    pub id: Option<u64>,
    pub method: String,
    pub params: Option<JsonValue>,
}

/// A JSON-RPC error object.
#[derive(Debug, PartialEq)]
pub struct JsonRpcError {
    pub code: i64,
    pub message: String,
}

/// A JSON-RPC response: exactly one of `result` and `error` is expected.
#[derive(Debug, PartialEq)]
pub struct JsonRpcResponse {
    pub jsonrpc: String,
    pub id: Option<u64>,
    pub result: Option<JsonValue>,
    pub error: Option<JsonRpcError>,
}

/// A JSON-RPC notification: no id, no response.
#[derive(Debug, PartialEq)]
pub struct JsonRpcNotification {
    pub jsonrpc: String,
    pub method: String,
    pub params: Option<JsonValue>,
}

/// Any message of the JSON-RPC envelope.
#[derive(Debug, PartialEq)]
pub enum JsonRpcMessage {
    Request(JsonRpcRequest),
    Response(JsonRpcResponse),
    Notification(JsonRpcNotification),
}

/// How a session call fails.
#[derive(Debug, PartialEq)]
pub enum SessionError {
    /// The session was shut down before or during the call.
    Closed,
    /// The outgoing queue or the transport broke.
    SendFailed,
    /// The peer answered with an error.
    RpcError { code: i64, message: String },
    /// The result could not be decoded into the expected type.
    DeserializeFailed,
    /// The response carried neither result nor error.
    MissingResult,
}

/// A request with the protocol's version string and the given id.
pub fn make_request(id: u64, method: &str, params: Option<JsonValue>) -> (r: JsonRpcRequest)
    ensures
        r.jsonrpc@ == "2.0"@,
        r.id == Some(id),
        r.method@ == method@,
        r.params == params,
{
    JsonRpcRequest { jsonrpc: ("2.0").to_owned(), id: Some(id), method: method.to_owned(), params }
}

/// A notification with the protocol's version string and no id.
pub fn make_notification(method: &str, params: Option<JsonValue>) -> (r: JsonRpcNotification)
    ensures
        r.jsonrpc@ == "2.0"@,
        r.method@ == method@,
        r.params == params,
{
    JsonRpcNotification { jsonrpc: ("2.0").to_owned(), method: method.to_owned(), params }
}

/// What a response means to the caller that awaited it: the peer's error if
/// one came, else the result, else the missing-result error.
pub fn interpret_response(response: JsonRpcResponse) -> (r: Result<JsonValue, SessionError>)
    ensures
        response.error matches Some(e) ==> r == Err::<JsonValue, SessionError>(
            SessionError::RpcError { code: e.code, message: e.message },
        ),
        (response.error is None && response.result is Some) ==> r == Ok::<JsonValue, SessionError>(
            response.result->0,
        ),
        response.error is None && response.result is None ==> r == Err::<JsonValue, SessionError>(
            SessionError::MissingResult,
        ),
{
    match (response.error, response.result) {
        (Some(e), _) => Err(SessionError::RpcError { code: e.code, message: e.message }),
        (None, Some(v)) => Ok(v),
        (None, None) => Err(SessionError::MissingResult),
    }
}

/// The caller-side state of a session: the id counter, the closed flag, and
/// the ghost record of every id handed out.
pub struct SessionCore {
    pub next_id: u64,
    pub closed: bool,
    pub issued: Ghost<Seq<u64>>,
}

impl SessionCore {
    /// Every issued id is below the counter, and they were issued in
    /// strictly increasing order.
    pub open spec fn wf(self) -> bool {
        &&& forall|k: int| 0 <= k < self.issued@.len() ==> (#[trigger] self.issued@[k]) < self.next_id
        &&& forall|a: int, b: int|
            0 <= a < b < self.issued@.len() ==> self.issued@[a] < self.issued@[b]
    }

    /// A fresh open session, ids starting at 1.
    pub fn new() -> (r: SessionCore)
        ensures
            r.wf(),
            r.next_id == 1,
            !r.closed,
            r.issued@ == Seq::<u64>::empty(),
    {
        SessionCore { next_id: 1, closed: false, issued: Ghost(Seq::empty()) }
    }

    /// The next id: strictly greater than every id issued before.
    pub fn alloc_id(&mut self) -> (r: u64)
        requires
            old(self).wf(),
            old(self).next_id < u64::MAX,
        ensures
            final(self).wf(),
            r == old(self).next_id,
            final(self).next_id == old(self).next_id + 1,
            final(self).issued@ == old(self).issued@.push(r),
            final(self).closed == old(self).closed,
    {
        let id = self.next_id;
        self.next_id = self.next_id + 1;
        proof {
            self.issued@ = self.issued@.push(id);
        }
        id
    }

    /// Marks the session closed. Closing is monotone: nothing reopens it.
    pub fn close(&mut self)
        ensures
            final(self).closed,
            final(self).next_id == old(self).next_id,
            final(self).issued == old(self).issued,
            final(self).wf() == old(self).wf(),
    {
        self.closed = true;
    }

    /// `Ok` exactly while the session is open: every call tests this
    /// before it may touch the queue.
    pub fn check_open(&self) -> (r: Result<(), SessionError>)
        ensures
            r is Ok <==> !self.closed,
            r matches Err(e) ==> e == SessionError::Closed,
    {
        if self.closed {
            Err(SessionError::Closed)
        } else {
            Ok(())
        }
    }
}

/// The ids a session hands out are strictly increasing, and so never repeat.
pub proof fn lemma_session_ids_strictly_increasing(s: SessionCore)
    requires
        s.wf(),
    ensures
        forall|a: int, b: int| 0 <= a < b < s.issued@.len() ==> s.issued@[a] < s.issued@[b],
        forall|a: int, b: int|
            0 <= a < s.issued@.len() && 0 <= b < s.issued@.len() && a != b ==> s.issued@[a]
                != s.issued@[b],
{
    assert forall|a: int, b: int|
        0 <= a < s.issued@.len() && 0 <= b < s.issued@.len() && a != b implies s.issued@[a]
        != s.issued@[b] by {
        if a < b {
            assert(s.issued@[a] < s.issued@[b]);
        } else {
            assert(s.issued@[b] < s.issued@[a]);
        }
    }
}

/// The background task's state: the ids of in-flight requests, in the order
/// they were written, and whether the task has stopped taking messages.
pub struct DemuxState {
    pub pending: Vec<u64>,
    pub closed: bool,
}

impl DemuxState {
    /// The state the background task starts in.
    pub fn new() -> (r: DemuxState)
        ensures
            r.pending@ == Seq::<u64>::empty(),
            !r.closed,
    {
        DemuxState { pending: Vec::new(), closed: false }
    }

    /// A shutdown signal: every pending call is released (the caller hands
    /// each its terminal error) and the task stops.
    pub fn on_shutdown(&mut self) -> (released: Vec<u64>)
        ensures
            released@ == old(self).pending@,
            final(self).pending@ == Seq::<u64>::empty(),
            final(self).closed,
    {
        self.closed = true;
        let mut released = Vec::new();
        core::mem::swap(&mut released, &mut self.pending);
        released
    }

    /// A transport error: like shutdown, every pending call is released
    /// with the error and the task stops.
    pub fn on_transport_error(&mut self) -> (released: Vec<u64>)
        ensures
            released@ == old(self).pending@,
            final(self).pending@ == Seq::<u64>::empty(),
            final(self).closed,
    {
        self.on_shutdown()
    }

    /// An outgoing message was written: a request with an id joins the
    /// pending set; a notification's sink is completed at once (`true`);
    /// a request without an id leaves nothing to wait for.
    pub fn on_write_ok(&mut self, message: &JsonRpcMessage) -> (complete_now: bool)
        ensures
            final(self).closed == old(self).closed,
            match message {
                JsonRpcMessage::Request(req) => {
                    &&& !complete_now
                    &&& match req.id {
                        Some(id) => final(self).pending@ == old(self).pending@.push(id),
                        None => final(self).pending@ == old(self).pending@,
                    }
                },
                _ => complete_now && final(self).pending@ == old(self).pending@,
            },
    {
        match message {
            JsonRpcMessage::Request(req) => {
                match req.id {
                    Some(id) => {
                        self.pending.push(id);
                    },
                    None => {},
                }
                false
            },
            _ => true,
        }
    }

    /// A write failed: the task marks the session closed and stops; the one
    /// sink it was serving gets the error from the caller.
    pub fn on_write_failed(&mut self)
        ensures
            final(self).closed,
            final(self).pending@ == old(self).pending@,
    {
        self.closed = true;
    }

    /// A response arrived: the first pending entry with its id leaves the
    /// pending set and is completed; a response with an unknown or missing
    /// id is dropped.
    pub fn on_response(&mut self, id: Option<u64>) -> (complete: Option<u64>)
        ensures
            final(self).closed == old(self).closed,
            match complete {
                Some(found) => {
                    &&& id == Some(found)
                    &&& exists|k: int|
                        {
                            &&& 0 <= k < old(self).pending@.len()
                            &&& old(self).pending@[k] == found
                            &&& forall|j: int| 0 <= j < k ==> old(self).pending@[j] != found
                            &&& final(self).pending@ == old(self).pending@.remove(k)
                        }
                },
                None => {
                    &&& final(self).pending@ == old(self).pending@
                    &&& match id {
                        Some(v) => forall|k: int|
                            0 <= k < old(self).pending@.len() ==> old(self).pending@[k] != v,
                        None => true,
                    }
                },
            },
    {
        let target = match id {
            Some(v) => v,
            None => {
                return None;
            },
        };
        let n = self.pending.len();
        let mut i: usize = 0;
        while i < n
            invariant
                i <= n,
                n == self.pending@.len(),
                self == old(self),
                id == Some(target),
                forall|j: int| 0 <= j < i ==> self.pending@[j] != target,
            decreases n - i,
        {
            if self.pending[i] == target {
                self.pending.remove(i);
                proof {
                    let k = i as int;
                    assert(0 <= k < old(self).pending@.len() && old(self).pending@[k] == target
                        && (forall|j: int| 0 <= j < k ==> old(self).pending@[j] != target)
                        && self.pending@ == old(self).pending@.remove(k));
                }
                return Some(target);
            }
            i += 1;
        }
        None
    }
}


/// The params of the `initialize` handshake request.
pub open spec fn initialize_params_spec() -> JsonSpec {
    JsonSpec::Obj(
        seq![
            ("protocolVersion"@, JsonSpec::Str("2024-11-05"@)),
            (
                "capabilities"@,
                JsonSpec::Obj(
                    seq![
                        ("sampling"@, JsonSpec::Null),
                        ("experimental"@, JsonSpec::Null),
                        ("roots"@, JsonSpec::Obj(seq![("listChanged"@, JsonSpec::Bool(true))])),
                    ],
                ),
            ),
            (
                "clientInfo"@,
                JsonSpec::Obj(
                    seq![
                        ("name"@, JsonSpec::Str("RustMCPClient"@)),
                        ("version"@, JsonSpec::Str("0.1.0"@)),
                    ],
                ),
            ),
        ],
    )
}

/// The params of a call that takes none: an empty object.
pub open spec fn empty_params_spec() -> JsonSpec {
    JsonSpec::Obj(Seq::empty())
}

/// The params of a `resources/read` request.
pub open spec fn read_resource_params_spec(uri: Seq<char>) -> JsonSpec {
    JsonSpec::Obj(seq![("uri"@, JsonSpec::Str(uri))])
}

/// The params of a `tools/call` request: absent arguments become an empty
/// object.
pub open spec fn call_tool_params_spec(name: Seq<char>, arguments: Option<JsonSpec>) -> JsonSpec {
    JsonSpec::Obj(
        seq![
            ("name"@, JsonSpec::Str(name)),
            (
                "arguments"@,
                match arguments {
                    Some(v) => v,
                    None => JsonSpec::Obj(Seq::empty()),
                },
            ),
        ],
    )
}

/// An empty JSON object.
pub fn empty_params() -> (r: JsonValue)
    ensures
        r.deep_view() == empty_params_spec(),
{
    let fields: Vec<(String, JsonValue)> = Vec::new();
    proof {
        crate::json::lemma_json_fields_deep_view(&fields);
    }
    JsonValue::Obj(fields)
}

/// The `initialize` handshake params.
pub fn initialize_params() -> (r: JsonValue)
    ensures
        r.deep_view() == initialize_params_spec(),
{
    let roots = obj1("listChanged", JsonValue::Bool(true));
    let capabilities = obj3(
        "sampling",
        JsonValue::Null,
        "experimental",
        JsonValue::Null,
        "roots",
        roots,
    );
    let client_info = obj2(
        "name",
        JsonValue::string("RustMCPClient"),
        "version",
        JsonValue::string("0.1.0"),
    );
    obj3(
        "protocolVersion",
        JsonValue::string("2024-11-05"),
        "capabilities",
        capabilities,
        "clientInfo",
        client_info,
    )
}

/// The `resources/read` params for one uri.
pub fn read_resource_params(uri: &str) -> (r: JsonValue)
    ensures
        r.deep_view() == read_resource_params_spec(uri@),
{
    obj1("uri", JsonValue::string(uri))
}

/// The `tools/call` params for a named tool.
pub fn call_tool_params(name: &str, arguments: Option<JsonValue>) -> (r: JsonValue)
    ensures
        r.deep_view() == call_tool_params_spec(name@, arguments.deep_view()),
{
    let ghost ga = arguments.deep_view();
    let args = match arguments {
        Some(v) => v,
        None => empty_params(),
    };
    proof {
        assert(args.deep_view() == match ga {
            Some(v) => v,
            None => empty_params_spec(),
        });
    }
    let r = obj2("name", JsonValue::string(name), "arguments", args);
    proof {
        assert(r.deep_view() is Obj && call_tool_params_spec(name@, ga) is Obj);
        assert(r.deep_view()->Obj_0 =~= call_tool_params_spec(name@, ga)->Obj_0);
        assert(r.deep_view() =~= call_tool_params_spec(name@, ga));
    }
    r
}

} // verus!
