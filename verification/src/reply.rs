//! The per-turn core of the reply loop: which tool requests an assistant
//! message carries, and the user message answering them. The surrounding
//! loop alternates provider calls and tool dispatch; these functions decide
//! what it emits.

use vstd::prelude::*;
use crate::content::Content;
use crate::errors::{AgentResult, AgentErrorSpec};
use crate::message::{
    Message, MessageContent, MessageContentSpec, Role, ToolRequest, ToolRequestSpec,
    ToolResponseSpec, tool_result_view,
};
use crate::content::ContentSpec;

verus! {

/// The tool-request parts of a content list, in document order.
pub open spec fn tool_requests_of(content: Seq<MessageContentSpec>) -> Seq<ToolRequestSpec>
    decreases content.len(),
{
    if content.len() == 0 {
        Seq::empty()
    } else {
        let rest = tool_requests_of(content.drop_last());
        match content.last() {
            MessageContentSpec::ToolRequest(r) => rest.push(r),
            _ => rest,
        }
    }
}

/// The tool requests of a message, in the order its content carries them.
pub fn collect_tool_requests<'a>(message: &'a Message) -> (r: Vec<&'a ToolRequest>)
    ensures
        r.deep_view() == tool_requests_of(message.deep_view().content),
{
    let ghost parts = message.deep_view().content;
    let mut out: Vec<&'a ToolRequest> = Vec::new();
    let n = message.content.len();
    let mut i: usize = 0;
    proof {
        assert(out.deep_view() =~= tool_requests_of(parts.take(0)));
    }
    while i < n
        invariant
            i <= n,
            n == message.content@.len(),
            parts == message.deep_view().content,
            parts.len() == n,
            out.deep_view() == tool_requests_of(parts.take(i as int)),
        decreases n - i,
    {
        proof {
            assert(parts.take(i as int + 1).drop_last() =~= parts.take(i as int));
            assert(parts.take(i as int + 1).last() == parts[i as int]);
            assert(message.content@[i as int].deep_view() == parts[i as int]);
        }
        let ghost before = out.deep_view();
        match &message.content[i] {
            MessageContent::ToolRequest(req) => {
                out.push(req);
                proof {
                    assert(out.deep_view() =~= before.push(req.deep_view()));
                }
            },
            _ => {},
        }
        i += 1;
    }
    proof {
        assert(parts.take(n as int) =~= parts);
    }
    out
}

/// Whether the assistant's message asks for any tool at all: the reply loop
/// ends exactly when it does not.
pub fn has_tool_requests(message: &Message) -> (r: bool)
    ensures
        r == (tool_requests_of(message.deep_view().content).len() > 0),
{
    let requests = collect_tool_requests(message);
    requests.len() > 0
}

/// The user message answering a turn's tool requests: one tool-response
/// part per request, in request order, each carrying the request's own id
/// and the result dispatch produced for it.
pub fn tool_response_message(
    requests: &Vec<&ToolRequest>,
    results: Vec<AgentResult<Vec<Content>>>,
) -> (r: Message)
    requires
        requests@.len() == results@.len(),
    ensures
        r.deep_view().role == Role::User,
        r.deep_view().content.len() == requests.deep_view().len(),
        forall|i: int|
            0 <= i < requests.deep_view().len() ==> r.deep_view().content[i]
                == MessageContentSpec::ToolResponse(
                ToolResponseSpec {
                    id: requests.deep_view()[i].id,
                    tool_result: tool_result_view(results@[i]),
                },
            ),
{
    let ghost req_specs = requests.deep_view();
    let ghost res_specs: Seq<Result<Seq<ContentSpec>, AgentErrorSpec>> = Seq::new(
        results@.len(),
        |k: int| tool_result_view(results@[k]),
    );
    let mut message = Message::user();
    let mut results = results;
    let n = requests.len();
    let mut i: usize = 0;
    while i < n
        invariant
            i <= n,
            n == requests@.len(),
            req_specs == requests.deep_view(),
            req_specs.len() == n,
            results@.len() == n - i,
            forall|k: int|
                0 <= k < n - i ==> tool_result_view(#[trigger] results@[k]) == res_specs[k + i],
            message.deep_view().role == Role::User,
            message.deep_view().content.len() == i,
            forall|k: int|
                0 <= k < i ==> message.deep_view().content[k] == MessageContentSpec::ToolResponse(
                    ToolResponseSpec { id: req_specs[k].id, tool_result: res_specs[k] },
                ),
        decreases n - i,
    {
        let result = results.remove(0);
        proof {
            assert(requests@[i as int].deep_view() == req_specs[i as int]);
        }
        message = message.with_tool_response(requests[i].id.as_str(), result);
        i += 1;
    }
    message
}


/// How many provider attempts one turn makes before giving up.
pub const MAX_PROVIDER_ATTEMPTS: u32 = 3;

/// The backoff before retry number `attempt + 1`: it starts at 250 ms,
/// doubles, and never passes 5 s.
pub open spec fn backoff_ms(attempt: nat) -> nat
    decreases attempt,
{
    if attempt == 0 {
        250
    } else if backoff_ms((attempt - 1) as nat) * 2 >= 5000 {
        5000
    } else {
        backoff_ms((attempt - 1) as nat) * 2
    }
}

/// The backoff, in milliseconds, to sleep after the given failed attempt.
pub fn retry_backoff_ms(attempt: u32) -> (r: u64)
    ensures
        r == backoff_ms(attempt as nat),
{
    let mut delay: u64 = 250;
    let mut k: u32 = 0;
    while k < attempt
        invariant
            k <= attempt,
            delay == backoff_ms(k as nat),
            delay <= 5000,
        decreases attempt - k,
    {
        if delay * 2 >= 5000 {
            delay = 5000;
        } else {
            delay = delay * 2;
        }
        k += 1;
    }
    delay
}


/// Collecting requests distributes over splitting the content in two.
pub proof fn lemma_tool_requests_of_concat(a: Seq<MessageContentSpec>, b: Seq<MessageContentSpec>)
    ensures
        tool_requests_of(a + b) == tool_requests_of(a) + tool_requests_of(b),
    decreases b.len(),
{
    if b.len() == 0 {
        assert(a + b =~= a);
        assert(tool_requests_of(a) + tool_requests_of(b) =~= tool_requests_of(a));
    } else {
        lemma_tool_requests_of_concat(a, b.drop_last());
        assert((a + b).drop_last() =~= a + b.drop_last());
        assert((a + b).last() == b.last());
        match b.last() {
            MessageContentSpec::ToolRequest(req) => {
                assert(tool_requests_of(a + b) =~= tool_requests_of(a) + tool_requests_of(b));
            },
            _ => {},
        }
    }
}

/// A content list made only of tool requests yields one request per part.
pub proof fn lemma_tool_requests_of_all_requests(parts: Seq<MessageContentSpec>)
    requires
        forall|k: int| 0 <= k < parts.len() ==> (#[trigger] parts[k]) is ToolRequest,
    ensures
        tool_requests_of(parts).len() == parts.len(),
    decreases parts.len(),
{
    if parts.len() > 0 {
        lemma_tool_requests_of_all_requests(parts.drop_last());
    }
}

} // verus!
