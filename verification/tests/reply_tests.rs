use goose::content::Content;
use goose::errors::AgentError;
use goose::json::JsonValue;
use goose::message::{Message, MessageContent, Role};
use goose::providers::openai_response_to_message;
use goose::reply::{collect_tool_requests, has_tool_requests, tool_response_message};
use goose::tool::ToolCall;

fn s(text: &str) -> JsonValue {
    JsonValue::Str(text.to_string())
}

fn obj(fields: Vec<(&str, JsonValue)>) -> JsonValue {
    JsonValue::Obj(fields.into_iter().map(|(k, v)| (k.to_string(), v)).collect())
}

fn arr(items: Vec<JsonValue>) -> JsonValue {
    JsonValue::Arr(items)
}

fn text_response(text: &str) -> JsonValue {
    obj(vec![(
        "choices",
        arr(vec![obj(vec![("message", obj(vec![("content", s(text))]))])]),
    )])
}

fn tool_call_response(id: &str, name: &str, arguments: &str) -> JsonValue {
    obj(vec![(
        "choices",
        arr(vec![obj(vec![(
            "message",
            obj(vec![(
                "tool_calls",
                arr(vec![obj(vec![
                    ("id", s(id)),
                    (
                        "function",
                        obj(vec![("name", s(name)), ("arguments", s(arguments))]),
                    ),
                ])]),
            )]),
        )])]),
    )])
}

#[test]
fn text_turn_emits_single_assistant_message() {
    // The provider answers plain text: the turn ends with that one message.
    let assistant = openai_response_to_message(&text_response("Hi")).unwrap();
    assert!(matches!(assistant.role, Role::Assistant));
    assert_eq!(assistant.content.len(), 1);
    if let MessageContent::Text(t) = &assistant.content[0] {
        assert_eq!(t.text, "Hi");
    } else {
        panic!("Expected Text content");
    }
    assert!(!has_tool_requests(&assistant));
}

#[test]
fn single_tool_turn_orders_three_messages() {
    // First provider reply: one tool request.
    let first = openai_response_to_message(&tool_call_response(
        "t1",
        "echo",
        "{\"msg\": \"x\"}",
    ))
    .unwrap();
    assert!(has_tool_requests(&first));
    let requests = collect_tool_requests(&first);
    assert_eq!(requests.len(), 1);
    assert_eq!(requests[0].id, "t1");
    let call = requests[0].tool_call.as_ref().unwrap();
    assert_eq!(call.name, "echo");
    assert_eq!(call.arguments, obj(vec![("msg", s("x"))]));

    // Dispatch yields text "x"; the answering user message mirrors the id.
    let reply = tool_response_message(&requests, vec![Ok(vec![Content::text("x")])]);
    assert!(matches!(reply.role, Role::User));
    assert_eq!(reply.content.len(), 1);
    if let MessageContent::ToolResponse(resp) = &reply.content[0] {
        assert_eq!(resp.id, "t1");
        let contents = resp.tool_result.as_ref().unwrap();
        assert_eq!(contents.len(), 1);
        assert_eq!(contents[0], Content::text("x"));
    } else {
        panic!("Expected ToolResponse content");
    }

    // Second provider reply has no requests: the loop ends there.
    let second = openai_response_to_message(&text_response("done")).unwrap();
    assert!(!has_tool_requests(&second));
}

#[test]
fn invalid_tool_name_short_circuits_to_error() {
    let first =
        openai_response_to_message(&tool_call_response("t9", "bad name", "{}")).unwrap();
    let requests = collect_tool_requests(&first);
    assert_eq!(requests.len(), 1);
    let err = requests[0].tool_call.as_ref().unwrap_err();
    assert!(matches!(err, AgentError::ToolNotFound(_)));

    // The error is mirrored back without dispatch.
    let mirrored = match requests[0].tool_call.as_ref() {
        Err(AgentError::ToolNotFound(m)) => AgentError::ToolNotFound(m.clone()),
        _ => panic!("Expected ToolNotFound error"),
    };
    let reply = tool_response_message(&requests, vec![Err(mirrored)]);
    assert_eq!(reply.content.len(), 1);
    if let MessageContent::ToolResponse(resp) = &reply.content[0] {
        assert_eq!(resp.id, "t9");
        assert!(matches!(
            resp.tool_result,
            Err(AgentError::ToolNotFound(_))
        ));
    } else {
        panic!("Expected ToolResponse content");
    }
}

#[test]
fn malformed_arguments_mirror_invalid_parameters() {
    let first =
        openai_response_to_message(&tool_call_response("t2", "echo", "invalid json {")).unwrap();
    let requests = collect_tool_requests(&first);
    assert_eq!(requests.len(), 1);
    assert!(matches!(
        requests[0].tool_call,
        Err(AgentError::InvalidParameters(_))
    ));

    let mirrored = match requests[0].tool_call.as_ref() {
        Err(AgentError::InvalidParameters(m)) => AgentError::InvalidParameters(m.clone()),
        _ => panic!("Expected InvalidParameters error"),
    };
    let reply = tool_response_message(&requests, vec![Err(mirrored)]);
    if let MessageContent::ToolResponse(resp) = &reply.content[0] {
        assert_eq!(resp.id, "t2");
        assert!(matches!(
            resp.tool_result,
            Err(AgentError::InvalidParameters(_))
        ));
    } else {
        panic!("Expected ToolResponse content");
    }
}

#[test]
fn responses_follow_request_order() {
    let assistant = Message::assistant()
        .with_tool_request("a", Ok(ToolCall::new("first", obj(vec![]))))
        .with_tool_request("b", Ok(ToolCall::new("second", obj(vec![]))))
        .with_tool_request("c", Err(AgentError::ToolNotFound("gone".to_string())));
    let requests = collect_tool_requests(&assistant);
    assert_eq!(requests.len(), 3);

    let reply = tool_response_message(
        &requests,
        vec![
            Ok(vec![Content::text("one")]),
            Ok(vec![Content::text("two")]),
            Err(AgentError::ToolNotFound("gone".to_string())),
        ],
    );
    assert_eq!(reply.content.len(), 3);
    let ids: Vec<&str> = reply
        .content
        .iter()
        .map(|part| {
            if let MessageContent::ToolResponse(resp) = part {
                resp.id.as_str()
            } else {
                panic!("Expected ToolResponse content");
            }
        })
        .collect();
    assert_eq!(ids, vec!["a", "b", "c"]);
}

#[test]
fn backoff_doubles_and_caps() {
    assert_eq!(goose::reply::retry_backoff_ms(0), 250);
    assert_eq!(goose::reply::retry_backoff_ms(1), 500);
    assert_eq!(goose::reply::retry_backoff_ms(2), 1000);
    assert_eq!(goose::reply::retry_backoff_ms(3), 2000);
    assert_eq!(goose::reply::retry_backoff_ms(4), 4000);
    assert_eq!(goose::reply::retry_backoff_ms(5), 5000);
    assert_eq!(goose::reply::retry_backoff_ms(20), 5000);
    assert_eq!(goose::reply::MAX_PROVIDER_ATTEMPTS, 3);
}
