use goose::content::Content;
use goose::errors::AgentError;
use goose::json::JsonValue;
use goose::message::{Message, MessageContent, Role};
use goose::providers::{
    check_openai_context_length_error, is_valid_function_name, messages_to_openai_spec,
    openai_response_to_message, sanitize_function_name, tools_to_openai_spec,
};
use goose::tool::{Tool, ToolCall};

fn s(text: &str) -> JsonValue {
    JsonValue::Str(text.to_string())
}

fn obj(fields: Vec<(&str, JsonValue)>) -> JsonValue {
    JsonValue::Obj(fields.into_iter().map(|(k, v)| (k.to_string(), v)).collect())
}

fn arr(items: Vec<JsonValue>) -> JsonValue {
    JsonValue::Arr(items)
}

fn test_schema() -> JsonValue {
    obj(vec![
        ("type", s("object")),
        (
            "properties",
            obj(vec![(
                "input",
                obj(vec![("type", s("string")), ("description", s("Test parameter"))]),
            )]),
        ),
        ("required", arr(vec![s("input")])),
    ])
}

fn tool_use_response() -> JsonValue {
    obj(vec![
        (
            "choices",
            arr(vec![obj(vec![
                ("role", s("assistant")),
                (
                    "message",
                    obj(vec![(
                        "tool_calls",
                        arr(vec![obj(vec![
                            ("id", s("1")),
                            (
                                "function",
                                obj(vec![
                                    ("name", s("example_fn")),
                                    ("arguments", s("{\"param\": \"value\"}")),
                                ]),
                            ),
                        ])]),
                    )]),
                ),
            ])]),
        ),
        (
            "usage",
            obj(vec![
                ("input_tokens", JsonValue::Int(10)),
                ("output_tokens", JsonValue::Int(25)),
                ("total_tokens", JsonValue::Int(35)),
            ]),
        ),
    ])
}

#[test]
fn test_messages_to_openai_spec() {
    let message = Message::user().with_text("Hello");
    let spec = messages_to_openai_spec(&[message]);

    assert_eq!(spec.len(), 1);
    assert_eq!(spec[0].get("role"), Some(&s("user")));
    assert_eq!(spec[0].get("content"), Some(&s("Hello")));
}

#[test]
fn test_tools_to_openai_spec() {
    let tool = Tool::new("test_tool", "A test tool", test_schema());

    let spec = tools_to_openai_spec(&[tool]).unwrap();

    assert_eq!(spec.len(), 1);
    assert_eq!(spec[0].get("type"), Some(&s("function")));
    assert_eq!(
        spec[0].get("function").unwrap().get("name"),
        Some(&s("test_tool"))
    );
}

#[test]
fn test_sanitize_function_name() {
    assert_eq!(sanitize_function_name("hello-world"), "hello-world");
    assert_eq!(sanitize_function_name("hello world"), "hello_world");
    assert_eq!(sanitize_function_name("hello@world"), "hello_world");
}

#[test]
fn test_is_valid_function_name() {
    assert!(is_valid_function_name("hello-world"));
    assert!(is_valid_function_name("hello_world"));
    assert!(!is_valid_function_name("hello world"));
    assert!(!is_valid_function_name("hello@world"));
}

#[test]
fn test_messages_to_openai_spec_complex() {
    let mut messages = vec![
        Message::assistant().with_text("Hello!"),
        Message::user().with_text("How are you?"),
        Message::assistant().with_tool_request(
            "tool1",
            Ok(ToolCall::new(
                "example",
                obj(vec![("param1", s("value1"))]),
            )),
        ),
    ];

    // Get the ID from the tool request to use in the response
    let tool_id = if let MessageContent::ToolRequest(request) = &messages[2].content[0] {
        request.id.clone()
    } else {
        panic!("should be tool request");
    };

    messages.push(
        Message::user().with_tool_response(&tool_id, Ok(vec![Content::text("Result")])),
    );

    let spec = messages_to_openai_spec(&messages);

    assert_eq!(spec.len(), 4);
    assert_eq!(spec[0].get("role"), Some(&s("assistant")));
    assert_eq!(spec[0].get("content"), Some(&s("Hello!")));
    assert_eq!(spec[1].get("role"), Some(&s("user")));
    assert_eq!(spec[1].get("content"), Some(&s("How are you?")));
    assert_eq!(spec[2].get("role"), Some(&s("assistant")));
    assert!(matches!(
        spec[2].get("tool_calls"),
        Some(JsonValue::Arr(_))
    ));
    assert_eq!(spec[3].get("role"), Some(&s("tool")));
    assert_eq!(spec[3].get("content"), Some(&s("Result")));
    assert_eq!(
        spec[3].get("tool_call_id"),
        spec[2].get("tool_calls").unwrap().at(0).unwrap().get("id")
    );
}

#[test]
fn test_tools_to_openai_spec_duplicate() {
    let tool1 = Tool::new("test_tool", "Test tool", test_schema());
    let tool2 = Tool::new("test_tool", "Test tool", test_schema());

    let result = tools_to_openai_spec(&[tool1, tool2]);
    assert!(result.is_err());
    assert!(result.unwrap_err().to_text().contains("Duplicate tool name"));
}

#[test]
fn test_tools_to_openai_spec_empty() {
    let spec = tools_to_openai_spec(&[]).unwrap();
    assert!(spec.is_empty());
}

#[test]
fn test_openai_response_to_message_text() {
    let response = obj(vec![
        (
            "choices",
            arr(vec![obj(vec![
                ("role", s("assistant")),
                ("message", obj(vec![("content", s("Hello from John Cena!"))])),
            ])]),
        ),
        (
            "usage",
            obj(vec![
                ("input_tokens", JsonValue::Int(10)),
                ("output_tokens", JsonValue::Int(25)),
                ("total_tokens", JsonValue::Int(35)),
            ]),
        ),
    ]);

    let message = openai_response_to_message(&response).unwrap();
    assert_eq!(message.content.len(), 1);
    if let MessageContent::Text(text) = &message.content[0] {
        assert_eq!(text.text, "Hello from John Cena!");
    } else {
        panic!("Expected Text content");
    }
    assert!(matches!(message.role, Role::Assistant));
}

#[test]
fn test_openai_response_to_message_valid_toolrequest() {
    let response = tool_use_response();
    let message = openai_response_to_message(&response).unwrap();

    assert_eq!(message.content.len(), 1);
    if let MessageContent::ToolRequest(request) = &message.content[0] {
        let tool_call = request.tool_call.as_ref().unwrap();
        assert_eq!(tool_call.name, "example_fn");
        assert_eq!(tool_call.arguments, obj(vec![("param", s("value"))]));
    } else {
        panic!("Expected ToolRequest content");
    }
}

#[test]
fn test_openai_response_to_message_invalid_func_name() {
    let response = obj(vec![(
        "choices",
        arr(vec![obj(vec![(
            "message",
            obj(vec![(
                "tool_calls",
                arr(vec![obj(vec![
                    ("id", s("1")),
                    (
                        "function",
                        obj(vec![
                            ("name", s("invalid fn")),
                            ("arguments", s("{\"param\": \"value\"}")),
                        ]),
                    ),
                ])]),
            )]),
        )])]),
    )]);

    let message = openai_response_to_message(&response).unwrap();

    if let MessageContent::ToolRequest(request) = &message.content[0] {
        match &request.tool_call {
            Err(AgentError::ToolNotFound(msg)) => {
                assert!(msg.starts_with("The provided function name"));
            }
            _ => panic!("Expected ToolNotFound error"),
        }
    } else {
        panic!("Expected ToolRequest content");
    }
}

#[test]
fn test_openai_response_to_message_json_decode_error() {
    let response = obj(vec![(
        "choices",
        arr(vec![obj(vec![(
            "message",
            obj(vec![(
                "tool_calls",
                arr(vec![obj(vec![
                    ("id", s("1")),
                    (
                        "function",
                        obj(vec![
                            ("name", s("example_fn")),
                            ("arguments", s("invalid json {")),
                        ]),
                    ),
                ])]),
            )]),
        )])]),
    )]);

    let message = openai_response_to_message(&response).unwrap();

    if let MessageContent::ToolRequest(request) = &message.content[0] {
        match &request.tool_call {
            Err(AgentError::InvalidParameters(msg)) => {
                assert!(msg.starts_with("Could not interpret tool use parameters"));
            }
            _ => panic!("Expected InvalidParameters error"),
        }
    } else {
        panic!("Expected ToolRequest content");
    }
}

#[test]
fn test_check_openai_context_length_error() {
    let error = obj(vec![
        ("code", s("context_length_exceeded")),
        ("message", s("This message is too long")),
    ]);

    let result = check_openai_context_length_error(&error);
    assert!(result.is_some());
    assert_eq!(
        result.unwrap().to_text(),
        "Input message too long. Message: This message is too long"
    );

    let error = obj(vec![
        ("code", s("other_error")),
        ("message", s("Some other error")),
    ]);

    let result = check_openai_context_length_error(&error);
    assert!(result.is_none());
}

#[test]
fn test_wire_round_trip_preserves_request() {
    let arguments = obj(vec![("param1", s("value1")), ("count", JsonValue::Int(3))]);
    let message = Message::assistant()
        .with_text("Calling a tool")
        .with_tool_request("call-7", Ok(ToolCall::new("example_fn", arguments)));

    let wire = messages_to_openai_spec(&[message]);
    assert_eq!(wire.len(), 1);

    let response = obj(vec![(
        "choices",
        arr(vec![obj(vec![("message", wire.into_iter().next().unwrap())])]),
    )]);
    let back = openai_response_to_message(&response).unwrap();

    assert_eq!(back.content.len(), 2);
    if let MessageContent::Text(text) = &back.content[0] {
        assert_eq!(text.text, "Calling a tool");
    } else {
        panic!("Expected Text content");
    }
    if let MessageContent::ToolRequest(request) = &back.content[1] {
        assert_eq!(request.id, "call-7");
        let call = request.tool_call.as_ref().unwrap();
        assert_eq!(call.name, "example_fn");
        assert_eq!(
            call.arguments,
            obj(vec![("param1", s("value1")), ("count", JsonValue::Int(3))])
        );
    } else {
        panic!("Expected ToolRequest content");
    }
}

#[test]
fn test_messages_to_openai_spec_tool_error_entry() {
    let message = Message::assistant().with_tool_request(
        "bad-1",
        Err(AgentError::ToolNotFound("no such tool".to_string())),
    );
    let spec = messages_to_openai_spec(&[message]);

    assert_eq!(spec.len(), 1);
    assert_eq!(spec[0].get("role"), Some(&s("tool")));
    assert_eq!(spec[0].get("content"), Some(&s("Error: no such tool")));
    assert_eq!(spec[0].get("tool_call_id"), Some(&s("bad-1")));
}

#[test]
fn test_messages_to_openai_spec_image_sentinel() {
    let message = Message::user().with_tool_response(
        "img-1",
        Ok(vec![Content::text("image:ignored.png")]),
    );
    let spec = messages_to_openai_spec(&[message]);

    assert_eq!(spec.len(), 1);
    assert_eq!(spec[0].get("role"), Some(&s("tool")));
    assert_eq!(spec[0].get("tool_call_id"), Some(&s("img-1")));
    let note = spec[0].get("content").unwrap().at(0).unwrap();
    assert_eq!(
        note.get("text"),
        Some(&s(
            "This tool result included an image that is uploaded in the next message."
        ))
    );
}

#[test]
fn test_check_openai_context_length_error_string_above_max() {
    let error = obj(vec![
        ("code", s("string_above_max_length")),
        ("message", s("too big")),
    ]);
    assert!(check_openai_context_length_error(&error).is_some());

    let error = obj(vec![("message", s("no code at all"))]);
    assert!(check_openai_context_length_error(&error).is_none());
}

#[test]
fn test_sanitize_function_name_empty_is_invalid() {
    assert!(!is_valid_function_name(""));
    assert_eq!(sanitize_function_name(""), "");
}

#[test]
fn test_response_usage_counts() {
    let response = tool_use_response();
    let usage = goose::providers::response_usage(&response);
    assert_eq!(usage.input_tokens, 10);
    assert_eq!(usage.output_tokens, 25);
    assert_eq!(usage.total_tokens, 35);

    let bare = obj(vec![("choices", arr(vec![]))]);
    let usage = goose::providers::response_usage(&bare);
    assert_eq!(usage.input_tokens, 0);
    assert_eq!(usage.output_tokens, 0);
    assert_eq!(usage.total_tokens, 0);
}

#[test]
fn test_float_arguments_are_accepted() {
    // Arguments holding a float or an integer beyond i64 are well-formed
    // JSON: they parse into a request, the number riding along as text.
    let response = obj(vec![(
        "choices",
        arr(vec![obj(vec![(
            "message",
            obj(vec![(
                "tool_calls",
                arr(vec![obj(vec![
                    ("id", s("t5")),
                    (
                        "function",
                        obj(vec![
                            ("name", s("set_temperature")),
                            (
                                "arguments",
                                s("{\"temperature\": 0.5, \"big\": 18446744073709551615}"),
                            ),
                        ]),
                    ),
                ])]),
            )]),
        )])]),
    )]);

    let message = openai_response_to_message(&response).unwrap();
    if let MessageContent::ToolRequest(request) = &message.content[0] {
        let call = request.tool_call.as_ref().unwrap();
        assert_eq!(call.name, "set_temperature");
        assert_eq!(
            call.arguments,
            obj(vec![
                ("temperature", JsonValue::Num("0.5".to_string())),
                ("big", JsonValue::Num("18446744073709551615".to_string())),
            ])
        );
    } else {
        panic!("Expected ToolRequest content");
    }
}

#[test]
fn test_wire_round_trip_preserves_float_arguments() {
    let arguments = obj(vec![("temperature", JsonValue::Num("0.5".to_string()))]);
    let message = Message::assistant()
        .with_tool_request("call-n", Ok(ToolCall::new("tune", arguments)));

    let wire = messages_to_openai_spec(&[message]);
    let response = obj(vec![(
        "choices",
        arr(vec![obj(vec![("message", wire.into_iter().next().unwrap())])]),
    )]);
    let back = openai_response_to_message(&response).unwrap();

    if let MessageContent::ToolRequest(request) = &back.content[0] {
        let call = request.tool_call.as_ref().unwrap();
        assert_eq!(
            call.arguments,
            obj(vec![("temperature", JsonValue::Num("0.5".to_string()))])
        );
    } else {
        panic!("Expected ToolRequest content");
    }
}

#[test]
fn test_messages_to_openai_spec_two_tool_responses() {
    let message = Message::user()
        .with_tool_response("r1", Ok(vec![Content::text("one"), Content::text("two")]))
        .with_tool_response("r2", Ok(vec![Content::text("three")]));
    let spec = messages_to_openai_spec(&[message]);

    assert_eq!(spec.len(), 3);
    assert_eq!(spec[0].get("tool_call_id"), Some(&s("r1")));
    assert_eq!(spec[0].get("content"), Some(&s("one")));
    assert_eq!(spec[1].get("tool_call_id"), Some(&s("r1")));
    assert_eq!(spec[1].get("content"), Some(&s("two")));
    assert_eq!(spec[2].get("tool_call_id"), Some(&s("r2")));
    assert_eq!(spec[2].get("content"), Some(&s("three")));
}
