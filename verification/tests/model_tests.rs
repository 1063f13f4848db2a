use goose::content::Content;
use goose::errors::AgentError;
use goose::json::{str_eq, JsonValue};
use goose::message::{Message, MessageContent, Role};
use goose::profile::{
    find_existing_profile, has_no_profiles, provider_kind_of, AdditionalSystem, ProfileRecord,
    Profiles, ProviderKind,
};
use goose::registry::{
    check_unique_tool_names, get_prompt, get_qualified_tools, route_tool_call, SystemEntry,
};
use goose::tool::{Tool, ToolCall};

fn record(provider: &str, model: &str) -> ProfileRecord {
    ProfileRecord {
        provider: provider.to_string(),
        model: model.to_string(),
        additional_systems: vec![AdditionalSystem {
            name: "extra".to_string(),
            location: "http://localhost:1234".to_string(),
        }],
        context_limit: Some(100_000),
        max_tokens: Some(4096),
    }
}

#[test]
fn message_builders_append_in_order() {
    let message = Message::user()
        .with_text("hello")
        .with_image("aGk=", "image/png")
        .with_tool_request("r1", Ok(ToolCall::new("f", JsonValue::Null)));
    assert!(matches!(message.role, Role::User));
    assert_eq!(message.content.len(), 3);
    assert_eq!(message.content[0].as_text(), Some("hello"));
    assert!(message.content[1].as_text().is_none());
    let request = message.content[2].as_tool_request().unwrap();
    assert_eq!(request.id, "r1");
}

#[test]
fn message_content_constructors() {
    let text = MessageContent::text("hi");
    assert_eq!(text.as_text(), Some("hi"));
    let image = MessageContent::image("data", "image/jpeg");
    assert!(image.as_text().is_none());
    assert!(image.as_tool_request().is_none());
    let response = MessageContent::tool_response("id9", Ok(vec![Content::text("out")]));
    assert!(response.as_tool_request().is_none());
    let request = MessageContent::tool_request(
        "id3",
        Err(AgentError::ExecutionError("boom".to_string())),
    );
    assert_eq!(request.as_tool_request().unwrap().id, "id3");
}

#[test]
fn content_converts_to_message_content() {
    let text: MessageContent = Content::text("t").into();
    assert_eq!(text.as_text(), Some("t"));
    let image: MessageContent = Content::image("d", "image/png").into();
    assert!(matches!(image, MessageContent::Image(_)));
}

#[test]
fn json_get_and_at() {
    let v = JsonValue::Obj(vec![
        ("a".to_string(), JsonValue::Int(1)),
        (
            "b".to_string(),
            JsonValue::Arr(vec![JsonValue::Bool(true), JsonValue::Null]),
        ),
        ("a".to_string(), JsonValue::Int(2)),
    ]);
    // The first field of a repeated key wins.
    assert_eq!(v.get("a"), Some(&JsonValue::Int(1)));
    assert_eq!(v.get("missing"), None);
    let b = v.get("b").unwrap();
    assert_eq!(b.at(0), Some(&JsonValue::Bool(true)));
    assert_eq!(b.at(2), None);
    assert_eq!(v.at(0), None);
    assert_eq!(v.duplicate(), v);
}

#[test]
fn str_eq_compares_characters() {
    assert!(str_eq("abc", "abc"));
    assert!(!str_eq("abc", "abd"));
    assert!(!str_eq("abc", "ab"));
    assert!(str_eq("", ""));
}

#[test]
fn error_message_accessor() {
    let e = AgentError::SerializationError("could not encode".to_string());
    assert_eq!(e.message(), "could not encode");
    assert_eq!(e.duplicate(), e);
}

#[test]
fn profiles_insert_get_and_emptiness() {
    let mut profiles = Profiles::new();
    assert!(has_no_profiles(&profiles));

    profiles.insert("default", record("openai", "gpt-4o"));
    profiles.insert("local", record("ollama", "llama3"));
    assert!(!has_no_profiles(&profiles));

    // Inserting under an existing name replaces the record.
    profiles.insert("default", record("anthropic", "large-model"));
    assert_eq!(profiles.profile_items.len(), 2);

    let found = find_existing_profile(&profiles, "default").unwrap();
    assert_eq!(found.provider, "anthropic");
    assert_eq!(found.model, "large-model");
    assert_eq!(found.additional_systems.len(), 1);
    assert!(find_existing_profile(&profiles, "missing").is_none());
}

#[test]
fn provider_kind_matches_case_insensitively() {
    assert_eq!(provider_kind_of("openai"), Some(ProviderKind::OpenAi));
    assert_eq!(provider_kind_of("OpenAI"), Some(ProviderKind::OpenAi));
    assert_eq!(provider_kind_of("DATABRICKS"), Some(ProviderKind::Databricks));
    assert_eq!(provider_kind_of("Ollama"), Some(ProviderKind::Ollama));
    assert_eq!(provider_kind_of("anthropic"), Some(ProviderKind::Anthropic));
    assert_eq!(provider_kind_of("something-else"), None);
    assert_eq!(provider_kind_of(""), None);
}

#[test]
fn qualified_names_round_trip() {
    let q = goose::registry::qualify_name("developer", "shell");
    assert_eq!(q, "developer__shell");
    let (system, tool) = goose::registry::split_qualified(&q).unwrap();
    assert_eq!(system, "developer");
    assert_eq!(tool, "shell");
}

#[test]
fn split_qualified_uses_first_separator() {
    assert_eq!(goose::registry::split_qualified("noseparator"), None);
    assert_eq!(goose::registry::split_qualified("_"), None);
    let (system, tool) = goose::registry::split_qualified("a__b__c").unwrap();
    assert_eq!((system.as_str(), tool.as_str()), ("a", "b__c"));
    // A system name ending in an underscore merges into the separator.
    let (system, tool) = goose::registry::split_qualified("a___tool").unwrap();
    assert_eq!((system.as_str(), tool.as_str()), ("a", "_tool"));
}

#[test]
fn registry_qualifies_tool_names_in_order() {
    let systems = [
        SystemEntry {
            name: "developer".to_string(),
            description: "runs commands".to_string(),
            status: "ready".to_string(),
            tools: vec![
                Tool::new("shell", "run a shell command", JsonValue::Obj(vec![])),
                Tool::new("edit", "edit a file", JsonValue::Obj(vec![])),
            ],
        },
        SystemEntry {
            name: "web".to_string(),
            description: "fetches pages".to_string(),
            status: "idle".to_string(),
            tools: vec![Tool::new("fetch", "fetch a url", JsonValue::Obj(vec![]))],
        },
    ];

    let tools = get_qualified_tools(&systems);
    let names: Vec<&str> = tools.iter().map(|t| t.name.as_str()).collect();
    assert_eq!(names, vec!["developer__shell", "developer__edit", "web__fetch"]);
    assert!(check_unique_tool_names(&tools).is_ok());
}

#[test]
fn registry_reports_colliding_qualified_names() {
    let make = |name: &str| SystemEntry {
        name: name.to_string(),
        description: String::new(),
        status: String::new(),
        tools: vec![Tool::new("shell", "run", JsonValue::Obj(vec![]))],
    };
    let systems = [make("developer"), make("developer")];
    let tools = get_qualified_tools(&systems);
    let err = check_unique_tool_names(&tools).unwrap_err();
    assert_eq!(err.name, "developer__shell");
    assert!(err.to_text().starts_with("Duplicate tool name"));
}

#[test]
fn registry_prompt_concatenates_in_order() {
    let systems = [
        SystemEntry {
            name: "a".to_string(),
            description: "first system".to_string(),
            status: "ok".to_string(),
            tools: vec![],
        },
        SystemEntry {
            name: "b".to_string(),
            description: "second system".to_string(),
            status: "busy".to_string(),
            tools: vec![],
        },
    ];
    assert_eq!(get_prompt(&systems), "first system\nok\nsecond system\nbusy\n");
}

#[test]
fn route_tool_call_finds_owning_system() {
    let systems = [
        SystemEntry {
            name: "developer".to_string(),
            description: String::new(),
            status: String::new(),
            tools: vec![],
        },
        SystemEntry {
            name: "web".to_string(),
            description: String::new(),
            status: String::new(),
            tools: vec![],
        },
    ];

    let (index, tool) = route_tool_call(&systems, "web__fetch").unwrap();
    assert_eq!((index, tool.as_str()), (1, "fetch"));

    // No separator: not a qualified name.
    let err = route_tool_call(&systems, "fetch").unwrap_err();
    assert!(matches!(err, AgentError::ToolNotFound(_)));

    // A system nobody registered.
    let err = route_tool_call(&systems, "ghost__fetch").unwrap_err();
    match err {
        AgentError::ToolNotFound(name) => assert_eq!(name, "ghost__fetch"),
        _ => panic!("Expected ToolNotFound error"),
    }
}
