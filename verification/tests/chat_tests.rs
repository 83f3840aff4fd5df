use lemurclaw::chat::{
    build_chat_completions_payload, collect_reasoning_anchors, create_chat_completions_payload,
    create_tools_json_for_chat_completions_api, push_message, push_tool_call_message,
    sanitize_message_roles_for_strict_chat_providers, ContentItem, ReasoningContent, ResponseItem,
};
use lemurclaw::json::Json;

fn s(x: &str) -> Json {
    Json::Str(x.to_string())
}

fn obj(entries: Vec<(&str, Json)>) -> Json {
    Json::Object(entries.into_iter().map(|(k, v)| (k.to_string(), v)).collect())
}

fn field<'a>(j: &'a Json, key: &str) -> Option<&'a Json> {
    match j {
        Json::Object(m) => m.iter().find(|(k, _)| k == key).map(|(_, v)| v),
        _ => None,
    }
}

fn items(j: &Json) -> &Vec<Json> {
    match j {
        Json::Array(v) => v,
        other => panic!("expected an array, got {other:?}"),
    }
}

fn to_serde(j: &Json) -> serde_json::Value {
    match j {
        Json::Null => serde_json::Value::Null,
        Json::Bool(b) => serde_json::Value::Bool(*b),
        Json::Number(n) => serde_json::from_str(n).unwrap(),
        Json::Str(t) => serde_json::Value::String(t.clone()),
        Json::Array(v) => serde_json::Value::Array(v.iter().map(to_serde).collect()),
        Json::Object(m) => {
            let mut map = serde_json::Map::new();
            for (k, v) in m {
                map.insert(k.clone(), to_serde(v));
            }
            serde_json::Value::Object(map)
        }
    }
}

fn body_of(j: &Json) -> String {
    serde_json::to_string(&to_serde(j)).unwrap()
}

#[test]
fn chat_completions_payload_disables_openai_storage() {
    let payload = create_chat_completions_payload(
        "gpt-4.1",
        vec![obj(vec![("role", s("user")), ("content", s("what is 2+2?"))])],
        Vec::new(),
    );

    assert_eq!(field(&payload, "store"), Some(&Json::Bool(false)));

    let body = body_of(&payload);
    assert!(
        body.contains("\"store\":false"),
        "serialized payload should explicitly disable storage: {body}"
    );
}

#[test]
fn normalizes_developer_role_to_system_before_strict_provider_serialization() {
    let mut payload = obj(vec![
        ("model", s("kimi-k2")),
        (
            "messages",
            Json::Array(vec![
                obj(vec![("role", s("developer")), ("content", s("instructions"))]),
                obj(vec![("role", s("user")), ("content", s("hello"))]),
            ]),
        ),
    ]);

    sanitize_message_roles_for_strict_chat_providers(&mut payload);

    let messages = items(field(&payload, "messages").unwrap());
    assert_eq!(field(&messages[0], "role"), Some(&s("system")));
    assert_eq!(field(&messages[0], "content"), Some(&s("instructions")));
    assert_eq!(field(&messages[1], "role"), Some(&s("user")));
    assert_eq!(field(&messages[1], "content"), Some(&s("hello")));

    let body = body_of(&payload);
    assert!(
        !body.contains("\"role\":\"developer\""),
        "serialized payload still contains the rejected role: {body}"
    );
}

#[test]
fn rewrites_unknown_string_roles_but_keeps_standard_ones() {
    let mut payload = obj(vec![(
        "messages",
        Json::Array(vec![
            obj(vec![("role", s("system")), ("content", s("sys"))]),
            obj(vec![("role", s("user")), ("content", s("u"))]),
            obj(vec![("role", s("assistant")), ("content", s("a"))]),
            obj(vec![("role", s("tool")), ("tool_call_id", s("1")), ("content", s("t"))]),
            obj(vec![("role", s("agent")), ("content", s("custom"))]),
        ]),
    )]);

    sanitize_message_roles_for_strict_chat_providers(&mut payload);

    let roles: Vec<&str> = items(field(&payload, "messages").unwrap())
        .iter()
        .map(|m| match field(m, "role") {
            Some(Json::Str(r)) => r.as_str(),
            _ => panic!("role should be a string"),
        })
        .collect();
    assert_eq!(roles, vec!["system", "user", "assistant", "tool", "system"]);
}

#[test]
fn payload_without_messages_is_left_unchanged() {
    let mut payload = obj(vec![("model", s("x"))]);
    sanitize_message_roles_for_strict_chat_providers(&mut payload);
    assert_eq!(payload, obj(vec![("model", s("x"))]));
}

#[test]
fn malformed_roles_are_left_unchanged() {
    let make = || {
        obj(vec![(
            "messages",
            Json::Array(vec![
                obj(vec![("role", Json::Number("42".to_string())), ("content", s("numeric role"))]),
                obj(vec![("content", s("missing role"))]),
            ]),
        )])
    };
    let mut payload = make();

    sanitize_message_roles_for_strict_chat_providers(&mut payload);

    assert_eq!(payload, make());
}

#[test]
fn function_tool_is_nested_under_function_key() {
    // The Responses-API form of a function tool named `echo`.
    let tool = obj(vec![
        ("type", s("function")),
        ("name", s("echo")),
        ("description", s("echoes back")),
        ("strict", Json::Bool(false)),
        ("parameters", obj(vec![("type", s("object"))])),
    ]);
    let json = create_tools_json_for_chat_completions_api(&[tool]);
    assert_eq!(json.len(), 1);
    assert_eq!(field(&json[0], "type"), Some(&s("function")));
    let function = field(&json[0], "function").unwrap();
    assert_eq!(field(function, "name"), Some(&s("echo")));
    // The nested function object must not carry its own `type` field.
    assert!(field(function, "type").is_none());
    // The nested schema keeps its own `type`.
    assert_eq!(field(field(function, "parameters").unwrap(), "type"), Some(&s("object")));
}

#[test]
fn non_function_tools_are_dropped() {
    let tools = vec![
        obj(vec![("type", s("web_search"))]),
        obj(vec![("type", s("function")), ("name", s("a"))]),
        s("function"),
        obj(vec![("type", s("tool_search"))]),
    ];
    let json = create_tools_json_for_chat_completions_api(&tools);
    assert_eq!(
        json,
        vec![obj(vec![("type", s("function")), ("function", obj(vec![("name", s("a"))]))])]
    );
}

#[test]
fn payload_has_fixed_shape() {
    let payload = create_chat_completions_payload("m", Vec::new(), vec![s("t")]);
    assert_eq!(
        payload,
        obj(vec![
            ("model", s("m")),
            ("messages", Json::Array(Vec::new())),
            ("stream", Json::Bool(true)),
            ("store", Json::Bool(false)),
            ("tools", Json::Array(vec![s("t")])),
        ])
    );
}

#[test]
fn sanitize_leaves_non_object_messages_and_non_array_lists() {
    let mut payload = obj(vec![("messages", Json::Array(vec![s("plain"), Json::Null]))]);
    sanitize_message_roles_for_strict_chat_providers(&mut payload);
    assert_eq!(payload, obj(vec![("messages", Json::Array(vec![s("plain"), Json::Null]))]));

    let mut payload = obj(vec![("messages", s("not a list"))]);
    sanitize_message_roles_for_strict_chat_providers(&mut payload);
    assert_eq!(payload, obj(vec![("messages", s("not a list"))]));
}

#[test]
fn push_message_joins_text_parts() {
    let mut messages = Vec::new();
    push_message(
        &mut messages,
        "user",
        &[
            ContentItem::InputText { text: "a".to_string() },
            ContentItem::OutputText { text: "b".to_string() },
        ],
    );
    assert_eq!(messages, vec![obj(vec![("role", s("user")), ("content", s("ab"))])]);
}

#[test]
fn tool_calls_after_assistant_message_are_grouped() {
    let input = vec![
        ResponseItem::Message {
            id: None,
            role: "user".to_string(),
            content: vec![ContentItem::InputText { text: "hi".to_string() }],
        },
        ResponseItem::FunctionCall {
            id: None,
            name: "f".to_string(),
            arguments: "{}".to_string(),
            call_id: "c1".to_string(),
        },
        ResponseItem::FunctionCallOutput { call_id: "c1".to_string(), output: "done".to_string() },
    ];
    let payload = build_chat_completions_payload("be brief", &input, &[], "m");
    let messages = items(field(&payload, "messages").unwrap());
    assert_eq!(messages.len(), 4);
    assert_eq!(messages[0], obj(vec![("role", s("system")), ("content", s("be brief"))]));
    assert_eq!(messages[1], obj(vec![("role", s("user")), ("content", s("hi"))]));
    assert_eq!(field(&messages[2], "role"), Some(&s("assistant")));
    let calls = items(field(&messages[2], "tool_calls").unwrap());
    assert_eq!(calls.len(), 1);
    assert_eq!(field(&calls[0], "id"), Some(&s("c1")));
    assert_eq!(field(&messages[3], "role"), Some(&s("tool")));
    assert_eq!(field(&messages[3], "tool_call_id"), Some(&s("c1")));
    assert_eq!(field(&messages[3], "content"), Some(&s("done")));
}

#[test]
fn reasoning_is_anchored_to_the_following_call() {
    let input = vec![
        ResponseItem::Message {
            id: None,
            role: "user".to_string(),
            content: vec![ContentItem::InputText { text: "q".to_string() }],
        },
        ResponseItem::Reasoning {
            id: None,
            content: Some(vec![ReasoningContent::ReasoningText { text: "think".to_string() }]),
        },
        ResponseItem::FunctionCall {
            id: None,
            name: "f".to_string(),
            arguments: "{}".to_string(),
            call_id: "c".to_string(),
        },
    ];
    let anchors = collect_reasoning_anchors(&input);
    assert_eq!(anchors.len(), 1);
    assert_eq!(anchors.get(&2), Some(&"think".to_string()));
    assert_eq!(anchors.get(&0), None);
}

#[test]
fn push_tool_call_message_starts_a_new_assistant_message() {
    let mut messages = vec![obj(vec![("role", s("user")), ("content", s("x"))])];
    push_tool_call_message(&mut messages, obj(vec![("id", s("1"))]), None);
    assert_eq!(messages.len(), 2);
    assert_eq!(field(&messages[1], "role"), Some(&s("assistant")));
    assert_eq!(items(field(&messages[1], "tool_calls").unwrap()), &vec![obj(vec![("id", s("1"))])]);
}

#[test]
fn sanitizing_twice_changes_nothing_more() {
    let mut payload = obj(vec![(
        "messages",
        Json::Array(vec![
            obj(vec![("role", s("developer")), ("content", s("d"))]),
            obj(vec![("role", s("agent")), ("content", s("a"))]),
            obj(vec![("role", s("user")), ("content", s("u"))]),
        ]),
    )]);
    sanitize_message_roles_for_strict_chat_providers(&mut payload);
    let once = lemurclaw::json::copy_json(&payload);
    sanitize_message_roles_for_strict_chat_providers(&mut payload);
    assert_eq!(payload, once);
}

#[test]
fn reasoning_is_only_attached_after_the_last_user_message() {
    let user = |t: &str| ResponseItem::Message {
        id: None,
        role: "user".to_string(),
        content: vec![ContentItem::InputText { text: t.to_string() }],
    };
    let think = |t: &str| ResponseItem::Reasoning {
        id: None,
        content: Some(vec![ReasoningContent::ReasoningText { text: t.to_string() }]),
    };
    let call = || ResponseItem::FunctionCall {
        id: None,
        name: "f".to_string(),
        arguments: "{}".to_string(),
        call_id: "c".to_string(),
    };
    let input = vec![think("early"), call(), user("q"), think("late"), call()];
    let anchors = collect_reasoning_anchors(&input);
    assert_eq!(anchors.len(), 1);
    assert_eq!(anchors.get(&4), Some(&"late".to_string()));
    let ends_with_user = vec![user("a"), think("t"), call(), user("b")];
    assert!(collect_reasoning_anchors(&ends_with_user).is_empty());
}
