use lemurclaw::chat::{ContentItem, ReasoningContent, ResponseItem};
use lemurclaw::chat_stream::{reasoning_text_delta, reasoning_text_from_value, ChatStreamState, SseInput, StreamEvent};
use lemurclaw::json::Json;

fn data(x: &str) -> SseInput {
    SseInput::Data(x.to_string())
}

fn run(inputs: Vec<SseInput>) -> (Vec<StreamEvent>, bool) {
    let mut st = ChatStreamState::new();
    let mut all = Vec::new();
    for input in inputs {
        let (evs, over) = st.process_sse_input(input);
        all.extend(evs);
        if over {
            return (all, true);
        }
    }
    (all, false)
}

#[test]
fn text_stream_ends_with_message_and_completed() {
    let (evs, over) = run(vec![
        data(r#"{"id":"r1","model":"m","choices":[{"delta":{"content":"Hel"}}]}"#),
        data(r#"{"id":"r1","choices":[{"delta":{"content":"lo"}}]}"#),
        data(r#"{"choices":[{"delta":{},"finish_reason":"stop"}]}"#),
    ]);
    assert!(over);
    assert_eq!(
        evs,
        vec![
            StreamEvent::Created,
            StreamEvent::OutputTextDelta("Hel".to_string()),
            StreamEvent::OutputTextDelta("lo".to_string()),
            StreamEvent::OutputItemDone(ResponseItem::Message {
                id: None,
                role: "assistant".to_string(),
                content: vec![ContentItem::OutputText { text: "Hello".to_string() }],
            }),
            StreamEvent::Completed { response_id: "r1".to_string(), end_turn: Some(true) },
        ]
    );
}

#[test]
fn tool_call_fragments_are_assembled() {
    let (evs, over) = run(vec![
        data(r#"{"id":"r2","choices":[{"delta":{"tool_calls":[{"id":"call_1","function":{"name":"shell","arguments":"{\"a\""}}]}}]}"#),
        data(r#"{"choices":[{"delta":{"tool_calls":[{"function":{"arguments":":1}"}}]}}]}"#),
        data(r#"{"choices":[{"delta":{},"finish_reason":"tool_calls"}]}"#),
    ]);
    assert!(over);
    assert_eq!(evs.len(), 3);
    assert_eq!(evs[0], StreamEvent::Created);
    assert_eq!(
        evs[1],
        StreamEvent::OutputItemDone(ResponseItem::FunctionCall {
            id: None,
            name: "shell".to_string(),
            arguments: "{\"a\":1}".to_string(),
            call_id: "call_1".to_string(),
        })
    );
    assert_eq!(evs[2], StreamEvent::Completed { response_id: "r2".to_string(), end_turn: Some(false) });
}

#[test]
fn done_marker_flushes_pending_text() {
    let (evs, over) = run(vec![
        data(r#"{"choices":[{"delta":{"content":"x","reasoning":"why"}}]}"#),
        data("  [DONE]  "),
    ]);
    assert!(over);
    assert_eq!(
        evs,
        vec![
            StreamEvent::OutputTextDelta("x".to_string()),
            StreamEvent::ReasoningContentDelta { delta: "why".to_string(), content_index: 0 },
            StreamEvent::OutputItemDone(ResponseItem::Message {
                id: None,
                role: "assistant".to_string(),
                content: vec![ContentItem::OutputText { text: "x".to_string() }],
            }),
            StreamEvent::OutputItemDone(ResponseItem::Reasoning {
                id: None,
                content: Some(vec![ReasoningContent::ReasoningText { text: "why".to_string() }]),
            }),
            StreamEvent::Completed { response_id: String::new(), end_turn: None },
        ]
    );
}

#[test]
fn blank_and_garbage_data_are_skipped() {
    let (evs, over) = run(vec![data("   "), data("not json"), data("{\"x\":1}")]);
    assert!(!over);
    assert!(evs.is_empty());
}

#[test]
fn transport_error_and_idle_timeout_end_the_stream() {
    let (evs, over) = run(vec![SseInput::TransportError("reset".to_string())]);
    assert!(over);
    assert_eq!(evs, vec![StreamEvent::Error("[transport] reset".to_string())]);

    let (evs, over) = run(vec![SseInput::IdleTimeout]);
    assert!(over);
    assert_eq!(evs, vec![StreamEvent::Error("[idle] timeout waiting for SSE".to_string())]);
}

#[test]
fn closing_an_empty_stream_completes_it() {
    let (evs, over) = run(vec![SseInput::Closed]);
    assert!(over);
    assert_eq!(evs, vec![StreamEvent::Completed { response_id: String::new(), end_turn: None }]);
}

#[test]
fn reasoning_value_forms() {
    let obj = |k: &str, v: &str| Json::Object(vec![(k.to_string(), Json::Str(v.to_string()))]);
    assert_eq!(reasoning_text_delta(&Json::Str("a".to_string())), Some("a".to_string()));
    assert_eq!(reasoning_text_delta(&Json::Str(String::new())), None);
    assert_eq!(reasoning_text_delta(&obj("text", "b")), Some("b".to_string()));
    assert_eq!(reasoning_text_delta(&obj("content", "c")), Some("c".to_string()));
    assert_eq!(reasoning_text_delta(&Json::Null), None);
    assert_eq!(reasoning_text_from_value(&Json::Str(String::new())), Some(String::new()));
    assert_eq!(reasoning_text_from_value(&obj("content", "d")), Some("d".to_string()));
}

#[test]
fn created_comes_once_and_items_carry_their_deltas() {
    let (evs, over) = run(vec![
        data(r#"{"id":"r3","choices":[{"delta":{"reasoning":"a"}}]}"#),
        data(r#"{"id":"r3","model":"m","choices":[{"delta":{"reasoning":"b","content":"x"}}]}"#),
        data(r#"{"id":"r3","choices":[{"delta":{"content":"y"}}]}"#),
        data(r#"{"choices":[{"delta":{},"finish_reason":"stop"}]}"#),
    ]);
    assert!(over);
    assert_eq!(evs.iter().filter(|e| **e == StreamEvent::Created).count(), 1);
    assert_eq!(evs[0], StreamEvent::Created);
    let terminal = evs.iter().filter(|e| matches!(e, StreamEvent::Completed { .. })).count();
    assert_eq!(terminal, 1);
    assert!(matches!(evs.last(), Some(StreamEvent::Completed { .. })));
    assert!(evs.contains(&StreamEvent::OutputItemDone(ResponseItem::Message {
        id: None,
        role: "assistant".to_string(),
        content: vec![ContentItem::OutputText { text: "xy".to_string() }],
    })));
    assert!(evs.contains(&StreamEvent::OutputItemDone(ResponseItem::Reasoning {
        id: None,
        content: Some(vec![ReasoningContent::ReasoningText { text: "ab".to_string() }]),
    })));
}
