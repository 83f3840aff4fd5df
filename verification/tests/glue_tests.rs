use lemurclaw::glue::{
    build_response_envelope, classify_ipc, malformed_reject_error, request_id_of, serialize_lagged_event,
    IpcAction, ResolveKind, RpcError,
};
use lemurclaw::json::Json;

fn s(x: &str) -> Json {
    Json::Str(x.to_string())
}

fn n(x: &str) -> Json {
    Json::Number(x.to_string())
}

fn obj(entries: Vec<(&str, Json)>) -> Json {
    Json::Object(entries.into_iter().map(|(k, v)| (k.to_string(), v)).collect())
}

fn field<'a>(j: &'a Json, key: &str) -> Option<&'a Json> {
    match j {
        Json::Object(m) => m.iter().find(|(k, _)| k == key).map(|(_, v)| v),
        _ => None,
    }
}

#[test]
fn build_response_envelope_ok_emits_result_field() {
    let env = build_response_envelope(n("42"), Ok(obj(vec![("x", n("1"))])));
    let expected = obj(vec![
        ("jsonrpc", s("2.0")),
        ("id", n("42")),
        ("result", obj(vec![("x", n("1"))])),
    ]);
    assert_eq!(env, expected);
}

#[test]
fn build_response_envelope_err_omits_data_when_none() {
    let env = build_response_envelope(
        s("abc"),
        Err(RpcError { code: -32601, message: "method not found".into(), data: None }),
    );
    assert_eq!(field(&env, "jsonrpc"), Some(&s("2.0")));
    assert_eq!(field(&env, "id"), Some(&s("abc")));
    let error = field(&env, "error").expect("error object");
    assert_eq!(field(error, "code"), Some(&n("-32601")));
    assert_eq!(field(error, "message"), Some(&s("method not found")));
    assert!(
        field(error, "data").is_none(),
        "data field must be absent when None, got: {error:?}"
    );
}

#[test]
fn build_response_envelope_err_includes_data_when_some() {
    let env = build_response_envelope(
        n("7"),
        Err(RpcError { code: -1, message: "boom".into(), data: Some(obj(vec![("k", s("v"))])) }),
    );
    let error = field(&env, "error").expect("error object");
    assert_eq!(field(error, "data"), Some(&obj(vec![("k", s("v"))])));
    assert_eq!(field(error, "code"), Some(&n("-1")));
}

#[test]
fn serialize_server_event_lagged_envelope() {
    let json = serialize_lagged_event(3);
    let parsed: serde_json::Value = serde_json::from_str(&json).unwrap();
    let mut expected = serde_json::Map::new();
    expected.insert("type".to_string(), serde_json::Value::String("lagged".to_string()));
    expected.insert("skipped".to_string(), serde_json::Value::from(3));
    assert_eq!(parsed, serde_json::Value::Object(expected));
}

#[test]
fn lagged_event_text_is_exact() {
    assert_eq!(serialize_lagged_event(0), "{\"type\":\"lagged\",\"skipped\":0}");
    assert_eq!(serialize_lagged_event(1234), "{\"type\":\"lagged\",\"skipped\":1234}");
}

#[test]
fn request_id_is_taken_or_null() {
    assert_eq!(request_id_of(&obj(vec![("id", n("123")), ("method", s("m"))])), n("123"));
    assert_eq!(request_id_of(&obj(vec![("method", s("m"))])), Json::Null);
    assert_eq!(request_id_of(&s("garbage")), Json::Null);
}

#[test]
fn malformed_reject_error_text() {
    let e = malformed_reject_error("missing code");
    assert_eq!(e.code, -32000);
    assert_eq!(e.message, "malformed reject payload: missing code");
    assert!(e.data.is_none());
}

#[test]
fn resolve_frame_with_result_is_answered() {
    let frame = obj(vec![("__resolve", n("7")), ("result", obj(vec![("ok", Json::Bool(true))]))]);
    assert_eq!(
        classify_ipc(&frame),
        IpcAction::Respond {
            kind: ResolveKind::Resolve,
            request_id: n("7"),
            payload: obj(vec![("ok", Json::Bool(true))]),
        }
    );
}

#[test]
fn reject_frame_with_error_is_answered() {
    let frame = obj(vec![("__reject", s("abc")), ("error", s("denied"))]);
    assert_eq!(
        classify_ipc(&frame),
        IpcAction::Respond { kind: ResolveKind::Reject, request_id: s("abc"), payload: s("denied") }
    );
}

#[test]
fn resolve_wins_over_reject() {
    let frame = obj(vec![("__reject", n("1")), ("error", s("e")), ("__resolve", n("2")), ("result", Json::Null)]);
    assert_eq!(
        classify_ipc(&frame),
        IpcAction::Respond { kind: ResolveKind::Resolve, request_id: n("2"), payload: Json::Null }
    );
}

#[test]
fn envelope_without_payload_is_dropped() {
    assert_eq!(classify_ipc(&obj(vec![("__resolve", n("3"))])), IpcAction::MissingPayload(ResolveKind::Resolve));
    assert_eq!(classify_ipc(&obj(vec![("__reject", n("3"))])), IpcAction::MissingPayload(ResolveKind::Reject));
}

#[test]
fn other_frames_are_client_requests() {
    let frame = obj(vec![("method", s("thread/start")), ("id", n("1"))]);
    assert_eq!(classify_ipc(&frame), IpcAction::ClientRequest);
    assert_eq!(classify_ipc(&Json::Array(vec![])), IpcAction::ClientRequest);
}
