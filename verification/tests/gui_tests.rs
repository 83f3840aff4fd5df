use lemurclaw::code_mode::{
    InProcessCodeModeSessionProvider, ProcessOwnedCodeModeSessionProvider,
    WebSocketCodeModeSessionProvider, UNAVAILABLE,
};
use lemurclaw::gui::{escape_js_string, event_script};

#[test]
fn escape_js_string_escapes_specials() {
    assert_eq!(
        escape_js_string("a\\b\"c\nd\re\tf\u{2028}g\u{2029}h"),
        "a\\\\b\\\"c\\nd\\re\\tf\\u2028g\\u2029h"
    );
    assert_eq!(escape_js_string("plain é"), "plain é");
}

#[test]
fn event_script_wraps_escaped_json() {
    assert_eq!(
        event_script("{\"k\":\"v\"}"),
        "window.__lemurclaw.onEvent(\"{\\\"k\\\":\\\"v\\\"}\")"
    );
}

#[test]
fn code_mode_providers_refuse_sessions() {
    let p = ProcessOwnedCodeModeSessionProvider::with_host_program("/bin/host".to_string())
        .without_in_process_fallback();
    assert_eq!(p.create_session(), Err(UNAVAILABLE.to_string()));
    assert_eq!(
        InProcessCodeModeSessionProvider::default().create_session(),
        Err(UNAVAILABLE.to_string())
    );
    assert_eq!(
        WebSocketCodeModeSessionProvider::with_websocket_url("ws://h".to_string()).create_session(),
        Err(UNAVAILABLE.to_string())
    );
}
