use lemurclaw::launcher::Launch;
use lemurclaw::{run, Frontend, RuntimeConfig};

#[test]
fn webui_frontend_returns_error() {
    let cfg = RuntimeConfig {
        frontend: Frontend::Webui,
        ..Default::default()
    };
    let err = run(cfg).unwrap_err();
    assert!(
        err.message().contains("webui"),
        "expected webui in error message, got: {}",
        err.message()
    );
}

#[test]
fn gui_frontend_returns_error() {
    let cfg = RuntimeConfig {
        frontend: Frontend::Gui,
        ..Default::default()
    };
    let err = run(cfg).unwrap_err();
    assert!(
        err.message().contains("gui"),
        "expected gui in error message, got: {}",
        err.message()
    );
}

#[test]
fn tui_frontend_is_launched_by_the_caller() {
    let cfg = RuntimeConfig::default();
    assert_eq!(run(cfg), Ok(Launch::Tui));
}

#[test]
fn launch_error_message_text() {
    let cfg = RuntimeConfig {
        frontend: Frontend::Gui,
        ..Default::default()
    };
    assert_eq!(
        run(cfg).unwrap_err().message(),
        "lemurclaw `gui` frontend is not implemented yet"
    );
}
