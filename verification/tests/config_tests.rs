use lemurclaw::config::{CliErrorKind, Frontend};
use lemurclaw::{Cli, RuntimeConfig};

#[test]
fn frontend_default_is_tui() {
    assert_eq!(Frontend::default(), Frontend::Tui);
}

#[test]
fn cli_defaults_to_tui_frontend() {
    let cli = Cli::parse_from(&["lemurclaw"]).unwrap();
    assert_eq!(cli.frontend, Frontend::Tui);
    assert!(!cli.yolo);
    assert!(cli.model.is_none());
    assert!(cli.cwd.is_none());
    assert!(cli.agent_name.is_none());
}

#[test]
fn cli_parses_frontend_flag() {
    let cli = Cli::parse_from(&["lemurclaw", "--frontend", "webui"]).unwrap();
    assert_eq!(cli.frontend, Frontend::Webui);
}

#[test]
fn cli_into_runtime_config_preserves_fields() {
    let cli = Cli::parse_from(&[
        "lemurclaw",
        "--frontend",
        "gui",
        "--agent-name",
        "ava",
        "--model",
        "gpt-5",
        "--yolo",
    ])
    .unwrap();
    let cfg: RuntimeConfig = cli.into();
    assert_eq!(cfg.frontend, Frontend::Gui);
    assert_eq!(cfg.agent_name.as_deref(), Some("ava"));
    assert_eq!(cfg.model.as_deref(), Some("gpt-5"));
    assert!(cfg.yolo);
}

#[test]
fn cli_defaults_host_to_loopback_and_port_to_none() {
    let cli = Cli::parse_from(&["lemurclaw"]).unwrap();
    assert_eq!(cli.host, "127.0.0.1");
    assert!(cli.port.is_none());
}

#[test]
fn cli_parses_host_and_port_flags() {
    let cli = Cli::parse_from(&[
        "lemurclaw",
        "--frontend",
        "webui",
        "--host",
        "0.0.0.0",
        "--port",
        "8080",
    ])
    .unwrap();
    assert_eq!(cli.host, "0.0.0.0");
    assert_eq!(cli.port, Some(8080));
    let cfg: RuntimeConfig = cli.into();
    assert_eq!(cfg.host, "0.0.0.0");
    assert_eq!(cfg.port, Some(8080));
}

#[test]
fn cli_parses_port_zero_as_explicit_ephemeral() {
    let cli = Cli::parse_from(&["lemurclaw", "--port", "0"]).unwrap();
    assert_eq!(cli.port, Some(0));
}

#[test]
fn frontend_enum_works() {
    let cfg = RuntimeConfig {
        agent_name: Some("test".to_string()),
        frontend: Frontend::Tui,
        ..Default::default()
    };
    assert_eq!(cfg.frontend, Frontend::Tui);
}

#[test]
fn frontend_names_round_trip() {
    for f in [Frontend::Tui, Frontend::Gui, Frontend::Webui] {
        assert_eq!(Frontend::from_name(f.name()), Some(f));
    }
    assert_eq!(Frontend::Webui.name(), "webui");
    assert_eq!(Frontend::from_name("TUI"), None);
}

#[test]
fn cli_short_options_and_inline_values() {
    let cli = Cli::parse_from(&["lemurclaw", "-C", "/tmp/w", "-mgpt-5", "--host=::1", "--port=+443"])
        .unwrap();
    assert_eq!(cli.cwd.as_deref(), Some("/tmp/w"));
    assert_eq!(cli.model.as_deref(), Some("gpt-5"));
    assert_eq!(cli.host, "::1");
    assert_eq!(cli.port, Some(443));
    let cli = Cli::parse_from(&["lemurclaw", "-C=dir"]).unwrap();
    assert_eq!(cli.cwd.as_deref(), Some("dir"));
}

#[test]
fn cli_errors() {
    let e = Cli::parse_from(&["lemurclaw", "--bogus"]).unwrap_err();
    assert_eq!(e.kind, CliErrorKind::UnknownArgument);
    assert_eq!(e.arg, "--bogus");
    let e = Cli::parse_from(&["lemurclaw", "stray"]).unwrap_err();
    assert_eq!(e.kind, CliErrorKind::UnknownArgument);
    let e = Cli::parse_from(&["lemurclaw", "--model"]).unwrap_err();
    assert_eq!(e.kind, CliErrorKind::MissingValue);
    let e = Cli::parse_from(&["lemurclaw", "--model", "--yolo"]).unwrap_err();
    assert_eq!(e.kind, CliErrorKind::MissingValue);
    assert_eq!(e.arg, "--model");
    let e = Cli::parse_from(&["lemurclaw", "--frontend", "desktop"]).unwrap_err();
    assert_eq!(e.kind, CliErrorKind::InvalidValue);
    assert_eq!(e.arg, "desktop");
    let e = Cli::parse_from(&["lemurclaw", "--port", "65536"]).unwrap_err();
    assert_eq!(e.kind, CliErrorKind::InvalidValue);
    let e = Cli::parse_from(&["lemurclaw", "--port=-1"]).unwrap_err();
    assert_eq!(e.kind, CliErrorKind::InvalidValue);
    let e = Cli::parse_from(&["lemurclaw", "--yolo=true"]).unwrap_err();
    assert_eq!(e.kind, CliErrorKind::UnexpectedValue);
    let e = Cli::parse_from(&["lemurclaw", "--yolo", "--yolo"]).unwrap_err();
    assert_eq!(e.kind, CliErrorKind::Duplicate);
    let e = Cli::parse_from(&["lemurclaw", "-m", "a", "--model", "b"]).unwrap_err();
    assert_eq!(e.kind, CliErrorKind::Duplicate);
    let e = Cli::parse_from(&["lemurclaw", "--help"]).unwrap_err();
    assert_eq!(e.kind, CliErrorKind::DisplayHelp);
    let e = Cli::parse_from(&["lemurclaw", "-V"]).unwrap_err();
    assert_eq!(e.kind, CliErrorKind::DisplayVersion);
    let e = Cli::parse_from(&["lemurclaw", "--", "x"]).unwrap_err();
    assert_eq!(e.kind, CliErrorKind::UnknownArgument);
    assert_eq!(e.arg, "x");
    assert!(Cli::parse_from(&["lemurclaw", "--"]).is_ok());
}
