use lemurclaw::patches::{comment_out_patches, extract_patch_entries};
use lemurclaw::strip_v8::{
    code_mode_identity, dep_ident, pin_failure_is_benign, prerelease_pins, dep_key_on_line, protocol_dependency_key, removed_member_should_skip,
    restore_workspace_manifest_text, source_workspace_dep, strip_workspace_manifest_text, stub_cargo_toml,
    stub_lib_rs, stub_service_rs, v8_only_crates,
};
use lemurclaw::workspace::ManifestReadError;

fn chars(s: &str) -> Vec<char> {
    s.chars().collect()
}

const WS: &str = "[workspace]\nmembers = [\n    \"core\",\n    \"code-mode-host\",\n    \"v8-poc\",\n]\n\n[workspace.dependencies]\nv8 = \"=150.4.0\"\nserde = \"1\"\nlemurclaw-code-mode-host = { path = \"code-mode-host\" }\ndeno_core_icudata = \"0.77.0\"\n";

#[test]
fn patch_entries_and_commenting() {
    let m = "[workspace]\nmembers = []\n\n[patch.crates-io]\n# comment\nratatui = { git = \"x\" }\n\n[patch.\"https://x\"]\ncrossterm = { path = \"y\" }\nbad line\n[profile.release]\nlto = true\n";
    let e = extract_patch_entries(m);
    let keys: Vec<(String, usize)> = e.iter().map(|p| (p.key.clone(), p.line_idx)).collect();
    assert_eq!(keys, vec![("ratatui".to_string(), 5), ("crossterm".to_string(), 8)]);
    assert_eq!(
        comment_out_patches(m),
        "[workspace]\nmembers = []\n\n[patch.crates-io]\n# comment\n# [xtask-disabled] ratatui = { git = \"x\" }\n\n[patch.\"https://x\"]\n# [xtask-disabled] crossterm = { path = \"y\" }\n# [xtask-disabled] bad line\n[profile.release]\nlto = true\n"
    );
}

#[test]
fn strip_drops_v8_members_and_deps() {
    let removed = vec!["code-mode-host".to_string(), "v8-poc".to_string()];
    let out = strip_workspace_manifest_text(WS, &removed);
    assert_eq!(
        out,
        "[workspace]\nmembers = [\n    \"core\",\n]\n\n[workspace.dependencies]\nserde = \"1\"\n"
    );
    // Running it again changes nothing.
    assert_eq!(strip_workspace_manifest_text(&out, &removed), out);
}

#[test]
fn strip_helpers() {
    assert_eq!(v8_only_crates(), vec!["code-mode-host", "v8-poc"]);
    let removed = vec!["v8-poc".to_string()];
    assert!(removed_member_should_skip(&chars("\"v8-poc\","), &removed));
    assert!(!removed_member_should_skip(&chars("\"core\","), &removed));
    assert_eq!(dep_key_on_line(&chars("serde = \"1\"")), Some("serde".to_string()));
    assert_eq!(dep_key_on_line(&chars("[x] = 1")), None);
    assert_eq!(dep_key_on_line(&chars(" = 1")), None);
    assert_eq!(dep_key_on_line(&chars("no equals")), None);
}

#[test]
fn restore_adds_members_and_missing_deps_at_the_end() {
    let raw = "[workspace]\nmembers = [\n    \"core\",\n]\n\n[workspace.dependencies]\nserde = \"1\"\n";
    let out = restore_workspace_manifest_text(
        raw,
        &["code-mode-host".to_string()],
        Some("lemurclaw-code-mode-host = { path = \"code-mode-host\" }"),
    );
    assert_eq!(
        out,
        "[workspace]\nmembers = [\n    \"core\",\n    \"code-mode-host\",\n]\n\n[workspace.dependencies]\nserde = \"1\"\nv8 = \"=150.4.0\"\ndeno_core_icudata = \"0.77.0\"\nlemurclaw-code-mode-host = { path = \"code-mode-host\" }\n"
    );
    // Dependencies already present are not added again.
    let again = restore_workspace_manifest_text(&out, &[], None);
    assert_eq!(again, out);
}

#[test]
fn code_mode_identity_and_protocol_key() {
    let raw = "[package]\nname = \"lemurclaw-code-mode\"\n\n[dependencies]\nlemurclaw-code-mode-protocol = { workspace = true }\n";
    assert!(matches!(code_mode_identity(raw), Ok((p, l)) if p == "lemurclaw-code-mode" && l == "lemurclaw_code_mode"));
    let raw2 = "[package]\nname = \"x\"\n[lib]\nname = \"y\"\n";
    assert!(matches!(code_mode_identity(raw2), Ok((p, l)) if p == "x" && l == "y"));
    assert!(matches!(code_mode_identity("[lib]\n"), Err(ManifestReadError::Missing(f)) if f == "package.name"));
    assert!(matches!(code_mode_identity("= ="), Err(ManifestReadError::Parse)));
    assert!(matches!(protocol_dependency_key(raw), Ok(k) if k == "lemurclaw-code-mode-protocol"));
    assert!(matches!(protocol_dependency_key("[package]\n"), Ok(k) if k == "lemurclaw-code-mode-protocol"));
    assert!(matches!(protocol_dependency_key("[dev-dependencies]\nmy_code_mode_protocol = \"1\"\n"), Ok(k) if k == "my_code_mode_protocol"));
    assert!(matches!(protocol_dependency_key("= ="), Err(ManifestReadError::Parse)));
}

#[test]
fn source_workspace_dependency_is_rendered_renamed() {
    let raw = "[workspace.dependencies]\ncodex-code-mode-host = { path = \"code-mode-host\", package = \"codex-cmh\" }\n";
    assert_eq!(
        source_workspace_dep(raw, "codex-code-mode-host"),
        Some("lemurclaw-code-mode-host = { package = \"lemurclaw-cmh\", path = \"code-mode-host\" }".to_string())
    );
    assert_eq!(source_workspace_dep(raw, "other"), None);
    assert_eq!(source_workspace_dep("= =", "x"), None);
}

#[test]
fn stub_sources() {
    let toml = stub_cargo_toml("lemurclaw-code-mode", "lemurclaw_code_mode", "lemurclaw-code-mode-protocol");
    assert!(toml.starts_with("[package]\nedition.workspace = true\nlicense.workspace = true\nname = \"lemurclaw-code-mode\"\n"));
    assert!(toml.ends_with("[dependencies]\nlemurclaw-code-mode-protocol = { workspace = true }\nlemurclaw-http-client = { workspace = true }\n"));
    assert!(toml.contains("name = \"lemurclaw_code_mode\"\npath = \"src/lib.rs\"\n"));
    let lib = stub_lib_rs("lemurclaw_code_mode_protocol");
    assert!(lib.contains("pub use lemurclaw_code_mode_protocol::*;\n"));
    assert!(lib.contains("pub use service::WebSocketCodeModeSessionProvider;\n"));
    let svc = stub_service_rs("lemurclaw_code_mode_protocol");
    assert!(svc.contains("use lemurclaw_code_mode_protocol::CodeModeSessionDelegate;\n"));
    assert!(svc.contains("_http_client_factory: lemurclaw_http_client::HttpClientFactory,"));
    assert!(svc.contains("impl Default for InProcessCodeModeSessionProvider {\n"));
    assert_eq!(dep_ident("lemurclaw-code-mode-protocol"), "lemurclaw_code_mode_protocol");
}

#[test]
fn rama_crates_are_pinned_in_dependency_order() {
    assert_eq!(
        prerelease_pins(),
        vec![("rama-utils", "0.3.0-alpha.4"), ("rama-macros", "0.3.0-alpha.4"), ("rama-error", "0.3.0-alpha.4")]
    );
}

#[test]
fn pin_failures_that_leave_the_lockfile_right_are_benign() {
    assert!(pin_failure_is_benign("warning: cargo update did not do anything"));
    assert!(pin_failure_is_benign("package is already at 0.3.0-alpha.4"));
    assert!(pin_failure_is_benign("error: could not find package `rama-error`"));
    assert!(pin_failure_is_benign("error: package ID specification `x` not found"));
    assert!(!pin_failure_is_benign("error: failed to select a version for the requirement"));
    assert!(!pin_failure_is_benign(""));
}
