use lemurclaw::toml_value::{render_toml_value, Toml};
use lemurclaw::workspace::{rewrite_workspace_manifest, CrateManifest, ManifestReadError, WorkspaceManifest};

#[test]
fn crate_manifest_fields() {
    let raw = "[package]\nname = \"codex-core\"\nversion = \"0.1.0\"\npublish = false\n\n[lib]\nproc-macro = true\n\n[dependencies]\ncodex-b = { workspace = true }\nserde = \"1\"\n\n[dev-dependencies]\ncodex-a = \"1\"\ncodex-b = \"1\"\n\n[build-dependencies]\ncodex-c = \"1\"\n";
    let m = CrateManifest::parse("core/Cargo.toml", raw).ok().unwrap();
    assert_eq!(m.path, "core/Cargo.toml");
    assert_eq!(m.raw, raw);
    assert_eq!(m.package_name().ok(), Some("codex-core".to_string()));
    assert_eq!(m.version().ok(), Some("0.1.0".to_string()));
    assert!(m.is_proc_macro());
    assert!(m.is_unpublishable());
    assert_eq!(m.workspace_codex_deps(), vec!["codex-a", "codex-b", "codex-c"]);
}

#[test]
fn crate_manifest_defaults_and_errors() {
    let m = CrateManifest::parse("x", "[package]\nname = 3\npublish = true\n").ok().unwrap();
    assert!(matches!(m.package_name(), Err(ManifestReadError::Missing(f)) if f == "package.name"));
    assert!(matches!(m.version(), Err(ManifestReadError::Missing(f)) if f == "package.version"));
    assert!(!m.is_proc_macro());
    assert!(!m.is_unpublishable());
    assert!(m.workspace_codex_deps().is_empty());
    assert!(matches!(CrateManifest::parse("x", "not = = toml"), Err(ManifestReadError::Parse)));
}

#[test]
fn workspace_members_and_deps() {
    let raw = "[workspace]\nmembers = [\"core\", 3, \"cli\"]\n\n[workspace.dependencies]\nzed = \"1\"\nalpha = { path = \"a\" }\n";
    let w = WorkspaceManifest::parse("Cargo.toml", raw).ok().unwrap();
    assert_eq!(w.members().ok(), Some(vec!["core".to_string(), "cli".to_string()]));
    let deps = w.workspace_deps();
    let keys: Vec<&str> = deps.iter().map(|(k, _)| k.as_str()).collect();
    assert_eq!(keys, vec!["alpha", "zed"]);
    let w = WorkspaceManifest::parse("Cargo.toml", "[workspace]\n").ok().unwrap();
    assert!(matches!(w.members(), Err(ManifestReadError::Missing(_))));
    assert!(w.workspace_deps().is_empty());
}

#[test]
fn values_render_as_toml_text() {
    let v = Toml::Table(vec![
        ("a".to_string(), Toml::Array(vec![Toml::Int(-3), Toml::Bool(true)])),
        ("b".to_string(), Toml::Str("x".to_string())),
    ]);
    let text: String = render_toml_value(&v).into_iter().collect();
    assert_eq!(text, "{ a = [-3, true], b = \"x\" }");
}

#[test]
fn workspace_manifest_is_rewritten_for_publishing() {
    let raw = r#"[workspace]
members = ["core", "cli", "bwrap"]

[workspace.package]
version = "0.0.0"
edition = "2024"

[workspace.lints.clippy]
unwrap_used = "deny"

[workspace.dependencies]
codex-core = { path = "core" }
codex-bwrap = { path = "./bwrap" }
serde = { version = "1", features = ["derive"] }
anyhow = "1"
codex-alias = { package = "codex-x", version = "2" }

[profile.release]
lto = "fat"

[patch.crates-io]
ratatui = { git = "https://x" }
"#;
    let w = WorkspaceManifest::parse("Cargo.toml", raw).ok().unwrap();
    let out = rewrite_workspace_manifest(&w, &["core".to_string(), "cli".to_string()]).ok().unwrap();
    let expected = "[workspace]\nresolver = \"2\"\n\nmembers = [\n    \"core\",\n    \"cli\",\n]\n\n[workspace.package]\nedition = \"2024\"\nversion = \"0.0.0\"\n\n[workspace.lints]\n\n[workspace.lints.clippy]\nunwrap_used = \"deny\"\n\n[workspace.dependencies]\nanyhow = \"1\"\nlemurclaw-alias = { package = \"lemurclaw-x\", version = \"2\" }\nlemurclaw-core = { path = \"core\", version = \"0.0.0\" }\nserde = { features = [\"derive\"], version = \"1\" }\n\n[profile.release]\nlto = \"fat\"\n";
    assert!(!out.contains("[patch."));
    assert!(!out.contains("ratatui"));
    assert_eq!(out, expected);
}

#[test]
fn workspace_without_members_cannot_be_rewritten() {
    let w = WorkspaceManifest::parse("Cargo.toml", "[workspace]\nresolver = \"2\"\n").ok().unwrap();
    assert!(rewrite_workspace_manifest(&w, &[]).is_err());
}

#[test]
fn bins_are_dropped_only_with_bin_or_lib_entries() {
    let with_bin = CrateManifest::parse("a/Cargo.toml", "[package]\nname = \"a\"\n\n[[bin]]\nname = \"a\"\n").ok().unwrap();
    assert!(with_bin.should_drop_bins());
    let with_lib = CrateManifest::parse("b/Cargo.toml", "[package]\nname = \"b\"\n\n[lib]\npath = \"src/lib.rs\"\n").ok().unwrap();
    assert!(with_lib.should_drop_bins());
    let plain = CrateManifest::parse("c/Cargo.toml", "[package]\nname = \"c\"\npublish = true\n").ok().unwrap();
    assert!(!plain.should_drop_bins());
    assert!(!plain.is_unpublishable());
}
