use lemurclaw::forks::{
    find_fork_dep_subtable, find_internal_dep_version, forks, forks_root, rewrite_fork_manifest,
    rewrite_inline_fork_dep,
};
use lemurclaw::manifest::{
    fork_aliases, rename_ident, rename_package, rewrite_crate_manifest,
    rewrite_publish_workspace_for_forks, rewrite_workspace_fork_dep_line, ManifestError,
};
use lemurclaw::json::Json;
use lemurclaw::workspace::CrateManifest;
use lemurclaw::rename::{
    crate_info, crate_scan_skips, dst_rel_dir, known_crate_idents, metadata_packages, bin_count, copy_skips, is_test_support, orphan_dirs, excluded_dep_names, is_excluded, line_renamed_package_name, own_crate_deps, own_crate_members, rewrite_lockfile,
};

fn chars(s: &str) -> Vec<char> {
    s.chars().collect()
}

fn text(v: &[char]) -> String {
    v.iter().collect()
}

#[test]
fn rename_package_and_ident() {
    assert_eq!(rename_package("codex-core"), "lemurclaw-core");
    assert_eq!(rename_package("serde"), "serde");
    assert_eq!(rename_package("codex_core"), "codex_core");
    assert_eq!(rename_ident("codex_core"), "lemurclaw_core");
    assert_eq!(rename_ident("codex-core"), "codex-core");
    // Renaming twice changes nothing more.
    assert_eq!(rename_package(&rename_package("codex-x")), rename_package("codex-x"));
    assert_eq!(rename_ident(&rename_ident("codex_x")), rename_ident("codex_x"));
}

#[test]
fn crate_manifest_is_renamed_and_pruned() {
    let raw = "[package]\nname = \"codex-core\"\n\n[lib]\nname = \"codex_core\"\n\n[[bin]]\nname = \"x\"\npath = \"src/main.rs\"\n\n[dependencies]\ncodex-protocol = { workspace = true }\ncore_test_support = { path = \"x\" }\nserde = \"1\"\n\n[dependencies.codex-utils]\nworkspace = true\n\n[dev-dependencies.core_test_support]\npath = \"y\"\n";
    let out = rewrite_crate_manifest(raw, true, &["core_test_support".to_string()]).unwrap();
    assert_eq!(
        out,
        "[package]\nname = \"lemurclaw-core\"\n\n[lib]\nname = \"lemurclaw_core\"\n\n[dependencies]\nlemurclaw-protocol = { workspace = true }\nserde = \"1\"\n\n[dependencies.lemurclaw-utils]\nworkspace = true\n\n"
    );
}

#[test]
fn crate_manifest_keeps_bins_when_asked() {
    let raw = "[[bin]]\nname = \"codex\"\npath = \"src/main.rs\"\n";
    let out = rewrite_crate_manifest(raw, false, &[]).unwrap();
    assert_eq!(out, raw);
}

#[test]
fn crate_manifest_that_is_not_toml_is_refused() {
    assert_eq!(rewrite_crate_manifest("[package\nname = ", false, &[]), Err(ManifestError::Parse));
}

#[test]
fn quoted_package_names_are_renamed_in_values() {
    let raw = "[dependencies]\nfoo = { package = \"codex-foo\", path = \"../foo\" }\n";
    let out = rewrite_crate_manifest(raw, false, &[]).unwrap();
    assert_eq!(out, "[dependencies]\nfoo = { package = \"lemurclaw-foo\", path = \"../foo\" }\n");
}

#[test]
fn workspace_fork_lines_get_package_aliases() {
    let aliases = fork_aliases();
    assert_eq!(
        rewrite_workspace_fork_dep_line("ratatui = \"0.29.0\"", &aliases),
        Some("ratatui = { version = \"0.29.0\", package = \"lemurclaw-ratatui\" }".to_string())
    );
    assert_eq!(
        rewrite_workspace_fork_dep_line("  tokio-tungstenite = { version = \"0.28.0\", features = [\"x\"], }", &aliases),
        Some("  tokio-tungstenite = { version = \"0.28.0\", features = [\"x\"], package = \"lemurclaw-tokio-tungstenite\" }".to_string())
    );
    assert_eq!(
        rewrite_workspace_fork_dep_line("crossterm = { version = \"1\", package = \"x\" }", &aliases),
        Some("crossterm = { version = \"1\", package = \"x\" }".to_string())
    );
    assert_eq!(rewrite_workspace_fork_dep_line("serde = \"1\"", &aliases), None);
}

#[test]
fn publish_workspace_drops_patches_and_aliases_forks() {
    let raw = "[workspace]\nmembers = []\n\n[workspace.dependencies]\nratatui = \"0.29.0\"\nserde = \"1\"\n\n[patch.crates-io]\nratatui = { git = \"x\" }\n\n[profile.release]\nlto = true\n";
    let out = rewrite_publish_workspace_for_forks(raw).unwrap();
    assert_eq!(
        out,
        "[workspace]\nmembers = []\n\n[workspace.dependencies]\nratatui = { version = \"0.29.0\", package = \"lemurclaw-ratatui\" }\nserde = \"1\"\n\n[profile.release]\nlto = true\n"
    );
}

#[test]
fn fork_table_and_paths() {
    let f = forks();
    assert_eq!(f.len(), 4);
    assert_eq!(f[3].lib_name, "tokio_tungstenite");
    assert_eq!(forks_root("/repo"), "/repo/publish.forks");
    assert_eq!(find_internal_dep_version(&chars("crossterm")), "0.28.1");
    assert_eq!(find_internal_dep_version(&chars("tungstenite")), "0.27.0");
    assert_eq!(find_internal_dep_version(&chars("other")), "0.0.0");
}

#[test]
fn fork_dep_subtables_are_recognised() {
    assert_eq!(find_fork_dep_subtable(&chars("[dependencies.tungstenite]")).map(|v| text(&v)), Some("tungstenite".to_string()));
    assert_eq!(find_fork_dep_subtable(&chars("[dev-dependencies.x]")).map(|v| text(&v)), Some("x".to_string()));
    assert_eq!(find_fork_dep_subtable(&chars("[build-dependencies.y]")).map(|v| text(&v)), Some("y".to_string()));
    assert_eq!(find_fork_dep_subtable(&chars("[dependencies]")), None);
    assert_eq!(find_fork_dep_subtable(&chars("[target.x.dependencies.y]")), None);
}

#[test]
fn inline_fork_dep_gets_package() {
    let f = forks();
    let ratatui = &f[2];
    assert_eq!(
        rewrite_inline_fork_dep(&chars("crossterm = { version = \"0.28.1\", optional = true }"), ratatui).map(|v| text(&v)),
        Some("crossterm = { version = \"0.28.1\", optional = true, package = \"lemurclaw-crossterm\" }".to_string())
    );
    assert_eq!(
        rewrite_inline_fork_dep(&chars("crossterm = {}"), ratatui).map(|v| text(&v)),
        Some("crossterm = {package = \"lemurclaw-crossterm\" }".to_string())
    );
    assert_eq!(rewrite_inline_fork_dep(&chars("serde = { version = \"1\" }"), ratatui), None);
}

#[test]
fn fork_manifest_is_renamed_and_lib_pinned() {
    let f = forks();
    let raw = "[package]\nname = \"tokio-tungstenite\"\nversion = \"0.28.0\"\n\n[dependencies.tungstenite]\ngit = \"https://example.invalid/t\"\nrev = \"abc\"\n\n[dependencies]\nlog = \"0.4\"\n";
    let out = rewrite_fork_manifest(raw, &f[3]);
    assert_eq!(
        out,
        "[package]\nname = \"lemurclaw-tokio-tungstenite\"\nversion = \"0.28.0\"\n\n[dependencies.tungstenite]\nversion = \"0.27.0\"\npackage = \"lemurclaw-tungstenite\"\ndefault-features = false\n[dependencies]\nlog = \"0.4\"\n\n[lib]\nname = \"tokio_tungstenite\"\n"
    );
}

#[test]
fn fork_manifest_existing_lib_name_is_replaced() {
    let f = forks();
    let raw = "[package]\nname = \"crossterm\"\n\n[lib]\nname = \"crossterm\"\npath = \"src/lib.rs\"\n";
    let out = rewrite_fork_manifest(raw, &f[0]);
    assert_eq!(
        out,
        "[package]\nname = \"lemurclaw-crossterm\"\n\n[lib]\nname = \"crossterm\"\npath = \"src/lib.rs\"\n"
    );
}

#[test]
fn exclusions_and_own_crates() {
    assert!(is_excluded("anything", true));
    assert!(is_excluded("codex-bwrap", false));
    assert!(!is_excluded("codex-core", false));
    assert_eq!(own_crate_members(), vec!["lemurclaw", "lemurclaw-gui", "lemurclaw-webui", "lemurclaw-transport"]);
    assert_eq!(excluded_dep_names()[0], "core_test_support");
}

#[test]
fn lockfile_keeps_published_and_drops_others() {
    let lock = "version = 4\n\n[[package]]\nname = \"codex-core\"\nversion = \"0.1.0\"\ndependencies = [\n \"codex-protocol\",\n \"serde\",\n]\n\n[[package]]\nname = \"codex-bwrap\"\nversion = \"0.1.0\"\n\n[[package]]\nname = \"serde\"\nversion = \"1.0.0\"\n";
    let out = rewrite_lockfile(lock, &["codex-core".to_string(), "codex-protocol".to_string()]);
    assert_eq!(
        out,
        "version = 4\n\n[[package]]\nname = \"lemurclaw-core\"\nversion = \"0.1.0\"\ndependencies = [\n \"lemurclaw-protocol\",\n \"serde\",\n]\n\n[[package]]\nname = \"serde\"\nversion = \"1.0.0\"\n"
    );
}

#[test]
fn quoted_name_is_renamed_in_a_line() {
    let out = line_renamed_package_name(&chars("name = \"codex-a\" # \"codex-a\""), &chars("codex-a"), &chars("lemurclaw-a"));
    assert_eq!(text(&out), "name = \"lemurclaw-a\" # \"lemurclaw-a\"");
}

#[test]
fn test_support_crates_are_recognised() {
    assert!(is_test_support("tests/common"));
    assert!(is_test_support("core/tests/common"));
    assert!(!is_test_support("core"));
    assert!(!is_test_support("testsuite/x"));
}

#[test]
fn bin_sections_are_counted() {
    let raw = "[package]\nname = \"x\"\n\n[[bin]]\nname = \"a\"\n\n  [[bin]]\nname = \"b\"\n# [[bin]] in a comment\n";
    assert_eq!(bin_count(raw), 2);
    assert_eq!(bin_count("[package]\nname = \"x\"\n"), 0);
}

#[test]
fn build_outputs_are_not_copied() {
    assert!(copy_skips("target"));
    assert!(copy_skips("node_modules"));
    assert!(copy_skips("dist"));
    assert!(!copy_skips("src"));
    assert!(!copy_skips("targets"));
}

#[test]
fn orphans_are_unexpected_non_own_dirs() {
    let existing = vec![
        "core".to_string(),
        "lemurclaw".to_string(),
        "old-crate".to_string(),
        "lemurclaw-gui".to_string(),
        "tui".to_string(),
        "stale".to_string(),
    ];
    let expected = vec!["core".to_string(), "tui".to_string()];
    assert_eq!(orphan_dirs(&existing, &expected), vec!["old-crate".to_string(), "stale".to_string()]);
    assert!(orphan_dirs(&[], &expected).is_empty());
}

fn jobj(entries: Vec<(&str, Json)>) -> Json {
    Json::Object(entries.into_iter().map(|(k, v)| (k.to_string(), v)).collect())
}

fn jstr(s: &str) -> Json {
    Json::Str(s.to_string())
}

#[test]
fn metadata_packages_keep_named_packages_with_manifests() {
    let meta = jobj(vec![(
        "packages",
        Json::Array(vec![
            jobj(vec![("name", jstr("codex-core")), ("manifest_path", jstr("/r/codex-rs/core/Cargo.toml"))]),
            jobj(vec![("name", jstr("")), ("manifest_path", jstr("/r/x/Cargo.toml"))]),
            jobj(vec![("name", jstr("codex-tui"))]),
            jobj(vec![("name", jstr("codex-api")), ("manifest_path", jstr("/r/codex-rs/codex-api/Cargo.toml"))]),
        ]),
    )]);
    assert_eq!(
        metadata_packages(&meta),
        Some(vec![
            ("codex-core".to_string(), "/r/codex-rs/core/Cargo.toml".to_string()),
            ("codex-api".to_string(), "/r/codex-rs/codex-api/Cargo.toml".to_string()),
        ])
    );
    assert_eq!(metadata_packages(&jobj(vec![("packages", jstr("x"))])), None);
    assert_eq!(metadata_packages(&jobj(vec![])), None);
}

#[test]
fn known_crate_idents_are_underscored_codex_names() {
    let names = vec![
        "codex-core".to_string(),
        "serde".to_string(),
        "codex_utils-absolute-path".to_string(),
        "app_test_support".to_string(),
    ];
    assert_eq!(known_crate_idents(&names), vec!["codex_core".to_string(), "codex_utils_absolute_path".to_string()]);
}

#[test]
fn destination_dir_renames_a_codex_leaf() {
    assert_eq!(dst_rel_dir("codex-api"), "lemurclaw-api");
    assert_eq!(dst_rel_dir("utils/codex-x"), "utils/lemurclaw-x");
    assert_eq!(dst_rel_dir("codex-utils/absolute-path"), "codex-utils/absolute-path");
    assert_eq!(dst_rel_dir("core"), "core");
}

#[test]
fn crate_info_excludes_and_describes() {
    let lib = CrateManifest::parse("core/Cargo.toml", "[package]\nname = \"codex-core\"\n\n[lib]\nproc-macro = true\n").ok().unwrap();
    let info = crate_info("codex-core", "codex-core", &lib).unwrap();
    assert_eq!(info.name, "codex-core");
    assert_eq!(info.rel_dir, "codex-core");
    assert_eq!(info.dst_rel_dir, "lemurclaw-core");
    assert!(info.drop_bins);
    assert!(info.is_proc_macro);

    let plain = CrateManifest::parse("p/Cargo.toml", "[package]\nname = \"codex-p\"\n").ok().unwrap();
    let info = crate_info("codex-p", "p", &plain).unwrap();
    assert!(!info.drop_bins);
    assert!(!info.is_proc_macro);
    assert!(crate_info("codex-bwrap", "bwrap", &plain).is_none());
    assert!(crate_info("codex-p", "core/tests/common", &plain).is_none());

    let private = CrateManifest::parse("q/Cargo.toml", "[package]\nname = \"codex-q\"\npublish = false\n").ok().unwrap();
    assert!(crate_info("codex-q", "q", &private).is_none());
}

#[test]
fn crate_search_skips_outputs_and_git() {
    assert!(crate_scan_skips("target"));
    assert!(crate_scan_skips(".git"));
    assert!(crate_scan_skips("node_modules"));
    assert!(!crate_scan_skips("dist"));
    assert!(!crate_scan_skips("core"));
}

#[test]
fn own_crate_path_dependencies() {
    assert_eq!(
        own_crate_deps(),
        vec![
            ("lemurclaw-gui", "lemurclaw-gui", "0.0.0"),
            ("lemurclaw-transport", "lemurclaw-transport", "0.0.0"),
            ("lemurclaw-webui", "lemurclaw-webui", "0.0.0"),
        ]
    );
}

#[test]
fn rewiring_the_workspace_twice_changes_nothing() {
    let raw = "[workspace]\r\nmembers = []\r\n\r\n[workspace.dependencies]\r\n  tokio-tungstenite = { version = \"0.28.0\", features = [\"x\"], }\r\ntungstenite = \"0.27.0\" # pinned\r\ncrossterm = { version = \"0.28.1\", package = \"other\" }\r\nserde = \"1\"\r\n[patch.crates-io]\r\nratatui = { git = \"x\" }\r\n[profile.release]\r\nlto = true";
    let once = rewrite_publish_workspace_for_forks(raw).unwrap();
    let twice = rewrite_publish_workspace_for_forks(&once).unwrap();
    assert_eq!(twice, once);
    assert!(once.contains("  tokio-tungstenite = { version = \"0.28.0\", features = [\"x\"], package = \"lemurclaw-tokio-tungstenite\" }\n"));
    assert!(!once.contains("[patch."));
}

#[test]
fn rewriting_a_fork_manifest_twice_changes_nothing() {
    let f = forks();
    let raw = "[package]\nname = \"ratatui\"\nversion = \"0.29.0\"\n\n[dependencies.crossterm]\ngit = \"https://example.invalid/c\"\n\n[dependencies]\n  crossterm = { version = \"0.28\", optional = true, }\nlog = \"0.4\"\n\n[lib]\nname = \"ratatui\"\nbench = false\n";
    let once = rewrite_fork_manifest(raw, &f[2]);
    assert_eq!(rewrite_fork_manifest(&once, &f[2]), once);
    assert!(once.contains("  crossterm = { version = \"0.28\", optional = true, package = \"lemurclaw-crossterm\" }\n"));
    let raw2 = "[package]\nname = \"tokio-tungstenite\"\n\n[dependencies.tungstenite]\nrev = \"abc\"\n\n[features]\ndefault = []\n";
    let once2 = rewrite_fork_manifest(raw2, &f[3]);
    assert_eq!(rewrite_fork_manifest(&once2, &f[3]), once2);
    assert!(once2.ends_with("\n[lib]\nname = \"tokio_tungstenite\"\n"));
}

#[test]
fn a_fork_manifest_ending_in_a_sibling_table_without_lib_loses_a_blank_line() {
    let f = forks();
    let raw = "[package]\nname = \"ratatui\"\n\n[dependencies.crossterm]\ngit = \"x\"\n";
    let once = rewrite_fork_manifest(raw, &f[2]);
    let twice = rewrite_fork_manifest(&once, &f[2]);
    assert_eq!(once.replace("\n\n[lib]", "\n[lib]"), twice);
}
