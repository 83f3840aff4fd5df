use lemurclaw::sizes::{
    crate_dir_candidates, fits_size_limit, largest_crates, manifest_path_after_name, CRATES_IO_SIZE_LIMIT_BYTES,
};

#[test]
fn measured_crates_are_the_five_largest() {
    assert_eq!(
        largest_crates(),
        vec!["codex-core", "codex-tui", "codex-app-server", "codex-app-server-protocol", "codex-exec-server"]
    );
}

#[test]
fn size_limit_is_ten_mebibytes_inclusive() {
    assert_eq!(CRATES_IO_SIZE_LIMIT_BYTES, 10 * 1024 * 1024);
    assert!(fits_size_limit(0));
    assert!(fits_size_limit(10 * 1024 * 1024));
    assert!(!fits_size_limit(10 * 1024 * 1024 + 1));
}

#[test]
fn crate_dirs_are_looked_for_under_known_parents() {
    assert_eq!(
        crate_dir_candidates("codex-core"),
        vec!["core", "utils/core", "ext/core", "memories/core"]
    );
    assert_eq!(crate_dir_candidates("other"), vec!["other", "utils/other", "ext/other", "memories/other"]);
}

#[test]
fn manifest_path_follows_the_name() {
    let json = r#"{"packages":[{"name":"codex-a","version":"0.1.0","manifest_path":"/w/a/Cargo.toml"},{"name":"codex-core","manifest_path":"/w/core/Cargo.toml"}]}"#;
    assert_eq!(manifest_path_after_name(json, "codex-core"), Some("/w/core/Cargo.toml".to_string()));
    assert_eq!(manifest_path_after_name(json, "codex-a"), Some("/w/a/Cargo.toml".to_string()));
    assert_eq!(manifest_path_after_name(json, "codex-tui"), None);
    assert_eq!(manifest_path_after_name(r#"{"name":"codex-x"}"#, "codex-x"), None);
}
