use lemurclaw::include_paths::{
    apply_cross_crate_include, fix_manifest_dir_text, fix_migrate_paths_text, fix_single_includes_text,
    include_paths, manifest_dir_tails, migrate_paths, next_cross_crate_include, pathdiff_rel,
};

fn comps(parts: &[&str]) -> Vec<String> {
    parts.iter().map(|s| s.to_string()).collect()
}

fn fix(a: &str, b: &str) -> (String, String) {
    (a.to_string(), b.to_string())
}

#[test]
fn relative_paths_go_up_then_down() {
    assert_eq!(pathdiff_rel(&comps(&["/", "w", "src", "a"]), &comps(&["/", "w", "src", "b", "x.json"])), "../b/x.json");
    assert_eq!(pathdiff_rel(&comps(&["/", "w"]), &comps(&["/", "w", "f"])), "f");
    assert_eq!(pathdiff_rel(&comps(&["/", "w", "a", "b"]), &comps(&["/", "w"])), "../..");
    assert_eq!(pathdiff_rel(&comps(&["x"]), &comps(&["x"])), "");
}

#[test]
fn include_paths_are_listed_and_replaced() {
    let src = "let a = include_str!(\"../x.json\");\nlet b = include_str!(\"ok.txt\");\nlet c = include_bytes!(\"y.bin\");\n";
    assert_eq!(include_paths(src, "include_str!("), comps(&["../x.json", "ok.txt"]));
    assert_eq!(include_paths(src, "include_bytes!("), comps(&["y.bin"]));
    let out = fix_single_includes_text(src, "include_str!(", &[fix("../x.json", "../../schema/x.json")]);
    assert_eq!(
        out,
        "let a = include_str!(\"../../schema/x.json\");\nlet b = include_str!(\"ok.txt\");\nlet c = include_bytes!(\"y.bin\");\n"
    );
    assert_eq!(fix_single_includes_text(src, "include_str!(", &[]), src);
}

#[test]
fn unclosed_include_quote_repeats_the_rest() {
    let src = "a include_str!(\"x";
    assert_eq!(fix_single_includes_text(src, "include_str!(", &[]), "a include_str!(\"xa include_str!(\"x");
    assert!(include_paths(src, "include_str!(").is_empty());
}

#[test]
fn manifest_dir_paths_get_their_module() {
    let raw = "include_dir!(\"$CARGO_MANIFEST_DIR/src/assets/samples\"); include_dir!(\"$CARGO_MANIFEST_DIR/src/keep\");";
    assert_eq!(manifest_dir_tails(raw), comps(&["assets/samples", "keep"]));
    assert_eq!(
        fix_manifest_dir_text(raw, "skills", &comps(&["assets/samples"])),
        "include_dir!(\"$CARGO_MANIFEST_DIR/src/skills/assets/samples\"); include_dir!(\"$CARGO_MANIFEST_DIR/src/keep\");"
    );
    assert_eq!(fix_manifest_dir_text(raw, "", &comps(&["assets/samples"])), raw);
}

#[test]
fn migrations_move_into_the_module() {
    let src = "static M: Migrator = sqlx::migrate!(\"./migrations\");\nstatic L: Migrator = sqlx::migrate!(\"./logs_migrations\");\n";
    assert_eq!(migrate_paths(src), comps(&["./migrations", "./migrations", "./logs_migrations"]));
    let out = fix_migrate_paths_text(src, "state", &comps(&["./migrations", "./logs_migrations"]));
    assert_eq!(
        out,
        "static M: Migrator = sqlx::migrate!(\"./src/state/migrations\");\nstatic L: Migrator = sqlx::migrate!(\"./src/state/logs_migrations\");"
    );
    // Lines are joined again without a final newline.
    assert_eq!(fix_migrate_paths_text("a\nb\n", "m", &[]), "a\nb");
}

#[test]
fn cross_crate_includes_are_found_and_replaced() {
    let out = "const S: &str = include_str!(\"../../codex-rs/app-server-protocol/schema/x.json\");";
    let c = next_cross_crate_include(out).unwrap();
    assert_eq!(c.module, "app_server_protocol");
    assert_eq!(c.rel_path, "schema/x.json");
    assert_eq!(&out[c.quote_start..c.replace_end], "../../codex-rs/app-server-protocol/schema/x.json");
    let fixed = apply_cross_crate_include(out, c.quote_start, c.replace_end, "../app_server_protocol/schema/x.json").unwrap();
    assert_eq!(fixed, "const S: &str = include_str!(\"../app_server_protocol/schema/x.json\");");
    assert!(next_cross_crate_include(&fixed).is_none());
    assert!(next_cross_crate_include("see codex-rs/README").is_none());
    assert!(apply_cross_crate_include("abc", 2, 1, "x").is_none());
}
