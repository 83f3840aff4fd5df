use lemurclaw::brand::{
    brand_file_rename, brand_rules, brand_scans_file, protected_tokens, replace_word_boundary, rewrite_brand_full_files,
    rewrite_brand_full_text, TreeFile,
};
use lemurclaw::display::{
    display_edit_files, display_edits, rewrite_brand_display_file, rewrite_brand_display_files, rewrite_snapshot_text,
    DisplayFile,
};
use lemurclaw::otel::{comment_out_otel_tls_blocks, fix_otel_metrics_client_text, fix_otel_provider_text};

fn full(raw: &str, ext: &str) -> (String, usize) {
    let protected = protected_tokens();
    let mut n = 0usize;
    let out = rewrite_brand_full_text(raw, ext, &protected, &mut n);
    (out, n)
}

#[test]
fn env_var_literals_and_paths_are_rebranded() {
    let (out, n) = full("std::env::var(\"CODEX_HOME\") // ~/.codex and /etc/codex", "rs");
    assert_eq!(out, "std::env::var(\"LEMURCLAW_HOME\") // ~/.lemurclaw and /etc/lemurclaw");
    assert_eq!(n, 3);
}

#[test]
fn quoted_prefix_catch_up_renames_unlisted_vars() {
    let (out, n) = full("let v = \"CODEX_LOG\";", "rs");
    assert_eq!(out, "let v = \"LEMURCLAW_LOG\";");
    assert_eq!(n, 1);
}

#[test]
fn protected_tokens_survive_the_rewrite() {
    let (out, n) = full("Use gpt-5-codex via Codex at chatgpt.com/codex", "md");
    assert_eq!(out, "Use gpt-5-codex via lemurclaw at chatgpt.com/codex");
    assert_eq!(n, 1);
}

#[test]
fn prose_words_only_outside_rust_sources() {
    let (out, n) = full("Codex runs codex; CodexAuth and codex_home stay", "txt");
    assert_eq!(out, "lemurclaw runs lemurclaw; CodexAuth and codex_home stay");
    assert_eq!(n, 2);
    let (out, n) = full("Codex runs codex", "rs");
    assert_eq!(out, "Codex runs codex");
    assert_eq!(n, 0);
}

#[test]
fn flags_protocols_and_type_names() {
    let (out, n) = full("--codex-run-as codex://x CodexErrorInfo codex.thread.started", "rs");
    assert_eq!(out, "--lemurclaw-run-as lemurclaw://x LemurclawErrorInfo lemurclaw.thread.started");
    assert_eq!(n, 4);
}

#[test]
fn text_without_brand_is_unchanged() {
    let (out, n) = full("nothing to see here", "md");
    assert_eq!(out, "nothing to see here");
    assert_eq!(n, 0);
}

#[test]
fn word_boundary_replacement_counts() {
    let s: Vec<char> = "codex, xcodex codex_y codex".chars().collect();
    let needle: Vec<char> = "codex".chars().collect();
    let repl: Vec<char> = "L".chars().collect();
    let mut n = 5usize;
    let out = replace_word_boundary(&s, &needle, &repl, &mut n);
    assert_eq!(out.iter().collect::<String>(), "L, xcodex codex_y L");
    assert_eq!(n, 7);
}

#[test]
fn brand_tables_are_nonempty() {
    assert!(protected_tokens().contains(&"codex_cli_rs"));
    assert_eq!(brand_rules()[0], ("\"CODEX_SANDBOX_NETWORK_DISABLED\"", "\"LEMURCLAW_SANDBOX_NETWORK_DISABLED\""));
}

#[test]
fn display_phrases_apply_only_to_their_file() {
    let raw = "/// Codex CLI\nfn main() {}\n";
    let (out, n) = rewrite_brand_display_file("main.rs", raw);
    assert_eq!(out, "/// lemurclaw CLI\nfn main() {}\n");
    assert_eq!(n, 1);
    let (out, n) = rewrite_brand_display_file("other.rs", raw);
    assert_eq!(out, raw);
    assert_eq!(n, 0);
}

#[test]
fn display_edit_files_are_distinct_and_ordered() {
    let files = display_edit_files();
    assert_eq!(files[0], "main.rs");
    for (i, f) in files.iter().enumerate() {
        assert!(!files[..i].contains(f));
    }
    for (f, _, _) in display_edits() {
        assert!(files.contains(&f));
    }
}

#[test]
fn snapshot_placeholder_is_rewritten() {
    assert_eq!(
        rewrite_snapshot_text("│ Ask Codex to do anything │\n│ Ask Codex to do anything │"),
        Some("│ Ask lemurclaw to do anything │\n│ Ask lemurclaw to do anything │".to_string())
    );
    assert_eq!(rewrite_snapshot_text("nothing"), None);
}

#[test]
fn otel_tls_block_is_replaced() {
    let input = "fn f() {\n    if let Some(tls) = tls.as_ref() {\n        b = b.with_http_client(c);\n    }\n    done();\n}\n";
    let expected = "fn f() {\n    // TODO(merge): Custom TLS client disabled — reqwest 0.13 (rmcp) and\n    //                opentelemetry-http (reqwest 0.12) are incompatible.\n    let _ = tls;\n    done();\n}\n";
    assert_eq!(comment_out_otel_tls_blocks(input), expected);
}

#[test]
fn otel_standalone_call_drops_preceding_client_lines() {
    let input = "    let client = build_async_http_client(\n        a,\n    )?;\n    exporter_builder = exporter_builder.with_http_client(client);\nx\n";
    let expected = "    let client = build_async_http_client(\n    // TODO(merge): with_http_client disabled — reqwest 0.13 (rmcp) and\n    //                opentelemetry-http (reqwest 0.12) are incompatible.\n    let _ = tls;\nx\n";
    assert_eq!(comment_out_otel_tls_blocks(input), expected);
}

#[test]
fn otel_untouched_text_is_returned_as_is() {
    let input = "no tls here\r\nline two";
    assert_eq!(comment_out_otel_tls_blocks(input), input);
    assert_eq!(fix_otel_provider_text("plain"), "plain");
    assert_eq!(fix_otel_metrics_client_text("plain"), "plain");
}

fn comps(parts: &[&str]) -> Vec<String> {
    parts.iter().map(|p| p.to_string()).collect()
}

#[test]
fn brand_scans_wanted_extensions_outside_snapshots() {
    assert!(brand_scans_file(&comps(&["codex-rs", "core", "src", "lib.rs"]), Some("rs")));
    assert!(brand_scans_file(&comps(&["docs", "README.md"]), Some("md")));
    assert!(brand_scans_file(&comps(&["a.py"]), Some("py")));
    assert!(!brand_scans_file(&comps(&["img.png"]), Some("png")));
    assert!(!brand_scans_file(&comps(&["Makefile"]), None));
    assert!(!brand_scans_file(&comps(&["tui", "src", "snapshots", "x.txt"]), Some("txt")));
}

#[test]
fn generated_files_are_renamed() {
    assert_eq!(brand_file_rename("CodexErrorInfo.ts"), Some("LemurclawErrorInfo.ts"));
    assert_eq!(brand_file_rename("codex.exec_server.relay.v1.proto"), Some("lemurclaw.exec_server.relay.v1.proto"));
    assert_eq!(brand_file_rename("codex.thread_config.v1.rs"), Some("lemurclaw.thread_config.v1.rs"));
    assert_eq!(brand_file_rename("lib.rs"), None);
    assert_eq!(brand_file_rename("CodexErrorInfo.rs"), None);
}

#[test]
fn a_text_with_nothing_to_rebrand_is_left_alone() {
    let raw = "fn main() {\n    println!(\"hello, lemur\");\n}\n";
    let protected = protected_tokens();
    let mut n = 7usize;
    let out = rewrite_brand_full_text(raw, "md", &protected, &mut n);
    assert_eq!(out, raw);
    assert_eq!(n, 7);
}

#[test]
fn the_tree_rewrite_touches_only_scanned_files_that_change() {
    let file = |path: &[&str], ext: Option<&str>, text: Option<&str>| TreeFile {
        components: path.iter().map(|c| c.to_string()).collect(),
        ext: ext.map(|e| e.to_string()),
        text: text.map(|t| t.to_string()),
    };
    let files = vec![
        file(&["docs", "README.md"], Some("md"), Some("Run Codex with gpt-5-codex.")),
        file(&["src", "snapshots", "a.md"], Some("md"), Some("Codex")),
        file(&["img", "logo.png"], Some("png"), Some("Codex")),
        file(&["src", "lib.rs"], Some("rs"), Some("fn f() {}")),
        file(&["src", "bin.rs"], Some("rs"), None),
    ];
    let out = rewrite_brand_full_files(&files);
    assert_eq!(out.len(), 5);
    assert_eq!(out[0], (Some("Run lemurclaw with gpt-5-codex.".to_string()), 1));
    assert_eq!(out[1], (None, 0));
    assert_eq!(out[2], (None, 0));
    assert_eq!(out[3], (None, 0));
    assert_eq!(out[4], (None, 0));
}

#[test]
fn the_display_rewrite_over_a_tree_edits_listed_files_and_snapshots() {
    let file = |rel: &str, is_snap: bool, text: &str| DisplayFile { rel: rel.to_string(), is_snap, text: text.to_string() };
    let files = vec![
        file("main.rs", false, "/// Codex CLI\nfn main() {}\n"),
        file("other.rs", false, "/// Codex CLI\n"),
        file("tui/snapshots/x.snap", true, "> Ask Codex to do anything\ncodex-tui\n"),
        file("tui/snapshots/y.snap", true, "nothing here\n"),
    ];
    let out = rewrite_brand_display_files(&files);
    assert_eq!(out.len(), 4);
    assert_eq!(out[0], (Some("/// lemurclaw CLI\nfn main() {}\n".to_string()), 1, false));
    assert_eq!(out[1], (None, 0, false));
    assert_eq!(out[2], (Some("> Ask lemurclaw to do anything\ncodex-tui\n".to_string()), 0, true));
    assert_eq!(out[3], (None, 0, false));
}
