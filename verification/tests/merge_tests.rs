use lemurclaw::aggregate::{
    collect_aggregate_deps, merge_host_manifest_deps, merged_cargo_toml, merged_lib_rs, unify_dep_value, AggregateDeps,
};
use lemurclaw::fixups::{build_rs_is_trivial, bundle_plan, BundlePlan};
use lemurclaw::cluster::{utils_cluster, Cluster, SubCrate};
use lemurclaw::merge_text::{
    check_defs, collapse_deps_text, collect_local_mods_text, extract_dep_key, fix_self_refs_in_src, fix_use_crate_lines, replace_ident_whole,
    rewrite_protocol_refs, rewrite_publish_manifest_text, rewrite_rs, tool_call_export_text, tui_cargo_deps_text,
    tui_frames_text, RewriteScope,
};
use lemurclaw::reexports::{add_reexports_text, target_file, ReexportTarget};
use lemurclaw::toml_value::{render_toml_value, Toml};

fn cluster() -> Cluster {
    Cluster {
        name: "utils",
        source_subdir: "utils",
        merged_member_path: "utils/utils",
        merged_package: "lemurclaw-utils",
        merged_lib_ident: "lemurclaw_utils",
        members: vec![
            SubCrate { dir: "cache".to_string(), package: "lemurclaw-utils-cache".to_string(), module: "cache".to_string() },
            SubCrate { dir: "path-utils".to_string(), package: "lemurclaw-utils-path".to_string(), module: "path_utils".to_string() },
        ],
    }
}

#[test]
fn identifiers_are_replaced_whole() {
    assert_eq!(
        replace_ident_whole("use lemurclaw_utils_path::x; lemurclaw_utils_path_uri::y", "lemurclaw_utils_path", "crate::path"),
        "use crate::path::x; lemurclaw_utils_path_uri::y"
    );
    assert_eq!(replace_ident_whole("abc", "", "x"), "abc");
}

#[test]
fn member_crates_become_module_paths() {
    let c = cluster();
    let src = "use lemurclaw_utils_cache::Cache;\nlemurclaw_utils_path::join(a)";
    assert_eq!(
        rewrite_rs(src, RewriteScope::IntraCrate, &c),
        "use crate::cache::Cache;\ncrate::path_utils::join(a)"
    );
    assert_eq!(
        rewrite_rs(src, RewriteScope::Downstream, &c),
        "use lemurclaw_utils::cache::Cache;\nlemurclaw_utils::path_utils::join(a)"
    );
    assert_eq!(RewriteScope::Downstream.prefix(&c), "lemurclaw_utils");
}

#[test]
fn self_references_get_the_module() {
    let modules = vec!["cache".to_string(), "config".to_string()];
    let locals = vec!["config".to_string()];
    let src = "crate::Item; crate::cache::X; crate::config::Y; my_crate::z; crate::feedback_tags!(); crate::";
    assert_eq!(
        fix_self_refs_in_src(src, "host", &modules, &locals),
        "crate::host::Item; crate::cache::X; crate::host::config::Y; my_crate::z; crate::feedback_tags!(); crate::"
    );
}

#[test]
fn definitions_are_found() {
    let raw = "mod inner;\n  pub struct Foo {\npub(crate) use bar::Baz;\npub use qux::Qux::*;\npub use Zed;\npub fn tail";
    assert!(check_defs(raw, "inner"));
    assert!(check_defs(raw, "Foo"));
    assert!(check_defs(raw, "Zed"));
    assert!(!check_defs(raw, "bar"));
    assert!(!check_defs(raw, "qux"));
    assert!(!check_defs(raw, "Fo"));
    assert!(!check_defs(raw, "tail"));
    assert!(!check_defs(raw, "missing"));
}

#[test]
fn member_dependencies_collapse() {
    let c = cluster();
    let raw = "[dependencies]\n  lemurclaw-utils-cache = { workspace = true }\nserde = \"1\"\npath_alias = { package = \"lemurclaw-utils-path\", path = \"x\" }\nlemurclaw-utils = { workspace = true }\n";
    assert_eq!(
        collapse_deps_text(raw, &c),
        "[dependencies]\n  lemurclaw-utils = { workspace = true }\nserde = \"1\"\n"
    );
    let own_first = "[dependencies]\nlemurclaw-utils = { path = \"x\" }\nlemurclaw-utils-cache = \"1\"\n";
    assert_eq!(collapse_deps_text(own_first, &c), "[dependencies]\nlemurclaw-utils = { path = \"x\" }\n");
    let d: Vec<char> = "a = b = c".chars().collect();
    assert_eq!(extract_dep_key(&d), Some("a".to_string()));
}

#[test]
fn publish_manifest_collapses_members() {
    let c = cluster();
    let raw = "[workspace]\nmembers = [\n    \"core\",\n    \"utils/cache\",\n    \"utils/path-utils\",\n    \"utils/other\",\n]\n\n[workspace.dependencies]\nlemurclaw-utils-cache = { path = \"utils/cache\" }\nlemurclaw-utils-path = { path = \"utils/path-utils\" }\nserde = \"1\"\n";
    assert_eq!(
        rewrite_publish_manifest_text(raw, &c),
        "[workspace]\nmembers = [\n    \"core\",\n    \"utils/utils\",\n    \"utils/other\",\n]\n\n[workspace.dependencies]\nlemurclaw-utils = { path = \"utils/utils\" }\nserde = \"1\"\n"
    );
}

#[test]
fn protocol_refs_and_use_lines() {
    assert_eq!(
        rewrite_protocol_refs("crate::protocol::ExecParams; crate::protocol::models::X; crate::protocol::"),
        "crate::exec_server_protocol::ExecParams; crate::protocol::models::X; crate::protocol::"
    );
    assert_eq!(
        fix_use_crate_lines("  use lemurclaw_core::a;\nlet x = lemurclaw_core::b;\n"),
        "  use crate::a;\nlet x = lemurclaw_core::b;"
    );
}

#[test]
fn fixed_repairs() {
    assert_eq!(
        tool_call_export_text("mod router;\n", Some("pub struct ToolCall {}")),
        Some("pub use router::ToolCall;\nmod router;\n".to_string())
    );
    assert_eq!(tool_call_export_text("pub use router::ToolCall;\n", Some("pub enum ToolCall {}")), None);
    assert_eq!(tool_call_export_text("mod router;\n", None), None);
    assert_eq!(tui_frames_text("include_str!(\"../frames/a.txt\")"), "include_str!(\"frames/a.txt\")");
    assert_eq!(
        tui_cargo_deps_text("anyhow = { workspace = true }\nlemurclaw-server = { workspace = true }\n"),
        "anyhow = { workspace = true }\narboard = { workspace = true }\nlemurclaw-server = { workspace = true }\nlibc = { workspace = true }\n"
    );
}

#[test]
fn reexports_are_added_once() {
    let out = add_reexports_text(ReexportTarget::Sandboxing, "pub mod x;\n\n").unwrap();
    assert_eq!(
        out,
        "pub mod x;\n\n// Re-export core_internal::sandboxing items for downstream crates.\npub use crate::core_internal::sandboxing::ExecRequest;\npub use crate::core_internal::sandboxing::SandboxPermissions;\npub use crate::core_internal::sandboxing::execute_env;\n"
    );
    assert_eq!(add_reexports_text(ReexportTarget::Sandboxing, &out), None);
    let root = add_reexports_text(ReexportTarget::CoreRoot, "mod a;").unwrap();
    assert!(root.starts_with("mod a;\n\n// Re-export key types from core_internal at the crate root"));
    assert!(root.contains("pub use core_internal::CodexThread;\n"));
    assert!(root.ends_with("pub use core_internal::spawn_command_under_linux_sandbox;\n"));
    assert_eq!(add_reexports_text(ReexportTarget::CoreRoot, &root), None);
    assert_eq!(target_file(ReexportTarget::WindowsSandbox), "windows_sandbox/mod.rs");
}

fn s(x: &str) -> Toml {
    Toml::Str(x.to_string())
}

fn table(e: Vec<(&str, Toml)>) -> Toml {
    Toml::Table(e.into_iter().map(|(k, v)| (k.to_string(), v)).collect())
}

fn text(t: &Toml) -> String {
    render_toml_value(t).into_iter().collect()
}

#[test]
fn dependency_specs_unify() {
    let a = table(vec![("features", Toml::Array(vec![s("x"), s("y")])), ("workspace", Toml::Bool(true))]);
    let b = table(vec![("features", Toml::Array(vec![s("y"), s("z")])), ("workspace", Toml::Bool(true))]);
    assert_eq!(text(&unify_dep_value(&a, &b)), "{ features = [\"x\", \"y\", \"z\"], workspace = true }");
    let c = table(vec![("features", Toml::Array(vec![s("q")])), ("version", s("0.12"))]);
    assert_eq!(text(&unify_dep_value(&a, &c)), "{ features = [\"x\", \"y\"], version = \"0.12\" }");
    assert_eq!(text(&unify_dep_value(&c, &b)), "{ features = [\"y\", \"z\"], workspace = true }");
    assert_eq!(text(&unify_dep_value(&s("1"), &s("2"))), "\"2\"");
}

#[test]
fn merged_manifest_and_lib() {
    let c = cluster();
    let m1 = "[dependencies]\nserde = { version = \"1\", features = [\"derive\"] }\nlemurclaw-utils-path = { workspace = true }\n\n[target.'cfg(unix)'.dependencies]\nlibc = \"0.2\"\n".to_string();
    let m2 = "[dependencies]\nserde = { version = \"1\", features = [\"rc\"] }\nanyhow = \"1\"\n\n[dev-dependencies]\ntempfile = \"3\"\n".to_string();
    let agg: AggregateDeps = collect_aggregate_deps(&[m1, m2], &c).ok().unwrap();
    assert_eq!(
        merged_cargo_toml(&agg, &c),
        "[package]\nname = \"lemurclaw-utils\"\nversion.workspace = true\nedition.workspace = true\nlicense.workspace = true\n\n[lints]\nworkspace = true\n\n[dependencies]\nanyhow = \"1\"\nserde = { features = [\"derive\", \"rc\"], version = \"1\" }\n\n[dev-dependencies]\ntempfile = \"3\"\n[target.'cfg(unix)'.dependencies]\nlibc = \"0.2\"\n\n\n[lib]\nname = \"lemurclaw_utils\"\ndoctest = false\n"
    );
    assert!(collect_aggregate_deps(&["= =".to_string()], &c).is_err());
    assert_eq!(
        merged_lib_rs(&c, Some("host")),
        "//! Merged `lemurclaw-utils` crate — union of former sub-crates, each as `pub mod`.\npub mod host;\npub mod cache;\npub mod path_utils;\n"
    );
    assert_eq!(merged_lib_rs(&utils_cluster(), None).lines().count(), utils_cluster().members.len() + 1);
}

#[test]
fn local_modules_are_read_from_mod_declarations() {
    let m = "mod a;\npub mod b;\n  pub(crate) mod c;\nmod inline {\n}\npub use a::X;\nmod bad-name;\nmod ;\n#[cfg(test)]\nmod tests;\n";
    assert_eq!(collect_local_mods_text(m), vec!["a", "b", "c", "inline", "tests"]);
    assert!(collect_local_mods_text("").is_empty());
}

#[test]
fn host_manifest_dependencies_join_the_aggregate() {
    let c = cluster();
    let m1 = "[dependencies]\nserde = { version = \"1\", features = [\"derive\"] }\n".to_string();
    let mut agg: AggregateDeps = collect_aggregate_deps(&[m1], &c).ok().unwrap();
    merge_host_manifest_deps(&mut agg, "[dependencies]\nanyhow = \"1\"\nlemurclaw-utils = \"0\"\n[dev-dependencies]\nx = \"1\"\n", &c);
    let keys: Vec<&str> = agg.deps.iter().map(|(k, _)| k.as_str()).collect();
    assert_eq!(keys, vec!["anyhow", "serde"]);
    assert!(agg.dev_deps.is_empty());
    merge_host_manifest_deps(&mut agg, "= not toml", &c);
    assert_eq!(agg.deps.len(), 2);
}

#[test]
fn the_merge_plan_refuses_what_it_must() {
    let c = cluster();
    let all = vec![true; c.members.len()];
    let mut some = all.clone();
    some[0] = false;
    assert!(matches!(bundle_plan(&c, false, &all, false, false, false), BundlePlan::SourceMissing));
    match bundle_plan(&c, true, &some, false, false, false) {
        BundlePlan::MissingMembers(v) => assert_eq!(v, vec![c.members[0].dir.clone()]),
        _ => panic!("expected missing members"),
    }
    assert!(matches!(bundle_plan(&c, true, &all, true, true, true), BundlePlan::DryRun));
    assert!(matches!(bundle_plan(&c, true, &all, false, true, true), BundlePlan::MergedDirExists));
    assert!(matches!(bundle_plan(&c, true, &all, false, false, false), BundlePlan::Proceed { host_module: None }));
    let mut host = cluster();
    host.source_subdir = "";
    match bundle_plan(&host, true, &all, false, true, true) {
        BundlePlan::Proceed { host_module } => assert_eq!(host_module, Some(format!("{}_internal", host.name))),
        _ => panic!("expected to proceed"),
    }
    assert!(build_rs_is_trivial("fn main() {\n    println!(\"cargo:rerun-if-env-changed=X\");\n}\n"));
    assert!(!build_rs_is_trivial("fn main() {\n    println!(\"cargo:rustc-link-arg=-ObjC\");\n}\n"));
}
