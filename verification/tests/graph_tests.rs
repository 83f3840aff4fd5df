use lemurclaw::cluster::{
    cli_cluster, extensions_cluster, ident_to_module, merge_crates, merge_dirs, server_cluster,
    standalone_crates, sub_crates, tui_cluster, utils_cluster,
};
use lemurclaw::graph::{
    core_cluster_from_graph, dep_graph_from_metadata_text, graph_is_well_formed, parse_dep_graph, parse_metadata, GraphError, text_lt_exec, transitive_closure,
    PackageInfo,
};
use lemurclaw::json::Json;

fn node(name: &str, deps: &[&str], dir: &str, pm: bool) -> (String, PackageInfo) {
    (
        name.to_string(),
        PackageInfo { deps: deps.iter().map(|d| d.to_string()).collect(), dir: dir.to_string(), is_proc_macro: pm },
    )
}

fn sample() -> Vec<(String, PackageInfo)> {
    vec![
        node("codex-core", &["codex-protocol", "codex-macros"], "core", false),
        node("codex-protocol", &[], "protocol", false),
        node("codex-macros", &[], "macros", true),
        node("codex-utils-string", &[], "utils/string", false),
        node("codex-utils-x", &["codex-tui"], "utils/x", false),
        node("codex-tui", &["codex-core"], "tui", false),
        node("codex-lmstudio", &["codex-core", "codex-utils-string"], "lmstudio", false),
    ]
}

fn sorted(mut v: Vec<String>) -> Vec<String> {
    v.sort();
    v
}

#[test]
fn closure_follows_dependencies() {
    let g = sample();
    let c = sorted(transitive_closure(&g, "codex-tui"));
    assert_eq!(c, vec!["codex-core", "codex-macros", "codex-protocol", "codex-tui"]);
    let c = transitive_closure(&g, "codex-unknown");
    assert_eq!(c, vec!["codex-unknown".to_string()]);
}

#[test]
fn core_cluster_folds_in_candidates_and_drops_proc_macros() {
    let g = sample();
    assert!(graph_is_well_formed(&g));
    let c = core_cluster_from_graph(&g);
    assert_eq!(c.name, "core");
    assert_eq!(c.merged_package, "lemurclaw-core");
    let members: Vec<(String, String, String)> =
        c.members.iter().map(|m| (m.dir.clone(), m.package.clone(), m.module.clone())).collect();
    assert_eq!(
        members,
        vec![
            ("lmstudio".to_string(), "lemurclaw-lmstudio".to_string(), "lmstudio".to_string()),
            ("protocol".to_string(), "lemurclaw-protocol".to_string(), "protocol".to_string()),
            ("utils/string".to_string(), "lemurclaw-utils-string".to_string(), "utils_string".to_string()),
        ]
    );
}

#[test]
fn graph_with_unknown_dependency_is_not_well_formed() {
    let g = vec![node("codex-core", &["codex-missing"], "core", false)];
    assert!(!graph_is_well_formed(&g));
    let g = vec![node("codex-core", &["serde"], "core", false), node("serde", &[], "", false)];
    assert!(!graph_is_well_formed(&g));
}

fn s(x: &str) -> Json {
    Json::Str(x.to_string())
}

fn obj(entries: Vec<(&str, Json)>) -> Json {
    Json::Object(entries.into_iter().map(|(k, v)| (k.to_string(), v)).collect())
}

#[test]
fn metadata_is_read_into_a_graph() {
    let metadata = obj(vec![(
        "packages",
        Json::Array(vec![
            obj(vec![
                ("name", s("codex-core")),
                ("manifest_path", s("/r/core/Cargo.toml")),
                (
                    "dependencies",
                    Json::Array(vec![
                        obj(vec![("name", s("codex-protocol")), ("kind", Json::Null)]),
                        obj(vec![("name", s("serde"))]),
                        obj(vec![("name", s("codex-test")), ("kind", s("dev"))]),
                    ]),
                ),
                ("targets", Json::Array(vec![obj(vec![("kind", Json::Array(vec![s("lib")]))])])),
            ]),
            obj(vec![
                ("name", s("codex-macros")),
                ("manifest_path", s("/r/macros/Cargo.toml")),
                ("dependencies", Json::Array(vec![])),
                ("targets", Json::Array(vec![obj(vec![("kind", Json::Array(vec![s("proc-macro")]))])])),
            ]),
            obj(vec![("manifest_path", s("/r/nameless/Cargo.toml"))]),
        ]),
    )]);
    let g = parse_dep_graph(&metadata, "/r").ok().unwrap();
    assert_eq!(g.len(), 2);
    assert_eq!(g[0].0, "codex-core");
    assert_eq!(g[0].1.deps, vec!["codex-protocol".to_string()]);
    assert_eq!(g[0].1.dir, "core");
    assert!(!g[0].1.is_proc_macro);
    assert_eq!(g[1].0, "codex-macros");
    assert_eq!(g[1].1.dir, "macros");
    assert!(g[1].1.is_proc_macro);

    assert!(parse_dep_graph(&obj(vec![("packages", s("x"))]), "/r").is_err());
    assert!(parse_dep_graph(&Json::Null, "/r").is_err());
}

#[test]
fn text_order_is_by_code_point() {
    let c = |x: &str| x.chars().collect::<Vec<char>>();
    assert!(text_lt_exec(&c("a"), &c("b")));
    assert!(text_lt_exec(&c("ab"), &c("abc")));
    assert!(!text_lt_exec(&c("abc"), &c("ab")));
    assert!(!text_lt_exec(&c("x"), &c("x")));
    assert!(text_lt_exec(&c("Z"), &c("a")));
}

#[test]
fn fixed_clusters() {
    assert_eq!(extensions_cluster().merged_package, "lemurclaw-extensions");
    assert_eq!(server_cluster().merged_member_path, "server");
    assert_eq!(tui_cluster().merged_package, "lemurclaw-tui");
    assert_eq!(cli_cluster().merged_package, "lemurclaw");
    let u = utils_cluster();
    assert_eq!(u.merged_member_path, "utils/utils");
    assert_eq!(u.sub_crate_ident_prefix(), "lemurclaw_utils_");
    assert!(u.contains_package("lemurclaw-utils-string"));
    assert!(!u.contains_package("lemurclaw-core"));
    assert_eq!(u.module_names().len(), u.members.len());
    assert_eq!(u.ident_to_module().len(), u.members.len());
}

#[test]
fn utils_split_into_merged_and_standalone() {
    let all = sub_crates();
    let merged = merge_crates();
    let standalone = standalone_crates();
    assert_eq!(merged.len() + standalone.len(), all.len());
    assert_eq!(merged.len(), merge_dirs().len());
    for m in &merged {
        assert!(merge_dirs().contains(&m.dir.as_str()));
    }
    for s in &standalone {
        assert!(!merge_dirs().contains(&s.dir.as_str()));
    }
    let idents = ident_to_module();
    assert_eq!(idents.len(), all.len());
    assert_eq!(idents[0], ("lemurclaw_utils_absolute_path".to_string(), "absolute_path".to_string()));
}

#[test]
fn server_and_cli_clusters_hold_the_documented_crates() {
    let s = server_cluster();
    assert_eq!(s.merged_package, "lemurclaw-server");
    assert_eq!(s.members.len(), 12);
    assert!(s.members.iter().all(|m| m.module != "arg0" && m.module != "process_hardening"));
    let c = cli_cluster();
    assert_eq!(c.members.len(), 14);
    let modules: Vec<&str> = c.members.iter().map(|m| m.module.as_str()).collect();
    for m in ["arg0", "chatgpt", "home", "uds", "linux_sandbox", "process_hardening"] {
        assert!(modules.contains(&m), "{m}");
    }
}

#[test]
fn metadata_text_is_read_into_a_graph() {
    let text = r#"{"packages":[{"name":"codex-a","manifest_path":"/w/codex-rs/a/Cargo.toml","dependencies":[{"name":"codex-b"},{"name":"serde"},{"name":"codex-c","kind":"dev"}],"targets":[]}]}"#;
    assert!(parse_metadata(text).is_some());
    assert!(parse_metadata("not json").is_none());
    let g = dep_graph_from_metadata_text(text, "/w/codex-rs").ok().unwrap();
    assert_eq!(g.len(), 1);
    assert_eq!(g[0].0, "codex-a");
    assert_eq!(g[0].1.deps, vec!["codex-b".to_string()]);
    assert_eq!(g[0].1.dir, "a");
    assert_eq!(dep_graph_from_metadata_text("{", "/w").err(), Some(GraphError::Json));
    assert_eq!(dep_graph_from_metadata_text("{\"x\":1}", "/w").err(), Some(GraphError::PackagesMissing));
}
