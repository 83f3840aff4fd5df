use lemurclaw::fixups::{
    add_host_reexport, add_module_decl, build_rs_is_trivial, declares_public, fix_reqwest_tls_text, host_module_name, merged_leaf,
    reexport_module_text, split_last_path, unify_reqwest_member_text, unify_reqwest_workspace_text,
};

#[test]
fn workspace_reqwest_moves_to_0_13() {
    let raw = "[workspace.dependencies]\nreqwest = { features = [\"cookies\"], version = \"0.12\" }\nserde = \"1\"\n";
    assert_eq!(
        unify_reqwest_workspace_text(raw),
        "[workspace.dependencies]\nreqwest = { features = [\"blocking\", \"cookies\", \"query\"], version = \"0.13\" }\nserde = \"1\"\n"
    );
    assert_eq!(unify_reqwest_workspace_text("reqwest = \"0.11\"\n"), "reqwest = \"0.11\"\n");
}

#[test]
fn member_reqwest_features_and_pins_follow() {
    let raw = "reqwest = { version = \"0.12\", features = [\"json\", \"rustls-tls\"] }\n";
    assert_eq!(
        unify_reqwest_member_text(raw),
        "reqwest = { version = \"0.13\", features = [\"json\", \"rustls\"] }\n"
    );
}

#[test]
fn root_certificate_store_becomes_certs_only() {
    let a = "builder\n            .tls_built_in_root_certs(false)\n            .add_root_certificate(certificate);\n";
    assert_eq!(fix_reqwest_tls_text(a), "builder\n            .tls_certs_only(std::iter::once(certificate));\n");
    let b = "b.tls_built_in_root_certs(false).add_root_certificate(certificate);";
    assert_eq!(fix_reqwest_tls_text(b), "b.tls_certs_only(std::iter::once(certificate));");
    assert_eq!(fix_reqwest_tls_text("unrelated"), "unrelated");
}

#[test]
fn paths_split_at_their_last_separator() {
    assert_eq!(
        split_last_path("app_server_protocol::experimental_api"),
        Some(("app_server_protocol".to_string(), "experimental_api".to_string()))
    );
    assert_eq!(split_last_path("a::b::c"), Some(("a::b".to_string(), "c".to_string())));
    assert_eq!(split_last_path("config"), None);
}

#[test]
fn public_submodule_declarations_are_found() {
    let m = "mod experimental_api;\npub use experimental_api::*;\n  pub mod protocol;\npub(crate) mod jsonrpc;\n";
    assert!(!declares_public(m, "experimental_api"));
    assert!(declares_public(m, "protocol"));
    assert!(declares_public(m, "jsonrpc"));
    assert!(!declares_public(m, "other"));
}

#[test]
fn reexport_target_is_the_parent_of_a_private_submodule() {
    let private = "mod experimental_api;\npub use experimental_api::*;\n";
    assert_eq!(
        reexport_module_text("app_server_protocol::experimental_api", true, Some(private)),
        "pub use crate::app_server_protocol::*;\n"
    );
    let public = "pub mod experimental_api;\n";
    assert_eq!(
        reexport_module_text("app_server_protocol::experimental_api", true, Some(public)),
        "pub use crate::app_server_protocol::experimental_api::*;\n"
    );
    assert_eq!(
        reexport_module_text("app_server_protocol::experimental_api", false, Some(private)),
        "pub use crate::app_server_protocol::experimental_api::*;\n"
    );
    assert_eq!(
        reexport_module_text("app_server_protocol::experimental_api", true, None),
        "pub use crate::app_server_protocol::experimental_api::*;\n"
    );
    assert_eq!(reexport_module_text("config", true, Some(private)), "pub use crate::config::*;\n");
}

#[test]
fn declarations_are_appended_once() {
    assert_eq!(add_module_decl("pub mod a;\n\n", "experimental_api"), Some("pub mod a;\npub mod experimental_api;\n".to_string()));
    assert_eq!(add_module_decl("pub mod experimental_api;\n", "experimental_api"), None);
    assert_eq!(
        add_host_reexport("mod x;\n", "config", "Config"),
        Some("mod x;\npub use crate::core_internal::config::Config;\n".to_string())
    );
    assert_eq!(add_host_reexport("pub use crate::core_internal::config::Config;\n", "config", "Config"), None);
}

#[test]
fn build_scripts_that_only_rerun_are_trivial() {
    assert!(build_rs_is_trivial("fn main() {\n    println!(\"cargo:rerun-if-env-changed=X\");\n}\n"));
    assert!(build_rs_is_trivial(""));
    assert!(!build_rs_is_trivial("fn main() {\n    println!(\"cargo:rustc-link-arg=-ObjC\");\n}\n"));
}

#[test]
fn merged_crate_names() {
    assert_eq!(merged_leaf("utils"), "utils");
    assert_eq!(merged_leaf("codex-rs/core"), "core");
    assert_eq!(merged_leaf("a/b/"), "");
    assert_eq!(host_module_name("core"), "core_internal");
}
