//! Re-exports added after the core merge: the crate root and some member
//! modules of the merged core crate re-export what downstream crates
//! import from them. Each addition is made once: a file that already has
//! its marker line is left alone.

use vstd::prelude::*;
use crate::text::{contains, contains_seq, extend, extend_lit, from_chars, lemma_find_from, matches_at, to_chars, trim_end, trim_end_vec};

verus! {

/// A file of the merged core crate that gets re-exports.
#[derive(Debug, Clone, Copy, PartialEq, Eq, Structural)]
pub enum ReexportTarget {
    CoreRoot,
    Config,
    Sandboxing,
    Skills,
    Connectors,
    WindowsSandbox,
}

pub const CORE_ROOT_FILE: &'static str = "lib.rs";
pub const CORE_ROOT_HEAD: &'static str = "\n// Re-export key types from core_internal at the crate root for downstream\n// crates that previously imported them from codex-core's root.\n";
pub const CORE_ROOT_MARKER: &'static str = "pub use core_internal::CodexThread;";
pub const CORE_ROOT_REST: &'static str = "\npub use core_internal::context;\npub use core_internal::NewThread;\npub use core_internal::StartThreadOptions;\npub use core_internal::ThreadManager;\npub use core_internal::image_generation_artifact_path;\npub use core_internal::parse_turn_item;\npub use core_internal::web_search_action_detail;\npub use core_internal::X_CODEX_TURN_METADATA_HEADER;\npub use core_internal::AttestationContext;\npub use core_internal::AttestationProvider;\npub use core_internal::GenerateAttestationFuture;\npub use core_internal::ExecPolicyError;\npub use core_internal::check_execpolicy_for_warnings;\npub use core_internal::resolve_installation_id;\npub use core_internal::exec;\npub use core_internal::path_utils;\npub use core_internal::CodexThreadSettingsOverrides;\npub use core_internal::ForkSnapshot;\npub use core_internal::INTERACTIVE_SESSION_SOURCES;\npub use core_internal::McpManager;\npub use core_internal::SleepFuture;\npub use core_internal::SteerInputError;\npub use core_internal::ThreadConfigSnapshot;\npub use core_internal::TimeFuture;\npub use core_internal::TimeProvider;\npub use core_internal::ModelClient;\npub use core_internal::Prompt;\npub use core_internal::ResponseEvent;\npub use core_internal::RolloutRecorder;\npub use core_internal::content_items_to_text;\npub use core_internal::detached_memory_responses_metadata;\npub use core_internal::otel_init;\npub use core_internal::truncate_rollout_after_turn_id;\npub use core_internal::truncate_rollout_before_turn_id;\npub use core_internal::util;\npub use core_internal::exec_env;\npub use core_internal::CodexAppsToolsCache;\npub use core_internal::review_prompts;\npub use core_internal::local_agent_graph_store_from_state_db;\npub use core_internal::build_models_manager;\npub use core_internal::thread_store_from_config;\npub use core_internal::LoadedAgentsMd;\npub use core_internal::StateDbHandle;\npub use core_internal::ThreadShutdownReport;\npub use core_internal::find_thread_meta_by_name_str;\npub use core_internal::format_exec_policy_error_with_source;\npub use core_internal::init_state_db;\npub use core_internal::spawn;\npub use core_internal::spawn_command_under_linux_sandbox;\n";

pub const CONFIG_FILE: &'static str = "config/mod.rs";
pub const CONFIG_HEAD: &'static str = "\n// Re-export core_internal::config items for downstream crates.\n";
pub const CONFIG_MARKER: &'static str = "pub use crate::core_internal::config::find_codex_home";
pub const CONFIG_REST: &'static str = ";\npub use crate::core_internal::config::StartedNetworkProxy;\npub use crate::core_internal::config::ConfigOverrides;\npub use crate::core_internal::config::deserialize_config_toml_with_base;\npub use crate::core_internal::config::edit;\npub use crate::core_internal::config::validate_feature_requirements_for_config_toml;\npub use crate::core_internal::config::permission_profile_catalog;\npub use crate::core_internal::config::ConfigBuilder;\npub use crate::core_internal::config::set_project_trust_level;\npub use crate::core_internal::config::ConfigTomlLoadResult;\npub use crate::core_internal::config::PermissionProfileSnapshot;\npub use crate::core_internal::config::Permissions;\npub use crate::core_internal::config::TerminalResizeReflowConfig;\npub use crate::core_internal::config::TerminalResizeReflowMaxRows;\npub use crate::core_internal::config::load_config_toml_with_layer_stack;\npub use crate::core_internal::config::resolve_bootstrap_auth_keyring_backend_kind;\npub use crate::core_internal::config::resolve_bootstrap_auth_route_config;\npub use crate::core_internal::config::resolve_oss_provider;\npub use crate::core_internal::config::resolve_profile_v2_config_path;\npub use crate::core_internal::config::NetworkProxySpec;\npub use crate::core_internal::config::ExtraConfig;\npub use crate::core_internal::config::GhostSnapshotConfig;\npub use crate::core_internal::config::MultiAgentV2Config;\npub use crate::core_internal::config::ThreadStoreConfig;\npub use crate::core_internal::config::log_dir;\npub use crate::sandboxing::system_bwrap_warning;\npub use crate::network_proxy::NetworkProxyAuditMetadata;\n";

pub const SANDBOXING_FILE: &'static str = "sandboxing/mod.rs";
pub const SANDBOXING_HEAD: &'static str = "\n// Re-export core_internal::sandboxing items for downstream crates.\n";
pub const SANDBOXING_MARKER: &'static str = "pub use crate::core_internal::sandboxing::ExecRequest";
pub const SANDBOXING_REST: &'static str = ";\npub use crate::core_internal::sandboxing::SandboxPermissions;\npub use crate::core_internal::sandboxing::execute_env;\n";

pub const SKILLS_FILE: &'static str = "skills/mod.rs";
pub const SKILLS_HEAD: &'static str = "\n// Re-export core_internal skills types for downstream crates.\npub use crate::core_skills::SkillsLoadInput;\npub use crate::core_skills::SkillsService;\n";
pub const SKILLS_MARKER: &'static str = "pub use crate::core_internal::skills::SkillMetadata";
pub const SKILLS_REST: &'static str = ";\npub use crate::core_internal::skills::SkillError;\n";

pub const CONNECTORS_FILE: &'static str = "connectors/mod.rs";
pub const CONNECTORS_HEAD: &'static str = "\n// Re-export core_internal connector functions for downstream crates.\n";
pub const CONNECTORS_MARKER: &'static str = "pub use crate::core_internal::connectors::AccessibleConnectorsStatus";
pub const CONNECTORS_REST: &'static str = ";\npub use crate::core_internal::connectors::list_accessible_connectors_from_mcp_tools;\npub use crate::core_internal::connectors::list_accessible_connectors_from_mcp_tools_with_environment_manager;\npub use crate::core_internal::connectors::list_accessible_connectors_from_mcp_tools_with_mcp_manager;\npub use crate::core_internal::connectors::list_accessible_connectors_from_mcp_tools_with_options;\npub use crate::core_internal::connectors::list_accessible_connectors_from_mcp_tools_with_options_and_status;\npub use crate::core_internal::connectors::list_cached_accessible_connectors_from_mcp_tools;\npub use crate::core_internal::connectors::with_app_enabled_state;\n";

pub const WINDOWS_SANDBOX_FILE: &'static str = "windows_sandbox/mod.rs";
pub const WINDOWS_SANDBOX_HEAD: &'static str = "\n// Re-export core_internal windows_sandbox types for downstream crates.\n";
pub const WINDOWS_SANDBOX_MARKER: &'static str = "pub use crate::core_internal::windows_sandbox::WindowsSandboxLevelExt";
pub const WINDOWS_SANDBOX_REST: &'static str = ";\npub use crate::core_internal::windows_sandbox::WindowsSandboxSetupMode;\npub use crate::core_internal::windows_sandbox::WindowsSandboxSetupRequest;\npub use crate::core_internal::windows_sandbox::sandbox_setup_is_complete;\npub use crate::core_internal::windows_sandbox::run_windows_sandbox_setup;\n";

/// The file, relative to the crate's `src/`.
pub open spec fn spec_file(t: ReexportTarget) -> Seq<char> {
    match t {
        ReexportTarget::CoreRoot => CORE_ROOT_FILE@,
        ReexportTarget::Config => CONFIG_FILE@,
        ReexportTarget::Sandboxing => SANDBOXING_FILE@,
        ReexportTarget::Skills => SKILLS_FILE@,
        ReexportTarget::Connectors => CONNECTORS_FILE@,
        ReexportTarget::WindowsSandbox => WINDOWS_SANDBOX_FILE@,
    }
}

pub fn target_file(t: ReexportTarget) -> (r: &'static str)
    ensures
        r@ == spec_file(t),
{
    match t {
        ReexportTarget::CoreRoot => CORE_ROOT_FILE,
        ReexportTarget::Config => CONFIG_FILE,
        ReexportTarget::Sandboxing => SANDBOXING_FILE,
        ReexportTarget::Skills => SKILLS_FILE,
        ReexportTarget::Connectors => CONNECTORS_FILE,
        ReexportTarget::WindowsSandbox => WINDOWS_SANDBOX_FILE,
    }
}

/// What the block holds before its marker line.
pub open spec fn spec_head(t: ReexportTarget) -> Seq<char> {
    match t {
        ReexportTarget::CoreRoot => CORE_ROOT_HEAD@,
        ReexportTarget::Config => CONFIG_HEAD@,
        ReexportTarget::Sandboxing => SANDBOXING_HEAD@,
        ReexportTarget::Skills => SKILLS_HEAD@,
        ReexportTarget::Connectors => CONNECTORS_HEAD@,
        ReexportTarget::WindowsSandbox => WINDOWS_SANDBOX_HEAD@,
    }
}

pub fn target_head(t: ReexportTarget) -> (r: &'static str)
    ensures
        r@ == spec_head(t),
{
    match t {
        ReexportTarget::CoreRoot => CORE_ROOT_HEAD,
        ReexportTarget::Config => CONFIG_HEAD,
        ReexportTarget::Sandboxing => SANDBOXING_HEAD,
        ReexportTarget::Skills => SKILLS_HEAD,
        ReexportTarget::Connectors => CONNECTORS_HEAD,
        ReexportTarget::WindowsSandbox => WINDOWS_SANDBOX_HEAD,
    }
}

/// The line whose presence means the block is there.
pub open spec fn spec_marker(t: ReexportTarget) -> Seq<char> {
    match t {
        ReexportTarget::CoreRoot => CORE_ROOT_MARKER@,
        ReexportTarget::Config => CONFIG_MARKER@,
        ReexportTarget::Sandboxing => SANDBOXING_MARKER@,
        ReexportTarget::Skills => SKILLS_MARKER@,
        ReexportTarget::Connectors => CONNECTORS_MARKER@,
        ReexportTarget::WindowsSandbox => WINDOWS_SANDBOX_MARKER@,
    }
}

pub fn target_marker(t: ReexportTarget) -> (r: &'static str)
    ensures
        r@ == spec_marker(t),
{
    match t {
        ReexportTarget::CoreRoot => CORE_ROOT_MARKER,
        ReexportTarget::Config => CONFIG_MARKER,
        ReexportTarget::Sandboxing => SANDBOXING_MARKER,
        ReexportTarget::Skills => SKILLS_MARKER,
        ReexportTarget::Connectors => CONNECTORS_MARKER,
        ReexportTarget::WindowsSandbox => WINDOWS_SANDBOX_MARKER,
    }
}

/// What the block holds after its marker.
pub open spec fn spec_rest(t: ReexportTarget) -> Seq<char> {
    match t {
        ReexportTarget::CoreRoot => CORE_ROOT_REST@,
        ReexportTarget::Config => CONFIG_REST@,
        ReexportTarget::Sandboxing => SANDBOXING_REST@,
        ReexportTarget::Skills => SKILLS_REST@,
        ReexportTarget::Connectors => CONNECTORS_REST@,
        ReexportTarget::WindowsSandbox => WINDOWS_SANDBOX_REST@,
    }
}

pub fn target_rest(t: ReexportTarget) -> (r: &'static str)
    ensures
        r@ == spec_rest(t),
{
    match t {
        ReexportTarget::CoreRoot => CORE_ROOT_REST,
        ReexportTarget::Config => CONFIG_REST,
        ReexportTarget::Sandboxing => SANDBOXING_REST,
        ReexportTarget::Skills => SKILLS_REST,
        ReexportTarget::Connectors => CONNECTORS_REST,
        ReexportTarget::WindowsSandbox => WINDOWS_SANDBOX_REST,
    }
}

/// The block appended to the target file: a comment, then one `pub use`
/// line per re-exported item.
pub open spec fn spec_block(t: ReexportTarget) -> Seq<char> {
    spec_head(t) + spec_marker(t) + spec_rest(t)
}

/// The file with the block appended after its text without trailing
/// whitespace and a newline; none when the file already has the marker.
pub open spec fn spec_add_reexports(t: ReexportTarget, raw: Seq<char>) -> Option<Seq<char>> {
    if contains(raw, spec_marker(t)) {
        None
    } else {
        Some(trim_end(raw) + "\n"@ + spec_block(t))
    }
}

/// See [`spec_add_reexports`].
pub fn add_reexports_text(t: ReexportTarget, raw: &str) -> (r: Option<String>)
    ensures
        match r {
            Some(s) => spec_add_reexports(t, raw@) == Some(s@),
            None => spec_add_reexports(t, raw@) is None,
        },
{
    let rc = to_chars(raw);
    if contains_seq(&rc, &to_chars(target_marker(t))) {
        return None;
    }
    let mut v = trim_end_vec(&rc);
    extend_lit(&mut v, "\n");
    extend_lit(&mut v, target_head(t));
    extend_lit(&mut v, target_marker(t));
    extend_lit(&mut v, target_rest(t));
    assert(v@ =~= trim_end(raw@) + "\n"@ + spec_block(t));
    Some(from_chars(&v))
}

/// A text holds any part it is built around.
pub proof fn lemma_contains_middle(a: Seq<char>, m: Seq<char>, b: Seq<char>)
    ensures
        contains(a + m + b, m),
{
    let s = a + m + b;
    assert(s.subrange(a.len() as int, (a.len() + m.len()) as int) =~= m);
    assert(matches_at(s, a.len() as int, m));
    lemma_find_from(s, m, 0);
}

/// Adding a block twice adds it once: the text with the block has the
/// marker.
pub proof fn lemma_add_reexports_once(t: ReexportTarget, raw: Seq<char>)
    ensures
        spec_add_reexports(t, raw) matches Some(out) ==> spec_add_reexports(t, out) is None,
{
    if !contains(raw, spec_marker(t)) {
        lemma_contains_middle(trim_end(raw) + "\n"@ + spec_head(t), spec_marker(t), spec_rest(t));
        assert(trim_end(raw) + "\n"@ + spec_block(t) =~= trim_end(raw) + "\n"@ + spec_head(t) + spec_marker(t) + spec_rest(t));
    }
}

} // verus!
