//! The crate clusters folded into merged crates: the utils crates, the
//! extensions, the server layer, the terminal UI and the command line; the
//! lookups the rewrites use; and the dependency-graph closure the core
//! cluster is computed from.

use vstd::prelude::*;
use crate::text::{contains_seq, extend_lit, from_chars, replace_all, replace_vec, seq_eq, to_chars};

verus! {

/// One crate folded into a merged crate: its directory, its package name
/// and the module it becomes.
pub struct SubCrate {
    pub dir: String,
    pub package: String,
    pub module: String,
}

/// A merge plan: the cluster's name, where its crates live, the merged
/// crate's member path, package and library identifier, and the crates
/// folded in.
pub struct Cluster {
    pub name: &'static str,
    pub source_subdir: &'static str,
    pub merged_member_path: &'static str,
    pub merged_package: &'static str,
    pub merged_lib_ident: &'static str,
    pub members: Vec<SubCrate>,
}

pub open spec fn sub_view(s: SubCrate) -> (Seq<char>, Seq<char>, Seq<char>) {
    (s.dir@, s.package@, s.module@)
}

pub open spec fn members_view(v: Seq<SubCrate>) -> Seq<(Seq<char>, Seq<char>, Seq<char>)> {
    v.map_values(|s: SubCrate| sub_view(s))
}

fn sub_crate(dir: &str, package: &str, module: &str) -> (r: SubCrate)
    ensures
        sub_view(r) == (dir@, package@, module@),
{
    SubCrate { dir: dir.to_owned(), package: package.to_owned(), module: module.to_owned() }
}

/// The utils crates, in the order of the source workspace's member list.
pub open spec fn spec_sub_crates() -> Seq<(Seq<char>, Seq<char>, Seq<char>)> {
    seq![
        ("absolute-path"@, "lemurclaw-utils-absolute-path"@, "absolute_path"@),
        ("approval-presets"@, "lemurclaw-utils-approval-presets"@, "approval_presets"@),
        ("cache"@, "lemurclaw-utils-cache"@, "cache"@),
        ("cargo-bin"@, "lemurclaw-utils-cargo-bin"@, "cargo_bin"@),
        ("cli"@, "lemurclaw-utils-cli"@, "cli"@),
        ("elapsed"@, "lemurclaw-utils-elapsed"@, "elapsed"@),
        ("fuzzy-match"@, "lemurclaw-utils-fuzzy-match"@, "fuzzy_match"@),
        ("home-dir"@, "lemurclaw-utils-home-dir"@, "home_dir"@),
        ("image"@, "lemurclaw-utils-image"@, "image"@),
        ("json-to-toml"@, "lemurclaw-utils-json-to-toml"@, "json_to_toml"@),
        ("oss"@, "lemurclaw-utils-oss"@, "oss"@),
        ("output-truncation"@, "lemurclaw-utils-output-truncation"@, "output_truncation"@),
        ("path-uri"@, "lemurclaw-utils-path-uri"@, "path_uri"@),
        ("path-utils"@, "lemurclaw-utils-path"@, "path"@),
        ("plugins"@, "lemurclaw-utils-plugins"@, "plugins"@),
        ("pty"@, "lemurclaw-utils-pty"@, "pty"@),
        ("readiness"@, "lemurclaw-utils-readiness"@, "readiness"@),
        ("rustls-provider"@, "lemurclaw-utils-rustls-provider"@, "rustls_provider"@),
        ("sandbox-summary"@, "lemurclaw-utils-sandbox-summary"@, "sandbox_summary"@),
        ("sleep-inhibitor"@, "lemurclaw-utils-sleep-inhibitor"@, "sleep_inhibitor"@),
        ("stream-parser"@, "lemurclaw-utils-stream-parser"@, "stream_parser"@),
        ("string"@, "lemurclaw-utils-string"@, "string"@),
        ("template"@, "lemurclaw-utils-template"@, "template"@),
    ]
}

/// See [`spec_sub_crates`].
#[verifier::rlimit(50)]
pub fn sub_crates() -> (r: Vec<SubCrate>)
    ensures
        members_view(r@) == spec_sub_crates(),
{
    let v = vec![
        sub_crate("absolute-path", "lemurclaw-utils-absolute-path", "absolute_path"),
        sub_crate("approval-presets", "lemurclaw-utils-approval-presets", "approval_presets"),
        sub_crate("cache", "lemurclaw-utils-cache", "cache"),
        sub_crate("cargo-bin", "lemurclaw-utils-cargo-bin", "cargo_bin"),
        sub_crate("cli", "lemurclaw-utils-cli", "cli"),
        sub_crate("elapsed", "lemurclaw-utils-elapsed", "elapsed"),
        sub_crate("fuzzy-match", "lemurclaw-utils-fuzzy-match", "fuzzy_match"),
        sub_crate("home-dir", "lemurclaw-utils-home-dir", "home_dir"),
        sub_crate("image", "lemurclaw-utils-image", "image"),
        sub_crate("json-to-toml", "lemurclaw-utils-json-to-toml", "json_to_toml"),
        sub_crate("oss", "lemurclaw-utils-oss", "oss"),
        sub_crate("output-truncation", "lemurclaw-utils-output-truncation", "output_truncation"),
        sub_crate("path-uri", "lemurclaw-utils-path-uri", "path_uri"),
        sub_crate("path-utils", "lemurclaw-utils-path", "path"),
        sub_crate("plugins", "lemurclaw-utils-plugins", "plugins"),
        sub_crate("pty", "lemurclaw-utils-pty", "pty"),
        sub_crate("readiness", "lemurclaw-utils-readiness", "readiness"),
        sub_crate("rustls-provider", "lemurclaw-utils-rustls-provider", "rustls_provider"),
        sub_crate("sandbox-summary", "lemurclaw-utils-sandbox-summary", "sandbox_summary"),
        sub_crate("sleep-inhibitor", "lemurclaw-utils-sleep-inhibitor", "sleep_inhibitor"),
        sub_crate("stream-parser", "lemurclaw-utils-stream-parser", "stream_parser"),
        sub_crate("string", "lemurclaw-utils-string", "string"),
        sub_crate("template", "lemurclaw-utils-template", "template"),
    ];
    assert(members_view(v@) =~= spec_sub_crates());
    v
}

/// The directories of the utils crates folded into `lemurclaw-utils`; the
/// others depend on heavier crates that depend on utils, and stay
/// standalone to avoid a cycle.
pub open spec fn spec_merge_dirs() -> Seq<Seq<char>> {
    seq!["absolute-path"@, "cache"@, "cargo-bin"@, "elapsed"@, "fuzzy-match"@, "home-dir"@, "image"@, "json-to-toml"@, "path-uri"@, "path-utils"@, "pty"@, "readiness"@, "rustls-provider"@, "sleep-inhibitor"@, "stream-parser"@, "string"@, "template"@]
}

/// See [`spec_merge_dirs`].
pub fn merge_dirs() -> (r: Vec<&'static str>)
    ensures
        r@.map_values(|s: &str| s@) == spec_merge_dirs(),
{
    let v = vec!["absolute-path", "cache", "cargo-bin", "elapsed", "fuzzy-match", "home-dir", "image", "json-to-toml", "path-uri", "path-utils", "pty", "readiness", "rustls-provider", "sleep-inhibitor", "stream-parser", "string", "template"];
    assert(v@.map_values(|s: &str| s@) =~= spec_merge_dirs());
    v
}

/// The extension crates under `ext/`, merged into a fresh `lemurclaw-extensions` crate.
pub open spec fn spec_extensions_members() -> Seq<(Seq<char>, Seq<char>, Seq<char>)> {
    seq![
        ("agent"@, "lemurclaw-agent-extension"@, "agent"@),
        ("connectors"@, "lemurclaw-connectors-extension"@, "connectors"@),
        ("goal"@, "lemurclaw-goal-extension"@, "goal"@),
        ("guardian"@, "lemurclaw-guardian"@, "guardian"@),
        ("image-generation"@, "lemurclaw-image-generation-extension"@, "image_generation"@),
        ("mcp"@, "lemurclaw-mcp-extension"@, "mcp"@),
        ("memories"@, "lemurclaw-memories-extension"@, "memories"@),
        ("skills"@, "lemurclaw-skills-extension"@, "skills"@),
        ("web-search"@, "lemurclaw-web-search-extension"@, "web_search"@),
    ]
}

/// The `extensions` cluster (see [`spec_extensions_members`]).
#[verifier::rlimit(50)]
pub fn extensions_cluster() -> (r: Cluster)
    ensures
        r.name@ == "extensions"@,
        r.source_subdir@ == "ext"@,
        r.merged_member_path@ == "ext/extensions"@,
        r.merged_package@ == "lemurclaw-extensions"@,
        r.merged_lib_ident@ == "lemurclaw_extensions"@,
        members_view(r.members@) == spec_extensions_members(),
{
    let v = vec![
        sub_crate("agent", "lemurclaw-agent-extension", "agent"),
        sub_crate("connectors", "lemurclaw-connectors-extension", "connectors"),
        sub_crate("goal", "lemurclaw-goal-extension", "goal"),
        sub_crate("guardian", "lemurclaw-guardian", "guardian"),
        sub_crate("image-generation", "lemurclaw-image-generation-extension", "image_generation"),
        sub_crate("mcp", "lemurclaw-mcp-extension", "mcp"),
        sub_crate("memories", "lemurclaw-memories-extension", "memories"),
        sub_crate("skills", "lemurclaw-skills-extension", "skills"),
        sub_crate("web-search", "lemurclaw-web-search-extension", "web_search"),
    ];
    assert(members_view(v@) =~= spec_extensions_members());
    Cluster {
        name: "extensions",
        source_subdir: "ext",
        merged_member_path: "ext/extensions",
        merged_package: "lemurclaw-extensions",
        merged_lib_ident: "lemurclaw_extensions",
        members: v,
    }
}

/// The twelve server-layer crates, merged into a fresh `lemurclaw-server`
/// crate.
pub open spec fn spec_server_members() -> Seq<(Seq<char>, Seq<char>, Seq<char>)> {
    seq![
        ("app-server"@, "lemurclaw-app-server"@, "app_server"@),
        ("app-server-transport"@, "lemurclaw-app-server-transport"@, "app_server_transport"@),
        ("app-server-daemon"@, "lemurclaw-app-server-daemon"@, "app_server_daemon"@),
        ("app-server-client"@, "lemurclaw-app-server-client"@, "app_server_client"@),
        ("app-server-test-client"@, "lemurclaw-app-server-test-client"@, "app_server_test_client"@),
        ("backend-client"@, "lemurclaw-backend-client"@, "backend_client"@),
        ("codex-backend-openapi-models"@, "lemurclaw-backend-openapi-models"@, "backend_openapi_models"@),
        ("cloud-config"@, "lemurclaw-cloud-config"@, "cloud_config"@),
        ("cloud-tasks-client"@, "lemurclaw-cloud-tasks-client"@, "cloud_tasks_client"@),
        ("file-watcher"@, "lemurclaw-file-watcher"@, "file_watcher"@),
        ("external-agent-migration"@, "lemurclaw-external-agent-migration"@, "external_agent_migration"@),
        ("memories/write"@, "lemurclaw-memories-write"@, "memories_write"@),
    ]
}

/// The `server` cluster (see [`spec_server_members`]).
#[verifier::rlimit(50)]
pub fn server_cluster() -> (r: Cluster)
    ensures
        r.name@ == "server"@,
        r.source_subdir@ == ""@,
        r.merged_member_path@ == "server"@,
        r.merged_package@ == "lemurclaw-server"@,
        r.merged_lib_ident@ == "lemurclaw_server"@,
        members_view(r.members@) == spec_server_members(),
{
    let v = vec![
        sub_crate("app-server", "lemurclaw-app-server", "app_server"),
        sub_crate("app-server-transport", "lemurclaw-app-server-transport", "app_server_transport"),
        sub_crate("app-server-daemon", "lemurclaw-app-server-daemon", "app_server_daemon"),
        sub_crate("app-server-client", "lemurclaw-app-server-client", "app_server_client"),
        sub_crate("app-server-test-client", "lemurclaw-app-server-test-client", "app_server_test_client"),
        sub_crate("backend-client", "lemurclaw-backend-client", "backend_client"),
        sub_crate("codex-backend-openapi-models", "lemurclaw-backend-openapi-models", "backend_openapi_models"),
        sub_crate("cloud-config", "lemurclaw-cloud-config", "cloud_config"),
        sub_crate("cloud-tasks-client", "lemurclaw-cloud-tasks-client", "cloud_tasks_client"),
        sub_crate("file-watcher", "lemurclaw-file-watcher", "file_watcher"),
        sub_crate("external-agent-migration", "lemurclaw-external-agent-migration", "external_agent_migration"),
        sub_crate("memories/write", "lemurclaw-memories-write", "memories_write"),
    ];
    assert(members_view(v@) =~= spec_server_members());
    Cluster {
        name: "server",
        source_subdir: "",
        merged_member_path: "server",
        merged_package: "lemurclaw-server",
        merged_lib_ident: "lemurclaw_server",
        members: v,
    }
}

/// `ansi-escape` and `message-history`, merged into the existing `lemurclaw-tui` crate.
pub open spec fn spec_tui_members() -> Seq<(Seq<char>, Seq<char>, Seq<char>)> {
    seq![
        ("ansi-escape"@, "lemurclaw-ansi-escape"@, "ansi_escape"@),
        ("message-history"@, "lemurclaw-message-history"@, "message_history"@),
    ]
}

/// The `tui` cluster (see [`spec_tui_members`]).
#[verifier::rlimit(50)]
pub fn tui_cluster() -> (r: Cluster)
    ensures
        r.name@ == "tui"@,
        r.source_subdir@ == ""@,
        r.merged_member_path@ == "tui"@,
        r.merged_package@ == "lemurclaw-tui"@,
        r.merged_lib_ident@ == "lemurclaw_tui"@,
        members_view(r.members@) == spec_tui_members(),
{
    let v = vec![
        sub_crate("ansi-escape", "lemurclaw-ansi-escape", "ansi_escape"),
        sub_crate("message-history", "lemurclaw-message-history", "message_history"),
    ];
    assert(members_view(v@) =~= spec_tui_members());
    Cluster {
        name: "tui",
        source_subdir: "",
        merged_member_path: "tui",
        merged_package: "lemurclaw-tui",
        merged_lib_ident: "lemurclaw_tui",
        members: v,
    }
}

/// The fourteen command-line crates, merged into the existing `lemurclaw-cli`
/// crate.
pub open spec fn spec_cli_members() -> Seq<(Seq<char>, Seq<char>, Seq<char>)> {
    seq![
        ("cloud-tasks"@, "lemurclaw-cloud-tasks"@, "cloud_tasks"@),
        ("cloud-tasks-mock-client"@, "lemurclaw-cloud-tasks-mock-client"@, "cloud_tasks_mock_client"@),
        ("code-mode-host"@, "lemurclaw-code-mode-host"@, "code_mode_host"@),
        ("core-api"@, "lemurclaw-core-api"@, "core_api"@),
        ("exec"@, "lemurclaw-exec"@, "exec"@),
        ("mcp-server"@, "lemurclaw-mcp-server"@, "mcp_server"@),
        ("responses-api-proxy"@, "lemurclaw-responses-api-proxy"@, "responses_api_proxy"@),
        ("stdio-to-uds"@, "lemurclaw-stdio-to-uds"@, "stdio_to_uds"@),
        ("arg0"@, "lemurclaw-arg0"@, "arg0"@),
        ("chatgpt"@, "lemurclaw-chatgpt"@, "chatgpt"@),
        ("codex-home"@, "lemurclaw-home"@, "home"@),
        ("uds"@, "lemurclaw-uds"@, "uds"@),
        ("linux-sandbox"@, "lemurclaw-linux-sandbox"@, "linux_sandbox"@),
        ("process-hardening"@, "lemurclaw-process-hardening"@, "process_hardening"@),
    ]
}

/// The `cli` cluster (see [`spec_cli_members`]).
#[verifier::rlimit(50)]
pub fn cli_cluster() -> (r: Cluster)
    ensures
        r.name@ == "cli"@,
        r.source_subdir@ == ""@,
        r.merged_member_path@ == "cli"@,
        r.merged_package@ == "lemurclaw"@,
        r.merged_lib_ident@ == "lemurclaw"@,
        members_view(r.members@) == spec_cli_members(),
{
    let v = vec![
        sub_crate("cloud-tasks", "lemurclaw-cloud-tasks", "cloud_tasks"),
        sub_crate("cloud-tasks-mock-client", "lemurclaw-cloud-tasks-mock-client", "cloud_tasks_mock_client"),
        sub_crate("code-mode-host", "lemurclaw-code-mode-host", "code_mode_host"),
        sub_crate("core-api", "lemurclaw-core-api", "core_api"),
        sub_crate("exec", "lemurclaw-exec", "exec"),
        sub_crate("mcp-server", "lemurclaw-mcp-server", "mcp_server"),
        sub_crate("responses-api-proxy", "lemurclaw-responses-api-proxy", "responses_api_proxy"),
        sub_crate("stdio-to-uds", "lemurclaw-stdio-to-uds", "stdio_to_uds"),
        sub_crate("arg0", "lemurclaw-arg0", "arg0"),
        sub_crate("chatgpt", "lemurclaw-chatgpt", "chatgpt"),
        sub_crate("codex-home", "lemurclaw-home", "home"),
        sub_crate("uds", "lemurclaw-uds", "uds"),
        sub_crate("linux-sandbox", "lemurclaw-linux-sandbox", "linux_sandbox"),
        sub_crate("process-hardening", "lemurclaw-process-hardening", "process_hardening"),
    ];
    assert(members_view(v@) =~= spec_cli_members());
    Cluster {
        name: "cli",
        source_subdir: "",
        merged_member_path: "cli",
        merged_package: "lemurclaw",
        merged_lib_ident: "lemurclaw",
        members: v,
    }
}

fn copy_sub(s: &SubCrate) -> (r: SubCrate)
    ensures
        sub_view(r) == sub_view(*s),
{
    SubCrate { dir: s.dir.clone(), package: s.package.clone(), module: s.module.clone() }
}

fn strs_contain(v: &Vec<&'static str>, x: &[char]) -> (r: bool)
    ensures
        r == v@.map_values(|s: &str| s@).contains(x@),
{
    let ghost vv = v@.map_values(|s: &str| s@);
    let mut j: usize = 0;
    while j < v.len()
        invariant
            j <= v@.len(),
            vv == v@.map_values(|s: &str| s@),
            forall|t: int| 0 <= t < j ==> vv[t] != x@,
        decreases v@.len() - j,
    {
        assert(vv[j as int] == v@[j as int]@);
        if seq_eq(&to_chars(v[j]), x) {
            assert(vv[j as int] == x@);
            return true;
        }
        j = j + 1;
    }
    false
}

pub open spec fn dirs_of(s: Seq<(Seq<char>, Seq<char>, Seq<char>)>) -> Seq<Seq<char>> {
    s.map_values(|t: (Seq<char>, Seq<char>, Seq<char>)| t.0)
}

/// The crates of `s` whose directory is among `dirs`, in order.
pub open spec fn with_dirs(s: Seq<(Seq<char>, Seq<char>, Seq<char>)>, dirs: Seq<Seq<char>>) -> Seq<
    (Seq<char>, Seq<char>, Seq<char>),
>
    decreases s.len(),
{
    if s.len() == 0 {
        seq![]
    } else {
        let r = with_dirs(s.drop_last(), dirs);
        if dirs.contains(s.last().0) {
            r.push(s.last())
        } else {
            r
        }
    }
}

/// The crates of `s` whose directory is not among `dirs`, in order.
pub open spec fn without_dirs(s: Seq<(Seq<char>, Seq<char>, Seq<char>)>, dirs: Seq<Seq<char>>) -> Seq<
    (Seq<char>, Seq<char>, Seq<char>),
>
    decreases s.len(),
{
    if s.len() == 0 {
        seq![]
    } else {
        let r = without_dirs(s.drop_last(), dirs);
        if dirs.contains(s.last().0) {
            r
        } else {
            r.push(s.last())
        }
    }
}

/// The utils crates folded into `lemurclaw-utils`, in order.
pub fn merge_crates() -> (r: Vec<SubCrate>)
    ensures
        members_view(r@) == with_dirs(spec_sub_crates(), spec_merge_dirs()),
{
    let all = sub_crates();
    let dirs = merge_dirs();
    let ghost av = members_view(all@);
    let mut out: Vec<SubCrate> = Vec::new();
    let mut i: usize = 0;
    assert(av.take(0) =~= Seq::<(Seq<char>, Seq<char>, Seq<char>)>::empty());
    while i < all.len()
        invariant
            i <= all@.len(),
            av == members_view(all@),
            av == spec_sub_crates(),
            dirs@.map_values(|s: &str| s@) == spec_merge_dirs(),
            members_view(out@) == with_dirs(av.take(i as int), spec_merge_dirs()),
        decreases all@.len() - i,
    {
        assert(av.take(i + 1).drop_last() =~= av.take(i as int));
        assert(av.take(i + 1).last() == sub_view(all@[i as int]));
        if strs_contain(&dirs, &to_chars(all[i].dir.as_str())) {
            let ghost prev = out@;
            out.push(copy_sub(&all[i]));
            assert(members_view(out@) =~= members_view(prev).push(sub_view(all@[i as int])));
        }
        i = i + 1;
    }
    assert(av.take(all@.len() as int) =~= av);
    out
}

/// The utils crates that stay standalone: those no merged crate shares a
/// directory with, in order.
pub fn standalone_crates() -> (r: Vec<SubCrate>)
    ensures
        members_view(r@) == without_dirs(
            spec_sub_crates(),
            dirs_of(with_dirs(spec_sub_crates(), spec_merge_dirs())),
        ),
{
    let all = sub_crates();
    let merged = merge_crates();
    let ghost av = members_view(all@);
    let ghost md = dirs_of(with_dirs(spec_sub_crates(), spec_merge_dirs()));
    let mut out: Vec<SubCrate> = Vec::new();
    let mut i: usize = 0;
    assert(av.take(0) =~= Seq::<(Seq<char>, Seq<char>, Seq<char>)>::empty());
    while i < all.len()
        invariant
            i <= all@.len(),
            av == members_view(all@),
            av == spec_sub_crates(),
            md == dirs_of(members_view(merged@)),
            members_view(out@) == without_dirs(av.take(i as int), md),
        decreases all@.len() - i,
    {
        assert(av.take(i + 1).drop_last() =~= av.take(i as int));
        assert(av.take(i + 1).last() == sub_view(all@[i as int]));
        let d = to_chars(all[i].dir.as_str());
        let mut found = false;
        let mut j: usize = 0;
        while j < merged.len()
            invariant
                j <= merged@.len(),
                md == dirs_of(members_view(merged@)),
                d@ == all@[i as int].dir@,
                found == (exists|t: int| 0 <= t < j && md[t] == d@),
            decreases merged@.len() - j,
        {
            assert(md[j as int] == merged@[j as int].dir@);
            if seq_eq(&to_chars(merged[j].dir.as_str()), &d) {
                found = true;
            }
            j = j + 1;
        }
        assert(found == md.contains(d@));
        if !found {
            let ghost prev = out@;
            out.push(copy_sub(&all[i]));
            assert(members_view(out@) =~= members_view(prev).push(sub_view(all@[i as int])));
        }
        i = i + 1;
    }
    assert(av.take(all@.len() as int) =~= av);
    out
}

/// A crate's identifier paired with its module: the package name with `-`
/// written `_`.
pub open spec fn ident_pairs(s: Seq<(Seq<char>, Seq<char>, Seq<char>)>) -> Seq<(Seq<char>, Seq<char>)> {
    s.map_values(|t: (Seq<char>, Seq<char>, Seq<char>)| (replace_all(t.1, "-"@, "_"@), t.2))
}

pub open spec fn pairs_view(v: Seq<(String, String)>) -> Seq<(Seq<char>, Seq<char>)> {
    v.map_values(|p: (String, String)| (p.0@, p.1@))
}

fn ident_pairs_of(members: &Vec<SubCrate>) -> (r: Vec<(String, String)>)
    ensures
        pairs_view(r@) == ident_pairs(members_view(members@)),
{
    let dash = to_chars("-");
    let under = to_chars("_");
    proof {
        reveal_strlit("-");
    }
    let mut out: Vec<(String, String)> = Vec::new();
    let mut i: usize = 0;
    while i < members.len()
        invariant
            i <= members@.len(),
            dash@ == "-"@,
            under@ == "_"@,
            dash@.len() == 1,
            pairs_view(out@) == ident_pairs(members_view(members@)).take(i as int),
        decreases members@.len() - i,
    {
        let ident = replace_vec(&to_chars(members[i].package.as_str()), &dash, &under);
        let ghost prev = out@;
        out.push((from_chars(&ident), members[i].module.clone()));
        assert(pairs_view(out@) =~= pairs_view(prev).push(
            ident_pairs(members_view(members@))[i as int],
        ));
        assert(ident_pairs(members_view(members@)).take(i + 1) =~= ident_pairs(
            members_view(members@),
        ).take(i as int).push(ident_pairs(members_view(members@))[i as int]));
        i = i + 1;
    }
    assert(ident_pairs(members_view(members@)).take(members@.len() as int) =~= ident_pairs(
        members_view(members@),
    ));
    out
}

/// Each utils crate's identifier with its module, merged and standalone
/// alike (the rewrites repoint both).
pub fn ident_to_module() -> (r: Vec<(String, String)>)
    ensures
        pairs_view(r@) == ident_pairs(spec_sub_crates()),
{
    ident_pairs_of(&sub_crates())
}

/// The `utils` cluster: the merged utils crates folded into `lemurclaw-utils`.
pub fn utils_cluster() -> (r: Cluster)
    ensures
        r.name@ == "utils"@,
        r.source_subdir@ == "utils"@,
        r.merged_member_path@ == "utils/utils"@,
        r.merged_package@ == "lemurclaw-utils"@,
        r.merged_lib_ident@ == "lemurclaw_utils"@,
        members_view(r.members@) == with_dirs(spec_sub_crates(), spec_merge_dirs()),
{
    Cluster {
        name: "utils",
        source_subdir: "utils",
        merged_member_path: "utils/utils",
        merged_package: "lemurclaw-utils",
        merged_lib_ident: "lemurclaw_utils",
        members: merge_crates(),
    }
}

impl Cluster {
    /// The identifier prefix of the crates folded in: the merged library
    /// identifier and `_`.
    pub fn sub_crate_ident_prefix(&self) -> (r: String)
        ensures
            r@ == self.merged_lib_ident@ + "_"@,
    {
        let mut v = to_chars(self.merged_lib_ident);
        extend_lit(&mut v, "_");
        from_chars(&v)
    }

    /// Whether a member has the package name `key`.
    pub fn contains_package(&self, key: &str) -> (r: bool)
        ensures
            r == (exists|i: int| 0 <= i < self.members@.len() && #[trigger] self.members@[i].package@ == key@),
    {
        let k = to_chars(key);
        let mut i: usize = 0;
        while i < self.members.len()
            invariant
                i <= self.members@.len(),
                k@ == key@,
                forall|t: int| 0 <= t < i ==> #[trigger] self.members@[t].package@ != key@,
            decreases self.members@.len() - i,
        {
            if seq_eq(&to_chars(self.members[i].package.as_str()), &k) {
                return true;
            }
            i = i + 1;
        }
        false
    }

    /// Each member's identifier with its module.
    pub fn ident_to_module(&self) -> (r: Vec<(String, String)>)
        ensures
            pairs_view(r@) == ident_pairs(members_view(self.members@)),
    {
        ident_pairs_of(&self.members)
    }

    /// The members' module names, in member order.
    pub fn module_names(&self) -> (r: Vec<String>)
        ensures
            r@.map_values(|s: String| s@) == members_view(self.members@).map_values(
                |t: (Seq<char>, Seq<char>, Seq<char>)| t.2,
            ),
    {
        let mut out: Vec<String> = Vec::new();
        let mut i: usize = 0;
        while i < self.members.len()
            invariant
                i <= self.members@.len(),
                out@.map_values(|s: String| s@) == members_view(self.members@).map_values(
                    |t: (Seq<char>, Seq<char>, Seq<char>)| t.2,
                ).take(i as int),
            decreases self.members@.len() - i,
        {
            let ghost prev = out@;
            let m = self.members[i].module.clone();
            assert(m@ == self.members@[i as int].module@);
            out.push(m);
            assert(out@.map_values(|s: String| s@) =~= prev.map_values(|s: String| s@).push(
                self.members@[i as int].module@,
            ));
            assert(members_view(self.members@).map_values(
                |t: (Seq<char>, Seq<char>, Seq<char>)| t.2,
            ).take(i + 1) =~= out@.map_values(|s: String| s@));
            i = i + 1;
        }
        assert(members_view(self.members@).map_values(|t: (Seq<char>, Seq<char>, Seq<char>)| t.2).take(
            self.members@.len() as int,
        ) =~= members_view(self.members@).map_values(|t: (Seq<char>, Seq<char>, Seq<char>)| t.2));
        out
    }
}

} // verus!
