//! Brand rewriting of the publish tree: `Codex`/`codex` becomes `lemurclaw`
//! in environment variable names, paths, flags, protocol identifiers,
//! telemetry names and prose, while tokens the cloud service depends on are
//! kept as they are.

use vstd::prelude::*;
use crate::text::seq_eq;
use crate::text::{
    contains, count_matches, dec, extend, extend_lit, fmt_dec, from_chars, ident_char, is_ident_char, is_ws,
    match_at, matches_at, replace_all, replace_vec, slice_vec, starts_with, to_chars,
};

verus! {

/// The tokens that must come through the rewrite unchanged: model slugs,
/// originator header values, the token audience, analytics event names, an
/// on-wire field name and cloud URLs.
pub open spec fn spec_protected_tokens() -> Seq<Seq<char>> {
    seq![
        "gpt-5.3-codex"@,
        "gpt-5.2-codex"@,
        "gpt-5.1-codex"@,
        "gpt-5-codex"@,
        "gpt-5.1-codex-max"@,
        "gpt-5.2-codex-sonic"@,
        "codex_cli_rs"@,
        "codex-tui"@,
        "codex_vscode"@,
        "codex_atlas"@,
        "codex_chatgpt_desktop"@,
        "codex_desktop"@,
        "codex-cli"@,
        "codex-app-server-sdk"@,
        "codex_sdk_ts"@,
        "codex-app-server"@,
        "codex_exec"@,
        "codex_app_mentioned"@,
        "codex_app_used"@,
        "codex_thread_initialized"@,
        "codex_turn_event"@,
        "codex_turn_steer_event"@,
        "codex_goal_event"@,
        "codex_guardian_review"@,
        "codex_hook_run"@,
        "codex_review_event"@,
        "codex_command_execution_event"@,
        "codex_compaction_event"@,
        "codex_web_search_event"@,
        "codex_image_generation_event"@,
        "codex_mcp_tool_call_event"@,
        "codex_dynamic_tool_call_event"@,
        "codex_collab_agent_tool_call_event"@,
        "codex_file_change_event"@,
        "codex_plugin_used"@,
        "codex_plugin_enabled"@,
        "codex_plugin_disabled"@,
        "codex_plugin_installed"@,
        "codex_plugin_uninstalled"@,
        "codex_plugin_install_requested"@,
        "codex_plugin_install_failed"@,
        "codex_onboarding_external_agent_import_complete"@,
        "codex_onboarding_external_agent_import_failure"@,
        "codexErrorInfo"@,
        "openai/codex"@,
        "chatgpt.com/codex"@,
        "developers.openai.com/codex"@,
        "community.openai.com/c/codex"@,
        "@openai/codex"@,
        "com.openai.codex"@,
        "codex-backend"@,
    ]
}

pub open spec fn strs_view(v: Seq<&str>) -> Seq<Seq<char>> {
    v.map_values(|s: &str| s@)
}

pub fn protected_tokens() -> (r: Vec<&'static str>)
    ensures
        strs_view(r@) == spec_protected_tokens(),
{
    let v = vec![
        "gpt-5.3-codex",
        "gpt-5.2-codex",
        "gpt-5.1-codex",
        "gpt-5-codex",
        "gpt-5.1-codex-max",
        "gpt-5.2-codex-sonic",
        "codex_cli_rs",
        "codex-tui",
        "codex_vscode",
        "codex_atlas",
        "codex_chatgpt_desktop",
        "codex_desktop",
        "codex-cli",
        "codex-app-server-sdk",
        "codex_sdk_ts",
        "codex-app-server",
        "codex_exec",
        "codex_app_mentioned",
        "codex_app_used",
        "codex_thread_initialized",
        "codex_turn_event",
        "codex_turn_steer_event",
        "codex_goal_event",
        "codex_guardian_review",
        "codex_hook_run",
        "codex_review_event",
        "codex_command_execution_event",
        "codex_compaction_event",
        "codex_web_search_event",
        "codex_image_generation_event",
        "codex_mcp_tool_call_event",
        "codex_dynamic_tool_call_event",
        "codex_collab_agent_tool_call_event",
        "codex_file_change_event",
        "codex_plugin_used",
        "codex_plugin_enabled",
        "codex_plugin_disabled",
        "codex_plugin_installed",
        "codex_plugin_uninstalled",
        "codex_plugin_install_requested",
        "codex_plugin_install_failed",
        "codex_onboarding_external_agent_import_complete",
        "codex_onboarding_external_agent_import_failure",
        "codexErrorInfo",
        "openai/codex",
        "chatgpt.com/codex",
        "developers.openai.com/codex",
        "community.openai.com/c/codex",
        "@openai/codex",
        "com.openai.codex",
        "codex-backend",
    ];
    assert(strs_view(v@) =~= spec_protected_tokens());
    v
}

/// The replacement rules, applied in this order: quoted environment variable
/// names, the generic quoted `"CODEX_` prefix, filesystem paths, the
/// `--codex-` flag prefix, protocol identifiers, the `CodexErrorInfo` type
/// name, and telemetry name prefixes.
pub open spec fn spec_brand_rules() -> Seq<(Seq<char>, Seq<char>)> {
    seq![
        ("\"CODEX_SANDBOX_NETWORK_DISABLED\""@, "\"LEMURCLAW_SANDBOX_NETWORK_DISABLED\""@),
        ("\"CODEX_SANDBOX\""@, "\"LEMURCLAW_SANDBOX\""@),
        ("\"CODEX_HOME\""@, "\"LEMURCLAW_HOME\""@),
        ("\"CODEX_API_KEY\""@, "\"LEMURCLAW_API_KEY\""@),
        ("\"CODEX_ACCESS_TOKEN\""@, "\"LEMURCLAW_ACCESS_TOKEN\""@),
        ("\"CODEX_SQLITE_HOME\""@, "\"LEMURCLAW_SQLITE_HOME\""@),
        ("\"CODEX_CA_CERTIFICATE\""@, "\"LEMURCLAW_CA_CERTIFICATE\""@),
        ("\"CODEX_PERMISSION_PROFILE\""@, "\"LEMURCLAW_PERMISSION_PROFILE\""@),
        ("\"CODEX_THREAD_ID\""@, "\"LEMURCLAW_THREAD_ID\""@),
        ("\"CODEX_ESCALATE_SOCKET\""@, "\"LEMURCLAW_ESCALATE_SOCKET\""@),
        ("\"CODEX_ROLLOUT_TRACE_ROOT\""@, "\"LEMURCLAW_ROLLOUT_TRACE_ROOT\""@),
        ("\"CODEX_CONNECTORS_TOKEN\""@, "\"LEMURCLAW_CONNECTORS_TOKEN\""@),
        ("\"CODEX_CODE_MODE_HOST_PATH\""@, "\"LEMURCLAW_CODE_MODE_HOST_PATH\""@),
        ("\"CODEX_EXEC_SERVER_URL\""@, "\"LEMURCLAW_EXEC_SERVER_URL\""@),
        ("\"CODEX_EXEC_SERVER_NOISE_AUTH_TOKEN\""@, "\"LEMURCLAW_EXEC_SERVER_NOISE_AUTH_TOKEN\""@),
        ("\"CODEX_AUTHAPI_BASE_URL\""@, "\"LEMURCLAW_AUTHAPI_BASE_URL\""@),
        ("\"CODEX_REFRESH_TOKEN_URL_OVERRIDE\""@, "\"LEMURCLAW_REFRESH_TOKEN_URL_OVERRIDE\""@),
        ("\"CODEX_REVOKE_TOKEN_URL_OVERRIDE\""@, "\"LEMURCLAW_REVOKE_TOKEN_URL_OVERRIDE\""@),
        ("\"CODEX_APP_SERVER_LOGIN_CLIENT_ID\""@, "\"LEMURCLAW_APP_SERVER_LOGIN_CLIENT_ID\""@),
        ("\"CODEX_INTERNAL_ORIGINATOR_OVERRIDE\""@, "\"LEMURCLAW_INTERNAL_ORIGINATOR_OVERRIDE\""@),
        ("\"CODEX_NETWORK_PROXY_ACTIVE\""@, "\"LEMURCLAW_NETWORK_PROXY_ACTIVE\""@),
        ("\"CODEX_NETWORK_ALLOW_LOCAL_BINDING\""@, "\"LEMURCLAW_NETWORK_ALLOW_LOCAL_BINDING\""@),
        ("\"CODEX_NETWORK_PROXY_CREDENTIAL_BROKER_ACTIVE\""@, "\"LEMURCLAW_NETWORK_PROXY_CREDENTIAL_BROKER_ACTIVE\""@),
        ("\"CODEX_NETWORK_PROXY_BROKERED_CREDENTIALS\""@, "\"LEMURCLAW_NETWORK_PROXY_BROKERED_CREDENTIALS\""@),
        ("\"CODEX_NETWORK_PROXY_ATTRIBUTION\""@, "\"LEMURCLAW_NETWORK_PROXY_ATTRIBUTION\""@),
        ("\"CODEX_NETWORK_POLICY_VIOLATION\""@, "\"LEMURCLAW_NETWORK_POLICY_VIOLATION\""@),
        ("\"CODEX_PROXY_GIT_SSH_COMMAND\""@, "\"LEMURCLAW_PROXY_GIT_SSH_COMMAND\""@),
        ("CODEX_MANAGED_BY_NPM"@, "LEMURCLAW_MANAGED_BY_NPM"@),
        ("CODEX_MANAGED_BY_PNPM"@, "LEMURCLAW_MANAGED_BY_PNPM"@),
        ("CODEX_MANAGED_BY_BUN"@, "LEMURCLAW_MANAGED_BY_BUN"@),
        ("CODEX_MANAGED_PACKAGE_ROOT"@, "LEMURCLAW_MANAGED_PACKAGE_ROOT"@),
        ("CODEX_CLOUD_TASKS_BASE_URL"@, "LEMURCLAW_CLOUD_TASKS_BASE_URL"@),
        ("CODEX_CLOUD_TASKS_MODE"@, "LEMURCLAW_CLOUD_TASKS_MODE"@),
        ("CODEX_CLOUD_TASKS_FORCE_INTERNAL"@, "LEMURCLAW_CLOUD_TASKS_FORCE_INTERNAL"@),
        ("CODEX_REMOTE_AUTH_TOKEN"@, "LEMURCLAW_REMOTE_AUTH_TOKEN"@),
        ("CODEX_GITHUB_TOKEN"@, "LEMURCLAW_GITHUB_TOKEN"@),
        ("CODEX_STARTING_DIFF"@, "LEMURCLAW_STARTING_DIFF"@),
        ("\"CODEX_"@, "\"LEMURCLAW_"@),
        (".codex\""@, ".lemurclaw\""@),
        ("/etc/codex"@, "/etc/lemurclaw"@),
        ("~/.codex"@, "~/.lemurclaw"@),
        ("(\".codex\")"@, "(\".lemurclaw\")"@),
        ("--codex-"@, "--lemurclaw-"@),
        ("codex://"@, "lemurclaw://"@),
        ("codex.thread_config.v1"@, "lemurclaw.thread_config.v1"@),
        ("codex.exec_server.relay.v1"@, "lemurclaw.exec_server.relay.v1"@),
        ("codex_app_server_daemon"@, "lemurclaw_app_server_daemon"@),
        ("codex-linux-sandbox"@, "lemurclaw-linux-sandbox"@),
        ("codex-execve-wrapper"@, "lemurclaw-execve-wrapper"@),
        ("CodexErrorInfo"@, "LemurclawErrorInfo"@),
        ("codex.thread."@, "lemurclaw.thread."@),
        ("codex.windows_sandbox."@, "lemurclaw.windows_sandbox."@),
        ("codex.apps.refresh."@, "lemurclaw.apps.refresh."@),
        ("codex.apps.installed."@, "lemurclaw.apps.installed."@),
        ("codex.cloud_config_bundle."@, "lemurclaw.cloud_config_bundle."@),
    ]
}

pub open spec fn rules_view(v: Seq<(&str, &str)>) -> Seq<(Seq<char>, Seq<char>)> {
    v.map_values(|p: (&str, &str)| (p.0@, p.1@))
}

pub fn brand_rules() -> (r: Vec<(&'static str, &'static str)>)
    ensures
        rules_view(r@) == spec_brand_rules(),
{
    let v = vec![
        ("\"CODEX_SANDBOX_NETWORK_DISABLED\"", "\"LEMURCLAW_SANDBOX_NETWORK_DISABLED\""),
        ("\"CODEX_SANDBOX\"", "\"LEMURCLAW_SANDBOX\""),
        ("\"CODEX_HOME\"", "\"LEMURCLAW_HOME\""),
        ("\"CODEX_API_KEY\"", "\"LEMURCLAW_API_KEY\""),
        ("\"CODEX_ACCESS_TOKEN\"", "\"LEMURCLAW_ACCESS_TOKEN\""),
        ("\"CODEX_SQLITE_HOME\"", "\"LEMURCLAW_SQLITE_HOME\""),
        ("\"CODEX_CA_CERTIFICATE\"", "\"LEMURCLAW_CA_CERTIFICATE\""),
        ("\"CODEX_PERMISSION_PROFILE\"", "\"LEMURCLAW_PERMISSION_PROFILE\""),
        ("\"CODEX_THREAD_ID\"", "\"LEMURCLAW_THREAD_ID\""),
        ("\"CODEX_ESCALATE_SOCKET\"", "\"LEMURCLAW_ESCALATE_SOCKET\""),
        ("\"CODEX_ROLLOUT_TRACE_ROOT\"", "\"LEMURCLAW_ROLLOUT_TRACE_ROOT\""),
        ("\"CODEX_CONNECTORS_TOKEN\"", "\"LEMURCLAW_CONNECTORS_TOKEN\""),
        ("\"CODEX_CODE_MODE_HOST_PATH\"", "\"LEMURCLAW_CODE_MODE_HOST_PATH\""),
        ("\"CODEX_EXEC_SERVER_URL\"", "\"LEMURCLAW_EXEC_SERVER_URL\""),
        ("\"CODEX_EXEC_SERVER_NOISE_AUTH_TOKEN\"", "\"LEMURCLAW_EXEC_SERVER_NOISE_AUTH_TOKEN\""),
        ("\"CODEX_AUTHAPI_BASE_URL\"", "\"LEMURCLAW_AUTHAPI_BASE_URL\""),
        ("\"CODEX_REFRESH_TOKEN_URL_OVERRIDE\"", "\"LEMURCLAW_REFRESH_TOKEN_URL_OVERRIDE\""),
        ("\"CODEX_REVOKE_TOKEN_URL_OVERRIDE\"", "\"LEMURCLAW_REVOKE_TOKEN_URL_OVERRIDE\""),
        ("\"CODEX_APP_SERVER_LOGIN_CLIENT_ID\"", "\"LEMURCLAW_APP_SERVER_LOGIN_CLIENT_ID\""),
        ("\"CODEX_INTERNAL_ORIGINATOR_OVERRIDE\"", "\"LEMURCLAW_INTERNAL_ORIGINATOR_OVERRIDE\""),
        ("\"CODEX_NETWORK_PROXY_ACTIVE\"", "\"LEMURCLAW_NETWORK_PROXY_ACTIVE\""),
        ("\"CODEX_NETWORK_ALLOW_LOCAL_BINDING\"", "\"LEMURCLAW_NETWORK_ALLOW_LOCAL_BINDING\""),
        ("\"CODEX_NETWORK_PROXY_CREDENTIAL_BROKER_ACTIVE\"", "\"LEMURCLAW_NETWORK_PROXY_CREDENTIAL_BROKER_ACTIVE\""),
        ("\"CODEX_NETWORK_PROXY_BROKERED_CREDENTIALS\"", "\"LEMURCLAW_NETWORK_PROXY_BROKERED_CREDENTIALS\""),
        ("\"CODEX_NETWORK_PROXY_ATTRIBUTION\"", "\"LEMURCLAW_NETWORK_PROXY_ATTRIBUTION\""),
        ("\"CODEX_NETWORK_POLICY_VIOLATION\"", "\"LEMURCLAW_NETWORK_POLICY_VIOLATION\""),
        ("\"CODEX_PROXY_GIT_SSH_COMMAND\"", "\"LEMURCLAW_PROXY_GIT_SSH_COMMAND\""),
        ("CODEX_MANAGED_BY_NPM", "LEMURCLAW_MANAGED_BY_NPM"),
        ("CODEX_MANAGED_BY_PNPM", "LEMURCLAW_MANAGED_BY_PNPM"),
        ("CODEX_MANAGED_BY_BUN", "LEMURCLAW_MANAGED_BY_BUN"),
        ("CODEX_MANAGED_PACKAGE_ROOT", "LEMURCLAW_MANAGED_PACKAGE_ROOT"),
        ("CODEX_CLOUD_TASKS_BASE_URL", "LEMURCLAW_CLOUD_TASKS_BASE_URL"),
        ("CODEX_CLOUD_TASKS_MODE", "LEMURCLAW_CLOUD_TASKS_MODE"),
        ("CODEX_CLOUD_TASKS_FORCE_INTERNAL", "LEMURCLAW_CLOUD_TASKS_FORCE_INTERNAL"),
        ("CODEX_REMOTE_AUTH_TOKEN", "LEMURCLAW_REMOTE_AUTH_TOKEN"),
        ("CODEX_GITHUB_TOKEN", "LEMURCLAW_GITHUB_TOKEN"),
        ("CODEX_STARTING_DIFF", "LEMURCLAW_STARTING_DIFF"),
        ("\"CODEX_", "\"LEMURCLAW_"),
        (".codex\"", ".lemurclaw\""),
        ("/etc/codex", "/etc/lemurclaw"),
        ("~/.codex", "~/.lemurclaw"),
        ("(\".codex\")", "(\".lemurclaw\")"),
        ("--codex-", "--lemurclaw-"),
        ("codex://", "lemurclaw://"),
        ("codex.thread_config.v1", "lemurclaw.thread_config.v1"),
        ("codex.exec_server.relay.v1", "lemurclaw.exec_server.relay.v1"),
        ("codex_app_server_daemon", "lemurclaw_app_server_daemon"),
        ("codex-linux-sandbox", "lemurclaw-linux-sandbox"),
        ("codex-execve-wrapper", "lemurclaw-execve-wrapper"),
        ("CodexErrorInfo", "LemurclawErrorInfo"),
        ("codex.thread.", "lemurclaw.thread."),
        ("codex.windows_sandbox.", "lemurclaw.windows_sandbox."),
        ("codex.apps.refresh.", "lemurclaw.apps.refresh."),
        ("codex.apps.installed.", "lemurclaw.apps.installed."),
        ("codex.cloud_config_bundle.", "lemurclaw.cloud_config_bundle."),
    ];
    assert(rules_view(v@) =~= spec_brand_rules());
    v
}

// ---------------------------------------------------------------------------
// Protecting tokens
// ---------------------------------------------------------------------------

/// The placeholder that stands for the `n`-th protected occurrence.
pub open spec fn marker(n: nat) -> Seq<char> {
    seq!['\0'] + "BRAND_PROTECT_"@ + dec(n) + seq!['\0']
}

fn marker_vec(n: usize) -> (r: Vec<char>)
    ensures
        r@ == marker(n as nat),
{
    let mut v: Vec<char> = vec!['\0'];
    extend_lit(&mut v, "BRAND_PROTECT_");
    extend(&mut v, &fmt_dec(n));
    v.push('\0');
    v
}

/// Replaces each occurrence of `tok` (left to right, without overlap) by
/// the next placeholder, numbering from `n`; also gives the next number.
pub open spec fn mark_all(s: Seq<char>, tok: Seq<char>, n: nat) -> (Seq<char>, nat)
    decreases s.len(),
{
    if tok.len() == 0 || s.len() < tok.len() {
        (s, n)
    } else if starts_with(s, tok) {
        let (r, m) = mark_all(s.skip(tok.len() as int), tok, n + 1);
        (marker(n) + r, m)
    } else {
        let (r, m) = mark_all(s.drop_first(), tok, n);
        (seq![s[0]] + r, m)
    }
}

pub proof fn lemma_mark_all_count(s: Seq<char>, tok: Seq<char>, n: nat)
    ensures
        mark_all(s, tok, n).1 == n + count_matches(s, tok),
    decreases s.len(),
{
    if tok.len() == 0 || s.len() < tok.len() {
    } else if starts_with(s, tok) {
        lemma_mark_all_count(s.skip(tok.len() as int), tok, n + 1);
    } else {
        lemma_mark_all_count(s.drop_first(), tok, n);
    }
}

/// Protecting the empty token: a placeholder before every character and at
/// the end, numbering from `n`.
pub open spec fn mark_empty(s: Seq<char>, n: nat) -> (Seq<char>, nat)
    decreases s.len(),
{
    if s.len() == 0 {
        (marker(n), n + 1)
    } else {
        let (r, m) = mark_empty(s.drop_first(), n + 1);
        (marker(n) + seq![s[0]] + r, m)
    }
}

/// Protecting one token.
pub open spec fn mark_token(s: Seq<char>, tok: Seq<char>, n: nat) -> (Seq<char>, nat) {
    if tok.len() == 0 {
        mark_empty(s, n)
    } else {
        mark_all(s, tok, n)
    }
}

/// `k` copies of `tok`.
pub open spec fn copies(tok: Seq<char>, k: nat) -> Seq<Seq<char>>
    decreases k,
{
    if k == 0 {
        seq![]
    } else {
        copies(tok, (k - 1) as nat).push(tok)
    }
}

/// Protecting each token in turn: the text with placeholders, and the
/// protected occurrences in placeholder order.
pub open spec fn stash(raw: Seq<char>, toks: Seq<Seq<char>>) -> (Seq<char>, Seq<Seq<char>>)
    decreases toks.len(),
{
    if toks.len() == 0 {
        (raw, seq![])
    } else {
        let (cur, stashed) = stash(raw, toks.drop_last());
        let tok = toks.last();
        let (next, m) = mark_token(cur, tok, stashed.len());
        (next, stashed + copies(tok, (m - stashed.len()) as nat))
    }
}

/// Placeholders `0..k` put back, each replaced by its token.
pub open spec fn restore(s: Seq<char>, stashed: Seq<Seq<char>>, k: nat) -> Seq<char>
    decreases k,
{
    if k == 0 {
        s
    } else {
        replace_all(restore(s, stashed, (k - 1) as nat), marker((k - 1) as nat), stashed[k - 1])
    }
}

fn mark_all_exec(s: &[char], tok: &[char], n: usize, stashed: &mut Vec<Vec<char>>) -> (r: (
    Vec<char>,
    usize,
))
    requires
        tok@.len() > 0,
        old(stashed)@.len() == n,
    ensures
        (r.0@, r.1 as nat) == mark_all(s@, tok@, n as nat),
        crate::text::views(final(stashed)@) == crate::text::views(old(stashed)@) + copies(
            tok@,
            (r.1 - n) as nat,
        ),
        final(stashed)@.len() == r.1,
{
    let mut out: Vec<char> = Vec::new();
    let mut i: usize = 0;
    let mut m: usize = n;
    assert(s@.skip(0) =~= s@);
    assert(crate::text::views(stashed@) =~= crate::text::views(old(stashed)@) + copies(tok@, 0));
    while i < s.len()
        invariant
            i <= s@.len(),
            tok@.len() > 0,
            n <= m,
            stashed@.len() == m,
            crate::text::views(stashed@) == crate::text::views(old(stashed)@) + copies(
                tok@,
                (m - n) as nat,
            ),
            ({
                let (r, k) = mark_all(s@.skip(i as int), tok@, m as nat);
                (out@ + r, k) == mark_all(s@, tok@, n as nat)
            }),
        decreases s@.len() - i,
    {
        let ghost rest = s@.skip(i as int);
        let ghost prev = out@;
        if s.len() - i < tok.len() {
            extend(&mut out, &slice_vec(s, i, s.len()));
            assert(s@.subrange(i as int, s@.len() as int) =~= rest);
            return (out, m);
        }
        assert(rest.subrange(0, tok@.len() as int) =~= s@.subrange(i as int, i + tok@.len()));
        if match_at(s, i, tok) {
            assert(rest.skip(tok@.len() as int) =~= s@.skip(i + tok@.len()));
            let mk = marker_vec(m);
            extend(&mut out, &mk);
            let ghost sv = crate::text::views(stashed@);
            let tv = slice_vec(tok, 0, tok.len());
            assert(tv@ =~= tok@);
            stashed.push(tv);
            assert(crate::text::views(stashed@) =~= sv.push(tok@));
            assert(copies(tok@, (m + 1 - n) as nat) == copies(tok@, (m - n) as nat).push(tok@));
            assert(crate::text::views(stashed@) =~= crate::text::views(old(stashed)@) + copies(
                tok@,
                (m + 1 - n) as nat,
            ));
            let ghost (r2, k2) = mark_all(s@.skip(i + tok@.len()), tok@, (m + 1) as nat);
            assert(prev + (marker(m as nat) + r2) =~= out@ + r2);
            m = stashed.len();
            i = i + tok.len();
        } else {
            assert(rest.drop_first() =~= s@.skip(i + 1));
            out.push(s[i]);
            let ghost (r2, k2) = mark_all(s@.skip(i + 1), tok@, m as nat);
            assert(prev + (seq![rest[0]] + r2) =~= out@ + r2);
            i = i + 1;
        }
    }
    assert(s@.skip(i as int) =~= Seq::<char>::empty());
    assert(out@ + Seq::<char>::empty() =~= out@);
    (out, m)
}

// ---------------------------------------------------------------------------
// Rules and word boundaries
// ---------------------------------------------------------------------------

/// Each rule applied in turn, every occurrence replaced; with the number of
/// replacements made.
pub open spec fn apply_rules(s: Seq<char>, rules: Seq<(Seq<char>, Seq<char>)>) -> (Seq<char>, nat)
    decreases rules.len(),
{
    if rules.len() == 0 {
        (s, 0)
    } else {
        let (o, c) = apply_rules(s, rules.drop_last());
        let (f, r) = rules.last();
        (replace_all(o, f, r), c + count_matches(o, f))
    }
}

/// A character that ends a word: not an ASCII letter, digit or `_`.
pub open spec fn is_word_edge(c: char) -> bool {
    !is_ident_char(c)
}

/// `needle` stands as a whole word at `i`.
pub open spec fn whole_word_at(s: Seq<char>, i: int, needle: Seq<char>) -> bool {
    matches_at(s, i, needle) && (i == 0 || is_word_edge(s[i - 1])) && (i + needle.len() == s.len()
        || is_word_edge(s[i + needle.len()]))
}

/// Replaces each whole-word occurrence of `needle` from `i` on; with the
/// number of replacements.
pub open spec fn word_replace(s: Seq<char>, needle: Seq<char>, repl: Seq<char>, i: int) -> (
    Seq<char>,
    nat,
)
    decreases s.len() - i,
{
    if i < 0 || i >= s.len() || needle.len() == 0 {
        (s.skip(i), 0)
    } else if whole_word_at(s, i, needle) {
        let (o, c) = word_replace(s, needle, repl, i + needle.len());
        (repl + o, c + 1)
    } else {
        let (o, c) = word_replace(s, needle, repl, i + 1);
        (seq![s[i]] + o, c)
    }
}

/// Replaces `needle` by `repl` wherever it stands as a whole word (bounded
/// on both sides by the text's ends or by characters other than ASCII
/// letters, digits and `_`), adding the number of replacements to
/// `occ_count`.
pub fn replace_word_boundary(s: &[char], needle: &[char], repl: &[char], occ_count: &mut usize) -> (r: Vec<char>)
    requires
        *old(occ_count) + word_replace(s@, needle@, repl@, 0).1 <= usize::MAX,
    ensures
        r@ == word_replace(s@, needle@, repl@, 0).0,
        *final(occ_count) == *old(occ_count) + word_replace(s@, needle@, repl@, 0).1,
{
    if needle.len() == 0 {
        assert(s@.skip(0) =~= s@);
        return slice_vec(s, 0, s.len());
    }
    let mut out: Vec<char> = Vec::new();
    let mut i: usize = 0;
    let mut count: usize = 0;
    assert(out@ + word_replace(s@, needle@, repl@, 0).0 =~= word_replace(s@, needle@, repl@, 0).0);
    while i < s.len()
        invariant
            i <= s@.len(),
            needle@.len() > 0,
            *occ_count == *old(occ_count),
            *old(occ_count) + word_replace(s@, needle@, repl@, 0).1 <= usize::MAX,
            ({
                let (o, c) = word_replace(s@, needle@, repl@, i as int);
                out@ + o == word_replace(s@, needle@, repl@, 0).0 && count + c == word_replace(
                    s@,
                    needle@,
                    repl@,
                    0,
                ).1
            }),
        decreases s@.len() - i,
    {
        let ghost prev = out@;
        let hit = match_at(s, i, needle) && (i == 0 || !ident_char(s[i - 1])) && (i + needle.len()
            == s.len() || !ident_char(s[i + needle.len()]));
        if hit {
            extend(&mut out, repl);
            let ghost (o2, c2) = word_replace(s@, needle@, repl@, i + needle@.len());
            assert(prev + (repl@ + o2) =~= out@ + o2);
            count = count + 1;
            i = i + needle.len();
        } else {
            out.push(s[i]);
            let ghost (o2, c2) = word_replace(s@, needle@, repl@, i + 1);
            assert(prev + (seq![s@[i as int]] + o2) =~= out@ + o2);
            i = i + 1;
        }
    }
    assert(s@.skip(i as int) =~= Seq::<char>::empty());
    assert(out@ + Seq::<char>::empty() =~= out@);
    *occ_count = *occ_count + count;
    out
}

fn count_vec(s: &[char], p: &[char]) -> (r: usize)
    requires
        p@.len() > 0,
    ensures
        r == count_matches(s@, p@),
{
    let mut i: usize = 0;
    let mut c: usize = 0;
    assert(s@.skip(0) =~= s@);
    while i < s.len()
        invariant
            i <= s@.len(),
            p@.len() > 0,
            c <= i,
            c + count_matches(s@.skip(i as int), p@) == count_matches(s@, p@),
        decreases s@.len() - i,
    {
        let ghost rest = s@.skip(i as int);
        if s.len() - i < p.len() {
            return c;
        }
        assert(rest.subrange(0, p@.len() as int) =~= s@.subrange(i as int, i + p@.len()));
        if match_at(s, i, p) {
            assert(rest.skip(p@.len() as int) =~= s@.skip(i + p@.len()));
            c = c + 1;
            i = i + p.len();
        } else {
            assert(rest.drop_first() =~= s@.skip(i + 1));
            i = i + 1;
        }
    }
    c
}

// ---------------------------------------------------------------------------
// The whole rewrite of one file's text
// ---------------------------------------------------------------------------

/// The text after protecting, applying the rules, the prose pass, and
/// restoring; with the number of replacements made.
pub open spec fn spec_brand_full_text(raw: Seq<char>, ext: Seq<char>, protected: Seq<Seq<char>>) -> (
    Seq<char>,
    nat,
) {
    let (working, stashed) = stash(raw, protected);
    let (out1, c1) = apply_rules(working, spec_brand_rules());
    let prose = ext != "rs"@;
    let (out2, c2) = if prose {
        word_replace(out1, "Codex"@, "lemurclaw"@, 0)
    } else {
        (out1, 0)
    };
    let (out3, c3) = if prose {
        word_replace(out2, "codex"@, "lemurclaw"@, 0)
    } else {
        (out2, 0)
    };
    (restore(out3, stashed, stashed.len()), c1 + c2 + c3)
}

fn mark_empty_exec(s: &[char], n: usize, stashed: &mut Vec<Vec<char>>) -> (r: (Vec<char>, usize))
    requires
        old(stashed)@.len() == n,
    ensures
        (r.0@, r.1 as nat) == mark_empty(s@, n as nat),
        crate::text::views(final(stashed)@) == crate::text::views(old(stashed)@) + copies(
            Seq::<char>::empty(),
            (r.1 - n) as nat,
        ),
        final(stashed)@.len() == r.1,
{
    let mut out: Vec<char> = Vec::new();
    let mut i: usize = 0;
    let mut m: usize = n;
    let ghost e = Seq::<char>::empty();
    assert(s@.skip(0) =~= s@);
    assert(crate::text::views(stashed@) =~= crate::text::views(old(stashed)@) + copies(e, 0));
    while i < s.len()
        invariant
            i <= s@.len(),
            n <= m,
            stashed@.len() == m,
            e == Seq::<char>::empty(),
            crate::text::views(stashed@) == crate::text::views(old(stashed)@) + copies(
                e,
                (m - n) as nat,
            ),
            ({
                let (r, k) = mark_empty(s@.skip(i as int), m as nat);
                (out@ + r, k) == mark_empty(s@, n as nat)
            }),
        decreases s@.len() - i,
    {
        let ghost rest = s@.skip(i as int);
        let ghost prev = out@;
        assert(rest.drop_first() =~= s@.skip(i + 1));
        extend(&mut out, &marker_vec(m));
        out.push(s[i]);
        let ghost sv = crate::text::views(stashed@);
        stashed.push(Vec::new());
        assert(crate::text::views(stashed@) =~= sv.push(e));
        assert(copies(e, (m + 1 - n) as nat) == copies(e, (m - n) as nat).push(e));
        let ghost (r2, k2) = mark_empty(s@.skip(i + 1), (m + 1) as nat);
        assert(prev + (marker(m as nat) + seq![rest[0]] + r2) =~= out@ + r2);
        m = stashed.len();
        i = i + 1;
    }
    assert(s@.skip(i as int) =~= Seq::<char>::empty());
    extend(&mut out, &marker_vec(m));
    let ghost sv = crate::text::views(stashed@);
    stashed.push(Vec::new());
    assert(crate::text::views(stashed@) =~= sv.push(e));
    assert(copies(e, (m + 1 - n) as nat) == copies(e, (m - n) as nat).push(e));
    m = stashed.len();
    (out, m)
}

pub proof fn lemma_apply_rules_prefix(s: Seq<char>, rules: Seq<(Seq<char>, Seq<char>)>, k: int)
    requires
        0 <= k <= rules.len(),
    ensures
        apply_rules(s, rules.take(k)).1 <= apply_rules(s, rules).1,
    decreases rules.len() - k,
{
    if k < rules.len() {
        lemma_apply_rules_prefix(s, rules, k + 1);
        assert(rules.take(k + 1).drop_last() =~= rules.take(k));
    } else {
        assert(rules.take(k) =~= rules);
    }
}

/// Rewrites one file's text (see [`spec_brand_full_text`]): `ext` is the
/// file's extension, `protected` the tokens kept unchanged; the number of
/// replacements is added to `occ_count`.
pub fn rewrite_brand_full_text(raw: &str, ext: &str, protected: &[&str], occ_count: &mut usize) -> (r: String)
    requires
        *old(occ_count) + spec_brand_full_text(raw@, ext@, strs_view(protected@)).1 <= usize::MAX,
    ensures
        r@ == spec_brand_full_text(raw@, ext@, strs_view(protected@)).0,
        *final(occ_count) == *old(occ_count) + spec_brand_full_text(
            raw@,
            ext@,
            strs_view(protected@),
        ).1,
{
    let ghost toks = strs_view(protected@);
    let ghost total = spec_brand_full_text(raw@, ext@, toks).1;
    let mut cur = to_chars(raw);
    let mut stashed: Vec<Vec<char>> = Vec::new();
    let mut k: usize = 0;
    assert(toks.take(0) =~= Seq::<Seq<char>>::empty());
    assert(crate::text::views(stashed@) =~= Seq::<Seq<char>>::empty());
    while k < protected.len()
        invariant
            k <= protected@.len(),
            toks == strs_view(protected@),
            (cur@, crate::text::views(stashed@)) == stash(raw@, toks.take(k as int)),
        decreases protected@.len() - k,
    {
        let tok = to_chars(protected[k]);
        assert(toks.take(k + 1).drop_last() =~= toks.take(k as int));
        assert(toks.take(k + 1).last() == tok@);
        let n = stashed.len();
        assert(crate::text::views(stashed@).len() == n);
        if tok.len() == 0 {
            assert(tok@ =~= Seq::<char>::empty());
            let (next, _m) = mark_empty_exec(&cur, n, &mut stashed);
            cur = next;
        } else {
            let (next, _m) = mark_all_exec(&cur, &tok, n, &mut stashed);
            cur = next;
        }
        k = k + 1;
    }
    assert(toks.take(protected@.len() as int) =~= toks);
    let ghost (working, st_all) = stash(raw@, toks);
    // The replacement rules.
    let rules = brand_rules();
    let ghost rs = spec_brand_rules();
    let ghost (out1, c1) = apply_rules(working, rs);
    let ghost (out2, c2) = if ext@ != "rs"@ {
        word_replace(out1, "Codex"@, "lemurclaw"@, 0)
    } else {
        (out1, 0)
    };
    let ghost (out3, c3) = if ext@ != "rs"@ {
        word_replace(out2, "codex"@, "lemurclaw"@, 0)
    } else {
        (out2, 0)
    };
    assert(total == c1 + c2 + c3);
    let mut j: usize = 0;
    let ghost base = *old(occ_count);
    assert(rs.take(0) =~= Seq::<(Seq<char>, Seq<char>)>::empty());
    while j < rules.len()
        invariant
            j <= rules@.len(),
            rules_view(rules@) == rs,
            rs == spec_brand_rules(),
            (out1, c1) == apply_rules(working, rs),
            base + c1 + c2 + c3 <= usize::MAX,
            (cur@, (*occ_count - base) as nat) == apply_rules(working, rs.take(j as int)),
            *occ_count >= base,
        decreases rules@.len() - j,
    {
        let (f, rp) = rules[j];
        let fv = to_chars(f);
        let rv = to_chars(rp);
        assert(rs.take(j + 1).drop_last() =~= rs.take(j as int));
        assert(rs.take(j + 1).last() == (fv@, rv@));
        proof {
            lemma_apply_rules_prefix(working, rs, j + 1);
        }
        if fv.len() > 0 {
            let c = count_vec(&cur, &fv);
            *occ_count = *occ_count + c;
            cur = replace_vec(&cur, &fv, &rv);
        }
        j = j + 1;
    }
    assert(rs.take(rules@.len() as int) =~= rs);
    if !crate::text::eq_lit(&to_chars(ext), "rs") {
        let n1 = to_chars("Codex");
        let n2 = to_chars("codex");
        let rp = to_chars("lemurclaw");
        cur = replace_word_boundary(&cur, &n1, &rp, occ_count);
        cur = replace_word_boundary(&cur, &n2, &rp, occ_count);
    }
    assert(cur@ == out3);
    // Put the protected tokens back.
    let mut i: usize = 0;
    while i < stashed.len()
        invariant
            i <= stashed@.len(),
            crate::text::views(stashed@) == st_all,
            cur@ == restore(out3, st_all, i as nat),
        decreases stashed@.len() - i,
    {
        let mk = marker_vec(i);
        assert(mk@.len() > 0);
        assert(crate::text::views(stashed@)[i as int] == stashed@[i as int]@);
        cur = replace_vec(&cur, &mk, &stashed[i]);
        i = i + 1;
    }
    from_chars(&cur)
}


/// The extensions of the files the full brand rewrite scans.
pub open spec fn spec_wanted_exts() -> Seq<Seq<char>> {
    seq!["rs"@, "toml"@, "json"@, "ts"@, "md"@, "txt"@, "sh"@, "html"@, "py"@]
}

/// Whether the full brand rewrite reads a file: its extension is one of
/// [`spec_wanted_exts`] and no component of its path is `snapshots`.
pub open spec fn spec_brand_scans(components: Seq<Seq<char>>, ext: Option<Seq<char>>) -> bool {
    &&& ext matches Some(e) && spec_wanted_exts().contains(e)
    &&& !components.contains("snapshots"@)
}

/// See [`spec_brand_scans`]; `components` are the path's components and
/// `ext` its extension, when it has one in UTF-8.
pub fn brand_scans_file(components: &[String], ext: Option<&str>) -> (r: bool)
    ensures
        r == spec_brand_scans(
            components@.map_values(|s: String| s@),
            match ext {
                Some(e) => Some(e@),
                None => None,
            },
        ),
{
    let ghost cv = components@.map_values(|s: String| s@);
    let wanted = match ext {
        Some(e) => {
            let v = vec!["rs", "toml", "json", "ts", "md", "txt", "sh", "html", "py"];
            assert(v@.map_values(|x: &str| x@) =~= spec_wanted_exts());
            let ec = to_chars(e);
            let mut found = false;
            let mut i: usize = 0;
            while i < v.len()
                invariant
                    i <= v@.len(),
                    v@.map_values(|x: &str| x@) == spec_wanted_exts(),
                    ec@ == e@,
                    found == spec_wanted_exts().take(i as int).contains(e@),
                decreases v@.len() - i,
            {
                let ghost w = spec_wanted_exts();
                assert(w.take(i + 1) =~= w.take(i as int).push(w[i as int]));
                assert(w[i as int] == v@[i as int]@);
                let hit = seq_eq(&to_chars(v[i]), &ec);
                proof {
                    let t0 = w.take(i as int);
                    let t1 = w.take(i + 1);
                    if t1.contains(e@) && !hit {
                        let q = choose|q: int| 0 <= q < t1.len() && #[trigger] t1[q] == e@;
                        assert(q != i);
                        assert(t0[q] == e@);
                    }
                    if t0.contains(e@) {
                        let q = choose|q: int| 0 <= q < t0.len() && #[trigger] t0[q] == e@;
                        assert(t1[q] == e@);
                    }
                    if hit {
                        assert(t1[i as int] == e@);
                    }
                }
                found = found || hit;
                i = i + 1;
            }
            assert(spec_wanted_exts().take(v@.len() as int) =~= spec_wanted_exts());
            found
        },
        None => false,
    };
    if !wanted {
        return false;
    }
    let mut j: usize = 0;
    while j < components.len()
        invariant
            j <= components@.len(),
            cv == components@.map_values(|s: String| s@),
            forall|q: int| 0 <= q < j ==> cv[q] != "snapshots"@,
        decreases components@.len() - j,
    {
        assert(cv[j as int] == components@[j as int]@);
        if crate::text::eq_lit(&to_chars(components[j].as_str()), "snapshots") {
            return false;
        }
        j = j + 1;
    }
    assert(!cv.contains("snapshots"@)) by {
        if cv.contains("snapshots"@) {
            let q = choose|q: int| 0 <= q < cv.len() && #[trigger] cv[q] == "snapshots"@;
        }
    }
    true
}

/// Generated files whose names follow a type or package the rewrite
/// renamed: (old file name, new file name).
pub open spec fn spec_file_renames() -> Seq<(Seq<char>, Seq<char>)> {
    seq![
        ("CodexErrorInfo.ts"@, "LemurclawErrorInfo.ts"@),
        ("CodexErrorInfo.json"@, "LemurclawErrorInfo.json"@),
        ("codex.thread_config.v1.rs"@, "lemurclaw.thread_config.v1.rs"@),
        ("codex.thread_config.v1.proto"@, "lemurclaw.thread_config.v1.proto"@),
        ("codex.exec_server.relay.v1.rs"@, "lemurclaw.exec_server.relay.v1.rs"@),
        ("codex.exec_server.relay.v1.proto"@, "lemurclaw.exec_server.relay.v1.proto"@),
    ]
}

/// The new name of the first rename whose old name is `name`.
pub open spec fn renamed_file(renames: Seq<(Seq<char>, Seq<char>)>, name: Seq<char>) -> Option<Seq<char>>
    decreases renames.len(),
{
    if renames.len() == 0 {
        None
    } else if renames[0].0 == name {
        Some(renames[0].1)
    } else {
        renamed_file(renames.drop_first(), name)
    }
}

/// The name a generated file gets (see [`spec_file_renames`]); none when
/// it keeps its name.
pub fn brand_file_rename(file_name: &str) -> (r: Option<&'static str>)
    ensures
        match r {
            Some(n) => renamed_file(spec_file_renames(), file_name@) == Some(n@),
            None => renamed_file(spec_file_renames(), file_name@) is None,
        },
{
    let v: Vec<(&'static str, &'static str)> = vec![
        ("CodexErrorInfo.ts", "LemurclawErrorInfo.ts"),
        ("CodexErrorInfo.json", "LemurclawErrorInfo.json"),
        ("codex.thread_config.v1.rs", "lemurclaw.thread_config.v1.rs"),
        ("codex.thread_config.v1.proto", "lemurclaw.thread_config.v1.proto"),
        ("codex.exec_server.relay.v1.rs", "lemurclaw.exec_server.relay.v1.rs"),
        ("codex.exec_server.relay.v1.proto", "lemurclaw.exec_server.relay.v1.proto"),
    ];
    let ghost rv = spec_file_renames();
    assert(v@.map_values(|p: (&str, &str)| (p.0@, p.1@)) =~= rv);
    let f = to_chars(file_name);
    let mut i: usize = 0;
    assert(rv.skip(0) =~= rv);
    while i < v.len()
        invariant
            i <= v@.len(),
            v@.map_values(|p: (&str, &str)| (p.0@, p.1@)) == rv,
            rv == spec_file_renames(),
            f@ == file_name@,
            renamed_file(rv, file_name@) == renamed_file(rv.skip(i as int), file_name@),
        decreases v@.len() - i,
    {
        assert(rv.skip(i as int)[0] == rv[i as int]);
        assert(rv[i as int] == (v@[i as int].0@, v@[i as int].1@));
        assert(rv.skip(i as int).drop_first() =~= rv.skip(i + 1));
        if seq_eq(&to_chars(v[i].0), &f) {
            assert(rv.skip(i as int)[0].0 == file_name@);
            assert(renamed_file(rv.skip(i as int), file_name@) == Some(rv.skip(i as int)[0].1));
            let n = v[i].1;
            assert(n@ == rv[i as int].1);
            assert(renamed_file(rv, file_name@) == Some(n@));
            return Some(n);
        }
        i = i + 1;
    }
    assert(rv.skip(v@.len() as int) =~= Seq::<(Seq<char>, Seq<char>)>::empty());
    None
}


// ---------------------------------------------------------------------------
// Placeholders and the rewrite's patterns
// ---------------------------------------------------------------------------

/// Whether `p` holds an `x` or an `X` at index `i` or after.
pub open spec fn has_x_from(p: Seq<char>, i: nat) -> bool
    decreases p.len() - i,
{
    if i >= p.len() {
        false
    } else {
        p[i as int] == 'x' || p[i as int] == 'X' || has_x_from(p, i + 1)
    }
}

proof fn lemma_has_x_from(p: Seq<char>, i: nat)
    requires
        has_x_from(p, i),
    ensures
        exists|j: int| i <= j < p.len() && (p[j] == 'x' || p[j] == 'X'),
    decreases p.len() - i,
{
    if !(p[i as int] == 'x' || p[i as int] == 'X') {
        lemma_has_x_from(p, i + 1);
    }
}

proof fn lemma_dec_no_x(n: nat)
    ensures
        forall|j: int| 0 <= j < crate::text::dec(n).len() ==> crate::text::dec(n)[j] != 'x' && crate::text::dec(n)[j] != 'X',
    decreases n,
{
    assert forall|d: nat| d < 10 implies crate::text::digit_char(d) != 'x' && crate::text::digit_char(d) != 'X' by {
        assert((d + 48) as u32 == d + 48);
    }
    if n >= 10 {
        lemma_dec_no_x(n / 10);
        assert forall|j: int| 0 <= j < crate::text::dec(n).len() implies crate::text::dec(n)[j] != 'x' && crate::text::dec(n)[j] != 'X' by {
            if j < crate::text::dec(n / 10).len() {
                assert(crate::text::dec(n)[j] == crate::text::dec(n / 10)[j]);
            } else {
                assert(crate::text::dec(n)[j] == crate::text::digit_char(n % 10));
            }
        }
    }
}

proof fn lemma_marker_no_x(n: nat)
    ensures
        forall|j: int| 0 <= j < marker(n).len() ==> marker(n)[j] != 'x' && marker(n)[j] != 'X',
{
    reveal_strlit("BRAND_PROTECT_");
    lemma_dec_no_x(n);
    let m = marker(n);
    let body = "BRAND_PROTECT_"@;
    assert forall|j: int| 0 <= j < m.len() implies m[j] != 'x' && m[j] != 'X' by {
        if j == 0 || j == m.len() - 1 {
        } else if j < 1 + body.len() {
            assert(m[j] == body[j - 1]);
        } else {
            assert(m[j] == crate::text::dec(n)[j - 1 - body.len()]);
        }
    }
}

proof fn lemma_x_pattern_misses_marker(p: Seq<char>, n: nat)
    requires
        has_x_from(p, 0),
    ensures
        !contains(marker(n), p),
{
    lemma_has_x_from(p, 0);
    lemma_marker_no_x(n);
    if contains(marker(n), p) {
        let i = crate::text::find(marker(n), p)->0;
        crate::text::lemma_find_from(marker(n), p, 0);
        let j = choose|j: int| 0 <= j < p.len() && (p[j] == 'x' || p[j] == 'X');
        assert(marker(n).subrange(i, i + p.len())[j] == marker(n)[i + j]);
    }
}

/// No pattern of the rewrite occurs in a placeholder: each rule's pattern,
/// and each word the prose pass replaces, holds an `x` or an `X`, which no
/// placeholder holds, and a placeholder is fenced by `\0`, which no pattern
/// holds. So no match can reach into a stashed token's placeholder.
pub proof fn lemma_patterns_miss_placeholders(n: nat)
    ensures
        forall|k: int| 0 <= k < spec_brand_rules().len() ==> !contains(marker(n), #[trigger] spec_brand_rules()[k].0),
        !contains(marker(n), "Codex"@),
        !contains(marker(n), "codex"@),
{
    {
        reveal_strlit("\"CODEX_SANDBOX_NETWORK_DISABLED\"");
        reveal_strlit("\"CODEX_SANDBOX\"");
        reveal_strlit("\"CODEX_HOME\"");
        reveal_strlit("\"CODEX_API_KEY\"");
        reveal_strlit("\"CODEX_ACCESS_TOKEN\"");
        reveal_strlit("\"CODEX_SQLITE_HOME\"");
        reveal_strlit("\"CODEX_CA_CERTIFICATE\"");
        reveal_strlit("\"CODEX_PERMISSION_PROFILE\"");
        reveal_strlit("\"CODEX_THREAD_ID\"");
        reveal_strlit("\"CODEX_ESCALATE_SOCKET\"");
        reveal_strlit("\"CODEX_ROLLOUT_TRACE_ROOT\"");
        reveal_strlit("\"CODEX_CONNECTORS_TOKEN\"");
        reveal_strlit("\"CODEX_CODE_MODE_HOST_PATH\"");
        reveal_strlit("\"CODEX_EXEC_SERVER_URL\"");
        reveal_strlit("\"CODEX_EXEC_SERVER_NOISE_AUTH_TOKEN\"");
        reveal_strlit("\"CODEX_AUTHAPI_BASE_URL\"");
        reveal_strlit("\"CODEX_REFRESH_TOKEN_URL_OVERRIDE\"");
        reveal_strlit("\"CODEX_REVOKE_TOKEN_URL_OVERRIDE\"");
        reveal_strlit("\"CODEX_APP_SERVER_LOGIN_CLIENT_ID\"");
        reveal_strlit("\"CODEX_INTERNAL_ORIGINATOR_OVERRIDE\"");
        reveal_strlit("\"CODEX_NETWORK_PROXY_ACTIVE\"");
        reveal_strlit("\"CODEX_NETWORK_ALLOW_LOCAL_BINDING\"");
        reveal_strlit("\"CODEX_NETWORK_PROXY_CREDENTIAL_BROKER_ACTIVE\"");
        reveal_strlit("\"CODEX_NETWORK_PROXY_BROKERED_CREDENTIALS\"");
        reveal_strlit("\"CODEX_NETWORK_PROXY_ATTRIBUTION\"");
        reveal_strlit("\"CODEX_NETWORK_POLICY_VIOLATION\"");
        reveal_strlit("\"CODEX_PROXY_GIT_SSH_COMMAND\"");
        reveal_strlit("CODEX_MANAGED_BY_NPM");
        reveal_strlit("CODEX_MANAGED_BY_PNPM");
        reveal_strlit("CODEX_MANAGED_BY_BUN");
        reveal_strlit("CODEX_MANAGED_PACKAGE_ROOT");
        reveal_strlit("CODEX_CLOUD_TASKS_BASE_URL");
        reveal_strlit("CODEX_CLOUD_TASKS_MODE");
        reveal_strlit("CODEX_CLOUD_TASKS_FORCE_INTERNAL");
        reveal_strlit("CODEX_REMOTE_AUTH_TOKEN");
        reveal_strlit("CODEX_GITHUB_TOKEN");
        reveal_strlit("CODEX_STARTING_DIFF");
        reveal_strlit("\"CODEX_");
        reveal_strlit(".codex\"");
        reveal_strlit("/etc/codex");
        reveal_strlit("~/.codex");
        reveal_strlit("(\".codex\")");
        reveal_strlit("--codex-");
        reveal_strlit("codex://");
        reveal_strlit("codex.thread_config.v1");
        reveal_strlit("codex.exec_server.relay.v1");
        reveal_strlit("codex_app_server_daemon");
        reveal_strlit("codex-linux-sandbox");
        reveal_strlit("codex-execve-wrapper");
        reveal_strlit("CodexErrorInfo");
        reveal_strlit("codex.thread.");
        reveal_strlit("codex.windows_sandbox.");
        reveal_strlit("codex.apps.refresh.");
        reveal_strlit("codex.apps.installed.");
        reveal_strlit("codex.cloud_config_bundle.");
        reveal_strlit("Codex");
        reveal_strlit("codex");
    }
    reveal_with_fuel(has_x_from, 12);
    assert(has_x_from("Codex"@, 0));
    assert(has_x_from("codex"@, 0));
    lemma_x_pattern_misses_marker("Codex"@, n);
    lemma_x_pattern_misses_marker("codex"@, n);
    assert forall|k: int| 0 <= k < spec_brand_rules().len() implies has_x_from(spec_brand_rules()[k].0, 0) by {
        assert(has_x_from(spec_brand_rules()[0].0, 0));
        assert(has_x_from(spec_brand_rules()[1].0, 0));
        assert(has_x_from(spec_brand_rules()[2].0, 0));
        assert(has_x_from(spec_brand_rules()[3].0, 0));
        assert(has_x_from(spec_brand_rules()[4].0, 0));
        assert(has_x_from(spec_brand_rules()[5].0, 0));
        assert(has_x_from(spec_brand_rules()[6].0, 0));
        assert(has_x_from(spec_brand_rules()[7].0, 0));
        assert(has_x_from(spec_brand_rules()[8].0, 0));
        assert(has_x_from(spec_brand_rules()[9].0, 0));
        assert(has_x_from(spec_brand_rules()[10].0, 0));
        assert(has_x_from(spec_brand_rules()[11].0, 0));
        assert(has_x_from(spec_brand_rules()[12].0, 0));
        assert(has_x_from(spec_brand_rules()[13].0, 0));
        assert(has_x_from(spec_brand_rules()[14].0, 0));
        assert(has_x_from(spec_brand_rules()[15].0, 0));
        assert(has_x_from(spec_brand_rules()[16].0, 0));
        assert(has_x_from(spec_brand_rules()[17].0, 0));
        assert(has_x_from(spec_brand_rules()[18].0, 0));
        assert(has_x_from(spec_brand_rules()[19].0, 0));
        assert(has_x_from(spec_brand_rules()[20].0, 0));
        assert(has_x_from(spec_brand_rules()[21].0, 0));
        assert(has_x_from(spec_brand_rules()[22].0, 0));
        assert(has_x_from(spec_brand_rules()[23].0, 0));
        assert(has_x_from(spec_brand_rules()[24].0, 0));
        assert(has_x_from(spec_brand_rules()[25].0, 0));
        assert(has_x_from(spec_brand_rules()[26].0, 0));
        assert(has_x_from(spec_brand_rules()[27].0, 0));
        assert(has_x_from(spec_brand_rules()[28].0, 0));
        assert(has_x_from(spec_brand_rules()[29].0, 0));
        assert(has_x_from(spec_brand_rules()[30].0, 0));
        assert(has_x_from(spec_brand_rules()[31].0, 0));
        assert(has_x_from(spec_brand_rules()[32].0, 0));
        assert(has_x_from(spec_brand_rules()[33].0, 0));
        assert(has_x_from(spec_brand_rules()[34].0, 0));
        assert(has_x_from(spec_brand_rules()[35].0, 0));
        assert(has_x_from(spec_brand_rules()[36].0, 0));
        assert(has_x_from(spec_brand_rules()[37].0, 0));
        assert(has_x_from(spec_brand_rules()[38].0, 0));
        assert(has_x_from(spec_brand_rules()[39].0, 0));
        assert(has_x_from(spec_brand_rules()[40].0, 0));
        assert(has_x_from(spec_brand_rules()[41].0, 0));
        assert(has_x_from(spec_brand_rules()[42].0, 0));
        assert(has_x_from(spec_brand_rules()[43].0, 0));
        assert(has_x_from(spec_brand_rules()[44].0, 0));
        assert(has_x_from(spec_brand_rules()[45].0, 0));
        assert(has_x_from(spec_brand_rules()[46].0, 0));
        assert(has_x_from(spec_brand_rules()[47].0, 0));
        assert(has_x_from(spec_brand_rules()[48].0, 0));
        assert(has_x_from(spec_brand_rules()[49].0, 0));
        assert(has_x_from(spec_brand_rules()[50].0, 0));
        assert(has_x_from(spec_brand_rules()[51].0, 0));
        assert(has_x_from(spec_brand_rules()[52].0, 0));
        assert(has_x_from(spec_brand_rules()[53].0, 0));
        assert(has_x_from(spec_brand_rules()[54].0, 0));
    }
    assert forall|k: int| 0 <= k < spec_brand_rules().len() implies !contains(marker(n), #[trigger] spec_brand_rules()[k].0) by {
        lemma_x_pattern_misses_marker(spec_brand_rules()[k].0, n);
    }
}

// ---------------------------------------------------------------------------
// The rewrite over the files of a tree
// ---------------------------------------------------------------------------

/// A file of the publish tree as the full brand rewrite sees it: its path
/// components, its extension when that is UTF-8, and its text when the
/// file reads as UTF-8.
pub struct TreeFile {
    pub components: Vec<String>,
    pub ext: Option<String>,
    pub text: Option<String>,
}

pub open spec fn opt_string_view(o: Option<String>) -> Option<Seq<char>> {
    match o {
        Some(s) => Some(s@),
        None => None,
    }
}

/// What the full brand rewrite does to one file: the text to write back
/// (when the file is scanned, reads as UTF-8 and its text changes) and the
/// number of replacements made in it.
pub open spec fn spec_brand_file(f: TreeFile) -> (Option<Seq<char>>, nat) {
    let ext = opt_string_view(f.ext);
    match f.text {
        Some(raw) => if spec_brand_scans(f.components@.map_values(|s: String| s@), ext) {
            let (new, c) = spec_brand_full_text(
                raw@,
                match ext {
                    Some(e) => e,
                    None => seq![],
                },
                spec_protected_tokens(),
            );
            (if new != raw@ {
                Some(new)
            } else {
                None
            }, c)
        } else {
            (None, 0)
        },
        None => (None, 0),
    }
}

/// The full brand rewrite of the files of a tree: for each file, the text
/// to write back and the replacements made (see [`spec_brand_file`]);
/// every other file keeps its bytes.
pub fn rewrite_brand_full_files(files: &[TreeFile]) -> (r: Vec<(Option<String>, usize)>)
    requires
        forall|i: int| 0 <= i < files@.len() ==> #[trigger] spec_brand_file(files@[i]).1 <= usize::MAX,
    ensures
        r@.len() == files@.len(),
        forall|i: int|
            0 <= i < files@.len() ==> opt_string_view(#[trigger] r@[i].0) == spec_brand_file(files@[i]).0
                && r@[i].1 == spec_brand_file(files@[i]).1,
{
    let protected = protected_tokens();
    let mut out: Vec<(Option<String>, usize)> = Vec::new();
    let mut i: usize = 0;
    while i < files.len()
        invariant
            i <= files@.len(),
            out@.len() == i,
            strs_view(protected@) == spec_protected_tokens(),
            forall|i: int| 0 <= i < files@.len() ==> #[trigger] spec_brand_file(files@[i]).1 <= usize::MAX,
            forall|k: int|
                0 <= k < i ==> opt_string_view(#[trigger] out@[k].0) == spec_brand_file(files@[k]).0
                    && out@[k].1 == spec_brand_file(files@[k]).1,
        decreases files@.len() - i,
    {
        let f = &files[i];
        assert(spec_brand_file(files@[i as int]).1 <= usize::MAX);
        let ext: Option<&str> = match &f.ext {
            Some(e) => Some(e.as_str()),
            None => None,
        };
        let entry: (Option<String>, usize) = match &f.text {
            Some(raw) => {
                if brand_scans_file(f.components.as_slice(), ext) {
                    let mut occ: usize = 0;
                    let new = rewrite_brand_full_text(
                        raw.as_str(),
                        match ext {
                            Some(e) => e,
                            None => "",
                        },
                        protected.as_slice(),
                        &mut occ,
                    );
                    if seq_eq(&to_chars(new.as_str()), &to_chars(raw.as_str())) {
                        (None, occ)
                    } else {
                        (Some(new), occ)
                    }
                } else {
                    (None, 0)
                }
            },
            None => (None, 0),
        };
        out.push(entry);
        i = i + 1;
    }
    out
}

// ---------------------------------------------------------------------------
// A text without anything to rewrite
// ---------------------------------------------------------------------------

proof fn lemma_no_match_count(s: Seq<char>, p: Seq<char>)
    requires
        forall|j: int| 0 <= j ==> !matches_at(s, j, p),
    ensures
        count_matches(s, p) == 0,
    decreases s.len(),
{
    if p.len() > 0 && s.len() >= p.len() {
        assert(!matches_at(s, 0, p));
        assert forall|j: int| 0 <= j implies !matches_at(s.drop_first(), j, p) by {
            if matches_at(s.drop_first(), j, p) {
                assert(s.subrange(j + 1, j + 1 + p.len()) =~= s.drop_first().subrange(j, j + p.len()));
                assert(matches_at(s, j + 1, p));
            }
        }
        lemma_no_match_count(s.drop_first(), p);
    }
}

proof fn lemma_mark_all_none(s: Seq<char>, tok: Seq<char>, n: nat)
    requires
        forall|j: int| 0 <= j ==> !matches_at(s, j, tok),
    ensures
        mark_all(s, tok, n) == (s, n),
    decreases s.len(),
{
    if tok.len() > 0 && s.len() >= tok.len() {
        assert(!matches_at(s, 0, tok));
        assert forall|j: int| 0 <= j implies !matches_at(s.drop_first(), j, tok) by {
            if matches_at(s.drop_first(), j, tok) {
                assert(s.subrange(j + 1, j + 1 + tok.len()) =~= s.drop_first().subrange(j, j + tok.len()));
                assert(matches_at(s, j + 1, tok));
            }
        }
        lemma_mark_all_none(s.drop_first(), tok, n);
        assert(seq![s[0]] + s.drop_first() =~= s);
    }
}

proof fn lemma_stash_none(raw: Seq<char>, toks: Seq<Seq<char>>)
    requires
        forall|i: int| 0 <= i < toks.len() ==> #[trigger] toks[i].len() > 0 && !contains(raw, toks[i]),
    ensures
        stash(raw, toks) == (raw, Seq::<Seq<char>>::empty()),
    decreases toks.len(),
{
    if toks.len() > 0 {
        let prev = toks.drop_last();
        assert forall|i: int| 0 <= i < prev.len() implies #[trigger] prev[i].len() > 0 && !contains(raw, prev[i]) by {
            assert(prev[i] == toks[i]);
        }
        lemma_stash_none(raw, prev);
        let tok = toks.last();
        assert(tok.len() > 0 && !contains(raw, tok));
        crate::text::lemma_find_from(raw, tok, 0);
        lemma_mark_all_none(raw, tok, 0);
        assert(copies(tok, 0) =~= Seq::<Seq<char>>::empty());
        assert(Seq::<Seq<char>>::empty() + Seq::<Seq<char>>::empty() =~= Seq::<Seq<char>>::empty());
    }
}

proof fn lemma_apply_rules_none(s: Seq<char>, rules: Seq<(Seq<char>, Seq<char>)>)
    requires
        forall|i: int| 0 <= i < rules.len() ==> !contains(s, #[trigger] rules[i].0),
    ensures
        apply_rules(s, rules) == (s, 0nat),
    decreases rules.len(),
{
    if rules.len() > 0 {
        let prev = rules.drop_last();
        assert forall|i: int| 0 <= i < prev.len() implies !contains(s, #[trigger] prev[i].0) by {
            assert(prev[i] == rules[i]);
        }
        lemma_apply_rules_none(s, prev);
        let (f, r) = rules.last();
        assert(!contains(s, rules[rules.len() - 1].0));
        crate::text::lemma_find_from(s, f, 0);
        lemma_no_match_count(s, f);
        crate::text::lemma_count_zero_replace_noop(s, f, r);
    }
}

proof fn lemma_word_replace_none(s: Seq<char>, needle: Seq<char>, repl: Seq<char>, i: int)
    requires
        0 <= i,
        forall|j: int| 0 <= j ==> !matches_at(s, j, needle),
    ensures
        word_replace(s, needle, repl, i) == (s.skip(i), 0nat),
    decreases s.len() - i,
{
    if i < s.len() && needle.len() > 0 {
        lemma_word_replace_none(s, needle, repl, i + 1);
        assert(seq![s[i]] + s.skip(i + 1) =~= s.skip(i));
    }
}

/// A text in which none of the protected tokens (each non-empty), none of
/// the rules' patterns, and neither `Codex` nor `codex` occurs comes
/// through the full rewrite unchanged, with no replacement counted.
pub proof fn lemma_brand_full_text_untouched(raw: Seq<char>, ext: Seq<char>, protected: Seq<Seq<char>>)
    requires
        forall|i: int| 0 <= i < protected.len() ==> #[trigger] protected[i].len() > 0 && !contains(raw, protected[i]),
        forall|i: int| 0 <= i < spec_brand_rules().len() ==> !contains(raw, #[trigger] spec_brand_rules()[i].0),
        !contains(raw, "Codex"@),
        !contains(raw, "codex"@),
    ensures
        spec_brand_full_text(raw, ext, protected) == (raw, 0nat),
{
    lemma_stash_none(raw, protected);
    lemma_apply_rules_none(raw, spec_brand_rules());
    crate::text::lemma_find_from(raw, "Codex"@, 0);
    crate::text::lemma_find_from(raw, "codex"@, 0);
    lemma_word_replace_none(raw, "Codex"@, "lemurclaw"@, 0);
    lemma_word_replace_none(raw, "codex"@, "lemurclaw"@, 0);
    assert(raw.skip(0) =~= raw);
}

// ---------------------------------------------------------------------------
// A text that never mentions `codex`
// ---------------------------------------------------------------------------

/// The code of a character with ASCII capitals lowered.
pub open spec fn lower_code(c: char) -> u32 {
    let u = c as u32;
    if 65 <= u && u <= 90 {
        (u + 32) as u32
    } else {
        u
    }
}

/// `codex`, in any ASCII case, stands at `i` in `s`.
pub open spec fn codex_ci_at(s: Seq<char>, i: int) -> bool {
    &&& 0 <= i
    &&& i + 5 <= s.len()
    &&& lower_code(s[i]) == 99
    &&& lower_code(s[i + 1]) == 111
    &&& lower_code(s[i + 2]) == 100
    &&& lower_code(s[i + 3]) == 101
    &&& lower_code(s[i + 4]) == 120
}

/// `codex` occurs in `s` in some ASCII case (`s.to_ascii_lowercase()`
/// contains `codex`).
pub open spec fn mentions_codex(s: Seq<char>) -> bool {
    exists|i: int| codex_ci_at(s, i)
}

/// `codex` stands at `k` in `p` in a form that no lone word `Codex` can
/// take: some letter differs from `Codex`, or a word character touches it.
pub open spec fn codex_not_lone_word_at(p: Seq<char>, k: int) -> bool {
    &&& codex_ci_at(p, k)
    &&& (p[k] != 'C' || p[k + 1] != 'o' || p[k + 2] != 'd' || p[k + 3] != 'e' || p[k + 4] != 'x'
        || (k + 5 < p.len() && is_ident_char(p[k + 5])) || (k > 0 && is_ident_char(p[k - 1])))
}

/// `p` holds `codex` (in some case) in a form that no lone word `Codex` can take.
pub open spec fn never_lone_codex(p: Seq<char>) -> bool {
    exists|k: int| codex_not_lone_word_at(p, k)
}

/// `codex` stands at `k` in `p` in a form that no lowercase word `codex`
/// set off by white space can take: some letter differs from `codex`, or a
/// character other than white space touches it.
pub open spec fn codex_not_spaced_at(p: Seq<char>, k: int) -> bool {
    &&& codex_ci_at(p, k)
    &&& (p[k] != 'c' || p[k + 1] != 'o' || p[k + 2] != 'd' || p[k + 3] != 'e' || p[k + 4] != 'x'
        || (k + 5 < p.len() && !is_ws(p[k + 5])) || (k > 0 && !is_ws(p[k - 1])))
}

/// `p` holds `codex` (in some case) in a form that no lowercase word `codex`
/// set off by white space can take.
pub open spec fn never_spaced_codex(p: Seq<char>) -> bool {
    exists|k: int| codex_not_spaced_at(p, k)
}

proof fn lemma_match_carries_codex(s: Seq<char>, j: int, p: Seq<char>, k: int)
    requires
        matches_at(s, j, p),
        codex_ci_at(p, k),
    ensures
        codex_ci_at(s, j + k),
{
    let w = s.subrange(j, j + p.len());
    assert(w[k] == s[j + k]);
    assert(w[k + 1] == s[j + k + 1]);
    assert(w[k + 2] == s[j + k + 2]);
    assert(w[k + 3] == s[j + k + 3]);
    assert(w[k + 4] == s[j + k + 4]);
}

/// A text that never mentions `codex` holds no occurrence of a pattern
/// that does.
proof fn lemma_absent_pattern(s: Seq<char>, p: Seq<char>)
    requires
        !mentions_codex(s),
        mentions_codex(p),
    ensures
        !contains(s, p),
{
    crate::text::lemma_find_from(s, p, 0);
    if contains(s, p) {
        let j = crate::text::find(s, p)->Some_0;
        let k = choose|k: int| codex_ci_at(p, k);
        lemma_match_carries_codex(s, j, p, k);
        assert(codex_ci_at(s, j + k));
    }
}

proof fn lemma_tokens_mention_codex_first()
    ensures
        forall|i: int| 0 <= i < 26 ==> mentions_codex(#[trigger] spec_protected_tokens()[i]),
        forall|i: int| 0 <= i < 26 ==> never_lone_codex(#[trigger] spec_protected_tokens()[i]),
        forall|i: int| 0 <= i < 26 ==> never_spaced_codex(#[trigger] spec_protected_tokens()[i]),
{
    reveal_strlit("gpt-5.3-codex");
    reveal_strlit("gpt-5.2-codex");
    reveal_strlit("gpt-5.1-codex");
    reveal_strlit("gpt-5-codex");
    reveal_strlit("gpt-5.1-codex-max");
    reveal_strlit("gpt-5.2-codex-sonic");
    reveal_strlit("codex_cli_rs");
    reveal_strlit("codex-tui");
    reveal_strlit("codex_vscode");
    reveal_strlit("codex_atlas");
    reveal_strlit("codex_chatgpt_desktop");
    reveal_strlit("codex_desktop");
    reveal_strlit("codex-cli");
    reveal_strlit("codex-app-server-sdk");
    reveal_strlit("codex_sdk_ts");
    reveal_strlit("codex-app-server");
    reveal_strlit("codex_exec");
    reveal_strlit("codex_app_mentioned");
    reveal_strlit("codex_app_used");
    reveal_strlit("codex_thread_initialized");
    reveal_strlit("codex_turn_event");
    reveal_strlit("codex_turn_steer_event");
    reveal_strlit("codex_goal_event");
    reveal_strlit("codex_guardian_review");
    reveal_strlit("codex_hook_run");
    reveal_strlit("codex_review_event");
    assert forall|i: int| 0 <= i < 26 implies mentions_codex(#[trigger] spec_protected_tokens()[i]) && never_lone_codex(spec_protected_tokens()[i]) && never_spaced_codex(spec_protected_tokens()[i]) by {
        if i == 0 {
            assert(codex_not_lone_word_at(spec_protected_tokens()[0], 8));
            assert(codex_not_spaced_at(spec_protected_tokens()[0], 8));
        } else if i == 1 {
            assert(codex_not_lone_word_at(spec_protected_tokens()[1], 8));
            assert(codex_not_spaced_at(spec_protected_tokens()[1], 8));
        } else if i == 2 {
            assert(codex_not_lone_word_at(spec_protected_tokens()[2], 8));
            assert(codex_not_spaced_at(spec_protected_tokens()[2], 8));
        } else if i == 3 {
            assert(codex_not_lone_word_at(spec_protected_tokens()[3], 6));
            assert(codex_not_spaced_at(spec_protected_tokens()[3], 6));
        } else if i == 4 {
            assert(codex_not_lone_word_at(spec_protected_tokens()[4], 8));
            assert(codex_not_spaced_at(spec_protected_tokens()[4], 8));
        } else if i == 5 {
            assert(codex_not_lone_word_at(spec_protected_tokens()[5], 8));
            assert(codex_not_spaced_at(spec_protected_tokens()[5], 8));
        } else if i == 6 {
            assert(codex_not_lone_word_at(spec_protected_tokens()[6], 0));
            assert(codex_not_spaced_at(spec_protected_tokens()[6], 0));
        } else if i == 7 {
            assert(codex_not_lone_word_at(spec_protected_tokens()[7], 0));
            assert(codex_not_spaced_at(spec_protected_tokens()[7], 0));
        } else if i == 8 {
            assert(codex_not_lone_word_at(spec_protected_tokens()[8], 0));
            assert(codex_not_spaced_at(spec_protected_tokens()[8], 0));
        } else if i == 9 {
            assert(codex_not_lone_word_at(spec_protected_tokens()[9], 0));
            assert(codex_not_spaced_at(spec_protected_tokens()[9], 0));
        } else if i == 10 {
            assert(codex_not_lone_word_at(spec_protected_tokens()[10], 0));
            assert(codex_not_spaced_at(spec_protected_tokens()[10], 0));
        } else if i == 11 {
            assert(codex_not_lone_word_at(spec_protected_tokens()[11], 0));
            assert(codex_not_spaced_at(spec_protected_tokens()[11], 0));
        } else if i == 12 {
            assert(codex_not_lone_word_at(spec_protected_tokens()[12], 0));
            assert(codex_not_spaced_at(spec_protected_tokens()[12], 0));
        } else if i == 13 {
            assert(codex_not_lone_word_at(spec_protected_tokens()[13], 0));
            assert(codex_not_spaced_at(spec_protected_tokens()[13], 0));
        } else if i == 14 {
            assert(codex_not_lone_word_at(spec_protected_tokens()[14], 0));
            assert(codex_not_spaced_at(spec_protected_tokens()[14], 0));
        } else if i == 15 {
            assert(codex_not_lone_word_at(spec_protected_tokens()[15], 0));
            assert(codex_not_spaced_at(spec_protected_tokens()[15], 0));
        } else if i == 16 {
            assert(codex_not_lone_word_at(spec_protected_tokens()[16], 0));
            assert(codex_not_spaced_at(spec_protected_tokens()[16], 0));
        } else if i == 17 {
            assert(codex_not_lone_word_at(spec_protected_tokens()[17], 0));
            assert(codex_not_spaced_at(spec_protected_tokens()[17], 0));
        } else if i == 18 {
            assert(codex_not_lone_word_at(spec_protected_tokens()[18], 0));
            assert(codex_not_spaced_at(spec_protected_tokens()[18], 0));
        } else if i == 19 {
            assert(codex_not_lone_word_at(spec_protected_tokens()[19], 0));
            assert(codex_not_spaced_at(spec_protected_tokens()[19], 0));
        } else if i == 20 {
            assert(codex_not_lone_word_at(spec_protected_tokens()[20], 0));
            assert(codex_not_spaced_at(spec_protected_tokens()[20], 0));
        } else if i == 21 {
            assert(codex_not_lone_word_at(spec_protected_tokens()[21], 0));
            assert(codex_not_spaced_at(spec_protected_tokens()[21], 0));
        } else if i == 22 {
            assert(codex_not_lone_word_at(spec_protected_tokens()[22], 0));
            assert(codex_not_spaced_at(spec_protected_tokens()[22], 0));
        } else if i == 23 {
            assert(codex_not_lone_word_at(spec_protected_tokens()[23], 0));
            assert(codex_not_spaced_at(spec_protected_tokens()[23], 0));
        } else if i == 24 {
            assert(codex_not_lone_word_at(spec_protected_tokens()[24], 0));
            assert(codex_not_spaced_at(spec_protected_tokens()[24], 0));
        } else if i == 25 {
            assert(codex_not_lone_word_at(spec_protected_tokens()[25], 0));
            assert(codex_not_spaced_at(spec_protected_tokens()[25], 0));
        }
    }
}

proof fn lemma_tokens_mention_codex_rest()
    ensures
        forall|i: int| 26 <= i < 51 ==> mentions_codex(#[trigger] spec_protected_tokens()[i]),
        forall|i: int| 26 <= i < 51 ==> never_lone_codex(#[trigger] spec_protected_tokens()[i]),
        forall|i: int| 26 <= i < 51 ==> never_spaced_codex(#[trigger] spec_protected_tokens()[i]),
{
    reveal_strlit("codex_command_execution_event");
    reveal_strlit("codex_compaction_event");
    reveal_strlit("codex_web_search_event");
    reveal_strlit("codex_image_generation_event");
    reveal_strlit("codex_mcp_tool_call_event");
    reveal_strlit("codex_dynamic_tool_call_event");
    reveal_strlit("codex_collab_agent_tool_call_event");
    reveal_strlit("codex_file_change_event");
    reveal_strlit("codex_plugin_used");
    reveal_strlit("codex_plugin_enabled");
    reveal_strlit("codex_plugin_disabled");
    reveal_strlit("codex_plugin_installed");
    reveal_strlit("codex_plugin_uninstalled");
    reveal_strlit("codex_plugin_install_requested");
    reveal_strlit("codex_plugin_install_failed");
    reveal_strlit("codex_onboarding_external_agent_import_complete");
    reveal_strlit("codex_onboarding_external_agent_import_failure");
    reveal_strlit("codexErrorInfo");
    reveal_strlit("openai/codex");
    reveal_strlit("chatgpt.com/codex");
    reveal_strlit("developers.openai.com/codex");
    reveal_strlit("community.openai.com/c/codex");
    reveal_strlit("@openai/codex");
    reveal_strlit("com.openai.codex");
    reveal_strlit("codex-backend");
    assert forall|i: int| 26 <= i < 51 implies mentions_codex(#[trigger] spec_protected_tokens()[i]) && never_lone_codex(spec_protected_tokens()[i]) && never_spaced_codex(spec_protected_tokens()[i]) by {
        if i == 26 {
            assert(codex_not_lone_word_at(spec_protected_tokens()[26], 0));
            assert(codex_not_spaced_at(spec_protected_tokens()[26], 0));
        } else if i == 27 {
            assert(codex_not_lone_word_at(spec_protected_tokens()[27], 0));
            assert(codex_not_spaced_at(spec_protected_tokens()[27], 0));
        } else if i == 28 {
            assert(codex_not_lone_word_at(spec_protected_tokens()[28], 0));
            assert(codex_not_spaced_at(spec_protected_tokens()[28], 0));
        } else if i == 29 {
            assert(codex_not_lone_word_at(spec_protected_tokens()[29], 0));
            assert(codex_not_spaced_at(spec_protected_tokens()[29], 0));
        } else if i == 30 {
            assert(codex_not_lone_word_at(spec_protected_tokens()[30], 0));
            assert(codex_not_spaced_at(spec_protected_tokens()[30], 0));
        } else if i == 31 {
            assert(codex_not_lone_word_at(spec_protected_tokens()[31], 0));
            assert(codex_not_spaced_at(spec_protected_tokens()[31], 0));
        } else if i == 32 {
            assert(codex_not_lone_word_at(spec_protected_tokens()[32], 0));
            assert(codex_not_spaced_at(spec_protected_tokens()[32], 0));
        } else if i == 33 {
            assert(codex_not_lone_word_at(spec_protected_tokens()[33], 0));
            assert(codex_not_spaced_at(spec_protected_tokens()[33], 0));
        } else if i == 34 {
            assert(codex_not_lone_word_at(spec_protected_tokens()[34], 0));
            assert(codex_not_spaced_at(spec_protected_tokens()[34], 0));
        } else if i == 35 {
            assert(codex_not_lone_word_at(spec_protected_tokens()[35], 0));
            assert(codex_not_spaced_at(spec_protected_tokens()[35], 0));
        } else if i == 36 {
            assert(codex_not_lone_word_at(spec_protected_tokens()[36], 0));
            assert(codex_not_spaced_at(spec_protected_tokens()[36], 0));
        } else if i == 37 {
            assert(codex_not_lone_word_at(spec_protected_tokens()[37], 0));
            assert(codex_not_spaced_at(spec_protected_tokens()[37], 0));
        } else if i == 38 {
            assert(codex_not_lone_word_at(spec_protected_tokens()[38], 0));
            assert(codex_not_spaced_at(spec_protected_tokens()[38], 0));
        } else if i == 39 {
            assert(codex_not_lone_word_at(spec_protected_tokens()[39], 0));
            assert(codex_not_spaced_at(spec_protected_tokens()[39], 0));
        } else if i == 40 {
            assert(codex_not_lone_word_at(spec_protected_tokens()[40], 0));
            assert(codex_not_spaced_at(spec_protected_tokens()[40], 0));
        } else if i == 41 {
            assert(codex_not_lone_word_at(spec_protected_tokens()[41], 0));
            assert(codex_not_spaced_at(spec_protected_tokens()[41], 0));
        } else if i == 42 {
            assert(codex_not_lone_word_at(spec_protected_tokens()[42], 0));
            assert(codex_not_spaced_at(spec_protected_tokens()[42], 0));
        } else if i == 43 {
            assert(codex_not_lone_word_at(spec_protected_tokens()[43], 0));
            assert(codex_not_spaced_at(spec_protected_tokens()[43], 0));
        } else if i == 44 {
            assert(codex_not_lone_word_at(spec_protected_tokens()[44], 7));
            assert(codex_not_spaced_at(spec_protected_tokens()[44], 7));
        } else if i == 45 {
            assert(codex_not_lone_word_at(spec_protected_tokens()[45], 12));
            assert(codex_not_spaced_at(spec_protected_tokens()[45], 12));
        } else if i == 46 {
            assert(codex_not_lone_word_at(spec_protected_tokens()[46], 22));
            assert(codex_not_spaced_at(spec_protected_tokens()[46], 22));
        } else if i == 47 {
            assert(codex_not_lone_word_at(spec_protected_tokens()[47], 23));
            assert(codex_not_spaced_at(spec_protected_tokens()[47], 23));
        } else if i == 48 {
            assert(codex_not_lone_word_at(spec_protected_tokens()[48], 8));
            assert(codex_not_spaced_at(spec_protected_tokens()[48], 8));
        } else if i == 49 {
            assert(codex_not_lone_word_at(spec_protected_tokens()[49], 11));
            assert(codex_not_spaced_at(spec_protected_tokens()[49], 11));
        } else if i == 50 {
            assert(codex_not_lone_word_at(spec_protected_tokens()[50], 0));
            assert(codex_not_spaced_at(spec_protected_tokens()[50], 0));
        }
    }
}

proof fn lemma_rules_mention_codex_first()
    ensures
        forall|i: int| 0 <= i < 28 ==> mentions_codex(#[trigger] spec_brand_rules()[i].0),
        forall|i: int| 0 <= i < 28 ==> never_lone_codex(#[trigger] spec_brand_rules()[i].0),
        forall|i: int| 0 <= i < 28 ==> never_spaced_codex(#[trigger] spec_brand_rules()[i].0),
{
    reveal_strlit("\"CODEX_SANDBOX_NETWORK_DISABLED\"");
    reveal_strlit("\"CODEX_SANDBOX\"");
    reveal_strlit("\"CODEX_HOME\"");
    reveal_strlit("\"CODEX_API_KEY\"");
    reveal_strlit("\"CODEX_ACCESS_TOKEN\"");
    reveal_strlit("\"CODEX_SQLITE_HOME\"");
    reveal_strlit("\"CODEX_CA_CERTIFICATE\"");
    reveal_strlit("\"CODEX_PERMISSION_PROFILE\"");
    reveal_strlit("\"CODEX_THREAD_ID\"");
    reveal_strlit("\"CODEX_ESCALATE_SOCKET\"");
    reveal_strlit("\"CODEX_ROLLOUT_TRACE_ROOT\"");
    reveal_strlit("\"CODEX_CONNECTORS_TOKEN\"");
    reveal_strlit("\"CODEX_CODE_MODE_HOST_PATH\"");
    reveal_strlit("\"CODEX_EXEC_SERVER_URL\"");
    reveal_strlit("\"CODEX_EXEC_SERVER_NOISE_AUTH_TOKEN\"");
    reveal_strlit("\"CODEX_AUTHAPI_BASE_URL\"");
    reveal_strlit("\"CODEX_REFRESH_TOKEN_URL_OVERRIDE\"");
    reveal_strlit("\"CODEX_REVOKE_TOKEN_URL_OVERRIDE\"");
    reveal_strlit("\"CODEX_APP_SERVER_LOGIN_CLIENT_ID\"");
    reveal_strlit("\"CODEX_INTERNAL_ORIGINATOR_OVERRIDE\"");
    reveal_strlit("\"CODEX_NETWORK_PROXY_ACTIVE\"");
    reveal_strlit("\"CODEX_NETWORK_ALLOW_LOCAL_BINDING\"");
    reveal_strlit("\"CODEX_NETWORK_PROXY_CREDENTIAL_BROKER_ACTIVE\"");
    reveal_strlit("\"CODEX_NETWORK_PROXY_BROKERED_CREDENTIALS\"");
    reveal_strlit("\"CODEX_NETWORK_PROXY_ATTRIBUTION\"");
    reveal_strlit("\"CODEX_NETWORK_POLICY_VIOLATION\"");
    reveal_strlit("\"CODEX_PROXY_GIT_SSH_COMMAND\"");
    reveal_strlit("CODEX_MANAGED_BY_NPM");
    assert forall|i: int| 0 <= i < 28 implies mentions_codex(#[trigger] spec_brand_rules()[i].0) && never_lone_codex(spec_brand_rules()[i].0) && never_spaced_codex(spec_brand_rules()[i].0) by {
        if i == 0 {
            assert(codex_not_lone_word_at(spec_brand_rules()[0].0, 1));
            assert(codex_not_spaced_at(spec_brand_rules()[0].0, 1));
        } else if i == 1 {
            assert(codex_not_lone_word_at(spec_brand_rules()[1].0, 1));
            assert(codex_not_spaced_at(spec_brand_rules()[1].0, 1));
        } else if i == 2 {
            assert(codex_not_lone_word_at(spec_brand_rules()[2].0, 1));
            assert(codex_not_spaced_at(spec_brand_rules()[2].0, 1));
        } else if i == 3 {
            assert(codex_not_lone_word_at(spec_brand_rules()[3].0, 1));
            assert(codex_not_spaced_at(spec_brand_rules()[3].0, 1));
        } else if i == 4 {
            assert(codex_not_lone_word_at(spec_brand_rules()[4].0, 1));
            assert(codex_not_spaced_at(spec_brand_rules()[4].0, 1));
        } else if i == 5 {
            assert(codex_not_lone_word_at(spec_brand_rules()[5].0, 1));
            assert(codex_not_spaced_at(spec_brand_rules()[5].0, 1));
        } else if i == 6 {
            assert(codex_not_lone_word_at(spec_brand_rules()[6].0, 1));
            assert(codex_not_spaced_at(spec_brand_rules()[6].0, 1));
        } else if i == 7 {
            assert(codex_not_lone_word_at(spec_brand_rules()[7].0, 1));
            assert(codex_not_spaced_at(spec_brand_rules()[7].0, 1));
        } else if i == 8 {
            assert(codex_not_lone_word_at(spec_brand_rules()[8].0, 1));
            assert(codex_not_spaced_at(spec_brand_rules()[8].0, 1));
        } else if i == 9 {
            assert(codex_not_lone_word_at(spec_brand_rules()[9].0, 1));
            assert(codex_not_spaced_at(spec_brand_rules()[9].0, 1));
        } else if i == 10 {
            assert(codex_not_lone_word_at(spec_brand_rules()[10].0, 1));
            assert(codex_not_spaced_at(spec_brand_rules()[10].0, 1));
        } else if i == 11 {
            assert(codex_not_lone_word_at(spec_brand_rules()[11].0, 1));
            assert(codex_not_spaced_at(spec_brand_rules()[11].0, 1));
        } else if i == 12 {
            assert(codex_not_lone_word_at(spec_brand_rules()[12].0, 1));
            assert(codex_not_spaced_at(spec_brand_rules()[12].0, 1));
        } else if i == 13 {
            assert(codex_not_lone_word_at(spec_brand_rules()[13].0, 1));
            assert(codex_not_spaced_at(spec_brand_rules()[13].0, 1));
        } else if i == 14 {
            assert(codex_not_lone_word_at(spec_brand_rules()[14].0, 1));
            assert(codex_not_spaced_at(spec_brand_rules()[14].0, 1));
        } else if i == 15 {
            assert(codex_not_lone_word_at(spec_brand_rules()[15].0, 1));
            assert(codex_not_spaced_at(spec_brand_rules()[15].0, 1));
        } else if i == 16 {
            assert(codex_not_lone_word_at(spec_brand_rules()[16].0, 1));
            assert(codex_not_spaced_at(spec_brand_rules()[16].0, 1));
        } else if i == 17 {
            assert(codex_not_lone_word_at(spec_brand_rules()[17].0, 1));
            assert(codex_not_spaced_at(spec_brand_rules()[17].0, 1));
        } else if i == 18 {
            assert(codex_not_lone_word_at(spec_brand_rules()[18].0, 1));
            assert(codex_not_spaced_at(spec_brand_rules()[18].0, 1));
        } else if i == 19 {
            assert(codex_not_lone_word_at(spec_brand_rules()[19].0, 1));
            assert(codex_not_spaced_at(spec_brand_rules()[19].0, 1));
        } else if i == 20 {
            assert(codex_not_lone_word_at(spec_brand_rules()[20].0, 1));
            assert(codex_not_spaced_at(spec_brand_rules()[20].0, 1));
        } else if i == 21 {
            assert(codex_not_lone_word_at(spec_brand_rules()[21].0, 1));
            assert(codex_not_spaced_at(spec_brand_rules()[21].0, 1));
        } else if i == 22 {
            assert(codex_not_lone_word_at(spec_brand_rules()[22].0, 1));
            assert(codex_not_spaced_at(spec_brand_rules()[22].0, 1));
        } else if i == 23 {
            assert(codex_not_lone_word_at(spec_brand_rules()[23].0, 1));
            assert(codex_not_spaced_at(spec_brand_rules()[23].0, 1));
        } else if i == 24 {
            assert(codex_not_lone_word_at(spec_brand_rules()[24].0, 1));
            assert(codex_not_spaced_at(spec_brand_rules()[24].0, 1));
        } else if i == 25 {
            assert(codex_not_lone_word_at(spec_brand_rules()[25].0, 1));
            assert(codex_not_spaced_at(spec_brand_rules()[25].0, 1));
        } else if i == 26 {
            assert(codex_not_lone_word_at(spec_brand_rules()[26].0, 1));
            assert(codex_not_spaced_at(spec_brand_rules()[26].0, 1));
        } else if i == 27 {
            assert(codex_not_lone_word_at(spec_brand_rules()[27].0, 0));
            assert(codex_not_spaced_at(spec_brand_rules()[27].0, 0));
        }
    }
}

proof fn lemma_rules_mention_codex_rest()
    ensures
        forall|i: int| 28 <= i < 55 ==> mentions_codex(#[trigger] spec_brand_rules()[i].0),
        forall|i: int| 28 <= i < 55 ==> never_lone_codex(#[trigger] spec_brand_rules()[i].0),
        forall|i: int| 28 <= i < 55 ==> never_spaced_codex(#[trigger] spec_brand_rules()[i].0),
{
    reveal_strlit("CODEX_MANAGED_BY_PNPM");
    reveal_strlit("CODEX_MANAGED_BY_BUN");
    reveal_strlit("CODEX_MANAGED_PACKAGE_ROOT");
    reveal_strlit("CODEX_CLOUD_TASKS_BASE_URL");
    reveal_strlit("CODEX_CLOUD_TASKS_MODE");
    reveal_strlit("CODEX_CLOUD_TASKS_FORCE_INTERNAL");
    reveal_strlit("CODEX_REMOTE_AUTH_TOKEN");
    reveal_strlit("CODEX_GITHUB_TOKEN");
    reveal_strlit("CODEX_STARTING_DIFF");
    reveal_strlit("\"CODEX_");
    reveal_strlit(".codex\"");
    reveal_strlit("/etc/codex");
    reveal_strlit("~/.codex");
    reveal_strlit("(\".codex\")");
    reveal_strlit("--codex-");
    reveal_strlit("codex://");
    reveal_strlit("codex.thread_config.v1");
    reveal_strlit("codex.exec_server.relay.v1");
    reveal_strlit("codex_app_server_daemon");
    reveal_strlit("codex-linux-sandbox");
    reveal_strlit("codex-execve-wrapper");
    reveal_strlit("CodexErrorInfo");
    reveal_strlit("codex.thread.");
    reveal_strlit("codex.windows_sandbox.");
    reveal_strlit("codex.apps.refresh.");
    reveal_strlit("codex.apps.installed.");
    reveal_strlit("codex.cloud_config_bundle.");
    assert forall|i: int| 28 <= i < 55 implies mentions_codex(#[trigger] spec_brand_rules()[i].0) && never_lone_codex(spec_brand_rules()[i].0) && never_spaced_codex(spec_brand_rules()[i].0) by {
        if i == 28 {
            assert(codex_not_lone_word_at(spec_brand_rules()[28].0, 0));
            assert(codex_not_spaced_at(spec_brand_rules()[28].0, 0));
        } else if i == 29 {
            assert(codex_not_lone_word_at(spec_brand_rules()[29].0, 0));
            assert(codex_not_spaced_at(spec_brand_rules()[29].0, 0));
        } else if i == 30 {
            assert(codex_not_lone_word_at(spec_brand_rules()[30].0, 0));
            assert(codex_not_spaced_at(spec_brand_rules()[30].0, 0));
        } else if i == 31 {
            assert(codex_not_lone_word_at(spec_brand_rules()[31].0, 0));
            assert(codex_not_spaced_at(spec_brand_rules()[31].0, 0));
        } else if i == 32 {
            assert(codex_not_lone_word_at(spec_brand_rules()[32].0, 0));
            assert(codex_not_spaced_at(spec_brand_rules()[32].0, 0));
        } else if i == 33 {
            assert(codex_not_lone_word_at(spec_brand_rules()[33].0, 0));
            assert(codex_not_spaced_at(spec_brand_rules()[33].0, 0));
        } else if i == 34 {
            assert(codex_not_lone_word_at(spec_brand_rules()[34].0, 0));
            assert(codex_not_spaced_at(spec_brand_rules()[34].0, 0));
        } else if i == 35 {
            assert(codex_not_lone_word_at(spec_brand_rules()[35].0, 0));
            assert(codex_not_spaced_at(spec_brand_rules()[35].0, 0));
        } else if i == 36 {
            assert(codex_not_lone_word_at(spec_brand_rules()[36].0, 0));
            assert(codex_not_spaced_at(spec_brand_rules()[36].0, 0));
        } else if i == 37 {
            assert(codex_not_lone_word_at(spec_brand_rules()[37].0, 1));
            assert(codex_not_spaced_at(spec_brand_rules()[37].0, 1));
        } else if i == 38 {
            assert(codex_not_lone_word_at(spec_brand_rules()[38].0, 1));
            assert(codex_not_spaced_at(spec_brand_rules()[38].0, 1));
        } else if i == 39 {
            assert(codex_not_lone_word_at(spec_brand_rules()[39].0, 5));
            assert(codex_not_spaced_at(spec_brand_rules()[39].0, 5));
        } else if i == 40 {
            assert(codex_not_lone_word_at(spec_brand_rules()[40].0, 3));
            assert(codex_not_spaced_at(spec_brand_rules()[40].0, 3));
        } else if i == 41 {
            assert(codex_not_lone_word_at(spec_brand_rules()[41].0, 3));
            assert(codex_not_spaced_at(spec_brand_rules()[41].0, 3));
        } else if i == 42 {
            assert(codex_not_lone_word_at(spec_brand_rules()[42].0, 2));
            assert(codex_not_spaced_at(spec_brand_rules()[42].0, 2));
        } else if i == 43 {
            assert(codex_not_lone_word_at(spec_brand_rules()[43].0, 0));
            assert(codex_not_spaced_at(spec_brand_rules()[43].0, 0));
        } else if i == 44 {
            assert(codex_not_lone_word_at(spec_brand_rules()[44].0, 0));
            assert(codex_not_spaced_at(spec_brand_rules()[44].0, 0));
        } else if i == 45 {
            assert(codex_not_lone_word_at(spec_brand_rules()[45].0, 0));
            assert(codex_not_spaced_at(spec_brand_rules()[45].0, 0));
        } else if i == 46 {
            assert(codex_not_lone_word_at(spec_brand_rules()[46].0, 0));
            assert(codex_not_spaced_at(spec_brand_rules()[46].0, 0));
        } else if i == 47 {
            assert(codex_not_lone_word_at(spec_brand_rules()[47].0, 0));
            assert(codex_not_spaced_at(spec_brand_rules()[47].0, 0));
        } else if i == 48 {
            assert(codex_not_lone_word_at(spec_brand_rules()[48].0, 0));
            assert(codex_not_spaced_at(spec_brand_rules()[48].0, 0));
        } else if i == 49 {
            assert(codex_not_lone_word_at(spec_brand_rules()[49].0, 0));
            assert(codex_not_spaced_at(spec_brand_rules()[49].0, 0));
        } else if i == 50 {
            assert(codex_not_lone_word_at(spec_brand_rules()[50].0, 0));
            assert(codex_not_spaced_at(spec_brand_rules()[50].0, 0));
        } else if i == 51 {
            assert(codex_not_lone_word_at(spec_brand_rules()[51].0, 0));
            assert(codex_not_spaced_at(spec_brand_rules()[51].0, 0));
        } else if i == 52 {
            assert(codex_not_lone_word_at(spec_brand_rules()[52].0, 0));
            assert(codex_not_spaced_at(spec_brand_rules()[52].0, 0));
        } else if i == 53 {
            assert(codex_not_lone_word_at(spec_brand_rules()[53].0, 0));
            assert(codex_not_spaced_at(spec_brand_rules()[53].0, 0));
        } else if i == 54 {
            assert(codex_not_lone_word_at(spec_brand_rules()[54].0, 0));
            assert(codex_not_spaced_at(spec_brand_rules()[54].0, 0));
        }
    }
}

/// A text that never mentions `codex`, in any ASCII case, comes through
/// the full rewrite (protecting the tokens of [`spec_protected_tokens`])
/// unchanged, with no replacement counted.
pub proof fn lemma_brand_full_text_without_codex(raw: Seq<char>, ext: Seq<char>)
    requires
        !mentions_codex(raw),
    ensures
        spec_brand_full_text(raw, ext, spec_protected_tokens()) == (raw, 0nat),
{
    let toks = spec_protected_tokens();
    let rules = spec_brand_rules();
    assert(forall|i: int| 0 <= i < toks.len() ==> mentions_codex(#[trigger] toks[i])) by {
        lemma_tokens_mention_codex_first();
        lemma_tokens_mention_codex_rest();
    }
    assert(forall|i: int| 0 <= i < rules.len() ==> mentions_codex(#[trigger] rules[i].0)) by {
        lemma_rules_mention_codex_first();
        lemma_rules_mention_codex_rest();
    }
    assert forall|i: int| 0 <= i < toks.len() implies #[trigger] toks[i].len() > 0 && !contains(raw, toks[i]) by {
        lemma_absent_pattern(raw, toks[i]);
    }
    assert forall|i: int| 0 <= i < rules.len() implies !contains(raw, #[trigger] rules[i].0) by {
        lemma_absent_pattern(raw, rules[i].0);
    }
    reveal_strlit("Codex");
    reveal_strlit("codex");
    assert(codex_ci_at("Codex"@, 0));
    assert(codex_ci_at("codex"@, 0));
    lemma_absent_pattern(raw, "Codex"@);
    lemma_absent_pattern(raw, "codex"@);
    lemma_brand_full_text_untouched(raw, ext, toks);
}

// ---------------------------------------------------------------------------
// A lone word `Codex`
// ---------------------------------------------------------------------------

/// In `a + w + b`, where `w` is `codex` in some case and neither `a` nor
/// `b` mentions `codex`, the only place `codex` stands is `w`.
proof fn lemma_lone_codex_only_at(a: Seq<char>, w: Seq<char>, b: Seq<char>)
    requires
        !mentions_codex(a),
        !mentions_codex(b),
        w.len() == 5,
        codex_ci_at(w, 0),
    ensures
        forall|j: int| #[trigger] codex_ci_at(a + w + b, j) ==> j == a.len(),
{
    let t = a + w + b;
    let n = a.len() as int;
    assert(t[n] == w[0] && t[n + 1] == w[1] && t[n + 2] == w[2] && t[n + 3] == w[3] && t[n + 4] == w[4]);
    assert forall|j: int| #[trigger] codex_ci_at(t, j) implies j == n by {
        if j + 5 <= n {
            assert(t[j] == a[j] && t[j + 1] == a[j + 1] && t[j + 2] == a[j + 2]);
            assert(t[j + 3] == a[j + 3] && t[j + 4] == a[j + 4]);
            assert(codex_ci_at(a, j));
        } else if j >= n + 5 {
            let q = j - n - 5;
            assert(t[j] == b[q] && t[j + 1] == b[q + 1] && t[j + 2] == b[q + 2]);
            assert(t[j + 3] == b[q + 3] && t[j + 4] == b[q + 4]);
            assert(codex_ci_at(b, q));
        } else if j < n {
            assert(lower_code(t[n]) == 99);
        } else if j > n {
            assert(lower_code(t[j]) != 99);
        }
    }
}

/// A pattern that never holds a lone `Codex` does not occur in
/// `a + "Codex" + b` when the word stands alone there.
proof fn lemma_pattern_misses_lone_codex(a: Seq<char>, b: Seq<char>, p: Seq<char>)
    requires
        !mentions_codex(a),
        !mentions_codex(b),
        a.len() == 0 || is_word_edge(a.last()),
        b.len() == 0 || is_word_edge(b[0]),
        never_lone_codex(p),
    ensures
        !contains(a + "Codex"@ + b, p),
{
    reveal_strlit("Codex");
    let t = a + "Codex"@ + b;
    let n = a.len() as int;
    assert(codex_ci_at("Codex"@, 0));
    lemma_lone_codex_only_at(a, "Codex"@, b);
    crate::text::lemma_find_from(t, p, 0);
    if contains(t, p) {
        let j = crate::text::find(t, p)->Some_0;
        let k = choose|k: int| codex_not_lone_word_at(p, k);
        lemma_match_carries_codex(t, j, p, k);
        assert(j + k == n);
        let w = t.subrange(j, j + p.len());
        assert(w == p);
        assert(p[k] == t[n] && p[k + 1] == t[n + 1] && p[k + 2] == t[n + 2]);
        assert(p[k + 3] == t[n + 3] && p[k + 4] == t[n + 4]);
        if k + 5 < p.len() {
            assert(p[k + 5] == t[n + 5]);
            assert(t[n + 5] == b[0]);
        }
        if k > 0 {
            assert(p[k - 1] == t[n - 1]);
            assert(t[n - 1] == a.last());
        }
    }
}

/// No whole-word occurrence from `i` on: the rest comes through unchanged.
proof fn lemma_word_replace_tail(s: Seq<char>, needle: Seq<char>, repl: Seq<char>, i: int)
    requires
        0 <= i,
        forall|j: int| i <= j ==> !matches_at(s, j, needle),
    ensures
        word_replace(s, needle, repl, i) == (s.skip(i), 0nat),
    decreases s.len() - i,
{
    if i < s.len() && needle.len() > 0 {
        lemma_word_replace_tail(s, needle, repl, i + 1);
        assert(seq![s[i]] + s.skip(i + 1) =~= s.skip(i));
    }
}

/// The prose pass for the word `w` (`codex` in some case) over `a + w + b`,
/// from index `i` of `a` on.
proof fn lemma_word_replace_lone(a: Seq<char>, w: Seq<char>, b: Seq<char>, repl: Seq<char>, i: int)
    requires
        0 <= i <= a.len(),
        w.len() == 5,
        codex_ci_at(w, 0),
        !mentions_codex(a),
        !mentions_codex(b),
        a.len() == 0 || is_word_edge(a.last()),
        b.len() == 0 || is_word_edge(b[0]),
    ensures
        word_replace(a + w + b, w, repl, i) == (a.skip(i) + repl + b, 1nat),
    decreases a.len() - i,
{
    let t = a + w + b;
    let n = a.len() as int;
    lemma_lone_codex_only_at(a, w, b);
    if i == n {
        assert(t.subrange(n, n + 5) =~= w);
        if n > 0 {
            assert(t[n - 1] == a.last());
        }
        if b.len() > 0 {
            assert(t[n + 5] == b[0]);
        }
        assert(whole_word_at(t, n, w));
        assert forall|j: int| n + 5 <= j implies !matches_at(t, j, w) by {
            if matches_at(t, j, w) {
                lemma_match_carries_codex(t, j, w, 0);
            }
        }
        lemma_word_replace_tail(t, w, repl, n + 5);
        assert(t.skip(n + 5) =~= b);
        assert(a.skip(n) =~= Seq::<char>::empty());
        assert(a.skip(i) + repl + b =~= repl + b);
    } else {
        if matches_at(t, i, w) {
            lemma_match_carries_codex(t, i, w, 0);
        }
        assert(!whole_word_at(t, i, w));
        lemma_word_replace_lone(a, w, b, repl, i + 1);
        assert(t[i] == a[i]);
        assert(seq![a[i]] + (a.skip(i + 1) + repl + b) =~= a.skip(i) + repl + b);
    }
}

/// `a + "lemurclaw" + b` mentions `codex` no more than `a` and `b` do.
proof fn lemma_lemurclaw_no_codex(a: Seq<char>, b: Seq<char>)
    requires
        !mentions_codex(a),
        !mentions_codex(b),
    ensures
        !mentions_codex(a + "lemurclaw"@ + b),
{
    reveal_strlit("lemurclaw");
    let u = a + "lemurclaw"@ + b;
    let n = a.len() as int;
    assert(u[n] == 'l' && u[n + 1] == 'e' && u[n + 2] == 'm' && u[n + 3] == 'u' && u[n + 4] == 'r');
    assert(u[n + 5] == 'c' && u[n + 6] == 'l' && u[n + 7] == 'a' && u[n + 8] == 'w');
    assert forall|j: int| !codex_ci_at(u, j) by {
        if codex_ci_at(u, j) {
            if j + 5 <= n {
                assert(u[j] == a[j] && u[j + 1] == a[j + 1] && u[j + 2] == a[j + 2]);
                assert(u[j + 3] == a[j + 3] && u[j + 4] == a[j + 4]);
                assert(codex_ci_at(a, j));
            } else if j >= n + 9 {
                let q = j - n - 9;
                assert(u[j] == b[q] && u[j + 1] == b[q + 1] && u[j + 2] == b[q + 2]);
                assert(u[j + 3] == b[q + 3] && u[j + 4] == b[q + 4]);
                assert(codex_ci_at(b, q));
            } else if j < n {
                assert(lower_code(u[n]) == 108);
            } else if j == n + 5 {
                assert(lower_code(u[j + 1]) == 108);
            } else {
                assert(lower_code(u[j]) != 99);
            }
        }
    }
}

/// A lone word `Codex` (its neighbours are not ASCII letters, digits or
/// `_`, and nothing else in the text mentions `codex` in any case) is
/// rewritten to `lemurclaw` and counted once in every file but Rust
/// sources, whose text stays as it is with nothing counted.
pub proof fn lemma_brand_lone_codex(a: Seq<char>, b: Seq<char>, ext: Seq<char>)
    requires
        !mentions_codex(a),
        !mentions_codex(b),
        a.len() == 0 || is_word_edge(a.last()),
        b.len() == 0 || is_word_edge(b[0]),
    ensures
        ext != "rs"@ ==> spec_brand_full_text(a + "Codex"@ + b, ext, spec_protected_tokens()) == (
            a + "lemurclaw"@ + b,
            1nat,
        ),
        ext == "rs"@ ==> spec_brand_full_text(a + "Codex"@ + b, ext, spec_protected_tokens()) == (
            a + "Codex"@ + b,
            0nat,
        ),
{
    let t = a + "Codex"@ + b;
    let toks = spec_protected_tokens();
    let rules = spec_brand_rules();
    assert(forall|i: int| 0 <= i < toks.len() ==> #[trigger] toks[i].len() > 0 && !contains(t, toks[i]))
        by {
        lemma_tokens_mention_codex_first();
        lemma_tokens_mention_codex_rest();
        assert forall|i: int| 0 <= i < toks.len() implies #[trigger] toks[i].len() > 0 && !contains(
            t,
            toks[i],
        ) by {
            lemma_pattern_misses_lone_codex(a, b, toks[i]);
            let k = choose|k: int| codex_ci_at(toks[i], k);
        }
    }
    assert(forall|i: int| 0 <= i < rules.len() ==> !contains(t, #[trigger] rules[i].0)) by {
        lemma_rules_mention_codex_first();
        lemma_rules_mention_codex_rest();
        assert forall|i: int| 0 <= i < rules.len() implies !contains(t, #[trigger] rules[i].0) by {
            lemma_pattern_misses_lone_codex(a, b, rules[i].0);
        }
    }
    lemma_stash_none(t, toks);
    lemma_apply_rules_none(t, rules);
    let u = a + "lemurclaw"@ + b;
    reveal_strlit("Codex");
    assert(codex_ci_at("Codex"@, 0));
    lemma_word_replace_lone(a, "Codex"@, b, "lemurclaw"@, 0);
    assert(a.skip(0) =~= a);
    lemma_lemurclaw_no_codex(a, b);
    reveal_strlit("codex");
    assert(codex_ci_at("codex"@, 0));
    lemma_absent_pattern(u, "codex"@);
    crate::text::lemma_find_from(u, "codex"@, 0);
    lemma_word_replace_none(u, "codex"@, "lemurclaw"@, 0);
    assert(u.skip(0) =~= u);
}

/// A pattern that never holds a spaced lowercase `codex` does not occur in
/// `a + "codex" + b` when white space (or the text's end) surrounds the word.
proof fn lemma_pattern_misses_spaced_codex(a: Seq<char>, b: Seq<char>, p: Seq<char>)
    requires
        !mentions_codex(a),
        !mentions_codex(b),
        a.len() == 0 || is_ws(a.last()),
        b.len() == 0 || is_ws(b[0]),
        never_spaced_codex(p),
    ensures
        !contains(a + "codex"@ + b, p),
{
    reveal_strlit("codex");
    assert(codex_ci_at("codex"@, 0));
    let t = a + "codex"@ + b;
    let n = a.len() as int;
    lemma_lone_codex_only_at(a, "codex"@, b);
    crate::text::lemma_find_from(t, p, 0);
    if contains(t, p) {
        let j = crate::text::find(t, p)->Some_0;
        let k = choose|k: int| codex_not_spaced_at(p, k);
        lemma_match_carries_codex(t, j, p, k);
        assert(j + k == n);
        let w = t.subrange(j, j + p.len());
        assert(w == p);
        assert(p[k] == t[n] && p[k + 1] == t[n + 1] && p[k + 2] == t[n + 2]);
        assert(p[k + 3] == t[n + 3] && p[k + 4] == t[n + 4]);
        if k + 5 < p.len() {
            assert(p[k + 5] == t[n + 5]);
            assert(t[n + 5] == b[0]);
        }
        if k > 0 {
            assert(p[k - 1] == t[n - 1]);
            assert(t[n - 1] == a.last());
        }
    }
}

/// A lowercase word `codex` set off by white space or the text's ends (and
/// nothing else in the text mentioning `codex` in any case) is rewritten to
/// `lemurclaw` and counted once in every file but Rust sources, whose text
/// stays as it is with nothing counted.
pub proof fn lemma_brand_lone_lower_codex(a: Seq<char>, b: Seq<char>, ext: Seq<char>)
    requires
        !mentions_codex(a),
        !mentions_codex(b),
        a.len() == 0 || is_ws(a.last()),
        b.len() == 0 || is_ws(b[0]),
    ensures
        ext != "rs"@ ==> spec_brand_full_text(a + "codex"@ + b, ext, spec_protected_tokens()) == (
            a + "lemurclaw"@ + b,
            1nat,
        ),
        ext == "rs"@ ==> spec_brand_full_text(a + "codex"@ + b, ext, spec_protected_tokens()) == (
            a + "codex"@ + b,
            0nat,
        ),
{
    let t = a + "codex"@ + b;
    let toks = spec_protected_tokens();
    let rules = spec_brand_rules();
    assert(forall|i: int| 0 <= i < toks.len() ==> #[trigger] toks[i].len() > 0 && !contains(t, toks[i]))
        by {
        lemma_tokens_mention_codex_first();
        lemma_tokens_mention_codex_rest();
        assert forall|i: int| 0 <= i < toks.len() implies #[trigger] toks[i].len() > 0 && !contains(
            t,
            toks[i],
        ) by {
            lemma_pattern_misses_spaced_codex(a, b, toks[i]);
            let k = choose|k: int| codex_ci_at(toks[i], k);
        }
    }
    assert(forall|i: int| 0 <= i < rules.len() ==> !contains(t, #[trigger] rules[i].0)) by {
        lemma_rules_mention_codex_first();
        lemma_rules_mention_codex_rest();
        assert forall|i: int| 0 <= i < rules.len() implies !contains(t, #[trigger] rules[i].0) by {
            lemma_pattern_misses_spaced_codex(a, b, rules[i].0);
        }
    }
    lemma_stash_none(t, toks);
    lemma_apply_rules_none(t, rules);
    reveal_strlit("codex");
    reveal_strlit("Codex");
    assert(codex_ci_at("codex"@, 0));
    assert(codex_ci_at("Codex"@, 0));
    lemma_lone_codex_only_at(a, "codex"@, b);
    assert forall|j: int| 0 <= j implies !matches_at(t, j, "Codex"@) by {
        if matches_at(t, j, "Codex"@) {
            lemma_match_carries_codex(t, j, "Codex"@, 0);
            assert(t.subrange(j, j + 5)[0] == t[a.len() as int]);
        }
    }
    lemma_word_replace_none(t, "Codex"@, "lemurclaw"@, 0);
    assert(t.skip(0) =~= t);
    if a.len() > 0 {
        assert(is_word_edge(a.last()));
    }
    if b.len() > 0 {
        assert(is_word_edge(b[0]));
    }
    lemma_word_replace_lone(a, "codex"@, b, "lemurclaw"@, 0);
    assert(a.skip(0) =~= a);
}

} // verus!
