//! Display-text branding: a fixed table of exact phrases, each tied to the
//! source file it appears in, whose user-facing `Codex` wording becomes
//! `lemurclaw`; and the one placeholder phrase rewritten in snapshot files.

use vstd::prelude::*;
use crate::text::{contains, contains_seq, from_chars, replace_all, replace_vec, seq_eq, to_chars};

verus! {

/// The table: (file path relative to the cluster source root, old phrase,
/// new phrase). Environment variables, paths, flags, identifiers, telemetry
/// names, model slugs and service URLs never stand on the old side.
pub open spec fn spec_display_edits() -> Seq<(Seq<char>, Seq<char>, Seq<char>)> {
    seq![
        ("main.rs"@, "/// Codex CLI"@, "/// lemurclaw CLI"@),
        ("main.rs"@, "override_usage = \"codex [OPTIONS] [PROMPT]\\n       codex [OPTIONS] <COMMAND> [ARGS]\""@, "override_usage = \"lemurclaw [OPTIONS] [PROMPT]\\n       lemurclaw [OPTIONS] <COMMAND> [ARGS]\""@),
        ("main.rs"@, "the generic `codex` command name that users run."@, "the generic `lemurclaw` command name that users run."@),
        ("main.rs"@, "/// Run Codex non-interactively."@, "/// Run lemurclaw non-interactively."@),
        ("main.rs"@, "/// Manage external MCP servers for Codex."@, "/// Manage external MCP servers for lemurclaw."@),
        ("main.rs"@, "/// Manage Codex plugins."@, "/// Manage lemurclaw plugins."@),
        ("main.rs"@, "/// Start Codex as an MCP server (stdio)."@, "/// Start lemurclaw as an MCP server (stdio)."@),
        ("main.rs"@, "/// Update Codex to the latest version."@, "/// Update lemurclaw to the latest version."@),
        ("main.rs"@, "/// Diagnose local Codex installation"@, "/// Diagnose local lemurclaw installation"@),
        ("main.rs"@, "/// Run commands within a Codex-provided sandbox."@, "/// Run commands within a lemurclaw-provided sandbox."@),
        ("main.rs"@, "/// Apply the latest diff produced by Codex agent"@, "/// Apply the latest diff produced by lemurclaw agent"@),
        ("main.rs"@, "/// [EXPERIMENTAL] Browse tasks from Codex Cloud"@, "/// [EXPERIMENTAL] Browse tasks from lemurclaw Cloud"@),
        ("main.rs"@, "/// [internal] Generate internal JSON Schema artifacts for Codex tooling."@, "/// [internal] Generate internal JSON Schema artifacts for lemurclaw tooling."@),
        ("main.rs"@, "this version of Codex."@, "this version of lemurclaw."@),
        ("main.rs"@, "printenv OPENAI_API_KEY | codex login --with-api-key"@, "printenv OPENAI_API_KEY | lemurclaw login --with-api-key"@),
        ("main.rs"@, "printenv CODEX_ACCESS_TOKEN | codex login --with-access-token"@, "printenv CODEX_ACCESS_TOKEN | lemurclaw login --with-access-token"@),
        ("main.rs"@, "Updating Codex via `{cmd_str}`..."@, "Updating lemurclaw via `{cmd_str}`..."@),
        ("main.rs"@, "Please restart Codex."@, "Please restart lemurclaw."@),
        ("main.rs"@, "`codex update` is not available in debug builds. Install a release build of Codex to use this command."@, "`lemurclaw update` is not available in debug builds. Install a release build of lemurclaw to use this command."@),
        ("main.rs"@, "Could not detect the Codex installation method."@, "Could not detect the lemurclaw installation method."@),
        ("main.rs"@, "Codex executable path is not configured"@, "lemurclaw executable path is not configured"@),
        ("main.rs"@, "run `codex login` or set CODEX_API_KEY"@, "run `lemurclaw login` or set CODEX_API_KEY"@),
        ("main.rs"@, "Codex's interactive TUI may not work in this terminal."@, "lemurclaw's interactive TUI may not work in this terminal."@),
        ("main.rs"@, "failed to move damaged Codex local database files"@, "failed to move damaged lemurclaw local database files"@),
        ("main.rs"@, "`codex sandbox` is not supported on this operating system"@, "`lemurclaw sandbox` is not supported on this operating system"@),
        ("main.rs"@, "--profile only applies to runtime commands and `codex mcp`: `codex`, `codex exec`, `codex review`, `codex resume`, `codex archive`, `codex delete`, `codex unarchive`, `codex fork`, `codex mcp`, `codex sandbox`, and `codex debug prompt-input`."@, "--profile only applies to runtime commands and `lemurclaw mcp`: `lemurclaw`, `lemurclaw exec`, `lemurclaw review`, `lemurclaw resume`, `lemurclaw archive`, `lemurclaw delete`, `lemurclaw unarchive`, `lemurclaw fork`, `lemurclaw mcp`, `lemurclaw sandbox`, and `lemurclaw debug prompt-input`."@),
        ("main.rs"@, "not `codex {subcommand}`"@, "not `lemurclaw {subcommand}`"@),
        ("main.rs"@, "`--strict-config` is not supported for `codex {subcommand}`"@, "`--strict-config` is not supported for `lemurclaw {subcommand}`"@),
        ("exec/cli.rs"@, "override_usage = \"codex exec [OPTIONS] [PROMPT]\\n       codex exec [OPTIONS] <COMMAND> [ARGS]\""@, "override_usage = \"lemurclaw exec [OPTIONS] [PROMPT]\\n       lemurclaw exec [OPTIONS] <COMMAND> [ARGS]\""@),
        ("exec/cli.rs"@, "/// Allow running Codex outside a Git repository."@, "/// Allow running lemurclaw outside a Git repository."@),
        ("exec/event_processor_with_human_output.rs"@, "\"codex\".style(self.italic).style(self.magenta)"@, "\"lemurclaw\".style(self.italic).style(self.magenta)"@),
        ("exec/event_processor_with_human_output.rs"@, "OpenAI Codex v{VERSION}"@, "OpenAI lemurclaw v{VERSION}"@),
        ("exec/mod.rs"@, "Error finding codex home: {err}"@, "Error finding lemurclaw home: {err}"@),
        ("cli_internal/login.rs"@, "Use `codex login --device-auth` instead."@, "Use `lemurclaw login --device-auth` instead."@),
        ("cli_internal/login.rs"@, "printenv OPENAI_API_KEY | codex login --with-api-key"@, "printenv OPENAI_API_KEY | lemurclaw login --with-api-key"@),
        ("cli_internal/login.rs"@, "printenv CODEX_ACCESS_TOKEN | codex login --with-access-token"@, "printenv CODEX_ACCESS_TOKEN | lemurclaw login --with-access-token"@),
        ("cli_internal/sandbox_setup.rs"@, "`codex sandbox setup` currently requires --elevated"@, "`lemurclaw sandbox setup` currently requires --elevated"@),
        ("cli_internal/mcp_cmd.rs"@, "override_usage = \"codex mcp add [OPTIONS]"@, "override_usage = \"lemurclaw mcp add [OPTIONS]"@),
        ("cli_internal/mcp_cmd.rs"@, "Run `codex mcp login {name}` to login."@, "Run `lemurclaw mcp login {name}` to login."@),
        ("cli_internal/mcp_cmd.rs"@, "Try `codex mcp add my-tool -- my-command`."@, "Try `lemurclaw mcp add my-tool -- my-command`."@),
        ("cli_internal/mcp_cmd.rs"@, "remove: codex mcp remove {}"@, "remove: lemurclaw mcp remove {}"@),
        ("cli_internal/marketplace_cmd.rs"@, "bin_name = \"codex plugin marketplace\""@, "bin_name = \"lemurclaw plugin marketplace\""@),
        ("cli_internal/marketplace_cmd.rs"@, "bin_name = \"codex plugin marketplace add\""@, "bin_name = \"lemurclaw plugin marketplace add\""@),
        ("cli_internal/marketplace_cmd.rs"@, "bin_name = \"codex plugin marketplace list\""@, "bin_name = \"lemurclaw plugin marketplace list\""@),
        ("cli_internal/marketplace_cmd.rs"@, "bin_name = \"codex plugin marketplace upgrade\""@, "bin_name = \"lemurclaw plugin marketplace upgrade\""@),
        ("cli_internal/marketplace_cmd.rs"@, "bin_name = \"codex plugin marketplace remove\""@, "bin_name = \"lemurclaw plugin marketplace remove\""@),
        ("cli_internal/marketplace_cmd.rs"@, "codex plugin marketplace"@, "lemurclaw plugin marketplace"@),
        ("cli_internal/marketplace_cmd.rs"@, "List plugin marketplaces Codex is currently considering"@, "List plugin marketplaces lemurclaw is currently considering"@),
        ("cli_internal/plugin_cmd.rs"@, "bin_name = \"codex plugin\""@, "bin_name = \"lemurclaw plugin\""@),
        ("cli_internal/plugin_cmd.rs"@, "bin_name = \"codex plugin add\""@, "bin_name = \"lemurclaw plugin add\""@),
        ("cli_internal/plugin_cmd.rs"@, "bin_name = \"codex plugin list\""@, "bin_name = \"lemurclaw plugin list\""@),
        ("cli_internal/plugin_cmd.rs"@, "bin_name = \"codex plugin remove\""@, "bin_name = \"lemurclaw plugin remove\""@),
        ("cli_internal/plugin_cmd.rs"@, "codex plugin add"@, "lemurclaw plugin add"@),
        ("cli_internal/plugin_cmd.rs"@, "codex plugin list"@, "lemurclaw plugin list"@),
        ("cli_internal/plugin_cmd.rs"@, "codex plugin remove"@, "lemurclaw plugin remove"@),
        ("cli_internal/state_db_recovery.rs"@, "Codex couldn't start because its local database appears to be damaged."@, "lemurclaw couldn't start because its local database appears to be damaged."@),
        ("cli_internal/state_db_recovery.rs"@, "Moving the damaged local database aside so Codex can rebuild it from saved data."@, "Moving the damaged local database aside so lemurclaw can rebuild it from saved data."@),
        ("cli_internal/state_db_recovery.rs"@, "Codex rebuilt its local database."@, "lemurclaw rebuilt its local database."@),
        ("cli_internal/state_db_recovery.rs"@, "Codex detected a damaged local database, moved it into a backup folder"@, "lemurclaw detected a damaged local database, moved it into a backup folder"@),
        ("cli_internal/state_db_recovery.rs"@, "Run `codex doctor` to check your setup"@, "Run `lemurclaw doctor` to check your setup"@),
        ("cli_internal/state_db_recovery.rs"@, "Codex couldn't start because another Codex process is using its local data."@, "lemurclaw couldn't start because another lemurclaw process is using its local data."@),
        ("cli_internal/state_db_recovery.rs"@, "Quit any other copies of Codex that may still be running"@, "Quit any other copies of lemurclaw that may still be running"@),
        ("cli_internal/doctor/output.rs"@, "bold(\"Codex Doctor\", options)"@, "bold(\"lemurclaw Doctor\", options)"@),
        ("cli_internal/doctor/output.rs"@, "Run codex doctor without --summary for detailed diagnostics."@, "Run lemurclaw doctor without --summary for detailed diagnostics."@),
        ("cli_internal/doctor/background.rs"@, "Run codex app-server daemon version for more details."@, "Run lemurclaw app-server daemon version for more details."@),
        ("cli_internal/doctor/git.rs"@, "so Codex can inspect Git metadata."@, "so lemurclaw can inspect Git metadata."@),
        ("cli_internal/doctor/git.rs"@, "so Codex can inspect repository metadata."@, "so lemurclaw can inspect repository metadata."@),
        ("cli_internal/doctor/git.rs"@, "the bundled Git executable Codex resolves first."@, "the bundled Git executable lemurclaw resolves first."@),
        ("cli_internal/doctor/runtime.rs"@, "repair the bundled Codex package."@, "repair the bundled lemurclaw package."@),
        ("cli_internal/doctor/updates.rs"@, "Reinstall or update Codex so the JS shim provides CODEX_MANAGED_PACKAGE_ROOT."@, "Reinstall or update lemurclaw so the JS shim provides CODEX_MANAGED_PACKAGE_ROOT."@),
        ("cli_internal/doctor/mod.rs"@, "then rerun codex doctor."@, "then rerun lemurclaw doctor."@),
        ("cli_internal/doctor/mod.rs"@, "failed to load Codex config"@, "failed to load lemurclaw config"@),
        ("cli_internal/doctor/mod.rs"@, "Run codex login again or provide a supported auth env var."@, "Run lemurclaw login again or provide a supported auth env var."@),
        ("cli_internal/doctor/mod.rs"@, "no Codex credentials were found"@, "no lemurclaw credentials were found"@),
        ("cli_internal/doctor/mod.rs"@, "Run codex login or provide an API key through a supported auth env var."@, "Run lemurclaw login or provide an API key through a supported auth env var."@),
        ("cli_internal/doctor/mod.rs"@, "Fix auth storage access or run codex login again."@, "Fix auth storage access or run lemurclaw login again."@),
        ("cli_internal/doctor/mod.rs"@, "Reinstall or update Codex so the JS shim provides CODEX_MANAGED_PACKAGE_ROOT."@, "Reinstall or update lemurclaw so the JS shim provides CODEX_MANAGED_PACKAGE_ROOT."@),
        ("cli_internal/doctor/thread_inventory.rs"@, "Start Codex with no state DB present so startup backfill can create it from rollout files."@, "Start lemurclaw with no state DB present so startup backfill can create it from rollout files."@),
        ("cloud_tasks/mod.rs"@, "Please run 'codex login' to sign in with ChatGPT, then re-run 'codex cloud'."@, "Please run 'lemurclaw login' to sign in with ChatGPT, then re-run 'lemurclaw cloud'."@),
        ("cloud_tasks/mod.rs"@, "run `codex cloud` to list available environments"@, "run `lemurclaw cloud` to list available environments"@),
        ("cloud_tasks/mod.rs"@, "run `codex cloud` to pick the desired environment id"@, "run `lemurclaw cloud` to pick the desired environment id"@),
        ("cloud_tasks/mod.rs"@, "format!(\"codex cloud list --cursor='{cursor}'\")"@, "format!(\"lemurclaw cloud list --cursor='{cursor}'\")"@),
        ("tui_internal/slash_command.rs"@, "create an AGENTS.md file with instructions for Codex"@, "create an AGENTS.md file with instructions for lemurclaw"@),
        ("tui_internal/slash_command.rs"@, "exit Codex"@, "exit lemurclaw"@),
        ("tui_internal/slash_command.rs"@, "use skills to improve how Codex performs specific tasks"@, "use skills to improve how lemurclaw performs specific tasks"@),
        ("tui_internal/slash_command.rs"@, "choose a communication style for Codex"@, "choose a communication style for lemurclaw"@),
        ("tui_internal/slash_command.rs"@, "choose what Codex is allowed to do"@, "choose what lemurclaw is allowed to do"@),
        ("tui_internal/slash_command.rs"@, "log out of Codex"@, "log out of lemurclaw"@),
        ("tui_internal/history_cell/session.rs"@, " - create an AGENTS.md file with instructions for Codex"@, " - create an AGENTS.md file with instructions for lemurclaw"@),
        ("tui_internal/history_cell/session.rs"@, " - choose what Codex is allowed to do"@, " - choose what lemurclaw is allowed to do"@),
        ("tui_internal/history_cell/session.rs"@, "Span::from(\"OpenAI Codex\").bold()"@, "Span::from(\"OpenAI lemurclaw\").bold()"@),
        ("tui_internal/history_cell/session.rs"@, "format!(\"OpenAI Codex (v{})\", self.version)"@, "format!(\"OpenAI lemurclaw (v{})\", self.version)"@),
        ("tui_internal/history_cell/session.rs"@, ">_ OpenAI Codex (vX)"@, ">_ OpenAI lemurclaw (vX)"@),
        ("tui_internal/status/card.rs"@, "Span::from(\"OpenAI Codex\").bold()"@, "Span::from(\"OpenAI lemurclaw\").bold()"@),
        ("tui_internal/status/card.rs"@, "API key configured (run codex login to use ChatGPT)"@, "API key configured (run lemurclaw login to use ChatGPT)"@),
        ("tui_internal/history_cell/approvals.rs"@, " codex to run "@, " lemurclaw to run "@),
        ("tui_internal/history_cell/approvals.rs"@, " codex network access to "@, " lemurclaw network access to "@),
        ("tui_internal/history_cell/approvals.rs"@, " codex to always run commands that start with "@, " lemurclaw to always run commands that start with "@),
        ("tui_internal/history_cell/approvals.rs"@, " Codex network access to "@, " lemurclaw network access to "@),
        ("tui_internal/history_cell/approvals.rs"@, " for codex to run "@, " for lemurclaw to run "@),
        ("tui_internal/history_cell/approvals.rs"@, " before codex could run "@, " before lemurclaw could run "@),
        ("tui_internal/history_cell/approvals.rs"@, " before codex could access "@, " before lemurclaw could access "@),
        ("tui_internal/history_cell/approvals.rs"@, " the request for codex network access to "@, " the request for lemurclaw network access to "@),
        ("tui_internal/history_cell/approvals.rs"@, " for codex to apply "@, " for lemurclaw to apply "@),
        ("tui_internal/history_cell/approvals.rs"@, " before codex could apply "@, " before lemurclaw could apply "@),
        ("tui_internal/bottom_pane/approval_overlay.rs"@, "No, and tell Codex what to do differently"@, "No, and tell lemurclaw what to do differently"@),
        ("tui_internal/bottom_pane/approval_overlay.rs"@, "✔ You approved codex to run"@, "✔ You approved lemurclaw to run"@),
        ("tui_internal/bottom_pane/mod.rs"@, "Ask Codex to do anything"@, "Ask lemurclaw to do anything"@),
        ("tui_internal/bottom_pane/chat_composer.rs"@, "Ask Codex to do anything"@, "Ask lemurclaw to do anything"@),
        ("tui_internal/bottom_pane/chat_composer/slash_input.rs"@, "Ask Codex to do anything"@, "Ask lemurclaw to do anything"@),
        ("tui_internal/bottom_pane/chat_composer/history_search.rs"@, "Ask Codex to do anything"@, "Ask lemurclaw to do anything"@),
        ("tui_internal/keymap_setup.rs"@, "Ask Codex to do anything"@, "Ask lemurclaw to do anything"@),
        ("tui_internal/model_migration.rs"@, "Codex just got an upgrade. Introducing {target_display_name}."@, "lemurclaw just got an upgrade. Introducing {target_display_name}."@),
        ("tui_internal/model_migration.rs"@, "Choose how you'd like Codex to proceed."@, "Choose how you'd like lemurclaw to proceed."@),
        ("tui_internal/bottom_pane/list_selection_view.rs"@, "Optimized for Codex. Balance of reasoning quality and coding ability."@, "Optimized for lemurclaw. Balance of reasoning quality and coding ability."@),
        ("tui_internal/bottom_pane/list_selection_view.rs"@, "Optimized for Codex. Cheaper, faster, but less capable."@, "Optimized for lemurclaw. Cheaper, faster, but less capable."@),
        ("tui_internal/bottom_pane/memories_settings_view.rs"@, "Choose how Codex uses and creates memories."@, "Choose how lemurclaw uses and creates memories."@),
        ("tui_internal/bottom_pane/memories_settings_view.rs"@, "for the current Codex home."@, "for the current lemurclaw home."@),
        ("tui_internal/keymap_setup/debug.rs"@, "Tip: Codex can only inspect keys your terminal sends."@, "Tip: lemurclaw can only inspect keys your terminal sends."@),
        ("tui_internal/keymap_setup/debug.rs"@, "your terminal is not sending that key to Codex."@, "your terminal is not sending that key to lemurclaw."@),
        ("tui_internal/keymap_setup/debug.rs"@, "Press any key to see what Codex receives."@, "Press any key to see what lemurclaw receives."@),
        ("tui_internal/keymap_setup/picker.rs"@, "See the key Codex detects and any shortcuts assigned to it."@, "See the key lemurclaw detects and any shortcuts assigned to it."@),
        ("tui_internal/pets/image_protocol.rs"@, "Run Codex outside tmux to use pets."@, "Run lemurclaw outside tmux to use pets."@),
        ("tui_internal/pets/image_protocol.rs"@, "Run Codex outside Zellij to use pets."@, "Run lemurclaw outside Zellij to use pets."@),
        ("tui_internal/pets/image_protocol.rs"@, "or run Codex outside tmux."@, "or run lemurclaw outside tmux."@),
        ("tui_internal/tooltips.rs"@, "Run 'codex app' or visit https://chatgpt.com/codex?app-landing-page=true"@, "Run 'lemurclaw app' or visit https://chatgpt.com/codex?app-landing-page=true"@),
        ("tui_internal/tooltips.rs"@, "*New* Build faster with Codex."@, "*New* Build faster with lemurclaw."@),
        ("tui_internal/tooltips.rs"@, "Codex is included in your plan for free"@, "lemurclaw is included in your plan for free"@),
        ("tui_internal/tooltips.rs"@, "line.contains(\"codex app\")"@, "line.contains(\"lemurclaw app\")"@),
        ("tui_internal/tooltips.txt"@, "when Codex asks for confirmation"@, "when lemurclaw asks for confirmation"@),
        ("tui_internal/tooltips.txt"@, "ask Codex to use one"@, "ask lemurclaw to use one"@),
        ("tui_internal/tooltips.txt"@, "Run `codex app` to open the Desktop app"@, "Run `lemurclaw app` to open the Desktop app"@),
        ("tui_internal/tooltips.txt"@, "how Codex communicates"@, "how lemurclaw communicates"@),
        ("tui_internal/tooltips.txt"@, "`codex mcp add openaiDeveloperDocs --url https://developers.openai.com/mcp`"@, "`lemurclaw mcp add openaiDeveloperDocs --url https://developers.openai.com/mcp`"@),
        ("tui_internal/tooltips.txt"@, "Visit the Codex community forum: https://community.openai.com/c/codex/37"@, "Visit the lemurclaw community forum: https://community.openai.com/c/codex/37"@),
        ("tui_internal/tooltips.txt"@, "from Codex using `!`"@, "from lemurclaw using `!`"@),
        ("tui_internal/tooltips.txt"@, "See the Codex keymap documentation"@, "See the lemurclaw keymap documentation"@),
        ("tui_internal/tooltips.txt"@, "running `codex resume`"@, "running `lemurclaw resume`"@),
        ("tui_internal/app/config_persistence.rs"@, "but Codex could not refresh the effective config: {err}"@, "but lemurclaw could not refresh the effective config: {err}"@),
        ("tui_internal/app/input.rs"@, "before starting Codex."@, "before starting lemurclaw."@),
        ("tui_internal/app/background_requests.rs"@, "Ask a workspace admin to enable Codex plugins or plugin sharing."@, "Ask a workspace admin to enable lemurclaw plugins or plugin sharing."@),
        ("tui_internal/app/background_requests.rs"@, "Update Codex, then try opening the shared plugin again."@, "Update lemurclaw, then try opening the shared plugin again."@),
        ("tui_internal/app/background_requests.rs"@, "Plugin sharing is disabled for this Codex session."@, "Plugin sharing is disabled for this lemurclaw session."@),
        ("tui_internal/app/event_dispatch.rs"@, "Codex can now safely edit files and execute commands in your computer"@, "lemurclaw can now safely edit files and execute commands in your computer"@),
        ("tui_internal/external_agent_config_migration_flow.rs"@, "Start Codex locally and run /import."@, "Start lemurclaw locally and run /import."@),
        ("tui_internal/external_agent_config_migration_flow.rs"@, "while Codex is connected to the local app-server daemon. Stop the daemon, restart Codex, and run /import."@, "while lemurclaw is connected to the local app-server daemon. Stop the daemon, restart lemurclaw, and run /import."@),
        ("tui_internal/external_agent_config_migration/render.rs"@, "Codex may add files to your current project folder."@, "lemurclaw may add files to your current project folder."@),
        ("tui_internal/bottom_pane/hooks_browser_view.rs"@, "Right before Codex ends its turn"@, "Right before lemurclaw ends its turn"@),
        ("tui_internal/app/thread_goal_actions.rs"@, "Run `codex` to start a saved session, or `codex resume` / `/resume` to reopen one."@, "Run `lemurclaw` to start a saved session, or `lemurclaw resume` / `/resume` to reopen one."@),
        ("tui_internal/bottom_pane/status_surface_preview.rs"@, "StatusSurfacePreviewItem::AppName => \"codex\""@, "StatusSurfacePreviewItem::AppName => \"lemurclaw\""@),
        ("app_server_daemon/update_loop.rs"@, "standalone Codex updater exited with status {status}"@, "standalone lemurclaw updater exited with status {status}"@),
        ("app_server_test_client/mod.rs"@, "author = \"Codex\", version, about = \"Bootstrap Codex app-server\""@, "author = \"lemurclaw\", version, about = \"Bootstrap lemurclaw app-server\""@),
        ("app_server_test_client/mod.rs"@, "started codex app-server"@, "started lemurclaw app-server"@),
        ("app_server_test_client/mod.rs"@, "[codex app-server exited: {status}]"@, "[lemurclaw app-server exited: {status}]"@),
        ("app_server/mod.rs"@, "\"Codex rebuilt its local database.\""@, "\"lemurclaw rebuilt its local database.\""@),
        ("app_server/mod.rs"@, "\"Codex local database at {} appears damaged. Moving it into a backup folder so the app server can rebuild it from saved data.\""@, "\"lemurclaw local database at {} appears damaged. Moving it into a backup folder so the app server can rebuild it from saved data.\""@),
        ("app_server/mod.rs"@, "\"Moved damaged Codex local database file {} to {}\""@, "\"Moved damaged lemurclaw local database file {} to {}\""@),
        ("chatgpt/chatgpt_client.rs"@, "ChatGPT backend requests require Codex backend auth"@, "ChatGPT backend requests require lemurclaw backend auth"@),
        ("chatgpt/chatgpt_client.rs"@, "ChatGPT account ID not available, please re-run `codex login`"@, "ChatGPT account ID not available, please re-run `lemurclaw login`"@),
        ("chatgpt/chatgpt_client.rs"@, "ChatGPT account ID not available, please re-run codex login"@, "ChatGPT account ID not available, please re-run lemurclaw login"@),
        ("chatgpt/connectors.rs"@, "ChatGPT connectors require Codex backend auth"@, "ChatGPT connectors require lemurclaw backend auth"@),
        ("chatgpt/connectors.rs"@, "ChatGPT backend requests require Codex backend auth"@, "ChatGPT backend requests require lemurclaw backend auth"@),
        ("chatgpt/connectors.rs"@, "ChatGPT account ID not available, please re-run codex login"@, "ChatGPT account ID not available, please re-run lemurclaw login"@),
        ("app_server_daemon/managed_install.rs"@, "managed Codex"@, "managed lemurclaw"@),
        ("app_server_daemon/client.rs"@, "\"Codex App Server Daemon\""@, "\"lemurclaw App Server Daemon\""@),
        ("memories_write/guard.rs"@, "skipping memories startup because Codex rate limits are below the configured threshold"@, "skipping memories startup because lemurclaw rate limits are below the configured threshold"@),
    ]
}

pub open spec fn edits_view(v: Seq<(&str, &str, &str)>) -> Seq<(Seq<char>, Seq<char>, Seq<char>)> {
    v.map_values(|e: (&str, &str, &str)| (e.0@, e.1@, e.2@))
}

/// The table of [`spec_display_edits`].
#[verifier::rlimit(100)]
pub fn display_edits() -> (r: Vec<(&'static str, &'static str, &'static str)>)
    ensures
        edits_view(r@) == spec_display_edits(),
{
    let v = vec![
        ("main.rs", "/// Codex CLI", "/// lemurclaw CLI"),
        ("main.rs", "override_usage = \"codex [OPTIONS] [PROMPT]\\n       codex [OPTIONS] <COMMAND> [ARGS]\"", "override_usage = \"lemurclaw [OPTIONS] [PROMPT]\\n       lemurclaw [OPTIONS] <COMMAND> [ARGS]\""),
        ("main.rs", "the generic `codex` command name that users run.", "the generic `lemurclaw` command name that users run."),
        ("main.rs", "/// Run Codex non-interactively.", "/// Run lemurclaw non-interactively."),
        ("main.rs", "/// Manage external MCP servers for Codex.", "/// Manage external MCP servers for lemurclaw."),
        ("main.rs", "/// Manage Codex plugins.", "/// Manage lemurclaw plugins."),
        ("main.rs", "/// Start Codex as an MCP server (stdio).", "/// Start lemurclaw as an MCP server (stdio)."),
        ("main.rs", "/// Update Codex to the latest version.", "/// Update lemurclaw to the latest version."),
        ("main.rs", "/// Diagnose local Codex installation", "/// Diagnose local lemurclaw installation"),
        ("main.rs", "/// Run commands within a Codex-provided sandbox.", "/// Run commands within a lemurclaw-provided sandbox."),
        ("main.rs", "/// Apply the latest diff produced by Codex agent", "/// Apply the latest diff produced by lemurclaw agent"),
        ("main.rs", "/// [EXPERIMENTAL] Browse tasks from Codex Cloud", "/// [EXPERIMENTAL] Browse tasks from lemurclaw Cloud"),
        ("main.rs", "/// [internal] Generate internal JSON Schema artifacts for Codex tooling.", "/// [internal] Generate internal JSON Schema artifacts for lemurclaw tooling."),
        ("main.rs", "this version of Codex.", "this version of lemurclaw."),
        ("main.rs", "printenv OPENAI_API_KEY | codex login --with-api-key", "printenv OPENAI_API_KEY | lemurclaw login --with-api-key"),
        ("main.rs", "printenv CODEX_ACCESS_TOKEN | codex login --with-access-token", "printenv CODEX_ACCESS_TOKEN | lemurclaw login --with-access-token"),
        ("main.rs", "Updating Codex via `{cmd_str}`...", "Updating lemurclaw via `{cmd_str}`..."),
        ("main.rs", "Please restart Codex.", "Please restart lemurclaw."),
        ("main.rs", "`codex update` is not available in debug builds. Install a release build of Codex to use this command.", "`lemurclaw update` is not available in debug builds. Install a release build of lemurclaw to use this command."),
        ("main.rs", "Could not detect the Codex installation method.", "Could not detect the lemurclaw installation method."),
        ("main.rs", "Codex executable path is not configured", "lemurclaw executable path is not configured"),
        ("main.rs", "run `codex login` or set CODEX_API_KEY", "run `lemurclaw login` or set CODEX_API_KEY"),
        ("main.rs", "Codex's interactive TUI may not work in this terminal.", "lemurclaw's interactive TUI may not work in this terminal."),
        ("main.rs", "failed to move damaged Codex local database files", "failed to move damaged lemurclaw local database files"),
        ("main.rs", "`codex sandbox` is not supported on this operating system", "`lemurclaw sandbox` is not supported on this operating system"),
        ("main.rs", "--profile only applies to runtime commands and `codex mcp`: `codex`, `codex exec`, `codex review`, `codex resume`, `codex archive`, `codex delete`, `codex unarchive`, `codex fork`, `codex mcp`, `codex sandbox`, and `codex debug prompt-input`.", "--profile only applies to runtime commands and `lemurclaw mcp`: `lemurclaw`, `lemurclaw exec`, `lemurclaw review`, `lemurclaw resume`, `lemurclaw archive`, `lemurclaw delete`, `lemurclaw unarchive`, `lemurclaw fork`, `lemurclaw mcp`, `lemurclaw sandbox`, and `lemurclaw debug prompt-input`."),
        ("main.rs", "not `codex {subcommand}`", "not `lemurclaw {subcommand}`"),
        ("main.rs", "`--strict-config` is not supported for `codex {subcommand}`", "`--strict-config` is not supported for `lemurclaw {subcommand}`"),
        ("exec/cli.rs", "override_usage = \"codex exec [OPTIONS] [PROMPT]\\n       codex exec [OPTIONS] <COMMAND> [ARGS]\"", "override_usage = \"lemurclaw exec [OPTIONS] [PROMPT]\\n       lemurclaw exec [OPTIONS] <COMMAND> [ARGS]\""),
        ("exec/cli.rs", "/// Allow running Codex outside a Git repository.", "/// Allow running lemurclaw outside a Git repository."),
        ("exec/event_processor_with_human_output.rs", "\"codex\".style(self.italic).style(self.magenta)", "\"lemurclaw\".style(self.italic).style(self.magenta)"),
        ("exec/event_processor_with_human_output.rs", "OpenAI Codex v{VERSION}", "OpenAI lemurclaw v{VERSION}"),
        ("exec/mod.rs", "Error finding codex home: {err}", "Error finding lemurclaw home: {err}"),
        ("cli_internal/login.rs", "Use `codex login --device-auth` instead.", "Use `lemurclaw login --device-auth` instead."),
        ("cli_internal/login.rs", "printenv OPENAI_API_KEY | codex login --with-api-key", "printenv OPENAI_API_KEY | lemurclaw login --with-api-key"),
        ("cli_internal/login.rs", "printenv CODEX_ACCESS_TOKEN | codex login --with-access-token", "printenv CODEX_ACCESS_TOKEN | lemurclaw login --with-access-token"),
        ("cli_internal/sandbox_setup.rs", "`codex sandbox setup` currently requires --elevated", "`lemurclaw sandbox setup` currently requires --elevated"),
        ("cli_internal/mcp_cmd.rs", "override_usage = \"codex mcp add [OPTIONS]", "override_usage = \"lemurclaw mcp add [OPTIONS]"),
        ("cli_internal/mcp_cmd.rs", "Run `codex mcp login {name}` to login.", "Run `lemurclaw mcp login {name}` to login."),
        ("cli_internal/mcp_cmd.rs", "Try `codex mcp add my-tool -- my-command`.", "Try `lemurclaw mcp add my-tool -- my-command`."),
        ("cli_internal/mcp_cmd.rs", "remove: codex mcp remove {}", "remove: lemurclaw mcp remove {}"),
        ("cli_internal/marketplace_cmd.rs", "bin_name = \"codex plugin marketplace\"", "bin_name = \"lemurclaw plugin marketplace\""),
        ("cli_internal/marketplace_cmd.rs", "bin_name = \"codex plugin marketplace add\"", "bin_name = \"lemurclaw plugin marketplace add\""),
        ("cli_internal/marketplace_cmd.rs", "bin_name = \"codex plugin marketplace list\"", "bin_name = \"lemurclaw plugin marketplace list\""),
        ("cli_internal/marketplace_cmd.rs", "bin_name = \"codex plugin marketplace upgrade\"", "bin_name = \"lemurclaw plugin marketplace upgrade\""),
        ("cli_internal/marketplace_cmd.rs", "bin_name = \"codex plugin marketplace remove\"", "bin_name = \"lemurclaw plugin marketplace remove\""),
        ("cli_internal/marketplace_cmd.rs", "codex plugin marketplace", "lemurclaw plugin marketplace"),
        ("cli_internal/marketplace_cmd.rs", "List plugin marketplaces Codex is currently considering", "List plugin marketplaces lemurclaw is currently considering"),
        ("cli_internal/plugin_cmd.rs", "bin_name = \"codex plugin\"", "bin_name = \"lemurclaw plugin\""),
        ("cli_internal/plugin_cmd.rs", "bin_name = \"codex plugin add\"", "bin_name = \"lemurclaw plugin add\""),
        ("cli_internal/plugin_cmd.rs", "bin_name = \"codex plugin list\"", "bin_name = \"lemurclaw plugin list\""),
        ("cli_internal/plugin_cmd.rs", "bin_name = \"codex plugin remove\"", "bin_name = \"lemurclaw plugin remove\""),
        ("cli_internal/plugin_cmd.rs", "codex plugin add", "lemurclaw plugin add"),
        ("cli_internal/plugin_cmd.rs", "codex plugin list", "lemurclaw plugin list"),
        ("cli_internal/plugin_cmd.rs", "codex plugin remove", "lemurclaw plugin remove"),
        ("cli_internal/state_db_recovery.rs", "Codex couldn't start because its local database appears to be damaged.", "lemurclaw couldn't start because its local database appears to be damaged."),
        ("cli_internal/state_db_recovery.rs", "Moving the damaged local database aside so Codex can rebuild it from saved data.", "Moving the damaged local database aside so lemurclaw can rebuild it from saved data."),
        ("cli_internal/state_db_recovery.rs", "Codex rebuilt its local database.", "lemurclaw rebuilt its local database."),
        ("cli_internal/state_db_recovery.rs", "Codex detected a damaged local database, moved it into a backup folder", "lemurclaw detected a damaged local database, moved it into a backup folder"),
        ("cli_internal/state_db_recovery.rs", "Run `codex doctor` to check your setup", "Run `lemurclaw doctor` to check your setup"),
        ("cli_internal/state_db_recovery.rs", "Codex couldn't start because another Codex process is using its local data.", "lemurclaw couldn't start because another lemurclaw process is using its local data."),
        ("cli_internal/state_db_recovery.rs", "Quit any other copies of Codex that may still be running", "Quit any other copies of lemurclaw that may still be running"),
        ("cli_internal/doctor/output.rs", "bold(\"Codex Doctor\", options)", "bold(\"lemurclaw Doctor\", options)"),
        ("cli_internal/doctor/output.rs", "Run codex doctor without --summary for detailed diagnostics.", "Run lemurclaw doctor without --summary for detailed diagnostics."),
        ("cli_internal/doctor/background.rs", "Run codex app-server daemon version for more details.", "Run lemurclaw app-server daemon version for more details."),
        ("cli_internal/doctor/git.rs", "so Codex can inspect Git metadata.", "so lemurclaw can inspect Git metadata."),
        ("cli_internal/doctor/git.rs", "so Codex can inspect repository metadata.", "so lemurclaw can inspect repository metadata."),
        ("cli_internal/doctor/git.rs", "the bundled Git executable Codex resolves first.", "the bundled Git executable lemurclaw resolves first."),
        ("cli_internal/doctor/runtime.rs", "repair the bundled Codex package.", "repair the bundled lemurclaw package."),
        ("cli_internal/doctor/updates.rs", "Reinstall or update Codex so the JS shim provides CODEX_MANAGED_PACKAGE_ROOT.", "Reinstall or update lemurclaw so the JS shim provides CODEX_MANAGED_PACKAGE_ROOT."),
        ("cli_internal/doctor/mod.rs", "then rerun codex doctor.", "then rerun lemurclaw doctor."),
        ("cli_internal/doctor/mod.rs", "failed to load Codex config", "failed to load lemurclaw config"),
        ("cli_internal/doctor/mod.rs", "Run codex login again or provide a supported auth env var.", "Run lemurclaw login again or provide a supported auth env var."),
        ("cli_internal/doctor/mod.rs", "no Codex credentials were found", "no lemurclaw credentials were found"),
        ("cli_internal/doctor/mod.rs", "Run codex login or provide an API key through a supported auth env var.", "Run lemurclaw login or provide an API key through a supported auth env var."),
        ("cli_internal/doctor/mod.rs", "Fix auth storage access or run codex login again.", "Fix auth storage access or run lemurclaw login again."),
        ("cli_internal/doctor/mod.rs", "Reinstall or update Codex so the JS shim provides CODEX_MANAGED_PACKAGE_ROOT.", "Reinstall or update lemurclaw so the JS shim provides CODEX_MANAGED_PACKAGE_ROOT."),
        ("cli_internal/doctor/thread_inventory.rs", "Start Codex with no state DB present so startup backfill can create it from rollout files.", "Start lemurclaw with no state DB present so startup backfill can create it from rollout files."),
        ("cloud_tasks/mod.rs", "Please run 'codex login' to sign in with ChatGPT, then re-run 'codex cloud'.", "Please run 'lemurclaw login' to sign in with ChatGPT, then re-run 'lemurclaw cloud'."),
        ("cloud_tasks/mod.rs", "run `codex cloud` to list available environments", "run `lemurclaw cloud` to list available environments"),
        ("cloud_tasks/mod.rs", "run `codex cloud` to pick the desired environment id", "run `lemurclaw cloud` to pick the desired environment id"),
        ("cloud_tasks/mod.rs", "format!(\"codex cloud list --cursor='{cursor}'\")", "format!(\"lemurclaw cloud list --cursor='{cursor}'\")"),
        ("tui_internal/slash_command.rs", "create an AGENTS.md file with instructions for Codex", "create an AGENTS.md file with instructions for lemurclaw"),
        ("tui_internal/slash_command.rs", "exit Codex", "exit lemurclaw"),
        ("tui_internal/slash_command.rs", "use skills to improve how Codex performs specific tasks", "use skills to improve how lemurclaw performs specific tasks"),
        ("tui_internal/slash_command.rs", "choose a communication style for Codex", "choose a communication style for lemurclaw"),
        ("tui_internal/slash_command.rs", "choose what Codex is allowed to do", "choose what lemurclaw is allowed to do"),
        ("tui_internal/slash_command.rs", "log out of Codex", "log out of lemurclaw"),
        ("tui_internal/history_cell/session.rs", " - create an AGENTS.md file with instructions for Codex", " - create an AGENTS.md file with instructions for lemurclaw"),
        ("tui_internal/history_cell/session.rs", " - choose what Codex is allowed to do", " - choose what lemurclaw is allowed to do"),
        ("tui_internal/history_cell/session.rs", "Span::from(\"OpenAI Codex\").bold()", "Span::from(\"OpenAI lemurclaw\").bold()"),
        ("tui_internal/history_cell/session.rs", "format!(\"OpenAI Codex (v{})\", self.version)", "format!(\"OpenAI lemurclaw (v{})\", self.version)"),
        ("tui_internal/history_cell/session.rs", ">_ OpenAI Codex (vX)", ">_ OpenAI lemurclaw (vX)"),
        ("tui_internal/status/card.rs", "Span::from(\"OpenAI Codex\").bold()", "Span::from(\"OpenAI lemurclaw\").bold()"),
        ("tui_internal/status/card.rs", "API key configured (run codex login to use ChatGPT)", "API key configured (run lemurclaw login to use ChatGPT)"),
        ("tui_internal/history_cell/approvals.rs", " codex to run ", " lemurclaw to run "),
        ("tui_internal/history_cell/approvals.rs", " codex network access to ", " lemurclaw network access to "),
        ("tui_internal/history_cell/approvals.rs", " codex to always run commands that start with ", " lemurclaw to always run commands that start with "),
        ("tui_internal/history_cell/approvals.rs", " Codex network access to ", " lemurclaw network access to "),
        ("tui_internal/history_cell/approvals.rs", " for codex to run ", " for lemurclaw to run "),
        ("tui_internal/history_cell/approvals.rs", " before codex could run ", " before lemurclaw could run "),
        ("tui_internal/history_cell/approvals.rs", " before codex could access ", " before lemurclaw could access "),
        ("tui_internal/history_cell/approvals.rs", " the request for codex network access to ", " the request for lemurclaw network access to "),
        ("tui_internal/history_cell/approvals.rs", " for codex to apply ", " for lemurclaw to apply "),
        ("tui_internal/history_cell/approvals.rs", " before codex could apply ", " before lemurclaw could apply "),
        ("tui_internal/bottom_pane/approval_overlay.rs", "No, and tell Codex what to do differently", "No, and tell lemurclaw what to do differently"),
        ("tui_internal/bottom_pane/approval_overlay.rs", "✔ You approved codex to run", "✔ You approved lemurclaw to run"),
        ("tui_internal/bottom_pane/mod.rs", "Ask Codex to do anything", "Ask lemurclaw to do anything"),
        ("tui_internal/bottom_pane/chat_composer.rs", "Ask Codex to do anything", "Ask lemurclaw to do anything"),
        ("tui_internal/bottom_pane/chat_composer/slash_input.rs", "Ask Codex to do anything", "Ask lemurclaw to do anything"),
        ("tui_internal/bottom_pane/chat_composer/history_search.rs", "Ask Codex to do anything", "Ask lemurclaw to do anything"),
        ("tui_internal/keymap_setup.rs", "Ask Codex to do anything", "Ask lemurclaw to do anything"),
        ("tui_internal/model_migration.rs", "Codex just got an upgrade. Introducing {target_display_name}.", "lemurclaw just got an upgrade. Introducing {target_display_name}."),
        ("tui_internal/model_migration.rs", "Choose how you'd like Codex to proceed.", "Choose how you'd like lemurclaw to proceed."),
        ("tui_internal/bottom_pane/list_selection_view.rs", "Optimized for Codex. Balance of reasoning quality and coding ability.", "Optimized for lemurclaw. Balance of reasoning quality and coding ability."),
        ("tui_internal/bottom_pane/list_selection_view.rs", "Optimized for Codex. Cheaper, faster, but less capable.", "Optimized for lemurclaw. Cheaper, faster, but less capable."),
        ("tui_internal/bottom_pane/memories_settings_view.rs", "Choose how Codex uses and creates memories.", "Choose how lemurclaw uses and creates memories."),
        ("tui_internal/bottom_pane/memories_settings_view.rs", "for the current Codex home.", "for the current lemurclaw home."),
        ("tui_internal/keymap_setup/debug.rs", "Tip: Codex can only inspect keys your terminal sends.", "Tip: lemurclaw can only inspect keys your terminal sends."),
        ("tui_internal/keymap_setup/debug.rs", "your terminal is not sending that key to Codex.", "your terminal is not sending that key to lemurclaw."),
        ("tui_internal/keymap_setup/debug.rs", "Press any key to see what Codex receives.", "Press any key to see what lemurclaw receives."),
        ("tui_internal/keymap_setup/picker.rs", "See the key Codex detects and any shortcuts assigned to it.", "See the key lemurclaw detects and any shortcuts assigned to it."),
        ("tui_internal/pets/image_protocol.rs", "Run Codex outside tmux to use pets.", "Run lemurclaw outside tmux to use pets."),
        ("tui_internal/pets/image_protocol.rs", "Run Codex outside Zellij to use pets.", "Run lemurclaw outside Zellij to use pets."),
        ("tui_internal/pets/image_protocol.rs", "or run Codex outside tmux.", "or run lemurclaw outside tmux."),
        ("tui_internal/tooltips.rs", "Run 'codex app' or visit https://chatgpt.com/codex?app-landing-page=true", "Run 'lemurclaw app' or visit https://chatgpt.com/codex?app-landing-page=true"),
        ("tui_internal/tooltips.rs", "*New* Build faster with Codex.", "*New* Build faster with lemurclaw."),
        ("tui_internal/tooltips.rs", "Codex is included in your plan for free", "lemurclaw is included in your plan for free"),
        ("tui_internal/tooltips.rs", "line.contains(\"codex app\")", "line.contains(\"lemurclaw app\")"),
        ("tui_internal/tooltips.txt", "when Codex asks for confirmation", "when lemurclaw asks for confirmation"),
        ("tui_internal/tooltips.txt", "ask Codex to use one", "ask lemurclaw to use one"),
        ("tui_internal/tooltips.txt", "Run `codex app` to open the Desktop app", "Run `lemurclaw app` to open the Desktop app"),
        ("tui_internal/tooltips.txt", "how Codex communicates", "how lemurclaw communicates"),
        ("tui_internal/tooltips.txt", "`codex mcp add openaiDeveloperDocs --url https://developers.openai.com/mcp`", "`lemurclaw mcp add openaiDeveloperDocs --url https://developers.openai.com/mcp`"),
        ("tui_internal/tooltips.txt", "Visit the Codex community forum: https://community.openai.com/c/codex/37", "Visit the lemurclaw community forum: https://community.openai.com/c/codex/37"),
        ("tui_internal/tooltips.txt", "from Codex using `!`", "from lemurclaw using `!`"),
        ("tui_internal/tooltips.txt", "See the Codex keymap documentation", "See the lemurclaw keymap documentation"),
        ("tui_internal/tooltips.txt", "running `codex resume`", "running `lemurclaw resume`"),
        ("tui_internal/app/config_persistence.rs", "but Codex could not refresh the effective config: {err}", "but lemurclaw could not refresh the effective config: {err}"),
        ("tui_internal/app/input.rs", "before starting Codex.", "before starting lemurclaw."),
        ("tui_internal/app/background_requests.rs", "Ask a workspace admin to enable Codex plugins or plugin sharing.", "Ask a workspace admin to enable lemurclaw plugins or plugin sharing."),
        ("tui_internal/app/background_requests.rs", "Update Codex, then try opening the shared plugin again.", "Update lemurclaw, then try opening the shared plugin again."),
        ("tui_internal/app/background_requests.rs", "Plugin sharing is disabled for this Codex session.", "Plugin sharing is disabled for this lemurclaw session."),
        ("tui_internal/app/event_dispatch.rs", "Codex can now safely edit files and execute commands in your computer", "lemurclaw can now safely edit files and execute commands in your computer"),
        ("tui_internal/external_agent_config_migration_flow.rs", "Start Codex locally and run /import.", "Start lemurclaw locally and run /import."),
        ("tui_internal/external_agent_config_migration_flow.rs", "while Codex is connected to the local app-server daemon. Stop the daemon, restart Codex, and run /import.", "while lemurclaw is connected to the local app-server daemon. Stop the daemon, restart lemurclaw, and run /import."),
        ("tui_internal/external_agent_config_migration/render.rs", "Codex may add files to your current project folder.", "lemurclaw may add files to your current project folder."),
        ("tui_internal/bottom_pane/hooks_browser_view.rs", "Right before Codex ends its turn", "Right before lemurclaw ends its turn"),
        ("tui_internal/app/thread_goal_actions.rs", "Run `codex` to start a saved session, or `codex resume` / `/resume` to reopen one.", "Run `lemurclaw` to start a saved session, or `lemurclaw resume` / `/resume` to reopen one."),
        ("tui_internal/bottom_pane/status_surface_preview.rs", "StatusSurfacePreviewItem::AppName => \"codex\"", "StatusSurfacePreviewItem::AppName => \"lemurclaw\""),
        ("app_server_daemon/update_loop.rs", "standalone Codex updater exited with status {status}", "standalone lemurclaw updater exited with status {status}"),
        ("app_server_test_client/mod.rs", "author = \"Codex\", version, about = \"Bootstrap Codex app-server\"", "author = \"lemurclaw\", version, about = \"Bootstrap lemurclaw app-server\""),
        ("app_server_test_client/mod.rs", "started codex app-server", "started lemurclaw app-server"),
        ("app_server_test_client/mod.rs", "[codex app-server exited: {status}]", "[lemurclaw app-server exited: {status}]"),
        ("app_server/mod.rs", "\"Codex rebuilt its local database.\"", "\"lemurclaw rebuilt its local database.\""),
        ("app_server/mod.rs", "\"Codex local database at {} appears damaged. Moving it into a backup folder so the app server can rebuild it from saved data.\"", "\"lemurclaw local database at {} appears damaged. Moving it into a backup folder so the app server can rebuild it from saved data.\""),
        ("app_server/mod.rs", "\"Moved damaged Codex local database file {} to {}\"", "\"Moved damaged lemurclaw local database file {} to {}\""),
        ("chatgpt/chatgpt_client.rs", "ChatGPT backend requests require Codex backend auth", "ChatGPT backend requests require lemurclaw backend auth"),
        ("chatgpt/chatgpt_client.rs", "ChatGPT account ID not available, please re-run `codex login`", "ChatGPT account ID not available, please re-run `lemurclaw login`"),
        ("chatgpt/chatgpt_client.rs", "ChatGPT account ID not available, please re-run codex login", "ChatGPT account ID not available, please re-run lemurclaw login"),
        ("chatgpt/connectors.rs", "ChatGPT connectors require Codex backend auth", "ChatGPT connectors require lemurclaw backend auth"),
        ("chatgpt/connectors.rs", "ChatGPT backend requests require Codex backend auth", "ChatGPT backend requests require lemurclaw backend auth"),
        ("chatgpt/connectors.rs", "ChatGPT account ID not available, please re-run codex login", "ChatGPT account ID not available, please re-run lemurclaw login"),
        ("app_server_daemon/managed_install.rs", "managed Codex", "managed lemurclaw"),
        ("app_server_daemon/client.rs", "\"Codex App Server Daemon\"", "\"lemurclaw App Server Daemon\""),
        ("memories_write/guard.rs", "skipping memories startup because Codex rate limits are below the configured threshold", "skipping memories startup because lemurclaw rate limits are below the configured threshold"),
    ];
    assert(edits_view(v@) =~= spec_display_edits());
    v
}

/// One edit: where `old` (non-empty) occurs in `text`, every occurrence is
/// replaced by `new`; elsewhere nothing is to be written.
pub open spec fn spec_edit(text: Seq<char>, old: Seq<char>, new: Seq<char>) -> Option<Seq<char>> {
    if old.len() > 0 && contains(text, old) {
        Some(replace_all(text, old, new))
    } else {
        None
    }
}

/// The edits of `edits` that name the file `rel`, applied in table order to
/// its text; with the number of edits that found their phrase.
pub open spec fn apply_display_edits(
    rel: Seq<char>,
    text: Seq<char>,
    edits: Seq<(Seq<char>, Seq<char>, Seq<char>)>,
) -> (Seq<char>, nat)
    decreases edits.len(),
{
    if edits.len() == 0 {
        (text, 0)
    } else {
        let (t, n) = apply_display_edits(rel, text, edits.drop_last());
        let e = edits.last();
        if e.0 == rel {
            match spec_edit(t, e.1, e.2) {
                Some(u) => (u, n + 1),
                None => (t, n),
            }
        } else {
            (t, n)
        }
    }
}

pub proof fn lemma_apply_display_edits_count(
    rel: Seq<char>,
    text: Seq<char>,
    edits: Seq<(Seq<char>, Seq<char>, Seq<char>)>,
)
    ensures
        apply_display_edits(rel, text, edits).1 <= edits.len(),
    decreases edits.len(),
{
    if edits.len() > 0 {
        lemma_apply_display_edits_count(rel, text, edits.drop_last());
    }
}

/// Applies one edit (see [`spec_edit`]).
pub fn apply_edit(text: &[char], old: &[char], new: &[char]) -> (r: Option<Vec<char>>)
    ensures
        r matches Some(v) ==> spec_edit(text@, old@, new@) == Some(v@),
        r is None ==> spec_edit(text@, old@, new@) is None,
{
    if old.len() > 0 && contains_seq(text, old) {
        Some(replace_vec(text, old, new))
    } else {
        None
    }
}

/// Rewrites the text of the file `rel` by every edit of the table that
/// names it, in table order; also gives how many of them found their phrase
/// (zero when the text is to be left as it was).
pub fn rewrite_brand_display_file(rel: &str, raw: &str) -> (r: (String, usize))
    ensures
        (r.0@, r.1 as nat) == apply_display_edits(rel@, raw@, spec_display_edits()),
{
    let edits = display_edits();
    let ghost es = spec_display_edits();
    let relv = to_chars(rel);
    let mut cur = to_chars(raw);
    let mut n: usize = 0;
    let mut j: usize = 0;
    assert(es.take(0) =~= Seq::<(Seq<char>, Seq<char>, Seq<char>)>::empty());
    while j < edits.len()
        invariant
            j <= edits@.len(),
            edits_view(edits@) == es,
            relv@ == rel@,
            (cur@, n as nat) == apply_display_edits(rel@, raw@, es.take(j as int)),
        decreases edits@.len() - j,
    {
        proof {
            lemma_apply_display_edits_count(rel@, raw@, es.take(j as int));
        }
        let (er, eo, en) = edits[j];
        assert(es.take(j + 1).drop_last() =~= es.take(j as int));
        assert(es.take(j + 1).last() == (er@, eo@, en@));
        let erv = to_chars(er);
        if seq_eq(&erv, &relv) {
            match apply_edit(&cur, &to_chars(eo), &to_chars(en)) {
                Some(u) => {
                    cur = u;
                    n = n + 1;
                },
                None => {},
            }
        }
        j = j + 1;
    }
    assert(es.take(edits@.len() as int) =~= es);
    (from_chars(&cur), n)
}

/// Each name once, in order of first appearance.
pub open spec fn first_occurrences(names: Seq<Seq<char>>) -> Seq<Seq<char>>
    decreases names.len(),
{
    if names.len() == 0 {
        seq![]
    } else {
        let prev = first_occurrences(names.drop_last());
        if prev.contains(names.last()) {
            prev
        } else {
            prev.push(names.last())
        }
    }
}

/// The files the table edits, each once, in order of first appearance.
pub fn display_edit_files() -> (r: Vec<&'static str>)
    ensures
        r@.map_values(|s: &str| s@) == first_occurrences(
            spec_display_edits().map_values(|e: (Seq<char>, Seq<char>, Seq<char>)| e.0),
        ),
{
    let edits = display_edits();
    let ghost names = spec_display_edits().map_values(|e: (Seq<char>, Seq<char>, Seq<char>)| e.0);
    let mut out: Vec<&'static str> = Vec::new();
    let mut j: usize = 0;
    assert(names.take(0) =~= Seq::<Seq<char>>::empty());
    while j < edits.len()
        invariant
            j <= edits@.len(),
            edits_view(edits@) == spec_display_edits(),
            names == spec_display_edits().map_values(|e: (Seq<char>, Seq<char>, Seq<char>)| e.0),
            names.len() == edits@.len(),
            out@.map_values(|s: &str| s@) == first_occurrences(names.take(j as int)),
        decreases edits@.len() - j,
    {
        let (er, _, _) = edits[j];
        let erv = to_chars(er);
        let ghost prev = out@.map_values(|s: &str| s@);
        assert(names.take(j + 1).drop_last() =~= names.take(j as int));
        assert(names[j as int] == er@);
        assert(names.take(j + 1).last() == er@);
        let mut found = false;
        let mut k: usize = 0;
        while k < out.len()
            invariant
                k <= out@.len(),
                prev == out@.map_values(|s: &str| s@),
                erv@ == er@,
                found == (exists|i: int| 0 <= i < k && prev[i] == er@),
            decreases out@.len() - k,
        {
            let o = to_chars(out[k]);
            assert(prev[k as int] == out@[k as int]@);
            if seq_eq(&o, &erv) {
                found = true;
            }
            k = k + 1;
        }
        assert(found == prev.contains(er@));
        if !found {
            out.push(er);
            assert(out@.map_values(|s: &str| s@) =~= prev.push(er@));
        }
        j = j + 1;
    }
    assert(names.take(edits@.len() as int) =~= names);
    out
}

/// The placeholder phrase of the composer, the one text rewritten in
/// snapshot files; nothing else in them is touched.
pub fn rewrite_snapshot_text(raw: &str) -> (r: Option<String>)
    ensures
        r matches Some(s) ==> spec_edit(
            raw@,
            "Ask Codex to do anything"@,
            "Ask lemurclaw to do anything"@,
        ) == Some(s@),
        r is None ==> spec_edit(raw@, "Ask Codex to do anything"@, "Ask lemurclaw to do anything"@) is None,
{
    match apply_edit(&to_chars(raw), &to_chars("Ask Codex to do anything"), &to_chars("Ask lemurclaw to do anything")) {
        Some(v) => Some(from_chars(&v)),
        None => None,
    }
}

/// A file under the source tree that the display rewrite visits: its path
/// relative to the tree, whether it is an insta `.snap` file, and its text.
pub struct DisplayFile {
    pub rel: String,
    pub is_snap: bool,
    pub text: String,
}

/// What the display rewrite does to one file: the table's edits for its
/// path applied in order, then, for a `.snap` file, the placeholder
/// phrase replaced; the text to write back when any of this found its
/// phrase, the number of table edits that did, and whether the snapshot
/// phrase was found.
pub open spec fn spec_display_file(f: DisplayFile) -> (Option<Seq<char>>, nat, bool) {
    let (t1, n1) = apply_display_edits(f.rel@, f.text@, spec_display_edits());
    let snap = if f.is_snap {
        spec_edit(t1, "Ask Codex to do anything"@, "Ask lemurclaw to do anything"@)
    } else {
        None
    };
    let t2 = match snap {
        Some(u) => u,
        None => t1,
    };
    (if n1 > 0 || snap is Some {
        Some(t2)
    } else {
        None
    }, n1, snap is Some)
}

/// The display rewrite over the files of a tree (see [`spec_display_file`]);
/// every file it is not given keeps its bytes.
pub fn rewrite_brand_display_files(files: &[DisplayFile]) -> (r: Vec<(Option<String>, usize, bool)>)
    ensures
        r@.len() == files@.len(),
        forall|i: int|
            0 <= i < files@.len() ==> ({
                let (t, n, snap) = spec_display_file(files@[i]);
                &&& opt_text(#[trigger] r@[i].0) == t
                &&& r@[i].1 == n
                &&& r@[i].2 == snap
            }),
{
    let mut out: Vec<(Option<String>, usize, bool)> = Vec::new();
    let mut i: usize = 0;
    while i < files.len()
        invariant
            i <= files@.len(),
            out@.len() == i,
            forall|k: int|
                0 <= k < i ==> ({
                    let (t, n, snap) = spec_display_file(files@[k]);
                    &&& opt_text(#[trigger] out@[k].0) == t
                    &&& out@[k].1 == n
                    &&& out@[k].2 == snap
                }),
        decreases files@.len() - i,
    {
        let f = &files[i];
        let (t1, n1) = rewrite_brand_display_file(f.rel.as_str(), f.text.as_str());
        let snap: Option<String> = if f.is_snap {
            rewrite_snapshot_text(t1.as_str())
        } else {
            None
        };
        let entry = match snap {
            Some(u) => (Some(u), n1, true),
            None => if n1 > 0 {
                (Some(t1), n1, false)
            } else {
                (None, n1, false)
            },
        };
        out.push(entry);
        i = i + 1;
    }
    out
}

pub open spec fn opt_text(o: Option<String>) -> Option<Seq<char>> {
    match o {
        Some(s) => Some(s@),
        None => None,
    }
}

} // verus!
