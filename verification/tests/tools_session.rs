use chat_cli::context::{ConfigFile, ContextManager};
use chat_cli::execute::ExecuteCommand;
use chat_cli::name_map::NameMap;
use chat_cli::tools::{
    begin_clear, finish_clear, AllowRun, AllowSubcommand, ClearRun, PermissionChange, RemoveRun, RemoveSubcommand,
    ToolsAction, ToolsArgs, ToolsSession, ToolsSubcommand,
};
use chat_cli::tools_list::{ToolGroup, ToolOrigin, ToolsListing};

fn list(v: &[&str]) -> Vec<String> {
    v.iter().map(|s| s.to_string()).collect()
}

fn manager() -> ContextManager {
    ContextManager::new(None, ConfigFile::Missing, ConfigFile::Missing).unwrap()
}

fn session(has_context: bool) -> ToolsSession {
    ToolsSession {
        tool_names: list(&["fs_read", "fs_write"]),
        configured: list(&["fs_write"]),
        trust_all: false,
        trust_all_text: "All tools are trusted.".to_string(),
        schema: Ok("{}".to_string()),
        has_context,
    }
}

fn permissions(sub: ToolsSubcommand) -> (Vec<PermissionChange>, String) {
    match sub.execute(&session(true)).unwrap() {
        ToolsAction::Permissions(changes, report) => (changes, report.text()),
        other => panic!("{:?}", other),
    }
}

fn allow(manager: &mut ContextManager, patterns: &[&str], global: bool) -> AllowRun {
    let mut run = AllowRun { description: None, global, successful: Vec::new(), failed: Vec::new() };
    for pattern in patterns {
        if let Some(change) = run.add_pattern(manager, pattern) {
            run.saved(pattern, change, Ok(()));
        }
    }
    run
}

#[test]
fn permissions_of_tools_change() {
    let (changes, text) = permissions(ToolsSubcommand::Trust { tool_names: list(&["fs_read", "x"]) });
    assert_eq!(changes, vec![PermissionChange::Trust("fs_read".to_string())]);
    assert_eq!(
        text,
        "\nCannot trust 'x', it does not exist.Tool 'fs_read' is now trusted. I will not ask for confirmation before running this tool.\n"
    );
    let (changes, text) = permissions(ToolsSubcommand::Untrust { tool_names: list(&["fs_read", "fs_write", "x", "y"]) });
    assert_eq!(changes.len(), 2);
    assert_eq!(
        text,
        "\nCannot untrust 'x', 'y', they do not exist.Tools 'fs_read', 'fs_write' are set to per-request confirmation.\n"
    );
    let (changes, text) = permissions(ToolsSubcommand::TrustAll);
    assert_eq!(changes.len(), 2);
    assert_eq!(text, "All tools are trusted.\n");
    let (changes, text) = permissions(ToolsSubcommand::Reset);
    assert_eq!(changes, vec![PermissionChange::Reset]);
    assert_eq!(text, "Reset all tools to the default permission levels.\n");
    let (changes, text) = permissions(ToolsSubcommand::ResetSingle { tool_name: "fs_write".to_string() });
    assert_eq!(changes, vec![PermissionChange::ResetTool("fs_write".to_string())]);
    assert_eq!(text, "Reset tool 'fs_write' to the default permission level.\n");
    let (changes, text) = permissions(ToolsSubcommand::ResetSingle { tool_name: "fs_read".to_string() });
    assert!(changes.is_empty());
    assert_eq!(text, "Tool 'fs_read' does not exist or is already in default settings.\n");
    assert_eq!(permissions(ToolsSubcommand::Schema).1, "{}\n");
    let broken = ToolsSession { schema: Err("bad".to_string()), ..session(true) };
    assert_eq!(
        ToolsSubcommand::Schema.execute(&broken).unwrap_err(),
        "Error converting tool schema to string: bad"
    );
}

#[test]
fn trusted_commands_need_a_context() {
    let sub = |all| ToolsSubcommand::Remove {
        subcommand: RemoveSubcommand::ExecuteBash { command: list(&["x"]), global: true, all },
    };
    assert!(matches!(sub(true).execute(&session(true)), Ok(ToolsAction::Clear { global: true })));
    assert!(matches!(sub(false).execute(&session(true)), Ok(ToolsAction::Remove { global: true, .. })));
    match sub(false).execute(&session(false)).unwrap() {
        ToolsAction::Permissions(_, report) => {
            assert_eq!(report.text(), "\nContext manager not available. Cannot remove trusted commands.")
        },
        other => panic!("{:?}", other),
    }
    let add = ToolsSubcommand::Allow {
        subcommand: AllowSubcommand::ExecuteBash { command: list(&["x"]), description: None, global: false },
    };
    match add.execute(&session(false)).unwrap() {
        ToolsAction::Permissions(_, report) => {
            assert_eq!(report.text(), "\nContext manager not available. Cannot add trusted commands.")
        },
        other => panic!("{:?}", other),
    }
}

#[test]
fn allowed_commands_run_without_acceptance() {
    let mut m = manager();
    let command = |c: &str| ExecuteCommand { command: c.to_string(), summary: None };
    assert!(command("make test").requires_acceptance(Some(&m.get_processed_trusted_commands())));
    let run = allow(&mut m, &["make test", "rm -rf x", "*"], false);
    assert!(!command("make test").requires_acceptance(Some(&m.get_processed_trusted_commands())));
    assert!(command("make clean").requires_acceptance(Some(&m.get_processed_trusted_commands())));
    assert_eq!(run.successful, list(&["make test"]));
    assert_eq!(run.failed.len(), 2);
    let text = run.report().text();
    assert!(text.starts_with(
        "\nSuccessfully added 1 trusted command pattern to profile configuration:\n  • \"make test\"\nCommands matching"
    ));
    assert!(text.contains("\nFailed to add 2 command patterns:\n  • \"rm -rf x\": Command pattern contains"));
}

#[test]
fn removed_commands_ask_again() {
    let mut m = manager();
    allow(&mut m, &["a", "b"], true);
    let mut run = RemoveRun::new(&m, true);
    for pattern in ["a", "c"] {
        if run.remove_pattern(&mut m, pattern) {
            run.saved(pattern, Ok(()));
        }
    }
    assert_eq!(
        run.report(&m).text(),
        "\nSuccessfully removed 1 trusted command pattern from global configuration:\n  • \"a\"\n1 command pattern not found in global configuration:\n  • \"c\"\nAvailable trusted commands in global scope:\n  • \"b\""
    );
    assert!(!m.get_processed_trusted_commands().is_trusted("a"));
    assert!(m.get_processed_trusted_commands().is_trusted("b"));
    match begin_clear(&mut m, true) {
        ClearRun::Cleared(patterns) => {
            assert_eq!(
                finish_clear(&patterns, true, Ok(())).text(),
                "\nSuccessfully cleared 1 trusted command pattern from global configuration:\n  • \"b\""
            );
            assert_eq!(
                finish_clear(&patterns, true, Err("full".to_string())).text(),
                "\nFailed to clear trusted commands: full"
            );
        },
        other => panic!("{:?}", other),
    }
    match begin_clear(&mut m, true) {
        ClearRun::Nothing(report) => {
            assert_eq!(report.text(), "\nNo trusted commands found in global configuration.")
        },
        other => panic!("{:?}", other),
    }
}

#[test]
fn tools_are_listed_with_their_permissions() {
    let mut m = manager();
    allow(&mut m, &["npm *", "git status"], false);
    let mut labels = NameMap::new();
    for (tool, label) in [("execute_bash", "* trust"), ("fs_read", "* trusted"), ("status", "* ask")] {
        labels.insert(tool.to_string(), label.to_string());
    }
    let group = |origin, title: &str, names: &[&str]| ToolGroup {
        origin,
        title: title.to_string(),
        names: list(names),
    };
    let listing = ToolsListing {
        groups: vec![
            group(ToolOrigin::McpServer("git".to_string()), "git (MCP)", &["status"]),
            group(ToolOrigin::Native, "Built-in", &["fs_read", "dummy", "execute_bash"]),
        ],
        labels,
        dummy: "dummy".to_string(),
        loading: list(&["slow"]),
        terminal_width: 3,
    };
    let nothing = ToolsSession {
        tool_names: list(&["fs_read"]),
        configured: Vec::new(),
        trust_all: false,
        trust_all_text: String::new(),
        schema: Ok("{}".to_string()),
        has_context: true,
    };
    let text = match (ToolsArgs { subcommand: None }).execute(&listing, Some(&m), &nothing) {
        Ok(ToolsAction::List(report)) => report.text(),
        other => panic!("not listed: {:?}", other),
    };
    let schema = ToolsArgs { subcommand: Some(ToolsSubcommand::Schema) };
    match schema.execute(&listing, Some(&m), &nothing) {
        Ok(ToolsAction::Permissions(_, report)) => assert_eq!(report.text(), "{}\n"),
        other => panic!("not run: {:?}", other),
    }
    let expected = "\nTool              Permission\n▔▔▔Built-in:\n- execute_bash    * trust\n    * trusted by profile configuration: \"npm *\" \"git status\"\n- fs_read         * trusted\n\ngit (MCP):\n- status          * ask\n\nServers still loading\n▔▔▔ - slow\n";
    assert!(text.starts_with(expected), "{text}");
    assert!(text.ends_with(" to edit permissions.\n\n"));
}
