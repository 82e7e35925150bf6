use chat_cli::execute::{needs_acceptance, CommandResult, ExecuteCommand};
use chat_cli::launch_agent::{process_agent_results, progress_text, AgentResult, SubAgent, SubAgentWrapper};
use chat_cli::script::read_q_script;
use chat_cli::truncate::{format_output, truncate_safe};
use chat_cli::trusted_commands::{ProcessedTrustedCommands, TrustedCommand, TrustedCommandsConfig};

fn tool(command: &str) -> ExecuteCommand {
    ExecuteCommand { command: command.to_string(), summary: None }
}

#[test]
fn test_requires_acceptance_for_windows_commands() {
    let cmds = [
        ("dir", false),
        ("type file.txt", false),
        ("echo Hello, world!", false),
        ("del file.txt", true),
        ("rmdir /s /q folder", true),
        ("rd /s /q folder", true),
        ("format c:", true),
        ("erase file.txt", true),
        ("copy file.txt > important.txt", true),
        ("move file.txt destination", true),
        ("dir | findstr txt", true),
        ("type file.txt | findstr pattern", true),
        ("dir | del", true),
        ("type file.txt | del", true),
    ];
    for (cmd, expected) in cmds {
        assert_eq!(
            tool(cmd).requires_acceptance(None),
            expected,
            "expected command: `{}` to have requires_acceptance: `{}`",
            cmd,
            expected
        );
    }
}

#[test]
fn test_requires_acceptance_with_trusted_commands() {
    let mut trusted_config = TrustedCommandsConfig::default();
    trusted_config.trusted_commands.push(TrustedCommand {
        command: "git*".to_string(),
        description: Some("Trust all git commands".to_string()),
    });
    trusted_config.trusted_commands.push(TrustedCommand {
        command: "npm run build".to_string(),
        description: Some("Trust exact npm run build command".to_string()),
    });
    let processed_trusted = ProcessedTrustedCommands::new(trusted_config);
    let test_cases = [
        ("git status", false),
        ("git commit -m 'test'", false),
        ("npm run build", false),
        ("rm -rf /", true),
        ("git status && rm file", true),
        ("npm run test", true),
        ("docker build .", true),
    ];
    for (cmd, expected) in test_cases {
        assert_eq!(
            tool(cmd).requires_acceptance(Some(&processed_trusted)),
            expected,
            "expected command: `{}` to have requires_acceptance: `{}`",
            cmd,
            expected
        );
    }
}

#[test]
fn finding_may_not_change_files() {
    assert!(!tool("find . -name x").requires_acceptance(None));
    assert!(tool("find . -name x -delete").requires_acceptance(None));
    assert!(tool("find . -execdir x").requires_acceptance(None));
    assert!(tool("ls 'unclosed").requires_acceptance(None));
    let words = |v: &[&str]| Some(v.iter().map(|w| w.to_string()).collect::<Vec<String>>());
    assert!(!needs_acceptance(&words(&["ls", "|", "grep", "x"]), "ls", false));
    assert!(needs_acceptance(&words(&["ls", "|", "rm", "x"]), "ls", false));
    assert!(needs_acceptance(&words(&["ls|rm"]), "ls", false));
    assert!(!needs_acceptance(&words(&["rm", "x"]), "rm x", true));
    assert!(needs_acceptance(&None, "ls", true));
}

#[test]
fn commands_are_announced() {
    let short = ExecuteCommand { command: "ls".to_string(), summary: Some("List files".to_string()) };
    assert_eq!(
        short.queue_description(None).text(),
        "I will run the following shell command: ls\n ⋮ \n ↳ Purpose: List files\n\n"
    );
    let trusted = ProcessedTrustedCommands::new(TrustedCommandsConfig {
        trusted_commands: vec![TrustedCommand { command: "cargo *".to_string(), description: None }],
    });
    assert_eq!(
        tool("cargo build --all-targets").queue_description(Some(&trusted)).text(),
        "I will run the following shell command: \ncargo build --all-targets\n ⋮ \n ↳ Trusted by user configuration\n\n"
    );
    let result = |exit_status| CommandResult { exit_status, stdout: String::new(), stderr: String::new() };
    assert_eq!(result(Some(-3)).exit_status_text(), "-3");
    assert_eq!(result(None).exit_status_text(), "0");
}

#[test]
fn output_is_cut_between_characters() {
    assert_eq!(truncate_safe("añb", 2), "a");
    assert_eq!(truncate_safe("añb", 3), "añ");
    assert_eq!(truncate_safe("añb", 9), "añb");
    assert_eq!(format_output("abcdef", 3), "abc ... truncated");
    assert_eq!(format_output("abc", 3), "abc");
}

#[test]
fn test_script_with_shebang_and_consecutive_comments() {
    assert_eq!(
        read_q_script(
            "#!/usr/bin/env q\n# This is a comment\n# Another comment\nactual content\n# Later comment\nmore content"
        ),
        "actual content\n# Later comment\nmore content"
    );
}

#[test]
fn test_script_with_shebang_no_comments() {
    assert_eq!(
        read_q_script("#!/usr/bin/env q\nactual content\nmore content"),
        "actual content\nmore content"
    );
}

#[test]
fn test_script_without_shebang_with_comments() {
    assert_eq!(
        read_q_script("# This is a comment\nactual content\n# Later comment\nmore content"),
        "# This is a comment\nactual content\n# Later comment\nmore content"
    );
}

#[test]
fn test_script_without_shebang_no_comments() {
    assert_eq!(read_q_script("actual content\nmore content"), "actual content\nmore content");
}

#[test]
fn test_script_with_only_shebang() {
    assert_eq!(read_q_script("#!/usr/bin/env q"), "");
}

#[test]
fn test_script_with_shebang_and_only_comments() {
    assert_eq!(read_q_script("#!/usr/bin/env q\n# Comment 1\n# Comment 2"), "");
}

#[test]
fn test_script_with_non_shebang_hash_first_line() {
    assert_eq!(
        read_q_script("#not a shebang\nactual content\nmore content"),
        "#not a shebang\nactual content\nmore content"
    );
}

#[test]
fn test_empty_script() {
    assert_eq!(read_q_script(""), "");
}

#[test]
fn test_script_with_mixed_content() {
    assert_eq!(
        read_q_script(
            "#!/usr/bin/env q\n# Header comment\n# Another header comment\n\nactual content\n# Inline comment\nmore content\n\n# Final comment"
        ),
        "\nactual content\n# Inline comment\nmore content\n\n# Final comment"
    );
}

#[test]
fn test_script_with_shebang_and_empty_lines() {
    assert_eq!(
        read_q_script("#!/usr/bin/env q\n# Comment\n\n\nactual content"),
        "\n\nactual content"
    );
}

#[test]
fn tasks_are_announced_and_launched() {
    let task = SubAgent {
        agent_name: "reader".to_string(),
        prompt: "x".repeat(61),
        model: None,
    };
    let args = task.arguments();
    assert_eq!(args[0], "chat");
    assert!(args.iter().any(|a| a.contains(&"x".repeat(61))));
    let wrapper = SubAgentWrapper { subagents: vec![task] };
    let text = wrapper.queue_description("fast").text();
    assert!(text.starts_with("Launch 1 Q agent(s) to perform tasks in parallel:\n\n"));
    assert!(text.contains("  • reader (fast)\n"));
    assert!(text.contains(&format!("    {}...\n\n", "x".repeat(57))));
    let named = SubAgent { agent_name: "a".to_string(), prompt: "p".to_string(), model: Some("m".to_string()) };
    assert!(named.arguments().contains(&"--model=m".to_string()));
    assert_eq!(named.validate(), Ok(()));
    let empty = SubAgent { agent_name: "a".to_string(), prompt: " \n".to_string(), model: None };
    assert_eq!(empty.validate(), Err("Prompt cannot be empty".to_string()));
}

#[test]
fn results_of_tasks_are_collected() {
    assert_eq!(progress_text(1, 3), "Waiting for subagents... (1/3 complete)");
    let (text, report) = process_agent_results(&vec![
        AgentResult::Finished { pid: 7, stdout: "done".to_string() },
        AgentResult::Finished { pid: 8, stdout: " ".to_string() },
        AgentResult::NotLaunched("no such file".to_string()),
        AgentResult::NotJoined("panicked".to_string()),
    ]);
    assert_eq!(text, "=== Agent 7 Output ===\ndone\n\n");
    assert_eq!(report.text(), "Failed to launch agent: no such file\nTask join error: panicked\n");
}
