use chat_cli::dangerous_patterns::{check_all_dangerous_patterns, DangerousPatternType};
use chat_cli::session::ChatSession;
use chat_cli::trusted_commands::{ProcessedTrustedCommands, TrustedCommand, TrustedCommandsConfig};

fn trusted(patterns: &[&str]) -> ProcessedTrustedCommands {
    ProcessedTrustedCommands::new(TrustedCommandsConfig {
        trusted_commands: patterns
            .iter()
            .map(|p| TrustedCommand { command: p.to_string(), description: None })
            .collect(),
    })
}

#[test]
fn test_check_all_dangerous_patterns() {
    let result = check_all_dangerous_patterns("rm -rf /");
    assert!(result.is_some());
    let match_result = result.unwrap();
    assert_eq!(match_result.pattern, "rm -rf");
    assert_eq!(match_result.pattern_type, DangerousPatternType::Destructive);

    let result = check_all_dangerous_patterns("echo $(whoami)");
    assert!(result.is_some());
    let match_result = result.unwrap();
    assert_eq!(match_result.pattern, "$(");
    assert_eq!(match_result.pattern_type, DangerousPatternType::ShellControl);

    let result = check_all_dangerous_patterns("ls 2>&1");
    assert!(result.is_some());
    let match_result = result.unwrap();
    assert_eq!(match_result.pattern, ">");
    assert_eq!(match_result.pattern_type, DangerousPatternType::ShellControl);

    let result = check_all_dangerous_patterns("rm -rf / && echo done");
    assert!(result.is_some());
    let match_result = result.unwrap();
    assert_eq!(match_result.pattern, "rm -rf");
    assert_eq!(match_result.pattern_type, DangerousPatternType::Destructive);

    let result = check_all_dangerous_patterns("git status");
    assert!(result.is_none());
}

#[test]
fn test_pattern_type_priority() {
    let result = check_all_dangerous_patterns("sudo rm file && echo done");
    assert!(result.is_some());
    let match_result = result.unwrap();
    assert_eq!(match_result.pattern_type, DangerousPatternType::Destructive);

    let result = check_all_dangerous_patterns("echo test > file 2>&1");
    assert!(result.is_some());
    let match_result = result.unwrap();
    assert_eq!(match_result.pattern, ">");
    assert_eq!(match_result.pattern_type, DangerousPatternType::ShellControl);
}

#[test]
fn test_generate_pattern_options_simple_command() {
    let options = ChatSession::generate_pattern_options("cat file.txt");
    assert_eq!(options.len(), 2);
    assert_eq!(options[0].0, "cat file.txt");
    assert_eq!(options[1].0, "cat*");
}

#[test]
fn test_generate_pattern_options_git_command() {
    let options = ChatSession::generate_pattern_options("git restore --staged Makefile frontend/ opentofu/");
    assert_eq!(options.len(), 3);
    assert_eq!(options[0].0, "git restore --staged Makefile frontend/ opentofu/");
    assert_eq!(options[1].0, "git restore*");
    assert_eq!(options[2].0, "git*");
}

#[test]
fn test_generate_pattern_options_npm_command() {
    let options = ChatSession::generate_pattern_options("npm run build");
    assert_eq!(options.len(), 3);
    assert_eq!(options[0].0, "npm run build");
    assert_eq!(options[1].0, "npm run*");
    assert_eq!(options[2].0, "npm*");
}

#[test]
fn test_generate_pattern_options_single_word() {
    let options = ChatSession::generate_pattern_options("pwd");
    assert_eq!(options.len(), 1);
    assert_eq!(options[0].0, "pwd");
    assert_eq!(options[0].1, "Trust this exact command only");
}

#[test]
fn test_generate_pattern_options_command_with_flags_only() {
    let options = ChatSession::generate_pattern_options("ls -la");
    assert_eq!(options.len(), 2);
    assert_eq!(options[0].0, "ls -la");
    assert_eq!(options[1].0, "ls*");
}

#[test]
fn test_generate_pattern_options_no_duplicate_patterns() {
    let options = ChatSession::generate_pattern_options("docker --version");
    assert_eq!(options.len(), 2);
    assert_eq!(options[0].0, "docker --version");
    assert_eq!(options[1].0, "docker*");
}

#[test]
fn test_generate_pattern_options_multiple_words_before_flag() {
    let options = ChatSession::generate_pattern_options("git commit -m 'my message'");
    assert_eq!(options.len(), 3);
    assert_eq!(options[0].0, "git commit -m 'my message'");
    assert_eq!(options[1].0, "git commit*");
    assert_eq!(options[2].0, "git*");
}

#[test]
fn test_generate_pattern_options_no_flags() {
    let options = ChatSession::generate_pattern_options("rsync source dest backup");
    assert_eq!(options.len(), 3);
    assert_eq!(options[0].0, "rsync source dest backup");
    assert_eq!(options[1].0, "rsync source*");
    assert_eq!(options[2].0, "rsync*");
}

#[test]
fn offered_patterns_cover_the_command() {
    for command in ["cat file.txt", "git commit -m 'my message'", "npm run build", "pwd"] {
        for (pattern, _) in ChatSession::generate_pattern_options(command) {
            assert!(trusted(&[pattern.as_str()]).is_trusted(command), "{pattern} does not cover {command}");
        }
    }
}

#[test]
fn test_processed_trusted_commands_exact_match() {
    let config = TrustedCommandsConfig {
        trusted_commands: vec![
            TrustedCommand {
                command: "git status".to_string(),
                description: Some("Git status command".to_string()),
            },
            TrustedCommand { command: "npm install".to_string(), description: None },
        ],
    };

    let processed = ProcessedTrustedCommands::new(config);

    assert!(processed.is_trusted("git status"));
    assert!(processed.is_trusted("npm install"));

    assert!(!processed.is_trusted("git commit"));
    assert!(!processed.is_trusted("npm run"));
    assert!(!processed.is_trusted("ls"));
}

#[test]
fn test_processed_trusted_commands_glob_match() {
    let config = TrustedCommandsConfig {
        trusted_commands: vec![
            TrustedCommand {
                command: "npm *".to_string(),
                description: Some("All npm commands".to_string()),
            },
            TrustedCommand {
                command: "git restore *".to_string(),
                description: Some("All git restore commands".to_string()),
            },
        ],
    };

    let processed = ProcessedTrustedCommands::new(config);

    assert!(processed.is_trusted("npm install"));
    assert!(processed.is_trusted("npm run build"));
    assert!(processed.is_trusted("npm install --save-dev typescript"));
    assert!(processed.is_trusted("git restore file.txt"));
    assert!(processed.is_trusted("git restore --staged file.txt"));

    assert!(!processed.is_trusted("git status"));
    assert!(!processed.is_trusted("git commit"));
    assert!(!processed.is_trusted("yarn install"));
    assert!(!processed.is_trusted("ls"));
}

#[test]
fn open_patterns_cover_the_bare_command() {
    assert!(trusted(&["npm *"]).is_trusted("npm"));
    assert!(!trusted(&["npm *"]).is_trusted("npmx"));
    assert!(trusted(&["git*"]).is_trusted("git"));
    assert!(trusted(&["l?"]).is_trusted("ls"));
    assert!(!trusted(&["l?"]).is_trusted("lsx"));
    assert!(!trusted(&["npm *"]).is_trusted("npm a\nb"));
    assert!(trusted(&["a(*"]).is_trusted("a(b"));
}

#[test]
fn input_redirection_is_shell_control() {
    let found = check_all_dangerous_patterns("sort < names").unwrap();
    assert_eq!(found.pattern, "<");
    assert_eq!(found.pattern_type, DangerousPatternType::ShellControl);
}

#[test]
fn patterns_without_wildcards_are_exact() {
    assert!(trusted(&["cat a.txt"]).is_trusted("cat a.txt"));
    assert!(!trusted(&["cat a.txt"]).is_trusted("cat abtxt"));
    assert!(trusted(&["ls [a-z]+ {x} ^y$ z|w \\d"]).is_trusted("ls [a-z]+ {x} ^y$ z|w \\d"));
    assert!(!trusted(&["ls [a-z]+"]).is_trusted("ls abc"));
    assert!(!trusted(&["a|b"]).is_trusted("a"));
    assert!(!trusted(&["x\\d"]).is_trusted("x1"));
    assert!(trusted(&["cat *.txt"]).is_trusted("cat a.txt"));
    assert!(!trusted(&["cat *.txt"]).is_trusted("cat a_txt"));
    assert!(trusted(&["cat (?)"]).is_trusted("cat (1)"));
}
