use chat_cli::tools::{validate_command_pattern, AllowSubcommand, RemoveSubcommand, ToolsArgs, ToolsSubcommand};
use chat_cli::tools_args::ArgsError;

fn words(v: &[&str]) -> Vec<String> {
    v.iter().map(|w| w.to_string()).collect()
}

fn parse(v: &[&str]) -> Result<ToolsSubcommand, ArgsError> {
    ToolsSubcommand::try_parse_from(&words(v))
}

fn slash(v: &[&str]) -> ToolsSubcommand {
    ToolsArgs::from_words(&words(v)).expect("no such command").subcommand.expect("no subcommand")
}

#[test]
fn test_allow_execute_bash_multiple_commands() {
    match parse(&["test", "allow", "execute_bash", "--command", "npm *", "rm test.txt"]).unwrap() {
        ToolsSubcommand::Allow { subcommand: AllowSubcommand::ExecuteBash { command, .. } } => {
            assert_eq!(command.len(), 2);
            assert_eq!(command[0], "npm *");
            assert_eq!(command[1], "rm test.txt");
        },
        _ => panic!("Expected Allow subcommand"),
    }
}

#[test]
fn test_remove_execute_bash_multiple_commands() {
    match parse(&["test", "remove", "execute_bash", "--command", "npm *", "rm test.txt"]).unwrap() {
        ToolsSubcommand::Remove { subcommand: RemoveSubcommand::ExecuteBash { command, global: _, all } } => {
            assert_eq!(command.len(), 2);
            assert_eq!(command[0], "npm *");
            assert_eq!(command[1], "rm test.txt");
            assert!(!all);
        },
        _ => panic!("Expected Remove subcommand"),
    }
}

#[test]
fn test_allow_execute_bash_single_command() {
    match parse(&["test", "allow", "execute_bash", "--command", "ls -la"]).unwrap() {
        ToolsSubcommand::Allow { subcommand: AllowSubcommand::ExecuteBash { command, .. } } => {
            assert_eq!(command.len(), 1);
            assert_eq!(command[0], "ls -la");
        },
        _ => panic!("Expected Allow subcommand"),
    }
}

#[test]
fn test_validate_command_pattern_valid() {
    assert!(validate_command_pattern("npm install").is_ok());
    assert!(validate_command_pattern("ls -la").is_ok());
    assert!(validate_command_pattern("npm *").is_ok());
    assert!(validate_command_pattern("git status").is_ok());
}

#[test]
fn test_validate_command_pattern_dangerous() {
    assert!(validate_command_pattern("rm -rf /").is_err());
    assert!(validate_command_pattern("ls > file.txt").is_err());
    assert!(validate_command_pattern("cmd && rm file").is_err());
    assert!(validate_command_pattern("$(malicious)").is_err());
}

#[test]
fn test_validate_command_pattern_too_broad() {
    assert!(validate_command_pattern("*").is_err());
}

#[test]
fn test_validate_command_pattern_empty() {
    assert!(validate_command_pattern("").is_err());
    assert!(validate_command_pattern("   ").is_err());
}

#[test]
fn pattern_errors_have_their_texts() {
    assert_eq!(validate_command_pattern(" \t").unwrap_err(), "Command pattern cannot be empty");
    assert_eq!(
        validate_command_pattern("rm -rf /").unwrap_err(),
        "Command pattern contains potentially dangerous sequence 'rm -rf' (destructive command) and cannot be trusted. Consider using more specific patterns."
    );
    assert_eq!(
        validate_command_pattern("*").unwrap_err(),
        "Pattern '*' is too broad and would trust all commands. Use more specific patterns."
    );
}

#[test]
fn test_remove_execute_bash_all_flag() {
    match parse(&["test", "remove", "execute_bash", "--all"]).unwrap() {
        ToolsSubcommand::Remove { subcommand: RemoveSubcommand::ExecuteBash { command, global, all } } => {
            assert!(command.is_empty());
            assert!(!global);
            assert!(all);
        },
        _ => panic!("Expected Remove subcommand"),
    }
}

#[test]
fn test_remove_execute_bash_all_flag_global() {
    match parse(&["test", "remove", "execute_bash", "--all", "--global"]).unwrap() {
        ToolsSubcommand::Remove { subcommand: RemoveSubcommand::ExecuteBash { command, global, all } } => {
            assert!(command.is_empty());
            assert!(global);
            assert!(all);
        },
        _ => panic!("Expected Remove subcommand"),
    }
}

#[test]
fn test_slash_command_parsing_allow() {
    match slash(&["tools", "allow", "execute_bash", "--command", "npm *"]) {
        ToolsSubcommand::Allow { subcommand: AllowSubcommand::ExecuteBash { command, .. } } => {
            assert_eq!(command.len(), 1);
            assert_eq!(command[0], "npm *");
        },
        other => panic!("Expected Allow subcommand, got: {:?}", other),
    }
}

#[test]
fn test_slash_command_parsing_remove() {
    match slash(&["tools", "remove", "execute_bash", "--command", "npm *"]) {
        ToolsSubcommand::Remove { subcommand: RemoveSubcommand::ExecuteBash { command, global: _, all } } => {
            assert_eq!(command.len(), 1);
            assert_eq!(command[0], "npm *");
            assert!(!all);
        },
        other => panic!("Expected Remove subcommand, got: {:?}", other),
    }
}

#[test]
fn test_slash_command_parsing_multiple_patterns() {
    match slash(&["tools", "allow", "execute_bash", "--command", "npm *", "git status", "ls -la"]) {
        ToolsSubcommand::Allow { subcommand: AllowSubcommand::ExecuteBash { command, .. } } => {
            assert_eq!(command.len(), 3);
            assert_eq!(command[0], "npm *");
            assert_eq!(command[1], "git status");
            assert_eq!(command[2], "ls -la");
        },
        other => panic!("Expected Allow subcommand, got: {:?}", other),
    }
}

#[test]
fn test_slash_command_parsing_with_description() {
    match slash(&["tools", "allow", "execute_bash", "--command", "npm *", "--description", "Trust npm commands"]) {
        ToolsSubcommand::Allow { subcommand: AllowSubcommand::ExecuteBash { command, description, .. } } => {
            assert_eq!(command.len(), 1);
            assert_eq!(command[0], "npm *");
            assert_eq!(description, Some("Trust npm commands".to_string()));
        },
        other => panic!("Expected Allow subcommand, got: {:?}", other),
    }
}

#[test]
fn test_slash_command_parsing_global_flag() {
    match slash(&["tools", "allow", "execute_bash", "--command", "npm *", "--global"]) {
        ToolsSubcommand::Allow { subcommand: AllowSubcommand::ExecuteBash { command, global, .. } } => {
            assert_eq!(command.len(), 1);
            assert_eq!(command[0], "npm *");
            assert!(global);
        },
        other => panic!("Expected Allow subcommand, got: {:?}", other),
    }
}

#[test]
fn test_input_parsing_simulation() {
    let input = "/tools allow execute_bash --command \"npm *\"";
    let args = ToolsArgs::from_input(input).expect("Failed to parse input as slash command").unwrap();
    match args.subcommand {
        Some(ToolsSubcommand::Allow { subcommand: AllowSubcommand::ExecuteBash { command, .. } }) => {
            assert_eq!(command.len(), 1);
            assert_eq!(command[0], "npm *");
        },
        other => panic!("Expected Allow subcommand, got: {:?}", other),
    }
}

#[test]
fn test_input_parsing_simulation_remove() {
    let input = "/tools remove execute_bash --command \"npm *\"";
    let args = ToolsArgs::from_input(input).expect("Failed to parse input as slash command").unwrap();
    match args.subcommand {
        Some(ToolsSubcommand::Remove { subcommand: RemoveSubcommand::ExecuteBash { command, global: _, all } }) => {
            assert_eq!(command.len(), 1);
            assert_eq!(command[0], "npm *");
            assert!(!all);
        },
        other => panic!("Expected Remove subcommand, got: {:?}", other),
    }
}

#[test]
fn plain_subcommands_are_read() {
    assert_eq!(parse(&["p", "schema"]), Ok(ToolsSubcommand::Schema));
    assert_eq!(parse(&["p", "trust-all"]), Ok(ToolsSubcommand::TrustAll));
    assert_eq!(parse(&["p", "reset"]), Ok(ToolsSubcommand::Reset));
    assert_eq!(parse(&["p", "trust", "a", "b"]), Ok(ToolsSubcommand::Trust { tool_names: words(&["a", "b"]) }));
    assert_eq!(parse(&["p", "untrust", "--", "-a"]), Ok(ToolsSubcommand::Untrust { tool_names: words(&["-a"]) }));
    assert_eq!(parse(&["p", "reset-single", "a"]), Ok(ToolsSubcommand::ResetSingle { tool_name: "a".to_string() }));
    assert_eq!(ToolsArgs::from_words(&words(&["tools"])), Ok(ToolsArgs { subcommand: None }));
}

#[test]
fn what_words_ask_for_is_read_back() {
    let read = parse(&["p", "allow", "execute_bash", "-g", "--description=", "--command=-x", "--command=a b"]);
    assert_eq!(
        read,
        Ok(ToolsSubcommand::Allow {
            subcommand: AllowSubcommand::ExecuteBash {
                command: words(&["-x", "a b"]),
                description: Some(String::new()),
                global: true,
            },
        })
    );
}

#[test]
fn words_that_are_no_command_are_refused() {
    let w = |s: &str| s.to_string();
    assert_eq!(parse(&[]), Err(ArgsError::MissingSubcommand));
    assert_eq!(parse(&["p"]), Err(ArgsError::MissingSubcommand));
    assert_eq!(parse(&["p", "allow"]), Err(ArgsError::MissingSubcommand));
    assert_eq!(parse(&["p", "--help"]), Err(ArgsError::HelpRequested));
    assert_eq!(parse(&["p", "allow", "help"]), Err(ArgsError::HelpRequested));
    assert_eq!(parse(&["p", "nothing"]), Err(ArgsError::UnknownSubcommand(w("nothing"))));
    assert_eq!(parse(&["p", "allow", "fs_read"]), Err(ArgsError::UnknownSubcommand(w("fs_read"))));
    assert_eq!(parse(&["p", "schema", "x"]), Err(ArgsError::UnexpectedArgument(w("x"))));
    assert_eq!(parse(&["p", "trust", "--x"]), Err(ArgsError::UnexpectedArgument(w("--x"))));
    assert_eq!(parse(&["p", "trust"]), Err(ArgsError::MissingArgument));
    assert_eq!(parse(&["p", "reset-single", "a", "b"]), Err(ArgsError::UnexpectedArgument(w("b"))));
    assert_eq!(
        parse(&["p", "allow", "execute_bash", "--command"]),
        Err(ArgsError::MissingValue(w("--command")))
    );
    assert_eq!(
        parse(&["p", "allow", "execute_bash", "--command", "-g"]),
        Err(ArgsError::MissingValue(w("--command")))
    );
    assert_eq!(
        parse(&["p", "allow", "execute_bash", "--command", "x", "--description"]),
        Err(ArgsError::MissingValue(w("--description")))
    );
    assert_eq!(
        parse(&["p", "allow", "execute_bash", "-g", "--global"]),
        Err(ArgsError::RepeatedOption(w("--global")))
    );
    assert_eq!(parse(&["p", "allow", "execute_bash", "x"]), Err(ArgsError::UnexpectedArgument(w("x"))));
    assert_eq!(parse(&["p", "allow", "execute_bash", "--all"]), Err(ArgsError::UnexpectedArgument(w("--all"))));
    assert_eq!(parse(&["p", "remove", "execute_bash"]), Err(ArgsError::MissingArgument));
    assert_eq!(
        parse(&["p", "remove", "execute_bash", "--all", "--command", "x"]),
        Err(ArgsError::CommandWithAll)
    );
    assert_eq!(ToolsArgs::from_input("tools"), None);
    assert_eq!(ToolsArgs::from_input("/tools \"x"), None);
    assert_eq!(ToolsArgs::from_input("/help"), Some(Err(ArgsError::UnknownSubcommand(w("help")))));
}
