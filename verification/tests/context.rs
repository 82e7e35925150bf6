use chat_cli::context::{
    load_global_config, load_profile_config, save_failure_text, ConfigFile, ContextConfig, ContextManager,
    TrustedChange, AMAZONQ_FILENAME,
};
use chat_cli::context_command::{report_unavailable, ContextAction, ContextFacts, ContextSubcommand};
use chat_cli::context_rules::{
    add_file_to_context, arrange_files, expand_path, is_glob_pattern, process_path, Findings, GlobEntry, PathContents,
};
use chat_cli::hook::{Hook, HookTrigger};
use chat_cli::paths::{profile_context_path, profile_dir_path};
use chat_cli::profiles::validate_profile_name;
use chat_cli::trusted_commands::TrustedCommand;

fn manager() -> ContextManager {
    ContextManager::new(None, ConfigFile::Missing, ConfigFile::Missing).unwrap()
}

fn list(v: &[&str]) -> Vec<String> {
    v.iter().map(|s| s.to_string()).collect()
}

fn pairs(v: &[(&str, &str)]) -> Vec<(String, String)> {
    v.iter().map(|(a, b)| (a.to_string(), b.to_string())).collect()
}

fn trusted(command: &str, description: Option<&str>) -> TrustedCommand {
    TrustedCommand { command: command.to_string(), description: description.map(|d| d.to_string()) }
}

#[test]
fn a_new_manager_has_the_default_rules() {
    let m = manager();
    assert_eq!(m.global_config.paths, list(&[".amazonq/rules/**/*.md", "README.md", AMAZONQ_FILENAME]));
    assert_eq!(m.current_profile, "default");
    assert!(m.profile_config.paths.is_empty());
    assert_eq!(m.max_context_files_size, 150_000);
    let limited = ContextManager::new(Some(7), ConfigFile::Missing, ConfigFile::Missing).unwrap();
    assert_eq!(limited.max_context_files_size, 7);
}

#[test]
fn configuration_files_are_loaded_or_fall_back() {
    let config = ContextConfig { paths: list(&["x"]), ..ContextConfig::default() };
    assert_eq!(load_global_config(ConfigFile::Loaded(config.clone())).unwrap().paths, list(&["x"]));
    assert_eq!(load_profile_config(ConfigFile::Loaded(config)).unwrap().paths, list(&["x"]));
    assert_eq!(load_global_config(ConfigFile::Invalid).unwrap().paths.len(), 3);
    assert!(load_profile_config(ConfigFile::Invalid).unwrap().paths.is_empty());
    assert_eq!(load_global_config(ConfigFile::Unreadable("denied".to_string())).unwrap_err(), "denied");
    assert_eq!(load_profile_config(ConfigFile::Unreadable("denied".to_string())).unwrap_err(), "denied");
}

#[test]
fn rules_are_added_and_removed() {
    let mut m = manager();
    m.add_paths(&list(&["a.md", "b.md"]), false, true, None).unwrap();
    assert_eq!(m.profile_config.paths, list(&["a.md", "b.md"]));
    assert_eq!(
        m.add_paths(&list(&["c.md", "README.md"]), false, true, None).unwrap_err(),
        "Rule 'README.md' already exists."
    );
    assert_eq!(
        m.add_paths(&list(&["d"]), true, false, Some(("d".to_string(), "Path 'd' does not exist".to_string())))
            .unwrap_err(),
        "Invalid path 'd': Path 'd' does not exist. Use --force to add anyway."
    );
    m.remove_paths(&list(&["a.md", "nothing"]), false).unwrap();
    assert!(!m.profile_config.paths.contains(&"a.md".to_string()));
    assert_eq!(
        m.remove_paths(&list(&["nothing"]), false).unwrap_err(),
        "None of the specified paths were found in the context"
    );
    m.clear(true);
    assert!(m.global_config.paths.is_empty());
    m.clear(false);
    assert!(m.profile_config.paths.is_empty());
}

#[test]
fn removing_undoes_adding() {
    let mut m = manager();
    m.add_paths(&list(&["one"]), false, true, None).unwrap();
    let before = m.profile_config.paths.clone();
    m.add_paths(&list(&["two", "three"]), false, true, None).unwrap();
    m.remove_paths(&list(&["two", "three"]), false).unwrap();
    assert_eq!(m.profile_config.paths, before);
}

#[test]
fn paths_are_expanded_and_told_apart() {
    assert_eq!(expand_path("~/a~", "/home/x"), "/home/x/a~");
    assert_eq!(expand_path("a/~", "/home/x"), "a/~");
    assert!(is_glob_pattern("*.md"));
    assert!(is_glob_pattern("a?"));
    assert!(is_glob_pattern("[a]"));
    assert!(!is_glob_pattern("README.md"));
}

#[test]
fn a_path_is_processed() {
    let found = || GlobEntry::Found(Ok(pairs(&[("a.md", "A")])));
    let mut files = Vec::new();
    let glob = Findings::Glob(Ok(vec![found(), GlobEntry::Failed("denied".to_string())]));
    assert_eq!(process_path("*.md", &glob, &mut files, false), Ok(()));
    assert_eq!(files, pairs(&[("a.md", "A")]));
    assert_eq!(process_path("*.md", &glob, &mut files, true).unwrap_err(), "Glob pattern error: denied");
    assert_eq!(
        process_path("*.md", &Findings::Glob(Ok(Vec::new())), &mut files, true).unwrap_err(),
        "Glob pattern '*.md' did not match any files"
    );
    assert_eq!(process_path("*.md", &Findings::Glob(Ok(Vec::new())), &mut files, false), Ok(()));
    assert_eq!(process_path("***", &Findings::Glob(Err("bad".to_string())), &mut files, false).unwrap_err(), "bad");
    assert_eq!(process_path("x", &Findings::Plain(None), &mut files, false), Ok(()));
    assert_eq!(
        process_path("x", &Findings::Plain(None), &mut files, true).unwrap_err(),
        "Path 'x' does not exist"
    );
    let mut files = Vec::new();
    assert_eq!(process_path("x", &Findings::Plain(Some(Ok(pairs(&[("x", "X")])))), &mut files, true), Ok(()));
    assert_eq!(files, pairs(&[("x", "X")]));
}

#[test]
fn context_files_are_sorted_without_repetition() {
    let files = pairs(&[("b", "1"), ("a", "2"), ("b", "3"), ("c", "4")]);
    assert_eq!(arrange_files(&files), pairs(&[("a", "2"), ("b", "1"), ("c", "4")]));
    let m = manager();
    assert_eq!(
        m.get_context_files(&pairs(&[("z", "g"), ("a", "g")]), &pairs(&[("a", "p")])),
        pairs(&[("a", "g"), ("z", "g")])
    );
    assert_eq!(
        m.collect_context_files_with_limit(&files, &pairs(&[("b", "")])),
        pairs(&[("a", "2"), ("c", "4")])
    );
}

#[test]
fn hooks_are_managed() {
    let mut m = manager();
    let hook = Hook::new_inline_hook(HookTrigger::PerPrompt, "git status".to_string());
    m.add_hook("status".to_string(), hook.clone(), false).unwrap();
    assert_eq!(m.add_hook("status".to_string(), hook.clone(), false).unwrap_err(), "name already exists.");
    m.add_hook("status".to_string(), hook, true).unwrap();
    m.set_hook_disabled("status", false, true).unwrap();
    let run = m.run_hooks();
    assert_eq!(run.len(), 2);
    assert!(run.iter().all(|h| h.name == "status"));
    assert_eq!(run.iter().filter(|h| h.is_global).count(), 1);
    assert_eq!(run.iter().filter(|h| h.disabled).count(), 1);
    m.set_all_hooks_disabled(true, true);
    assert!(m.run_hooks().iter().all(|h| h.disabled));
    m.remove_hook("status", false).unwrap();
    assert_eq!(m.remove_hook("status", false).unwrap_err(), "does not exist.");
    assert_eq!(m.set_hook_disabled("status", false, true).unwrap_err(), "does not exist.");
}

#[test]
fn commands_are_trusted_and_untrusted() {
    let mut m = manager();
    assert_eq!(m.add_trusted_command(trusted("npm *", None), false), Ok(TrustedChange::Added));
    assert_eq!(m.add_trusted_command(trusted("npm *", Some("npm")), false), Ok(TrustedChange::Updated));
    assert_eq!(m.add_trusted_command(trusted("git status", None), true), Ok(TrustedChange::Added));
    let combined = m.get_combined_trusted_commands();
    assert_eq!(combined.trusted_commands.len(), 2);
    assert_eq!(combined.trusted_commands[0].command, "git status");
    assert_eq!(combined.trusted_commands[1].description.as_deref(), Some("npm"));
    assert!(m.get_processed_trusted_commands().is_trusted("npm test"));
    assert!(m.get_processed_trusted_commands().is_trusted("git status"));
    m.remove_trusted_command("npm *", false).unwrap();
    assert!(!m.get_processed_trusted_commands().is_trusted("npm test"));
    assert_eq!(
        m.remove_trusted_command("npm *", false).unwrap_err(),
        "Trusted command pattern 'npm *' not found"
    );
    let mut fresh = manager();
    assert_eq!(
        fresh.remove_trusted_command("x", true).unwrap_err(),
        "No trusted commands configuration found"
    );
    m.clear_trusted_commands(true);
    assert!(m.get_trusted_commands(true).trusted_commands.is_empty());
    assert!(!m.get_processed_trusted_commands().is_trusted("git status"));
}

#[test]
fn patterns_are_validated() {
    let m = manager();
    assert_eq!(m.validate_trusted_command(&trusted("  ", None)).unwrap_err(), "Command pattern cannot be empty");
    assert_eq!(
        m.validate_trusted_command(&trusted("a && b", None)).unwrap_err(),
        "Command pattern 'a && b' contains dangerous pattern '&&' (shell control pattern) and cannot be trusted"
    );
    assert_eq!(m.validate_trusted_command(&trusted("a(", None)), Ok(()));
    let huge = "?".repeat(200_000);
    assert_eq!(
        m.validate_trusted_command(&trusted(&huge, None)).unwrap_err(),
        format!("Command pattern '{huge}' contains invalid regex syntax")
    );
    assert_eq!(m.validate_trusted_command(&trusted("npm *", None)), Ok(()));
    assert_eq!(
        save_failure_text(TrustedChange::Added, "x", "full"),
        "Failed to save trusted command 'x': full"
    );
    assert_eq!(
        save_failure_text(TrustedChange::Updated, "x", "full"),
        "Failed to update trusted command 'x': full"
    );
}

#[test]
fn profile_names_are_validated() {
    assert_eq!(validate_profile_name(""), Err("Profile name cannot be empty".to_string()));
    assert_eq!(
        validate_profile_name("-a"),
        Err("Profile name must start with an alphanumeric character".to_string())
    );
    assert_eq!(
        validate_profile_name("a b"),
        Err("Profile name can only contain alphanumeric characters, hyphens, and underscores".to_string())
    );
    assert_eq!(validate_profile_name("é-1_b"), Ok(()));
}

#[test]
fn profiles_are_listed_created_and_deleted() {
    let m = manager();
    assert_eq!(m.list_profiles(&list(&["work", "default", "home"])), list(&["default", "home", "work"]));
    assert_eq!(m.list_profiles(&list(&[])), list(&["default"]));
    assert_eq!(m.create_profile("work", true).unwrap_err(), "Profile 'work' already exists");
    assert!(m.create_profile("work", false).unwrap().paths.is_empty());
    assert_eq!(m.delete_profile("default", true).unwrap_err(), "Cannot delete the default profile");
    assert_eq!(m.delete_profile("work", false).unwrap_err(), "Profile 'work' does not exist");
    assert_eq!(m.delete_profile("work", true), Ok(()));
}

#[test]
fn profiles_are_switched_and_renamed() {
    let mut m = manager();
    let config = ContextConfig { paths: list(&["x"]), ..ContextConfig::default() };
    assert_eq!(
        m.switch_profile("work", false, ConfigFile::Missing).unwrap_err(),
        "Profile 'work' does not exist. Use 'create' to create it"
    );
    m.switch_profile("work", true, ConfigFile::Loaded(config.clone())).unwrap();
    assert_eq!(m.current_profile, "work");
    assert_eq!(m.profile_config.paths, list(&["x"]));
    assert_eq!(
        m.delete_profile("work", true).unwrap_err(),
        "Cannot delete the active profile. Switch to another profile first"
    );
    assert_eq!(m.check_rename("default", "b", true, false).unwrap_err(), "Cannot rename the default profile");
    assert_eq!(
        m.check_rename("work", "default", true, false).unwrap_err(),
        "Cannot rename to 'default' as it's a reserved profile name"
    );
    assert_eq!(m.check_rename("old", "b", false, false).unwrap_err(), "Profile 'old' not found");
    assert_eq!(m.check_rename("work", "b", true, true).unwrap_err(), "Profile 'b' already exists");
    assert_eq!(m.check_rename("work", "b", true, false), Ok(()));
    m.rename_profile("work", "b", ConfigFile::Loaded(config)).unwrap();
    assert_eq!(m.current_profile, "b");
    m.switch_profile("default", false, ConfigFile::Missing).unwrap();
    assert_eq!(m.current_profile, "default");
    assert!(m.profile_config.paths.is_empty());
}

#[test]
fn the_context_command_changes_the_rules() {
    let mut m = manager();
    let facts = ContextFacts { matches: Vec::new(), summary: None, terminal_width: 80, invalid: None };
    let add = ContextSubcommand::Add { force: true, paths: list(&["a.md"]) };
    match add.execute(&mut m, &facts) {
        ContextAction::Save(report) => assert!(report.text().contains("Added 1 path(s)")),
        ContextAction::Print(report) => panic!("not added: {}", report.text()),
    }
    assert_eq!(m.profile_config.paths, list(&["a.md"]));
    match add.execute(&mut m, &facts) {
        ContextAction::Print(report) => assert!(report.text().contains("Rule 'a.md' already exists.")),
        ContextAction::Save(report) => panic!("added twice: {}", report.text()),
    }
    match ContextSubcommand::Clear.execute(&mut m, &facts) {
        ContextAction::Save(_) => {},
        ContextAction::Print(report) => panic!("not cleared: {}", report.text()),
    }
    assert!(m.profile_config.paths.is_empty());
}

#[test]
fn files_and_directories_are_added_to_a_context() {
    let mut files = Vec::new();
    assert_eq!(add_file_to_context("a", &PathContents::File(Ok("A".to_string())), &mut files), None);
    let entries = vec![("d/b".to_string(), Some("B".to_string())), ("d/c".to_string(), None)];
    assert_eq!(add_file_to_context("d", &PathContents::Directory(entries), &mut files), None);
    assert_eq!(add_file_to_context("x", &PathContents::Unknown, &mut files), None);
    assert_eq!(
        add_file_to_context("e", &PathContents::File(Err("denied".to_string())), &mut files).as_deref(),
        Some("Failed to read file 'e': denied")
    );
    assert_eq!(files, pairs(&[("a", "A"), ("d/b", "B")]));
}

#[test]
fn configurations_are_found_and_reloaded() {
    assert_eq!(profile_dir_path("/p", "work"), "/p/work");
    assert_eq!(profile_context_path("/p/", "work"), "/p/work/context.json");
    let mut m = manager();
    m.clear(true);
    m.reload_config(ConfigFile::Missing, ConfigFile::Missing).unwrap();
    assert_eq!(m.global_config.paths.len(), 3);
    assert_eq!(report_unavailable().text(), "\nContext management is not available.\n\n");
}
