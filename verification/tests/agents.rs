use chat_cli::agent_load::{agent_from_file, agent_name_of, agent_path, load_agents_from_entries, AgentSource};
use chat_cli::agents::{Agent, AgentHooks, CustomToolConfig, McpServerConfig};
use chat_cli::context::ContextConfig;
use chat_cli::env_expansion::{
    expand_env_vars, expand_env_vars_in_args, expand_env_vars_in_command, expand_env_vars_in_map,
};
use chat_cli::hook::{Hook, HookTrigger};
use chat_cli::migration::{
    begin_migration, finish_migration, hooks_by_name, migrate_context, migrate_on_request, report_writes, Migration,
    ProfilesFound, WriteOutcome,
};
use chat_cli::name_map::NameMap;
use chat_cli::personas::{validate_persona_name, Agents};
use chat_cli::profile_command::{
    apply_to_default, check_migration, next_for_profiles, report_migrated, report_rename, ProfileAction,
    ProfileSubcommand, ProfilesDir, ProfilesNext,
};
use chat_cli::report::Ink;
use chat_cli::tools_list::ToolOrigin;

fn env(vars: &[(&str, &str)]) -> NameMap<String> {
    let mut m = NameMap::new();
    for (k, v) in vars {
        m.insert(k.to_string(), v.to_string());
    }
    m
}

fn list(v: &[&str]) -> Vec<String> {
    v.iter().map(|s| s.to_string()).collect()
}

fn named(name: &str) -> Agent {
    Agent { name: name.to_string(), ..Agent::default() }
}

#[test]
fn test_get_active() {
    let mut collection = Agents::default();
    assert!(collection.get_active().is_none());

    let agent = Agent::default();
    collection.agents.insert("default".to_string(), agent);
    collection.active_idx = "default".to_string();

    assert!(collection.get_active().is_some());
    assert_eq!(collection.get_active().unwrap().name, "default");
}

#[test]
fn test_get_active_mut() {
    let mut collection = Agents::default();
    assert!(collection.get_active_mut().is_none());

    let agent = Agent::default();
    collection.agents.insert("default".to_string(), agent);
    collection.active_idx = "default".to_string();

    assert!(collection.get_active_mut().is_some());
    let active = collection.get_active_mut().unwrap();
    active.description = Some("Modified description".to_string());

    assert_eq!(
        collection.agents.get("default").unwrap().description,
        Some("Modified description".to_string())
    );
}

#[test]
fn test_switch() {
    let mut collection = Agents::default();

    let default_agent = Agent::default();
    let dev_agent = Agent {
        name: "dev".to_string(),
        description: Some("Developer agent".to_string()),
        ..Default::default()
    };

    collection.agents.insert("default".to_string(), default_agent);
    collection.agents.insert("dev".to_string(), dev_agent);
    collection.active_idx = "default".to_string();

    let result = collection.switch("dev");
    assert!(result.is_ok());
    assert_eq!(result.unwrap().name, "dev");

    let result = collection.switch("nonexistent");
    assert!(result.is_err());
    assert_eq!(result.unwrap_err(), "No agent with name nonexistent found");
}

#[test]
fn test_list_personas() {
    let mut collection = Agents::default();
    collection.agents.insert("default".to_string(), Agent::default());
    collection.agents.insert("dev".to_string(), named("dev"));

    let personas = collection.list_personas();
    assert_eq!(personas.len(), 2);
    assert!(personas.contains(&"default".to_string()));
    assert!(personas.contains(&"dev".to_string()));
}

#[test]
fn test_create_persona() {
    let mut collection = Agents::default();

    let persona_name = "test_persona";
    let agent = collection.create_persona(persona_name, "/personas", false).unwrap();
    assert_eq!(agent.path.as_deref(), Some("/personas/test_persona.json"));
    collection.add_persona(agent);
    assert!(collection.agents.contains_key(persona_name));

    assert_eq!(
        collection.create_persona(persona_name, "/personas", true).unwrap_err(),
        format!("Persona '{persona_name}' already exists")
    );

    assert_eq!(
        collection.create_persona("", "/personas", false).unwrap_err(),
        "Persona name cannot be empty"
    );
    assert!(collection.create_persona("123-invalid!", "/personas", false).is_err());
}

#[test]
fn test_delete_persona() {
    let mut collection = Agents::default();
    for name in ["test_persona_one", "test_persona_two"] {
        let agent = collection.create_persona(name, "/personas", false).expect("Failed to create persona");
        collection.add_persona(agent);
    }
    collection.switch("test_persona_one").expect("Failed to switch persona");

    let active = collection.get_active().expect("Failed to obtain active persona").name.clone();
    assert_eq!(
        collection.delete_persona(&active, true).unwrap_err(),
        "Cannot delete the active persona. Switch to another persona first"
    );

    assert_eq!(
        collection.delete_persona("test_persona_two", true).unwrap(),
        "/personas/test_persona_two.json"
    );
    collection.drop_persona("test_persona_two");
    assert!(!collection.agents.contains_key("test_persona_two"));

    assert_eq!(
        collection.delete_persona("nonexistent", false).unwrap_err(),
        "Persona 'nonexistent' does not exist"
    );
}

#[test]
fn test_validate_persona_name() {
    assert!(validate_persona_name("valid").is_ok());
    assert!(validate_persona_name("valid123").is_ok());
    assert!(validate_persona_name("valid-name").is_ok());
    assert!(validate_persona_name("valid_name").is_ok());
    assert!(validate_persona_name("123valid").is_ok());

    assert!(validate_persona_name("").is_err());
    assert!(validate_persona_name("-invalid").is_err());
    assert!(validate_persona_name("_invalid").is_err());
    assert!(validate_persona_name("invalid!").is_err());
    assert!(validate_persona_name("invalid space").is_err());
}

#[test]
fn tools_are_trusted_and_labelled() {
    let mut collection = Agents::default();
    let mut agent = Agent::default();
    agent.allowed_tools = list(&["@git/status", "@fetch"]);
    collection.agents.insert("default".to_string(), agent);
    collection.active_idx = "default".to_string();
    let server = ToolOrigin::McpServer("fetch".to_string());
    let other = ToolOrigin::McpServer("other".to_string());
    assert_eq!(collection.display_label("status", &other).text(), "* trusted");
    assert_eq!(collection.display_label("anything", &server).text(), "* trusted");
    assert_eq!(collection.display_label("anything", &other).text(), "* not trusted");
    assert_eq!(collection.display_label("execute_bash", &ToolOrigin::Native).text(), "* trust read-only commands");
    assert_eq!(collection.default_permission_label("fs_read").text(), "* trusted");
    collection.trust_tools(&list(&["anything", "anything"]));
    assert_eq!(collection.display_label("anything", &other).text(), "* trusted");
    assert!(collection.display_label("anything", &other).spans.iter().any(|s| s.ink == Ink::DarkGreen && s.bold));
    collection.untrust_tools(&list(&["anything"]));
    assert_eq!(collection.get_active().unwrap().allowed_tools, list(&["@git/status", "@fetch"]));
}

#[test]
fn agents_are_loaded() {
    assert_eq!(agent_name_of("dev.json").as_deref(), Some("dev"));
    assert_eq!(agent_name_of(".json"), None);
    assert_eq!(agent_name_of("dev.toml"), None);
    let agent = agent_from_file("dev.json", "/p/dev.json", Some(Agent::default())).unwrap();
    assert_eq!(agent.name, "dev");
    assert_eq!(agent.path.as_deref(), Some("/p/dev.json"));
    assert!(agent_from_file("dev.json", "/p/dev.json", None).is_none());

    let mut hidden = named("dev");
    hidden.description = Some("hidden".to_string());
    let loading = Agents::load(vec![named("dev")], &vec![hidden, named("ops")], Some("/p"));
    assert!(loading.write_default);
    assert_eq!(loading.agents.len(), 3);
    assert_eq!(loading.agents[loading.default].path.as_deref(), Some("/p/default.json"));
    assert_eq!(
        loading.report.text(),
        "WARNING: Persona conflict for dev. Using workspace version.\n"
    );
    let agents = loading.finish(Some(vec![named("made")]), None);
    assert_eq!(agents.active_idx, "default");
    assert_eq!(agents.list_personas().len(), 4);
    assert_eq!(agents.agents.get("dev").unwrap().description.as_deref(), Some("Default agent"));

    let loading = Agents::load(vec![named("default")], &Vec::new(), None);
    assert!(!loading.write_default);
    assert_eq!(loading.finish(None, Some("dev")).active_idx, "dev");
}

#[test]
fn agents_are_found_by_name() {
    assert_eq!(agent_path("/l", "dev"), "/l/dev.json");
    assert_eq!(
        Agent::get_agent_by_name("dev", "/l", "/g", true, true),
        Ok(AgentSource::File("/l/dev.json".to_string()))
    );
    assert_eq!(
        Agent::get_agent_by_name("dev", "/l", "/g", false, true),
        Ok(AgentSource::File("/g/dev.json".to_string()))
    );
    assert_eq!(
        Agent::get_agent_by_name("default", "/l", "/g", false, false),
        Ok(AgentSource::Create("/g/default.json".to_string()))
    );
    assert_eq!(
        Agent::get_agent_by_name("dev", "/l", "/g", false, false),
        Err("Agent dev does not exist".to_string())
    );
}

#[test]
fn profiles_become_agents() {
    let mut global = ContextConfig { paths: list(&["G.md"]), ..ContextConfig::default() };
    global.hooks.insert("h".to_string(), Hook::new_inline_hook(HookTrigger::PerPrompt, "date".to_string()));
    let profile = |p: &str| ContextConfig { paths: list(&[p]), ..ContextConfig::default() };
    let profiles = ProfilesFound::Read(vec![
        ("work".to_string(), profile("W.md")),
        ("default".to_string(), profile("D.md")),
    ]);

    let mut malformed = Agent { create_hooks: AgentHooks::Malformed("7".to_string()), ..Agent::default() };
    match migrate_context(&mut malformed, Some(global.clone()), &profiles, "/p") {
        Migration::Malformed(report) => assert_eq!(
            report.text(),
            "Current default persona is malformed. Aborting migration.\nFix the default persona and try again"
        ),
        other => panic!("not refused: {:?}", other),
    }

    let mut agent = Agent::default();
    agent.create_hooks = AgentHooks::Commands(list(&["pwd"]));
    agent.prompt_hooks = AgentHooks::Commands(Vec::new());
    let carry = match migrate_context(&mut agent, Some(global), &profiles, "/p") {
        Migration::Planned { agents, carry, put_aside } => {
            assert!(put_aside);
            assert_eq!(agents.len(), 1);
            assert_eq!(agents[0].name, "work");
            assert_eq!(agents[0].path.as_deref(), Some("/p/work.json"));
            assert_eq!(agents[0].included_files, list(&["W.md", "G.md"]));
            match &agents[0].prompt_hooks {
                AgentHooks::Named(m) => assert!(m.contains_key("h")),
                other => panic!("no hooks: {:?}", other),
            }
            match &agents[0].create_hooks {
                AgentHooks::Named(m) => assert!(m.contains_key("start_hook_0")),
                other => panic!("no hooks: {:?}", other),
            }
            let (report, failed) = report_writes(&agents, &vec![WriteOutcome::NoPath], "Skipping");
            assert!(failed);
            assert!(report.text().starts_with("Failed to persist profile work for migration: no path"));
            carry
        },
        other => panic!("not planned: {:?}", other),
    };
    assert!(agent.included_files.ends_with(&list(&["G.md"])));
    assert!(finish_migration(&mut agent, carry));
    assert!(agent.included_files.ends_with(&list(&["G.md", "G.md", "D.md", "G.md"])));

    let mut untouched = Agent::default();
    let carry = begin_migration(&mut untouched, None).unwrap();
    assert!(!finish_migration(&mut untouched, carry));
    let mut plain = Agent::default();
    assert!(matches!(
        migrate_context(&mut plain, None, &ProfilesFound::Unreadable, "/p"),
        Migration::Unreadable
    ));
    assert!(hooks_by_name(&AgentHooks::Malformed("7".to_string()), "x", HookTrigger::PerPrompt).is_none());
    assert!(hooks_by_name(&AgentHooks::Absent, "x", HookTrigger::PerPrompt).unwrap().is_empty());
}

#[test]
fn files_of_the_default_profile_are_all_added() {
    let profile = ContextConfig { paths: list(&["README.md"]), ..ContextConfig::default() };
    let profiles = ProfilesFound::Read(vec![("default".to_string(), profile)]);
    let mut agent = Agent::default();
    match migrate_context(&mut agent, None, &profiles, "/p") {
        Migration::Planned { agents, carry, put_aside } => {
            assert!(agents.is_empty() && !put_aside);
            assert!(finish_migration(&mut agent, carry));
        },
        other => panic!("not planned: {:?}", other),
    }
    assert_eq!(agent.included_files, list(&["AmazonQ.md", "README.md", ".amazonq/rules/**/*.md", "README.md"]));
}

#[test]
fn a_global_configuration_is_migrated_without_profiles() {
    let mut global = ContextConfig { paths: list(&["G.md"]), ..ContextConfig::default() };
    global.hooks.insert("h".to_string(), Hook::new_inline_hook(HookTrigger::PerPrompt, "date".to_string()));
    let mut agent = Agent::default();
    let files = agent.included_files.len();
    match migrate_context(&mut agent, Some(global), &ProfilesFound::NoDirectory, "/p") {
        Migration::Planned { agents, carry, put_aside } => {
            assert!(agents.is_empty());
            assert!(put_aside);
            assert!(finish_migration(&mut agent, carry));
        },
        other => panic!("not planned: {:?}", other),
    }
    assert_eq!(agent.included_files[files..], list(&["G.md", "G.md"]));
    match &agent.prompt_hooks {
        AgentHooks::Named(m) => assert!(m.contains_key("h")),
        other => panic!("no hooks: {:?}", other),
    }
    match migrate_context(&mut agent, None, &ProfilesFound::NoDirectory, "/p") {
        Migration::Planned { agents, put_aside, .. } => assert!(agents.is_empty() && !put_aside),
        other => panic!("not planned: {:?}", other),
    }
}

#[test]
fn agents_that_are_the_active_one_are_marked() {
    let mut agents = Agents::default();
    agents.agents.insert("one".to_string(), Agent { name: "dev".to_string(), ..Agent::default() });
    let mut same = Agent { name: "dev".to_string(), ..Agent::default() };
    same.allowed_tools.reverse();
    agents.agents.insert("two".to_string(), same);
    agents.agents.insert("three".to_string(), Agent { description: None, ..Agent::default() });
    agents.active_idx = "one".to_string();
    match ProfileSubcommand::List.execute(&agents, None) {
        ProfileAction::Print(report) => assert_eq!(report.text(), "\n* dev\n* dev\n  default\n\n"),
        ProfileAction::Migrate => panic!("not listed"),
    }
    agents.active_idx = "none".to_string();
    match ProfileSubcommand::List.execute(&agents, None) {
        ProfileAction::Print(report) => assert_eq!(report.text(), "\n  dev\n  dev\n  default\n\n"),
        ProfileAction::Migrate => panic!("not listed"),
    }
}

#[test]
fn profiles_give_way_to_personas() {
    let mut agents = Agents::default();
    agents.add_persona(Agent::default());
    match ProfileSubcommand::List.execute(&agents, Some("/p")) {
        ProfileAction::Print(report) => assert!(report.text().contains("default")),
        ProfileAction::Migrate => panic!("not listed"),
    }
    assert!(matches!(ProfileSubcommand::Migrate.execute(&agents, None), ProfileAction::Migrate));
    assert!(matches!(next_for_profiles(1, false, true), ProfilesNext::KeepAfterError));
    assert!(matches!(next_for_profiles(0, true, false), ProfilesNext::PutAside));
    assert!(matches!(next_for_profiles(0, false, false), ProfilesNext::Keep));
    match (ProfileSubcommand::Create { name: "x".to_string() }).execute(&agents, Some("/p")) {
        ProfileAction::Print(report) => assert_eq!(
            report.text(),
            "Persona / Profile persistence has been disabled. To persist any changes on persona / profile, use the default persona under /p as example"
        ),
        ProfileAction::Migrate => panic!("not refused"),
    }
}

#[test]
fn profiles_are_migrated_on_request() {
    let dir = |exists_on_disk, backup: Option<&str>, backup_exists| ProfilesDir {
        path: Ok("/profiles".to_string()),
        exists_on_disk,
        backup: backup.map(|b| b.to_string()),
        backup_exists,
    };
    let mut agents = Agents::default();
    assert_eq!(
        check_migration(&dir(true, Some("/b"), false), &agents).unwrap_err(),
        "Failed to obtain default agent"
    );
    let mut agent = Agent { path: Some("/p/default.json".to_string()), ..Agent::default() };
    agent.included_files = list(&["A.md"]);
    agents.add_persona(agent);
    assert_eq!(check_migration(&dir(true, Some("/b"), false), &agents), Ok(()));
    assert_eq!(
        check_migration(&dir(false, Some("/b"), false), &agents).unwrap_err(),
        "No legacy profile directory detected. Aborting\n"
    );
    assert_eq!(
        check_migration(&dir(true, None, false), &agents).unwrap_err(),
        "Migration failed due to failure to find legacy profile directory parent\n"
    );
    assert_eq!(
        check_migration(&dir(true, Some("/b"), true), &agents).unwrap_err(),
        "Previous backup detected. Delete /b and try again\n"
    );
    let lost = ProfilesDir { path: Err("gone".to_string()), ..dir(true, None, false) };
    assert_eq!(
        check_migration(&lost, &agents).unwrap_err(),
        "Error retrieving chat profile dir for migration: gone"
    );

    let profile = |p: &str| ContextConfig { paths: list(&[p]), ..ContextConfig::default() };
    let profiles = vec![("work".to_string(), profile("W.md")), ("default".to_string(), profile("D.md"))];
    let (made, has_default_profile, carry) =
        migrate_on_request(agents.agents.get("default").unwrap(), &profiles, "/p");
    assert_eq!(made.len(), 1);
    assert_eq!(made[0].included_files, list(&["W.md", "A.md"]));
    assert!(has_default_profile);
    assert_eq!(apply_to_default(&mut agents, carry, true), Ok(Some("/p/default.json".to_string())));
    assert_eq!(agents.agents.get("default").unwrap().included_files, list(&["A.md", "D.md", "A.md"]));
    assert!(report_migrated("/b", "/p").text().starts_with("Profile migration completed. Old profiles can be found at /b\n"));
    assert_eq!(report_rename(&Ok(())).text(), "");
    assert!(report_rename(&Err("busy".to_string())).text().starts_with("Renaming of legacy profile directory failed: busy\n"));
}

#[test]
fn files_of_agents_are_read() {
    let files = vec![
        ("dev.json".to_string(), "/p/dev.json".to_string(), Some(Agent::default())),
        ("notes.txt".to_string(), "/p/notes.txt".to_string(), Some(Agent::default())),
        ("bad.json".to_string(), "/p/bad.json".to_string(), None),
    ];
    let agents = load_agents_from_entries(&files);
    assert_eq!(agents.len(), 1);
    assert_eq!(agents[0].name, "dev");
    let (config, report) = McpServerConfig::from_slice(Err("eof".to_string()), "global");
    assert!(config.mcp_servers.is_empty());
    assert_eq!(
        report.text(),
        "WARNING: Error reading global mcp config: eof\nPlease check to make sure config is correct. Discarding.\n"
    );
    assert_eq!(McpServerConfig::from_slice(Ok(McpServerConfig::default()), "global").1.text(), "");
}

#[test]
fn test_expand_env_vars_simple() {
    let result = expand_env_vars("Value is ${TEST_VAR}", &env(&[("TEST_VAR", "hello")])).unwrap();
    assert_eq!(result, "Value is hello");
}

#[test]
fn test_expand_env_vars_multiple() {
    let result = expand_env_vars("${VAR1} ${VAR2}!", &env(&[("VAR1", "hello"), ("VAR2", "world")])).unwrap();
    assert_eq!(result, "hello world!");
}

#[test]
fn test_expand_env_vars_no_vars() {
    let result = expand_env_vars("no variables here", &env(&[])).unwrap();
    assert_eq!(result, "no variables here");
}

#[test]
fn test_expand_env_vars_missing_var() {
    let result = expand_env_vars("Value is ${NONEXISTENT_VAR}", &env(&[]));
    assert!(result.is_err());
    assert!(result.unwrap_err().contains("NONEXISTENT_VAR"));
}

#[test]
fn test_expand_env_vars_in_map() {
    let env_vars = env(&[("USER", "${USERNAME}"), ("PASS", "${PASSWORD}"), ("STATIC", "static_value")]);
    let known = env(&[("USERNAME", "testuser"), ("PASSWORD", "testpass")]);

    let result = expand_env_vars_in_map(&env_vars, &known).unwrap();

    assert_eq!(result.get("USER").unwrap(), "testuser");
    assert_eq!(result.get("PASS").unwrap(), "testpass");
    assert_eq!(result.get("STATIC").unwrap(), "static_value");
}

#[test]
fn test_expand_env_vars_in_args() {
    let args = list(&["--config", "${ARG_VAR}", "static_arg"]);

    let result = expand_env_vars_in_args(&args, &env(&[("ARG_VAR", "expanded_arg")])).unwrap();

    assert_eq!(result[0], "--config");
    assert_eq!(result[1], "expanded_arg");
    assert_eq!(result[2], "static_arg");
}

#[test]
fn test_expand_env_vars_in_command() {
    let result = expand_env_vars_in_command("${CMD_VAR}", &env(&[("CMD_VAR", "python")])).unwrap();
    assert_eq!(result, "python");
}

#[test]
fn test_complex_expansion() {
    let input = "${HOME}/.config/${APP_NAME}/config.json";
    let result = expand_env_vars(input, &env(&[("HOME", "/home/user"), ("APP_NAME", "myapp")])).unwrap();
    assert_eq!(result, "/home/user/.config/myapp/config.json");
}

#[test]
fn test_env_var_expansion_success() {
    let result = expand_env_vars("Value is ${TEST_VAR}", &env(&[("TEST_VAR", "expanded_value")]));
    assert!(result.is_ok());
    assert_eq!(result.unwrap(), "Value is expanded_value");
}

#[test]
fn test_env_var_expansion_missing() {
    let result = expand_env_vars("Value is ${MISSING_VAR}", &env(&[]));
    assert!(result.is_err());
    assert!(result.unwrap_err().contains("MISSING_VAR"));
}

#[test]
fn test_no_expansion_needed() {
    let result = expand_env_vars("No variables here", &env(&[]));
    assert!(result.is_ok());
    assert_eq!(result.unwrap(), "No variables here");
}

#[test]
fn test_mcp_config_expansion() {
    let known = env(&[("PYTHON_PATH", "/usr/bin/python3"), ("API_KEY", "secret123"), ("SERVER_PORT", "8080")]);
    let mut config = CustomToolConfig {
        command: "${PYTHON_PATH}".to_string(),
        args: list(&["-m", "server", "--port", "${SERVER_PORT}"]),
        env: Some(env(&[("API_KEY", "${API_KEY}"), ("STATIC_VAR", "static_value")])),
        options: None,
    };

    let result = config.expand_env_vars(&known);

    assert!(result.is_ok(), "Config expansion should succeed");
    assert_eq!(config.command, "/usr/bin/python3");
    assert_eq!(config.args[3], "8080");
    assert_eq!(config.env.as_ref().unwrap().get("API_KEY").unwrap(), "secret123");
    assert_eq!(config.env.as_ref().unwrap().get("STATIC_VAR").unwrap(), "static_value");
}

#[test]
fn test_mcp_config_expansion_failure() {
    let mut config = CustomToolConfig {
        command: "${NONEXISTENT_VAR}".to_string(),
        args: Vec::new(),
        env: None,
        options: None,
    };

    let result = config.expand_env_vars(&env(&[]));

    assert!(result.is_err());
    assert!(result.unwrap_err().contains("NONEXISTENT_VAR"));
}

#[test]
fn values_are_replaced_one_after_the_other() {
    let known = env(&[("A", "{B}"), ("B", "x"), ("C", "1")]);
    assert_eq!(expand_env_vars("$${A} ${B}", &known).unwrap(), "x x");
    assert_eq!(expand_env_vars("${9} ${} ${C }${C}", &known).unwrap(), "${9} ${} ${C }1");
    assert_eq!(
        expand_env_vars("${X} ${C} ${Y}", &known).unwrap_err(),
        "Environment variables not found: X, Y"
    );
}
