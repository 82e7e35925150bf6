pub mod account_laws;
pub mod agent_laws;
pub mod agent_load;
pub mod agents;
pub mod alike;
pub mod args_laws;
pub mod chat_laws;
pub mod command_laws;
pub mod complete;
pub mod config_laws;
pub mod content_search;
pub mod context;
pub mod context_command;
pub mod context_hooks;
pub mod context_laws;
pub mod context_rules;
pub mod dangerous_patterns;
pub mod env_expansion;
pub mod env_laws;
pub mod execute;
pub mod fs;
pub mod fs_search;
pub mod hook;
pub mod knowledge;
pub mod knowledge_laws;
pub mod launch_agent;
pub mod login;
pub mod matcher;
pub mod migration;
pub mod migration_laws;
pub mod model;
pub mod name_map;
pub mod number;
pub mod order;
pub mod paths;
pub mod pattern_laws;
pub mod personas;
pub mod profile_command;
pub mod profile_laws;
pub mod profiles;
pub mod report;
pub mod report_laws;
pub mod script;
pub mod search_laws;
pub mod session;
pub mod split;
pub mod subscription;
pub mod text;
pub mod text_laws;
pub mod tools;
pub mod tools_args;
pub mod tools_laws;
pub mod tools_list;
pub mod truncate;
pub mod trusted_commands;
