//! Agents: named sets of tools, files, hooks and servers, of which one is active.

use vstd::prelude::*;

use crate::context::failure;
use crate::env_expansion::{
    expand_env_vars_in_args, expand_env_vars_in_command, expand_env_vars_in_map, expansion, list_expansion,
};
use crate::hook::{copy_hooks, hook_texts, Hook, HookTexts};
use crate::name_map::NameMap;
use crate::report::{inked, Ink, Report, SpanText};
use crate::text::{cat5, copy_list, copy_option, option_text, texts};

verus! {

/// How a server that offers tools is started.
#[derive(Debug)]
pub struct CustomToolConfig {
    /// Its command.
    pub command: String,
    /// The arguments of the command.
    pub args: Vec<String>,
    /// Environment variables that are set for it.
    pub env: Option<NameMap<String>>,
    /// Its other settings, as they stand in its configuration.
    pub options: Option<String>,
}

/// What such a configuration holds.
pub struct ServerText {
    pub command: Seq<char>,
    pub args: Seq<Seq<char>>,
    pub env: Option<(Seq<Seq<char>>, Seq<Seq<char>>)>,
    pub options: Option<Seq<char>>,
}

/// The names and the values of variables that may be absent.
pub open spec fn env_texts(env: Option<NameMap<String>>) -> Option<(Seq<Seq<char>>, Seq<Seq<char>>)> {
    match env {
        Some(m) => Some((m.keys(), texts(m.values()))),
        None => None,
    }
}

impl View for CustomToolConfig {
    type V = ServerText;

    open spec fn view(&self) -> ServerText {
        ServerText {
            command: self.command@,
            args: texts(self.args@),
            env: env_texts(self.env),
            options: option_text(self.options),
        }
    }
}

/// A copy of names with their texts.
pub fn copy_texts(m: &NameMap<String>) -> (res: NameMap<String>)
    ensures
        res.keys() == m.keys(),
        texts(res.values()) == texts(m.values()),
{
    let res = m.clone();
    assert(texts(res.values()) =~= texts(m.values()));
    res
}

impl Clone for CustomToolConfig {
    fn clone(&self) -> (res: Self)
        ensures
            res@ == self@,
    {
        CustomToolConfig {
            command: String::from_str(self.command.as_str()),
            args: copy_list(&self.args),
            env: match &self.env {
                Some(m) => Some(copy_texts(m)),
                None => None,
            },
            options: copy_option(&self.options),
        }
    }
}

impl CustomToolConfig {
    /// Expands the environment variables in the command, the arguments and the values of the
    /// variables that are set. The first error ends it; what was expanded before stays.
    pub fn expand_env_vars(&mut self, env: &NameMap<String>) -> (res: Result<(), String>)
        ensures
            match expansion(old(self)@.command, env@) {
                Err(e) => failure(res) == Some(e) && final(self)@ == old(self)@,
                Ok(command) => match list_expansion(old(self)@.args, env@) {
                    Err(e) => failure(res) == Some(e) && final(self)@ == (ServerText {
                        command,
                        ..old(self)@
                    }),
                    Ok(args) => match old(self)@.env {
                        None => res is Ok && final(self)@ == (ServerText { command, args, ..old(self)@ }),
                        Some(vars) => match list_expansion(vars.1, env@) {
                            Err(e) => failure(res) == Some(e) && final(self)@ == (ServerText {
                                command,
                                args,
                                ..old(self)@
                            }),
                            Ok(values) => res is Ok && final(self)@ == (ServerText {
                                command,
                                args,
                                env: Some((vars.0, values)),
                                ..old(self)@
                            }),
                        },
                    },
                },
            },
    {
        match expand_env_vars_in_command(self.command.as_str(), env) {
            Ok(command) => {
                self.command = command;
            },
            Err(e) => {
                return Err(e);
            },
        }
        match expand_env_vars_in_args(&self.args, env) {
            Ok(args) => {
                self.args = args;
            },
            Err(e) => {
                return Err(e);
            },
        }
        if let Some(vars) = &self.env {
            match expand_env_vars_in_map(vars, env) {
                Ok(expanded) => {
                    self.env = Some(expanded);
                },
                Err(e) => {
                    return Err(e);
                },
            }
        }
        Ok(())
    }
}

/// The servers of an agent, by name.
#[derive(Debug)]
pub struct McpServerConfig {
    /// The servers.
    pub mcp_servers: NameMap<CustomToolConfig>,
}

/// What a list of servers holds.
pub open spec fn server_list(v: Seq<CustomToolConfig>) -> Seq<ServerText> {
    Seq::new(v.len(), |i: int| v[i]@)
}

impl View for McpServerConfig {
    type V = (Seq<Seq<char>>, Seq<ServerText>);

    open spec fn view(&self) -> (Seq<Seq<char>>, Seq<ServerText>) {
        (self.mcp_servers.keys(), server_list(self.mcp_servers.values()))
    }
}

impl Default for McpServerConfig {
    fn default() -> (res: Self)
        ensures
            res@ == (Seq::<Seq<char>>::empty(), Seq::<ServerText>::empty()),
    {
        let res = McpServerConfig { mcp_servers: NameMap::new() };
        assert(res@.1 =~= Seq::<ServerText>::empty());
        res
    }
}

/// The warning on servers that are malformed.
pub open spec fn malformed_servers(location: Seq<char>, error: Seq<char>) -> Seq<SpanText> {
    seq![
        inked(Ink::Yellow, "WARNING: "@),
        inked(Ink::Plain, "Error reading "@ + location + " mcp config: "@ + error + "\n"@),
        inked(Ink::Plain, "Please check to make sure config is correct. Discarding.\n"@),
    ]
}

impl McpServerConfig {
    /// The servers that were read from `location`, or none and a warning where they are
    /// malformed.
    pub fn from_slice(parsed: Result<McpServerConfig, String>, location: &str) -> (res: (
        McpServerConfig,
        Report,
    ))
        ensures
            match parsed {
                Ok(config) => res.0@ == config@ && res.1@ == Seq::<SpanText>::empty(),
                Err(e) => res.0@ == (Seq::<Seq<char>>::empty(), Seq::<ServerText>::empty())
                    && res.1@ == malformed_servers(location@, e@),
            },
    {
        let mut out = Report::new();
        match parsed {
            Ok(config) => {
                assert(out@ =~= Seq::<SpanText>::empty());
                (config, out)
            },
            Err(e) => {
                out.say(Ink::Yellow, "WARNING: ");
                let text = cat5("Error reading ", location, " mcp config: ", e.as_str(), "\n");
                out.say(Ink::Plain, text.as_str());
                out.say(
                    Ink::Plain,
                    "Please check to make sure config is correct. Discarding.\n",
                );
                assert(out@ =~= malformed_servers(location@, e@));
                (McpServerConfig::default(), out)
            },
        }
    }
}

impl Clone for McpServerConfig {
    fn clone(&self) -> (res: Self)
        ensures
            res@ == self@,
    {
        let mcp_servers = self.mcp_servers.clone();
        let res = McpServerConfig { mcp_servers };
        assert(res@.1 =~= self@.1);
        res
    }
}

/// The hooks of an agent, as its file gives them.
#[derive(Debug)]
pub enum AgentHooks {
    /// The file gives none.
    Absent,
    /// A list of commands.
    Commands(Vec<String>),
    /// Hooks by name.
    Named(NameMap<Hook>),
    /// Something else; its text is kept.
    Malformed(String),
}

/// What an agent's hooks hold.
pub enum AgentHooksText {
    Absent,
    Commands(Seq<Seq<char>>),
    Named(HookTexts),
    Malformed(Seq<char>),
}

impl View for AgentHooks {
    type V = AgentHooksText;

    open spec fn view(&self) -> AgentHooksText {
        match self {
            AgentHooks::Absent => AgentHooksText::Absent,
            AgentHooks::Commands(c) => AgentHooksText::Commands(texts(c@)),
            AgentHooks::Named(m) => AgentHooksText::Named(hook_texts(m@)),
            AgentHooks::Malformed(t) => AgentHooksText::Malformed(t@),
        }
    }
}

impl Clone for AgentHooks {
    fn clone(&self) -> (res: Self)
        ensures
            res@ == self@,
    {
        match self {
            AgentHooks::Absent => AgentHooks::Absent,
            AgentHooks::Commands(c) => AgentHooks::Commands(copy_list(c)),
            AgentHooks::Named(m) => AgentHooks::Named(copy_hooks(m)),
            AgentHooks::Malformed(t) => AgentHooks::Malformed(String::from_str(t.as_str())),
        }
    }
}

/// A named configuration of a chat.
#[derive(Debug)]
pub struct Agent {
    /// Its name, which is that of its file.
    pub name: String,
    /// What it is for.
    pub description: Option<String>,
    /// What the chat is told at the start.
    pub prompt: Option<String>,
    /// The servers that offer tools.
    pub mcp_servers: McpServerConfig,
    /// The tools.
    pub tools: Vec<String>,
    /// Other names of tools.
    pub alias: NameMap<String>,
    /// The tools that run without confirmation, each once.
    pub allowed_tools: Vec<String>,
    /// The files of its context.
    pub included_files: Vec<String>,
    /// Hooks at the start of a conversation.
    pub create_hooks: AgentHooks,
    /// Hooks with each prompt.
    pub prompt_hooks: AgentHooks,
    /// The settings of tools by name, as text.
    pub tools_settings: NameMap<String>,
    /// Its file.
    pub path: Option<String>,
}

/// What an agent holds.
pub struct AgentText {
    pub name: Seq<char>,
    pub description: Option<Seq<char>>,
    pub prompt: Option<Seq<char>>,
    pub mcp_servers: (Seq<Seq<char>>, Seq<ServerText>),
    pub tools: Seq<Seq<char>>,
    pub alias: (Seq<Seq<char>>, Seq<Seq<char>>),
    pub allowed_tools: Seq<Seq<char>>,
    pub included_files: Seq<Seq<char>>,
    pub create_hooks: AgentHooksText,
    pub prompt_hooks: AgentHooksText,
    pub tools_settings: (Seq<Seq<char>>, Seq<Seq<char>>),
    pub path: Option<Seq<char>>,
}

impl View for Agent {
    type V = AgentText;

    open spec fn view(&self) -> AgentText {
        AgentText {
            name: self.name@,
            description: option_text(self.description),
            prompt: option_text(self.prompt),
            mcp_servers: self.mcp_servers@,
            tools: texts(self.tools@),
            alias: (self.alias.keys(), texts(self.alias.values())),
            allowed_tools: texts(self.allowed_tools@),
            included_files: texts(self.included_files@),
            create_hooks: self.create_hooks@,
            prompt_hooks: self.prompt_hooks@,
            tools_settings: (self.tools_settings.keys(), texts(self.tools_settings.values())),
            path: option_text(self.path),
        }
    }
}

/// The tools that are built in.
pub open spec fn native_tools() -> Seq<Seq<char>> {
    seq!["fs_read"@, "fs_write"@, "execute_bash"@, "use_aws"@, "report_issue"@, "thinking"@]
}

/// The tools that run without confirmation where nothing else is configured.
pub open spec fn default_approve() -> Seq<Seq<char>> {
    seq!["fs_read"@, "report_issue"@]
}

/// The agent that is there without any configuration.
pub open spec fn default_agent() -> AgentText {
    AgentText {
        name: "default"@,
        description: Some("Default agent"@),
        prompt: None,
        mcp_servers: (seq![], seq![]),
        tools: native_tools(),
        alias: (seq![], seq![]),
        allowed_tools: default_approve(),
        included_files: seq!["AmazonQ.md"@, "README.md"@, ".amazonq/rules/**/*.md"@],
        create_hooks: AgentHooksText::Absent,
        prompt_hooks: AgentHooksText::Absent,
        tools_settings: (seq![], seq![]),
        path: None,
    }
}

impl Default for Agent {
    fn default() -> (res: Self)
        ensures
            res@ == default_agent(),
    {
        let tools: Vec<String> = vec![
            String::from_str("fs_read"),
            String::from_str("fs_write"),
            String::from_str("execute_bash"),
            String::from_str("use_aws"),
            String::from_str("report_issue"),
            String::from_str("thinking"),
        ];
        let allowed_tools: Vec<String> = vec![
            String::from_str("fs_read"),
            String::from_str("report_issue"),
        ];
        let included_files: Vec<String> = vec![
            String::from_str("AmazonQ.md"),
            String::from_str("README.md"),
            String::from_str(".amazonq/rules/**/*.md"),
        ];
        let res = Agent {
            name: String::from_str("default"),
            description: Some(String::from_str("Default agent")),
            prompt: None,
            mcp_servers: McpServerConfig::default(),
            tools,
            alias: NameMap::new(),
            allowed_tools,
            included_files,
            create_hooks: AgentHooks::Absent,
            prompt_hooks: AgentHooks::Absent,
            tools_settings: NameMap::new(),
            path: None,
        };
        assert(res@.tools =~= default_agent().tools);
        assert(res@.allowed_tools =~= default_agent().allowed_tools);
        assert(res@.included_files =~= default_agent().included_files);
        assert(res@.alias.1 =~= seq![]);
        assert(res@.tools_settings.1 =~= seq![]);
        res
    }
}

impl Clone for Agent {
    fn clone(&self) -> (res: Self)
        ensures
            res@ == self@,
    {
        Agent {
            name: String::from_str(self.name.as_str()),
            description: copy_option(&self.description),
            prompt: copy_option(&self.prompt),
            mcp_servers: self.mcp_servers.clone(),
            tools: copy_list(&self.tools),
            alias: copy_texts(&self.alias),
            allowed_tools: copy_list(&self.allowed_tools),
            included_files: copy_list(&self.included_files),
            create_hooks: self.create_hooks.clone(),
            prompt_hooks: self.prompt_hooks.clone(),
            tools_settings: copy_texts(&self.tools_settings),
            path: copy_option(&self.path),
        }
    }
}

} // verus!
