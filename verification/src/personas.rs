//! The agents of a chat: which is active, what it allows, and how agents come and go.

use vstd::prelude::*;

use crate::agents::{default_agent, Agent, AgentText};
use crate::context::failure;
use crate::name_map::NameMap;
use crate::paths::{join_path, joined};
use crate::report::{bold, inked, Ink, Report, SpanText};
use crate::split::{find_char, position_of};
use crate::text::{
    among, cat2, cat3, chars_of, extend_missing, list_contains, same_text, select, string_from, texts,
    with_missing,
};
use crate::tools_list::ToolOrigin;

verus! {

/// What comes of a request to use a tool.
#[derive(Debug, Clone, Copy, PartialEq, Eq, Structural)]
pub enum PermissionEvalResult {
    /// It runs.
    Allow,
    /// The user is asked.
    Ask,
    /// It does not run.
    Deny,
}

/// The agents of a chat.
#[derive(Debug)]
pub struct Agents {
    /// The agents by name.
    pub agents: NameMap<Agent>,
    /// The name of the active one.
    pub active_idx: String,
    /// Whether all tools are trusted.
    pub trust_all_tools: bool,
}

/// What named agents hold.
pub open spec fn agent_texts(m: Map<Seq<char>, Agent>) -> Map<Seq<char>, AgentText> {
    Map::new(|k: Seq<char>| m.contains_key(k), |k: Seq<char>| m[k]@)
}

/// What agents hold.
pub struct AgentsText {
    pub agents: Map<Seq<char>, AgentText>,
    pub active: Seq<char>,
    pub trust_all: bool,
}

impl View for Agents {
    type V = AgentsText;

    open spec fn view(&self) -> AgentsText {
        AgentsText {
            agents: agent_texts(self.agents@),
            active: self.active_idx@,
            trust_all: self.trust_all_tools,
        }
    }
}

impl Default for Agents {
    fn default() -> (res: Self)
        ensures
            res@.agents == Map::<Seq<char>, AgentText>::empty(),
            res@.active == ""@,
            !res@.trust_all,
    {
        let res = Agents {
            agents: NameMap::new(),
            active_idx: String::from_str(""),
            trust_all_tools: false,
        };
        assert(res@.agents =~= Map::<Seq<char>, AgentText>::empty());
        res
    }
}

proof fn lemma_agents_insert(m: Map<Seq<char>, Agent>, k: Seq<char>, a: Agent)
    ensures
        agent_texts(m.insert(k, a)) == agent_texts(m).insert(k, a@),
{
    assert(agent_texts(m.insert(k, a)) =~= agent_texts(m).insert(k, a@));
}

impl AgentsText {
    /// The agents after a change of the active one.
    pub open spec fn with_active(self, agent: AgentText) -> AgentsText {
        AgentsText { agents: self.agents.insert(self.active, agent), ..self }
    }
}

/// Why a text cannot name a persona, or `None` for one that can.
pub open spec fn persona_name_error(name: Seq<char>) -> Option<Seq<char>> {
    if name.len() == 0 {
        Some("Persona name cannot be empty"@)
    } else if crate::profiles::is_ascii_alphanumeric(name[0]) && forall|i: int|
        0 <= i < name.len() ==> is_persona_char(#[trigger] name[i]) {
        None
    } else {
        Some(
            "Persona name must start with an alphanumeric character and can only contain alphanumeric characters, hyphens, and underscores"@,
        )
    }
}

/// A character that may stand in the name of a persona.
pub open spec fn is_persona_char(c: char) -> bool {
    crate::profiles::is_ascii_alphanumeric(c) || c == '-' || c == '_'
}

fn ascii_alphanumeric(c: char) -> (res: bool)
    ensures
        res == crate::profiles::is_ascii_alphanumeric(c),
{
    ('a' <= c && c <= 'z') || ('A' <= c && c <= 'Z') || ('0' <= c && c <= '9')
}

/// Whether a text can name a persona, and why not.
pub fn validate_persona_name(name: &str) -> (res: Result<(), String>)
    ensures
        failure(res) == persona_name_error(name@),
{
    let chars = chars_of(name);
    if chars.len() == 0 {
        return Err(String::from_str("Persona name cannot be empty"));
    }
    let mut good = ascii_alphanumeric(chars[0]);
    let mut i: usize = 0;
    while i < chars.len()
        invariant
            chars@ == name@,
            i <= chars@.len(),
            chars@.len() > 0,
            good <==> crate::profiles::is_ascii_alphanumeric(name@[0]) && forall|j: int|
                0 <= j < i ==> is_persona_char(#[trigger] name@[j]),
        decreases chars@.len() - i,
    {
        let c = chars[i];
        good = good && (ascii_alphanumeric(c) || c == '-' || c == '_');
        i += 1;
    }
    if !good {
        return Err(
            String::from_str(
                "Persona name must start with an alphanumeric character and can only contain alphanumeric characters, hyphens, and underscores",
            ),
        );
    }
    Ok(())
}

/// The agent of a new persona whose file is in a directory.
pub open spec fn new_persona(name: Seq<char>, dir: Seq<char>) -> AgentText {
    AgentText { name, path: Some(joined(dir, name + ".json"@)), ..default_agent() }
}

/// What deleting a persona comes to: the file to be removed, or an error.
pub open spec fn deletion(m: AgentsText, name: Seq<char>, file_exists: bool) -> Result<Seq<char>, Seq<char>> {
    if name == m.active {
        Err("Cannot delete the active persona. Switch to another persona first"@)
    } else if !m.agents.contains_key(name) {
        Err("Persona '"@ + name + "' does not exist"@)
    } else {
        match m.agents[name].path {
            Some(p) if file_exists => Ok(p),
            _ => Err("Persona "@ + name + " does not have an associated path"@),
        }
    }
}

impl Agents {
    /// The active agent.
    pub fn get_active(&self) -> (res: Option<&Agent>)
        ensures
            match res {
                Some(a) => self@.agents.contains_key(self@.active) && a@ == self@.agents[self@.active],
                None => !self@.agents.contains_key(self@.active),
            },
    {
        self.agents.get(self.active_idx.as_str())
    }

    /// The active agent, to be changed.
    pub fn get_active_mut(&mut self) -> (res: Option<&mut Agent>)
        ensures
            match res {
                Some(a) => {
                    &&& old(self)@.agents.contains_key(old(self)@.active)
                    &&& a@ == old(self)@.agents[old(self)@.active]
                    &&& final(self)@ == old(self)@.with_active(final(a)@)
                },
                None => {
                    &&& !old(self)@.agents.contains_key(old(self)@.active)
                    &&& *final(self) == *old(self)
                },
            },
    {
        let name = String::from_str(self.active_idx.as_str());
        let ghost was = self.agents@;
        let ghost key = name@;
        proof {
            assert forall|a: Agent| agent_texts(#[trigger] was.insert(key, a)) == agent_texts(was).insert(key, a@) by {
                lemma_agents_insert(was, key, a);
            }
        }
        self.agents.get_mut(name.as_str())
    }

    /// Lets tools of the active agent run without confirmation.
    pub fn trust_tools(&mut self, tool_names: &Vec<String>)
        ensures
            final(self)@ == if old(self)@.agents.contains_key(old(self)@.active) {
                let agent = old(self)@.agents[old(self)@.active];
                old(self)@.with_active(
                    AgentText {
                        allowed_tools: with_missing(
                            agent.allowed_tools,
                            texts(tool_names@),
                            tool_names@.len() as int,
                        ),
                        ..agent
                    },
                )
            } else {
                old(self)@
            },
    {
        if let Some(agent) = self.get_active_mut() {
            extend_missing(&mut agent.allowed_tools, tool_names);
        }
    }

    /// Lets tools of the active agent run only with confirmation.
    pub fn untrust_tools(&mut self, tool_names: &Vec<String>)
        ensures
            final(self)@ == if old(self)@.agents.contains_key(old(self)@.active) {
                let agent = old(self)@.agents[old(self)@.active];
                old(self)@.with_active(
                    AgentText {
                        allowed_tools: agent.allowed_tools.filter(among(texts(tool_names@), false)),
                        ..agent
                    },
                )
            } else {
                old(self)@
            },
    {
        if let Some(agent) = self.get_active_mut() {
            let kept = select(&agent.allowed_tools, tool_names, false);
            agent.allowed_tools = kept;
        }
    }

    /// Makes another agent the active one.
    pub fn switch(&mut self, name: &str) -> (res: Result<&Agent, String>)
        ensures
            match res {
                Ok(a) => {
                    &&& old(self)@.agents.contains_key(name@)
                    &&& a@ == old(self)@.agents[name@]
                    &&& final(self)@ == (AgentsText { active: name@, ..old(self)@ })
                },
                Err(e) => {
                    &&& !old(self)@.agents.contains_key(name@)
                    &&& e@ == "No agent with name "@ + name@ + " found"@
                    &&& *final(self) == *old(self)
                },
            },
    {
        if !self.agents.contains_key(name) {
            return Err(cat3("No agent with name ", name, " found"));
        }
        self.active_idx = String::from_str(name);
        match self.agents.get(name) {
            Some(a) => Ok(a),
            None => Err(cat3("No agent with name ", name, " found")),
        }
    }

    /// The names of the agents.
    pub fn list_personas(&self) -> (res: Vec<String>)
        ensures
            texts(res@) == self.agents.keys(),
            forall|k: Seq<char>| #[trigger] texts(res@).contains(k) <==> self@.agents.contains_key(k),
    {
        let mut out: Vec<String> = Vec::new();
        let mut i: usize = 0;
        while i < self.agents.len()
            invariant
                i <= self.agents.keys().len(),
                out@.len() == i,
                forall|j: int| 0 <= j < i ==> (#[trigger] out@[j])@ == self.agents.keys()[j],
            decreases self.agents.keys().len() - i,
        {
            out.push(String::from_str(self.agents.key_at(i)));
            i += 1;
        }
        assert(texts(out@) =~= self.agents.keys());
        proof {
            self.agents.lemma_lookup();
            assert forall|k: Seq<char>| #[trigger] texts(out@).contains(k) <==> self@.agents.contains_key(k) by {
                assert(self.agents@.contains_key(k) <==> self.agents.keys().contains(k));
            }
        }
        out
    }

    /// The agent of a new persona, whose file is to be written to `dir`; then it is to be given to
    /// [`Agents::add_persona`].
    pub fn create_persona(&self, name: &str, dir: &str, file_exists: bool) -> (res: Result<Agent, String>)
        ensures
            match persona_name_error(name@) {
                Some(e) => res matches Err(x) && x@ == e,
                None => if file_exists {
                    res matches Err(x) && x@ == "Persona '"@ + name@ + "' already exists"@
                } else {
                    res matches Ok(a) && a@ == new_persona(name@, dir@)
                },
            },
    {
        if let Err(e) = validate_persona_name(name) {
            return Err(e);
        }
        if file_exists {
            return Err(cat3("Persona '", name, "' already exists"));
        }
        let file = cat2(name, ".json");
        let mut agent = Agent::default();
        agent.name = String::from_str(name);
        agent.path = Some(join_path(dir, file.as_str()));
        Ok(agent)
    }

    /// Adds an agent under its name.
    pub fn add_persona(&mut self, agent: Agent)
        ensures
            final(self)@ == (AgentsText {
                agents: old(self)@.agents.insert(agent@.name, agent@),
                ..old(self)@
            }),
    {
        proof {
            lemma_agents_insert(self.agents@, agent@.name, agent);
        }
        let name = String::from_str(agent.name.as_str());
        self.agents.insert(name, agent);
    }

    /// The file that is to be removed where a persona is deleted; then its name is to be given to
    /// [`Agents::drop_persona`].
    pub fn delete_persona(&self, name: &str, file_exists: bool) -> (res: Result<String, String>)
        ensures
            crate::env_expansion::text_result(res) == deletion(self@, name@, file_exists),
    {
        if same_text(name, self.active_idx.as_str()) {
            return Err(
                String::from_str("Cannot delete the active persona. Switch to another persona first"),
            );
        }
        match self.agents.get(name) {
            None => Err(cat3("Persona '", name, "' does not exist")),
            Some(agent) => {
                assert(agent@ == self@.agents[name@]);
                if file_exists {
                    if let Some(p) = &agent.path {
                        return Ok(String::from_str(p.as_str()));
                    }
                }
                Err(cat3("Persona ", name, " does not have an associated path"))
            },
        }
    }

    /// Takes an agent out.
    pub fn drop_persona(&mut self, name: &str)
        ensures
            final(self)@ == (AgentsText { agents: old(self)@.agents.remove(name@), ..old(self)@ }),
    {
        let ghost was = self.agents@;
        self.agents.remove(name);
        assert(agent_texts(was.remove(name@)) =~= agent_texts(was).remove(name@));
    }
}

/// How an origin is written in the name of a tool.
pub open spec fn origin_name(origin: ToolOrigin) -> Seq<char> {
    match origin {
        ToolOrigin::Native => "native"@,
        ToolOrigin::McpServer(s) => s@,
    }
}

/// Whether an allowed name stands for a tool: it is the name of the tool, or `@` with its server
/// and its name, or `@` with its origin.
pub open spec fn names_tool(allowed: Seq<char>, tool: Seq<char>, origin: Seq<char>) -> bool {
    let rest = allowed.skip(1);
    let slash = find_char(rest, '/', 0);
    ||| allowed == tool
    ||| allowed.len() > 0 && allowed[0] == '@' && ((slash < rest.len() && rest.skip(slash + 1) == tool)
        || rest == origin)
}

/// Whether the active agent allows a tool.
pub open spec fn is_allowed(m: AgentsText, tool: Seq<char>, origin: Seq<char>) -> bool {
    m.agents.contains_key(m.active) && exists|i: int|
        0 <= i < m.agents[m.active].allowed_tools.len() && names_tool(
            #[trigger] m.agents[m.active].allowed_tools[i],
            tool,
            origin,
        )
}

/// The permission of a tool of which nothing is configured.
pub open spec fn default_label(tool: Seq<char>, trust_all: bool) -> Seq<SpanText> {
    let label = if tool == "fs_read"@ {
        bold(Ink::DarkGreen, "trusted"@)
    } else if tool == "fs_write"@ {
        inked(Ink::DarkGrey, "not trusted"@)
    } else if tool == "execute_bash"@ {
        inked(Ink::DarkGrey, "trust read-only commands"@)
    } else if tool == "use_aws"@ {
        inked(Ink::DarkGrey, "trust read-only commands"@)
    } else if tool == "report_issue"@ {
        bold(Ink::DarkGreen, "trusted"@)
    } else if tool == "thinking"@ {
        bold(Ink::DarkGreen, "trusted (prerelease)"@)
    } else if trust_all {
        bold(Ink::DarkGrey, "trusted"@)
    } else {
        inked(Ink::DarkGrey, "not trusted"@)
    };
    seq![inked(Ink::Plain, "* "@), label]
}

/// The permission of a tool.
pub open spec fn tool_label(m: AgentsText, tool: Seq<char>, origin: Seq<char>) -> Seq<SpanText> {
    if is_allowed(m, tool, origin) || m.trust_all {
        seq![inked(Ink::Plain, "* "@), bold(Ink::DarkGreen, "trusted"@)]
    } else {
        default_label(tool, m.trust_all)
    }
}

fn stands_for(allowed: &str, tool: &str, origin: &str) -> (res: bool)
    ensures
        res == names_tool(allowed@, tool@, origin@),
{
    if same_text(allowed, tool) {
        return true;
    }
    let chars = chars_of(allowed);
    let n: usize = chars.len();
    if n == 0 || chars[0] != '@' {
        return false;
    }
    let rest = string_from(&chars, 1, n);
    assert(rest@ =~= allowed@.skip(1));
    if same_text(rest.as_str(), origin) {
        return true;
    }
    let tail = chars_of(rest.as_str());
    let slash: usize = position_of(&tail, '/', 0);
    if slash >= tail.len() {
        return false;
    }
    let right = string_from(&tail, slash + 1, tail.len());
    assert(right@ =~= rest@.skip(slash as int + 1));
    same_text(right.as_str(), tool)
}

impl Agents {
    /// The permission of a tool, as it is shown.
    pub fn display_label(&self, tool_name: &str, origin: &ToolOrigin) -> (res: Report)
        ensures
            res@ == tool_label(self@, tool_name@, origin_name(*origin)),
    {
        let server: &str = match origin {
            ToolOrigin::Native => "native",
            ToolOrigin::McpServer(s) => s.as_str(),
        };
        let mut allowed = false;
        if let Some(agent) = self.get_active() {
            let ghost list = agent@.allowed_tools;
            let mut i: usize = 0;
            while i < agent.allowed_tools.len()
                invariant
                    i <= agent.allowed_tools@.len(),
                    list == texts(agent.allowed_tools@),
                    allowed <==> exists|j: int|
                        0 <= j < i && names_tool(#[trigger] list[j], tool_name@, server@),
                decreases agent.allowed_tools@.len() - i,
            {
                let found = stands_for(agent.allowed_tools[i].as_str(), tool_name, server);
                assert(list[i as int] == agent.allowed_tools@[i as int]@);
                allowed = allowed || found;
                i += 1;
            }
        }
        if allowed || self.trust_all_tools {
            let mut out = Report::new();
            out.say(Ink::Plain, "* ");
            out.say_bold(Ink::DarkGreen, "trusted");
            assert(out@ =~= seq![inked(Ink::Plain, "* "@), bold(Ink::DarkGreen, "trusted"@)]);
            return out;
        }
        self.default_permission_label(tool_name)
    }

    /// The permission of a tool of which nothing is configured, as it is shown.
    pub fn default_permission_label(&self, tool_name: &str) -> (res: Report)
        ensures
            res@ == default_label(tool_name@, self@.trust_all),
    {
        let mut out = Report::new();
        out.say(Ink::Plain, "* ");
        if same_text(tool_name, "fs_read") {
            out.say_bold(Ink::DarkGreen, "trusted");
        } else if same_text(tool_name, "fs_write") {
            out.say(Ink::DarkGrey, "not trusted");
        } else if same_text(tool_name, "execute_bash") {
            out.say(Ink::DarkGrey, "trust read-only commands");
        } else if same_text(tool_name, "use_aws") {
            out.say(Ink::DarkGrey, "trust read-only commands");
        } else if same_text(tool_name, "report_issue") {
            out.say_bold(Ink::DarkGreen, "trusted");
        } else if same_text(tool_name, "thinking") {
            out.say_bold(Ink::DarkGreen, "trusted (prerelease)");
        } else if self.trust_all_tools {
            out.say_bold(Ink::DarkGrey, "trusted");
        } else {
            out.say(Ink::DarkGrey, "not trusted");
        }
        assert(out@ =~= default_label(tool_name@, self@.trust_all));
        out
    }
}

/// A tool that is allowed is shown as trusted.
pub proof fn law_allowed_is_trusted(m: AgentsText, tool: Seq<char>, origin: Seq<char>)
    requires
        m.agents.contains_key(m.active),
        m.agents[m.active].allowed_tools.contains(tool),
    ensures
        tool_label(m, tool, origin) == seq![inked(Ink::Plain, "* "@), bold(Ink::DarkGreen, "trusted"@)],
{
    let list = m.agents[m.active].allowed_tools;
    let i = choose|i: int| 0 <= i < list.len() && list[i] == tool;
    assert(names_tool(m.agents[m.active].allowed_tools[i], tool, origin));
}

/// Trusting tools allows each of them, and keeps the list without repetition.
pub proof fn law_trust_tools(tools: Seq<Seq<char>>, more: Seq<Seq<char>>, n: int)
    requires
        0 <= n <= more.len(),
    ensures
        forall|i: int| 0 <= i < tools.len() ==> with_missing(tools, more, n).contains(#[trigger] tools[i]),
        forall|i: int| 0 <= i < n ==> with_missing(tools, more, n).contains(#[trigger] more[i]),
        tools.no_duplicates() ==> with_missing(tools, more, n).no_duplicates(),
    decreases n,
{
    let now = with_missing(tools, more, n);
    if n > 0 {
        law_trust_tools(tools, more, n - 1);
        let was = with_missing(tools, more, n - 1);
        assert forall|x: Seq<char>| was.contains(x) implies #[trigger] now.contains(x) by {
            let i = choose|i: int| 0 <= i < was.len() && was[i] == x;
            assert(now[i] == x);
        }
        assert(now.contains(more[n - 1])) by {
            if !was.contains(more[n - 1]) {
                assert(now[was.len() as int] == more[n - 1]);
            }
        }
        assert forall|i: int| 0 <= i < tools.len() implies now.contains(#[trigger] tools[i]) by {
            assert(was.contains(tools[i]));
        }
        assert forall|i: int| 0 <= i < n implies now.contains(#[trigger] more[i]) by {
            if i < n - 1 {
                assert(was.contains(more[i]));
            }
        }
    } else {
        assert forall|i: int| 0 <= i < tools.len() implies now.contains(#[trigger] tools[i]) by {
            assert(now[i] == tools[i]);
        }
    }
}

/// Untrusting tools that were trusted anew gives back the list from before.
pub proof fn law_untrust_undoes_trust_tools(tools: Seq<Seq<char>>, more: Seq<Seq<char>>)
    requires
        forall|i: int| 0 <= i < more.len() ==> !tools.contains(#[trigger] more[i]),
    ensures
        with_missing(tools, more, more.len() as int).filter(among(more, false)) == tools,
{
    lemma_untrust_step(tools, more, more.len() as int);
}

proof fn lemma_untrust_step(tools: Seq<Seq<char>>, more: Seq<Seq<char>>, n: int)
    requires
        0 <= n <= more.len(),
        forall|i: int| 0 <= i < more.len() ==> !tools.contains(#[trigger] more[i]),
    ensures
        with_missing(tools, more, n).filter(among(more, false)) == tools,
    decreases n,
{
    let p = among(more, false);
    if n <= 0 {
        assert forall|i: int| 0 <= i < tools.len() implies p(tools[i]) by {
            if more.contains(tools[i]) {
                let j = choose|j: int| 0 <= j < more.len() && more[j] == tools[i];
                assert(!tools.contains(more[j]));
                assert(tools.contains(tools[i]));
            }
        }
        crate::name_map::lemma_filter_all(tools, p);
    } else {
        lemma_untrust_step(tools, more, n - 1);
        let was = with_missing(tools, more, n - 1);
        if !was.contains(more[n - 1]) {
            reveal(Seq::filter);
            assert(was.push(more[n - 1]).drop_last() =~= was);
            assert(more.contains(more[n - 1]));
        }
    }
}

} // verus!
