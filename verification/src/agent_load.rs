//! Loading agents: those of the workspace, those of the user, and the default one.

use vstd::prelude::*;

use crate::agents::{default_agent, Agent, AgentText};
use crate::paths::{join_path, joined};
use crate::personas::{Agents, AgentsText};
use crate::report::{inked, Ink, Report, SpanText};
use crate::text::{cat3, chars_of, option_text, same_text, string_from};

verus! {

/// What a list of agents holds.
pub open spec fn agent_list(v: Seq<Agent>) -> Seq<AgentText> {
    Seq::new(v.len(), |i: int| v[i]@)
}

/// The name of an agent by its file: what stands before a final `.json`.
pub open spec fn agent_file_name(file: Seq<char>) -> Option<Seq<char>> {
    if file.len() > 5 && file.skip(file.len() - 5) == ".json"@ {
        Some(file.take(file.len() - 5))
    } else {
        None
    }
}

/// The name of an agent by its file.
pub fn agent_name_of(file: &str) -> (res: Option<String>)
    ensures
        option_text(res) == agent_file_name(file@),
{
    let chars = chars_of(file);
    let n: usize = chars.len();
    if n > 5 {
        let end = string_from(&chars, n - 5, n);
        assert(end@ =~= file@.skip(n - 5));
        if same_text(end.as_str(), ".json") {
            let name = string_from(&chars, 0, n - 5);
            assert(name@ =~= file@.take(n - 5));
            return Some(name);
        }
    }
    None
}

/// The agent of a file, if the file is one of an agent and was understood.
pub fn agent_from_file(file: &str, path: &str, parsed: Option<Agent>) -> (res: Option<Agent>)
    ensures
        match (agent_file_name(file@), parsed) {
            (Some(name), Some(agent)) => res matches Some(a) && a@ == (AgentText {
                name,
                path: Some(path@),
                ..agent@
            }),
            _ => res is None,
        },
{
    match parsed {
        None => None,
        Some(mut agent) => match agent_name_of(file) {
            None => None,
            Some(name) => {
                agent.name = name;
                agent.path = Some(String::from_str(path));
                Some(agent)
            },
        },
    }
}

/// A file in a directory of agents: its name, its path, and the agent that was read from it.
pub type AgentFile = (String, String, Option<Agent>);

/// The agents of the first `n` files.
pub open spec fn file_agents(files: Seq<AgentFile>, n: int) -> Seq<AgentText>
    decreases n,
{
    if n <= 0 {
        seq![]
    } else {
        match (agent_file_name(files[n - 1].0@), files[n - 1].2) {
            (Some(name), Some(agent)) => file_agents(files, n - 1).push(
                AgentText { name, path: Some(files[n - 1].1@), ..agent@ },
            ),
            _ => file_agents(files, n - 1),
        }
    }
}

/// The agents of the files of a directory: other files, and those that were not understood, are
/// left out.
pub fn load_agents_from_entries(files: &Vec<AgentFile>) -> (res: Vec<Agent>)
    ensures
        agent_list(res@) == file_agents(files@, files@.len() as int),
{
    let mut out: Vec<Agent> = Vec::new();
    let mut i: usize = 0;
    assert(agent_list(out@) =~= file_agents(files@, 0));
    while i < files.len()
        invariant
            i <= files@.len(),
            agent_list(out@) == file_agents(files@, i as int),
        decreases files@.len() - i,
    {
        let ghost before = agent_list(out@);
        let parsed = match &files[i].2 {
            Some(agent) => Some(agent.clone()),
            None => None,
        };
        match agent_from_file(files[i].0.as_str(), files[i].1.as_str(), parsed) {
            Some(agent) => {
                let ghost text = agent@;
                out.push(agent);
                assert(agent_list(out@) =~= before.push(text));
            },
            None => {},
        }
        i += 1;
    }
    out
}

/// Whether one of the agents has that name.
pub open spec fn has_name(list: Seq<AgentText>, name: Seq<char>) -> bool {
    exists|i: int| 0 <= i < list.len() && (#[trigger] list[i]).name == name
}

fn names_agent(list: &Vec<Agent>, name: &str) -> (res: bool)
    ensures
        res == has_name(agent_list(list@), name@),
{
    let ghost t = agent_list(list@);
    let mut i: usize = 0;
    while i < list.len()
        invariant
            i <= list@.len(),
            t == agent_list(list@),
            forall|j: int| 0 <= j < i ==> (#[trigger] t[j]).name != name@,
        decreases list@.len() - i,
    {
        assert(t[i as int].name == list@[i as int].name@);
        if same_text(list[i].name.as_str(), name) {
            return true;
        }
        i += 1;
    }
    false
}

/// The agents of the user whose names are not taken in the workspace.
pub open spec fn not_taken(local: Seq<AgentText>) -> spec_fn(AgentText) -> bool {
    |a: AgentText| !has_name(local, a.name)
}

/// The warning on one agent whose name is taken.
pub open spec fn conflict(name: Seq<char>) -> Seq<SpanText> {
    seq![
        inked(Ink::Yellow, "WARNING: "@),
        inked(Ink::Plain, "Persona conflict for "@),
        inked(Ink::Green, name),
        inked(Ink::Plain, ". Using workspace version.\n"@),
    ]
}

/// The warnings on the first `n` agents of the user.
pub open spec fn conflicts(local: Seq<AgentText>, global: Seq<AgentText>, n: int) -> Seq<SpanText>
    decreases n,
{
    if n <= 0 {
        seq![]
    } else {
        let rest = conflicts(local, global, n - 1);
        if has_name(local, global[n - 1].name) {
            rest + conflict(global[n - 1].name)
        } else {
            rest
        }
    }
}

/// The agents of the workspace, then those of the user with other names; and a warning on each
/// of the others.
pub fn merge_agents(local: Vec<Agent>, global: &Vec<Agent>) -> (res: (Vec<Agent>, Report))
    ensures
        agent_list(res.0@) == agent_list(local@) + agent_list(global@).filter(
            not_taken(agent_list(local@)),
        ),
        res.1@ == conflicts(agent_list(local@), agent_list(global@), global@.len() as int),
{
    let ghost l = agent_list(local@);
    let ghost g = agent_list(global@);
    let ghost p = not_taken(l);
    let mut kept: Vec<Agent> = Vec::new();
    let mut out = Report::new();
    let mut i: usize = 0;
    proof {
        reveal(Seq::filter);
        assert(agent_list(kept@) =~= g.take(0).filter(p));
        assert(out@ =~= conflicts(l, g, 0));
    }
    while i < global.len()
        invariant
            i <= global@.len(),
            l == agent_list(local@),
            g == agent_list(global@),
            p == not_taken(l),
            agent_list(kept@) == g.take(i as int).filter(p),
            out@ == conflicts(l, g, i as int),
        decreases global@.len() - i,
    {
        proof {
            reveal(Seq::filter);
            assert(g.take(i as int + 1).drop_last() =~= g.take(i as int));
            assert(g.take(i as int + 1).last() == global@[i as int]@);
        }
        let one = &global[i];
        if names_agent(&local, one.name.as_str()) {
            out.say(Ink::Yellow, "WARNING: ");
            out.say(Ink::Plain, "Persona conflict for ");
            out.say(Ink::Green, one.name.as_str());
            out.say(Ink::Plain, ". Using workspace version.\n");
            assert(out@ =~= conflicts(l, g, i as int) + conflict(one@.name));
        } else {
            let copy = one.clone();
            let ghost before = agent_list(kept@);
            kept.push(copy);
            assert(agent_list(kept@) =~= before.push(one@));
        }
        i += 1;
    }
    assert(g.take(i as int) =~= g);
    let mut all = local;
    let ghost tail = kept@;
    all.append(&mut kept);
    assert(agent_list(all@) =~= l + agent_list(tail));
    (all, out)
}

/// The default agent with its file in the directory of the user's agents, if that is known.
pub open spec fn default_in(dir: Option<Seq<char>>) -> AgentText {
    AgentText {
        path: match dir {
            Some(d) => Some(joined(d, "default.json"@)),
            None => None,
        },
        ..default_agent()
    }
}

/// Adds the default agent where there is none. Its file is to be written then.
pub fn ensure_default(agents: &mut Vec<Agent>, global_dir: Option<&str>) -> (res: bool)
    ensures
        res == !has_name(agent_list(old(agents)@), "default"@),
        agent_list(final(agents)@) == if res {
            agent_list(old(agents)@).push(
                default_in(
                    match global_dir {
                        Some(d) => Some(d@),
                        None => None,
                    },
                ),
            )
        } else {
            agent_list(old(agents)@)
        },
        has_name(agent_list(final(agents)@), "default"@),
{
    if names_agent(agents, "default") {
        return false;
    }
    let mut agent = Agent::default();
    agent.path = match global_dir {
        Some(d) => Some(join_path(d, "default.json")),
        None => None,
    };
    let ghost before = agent_list(agents@);
    let ghost text = agent@;
    agents.push(agent);
    assert(agent_list(agents@) =~= before.push(text));
    assert(agent_list(agents@)[before.len() as int].name == "default"@);
    true
}

/// The first `n` agents by name; of agents with one name the last counts.
pub open spec fn by_name(list: Seq<AgentText>, n: int) -> Map<Seq<char>, AgentText>
    decreases n,
{
    if n <= 0 {
        Map::empty()
    } else {
        by_name(list, n - 1).insert(list[n - 1].name, list[n - 1])
    }
}

/// The agents of a list, with the named one active, or the default one.
pub fn collect_agents(list: &Vec<Agent>, agent_name: Option<&str>) -> (res: Agents)
    ensures
        res@ == (AgentsText {
            agents: by_name(agent_list(list@), list@.len() as int),
            active: match agent_name {
                Some(n) => n@,
                None => "default"@,
            },
            trust_all: false,
        }),
{
    let ghost t = agent_list(list@);
    let mut res = Agents::default();
    res.active_idx = match agent_name {
        Some(n) => String::from_str(n),
        None => String::from_str("default"),
    };
    let ghost active = res@.active;
    let mut i: usize = 0;
    while i < list.len()
        invariant
            i <= list@.len(),
            t == agent_list(list@),
            res@ == (AgentsText { agents: by_name(t, i as int), active, trust_all: false }),
        decreases list@.len() - i,
    {
        let copy = list[i].clone();
        assert(t[i as int] == copy@);
        res.add_persona(copy);
        i += 1;
    }
    res
}

/// Agents that are being loaded.
#[derive(Debug)]
pub struct Loading {
    /// Those that were found, and the default one.
    pub agents: Vec<Agent>,
    /// The position of the default agent, which a migration may change.
    pub default: usize,
    /// Whether the file of the default agent is to be written, because there was none.
    pub write_default: bool,
    /// The warnings.
    pub report: Report,
}

/// The agents of the workspace, those of the user with other names, and the default one.
pub open spec fn loaded(
    local: Seq<AgentText>,
    global: Seq<AgentText>,
    global_dir: Option<Seq<char>>,
) -> Seq<AgentText> {
    let merged = local + global.filter(not_taken(local));
    if has_name(merged, "default"@) {
        merged
    } else {
        merged.push(default_in(global_dir))
    }
}

/// The position of the first agent of that name, or the number of agents.
pub open spec fn position_of_name(list: Seq<AgentText>, name: Seq<char>) -> int
    decreases list.len(),
{
    if list.len() == 0 || list[0].name == name {
        0
    } else {
        1 + position_of_name(list.skip(1), name)
    }
}

fn find_agent(list: &Vec<Agent>, name: &str) -> (res: usize)
    ensures
        res == position_of_name(agent_list(list@), name@),
        res <= list@.len(),
        has_name(agent_list(list@), name@) ==> res < list@.len() && agent_list(
            list@,
        )[res as int].name == name@,
{
    let ghost t = agent_list(list@);
    let mut i: usize = 0;
    assert(t.skip(0) =~= t);
    while i < list.len()
        invariant
            i <= list@.len(),
            t == agent_list(list@),
            forall|j: int| 0 <= j < i ==> (#[trigger] t[j]).name != name@,
            position_of_name(t, name@) == i + position_of_name(t.skip(i as int), name@),
        decreases list@.len() - i,
    {
        assert(t.skip(i as int)[0] == list@[i as int]@);
        assert(t.skip(i as int).skip(1) =~= t.skip(i as int + 1));
        if same_text(list[i].name.as_str(), name) {
            assert(t[i as int].name == name@);
            return i;
        }
        i += 1;
    }
    i
}

impl Agents {
    /// Takes the agents of the workspace and those of the user together. There is always a
    /// default agent.
    pub fn load(local: Vec<Agent>, global: &Vec<Agent>, global_dir: Option<&str>) -> (res: Loading)
        ensures
            ({
                let l = agent_list(local@);
                let g = agent_list(global@);
                let dir = match global_dir {
                    Some(d) => Some(d@),
                    None => None,
                };
                let list = loaded(l, g, dir);
                &&& agent_list(res.agents@) == list
                &&& res.report@ == conflicts(l, g, g.len() as int)
                &&& res.write_default == !has_name(l + g.filter(not_taken(l)), "default"@)
                &&& res.default == position_of_name(list, "default"@)
                &&& res.default < list.len()
                &&& list[res.default as int].name == "default"@
            }),
    {
        let (mut agents, report) = merge_agents(local, global);
        let write_default = ensure_default(&mut agents, global_dir);
        let default = find_agent(&agents, "default");
        Loading { agents, default, write_default, report }
    }
}

impl Loading {
    /// The agents, with those that a migration made, by name; the named one is active, or the
    /// default one.
    pub fn finish(self, migrated: Option<Vec<Agent>>, agent_name: Option<&str>) -> (res: Agents)
        ensures
            ({
                let list = agent_list(self.agents@) + match migrated {
                    Some(m) => agent_list(m@),
                    None => seq![],
                };
                res@ == (AgentsText {
                    agents: by_name(list, list.len() as int),
                    active: match agent_name {
                        Some(n) => n@,
                        None => "default"@,
                    },
                    trust_all: false,
                })
            }),
    {
        let mut agents = self.agents;
        let ghost first = agent_list(agents@);
        match migrated {
            Some(mut more) => {
                let ghost tail = agent_list(more@);
                agents.append(&mut more);
                assert(agent_list(agents@) =~= first + tail);
            },
            None => {
                assert(first + Seq::<AgentText>::empty() =~= first);
            },
        }
        collect_agents(&agents, agent_name)
    }
}

/// However the agents were found, there is a default agent once they are loaded.
pub proof fn law_default_is_loaded(
    local: Seq<AgentText>,
    global: Seq<AgentText>,
    global_dir: Option<Seq<char>>,
    migrated: Seq<AgentText>,
)
    ensures
        ({
            let list = loaded(local, global, global_dir) + migrated;
            by_name(list, list.len() as int).contains_key("default"@)
        }),
{
    let first = loaded(local, global, global_dir);
    let list = first + migrated;
    let merged = local + global.filter(not_taken(local));
    if has_name(merged, "default"@) {
        let i = choose|i: int| 0 <= i < merged.len() && (#[trigger] merged[i]).name == "default"@;
        assert(list[i].name == "default"@);
    } else {
        assert(list[merged.len() as int] == default_in(global_dir));
        assert(list[merged.len() as int].name == "default"@);
    }
    law_known_by_name(list, list.len() as int, "default"@);
}

/// Every agent is known by its own name.
pub proof fn law_known_by_name(list: Seq<AgentText>, n: int, name: Seq<char>)
    requires
        0 <= n <= list.len(),
    ensures
        by_name(list, n).contains_key(name) <==> exists|i: int|
            0 <= i < n && (#[trigger] list[i]).name == name,
        by_name(list, n).contains_key(name) ==> by_name(list, n)[name].name == name,
    decreases n,
{
    if n > 0 {
        law_known_by_name(list, n - 1, name);
        if by_name(list, n - 1).contains_key(name) {
            let i = choose|i: int| 0 <= i < n - 1 && (#[trigger] list[i]).name == name;
            assert(0 <= i < n && list[i].name == name);
        }
        if list[n - 1].name == name {
            assert(0 <= n - 1 < n && list[n - 1].name == name);
        }
    }
}

/// An agent of the workspace hides one of the user with the same name.
pub proof fn law_workspace_wins(local: Seq<AgentText>, global: Seq<AgentText>, i: int)
    requires
        0 <= i < global.filter(not_taken(local)).len(),
    ensures
        !has_name(local, global.filter(not_taken(local))[i].name),
{
    crate::context_laws::lemma_filter_from(global, not_taken(local), i);
}

/// Where an agent's configuration is.
#[derive(Debug, PartialEq)]
pub enum AgentSource {
    /// In this file, which is to be read.
    File(String),
    /// Nowhere yet: the default agent is to be written to this file.
    Create(String),
}

/// The file of an agent in a directory.
pub open spec fn agent_file(dir: Seq<char>, name: Seq<char>) -> Seq<char> {
    joined(dir, name + ".json"@)
}

/// The file of an agent in a directory.
pub fn agent_path(dir: &str, name: &str) -> (res: String)
    ensures
        res@ == agent_file(dir@, name@),
{
    let file = crate::text::cat2(name, ".json");
    join_path(dir, file.as_str())
}

/// What stands for the configuration of a name: the file of the workspace, else that of the user,
/// else, for the default agent, a new file. Whether the two files exist is given.
pub open spec fn agent_source(
    name: Seq<char>,
    local_dir: Seq<char>,
    global_dir: Seq<char>,
    local_exists: bool,
    global_exists: bool,
) -> Result<(bool, Seq<char>), Seq<char>> {
    let global = agent_file(global_dir, name);
    if local_exists {
        Ok((true, agent_file(local_dir, name)))
    } else if global_exists {
        Ok((true, global))
    } else if name == "default"@ {
        Ok((false, global))
    } else {
        Err("Agent "@ + name + " does not exist"@)
    }
}

/// The texts of a result.
pub open spec fn source_result(r: Result<AgentSource, String>) -> Result<(bool, Seq<char>), Seq<char>> {
    match r {
        Ok(AgentSource::File(p)) => Ok((true, p@)),
        Ok(AgentSource::Create(p)) => Ok((false, p@)),
        Err(e) => Err(e@),
    }
}

impl Agent {
    /// Where the configuration of an agent is found by its name. Whether its file exists in the
    /// workspace and in the directory of the user is to be told: [`agent_path`] gives the files.
    pub fn get_agent_by_name(
        agent_name: &str,
        local_dir: &str,
        global_dir: &str,
        local_exists: bool,
        global_exists: bool,
    ) -> (res: Result<AgentSource, String>)
        ensures
            source_result(res) == agent_source(
                agent_name@,
                local_dir@,
                global_dir@,
                local_exists,
                global_exists,
            ),
    {
        if local_exists {
            return Ok(AgentSource::File(agent_path(local_dir, agent_name)));
        }
        let global = agent_path(global_dir, agent_name);
        if global_exists {
            return Ok(AgentSource::File(global));
        }
        if same_text(agent_name, "default") {
            return Ok(AgentSource::Create(global));
        }
        Err(cat3("Agent ", agent_name, " does not exist"))
    }
}

} // verus!
