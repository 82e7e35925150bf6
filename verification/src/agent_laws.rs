//! How agents are found, loaded and named, and what they allow.

use vstd::prelude::*;

use crate::agent_load::{
    agent_file_name, agent_source, by_name, conflict, conflicts, default_in, file_agents, has_name,
    loaded, not_taken, position_of_name, AgentFile,
};
use crate::agents::{default_agent, AgentText};
use crate::context_laws::lemma_filter_from;
use crate::personas::{
    default_label, deletion, is_allowed, names_tool, new_persona, persona_name_error, tool_label,
    AgentsText,
};
use crate::report::{Ink, SpanText};
use crate::split::{find_char, lemma_find_char};
use crate::text::among;

verus! {

/// A file is one of an agent exactly if it is the name of the agent, which is not empty, and then
/// `.json`.
pub proof fn law_agent_file_name(file: Seq<char>, name: Seq<char>)
    ensures
        agent_file_name(file) == Some(name) <==> name.len() > 0 && file == name + ".json"@,
{
    reveal_strlit(".json");
    if agent_file_name(file) == Some(name) {
        assert(file =~= name + file.skip(file.len() - 5));
    }
    if name.len() > 0 && file == name + ".json"@ {
        assert(file.skip(file.len() - 5) =~= ".json"@);
        assert(file.take(file.len() - 5) =~= name);
    }
}

/// One more file that is understood, and that is one of an agent, gives one more agent, with the
/// name of the file and its path and all else as it was read. No other file gives one.
pub proof fn law_agent_of_file(files: Seq<AgentFile>, one: AgentFile)
    ensures
        ({
            let was = file_agents(files, files.len() as int);
            let now = file_agents(files.push(one), files.len() as int + 1);
            &&& one.2 is None || agent_file_name(one.0@) is None ==> now == was
            &&& one.2 is Some && agent_file_name(one.0@) is Some ==> {
                let read = one.2->0@;
                &&& now.len() == was.len() + 1
                &&& now.drop_last() == was
                &&& now.last().name == agent_file_name(one.0@)->0
                &&& now.last().path == Some(one.1@)
                &&& now.last().description == read.description
                &&& now.last().prompt == read.prompt
                &&& now.last().mcp_servers == read.mcp_servers
                &&& now.last().tools == read.tools
                &&& now.last().alias == read.alias
                &&& now.last().allowed_tools == read.allowed_tools
                &&& now.last().included_files == read.included_files
                &&& now.last().create_hooks == read.create_hooks
                &&& now.last().prompt_hooks == read.prompt_hooks
                &&& now.last().tools_settings == read.tools_settings
            }
        }),
        file_agents(seq![], 0).len() == 0,
{
    lemma_files_prefix(files, one, files.len() as int);
    let was = file_agents(files, files.len() as int);
    let now = file_agents(files.push(one), files.len() as int + 1);
    if one.2 is Some && agent_file_name(one.0@) is Some {
        assert(now.drop_last() =~= was);
    }
}

proof fn lemma_files_prefix(files: Seq<AgentFile>, one: AgentFile, n: int)
    requires
        0 <= n <= files.len(),
    ensures
        file_agents(files.push(one), n) == file_agents(files, n),
    decreases n,
{
    if n > 0 {
        lemma_files_prefix(files, one, n - 1);
    }
}

/// The agents that are loaded: all of the workspace, those of the user whose names none of the
/// workspace has, and the default agent where neither has one.
pub proof fn law_what_is_loaded(
    local: Seq<AgentText>,
    global: Seq<AgentText>,
    dir: Option<Seq<char>>,
    a: AgentText,
)
    requires
        a != default_in(dir),
    ensures
        loaded(local, global, dir).contains(a) <==> local.contains(a) || (global.contains(a) && forall|i: int|
            0 <= i < local.len() ==> (#[trigger] local[i]).name != a.name),
{
    let kept = global.filter(not_taken(local));
    let merged = local + kept;
    let list = loaded(local, global, dir);
    if local.contains(a) {
        let i = choose|i: int| 0 <= i < local.len() && local[i] == a;
        assert(merged[i] == a);
        assert(list[i] == a);
    }
    if global.contains(a) && !has_name(local, a.name) {
        let i = choose|i: int| 0 <= i < global.len() && global[i] == a;
        global.lemma_filter_contains(not_taken(local), i);
        let j = choose|j: int| 0 <= j < kept.len() && kept[j] == a;
        assert(merged[local.len() + j] == a);
        assert(list[local.len() + j] == a);
    }
    if list.contains(a) {
        let i = choose|i: int| 0 <= i < list.len() && list[i] == a;
        if i < local.len() {
            assert(local[i] == a);
        } else {
            assert(i < merged.len());
            assert(kept[i - local.len()] == a);
            lemma_filter_from(global, not_taken(local), i - local.len());
        }
    }
}

/// Where a default agent is among the loaded ones no other is added; else one is, at the end, with
/// its file in the directory of the user, if that is known.
pub proof fn law_default_is_added(local: Seq<AgentText>, dir: Option<Seq<char>>)
    ensures
        (exists|i: int| 0 <= i < local.len() && (#[trigger] local[i]).name == "default"@) ==> loaded(
            local,
            seq![],
            dir,
        ) == local,
        (forall|i: int| 0 <= i < local.len() ==> (#[trigger] local[i]).name != "default"@) ==> {
            let list = loaded(local, seq![], dir);
            &&& list.len() == local.len() + 1
            &&& list.drop_last() == local
            &&& list.last().name == "default"@
            &&& list.last().tools == default_agent().tools
            &&& dir is None ==> list.last().path is None
            &&& dir matches Some(d) ==> list.last().path == Some(
                crate::paths::joined(d, "default.json"@),
            )
        },
{
    reveal(Seq::filter);
    let none = Seq::<AgentText>::empty();
    let kept = none.filter(not_taken(local));
    assert(kept =~= none);
    let merged = local + kept;
    assert(merged =~= local);
    let list = loaded(local, none, dir);
    if !has_name(local, "default"@) {
        assert(list.drop_last() =~= local);
    }
}

/// A warning comes with exactly those agents of the user whose names are taken in the workspace.
pub proof fn law_conflicts(local: Seq<AgentText>, global: Seq<AgentText>, one: AgentText)
    ensures
        conflicts(local, seq![], 0).len() == 0,
        conflicts(local, global.push(one), global.len() as int + 1) == conflicts(
            local,
            global,
            global.len() as int,
        ) + if exists|i: int| 0 <= i < local.len() && (#[trigger] local[i]).name == one.name {
            seq![
                (Ink::Yellow, false, "WARNING: "@),
                (Ink::Plain, false, "Persona conflict for "@),
                (Ink::Green, false, one.name),
                (Ink::Plain, false, ". Using workspace version.\n"@),
            ]
        } else {
            Seq::<SpanText>::empty()
        },
{
    lemma_conflicts_prefix(local, global, one, global.len() as int);
    let was = conflicts(local, global, global.len() as int);
    assert(was + Seq::<SpanText>::empty() =~= was);
    assert(conflict(one.name) =~= seq![
        (Ink::Yellow, false, "WARNING: "@),
        (Ink::Plain, false, "Persona conflict for "@),
        (Ink::Green, false, one.name),
        (Ink::Plain, false, ". Using workspace version.\n"@),
    ]);
}

proof fn lemma_conflicts_prefix(local: Seq<AgentText>, global: Seq<AgentText>, one: AgentText, n: int)
    requires
        0 <= n <= global.len(),
    ensures
        conflicts(local, global.push(one), n) == conflicts(local, global, n),
    decreases n,
{
    if n > 0 {
        lemma_conflicts_prefix(local, global, one, n - 1);
    }
}

/// Of the agents with one name the last is known by it.
pub proof fn law_last_counts(list: Seq<AgentText>, n: int, i: int)
    requires
        0 <= i < n <= list.len(),
        forall|j: int| i < j < n ==> (#[trigger] list[j]).name != list[i].name,
    ensures
        by_name(list, n).contains_key(list[i].name),
        by_name(list, n)[list[i].name] == list[i],
    decreases n,
{
    if i < n - 1 {
        assert(list[n - 1].name != list[i].name);
        law_last_counts(list, n - 1, i);
    }
}

/// The first agent of a name is found by it.
pub proof fn law_first_position(list: Seq<AgentText>, name: Seq<char>)
    ensures
        0 <= position_of_name(list, name) <= list.len(),
        forall|i: int| 0 <= i < position_of_name(list, name) ==> (#[trigger] list[i]).name != name,
        position_of_name(list, name) < list.len() ==> list[position_of_name(list, name)].name == name,
    decreases list.len(),
{
    if list.len() > 0 && list[0].name != name {
        let rest = list.skip(1);
        law_first_position(rest, name);
        let k = position_of_name(list, name);
        assert forall|i: int| 0 <= i < k implies (#[trigger] list[i]).name != name by {
            if i > 0 {
                assert(rest[i - 1] == list[i]);
            }
        }
        if k < list.len() {
            assert(rest[k - 1] == list[k]);
        }
    }
}

/// An agent is looked for in the workspace first, then in the directory of the user, each time in
/// the file of its name; where it is in neither, the default agent is to be made in the directory
/// of the user, and any other name is an error.
pub proof fn law_where_an_agent_is(
    name: Seq<char>,
    local_dir: Seq<char>,
    global_dir: Seq<char>,
    global_exists: bool,
)
    requires
        name.len() > 0,
        name[0] != '/',
        local_dir.len() > 0,
        local_dir.last() != '/',
        global_dir.len() > 0,
        global_dir.last() != '/',
    ensures
        agent_source(name, local_dir, global_dir, true, global_exists) == Ok::<(bool, Seq<char>), Seq<char>>(
            (true, local_dir + "/"@ + (name + ".json"@)),
        ),
        agent_source(name, local_dir, global_dir, false, true) == Ok::<(bool, Seq<char>), Seq<char>>(
            (true, global_dir + "/"@ + (name + ".json"@)),
        ),
        name == "default"@ ==> agent_source(name, local_dir, global_dir, false, false) == Ok::<
            (bool, Seq<char>),
            Seq<char>,
        >((false, global_dir + "/"@ + (name + ".json"@))),
        name != "default"@ ==> agent_source(name, local_dir, global_dir, false, false) == Err::<
            (bool, Seq<char>),
            Seq<char>,
        >("Agent "@ + name + " does not exist"@),
{
    let file = name + ".json"@;
    assert(file[0] == name[0]);
}

/// A text names a persona exactly if it begins with a letter or digit of ASCII and holds only
/// these, hyphens and underscores.
pub proof fn law_persona_names(name: Seq<char>)
    ensures
        persona_name_error(name) is None <==> {
            &&& name.len() > 0
            &&& name[0] != '-' && name[0] != '_'
            &&& forall|i: int|
                0 <= i < name.len() ==> {
                    let c = #[trigger] name[i];
                    ||| 'a' <= c && c <= 'z'
                    ||| 'A' <= c && c <= 'Z'
                    ||| '0' <= c && c <= '9'
                    ||| c == '-'
                    ||| c == '_'
                }
        },
        name.len() == 0 ==> persona_name_error(name) == Some("Persona name cannot be empty"@),
        name.len() > 0 && persona_name_error(name) is Some ==> persona_name_error(name) == Some(
            "Persona name must start with an alphanumeric character and can only contain alphanumeric characters, hyphens, and underscores"@,
        ),
{
    if name.len() > 0 {
        let c = name[0];
    }
}

/// A new persona is the default agent under another name, with a file of that name.
pub proof fn law_new_persona(name: Seq<char>, dir: Seq<char>)
    requires
        name.len() > 0,
        name[0] != '/',
        dir.len() > 0,
        dir.last() != '/',
    ensures
        new_persona(name, dir).name == name,
        new_persona(name, dir).path == Some(dir + "/"@ + (name + ".json"@)),
        new_persona(name, dir).tools == default_agent().tools,
        new_persona(name, dir).allowed_tools == default_agent().allowed_tools,
        new_persona(name, dir).included_files == default_agent().included_files,
{
    let file = name + ".json"@;
    assert(file[0] == name[0]);
}

/// A persona can be deleted exactly if it is not the active one, is there, and has a file that
/// exists; that file is removed then.
pub proof fn law_deletion(m: AgentsText, name: Seq<char>, file_exists: bool)
    ensures
        deletion(m, name, file_exists) is Ok <==> name != m.active && m.agents.contains_key(name)
            && m.agents[name].path is Some && file_exists,
        deletion(m, name, file_exists) matches Ok(p) ==> m.agents[name].path == Some(p),
        name == m.active ==> deletion(m, name, file_exists) == Err::<Seq<char>, Seq<char>>(
            "Cannot delete the active persona. Switch to another persona first"@,
        ),
        name != m.active && !m.agents.contains_key(name) ==> deletion(m, name, file_exists) == Err::<
            Seq<char>,
            Seq<char>,
        >("Persona '"@ + name + "' does not exist"@),
{
}

/// A tool is allowed under its own name, under `@` with a server and its name, and under `@` with
/// its origin alone.
pub proof fn law_ways_to_allow(tool: Seq<char>, server: Seq<char>, origin: Seq<char>)
    requires
        !server.contains('/'),
    ensures
        names_tool(tool, tool, origin),
        names_tool("@"@ + server + "/"@ + tool, tool, origin),
        names_tool("@"@ + origin, tool, origin),
{
    reveal_strlit("@");
    reveal_strlit("/");
    let a = "@"@ + server + "/"@ + tool;
    let rest = a.skip(1);
    assert(rest =~= server + "/"@ + tool);
    lemma_slash(server, tool);
    assert(rest.skip(server.len() as int + 1) =~= tool);
    assert(("@"@ + origin).skip(1) =~= origin);
}

proof fn lemma_slash(server: Seq<char>, tool: Seq<char>)
    requires
        !server.contains('/'),
    ensures
        find_char(server + "/"@ + tool, '/', 0) == server.len(),
{
    reveal_strlit("/");
    let rest = server + "/"@ + tool;
    lemma_find_char(rest, '/', 0);
    let e = find_char(rest, '/', 0);
    assert(rest[server.len() as int] == '/');
    if e < server.len() {
        assert(rest[e] == server[e]);
    }
}

/// A name without `@` allows no tool but the one of that name; and `@` with a server and a name
/// allows no tool of another name, unless the two together are the tool's origin or it is called
/// so.
pub proof fn law_nothing_else_is_allowed(
    allowed: Seq<char>,
    tool: Seq<char>,
    server: Seq<char>,
    other: Seq<char>,
    origin: Seq<char>,
)
    requires
        !server.contains('/'),
    ensures
        allowed != tool && !(allowed.len() > 0 && allowed[0] == '@') ==> !names_tool(allowed, tool, origin),
        other != tool && tool != "@"@ + server + "/"@ + other && origin != server + "/"@ + other
            ==> !names_tool("@"@ + server + "/"@ + other, tool, origin),
        tool != "@"@ + server && server != origin ==> !names_tool("@"@ + server, tool, origin),
{
    reveal_strlit("@");
    reveal_strlit("/");
    let a = "@"@ + server + "/"@ + other;
    assert(a.skip(1) =~= server + "/"@ + other);
    lemma_slash(server, other);
    assert(a.skip(1).skip(server.len() as int + 1) =~= other);
    assert(("@"@ + server).skip(1) =~= server);
    lemma_find_char(server, '/', 0);
}

/// A tool that the active agent allows is shown as trusted, and so is every tool where all are
/// trusted; of the others the built-in ones have their own permissions.
pub proof fn law_tool_labels(m: AgentsText, tool: Seq<char>, origin: Seq<char>)
    ensures
        m.trust_all || is_allowed(m, tool, origin) ==> tool_label(m, tool, origin) == seq![
            (Ink::Plain, false, "* "@),
            (Ink::DarkGreen, true, "trusted"@),
        ],
        !m.trust_all && !is_allowed(m, tool, origin) ==> tool_label(m, tool, origin) == seq![
            (Ink::Plain, false, "* "@),
            if tool == "fs_read"@ || tool == "report_issue"@ {
                (Ink::DarkGreen, true, "trusted"@)
            } else if tool == "thinking"@ {
                (Ink::DarkGreen, true, "trusted (prerelease)"@)
            } else if tool == "execute_bash"@ || tool == "use_aws"@ {
                (Ink::DarkGrey, false, "trust read-only commands"@)
            } else {
                (Ink::DarkGrey, false, "not trusted"@)
            },
        ],
        m.agents.contains_key(m.active) && m.agents[m.active].allowed_tools.contains(tool) ==> is_allowed(
            m,
            tool,
            origin,
        ),
        !m.agents.contains_key(m.active) ==> !is_allowed(m, tool, origin),
{
    if m.agents.contains_key(m.active) && m.agents[m.active].allowed_tools.contains(tool) {
        let list = m.agents[m.active].allowed_tools;
        let i = choose|i: int| 0 <= i < list.len() && list[i] == tool;
        assert(names_tool(list[i], tool, origin));
    }
    reveal_strlit("fs_read");
    reveal_strlit("fs_write");
    reveal_strlit("execute_bash");
    reveal_strlit("use_aws");
    reveal_strlit("report_issue");
    reveal_strlit("thinking");
    assert("fs_read"@.len() == 7 && "fs_write"@.len() == 8 && "execute_bash"@.len() == 12 && "use_aws"@.len()
        == 7 && "report_issue"@.len() == 12 && "thinking"@.len() == 8);
    assert("fs_read"@[0] == 'f' && "use_aws"@[0] == 'u');
    assert("fs_write"@[0] == 'f' && "thinking"@[0] == 't');
    assert("execute_bash"@[0] == 'e' && "report_issue"@[0] == 'r');
    if !m.trust_all && !is_allowed(m, tool, origin) {
        assert(tool_label(m, tool, origin) == default_label(tool, false));
    }
}

/// What is left of a list after names were taken out: all others, and none of these.
pub proof fn law_taken_out(list: Seq<Seq<char>>, names: Seq<Seq<char>>, one: Seq<char>)
    ensures
        list.filter(among(names, false)).contains(one) <==> list.contains(one) && !names.contains(one),
        list.filter(among(names, true)).contains(one) <==> list.contains(one) && names.contains(one),
{
    lemma_among(list, names, false, one);
    lemma_among(list, names, true, one);
}

proof fn lemma_among(list: Seq<Seq<char>>, names: Seq<Seq<char>>, wanted: bool, one: Seq<char>)
    ensures
        list.filter(among(names, wanted)).contains(one) <==> list.contains(one) && names.contains(one)
            == wanted,
{
    let p = among(names, wanted);
    let kept = list.filter(p);
    if kept.contains(one) {
        let i = choose|i: int| 0 <= i < kept.len() && kept[i] == one;
        lemma_filter_from(list, p, i);
    }
    if list.contains(one) && names.contains(one) == wanted {
        let i = choose|i: int| 0 <= i < list.len() && list[i] == one;
        list.lemma_filter_contains(p, i);
    }
}

} // verus!
