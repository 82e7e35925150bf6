//! What `/profile` shows, when profiles can be migrated, and which agents are the same.

use vstd::prelude::*;

use crate::agents::{Agent, AgentHooks, CustomToolConfig};
use crate::alike::{same_members, Alike};
use crate::hook::Hook;
use crate::name_map::NameMap;
use crate::personas::Agents;
use crate::profile_command::{
    disabled_report, listed_agents, migrated_report, migration_error, profile_lines, profile_listing,
    rename_report, ProfilesDir,
};
use crate::report::Ink;
use crate::text::{option_text, texts};

verus! {

/// Two texts are the same exactly if they hold the same characters; nothing is the same as nothing.
proof fn lemma_same_option(a: Option<String>, b: Option<String>)
    ensures
        a.alike(&b) <==> option_text(a) == option_text(b),
{
}

proof fn lemma_same_list(a: Vec<String>, b: Vec<String>)
    ensures
        a.alike(&b) <==> texts(a@) == texts(b@),
{
    if a.alike(&b) {
        assert forall|i: int| 0 <= i < a@.len() implies #[trigger] texts(a@)[i] == texts(b@)[i] by {
            assert(a@[i].alike(&b@[i]));
        }
        assert(texts(a@) =~= texts(b@));
    }
    if texts(a@) == texts(b@) {
        assert(a@.len() == texts(a@).len());
        assert forall|i: int| 0 <= i < a@.len() implies (#[trigger] a@[i]).alike(&b@[i]) by {
            assert(texts(a@)[i] == texts(b@)[i]);
        }
    }
}

/// Two maps of texts are the same exactly if they have the same names, and the same text under each,
/// whatever the order.
pub proof fn law_same_maps(a: NameMap<String>, b: NameMap<String>)
    ensures
        a.alike(&b) <==> forall|k: Seq<char>|
            (#[trigger] a@.contains_key(k) <==> b@.contains_key(k)) && (a@.contains_key(k) ==> a@[k]@ == b@[k]@),
{
    if a.alike(&b) {
        assert forall|k: Seq<char>|
            (#[trigger] a@.contains_key(k) <==> b@.contains_key(k)) && (a@.contains_key(k) ==> a@[k]@
                == b@[k]@) by {
            if a@.contains_key(k) {
                assert(a@[k].alike(&b@[k]));
            }
            if b@.contains_key(k) {
                assert(a@.contains_key(k));
            }
        }
    }
    if forall|k: Seq<char>|
        (#[trigger] a@.contains_key(k) <==> b@.contains_key(k)) && (a@.contains_key(k) ==> a@[k]@ == b@[k]@) {
        assert forall|k: Seq<char>| #[trigger] a@.contains_key(k) implies b@.contains_key(k) && a@[k].alike(
            &b@[k],
        ) by {}
        assert forall|k: Seq<char>| #[trigger] b@.contains_key(k) implies a@.contains_key(k) by {
            assert(a@.contains_key(k) <==> b@.contains_key(k));
        }
    }
}

/// Agents that are the same hold the same, each thing by itself; of the allowed tools the order does
/// not count.
pub proof fn law_same_agents(a: Agent, b: Agent)
    ensures
        a.alike(&b) <==> {
            &&& a.name@ == b.name@
            &&& option_text(a.description) == option_text(b.description)
            &&& option_text(a.prompt) == option_text(b.prompt)
            &&& a.mcp_servers.mcp_servers.alike(&b.mcp_servers.mcp_servers)
            &&& texts(a.tools@) == texts(b.tools@)
            &&& a.alias.alike(&b.alias)
            &&& same_members(texts(a.allowed_tools@), texts(b.allowed_tools@))
            &&& texts(a.included_files@) == texts(b.included_files@)
            &&& a.create_hooks.alike(&b.create_hooks)
            &&& a.prompt_hooks.alike(&b.prompt_hooks)
            &&& a.tools_settings.alike(&b.tools_settings)
            &&& option_text(a.path) == option_text(b.path)
        },
{
    lemma_same_option(a.description, b.description);
    lemma_same_option(a.prompt, b.prompt);
    lemma_same_option(a.path, b.path);
    lemma_same_list(a.tools, b.tools);
    lemma_same_list(a.included_files, b.included_files);
}

/// Hooks of an agent that are written in different ways are never the same; those that are listed are
/// the same if the lists are.
pub proof fn law_same_agent_hooks(a: AgentHooks, b: AgentHooks, x: Vec<String>, y: Vec<String>)
    ensures
        a.alike(&b) ==> (a is Absent <==> b is Absent) && (a is Commands <==> b is Commands) && (a is Named
            <==> b is Named) && (a is Malformed <==> b is Malformed),
        AgentHooks::Absent.alike(&AgentHooks::Absent),
        AgentHooks::Commands(x).alike(&AgentHooks::Commands(y)) <==> texts(x@) == texts(y@),
{
    lemma_same_list(x, y);
}

/// Hooks are the same exactly if they run the same command at the same time with the same settings,
/// and neither name, state nor scope differs.
pub proof fn law_same_hooks(a: Hook, b: Hook)
    ensures
        a.alike(&b) <==> {
            &&& a.trigger == b.trigger
            &&& a.command@ == b.command@
            &&& a.disabled == b.disabled
            &&& option_text(a.options) == option_text(b.options)
            &&& a.name@ == b.name@
            &&& a.is_global == b.is_global
        },
{
    lemma_same_option(a.options, b.options);
}

/// Servers are the same exactly if they are started by the same command with the same arguments, in the
/// same environment and with the same settings.
pub proof fn law_same_servers(a: CustomToolConfig, b: CustomToolConfig)
    ensures
        a.alike(&b) <==> {
            &&& a.command@ == b.command@
            &&& texts(a.args@) == texts(b.args@)
            &&& a.env.alike(&b.env)
            &&& option_text(a.options) == option_text(b.options)
        },
{
    lemma_same_list(a.args, b.args);
    lemma_same_option(a.options, b.options);
}

/// The agents are listed in order; the active one, and no other unless it is the same, has a star.
pub proof fn law_agents_are_listed(agents: Agents, list: Seq<(Seq<char>, bool)>, one: (Seq<char>, bool), i: int)
    ensures
        listed_agents(agents).len() == agents.agents.values().len(),
        0 <= i < agents.agents.values().len() ==> listed_agents(agents)[i].0 == agents.agents.values()[i].name@,
        0 <= i < agents.agents.values().len() ==> (listed_agents(agents)[i].1 <==> agents.agents@.contains_key(
            agents.active_idx@,
        ) && agents.agents@[agents.active_idx@].alike(&agents.agents.values()[i])),
        profile_lines(seq![], 0).len() == 0,
        profile_lines(list.push(one), list.len() as int + 1) == profile_lines(list, list.len() as int) + (
        if one.1 {
            seq![(Ink::Green, false, "* "@ + one.0), (Ink::Plain, false, "\n"@)]
        } else {
            seq![(Ink::Plain, false, "  "@ + one.0 + "\n"@)]
        }),
        profile_listing(list) == seq![(Ink::Plain, false, "\n"@)] + profile_lines(list, list.len() as int)
            + seq![(Ink::Plain, false, "\n"@)],
{
    lemma_lines_prefix(list, one, list.len() as int);
}

proof fn lemma_lines_prefix(list: Seq<(Seq<char>, bool)>, one: (Seq<char>, bool), n: int)
    requires
        0 <= n <= list.len(),
    ensures
        profile_lines(list.push(one), n) == profile_lines(list, n),
    decreases n,
{
    if n > 0 {
        lemma_lines_prefix(list, one, n - 1);
    }
}

/// Profiles can be migrated exactly if their directory is known and there, has a place to be put aside
/// that is free, and there is a default agent.
pub proof fn law_migration_is_possible(dir: ProfilesDir, has_default_agent: bool)
    ensures
        migration_error(dir, has_default_agent) is None <==> dir.path is Ok && dir.exists_on_disk && dir.backup is Some
            && !dir.backup_exists && has_default_agent,
        dir.path is Err ==> migration_error(dir, has_default_agent) == Some(
            "Error retrieving chat profile dir for migration: "@ + dir.path->Err_0@,
        ),
        dir.path is Ok && !dir.exists_on_disk ==> migration_error(dir, has_default_agent) == Some(
            "No legacy profile directory detected. Aborting\n"@,
        ),
        dir.path is Ok && dir.exists_on_disk && dir.backup is None ==> migration_error(dir, has_default_agent)
            == Some("Migration failed due to failure to find legacy profile directory parent\n"@),
        dir.path is Ok && dir.exists_on_disk && dir.backup is Some && dir.backup_exists ==> migration_error(
            dir,
            has_default_agent,
        ) == Some("Previous backup detected. Delete "@ + dir.backup->0@ + " and try again\n"@),
        dir.path is Ok && dir.exists_on_disk && dir.backup is Some && !dir.backup_exists && !has_default_agent
            ==> migration_error(dir, has_default_agent) == Some("Failed to obtain default agent"@),
{
}

/// What is said of profiles that cannot be changed, and at the end of a migration.
pub proof fn law_profiles_in_words(path: Seq<char>, e: Seq<char>, backup: Seq<char>)
    ensures
        disabled_report(Some(path)) == seq![
            (
                Ink::Yellow,
                false,
                "Persona / Profile persistence has been disabled. To persist any changes on persona / profile, use the default persona under "@
                    + path + " as example"@,
            ),
        ],
        disabled_report(None) == disabled_report(Some("default global persona path"@)),
        rename_report(None).len() == 0,
        rename_report(Some(e)) == seq![
            (Ink::Plain, false, "Renaming of legacy profile directory failed: "@ + e + "\n"@),
            (
                Ink::Plain,
                false,
                "Please delete the legacy profile directory to avoid being prompted to migrate in future"@,
            ),
        ],
        migrated_report(backup, path) == seq![
            (
                Ink::Plain,
                false,
                "Profile migration completed. Old profiles can be found at "@ + backup + "\n"@,
            ),
            (
                Ink::Plain,
                false,
                "Note that the migration simply created new config under "@ + path
                    + ". If these profiles contain context that references files under this path, you would need to edit them accordingly in the new config"@,
            ),
        ],
{
}

} // verus!
