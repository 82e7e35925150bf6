//! The `/profile` command.

use vstd::prelude::*;

use crate::agents::{Agent, AgentHooks, AgentHooksText, AgentText};
use crate::alike::Alike;
use crate::migration::{Carry, CarryText};
use crate::personas::{agent_texts, Agents, AgentsText};
use crate::report::{inked, Ink, Report, SpanText};
use crate::text::{cat2, cat3, same_text};

verus! {

/// What `/profile` can do.
#[derive(Debug, PartialEq)]
pub enum ProfileSubcommand {
    /// List the profiles.
    List,
    /// Create a profile.
    Create { name: String },
    /// Delete a profile.
    Delete { name: String },
    /// Switch to a profile.
    Switch { name: String },
    /// Rename a profile.
    Rename { old_name: String, new_name: String },
    /// Make agents of profiles.
    Migrate,
}

/// What comes of a subcommand.
#[derive(Debug)]
pub enum ProfileAction {
    /// This is printed.
    Print(Report),
    /// The profiles are to be migrated.
    Migrate,
}

/// The names of the agents, each with whether it is the same as the active one.
pub open spec fn listed_agents(agents: Agents) -> Seq<(Seq<char>, bool)> {
    let named = agents.agents@;
    let active = agents.active_idx@;
    Seq::new(
        agents.agents.values().len(),
        |i: int|
            {
                let agent = agents.agents.values()[i];
                (agent.name@, named.contains_key(active) && named[active].alike(&agent))
            },
    )
}

/// The lines of the first `n` agents, of which those that are the active one are marked.
pub open spec fn profile_lines(list: Seq<(Seq<char>, bool)>, n: int) -> Seq<SpanText>
    decreases n,
{
    if n <= 0 {
        seq![]
    } else {
        profile_lines(list, n - 1) + if list[n - 1].1 {
            seq![inked(Ink::Green, "* "@ + list[n - 1].0), inked(Ink::Plain, "\n"@)]
        } else {
            seq![inked(Ink::Plain, "  "@ + list[n - 1].0 + "\n"@)]
        }
    }
}

/// The list of the agents.
pub open spec fn profile_listing(list: Seq<(Seq<char>, bool)>) -> Seq<SpanText> {
    seq![inked(Ink::Plain, "\n"@)] + profile_lines(list, list.len() as int) + seq![
        inked(Ink::Plain, "\n"@),
    ]
}

/// What is said where profiles cannot be changed.
pub open spec fn disabled_report(global_path: Option<Seq<char>>) -> Seq<SpanText> {
    seq![
        inked(
            Ink::Yellow,
            "Persona / Profile persistence has been disabled. To persist any changes on persona / profile, use the default persona under "@
                + (match global_path {
                Some(p) => p,
                None => "default global persona path"@,
            }) + " as example"@,
        ),
    ]
}

impl ProfileSubcommand {
    /// Decides what a subcommand comes to. Where agents are kept is `global_path`, if it is known.
    pub fn execute(&self, agents: &Agents, global_path: Option<&str>) -> (res: ProfileAction)
        ensures
            match self {
                ProfileSubcommand::List => res matches ProfileAction::Print(r) && r@ == profile_listing(
                    listed_agents(*agents),
                ),
                ProfileSubcommand::Migrate => res is Migrate,
                _ => res matches ProfileAction::Print(r) && r@ == disabled_report(
                    match global_path {
                        Some(p) => Some(p@),
                        None => None,
                    },
                ),
            },
    {
        match self {
            ProfileSubcommand::Migrate => ProfileAction::Migrate,
            ProfileSubcommand::List => {
                let ghost list = listed_agents(*agents);
                let mut out = Report::new();
                out.say(Ink::Plain, "\n");
                let ghost start = out@;
                let mut i: usize = 0;
                assert(start + profile_lines(list, 0) =~= start);
                while i < agents.agents.len()
                    invariant
                        i <= list.len(),
                        list == listed_agents(*agents),
                        out@ == start + profile_lines(list, i as int),
                    decreases list.len() - i,
                {
                    let agent = agents.agents.value_at(i);
                    let name: &str = agent.name.as_str();
                    let marked = match agents.agents.get(agents.active_idx.as_str()) {
                        Some(active) => active.is_alike(agent),
                        None => false,
                    };
                    if marked {
                        let text = cat2("* ", name);
                        out.say(Ink::Green, text.as_str());
                        out.say(Ink::Plain, "\n");
                    } else {
                        let text = cat3("  ", name, "\n");
                        out.say(Ink::Plain, text.as_str());
                    }
                    i += 1;
                    assert(out@ =~= start + profile_lines(list, i as int));
                }
                out.say(Ink::Plain, "\n");
                assert(out@ =~= profile_listing(list));
                ProfileAction::Print(out)
            },
            _ => {
                let path: &str = match global_path {
                    Some(p) => p,
                    None => "default global persona path",
                };
                let text = cat3(
                    "Persona / Profile persistence has been disabled. To persist any changes on persona / profile, use the default persona under ",
                    path,
                    " as example",
                );
                let mut out = Report::new();
                out.say(Ink::Yellow, text.as_str());
                assert(out@ =~= disabled_report(
                    match global_path {
                        Some(p) => Some(p@),
                        None => None,
                    },
                ));
                ProfileAction::Print(out)
            },
        }
    }
}

/// What is known of the directory of profiles before they are migrated.
#[derive(Debug)]
pub struct ProfilesDir {
    /// Where it is, or why that is not known.
    pub path: Result<String, String>,
    /// Whether it exists.
    pub exists_on_disk: bool,
    /// Where it is put aside, if it has a parent.
    pub backup: Option<String>,
    /// Whether something is there already.
    pub backup_exists: bool,
}

/// Why profiles cannot be migrated, or `None` where they can be.
pub open spec fn migration_error(dir: ProfilesDir, has_default_agent: bool) -> Option<Seq<char>> {
    match dir.path {
        Err(e) => Some("Error retrieving chat profile dir for migration: "@ + e@),
        Ok(_) => if !dir.exists_on_disk {
            Some("No legacy profile directory detected. Aborting\n"@)
        } else {
            match dir.backup {
                None => Some(
                    "Migration failed due to failure to find legacy profile directory parent\n"@,
                ),
                Some(b) => if dir.backup_exists {
                    Some("Previous backup detected. Delete "@ + b@ + " and try again\n"@)
                } else if !has_default_agent {
                    Some("Failed to obtain default agent"@)
                } else {
                    None
                },
            }
        },
    }
}

/// Whether profiles can be migrated, and why not.
pub fn check_migration(dir: &ProfilesDir, agents: &Agents) -> (res: Result<(), String>)
    ensures
        crate::context::failure(res) == migration_error(
            *dir,
            agents@.agents.contains_key("default"@),
        ),
{
    if let Err(e) = &dir.path {
        return Err(cat2("Error retrieving chat profile dir for migration: ", e.as_str()));
    }
    if !dir.exists_on_disk {
        return Err(String::from_str("No legacy profile directory detected. Aborting\n"));
    }
    match &dir.backup {
        None => Err(
            String::from_str(
                "Migration failed due to failure to find legacy profile directory parent\n",
            ),
        ),
        Some(b) => {
            if dir.backup_exists {
                return Err(
                    cat3("Previous backup detected. Delete ", b.as_str(), " and try again\n"),
                );
            }
            if !agents.agents.contains_key("default") {
                return Err(String::from_str("Failed to obtain default agent"));
            }
            Ok(())
        },
    }
}

/// What is to be done with the directory of profiles once the new agents are written.
#[derive(Debug, Clone, Copy, PartialEq, Eq, Structural)]
pub enum ProfilesNext {
    /// Nothing was made of it.
    Keep,
    /// An agent was not written, so it stays.
    KeepAfterError,
    /// It is put aside.
    PutAside,
}

/// What is to be done with the directory of profiles, where `made` is the number of new agents.
pub fn next_for_profiles(made: usize, has_default_profile: bool, write_failed: bool) -> (res: ProfilesNext)
    ensures
        res == if made == 0 && !has_default_profile {
            ProfilesNext::Keep
        } else if write_failed {
            ProfilesNext::KeepAfterError
        } else {
            ProfilesNext::PutAside
        },
{
    if made == 0 && !has_default_profile {
        ProfilesNext::Keep
    } else if write_failed {
        ProfilesNext::KeepAfterError
    } else {
        ProfilesNext::PutAside
    }
}

/// What is said where the directory could not be put aside.
pub open spec fn rename_report(error: Option<Seq<char>>) -> Seq<SpanText> {
    match error {
        None => seq![],
        Some(e) => seq![
            inked(Ink::Plain, "Renaming of legacy profile directory failed: "@ + e + "\n"@),
            inked(
                Ink::Plain,
                "Please delete the legacy profile directory to avoid being prompted to migrate in future"@,
            ),
        ],
    }
}

/// What is said where the directory could not be put aside.
pub fn report_rename(outcome: &Result<(), String>) -> (res: Report)
    ensures
        res@ == rename_report(crate::context::failure(*outcome)),
{
    let mut out = Report::new();
    if let Err(e) = outcome {
        let text = cat3("Renaming of legacy profile directory failed: ", e.as_str(), "\n");
        out.say(Ink::Plain, text.as_str());
        out.say(
            Ink::Plain,
            "Please delete the legacy profile directory to avoid being prompted to migrate in future",
        );
    }
    assert(out@ =~= rename_report(crate::context::failure(*outcome)));
    out
}

/// The default agent after the migration: its files are those that were carried over, and, where
/// there was a default profile, so are its hooks.
pub open spec fn default_after(agent: AgentText, carry: CarryText, has_default_profile: bool) -> AgentText {
    if has_default_profile {
        AgentText {
            included_files: carry.files,
            create_hooks: AgentHooksText::Named(carry.create),
            prompt_hooks: AgentHooksText::Named(carry.prompt),
            ..agent
        }
    } else {
        AgentText { included_files: carry.files, ..agent }
    }
}

/// Applies what was carried over to the default agent. Where there was a default profile the
/// agent's file is to be written, to the path that is returned.
pub fn apply_to_default(agents: &mut Agents, carry: Carry, has_default_profile: bool) -> (res: Result<
    Option<String>,
    String,
>)
    requires
        old(agents)@.agents.contains_key("default"@),
    ensures
        ({
            let agent = old(agents)@.agents["default"@];
            let now = default_after(agent, carry@, has_default_profile);
            &&& final(agents)@ == (AgentsText {
                agents: old(agents)@.agents.insert("default"@, now),
                ..old(agents)@
            })
            &&& match (has_default_profile, agent.path) {
                (false, _) => res matches Ok(None),
                (true, Some(p)) => res matches Ok(Some(x)) && x@ == p,
                (true, None) => res matches Err(e) && e@
                    == "Profile migration failed for default profile because default agent does not have a path associated"@,
            }
        }),
{
    let ghost was = agents.agents@;
    proof {
        assert forall|a: Agent| agent_texts(#[trigger] was.insert("default"@, a)) == agent_texts(was).insert(
            "default"@,
            a@,
        ) by {
            assert(agent_texts(was.insert("default"@, a)) =~= agent_texts(was).insert("default"@, a@));
        }
    }
    match agents.agents.get_mut("default") {
        None => Ok(None),
        Some(agent) => {
            agent.included_files = carry.files;
            if has_default_profile {
                agent.create_hooks = AgentHooks::Named(carry.create_hooks);
                agent.prompt_hooks = AgentHooks::Named(carry.prompt_hooks);
                match &agent.path {
                    Some(p) => Ok(Some(String::from_str(p.as_str()))),
                    None => Err(
                        String::from_str(
                            "Profile migration failed for default profile because default agent does not have a path associated",
                        ),
                    ),
                }
            } else {
                Ok(None)
            }
        },
    }
}

/// What is said at the end of a migration after which the profiles were put aside.
pub open spec fn migrated_report(backup: Seq<char>, global_path: Seq<char>) -> Seq<SpanText> {
    seq![
        inked(Ink::Plain, "Profile migration completed. Old profiles can be found at "@ + backup + "\n"@),
        inked(
            Ink::Plain,
            "Note that the migration simply created new config under "@ + global_path
                + ". If these profiles contain context that references files under this path, you would need to edit them accordingly in the new config"@,
        ),
    ]
}

/// What is said at the end of a migration after which the profiles were put aside.
pub fn report_migrated(backup: &str, global_path: &str) -> (res: Report)
    ensures
        res@ == migrated_report(backup@, global_path@),
{
    let mut out = Report::new();
    let first = cat3("Profile migration completed. Old profiles can be found at ", backup, "\n");
    out.say(Ink::Plain, first.as_str());
    let second = cat3(
        "Note that the migration simply created new config under ",
        global_path,
        ". If these profiles contain context that references files under this path, you would need to edit them accordingly in the new config",
    );
    out.say(Ink::Plain, second.as_str());
    assert(out@ =~= migrated_report(backup@, global_path@));
    out
}

} // verus!
