//! What is announced and reported, and what a result is made of.

use vstd::prelude::*;

use crate::agents::{malformed_servers, AgentText};
use crate::complete::{
    first_item, item_captures, item_patterns, line_items, no_completions, no_history, numbered_item,
};
use crate::context::{combined_trusted, ConfigText, ContextManager};
use crate::context_rules::{unreadable_text, PathContents};
use crate::execute::description_of;
use crate::fs_search::search_report;
use crate::knowledge::{is_indexing, no_context, Addition, ContextKey, OperationText};
use crate::matcher::{regex_capture, regex_error};
use crate::migration::{
    any_failed, found_profiles, has_default, malformed_report, persist_report, write_reports,
    ProfileText, ProfilesFound, WriteOutcome,
};
use crate::number::{byte_len, decimal};
use crate::personas::{origin_name, AgentsText};
use crate::report::{plain_text, Ink, SpanText};
use crate::split::trim;
use crate::tools_list::{listed_trusted, listing_text, ToolOrigin, ToolsListing};
use crate::trusted_commands::TrustedText;

verus! {

/// A command is announced before it runs: a long one on a line of its own, with the news that it is
/// trusted, if it is, and with its purpose, if it has one.
pub proof fn law_command_is_announced(command: Seq<char>, purpose: Seq<char>)
    ensures
        byte_len(command) <= 20 ==> description_of(command, None, false) == seq![
            (Ink::Plain, false, "I will run the following shell command: "@),
            (Ink::Green, false, command + "\n"@),
            (Ink::Plain, false, "\n"@),
        ],
        byte_len(command) > 20 ==> description_of(command, None, false) == seq![
            (Ink::Plain, false, "I will run the following shell command: "@),
            (Ink::Plain, false, "\n"@),
            (Ink::Green, false, command + "\n"@),
            (Ink::Plain, false, "\n"@),
        ],
        byte_len(command) <= 20 ==> description_of(command, None, true) == seq![
            (Ink::Plain, false, "I will run the following shell command: "@),
            (Ink::Green, false, command + "\n"@),
            (Ink::Plain, false, " ⋮ "@ + "\n"@),
            (Ink::Plain, false, " ↳ "@),
            (Ink::Cyan, false, "Trusted by user configuration"@),
            (Ink::Plain, false, "\n"@),
            (Ink::Plain, false, "\n"@),
        ],
        byte_len(command) <= 20 ==> description_of(command, Some(purpose), false) == seq![
            (Ink::Plain, false, "I will run the following shell command: "@),
            (Ink::Green, false, command + "\n"@),
            (Ink::Plain, false, " ⋮ "@ + "\n"@),
            (Ink::Plain, false, " ↳ "@),
            (Ink::Blue, false, "Purpose: "@),
            (Ink::Plain, false, purpose + "\n"@),
            (Ink::Plain, false, "\n"@),
        ],
        description_of(command, Some(purpose), true).len() == description_of(command, None, true).len() + 4,
{
}

/// A search is announced by what is looked for and where.
pub proof fn law_search_is_announced(what: Seq<char>, pattern: Seq<char>, path: Seq<char>)
    ensures
        search_report(what, pattern, path) == seq![
            (Ink::Plain, false, "Searching for "@ + what + " matching pattern: "@),
            (Ink::Yellow, false, pattern),
            (Ink::Plain, false, " in "@),
            (Ink::Green, false, path),
            (Ink::Plain, false, "\n"@),
        ],
{
}

/// The text of a report is what its pieces say, one after the other.
pub proof fn law_text_of_report(report: Seq<SpanText>, ink: Ink, bold: bool, text: Seq<char>)
    ensures
        plain_text(seq![]) == Seq::<char>::empty(),
        plain_text(report.push((ink, bold, text))) == plain_text(report) + text,
{
    assert(report.push((ink, bold, text)).drop_last() =~= report);
}

/// An item of a list is what the first of the expressions that fits takes of the line, without the
/// blanks round it; the items of an answer are those of its lines, each without the blanks round it.
pub proof fn law_item_of_a_line(line: Seq<char>, all: Seq<Seq<char>>, i: int)
    requires
        regex_error("^\\d+\\.\\s*(.+)$"@) is None,
        regex_error("^\\d+\\)\\s*(.+)$"@) is None,
        regex_error("^[•\\-\\*]\\s*(.+)$"@) is None,
    ensures
        numbered_item(line) == match regex_capture("^\\d+\\.\\s*(.+)$"@, line) {
            Some(t) => Some(trim(t)),
            None => match regex_capture("^\\d+\\)\\s*(.+)$"@, line) {
                Some(t) => Some(trim(t)),
                None => match regex_capture("^[•\\-\\*]\\s*(.+)$"@, line) {
                    Some(t) => Some(trim(t)),
                    None => None,
                },
            },
        },
        line_items(all).len() == all.len(),
        0 <= i < all.len() ==> line_items(all)[i] == numbered_item(trim(all[i])),
{
    reveal_with_fuel(first_item, 4);
    let c = item_captures(line);
    assert(c.len() == 3);
    assert(c[0] == regex_capture("^\\d+\\.\\s*(.+)$"@, line));
    assert(c[1] == regex_capture("^\\d+\\)\\s*(.+)$"@, line));
    assert(c[2] == regex_capture("^[•\\-\\*]\\s*(.+)$"@, line));
    assert(item_patterns().len() == 3);
    assert forall|j: int| 0 <= j < 3 implies regex_error(#[trigger] item_patterns()[j]) is None by {
        assert(j == 0 || j == 1 || j == 2);
    }
}

/// What is said where there is nothing to complete.
pub proof fn law_no_proposals()
    ensures
        no_history() == seq![
            (
                Ink::Yellow,
                false,
                "No conversation history available. Start a conversation first.\n"@,
            ),
        ],
        no_completions() == seq![(Ink::Yellow, false, "No completions could be generated.\n"@)],
{
}

/// Servers that are malformed are told with the place of their configuration.
pub proof fn law_malformed_servers(location: Seq<char>, error: Seq<char>)
    ensures
        malformed_servers(location, error) == seq![
            (Ink::Yellow, false, "WARNING: "@),
            (Ink::Plain, false, "Error reading "@ + location + " mcp config: "@ + error + "\n"@),
            (Ink::Plain, false, "Please check to make sure config is correct. Discarding.\n"@),
        ],
{
}

/// Only a file that could not be read is told, with the reason.
pub proof fn law_unreadable_file(path: Seq<char>, contents: PathContents, e: String, t: String)
    ensures
        unreadable_text(path, PathContents::File(Err(e))) == Some(
            "Failed to read file '"@ + path + "': "@ + e@,
        ),
        unreadable_text(path, PathContents::File(Ok(t))) is None,
        !(contents is File) ==> unreadable_text(path, contents) is None,
{
}

/// Without a directory of profiles there are none; those that cannot be read are not taken for none.
pub proof fn law_profiles_that_are_found(list: Vec<(String, crate::context::ContextConfig)>, i: int)
    ensures
        found_profiles(ProfilesFound::NoDirectory) == Some(Seq::<ProfileText>::empty()),
        found_profiles(ProfilesFound::Unreadable) is None,
        ({
            let found = found_profiles(ProfilesFound::Read(list));
            &&& found is Some
            &&& found->0.len() == list@.len()
            &&& 0 <= i < list@.len() ==> found->0[i].0 == list@[i].0@ && found->0[i].1 == list@[i].1@
            &&& has_default(found->0) <==> exists|j: int|
                0 <= j < list@.len() && (#[trigger] list@[j]).0@ == "default"@
        }),
{
    let found = found_profiles(ProfilesFound::Read(list))->0;
    if exists|j: int| 0 <= j < list@.len() && (#[trigger] list@[j]).0@ == "default"@ {
        let j = choose|j: int| 0 <= j < list@.len() && (#[trigger] list@[j]).0@ == "default"@;
        assert(found[j].0 == "default"@);
    }
    if has_default(found) {
        let j = choose|j: int| 0 <= j < found.len() && (#[trigger] found[j]).0 == "default"@;
        assert(list@[j].0@ == "default"@);
    }
}

/// Of each agent that was not written it is said why; and at the end, that not all were.
pub proof fn law_agents_are_written(
    agents: Seq<AgentText>,
    outcomes: Seq<WriteOutcome>,
    agent: AgentText,
    outcome: WriteOutcome,
    skipping: Seq<char>,
)
    requires
        outcomes.len() == agents.len(),
    ensures
        write_reports(agents.push(agent), outcomes.push(outcome), agents.len() as int + 1, skipping)
            == write_reports(agents, outcomes, agents.len() as int, skipping) + match outcome {
            WriteOutcome::Written => seq![],
            WriteOutcome::NotSerialized => seq![
                (Ink::Plain, false, "Failed to serialize profile "@ + agent.name + " for migration\n"@),
                (Ink::Plain, false, skipping),
            ],
            WriteOutcome::NoPath => seq![
                (
                    Ink::Plain,
                    false,
                    "Failed to persist profile "@ + agent.name
                        + " for migration: no path associated with new agent\n"@,
                ),
                (Ink::Plain, false, skipping),
            ],
            WriteOutcome::Failed(e) => seq![
                (Ink::Plain, false, "Failed to persist profile "@ + agent.name + " for migration: "@ + e@),
                (Ink::Plain, false, skipping),
            ],
        },
        any_failed(outcomes.push(outcome)) <==> any_failed(outcomes) || !(outcome is Written),
        !any_failed(seq![]),
        any_failed(outcomes) ==> persist_report(agents, outcomes, skipping) == write_reports(
            agents,
            outcomes,
            agents.len() as int,
            skipping,
        ).push((Ink::Plain, false, "One or more profile config has failed to migrate"@)),
        !any_failed(outcomes) ==> persist_report(agents, outcomes, skipping).len() == 0,
        malformed_report() == seq![
            (Ink::Plain, false, "Current default persona is malformed. Aborting migration.\n"@),
            (Ink::Plain, false, "Fix the default persona and try again"@),
        ],
{
    lemma_written_prefix(agents, outcomes, agent, outcome, agents.len() as int, skipping);
    let more = outcomes.push(outcome);
    if any_failed(outcomes) {
        let i = choose|i: int| 0 <= i < outcomes.len() && !(#[trigger] outcomes[i] is Written);
        assert(!(more[i] is Written));
    }
    if !(outcome is Written) {
        assert(!(more[outcomes.len() as int] is Written));
    }
    if any_failed(more) {
        let i = choose|i: int| 0 <= i < more.len() && !(#[trigger] more[i] is Written);
        if i < outcomes.len() {
            assert(!(outcomes[i] is Written));
        }
    }
    if !any_failed(outcomes) {
        lemma_all_written(agents, outcomes, agents.len() as int, skipping);
    }
}

proof fn lemma_all_written(agents: Seq<AgentText>, outcomes: Seq<WriteOutcome>, n: int, skipping: Seq<char>)
    requires
        0 <= n <= outcomes.len(),
        !any_failed(outcomes),
    ensures
        write_reports(agents, outcomes, n, skipping).len() == 0,
    decreases n,
{
    if n > 0 {
        assert(outcomes[n - 1] is Written);
        lemma_all_written(agents, outcomes, n - 1, skipping);
    }
}

proof fn lemma_written_prefix(
    agents: Seq<AgentText>,
    outcomes: Seq<WriteOutcome>,
    agent: AgentText,
    outcome: WriteOutcome,
    n: int,
    skipping: Seq<char>,
)
    requires
        0 <= n <= agents.len(),
        outcomes.len() == agents.len(),
    ensures
        write_reports(agents.push(agent), outcomes.push(outcome), n, skipping) == write_reports(
            agents,
            outcomes,
            n,
            skipping,
        ),
    decreases n,
{
    if n > 0 {
        lemma_written_prefix(agents, outcomes, agent, outcome, n - 1, skipping);
    }
}

/// A context that is not there is told by that by which it was looked for.
pub proof fn law_no_context(s: String)
    ensures
        no_context(ContextKey::Id(s)) == "Context with ID '"@ + s@ + "' not found"@,
        no_context(ContextKey::Name(s)) == "Context with name '"@ + s@ + "' not found"@,
        no_context(ContextKey::Path(s)) == "No context found with path '"@ + s@ + "'"@,
{
}

/// Taking in a text changes no background work; taking in a path adds one piece of it, which indexes
/// that path, and changes no other.
pub proof fn law_what_indexing_changes(
    was: Map<Seq<char>, OperationText>,
    name: Seq<char>,
    value: Seq<char>,
    path_exists: bool,
    milliseconds: u64,
    now: u64,
    holds: Map<Seq<char>, OperationText>,
    res: Addition,
    k: Seq<char>,
)
    requires
        is_indexing(was, name, value, path_exists, milliseconds, now, holds, res),
    ensures
        path_exists <==> res is Background,
        !path_exists ==> holds == was,
        !path_exists && value.len() <= 40 ==> res is Text && res->Text_description@ == "Text knowledge "@ + value
            + "..."@,
        path_exists ==> res->id@ == "op_"@ + decimal(milliseconds as nat),
        path_exists ==> holds.contains_key("op_"@ + decimal(milliseconds as nat)) && holds["op_"@ + decimal(
            milliseconds as nat,
        )].name == "Indexing "@ + name,
        k != "op_"@ + decimal(milliseconds as nat) ==> (holds.contains_key(k) <==> was.contains_key(k)) && (
        was.contains_key(k) ==> holds[k] == was[k]),
{
}

/// Tools that are built in have an origin of their own name; those of a server that of the server.
pub proof fn law_origin_names(s: String)
    ensures
        origin_name(ToolOrigin::Native) == "native"@,
        origin_name(ToolOrigin::McpServer(s)) == s@,
{
}

/// A change of the active agent leaves the others, and which one is active, as they were.
pub proof fn law_active_agent_changes(m: AgentsText, agent: AgentText, k: Seq<char>)
    ensures
        m.with_active(agent).agents.contains_key(m.active),
        m.with_active(agent).agents[m.active] == agent,
        k != m.active ==> (m.with_active(agent).agents.contains_key(k) <==> m.agents.contains_key(k)),
        k != m.active && m.agents.contains_key(k) ==> m.with_active(agent).agents[k] == m.agents[k],
        m.with_active(agent).active == m.active,
        m.with_active(agent).trust_all == m.trust_all,
{
}

/// A configuration without trusted commands has none; the listing of tools names those of the global
/// configuration and of the profile, and none without a context manager.
pub proof fn law_trusted_in_listing(
    config: ConfigText,
    list: Seq<TrustedText>,
    manager: ContextManager,
    l: ToolsListing,
)
    ensures
        config.trusted == Some(list) ==> config.trusted_list() == list,
        config.trusted is None ==> config.trusted_list().len() == 0,
        listed_trusted(None).len() == 0,
        listed_trusted(Some(&manager)) == combined_trusted(
            manager@.global.trusted_list(),
            manager@.profile.trusted_list(),
        ),
        listing_text(l, list).trusted == list,
        listing_text(l, list).dummy == l.dummy@,
        listing_text(l, list).labels == l.labels@,
{
}

} // verus!
