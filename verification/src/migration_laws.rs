//! What becomes of profiles and of the global configuration when agents are made of them.

use vstd::prelude::*;

use crate::agents::{default_agent, AgentHooksText, AgentText};
use crate::context::ConfigText;
use crate::hook::{HookText, HookTrigger};
use crate::migration::{
    carried, carried_default, finished_default, merged_carry, migrated_agent, migrated_agents,
    named_hooks, numbered, profiles_with_carry, with_carry, CarryText, ProfileText,
};
use crate::number::{decimal, digit};
use crate::profile_command::default_after;

verus! {

/// The hook of a name among those of a profile and those that are carried over: a carried hook with
/// each prompt counts most, then one at the start of a conversation, then that of the profile.
pub open spec fn hook_of(config: ConfigText, carry: CarryText, h: Seq<char>) -> Option<HookText> {
    if carry.prompt.contains_key(h) {
        Some(carry.prompt[h])
    } else if carry.create.contains_key(h) {
        Some(carry.create[h])
    } else if config.hooks.contains_key(h) {
        Some(config.hooks[h])
    } else {
        None
    }
}

/// Whether hooks hold, under a name, exactly a hook that may be absent, where it belongs to them
/// by its moment.
pub open spec fn holds_exactly(
    hooks: AgentHooksText,
    h: Seq<char>,
    hook: Option<HookText>,
    trigger: HookTrigger,
) -> bool {
    &&& hooks matches AgentHooksText::Named(m)
    &&& m.contains_key(h) <==> (hook is Some && hook->0.trigger == trigger)
    &&& m.contains_key(h) ==> Some(m[h]) == hook
}

/// The agent that is made of a profile has its name and a file of that name, the files of the
/// profile and then those that are carried over, and every hook of the profile and of what is
/// carried over under its moment; all else is as in the default agent.
pub proof fn law_agent_of_profile(
    name: Seq<char>,
    config: ConfigText,
    carry: CarryText,
    dir: Seq<char>,
    h: Seq<char>,
)
    requires
        dir.len() > 0,
        dir.last() != '/',
        name.len() > 0,
        name[0] != '/',
    ensures
        ({
            let agent = migrated_agent(name, with_carry(config, carry), dir);
            &&& agent.name == name
            &&& agent.path == Some(dir + "/"@ + (name + ".json"@))
            &&& agent.included_files == config.paths + carry.files
            &&& holds_exactly(agent.prompt_hooks, h, hook_of(config, carry, h), HookTrigger::PerPrompt)
            &&& holds_exactly(
                agent.create_hooks,
                h,
                hook_of(config, carry, h),
                HookTrigger::ConversationStart,
            )
            &&& agent.description == default_agent().description
            &&& agent.prompt == default_agent().prompt
            &&& agent.tools == default_agent().tools
            &&& agent.allowed_tools == default_agent().allowed_tools
            &&& agent.mcp_servers == default_agent().mcp_servers
        }),
{
    let file = name + ".json"@;
    assert(file[0] == name[0]);
}

/// A hook of a profile that nothing of the same name replaces reaches the agent that is made of
/// it, under its moment and as it was.
pub proof fn law_own_hooks_survive(
    name: Seq<char>,
    config: ConfigText,
    carry: CarryText,
    dir: Seq<char>,
    h: Seq<char>,
)
    requires
        config.hooks.contains_key(h),
        !carry.create.contains_key(h),
        !carry.prompt.contains_key(h),
    ensures
        ({
            let agent = migrated_agent(name, with_carry(config, carry), dir);
            match config.hooks[h].trigger {
                HookTrigger::ConversationStart => agent.create_hooks matches AgentHooksText::Named(m)
                    && m.contains_key(h) && m[h] == config.hooks[h],
                HookTrigger::PerPrompt => agent.prompt_hooks matches AgentHooksText::Named(m)
                    && m.contains_key(h) && m[h] == config.hooks[h],
            }
        }),
{
}

/// One more profile makes one more agent, after those before it; the default profile makes none.
pub proof fn law_one_more_profile(profiles: Seq<ProfileText>, p: ProfileText, dir: Seq<char>)
    ensures
        migrated_agents(seq![], 0, dir).len() == 0,
        migrated_agents(profiles.push(p), profiles.len() as int + 1, dir) == if p.0 == "default"@ {
            migrated_agents(profiles, profiles.len() as int, dir)
        } else {
            migrated_agents(profiles, profiles.len() as int, dir).push(migrated_agent(p.0, p.1, dir))
        },
{
    lemma_agents_prefix(profiles, p, profiles.len() as int, dir);
}

/// Every profile is combined with what is carried over, under its name.
pub proof fn law_all_profiles_are_combined(profiles: Seq<ProfileText>, carry: CarryText, i: int)
    requires
        0 <= i < profiles.len(),
    ensures
        profiles_with_carry(profiles, carry).len() == profiles.len(),
        profiles_with_carry(profiles, carry)[i].0 == profiles[i].0,
        profiles_with_carry(profiles, carry)[i].1.paths == profiles[i].1.paths + carry.files,
        profiles_with_carry(profiles, carry)[i].1 == with_carry(profiles[i].1, carry),
{
}

proof fn lemma_agents_prefix(profiles: Seq<ProfileText>, p: ProfileText, n: int, dir: Seq<char>)
    requires
        0 <= n <= profiles.len(),
    ensures
        migrated_agents(profiles.push(p), n, dir) == migrated_agents(profiles, n, dir),
    decreases n,
{
    if n > 0 {
        lemma_agents_prefix(profiles, p, n - 1, dir);
    }
}

proof fn lemma_merged_prefix(profiles: Seq<ProfileText>, p: ProfileText, n: int, carry: CarryText)
    requires
        0 <= n <= profiles.len(),
    ensures
        merged_carry(profiles.push(p), n, carry) == merged_carry(profiles, n, carry),
    decreases n,
{
    if n > 0 {
        lemma_merged_prefix(profiles, p, n - 1, carry);
    }
}

/// What is carried over to the default agent grows by what the default profile holds: its files come
/// after the others, and each of its hooks counts under its moment. No other profile adds to it.
pub proof fn law_default_profile_is_merged(
    profiles: Seq<ProfileText>,
    p: ProfileText,
    carry: CarryText,
    h: Seq<char>,
)
    ensures
        ({
            let was = merged_carry(profiles, profiles.len() as int, carry);
            let now = merged_carry(profiles.push(p), profiles.len() as int + 1, carry);
            if p.0 == "default"@ {
                &&& now.files == was.files + p.1.paths
                &&& now.create.contains_key(h) <==> was.create.contains_key(h) || (
                p.1.hooks.contains_key(h) && p.1.hooks[h].trigger == HookTrigger::ConversationStart)
                &&& now.create.contains_key(h) ==> now.create[h] == if p.1.hooks.contains_key(h)
                    && p.1.hooks[h].trigger == HookTrigger::ConversationStart {
                    p.1.hooks[h]
                } else {
                    was.create[h]
                }
                &&& now.prompt.contains_key(h) <==> was.prompt.contains_key(h) || (
                p.1.hooks.contains_key(h) && p.1.hooks[h].trigger == HookTrigger::PerPrompt)
                &&& now.prompt.contains_key(h) ==> now.prompt[h] == if p.1.hooks.contains_key(h)
                    && p.1.hooks[h].trigger == HookTrigger::PerPrompt {
                    p.1.hooks[h]
                } else {
                    was.prompt[h]
                }
            } else {
                now == was
            }
        }),
        merged_carry(seq![], 0, carry) == carry,
{
    lemma_merged_prefix(profiles, p, profiles.len() as int, carry);
}

/// What is carried over of a global configuration: all its files, and its hooks under their moments,
/// which count before those of the default agent; without one nothing is.
pub proof fn law_what_is_carried(agent: AgentText, config: ConfigText, h: Seq<char>)
    ensures
        carried(agent, None) matches Some(c) && c.files.len() == 0 && !c.create.contains_key(h)
            && !c.prompt.contains_key(h),
        agent.create_hooks is Malformed || agent.prompt_hooks is Malformed ==> carried(
            agent,
            Some(config),
        ) is None,
        agent.create_hooks is Absent && agent.prompt_hooks is Absent ==> {
            &&& carried(agent, Some(config)) matches Some(c)
            &&& c.files == config.paths
            &&& holds_exactly(
                AgentHooksText::Named(c.create),
                h,
                if config.hooks.contains_key(h) {
                    Some(config.hooks[h])
                } else {
                    None
                },
                HookTrigger::ConversationStart,
            )
            &&& holds_exactly(
                AgentHooksText::Named(c.prompt),
                h,
                if config.hooks.contains_key(h) {
                    Some(config.hooks[h])
                } else {
                    None
                },
                HookTrigger::PerPrompt,
            )
        },
        agent.create_hooks is Named && agent.prompt_hooks is Named ==> {
            &&& carried(agent, Some(config)) matches Some(c)
            &&& c.files == config.paths
            &&& !config.hooks.contains_key(h) ==> {
                &&& c.create.contains_key(h) <==> agent.create_hooks->Named_0.contains_key(h)
                &&& c.create.contains_key(h) ==> c.create[h] == agent.create_hooks->Named_0[h]
                &&& c.prompt.contains_key(h) <==> agent.prompt_hooks->Named_0.contains_key(h)
                &&& c.prompt.contains_key(h) ==> c.prompt[h] == agent.prompt_hooks->Named_0[h]
            }
            &&& config.hooks.contains_key(h) ==> match config.hooks[h].trigger {
                HookTrigger::ConversationStart => c.create.contains_key(h) && c.create[h]
                    == config.hooks[h],
                HookTrigger::PerPrompt => c.prompt.contains_key(h) && c.prompt[h] == config.hooks[h],
            }
        },
{
}

/// A number is written in one way only.
pub proof fn lemma_decimal_injective(m: nat, n: nat)
    requires
        decimal(m) == decimal(n),
    ensures
        m == n,
    decreases m,
{
    lemma_decimal_length(m);
    lemma_decimal_length(n);
    assert(decimal(m).last() == digit(m % 10));
    assert(decimal(n).last() == digit(n % 10));
    if m < 10 {
        assert(decimal(m).len() == 1);
    } else {
        if n >= 10 {
            assert(decimal(m).drop_last() =~= decimal(m / 10));
            assert(decimal(n).drop_last() =~= decimal(n / 10));
            lemma_decimal_injective(m / 10, n / 10);
        }
    }
}

proof fn lemma_decimal_length(n: nat)
    ensures
        n < 10 <==> decimal(n).len() == 1,
        decimal(n).len() > 0,
    decreases n,
{
    if n >= 10 {
        lemma_decimal_length(n / 10);
    }
}

/// Commands that an agent lists without names become hooks of its moment, each named by a prefix
/// and its number from zero on, and there are no others; an agent without hooks has none.
pub proof fn law_listed_commands(
    commands: Seq<Seq<char>>,
    prefix: Seq<char>,
    trigger: HookTrigger,
    i: int,
    h: Seq<char>,
)
    ensures
        ({
            &&& named_hooks(AgentHooksText::Commands(commands), prefix, trigger) matches Some(m)
            &&& 0 <= i < commands.len() ==> m.contains_key(prefix + decimal(i as nat)) && m[prefix + decimal(
                i as nat,
            )].command == commands[i] && m[prefix + decimal(i as nat)].trigger == trigger && !m[prefix
                + decimal(i as nat)].disabled
            &&& m.contains_key(h) ==> exists|j: int|
                0 <= j < commands.len() && h == prefix + #[trigger] decimal(j as nat)
        }),
        named_hooks(AgentHooksText::Absent, prefix, trigger) matches Some(m) && !m.contains_key(h),
{
    lemma_numbered(commands, commands.len() as int, prefix, trigger, i, h);
}

proof fn lemma_numbered(
    commands: Seq<Seq<char>>,
    n: int,
    prefix: Seq<char>,
    trigger: HookTrigger,
    i: int,
    h: Seq<char>,
)
    requires
        0 <= n <= commands.len(),
    ensures
        ({
            let m = numbered(commands, n, prefix, trigger);
            &&& 0 <= i < n ==> m.contains_key(prefix + decimal(i as nat)) && m[prefix + decimal(i as nat)].command
                == commands[i] && m[prefix + decimal(i as nat)].trigger == trigger && !m[prefix + decimal(
                i as nat,
            )].disabled
            &&& m.contains_key(h) ==> exists|j: int|
                0 <= j < n && h == prefix + #[trigger] decimal(j as nat)
        }),
    decreases n,
{
    if n > 0 {
        lemma_numbered(commands, n - 1, prefix, trigger, i, h);
        let name = prefix + decimal((n - 1) as nat);
        if 0 <= i < n - 1 {
            let other = prefix + decimal(i as nat);
            if other == name {
                assert(other.skip(prefix.len() as int) =~= decimal(i as nat));
                assert(name.skip(prefix.len() as int) =~= decimal((n - 1) as nat));
                lemma_decimal_injective(i as nat, (n - 1) as nat);
            }
        }
        if h == name {
            assert(h == prefix + decimal((n - 1) as nat));
        }
    }
}

/// A migration that carries nothing over leaves the default agent alone; else all files are added
/// behind its own, and its hooks are those that were carried over.
pub proof fn law_default_agent_is_finished(agent: AgentText, carry: CarryText, h: Seq<char>)
    ensures
        carry.files.len() > 0 || carry.create.contains_key(h) || carry.prompt.contains_key(h) ==> {
            &&& finished_default(agent, carry) matches Some(now)
            &&& now.included_files == agent.included_files + carry.files
            &&& now.create_hooks == AgentHooksText::Named(carry.create)
            &&& now.prompt_hooks == AgentHooksText::Named(carry.prompt)
            &&& now.name == agent.name
            &&& now.path == agent.path
            &&& now.tools == agent.tools
            &&& now.allowed_tools == agent.allowed_tools
            &&& now.description == agent.description
            &&& now.prompt == agent.prompt
        },
        carry.files.len() == 0 && carry.create == Map::<Seq<char>, HookText>::empty() && carry.prompt == Map::<
            Seq<char>,
            HookText,
        >::empty() ==> finished_default(agent, carry) is None,
{
    if carry.create.contains_key(h) {
        assert(carry.create.dom().contains(h));
    }
    if carry.prompt.contains_key(h) {
        assert(carry.prompt.dom().contains(h));
    }
}

/// A migration on request carries the files of the default agent over, and its hooks where they are
/// not malformed; it keeps the hooks of that agent unless there is a default profile.
pub proof fn law_migration_on_request(agent: AgentText, carry: CarryText, h: Seq<char>)
    ensures
        carried_default(agent).files == agent.included_files,
        agent.create_hooks matches AgentHooksText::Named(m) ==> carried_default(agent).create == m,
        agent.prompt_hooks matches AgentHooksText::Named(m) ==> carried_default(agent).prompt == m,
        agent.create_hooks is Absent || agent.create_hooks is Malformed ==> !carried_default(
            agent,
        ).create.contains_key(h),
        agent.prompt_hooks is Absent || agent.prompt_hooks is Malformed ==> !carried_default(
            agent,
        ).prompt.contains_key(h),
        default_after(agent, carry, false).create_hooks == agent.create_hooks,
        default_after(agent, carry, false).prompt_hooks == agent.prompt_hooks,
        default_after(agent, carry, true).create_hooks == AgentHooksText::Named(carry.create),
        default_after(agent, carry, true).prompt_hooks == AgentHooksText::Named(carry.prompt),
        default_after(agent, carry, true).included_files == carry.files,
        default_after(agent, carry, false).included_files == carry.files,
        default_after(agent, carry, true).name == agent.name,
        default_after(agent, carry, true).path == agent.path,
        default_after(agent, carry, true).allowed_tools == agent.allowed_tools,
{
}

/// The default agent has the built-in tools, of which reading files and reporting issues run without
/// confirmation, and the usual files of a project.
pub proof fn law_default_agent()
    ensures
        default_agent().name == "default"@,
        default_agent().tools == seq![
            "fs_read"@,
            "fs_write"@,
            "execute_bash"@,
            "use_aws"@,
            "report_issue"@,
            "thinking"@,
        ],
        default_agent().allowed_tools == seq!["fs_read"@, "report_issue"@],
        default_agent().included_files == seq!["AmazonQ.md"@, "README.md"@, ".amazonq/rules/**/*.md"@],
        default_agent().create_hooks is Absent,
        default_agent().prompt_hooks is Absent,
        default_agent().path is None,
        default_agent().prompt is None,
{
}

} // verus!
