//! Making agents of the profiles of a context.

use vstd::prelude::*;

use crate::agents::{default_agent, Agent, AgentHooks, AgentHooksText, AgentText};
use crate::agent_load::agent_list;
use crate::context::{ConfigText, ContextConfig};
use crate::hook::{
    copy_hooks, hook_texts, inline_hook, lemma_hooks_insert, lemma_hooks_union, Hook, HookTexts,
    HookTrigger,
};
use crate::name_map::NameMap;
use crate::number::{decimal, size_text};
use crate::paths::{join_path, joined};
use crate::report::{inked, Ink, Report, SpanText};
use crate::text::{
    cat2, cat3, cat4, copy_list, extend_list, same_text, texts,
};

verus! {

/// The hooks of the first `n` commands, named by a prefix and a number.
pub open spec fn numbered(
    commands: Seq<Seq<char>>,
    n: int,
    prefix: Seq<char>,
    trigger: HookTrigger,
) -> HookTexts
    decreases n,
{
    if n <= 0 {
        Map::empty()
    } else {
        numbered(commands, n - 1, prefix, trigger).insert(
            prefix + decimal((n - 1) as nat),
            inline_hook(trigger, commands[n - 1]),
        )
    }
}

/// The hooks of an agent by name, or `None` where they are malformed.
pub open spec fn named_hooks(hooks: AgentHooksText, prefix: Seq<char>, trigger: HookTrigger) -> Option<
    HookTexts,
> {
    match hooks {
        AgentHooksText::Absent => Some(Map::empty()),
        AgentHooksText::Commands(c) => Some(numbered(c, c.len() as int, prefix, trigger)),
        AgentHooksText::Named(m) => Some(m),
        AgentHooksText::Malformed(_) => None,
    }
}

/// What hooks that may be absent hold.
pub open spec fn option_hooks(m: Option<NameMap<Hook>>) -> Option<HookTexts> {
    match m {
        Some(m) => Some(hook_texts(m@)),
        None => None,
    }
}

/// The hooks of an agent by name, or `None` where they are malformed.
pub fn hooks_by_name(hooks: &AgentHooks, prefix: &str, trigger: HookTrigger) -> (res: Option<NameMap<Hook>>)
    ensures
        option_hooks(res) == named_hooks(hooks@, prefix@, trigger),
{
    match hooks {
        AgentHooks::Malformed(_) => None,
        AgentHooks::Absent => {
            let none: NameMap<Hook> = NameMap::new();
            assert(hook_texts(none@) =~= Map::empty());
            Some(none)
        },
        AgentHooks::Named(m) => Some(copy_hooks(m)),
        AgentHooks::Commands(c) => {
            let ghost list = texts(c@);
            let mut out: NameMap<Hook> = NameMap::new();
            let mut i: usize = 0;
            assert(hook_texts(out@) =~= numbered(list, 0, prefix@, trigger));
            while i < c.len()
                invariant
                    i <= c@.len(),
                    list == texts(c@),
                    hook_texts(out@) == numbered(list, i as int, prefix@, trigger),
                decreases c@.len() - i,
            {
                let number = size_text(i);
                let name = cat2(prefix, number.as_str());
                let hook = Hook::new_inline_hook(trigger, String::from_str(c[i].as_str()));
                proof {
                    lemma_hooks_insert(out@, name@, hook);
                }
                out.insert(name, hook);
                i += 1;
            }
            Some(out)
        },
    }
}

/// The hooks of one moment.
pub open spec fn triggered(hooks: HookTexts, trigger: HookTrigger) -> HookTexts {
    Map::new(
        |k: Seq<char>| hooks.contains_key(k) && hooks[k].trigger == trigger,
        |k: Seq<char>| hooks[k],
    )
}

/// The hooks of one moment.
pub fn hooks_for(hooks: &NameMap<Hook>, trigger: HookTrigger) -> (res: NameMap<Hook>)
    ensures
        hook_texts(res@) == triggered(hook_texts(hooks@), trigger),
{
    let ghost all = hook_texts(hooks@);
    let ghost keys = hooks.keys();
    let mut out: NameMap<Hook> = NameMap::new();
    let mut i: usize = 0;
    proof {
        hooks.lemma_lookup();
    }
    while i < hooks.len()
        invariant
            i <= keys.len(),
            all == hook_texts(hooks@),
            keys == hooks.keys(),
            forall|k: Seq<char>| #[trigger] hooks@.contains_key(k) <==> keys.contains(k),
            forall|k: Seq<char>| #[trigger]
                out@.contains_key(k) <==> (exists|j: int| 0 <= j < i && #[trigger] keys[j] == k)
                    && all[k].trigger == trigger,
            forall|k: Seq<char>| #[trigger] out@.contains_key(k) ==> out@[k]@ == all[k],
        decreases keys.len() - i,
    {
        let name: &str = hooks.key_at(i);
        assert(keys.contains(name@));
        assert(hooks@.contains_key(name@));
        match hooks.get(name) {
            Some(hook) => {
                assert(all[name@] == hook@);
                if hook.trigger == trigger {
                    let ghost before = out@;
                    let copy = hook.clone();
                    out.insert(String::from_str(name), copy);
                }
            },
            None => {},
        }
        i += 1;
    }
    proof {
        let t = triggered(all, trigger);
        assert forall|k: Seq<char>| #[trigger] hook_texts(out@).contains_key(k) == t.contains_key(k) && (
        t.contains_key(k) ==> hook_texts(out@)[k] == t[k]) by {
            assert(out@.contains_key(k) <==> (exists|j: int| 0 <= j < i && #[trigger] keys[j] == k)
                && all[k].trigger == trigger);
            assert(hooks@.contains_key(k) <==> keys.contains(k));
        }
        assert(hook_texts(out@) =~= t);
    }
    out
}

/// What is carried over into the agents that are made of profiles.
#[derive(Debug)]
pub struct Carry {
    /// Hooks at the start of a conversation.
    pub create_hooks: NameMap<Hook>,
    /// Hooks with each prompt.
    pub prompt_hooks: NameMap<Hook>,
    /// Files.
    pub files: Vec<String>,
}

/// What such a carry holds.
pub struct CarryText {
    pub create: HookTexts,
    pub prompt: HookTexts,
    pub files: Seq<Seq<char>>,
}

impl View for Carry {
    type V = CarryText;

    open spec fn view(&self) -> CarryText {
        CarryText {
            create: hook_texts(self.create_hooks@),
            prompt: hook_texts(self.prompt_hooks@),
            files: texts(self.files@),
        }
    }
}

/// What is carried over of the global configuration, with the hooks of the default agent; `None`
/// where those are malformed.
pub open spec fn carried(agent: AgentText, config: Option<ConfigText>) -> Option<CarryText> {
    match config {
        None => Some(CarryText { create: Map::empty(), prompt: Map::empty(), files: seq![] }),
        Some(c) => match (
            named_hooks(agent.create_hooks, "start_hook_"@, HookTrigger::ConversationStart),
            named_hooks(agent.prompt_hooks, "per_prompt_hook_"@, HookTrigger::PerPrompt),
        ) {
            (Some(create), Some(prompt)) => Some(
                CarryText {
                    create: create.union_prefer_right(
                        triggered(c.hooks, HookTrigger::ConversationStart),
                    ),
                    prompt: prompt.union_prefer_right(triggered(c.hooks, HookTrigger::PerPrompt)),
                    files: c.paths,
                },
            ),
            _ => None,
        },
    }
}

/// The configuration that may be absent.
pub open spec fn option_config(c: Option<ContextConfig>) -> Option<ConfigText> {
    match c {
        Some(c) => Some(c@),
        None => None,
    }
}

fn absorb_hooks(hooks: &mut NameMap<Hook>, more: NameMap<Hook>)
    ensures
        hook_texts(final(hooks)@) == hook_texts(old(hooks)@).union_prefer_right(hook_texts(more@)),
{
    proof {
        lemma_hooks_union(hooks@, more@);
    }
    hooks.absorb(more);
}

/// The report where the hooks of the default agent are malformed.
pub open spec fn malformed_report() -> Seq<SpanText> {
    seq![
        inked(Ink::Plain, "Current default persona is malformed. Aborting migration.\n"@),
        inked(Ink::Plain, "Fix the default persona and try again"@),
    ]
}

/// Starts the migration of a global configuration: its files are added to the default agent, and
/// its files and hooks carried over. Where the hooks of the default agent are malformed the
/// migration ends with a report.
pub fn begin_migration(agent: &mut Agent, config: Option<ContextConfig>) -> (res: Result<Carry, Report>)
    ensures
        match carried(old(agent)@, option_config(config)) {
            Some(c) => res matches Ok(x) && x@ == c,
            None => res matches Err(r) && r@ == malformed_report(),
        },
        final(agent)@ == match option_config(config) {
            Some(c) => AgentText {
                included_files: old(agent)@.included_files + c.paths,
                ..old(agent)@
            },
            None => old(agent)@,
        },
{
    match config {
        None => {
            let res = Carry {
                create_hooks: NameMap::new(),
                prompt_hooks: NameMap::new(),
                files: Vec::new(),
            };
            assert(res@.create =~= Map::empty());
            assert(res@.prompt =~= Map::empty());
            assert(res@.files =~= seq![]);
            Ok(res)
        },
        Some(c) => {
            extend_list(&mut agent.included_files, &c.paths);
            let create = hooks_by_name(&agent.create_hooks, "start_hook_", HookTrigger::ConversationStart);
            let prompt = hooks_by_name(&agent.prompt_hooks, "per_prompt_hook_", HookTrigger::PerPrompt);
            match (create, prompt) {
                (Some(mut create), Some(mut prompt)) => {
                    absorb_hooks(&mut create, hooks_for(&c.hooks, HookTrigger::ConversationStart));
                    absorb_hooks(&mut prompt, hooks_for(&c.hooks, HookTrigger::PerPrompt));
                    Ok(Carry { create_hooks: create, prompt_hooks: prompt, files: copy_list(&c.paths) })
                },
                _ => {
                    let mut out = Report::new();
                    out.say(
                        Ink::Plain,
                        "Current default persona is malformed. Aborting migration.\n",
                    );
                    out.say(Ink::Plain, "Fix the default persona and try again");
                    assert(out@ =~= malformed_report());
                    Err(out)
                },
            }
        },
    }
}

/// What a request to migrate profiles carries over of the default agent; malformed hooks count as
/// none.
pub open spec fn carried_default(agent: AgentText) -> CarryText {
    CarryText {
        create: match named_hooks(
            agent.create_hooks,
            "start_hook_"@,
            HookTrigger::ConversationStart,
        ) {
            Some(m) => m,
            None => Map::empty(),
        },
        prompt: match named_hooks(agent.prompt_hooks, "per_prompt_hook_"@, HookTrigger::PerPrompt) {
            Some(m) => m,
            None => Map::empty(),
        },
        files: agent.included_files,
    }
}

/// What a request to migrate profiles carries over of the default agent.
pub fn carry_default(agent: &Agent) -> (res: Carry)
    ensures
        res@ == carried_default(agent@),
{
    let create_hooks = match hooks_by_name(
        &agent.create_hooks,
        "start_hook_",
        HookTrigger::ConversationStart,
    ) {
        Some(m) => m,
        None => NameMap::new(),
    };
    let prompt_hooks = match hooks_by_name(
        &agent.prompt_hooks,
        "per_prompt_hook_",
        HookTrigger::PerPrompt,
    ) {
        Some(m) => m,
        None => NameMap::new(),
    };
    let res = Carry { create_hooks, prompt_hooks, files: copy_list(&agent.included_files) };
    assert(res@.create =~= carried_default(agent@).create);
    assert(res@.prompt =~= carried_default(agent@).prompt);
    res
}

/// The configuration of a profile with what is carried over.
pub open spec fn with_carry(config: ConfigText, carry: CarryText) -> ConfigText {
    ConfigText {
        paths: config.paths + carry.files,
        hooks: config.hooks.union_prefer_right(carry.create).union_prefer_right(carry.prompt),
        trusted: config.trusted,
    }
}

/// Adds what is carried over to the configuration of a profile.
pub fn combine_profile(config: &mut ContextConfig, carry: &Carry)
    ensures
        final(config)@ == with_carry(old(config)@, carry@),
{
    extend_list(&mut config.paths, &carry.files);
    absorb_hooks(&mut config.hooks, copy_hooks(&carry.create_hooks));
    absorb_hooks(&mut config.hooks, copy_hooks(&carry.prompt_hooks));
}

/// The agent that a profile becomes.
pub open spec fn migrated_agent(name: Seq<char>, config: ConfigText, dir: Seq<char>) -> AgentText {
    AgentText {
        name,
        path: Some(joined(dir, name + ".json"@)),
        included_files: config.paths,
        prompt_hooks: AgentHooksText::Named(triggered(config.hooks, HookTrigger::PerPrompt)),
        create_hooks: AgentHooksText::Named(triggered(config.hooks, HookTrigger::ConversationStart)),
        ..default_agent()
    }
}

/// Profiles with their names.
pub type ProfileText = (Seq<char>, ConfigText);

/// What profiles hold.
pub open spec fn profile_list(v: Seq<(String, ContextConfig)>) -> Seq<ProfileText> {
    Seq::new(v.len(), |i: int| (v[i].0@, v[i].1@))
}

/// What is carried over after the first `n` profiles: that of the default profile is added.
pub open spec fn merged_carry(profiles: Seq<ProfileText>, n: int, carry: CarryText) -> CarryText
    decreases n,
{
    if n <= 0 {
        carry
    } else {
        let c = merged_carry(profiles, n - 1, carry);
        let p = profiles[n - 1];
        if p.0 == "default"@ {
            CarryText {
                create: c.create.union_prefer_right(
                    triggered(p.1.hooks, HookTrigger::ConversationStart),
                ),
                prompt: c.prompt.union_prefer_right(triggered(p.1.hooks, HookTrigger::PerPrompt)),
                files: c.files + p.1.paths,
            }
        } else {
            c
        }
    }
}

/// The agents that the first `n` profiles become; the default profile becomes none.
pub open spec fn migrated_agents(profiles: Seq<ProfileText>, n: int, dir: Seq<char>) -> Seq<AgentText>
    decreases n,
{
    if n <= 0 {
        seq![]
    } else {
        let rest = migrated_agents(profiles, n - 1, dir);
        if profiles[n - 1].0 == "default"@ {
            rest
        } else {
            rest.push(migrated_agent(profiles[n - 1].0, profiles[n - 1].1, dir))
        }
    }
}

/// Whether the default profile is among the profiles.
pub open spec fn has_default(profiles: Seq<ProfileText>) -> bool {
    exists|i: int| 0 <= i < profiles.len() && (#[trigger] profiles[i]).0 == "default"@
}

/// Makes agents of profiles. What the default profile holds is added to `carry` instead; whether
/// there was one is told.
pub fn migrate_profiles(profiles: &Vec<(String, ContextConfig)>, carry: &mut Carry, dir: &str) -> (res: (
    Vec<Agent>,
    bool,
))
    ensures
        agent_list(res.0@) == migrated_agents(profile_list(profiles@), profiles@.len() as int, dir@),
        final(carry)@ == merged_carry(
            profile_list(profiles@),
            profiles@.len() as int,
            old(carry)@,
        ),
        res.1 == has_default(profile_list(profiles@)),
{
    let ghost list = profile_list(profiles@);
    let ghost start = carry@;
    let mut out: Vec<Agent> = Vec::new();
    let mut found = false;
    let mut i: usize = 0;
    assert(agent_list(out@) =~= migrated_agents(list, 0, dir@));
    while i < profiles.len()
        invariant
            i <= profiles@.len(),
            list == profile_list(profiles@),
            agent_list(out@) == migrated_agents(list, i as int, dir@),
            carry@ == merged_carry(list, i as int, start),
            found <==> exists|j: int| 0 <= j < i && (#[trigger] list[j]).0 == "default"@,
        decreases profiles@.len() - i,
    {
        let name: &str = profiles[i].0.as_str();
        let config = &profiles[i].1;
        assert(list[i as int] == (name@, config@));
        let prompt = hooks_for(&config.hooks, HookTrigger::PerPrompt);
        let create = hooks_for(&config.hooks, HookTrigger::ConversationStart);
        if same_text(name, "default") {
            found = true;
            absorb_hooks(&mut carry.prompt_hooks, prompt);
            absorb_hooks(&mut carry.create_hooks, create);
            extend_list(&mut carry.files, &config.paths);
        } else {
            let file = cat2(name, ".json");
            let mut agent = Agent::default();
            agent.name = String::from_str(name);
            agent.path = Some(join_path(dir, file.as_str()));
            agent.included_files = copy_list(&config.paths);
            agent.prompt_hooks = AgentHooks::Named(prompt);
            agent.create_hooks = AgentHooks::Named(create);
            let ghost before = agent_list(out@);
            let ghost text = agent@;
            out.push(agent);
            assert(agent_list(out@) =~= before.push(text));
        }
        i += 1;
    }
    (out, found)
}

/// What came of writing the file of an agent.
#[derive(Debug, PartialEq)]
pub enum WriteOutcome {
    /// It was written.
    Written,
    /// The agent could not be turned into text.
    NotSerialized,
    /// The agent has no file.
    NoPath,
    /// It could not be written, for this reason.
    Failed(String),
}

/// What is said of an agent that was not written; `skipping` ends it.
pub open spec fn write_report(name: Seq<char>, outcome: WriteOutcome, skipping: Seq<char>) -> Seq<SpanText> {
    match outcome {
        WriteOutcome::Written => seq![],
        WriteOutcome::NotSerialized => seq![
            inked(Ink::Plain, "Failed to serialize profile "@ + name + " for migration\n"@),
            inked(Ink::Plain, skipping),
        ],
        WriteOutcome::NoPath => seq![
            inked(
                Ink::Plain,
                "Failed to persist profile "@ + name
                    + " for migration: no path associated with new agent\n"@,
            ),
            inked(Ink::Plain, skipping),
        ],
        WriteOutcome::Failed(e) => seq![
            inked(Ink::Plain, "Failed to persist profile "@ + name + " for migration: "@ + e@),
            inked(Ink::Plain, skipping),
        ],
    }
}

/// What is said of the first `n` agents.
pub open spec fn write_reports(
    agents: Seq<AgentText>,
    outcomes: Seq<WriteOutcome>,
    n: int,
    skipping: Seq<char>,
) -> Seq<SpanText>
    decreases n,
{
    if n <= 0 {
        seq![]
    } else {
        write_reports(agents, outcomes, n - 1, skipping) + write_report(
            agents[n - 1].name,
            outcomes[n - 1],
            skipping,
        )
    }
}

/// Whether one of the agents was not written.
pub open spec fn any_failed(outcomes: Seq<WriteOutcome>) -> bool {
    exists|i: int| 0 <= i < outcomes.len() && !(#[trigger] outcomes[i] is Written)
}

/// The report on writing the files of new agents.
pub open spec fn persist_report(
    agents: Seq<AgentText>,
    outcomes: Seq<WriteOutcome>,
    skipping: Seq<char>,
) -> Seq<SpanText> {
    write_reports(agents, outcomes, agents.len() as int, skipping) + if any_failed(outcomes) {
        seq![inked(Ink::Plain, "One or more profile config has failed to migrate"@)]
    } else {
        seq![]
    }
}

/// The report on writing the files of new agents, and whether one was not written.
pub fn report_writes(agents: &Vec<Agent>, outcomes: &Vec<WriteOutcome>, skipping: &str) -> (res: (Report, bool))
    requires
        agents@.len() == outcomes@.len(),
    ensures
        res.0@ == persist_report(agent_list(agents@), outcomes@, skipping@),
        res.1 == any_failed(outcomes@),
{
    let ghost list = agent_list(agents@);
    let mut out = Report::new();
    let mut failed = false;
    let mut i: usize = 0;
    assert(out@ =~= write_reports(list, outcomes@, 0, skipping@));
    while i < agents.len()
        invariant
            i <= agents@.len(),
            agents@.len() == outcomes@.len(),
            list == agent_list(agents@),
            out@ == write_reports(list, outcomes@, i as int, skipping@),
            failed <==> exists|j: int| 0 <= j < i && !(#[trigger] outcomes@[j] is Written),
        decreases agents@.len() - i,
    {
        let name: &str = agents[i].name.as_str();
        let ghost before = out@;
        assert(list[i as int].name == name@);
        match &outcomes[i] {
            WriteOutcome::Written => {},
            WriteOutcome::NotSerialized => {
                failed = true;
                let text = cat3("Failed to serialize profile ", name, " for migration\n");
                out.say(Ink::Plain, text.as_str());
                out.say(Ink::Plain, skipping);
            },
            WriteOutcome::NoPath => {
                failed = true;
                let text = cat3(
                    "Failed to persist profile ",
                    name,
                    " for migration: no path associated with new agent\n",
                );
                out.say(Ink::Plain, text.as_str());
                out.say(Ink::Plain, skipping);
            },
            WriteOutcome::Failed(e) => {
                failed = true;
                let text = cat4("Failed to persist profile ", name, " for migration: ", e.as_str());
                out.say(Ink::Plain, text.as_str());
                out.say(Ink::Plain, skipping);
            },
        }
        assert(out@ =~= before + write_report(name@, outcomes@[i as int], skipping@));
        i += 1;
    }
    if failed {
        out.say(Ink::Plain, "One or more profile config has failed to migrate");
    }
    assert(out@ =~= persist_report(list, outcomes@, skipping@));
    (out, failed)
}

/// The default agent with all that was carried over, where that is anything.
pub open spec fn finished_default(agent: AgentText, carry: CarryText) -> Option<AgentText> {
    if carry.create.dom() =~= Set::empty() && carry.prompt.dom() =~= Set::empty() && carry.files.len()
        == 0 {
        None
    } else {
        Some(
            AgentText {
                included_files: agent.included_files + carry.files,
                create_hooks: AgentHooksText::Named(carry.create),
                prompt_hooks: AgentHooksText::Named(carry.prompt),
                ..agent
            },
        )
    }
}

proof fn lemma_no_hooks(m: NameMap<Hook>)
    ensures
        m.keys().len() == 0 <==> hook_texts(m@).dom() =~= Set::<Seq<char>>::empty(),
{
    m.lemma_lookup();
    if m.keys().len() > 0 {
        let k = m.keys()[0];
        assert(m.keys().contains(k));
        assert(m@.contains_key(k));
        assert(hook_texts(m@).dom().contains(k));
    } else {
        assert forall|k: Seq<char>| !hook_texts(m@).dom().contains(k) by {
            assert(m@.contains_key(k) <==> m.keys().contains(k));
        }
    }
}

/// Ends the migration of a global configuration: what was carried over is added to the default
/// agent. Its file is to be written then, and the global configuration put aside.
pub fn finish_migration(agent: &mut Agent, carry: Carry) -> (res: bool)
    ensures
        match finished_default(old(agent)@, carry@) {
            Some(a) => res && final(agent)@ == a,
            None => !res && final(agent)@ == old(agent)@,
        },
{
    proof {
        lemma_no_hooks(carry.create_hooks);
        lemma_no_hooks(carry.prompt_hooks);
    }
    if carry.create_hooks.is_empty() && carry.prompt_hooks.is_empty() && carry.files.len() == 0 {
        return false;
    }
    extend_list(&mut agent.included_files, &carry.files);
    agent.create_hooks = AgentHooks::Named(carry.create_hooks);
    agent.prompt_hooks = AgentHooks::Named(carry.prompt_hooks);
    true
}

/// Each hook belongs to exactly one moment, and none is lost by telling them apart.
pub proof fn law_hooks_split(hooks: HookTexts, name: Seq<char>)
    ensures
        hooks.contains_key(name) <==> triggered(hooks, HookTrigger::ConversationStart).contains_key(name)
            || triggered(hooks, HookTrigger::PerPrompt).contains_key(name),
        !(triggered(hooks, HookTrigger::ConversationStart).contains_key(name) && triggered(
            hooks,
            HookTrigger::PerPrompt,
        ).contains_key(name)),
{
    if hooks.contains_key(name) {
        match hooks[name].trigger {
            HookTrigger::ConversationStart => {},
            HookTrigger::PerPrompt => {},
        }
    }
}

/// What was global reaches every agent that is made of a profile: all files, and each hook, under
/// its moment, that no other carried hook of the same name replaces.
pub proof fn law_global_reaches_agents(
    name: Seq<char>,
    config: ConfigText,
    carry: CarryText,
    dir: Seq<char>,
    hook: Seq<char>,
)
    ensures
        ({
            let agent = migrated_agent(name, with_carry(config, carry), dir);
            &&& forall|i: int|
                0 <= i < carry.files.len() ==> agent.included_files.contains(#[trigger] carry.files[i])
            &&& carry.prompt.contains_key(hook) && carry.prompt[hook].trigger == HookTrigger::PerPrompt ==> (
            agent.prompt_hooks matches AgentHooksText::Named(m) && m.contains_key(hook) && m[hook]
                == carry.prompt[hook])
            &&& carry.create.contains_key(hook) && !carry.prompt.contains_key(hook)
                && carry.create[hook].trigger == HookTrigger::ConversationStart ==> (
            agent.create_hooks matches AgentHooksText::Named(m) && m.contains_key(hook) && m[hook]
                == carry.create[hook])
        }),
{
    let agent = migrated_agent(name, with_carry(config, carry), dir);
    assert forall|i: int| 0 <= i < carry.files.len() implies agent.included_files.contains(
        #[trigger] carry.files[i],
    ) by {
        assert(agent.included_files[config.paths.len() + i] == carry.files[i]);
    }
}

/// Every profile but the default one becomes an agent of its name.
pub proof fn law_profiles_become_agents(profiles: Seq<ProfileText>, n: int, dir: Seq<char>, i: int)
    requires
        0 <= i < n <= profiles.len(),
        profiles[i].0 != "default"@,
    ensures
        migrated_agents(profiles, n, dir).contains(migrated_agent(profiles[i].0, profiles[i].1, dir)),
    decreases n,
{
    let now = migrated_agents(profiles, n, dir);
    let rest = migrated_agents(profiles, n - 1, dir);
    let agent = migrated_agent(profiles[i].0, profiles[i].1, dir);
    if i < n - 1 {
        law_profiles_become_agents(profiles, n - 1, dir, i);
        let j = choose|j: int| 0 <= j < rest.len() && rest[j] == agent;
        assert(now[j] == agent);
    } else {
        assert(now[rest.len() as int] == agent);
    }
}

/// Profiles with what is carried over.
pub open spec fn profiles_with_carry(profiles: Seq<ProfileText>, carry: CarryText) -> Seq<ProfileText> {
    Seq::new(profiles.len(), |i: int| (profiles[i].0, with_carry(profiles[i].1, carry)))
}

/// Adds what is carried over to the configuration of each profile.
fn combine_profiles(list: &Vec<(String, ContextConfig)>, carry: &Carry) -> (res: Vec<
    (String, ContextConfig),
>)
    ensures
        profile_list(res@) == profiles_with_carry(profile_list(list@), carry@),
{
    let ghost start = profile_list(list@);
    let ghost c = carry@;
    let mut combined: Vec<(String, ContextConfig)> = Vec::new();
    let mut i: usize = 0;
    while i < list.len()
        invariant
            i <= list@.len(),
            start == profile_list(list@),
            c == carry@,
            combined@.len() == i,
            forall|j: int|
                0 <= j < i ==> #[trigger] profile_list(combined@)[j] == profiles_with_carry(
                    start,
                    c,
                )[j],
        decreases list@.len() - i,
    {
        let mut one = list[i].1.clone();
        combine_profile(&mut one, carry);
        let ghost before = combined@;
        combined.push((list[i].0.clone(), one));
        assert forall|j: int| 0 <= j < i + 1 implies #[trigger] profile_list(combined@)[j]
            == profiles_with_carry(start, c)[j] by {
            if j < i {
                assert(profile_list(combined@)[j] == profile_list(before)[j]);
            } else {
                assert(start[i as int] == (list@[i as int].0@, list@[i as int].1@));
            }
        }
        i += 1;
    }
    assert(profile_list(combined@) =~= profiles_with_carry(start, c));
    combined
}

/// Plans the migration of profiles on request: the files and hooks of the default agent are added
/// to every profile, and each profile becomes an agent; what the default profile holds is to
/// be added to the default agent instead, and whether there is one is told.
pub fn migrate_on_request(
    agent: &Agent,
    profiles: &Vec<(String, ContextConfig)>,
    dir: &str,
) -> (res: (Vec<Agent>, bool, Carry))
    ensures
        ({
            let carry = carried_default(agent@);
            let list = profiles_with_carry(profile_list(profiles@), carry);
            &&& agent_list(res.0@) == migrated_agents(list, list.len() as int, dir@)
            &&& res.1 == has_default(list)
            &&& res.2@ == merged_carry(list, list.len() as int, carry)
        }),
{
    let mut carry = carry_default(agent);
    let combined = combine_profiles(profiles, &carry);
    let (agents, has_default_profile) = migrate_profiles(&combined, &mut carry, dir);
    (agents, has_default_profile, carry)
}

/// What was found of the profiles.
#[derive(Debug)]
pub enum ProfilesFound {
    /// There is no place for them.
    NoDirectory,
    /// They cannot all be read.
    Unreadable,
    /// These.
    Read(Vec<(String, ContextConfig)>),
}

/// The profiles that are to be migrated, or `None` where they cannot be read.
pub open spec fn found_profiles(found: ProfilesFound) -> Option<Seq<ProfileText>> {
    match found {
        ProfilesFound::NoDirectory => Some(seq![]),
        ProfilesFound::Unreadable => None,
        ProfilesFound::Read(list) => Some(profile_list(list@)),
    }
}

/// How a migration goes on.
#[derive(Debug)]
pub enum Migration {
    /// It ends with this report, because the default agent is malformed.
    Malformed(Report),
    /// It ends, because the profiles cannot be read.
    Unreadable,
    /// The files of these agents are to be written; then `carry` is to be added to the default
    /// agent; and then, where `put_aside` says so, the global configuration is put aside.
    Planned { agents: Vec<Agent>, carry: Carry, put_aside: bool },
}

/// Plans the migration of the global configuration and of profiles. The files of the global
/// configuration are added to the default agent, its files and hooks to every profile, and each
/// profile becomes an agent; what the default profile holds is to be added to the default agent
/// instead. A global configuration that was migrated is put aside, whether there are profiles or
/// not.
pub fn migrate_context(
    agent: &mut Agent,
    config: Option<ContextConfig>,
    profiles: &ProfilesFound,
    dir: &str,
) -> (res: Migration)
    ensures
        final(agent)@ == match option_config(config) {
            Some(c) => AgentText {
                included_files: old(agent)@.included_files + c.paths,
                ..old(agent)@
            },
            None => old(agent)@,
        },
        match carried(old(agent)@, option_config(config)) {
            None => res matches Migration::Malformed(r) && r@ == malformed_report(),
            Some(carry) => match found_profiles(*profiles) {
                None => res is Unreadable,
                Some(p) => {
                    let list = profiles_with_carry(p, carry);
                    &&& res matches Migration::Planned { agents, carry: more, put_aside }
                    &&& agent_list(agents@) == migrated_agents(list, list.len() as int, dir@)
                    &&& more@ == merged_carry(list, list.len() as int, carry)
                    &&& put_aside == (config is Some)
                },
            },
        },
{
    let put_aside = config.is_some();
    let mut carry = match begin_migration(agent, config) {
        Ok(carry) => carry,
        Err(report) => {
            return Migration::Malformed(report);
        },
    };
    match profiles {
        ProfilesFound::Unreadable => Migration::Unreadable,
        ProfilesFound::NoDirectory => {
            let agents: Vec<Agent> = Vec::new();
            let ghost list = profiles_with_carry(Seq::<ProfileText>::empty(), carry@);
            assert(list.len() == 0);
            assert(agent_list(agents@) =~= migrated_agents(list, 0, dir@));
            Migration::Planned { agents, carry, put_aside }
        },
        ProfilesFound::Read(list) => {
            let combined = combine_profiles(list, &carry);
            let (agents, _) = migrate_profiles(&combined, &mut carry, dir);
            Migration::Planned { agents, carry, put_aside }
        },
    }
}

/// The files of the global configuration reach every agent that a migration makes, and the
/// default agent.
pub proof fn law_global_files_reach_all(
    agent: AgentText,
    config: ConfigText,
    profiles: Seq<ProfileText>,
    dir: Seq<char>,
    file: Seq<char>,
    i: int,
)
    requires
        carried(agent, Some(config)) is Some,
        config.paths.contains(file),
        0 <= i < profiles.len(),
        profiles[i].0 != "default"@,
    ensures
        ({
            let carry = carried(agent, Some(config))->0;
            let list = profiles_with_carry(profiles, carry);
            let made = migrated_agent(list[i].0, list[i].1, dir);
            &&& migrated_agents(list, list.len() as int, dir).contains(made)
            &&& made.name == profiles[i].0
            &&& made.included_files.contains(file)
            &&& (agent.included_files + config.paths).contains(file)
        }),
{
    let carry = carried(agent, Some(config))->0;
    let list = profiles_with_carry(profiles, carry);
    let made = migrated_agent(list[i].0, list[i].1, dir);
    law_profiles_become_agents(list, list.len() as int, dir, i);
    let k = choose|k: int| 0 <= k < config.paths.len() && config.paths[k] == file;
    assert(made.included_files[profiles[i].1.paths.len() + k] == file);
    assert((agent.included_files + config.paths)[agent.included_files.len() + k] == file);
}

/// A global configuration moves into the default agent, whether there are profiles or not, unless
/// the hooks of that agent are malformed: after a migration without profiles the agent keeps its
/// files, and has those of the configuration and each of its hooks under its moment. Only a
/// configuration without files and hooks, for an agent without hooks, leaves nothing to be written.
pub proof fn law_global_moves_into_default(agent: AgentText, config: ConfigText, hook: Seq<char>)
    requires
        !(agent.create_hooks is Malformed),
        !(agent.prompt_hooks is Malformed),
    ensures
        carried(agent, Some(config)) is Some,
        ({
            let carry = carried(agent, Some(config))->0;
            let begun = AgentText { included_files: agent.included_files + config.paths, ..agent };
            match finished_default(begun, carry) {
                Some(after) => {
                    &&& after.included_files == agent.included_files + config.paths + config.paths
                    &&& config.hooks.contains_key(hook) ==> match config.hooks[hook].trigger {
                        HookTrigger::ConversationStart => after.create_hooks matches AgentHooksText::Named(
                            m,
                        ) && m.contains_key(hook) && m[hook] == config.hooks[hook],
                        HookTrigger::PerPrompt => after.prompt_hooks matches AgentHooksText::Named(m)
                            && m.contains_key(hook) && m[hook] == config.hooks[hook],
                    }
                },
                None => config.paths.len() == 0 && !config.hooks.contains_key(hook),
            }
        }),
{
    let carry = carried(agent, Some(config))->0;
    if config.hooks.contains_key(hook) {
        match config.hooks[hook].trigger {
            HookTrigger::ConversationStart => {
                assert(carry.create.dom().contains(hook));
            },
            HookTrigger::PerPrompt => {
                assert(carry.prompt.dom().contains(hook));
            },
        }
    }
}

} // verus!
