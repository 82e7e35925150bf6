//! The `/tools` command: which tools are trusted, and which commands are.

use vstd::prelude::*;

use crate::context::{
    danger_reason, danger_reason_text, failure, has_trusted, save_failure, save_failure_text,
    trusted_command_error, with_trusted, without_trusted, ConfigText, ContextManager,
    TrustedChange,
};
use crate::dangerous_patterns::{check_all_dangerous_patterns, dangerous_match};
use crate::number::{decimal, size_text};
use crate::report::{bold, inked, Ink, Report, SpanText};
use crate::split::{is_blank, join, join_list, trim};
use crate::text::{
    among, cat2, cat3, cat4, cat5, copy_option, lemma_texts_push, list_contains, option_text,
    same_text, select, texts,
};
use crate::trusted_commands::{TrustedCommand, TrustedCommandsConfig, TrustedText};

verus! {

/// What `/tools` is asked to do.
#[derive(Debug, PartialEq)]
pub struct ToolsArgs {
    /// The subcommand; without one the tools are listed.
    pub subcommand: Option<ToolsSubcommand>,
}

/// What `/tools` can do.
#[allow(inconsistent_fields)]
#[derive(Debug, PartialEq)]
pub enum ToolsSubcommand {
    /// Show the input schema of all tools.
    Schema,
    /// Trust tools for the session.
    Trust { tool_names: Vec<String> },
    /// Ask again before tools run.
    Untrust { tool_names: Vec<String> },
    /// Trust all tools.
    TrustAll,
    /// Give all tools their default permission.
    Reset,
    /// Give one tool its default permission.
    ResetSingle { tool_name: String },
    /// Trust commands.
    Allow { subcommand: AllowSubcommand },
    /// Stop trusting commands.
    Remove { subcommand: RemoveSubcommand },
}

/// Which commands are to be trusted.
#[derive(Debug, PartialEq)]
pub enum AllowSubcommand {
    /// Commands of the shell.
    ExecuteBash {
        /// Their patterns.
        command: Vec<String>,
        /// What they are for.
        description: Option<String>,
        /// Whether they are trusted in all profiles.
        global: bool,
    },
}

/// Which commands are not to be trusted any more.
#[derive(Debug, PartialEq)]
pub enum RemoveSubcommand {
    /// Commands of the shell.
    ExecuteBash {
        /// Their patterns.
        command: Vec<String>,
        /// Whether they were trusted in all profiles.
        global: bool,
        /// Whether all of them are meant.
        all: bool,
    },
}

/// Why a pattern is not accepted, or `None` for one that is.
pub open spec fn pattern_error(pattern: Seq<char>) -> Option<Seq<char>> {
    if trim(pattern).len() == 0 {
        Some("Command pattern cannot be empty"@)
    } else {
        match dangerous_match(pattern) {
            Some(m) => Some(
                "Command pattern contains potentially dangerous sequence '"@ + m.0 + "' ("@
                    + danger_reason(m.1)
                    + ") and cannot be trusted. Consider using more specific patterns."@,
            ),
            None => if pattern == "*"@ {
                Some(
                    "Pattern '*' is too broad and would trust all commands. Use more specific patterns."@,
                )
            } else {
                None
            },
        }
    }
}

/// Whether a pattern is accepted, and why not.
pub fn validate_command_pattern(pattern: &str) -> (res: Result<(), String>)
    ensures
        failure(res) == pattern_error(pattern@),
{
    if is_blank(pattern) {
        return Err(String::from_str("Command pattern cannot be empty"));
    }
    if let Some(m) = check_all_dangerous_patterns(pattern) {
        return Err(
            cat5(
                "Command pattern contains potentially dangerous sequence '",
                m.pattern,
                "' (",
                danger_reason_text(m.pattern_type),
                ") and cannot be trusted. Consider using more specific patterns.",
            ),
        );
    }
    if same_text(pattern, "*") {
        return Err(
            String::from_str(
                "Pattern '*' is too broad and would trust all commands. Use more specific patterns.",
            ),
        );
    }
    Ok(())
}

/// A change of the permissions of tools.
#[derive(Debug, PartialEq)]
pub enum PermissionChange {
    /// The tool runs without confirmation.
    Trust(String),
    /// The tool asks for confirmation.
    Untrust(String),
    /// All tools have their default permission.
    Reset,
    /// The tool has its default permission.
    ResetTool(String),
}

/// What a change of permissions says.
pub enum PermissionText {
    Trust(Seq<char>),
    Untrust(Seq<char>),
    Reset,
    ResetTool(Seq<char>),
}

impl View for PermissionChange {
    type V = PermissionText;

    open spec fn view(&self) -> PermissionText {
        match self {
            PermissionChange::Trust(t) => PermissionText::Trust(t@),
            PermissionChange::Untrust(t) => PermissionText::Untrust(t@),
            PermissionChange::Reset => PermissionText::Reset,
            PermissionChange::ResetTool(t) => PermissionText::ResetTool(t@),
        }
    }
}

/// What a list of changes says.
pub open spec fn change_list(v: Seq<PermissionChange>) -> Seq<PermissionText> {
    Seq::new(v.len(), |i: int| v[i]@)
}

/// A change for each of the tools.
pub open spec fn trust_each(names: Seq<Seq<char>>) -> Seq<PermissionText> {
    Seq::new(names.len(), |i: int| PermissionText::Trust(names[i]))
}

/// A change for each of the tools.
pub open spec fn untrust_each(names: Seq<Seq<char>>) -> Seq<PermissionText> {
    Seq::new(names.len(), |i: int| PermissionText::Untrust(names[i]))
}

fn each(names: &Vec<String>, trust: bool) -> (res: Vec<PermissionChange>)
    ensures
        change_list(res@) == if trust {
            trust_each(texts(names@))
        } else {
            untrust_each(texts(names@))
        },
{
    let mut out: Vec<PermissionChange> = Vec::new();
    let mut i: usize = 0;
    while i < names.len()
        invariant
            i <= names@.len(),
            out@.len() == i,
            forall|j: int|
                0 <= j < i ==> (#[trigger] out@[j])@ == if trust {
                    PermissionText::Trust(names@[j]@)
                } else {
                    PermissionText::Untrust(names@[j]@)
                },
        decreases names@.len() - i,
    {
        let name = String::from_str(names[i].as_str());
        if trust {
            out.push(PermissionChange::Trust(name));
        } else {
            out.push(PermissionChange::Untrust(name));
        }
        i += 1;
    }
    assert(change_list(out@) =~= if trust {
        trust_each(texts(names@))
    } else {
        untrust_each(texts(names@))
    });
    out
}

/// What the session knows of its tools.
#[derive(Debug)]
pub struct ToolsSession {
    /// The names of all tools.
    pub tool_names: Vec<String>,
    /// The names of the tools with a permission of their own.
    pub configured: Vec<String>,
    /// Whether all tools are trusted.
    pub trust_all: bool,
    /// The text that tells that all tools are trusted.
    pub trust_all_text: String,
    /// The input schema of the tools as text, or why there is none.
    pub schema: Result<String, String>,
    /// Whether there is a context manager.
    pub has_context: bool,
}

/// What comes of a subcommand.
#[derive(Debug)]
pub enum ToolsAction {
    /// The listing of all tools is printed.
    List(Report),
    /// Permissions change, and a report is printed.
    Permissions(Vec<PermissionChange>, Report),
    /// Patterns are to be trusted, one after the other.
    Allow(Vec<String>, AllowRun),
    /// Patterns are to be taken out, one after the other.
    Remove { patterns: Vec<String>, global: bool },
    /// All patterns are to be taken out.
    Clear { global: bool },
}

/// The names in a list, quoted.
pub open spec fn quoted_names(names: Seq<Seq<char>>) -> Seq<char> {
    join(names, "', '"@)
}

/// The report on tools that do not exist.
pub open spec fn missing_tools(names: Seq<Seq<char>>, what: Seq<char>) -> Seq<SpanText> {
    if names.len() == 0 {
        seq![]
    } else {
        seq![
            inked(Ink::Red, what + quoted_names(names) + "', "@),
            inked(
                Ink::Red,
                if names.len() > 1 {
                    "they do not exist."@
                } else {
                    "it does not exist."@
                },
            ),
        ]
    }
}

/// How the tools are named at the start of a sentence.
pub open spec fn subject(names: Seq<Seq<char>>) -> Seq<char> {
    if names.len() > 1 {
        "Tools '"@ + quoted_names(names) + "' are "@
    } else {
        "Tool '"@ + names[0] + "' is "@
    }
}

/// The report on tools that are now trusted.
pub open spec fn trusted_tools(names: Seq<Seq<char>>) -> Seq<SpanText> {
    if names.len() == 0 {
        seq![]
    } else {
        seq![
            inked(Ink::Green, subject(names)),
            inked(Ink::Green, "now trusted. I will "@),
            bold(Ink::Green, "not"@),
            inked(
                Ink::Green,
                " ask for confirmation before running "@ + (if names.len() > 1 {
                    "these tools"@
                } else {
                    "this tool"@
                }) + "."@,
            ),
            inked(Ink::Green, "\n"@),
        ]
    }
}

/// The report on tools that ask again.
pub open spec fn untrusted_tools(names: Seq<Seq<char>>) -> Seq<SpanText> {
    if names.len() == 0 {
        seq![]
    } else {
        seq![
            inked(Ink::Green, subject(names)),
            inked(Ink::Green, "set to per-request confirmation.\n"@),
        ]
    }
}

fn say_missing(out: &mut Report, names: &Vec<String>, what: &str)
    ensures
        final(out)@ == old(out)@ + missing_tools(texts(names@), what@),
{
    if names.len() > 0 {
        let list = join_list(names, "', '");
        let text = cat3(what, list.as_str(), "', ");
        out.say(Ink::Red, text.as_str());
        if names.len() > 1 {
            out.say(Ink::Red, "they do not exist.");
        } else {
            out.say(Ink::Red, "it does not exist.");
        }
    }
    assert(out@ =~= old(out)@ + missing_tools(texts(names@), what@));
}

fn subject_text(names: &Vec<String>) -> (res: String)
    requires
        names@.len() > 0,
    ensures
        res@ == subject(texts(names@)),
{
    if names.len() > 1 {
        let list = join_list(names, "', '");
        cat3("Tools '", list.as_str(), "' are ")
    } else {
        cat3("Tool '", names[0].as_str(), "' is ")
    }
}

fn say_trusted(out: &mut Report, names: &Vec<String>)
    ensures
        final(out)@ == old(out)@ + trusted_tools(texts(names@)),
{
    if names.len() > 0 {
        let text = subject_text(names);
        out.say(Ink::Green, text.as_str());
        out.say(Ink::Green, "now trusted. I will ");
        out.say_bold(Ink::Green, "not");
        let end = if names.len() > 1 {
            cat3(" ask for confirmation before running ", "these tools", ".")
        } else {
            cat3(" ask for confirmation before running ", "this tool", ".")
        };
        out.say(Ink::Green, end.as_str());
        out.say(Ink::Green, "\n");
    }
    assert(out@ =~= old(out)@ + trusted_tools(texts(names@)));
}

fn say_untrusted(out: &mut Report, names: &Vec<String>)
    ensures
        final(out)@ == old(out)@ + untrusted_tools(texts(names@)),
{
    if names.len() > 0 {
        let text = subject_text(names);
        out.say(Ink::Green, text.as_str());
        out.say(Ink::Green, "set to per-request confirmation.\n");
    }
    assert(out@ =~= old(out)@ + untrusted_tools(texts(names@)));
}

/// The scope of a configuration.
pub open spec fn scope(global: bool) -> Seq<char> {
    if global {
        "global"@
    } else {
        "profile"@
    }
}

/// The scope of a configuration.
pub fn scope_text(global: bool) -> (res: &'static str)
    ensures
        res@ == scope(global),
{
    if global {
        "global"
    } else {
        "profile"
    }
}

/// The ending of a plural.
pub open spec fn plural(n: nat) -> Seq<char> {
    if n == 1 {
        ""@
    } else {
        "s"@
    }
}

/// The ending of a plural.
pub fn plural_text(n: usize) -> (res: &'static str)
    ensures
        res@ == plural(n as nat),
{
    if n == 1 {
        ""
    } else {
        "s"
    }
}

/// A line for each of the patterns.
pub open spec fn bullets(list: Seq<Seq<char>>) -> Seq<SpanText> {
    Seq::new(list.len(), |i: int| inked(Ink::Plain, "\n  • \""@ + list[i] + "\""@))
}

fn say_bullets(out: &mut Report, list: &Vec<String>)
    ensures
        final(out)@ == old(out)@ + bullets(texts(list@)),
{
    let ghost start = out@;
    let ghost all = bullets(texts(list@));
    let mut i: usize = 0;
    assert(start + all.take(0) =~= start);
    while i < list.len()
        invariant
            i <= list@.len(),
            all == bullets(texts(list@)),
            out@ == start + all.take(i as int),
        decreases list@.len() - i,
    {
        let text = cat3("\n  • \"", list[i].as_str(), "\"");
        out.say(Ink::Plain, text.as_str());
        assert(all[i as int] == inked(Ink::Plain, text@));
        assert(start + all.take(i as int + 1) =~= (start + all.take(i as int)).push(all[i as int]));
        i += 1;
    }
    assert(all.take(i as int) =~= all);
}

/// Pairs of texts.
pub open spec fn pair_texts(v: Seq<(String, String)>) -> Seq<(Seq<char>, Seq<char>)> {
    Seq::new(v.len(), |i: int| (v[i].0@, v[i].1@))
}

/// A line for each of the patterns with what went wrong.
pub open spec fn error_bullets(list: Seq<(Seq<char>, Seq<char>)>) -> Seq<SpanText> {
    Seq::new(
        list.len(),
        |i: int| inked(Ink::Plain, "\n  • \""@ + list[i].0 + "\": "@ + list[i].1),
    )
}

fn say_errors(out: &mut Report, list: &Vec<(String, String)>)
    ensures
        final(out)@ == old(out)@ + error_bullets(pair_texts(list@)),
{
    let ghost start = out@;
    let ghost all = error_bullets(pair_texts(list@));
    let mut i: usize = 0;
    assert(start + all.take(0) =~= start);
    while i < list.len()
        invariant
            i <= list@.len(),
            all == error_bullets(pair_texts(list@)),
            out@ == start + all.take(i as int),
        decreases list@.len() - i,
    {
        let text = cat4("\n  • \"", list[i].0.as_str(), "\": ", list[i].1.as_str());
        out.say(Ink::Plain, text.as_str());
        assert(all[i as int] == inked(Ink::Plain, text@));
        assert(start + all.take(i as int + 1) =~= (start + all.take(i as int)).push(all[i as int]));
        i += 1;
    }
    assert(all.take(i as int) =~= all);
}

/// How far trusting patterns has come.
#[derive(Debug)]
pub struct AllowRun {
    /// What the patterns are for.
    pub description: Option<String>,
    /// Whether they are trusted in all profiles.
    pub global: bool,
    /// The patterns that are trusted and saved.
    pub successful: Vec<String>,
    /// The patterns that are not, each with the reason.
    pub failed: Vec<(String, String)>,
}

/// What such a run holds.
pub struct AllowText {
    pub description: Option<Seq<char>>,
    pub global: bool,
    pub successful: Seq<Seq<char>>,
    pub failed: Seq<(Seq<char>, Seq<char>)>,
}

impl View for AllowRun {
    type V = AllowText;

    open spec fn view(&self) -> AllowText {
        AllowText {
            description: option_text(self.description),
            global: self.global,
            successful: texts(self.successful@),
            failed: pair_texts(self.failed@),
        }
    }
}

impl AllowText {
    /// The run with one more pattern that is not trusted.
    pub open spec fn with_failed(self, pattern: Seq<char>, error: Seq<char>) -> AllowText {
        AllowText { failed: self.failed.push((pattern, error)), ..self }
    }

    /// What the run reports.
    pub open spec fn report(self) -> Seq<SpanText> {
        let good = if self.successful.len() == 0 {
            seq![]
        } else {
            seq![
                inked(
                    Ink::Green,
                    "\nSuccessfully added "@ + decimal(self.successful.len()) + " trusted command pattern"@
                        + (plural(self.successful.len()) + " to "@ + scope(self.global)
                        + " configuration:"@),
                ),
            ] + bullets(self.successful) + (match self.description {
                Some(d) => seq![inked(Ink::DarkGrey, "\nDescription: "@ + d)],
                None => seq![],
            }) + seq![
                inked(
                    Ink::DarkGrey,
                    "\nCommands matching these patterns will not require confirmation before execution."@,
                ),
            ]
        };
        let bad = if self.failed.len() == 0 {
            seq![]
        } else {
            seq![
                inked(
                    Ink::Red,
                    "\nFailed to add "@ + decimal(self.failed.len()) + " command pattern"@ + plural(
                        self.failed.len(),
                    ) + ":"@,
                ),
            ] + error_bullets(self.failed)
        };
        good + bad
    }
}

impl AllowRun {
    fn fail(&mut self, pattern: &str, error: String)
        ensures
            final(self)@ == old(self)@.with_failed(pattern@, error@),
    {
        let ghost e = error@;
        self.failed.push((String::from_str(pattern), error));
        assert(pair_texts(self.failed@) =~= pair_texts(old(self).failed@).push((pattern@, e)));
    }

    /// Trusts one more pattern. Where it is trusted the change is to be saved, and what came of
    /// that told to [`AllowRun::saved`].
    pub fn add_pattern(&mut self, manager: &mut ContextManager, pattern: &str) -> (res: Option<TrustedChange>)
        ensures
            match pattern_error(pattern@) {
                Some(e) => {
                    &&& res is None
                    &&& final(manager)@ == old(manager)@
                    &&& final(self)@ == old(self)@.with_failed(pattern@, e)
                },
                None => match trusted_command_error(pattern@) {
                    Some(e) => {
                        &&& res is None
                        &&& final(manager)@ == old(manager)@
                        &&& final(self)@ == old(self)@.with_failed(pattern@, e)
                    },
                    None => {
                        let config = old(manager)@.config(old(self)@.global);
                        &&& res == Some(
                            if has_trusted(config.trusted_list(), pattern@) {
                                TrustedChange::Updated
                            } else {
                                TrustedChange::Added
                            },
                        )
                        &&& final(manager)@ == old(manager)@.with_config(
                            old(self)@.global,
                            (ConfigText {
                                trusted: Some(
                                    with_trusted(
                                        config.trusted_list(),
                                        (pattern@, old(self)@.description),
                                    ),
                                ),
                                ..config
                            }),
                        )
                        &&& final(self)@ == old(self)@
                    },
                },
            },
    {
        if let Err(e) = validate_command_pattern(pattern) {
            self.fail(pattern, e);
            return None;
        }
        let one = TrustedCommand {
            command: String::from_str(pattern),
            description: copy_option(&self.description),
        };
        match manager.add_trusted_command(one, self.global) {
            Ok(change) => Some(change),
            Err(e) => {
                self.fail(pattern, e);
                None
            },
        }
    }

    /// Takes note of what came of saving the change for a pattern.
    pub fn saved(&mut self, pattern: &str, change: TrustedChange, outcome: Result<(), String>)
        ensures
            final(self)@ == match failure(outcome) {
                None => AllowText { successful: old(self)@.successful.push(pattern@), ..old(self)@ },
                Some(e) => old(self)@.with_failed(pattern@, save_failure(change, pattern@, e)),
            },
    {
        match outcome {
            Ok(_) => {
                let one = String::from_str(pattern);
                proof {
                    lemma_texts_push(self.successful@, one);
                }
                self.successful.push(one);
            },
            Err(e) => {
                let text = save_failure_text(change, pattern, e.as_str());
                self.fail(pattern, text);
            },
        }
    }

    /// The report on the run.
    pub fn report(&self) -> (res: Report)
        ensures
            res@ == self@.report(),
    {
        let mut out = Report::new();
        if self.successful.len() > 0 {
            let n = size_text(self.successful.len());
            let end = cat4(
                plural_text(self.successful.len()),
                " to ",
                scope_text(self.global),
                " configuration:",
            );
            let text = cat4(
                "\nSuccessfully added ",
                n.as_str(),
                " trusted command pattern",
                end.as_str(),
            );
            out.say(Ink::Green, text.as_str());
            say_bullets(&mut out, &self.successful);
            if let Some(d) = &self.description {
                let text = cat2("\nDescription: ", d.as_str());
                out.say(Ink::DarkGrey, text.as_str());
            }
            out.say(
                Ink::DarkGrey,
                "\nCommands matching these patterns will not require confirmation before execution.",
            );
        }
        if self.failed.len() > 0 {
            let n = size_text(self.failed.len());
            let text = cat5(
                "\nFailed to add ",
                n.as_str(),
                " command pattern",
                plural_text(self.failed.len()),
                ":",
            );
            out.say(Ink::Red, text.as_str());
            say_errors(&mut out, &self.failed);
        }
        assert(out@ =~= self@.report());
        out
    }
}

/// The patterns of trusted commands.
pub open spec fn patterns_of(list: Seq<TrustedText>) -> Seq<Seq<char>> {
    Seq::new(list.len(), |i: int| list[i].0)
}

fn pattern_list(config: &TrustedCommandsConfig) -> (res: Vec<String>)
    ensures
        texts(res@) == patterns_of(config@),
{
    let mut out: Vec<String> = Vec::new();
    let mut i: usize = 0;
    while i < config.trusted_commands.len()
        invariant
            i <= config.trusted_commands@.len(),
            out@.len() == i,
            forall|j: int| 0 <= j < i ==> (#[trigger] out@[j])@ == config.trusted_commands@[j].command@,
        decreases config.trusted_commands@.len() - i,
    {
        out.push(String::from_str(config.trusted_commands[i].command.as_str()));
        i += 1;
    }
    assert(texts(out@) =~= patterns_of(config@));
    out
}

/// How far taking patterns out has come.
#[derive(Debug)]
pub struct RemoveRun {
    /// Whether they were trusted in all profiles.
    pub global: bool,
    /// The patterns that were trusted at the start.
    pub known: Vec<String>,
    /// The patterns that were taken out.
    pub removed: Vec<String>,
    /// The patterns that could not be taken out, each with the reason.
    pub failed: Vec<(String, String)>,
    /// The patterns that were not trusted.
    pub missing: Vec<String>,
}

/// What such a run holds.
pub struct RemoveText {
    pub global: bool,
    pub known: Seq<Seq<char>>,
    pub removed: Seq<Seq<char>>,
    pub failed: Seq<(Seq<char>, Seq<char>)>,
    pub missing: Seq<Seq<char>>,
}

impl View for RemoveRun {
    type V = RemoveText;

    open spec fn view(&self) -> RemoveText {
        RemoveText {
            global: self.global,
            known: texts(self.known@),
            removed: texts(self.removed@),
            failed: pair_texts(self.failed@),
            missing: texts(self.missing@),
        }
    }
}

/// Lines for the first `n` trusted commands, with their descriptions.
pub open spec fn available(list: Seq<TrustedText>, n: int) -> Seq<SpanText>
    decreases n,
{
    if n <= 0 {
        seq![]
    } else {
        let line = available(list, n - 1).push(
            inked(Ink::Plain, "\n  • \""@ + list[n - 1].0 + "\""@),
        );
        match list[n - 1].1 {
            Some(d) => line.push(inked(Ink::DarkGrey, " - "@ + d)),
            None => line,
        }
    }
}

fn say_available(out: &mut Report, config: &TrustedCommandsConfig)
    ensures
        final(out)@ == old(out)@ + available(config@, config@.len() as int),
{
    let ghost start = out@;
    let ghost list = config@;
    let mut i: usize = 0;
    assert(start + available(list, 0) =~= start);
    while i < config.trusted_commands.len()
        invariant
            i <= config.trusted_commands@.len(),
            list == config@,
            out@ == start + available(list, i as int),
        decreases config.trusted_commands@.len() - i,
    {
        let one = &config.trusted_commands[i];
        assert(list[i as int] == one@);
        let text = cat3("\n  • \"", one.command.as_str(), "\"");
        out.say(Ink::Plain, text.as_str());
        if let Some(d) = &one.description {
            let text = cat2(" - ", d.as_str());
            out.say(Ink::DarkGrey, text.as_str());
        }
        i += 1;
        assert(out@ =~= start + available(list, i as int));
    }
}

impl RemoveText {
    /// What the run reports, where `left` are the trusted commands afterwards.
    pub open spec fn report(self, left: Seq<TrustedText>) -> Seq<SpanText> {
        let good = if self.removed.len() == 0 {
            seq![]
        } else {
            seq![
                inked(
                    Ink::Green,
                    "\nSuccessfully removed "@ + decimal(self.removed.len()) + " trusted command pattern"@
                        + (plural(self.removed.len()) + " from "@ + scope(self.global)
                        + " configuration:"@),
                ),
            ] + bullets(self.removed)
        };
        let bad = if self.failed.len() == 0 {
            seq![]
        } else {
            seq![
                inked(
                    Ink::Red,
                    "\nFailed to remove "@ + decimal(self.failed.len()) + " command pattern"@ + plural(
                        self.failed.len(),
                    ) + ":"@,
                ),
            ] + error_bullets(self.failed)
        };
        let unknown = if self.missing.len() == 0 {
            seq![]
        } else {
            seq![
                inked(
                    Ink::Red,
                    "\n"@ + decimal(self.missing.len()) + " command pattern"@ + (plural(
                        self.missing.len(),
                    ) + " not found in "@ + scope(self.global) + " configuration:"@),
                ),
            ] + bullets(self.missing) + (if left.len() == 0 {
                seq![
                    inked(
                        Ink::Plain,
                        "\nNo trusted commands configured in "@ + scope(self.global) + " scope."@,
                    ),
                ]
            } else {
                seq![
                    inked(
                        Ink::Plain,
                        "\nAvailable trusted commands in "@ + scope(self.global) + " scope:"@,
                    ),
                ] + available(left, left.len() as int)
            })
        };
        good + bad + unknown
    }
}

impl RemoveRun {
    /// The start of a run.
    pub fn new(manager: &ContextManager, global: bool) -> (res: Self)
        ensures
            res@ == (RemoveText {
                global,
                known: patterns_of(manager@.config(global).trusted_list()),
                removed: seq![],
                failed: seq![],
                missing: seq![],
            }),
    {
        let current = manager.get_trusted_commands(global);
        let known = pattern_list(&current);
        let res = RemoveRun {
            global,
            known,
            removed: Vec::new(),
            failed: Vec::new(),
            missing: Vec::new(),
        };
        assert(res@.removed =~= seq![]);
        assert(res@.failed =~= seq![]);
        assert(res@.missing =~= seq![]);
        res
    }

    fn fail(&mut self, pattern: &str, error: String)
        ensures
            final(self)@ == (RemoveText {
                failed: old(self)@.failed.push((pattern@, error@)),
                ..old(self)@
            }),
    {
        let ghost e = error@;
        self.failed.push((String::from_str(pattern), error));
        assert(pair_texts(self.failed@) =~= pair_texts(old(self).failed@).push((pattern@, e)));
    }

    /// Takes one more pattern out. Where that is done the change is to be saved, and what came of
    /// it told to [`RemoveRun::saved`].
    pub fn remove_pattern(&mut self, manager: &mut ContextManager, pattern: &str) -> (res: bool)
        ensures
            ({
                let config = old(manager)@.config(old(self)@.global);
                if !old(self)@.known.contains(pattern@) {
                    &&& !res
                    &&& final(manager)@ == old(manager)@
                    &&& final(self)@ == (RemoveText {
                        missing: old(self)@.missing.push(pattern@),
                        ..old(self)@
                    })
                } else {
                    match config.trusted {
                        None => {
                            &&& !res
                            &&& final(manager)@ == old(manager)@
                            &&& final(self)@ == (RemoveText {
                                failed: old(self)@.failed.push(
                                    (pattern@, "No trusted commands configuration found"@),
                                ),
                                ..old(self)@
                            })
                        },
                        Some(list) => if has_trusted(list, pattern@) {
                            &&& res
                            &&& final(manager)@ == old(manager)@.with_config(
                                old(self)@.global,
                                (ConfigText { trusted: Some(without_trusted(list, pattern@)), ..config }),
                            )
                            &&& final(self)@ == old(self)@
                        } else {
                            &&& !res
                            &&& final(manager)@ == old(manager)@
                            &&& final(self)@ == (RemoveText {
                                failed: old(self)@.failed.push(
                                    (pattern@, "Trusted command pattern '"@ + pattern@ + "' not found"@),
                                ),
                                ..old(self)@
                            })
                        },
                    }
                }
            }),
    {
        if !list_contains(&self.known, pattern) {
            let one = String::from_str(pattern);
            proof {
                lemma_texts_push(self.missing@, one);
            }
            self.missing.push(one);
            return false;
        }
        match manager.remove_trusted_command(pattern, self.global) {
            Ok(_) => true,
            Err(e) => {
                self.fail(pattern, e);
                false
            },
        }
    }

    /// Takes note of what came of saving the change for a pattern.
    pub fn saved(&mut self, pattern: &str, outcome: Result<(), String>)
        ensures
            final(self)@ == match failure(outcome) {
                None => RemoveText { removed: old(self)@.removed.push(pattern@), ..old(self)@ },
                Some(e) => RemoveText { failed: old(self)@.failed.push((pattern@, e)), ..old(self)@ },
            },
    {
        match outcome {
            Ok(_) => {
                let one = String::from_str(pattern);
                proof {
                    lemma_texts_push(self.removed@, one);
                }
                self.removed.push(one);
            },
            Err(e) => {
                self.fail(pattern, e);
            },
        }
    }

    /// The report on the run.
    pub fn report(&self, manager: &ContextManager) -> (res: Report)
        ensures
            res@ == self@.report(manager@.config(self@.global).trusted_list()),
    {
        let mut out = Report::new();
        if self.removed.len() > 0 {
            let n = size_text(self.removed.len());
            let end = cat4(
                plural_text(self.removed.len()),
                " from ",
                scope_text(self.global),
                " configuration:",
            );
            let text = cat4(
                "\nSuccessfully removed ",
                n.as_str(),
                " trusted command pattern",
                end.as_str(),
            );
            out.say(Ink::Green, text.as_str());
            say_bullets(&mut out, &self.removed);
        }
        if self.failed.len() > 0 {
            let n = size_text(self.failed.len());
            let text = cat5(
                "\nFailed to remove ",
                n.as_str(),
                " command pattern",
                plural_text(self.failed.len()),
                ":",
            );
            out.say(Ink::Red, text.as_str());
            say_errors(&mut out, &self.failed);
        }
        let left = manager.get_trusted_commands(self.global);
        if self.missing.len() > 0 {
            let n = size_text(self.missing.len());
            let end = cat4(
                plural_text(self.missing.len()),
                " not found in ",
                scope_text(self.global),
                " configuration:",
            );
            let text = cat4("\n", n.as_str(), " command pattern", end.as_str());
            out.say(Ink::Red, text.as_str());
            say_bullets(&mut out, &self.missing);
            if left.trusted_commands.len() == 0 {
                let text = cat3(
                    "\nNo trusted commands configured in ",
                    scope_text(self.global),
                    " scope.",
                );
                out.say(Ink::Plain, text.as_str());
            } else {
                let text = cat3("\nAvailable trusted commands in ", scope_text(self.global), " scope:");
                out.say(Ink::Plain, text.as_str());
                say_available(&mut out, &left);
            }
        }
        assert(out@ =~= self@.report(left@));
        out
    }
}

/// The report where there are no trusted commands to be taken out.
pub open spec fn nothing_to_clear(global: bool) -> Seq<SpanText> {
    seq![
        inked(Ink::Yellow, "\nNo trusted commands found in "@ + scope(global) + " configuration."@),
    ]
}

/// The report on taking all trusted commands out, which were `patterns`.
pub open spec fn clear_report(
    patterns: Seq<Seq<char>>,
    global: bool,
    error: Option<Seq<char>>,
) -> Seq<SpanText> {
    match error {
        None => seq![
            inked(
                Ink::Green,
                "\nSuccessfully cleared "@ + decimal(patterns.len()) + " trusted command pattern"@ + (plural(
                    patterns.len(),
                ) + " from "@ + scope(global) + " configuration:"@),
            ),
        ] + bullets(patterns),
        Some(e) => seq![inked(Ink::Red, "\nFailed to clear trusted commands: "@ + e)],
    }
}

/// The first step of taking all trusted commands out.
#[derive(Debug)]
pub enum ClearRun {
    /// There are none; this is reported.
    Nothing(Report),
    /// These were taken out; the change is to be saved.
    Cleared(Vec<String>),
}

/// Takes all trusted commands out, if there are any.
pub fn begin_clear(manager: &mut ContextManager, global: bool) -> (res: ClearRun)
    ensures
        ({
            let config = old(manager)@.config(global);
            if config.trusted_list().len() == 0 {
                &&& res matches ClearRun::Nothing(r)
                &&& r@ == nothing_to_clear(global)
                &&& final(manager)@ == old(manager)@
            } else {
                &&& res matches ClearRun::Cleared(v)
                &&& texts(v@) == patterns_of(config.trusted_list())
                &&& final(manager)@ == old(manager)@.with_config(
                    global,
                    (ConfigText { trusted: Some(seq![]), ..config }),
                )
            }
        }),
{
    let current = manager.get_trusted_commands(global);
    if current.trusted_commands.len() == 0 {
        let mut out = Report::new();
        let text = cat3("\nNo trusted commands found in ", scope_text(global), " configuration.");
        out.say(Ink::Yellow, text.as_str());
        assert(out@ =~= nothing_to_clear(global));
        return ClearRun::Nothing(out);
    }
    let patterns = pattern_list(&current);
    manager.clear_trusted_commands(global);
    ClearRun::Cleared(patterns)
}

/// The report on taking all trusted commands out.
pub fn finish_clear(patterns: &Vec<String>, global: bool, outcome: Result<(), String>) -> (res: Report)
    ensures
        res@ == clear_report(texts(patterns@), global, failure(outcome)),
{
    let mut out = Report::new();
    match &outcome {
        Ok(_) => {
            let n = size_text(patterns.len());
            let end = cat4(plural_text(patterns.len()), " from ", scope_text(global), " configuration:");
            let text = cat4(
                "\nSuccessfully cleared ",
                n.as_str(),
                " trusted command pattern",
                end.as_str(),
            );
            out.say(Ink::Green, text.as_str());
            say_bullets(&mut out, patterns);
        },
        Err(e) => {
            let text = cat2("\nFailed to clear trusted commands: ", e.as_str());
            out.say(Ink::Red, text.as_str());
        },
    }
    assert(out@ =~= clear_report(texts(patterns@), global, failure(outcome)));
    out
}

/// What a subcommand is to do, as text.
pub enum ActionText {
    List(Seq<SpanText>),
    Permissions(Seq<PermissionText>, Seq<SpanText>),
    Allow(Seq<Seq<char>>, AllowText),
    Remove { patterns: Seq<Seq<char>>, global: bool },
    Clear { global: bool },
}

impl View for ToolsAction {
    type V = ActionText;

    open spec fn view(&self) -> ActionText {
        match self {
            ToolsAction::List(r) => ActionText::List(r@),
            ToolsAction::Permissions(c, r) => ActionText::Permissions(change_list(c@), r@),
            ToolsAction::Allow(p, run) => ActionText::Allow(texts(p@), run@),
            ToolsAction::Remove { patterns, global } => ActionText::Remove {
                patterns: texts(patterns@),
                global: *global,
            },
            ToolsAction::Clear { global } => ActionText::Clear { global: *global },
        }
    }
}

/// The report of a subcommand that changes no permission.
pub open spec fn just(report: Seq<SpanText>) -> ActionText {
    ActionText::Permissions(seq![], report)
}

/// What a subcommand comes to.
pub open spec fn tools_action(sub: ToolsSubcommand, session: ToolsSession) -> Result<ActionText, Seq<char>> {
    let tools = texts(session.tool_names@);
    match sub {
        ToolsSubcommand::Schema => match session.schema {
            Ok(t) => Ok(just(seq![inked(Ink::Plain, t@ + "\n"@)])),
            Err(e) => Err("Error converting tool schema to string: "@ + e@),
        },
        ToolsSubcommand::Trust { tool_names } => {
            let valid = texts(tool_names@).filter(among(tools, true));
            let invalid = texts(tool_names@).filter(among(tools, false));
            Ok(
                ActionText::Permissions(
                    trust_each(valid),
                    missing_tools(invalid, "\nCannot trust '"@) + trusted_tools(valid),
                ),
            )
        },
        ToolsSubcommand::Untrust { tool_names } => {
            let valid = texts(tool_names@).filter(among(tools, true));
            let invalid = texts(tool_names@).filter(among(tools, false));
            Ok(
                ActionText::Permissions(
                    untrust_each(valid),
                    missing_tools(invalid, "\nCannot untrust '"@) + untrusted_tools(valid),
                ),
            )
        },
        ToolsSubcommand::TrustAll => Ok(
            ActionText::Permissions(
                trust_each(tools),
                seq![inked(Ink::Plain, session.trust_all_text@ + "\n"@)],
            ),
        ),
        ToolsSubcommand::Reset => Ok(
            ActionText::Permissions(
                seq![PermissionText::Reset],
                seq![inked(Ink::Green, "Reset all tools to the default permission levels.\n"@)],
            ),
        ),
        ToolsSubcommand::ResetSingle { tool_name } => if session.trust_all || texts(
            session.configured@,
        ).contains(tool_name@) {
            Ok(
                ActionText::Permissions(
                    seq![PermissionText::ResetTool(tool_name@)],
                    seq![
                        inked(
                            Ink::Green,
                            "Reset tool '"@ + tool_name@ + "' to the default permission level.\n"@,
                        ),
                    ],
                ),
            )
        } else {
            Ok(
                just(
                    seq![
                        inked(
                            Ink::Red,
                            "Tool '"@ + tool_name@
                                + "' does not exist or is already in default settings.\n"@,
                        ),
                    ],
                ),
            )
        },
        ToolsSubcommand::Allow {
            subcommand: AllowSubcommand::ExecuteBash { command, description, global },
        } => if session.has_context {
            Ok(
                ActionText::Allow(
                    texts(command@),
                    AllowText {
                        description: option_text(description),
                        global,
                        successful: seq![],
                        failed: seq![],
                    },
                ),
            )
        } else {
            Ok(
                just(
                    seq![
                        inked(
                            Ink::Red,
                            "\nContext manager not available. Cannot add trusted commands."@,
                        ),
                    ],
                ),
            )
        },
        ToolsSubcommand::Remove {
            subcommand: RemoveSubcommand::ExecuteBash { command, global, all },
        } => if !session.has_context {
            Ok(
                just(
                    seq![
                        inked(
                            Ink::Red,
                            "\nContext manager not available. Cannot remove trusted commands."@,
                        ),
                    ],
                ),
            )
        } else if all {
            Ok(ActionText::Clear { global })
        } else {
            Ok(ActionText::Remove { patterns: texts(command@), global })
        },
    }
}

/// The texts of a result.
pub open spec fn action_result(r: Result<ToolsAction, String>) -> Result<ActionText, Seq<char>> {
    match r {
        Ok(a) => Ok(a@),
        Err(e) => Err(e@),
    }
}

fn only(out: Report) -> (res: ToolsAction)
    ensures
        res@ == just(out@),
{
    let changes: Vec<PermissionChange> = Vec::new();
    assert(change_list(changes@) =~= seq![]);
    ToolsAction::Permissions(changes, out)
}

fn one_line(ink: Ink, text: &str) -> (res: Report)
    ensures
        res@ == seq![inked(ink, text@)],
{
    let mut out = Report::new();
    out.say(ink, text);
    assert(out@ =~= seq![inked(ink, text@)]);
    out
}

impl ToolsSubcommand {
    /// Decides what a subcommand comes to.
    pub fn execute(self, session: &ToolsSession) -> (res: Result<ToolsAction, String>)
        ensures
            action_result(res) == tools_action(self, *session),
    {
        match self {
            ToolsSubcommand::Schema => match &session.schema {
                Ok(t) => {
                    let text = cat2(t.as_str(), "\n");
                    Ok(only(one_line(Ink::Plain, text.as_str())))
                },
                Err(e) => Err(cat2("Error converting tool schema to string: ", e.as_str())),
            },
            ToolsSubcommand::Trust { tool_names } => {
                let valid = select(&tool_names, &session.tool_names, true);
                let invalid = select(&tool_names, &session.tool_names, false);
                let mut out = Report::new();
                say_missing(&mut out, &invalid, "\nCannot trust '");
                say_trusted(&mut out, &valid);
                assert(out@ =~= missing_tools(texts(invalid@), "\nCannot trust '"@) + trusted_tools(
                    texts(valid@),
                ));
                Ok(ToolsAction::Permissions(each(&valid, true), out))
            },
            ToolsSubcommand::Untrust { tool_names } => {
                let valid = select(&tool_names, &session.tool_names, true);
                let invalid = select(&tool_names, &session.tool_names, false);
                let mut out = Report::new();
                say_missing(&mut out, &invalid, "\nCannot untrust '");
                say_untrusted(&mut out, &valid);
                assert(out@ =~= missing_tools(texts(invalid@), "\nCannot untrust '"@) + untrusted_tools(
                    texts(valid@),
                ));
                Ok(ToolsAction::Permissions(each(&valid, false), out))
            },
            ToolsSubcommand::TrustAll => {
                let text = cat2(session.trust_all_text.as_str(), "\n");
                Ok(
                    ToolsAction::Permissions(
                        each(&session.tool_names, true),
                        one_line(Ink::Plain, text.as_str()),
                    ),
                )
            },
            ToolsSubcommand::Reset => {
                let changes: Vec<PermissionChange> = vec![PermissionChange::Reset];
                assert(change_list(changes@) =~= seq![PermissionText::Reset]);
                Ok(
                    ToolsAction::Permissions(
                        changes,
                        one_line(Ink::Green, "Reset all tools to the default permission levels.\n"),
                    ),
                )
            },
            ToolsSubcommand::ResetSingle { tool_name } => {
                if list_contains(&session.configured, tool_name.as_str()) || session.trust_all {
                    let text = cat3(
                        "Reset tool '",
                        tool_name.as_str(),
                        "' to the default permission level.\n",
                    );
                    let ghost name = tool_name@;
                    let changes: Vec<PermissionChange> = vec![PermissionChange::ResetTool(tool_name)];
                    assert(change_list(changes@) =~= seq![PermissionText::ResetTool(name)]);
                    Ok(ToolsAction::Permissions(changes, one_line(Ink::Green, text.as_str())))
                } else {
                    let text = cat3(
                        "Tool '",
                        tool_name.as_str(),
                        "' does not exist or is already in default settings.\n",
                    );
                    Ok(only(one_line(Ink::Red, text.as_str())))
                }
            },
            ToolsSubcommand::Allow { subcommand } => match subcommand {
                AllowSubcommand::ExecuteBash { command, description, global } => {
                    if session.has_context {
                        let run = AllowRun {
                            description,
                            global,
                            successful: Vec::new(),
                            failed: Vec::new(),
                        };
                        assert(run@.successful =~= seq![]);
                        assert(run@.failed =~= seq![]);
                        Ok(ToolsAction::Allow(command, run))
                    } else {
                        Ok(
                            only(
                                one_line(
                                    Ink::Red,
                                    "\nContext manager not available. Cannot add trusted commands.",
                                ),
                            ),
                        )
                    }
                },
            },
            ToolsSubcommand::Remove { subcommand } => match subcommand {
                RemoveSubcommand::ExecuteBash { command, global, all } => {
                    if !session.has_context {
                        Ok(
                            only(
                                one_line(
                                    Ink::Red,
                                    "\nContext manager not available. Cannot remove trusted commands.",
                                ),
                            ),
                        )
                    } else if all {
                        Ok(ToolsAction::Clear { global })
                    } else {
                        Ok(ToolsAction::Remove { patterns: command, global })
                    }
                },
            },
        }
    }
}

} // verus!
