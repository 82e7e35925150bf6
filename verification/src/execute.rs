//! Running shell commands: which need the user's acceptance, how a command is announced, and how
//! much of its output is kept.

use vstd::prelude::*;

use crate::dangerous_patterns::{check_all_dangerous_patterns, is_dangerous};
use crate::matcher::{blank_words, is_unquoted, shell_words, split_words};
use crate::number::{byte_len, bytes_in, signed_decimal, signed_text};
use crate::report::{inked, Ink, Report, SpanText};
use crate::text::{
    cat2, contains_text, occurs_at, option_text, option_texts, same_text, str_contains, texts,
};
use crate::trusted_commands::{trusts, ProcessedTrustedCommands};

verus! {

/// A shell command that is to be run.
#[derive(Debug)]
pub struct ExecuteCommand {
    /// The command.
    pub command: String,
    /// What it is for.
    pub summary: Option<String>,
}

/// What a command left behind.
#[derive(Debug)]
pub struct CommandResult {
    /// The exit status, if the command was not killed.
    pub exit_status: Option<i32>,
    /// The kept part of its output.
    pub stdout: String,
    /// The kept part of its error output.
    pub stderr: String,
}

/// Commands that only read.
pub open spec fn readonly_commands() -> Seq<Seq<char>> {
    seq![
        "ls"@,
        "cat"@,
        "echo"@,
        "pwd"@,
        "which"@,
        "head"@,
        "tail"@,
        "find"@,
        "grep"@,
        "dir"@,
        "type"@,
    ]
}

fn is_readonly(command: &str) -> (res: bool)
    ensures
        res == readonly_commands().contains(command@),
{
    let list: Vec<&'static str> = vec![
        "ls",
        "cat",
        "echo",
        "pwd",
        "which",
        "head",
        "tail",
        "find",
        "grep",
        "dir",
        "type",
    ];
    let ghost names = readonly_commands();
    let mut i: usize = 0;
    while i < list.len()
        invariant
            i <= list@.len(),
            names == readonly_commands(),
            names.len() == list@.len(),
            forall|j: int| 0 <= j < names.len() ==> names[j] == list@[j]@,
            forall|j: int| 0 <= j < i ==> names[j] != command@,
        decreases list@.len() - i,
    {
        if same_text(list[i], command) {
            assert(names[i as int] == command@);
            return true;
        }
        i += 1;
    }
    false
}

/// Where the command of a pipeline to which the word at `i` belongs begins.
pub open spec fn stage_start(args: Seq<Seq<char>>, i: int) -> int
    decreases i,
{
    if i <= 0 || args[i - 1] == "|"@ {
        i
    } else {
        stage_start(args, i - 1)
    }
}

/// An argument by which `find` changes files.
pub open spec fn is_mutating(arg: Seq<char>) -> bool {
    contains_text(arg, "-exec"@) || contains_text(arg, "-delete"@)
}

/// Whether the word at `i` keeps a pipeline from being read-only: a pipe inside the word, a
/// command that is not on the list, or a `find` that changes files.
pub open spec fn is_unsafe_word(args: Seq<Seq<char>>, i: int) -> bool {
    let first = args[stage_start(args, i)];
    &&& args[i] != "|"@
    &&& contains_text(args[i], "|"@) || !readonly_commands().contains(first) || (first == "find"@
        && is_mutating(args[i]))
}

/// Whether every command of a pipeline only reads.
pub open spec fn is_readonly_pipeline(args: Seq<Seq<char>>) -> bool {
    forall|i: int| 0 <= i < args.len() ==> !#[trigger] is_unsafe_word(args, i)
}

/// Whether the user has to accept a command, of which `args` are the words and `trusted` says
/// whether the user's configuration covers it.
pub open spec fn acceptance_needed(
    args: Option<Seq<Seq<char>>>,
    command: Seq<char>,
    trusted: bool,
) -> bool {
    match args {
        None => true,
        Some(args) => is_dangerous(command) || (!trusted && !is_readonly_pipeline(args)),
    }
}

fn readonly_pipeline(args: &Vec<String>) -> (res: bool)
    ensures
        res == is_readonly_pipeline(texts(args@)),
{
    let ghost words = texts(args@);
    let mut at_start = true;
    let mut finding = false;
    let mut i: usize = 0;
    while i < args.len()
        invariant
            i <= args@.len(),
            words == texts(args@),
            forall|j: int| 0 <= j < i ==> !#[trigger] is_unsafe_word(words, j),
            at_start <==> (i == 0 || words[i - 1] == "|"@),
            !at_start ==> readonly_commands().contains(words[stage_start(words, i as int)]),
            !at_start ==> finding == (words[stage_start(words, i as int)] == "find"@),
        decreases args@.len() - i,
    {
        let arg: &str = args[i].as_str();
        assert(words[i as int] == arg@);
        if same_text(arg, "|") {
            at_start = true;
        } else {
            if at_start {
                finding = same_text(arg, "find");
            }
            let listed = !at_start || is_readonly(arg);
            let mutating = finding && (str_contains(arg, "-exec") || str_contains(arg, "-delete"));
            if str_contains(arg, "|") || !listed || mutating {
                assert(is_unsafe_word(words, i as int));
                return false;
            }
            assert(stage_start(words, i as int + 1) == stage_start(words, i as int));
            at_start = false;
        }
        i += 1;
    }
    true
}

/// Whether the user has to accept a command that was taken apart into `args`.
pub fn needs_acceptance(args: &Option<Vec<String>>, command: &str, trusted: bool) -> (res: bool)
    ensures
        res == acceptance_needed(option_texts(*args), command@, trusted),
{
    match args {
        None => true,
        Some(args) => {
            if check_all_dangerous_patterns(command).is_some() {
                return true;
            }
            if trusted {
                return false;
            }
            !readonly_pipeline(args)
        },
    }
}

/// What is written between the parts of an announcement.
pub const CONTINUATION_LINE: &'static str = " ⋮ ";

/// What stands before the purpose of an action.
pub const PURPOSE_ARROW: &'static str = " ↳ ";

/// The announcement of a command.
pub open spec fn description_of(
    command: Seq<char>,
    summary: Option<Seq<char>>,
    trusted: bool,
) -> Seq<SpanText> {
    let head = seq![inked(Ink::Plain, "I will run the following shell command: "@)] + if byte_len(command)
        > 20 {
        seq![inked(Ink::Plain, "\n"@)]
    } else {
        seq![]
    } + seq![inked(Ink::Green, command + "\n"@)];
    let trust = if trusted {
        seq![
            inked(Ink::Plain, CONTINUATION_LINE@ + "\n"@),
            inked(Ink::Plain, PURPOSE_ARROW@),
            inked(Ink::Cyan, "Trusted by user configuration"@),
            inked(Ink::Plain, "\n"@),
        ]
    } else {
        seq![]
    };
    let purpose = match summary {
        Some(s) => seq![
            inked(Ink::Plain, CONTINUATION_LINE@ + "\n"@),
            inked(Ink::Plain, PURPOSE_ARROW@),
            inked(Ink::Blue, "Purpose: "@),
            inked(Ink::Plain, s + "\n"@),
        ],
        None => seq![],
    };
    head + trust + purpose + seq![inked(Ink::Plain, "\n"@)]
}

impl ExecuteCommand {
    /// Whether the user has to accept the command before it runs: a dangerous command always,
    /// another one unless it is trusted or only reads.
    pub fn requires_acceptance(&self, trusted_commands: Option<&ProcessedTrustedCommands>) -> (res: bool)
        ensures
            res == acceptance_needed(
                shell_words(self.command@),
                self.command@,
                match trusted_commands {
                    Some(t) => trusts(t@, self.command@),
                    None => false,
                },
            ),
            is_unquoted(self.command@) ==> res == acceptance_needed(
                Some(blank_words(self.command@, seq![])),
                self.command@,
                match trusted_commands {
                    Some(t) => trusts(t@, self.command@),
                    None => false,
                },
            ),
            is_dangerous(self.command@) ==> res,
    {
        let args = split_words(self.command.as_str());
        let trusted = match trusted_commands {
            Some(t) => t.is_trusted(self.command.as_str()),
            None => false,
        };
        needs_acceptance(&args, self.command.as_str(), trusted)
    }

    /// The announcement of the command.
    pub fn queue_description(&self, trusted_commands: Option<&ProcessedTrustedCommands>) -> (res: Report)
        ensures
            res@ == description_of(
                self.command@,
                option_text(self.summary),
                match trusted_commands {
                    Some(t) => trusts(t@, self.command@),
                    None => false,
                },
            ),
    {
        let mut out = Report::new();
        out.say(Ink::Plain, "I will run the following shell command: ");
        if bytes_in(self.command.as_str()) > 20 {
            out.say(Ink::Plain, "\n");
        }
        let line = cat2(self.command.as_str(), "\n");
        out.say(Ink::Green, line.as_str());
        let trusted = match trusted_commands {
            Some(t) => t.is_trusted(self.command.as_str()),
            None => false,
        };
        let gap = cat2(CONTINUATION_LINE, "\n");
        if trusted {
            out.say(Ink::Plain, gap.as_str());
            out.say(Ink::Plain, PURPOSE_ARROW);
            out.say(Ink::Cyan, "Trusted by user configuration");
            out.say(Ink::Plain, "\n");
        }
        if let Some(summary) = &self.summary {
            out.say(Ink::Plain, gap.as_str());
            out.say(Ink::Plain, PURPOSE_ARROW);
            out.say(Ink::Blue, "Purpose: ");
            let line = cat2(summary.as_str(), "\n");
            out.say(Ink::Plain, line.as_str());
        }
        out.say(Ink::Plain, "\n");
        assert(out@ =~= description_of(
            self.command@,
            option_text(self.summary),
            match trusted_commands {
                Some(t) => trusts(t@, self.command@),
                None => false,
            },
        ));
        out
    }
}

impl CommandResult {
    /// The exit status as text; a command that was killed counts as one that succeeded.
    pub fn exit_status_text(&self) -> (res: String)
        ensures
            res@ == signed_decimal(
                match self.exit_status {
                    Some(n) => n as int,
                    None => 0,
                },
            ),
    {
        match self.exit_status {
            Some(n) => signed_text(n),
            None => signed_text(0),
        }
    }
}

/// A dangerous command needs acceptance whatever the user trusts.
pub proof fn law_danger_overrides_trust(args: Option<Seq<Seq<char>>>, command: Seq<char>, trusted: bool)
    requires
        is_dangerous(command),
    ensures
        acceptance_needed(args, command, trusted),
{
}

/// A trusted command that is not dangerous and can be taken apart runs without acceptance.
pub proof fn law_trusted_runs(args: Seq<Seq<char>>, command: Seq<char>)
    requires
        !is_dangerous(command),
    ensures
        !acceptance_needed(Some(args), command, true),
{
}

/// Trusting more never makes acceptance necessary.
pub proof fn law_trust_is_monotone(args: Option<Seq<Seq<char>>>, command: Seq<char>)
    ensures
        acceptance_needed(args, command, true) ==> acceptance_needed(args, command, false),
{
}

/// A single command from the read-only list needs no acceptance, unless it is dangerous, holds a
/// pipe, or is a `find` that changes files.
pub proof fn law_readonly_runs(args: Seq<Seq<char>>, command: Seq<char>, trusted: bool)
    requires
        !is_dangerous(command),
        args.len() > 0,
        readonly_commands().contains(args[0]),
        forall|i: int| 0 <= i < args.len() ==> !contains_text(#[trigger] args[i], "|"@),
        args[0] == "find"@ ==> forall|i: int| 0 <= i < args.len() ==> !is_mutating(#[trigger] args[i]),
    ensures
        !acceptance_needed(Some(args), command, trusted),
{
    assert forall|i: int| 0 <= i < args.len() implies !#[trigger] is_unsafe_word(args, i) by {
        lemma_single_stage(args, i);
        assert(!contains_text(args[i], "|"@));
    }
}

/// A pipeline in which a command is not on the read-only list needs acceptance, unless it is
/// trusted.
pub proof fn law_unlisted_asks(args: Seq<Seq<char>>, command: Seq<char>, i: int)
    requires
        0 <= i < args.len(),
        args[i] != "|"@,
        !readonly_commands().contains(args[stage_start(args, i)]),
    ensures
        acceptance_needed(Some(args), command, false),
{
    assert(is_unsafe_word(args, i));
}

proof fn lemma_single_stage(args: Seq<Seq<char>>, i: int)
    requires
        0 <= i < args.len(),
        forall|j: int| 0 <= j < args.len() ==> !contains_text(#[trigger] args[j], "|"@),
    ensures
        stage_start(args, i) == 0,
    decreases i,
{
    if i > 0 {
        let before = args[i - 1];
        assert(!contains_text(before, "|"@));
        if before == "|"@ {
            assert(before.subrange(0, before.len() as int) =~= before);
            assert(occurs_at(before, "|"@, 0));
        }
        lemma_single_stage(args, i - 1);
    }
}

} // verus!
