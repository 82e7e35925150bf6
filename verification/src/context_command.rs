//! The `/context` command.

use vstd::prelude::*;

use crate::context::{ConfigText, ContextManager, ManagerText};
use crate::context_rules::{any_among, not_among, rules_added, rules_error};
use crate::number::{decimal, size_text};
use crate::report::{bold, inked, Ink, Report, SpanText};
use crate::text::{cat2, cat3, cat5, option_text, repeat_char, repeated, texts};

verus! {

/// What `/context` can do.
#[derive(Debug, PartialEq)]
pub enum ContextSubcommand {
    /// Show the rules, and how many files each picks.
    Show {
        /// Show the summary of the conversation too.
        expand: bool,
    },
    /// Add rules.
    Add {
        /// Add them even if they pick no file.
        force: bool,
        /// The rules.
        paths: Vec<String>,
    },
    /// Remove rules.
    Remove {
        /// The rules.
        paths: Vec<String>,
    },
    /// Remove all rules.
    Clear,
}

/// What is known when a subcommand is run.
#[derive(Debug)]
pub struct ContextFacts {
    /// How many files each rule of the profile picks; `None` where that cannot be told.
    pub matches: Vec<Option<usize>>,
    /// The latest summary of the conversation.
    pub summary: Option<String>,
    /// The width of the terminal.
    pub terminal_width: usize,
    /// The first of the rules to be added that picks no file, with the reason.
    pub invalid: Option<(String, String)>,
}

/// What comes of a subcommand.
#[derive(Debug)]
pub enum ContextAction {
    /// This is printed.
    Print(Report),
    /// The configuration of the profile is to be saved; this is printed if that succeeds.
    Save(Report),
}

/// What comes of a subcommand, as text.
pub enum ContextActionText {
    Print(Seq<SpanText>),
    Save(Seq<SpanText>),
}

impl View for ContextAction {
    type V = ContextActionText;

    open spec fn view(&self) -> ContextActionText {
        match self {
            ContextAction::Print(r) => ContextActionText::Print(r@),
            ContextAction::Save(r) => ContextActionText::Save(r@),
        }
    }
}

/// The report of an error.
pub open spec fn error_report(e: Seq<char>) -> Seq<SpanText> {
    seq![inked(Ink::Red, "\nError: "@ + e + "\n\n"@)]
}

/// The report of an error.
pub fn report_error(e: &str) -> (res: Report)
    ensures
        res@ == error_report(e@),
{
    let text = cat3("\nError: ", e, "\n\n");
    let mut out = Report::new();
    out.say(Ink::Red, text.as_str());
    assert(out@ =~= error_report(e@));
    out
}

/// The report where there is no context manager.
pub fn report_unavailable() -> (res: Report)
    ensures
        res@ == seq![inked(Ink::Red, "\nContext management is not available.\n\n"@)],
{
    let mut out = Report::new();
    out.say(Ink::Red, "\nContext management is not available.\n\n");
    assert(out@ =~= seq![inked(Ink::Red, "\nContext management is not available.\n\n"@)]);
    out
}

/// How many files a rule picks.
pub open spec fn match_count(n: nat) -> Seq<char> {
    "("@ + decimal(n) + " match"@ + (if n == 1 {
        ""@
    } else {
        "es"@
    }) + ")"@
}

/// The lines of the first `n` rules.
pub open spec fn rule_lines(paths: Seq<Seq<char>>, matches: Seq<Option<usize>>, n: int) -> Seq<SpanText>
    decreases n,
{
    if n <= 0 {
        seq![]
    } else {
        rule_lines(paths, matches, n - 1).push(inked(Ink::Plain, "    "@ + paths[n - 1] + " "@)) + (
        match matches[n - 1] {
            Some(c) => seq![inked(Ink::Green, match_count(c as nat))],
            None => seq![],
        }) + seq![inked(Ink::Plain, "\n"@)]
    }
}

/// The summary of the conversation in its frame.
pub open spec fn summary_report(summary: Seq<char>, width: nat) -> Seq<SpanText> {
    let border = repeated(
        '═',
        if width < 80 {
            width
        } else {
            80
        },
    );
    seq![
        inked(Ink::Plain, "\n"@),
        inked(Ink::Cyan, border + "\n"@),
        bold(Ink::Cyan, "                       CONVERSATION SUMMARY"@ + "\n"@ + border),
        inked(Ink::Plain, "\n\n"@ + summary + "\n\n\n"@),
    ]
}

/// The rules of the current profile.
pub open spec fn show_report(
    m: ManagerText,
    matches: Seq<Option<usize>>,
    summary: Option<Seq<char>>,
    width: nat,
    expand: bool,
) -> Seq<SpanText> {
    seq![bold(Ink::Magenta, "\n👤 profile ("@ + m.current + "):\n"@)] + (if m.profile.paths.len() == 0 {
        seq![inked(Ink::DarkGrey, "    <none>\n\n"@)]
    } else {
        rule_lines(m.profile.paths, matches, m.profile.paths.len() as int) + seq![
            inked(Ink::Plain, "\n"@),
        ]
    }) + (match summary {
        Some(s) if expand => summary_report(s, width),
        _ => seq![],
    })
}

/// What a subcommand comes to, and the manager afterwards.
pub open spec fn context_action(
    sub: ContextSubcommand,
    m: ManagerText,
    facts: ContextFacts,
) -> (ContextActionText, ManagerText) {
    match sub {
        ContextSubcommand::Show { expand } => (
            ContextActionText::Print(
                show_report(
                    m,
                    facts.matches@,
                    option_text(facts.summary),
                    facts.terminal_width as nat,
                    expand,
                ),
            ),
            m,
        ),
        ContextSubcommand::Add { force, paths } => {
            let invalid = if force {
                None
            } else {
                facts.invalid
            };
            let after = if invalid is Some {
                m
            } else {
                rules_added(m, texts(paths@), false)
            };
            match rules_error(m, texts(paths@), invalid) {
                Some(e) => (ContextActionText::Print(error_report(e)), after),
                None => (
                    ContextActionText::Save(
                        seq![
                            inked(
                                Ink::Green,
                                "\nAdded "@ + decimal(paths@.len()) + " path(s) to context.\n\n"@,
                            ),
                        ],
                    ),
                    after,
                ),
            }
        },
        ContextSubcommand::Remove { paths } => if any_among(m.profile.paths, texts(paths@)) {
            (
                ContextActionText::Save(
                    seq![
                        inked(
                            Ink::Green,
                            "\nRemoved "@ + decimal(paths@.len()) + " path(s) from context.\n\n"@,
                        ),
                    ],
                ),
                ManagerText {
                    profile: ConfigText {
                        paths: m.profile.paths.filter(not_among(texts(paths@))),
                        ..m.profile
                    },
                    ..m
                },
            )
        } else {
            (
                ContextActionText::Print(
                    error_report("None of the specified paths were found in the context"@),
                ),
                m,
            )
        },
        ContextSubcommand::Clear => (
            ContextActionText::Save(seq![inked(Ink::Green, "\nCleared context\n\n"@)]),
            ManagerText { profile: ConfigText { paths: seq![], ..m.profile }, ..m },
        ),
    }
}

fn say_rules(out: &mut Report, paths: &Vec<String>, matches: &Vec<Option<usize>>)
    requires
        matches@.len() == paths@.len(),
    ensures
        final(out)@ == old(out)@ + rule_lines(texts(paths@), matches@, paths@.len() as int),
{
    let ghost start = out@;
    let ghost list = texts(paths@);
    let mut i: usize = 0;
    assert(start + rule_lines(list, matches@, 0) =~= start);
    while i < paths.len()
        invariant
            i <= paths@.len(),
            matches@.len() == paths@.len(),
            list == texts(paths@),
            out@ == start + rule_lines(list, matches@, i as int),
        decreases paths@.len() - i,
    {
        let text = cat3("    ", paths[i].as_str(), " ");
        out.say(Ink::Plain, text.as_str());
        if let Some(c) = matches[i] {
            let n = size_text(c);
            let end = if c == 1 {
                ""
            } else {
                "es"
            };
            let text = cat5("(", n.as_str(), " match", end, ")");
            out.say(Ink::Green, text.as_str());
        }
        out.say(Ink::Plain, "\n");
        i += 1;
        assert(out@ =~= start + rule_lines(list, matches@, i as int));
    }
}

impl ContextSubcommand {
    /// Runs a subcommand. Rules are those of the current profile.
    pub fn execute(&self, manager: &mut ContextManager, facts: &ContextFacts) -> (res: ContextAction)
        requires
            self is Show ==> facts.matches@.len() == old(manager)@.profile.paths.len(),
        ensures
            (res@, final(manager)@) == context_action(*self, old(manager)@, *facts),
    {
        match self {
            ContextSubcommand::Show { expand } => {
                let ghost m = manager@;
                let mut out = Report::new();
                let head = cat3("\n👤 profile (", manager.current_profile.as_str(), "):\n");
                out.say_bold(Ink::Magenta, head.as_str());
                if manager.profile_config.paths.len() == 0 {
                    out.say(Ink::DarkGrey, "    <none>\n\n");
                } else {
                    say_rules(&mut out, &manager.profile_config.paths, &facts.matches);
                    out.say(Ink::Plain, "\n");
                }
                if *expand {
                    if let Some(summary) = &facts.summary {
                        let width: usize = if facts.terminal_width < 80 {
                            facts.terminal_width
                        } else {
                            80
                        };
                        let border = repeat_char('═', width);
                        out.say(Ink::Plain, "\n");
                        let line = cat2(border.as_str(), "\n");
                        out.say(Ink::Cyan, line.as_str());
                        let title = cat3(
                            "                       CONVERSATION SUMMARY",
                            "\n",
                            border.as_str(),
                        );
                        out.say_bold(Ink::Cyan, title.as_str());
                        let text = cat3("\n\n", summary.as_str(), "\n\n\n");
                        out.say(Ink::Plain, text.as_str());
                    }
                }
                assert(out@ =~= show_report(
                    m,
                    facts.matches@,
                    option_text(facts.summary),
                    facts.terminal_width as nat,
                    *expand,
                ));
                ContextAction::Print(out)
            },
            ContextSubcommand::Add { force, paths } => {
                let invalid = match &facts.invalid {
                    Some(bad) => Some((bad.0.clone(), bad.1.clone())),
                    None => None,
                };
                match manager.add_paths(paths, false, *force, invalid) {
                    Ok(_) => {
                        let n = size_text(paths.len());
                        let text = cat3("\nAdded ", n.as_str(), " path(s) to context.\n\n");
                        let mut out = Report::new();
                        out.say(Ink::Green, text.as_str());
                        assert(out@ =~= seq![inked(Ink::Green, text@)]);
                        ContextAction::Save(out)
                    },
                    Err(e) => ContextAction::Print(report_error(e.as_str())),
                }
            },
            ContextSubcommand::Remove { paths } => match manager.remove_paths(paths, false) {
                Ok(_) => {
                    let n = size_text(paths.len());
                    let text = cat3("\nRemoved ", n.as_str(), " path(s) from context.\n\n");
                    let mut out = Report::new();
                    out.say(Ink::Green, text.as_str());
                    assert(out@ =~= seq![inked(Ink::Green, text@)]);
                    ContextAction::Save(out)
                },
                Err(e) => ContextAction::Print(report_error(e.as_str())),
            },
            ContextSubcommand::Clear => {
                manager.clear(false);
                let mut out = Report::new();
                out.say(Ink::Green, "\nCleared context\n\n");
                assert(out@ =~= seq![inked(Ink::Green, "\nCleared context\n\n"@)]);
                ContextAction::Save(out)
            },
        }
    }
}

} // verus!
