//! What `/tools` does: permissions, trusted patterns, the listing, and the words of the command.

use vstd::prelude::*;

use crate::command_laws::{holds_destruction, holds_shell_sign, law_what_is_dangerous};
use crate::config_laws::lemma_blank;
use crate::context::{save_failure, TrustedChange};
use crate::context_laws::{lemma_filter_from, lemma_filter_none};
use crate::dangerous_patterns::law_match_iff_dangerous;
use crate::number::{byte_len, decimal};
use crate::order::{before, sorted_texts};
use crate::report::{Ink, SpanText};
use crate::split::is_white;
use crate::text::{among, option_text, repeated, texts};
use crate::text_laws::{law_join, law_sorting};
use crate::tools::{
    available, bullets, clear_report, error_bullets, missing_tools, nothing_to_clear, pattern_error,
    patterns_of, tools_action, trusted_tools, untrusted_tools, ActionText, AllowSubcommand, AllowText,
    PermissionText, RemoveSubcommand, RemoveText, ToolsSession, ToolsSubcommand,
};
use crate::tools_list::{
    find_server, group_report, listing, loading_report, longest_name, longest_of, native_reports,
    server_reports, servers, shown, tool_line, tool_lines, trusted_line, GroupText, ListingText,
};
use crate::trusted_commands::TrustedText;

verus! {

proof fn lemma_filter_all(s: Seq<Seq<char>>, p: spec_fn(Seq<char>) -> bool)
    requires
        forall|i: int| 0 <= i < s.len() ==> p(#[trigger] s[i]),
    ensures
        s.filter(p) == s,
    decreases s.len(),
{
    reveal(Seq::filter);
    if s.len() > 0 {
        assert forall|i: int| 0 <= i < s.drop_last().len() implies p(#[trigger] s.drop_last()[i]) by {
            assert(s.drop_last()[i] == s[i]);
        }
        assert(p(s[s.len() - 1]));
        lemma_filter_all(s.drop_last(), p);
        assert(s.drop_last().push(s.last()) =~= s);
    } else {
        assert(s.filter(p) =~= s);
    }
}

proof fn lemma_filter_keeps(s: Seq<Seq<char>>, p: spec_fn(Seq<char>) -> bool, x: Seq<char>)
    ensures
        s.filter(p).contains(x) <==> s.contains(x) && p(x),
    decreases s.len(),
{
    reveal(Seq::filter);
    let kept = s.filter(p);
    if kept.contains(x) {
        let i = choose|i: int| 0 <= i < kept.len() && kept[i] == x;
        lemma_filter_from(s, p, i);
    }
    if s.contains(x) && p(x) {
        let j = choose|j: int| 0 <= j < s.len() && s[j] == x;
        let rest = s.drop_last();
        lemma_filter_keeps(rest, p, x);
        if j < s.len() - 1 {
            assert(rest[j] == x);
            let f = rest.filter(p);
            let i = choose|i: int| 0 <= i < f.len() && f[i] == x;
            assert(kept[i] == x);
        } else {
            assert(kept[kept.len() - 1] == x);
        }
    }
}

/// Trusting tools changes the permission of those that exist, and of no other; each of them runs
/// without confirmation from then on.
pub proof fn law_trusted_tools(tool_names: Vec<String>, session: ToolsSession, name: Seq<char>)
    ensures
        ({
            let asked = texts(tool_names@);
            let known = texts(session.tool_names@);
            &&& tools_action(ToolsSubcommand::Trust { tool_names }, session) is Ok
            &&& tools_action(ToolsSubcommand::Untrust { tool_names }, session) is Ok
            &&& tools_action(ToolsSubcommand::Trust { tool_names }, session)->Ok_0 is Permissions
            &&& tools_action(ToolsSubcommand::Untrust { tool_names }, session)->Ok_0 is Permissions
            &&& tools_action(
                ToolsSubcommand::Trust { tool_names },
                session,
            )->Ok_0->Permissions_0.contains(PermissionText::Trust(name)) <==> asked.contains(name)
                && known.contains(name)
            &&& tools_action(
                ToolsSubcommand::Untrust { tool_names },
                session,
            )->Ok_0->Permissions_0.contains(PermissionText::Untrust(name)) <==> asked.contains(name)
                && known.contains(name)
            &&& forall|i: int|
                0 <= i < tools_action(
                    ToolsSubcommand::Trust { tool_names },
                    session,
                )->Ok_0->Permissions_0.len() ==> (#[trigger] tools_action(
                    ToolsSubcommand::Trust { tool_names },
                    session,
                )->Ok_0->Permissions_0[i]) is Trust
            &&& forall|i: int|
                0 <= i < tools_action(
                    ToolsSubcommand::Untrust { tool_names },
                    session,
                )->Ok_0->Permissions_0.len() ==> (#[trigger] tools_action(
                    ToolsSubcommand::Untrust { tool_names },
                    session,
                )->Ok_0->Permissions_0[i]) is Untrust
        }),
{
    let asked = texts(tool_names@);
    let known = texts(session.tool_names@);
    let kept = asked.filter(among(known, true));
    lemma_filter_keeps(asked, among(known, true), name);
    let trusted = tools_action(ToolsSubcommand::Trust { tool_names }, session)->Ok_0->Permissions_0;
    let untrusted = tools_action(ToolsSubcommand::Untrust { tool_names }, session)->Ok_0->Permissions_0;
    if kept.contains(name) {
        let i = choose|i: int| 0 <= i < kept.len() && kept[i] == name;
        assert(trusted[i] == PermissionText::Trust(name));
        assert(untrusted[i] == PermissionText::Untrust(name));
    }
    if trusted.contains(PermissionText::Trust(name)) {
        let i = choose|i: int| 0 <= i < trusted.len() && trusted[i] == PermissionText::Trust(name);
        assert(kept[i] == name);
    }
    if untrusted.contains(PermissionText::Untrust(name)) {
        let i = choose|i: int| 0 <= i < untrusted.len() && untrusted[i] == PermissionText::Untrust(name);
        assert(kept[i] == name);
    }
}

/// Where all the tools exist, each is trusted, in the order in which they are named, and the report
/// says so; where none exists nothing changes, and the report says that.
pub proof fn law_trust_in_order(tool_names: Vec<String>, session: ToolsSession)
    requires
        tool_names@.len() > 0,
    ensures
        ({
            let asked = texts(tool_names@);
            let known = texts(session.tool_names@);
            let all = forall|i: int| 0 <= i < asked.len() ==> known.contains(#[trigger] asked[i]);
            let none = forall|i: int| 0 <= i < asked.len() ==> !known.contains(#[trigger] asked[i]);
            let trust = tools_action(ToolsSubcommand::Trust { tool_names }, session);
            let untrust = tools_action(ToolsSubcommand::Untrust { tool_names }, session);
            &&& all ==> trust == Ok::<ActionText, Seq<char>>(
                ActionText::Permissions(
                    Seq::new(asked.len(), |i: int| PermissionText::Trust(asked[i])),
                    trusted_tools(asked),
                ),
            )
            &&& all ==> untrust == Ok::<ActionText, Seq<char>>(
                ActionText::Permissions(
                    Seq::new(asked.len(), |i: int| PermissionText::Untrust(asked[i])),
                    untrusted_tools(asked),
                ),
            )
            &&& none ==> trust == Ok::<ActionText, Seq<char>>(
                ActionText::Permissions(seq![], missing_tools(asked, "\nCannot trust '"@)),
            )
            &&& none ==> untrust == Ok::<ActionText, Seq<char>>(
                ActionText::Permissions(seq![], missing_tools(asked, "\nCannot untrust '"@)),
            )
        }),
{
    let asked = texts(tool_names@);
    let known = texts(session.tool_names@);
    let yes = among(known, true);
    let no = among(known, false);
    let nobody = Seq::<Seq<char>>::empty();
    if forall|i: int| 0 <= i < asked.len() ==> known.contains(#[trigger] asked[i]) {
        lemma_filter_all(asked, yes);
        lemma_filter_none(asked, no);
        assert(missing_tools(nobody, "\nCannot trust '"@) + trusted_tools(asked) =~= trusted_tools(asked));
        assert(missing_tools(nobody, "\nCannot untrust '"@) + untrusted_tools(asked) =~= untrusted_tools(
            asked,
        ));
    }
    if forall|i: int| 0 <= i < asked.len() ==> !known.contains(#[trigger] asked[i]) {
        lemma_filter_all(asked, no);
        lemma_filter_none(asked, yes);
        assert(missing_tools(asked, "\nCannot trust '"@) + trusted_tools(nobody) =~= missing_tools(
            asked,
            "\nCannot trust '"@,
        ));
        assert(missing_tools(asked, "\nCannot untrust '"@) + untrusted_tools(nobody) =~= missing_tools(
            asked,
            "\nCannot untrust '"@,
        ));
        assert(crate::tools::trust_each(nobody) =~= seq![]);
        assert(crate::tools::untrust_each(nobody) =~= seq![]);
    }
}

/// How one tool and how two tools are reported.
pub proof fn law_tools_in_words(a: Seq<char>, b: Seq<char>, what: Seq<char>)
    ensures
        trusted_tools(seq![a]) == seq![
            (Ink::Green, false, "Tool '"@ + a + "' is "@),
            (Ink::Green, false, "now trusted. I will "@),
            (Ink::Green, true, "not"@),
            (Ink::Green, false, " ask for confirmation before running "@ + "this tool"@ + "."@),
            (Ink::Green, false, "\n"@),
        ],
        trusted_tools(seq![a, b])[0] == (Ink::Green, false, "Tools '"@ + (a + "', '"@ + b) + "' are "@),
        trusted_tools(seq![a, b])[3] == (
            Ink::Green,
            false,
            " ask for confirmation before running "@ + "these tools"@ + "."@,
        ),
        untrusted_tools(seq![a]) == seq![
            (Ink::Green, false, "Tool '"@ + a + "' is "@),
            (Ink::Green, false, "set to per-request confirmation.\n"@),
        ],
        untrusted_tools(seq![a, b])[0] == (Ink::Green, false, "Tools '"@ + (a + "', '"@ + b) + "' are "@),
        missing_tools(seq![a], what) == seq![
            (Ink::Red, false, what + a + "', "@),
            (Ink::Red, false, "it does not exist."@),
        ],
        missing_tools(seq![a, b], what) == seq![
            (Ink::Red, false, what + (a + "', '"@ + b) + "', "@),
            (Ink::Red, false, "they do not exist."@),
        ],
{
    law_join(seq![a], b, "', '"@);
    law_join(seq![], a, "', '"@);
    assert(seq![a].push(b) =~= seq![a, b]);
}

/// Trusting all tools trusts each; a reset takes back all permissions, or that of one tool, if it has
/// one of its own or all are trusted; the schema is printed.
pub proof fn law_other_tool_commands(session: ToolsSession, tool_name: String, t: String, e: String, i: int)
    requires
        0 <= i < session.tool_names@.len(),
    ensures
        ({
            let all = tools_action(ToolsSubcommand::TrustAll, session);
            &&& all is Ok && all->Ok_0 is Permissions
            &&& all->Ok_0->Permissions_0.len() == session.tool_names@.len()
            &&& all->Ok_0->Permissions_0[i] == PermissionText::Trust(session.tool_names@[i]@)
            &&& all->Ok_0->Permissions_1 == seq![(Ink::Plain, false, session.trust_all_text@ + "\n"@)]
        }),
        tools_action(ToolsSubcommand::Reset, session) == Ok::<ActionText, Seq<char>>(
            ActionText::Permissions(
                seq![PermissionText::Reset],
                seq![(Ink::Green, false, "Reset all tools to the default permission levels.\n"@)],
            ),
        ),
        session.trust_all || texts(session.configured@).contains(tool_name@) ==> tools_action(
            ToolsSubcommand::ResetSingle { tool_name },
            session,
        ) == Ok::<ActionText, Seq<char>>(
            ActionText::Permissions(
                seq![PermissionText::ResetTool(tool_name@)],
                seq![
                    (
                        Ink::Green,
                        false,
                        "Reset tool '"@ + tool_name@ + "' to the default permission level.\n"@,
                    ),
                ],
            ),
        ),
        !session.trust_all && !texts(session.configured@).contains(tool_name@) ==> tools_action(
            ToolsSubcommand::ResetSingle { tool_name },
            session,
        ) == Ok::<ActionText, Seq<char>>(
            ActionText::Permissions(
                seq![],
                seq![
                    (
                        Ink::Red,
                        false,
                        "Tool '"@ + tool_name@ + "' does not exist or is already in default settings.\n"@,
                    ),
                ],
            ),
        ),
        session.schema == Ok::<String, String>(t) ==> tools_action(ToolsSubcommand::Schema, session) == Ok::<
            ActionText,
            Seq<char>,
        >(ActionText::Permissions(seq![], seq![(Ink::Plain, false, t@ + "\n"@)])),
        session.schema == Err::<String, String>(e) ==> tools_action(ToolsSubcommand::Schema, session) == Err::<
            ActionText,
            Seq<char>,
        >("Error converting tool schema to string: "@ + e@),
{
}

/// Patterns are trusted and taken out one after the other, in the scope that was asked for; all of
/// them go where all are meant. Without a context manager nothing happens.
pub proof fn law_pattern_commands(
    command: Vec<String>,
    description: Option<String>,
    global: bool,
    all: bool,
    session: ToolsSession,
)
    ensures
        ({
            let allow = tools_action(
                ToolsSubcommand::Allow {
                    subcommand: AllowSubcommand::ExecuteBash { command, description, global },
                },
                session,
            );
            let remove = tools_action(
                ToolsSubcommand::Remove {
                    subcommand: RemoveSubcommand::ExecuteBash { command, global, all },
                },
                session,
            );
            &&& session.has_context ==> allow == Ok::<ActionText, Seq<char>>(
                ActionText::Allow(
                    texts(command@),
                    AllowText {
                        description: option_text(description),
                        global,
                        successful: seq![],
                        failed: seq![],
                    },
                ),
            )
            &&& session.has_context && all ==> remove == Ok::<ActionText, Seq<char>>(
                ActionText::Clear { global },
            )
            &&& session.has_context && !all ==> remove == Ok::<ActionText, Seq<char>>(
                ActionText::Remove { patterns: texts(command@), global },
            )
            &&& !session.has_context ==> allow == Ok::<ActionText, Seq<char>>(
                ActionText::Permissions(
                    seq![],
                    seq![
                        (
                            Ink::Red,
                            false,
                            "\nContext manager not available. Cannot add trusted commands."@,
                        ),
                    ],
                ),
            )
            &&& !session.has_context ==> remove == Ok::<ActionText, Seq<char>>(
                ActionText::Permissions(
                    seq![],
                    seq![
                        (
                            Ink::Red,
                            false,
                            "\nContext manager not available. Cannot remove trusted commands."@,
                        ),
                    ],
                ),
            )
        }),
{
}

/// A pattern is accepted exactly if it is not blank, is not a lone star, and holds neither a sign of
/// the shell nor the words of a command that destroys.
pub proof fn law_accepted_patterns(pattern: Seq<char>)
    ensures
        pattern_error(pattern) is None <==> {
            &&& exists|i: int| 0 <= i < pattern.len() && !is_white(#[trigger] pattern[i])
            &&& !holds_shell_sign(pattern)
            &&& !holds_destruction(pattern)
            &&& pattern != seq!['*']
        },
        (forall|i: int| 0 <= i < pattern.len() ==> is_white(#[trigger] pattern[i])) ==> pattern_error(pattern)
            == Some("Command pattern cannot be empty"@),
        pattern_error(seq!['*']) == Some(
            "Pattern '*' is too broad and would trust all commands. Use more specific patterns."@,
        ),
{
    reveal_strlit("*");
    assert("*"@ =~= seq!['*']);
    lemma_blank(pattern);
    law_what_is_dangerous(pattern);
    law_match_iff_dangerous(pattern);
    let star = seq!['*'];
    lemma_blank(star);
    assert(star[0] == '*');
    assert(!is_white(star[0]));
    law_what_is_dangerous(star);
    law_match_iff_dangerous(star);
    assert(!holds_shell_sign(star)) by {
        reveal_strlit("$(");
        if crate::text::contains_text(star, "$("@) {
            let i = choose|i: int| crate::text::occurs_at(star, "$("@, i);
            assert(i + 2 <= 1);
        }
    }
    lemma_star_is_harmless(star);
}

proof fn lemma_star_is_harmless(star: Seq<char>)
    requires
        star == seq!['*'],
    ensures
        !holds_destruction(star),
{
    reveal_strlit("rm -rf");
    reveal_strlit("sudo rm");
    reveal_strlit("format");
    reveal_strlit("mkfs");
    reveal_strlit("dd if=");
    reveal_strlit(":(){ :|:& };:");
    reveal_strlit("> /dev/");
    reveal_strlit("chmod 777");
    reveal_strlit("chown root");
    reveal_strlit("su -");
    reveal_strlit("sudo su");
    reveal_strlit("del /");
    reveal_strlit("rmdir /s");
    assert forall|pat: Seq<char>| pat.len() > 1 implies !#[trigger] crate::text::contains_text(star, pat) by {
        if crate::text::contains_text(star, pat) {
            let i = choose|i: int| crate::text::occurs_at(star, pat, i);
            assert(i + pat.len() <= 1);
        }
    }
}

/// What is said of patterns that were trusted: how many, in which scope, each of them, and what they
/// are for.
pub proof fn law_trusted_patterns_are_reported(run: AllowText, p: Seq<char>, d: Seq<char>, e: Seq<char>)
    ensures
        run.successful == seq![p] && run.failed.len() == 0 && run.global && run.description == Some(d)
            ==> run.report() == seq![
            (
                Ink::Green,
                false,
                "\nSuccessfully added "@ + decimal(1) + " trusted command pattern"@ + (""@ + " to "@
                    + "global"@ + " configuration:"@),
            ),
            (Ink::Plain, false, "\n  • \""@ + p + "\""@),
            (Ink::DarkGrey, false, "\nDescription: "@ + d),
            (
                Ink::DarkGrey,
                false,
                "\nCommands matching these patterns will not require confirmation before execution."@,
            ),
        ],
        run.successful.len() > 1 ==> run.report()[0] == (
            Ink::Green,
            false,
            "\nSuccessfully added "@ + decimal(run.successful.len()) + " trusted command pattern"@ + ("s"@
                + " to "@ + (if run.global {
                "global"@
            } else {
                "profile"@
            }) + " configuration:"@),
        ),
        forall|i: int|
            0 <= i < run.successful.len() ==> #[trigger] run.report()[i + 1] == (
                Ink::Plain,
                false,
                "\n  • \""@ + run.successful[i] + "\""@,
            ),
        run.successful.len() == 0 && run.failed == seq![(p, e)] ==> run.report() == seq![
            (Ink::Red, false, "\nFailed to add "@ + decimal(1) + " command pattern"@ + ""@ + ":"@),
            (Ink::Plain, false, "\n  • \""@ + p + "\": "@ + e),
        ],
        run.successful.len() == 0 && run.failed.len() > 1 ==> run.report()[0] == (
            Ink::Red,
            false,
            "\nFailed to add "@ + decimal(run.failed.len()) + " command pattern"@ + "s"@ + ":"@,
        ),
        run.with_failed(p, e).failed == run.failed.push((p, e)),
        run.with_failed(p, e).successful == run.successful,
        run.with_failed(p, e).global == run.global,
        run.with_failed(p, e).description == run.description,
        save_failure(TrustedChange::Updated, p, e) == "Failed to update trusted command '"@ + p + "': "@ + e,
        save_failure(TrustedChange::Added, p, e) == "Failed to save trusted command '"@ + p + "': "@ + e,
{
    assert(bullets(run.successful).len() == run.successful.len());
    assert forall|i: int| 0 <= i < run.successful.len() implies #[trigger] run.report()[i + 1] == (
        Ink::Plain,
        false,
        "\n  • \""@ + run.successful[i] + "\""@,
    ) by {
        assert(bullets(run.successful)[i] == (Ink::Plain, false, "\n  • \""@ + run.successful[i] + "\""@));
    }
    if run.failed.len() > 0 {
        assert(error_bullets(run.failed)[0] == (
            Ink::Plain,
            false,
            "\n  • \""@ + run.failed[0].0 + "\": "@ + run.failed[0].1,
        ));
    }
}

/// What is said of patterns that were taken out, and of patterns that were not trusted: for those the
/// trusted ones are listed, each with its description.
pub proof fn law_removed_patterns_are_reported(
    run: RemoveText,
    left: Seq<TrustedText>,
    one: TrustedText,
    p: Seq<char>,
    e: Seq<char>,
)
    ensures
        run.removed == seq![p] && run.failed.len() == 0 && run.missing.len() == 0 && !run.global ==> run.report(
            left,
        ) == seq![
            (
                Ink::Green,
                false,
                "\nSuccessfully removed "@ + decimal(1) + " trusted command pattern"@ + (""@ + " from "@
                    + "profile"@ + " configuration:"@),
            ),
            (Ink::Plain, false, "\n  • \""@ + p + "\""@),
        ],
        run.removed.len() == 0 && run.failed == seq![(p, e)] && run.missing.len() == 0 ==> run.report(left)
            == seq![
            (Ink::Red, false, "\nFailed to remove "@ + decimal(1) + " command pattern"@ + ""@ + ":"@),
            (Ink::Plain, false, "\n  • \""@ + p + "\": "@ + e),
        ],
        run.removed.len() == 0 && run.failed.len() == 0 && run.missing == seq![p] && run.global
            && left.len() == 0 ==> run.report(left) == seq![
            (
                Ink::Red,
                false,
                "\n"@ + decimal(1) + " command pattern"@ + (""@ + " not found in "@ + "global"@
                    + " configuration:"@),
            ),
            (Ink::Plain, false, "\n  • \""@ + p + "\""@),
            (Ink::Plain, false, "\nNo trusted commands configured in "@ + "global"@ + " scope."@),
        ],
        run.removed.len() == 0 && run.failed.len() == 0 && run.missing == seq![p] && run.global
            && left.len() > 0 ==> run.report(left).skip(2) == seq![
            (Ink::Plain, false, "\nAvailable trusted commands in "@ + "global"@ + " scope:"@),
        ] + available(left, left.len() as int),
        available(seq![], 0).len() == 0,
        available(left.push(one), left.len() as int + 1) == available(left, left.len() as int) + (match one.1 {
            Some(d) => seq![
                (Ink::Plain, false, "\n  • \""@ + one.0 + "\""@),
                (Ink::DarkGrey, false, " - "@ + d),
            ],
            None => seq![(Ink::Plain, false, "\n  • \""@ + one.0 + "\""@)],
        }),
{
    lemma_available_prefix(left, one, left.len() as int);
    assert(available(left.push(one), left.len() as int + 1) =~= available(left, left.len() as int) + (
    match one.1 {
        Some(d) => seq![
            (Ink::Plain, false, "\n  • \""@ + one.0 + "\""@),
            (Ink::DarkGrey, false, " - "@ + d),
        ],
        None => seq![(Ink::Plain, false, "\n  • \""@ + one.0 + "\""@)],
    }));
    if run.removed.len() > 0 {
        assert(bullets(run.removed)[0] == (Ink::Plain, false, "\n  • \""@ + run.removed[0] + "\""@));
    }
    if run.missing.len() > 0 {
        assert(bullets(run.missing)[0] == (Ink::Plain, false, "\n  • \""@ + run.missing[0] + "\""@));
    }
    if run.failed.len() > 0 {
        assert(error_bullets(run.failed)[0] == (
            Ink::Plain,
            false,
            "\n  • \""@ + run.failed[0].0 + "\": "@ + run.failed[0].1,
        ));
    }
}

proof fn lemma_available_prefix(left: Seq<TrustedText>, one: TrustedText, n: int)
    requires
        0 <= n <= left.len(),
    ensures
        available(left.push(one), n) == available(left, n),
    decreases n,
{
    if n > 0 {
        lemma_available_prefix(left, one, n - 1);
    }
}

/// What is said when all patterns of a scope are taken out.
pub proof fn law_clearing_is_reported(list: Seq<TrustedText>, p: Seq<char>, e: Seq<char>, global: bool, i: int)
    ensures
        patterns_of(list).len() == list.len(),
        0 <= i < list.len() ==> patterns_of(list)[i] == list[i].0,
        nothing_to_clear(true) == seq![
            (Ink::Yellow, false, "\nNo trusted commands found in "@ + "global"@ + " configuration."@),
        ],
        nothing_to_clear(false) == seq![
            (Ink::Yellow, false, "\nNo trusted commands found in "@ + "profile"@ + " configuration."@),
        ],
        clear_report(seq![p], true, None) == seq![
            (
                Ink::Green,
                false,
                "\nSuccessfully cleared "@ + decimal(1) + " trusted command pattern"@ + (""@ + " from "@
                    + "global"@ + " configuration:"@),
            ),
            (Ink::Plain, false, "\n  • \""@ + p + "\""@),
        ],
        clear_report(seq![p], global, Some(e)) == seq![
            (Ink::Red, false, "\nFailed to clear trusted commands: "@ + e),
        ],
{
    assert(bullets(seq![p]) =~= seq![(Ink::Plain, false, "\n  • \""@ + p + "\""@)]);
}

/// The permissions stand in one column: each name and the blanks after it take four bytes more than
/// the longest name.
pub proof fn law_tool_is_listed(
    name: Seq<char>,
    longest: nat,
    labels: Map<Seq<char>, String>,
    trusted: Seq<TrustedText>,
)
    requires
        byte_len(name) <= longest,
        name != "execute_bash"@,
        name != "execute_cmd"@,
    ensures
        labels.contains_key(name) ==> tool_line(name, longest, labels, trusted) == "- "@ + name + repeated(
            ' ',
            (longest + 4 - byte_len(name)) as nat,
        ) + labels[name]@ + "\n"@,
        !labels.contains_key(name) ==> tool_line(name, longest, labels, trusted) == "- "@ + name + repeated(
            ' ',
            (longest + 4 - byte_len(name)) as nat,
        ) + ""@ + "\n"@,
{
    reveal_strlit("");
    let line = "- "@ + name + repeated(' ', (longest + 4 - byte_len(name)) as nat) + crate::tools_list::label_of(
        labels,
        name,
    ) + "\n"@;
    assert(longest - byte_len(name) + 4 == longest + 4 - byte_len(name));
    assert(line + ""@ =~= line);
    assert(tool_line(name, longest, labels, trusted) == line);
}

/// Under the tool that runs commands the trusted patterns are listed, in quotes.
pub proof fn law_trusted_are_listed(trusted: Seq<TrustedText>, a: TrustedText, b: TrustedText, name: Seq<char>)
    ensures
        trusted_line("execute_bash"@, seq![a]) == "    * trusted by profile configuration: "@ + ("\""@ + a.0
            + "\""@) + "\n"@,
        trusted_line("execute_cmd"@, seq![a]) == trusted_line("execute_bash"@, seq![a]),
        trusted_line("execute_bash"@, seq![a, b]) == "    * trusted by profile configuration: "@ + (("\""@
            + a.0 + "\""@) + " "@ + ("\""@ + b.0 + "\""@)) + "\n"@,
        trusted_line("execute_bash"@, seq![]) == ""@,
        name != "execute_bash"@ && name != "execute_cmd"@ ==> trusted_line(name, trusted) == ""@,
{
    let qa = "\""@ + a.0 + "\""@;
    let qb = "\""@ + b.0 + "\""@;
    law_join(seq![], qa, " "@);
    law_join(seq![qa], qb, " "@);
    assert(seq![qa].push(qb) =~= seq![qa, qb]);
    assert(crate::tools_list::quoted(patterns_of(seq![a])) =~= seq![qa]);
    assert(crate::tools_list::quoted(patterns_of(seq![a, b])) =~= seq![qa, qb]);
}

/// The longest name is as long as one of the names, and no name is longer.
pub proof fn law_longest_name(groups: Seq<GroupText>, n: int, i: int, j: int)
    requires
        0 <= n <= groups.len(),
    ensures
        0 <= i < n && 0 <= j < groups[i].names.len() ==> byte_len(groups[i].names[j]) <= longest_name(
            groups,
            n,
        ),
        longest_name(groups, n) > 0 ==> exists|a: int, b: int|
            0 <= a < n && 0 <= b < groups[a].names.len() && byte_len(#[trigger] groups[a].names[b])
                == longest_name(groups, n),
    decreases n,
{
    if n > 0 {
        law_longest_name(groups, n - 1, i, j);
        let names = groups[n - 1].names;
        let least = longest_name(groups, n - 1);
        lemma_longest(names, names.len() as int, least, j);
        if longest_name(groups, n) == least && least > 0 {
            let (a, b) = choose|a: int, b: int|
                0 <= a < n - 1 && 0 <= b < groups[a].names.len() && byte_len(#[trigger] groups[a].names[b])
                    == least;
            assert(byte_len(groups[a].names[b]) == longest_name(groups, n));
        } else if longest_name(groups, n) > 0 {
            let b = choose|b: int|
                0 <= b < names.len() && byte_len(#[trigger] names[b]) == longest_name(groups, n);
            assert(byte_len(groups[n - 1].names[b]) == longest_name(groups, n));
        }
    }
}

proof fn lemma_longest(names: Seq<Seq<char>>, n: int, least: nat, j: int)
    requires
        0 <= n <= names.len(),
    ensures
        longest_of(names, n, least) >= least,
        0 <= j < n ==> byte_len(names[j]) <= longest_of(names, n, least),
        longest_of(names, n, least) == least || exists|b: int|
            0 <= b < n && byte_len(#[trigger] names[b]) == longest_of(names, n, least),
    decreases n,
{
    if n > 0 {
        lemma_longest(names, n - 1, least, j);
        if longest_of(names, n, least) == longest_of(names, n - 1, least) {
            if longest_of(names, n, least) != least {
                let b = choose|b: int|
                    0 <= b < n - 1 && byte_len(#[trigger] names[b]) == longest_of(names, n - 1, least);
                assert(byte_len(names[b]) == longest_of(names, n, least));
            }
        } else {
            assert(byte_len(names[n - 1]) == longest_of(names, n, least));
        }
    }
}

/// A group is listed under its title, with its tools in the order of their names, but without the one
/// that is never shown.
pub proof fn law_group_is_listed(group: GroupText, t: ListingText, name: Seq<char>, other: Seq<char>)
    ensures
        group_report(group, t).len() == 3,
        group_report(group, t)[0] == (Ink::Plain, true, group.title + ":\n"@),
        group_report(group, t)[2] == (Ink::Plain, false, "\n"@),
        group.names == seq![name] && name != t.dummy ==> group_report(group, t)[1] == (
            Ink::Plain,
            false,
            tool_line(name, t.longest, t.labels, t.trusted),
        ),
        group.names == seq![name] && name == t.dummy ==> group_report(group, t)[1] == (Ink::Plain, false, ""@),
        group.names == seq![other, name] && name != t.dummy && other != t.dummy && before(name, other, false)
            ==> group_report(group, t)[1] == (
            Ink::Plain,
            false,
            tool_line(name, t.longest, t.labels, t.trusted) + tool_line(other, t.longest, t.labels, t.trusted),
        ),
{
    let p = shown(t.dummy);
    reveal_strlit("");
    reveal_with_fuel(tool_lines, 3);
    if group.names == seq![name] {
        if name != t.dummy {
            lemma_filter_all(group.names, p);
            law_sorting(seq![name], false, 0, 0);
            lemma_sorted_one(name);
            let line = tool_line(name, t.longest, t.labels, t.trusted);
            assert(""@ + line =~= line);
        } else {
            lemma_filter_none(group.names, p);
            lemma_sorted_none();
        }
    }
    if group.names == seq![other, name] && name != t.dummy && other != t.dummy && before(name, other, false) {
        lemma_filter_all(group.names, p);
        lemma_sorted_two(other, name);
        let a = tool_line(name, t.longest, t.labels, t.trusted);
        let b = tool_line(other, t.longest, t.labels, t.trusted);
        assert(""@ + a + b =~= a + b);
    }
}

proof fn lemma_sorted_none()
    ensures
        sorted_texts(seq![], false) == Seq::<Seq<char>>::empty(),
{
    broadcast use vstd::seq_lib::group_to_multiset_ensures;

    law_sorting(seq![], false, 0, 0);
    let s = sorted_texts(seq![], false);
    assert(s.to_multiset().len() == Seq::<Seq<char>>::empty().to_multiset().len());
    assert(s =~= seq![]);
}

proof fn lemma_sorted_one(name: Seq<char>)
    ensures
        sorted_texts(seq![name], false) == seq![name],
{
    broadcast use vstd::seq_lib::group_to_multiset_ensures;

    law_sorting(seq![name], false, 0, 0);
    let v = seq![name];
    let s = sorted_texts(v, false);
    assert(s.to_multiset().len() == v.to_multiset().len());
    assert(s.to_multiset().contains(s[0]));
    assert(v.contains(s[0]));
    assert(s =~= v);
}

proof fn lemma_sorted_two(other: Seq<char>, name: Seq<char>)
    requires
        before(name, other, false),
    ensures
        sorted_texts(seq![other, name], false) == seq![name, other],
{
    broadcast use vstd::seq_lib::group_to_multiset_ensures;

    let v = seq![other, name];
    let s = sorted_texts(v, false);
    law_sorting(v, false, 0, 1);
    assert(s.to_multiset().len() == v.to_multiset().len());
    assert(s.to_multiset().contains(s[0]));
    assert(s.to_multiset().contains(s[1]));
    assert(v.contains(s[0]) && v.contains(s[1]));
    assert(v[0] == other && v[1] == name);
    assert(v.to_multiset().contains(other) && v.to_multiset().contains(name));
    assert(s.contains(other) && s.contains(name));
    assert(s =~= seq![name, other]);
}

/// The tools that are built in come first, then those of the servers, then the servers that are still
/// loading.
pub proof fn law_listing(
    native: GroupText,
    offered: GroupText,
    server: Seq<char>,
    t: ListingText,
    loading: Seq<char>,
    width: nat,
)
    requires
        native.server is None,
        offered.server == Some(server),
    ensures
        listing(seq![offered, native], t, seq![loading], width) == seq![
            (Ink::Plain, false, "\n"@),
            (Ink::Plain, true, "Tool"@ + repeated(' ', t.longest + 2) + "Permission"@),
            (Ink::Plain, false, "\n"@ + repeated('▔', width)),
        ] + group_report(native, t) + group_report(offered, t) + seq![
            (Ink::Plain, true, "Servers still loading"@),
            (Ink::Plain, false, "\n"@ + repeated('▔', width)),
            (Ink::Plain, false, " - "@ + loading + "\n"@),
        ] + seq![
            (Ink::Plain, false, "\nTrusted tools will run without confirmation."@),
            (Ink::DarkGrey, false, "\n* Default settings\n"@),
            (Ink::DarkGrey, false, "\n💡 Use "@),
            (Ink::Green, false, "/tools help"@),
            (Ink::DarkGrey, false, " to edit permissions.\n\n"@),
        ],
        loading_report(seq![], width).len() == 0,
{
    let g = seq![offered, native];
    reveal_with_fuel(native_reports, 3);
    reveal_with_fuel(servers, 3);
    reveal_with_fuel(server_reports, 2);
    assert(servers(g, 2) =~= seq![server]);
    lemma_sorted_one(server);
    assert(find_server(g, server, 0) == 0);
    assert(native_reports(g, 2, t) =~= group_report(native, t));
    assert(server_reports(g, seq![server], 1, t) =~= group_report(offered, t));
    assert(loading_report(seq![loading], width) =~= seq![
        (Ink::Plain, true, "Servers still loading"@),
        (Ink::Plain, false, "\n"@ + repeated('▔', width)),
        (Ink::Plain, false, " - "@ + loading + "\n"@),
    ]);
}

/// One more group: built-in tools are added to the built-in ones, a server to the servers; and the
/// group of a server is the first that names it.
pub proof fn law_one_more_group(groups: Seq<GroupText>, one: GroupText, t: ListingText, server: Seq<char>)
    ensures
        native_reports(groups.push(one), groups.len() as int + 1, t) == native_reports(
            groups,
            groups.len() as int,
            t,
        ) + (if one.server is None {
            group_report(one, t)
        } else {
            seq![]
        }),
        servers(groups.push(one), groups.len() as int + 1) == match one.server {
            Some(s) => servers(groups, groups.len() as int).push(s),
            None => servers(groups, groups.len() as int),
        },
        ({
            let at = find_server(groups, server, 0);
            &&& 0 <= at <= groups.len()
            &&& at < groups.len() ==> groups[at].server == Some(server)
            &&& forall|i: int| 0 <= i < at ==> (#[trigger] groups[i]).server != Some(server)
        }),
{
    lemma_groups_prefix(groups, one, t, groups.len() as int);
    lemma_find_server(groups, server, 0);
    assert(native_reports(groups, groups.len() as int, t) + Seq::<SpanText>::empty() =~= native_reports(
        groups,
        groups.len() as int,
        t,
    ));
}

proof fn lemma_find_server(groups: Seq<GroupText>, server: Seq<char>, from: int)
    requires
        0 <= from <= groups.len(),
    ensures
        from <= find_server(groups, server, from) <= groups.len(),
        find_server(groups, server, from) < groups.len() ==> groups[find_server(groups, server, from)].server
            == Some(server),
        forall|i: int|
            from <= i < find_server(groups, server, from) ==> (#[trigger] groups[i]).server != Some(server),
    decreases groups.len() - from,
{
    if from < groups.len() && groups[from].server != Some(server) {
        lemma_find_server(groups, server, from + 1);
    }
}

proof fn lemma_groups_prefix(groups: Seq<GroupText>, one: GroupText, t: ListingText, n: int)
    requires
        0 <= n <= groups.len(),
    ensures
        native_reports(groups.push(one), n, t) == native_reports(groups, n, t),
        servers(groups.push(one), n) == servers(groups, n),
    decreases n,
{
    if n > 0 {
        lemma_groups_prefix(groups, one, t, n - 1);
    }
}

/// One more tool has its line at the end, and one more server that has a group has that group at the
/// end.
pub proof fn law_one_more_tool(
    names: Seq<Seq<char>>,
    one: Seq<char>,
    groups: Seq<GroupText>,
    t: ListingText,
)
    ensures
        tool_lines(names.push(one), names.len() as int + 1, t.longest, t.labels, t.trusted) == tool_lines(
            names,
            names.len() as int,
            t.longest,
            t.labels,
            t.trusted,
        ) + tool_line(one, t.longest, t.labels, t.trusted),
        forall|at: int|
            0 <= at < groups.len() && (#[trigger] groups[at]).server == Some(one) && (forall|i: int|
                0 <= i < at ==> (#[trigger] groups[i]).server != Some(one)) ==> server_reports(
                groups,
                names.push(one),
                names.len() as int + 1,
                t,
            ) == server_reports(groups, names, names.len() as int, t) + group_report(groups[at], t),
        (forall|i: int| 0 <= i < groups.len() ==> (#[trigger] groups[i]).server != Some(one)) ==> server_reports(
            groups,
            names.push(one),
            names.len() as int + 1,
            t,
        ) == server_reports(groups, names, names.len() as int, t),
        server_reports(groups, seq![], 0, t).len() == 0,
        native_reports(seq![], 0, t).len() == 0,
        servers(seq![], 0).len() == 0,
{
    lemma_names_prefix(names, one, groups, t, names.len() as int);
    lemma_find_server(groups, one, 0);
}

proof fn lemma_names_prefix(
    names: Seq<Seq<char>>,
    one: Seq<char>,
    groups: Seq<GroupText>,
    t: ListingText,
    n: int,
)
    requires
        0 <= n <= names.len(),
    ensures
        tool_lines(names.push(one), n, t.longest, t.labels, t.trusted) == tool_lines(
            names,
            n,
            t.longest,
            t.labels,
            t.trusted,
        ),
        server_reports(groups, names.push(one), n, t) == server_reports(groups, names, n, t),
    decreases n,
{
    if n > 0 {
        lemma_names_prefix(names, one, groups, t, n - 1);
    }
}

} // verus!
