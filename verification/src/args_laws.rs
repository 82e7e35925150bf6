//! Which words make up a `/tools` command.

use vstd::prelude::*;

use crate::tools_args::{
    after_word, no_options, options_end, read_names, read_options, read_slash, read_tools, ErrorText,
    OptionsText, ToolsText,
};

verus! {

/// The first characters of the words that mean something, and how long they are.
proof fn reveal_words()
    ensures
        "-h"@ == seq!['-', 'h'],
        "--help"@ == seq!['-', '-', 'h', 'e', 'l', 'p'],
        "help"@ == seq!['h', 'e', 'l', 'p'],
        "--"@ == seq!['-', '-'],
        "--command"@ == seq!['-', '-', 'c', 'o', 'm', 'm', 'a', 'n', 'd'],
        "--command="@ == seq!['-', '-', 'c', 'o', 'm', 'm', 'a', 'n', 'd', '='],
        "--global"@ == seq!['-', '-', 'g', 'l', 'o', 'b', 'a', 'l'],
        "-g"@ == seq!['-', 'g'],
        "--all"@ == seq!['-', '-', 'a', 'l', 'l'],
        "--description"@ == seq!['-', '-', 'd', 'e', 's', 'c', 'r', 'i', 'p', 't', 'i', 'o', 'n'],
        "--description="@ == seq!['-', '-', 'd', 'e', 's', 'c', 'r', 'i', 'p', 't', 'i', 'o', 'n', '='],
        "execute_bash"@.len() == 12,
        "execute_bash"@[0] == 'e',
        "schema"@.len() == 6,
        "schema"@[0] == 's',
        "trust"@.len() == 5,
        "trust"@[0] == 't',
        "untrust"@.len() == 7,
        "untrust"@[0] == 'u',
        "trust-all"@.len() == 9,
        "trust-all"@[0] == 't',
        "reset"@.len() == 5,
        "reset"@[0] == 'r',
        "reset-single"@.len() == 12,
        "reset-single"@[0] == 'r',
        "allow"@.len() == 5,
        "allow"@[0] == 'a',
        "remove"@.len() == 6,
        "remove"@[0] == 'r',
        "tools"@.len() == 5,
        "tools"@[0] == 't',
        "tools"@[1] == 'o',
        "trust"@[1] == 'r',
{
    reveal_strlit("-h");
    reveal_strlit("--help");
    reveal_strlit("help");
    reveal_strlit("--");
    reveal_strlit("--command");
    reveal_strlit("--command=");
    reveal_strlit("--global");
    reveal_strlit("-g");
    reveal_strlit("--all");
    reveal_strlit("--description");
    reveal_strlit("--description=");
    reveal_strlit("execute_bash");
    reveal_strlit("schema");
    reveal_strlit("trust");
    reveal_strlit("untrust");
    reveal_strlit("trust-all");
    reveal_strlit("reset");
    reveal_strlit("reset-single");
    reveal_strlit("allow");
    reveal_strlit("remove");
    reveal_strlit("tools");
    assert("-h"@ =~= seq!['-', 'h']);
    assert("--help"@ =~= seq!['-', '-', 'h', 'e', 'l', 'p']);
    assert("help"@ =~= seq!['h', 'e', 'l', 'p']);
    assert("--"@ =~= seq!['-', '-']);
    assert("--command"@ =~= seq!['-', '-', 'c', 'o', 'm', 'm', 'a', 'n', 'd']);
    assert("--command="@ =~= seq!['-', '-', 'c', 'o', 'm', 'm', 'a', 'n', 'd', '=']);
    assert("--global"@ =~= seq!['-', '-', 'g', 'l', 'o', 'b', 'a', 'l']);
    assert("-g"@ =~= seq!['-', 'g']);
    assert("--all"@ =~= seq!['-', '-', 'a', 'l', 'l']);
    assert("--description"@ =~= seq!['-', '-', 'd', 'e', 's', 'c', 'r', 'i', 'p', 't', 'i', 'o', 'n']);
    assert("--description="@ =~= seq![
        '-',
        '-',
        'd',
        'e',
        's',
        'c',
        'r',
        'i',
        'p',
        't',
        'i',
        'o',
        'n',
        '=',
    ]);
}

/// Whether a word cannot be taken for an option: it does not begin with a dash, or is a lone dash.
pub open spec fn is_value(word: Seq<char>) -> bool {
    word.len() < 2 || word[0] != '-'
}

/// Tools are named one after the other behind `trust` and `untrust`.
pub proof fn law_named_tools(names: Seq<Seq<char>>)
    requires
        names.len() > 0,
        forall|i: int| 0 <= i < names.len() ==> is_value(#[trigger] names[i]),
    ensures
        read_tools(seq!["trust"@] + names, 0) == Ok::<ToolsText, ErrorText>(ToolsText::Trust(names)),
        read_tools(seq!["untrust"@] + names, 0) == Ok::<ToolsText, ErrorText>(ToolsText::Untrust(names)),
        names.len() == 1 ==> read_tools(seq!["reset-single"@] + names, 0) == Ok::<ToolsText, ErrorText>(
            ToolsText::ResetSingle(names[0]),
        ),
        names.len() > 1 ==> read_tools(seq!["reset-single"@] + names, 0) == Err::<ToolsText, ErrorText>(
            ErrorText::UnexpectedArgument(names[1]),
        ),
        read_tools(seq!["schema"@] + names, 0) == Err::<ToolsText, ErrorText>(
            ErrorText::UnexpectedArgument(names[0]),
        ),
        read_tools(seq!["trust-all"@] + names, 0) == Err::<ToolsText, ErrorText>(
            ErrorText::UnexpectedArgument(names[0]),
        ),
        read_tools(seq!["reset"@] + names, 0) == Err::<ToolsText, ErrorText>(
            ErrorText::UnexpectedArgument(names[0]),
        ),
{
    reveal_words();
    lemma_values(names, seq!["trust"@] + names, 0);
    lemma_values(names, seq!["untrust"@] + names, 0);
    lemma_values(names, seq!["reset-single"@] + names, 0);
    lemma_values(names, seq!["schema"@] + names, 0);
    lemma_values(names, seq!["trust-all"@] + names, 0);
    lemma_values(names, seq!["reset"@] + names, 0);
    assert(names.take(0) =~= seq![]);
}

proof fn lemma_values(names: Seq<Seq<char>>, words: Seq<Seq<char>>, k: int)
    requires
        0 <= k <= names.len(),
        words.len() == 1 + names.len(),
        forall|i: int| 0 <= i < names.len() ==> words[1 + i] == #[trigger] names[i],
        forall|i: int| 0 <= i < names.len() ==> is_value(#[trigger] names[i]),
    ensures
        read_names(names.take(k), words, 1 + k, false) == Ok::<Seq<Seq<char>>, ErrorText>(names),
    decreases names.len() - k,
{
    if k < names.len() {
        assert(words[1 + k] == names[k]);
        assert(is_value(names[k]));
        assert(names.take(k).push(names[k]) =~= names.take(k + 1));
        lemma_values(names, words, k + 1);
    } else {
        assert(names.take(k) =~= names);
    }
}

/// What is missing, or unknown, is told by name.
pub proof fn law_refused_words(word: Seq<char>, rest: Seq<Seq<char>>)
    ensures
        read_tools(seq![], 0) == Err::<ToolsText, ErrorText>(ErrorText::MissingSubcommand),
        read_tools(seq!["trust"@], 0) == Err::<ToolsText, ErrorText>(ErrorText::MissingArgument),
        read_tools(seq!["untrust"@], 0) == Err::<ToolsText, ErrorText>(ErrorText::MissingArgument),
        read_tools(seq!["reset-single"@], 0) == Err::<ToolsText, ErrorText>(ErrorText::MissingArgument),
        read_tools(seq!["allow"@], 0) == Err::<ToolsText, ErrorText>(ErrorText::MissingSubcommand),
        read_tools(seq!["remove"@], 0) == Err::<ToolsText, ErrorText>(ErrorText::MissingSubcommand),
        read_tools(seq!["help"@] + rest, 0) == Err::<ToolsText, ErrorText>(ErrorText::HelpRequested),
        read_tools(seq!["--help"@] + rest, 0) == Err::<ToolsText, ErrorText>(ErrorText::HelpRequested),
        read_tools(seq!["-h"@] + rest, 0) == Err::<ToolsText, ErrorText>(ErrorText::HelpRequested),
        read_tools(seq!["trust"@, "--help"@] + rest, 0) == Err::<ToolsText, ErrorText>(ErrorText::HelpRequested),
        read_tools(seq!["trust"@, "-h"@] + rest, 0) == Err::<ToolsText, ErrorText>(ErrorText::HelpRequested),
        read_tools(seq!["allow"@, "help"@] + rest, 0) == Err::<ToolsText, ErrorText>(ErrorText::HelpRequested),
        read_tools(seq!["allow"@, "--help"@] + rest, 0) == Err::<ToolsText, ErrorText>(ErrorText::HelpRequested),
        read_tools(seq!["remove"@, "-h"@] + rest, 0) == Err::<ToolsText, ErrorText>(ErrorText::HelpRequested),
        !is_value(word) && word != "--"@ && word != "-h"@ && word != "--help"@ ==> read_tools(
            seq!["trust"@, word] + rest,
            0,
        ) == Err::<ToolsText, ErrorText>(ErrorText::UnexpectedArgument(word)),
        !is_value(word) && word != "-h"@ && word != "--help"@ ==> read_tools(seq![word] + rest, 0) == Err::<
            ToolsText,
            ErrorText,
        >(ErrorText::UnexpectedArgument(word)),
        is_value(word) && word != "execute_bash"@ && word != "help"@ ==> read_tools(
            seq!["allow"@, word] + rest,
            0,
        ) == Err::<ToolsText, ErrorText>(ErrorText::UnknownSubcommand(word)),
        is_value(word) && word != "execute_bash"@ && word != "help"@ ==> read_tools(
            seq!["remove"@, word] + rest,
            0,
        ) == Err::<ToolsText, ErrorText>(ErrorText::UnknownSubcommand(word)),
        is_value(word) && word != "allow"@ && word != "remove"@ && word != "trust"@ && word != "untrust"@
            && word != "reset-single"@ && word != "schema"@ && word != "trust-all"@ && word != "reset"@
            && word != "help"@ ==> read_tools(seq![word] + rest, 0) == Err::<ToolsText, ErrorText>(
            ErrorText::UnknownSubcommand(word),
        ),
{
    reveal_words();
    reveal_with_fuel(read_names, 2);
    let a = seq!["trust"@, "--help"@] + rest;
    assert(a[0] == "trust"@ && a[1] == "--help"@);
    let b = seq!["trust"@, "-h"@] + rest;
    assert(b[0] == "trust"@ && b[1] == "-h"@);
    let c = seq!["trust"@, word] + rest;
    assert(c[0] == "trust"@ && c[1] == word);
    let d = seq!["allow"@, word] + rest;
    assert(d[0] == "allow"@ && d[1] == word);
    let e = seq!["remove"@, word] + rest;
    assert(e[0] == "remove"@ && e[1] == word);
    let f = seq!["allow"@, "help"@] + rest;
    assert(f[0] == "allow"@ && f[1] == "help"@);
    let g = seq!["allow"@, "--help"@] + rest;
    assert(g[0] == "allow"@ && g[1] == "--help"@);
    let h = seq!["remove"@, "-h"@] + rest;
    assert(h[0] == "remove"@ && h[1] == "-h"@);
    assert((seq![word] + rest)[0] == word);
    assert((seq!["help"@] + rest)[0] == "help"@);
    assert((seq!["--help"@] + rest)[0] == "--help"@);
    assert((seq!["-h"@] + rest)[0] == "-h"@);
}

/// Patterns that follow `--command` are taken up to the next option; `-g` is short for `--global`, and
/// the description follows its option.
pub proof fn law_patterns_follow(patterns: Seq<Seq<char>>, description: Seq<char>)
    requires
        patterns.len() > 0,
        forall|i: int| 0 <= i < patterns.len() ==> is_value(#[trigger] patterns[i]),
        is_value(description),
    ensures
        read_tools(seq!["allow"@, "execute_bash"@, "--command"@] + patterns, 0) == Ok::<ToolsText, ErrorText>(
            ToolsText::Allow { command: patterns, description: None, global: false },
        ),
        read_tools(seq!["remove"@, "execute_bash"@, "--command"@] + patterns, 0) == Ok::<ToolsText, ErrorText>(
            ToolsText::Remove { command: patterns, global: false, all: false },
        ),
        read_tools(seq!["remove"@, "execute_bash"@, "-g"@, "--command"@] + patterns, 0) == Ok::<
            ToolsText,
            ErrorText,
        >(ToolsText::Remove { command: patterns, global: true, all: false }),
        read_tools(
            seq!["allow"@, "execute_bash"@, "--description"@, description, "-g"@, "--command"@] + patterns,
            0,
        ) == Ok::<ToolsText, ErrorText>(
            ToolsText::Allow { command: patterns, description: Some(description), global: true },
        ),
{
    reveal_words();
    let start = no_options();
    let global = OptionsText { global: true, ..start };
    let described = OptionsText { description: Some(description), ..start };
    let wanted = OptionsText { wants_description: true, ..start };
    let both = OptionsText { description: Some(description), global: true, ..start };
    let w1 = seq!["allow"@, "execute_bash"@, "--command"@] + patterns;
    let w2 = seq!["remove"@, "execute_bash"@, "--command"@] + patterns;
    let w3 = seq!["remove"@, "execute_bash"@, "-g"@, "--command"@] + patterns;
    let w4 = seq!["allow"@, "execute_bash"@, "--description"@, description, "-g"@, "--command"@] + patterns;
    assert(w1[0] == "allow"@ && w1[1] == "execute_bash"@ && w1[2] == "--command"@);
    assert(w2[0] == "remove"@ && w2[1] == "execute_bash"@ && w2[2] == "--command"@);
    assert(w3[0] == "remove"@ && w3[1] == "execute_bash"@ && w3[2] == "-g"@ && w3[3] == "--command"@);
    assert(w4[0] == "allow"@ && w4[1] == "execute_bash"@ && w4[2] == "--description"@ && w4[3] == description
        && w4[4] == "-g"@ && w4[5] == "--command"@);
    lemma_taken(start, patterns, w1, 2, true);
    lemma_taken(start, patterns, w2, 2, false);
    lemma_taken(global, patterns, w3, 3, false);
    lemma_taken(both, patterns, w4, 5, true);
    assert(after_word(start, "-g"@, false) == Ok::<OptionsText, ErrorText>(global));
    assert(read_options(start, w3, 2, false) == read_options(global, w3, 3, false));
    assert(after_word(start, "--description"@, true) == Ok::<OptionsText, ErrorText>(wanted)) by {
        if crate::text::starts_with_text("--description"@, "--command="@) {
            assert("--description"@.subrange(0, 10)[2] == 'd');
        }
    }
    assert(after_word(wanted, description, true) == Ok::<OptionsText, ErrorText>(described));
    assert(after_word(described, "-g"@, true) == Ok::<OptionsText, ErrorText>(both));
    assert(read_options(start, w4, 2, true) == read_options(wanted, w4, 3, true));
    assert(read_options(wanted, w4, 3, true) == read_options(described, w4, 4, true));
    assert(read_options(described, w4, 4, true) == read_options(both, w4, 5, true));
}

/// `--command` and the patterns after it, up to the last word.
proof fn lemma_taken(state: OptionsText, patterns: Seq<Seq<char>>, words: Seq<Seq<char>>, at: int, allow: bool)
    requires
        patterns.len() > 0,
        forall|i: int| 0 <= i < patterns.len() ==> is_value(#[trigger] patterns[i]),
        0 <= at,
        words.len() == at + 1 + patterns.len(),
        words[at] == "--command"@,
        forall|i: int| 0 <= i < patterns.len() ==> words[at + 1 + i] == #[trigger] patterns[i],
        state.command.len() == 0,
        !state.all,
        !state.ended,
        !state.wants_command,
        !state.wants_description,
    ensures
        read_options(state, words, at, allow) == if allow {
            Ok::<ToolsText, ErrorText>(
                ToolsText::Allow {
                    command: patterns,
                    description: state.description,
                    global: state.global,
                },
            )
        } else {
            Ok::<ToolsText, ErrorText>(
                ToolsText::Remove { command: patterns, global: state.global, all: false },
            )
        },
{
    reveal_words();
    let taking = OptionsText { taking: true, wants_command: true, ..state };
    assert(after_word(state, "--command"@, allow) == Ok::<OptionsText, ErrorText>(taking));
    assert(read_options(state, words, at, allow) == read_options(taking, words, at + 1, allow));
    assert(patterns.take(0) =~= state.command);
    lemma_taken_from(taking, patterns, words, at + 1, 0, allow);
}

proof fn lemma_taken_from(
    state: OptionsText,
    patterns: Seq<Seq<char>>,
    words: Seq<Seq<char>>,
    from: int,
    k: int,
    allow: bool,
)
    requires
        0 <= k <= patterns.len(),
        patterns.len() > 0,
        from >= 0,
        forall|i: int| 0 <= i < patterns.len() ==> is_value(#[trigger] patterns[i]),
        words.len() == from + patterns.len(),
        forall|i: int| 0 <= i < patterns.len() ==> words[from + i] == #[trigger] patterns[i],
        state.command == patterns.take(k),
        state.taking,
        k > 0 ==> !state.wants_command,
        !state.all,
        !state.ended,
        !state.wants_description,
    ensures
        read_options(state, words, from + k, allow) == if allow {
            Ok::<ToolsText, ErrorText>(
                ToolsText::Allow {
                    command: patterns,
                    description: state.description,
                    global: state.global,
                },
            )
        } else {
            Ok::<ToolsText, ErrorText>(
                ToolsText::Remove { command: patterns, global: state.global, all: false },
            )
        },
    decreases patterns.len() - k,
{
    if k < patterns.len() {
        assert(words[from + k] == patterns[k]);
        assert(is_value(patterns[k]));
        let next = OptionsText { command: patterns.take(k + 1), wants_command: false, ..state };
        assert(patterns.take(k).push(patterns[k]) =~= patterns.take(k + 1));
        assert(after_word(state, patterns[k], allow) == Ok::<OptionsText, ErrorText>(next));
        lemma_taken_from(next, patterns, words, from, k + 1, allow);
    } else {
        assert(patterns.take(k) =~= patterns);
    }
}

/// Options are refused where their value is missing, where they are given twice, and where they do
/// not belong to the command.
pub proof fn law_refused_options(word: Seq<char>, rest: Seq<Seq<char>>)
    ensures
        read_tools(seq!["allow"@, "execute_bash"@], 0) == Err::<ToolsText, ErrorText>(
            ErrorText::MissingArgument,
        ),
        read_tools(seq!["remove"@, "execute_bash"@], 0) == Err::<ToolsText, ErrorText>(
            ErrorText::MissingArgument,
        ),
        read_tools(seq!["allow"@, "execute_bash"@, "--command"@], 0) == Err::<ToolsText, ErrorText>(
            ErrorText::MissingValue("--command"@),
        ),
        read_tools(seq!["allow"@, "execute_bash"@, "--description"@], 0) == Err::<ToolsText, ErrorText>(
            ErrorText::MissingValue("--description"@),
        ),
        read_tools(seq!["allow"@, "execute_bash"@, "--command"@, "--global"@] + rest, 0) == Err::<
            ToolsText,
            ErrorText,
        >(ErrorText::MissingValue("--command"@)),
        read_tools(seq!["allow"@, "execute_bash"@, "--global"@, "-g"@] + rest, 0) == Err::<
            ToolsText,
            ErrorText,
        >(ErrorText::RepeatedOption("--global"@)),
        read_tools(seq!["remove"@, "execute_bash"@, "--all"@, "--all"@] + rest, 0) == Err::<
            ToolsText,
            ErrorText,
        >(ErrorText::RepeatedOption("--all"@)),
        read_tools(seq!["allow"@, "execute_bash"@, "--all"@] + rest, 0) == Err::<ToolsText, ErrorText>(
            ErrorText::UnexpectedArgument("--all"@),
        ),
        read_tools(seq!["remove"@, "execute_bash"@, "--description"@] + rest, 0) == Err::<ToolsText, ErrorText>(
            ErrorText::UnexpectedArgument("--description"@),
        ),
        is_value(word) ==> read_tools(seq!["allow"@, "execute_bash"@, word] + rest, 0) == Err::<
            ToolsText,
            ErrorText,
        >(ErrorText::UnexpectedArgument(word)),
        read_tools(seq!["allow"@, "execute_bash"@, "--"@, word] + rest, 0)
            == Err::<ToolsText, ErrorText>(ErrorText::UnexpectedArgument(word)),
        is_value(word) ==> read_tools(seq!["remove"@, "execute_bash"@, "--all"@, "--command"@, word], 0)
            == Err::<ToolsText, ErrorText>(ErrorText::CommandWithAll),
        read_tools(seq!["remove"@, "execute_bash"@, "--all"@], 0) == Ok::<ToolsText, ErrorText>(
            ToolsText::Remove { command: seq![], global: false, all: true },
        ),
{
    reveal_words();
    reveal_with_fuel(read_options, 4);
    let start = no_options();
    let taking = OptionsText { taking: true, wants_command: true, ..start };
    let wanted = OptionsText { wants_description: true, ..start };
    let global = OptionsText { global: true, ..start };
    let all = OptionsText { all: true, ..start };
    let ended = OptionsText { ended: true, ..start };
    let all_taking = OptionsText { taking: true, wants_command: true, ..all };
    assert(after_word(start, "--command"@, true) == Ok::<OptionsText, ErrorText>(taking));
    assert(!crate::text::starts_with_text("--description"@, "--command="@)) by {
        if crate::text::starts_with_text("--description"@, "--command="@) {
            assert("--description"@.subrange(0, 10)[2] == 'd');
        }
    }
    assert(after_word(start, "--description"@, true) == Ok::<OptionsText, ErrorText>(wanted));
    assert(after_word(start, "--global"@, true) == Ok::<OptionsText, ErrorText>(global));
    assert(after_word(start, "--all"@, false) == Ok::<OptionsText, ErrorText>(all));
    assert(after_word(start, "--"@, true) == Ok::<OptionsText, ErrorText>(ended));
    assert(after_word(all, "--command"@, false) == Ok::<OptionsText, ErrorText>(all_taking));
    let w0 = seq!["allow"@, "execute_bash"@];
    assert(read_tools(w0, 0) == options_end(start, true));
    let w1 = seq!["remove"@, "execute_bash"@];
    assert(read_tools(w1, 0) == options_end(start, false));
    let w2 = seq!["allow"@, "execute_bash"@, "--command"@];
    assert(read_options(start, w2, 2, true) == read_options(taking, w2, 3, true));
    let w3 = seq!["allow"@, "execute_bash"@, "--description"@];
    assert(read_options(start, w3, 2, true) == read_options(wanted, w3, 3, true));
    let w4 = seq!["allow"@, "execute_bash"@, "--command"@, "--global"@] + rest;
    assert(w4[0] == "allow"@ && w4[1] == "execute_bash"@ && w4[2] == "--command"@ && w4[3] == "--global"@);
    assert(read_options(start, w4, 2, true) == read_options(taking, w4, 3, true));
    let w5 = seq!["allow"@, "execute_bash"@, "--global"@, "-g"@] + rest;
    assert(w5[0] == "allow"@ && w5[1] == "execute_bash"@ && w5[2] == "--global"@ && w5[3] == "-g"@);
    assert(read_options(start, w5, 2, true) == read_options(global, w5, 3, true));
    let w6 = seq!["remove"@, "execute_bash"@, "--all"@, "--all"@] + rest;
    assert(w6[0] == "remove"@ && w6[1] == "execute_bash"@ && w6[2] == "--all"@ && w6[3] == "--all"@);
    assert(read_options(start, w6, 2, false) == read_options(all, w6, 3, false));
    let w7 = seq!["allow"@, "execute_bash"@, "--all"@] + rest;
    assert(w7[0] == "allow"@ && w7[1] == "execute_bash"@ && w7[2] == "--all"@);
    assert(after_word(start, "--all"@, true) == Err::<OptionsText, ErrorText>(
        ErrorText::UnexpectedArgument("--all"@),
    ));
    let w8 = seq!["remove"@, "execute_bash"@, "--description"@] + rest;
    assert(w8[0] == "remove"@ && w8[1] == "execute_bash"@ && w8[2] == "--description"@);
    let w9 = seq!["allow"@, "execute_bash"@, word] + rest;
    assert(w9[0] == "allow"@ && w9[1] == "execute_bash"@ && w9[2] == word);
    let w10 = seq!["allow"@, "execute_bash"@, "--"@, word] + rest;
    assert(w10[0] == "allow"@ && w10[1] == "execute_bash"@ && w10[2] == "--"@ && w10[3] == word);
    assert(read_options(start, w10, 2, true) == read_options(ended, w10, 3, true));
    let w11 = seq!["remove"@, "execute_bash"@, "--all"@, "--command"@, word];
    assert(w11[2] == "--all"@ && w11[3] == "--command"@ && w11[4] == word);
    assert(read_options(start, w11, 2, false) == read_options(all, w11, 3, false));
    assert(read_options(all, w11, 3, false) == read_options(all_taking, w11, 4, false));
    let w12 = seq!["remove"@, "execute_bash"@, "--all"@];
    assert(read_options(start, w12, 2, false) == read_options(all, w12, 3, false));
}

/// A slash command that is `/tools` alone asks for nothing else; with more words it asks for what
/// these say.
pub proof fn law_slash_command(words: Seq<Seq<char>>, first: Seq<char>)
    ensures
        read_slash(seq!["tools"@]) == Ok::<Option<ToolsText>, ErrorText>(None),
        read_slash(seq![]) == Err::<Option<ToolsText>, ErrorText>(ErrorText::MissingSubcommand),
        first != "tools"@ ==> read_slash(seq![first] + words) == Err::<Option<ToolsText>, ErrorText>(
            ErrorText::UnknownSubcommand(first),
        ),
        words.len() > 0 ==> read_slash(seq!["tools"@] + words) == match read_tools(
            seq!["tools"@] + words,
            1,
        ) {
            Ok(s) => Ok::<Option<ToolsText>, ErrorText>(Some(s)),
            Err(e) => Err::<Option<ToolsText>, ErrorText>(e),
        },
{
}

} // verus!
